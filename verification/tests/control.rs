use std::collections::BTreeMap;
use std::sync::Arc;

use airtouch5_webui::automation::{
    control_changed, AutomationConfig, AutomationStore, IdleOffStatus, SetpointOffStatus,
};
use airtouch5_webui::manager::command::{
    settle, AcControlReq, AcMode, AcPower, Command, FanSpeed, Reply, ZoneControlReq, ZonePower,
};
use airtouch5_webui::manager::snapshot::{
    AcStatusView, AcView, BulkModeView, ConsoleInfo, ControlModeView, SensorView, Snapshot,
    Temperature, ZonePowerView, ZoneView,
};
use airtouch5_webui::manager::ManagerHandle;
use airtouch5_webui::scenes::{SceneConfig, SceneStore};
use airtouch5_webui::templates::Fragment;
use airtouch5_webui::web::error::AppError;
use airtouch5_webui::web::form::field;
use airtouch5_webui::web::handlers::{ac, pages, zone};
use airtouch5_webui::web::interaction::{Answer, Interaction};
use airtouch5_webui::web::state::AppState;

fn ac_view(id: u8, power: Option<&'static str>) -> AcView {
    AcView {
        id,
        name: format!("AC {}", id),
        zone_start_index: 0,
        zone_count: 2,
        supported_modes: vec!["Heat", "Cool"],
        supported_fan_speeds: vec!["Low"],
        setpoint_cool: (16, 30),
        setpoint_heat: (16, 30),
        status: Some(AcStatusView {
            power,
            mode: Some("Heat"),
            fan_speed: Some(("Low", false)),
            setpoint: Some(Temperature { deci: 220 }),
            temperature: Some(Temperature { deci: 205 }),
            flags: vec![],
            error: None,
        }),
    }
}

fn zone_view(id: u8, power: ZonePowerView) -> ZoneView {
    ZoneView {
        id,
        name: format!("Zone {}", id),
        ac_id: Some(0),
        ac_mode_slug: Some("heat"),
        power,
        has_sensor: true,
        control_mode: ControlModeView::Airflow,
        airflow_pct: 50,
        setpoint: None,
        sensor: Some(SensorView::NotAvailable),
        flags: vec![],
    }
}

fn state_of(acs: Vec<AcView>, zones: Vec<ZoneView>) -> AppState {
    AppState {
        manager: ManagerHandle { snapshot: Arc::new(snapshot_of(acs, zones)) },
        automation: AutomationStore {
            config: AutomationConfig { setpoint_off: false, idle_off_min: None },
            setpoint_off: SetpointOffStatus { badge: None },
            idle_off: IdleOffStatus { badge: None },
        },
        scenes: SceneStore { config: SceneConfig { scenes: vec![] }, active: None },
    }
}

fn snapshot_of(acs: Vec<AcView>, zones: Vec<ZoneView>) -> Snapshot {
    Snapshot {
        connected: true,
        console: ConsoleInfo {
            name: "Home".to_string(),
            address: "192.168.1.2".to_string(),
            airtouch_id: 13,
            console_id: "c".to_string(),
            versions: vec!["1.2".to_string()],
            update_available: false,
        },
        acs: acs.into_iter().map(|a| (a.id, a)).collect::<BTreeMap<_, _>>(),
        zones: zones.into_iter().map(|z| (z.id, z)).collect::<BTreeMap<_, _>>(),
        bulk_mode: BulkModeView::Airflow,
    }
}

fn form(pairs: &[(&str, &str)]) -> Vec<(String, String)> {
    pairs.iter().map(|(k, v)| (k.to_string(), v.to_string())).collect()
}

fn zone_cmd(id: u8, req: ZoneControlReq) -> Command {
    Command::ControlZone { id, req }
}

fn ac_cmd(id: u8, req: AcControlReq) -> Command {
    Command::ControlAc { id, req }
}

fn sent(r: Result<Interaction, AppError>) -> Vec<Command> {
    let i = r.unwrap();
    assert_eq!(i.done, 0);
    i.commands
}

fn refused(r: Result<Interaction, AppError>) -> String {
    r.unwrap_err().message
}

#[test]
fn first_field_counts() {
    let f = form(&[("a", "1"), ("b", "2"), ("b", "3")]);
    assert_eq!(field(&f, "b"), "2");
    assert_eq!(field(&f, "c"), "");
}

#[test]
fn zone_power_words() {
    for (word, power) in [
        ("on", ZonePower::On),
        ("off", ZonePower::Off),
        ("turbo", ZonePower::Turbo),
        ("toggle", ZonePower::Toggle),
    ] {
        let i = zone::power(3, &form(&[("power", word)])).unwrap();
        assert_eq!(i.commands, vec![zone_cmd(3, ZoneControlReq::Power(power))]);
        assert_eq!(i.answer, Answer::Zone(3));
    }
    assert_eq!(refused(zone::power(3, &form(&[("power", "a\"b")]))), "unknown power: \"a\\\"b\"");
    assert_eq!(refused(zone::power(3, &form(&[]))), "unknown power: \"\"");
}

#[test]
fn control_type_switches_by_a_value() {
    let mut warm = zone_view(1, ZonePowerView::Off);
    warm.setpoint = Some(Temperature { deci: 300 });
    let mut bare = zone_view(2, ZonePowerView::On);
    bare.has_sensor = false;
    let state = state_of(vec![], vec![zone_view(0, ZonePowerView::Off), warm, bare]);
    let to = |id: u8, word: &str| zone::control_type(&state, id, &form(&[("type", word)]));
    assert_eq!(sent(to(0, "airflow")), vec![zone_cmd(0, ZoneControlReq::SetAirflow(50))]);
    assert_eq!(
        sent(to(0, "temperature")),
        vec![zone_cmd(0, ZoneControlReq::SetTemperature(Temperature { deci: 200 }))]
    );
    assert_eq!(
        sent(to(1, "temperature")),
        vec![zone_cmd(1, ZoneControlReq::SetTemperature(Temperature { deci: 250 }))]
    );
    assert_eq!(refused(to(2, "temperature")), "zone has no sensor; cannot temperature-control");
    assert_eq!(sent(to(2, "airflow")), vec![zone_cmd(2, ZoneControlReq::SetAirflow(50))]);
    assert_eq!(refused(to(0, "x")), "unknown control type: \"x\"");
    assert_eq!(refused(to(9, "x")), "zone 9 not found");
}

#[test]
fn toggling_the_control_type() {
    let mut warm = zone_view(1, ZonePowerView::On);
    warm.control_mode = ControlModeView::Temperature;
    warm.setpoint = Some(Temperature { deci: 215 });
    let mut odd = zone_view(2, ZonePowerView::On);
    odd.control_mode = ControlModeView::Unknown;
    odd.has_sensor = false;
    let state = state_of(vec![], vec![zone_view(0, ZonePowerView::On), warm, odd]);
    assert_eq!(
        sent(zone::toggle_control_type(&state, 0)),
        vec![zone_cmd(0, ZoneControlReq::SetTemperature(Temperature { deci: 200 }))]
    );
    assert_eq!(
        sent(zone::toggle_control_type(&state, 1)),
        vec![zone_cmd(1, ZoneControlReq::SetAirflow(50))]
    );
    assert_eq!(
        refused(zone::toggle_control_type(&state, 2)),
        "zone has no sensor; cannot temperature-control"
    );
    assert_eq!(refused(zone::toggle_control_type(&state, 7)), "zone 7 not found");
}

#[test]
fn steps_within_the_limits() {
    for (pct, dir, expected) in
        [(50, "up", 55), (50, "down", 45), (98, "up", 100), (3, "down", 0), (0, "down", 0), (255, "up", 100)]
    {
        let mut z = zone_view(4, ZonePowerView::Off);
        z.airflow_pct = pct;
        let state = state_of(vec![], vec![z]);
        assert_eq!(
            sent(zone::step(&state, 4, &form(&[("dir", dir)]))),
            vec![zone_cmd(4, ZoneControlReq::SetAirflow(expected))]
        );
    }
    for (deci, dir, expected) in [
        (Some(215), "up", 225),
        (Some(215), "down", 205),
        (Some(245), "up", 250),
        (Some(105), "down", 100),
        (None, "up", 210),
        (Some(i16::MAX), "up", 250),
        (Some(i16::MIN), "down", 100),
    ] {
        let mut z = zone_view(4, ZonePowerView::Off);
        z.control_mode = ControlModeView::Temperature;
        z.setpoint = deci.map(|deci| Temperature { deci });
        let state = state_of(vec![], vec![z]);
        assert_eq!(
            sent(zone::step(&state, 4, &form(&[("dir", dir)]))),
            vec![zone_cmd(4, ZoneControlReq::SetTemperature(Temperature { deci: expected }))]
        );
    }
    let state = state_of(vec![], vec![]);
    assert_eq!(refused(zone::step(&state, 4, &form(&[("dir", "left")]))), "unknown dir: \"left\"");
    assert_eq!(refused(zone::step(&state, 4, &form(&[("dir", "up")]))), "zone 4 not found");
}

#[test]
fn a_step_back_undoes_a_step() {
    let mut z = zone_view(0, ZonePowerView::On);
    z.airflow_pct = 55;
    let state = state_of(vec![], vec![z]);
    assert_eq!(
        sent(zone::step(&state, 0, &form(&[("dir", "down")]))),
        vec![zone_cmd(0, ZoneControlReq::SetAirflow(50))]
    );
}

#[test]
fn toggling_twice_comes_back() {
    let state = state_of(vec![], vec![zone_view(0, ZonePowerView::Off)]);
    assert_eq!(
        sent(zone::toggle_control_type(&state, 0)),
        vec![zone_cmd(0, ZoneControlReq::SetTemperature(Temperature { deci: 200 }))]
    );
    let mut after = zone_view(0, ZonePowerView::Off);
    after.control_mode = ControlModeView::Temperature;
    after.setpoint = Some(Temperature { deci: 200 });
    let state = state_of(vec![], vec![after]);
    assert_eq!(
        sent(zone::toggle_control_type(&state, 0)),
        vec![zone_cmd(0, ZoneControlReq::SetAirflow(50))]
    );
}

#[test]
fn airflow_and_setpoint() {
    assert_eq!(
        sent(zone::airflow(2, &form(&[("pct", "65")]))),
        vec![zone_cmd(2, ZoneControlReq::SetAirflow(65))]
    );
    assert_eq!(refused(zone::airflow(2, &form(&[("pct", "101")]))), "invalid airflow: \"101\"");
    let mut bare = zone_view(3, ZonePowerView::On);
    bare.has_sensor = false;
    let state = state_of(vec![ac_view(1, None)], vec![zone_view(2, ZonePowerView::Off), bare]);
    let warm = |id: u8, temp: &str| zone::setpoint(&state, id, &form(&[("temp", temp)]));
    let t225 = ZoneControlReq::SetTemperature(Temperature { deci: 225 });
    assert_eq!(sent(warm(2, "22.5")), vec![zone_cmd(2, t225)]);
    assert_eq!(sent(warm(9, "22.5")), vec![zone_cmd(9, t225)]);
    assert_eq!(refused(warm(3, "22.5")), "zone has no sensor; cannot temperature-control");
    assert_eq!(refused(warm(3, "30")), "invalid setpoint: \"30\"");
    assert_eq!(refused(zone::setpoint_read(&state, 2, "x", None)), "invalid setpoint: \"x\"");
    assert_eq!(
        sent(ac::setpoint(&state, 1, &form(&[("temp", "18")]))),
        vec![ac_cmd(1, AcControlReq::Setpoint(Temperature { deci: 180 }))]
    );
    assert_eq!(refused(ac::setpoint(&state, 1, &form(&[]))), "invalid setpoint: \"\"");
}

#[test]
fn an_ac_takes_setpoints_of_its_ranges() {
    let mut unit = ac_view(0, Some("On"));
    unit.setpoint_cool = (18, 20);
    unit.setpoint_heat = (22, 24);
    let state = state_of(vec![unit], vec![]);
    let out = "setpoint is outside the range of this AC";
    for (deci, ok) in [
        (179, false),
        (180, true),
        (200, true),
        (201, false),
        (219, false),
        (220, true),
        (240, true),
        (241, false),
    ] {
        let r = ac::setpoint_read(&state, 0, "t", Some(deci));
        if ok {
            assert_eq!(
                sent(r),
                vec![ac_cmd(0, AcControlReq::Setpoint(Temperature { deci }))]
            );
        } else {
            assert_eq!(refused(r), out);
        }
    }
    assert_eq!(refused(ac::setpoint(&state, 0, &form(&[("temp", "21")]))), out);
    assert_eq!(
        sent(ac::setpoint(&state, 5, &form(&[("temp", "21")]))),
        vec![ac_cmd(5, AcControlReq::Setpoint(Temperature { deci: 210 }))]
    );
}

#[test]
fn all_zones_on_leaves_turbo_alone() {
    let state = state_of(
        vec![],
        vec![
            zone_view(9, ZonePowerView::Off),
            zone_view(1, ZonePowerView::Turbo),
            zone_view(4, ZonePowerView::Off),
            zone_view(2, ZonePowerView::On),
        ],
    );
    let i = zone::set_all_power(&state, &form(&[("power", "on")])).unwrap();
    assert_eq!(
        i.commands,
        vec![
            zone_cmd(4, ZoneControlReq::Power(ZonePower::On)),
            zone_cmd(9, ZoneControlReq::Power(ZonePower::On)),
        ]
    );
    assert_eq!(i.answer, Answer::Zones(None));
    assert_eq!(
        sent(zone::set_all_power(&state, &form(&[("power", "off")]))),
        vec![
            zone_cmd(1, ZoneControlReq::Power(ZonePower::Off)),
            zone_cmd(2, ZoneControlReq::Power(ZonePower::Off)),
        ]
    );
    assert_eq!(
        refused(zone::set_all_power(&state, &form(&[("power", "turbo")]))),
        "unknown power: \"turbo\""
    );
}

#[test]
fn all_zones_to_a_value() {
    let mut bare = zone_view(3, ZonePowerView::Off);
    bare.has_sensor = false;
    let state = state_of(
        vec![],
        vec![zone_view(5, ZonePowerView::Off), bare, zone_view(0, ZonePowerView::On)],
    );
    let i = zone::set_all_preset(&state, &form(&[("mode", "airflow"), ("value", "30")])).unwrap();
    assert_eq!(
        i.commands,
        vec![
            zone_cmd(0, ZoneControlReq::SetAirflow(30)),
            zone_cmd(3, ZoneControlReq::SetAirflow(30)),
            zone_cmd(5, ZoneControlReq::SetAirflow(30)),
        ]
    );
    assert_eq!(i.answer, Answer::Zones(Some(BulkModeView::Airflow)));
    let i = zone::set_all_preset(&state, &form(&[("mode", "temperature"), ("value", "21.0")]));
    let i = i.unwrap();
    let t = ZoneControlReq::SetTemperature(Temperature { deci: 210 });
    assert_eq!(i.commands, vec![zone_cmd(0, t), zone_cmd(5, t)]);
    assert_eq!(i.answer, Answer::Zones(Some(BulkModeView::Temperature)));
    let bad = |mode: &str, value: &str| {
        refused(zone::set_all_preset(&state, &form(&[("mode", mode), ("value", value)])))
    };
    assert_eq!(bad("airflow", "x"), "invalid airflow: \"x\"");
    assert_eq!(bad("temperature", "99"), "invalid setpoint: \"99\"");
    assert_eq!(bad("both", "1"), "unknown mode: \"both\"");
}

#[test]
fn an_ac_needs_an_open_zone_to_start() {
    let to = |state: &AppState, id: u8, word: &str| ac::power(state, id, &form(&[("power", word)]));
    let guard = "turn on at least one zone for this AC before starting it";
    let mut other = zone_view(1, ZonePowerView::On);
    other.ac_id = Some(1);
    let shut = state_of(vec![ac_view(0, Some("Off"))], vec![zone_view(0, ZonePowerView::Off), other]);
    assert_eq!(refused(to(&shut, 0, "on")), guard);
    assert_eq!(refused(to(&shut, 0, "toggle")), guard);
    assert_eq!(sent(to(&shut, 0, "off")), vec![ac_cmd(0, AcControlReq::Power(AcPower::Off))]);
    assert_eq!(sent(to(&shut, 0, "away")), vec![ac_cmd(0, AcControlReq::Power(AcPower::Away))]);
    assert_eq!(sent(to(&shut, 0, "sleep")), vec![ac_cmd(0, AcControlReq::Power(AcPower::Sleep))]);
    assert_eq!(sent(to(&shut, 7, "on")), vec![ac_cmd(7, AcControlReq::Power(AcPower::On))]);
    assert_eq!(refused(to(&shut, 0, "x")), "unknown power: \"x\"");
    for power in ["On", "Sleep", "AwayOff", "AwayOn"] {
        let running = state_of(vec![ac_view(0, Some(power))], vec![]);
        assert_eq!(
            sent(to(&running, 0, "toggle")),
            vec![ac_cmd(0, AcControlReq::Power(AcPower::Toggle))]
        );
    }
    let unknown = state_of(vec![ac_view(0, None)], vec![]);
    assert_eq!(refused(to(&unknown, 0, "toggle")), guard);
    let open = state_of(vec![ac_view(0, Some("Off"))], vec![zone_view(0, ZonePowerView::Turbo)]);
    assert_eq!(sent(to(&open, 0, "on")), vec![ac_cmd(0, AcControlReq::Power(AcPower::On))]);
}

#[test]
fn ac_modes_and_fans() {
    for (word, mode) in [
        ("auto", AcMode::Auto),
        ("heat", AcMode::Heat),
        ("dry", AcMode::Dry),
        ("fan", AcMode::Fan),
        ("cool", AcMode::Cool),
    ] {
        assert_eq!(
            sent(ac::mode(1, &form(&[("mode", word)]))),
            vec![ac_cmd(1, AcControlReq::Mode(mode))]
        );
    }
    for (word, fan) in [
        ("auto", FanSpeed::Auto),
        ("quiet", FanSpeed::Quiet),
        ("low", FanSpeed::Low),
        ("medium", FanSpeed::Medium),
        ("high", FanSpeed::High),
        ("powerful", FanSpeed::Powerful),
        ("turbo", FanSpeed::Turbo),
        ("intelligentauto", FanSpeed::IntelligentAuto),
    ] {
        assert_eq!(
            sent(ac::fan(1, &form(&[("fan", word)]))),
            vec![ac_cmd(1, AcControlReq::FanSpeed(fan))]
        );
    }
    assert_eq!(refused(ac::mode(1, &form(&[("mode", "Heat")]))), "unknown mode: \"Heat\"");
    assert_eq!(refused(ac::fan(1, &form(&[("fan", "")]))), "unknown fan: \"\"");
}

#[test]
fn replies_settle_a_command() {
    assert_eq!(settle(Reply::Done), Ok(()));
    assert_eq!(settle(Reply::Stopped).unwrap_err().message, "manager stopped");
    assert_eq!(settle(Reply::Dropped).unwrap_err().message, "manager dropped reply");
    assert_eq!(settle(Reply::Rejected("no".to_string())).unwrap_err().message, "no");
}

#[test]
fn commands_go_out_one_by_one() {
    let state = state_of(
        vec![],
        vec![zone_view(0, ZonePowerView::Off), zone_view(1, ZonePowerView::Off)],
    );
    let mut i = zone::set_all_power(&state, &form(&[("power", "on")])).unwrap();
    assert_eq!(i.next(), Some(zone_cmd(0, ZoneControlReq::Power(ZonePower::On))));
    assert_eq!(i.on_reply(Reply::Done), Ok(()));
    assert_eq!(i.next(), Some(zone_cmd(1, ZoneControlReq::Power(ZonePower::On))));
    assert_eq!(i.on_reply(Reply::Dropped).unwrap_err().message, "manager dropped reply");
    assert_eq!(i.done, 1);
    assert_eq!(i.on_reply(Reply::Done), Ok(()));
    assert_eq!(i.next(), None);
    match i.respond(&state) {
        Ok(Fragment::Zones(t)) => {
            assert_eq!(t.bulk_mode, BulkModeView::Airflow);
            assert!(t.snapshot.same(state.snapshot()));
        }
        _ => panic!("not the zones"),
    }
}

#[test]
fn answers_read_the_state_after_the_commands() {
    let state = state_of(vec![ac_view(2, Some("On"))], vec![zone_view(6, ZonePowerView::On)]);
    match zone::render_current_zone(&state, 6) {
        Ok(Fragment::Zone(t)) => assert_eq!(t.zone.id, 6),
        _ => panic!("not the zone"),
    }
    match ac::render_current_ac(&state, 2) {
        Ok(Fragment::Ac(t)) => assert_eq!(t.ac.id, 2),
        _ => panic!("not the unit"),
    }
    assert_eq!(zone::render_current_zone(&state, 7).err().unwrap().message, "zone 7 not found");
    assert_eq!(pages::partial_zone(&state, 255).err().unwrap().message, "zone 255 not found");
    assert_eq!(pages::partial_ac(&state, 10).err().unwrap().message, "ac 10 not found");
    assert!(pages::partial_ac(&state, 2).is_ok());
    assert!(pages::partial_zone(&state, 6).is_ok());
}

#[test]
fn refreshing_shows_the_console() {
    let state = state_of(vec![], vec![]);
    let mut i = pages::refresh();
    assert_eq!(i.next(), Some(Command::Refresh));
    assert_eq!(i.on_reply(Reply::Done), Ok(()));
    assert_eq!(i.next(), None);
    assert!(matches!(i.respond(&state), Ok(Fragment::System(_))));
}

#[test]
fn snapshots_are_compared_by_what_they_hold() {
    let a = snapshot_of(vec![ac_view(0, Some("On"))], vec![zone_view(3, ZonePowerView::On)]);
    let b = snapshot_of(vec![ac_view(0, Some("On"))], vec![zone_view(3, ZonePowerView::On)]);
    assert!(a.same(&b));
    let mut c = snapshot_of(vec![ac_view(0, Some("On"))], vec![zone_view(3, ZonePowerView::On)]);
    c.console.versions.push("2".to_string());
    assert!(!a.same(&c));
    let d = snapshot_of(vec![ac_view(0, Some("Off"))], vec![zone_view(3, ZonePowerView::On)]);
    assert!(!a.same(&d));
    assert!(!a.same_ac(&d, 0));
    assert!(a.same_zone(&d, 3));
    assert!(a.same_zone(&d, 200));
    let e = snapshot_of(vec![ac_view(0, Some("On"))], vec![]);
    assert!(!a.same(&e));
    assert!(!e.same(&a));
    assert_eq!(a.zone_ids(), vec![3]);
    assert_eq!(a.ac_ids(), vec![0]);
    assert!(a.ac_has_open_zone(0));
    assert!(!a.ac_has_open_zone(1));
}

#[test]
fn a_drifting_sensor_is_no_control_change() {
    let a = snapshot_of(vec![ac_view(0, Some("On"))], vec![zone_view(3, ZonePowerView::On)]);
    let mut warmer = zone_view(3, ZonePowerView::On);
    warmer.sensor = Some(SensorView::Temperature(Temperature { deci: 231 }));
    let mut unit = ac_view(0, Some("On"));
    unit.status.as_mut().unwrap().temperature = Some(Temperature { deci: 211 });
    let drift = snapshot_of(vec![unit], vec![warmer]);
    assert!(!a.same(&drift));
    assert!(!control_changed(&a, &drift));
    let mut stronger = zone_view(3, ZonePowerView::On);
    stronger.airflow_pct = 55;
    let b = snapshot_of(vec![ac_view(0, Some("On"))], vec![stronger]);
    assert!(control_changed(&a, &b));
    let c = snapshot_of(vec![ac_view(0, Some("Off"))], vec![zone_view(3, ZonePowerView::On)]);
    assert!(control_changed(&a, &c));
    let d = snapshot_of(vec![], vec![zone_view(3, ZonePowerView::On)]);
    assert!(control_changed(&a, &d));
}
