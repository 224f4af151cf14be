use std::collections::BTreeMap;
use std::sync::Arc;

use airtouch5_webui::automation::{
    AutomationConfig, AutomationStore, IdleOffStatus, SetpointOffStatus,
};
use airtouch5_webui::manager::command::{
    AcControlReq, AcMode, AcPower, Command, FanSpeed, ZoneControlReq, ZonePower,
};
use airtouch5_webui::manager::snapshot::{
    AcView, BulkModeView, ConsoleInfo, ControlModeView, Snapshot, Temperature, ZonePowerView,
    ZoneView,
};
use airtouch5_webui::manager::ManagerHandle;
use airtouch5_webui::scenes::{Scene, SceneAc, SceneConfig, SceneStore, SceneZone};
use airtouch5_webui::templates::PresetRow;
use airtouch5_webui::web::handlers::{pages, preset};
use airtouch5_webui::web::interaction::Answer;
use airtouch5_webui::web::state::AppState;
use airtouch5_webui::web::theme::{cookie, Theme, Themes};

fn unit(id: u8) -> AcView {
    AcView {
        id,
        name: "unit".to_string(),
        zone_start_index: 0,
        zone_count: 4,
        supported_modes: vec![],
        supported_fan_speeds: vec![],
        setpoint_cool: (16, 30),
        setpoint_heat: (16, 30),
        status: None,
    }
}

fn zone(id: u8, has_sensor: bool) -> ZoneView {
    ZoneView {
        id,
        name: "zone".to_string(),
        ac_id: Some(0),
        ac_mode_slug: None,
        power: ZonePowerView::Off,
        has_sensor,
        control_mode: ControlModeView::Airflow,
        airflow_pct: 40,
        setpoint: None,
        sensor: None,
        flags: vec![],
    }
}

fn live(scenes: Vec<Scene>, active: Option<&str>) -> AppState {
    let snapshot = Snapshot {
        connected: true,
        console: ConsoleInfo {
            name: "Home".to_string(),
            address: "10.0.0.1".to_string(),
            airtouch_id: 1,
            console_id: "c".to_string(),
            versions: vec![],
            update_available: false,
        },
        acs: [unit(0), unit(1)].into_iter().map(|a| (a.id, a)).collect::<BTreeMap<_, _>>(),
        zones: [zone(0, true), zone(1, false)]
            .into_iter()
            .map(|z| (z.id, z))
            .collect::<BTreeMap<_, _>>(),
        bulk_mode: BulkModeView::Temperature,
    };
    AppState {
        manager: ManagerHandle { snapshot: Arc::new(snapshot) },
        automation: AutomationStore {
            config: AutomationConfig { setpoint_off: true, idle_off_min: Some(60) },
            setpoint_off: SetpointOffStatus { badge: None },
            idle_off: IdleOffStatus { badge: Some("21:30".to_string()) },
        },
        scenes: SceneStore {
            config: SceneConfig { scenes },
            active: active.map(|a| a.to_string()),
        },
    }
}

fn scene_ac(id: u8, mode: &str, fan: &str, deci: Option<i16>, power: bool) -> SceneAc {
    SceneAc {
        id,
        mode: mode.to_string(),
        fan: fan.to_string(),
        setpoint: deci.map(|deci| Temperature { deci }),
        power,
    }
}

fn scene_zone(id: u8, mode: &str, deci: Option<i16>, pct: u8, enabled: bool) -> SceneZone {
    SceneZone {
        id,
        control_mode: mode.to_string(),
        setpoint: deci.map(|deci| Temperature { deci }),
        airflow_pct: pct,
        enabled,
    }
}

fn scene(name: &str) -> Scene {
    Scene { name: name.to_string(), acs: vec![], zones: vec![] }
}

fn form(pairs: &[(&str, &str)]) -> Vec<(String, String)> {
    pairs.iter().map(|(k, v)| (k.to_string(), v.to_string())).collect()
}

fn themes() -> Themes {
    Themes {
        list: ["dark", "light", "high-contrast"]
            .iter()
            .map(|n| Theme { name: n.to_string() })
            .collect(),
    }
}

#[test]
fn a_preset_is_replayed_in_three_phases() {
    let evening = Scene {
        name: "evening".to_string(),
        acs: vec![
            scene_ac(0, "heat", "low", Some(222), true),
            scene_ac(7, "heat", "low", Some(222), true),
            scene_ac(1, "", "intelligentauto", None, false),
        ],
        zones: vec![
            scene_zone(0, "temperature", Some(300), 10, true),
            scene_zone(9, "airflow", None, 10, true),
            scene_zone(1, "temperature", Some(210), 20, false),
        ],
    };
    let state = live(vec![scene("other"), evening], None);
    let i = preset::apply(&state, &form(&[("name", "evening")])).unwrap();
    let zone_cmd = |id, req| Command::ControlZone { id, req };
    let ac_cmd = |id, req| Command::ControlAc { id, req };
    assert_eq!(
        i.commands,
        vec![
            ac_cmd(0, AcControlReq::Mode(AcMode::Heat)),
            ac_cmd(0, AcControlReq::FanSpeed(FanSpeed::Low)),
            ac_cmd(0, AcControlReq::Setpoint(Temperature { deci: 222 })),
            ac_cmd(1, AcControlReq::FanSpeed(FanSpeed::IntelligentAuto)),
            zone_cmd(0, ZoneControlReq::SetTemperature(Temperature { deci: 250 })),
            zone_cmd(0, ZoneControlReq::Power(ZonePower::On)),
            zone_cmd(1, ZoneControlReq::SetAirflow(20)),
            zone_cmd(1, ZoneControlReq::Power(ZonePower::Off)),
            ac_cmd(0, AcControlReq::Power(AcPower::On)),
            ac_cmd(1, AcControlReq::Power(AcPower::Off)),
        ]
    );
    assert_eq!(i.answer, Answer::Presets);
}

#[test]
fn a_temperature_without_a_value_falls_back_to_airflow() {
    let s = Scene {
        name: "s".to_string(),
        acs: vec![],
        zones: vec![scene_zone(0, "temperature", None, 70, true)],
    };
    let state = live(vec![], None);
    assert_eq!(
        preset::apply_scene(state.snapshot(), &s)[0],
        Command::ControlZone { id: 0, req: ZoneControlReq::SetAirflow(70) }
    );
}

#[test]
fn a_preset_that_is_not_there() {
    let state = live(vec![scene("a")], None);
    let e = preset::apply(&state, &form(&[("name", "b\n")])).unwrap_err();
    assert_eq!(e.message, "preset \"b\\n\" not found");
}

#[test]
fn names_are_cleaned() {
    assert_eq!(preset::sanitize_name("  Movie \"night\"\\\t\u{7f}\n "), "Movie night");
    assert_eq!(preset::sanitize_name(" \n "), "");
    assert_eq!(preset::sanitize_name(&"x".repeat(80)), "x".repeat(60));
    assert_eq!(preset::sanitize_name("\u{3000}\u{e9}t\u{e9}\u{a0}"), "\u{e9}t\u{e9}");
    let cut = format!("{} tail", "y".repeat(59));
    assert_eq!(preset::sanitize_name(&cut), format!("{} ", "y".repeat(59)));
}

#[test]
fn names_are_cleaned_as_std_would() {
    for raw in ["", "a", " a b ", "\"", "a\\b\u{85}c", "\u{9f}x\u{a0}", "  \u{1f}  z"] {
        let std: String = raw
            .chars()
            .filter(|c| *c != '"' && *c != '\\' && !c.is_control())
            .collect::<String>()
            .trim()
            .chars()
            .take(60)
            .collect();
        assert_eq!(preset::sanitize_name(raw), std);
    }
}

#[test]
fn saving_puts_a_preset_in_its_place() {
    let mut config = SceneConfig { scenes: vec![scene("a"), scene("b")] };
    let acs = || vec![scene_ac(0, "cool", "high", None, true)];
    assert!(preset::save(&mut config, &form(&[("name", " a ")]), acs(), vec![]));
    let names = |c: &SceneConfig| c.scenes.iter().map(|s| s.name.clone()).collect::<Vec<_>>();
    assert_eq!(names(&config), vec!["a", "b"]);
    assert_eq!(config.find("a").unwrap().acs, acs());
    assert!(config.find("b").unwrap().acs.is_empty());
    assert!(preset::save(&mut config, &form(&[("name", "c")]), acs(), vec![]));
    assert_eq!(names(&config), vec!["a", "b", "c"]);
    assert!(!preset::save(&mut config, &form(&[("name", " \" ")]), acs(), vec![]));
    assert!(!preset::save(&mut config, &form(&[]), acs(), vec![]));
    assert_eq!(names(&config), vec!["a", "b", "c"]);
}

#[test]
fn removing_takes_the_active_preset() {
    let mut config = SceneConfig { scenes: vec![scene("a"), scene("b"), scene("c")] };
    assert!(!preset::remove(&mut config, &None));
    assert_eq!(config.scenes.len(), 3);
    assert!(preset::remove(&mut config, &Some("b".to_string())));
    assert_eq!(config.scenes, vec![scene("a"), scene("c")]);
    assert!(config.find("b").is_none());
    assert!(preset::remove(&mut config, &Some("zzz".to_string())));
    assert_eq!(config.scenes, vec![scene("a"), scene("c")]);
}

#[test]
fn one_row_is_active() {
    let state = live(vec![scene("a"), scene("b")], Some("b"));
    let card = preset::partial_presets(&state);
    let row = |name: &str, active| PresetRow { name: name.to_string(), active };
    assert_eq!(card.presets, vec![row("a", false), row("b", true)]);
    assert!(card.has_active);
    let none = preset::partial_presets(&live(vec![scene("a")], None)).presets;
    assert_eq!(none, vec![row("a", false)]);
}

#[test]
fn the_page_holds_everything() {
    let themes = themes();
    let state = live(vec![scene("a")], Some("a"));
    let page = pages::index(&state, &themes, "a=b; theme=light; c=d");
    assert_eq!(page.bulk_mode, BulkModeView::Temperature);
    assert_eq!(page.theme.name, "light");
    assert_eq!(page.themes.list.len(), 3);
    assert_eq!(page.config.idle_off_min, Some(60));
    assert_eq!(page.idle.badge.as_deref(), Some("21:30"));
    assert_eq!(page.status.badge, None);
    assert!(page.has_active);
    assert!(page.snapshot.same(state.snapshot()));
    assert_eq!(pages::partial_zones(&state).bulk_mode, BulkModeView::Temperature);
    assert_eq!(pages::partial_automation(&state).idle.badge.as_deref(), Some("21:30"));
    assert!(pages::partial_system(&state).snapshot.same(state.snapshot()));
    assert!(pages::partial_acs(&state).snapshot.same(state.snapshot()));
}

#[test]
fn the_theme_cookie() {
    let themes = themes();
    assert!(themes.valid());
    let set = |name: &str| {
        pages::set_theme(&themes, &form(&[("name", name)])).to_str().unwrap().to_string()
    };
    assert_eq!(set("light"), "theme=light; Path=/; Max-Age=31536000; SameSite=Lax");
    assert_eq!(set("nope\r\nX: y"), "theme=dark; Path=/; Max-Age=31536000; SameSite=Lax");
    assert_eq!(
        cookie(&Theme { name: "x".to_string() }).to_str().unwrap(),
        "theme=x; Path=/; Max-Age=31536000; SameSite=Lax"
    );
}

#[test]
fn the_theme_is_remembered() {
    let themes = themes();
    for theme in &themes.list {
        let pair = format!("theme={}", theme.name);
        assert_eq!(themes.selected(&pair), theme);
        assert_eq!(themes.selected(&format!("x=theme=light;  {}", pair)), theme);
    }
    assert_eq!(themes.selected("").name, "dark");
    assert_eq!(themes.selected("theme=unknown").name, "dark");
    assert_eq!(themes.selected("mytheme=light").name, "dark");
    assert_eq!(themes.lookup("high-contrast").name, "high-contrast");
}

#[test]
fn themes_that_cannot_stand_in_a_cookie() {
    let list = |names: &[&str]| Themes {
        list: names.iter().map(|n| Theme { name: n.to_string() }).collect(),
    };
    assert!(!list(&[]).valid());
    assert!(!list(&["a", "b\n"]).valid());
    assert!(!list(&["\u{7f}"]).valid());
    assert!(list(&["a", "b c", "\t", "\u{e9}"]).valid());
}

#[test]
fn header_values_are_those_of_http() {
    for code in 0..0x300u32 {
        let c = char::from_u32(code).unwrap();
        let ok = axum::http::HeaderValue::from_str(&c.to_string()).is_ok();
        assert_eq!(ok, (code >= 32 && code != 127) || c == '\t', "{:x}", code);
    }
}
