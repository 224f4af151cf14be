use std::collections::{BTreeMap, VecDeque};
use std::convert::Infallible;
use std::sync::Arc;

use airtouch5_webui::automation::{
    AutomationConfig, AutomationStore, IdleOffStatus, SetpointOffStatus,
};
use airtouch5_webui::listener::event::{drain_frames, SseEvent};
use airtouch5_webui::manager::snapshot::{
    AcView, BulkModeView, ConsoleInfo, ControlModeView, Snapshot, ZonePowerView, ZoneView,
};
use airtouch5_webui::templates::Fragment;
use airtouch5_webui::web::log::{
    is_control, request_ip, request_log, LogLevel, Received, LOG_BODY_LIMIT,
};
use airtouch5_webui::web::sse::{
    ac_event, diff_events, full_events, named, queue, zone_event, Action, NamedFragment, SseState,
    Stage,
};
use axum::response::sse::{Event, Sse};
use axum::response::IntoResponse;

fn unit(id: u8, name: &str) -> AcView {
    AcView {
        id,
        name: name.to_string(),
        zone_start_index: 0,
        zone_count: 1,
        supported_modes: vec![],
        supported_fan_speeds: vec![],
        setpoint_cool: (16, 30),
        setpoint_heat: (16, 30),
        status: None,
    }
}

fn zone(id: u8, pct: u8) -> ZoneView {
    ZoneView {
        id,
        name: "zone".to_string(),
        ac_id: Some(0),
        ac_mode_slug: None,
        power: ZonePowerView::Off,
        has_sensor: false,
        control_mode: ControlModeView::Airflow,
        airflow_pct: pct,
        setpoint: None,
        sensor: None,
        flags: vec![],
    }
}

fn snapshot(acs: Vec<AcView>, zones: Vec<ZoneView>) -> Snapshot {
    Snapshot {
        connected: true,
        console: ConsoleInfo {
            name: "Home".to_string(),
            address: "10.0.0.1".to_string(),
            airtouch_id: 1,
            console_id: "c".to_string(),
            versions: vec![],
            update_available: false,
        },
        acs: acs.into_iter().map(|a| (a.id, a)).collect::<BTreeMap<_, _>>(),
        zones: zones.into_iter().map(|z| (z.id, z)).collect::<BTreeMap<_, _>>(),
        bulk_mode: BulkModeView::Airflow,
    }
}

fn automation(setpoint_off: Option<&str>, idle_off: Option<&str>) -> AutomationStore {
    AutomationStore {
        config: AutomationConfig { setpoint_off: false, idle_off_min: None },
        setpoint_off: SetpointOffStatus { badge: setpoint_off.map(|s| s.to_string()) },
        idle_off: IdleOffStatus { badge: idle_off.map(|s| s.to_string()) },
    }
}

fn names(list: &[NamedFragment]) -> Vec<String> {
    list.iter().map(|c| c.name.clone()).collect()
}

/// A stand-in for the page templates: what each card shows, on several lines.
fn html(f: &Fragment) -> String {
    match f {
        Fragment::State(t) => format!("<p>{}</p>", t.snapshot.connected),
        Fragment::System(t) => format!("<p>\n{}\n</p>", t.snapshot.console.name),
        Fragment::Ac(t) => format!("<p>{}</p>", t.ac.name),
        Fragment::Zone(t) => format!("<p>\n  {}%</p>", t.zone.airflow_pct),
        Fragment::Automation(t) => format!("<p>{:?} {:?}</p>", t.status.badge, t.idle.badge),
        _ => panic!("the stream does not carry this"),
    }
}

fn events(list: &Vec<NamedFragment>) -> VecDeque<Event> {
    queue(list, list.iter().map(|c| html(&c.fragment)).collect())
}

fn wire(events: Vec<Event>) -> Vec<u8> {
    let stream = futures_util::stream::iter(events.into_iter().map(Ok::<Event, Infallible>));
    let body = Sse::new(stream).into_response().into_body();
    let runtime = tokio::runtime::Builder::new_current_thread().build().unwrap();
    runtime.block_on(async move { axum::body::to_bytes(body, usize::MAX).await.unwrap().to_vec() })
}

fn received(events: Vec<Event>) -> Vec<SseEvent> {
    let mut buf = wire(events);
    let out = drain_frames(&mut buf);
    assert!(buf.is_empty());
    out
}

#[test]
fn the_first_render_holds_every_card() {
    let snap = snapshot(vec![unit(1, "up"), unit(0, "down")], vec![zone(12, 5), zone(3, 7)]);
    let auto = automation(None, Some("21:30"));
    let list = full_events(&snap, &auto);
    assert_eq!(names(&list), vec!["state", "system", "ac-0", "ac-1", "zone-3", "zone-12", "automation"]);
    match &list[3].fragment {
        Fragment::Ac(t) => assert_eq!(t.ac.name, "up"),
        _ => panic!("not the unit"),
    }
    match &list[6].fragment {
        Fragment::Automation(t) => assert_eq!(t.idle.badge.as_deref(), Some("21:30")),
        _ => panic!("not the automation card"),
    }
}

#[test]
fn every_card_has_a_name_of_its_own() {
    let snap = snapshot(
        (0..=255u8).map(|id| unit(id, "u")).collect(),
        (0..=255u8).map(|id| zone(id, 1)).collect(),
    );
    let auto = automation(None, None);
    let mut all = names(&full_events(&snap, &auto));
    assert_eq!(all.len(), 515);
    assert_eq!(all[2], "ac-0");
    assert_eq!(all[257], "ac-255");
    assert_eq!(all[258], "zone-0");
    all.sort();
    all.dedup();
    assert_eq!(all.len(), 515);
}

#[test]
fn a_change_sends_what_it_touches() {
    let prev = snapshot(vec![unit(0, "a"), unit(1, "b")], vec![zone(0, 10), zone(1, 20), zone(2, 30)]);
    let mut new =
        snapshot(vec![unit(0, "a"), unit(1, "c")], vec![zone(0, 10), zone(1, 25), zone(5, 1)]);
    let calm = automation(None, None);
    assert_eq!(names(&diff_events(&prev, &new, &calm, &calm)), vec!["ac-1", "zone-1", "zone-5"]);
    new.connected = false;
    new.console.update_available = true;
    let armed = automation(Some("5 min"), None);
    assert_eq!(
        names(&diff_events(&prev, &new, &calm, &armed)),
        vec!["state", "system", "ac-1", "zone-1", "zone-5", "automation"]
    );
    let idle = automation(None, Some("21:30"));
    assert_eq!(names(&diff_events(&prev, &prev, &calm, &idle)), vec!["automation"]);
    assert!(diff_events(&prev, &prev, &idle, &idle).is_empty());
}

#[test]
fn a_browser_follows_the_changes() {
    let calm = automation(None, None);
    let armed = automation(Some("5 min"), None);
    let a = snapshot(vec![unit(0, "a")], vec![zone(0, 10), zone(1, 20)]);
    let mut b = snapshot(vec![unit(0, "z"), unit(3, "new")], vec![zone(0, 10), zone(1, 21)]);
    b.connected = false;
    let mut board: BTreeMap<String, String> = BTreeMap::new();
    for c in full_events(&a, &calm) {
        board.insert(c.name.clone(), html(&c.fragment));
    }
    for c in diff_events(&a, &b, &calm, &armed) {
        board.insert(c.name.clone(), html(&c.fragment));
    }
    let fresh: BTreeMap<String, String> = full_events(&b, &armed)
        .iter()
        .map(|c| (c.name.clone(), html(&c.fragment)))
        .collect();
    assert_eq!(board, fresh);
}

#[test]
fn the_stream_sends_in_order_and_waits() {
    let calm = automation(None, None);
    let first = Arc::new(snapshot(vec![unit(0, "a")], vec![]));
    let mut stream = SseState::connect(first.clone(), events(&full_events(&first, &calm)));
    let mut sent = vec![];
    while let Action::Send(e) = stream.next() {
        sent.push(e);
    }
    let heard: Vec<_> = received(sent).into_iter().map(|e| e.name.unwrap()).collect();
    assert_eq!(heard, vec!["state", "system", "ac-0", "automation"]);
    assert!(matches!(stream.next(), Action::Wait));
    stream.published(Arc::new(snapshot(vec![unit(0, "a")], vec![])));
    assert!(matches!(stream.next(), Action::Wait));
    let second = Arc::new(snapshot(vec![unit(0, "b")], vec![]));
    stream.published(second.clone());
    assert!(matches!(stream.next(), Action::ReadStatuses));
    assert!(matches!(stream.next(), Action::ReadStatuses));
    let list = stream.changes(&calm, &calm);
    assert_eq!(names(&list), vec!["ac-0"]);
    let sent = events(&list);
    stream.accept(sent);
    assert!(stream.prev.same(&second));
    assert!(matches!(stream.next(), Action::Send(_)));
    assert!(matches!(stream.next(), Action::Wait));
}

#[test]
fn the_idle_clock_restarts_before_statuses_are_read() {
    let calm = automation(None, None);
    let first = Arc::new(snapshot(vec![], vec![zone(4, 1)]));
    let mut stream = SseState::connect(first, VecDeque::new());
    let second = Arc::new(snapshot(vec![], vec![zone(4, 6)]));
    stream.published(second.clone());
    assert!(matches!(stream.next(), Action::RestartIdle));
    assert!(matches!(stream.next(), Action::ReadStatuses));
    let later = automation(None, Some("22:00"));
    let list = stream.changes(&calm, &later);
    assert_eq!(names(&list), vec!["zone-4", "automation"]);
    let sent = events(&list);
    stream.accept(sent);
    assert!(matches!(stream.stage, Stage::Waiting));
    assert!(stream.prev.same(&second));
}

#[test]
fn the_listener_reads_what_the_stream_sends() {
    let snap = snapshot(vec![unit(2, "up")], vec![zone(7, 35)]);
    let auto = automation(Some("soon"), None);
    let list = full_events(&snap, &auto);
    let heard = received(events(&list).into_iter().collect());
    let expected: Vec<SseEvent> = list
        .iter()
        .map(|c| SseEvent { name: Some(c.name.clone()), data: html(&c.fragment), comment: false })
        .collect();
    assert_eq!(heard, expected);
}

#[test]
fn a_whole_stream() {
    let calm = automation(None, None);
    let first = Arc::new(snapshot(vec![unit(0, "a")], vec![zone(1, 5)]));
    let mut stream = SseState::connect(first.clone(), events(&full_events(&first, &calm)));
    let published = [
        snapshot(vec![unit(0, "b")], vec![zone(1, 5)]),
        snapshot(vec![unit(0, "b")], vec![zone(1, 5)]),
        snapshot(vec![unit(0, "b")], vec![zone(1, 9), zone(2, 1)]),
    ];
    let mut sent = vec![];
    let mut restarts = 0;
    let mut source = published.into_iter();
    loop {
        match stream.next() {
            Action::Send(e) => sent.push(e),
            Action::Wait => match source.next() {
                Some(new) => stream.published(Arc::new(new)),
                None => break,
            },
            Action::RestartIdle => restarts += 1,
            Action::ReadStatuses => {
                let pending = events(&stream.changes(&calm, &calm));
                stream.accept(pending);
            }
        }
    }
    let heard: Vec<_> =
        received(sent).into_iter().map(|e| (e.name.unwrap(), e.data)).collect();
    let expected: Vec<(String, String)> = [
        ("state", "<p>true</p>"),
        ("system", "<p>\nHome\n</p>"),
        ("ac-0", "<p>a</p>"),
        ("zone-1", "<p>\n  5%</p>"),
        ("automation", "<p>None None</p>"),
        ("ac-0", "<p>b</p>"),
        ("zone-1", "<p>\n  9%</p>"),
        ("zone-2", "<p>\n  1%</p>"),
    ]
    .iter()
    .map(|(n, d)| (n.to_string(), d.to_string()))
    .collect();
    assert_eq!(heard, expected);
    assert_eq!(restarts, 1);
}

#[test]
fn the_names_of_the_cards() {
    assert_eq!(ac_event(0), "ac-0");
    assert_eq!(zone_event(255), "zone-255");
}

#[test]
fn the_bytes_of_an_event() {
    let snap = snapshot(vec![], vec![]);
    let auto = automation(None, None);
    let list = full_events(&snap, &auto);
    let bytes = wire(vec![named(&list[0], "<b>\nx</b>")]);
    assert_eq!(String::from_utf8(bytes).unwrap(), "event: state\ndata: <b>\ndata: x</b>\n\n");
    let text = |html: &str| {
        String::from_utf8(wire(vec![named(&list[1], html)])).unwrap()
    };
    assert_eq!(text(""), "event: system\n\n");
    assert_eq!(text("\nx\n"), "event: system\ndata: \ndata: x\ndata: \n\n");
    assert_eq!(text("a\r\nb"), "event: system\ndata: a\rdata: \ndata: b\n\n");
    assert_eq!(text("\u{e9}"), "event: system\ndata: \u{e9}\n\n");
    let heard = received(vec![named(&list[1], "\n\nx\n")]);
    assert_eq!(heard[0].data, "\n\nx\n");
}

#[test]
fn control_requests_are_told_apart() {
    for path in ["/refresh", "/zone/3/power", "/zones/power", "/ac/0/mode"] {
        assert!(is_control("POST", path));
        assert!(!is_control("GET", path));
    }
    for path in ["/", "/refresh/", "/zone", "/partials/zone/3", "/presets", "/theme", "/acs"] {
        assert!(!is_control("POST", path));
    }
}

fn received_request(method: &str, path: &str, body: Option<Vec<u8>>) -> Received {
    Received {
        ip: Some("10.0.0.9".to_string()),
        method: method.to_string(),
        path: path.to_string(),
        body,
    }
}

#[test]
fn the_body_is_handed_on() {
    let kept = |body| received_request("POST", "/refresh", body).kept_body();
    assert_eq!(kept(Some(b"power=on".to_vec())), b"power=on".to_vec());
    assert_eq!(kept(Some(vec![b'a', 0xff])), vec![b'a', 0xff]);
    assert!(kept(None).is_empty());
    assert_eq!(LOG_BODY_LIMIT, 1 << 20);
}

#[test]
fn the_log_tells_interactions_apart() {
    let req = received_request("POST", "/zone/3/power", Some(b"power=on".to_vec()));
    assert_eq!(
        request_log(&req, "200 OK", "1.5ms"),
        (
            LogLevel::Info,
            "interaction ip=10.0.0.9 POST /zone/3/power action=Some(\"power=on\") -> 200 OK (1.5ms)"
                .to_string()
        )
    );
    let odd = received_request("POST", "/ac/0/mode", Some(vec![b'"', 0xff]));
    assert_eq!(
        request_log(&odd, "422", "1s").1,
        "interaction ip=10.0.0.9 POST /ac/0/mode action=Some(\"\\\"\u{fffd}\") -> 422 (1s)"
    );
    let long = received_request("POST", "/zones/power", None);
    assert_eq!(
        request_log(&long, "200 OK", "1s").1,
        "interaction ip=10.0.0.9 POST /zones/power action=Some(\"\") -> 200 OK (1s)"
    );
    let mut page = received_request("GET", "/zone/3/power", Some(b"power=on".to_vec()));
    page.ip = None;
    assert_eq!(
        request_log(&page, "200 OK", "1.5ms"),
        (LogLevel::Debug, "request ip=- GET /zone/3/power -> 200 OK (1.5ms)".to_string())
    );
    assert_eq!(request_ip(&None), "-");
}
