use airtouch5_webui::listener::display::{
    color_for, dim, event_lines, paint, single_line, Level,
};
use airtouch5_webui::listener::event::{drain_frames, parse_frame, parse_text, SseEvent};
use airtouch5_webui::listener::session::{check_status, stream_url, Counts, Input, Session, Step};

fn event(name: Option<&str>, data: &str, comment: bool) -> SseEvent {
    SseEvent { name: name.map(|n| n.to_string()), data: data.to_string(), comment }
}

fn stop(input: Input) -> String {
    let mut session = Session::new();
    match session.step(input) {
        Step::Stop(message) => message,
        Step::Show(_) => panic!("the session went on"),
    }
}

fn shown(step: Step) -> Vec<SseEvent> {
    match step {
        Step::Show(events) => events,
        Step::Stop(message) => panic!("the session stopped: {}", message),
    }
}

#[test]
fn named_event_with_data() {
    assert_eq!(
        parse_frame(b"event: zone-3\ndata: <div>x</div>\n"),
        Some(event(Some("zone-3"), "<div>x</div>", false))
    );
}

#[test]
fn data_lines_are_joined() {
    assert_eq!(
        parse_frame(b"event: system\ndata: a\ndata: b\ndata:\ndata: d\n"),
        Some(event(Some("system"), "a\nb\n\nd", false))
    );
}

#[test]
fn carriage_returns_end_lines_too() {
    assert_eq!(
        parse_frame(b"event: ac-1\r\ndata: on\r\n"),
        Some(event(Some("ac-1"), "on", false))
    );
}

#[test]
fn longer_line_ends_change_nothing() {
    let frames: [&[u8]; 6] = [
        b"event: zone-3\ndata: a\ndata:\ndata: \xc3\xa9\n\n",
        b":\n\n",
        b"\n",
        b"data: no end",
        b": note\nid\ndata\n\n",
        b"data: \xff\ndata: \xe2\x82\n\n",
    ];
    for raw in frames {
        let mut longer = vec![];
        for b in raw {
            if *b == b'\n' {
                longer.push(b'\r');
            }
            longer.push(*b);
        }
        assert_eq!(parse_frame(&longer), parse_frame(raw));
    }
}

#[test]
fn comment_frame_is_keep_alive() {
    let ev = parse_frame(b":\n").unwrap();
    assert!(ev.comment);
    assert_eq!(ev.label(), "<keep-alive>");
}

#[test]
fn comments_are_no_data() {
    assert_eq!(parse_frame(b":  ping\n: pong\n"), Some(event(None, "", true)));
    assert_eq!(
        parse_frame(b": note\nevent: x\ndata: y\n\n"),
        Some(event(Some("x"), "y", false))
    );
    assert_eq!(parse_frame(b"id: 7\nevent\n"), Some(event(Some(""), "", false)));
}

#[test]
fn a_frame_with_data_is_no_keep_alive() {
    let ev = parse_frame(b":\ndata: x\n\n").unwrap();
    assert_eq!(ev, event(None, "x", false));
    assert_eq!(ev.label(), "<unnamed>");
    assert_eq!(event_lines(&ev, Level::Names, 80, false, "t"), vec!["t  <unnamed>"]);
    assert_eq!(parse_frame(b":\ndata:\n"), Some(event(None, "", false)));
    assert_eq!(parse_frame(b":\nid: 7\n"), Some(event(None, "", true)));
}

#[test]
fn empty_data_lines_are_kept() {
    assert_eq!(parse_frame(b"data:\ndata: x\n"), Some(event(None, "\nx", false)));
    assert_eq!(parse_frame(b"data\ndata\ndata\n"), Some(event(None, "\n\n", false)));
    assert_eq!(parse_frame(b"data: x\ndata:\n"), Some(event(None, "x\n", false)));
}

#[test]
fn unnamed_event_has_a_label() {
    let ev = parse_frame(b"data: hello\n").unwrap();
    assert_eq!(ev, event(None, "hello", false));
    assert_eq!(ev.label(), "<unnamed>");
}

#[test]
fn empty_frame_is_nothing() {
    assert_eq!(parse_frame(b"\n"), None);
    assert_eq!(parse_text(""), None);
}

#[test]
fn invalid_bytes_are_replaced() {
    assert_eq!(parse_frame(b"data: a\xffb\n"), Some(event(None, "a\u{fffd}b", false)));
}

#[test]
fn frames_wait_for_their_end() {
    let mut buf = b"event: state\ndata: up\n\nevent: sys".to_vec();
    let events = drain_frames(&mut buf);
    assert_eq!(events, vec![event(Some("state"), "up", false)]);
    assert_eq!(buf, b"event: sys".to_vec());
    assert_eq!(drain_frames(&mut buf), vec![]);
    assert_eq!(buf, b"event: sys".to_vec());
    buf.extend_from_slice(b"tem\ndata: v\n\n");
    assert_eq!(drain_frames(&mut buf), vec![event(Some("system"), "v", false)]);
    assert!(buf.is_empty());
}

#[test]
fn chunks_do_not_matter() {
    let stream = b"event: a\ndata: 1\n\n:\n\nevent: b\ndata: 2\ndata: 3\n\nrest".to_vec();
    let mut whole = Session::new();
    let at_once = shown(whole.step(Input::Chunk(stream.clone())));
    for cut in 0..stream.len() {
        let mut session = Session::new();
        let mut events = shown(session.step(Input::Chunk(stream[..cut].to_vec())));
        events.extend(shown(session.step(Input::Chunk(stream[cut..].to_vec()))));
        assert_eq!(events, at_once);
        assert_eq!(session.event_count(), whole.event_count());
        assert_eq!(session.pending_len(), 4);
        assert_eq!(session.summary_lines(false), whole.summary_lines(false));
    }
    assert_eq!(whole.event_count(), 3);
}

#[test]
fn preview_is_one_line() {
    assert_eq!(single_line("  <div>\n  <b>x</b>\t y\n</div> ", 80), "<div> <b>x</b> y </div>");
    assert_eq!(single_line("abcdef", 6), "abcdef");
    assert_eq!(single_line("abcdefg", 6), "abcde\u{2026}");
    assert_eq!(single_line("ab", 1), "\u{2026}");
    assert_eq!(single_line("a", 0), "");
    assert_eq!(single_line("", 0), "");
    assert_eq!(single_line("a\u{a0}\u{2003}b\u{3000}c", 80), "a b c");
}

#[test]
fn colors_by_family() {
    assert_eq!(color_for("zone-12"), "36");
    assert_eq!(color_for("ac-0"), "33");
    assert_eq!(color_for("presets"), "35");
    assert_eq!(color_for("automation"), "32");
    assert_eq!(color_for("system"), "34");
    assert_eq!(color_for("state"), "34");
    assert_eq!(color_for("<keep-alive>"), "90");
    assert_eq!(color_for("zone"), "90");
}

#[test]
fn painting_and_dimming() {
    assert_eq!(paint("x", "36", true), "\u{1b}[36mx\u{1b}[0m");
    assert_eq!(paint("x", "36", false), "x");
    assert_eq!(dim("x", true), "\u{1b}[2mx\u{1b}[0m");
    assert_eq!(dim("x", false), "x");
}

#[test]
fn event_lines_by_level() {
    let ev = event(Some("zone-1"), "<div>\n\u{e9}</div>", false);
    assert_eq!(
        event_lines(&ev, Level::Names, 80, false, "12:00:00.000"),
        vec!["12:00:00.000  zone-1"]
    );
    assert_eq!(
        event_lines(&ev, Level::Compact, 80, false, "12:00:00.000"),
        vec!["12:00:00.000  zone-1            14B  <div> \u{e9}</div>"]
    );
    assert_eq!(
        event_lines(&ev, Level::Full, 80, false, "12:00:00.000"),
        vec!["12:00:00.000  zone-1 (14 bytes)", "  <div>", "  \u{e9}</div>", ""]
    );
    let bare = event(Some("x"), "", false);
    assert_eq!(
        event_lines(&bare, Level::Full, 80, false, "t"),
        vec!["t  x (0 bytes)", "  (no data)", ""]
    );
}

#[test]
fn keep_alives_show_at_full_only() {
    let ev = event(None, "", true);
    assert!(event_lines(&ev, Level::Names, 80, false, "t").is_empty());
    assert!(event_lines(&ev, Level::Compact, 80, false, "t").is_empty());
    assert_eq!(
        event_lines(&ev, Level::Full, 80, false, "t"),
        vec!["t  <keep-alive> (0 bytes)", "  (no data)", ""]
    );
}

#[test]
fn session_ends_with_a_message() {
    assert_eq!(stop(Input::Interrupted), "\ninterrupted.");
    assert_eq!(stop(Input::Deadline), "\ntimeout reached.");
    assert_eq!(stop(Input::Closed), "\nstream closed by server.");
    assert_eq!(stop(Input::Failed("reset".to_string())), "\nstream error: reset");
}

#[test]
fn summary_is_sorted_and_adds_up() {
    let mut session = Session::new();
    assert_eq!(session.summary_lines(false), vec!["no events received."]);
    let frames = b"event: zone-2\ndata: x\n\nevent: ac-1\ndata: x\n\nevent: zone-2\ndata: y\n\n:\n\n";
    shown(session.step(Input::Chunk(frames.to_vec())));
    assert_eq!(
        session.summary_lines(false),
        vec![
            "\nsummary (4 total):",
            "  <keep-alive>     1",
            "  ac-1             1",
            "  zone-2           2",
        ]
    );
    assert_eq!(session.summary_lines(true)[0], "\n\u{1b}[1msummary\u{1b}[0m (4 total):");
}

#[test]
fn counts_start_empty() {
    let mut counts = Counts::new();
    counts.count("b".to_string());
    counts.count("a".to_string());
}

#[test]
fn url_and_status() {
    assert_eq!(stream_url("127.0.0.1:3000", "/events"), "http://127.0.0.1:3000/events");
    assert_eq!(check_status(200, "200 OK"), Ok(()));
    assert_eq!(check_status(299, "299"), Ok(()));
    assert_eq!(
        check_status(404, "404 Not Found"),
        Err("unexpected HTTP status: 404 Not Found".to_string())
    );
    assert!(check_status(199, "199").is_err());
    assert!(check_status(300, "300").is_err());
}
