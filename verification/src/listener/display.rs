//! How events are shown: labels, colours, previews and the lines to print.

use vstd::prelude::*;
use vstd::utf8::encode_utf8;
use crate::listener::event::{spec_label, EventModel, SseEvent};
use crate::text;

verus! {

/// How much of each event to print.
#[derive(Copy, Clone, Debug, PartialEq, Eq, Structural)]
pub enum Level {
    /// One line per event: just the event name.
    Names,
    /// One line per event: name, byte size, and a single-lined data preview.
    Compact,
    /// The event name plus the full (multi-line) data payload.
    Full,
}

/// `s` in an ANSI SGR colour when `color` is enabled.
pub open spec fn spec_paint(s: Seq<char>, code: Seq<char>, color: bool) -> Seq<char> {
    if color {
        "\u{1b}["@ + code + "m"@ + s + "\u{1b}[0m"@
    } else {
        s
    }
}

/// Wraps `s` in an ANSI SGR colour when `color` is enabled.
pub fn paint(s: &str, code: &str, color: bool) -> (r: String)
    ensures
        r@ == spec_paint(s@, code@, color),
{
    if color {
        let mut out = text::joined("\u{1b}[", code);
        out.append("m");
        out.append(s);
        out.append("\u{1b}[0m");
        out
    } else {
        s.to_owned()
    }
}

/// Faint text when colour is enabled.
pub open spec fn spec_dim(s: Seq<char>, color: bool) -> Seq<char> {
    if color {
        "\u{1b}[2m"@ + s + "\u{1b}[0m"@
    } else {
        s
    }
}

/// Dims text when colour is enabled.
pub fn dim(s: &str, color: bool) -> (r: String)
    ensures
        r@ == spec_dim(s@, color),
{
    if color {
        let mut out = text::joined("\u{1b}[2m", s);
        out.append("\u{1b}[0m");
        out
    } else {
        s.to_owned()
    }
}

/// The colour code of an event family.
pub open spec fn spec_color_for(label: Seq<char>) -> Seq<char> {
    if "zone-"@.is_prefix_of(label) {
        "36"@
    } else if "ac-"@.is_prefix_of(label) {
        "33"@
    } else if label == "presets"@ {
        "35"@
    } else if label == "automation"@ {
        "32"@
    } else if label == "system"@ || label == "state"@ {
        "34"@
    } else {
        "90"@
    }
}

/// A distinct ANSI colour code per event family so the stream is scannable:
/// cyan for zones, yellow for ACs, magenta for presets, green for automation,
/// blue for the system and its state, and bright black for the rest.
pub fn color_for(label: &str) -> (r: &'static str)
    ensures
        r@ == spec_color_for(label@),
{
    if text::starts_with(label, "zone-") {
        "36"
    } else if text::starts_with(label, "ac-") {
        "33"
    } else if text::same(label, "presets") {
        "35"
    } else if text::same(label, "automation") {
        "32"
    } else if text::same(label, "system") || text::same(label, "state") {
        "34"
    } else {
        "90"
    }
}

/// The words of `s` with one space between them, cut to `width` characters, of
/// which the last, if there is one, is then an ellipsis.
pub open spec fn spec_single_line(s: Seq<char>, width: nat) -> Seq<char> {
    let flat = text::spec_join(text::spec_words(s), " "@);
    if flat.len() <= width {
        flat
    } else if width == 0 {
        Seq::empty()
    } else {
        flat.take(width - 1).push('\u{2026}')
    }
}

/// Collapses a multi-line fragment to a single truncated line for the preview.
pub fn single_line(s: &str, width: usize) -> (r: String)
    ensures
        r@ == spec_single_line(s@, width as nat),
{
    let words = text::words(s);
    let flat = text::chars_of(text::join(&words, " ").as_str());
    if flat.len() <= width {
        assert(flat@.subrange(0, flat@.len() as int) =~= flat@);
        text::string_of(&flat, 0, flat.len())
    } else if width == 0 {
        String::new()
    } else {
        let mut out = text::string_of(&flat, 0, width - 1);
        assert(out@ =~= flat@.take(width - 1));
        out.push('\u{2026}');
        out
    }
}

/// What names an event: its label, in the colour of its family.
pub open spec fn spec_name_column(ev: EventModel, color: bool) -> Seq<char> {
    spec_paint(spec_label(ev), spec_color_for(spec_label(ev)), color)
}

/// The lines that are printed for an event that arrived at the time `ts`.
pub open spec fn spec_event_lines(
    ev: EventModel,
    level: Level,
    width: nat,
    color: bool,
    ts: Seq<char>,
) -> Seq<Seq<char>> {
    let name = spec_name_column(ev, color);
    let time = spec_dim(ts, color);
    let bytes = text::spec_decimal(encode_utf8(ev.data).len());
    if ev.comment && level != Level::Full {
        Seq::empty()
    } else {
        match level {
            Level::Names => seq![time + "  "@ + name],
            Level::Compact => seq![
                time + "  "@ + text::spec_pad_right(name, 14) + " "@ + text::spec_pad_left(bytes, 5)
                    + "B  "@ + spec_dim(spec_single_line(ev.data, width), color),
            ],
            Level::Full => {
                let head = time + "  "@ + name + " "@ + spec_dim(
                    "("@ + bytes + " bytes)"@,
                    color,
                );
                let body = if ev.data.len() == 0 {
                    seq!["  "@ + spec_dim("(no data)"@, color)]
                } else {
                    text::spec_lines(ev.data).map_values(|l: Seq<char>| "  "@ + l)
                };
                (seq![head] + body).push(Seq::empty())
            },
        }
    }
}

/// The lines to print for an event. Keep-alive comments are noise: they show at
/// the full level only.
pub fn event_lines(ev: &SseEvent, level: Level, width: usize, color: bool, ts: &str) -> (r: Vec<
    String,
>)
    ensures
        text::texts(r@) == spec_event_lines(ev@, level, width as nat, color, ts@),
{
    let mut out: Vec<String> = Vec::new();
    if ev.comment && level != Level::Full {
        assert(text::texts(out@) =~= Seq::empty());
        return out;
    }
    let label = ev.label();
    let name = paint(label.as_str(), color_for(label.as_str()), color);
    let bytes = text::decimal(ev.data.as_str().as_bytes().len() as u64);
    let mut head = dim(ts, color);
    head.append("  ");
    match level {
        Level::Names => {
            head.append(name.as_str());
            out.push(head);
        },
        Level::Compact => {
            head.append(text::pad_right(name.as_str(), 14).as_str());
            head.append(" ");
            head.append(text::pad_left(bytes.as_str(), 5).as_str());
            head.append("B  ");
            head.append(dim(single_line(ev.data.as_str(), width).as_str(), color).as_str());
            out.push(head);
        },
        Level::Full => {
            head.append(name.as_str());
            head.append(" ");
            let mut size = text::joined("(", bytes.as_str());
            size.append(" bytes)");
            head.append(dim(size.as_str(), color).as_str());
            let ghost first = head@;
            out.push(head);
            if ev.data.as_str().is_empty() {
                out.push(text::joined("  ", dim("(no data)", color).as_str()));
            } else {
                let lines = text::lines(ev.data.as_str());
                let ghost body = text::texts(lines@).map_values(|l: Seq<char>| "  "@ + l);
                assert(text::texts(out@) =~= seq![first] + body.take(0));
                for i in 0..lines.len()
                    invariant
                        body == text::texts(lines@).map_values(|l: Seq<char>| "  "@ + l),
                        text::texts(out@) == seq![first] + body.take(i as int),
                {
                    let line = text::joined("  ", lines[i].as_str());
                    let ghost held = out@;
                    out.push(line);
                    proof {
                        text::lemma_texts_push(held, line);
                        assert(line@ == body[i as int]);
                        assert(seq![first] + body.take(i + 1) =~= (seq![first] + body.take(
                            i as int,
                        )).push(body[i as int]));
                    }
                }
                assert(body.take(body.len() as int) =~= body);
            }
            out.push(String::new());
        },
    }
    assert(text::texts(out@) =~= spec_event_lines(ev@, level, width as nat, color, ts@));
    out
}

} // verus!
