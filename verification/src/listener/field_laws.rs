//! What the listener reads from a stream and shows of it, by what was sent.

use vstd::prelude::*;
use vstd::utf8::{decode_utf8, encode_utf8, valid_utf8};
use crate::listener::display::{
    color_for, dim, event_lines, paint, single_line, spec_color_for, spec_event_lines,
    spec_single_line, Level,
};
use crate::listener::event::{
    colon, data_values, field_lines, field_name, field_value, frame_len, frame_name,
    frames, has_comment, is_comment, lemma_frame_len, lossy_text, parse_frame, parse_text, parsed, rest, sets_field,
    spec_label, spec_parse, text_of, EventModel, SseEvent,
};
use crate::listener::laws::{lemma_parsed_append, lemma_split_append, lemma_split_one};
use crate::listener::session::{
    check_status, counted_all, lemma_tally, spec_summary_lines, stream_url, sum_of, summary_line,
    Session,
};
use crate::text;

verus! {

/// The lines of a frame: a line feed ends a line, which loses one carriage return at its
/// end and counts only where something is left of it.
pub proof fn law_field_lines(a: Seq<char>, b: Seq<char>)
    requires
        !a.contains('\n'),
    ensures
        ({
            let line = if a.len() > 0 && a.last() == '\r' {
                a.drop_last()
            } else {
                a
            };
            let first: Seq<Seq<char>> = if line.len() > 0 {
                seq![line]
            } else {
                Seq::empty()
            };
            &&& field_lines(a) == first
            &&& field_lines(a + seq!['\n'] + b) == first + field_lines(b)
        }),
{
    reveal(Seq::filter);
    let strip = |l: Seq<char>| text::strip_cr(l);
    let kept = |l: Seq<char>| l.len() > 0;
    let line = text::strip_cr(a);
    lemma_split_one(a, '\n');
    lemma_split_append(a, b, '\n');
    assert(seq![a].map_values(strip) =~= seq![line]);
    assert(seq![line].drop_last() =~= Seq::<Seq<char>>::empty());
    let first = seq![line].filter(kept);
    assert(Seq::<Seq<char>>::empty().filter(kept) =~= Seq::<Seq<char>>::empty());
    if line.len() > 0 {
        assert(kept(seq![line].last()));
        assert(first =~= seq![line]);
    } else {
        assert(!kept(seq![line].last()));
        assert(first =~= Seq::<Seq<char>>::empty());
    }
    let pb = text::spec_split(b, '\n');
    assert((seq![a] + pb).map_values(strip) =~= seq![line] + pb.map_values(strip));
    lemma_filter_append(seq![line], pb.map_values(strip), kept);
}

/// What is kept of two parts is what is kept of each.
proof fn lemma_filter_append(
    a: Seq<Seq<char>>,
    b: Seq<Seq<char>>,
    kept: spec_fn(Seq<char>) -> bool,
)
    ensures
        (a + b).filter(kept) == a.filter(kept) + b.filter(kept),
    decreases b.len(),
{
    reveal(Seq::filter);
    if b.len() == 0 {
        assert(a + b =~= a);
        assert(a.filter(kept) + b.filter(kept) =~= a.filter(kept));
    } else {
        lemma_filter_append(a, b.drop_last(), kept);
        assert((a + b).drop_last() =~= a + b.drop_last());
        assert((a + b).last() == b.last());
        assert((a + b).filter(kept) =~= a.filter(kept) + b.filter(kept));
    }
}

/// Whether a line gives a field a value: the field, a colon, one space or none, and the
/// value; or the field alone, which gives it nothing.
pub open spec fn gives(line: Seq<char>, field: Seq<char>, value: Seq<char>) -> bool {
    ||| line == field + seq![':', ' '] + value
    ||| line == field + seq![':'] + value && (value.len() == 0 || value[0] != ' ')
    ||| line == field && value.len() == 0
}

/// Whether a line gives a field anything.
pub open spec fn names(line: Seq<char>, field: Seq<char>) -> bool {
    exists|value: Seq<char>| gives(line, field, value)
}

/// The first colon of a line, if it has one.
proof fn lemma_colon(line: Seq<char>)
    ensures
        0 <= colon(line) <= line.len(),
        colon(line) < line.len() ==> line[colon(line)] == ':',
        forall|i: int| 0 <= i < colon(line) ==> #[trigger] line[i] != ':',
    decreases line.len(),
{
    if line.len() > 0 && line[0] != ':' {
        let rest = line.drop_first();
        lemma_colon(rest);
        assert forall|i: int| 0 <= i < colon(line) implies #[trigger] line[i] != ':' by {
            if i > 0 {
                assert(rest[i - 1] == line[i]);
            }
        }
        if colon(line) < line.len() {
            assert(rest[colon(rest)] == line[colon(line)]);
        }
    }
}

/// A line gives a field what stands behind its first colon.
proof fn lemma_gives(line: Seq<char>, field: Seq<char>, value: Seq<char>)
    requires
        field.len() > 0,
        !field.contains(':'),
    ensures
        gives(line, field, value) <==> sets_field(line, field) && field_value(line) == value,
{
    lemma_colon(line);
    let c = colon(line);
    if gives(line, field, value) {
        assert(line.take(field.len() as int) =~= field);
        assert(c >= field.len()) by {
            if c < field.len() {
                assert(line[c] == field[c]);
                assert(field.contains(field[c]));
            }
        }
        assert(line[0] == field[0]);
        assert(field.contains(field[0]));
        if line == field && value.len() == 0 {
            assert(c == line.len());
            assert(value =~= field_value(line));
        } else {
            assert(line[field.len() as int] == ':');
            assert(c == field.len());
            assert(field_name(line) =~= field);
            assert(field_value(line) =~= value);
        }
    }
    if sets_field(line, field) && field_value(line) == value {
        assert(field =~= line.take(c));
        if c >= line.len() {
            assert(line =~= field);
        } else {
            let v = line.skip(c + 1);
            assert(line =~= field + seq![':'] + v);
            if v.len() > 0 && v[0] == ' ' {
                assert(line =~= field + seq![':', ' '] + value);
            }
        }
    }
}

/// The two fields that count are not empty and hold no colon.
proof fn lemma_field_names()
    ensures
        "event"@.len() > 0,
        "data"@.len() > 0,
        !"event"@.contains(':'),
        !"data"@.contains(':'),
{
    reveal_strlit("event");
    reveal_strlit("data");
}

/// Whether `at` are the places of the lines that name a field.
pub open spec fn places_of(lines: Seq<Seq<char>>, field: Seq<char>, at: Seq<int>) -> bool {
    &&& forall|i: int, j: int| 0 <= i < j < at.len() ==> at[i] < at[j]
    &&& forall|i: int|
        0 <= i < at.len() ==> 0 <= #[trigger] at[i] < lines.len() && names(lines[at[i]], field)
    &&& forall|k: int|
        0 <= k < lines.len() && names(#[trigger] lines[k], field) ==> at.contains(k)
}

/// Whether a text is what the lines that name a field give it, one behind the other with
/// a line feed between two.
pub open spec fn joined_from(lines: Seq<Seq<char>>, field: Seq<char>, r: Seq<char>) -> bool {
    exists|at: Seq<int>, values: Seq<Seq<char>>| #[trigger]
        gathered(lines, field, at, values) && r == text::spec_join(values, seq!['\n'])
}

/// Whether `values` are what the lines at `at`, all that name a field, give it.
pub open spec fn gathered(
    lines: Seq<Seq<char>>,
    field: Seq<char>,
    at: Seq<int>,
    values: Seq<Seq<char>>,
) -> bool {
    &&& places_of(lines, field, at)
    &&& values.len() == at.len()
    &&& forall|i: int| 0 <= i < at.len() ==> gives(lines[at[i]], field, #[trigger] values[i])
}

/// A line names a field exactly where it sets it.
proof fn lemma_names(line: Seq<char>, field: Seq<char>)
    requires
        field.len() > 0,
        !field.contains(':'),
    ensures
        names(line, field) <==> sets_field(line, field),
{
    if names(line, field) {
        let v = choose|v: Seq<char>| gives(line, field, v);
        lemma_gives(line, field, v);
    }
    if sets_field(line, field) {
        lemma_gives(line, field, field_value(line));
        assert(gives(line, field, field_value(line)));
    }
}

/// The values of the data fields, with their places.
proof fn lemma_gathered(lines: Seq<Seq<char>>) -> (at: Seq<int>)
    ensures
        gathered(lines, "data"@, at, data_values(lines)),
    decreases lines.len(),
{
    lemma_field_names();
    if lines.len() == 0 {
        Seq::empty()
    } else {
        let before = lines.drop_last();
        let line = lines.last();
        let n = lines.len() - 1;
        let held = lemma_gathered(before);
        lemma_names(line, "data"@);
        let at = if sets_field(line, "data"@) {
            held.push(n)
        } else {
            held
        };
        if sets_field(line, "data"@) {
            lemma_gives(line, "data"@, field_value(line));
        }
        assert forall|i: int| 0 <= i < at.len() implies 0 <= #[trigger] at[i] < lines.len()
            && names(lines[at[i]], "data"@) by {
            if i < held.len() {
                assert(at[i] == held[i]);
                assert(before[held[i]] == lines[at[i]]);
            }
        }
        assert forall|i: int, j: int| 0 <= i < j < at.len() implies at[i] < at[j] by {
            assert(at[i] == held[i]);
            if j < held.len() {
                assert(at[j] == held[j]);
            }
        }
        assert forall|k: int| 0 <= k < lines.len() && names(
            #[trigger] lines[k],
            "data"@,
        ) implies at.contains(k) by {
            if k < n {
                assert(before[k] == lines[k]);
                assert(held.contains(k));
                let i = choose|i: int| 0 <= i < held.len() && held[i] == k;
                assert(at[i] == k);
            } else {
                assert(at[held.len() as int] == k);
            }
        }
        let values = data_values(lines);
        assert forall|i: int| 0 <= i < at.len() implies gives(
            lines[at[i]],
            "data"@,
            #[trigger] values[i],
        ) by {
            if i < held.len() {
                assert(at[i] == held[i]);
                assert(before[held[i]] == lines[at[i]]);
                assert(values[i] == data_values(before)[i]);
            }
        }
        at
    }
}

/// The name that some lines give an event is that of the last line that names one.
proof fn lemma_last_name(lines: Seq<Seq<char>>)
    ensures
        frame_name(lines) matches Some(n) ==> exists|i: int|
            0 <= i < lines.len() && gives(#[trigger] lines[i], "event"@, n) && forall|j: int|
                i < j < lines.len() ==> !names(#[trigger] lines[j], "event"@),
        frame_name(lines) is None ==> forall|j: int|
            0 <= j < lines.len() ==> !names(#[trigger] lines[j], "event"@),
    decreases lines.len(),
{
    lemma_field_names();
    if lines.len() > 0 {
        let before = lines.drop_last();
        let line = lines.last();
        let last = lines.len() - 1;
        lemma_last_name(before);
        lemma_names(line, "event"@);
        assert(lines[last] == line);
        if sets_field(line, "event"@) {
            lemma_gives(line, "event"@, field_value(line));
            assert(gives(lines[last], "event"@, field_value(line)));
        } else if let Some(n) = frame_name(before) {
            let i = choose|i: int|
                0 <= i < before.len() && gives(#[trigger] before[i], "event"@, n) && forall|j: int|
                    i < j < before.len() ==> !names(#[trigger] before[j], "event"@);
            assert(gives(lines[i], "event"@, n));
            assert forall|j: int| i < j < lines.len() implies !names(
                #[trigger] lines[j],
                "event"@,
            ) by {
                if j < last {
                    assert(before[j] == lines[j]);
                }
            }
        } else {
            assert forall|j: int| 0 <= j < lines.len() implies !names(
                #[trigger] lines[j],
                "event"@,
            ) by {
                if j < last {
                    assert(before[j] == lines[j]);
                }
            }
        }
    }
}

/// Whether an event is what some lines say: named by the last line that names an event,
/// with the data of the lines that name data, and a comment where there is a line that
/// starts with a colon, and neither name nor data.
pub open spec fn said_by(lines: Seq<Seq<char>>, e: SseEvent) -> bool {
    &&& e.name is Some ==> exists|i: int|
        0 <= i < lines.len() && gives(#[trigger] lines[i], "event"@, e.name->0@) && forall|j: int|
            i < j < lines.len() ==> !names(#[trigger] lines[j], "event"@)
    &&& e.name is None ==> forall|j: int|
        0 <= j < lines.len() ==> !names(#[trigger] lines[j], "event"@)
    &&& joined_from(lines, "data"@, e.data@)
    &&& e.comment <==> (exists|i: int|
        0 <= i < lines.len() && (#[trigger] lines[i]).len() > 0 && lines[i][0] == ':')
        && e.name is None && (forall|i: int|
        0 <= i < lines.len() ==> !names(#[trigger] lines[i], "data"@))
}

/// A frame is read by what its lines say; one without lines is none.
pub proof fn law_parse(content: &str, r: Option<SseEvent>)
    requires
        call_ensures(parse_text, (content,), r),
    ensures
        r is None <==> field_lines(content@).len() == 0,
        r is Some ==> said_by(field_lines(content@), r->0),
{
    if r is Some {
        lemma_said(content@, r->0);
    }
}

/// What a text is read as is what its lines say.
proof fn lemma_said(content: Seq<char>, e: SseEvent)
    requires
        spec_parse(content) == Some(e@),
    ensures
        said_by(field_lines(content), e),
{
    let lines = field_lines(content);
    lemma_last_name(lines);
    let at = lemma_gathered(lines);
    let values = data_values(lines);
    assert(gathered(lines, "data"@, at, values));
    assert(joined_from(lines, "data"@, e.data@));
    if values.len() == 0 {
        assert forall|i: int| 0 <= i < lines.len() implies !names(
            #[trigger] lines[i],
            "data"@,
        ) by {
            if names(lines[i], "data"@) {
                assert(at.contains(i));
            }
        }
    } else {
        assert(names(lines[at[0]], "data"@));
    }
    if has_comment(lines) {
        let i = choose|i: int| 0 <= i < lines.len() && is_comment(#[trigger] lines[i]);
        assert(lines[i].len() > 0 && lines[i][0] == ':');
    }
    if exists|i: int|
        0 <= i < lines.len() && (#[trigger] lines[i]).len() > 0 && lines[i][0] == ':' {
        let i = choose|i: int|
            0 <= i < lines.len() && (#[trigger] lines[i]).len() > 0 && lines[i][0] == ':';
        assert(is_comment(lines[i]));
    }
}

/// Raw bytes are read as the text that they encode, and that by what its lines say.
pub proof fn law_parse_frame(raw: &[u8], r: Option<SseEvent>)
    requires
        call_ensures(parse_frame, (raw,), r),
    ensures
        ({
            let content = if valid_utf8(raw@) {
                decode_utf8(raw@)
            } else {
                lossy_text(raw@)
            };
            &&& r is None <==> field_lines(content).len() == 0
            &&& r is Some ==> said_by(field_lines(content), r->0)
        }),
{
    if r is Some {
        lemma_said(text_of(raw@), r->0);
    }
}

/// Two events hold the same exactly where their names, their data and their flags agree.
pub proof fn law_event_fields(a: SseEvent, b: SseEvent)
    ensures
        a@ == b@ <==> a.name is Some == b.name is Some && (a.name is Some ==> a.name->0@
            == b.name->0@) && a.data@ == b.data@ && a.comment == b.comment,
{
}

/// The first frame of a buffer ends with the first empty line.
pub proof fn law_frame_len(buf: Seq<u8>)
    ensures
        frame_len(buf) matches Some(n) ==> 2 <= n <= buf.len() && buf[n - 2] == 10 && buf[n - 1]
            == 10 && forall|i: int|
            0 <= i < n - 2 ==> !(#[trigger] buf[i] == 10 && buf[i + 1] == 10),
        frame_len(buf) is None ==> forall|i: int|
            0 <= i < buf.len() - 1 ==> !(#[trigger] buf[i] == 10 && buf[i + 1] == 10),
    decreases buf.len(),
{
    if buf.len() >= 2 && !(buf[0] == 10 && buf[1] == 10) {
        let t = buf.drop_first();
        law_frame_len(t);
        match frame_len(t) {
            Some(m) => {
                assert forall|i: int| 0 <= i < m + 1 - 2 implies !(#[trigger] buf[i] == 10 && buf[i
                    + 1] == 10) by {
                    if i > 0 {
                        assert(t[i - 1] == buf[i]);
                    }
                }
            },
            None => {
                assert forall|i: int| 0 <= i < buf.len() - 1 implies !(#[trigger] buf[i] == 10
                    && buf[i + 1] == 10) by {
                    if i > 0 {
                        assert(t[i - 1] == buf[i]);
                    }
                }
            },
        }
    }
}

/// Nothing is lost: the frames of a buffer and what is left of it are the buffer, each
/// frame ends with its first empty line, and what is left holds none.
pub proof fn law_frames(buf: Seq<u8>)
    ensures
        frames(buf).flatten() + rest(buf) == buf,
        forall|i: int|
            0 <= i < frames(buf).len() ==> frame_len(#[trigger] frames(buf)[i]) == Some(
                frames(buf)[i].len(),
            ),
        frame_len(rest(buf)) is None,
    decreases buf.len(),
{
    lemma_frame_len(buf);
    match frame_len(buf) {
        Some(n) => {
            let first = buf.take(n as int);
            let more = buf.skip(n as int);
            law_frames(more);
            lemma_first_frame(buf, n);
            let list = frames(buf);
            assert(list =~= seq![first] + frames(more));
            assert(list.drop_first() =~= frames(more));
            assert(list.flatten() == first + frames(more).flatten());
            assert(first + frames(more).flatten() + rest(more) =~= first + (
            frames(more).flatten() + rest(more)));
            assert(first + more =~= buf);
            assert forall|i: int| 0 <= i < list.len() implies frame_len(#[trigger] list[i])
                == Some(list[i].len()) by {
                if i > 0 {
                    assert(list[i] == frames(more)[i - 1]);
                }
            }
        },
        None => {
            assert(frames(buf).flatten() + rest(buf) =~= buf);
        },
    }
}

/// The first frame of a buffer is a frame by itself.
proof fn lemma_first_frame(buf: Seq<u8>, n: nat)
    requires
        frame_len(buf) == Some(n),
    ensures
        2 <= n <= buf.len(),
        frame_len(buf.take(n as int)) == Some(n),
    decreases buf.len(),
{
    lemma_frame_len(buf);
    if !(buf[0] == 10 && buf[1] == 10) {
        let t = buf.drop_first();
        lemma_first_frame(t, (n - 1) as nat);
        assert(buf.take(n as int).drop_first() =~= t.take(n - 1));
    }
}

/// The events of frames are those of each, in order; one without lines has none.
pub proof fn law_parsed(a: Seq<Seq<u8>>, b: Seq<Seq<u8>>, raw: Seq<u8>)
    ensures
        parsed(a + b) == parsed(a) + parsed(b),
        spec_parse(text_of(raw)) is Some ==> parsed(seq![raw]) == seq![
            spec_parse(text_of(raw))->0,
        ],
        spec_parse(text_of(raw)) is None ==> parsed(seq![raw]).len() == 0,
{
    lemma_parsed_append(a, b);
    assert(seq![raw].drop_last() =~= Seq::<Seq<u8>>::empty());
    assert(seq![raw].last() == raw);
    assert(parsed(Seq::<Seq<u8>>::empty()).len() == 0);
    if spec_parse(text_of(raw)) is Some {
        assert(parsed(seq![raw]) =~= seq![spec_parse(text_of(raw))->0]);
    }
}

/// What an event is called: a comment `<keep-alive>`, any other by its name, or
/// `<unnamed>` where it has none.
pub open spec fn called(e: SseEvent) -> Seq<char> {
    if e.comment {
        "<keep-alive>"@
    } else if e.name is Some {
        e.name->0@
    } else {
        "<unnamed>"@
    }
}

/// An event is labelled by what it is called.
pub proof fn law_label(e: SseEvent, r: String)
    requires
        call_ensures(SseEvent::label, (&e,), r),
    ensures
        r@ == called(e),
{
}

/// Without colour a text is shown as it is; with it, between the codes that start and
/// end it.
pub proof fn law_paint(s: &str, code: &str, color: bool, painted: String, dimmed: String)
    requires
        call_ensures(paint, (s, code, color), painted),
        call_ensures(dim, (s, color), dimmed),
    ensures
        color ==> painted@ == "\u{1b}["@ + code@ + "m"@ + s@ + "\u{1b}[0m"@,
        !color ==> painted@ == s@,
        color ==> dimmed@ == "\u{1b}[2m"@ + s@ + "\u{1b}[0m"@,
        !color ==> dimmed@ == s@,
{
}

/// The colour code for what an event is called: one for zones, one for AC units, one for
/// presets, one for automation, one for the system and its state, one for the rest.
pub open spec fn hue(label: Seq<char>) -> Seq<char> {
    if label.len() >= 5 && label.take(5) == "zone-"@ {
        "36"@
    } else if label.len() >= 3 && label.take(3) == "ac-"@ {
        "33"@
    } else if label == "presets"@ {
        "35"@
    } else if label == "automation"@ {
        "32"@
    } else if label == "system"@ || label == "state"@ {
        "34"@
    } else {
        "90"@
    }
}

/// The colour of a label goes by its family.
proof fn lemma_hue(label: Seq<char>)
    ensures
        spec_color_for(label) == hue(label),
{
    reveal_strlit("zone-");
    reveal_strlit("ac-");
    if label.len() >= 5 {
        assert(label.subrange(0, 5) =~= label.take(5));
    }
    if label.len() >= 3 {
        assert(label.subrange(0, 3) =~= label.take(3));
    }
}

/// A label is coloured by its family.
pub proof fn law_color(label: &str, r: &'static str)
    requires
        call_ensures(color_for, (label,), r),
    ensures
        r@ == hue(label@),
{
    lemma_hue(label@);
}

/// A text on one line: its words with one space between them, and where that is wider
/// than the width, as much of it as leaves room for an ellipsis.
pub open spec fn on_one_line(s: Seq<char>, width: nat) -> Seq<char> {
    let flat = text::spec_join(text::spec_words(s), seq![' ']);
    if flat.len() <= width {
        flat
    } else if width == 0 {
        Seq::empty()
    } else {
        flat.take(width - 1) + seq!['\u{2026}']
    }
}

/// A text is brought on one line.
proof fn lemma_one_line(s: Seq<char>, width: nat)
    ensures
        spec_single_line(s, width) == on_one_line(s, width),
{
    reveal_strlit(" ");
    assert(" "@ =~= seq![' ']);
    assert(spec_single_line(s, width) =~= on_one_line(s, width));
}

/// A preview is the text on one line.
pub proof fn law_preview(s: &str, width: usize, r: String)
    requires
        call_ensures(single_line, (s, width), r),
    ensures
        r@ == on_one_line(s@, width as nat),
{
    lemma_one_line(s@, width as nat);
}

/// A text in a colour, or as it is.
pub open spec fn tinted(s: Seq<char>, code: Seq<char>, color: bool) -> Seq<char> {
    if color {
        "\u{1b}["@ + code + "m"@ + s + "\u{1b}[0m"@
    } else {
        s
    }
}

/// A text made faint, or as it is.
pub open spec fn faint(s: Seq<char>, color: bool) -> Seq<char> {
    if color {
        "\u{1b}[2m"@ + s + "\u{1b}[0m"@
    } else {
        s
    }
}

/// What is printed for an event: at the level of names, when it came and what it is
/// called; at the compact level, its size and a preview too, in columns; at the full
/// level, its size and every line of its data, and an empty line. A comment is printed
/// at the full level only.
pub proof fn law_printed(
    e: SseEvent,
    level: Level,
    width: usize,
    color: bool,
    ts: &str,
    r: Vec<String>,
)
    requires
        call_ensures(event_lines, (&e, level, width, color, ts), r),
    ensures
        ({
            let head = faint(ts@, color) + "  "@;
            let name = tinted(called(e), hue(called(e)), color);
            let size = text::spec_decimal(encode_utf8(e.data@).len());
            let lines = text::spec_lines(e.data@);
            &&& e.comment && level != Level::Full ==> r@.len() == 0
            &&& !e.comment && level == Level::Names ==> r@.len() == 1 && r@[0]@ == head + name
            &&& !e.comment && level == Level::Compact ==> r@.len() == 1 && r@[0]@ == head
                + text::spec_pad_right(name, 14) + " "@ + text::spec_pad_left(size, 5) + "B  "@
                + faint(on_one_line(e.data@, width as nat), color)
            &&& level == Level::Full ==> r@.len() > 0 && r@[0]@ == head + name + " "@ + faint(
                "("@ + size + " bytes)"@,
                color,
            ) && r@.last()@.len() == 0
            &&& level == Level::Full && e.data@.len() == 0 ==> r@.len() == 3 && r@[1]@ == "  "@
                + faint("(no data)"@, color)
            &&& level == Level::Full && e.data@.len() > 0 ==> r@.len() == lines.len() + 2
                && forall|i: int|
                0 <= i < lines.len() ==> (#[trigger] r@[i + 1])@ == "  "@ + lines[i]
        }),
{
    lemma_hue(called(e));
    lemma_one_line(e.data@, width as nat);
    assert(spec_label(e@) == called(e));
    let all = spec_event_lines(e@, level, width as nat, color, ts@);
    assert(text::texts(r@).len() == r@.len());
    assert forall|i: int| 0 <= i < r@.len() implies (#[trigger] r@[i])@ == all[i] by {
        assert(text::texts(r@)[i] == all[i]);
    }
    let lines = text::spec_lines(e.data@);
    if level == Level::Full && e.data@.len() > 0 {
        assert forall|i: int| 0 <= i < lines.len() implies (#[trigger] r@[i + 1])@ == "  "@
            + lines[i] by {
            assert(all[i + 1] == lines.map_values(|l: Seq<char>| "  "@ + l)[i]);
        }
    }
}

/// The summary has a heading with the total and a line for each label with its count, in
/// columns and in the order of the labels; without events it says so.
pub proof fn law_summary(s: Session, color: bool, r: Vec<String>)
    requires
        call_ensures(Session::summary_lines, (&s, color), r),
    ensures
        s.total() == 0 ==> r@.len() == 1 && r@[0]@ == "no events received."@,
        s.total() > 0 ==> r@.len() == s.entries().len() + 1 && r@[0]@ == "\n"@ + tinted(
            "summary"@,
            "1"@,
            color,
        ) + " ("@ + text::spec_decimal(s.total()) + " total):"@,
        s.total() > 0 ==> forall|i: int|
            0 <= i < s.entries().len() ==> (#[trigger] r@[i + 1])@ == "  "@ + text::spec_pad_right(
                tinted(s.entries()[i].0, hue(s.entries()[i].0), color),
                16,
            ) + " "@ + text::spec_decimal(s.entries()[i].1),
{
    let all = spec_summary_lines(s.entries(), s.total(), color);
    let entries = s.entries();
    assert(text::texts(r@).len() == r@.len());
    assert forall|i: int| 0 <= i < r@.len() implies (#[trigger] r@[i])@ == all[i] by {
        assert(text::texts(r@)[i] == all[i]);
    }
    if s.total() > 0 {
        assert forall|i: int| 0 <= i < entries.len() implies (#[trigger] r@[i + 1])@ == "  "@
            + text::spec_pad_right(tinted(entries[i].0, hue(entries[i].0), color), 16) + " "@
            + text::spec_decimal(entries[i].1) by {
            lemma_hue(entries[i].0);
            assert(all[i + 1] == entries.map_values(
                |e: (Seq<char>, nat)| summary_line(e, color),
            )[i]);
        }
    }
}

/// One more event counts one more under its label, and nothing under any other.
pub proof fn law_counted(
    tally: Map<Seq<char>, nat>,
    events: Seq<EventModel>,
    e: EventModel,
    other: Seq<char>,
)
    ensures
        ({
            let before = counted_all(tally, events);
            let after = counted_all(tally, events.push(e));
            let label = spec_label(e);
            &&& counted_all(tally, Seq::empty()) == tally
            &&& after.contains_key(label)
            &&& before.contains_key(label) ==> after[label] == before[label] + 1
            &&& !before.contains_key(label) ==> after[label] == 1
            &&& other != label ==> after.contains_key(other) == before.contains_key(other)
            &&& other != label && before.contains_key(other) ==> after[other] == before[other]
        }),
{
    assert(events.push(e).drop_last() =~= events);
}

/// The entries of a session are its tally: each label once, in order, with its count,
/// and the counts sum up to the total.
pub proof fn law_entries(s: Session, label: Seq<char>)
    requires
        s.wf(),
    ensures
        s.tally().contains_key(label) <==> exists|i: int|
            0 <= i < s.entries().len() && (#[trigger] s.entries()[i]).0 == label,
        forall|i: int|
            0 <= i < s.entries().len() ==> s.tally()[(#[trigger] s.entries()[i]).0]
                == s.entries()[i].1,
        forall|i: int, j: int|
            0 <= i < j < s.entries().len() ==> text::spec_before(
                (#[trigger] s.entries()[i]).0,
                (#[trigger] s.entries()[j]).0,
            ),
        s.entries().fold_left(0, |n: int, entry: (Seq<char>, nat)| n + entry.1) == s.total(),
{
    lemma_tally(s.entries());
    lemma_sum(s.entries());
}

/// The sum of some entries adds their counts up.
proof fn lemma_sum(entries: Seq<(Seq<char>, nat)>)
    ensures
        entries.fold_left(0, |n: int, entry: (Seq<char>, nat)| n + entry.1) == sum_of(entries),
    decreases entries.len(),
{
    if entries.len() > 0 {
        lemma_sum(entries.drop_last());
    }
}

/// A session says how many events it counted, and how many bytes wait.
pub proof fn law_session_counts(s: Session, events: u64, waiting: usize)
    requires
        call_ensures(Session::event_count, (&s,), events),
        call_ensures(Session::pending_len, (&s,), waiting),
    ensures
        events == s.total(),
        waiting == s.pending().len(),
{
}

/// The stream is asked for at the server, under the path; only a success is listened to.
pub proof fn law_connecting(
    addr: &str,
    path: &str,
    url: String,
    code: u16,
    shown: &str,
    r: Result<(), String>,
)
    requires
        call_ensures(stream_url, (addr, path), url),
        call_ensures(check_status, (code, shown), r),
    ensures
        url@ == "http://"@ + addr@ + path@,
        r is Ok <==> 200 <= code <= 299,
        r is Err ==> r->Err_0@ == "unexpected HTTP status: "@ + shown@,
{
}

} // verus!
