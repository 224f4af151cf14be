//! What holds of the listener as a whole.

use axum::response::sse::Event;
use vstd::prelude::*;
use vstd::utf8::{decode_utf8, encode_scalar, encode_utf8, leading_byte_width_1, valid_utf8};
use crate::listener::{display, event, session};
use crate::text;
use crate::web::sse::{data_text, event_bytes, event_name, wire_text};

verus! {

/// What follows a complete frame does not change it.
proof fn lemma_frame_len_append(a: Seq<u8>, b: Seq<u8>)
    ensures
        event::frame_len(a) matches Some(n) ==> event::frame_len(a + b) == Some(n),
    decreases a.len(),
{
    if a.len() >= 2 && !(a[0] == 10 && a[1] == 10) {
        lemma_frame_len_append(a.drop_first(), b);
        assert((a + b).drop_first() =~= a.drop_first() + b);
    }
}

/// The events of a list of frames are those of its two parts.
pub(crate) proof fn lemma_parsed_append(a: Seq<Seq<u8>>, b: Seq<Seq<u8>>)
    ensures
        event::parsed(a + b) == event::parsed(a) + event::parsed(b),
    decreases b.len(),
{
    if b.len() == 0 {
        assert(a + b =~= a);
        assert(event::parsed(a) + event::parsed(b) =~= event::parsed(a));
    } else {
        lemma_parsed_append(a, b.drop_last());
        assert((a + b).drop_last() =~= a + b.drop_last());
        assert((a + b).last() == b.last());
        assert(event::parsed(a + b) =~= event::parsed(a) + event::parsed(b));
    }
}

/// It does not matter how the stream is cut into chunks: draining the buffer
/// after the bytes `a`, and again when the bytes `b` have come behind what was
/// left, gives the events, in the same order, and the remainder that draining
/// `a + b` at once gives.
pub proof fn law_chunking(a: Seq<u8>, b: Seq<u8>)
    ensures
        event::parsed(event::frames(a + b)) == event::parsed(event::frames(a)) + event::parsed(
            event::frames(event::rest(a) + b),
        ),
        event::rest(a + b) == event::rest(event::rest(a) + b),
{
    lemma_chunking(a, b);
    lemma_parsed_append(event::frames(a), event::frames(event::rest(a) + b));
}

/// The frames of a stream do not depend on its chunks.
proof fn lemma_chunking(a: Seq<u8>, b: Seq<u8>)
    ensures
        event::frames(a + b) == event::frames(a) + event::frames(event::rest(a) + b),
        event::rest(a + b) == event::rest(event::rest(a) + b),
    decreases a.len(),
{
    event::lemma_frame_len(a);
    match event::frame_len(a) {
        Some(n) => {
            lemma_frame_len_append(a, b);
            let tail = a.skip(n as int);
            lemma_chunking(tail, b);
            assert((a + b).take(n as int) =~= a.take(n as int));
            assert((a + b).skip(n as int) =~= tail + b);
            assert(event::frames(a + b) =~= event::frames(a) + event::frames(event::rest(a) + b));
        },
        None => {
            assert(event::frames(a) + event::frames(a + b) =~= event::frames(a + b));
        },
    }
}

/// What draining leaves behind holds no complete frame: draining again gives
/// nothing and leaves it as it is.
pub proof fn law_drained(buf: Seq<u8>)
    ensures
        event::frame_len(event::rest(buf)) is None,
        event::frames(event::rest(buf)) == Seq::<Seq<u8>>::empty(),
        event::rest(event::rest(buf)) == event::rest(buf),
    decreases buf.len(),
{
    event::lemma_frame_len(buf);
    if let Some(n) = event::frame_len(buf) {
        law_drained(buf.skip(n as int));
    }
}

/// Some lines of a frame as they are sent: each ended by a line feed, and an
/// empty line behind them.
pub open spec fn sent_lines(lines: Seq<Seq<char>>) -> Seq<char>
    decreases lines.len(),
{
    if lines.len() == 0 {
        seq!['\n']
    } else {
        lines[0] + seq!['\n'] + sent_lines(lines.drop_first())
    }
}

/// The lines of a named event: its name, then one `data` line for each line of
/// its data. Empty data has no line.
pub open spec fn event_lines(name: Seq<char>, data: Seq<char>) -> Seq<Seq<char>> {
    let head = seq!["event: "@ + name];
    if data.len() == 0 {
        head
    } else {
        head + text::spec_split(data, '\n').map_values(|l: Seq<char>| "data: "@ + l)
    }
}

/// A named event in the form in which a server sends it.
pub open spec fn sent_event(name: Seq<char>, data: Seq<char>) -> Seq<char> {
    sent_lines(event_lines(name, data))
}

/// A piece between separators holds none; what it holds stands in the text.
pub(crate) proof fn lemma_split_pieces(s: Seq<char>, sep: char)
    ensures
        text::spec_split(s, sep).len() > 0,
        forall|i: int| #![trigger text::spec_split(s, sep)[i]]
            0 <= i < text::spec_split(s, sep).len() ==> forall|j: int|
                0 <= j < text::spec_split(s, sep)[i].len() ==> #[trigger] text::spec_split(
                    s,
                    sep,
                )[i][j] != sep && s.contains(text::spec_split(s, sep)[i][j]),
    decreases s.len(),
{
    if s.len() > 0 {
        let t = s.drop_last();
        lemma_split_pieces(t, sep);
        let before = text::spec_split(t, sep);
        let after = text::spec_split(s, sep);
        assert(s[s.len() - 1] == s.last());
        assert forall|c: char| t.contains(c) implies s.contains(c) by {
            let k = choose|k: int| 0 <= k < t.len() && t[k] == c;
            assert(s[k] == c);
        }
        assert forall|i: int| #![trigger after[i]] 0 <= i < after.len() implies forall|j: int|
            0 <= j < after[i].len() ==> #[trigger] after[i][j] != sep && s.contains(after[i][j]) by {
            if s.last() == sep {
                if i < before.len() {
                    assert(after[i] == before[i]);
                }
            } else {
                if i < before.len() - 1 {
                    assert(after[i] == before[i]);
                } else {
                    assert(after[i] == before.last().push(s.last()));
                    assert(before.last() == before[before.len() - 1]);
                }
            }
        }
    }
}

/// A text without separators is one piece.
pub(crate) proof fn lemma_split_one(s: Seq<char>, sep: char)
    requires
        !s.contains(sep),
    ensures
        text::spec_split(s, sep) == seq![s],
    decreases s.len(),
{
    if s.len() > 0 {
        let t = s.drop_last();
        assert(s[s.len() - 1] == s.last());
        assert(!t.contains(sep)) by {
            if t.contains(sep) {
                let k = choose|k: int| 0 <= k < t.len() && t[k] == sep;
                assert(s[k] == sep);
            }
        }
        lemma_split_one(t, sep);
        assert(t.push(s.last()) =~= s);
        assert(text::spec_split(s, sep) =~= seq![s]);
    }
}

/// A separator parts the pieces before it from those behind it.
pub(crate) proof fn lemma_split_append(a: Seq<char>, b: Seq<char>, sep: char)
    ensures
        text::spec_split(a + seq![sep] + b, sep) == text::spec_split(a, sep) + text::spec_split(
            b,
            sep,
        ),
    decreases b.len(),
{
    let s = a + seq![sep] + b;
    lemma_split_pieces(b, sep);
    if b.len() == 0 {
        assert(s.drop_last() =~= a);
        assert(s.last() == sep);
        assert(b =~= Seq::<char>::empty());
        assert(text::spec_split(s, sep) =~= text::spec_split(a, sep) + text::spec_split(b, sep));
    } else {
        let c = b.drop_last();
        lemma_split_append(a, c, sep);
        lemma_split_pieces(c, sep);
        assert(s.drop_last() =~= a + seq![sep] + c);
        assert(s.last() == b.last());
        assert(text::spec_split(s, sep) =~= text::spec_split(a, sep) + text::spec_split(b, sep));
    }
}

/// A text with every line feed made a carriage return and a line feed.
pub open spec fn with_crlf(s: Seq<char>) -> Seq<char>
    decreases s.len(),
{
    if s.len() == 0 {
        s
    } else if s.last() == '\n' {
        with_crlf(s.drop_last()).push('\r').push('\n')
    } else {
        with_crlf(s.drop_last()).push(s.last())
    }
}

/// Some bytes with every line feed made a carriage return and a line feed.
pub open spec fn bytes_with_crlf(bytes: Seq<u8>) -> Seq<u8>
    decreases bytes.len(),
{
    if bytes.len() == 0 {
        bytes
    } else if bytes.last() == 10 {
        bytes_with_crlf(bytes.drop_last()).push(13).push(10)
    } else {
        bytes_with_crlf(bytes.drop_last()).push(bytes.last())
    }
}

/// Some pieces with a carriage return behind each but the last.
spec fn returned(pieces: Seq<Seq<char>>) -> Seq<Seq<char>> {
    Seq::new(
        pieces.len(),
        |i: int|
            if i < pieces.len() - 1 {
                pieces[i].push('\r')
            } else {
                pieces[i]
            },
    )
}

/// The lines of a text with the longer line ends have a carriage return behind each but
/// the last.
proof fn lemma_crlf_split(s: Seq<char>)
    ensures
        text::spec_split(with_crlf(s), '\n') == returned(text::spec_split(s, '\n')),
    decreases s.len(),
{
    if s.len() == 0 {
        assert(text::spec_split(with_crlf(s), '\n') =~= returned(text::spec_split(s, '\n')));
    } else {
        let t = s.drop_last();
        let c = s.last();
        let x = with_crlf(t);
        let pieces = text::spec_split(t, '\n');
        let longer = text::spec_split(x, '\n');
        lemma_crlf_split(t);
        lemma_split_pieces(t, '\n');
        if c == '\n' {
            let y = x.push('\r');
            assert(y.drop_last() =~= x);
            assert(text::spec_split(y, '\n') == longer.drop_last().push(longer.last().push('\r')));
            assert(with_crlf(s).drop_last() =~= y);
            assert(text::spec_split(with_crlf(s), '\n') =~= returned(
                pieces.push(Seq::empty()),
            ));
        } else {
            assert(with_crlf(s).drop_last() =~= x);
            assert(text::spec_split(with_crlf(s), '\n') =~= returned(
                pieces.drop_last().push(pieces.last().push(c)),
            ));
        }
    }
}

/// The listener reads a frame whose lines end with a carriage return and a line feed as
/// it reads the same frame with line feeds alone. A text that holds carriage returns
/// already could have one before a line feed, of which only the last is dropped.
pub proof fn law_line_ends(s: Seq<char>)
    requires
        !s.contains('\r'),
    ensures
        event::field_lines(with_crlf(s)) == event::field_lines(s),
        event::spec_parse(with_crlf(s)) == event::spec_parse(s),
{
    let pieces = text::spec_split(s, '\n');
    let longer = text::spec_split(with_crlf(s), '\n');
    let strip = |l: Seq<char>| text::strip_cr(l);
    lemma_crlf_split(s);
    lemma_split_pieces(s, '\n');
    assert forall|i: int| 0 <= i < pieces.len() implies text::strip_cr(#[trigger] longer[i])
        == text::strip_cr(pieces[i]) by {
        let p = pieces[i];
        if p.len() > 0 {
            assert(s.contains(pieces[i][p.len() - 1]));
        }
        assert(p.push('\r').drop_last() =~= p);
    }
    assert(longer.map_values(strip) =~= pieces.map_values(strip));
}

/// The pieces joined by the separator are the text again.
proof fn lemma_join_split(s: Seq<char>, sep: char)
    ensures
        text::spec_join(text::spec_split(s, sep), seq![sep]) == s,
    decreases s.len(),
{
    if s.len() > 0 {
        let t = s.drop_last();
        lemma_join_split(t, sep);
        lemma_split_pieces(t, sep);
        let before = text::spec_split(t, sep);
        let after = text::spec_split(s, sep);
        if s.last() == sep {
            assert(after.drop_last() =~= before);
            assert(after.last() =~= Seq::empty());
            assert(t + seq![sep] + after.last() =~= s);
            assert(text::spec_join(after, seq![sep]) =~= s);
        } else {
            assert(after.drop_last() =~= before.drop_last());
            assert(after.last() == before.last().push(s.last()));
            if before.len() == 1 {
                assert(before[0] == t);
                assert(after[0] =~= s);
            } else {
                assert(text::spec_join(before.drop_last(), seq![sep]) + seq![sep] + after.last() =~= (
                text::spec_join(before.drop_last(), seq![sep]) + seq![sep] + before.last()).push(
                    s.last(),
                ));
            }
            assert(text::spec_join(after, seq![sep]) =~= s);
        }
    }
}

/// A line that can be sent: not empty, without line feed, and without a
/// carriage return at its end.
spec fn plain_line(line: Seq<char>) -> bool {
    &&& line.len() > 0
    &&& !line.contains('\n')
    &&& line.last() != '\r'
}

/// The lines of a sent frame are read back.
proof fn lemma_sent_lines_split(lines: Seq<Seq<char>>)
    requires
        forall|i: int| 0 <= i < lines.len() ==> plain_line(#[trigger] lines[i]),
    ensures
        text::spec_split(sent_lines(lines), '\n') == lines + seq![
            Seq::<char>::empty(),
            Seq::<char>::empty(),
        ],
    decreases lines.len(),
{
    if lines.len() == 0 {
        let s = seq!['\n'];
        assert(s.drop_last() =~= Seq::<char>::empty());
        assert(text::spec_split(s.drop_last(), '\n') == seq![Seq::<char>::empty()]);
        assert(text::spec_split(s, '\n') =~= lines + seq![
            Seq::<char>::empty(),
            Seq::<char>::empty(),
        ]);
    } else {
        lemma_sent_lines_split(lines.drop_first());
        assert(plain_line(lines[0]));
        lemma_split_one(lines[0], '\n');
        lemma_split_append(lines[0], sent_lines(lines.drop_first()), '\n');
        assert(text::spec_split(sent_lines(lines), '\n') =~= lines + seq![
            Seq::<char>::empty(),
            Seq::<char>::empty(),
        ]);
    }
}

/// Lines that hold no line end are read back as they were sent.
proof fn lemma_field_lines(lines: Seq<Seq<char>>)
    requires
        forall|i: int| 0 <= i < lines.len() ==> plain_line(#[trigger] lines[i]),
    ensures
        event::field_lines(sent_lines(lines)) == lines,
{
    lemma_sent_lines_split(lines);
    let e = Seq::<char>::empty();
    let kept = |l: Seq<char>| l.len() > 0;
    let all = (lines + seq![e, e]).map_values(|l: Seq<char>| text::strip_cr(l));
    assert(all =~= lines.push(e).push(e)) by {
        assert forall|i: int| 0 <= i < lines.len() implies all[i] == lines[i] by {
            assert(plain_line(lines[i]));
        }
    }
    text::lemma_filter_all(lines, kept);
    assert(lines.push(e).push(e).filter(kept) == lines.push(e).filter(kept)) by {
        reveal(Seq::filter);
        assert(lines.push(e).push(e).drop_last() =~= lines.push(e));
    }
    assert(lines.push(e).filter(kept) == lines.filter(kept)) by {
        reveal(Seq::filter);
        assert(lines.push(e).drop_last() =~= lines);
    }
}

/// The line `<field>: <value>` sets that field to that value.
proof fn lemma_field(field: Seq<char>, value: Seq<char>)
    requires
        !field.contains(':'),
    ensures
        event::colon(field + seq![':', ' '] + value) == field.len(),
        event::field_name(field + seq![':', ' '] + value) == field,
        event::field_value(field + seq![':', ' '] + value) == value,
    decreases field.len(),
{
    let line = field + seq![':', ' '] + value;
    if field.len() > 0 {
        let f = field.drop_first();
        assert(field[0] != ':');
        assert(!f.contains(':')) by {
            if f.contains(':') {
                let k = choose|k: int| 0 <= k < f.len() && f[k] == ':';
                assert(field[k + 1] == ':');
            }
        }
        lemma_field(f, value);
        assert(line.drop_first() =~= f + seq![':', ' '] + value);
    }
    assert(event::field_name(line) =~= field);
    assert(event::field_value(line) =~= value);
}

/// The two kinds of line that a named event is made of.
proof fn lemma_event_line(value: Seq<char>)
    ensures
        !event::is_comment("event: "@ + value),
        event::field_name("event: "@ + value) == "event"@,
        event::field_value("event: "@ + value) == value,
        !event::is_comment("data: "@ + value),
        event::field_name("data: "@ + value) == "data"@,
        event::field_value("data: "@ + value) == value,
        "event"@ != "data"@,
{
    reveal_strlit("event: ");
    reveal_strlit("event");
    reveal_strlit("data: ");
    reveal_strlit("data");
    lemma_field("event"@, value);
    lemma_field("data"@, value);
    assert("event: "@ + value =~= "event"@ + seq![':', ' '] + value);
    assert("data: "@ + value =~= "data"@ + seq![':', ' '] + value);
    assert("event"@.len() != "data"@.len());
}

/// The fields of the first `1 + k` lines of a named event.
proof fn lemma_event_fields(name: Seq<char>, data: Seq<char>, k: int)
    requires
        0 <= k < event_lines(name, data).len(),
    ensures
        event::frame_name(event_lines(name, data).take(1 + k)) == Some(name),
        event::data_values(event_lines(name, data).take(1 + k)) == text::spec_split(
            data,
            '\n',
        ).take(k),
    decreases k,
{
    let lines = event_lines(name, data);
    let pieces = text::spec_split(data, '\n');
    let head = lines.take(1 + k);
    lemma_split_pieces(data, '\n');
    if k == 0 {
        lemma_event_line(name);
        assert(head.last() == "event: "@ + name);
        assert(head.drop_last() =~= Seq::empty());
        assert(event::data_values(head.drop_last()) =~= Seq::empty());
        assert(pieces.take(0) =~= Seq::empty());
    } else {
        lemma_event_fields(name, data, k - 1);
        lemma_event_line(pieces[k - 1]);
        assert(head.last() == "data: "@ + pieces[k - 1]);
        assert(head.drop_last() =~= lines.take(k));
        assert(pieces.take(k) =~= pieces.take(k - 1).push(pieces[k - 1]));
    }
}

/// The listener reads back what a server sent as a named event.
proof fn lemma_parse_sent(name: Seq<char>, data: Seq<char>)
    requires
        !name.contains('\n'),
        !name.contains('\r'),
        !data.contains('\r'),
    ensures
        forall|i: int|
            0 <= i < event_lines(name, data).len() ==> plain_line(
                #[trigger] event_lines(name, data)[i],
            ),
        event::spec_parse(sent_event(name, data)) == Some(
            event::EventModel { name: Some(name), data, comment: false },
        ),
{
    let lines = event_lines(name, data);
    let pieces = text::spec_split(data, '\n');
    lemma_split_pieces(data, '\n');
    reveal_strlit("event: ");
    reveal_strlit("data: ");
    assert forall|i: int| 0 <= i < lines.len() implies plain_line(#[trigger] lines[i]) by {
        let l = lines[i];
        if i == 0 {
            assert(l == "event: "@ + name);
            if l.contains('\n') {
                let k = choose|k: int| 0 <= k < l.len() && l[k] == '\n';
                assert(name[k - 7] == '\n');
            }
            if l.last() == '\r' {
                assert(name[name.len() - 1] == '\r');
            }
        } else {
            let p = pieces[i - 1];
            assert(l == "data: "@ + p);
            if l.contains('\n') {
                let k = choose|k: int| 0 <= k < l.len() && l[k] == '\n';
                assert(pieces[i - 1][k - 6] == '\n');
            }
            if l.last() == '\r' {
                assert(pieces[i - 1][p.len() - 1] == '\r');
            }
        }
    }
    lemma_field_lines(lines);
    let k = lines.len() - 1;
    lemma_event_fields(name, data, k);
    assert(lines.take(1 + k) =~= lines);
    if data.len() == 0 {
        assert(pieces.take(0) =~= Seq::empty());
        assert(data =~= Seq::empty());
    } else {
        assert(pieces.take(k) =~= pieces);
        lemma_join_split(data, '\n');
    }
}

/// The encoding of two texts is that of the one and of the other.
proof fn lemma_encode_append(a: Seq<char>, b: Seq<char>)
    ensures
        encode_utf8(a + b) == encode_utf8(a) + encode_utf8(b),
    decreases a.len(),
{
    if a.len() == 0 {
        assert(a + b =~= b);
        assert(encode_utf8(a) + encode_utf8(b) =~= encode_utf8(b));
    } else {
        lemma_encode_append(a.drop_first(), b);
        assert((a + b).drop_first() =~= a.drop_first() + b);
        assert(encode_utf8(a + b) =~= encode_utf8(a) + encode_utf8(b));
    }
}

/// Only a line feed is encoded with the byte of a line feed.
proof fn lemma_encode_scalar_newline(c: char)
    requires
        c != '\n',
    ensures
        encode_scalar(c as u32).len() > 0,
        !encode_scalar(c as u32).contains(10u8),
{
    let v = c as u32;
    assert(v != 10);
    assert(v <= 0x7f && v != 10 ==> (v & 0x7f) as u8 != 10u8) by (bit_vector);
    assert(0xC0u8 | ((v >> 6) & 0x1F) as u8 != 10u8) by (bit_vector);
    assert(0xE0u8 | ((v >> 12) & 0x0F) as u8 != 10u8) by (bit_vector);
    assert(0xF0u8 | ((v >> 18) & 0x7) as u8 != 10u8) by (bit_vector);
    assert(0x80u8 | (v & 0x3F) as u8 != 10u8) by (bit_vector);
    assert(0x80u8 | ((v >> 6) & 0x3F) as u8 != 10u8) by (bit_vector);
    assert(0x80u8 | ((v >> 12) & 0x3F) as u8 != 10u8) by (bit_vector);
}

/// The encoding of a text without line feeds holds no line feed.
proof fn lemma_encode_no_newline(s: Seq<char>)
    requires
        !s.contains('\n'),
    ensures
        !encode_utf8(s).contains(10u8),
        s.len() > 0 ==> encode_utf8(s).len() > 0,
    decreases s.len(),
{
    if s.len() > 0 {
        let t = s.drop_first();
        assert(s[0] != '\n');
        assert(!t.contains('\n')) by {
            if t.contains('\n') {
                let k = choose|k: int| 0 <= k < t.len() && t[k] == '\n';
                assert(s[k + 1] == '\n');
            }
        }
        lemma_encode_scalar_newline(s[0]);
        lemma_encode_no_newline(t);
        let a = encode_scalar(s[0] as u32);
        let b = encode_utf8(t);
        assert(!(a + b).contains(10u8)) by {
            if (a + b).contains(10u8) {
                let k = choose|k: int| 0 <= k < (a + b).len() && (a + b)[k] == 10u8;
                if k < a.len() {
                    assert(a[k] == 10u8);
                } else {
                    assert(b[k - a.len()] == 10u8);
                }
            }
        }
    }
}

/// Making the line ends longer goes piece by piece.
proof fn lemma_bytes_crlf_append(a: Seq<u8>, b: Seq<u8>)
    ensures
        bytes_with_crlf(a + b) == bytes_with_crlf(a) + bytes_with_crlf(b),
    decreases b.len(),
{
    if b.len() == 0 {
        assert(a + b =~= a);
        assert(bytes_with_crlf(a) + bytes_with_crlf(b) =~= bytes_with_crlf(a));
    } else {
        lemma_bytes_crlf_append(a, b.drop_last());
        assert((a + b).drop_last() =~= a + b.drop_last());
        assert((a + b).last() == b.last());
        assert(bytes_with_crlf(a + b) =~= bytes_with_crlf(a) + bytes_with_crlf(b));
    }
}

/// Bytes without line feeds have no line ends to make longer.
proof fn lemma_bytes_crlf_none(bytes: Seq<u8>)
    requires
        !bytes.contains(10u8),
    ensures
        bytes_with_crlf(bytes) == bytes,
    decreases bytes.len(),
{
    if bytes.len() > 0 {
        let short = bytes.drop_last();
        assert(bytes[bytes.len() - 1] == bytes.last());
        assert(!short.contains(10u8)) by {
            if short.contains(10u8) {
                let k = choose|k: int| 0 <= k < short.len() && short[k] == 10u8;
                assert(bytes[k] == 10u8);
            }
        }
        lemma_bytes_crlf_none(short);
        assert(short.push(bytes.last()) =~= bytes);
    }
}

/// The two characters of a line end are encoded as their two bytes.
proof fn lemma_encode_line_end()
    ensures
        encode_utf8(seq!['\n']) == seq![10u8],
        encode_utf8(seq!['\r']) == seq![13u8],
{
    let nl = seq!['\n'];
    let cr = seq!['\r'];
    assert(nl.drop_first() =~= Seq::<char>::empty());
    assert(cr.drop_first() =~= Seq::<char>::empty());
    assert(encode_utf8(nl.drop_first()) =~= Seq::<u8>::empty());
    assert(encode_utf8(cr.drop_first()) =~= Seq::<u8>::empty());
    assert(10u32 & 0x7f == 10u32) by (bit_vector);
    assert(13u32 & 0x7f == 13u32) by (bit_vector);
    assert(leading_byte_width_1(10u32) == 10u8);
    assert(leading_byte_width_1(13u32) == 13u8);
    assert(encode_scalar(10u32) =~= seq![10u8]);
    assert(encode_scalar(13u32) =~= seq![13u8]);
    assert(encode_utf8(nl) =~= seq![10u8]);
    assert(encode_utf8(cr) =~= seq![13u8]);
}

/// The line ends of a text are those of its encoding.
proof fn lemma_encode_crlf(s: Seq<char>)
    ensures
        encode_utf8(with_crlf(s)) == bytes_with_crlf(encode_utf8(s)),
    decreases s.len(),
{
    if s.len() > 0 {
        let t = s.drop_last();
        let one = seq![s.last()];
        lemma_encode_crlf(t);
        assert(s =~= t + one);
        lemma_encode_append(t, one);
        lemma_bytes_crlf_append(encode_utf8(t), encode_utf8(one));
        lemma_encode_line_end();
        if s.last() == '\n' {
            let end = seq!['\r', '\n'];
            assert(with_crlf(s) =~= with_crlf(t) + end);
            lemma_encode_append(with_crlf(t), end);
            assert(end =~= seq!['\r'] + seq!['\n']);
            lemma_encode_append(seq!['\r'], seq!['\n']);
            assert(one =~= seq!['\n']);
            let byte = seq![10u8];
            assert(byte.drop_last() =~= Seq::<u8>::empty());
            assert(bytes_with_crlf(byte.drop_last()) =~= Seq::<u8>::empty());
            assert(bytes_with_crlf(byte) =~= seq![13u8] + seq![10u8]);
        } else {
            assert(with_crlf(s) =~= with_crlf(t) + one);
            lemma_encode_append(with_crlf(t), one);
            assert(!one.contains('\n'));
            lemma_encode_no_newline(one);
            lemma_bytes_crlf_none(encode_utf8(one));
        }
    } else {
        assert(encode_utf8(s) =~= Seq::<u8>::empty());
        assert(bytes_with_crlf(encode_utf8(s)) =~= Seq::<u8>::empty());
    }
}

/// The longer line ends change nothing of what the listener reads from the bytes of a
/// frame either, where these are valid UTF-8.
pub proof fn law_frame_line_ends(raw: Seq<u8>)
    requires
        valid_utf8(raw),
        !raw.contains(13u8),
    ensures
        event::spec_parse(event::text_of(bytes_with_crlf(raw))) == event::spec_parse(
            event::text_of(raw),
        ),
{
    let s = decode_utf8(raw);
    vstd::utf8::decode_utf8_encode_utf8(raw);
    lemma_encode_crlf(s);
    vstd::utf8::encode_utf8_valid_utf8(with_crlf(s));
    vstd::utf8::encode_utf8_decode_utf8(with_crlf(s));
    assert(!s.contains('\r')) by {
        if s.contains('\r') {
            let k = choose|k: int| 0 <= k < s.len() && s[k] == '\r';
            let cr = seq!['\r'];
            assert(s =~= s.take(k) + cr + s.skip(k + 1));
            lemma_encode_append(s.take(k) + cr, s.skip(k + 1));
            lemma_encode_append(s.take(k), cr);
            lemma_encode_line_end();
            let at = encode_utf8(s.take(k)).len() as int;
            assert(raw[at] == 13u8);
        }
    }
    law_line_ends(s);
}

/// Bytes without line feed before a frame make it longer.
proof fn lemma_frame_len_prefix(x: Seq<u8>, y: Seq<u8>)
    requires
        !x.contains(10u8),
        event::frame_len(y) is Some,
    ensures
        event::frame_len(x + y) == Some((x.len() + event::frame_len(y)->0) as nat),
    decreases x.len(),
{
    if x.len() == 0 {
        assert(x + y =~= y);
    } else {
        let t = x.drop_first();
        assert(x[0] != 10u8);
        assert(!t.contains(10u8)) by {
            if t.contains(10u8) {
                let k = choose|k: int| 0 <= k < t.len() && t[k] == 10u8;
                assert(x[k + 1] == 10u8);
            }
        }
        lemma_frame_len_prefix(t, y);
        event::lemma_frame_len(y);
        assert((x + y).drop_first() =~= t + y);
    }
}

/// Sent lines are one frame.
proof fn lemma_sent_frame(lines: Seq<Seq<char>>)
    requires
        forall|i: int| 0 <= i < lines.len() ==> plain_line(#[trigger] lines[i]),
    ensures
        lines.len() > 0 ==> event::frame_len(encode_utf8(sent_lines(lines))) == Some(
            encode_utf8(sent_lines(lines)).len(),
        ),
        lines.len() == 0 ==> encode_utf8(sent_lines(lines)) == seq![10u8],
        lines.len() > 0 ==> encode_utf8(sent_lines(lines)).len() > 0 && encode_utf8(
            sent_lines(lines),
        )[0] != 10,
    decreases lines.len(),
{
    let nl = seq!['\n'];
    lemma_encode_line_end();
    if lines.len() > 0 {
        let tail = lines.drop_first();
        lemma_sent_frame(tail);
        assert(plain_line(lines[0]));
        lemma_encode_no_newline(lines[0]);
        lemma_encode_append(lines[0] + nl, sent_lines(tail));
        lemma_encode_append(lines[0], nl);
        let x = encode_utf8(lines[0]);
        let w = encode_utf8(sent_lines(tail));
        let y = seq![10u8] + w;
        assert(encode_utf8(sent_lines(lines)) =~= x + y);
        assert(y.drop_first() =~= w);
        assert(event::frame_len(y) == Some(y.len()));
        lemma_frame_len_prefix(x, y);
        assert(x[0] != 10u8);
    }
}

/// The event of these lines is read back, with nothing left over.
proof fn lemma_sent_event(name: Seq<char>, data: Seq<char>)
    requires
        !name.contains('\n'),
        !name.contains('\r'),
        !data.contains('\r'),
    ensures
        event::parsed(event::frames(encode_utf8(sent_event(name, data)))) == seq![
            event::EventModel { name: Some(name), data, comment: false },
        ],
        event::rest(encode_utf8(sent_event(name, data))) == Seq::<u8>::empty(),
{
    let lines = event_lines(name, data);
    let bytes = encode_utf8(sent_event(name, data));
    lemma_parse_sent(name, data);
    lemma_sent_frame(lines);
    vstd::utf8::encode_utf8_valid_utf8(sent_event(name, data));
    vstd::utf8::encode_utf8_decode_utf8(sent_event(name, data));
    assert(bytes.take(bytes.len() as int) =~= bytes);
    assert(bytes.skip(bytes.len() as int) =~= Seq::<u8>::empty());
    assert(event::frames(bytes.skip(bytes.len() as int)) =~= Seq::empty());
    assert(event::rest(bytes.skip(bytes.len() as int)) =~= Seq::empty());
    assert(event::frames(bytes) =~= seq![bytes]);
    let one = seq![bytes];
    assert(one.drop_last() =~= Seq::empty());
    assert(event::parsed(one.drop_last()) =~= Seq::empty());
    assert(event::parsed(one) =~= seq![event::EventModel { name: Some(name), data, comment: false }]);
}

/// Some lines as they are sent, each ended by a line feed.
spec fn ended(lines: Seq<Seq<char>>) -> Seq<char>
    decreases lines.len(),
{
    if lines.len() == 0 {
        Seq::empty()
    } else {
        ended(lines.drop_last()) + lines.last() + seq!['\n']
    }
}

/// Sent lines start with the first of them.
proof fn lemma_ended_first(lines: Seq<Seq<char>>)
    requires
        lines.len() > 0,
    ensures
        ended(lines) == lines[0] + seq!['\n'] + ended(lines.drop_first()),
    decreases lines.len(),
{
    let tail = lines.drop_first();
    if lines.len() == 1 {
        assert(lines.drop_last() =~= Seq::empty());
        assert(ended(lines.drop_last()) =~= Seq::empty());
        assert(ended(tail) =~= Seq::empty());
        assert(ended(lines) =~= lines[0] + seq!['\n'] + ended(tail));
    } else {
        lemma_ended_first(lines.drop_last());
        assert(lines.drop_last().drop_first() =~= tail.drop_last());
        assert(ended(lines) =~= lines[0] + seq!['\n'] + ended(tail));
    }
}

/// A frame is its lines, each ended by a line feed, and an empty line.
proof fn lemma_sent_ended(lines: Seq<Seq<char>>)
    ensures
        sent_lines(lines) == ended(lines) + seq!['\n'],
    decreases lines.len(),
{
    if lines.len() == 0 {
        assert(ended(lines) + seq!['\n'] =~= seq!['\n']);
    } else {
        lemma_sent_ended(lines.drop_first());
        lemma_ended_first(lines);
        assert(sent_lines(lines) =~= ended(lines) + seq!['\n']);
    }
}

/// Data without carriage returns is sent as one `data` line for each of its lines.
proof fn lemma_data_text(data: Seq<char>)
    requires
        !data.contains('\r'),
    ensures
        "data: "@ + data_text(data) + seq!['\n'] == ended(
            text::spec_split(data, '\n').map_values(|l: Seq<char>| "data: "@ + l),
        ),
    decreases data.len(),
{
    let line = |l: Seq<char>| "data: "@ + l;
    let pieces = text::spec_split(data, '\n');
    let lines = pieces.map_values(line);
    let nl = seq!['\n'];
    if data.len() == 0 {
        assert(lines =~= seq!["data: "@ + data]);
        assert(lines.drop_last() =~= Seq::empty());
        assert(ended(lines.drop_last()) =~= Seq::empty());
        assert("data: "@ + data_text(data) + nl =~= ended(lines));
    } else {
        let short = data.drop_last();
        let c = data.last();
        assert(data[data.len() - 1] == c);
        assert(!short.contains('\r')) by {
            if short.contains('\r') {
                let k = choose|k: int| 0 <= k < short.len() && short[k] == '\r';
                assert(data[k] == '\r');
            }
        }
        lemma_data_text(short);
        lemma_split_pieces(short, '\n');
        let before = text::spec_split(short, '\n');
        let before_lines = before.map_values(line);
        let sent = "data: "@ + data_text(short);
        assert(sent + nl == ended(before_lines));
        if c == '\n' {
            assert(lines.drop_last() =~= before_lines);
            assert(lines.last() =~= "data: "@);
            assert("data: "@ + data_text(data) + nl =~= sent + nl + "data: "@ + nl);
        } else {
            let head = ended(before_lines.drop_last());
            assert(lines.drop_last() =~= before_lines.drop_last());
            assert(before_lines.last() == "data: "@ + before.last());
            assert(lines.last() =~= before_lines.last().push(c));
            let whole = head + before_lines.last();
            assert(sent + nl == whole + nl);
            assert(sent =~= (sent + nl).drop_last());
            assert(whole =~= (whole + nl).drop_last());
            assert("data: "@ + data_text(data) =~= sent.push(c));
            assert(ended(lines) =~= whole.push(c) + nl);
            assert("data: "@ + data_text(data) + nl =~= ended(lines));
        }
    }
}

/// An event whose data holds no carriage return is sent as these lines.
proof fn lemma_wire_text(name: Seq<char>, data: Seq<char>)
    requires
        !data.contains('\r'),
    ensures
        wire_text(name, data) == sent_event(name, data),
{
    let lines = event_lines(name, data);
    lemma_sent_ended(lines);
    lemma_ended_first(lines);
    if data.len() == 0 {
        assert(lines.drop_first() =~= Seq::empty());
        assert(ended(lines.drop_first()) =~= Seq::empty());
    } else {
        lemma_data_text(data);
        assert(lines.drop_first() =~= text::spec_split(data, '\n').map_values(
            |l: Seq<char>| "data: "@ + l,
        ));
    }
    assert(wire_text(name, data) =~= sent_event(name, data));
}

/// Whatever the server sends as a named event, the listener reads back: the name and
/// the data of the one event that it drains, with nothing left over. The data must not
/// hold a carriage return, which is sent as the end of a line.
pub proof fn law_event_round_trip(sent: Event, name: Seq<char>, data: Seq<char>)
    requires
        event_bytes(sent) == encode_utf8(wire_text(name, data)),
        event_name(name),
        !data.contains('\r'),
    ensures
        event::parsed(event::frames(event_bytes(sent))) == seq![
            event::EventModel { name: Some(name), data, comment: false },
        ],
        event::rest(event_bytes(sent)) == Seq::<u8>::empty(),
{
    lemma_wire_text(name, data);
    lemma_sent_event(name, data);
}

/// Whether these are the events that the server makes of these cards, each a name and
/// its data. The data must not hold a carriage return, which is sent as the end of a
/// line.
pub open spec fn carries(sent: Seq<Event>, cards: Seq<(Seq<char>, Seq<char>)>) -> bool {
    &&& sent.len() == cards.len()
    &&& forall|i: int|
        0 <= i < sent.len() ==> event_bytes(#[trigger] sent[i]) == encode_utf8(
            wire_text(cards[i].0, cards[i].1),
        ) && event_name(cards[i].0) && !cards[i].1.contains('\r')
}

/// The bytes of some events, one after the other.
pub open spec fn stream_bytes(sent: Seq<Event>) -> Seq<u8> {
    sent.map_values(|e: Event| event_bytes(e)).flatten()
}

/// What the listener reads for some cards.
pub open spec fn named_events(cards: Seq<(Seq<char>, Seq<char>)>) -> Seq<event::EventModel> {
    cards.map_values(
        |c: (Seq<char>, Seq<char>)|
            event::EventModel { name: Some(c.0), data: c.1, comment: false },
    )
}

/// A whole stream is read back: the events that the server sends one after the other
/// come out in order, with nothing left over.
pub proof fn law_stream_round_trip(sent: Seq<Event>, cards: Seq<(Seq<char>, Seq<char>)>)
    requires
        carries(sent, cards),
    ensures
        event::parsed(event::frames(stream_bytes(sent))) == named_events(cards),
        event::rest(stream_bytes(sent)) == Seq::<u8>::empty(),
    decreases sent.len(),
{
    let all = sent.map_values(|e: Event| event_bytes(e));
    let bytes = stream_bytes(sent);
    if sent.len() == 0 {
        assert(event::frames(bytes) =~= Seq::empty());
        assert(event::parsed(event::frames(bytes)) =~= named_events(cards));
    } else {
        let n = sent.len() - 1;
        let short = sent.drop_last();
        assert forall|i: int| 0 <= i < short.len() implies event_bytes(#[trigger] short[i])
            == encode_utf8(wire_text(cards.drop_last()[i].0, cards.drop_last()[i].1))
            && event_name(cards.drop_last()[i].0) && !cards.drop_last()[i].1.contains('\r') by {
            assert(short[i] == sent[i]);
        }
        law_stream_round_trip(short, cards.drop_last());
        assert(all.drop_last() =~= short.map_values(|e: Event| event_bytes(e)));
        all.lemma_flatten_and_flatten_alt_are_equivalent();
        all.drop_last().lemma_flatten_and_flatten_alt_are_equivalent();
        let before = stream_bytes(short);
        let last = event_bytes(sent[n]);
        law_event_round_trip(sent[n], cards[n].0, cards[n].1);
        law_chunking(before, last);
        assert(Seq::<u8>::empty() + last =~= last);
        assert(bytes =~= before + last);
        assert(named_events(cards) =~= named_events(cards.drop_last()).push(
            event::EventModel { name: Some(cards[n].0), data: cards[n].1, comment: false },
        ));
        assert(event::parsed(event::frames(bytes)) =~= named_events(cards));
    }
}

/// Counting some events and then some more counts them all.
proof fn lemma_counted_append(
    tally: Map<Seq<char>, nat>,
    a: Seq<event::EventModel>,
    b: Seq<event::EventModel>,
)
    ensures
        session::counted_all(tally, a + b) == session::counted_all(
            session::counted_all(tally, a),
            b,
        ),
    decreases b.len(),
{
    if b.len() == 0 {
        assert(a + b =~= a);
    } else {
        assert((a + b).drop_last() =~= a + b.drop_last());
        assert((a + b).last() == b.last());
        lemma_counted_append(tally, a, b.drop_last());
    }
}

/// Two chunks, one behind the other, are taken as one.
proof fn lemma_took_twice(
    first: session::Session,
    a: Seq<u8>,
    shown_a: Seq<event::EventModel>,
    second: session::Session,
    b: Seq<u8>,
    shown_b: Seq<event::EventModel>,
    third: session::Session,
)
    requires
        first.took(a, shown_a, second),
        second.took(b, shown_b, third),
    ensures
        first.took(a + b, shown_a + shown_b, third),
{
    let pending = first.pending();
    assert(pending + (a + b) =~= (pending + a) + b);
    law_chunking(pending + a, b);
    lemma_counted_append(first.tally(), shown_a, shown_b);
}

/// Whether a session goes through these states as these chunks arrive, and shows these
/// events for each of them.
pub open spec fn listens(
    states: Seq<session::Session>,
    chunks: Seq<Seq<u8>>,
    shown: Seq<Seq<event::EventModel>>,
) -> bool {
    &&& states.len() == chunks.len() + 1
    &&& shown.len() == chunks.len()
    &&& forall|k: int|
        0 <= k < chunks.len() ==> (#[trigger] states[k]).took(chunks[k], shown[k], states[k + 1])
}

/// What a session does with the first chunks of a stream.
proof fn lemma_listens(
    states: Seq<session::Session>,
    chunks: Seq<Seq<u8>>,
    shown: Seq<Seq<event::EventModel>>,
)
    requires
        listens(states, chunks, shown),
        states[0].wf(),
    ensures
        states[0].took(chunks.flatten_alt(), shown.flatten_alt(), states.last()),
        states.last().total() + states.last().pending().len() <= states[0].total()
            + states[0].pending().len() + chunks.flatten_alt().len(),
    decreases chunks.len(),
{
    if chunks.len() == 0 {
        let pending = states[0].pending();
        assert(pending + chunks.flatten_alt() =~= pending);
        assert(event::frames(pending) =~= Seq::empty());
        assert(event::parsed(event::frames(pending)) =~= Seq::empty());
        assert(shown.flatten_alt() =~= Seq::empty());
    } else {
        let n = chunks.len() - 1;
        let before = states.drop_last();
        assert forall|k: int| 0 <= k < n implies (#[trigger] before[k]).took(
            chunks.drop_last()[k],
            shown.drop_last()[k],
            before[k + 1],
        ) by {
            assert(states[k].took(chunks[k], shown[k], states[k + 1]));
        }
        lemma_listens(before, chunks.drop_last(), shown.drop_last());
        assert(before.last() == states[n]);
        assert(states[n].took(chunks[n], shown[n], states[n + 1]));
        lemma_took_twice(
            states[0],
            chunks.drop_last().flatten_alt(),
            shown.drop_last().flatten_alt(),
            states[n],
            chunks[n],
            shown[n],
            states[n + 1],
        );
        session::lemma_fewer_events(states[n].pending() + chunks[n]);
    }
}

/// It does not matter into how many chunks a stream is cut, nor where: all the events
/// that a session shows, what it has counted and what waits at the end are those of
/// the whole stream taken at once. `states` are the states it goes through.
pub proof fn law_listening(
    states: Seq<session::Session>,
    chunks: Seq<Seq<u8>>,
    shown: Seq<Seq<event::EventModel>>,
)
    requires
        listens(states, chunks, shown),
        states[0].wf(),
    ensures
        states[0].took(chunks.flatten(), shown.flatten(), states.last()),
{
    lemma_listens(states, chunks, shown);
    chunks.lemma_flatten_and_flatten_alt_are_equivalent();
    shown.lemma_flatten_and_flatten_alt_are_equivalent();
}

/// Two cuttings of the same stream lead to the same: the same events in the same
/// order, the same counts, and the same bytes left waiting.
pub proof fn law_any_cutting(
    states: Seq<session::Session>,
    chunks: Seq<Seq<u8>>,
    shown: Seq<Seq<event::EventModel>>,
    other_states: Seq<session::Session>,
    other_chunks: Seq<Seq<u8>>,
    other_shown: Seq<Seq<event::EventModel>>,
)
    requires
        listens(states, chunks, shown),
        listens(other_states, other_chunks, other_shown),
        other_states[0] == states[0],
        states[0].wf(),
        other_chunks.flatten() == chunks.flatten(),
    ensures
        other_shown.flatten() == shown.flatten(),
        other_states.last().tally() == states.last().tally(),
        other_states.last().total() == states.last().total(),
        other_states.last().pending() == states.last().pending(),
{
    law_listening(states, chunks, shown);
    law_listening(other_states, other_chunks, other_shown);
}

/// The listener shows what the server sends, however the stream is cut: a session that
/// takes in the bytes of some events shows those events, in order, counts each, and
/// waits for nothing more.
pub proof fn law_hears(
    sent: Seq<Event>,
    cards: Seq<(Seq<char>, Seq<char>)>,
    states: Seq<session::Session>,
    chunks: Seq<Seq<u8>>,
    shown: Seq<Seq<event::EventModel>>,
)
    requires
        carries(sent, cards),
        listens(states, chunks, shown),
        states[0].wf(),
        states[0].pending() == Seq::<u8>::empty(),
        chunks.flatten() == stream_bytes(sent),
    ensures
        shown.flatten() == named_events(cards),
        states.last().total() == states[0].total() + cards.len(),
        states.last().tally() == session::counted_all(states[0].tally(), named_events(cards)),
        states.last().pending() == Seq::<u8>::empty(),
{
    law_listening(states, chunks, shown);
    law_stream_round_trip(sent, cards);
    assert(Seq::<u8>::empty() + chunks.flatten() =~= stream_bytes(sent));
}

/// A counter that has room for every byte of a stream has room at every chunk: a
/// session can take the next chunk wherever it stands.
pub proof fn law_room(
    states: Seq<session::Session>,
    chunks: Seq<Seq<u8>>,
    shown: Seq<Seq<event::EventModel>>,
    next: Seq<u8>,
)
    requires
        listens(states, chunks, shown),
        states[0].wf(),
        states[0].total() + states[0].pending().len() + chunks.flatten().len() + next.len()
            <= u64::MAX,
    ensures
        states.last().total() + states.last().pending().len() + next.len() <= u64::MAX,
{
    lemma_listens(states, chunks, shown);
    chunks.lemma_flatten_and_flatten_alt_are_equivalent();
}

/// How many of some events have a label.
pub open spec fn labelled(events: Seq<event::EventModel>, label: Seq<char>) -> nat {
    events.filter(|e: event::EventModel| event::spec_label(e) == label).len()
}

/// A tally that starts empty holds, for each label, how many events have it: the
/// labels that some event has, and no others.
pub proof fn law_tally(events: Seq<event::EventModel>, label: Seq<char>)
    ensures
        ({
            let tally = session::counted_all(Map::empty(), events);
            &&& tally.contains_key(label) <==> labelled(events, label) > 0
            &&& tally.contains_key(label) ==> tally[label] == labelled(events, label)
        }),
    decreases events.len(),
{
    reveal(Seq::filter);
    if events.len() > 0 {
        law_tally(events.drop_last(), label);
        law_tally(events.drop_last(), event::spec_label(events.last()));
    }
}

/// Whether no character of a text is whitespace.
pub open spec fn solid(s: Seq<char>) -> bool {
    forall|i: int| 0 <= i < s.len() ==> !text::is_whitespace(#[trigger] s[i])
}

/// Words hold no whitespace.
proof fn lemma_words_solid(s: Seq<char>)
    ensures
        forall|i: int|
            0 <= i < text::spec_words(s).len() ==> solid(#[trigger] text::spec_words(s)[i]),
        s.len() > 0 && !text::is_whitespace(s.last()) ==> text::spec_words(s).len() > 0,
    decreases s.len(),
{
    if s.len() > 0 {
        let shorter = s.drop_last();
        let before = text::spec_words(shorter);
        lemma_words_solid(shorter);
        if s.len() > 1 {
            assert(shorter.last() == s[s.len() - 2]);
        }
        assert forall|i: int| 0 <= i < text::spec_words(s).len() implies solid(
            #[trigger] text::spec_words(s)[i],
        ) by {
            if i < before.len() {
                assert(solid(before[i]));
            }
        }
    }
}

/// Joined by spaces, texts without whitespace hold no whitespace but spaces.
proof fn lemma_join_spaces(list: Seq<Seq<char>>)
    requires
        forall|i: int| 0 <= i < list.len() ==> solid(#[trigger] list[i]),
    ensures
        forall|i: int|
            0 <= i < text::spec_join(list, " "@).len() ==> text::is_whitespace(
                #[trigger] text::spec_join(list, " "@)[i],
            ) ==> text::spec_join(list, " "@)[i] == ' ',
    decreases list.len(),
{
    reveal_strlit(" ");
    if list.len() > 0 {
        let before = list.drop_last();
        let head = text::spec_join(before, " "@);
        let whole = text::spec_join(list, " "@);
        lemma_join_spaces(before);
        assert(solid(list[list.len() - 1]));
        assert forall|i: int| 0 <= i < whole.len() && text::is_whitespace(
            #[trigger] whole[i],
        ) implies whole[i] == ' ' by {
            if list.len() > 1 {
                if i < head.len() {
                    assert(whole[i] == head[i]);
                } else if i > head.len() {
                    assert(whole[i] == list.last()[i - head.len() - 1]);
                }
            }
        }
    }
}

/// A preview stands on one line and keeps to its width: it holds no whitespace but
/// spaces, and no more characters than asked for.
pub proof fn law_single_line(s: Seq<char>, width: nat)
    ensures
        ({
            let line = display::spec_single_line(s, width);
            &&& forall|i: int|
                0 <= i < line.len() ==> text::is_whitespace(#[trigger] line[i]) ==> line[i] == ' '
            &&& line.len() <= width
        }),
{
    lemma_words_solid(s);
    lemma_join_spaces(text::spec_words(s));
}

/// Without colour, what is printed holds nothing but what is shown: painting and
/// dimming leave a text as it is.
pub proof fn law_no_color(s: Seq<char>, code: Seq<char>)
    ensures
        display::spec_paint(s, code, false) == s,
        display::spec_dim(s, false) == s,
{
}

} // verus!
