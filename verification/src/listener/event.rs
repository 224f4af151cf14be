//! Server-Sent Event frames: cutting a byte stream into frames and reading a
//! frame's fields.

use vstd::prelude::*;
use vstd::utf8::{decode_utf8, valid_utf8};
use crate::text;

verus! {

/// A parsed frame: an optional `event:` name plus the joined `data:` lines.
/// A frame that carries a `:` comment (keep-alive) and neither name nor data is
/// flagged as a `comment`.
#[derive(Debug, PartialEq, Eq)]
pub struct SseEvent {
    pub name: Option<String>,
    pub data: String,
    pub comment: bool,
}

/// What an event holds, over the characters of its texts.
#[verifier::ext_equal]
pub struct EventModel {
    pub name: Option<Seq<char>>,
    pub data: Seq<char>,
    pub comment: bool,
}

impl View for SseEvent {
    type V = EventModel;

    open spec fn view(&self) -> EventModel {
        EventModel {
            name: match self.name {
                Some(n) => Some(n@),
                None => None,
            },
            data: self.data@,
            comment: self.comment,
        }
    }
}

/// What the events of a list hold.
pub open spec fn models(list: Seq<SseEvent>) -> Seq<EventModel> {
    Seq::new(list.len(), |i: int| list[i]@)
}

/// The text that `String::from_utf8_lossy` makes of some bytes.
pub uninterp spec fn lossy_text(bytes: Seq<u8>) -> Seq<char>;

/// `String::from_utf8_lossy`: the text that the bytes encode. Bytes that are
/// valid UTF-8 come out as the characters they encode; of others only that the
/// text depends on the bytes alone is claimed.
#[verifier::external_body]
pub(crate) fn decode_lossy(bytes: &[u8]) -> (r: String)
    ensures
        r@ == lossy_text(bytes@),
        valid_utf8(bytes@) ==> r@ == decode_utf8(bytes@),
{
    String::from_utf8_lossy(bytes).into_owned()
}

/// The text that some bytes are read as: what they encode where they are valid
/// UTF-8, and else what is made of them by replacing what is not.
pub open spec fn text_of(bytes: Seq<u8>) -> Seq<char> {
    if valid_utf8(bytes) {
        decode_utf8(bytes)
    } else {
        lossy_text(bytes)
    }
}

/// The lines of a frame that are not empty.
pub open spec fn field_lines(text: Seq<char>) -> Seq<Seq<char>> {
    text::spec_split(text, '\n').map_values(|l: Seq<char>| text::strip_cr(l)).filter(
        |l: Seq<char>| l.len() > 0,
    )
}

/// A comment line starts with a colon.
pub open spec fn is_comment(line: Seq<char>) -> bool {
    line.len() > 0 && line[0] == ':'
}

/// Where the first colon of a line stands, or the line's length.
pub open spec fn colon(line: Seq<char>) -> int
    decreases line.len(),
{
    if line.len() == 0 || line[0] == ':' {
        0
    } else {
        1 + colon(line.drop_first())
    }
}

/// The field that a line sets: what stands before its first colon.
pub open spec fn field_name(line: Seq<char>) -> Seq<char> {
    line.take(colon(line))
}

/// The value that a line gives its field: what stands behind the first colon
/// and one space.
pub open spec fn field_value(line: Seq<char>) -> Seq<char> {
    if colon(line) >= line.len() {
        Seq::empty()
    } else {
        let v = line.skip(colon(line) + 1);
        if v.len() > 0 && v[0] == ' ' {
            v.skip(1)
        } else {
            v
        }
    }
}

/// Whether a line sets a field of this name.
pub open spec fn sets_field(line: Seq<char>, name: Seq<char>) -> bool {
    !is_comment(line) && field_name(line) == name
}

/// The values of a frame's `data` fields, in order.
pub open spec fn data_values(lines: Seq<Seq<char>>) -> Seq<Seq<char>>
    decreases lines.len(),
{
    if lines.len() == 0 {
        Seq::empty()
    } else if sets_field(lines.last(), "data"@) {
        data_values(lines.drop_last()).push(field_value(lines.last()))
    } else {
        data_values(lines.drop_last())
    }
}

/// The data of a frame with these lines: the values of its `data` fields, each on a
/// line of its own.
pub open spec fn frame_data(lines: Seq<Seq<char>>) -> Seq<char> {
    text::spec_join(data_values(lines), seq!['\n'])
}

/// The name of a frame with these lines: the value of its last `event` field.
pub open spec fn frame_name(lines: Seq<Seq<char>>) -> Option<Seq<char>>
    decreases lines.len(),
{
    if lines.len() == 0 {
        None
    } else if sets_field(lines.last(), "event"@) {
        Some(field_value(lines.last()))
    } else {
        frame_name(lines.drop_last())
    }
}

/// Whether a frame with these lines holds a comment line.
pub open spec fn has_comment(lines: Seq<Seq<char>>) -> bool {
    exists|i: int| 0 <= i < lines.len() && is_comment(#[trigger] lines[i])
}

/// The event that a frame's text stands for: none for a frame without lines.
pub open spec fn spec_parse(text: Seq<char>) -> Option<EventModel> {
    let lines = field_lines(text);
    if lines.len() == 0 {
        None
    } else {
        Some(
            EventModel {
                name: frame_name(lines),
                data: frame_data(lines),
                comment: has_comment(lines) && frame_name(lines) is None && data_values(lines).len()
                    == 0,
            },
        )
    }
}

/// Finds the first colon of a line.
fn find_colon(line: &Vec<char>) -> (r: usize)
    ensures
        r == colon(line@),
        r <= line@.len(),
{
    let mut i: usize = 0;
    assert(line@.skip(0) =~= line@);
    while i < line.len() && line[i] != ':'
        invariant
            i <= line@.len(),
            colon(line@) == i + colon(line@.skip(i as int)),
        decreases line@.len() - i,
    {
        assert(line@.skip(i as int).drop_first() =~= line@.skip(i + 1));
        i = i + 1;
    }
    i
}

/// The fields of a frame as far as its lines were read.
struct Fields {
    name: Option<String>,
    data: Option<String>,
    comment: bool,
    any: bool,
}

impl Fields {
    /// Whether the fields hold what some lines say.
    spec fn reads(self, lines: Seq<Seq<char>>) -> bool {
        &&& match self.name {
            Some(n) => frame_name(lines) == Some(n@),
            None => frame_name(lines) is None,
        }
        &&& match self.data {
            Some(d) => data_values(lines).len() > 0 && d@ == frame_data(lines),
            None => data_values(lines).len() == 0,
        }
        &&& self.comment == has_comment(lines)
        &&& self.any == (lines.len() > 0)
    }

    /// Reads one more line, which is not empty.
    fn line(&mut self, line: &Vec<char>, Ghost(before): Ghost<Seq<Seq<char>>>)
        requires
            old(self).reads(before),
            line@.len() > 0,
        ensures
            final(self).reads(before.push(line@)),
    {
        let ghost lines = before.push(line@);
        assert(lines.drop_last() =~= before);
        assert(forall|i: int| 0 <= i < before.len() ==> #[trigger] lines[i] == before[i]);
        assert(lines[before.len() as int] == line@);
        assert(has_comment(before) ==> has_comment(lines)) by {
            if has_comment(before) {
                let i = choose|i: int| 0 <= i < before.len() && is_comment(#[trigger] before[i]);
                assert(is_comment(lines[i]));
            }
        }
        self.any = true;
        if line[0] == ':' {
            self.comment = true;
            assert(is_comment(lines[before.len() as int]));
            return ;
        }
        assert(has_comment(lines) ==> has_comment(before)) by {
            if has_comment(lines) {
                let i = choose|i: int| 0 <= i < lines.len() && is_comment(#[trigger] lines[i]);
                assert(is_comment(before[i]));
            }
        }
        let at: usize = find_colon(line);
        let field = text::string_of(line, 0, at);
        assert(field@ =~= field_name(line@));
        let mut from: usize = line.len();
        if at < line.len() {
            from = at + 1;
            if from < line.len() && line[from] == ' ' {
                from = from + 1;
            }
        }
        let value = text::string_of(line, from, line.len());
        assert(value@ =~= field_value(line@));
        if text::same(field.as_str(), "event") {
            proof {
                reveal_strlit("event");
                reveal_strlit("data");
                assert("event"@.len() != "data"@.len());
            }
            self.name = Some(value);
        } else if text::same(field.as_str(), "data") {
            let ghost values = data_values(before);
            assert(data_values(lines) == values.push(value@));
            assert(values.push(value@).drop_last() =~= values);
            let mut held: Option<String> = None;
            std::mem::swap(&mut held, &mut self.data);
            match held {
                Some(d) => {
                    let mut longer = text::joined(d.as_str(), "\n");
                    proof {
                        reveal_strlit("\n");
                        assert("\n"@ =~= seq!['\n']);
                    }
                    longer.append(value.as_str());
                    self.data = Some(longer);
                },
                None => {
                    self.data = Some(value);
                },
            }
        }
    }
}

/// Reads a raw frame (bytes up to and including its `\n\n` delimiter). `None`
/// for an entirely empty frame.
pub fn parse_frame(raw: &[u8]) -> (r: Option<SseEvent>)
    ensures
        match r {
            Some(e) => spec_parse(text_of(raw@)) == Some(e@),
            None => spec_parse(text_of(raw@)) is None,
        },
{
    let content = decode_lossy(raw);
    parse_text(content.as_str())
}

/// Reads the text of a frame. `None` for an entirely empty frame.
pub fn parse_text(content: &str) -> (r: Option<SseEvent>)
    ensures
        match r {
            Some(e) => spec_parse(content@) == Some(e@),
            None => spec_parse(content@) is None,
        },
{
    let pieces = text::split(content, '\n');
    let ghost all = text::spec_split(content@, '\n').map_values(|l: Seq<char>| text::strip_cr(l));
    let ghost kept = |l: Seq<char>| l.len() > 0;
    let mut fields = Fields { name: None, data: None, comment: false, any: false };
    proof {
        reveal(Seq::filter);
        assert(all.take(0).filter(kept) =~= Seq::empty());
    }
    for i in 0..pieces.len()
        invariant
            text::texts(pieces@) == text::spec_split(content@, '\n'),
            all == text::spec_split(content@, '\n').map_values(|l: Seq<char>| text::strip_cr(l)),
            all.len() == pieces@.len(),
            kept == (|l: Seq<char>| l.len() > 0),
            fields.reads(all.take(i as int).filter(kept)),
    {
        let mut line = text::chars_of(pieces[i].as_str());
        assert(line@ == text::texts(pieces@)[i as int]);
        if line.len() > 0 && line[line.len() - 1] == '\r' {
            line.pop();
        }
        assert(line@ =~= all[i as int]);
        proof {
            reveal(Seq::filter);
            assert(all.take(i + 1).drop_last() =~= all.take(i as int));
            assert(all.take(i + 1).last() == all[i as int]);
        }
        if line.len() > 0 {
            fields.line(&line, Ghost(all.take(i as int).filter(kept)));
        }
    }
    assert(all.take(all.len() as int) =~= all);
    if !fields.any {
        return None;
    }
    let comment = fields.comment && fields.name.is_none() && fields.data.is_none();
    let data = match fields.data {
        Some(d) => d,
        None => String::new(),
    };
    Some(SseEvent { name: fields.name, data, comment })
}

/// The length of the first complete frame in a buffer, its `\n\n` delimiter
/// counted: none where the buffer holds no delimiter.
pub open spec fn frame_len(buf: Seq<u8>) -> Option<nat>
    decreases buf.len(),
{
    if buf.len() < 2 {
        None
    } else if buf[0] == 10 && buf[1] == 10 {
        Some(2)
    } else {
        match frame_len(buf.drop_first()) {
            Some(n) => Some(n + 1),
            None => None,
        }
    }
}

/// A frame has at least its delimiter and lies within the buffer.
pub proof fn lemma_frame_len(buf: Seq<u8>)
    ensures
        frame_len(buf) matches Some(n) ==> 2 <= n <= buf.len(),
    decreases buf.len(),
{
    if buf.len() >= 2 {
        lemma_frame_len(buf.drop_first());
    }
}

/// The complete frames at the start of a buffer, in order.
pub open spec fn frames(buf: Seq<u8>) -> Seq<Seq<u8>>
    decreases buf.len(),
{
    match frame_len(buf) {
        Some(n) => {
            proof {
                lemma_frame_len(buf);
            }
            seq![buf.take(n as int)] + frames(buf.skip(n as int))
        },
        None => Seq::empty(),
    }
}

/// What is left of a buffer behind its complete frames.
pub open spec fn rest(buf: Seq<u8>) -> Seq<u8>
    decreases buf.len(),
{
    match frame_len(buf) {
        Some(n) => {
            proof {
                lemma_frame_len(buf);
            }
            rest(buf.skip(n as int))
        },
        None => buf,
    }
}

/// The events of some raw frames, in order: a frame without lines has none.
pub open spec fn parsed(raw: Seq<Seq<u8>>) -> Seq<EventModel>
    decreases raw.len(),
{
    if raw.len() == 0 {
        Seq::empty()
    } else {
        match spec_parse(text_of(raw.last())) {
            Some(e) => parsed(raw.drop_last()).push(e),
            None => parsed(raw.drop_last()),
        }
    }
}

/// Finds the end of the first complete frame.
fn find_frame(buf: &Vec<u8>) -> (r: Option<usize>)
    ensures
        match r {
            Some(n) => frame_len(buf@) == Some(n as nat) && 2 <= n <= buf@.len(),
            None => frame_len(buf@) is None,
        },
{
    let mut i: usize = 0;
    assert(buf@.skip(0) =~= buf@);
    while i < buf.len() && buf.len() - i >= 2
        invariant
            i <= buf@.len(),
            match frame_len(buf@.skip(i as int)) {
                Some(n) => frame_len(buf@) == Some((n + i) as nat),
                None => frame_len(buf@) is None,
            },
        decreases buf@.len() - i,
    {
        if buf[i] == 10 && buf[i + 1] == 10 {
            return Some(i + 2);
        }
        assert(buf@.skip(i as int).drop_first() =~= buf@.skip(i + 1));
        i = i + 1;
    }
    None
}

/// Pulls every complete `\n\n`-delimited frame out of `buf`, leaving any
/// trailing partial frame behind for the next chunk.
pub fn drain_frames(buf: &mut Vec<u8>) -> (r: Vec<SseEvent>)
    ensures
        models(r@) == parsed(frames(old(buf)@)),
        final(buf)@ == rest(old(buf)@),
{
    let ghost start = buf@;
    let ghost mut done: Seq<Seq<u8>> = Seq::empty();
    let mut out: Vec<SseEvent> = Vec::new();
    assert(models(out@) =~= parsed(done));
    assert(done + frames(buf@) =~= frames(start));
    let mut end: Option<usize> = find_frame(buf);
    while end.is_some()
        invariant
            models(out@) == parsed(done),
            frames(start) == done + frames(buf@),
            rest(start) == rest(buf@),
            match end {
                Some(n) => frame_len(buf@) == Some(n as nat) && 2 <= n <= buf@.len(),
                None => frame_len(buf@) is None,
            },
        decreases buf@.len(),
    {
        let ghost before = buf@;
        let n: usize = match end {
            Some(n) => n,
            None => 0,
        };
        let mut raw: Vec<u8> = buf.split_off(n);
        std::mem::swap(&mut raw, buf);
        assert(raw@ =~= before.take(n as int));
        assert(buf@ =~= before.skip(n as int));
        let ghost held = out@;
        let ghost longer = done.push(raw@);
        assert(longer.drop_last() =~= done);
        assert(done + frames(before) =~= longer + frames(buf@));
        if let Some(ev) = parse_frame(raw.as_slice()) {
            out.push(ev);
            assert(models(out@) =~= models(held).push(ev@));
        }
        proof {
            done = longer;
        }
        end = find_frame(buf);
    }
    assert(done + frames(buf@) =~= done);
    out
}

impl SseEvent {
    /// A stable label for counting and printing: `<keep-alive>` for a comment
    /// frame, `<unnamed>` for a frame with data and no event field.
    pub fn label(&self) -> (r: String)
        ensures
            r@ == spec_label(self@),
    {
        if self.comment {
            "<keep-alive>".to_owned()
        } else {
            match &self.name {
                Some(n) => n.clone(),
                None => "<unnamed>".to_owned(),
            }
        }
    }
}

/// The label of an event.
pub open spec fn spec_label(ev: EventModel) -> Seq<char> {
    if ev.comment {
        "<keep-alive>"@
    } else {
        match ev.name {
            Some(n) => n,
            None => "<unnamed>"@,
        }
    }
}

} // verus!
