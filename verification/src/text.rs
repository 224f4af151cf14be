//! Text helpers: comparison, building, splitting and trimming over the
//! characters of a string.

use vstd::prelude::*;

verus! {

/// `String::push`: appends one character to the end of the string.
pub assume_specification[ String::push ](s: &mut String, c: char)
    ensures
        final(s)@ == old(s)@.push(c),
;

/// Whether two strings hold the same characters.
pub fn same(a: &str, b: &str) -> (r: bool)
    ensures
        r == (a@ == b@),
{
    a.to_owned() == b.to_owned()
}

/// The characters of a string.
pub fn chars_of(s: &str) -> (r: Vec<char>)
    ensures
        r@ == s@,
{
    let mut out: Vec<char> = Vec::new();
    for c in it: s.chars()
        invariant
            it.seq() == s@,
            out@ == s@.take(it.index() as int),
    {
        out.push(c);
    }
    assert(s@.take(s@.len() as int) =~= s@);
    out
}

/// The string made of the characters `chars[from..to]`.
pub fn string_of(chars: &Vec<char>, from: usize, to: usize) -> (r: String)
    requires
        from <= to <= chars@.len(),
    ensures
        r@ == chars@.subrange(from as int, to as int),
{
    let mut out = String::new();
    for i in from..to
        invariant
            from <= to <= chars@.len(),
            out@ == chars@.subrange(from as int, i as int),
    {
        out.push(chars[i]);
        assert(chars@.subrange(from as int, i + 1) =~= chars@.subrange(
            from as int,
            i as int,
        ).push(chars@[i as int]));
    }
    out
}

/// The characters that each string of a list holds.
pub open spec fn texts(list: Seq<String>) -> Seq<Seq<char>> {
    Seq::new(list.len(), |i: int| list[i]@)
}

/// The characters that each slug of a list holds.
pub open spec fn slugs(list: Seq<&'static str>) -> Seq<Seq<char>> {
    Seq::new(list.len(), |i: int| list[i]@)
}

/// The characters that an optional text holds.
pub open spec fn opt_text(s: Option<&'static str>) -> Option<Seq<char>> {
    match s {
        Some(t) => Some(t@),
        None => None,
    }
}

/// Whether two optional texts hold the same.
pub fn same_opt(a: Option<&'static str>, b: Option<&'static str>) -> (r: bool)
    ensures
        r == (opt_text(a) == opt_text(b)),
{
    match (a, b) {
        (Some(x), Some(y)) => same(x, y),
        (None, None) => true,
        _ => false,
    }
}

/// Whether two lists hold the same texts.
pub fn same_texts(a: &Vec<String>, b: &Vec<String>) -> (r: bool)
    ensures
        r == (texts(a@) == texts(b@)),
{
    if a.len() != b.len() {
        assert(texts(a@).len() != texts(b@).len());
        return false;
    }
    for i in 0..a.len()
        invariant
            a@.len() == b@.len(),
            forall|j: int| 0 <= j < i ==> (#[trigger] a@[j])@ == b@[j]@,
    {
        if !same(a[i].as_str(), b[i].as_str()) {
            assert(texts(a@)[i as int] != texts(b@)[i as int]);
            return false;
        }
    }
    assert(texts(a@) =~= texts(b@));
    true
}

/// Whether two lists hold the same slugs.
pub fn same_slugs(a: &Vec<&'static str>, b: &Vec<&'static str>) -> (r: bool)
    ensures
        r == (slugs(a@) == slugs(b@)),
{
    if a.len() != b.len() {
        assert(slugs(a@).len() != slugs(b@).len());
        return false;
    }
    for i in 0..a.len()
        invariant
            a@.len() == b@.len(),
            forall|j: int| 0 <= j < i ==> (#[trigger] a@[j])@ == b@[j]@,
    {
        if !same(a[i], b[i]) {
            assert(slugs(a@)[i as int] != slugs(b@)[i as int]);
            return false;
        }
    }
    assert(slugs(a@) =~= slugs(b@));
    true
}

/// A filter that keeps every item changes nothing.
pub proof fn lemma_filter_all<A>(s: Seq<A>, kept: spec_fn(A) -> bool)
    requires
        forall|i: int| 0 <= i < s.len() ==> kept(#[trigger] s[i]),
    ensures
        s.filter(kept) == s,
    decreases s.len(),
{
    reveal(Seq::filter);
    if s.len() > 0 {
        lemma_filter_all(s.drop_last(), kept);
        assert(s.drop_last().push(s.last()) =~= s);
    }
}

/// A list with one more string holds one more text.
pub broadcast proof fn lemma_texts_push(list: Seq<String>, s: String)
    ensures
        #[trigger] texts(list.push(s)) == texts(list).push(s@),
{
    assert(texts(list.push(s)) =~= texts(list).push(s@));
}

/// `a` followed by `b`.
pub fn joined(a: &str, b: &str) -> (r: String)
    ensures
        r@ == a@ + b@,
{
    let mut out = a.to_owned();
    out.append(b);
    out
}

/// Whether `s` starts with `prefix`.
pub fn starts_with(s: &str, prefix: &str) -> (r: bool)
    ensures
        r == prefix@.is_prefix_of(s@),
{
    let len: usize = prefix.unicode_len();
    if s.unicode_len() < len {
        return false;
    }
    let head = s.substring_char(0, len);
    assert(prefix@.is_prefix_of(s@) <==> head@ =~= prefix@);
    same(head, prefix)
}

/// `a` comes before `b`: by the first character in which they differ, and a
/// text before its continuations.
pub open spec fn spec_before(a: Seq<char>, b: Seq<char>) -> bool
    decreases a.len(),
{
    b.len() > 0 && (a.len() == 0 || a[0] < b[0] || (a[0] == b[0] && spec_before(
        a.drop_first(),
        b.drop_first(),
    )))
}

/// Whether `a` comes before `b`.
pub fn before(a: &str, b: &str) -> (r: bool)
    ensures
        r == spec_before(a@, b@),
{
    let x = chars_of(a);
    let y = chars_of(b);
    let mut i: usize = 0;
    assert(x@.skip(0) =~= x@);
    assert(y@.skip(0) =~= y@);
    while i < x.len() && i < y.len() && x[i] == y[i]
        invariant
            i <= x@.len(),
            i <= y@.len(),
            spec_before(x@, y@) == spec_before(x@.skip(i as int), y@.skip(i as int)),
        decreases x@.len() - i,
    {
        assert(x@.skip(i as int).drop_first() =~= x@.skip(i + 1));
        assert(y@.skip(i as int).drop_first() =~= y@.skip(i + 1));
        i = i + 1;
    }
    i < y.len() && (i == x.len() || x[i] < y[i])
}

/// Texts are strictly ordered: of two that differ one comes first, and none
/// comes before itself.
pub proof fn lemma_before_total(a: Seq<char>, b: Seq<char>)
    ensures
        spec_before(a, b) ==> a != b,
        a != b ==> spec_before(a, b) || spec_before(b, a),
        spec_before(a, b) ==> !spec_before(b, a),
    decreases a.len(),
{
    if a.len() > 0 && b.len() > 0 {
        lemma_before_total(a.drop_first(), b.drop_first());
        if a != b && a[0] == b[0] && a.drop_first() == b.drop_first() {
            assert(a =~= seq![a[0]] + a.drop_first());
            assert(b =~= seq![b[0]] + b.drop_first());
        }
    } else if a.len() == 0 && b.len() == 0 {
        assert(a =~= b);
    }
}

/// The order of texts is transitive.
pub proof fn lemma_before_transitive(a: Seq<char>, b: Seq<char>, c: Seq<char>)
    requires
        spec_before(a, b),
        spec_before(b, c),
    ensures
        spec_before(a, c),
    decreases a.len(),
{
    if a.len() > 0 && a[0] == b[0] && b[0] == c[0] {
        lemma_before_transitive(a.drop_first(), b.drop_first(), c.drop_first());
    }
}

/// A character with the Unicode property `White_Space`.
pub open spec fn spec_is_whitespace(c: char) -> bool {
    ||| '\u{9}' <= c <= '\u{d}'
    ||| c == ' ' || c == '\u{85}' || c == '\u{a0}' || c == '\u{1680}'
    ||| '\u{2000}' <= c <= '\u{200a}'
    ||| c == '\u{2028}' || c == '\u{2029}' || c == '\u{202f}' || c == '\u{205f}' || c == '\u{3000}'
}

/// Whether `c` has the Unicode property `White_Space`.
#[verifier::when_used_as_spec(spec_is_whitespace)]
pub fn is_whitespace(c: char) -> (r: bool)
    ensures
        r == is_whitespace(c),
{
    ('\u{9}' <= c && c <= '\u{d}') || c == ' ' || c == '\u{85}' || c == '\u{a0}' || c == '\u{1680}'
        || ('\u{2000}' <= c && c <= '\u{200a}') || c == '\u{2028}' || c == '\u{2029}' || c
        == '\u{202f}' || c == '\u{205f}' || c == '\u{3000}'
}

/// A control code: a character of the Unicode general category `Cc`.
pub open spec fn spec_is_control(c: char) -> bool {
    c <= '\u{1f}' || '\u{7f}' <= c <= '\u{9f}'
}

/// Whether `c` is a control code.
#[verifier::when_used_as_spec(spec_is_control)]
pub fn is_control(c: char) -> (r: bool)
    ensures
        r == is_control(c),
{
    c <= '\u{1f}' || ('\u{7f}' <= c && c <= '\u{9f}')
}

/// `s` without its leading whitespace.
pub open spec fn spec_trim_start(s: Seq<char>) -> Seq<char>
    decreases s.len(),
{
    if s.len() > 0 && is_whitespace(s[0]) {
        spec_trim_start(s.drop_first())
    } else {
        s
    }
}

/// `s` without its trailing whitespace.
pub open spec fn spec_trim_end(s: Seq<char>) -> Seq<char>
    decreases s.len(),
{
    if s.len() > 0 && is_whitespace(s.last()) {
        spec_trim_end(s.drop_last())
    } else {
        s
    }
}

/// `s` without the whitespace at either end.
pub open spec fn spec_trim(s: Seq<char>) -> Seq<char> {
    spec_trim_end(spec_trim_start(s))
}

/// `chars[from..]` without its leading whitespace.
pub fn trim_start(chars: &Vec<char>, from: usize) -> (r: String)
    requires
        from <= chars@.len(),
    ensures
        r@ == spec_trim_start(chars@.skip(from as int)),
{
    let mut start: usize = from;
    while start < chars.len() && is_whitespace(chars[start])
        invariant
            from <= start <= chars@.len(),
            spec_trim_start(chars@.skip(start as int)) == spec_trim_start(chars@.skip(from as int)),
        decreases chars@.len() - start,
    {
        assert(chars@.skip(start as int).drop_first() =~= chars@.skip(start + 1));
        start = start + 1;
    }
    assert(chars@.skip(start as int) =~= chars@.subrange(start as int, chars@.len() as int));
    string_of(chars, start, chars.len())
}

/// `chars` without the whitespace at either end.
pub fn trim(chars: &Vec<char>) -> (r: Vec<char>)
    ensures
        r@ == spec_trim(chars@),
{
    let mut out = chars_of(trim_start(chars, 0).as_str());
    assert(chars@.skip(0) =~= chars@);
    while out.len() > 0 && is_whitespace(out[out.len() - 1])
        invariant
            spec_trim_end(out@) == spec_trim(chars@),
        decreases out@.len(),
    {
        out.pop();
    }
    out
}

/// The pieces of `s` between the separators, in order: one more than there
/// are separators.
pub open spec fn spec_split(s: Seq<char>, sep: char) -> Seq<Seq<char>>
    decreases s.len(),
{
    if s.len() == 0 {
        seq![s]
    } else {
        let before = spec_split(s.drop_last(), sep);
        if s.last() == sep {
            before.push(Seq::empty())
        } else {
            before.drop_last().push(before.last().push(s.last()))
        }
    }
}

/// Splits `s` at each separator.
pub fn split(s: &str, sep: char) -> (r: Vec<String>)
    ensures
        texts(r@) == spec_split(s@, sep),
        r@.len() > 0,
{
    let chars = chars_of(s);
    let mut done: Vec<String> = Vec::new();
    let mut cur = String::new();
    assert(texts(done@).push(cur@) =~= seq![Seq::<char>::empty()]);
    assert(chars@.take(0) =~= Seq::<char>::empty());
    for i in 0..chars.len()
        invariant
            texts(done@).push(cur@) == spec_split(chars@.take(i as int), sep),
    {
        let c = chars[i];
        let ghost head = chars@.take(i + 1);
        let ghost before = texts(done@).push(cur@);
        assert(head.drop_last() =~= chars@.take(i as int));
        assert(before.drop_last() =~= texts(done@));
        if c == sep {
            done.push(cur);
            cur = String::new();
            assert(texts(done@) =~= before);
            assert(texts(done@).push(cur@) =~= spec_split(head, sep));
        } else {
            cur.push(c);
            assert(texts(done@).push(cur@) =~= spec_split(head, sep));
        }
    }
    assert(chars@.take(chars@.len() as int) =~= chars@);
    let ghost before = texts(done@).push(cur@);
    done.push(cur);
    assert(texts(done@) =~= before);
    done
}

/// The maximal runs of characters that are not whitespace, in order.
pub open spec fn spec_words(s: Seq<char>) -> Seq<Seq<char>>
    decreases s.len(),
{
    if s.len() == 0 {
        Seq::empty()
    } else {
        let before = spec_words(s.drop_last());
        let c = s.last();
        if is_whitespace(c) {
            before
        } else if s.len() == 1 || is_whitespace(s[s.len() - 2]) {
            before.push(seq![c])
        } else {
            before.drop_last().push(before.last().push(c))
        }
    }
}

/// The pieces of a list one after the other, with `sep` between two of them.
pub open spec fn spec_join(list: Seq<Seq<char>>, sep: Seq<char>) -> Seq<char>
    decreases list.len(),
{
    if list.len() == 0 {
        Seq::empty()
    } else if list.len() == 1 {
        list[0]
    } else {
        spec_join(list.drop_last(), sep) + sep + list.last()
    }
}

/// The words of `s`, in order.
pub fn words(s: &str) -> (r: Vec<String>)
    ensures
        texts(r@) == spec_words(s@),
{
    let chars = chars_of(s);
    let mut done: Vec<String> = Vec::new();
    let mut cur = String::new();
    let mut inside = false;
    assert(texts(done@) =~= spec_words(chars@.take(0)));
    for i in 0..chars.len()
        invariant
            inside == (i > 0 && !is_whitespace(chars@[i - 1])),
            inside ==> texts(done@).push(cur@) == spec_words(chars@.take(i as int)),
            !inside ==> texts(done@) == spec_words(chars@.take(i as int)) && cur@.len() == 0,
    {
        let c = chars[i];
        let ghost head = chars@.take(i + 1);
        let ghost before = spec_words(chars@.take(i as int));
        assert(head.drop_last() =~= chars@.take(i as int));
        if is_whitespace(c) {
            if inside {
                done.push(cur);
                cur = String::new();
                assert(texts(done@) =~= before);
                inside = false;
            }
        } else {
            if inside {
                assert(before.drop_last() =~= texts(done@));
                assert(head[head.len() - 2] == chars@[i - 1]);
            } else {
                assert(cur@.push(c) =~= seq![c]);
            }
            cur.push(c);
            inside = true;
        }
    }
    assert(chars@.take(chars@.len() as int) =~= chars@);
    if inside {
        let ghost before = texts(done@).push(cur@);
        done.push(cur);
        assert(texts(done@) =~= before);
    }
    done
}

/// Joins the pieces of a list with `sep` between them.
pub fn join(list: &Vec<String>, sep: &str) -> (r: String)
    ensures
        r@ == spec_join(texts(list@), sep@),
{
    let mut out = String::new();
    let ghost all = texts(list@);
    for i in 0..list.len()
        invariant
            all == texts(list@),
            out@ == spec_join(all.take(i as int), sep@),
    {
        if i > 0 {
            out.append(sep);
        } else {
            assert(out@ + list@[0]@ =~= list@[0]@);
        }
        out.append(list[i].as_str());
        assert(all.take(i + 1).drop_last() =~= all.take(i as int));
    }
    assert(all.take(all.len() as int) =~= all);
    out
}

/// `line` without one carriage return at its end.
pub open spec fn strip_cr(line: Seq<char>) -> Seq<char> {
    if line.len() > 0 && line.last() == '\r' {
        line.drop_last()
    } else {
        line
    }
}

/// The lines of `s`: what stands before each line feed, without the carriage
/// return of a `\r\n`, and what stands behind the last one, if anything does.
pub open spec fn spec_lines(s: Seq<char>) -> Seq<Seq<char>> {
    let pieces = spec_split(s, '\n');
    let ended = pieces.drop_last().map_values(|l: Seq<char>| strip_cr(l));
    if pieces.last().len() == 0 {
        ended
    } else {
        ended.push(pieces.last())
    }
}

/// The lines of `s`, in order.
pub fn lines(s: &str) -> (r: Vec<String>)
    ensures
        texts(r@) == spec_lines(s@),
{
    let mut pieces = split(s, '\n');
    let ghost all = texts(pieces@);
    let ghost ended = all.drop_last().map_values(|l: Seq<char>| strip_cr(l));
    let mut out: Vec<String> = Vec::new();
    assert(texts(out@) =~= ended.take(0));
    let count: usize = pieces.len() - 1;
    for i in 0..count
        invariant
            all == texts(pieces@),
            count == pieces@.len() - 1,
            ended == all.drop_last().map_values(|l: Seq<char>| strip_cr(l)),
            texts(out@) == ended.take(i as int),
    {
        let chars = chars_of(pieces[i].as_str());
        let mut to: usize = chars.len();
        if to > 0 && chars[to - 1] == '\r' {
            to = to - 1;
        }
        let line = string_of(&chars, 0, to);
        assert(line@ =~= strip_cr(all[i as int]));
        let ghost held = out@;
        out.push(line);
        proof {
            lemma_texts_push(held, line);
        }
        assert(ended.take(i + 1) =~= ended.take(i as int).push(ended[i as int]));
    }
    assert(ended.take(count as int) =~= ended);
    match pieces.pop() {
        Some(last) => {
            assert(last@ == all.last());
            if !last.as_str().is_empty() {
                out.push(last);
                assert(texts(out@) =~= ended.push(all.last()));
            }
        },
        None => {},
    }
    out
}

/// The digit of a number below ten.
pub open spec fn digit(d: nat) -> char {
    (48 + d) as char
}

/// A number in decimal, without leading zeros.
pub open spec fn spec_decimal(n: nat) -> Seq<char>
    decreases n,
{
    if n < 10 {
        seq![digit(n)]
    } else {
        spec_decimal(n / 10).push(digit(n % 10))
    }
}

/// Writes a number in decimal.
pub fn decimal(n: u64) -> (r: String)
    ensures
        r@ == spec_decimal(n as nat),
    decreases n,
{
    let last: u8 = (n % 10) as u8;
    let c = (48u8 + last) as char;
    let mut out = if n < 10 {
        String::new()
    } else {
        decimal(n / 10)
    };
    out.push(c);
    assert(n < 10 ==> out@ =~= seq![digit(n as nat)]);
    out
}

/// `count` spaces.
pub open spec fn spaces(count: int) -> Seq<char> {
    Seq::new(if count > 0 { count as nat } else { 0 }, |i: int| ' ')
}

/// Appends `count` spaces to `out`.
fn push_spaces(out: &mut String, count: usize)
    ensures
        final(out)@ == old(out)@ + spaces(count as int),
{
    assert(out@ + spaces(0) =~= out@);
    let ghost before = out@;
    for i in 0..count
        invariant
            out@ == before + spaces(i as int),
    {
        out.push(' ');
        assert(out@ =~= before + spaces(i + 1));
    }
}

/// `s` with spaces behind it up to `width` characters.
pub open spec fn spec_pad_right(s: Seq<char>, width: nat) -> Seq<char> {
    s + spaces(width - s.len())
}

/// `s` with spaces before it up to `width` characters.
pub open spec fn spec_pad_left(s: Seq<char>, width: nat) -> Seq<char> {
    spaces(width - s.len()) + s
}

/// Pads `s` on the right to `width` characters.
pub fn pad_right(s: &str, width: usize) -> (r: String)
    ensures
        r@ == spec_pad_right(s@, width as nat),
{
    let len: usize = s.unicode_len();
    let mut out = s.to_owned();
    if len < width {
        push_spaces(&mut out, width - len);
    } else {
        assert(s@ + spaces(width - len) =~= s@);
    }
    out
}

/// Pads `s` on the left to `width` characters.
pub fn pad_left(s: &str, width: usize) -> (r: String)
    ensures
        r@ == spec_pad_left(s@, width as nat),
{
    let len: usize = s.unicode_len();
    let mut out = String::new();
    if len < width {
        push_spaces(&mut out, width - len);
    }
    out.append(s);
    assert(out@ =~= spaces(width - len) + s@);
    out
}

} // verus!
