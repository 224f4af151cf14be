//! What the text helpers make of a text, by the text alone.

use vstd::prelude::*;
use crate::listener::laws::{lemma_split_append, lemma_split_one, lemma_split_pieces};
use crate::manager::snapshot::Temperature;
use crate::manager::values;
use crate::text;
use crate::web::error::{debug_text, AppError};

verus! {

/// Whitespace is what Unicode calls so, by code point.
pub proof fn law_whitespace(c: char, r: bool)
    requires
        call_ensures(text::is_whitespace, (c,), r),
    ensures
        r <==> {
            let n = c as u32;
            9 <= n <= 13 || n == 32 || n == 133 || n == 160 || n == 5760 || 8192 <= n <= 8202 || n
                == 8232 || n == 8233 || n == 8239 || n == 8287 || n == 12288
        },
{
}

/// Control codes are those below the space, and those from the delete code on up to 159.
pub proof fn law_control(c: char, r: bool)
    requires
        call_ensures(text::is_control, (c,), r),
    ensures
        r <==> (c as u32) < 32 || 127 <= c as u32 <= 159,
{
}

/// Whether `r` is what trimming leaves of `s`: what is cut off at either end is
/// whitespace, and what is left neither starts nor ends with any.
pub open spec fn trimmed_to(s: Seq<char>, r: Seq<char>) -> bool {
    exists|a: int, b: int|
        0 <= a <= b <= s.len() && r == #[trigger] s.subrange(a, b) && (forall|i: int|
            0 <= i < a ==> text::is_whitespace(#[trigger] s[i])) && (forall|i: int|
            b <= i < s.len() ==> text::is_whitespace(#[trigger] s[i])) && (a < b ==> !text::is_whitespace(s[a])
            && !text::is_whitespace(s[b - 1]))
}

/// Trimming at the start cuts off whitespace, and all of it.
pub(crate) proof fn lemma_trim_start(s: Seq<char>) -> (from: int)
    ensures
        0 <= from <= s.len(),
        text::spec_trim_start(s) == s.skip(from),
        forall|i: int| 0 <= i < from ==> text::is_whitespace(#[trigger] s[i]),
        from < s.len() ==> !text::is_whitespace(s[from]),
    decreases s.len(),
{
    if s.len() > 0 && text::is_whitespace(s[0]) {
        let rest = s.drop_first();
        let from = lemma_trim_start(rest);
        assert(rest.skip(from) =~= s.skip(from + 1));
        assert forall|i: int| 0 <= i < from + 1 implies text::is_whitespace(#[trigger] s[i]) by {
            if i > 0 {
                assert(rest[i - 1] == s[i]);
            }
        }
        from + 1
    } else {
        assert(s.skip(0) =~= s);
        0
    }
}

/// Trimming at the end cuts off whitespace, and all of it.
proof fn lemma_trim_end(s: Seq<char>) -> (to: int)
    ensures
        0 <= to <= s.len(),
        text::spec_trim_end(s) == s.take(to),
        forall|i: int| to <= i < s.len() ==> text::is_whitespace(#[trigger] s[i]),
        to > 0 ==> !text::is_whitespace(s[to - 1]),
    decreases s.len(),
{
    if s.len() > 0 && text::is_whitespace(s.last()) {
        let rest = s.drop_last();
        let to = lemma_trim_end(rest);
        assert(rest.take(to) =~= s.take(to));
        assert forall|i: int| to <= i < s.len() implies text::is_whitespace(#[trigger] s[i]) by {
            if i < rest.len() {
                assert(rest[i] == s[i]);
            }
        }
        to
    } else {
        assert(s.take(s.len() as int) =~= s);
        s.len() as int
    }
}

/// Trimming cuts off the whitespace at either end, all of it and nothing else.
pub proof fn law_trim(s: Seq<char>)
    ensures
        trimmed_to(s, text::spec_trim(s)),
{
    let a = lemma_trim_start(s);
    let t = text::spec_trim_start(s);
    let n = lemma_trim_end(t);
    let b = a + n;
    assert(text::spec_trim(s) =~= s.subrange(a, b));
    assert forall|i: int| b <= i < s.len() implies text::is_whitespace(#[trigger] s[i]) by {
        assert(t[i - a] == s[i]);
    }
    if a < b {
        assert(t[n - 1] == s[b - 1]);
    }
}

/// A text without separators is one piece; a separator parts the pieces before it from
/// those behind it.
pub proof fn law_split(a: Seq<char>, b: Seq<char>, sep: char)
    ensures
        !a.contains(sep) ==> text::spec_split(a, sep) == seq![a],
        text::spec_split(a + seq![sep] + b, sep) == text::spec_split(a, sep) + text::spec_split(
            b,
            sep,
        ),
{
    if !a.contains(sep) {
        lemma_split_one(a, sep);
    }
    lemma_split_append(a, b, sep);
}

/// No piece, nothing; one piece, that piece; one more piece, the separator and the piece
/// behind the rest.
pub proof fn law_join(list: Seq<Seq<char>>, piece: Seq<char>, sep: Seq<char>)
    ensures
        text::spec_join(Seq::empty(), sep).len() == 0,
        text::spec_join(seq![piece], sep) == piece,
        list.len() > 0 ==> text::spec_join(list.push(piece), sep) == text::spec_join(list, sep)
            + sep + piece,
{
    assert(list.push(piece).drop_last() =~= list);
}

/// Whether no character of a text is whitespace.
pub open spec fn unspaced(s: Seq<char>) -> bool {
    forall|i: int| 0 <= i < s.len() ==> !text::is_whitespace(#[trigger] s[i])
}

/// A text without whitespace is one word; whitespace parts the words before it from
/// those behind it.
pub proof fn law_words(a: Seq<char>, b: Seq<char>, space: char)
    requires
        text::is_whitespace(space),
    ensures
        a.len() == 0 ==> text::spec_words(a).len() == 0,
        a.len() > 0 && unspaced(a) ==> text::spec_words(a) == seq![a],
        text::spec_words(a + seq![space] + b) == text::spec_words(a) + text::spec_words(b),
{
    if a.len() > 0 && unspaced(a) {
        lemma_one_word(a);
    }
    lemma_words_append(a, b, space);
}

/// A text without whitespace is one word.
proof fn lemma_one_word(a: Seq<char>)
    requires
        a.len() > 0,
        unspaced(a),
    ensures
        text::spec_words(a) == seq![a],
    decreases a.len(),
{
    let t = a.drop_last();
    assert(!text::is_whitespace(a[a.len() - 1]));
    if t.len() > 0 {
        assert(unspaced(t)) by {
            assert forall|i: int| 0 <= i < t.len() implies !text::is_whitespace(#[trigger] t[i]) by {
                assert(t[i] == a[i]);
            }
        }
        lemma_one_word(t);
        assert(!text::is_whitespace(a[a.len() - 2]));
        assert(t.push(a.last()) =~= a);
        assert(text::spec_words(a) =~= seq![a]);
    } else {
        assert(text::spec_words(t) =~= Seq::<Seq<char>>::empty());
        assert(seq![a.last()] =~= a);
        assert(text::spec_words(a) =~= seq![a]);
    }
}

/// A text that does not end in whitespace has a last word.
proof fn lemma_last_word(s: Seq<char>)
    requires
        s.len() > 0,
        !text::is_whitespace(s.last()),
    ensures
        text::spec_words(s).len() > 0,
{
}

/// Whitespace parts the words before it from those behind it.
proof fn lemma_words_append(a: Seq<char>, b: Seq<char>, space: char)
    requires
        text::is_whitespace(space),
    ensures
        text::spec_words(a + seq![space] + b) == text::spec_words(a) + text::spec_words(b),
    decreases b.len(),
{
    let s = a + seq![space] + b;
    if b.len() == 0 {
        assert(s.drop_last() =~= a);
        assert(s.last() == space);
        assert(text::spec_words(b) =~= Seq::<Seq<char>>::empty());
        assert(text::spec_words(s) =~= text::spec_words(a) + text::spec_words(b));
    } else {
        let c = b.drop_last();
        lemma_words_append(a, c, space);
        assert(s.drop_last() =~= a + seq![space] + c);
        assert(s.last() == b.last());
        if !text::is_whitespace(b.last()) {
            if b.len() == 1 {
                assert(s[s.len() - 2] == space);
                assert(text::spec_words(c) =~= Seq::<Seq<char>>::empty());
            } else {
                assert(s[s.len() - 2] == b[b.len() - 2]);
                if !text::is_whitespace(b[b.len() - 2]) {
                    assert(c.last() == b[b.len() - 2]);
                    lemma_last_word(c);
                }
            }
        }
        assert(text::spec_words(s) =~= text::spec_words(a) + text::spec_words(b));
    }
}

/// A line feed ends a line, which loses a carriage return before it; a text without one
/// is a line, unless it is empty.
pub proof fn law_lines(a: Seq<char>, b: Seq<char>)
    requires
        !a.contains('\n'),
    ensures
        a.len() == 0 ==> text::spec_lines(a).len() == 0,
        a.len() > 0 ==> text::spec_lines(a) == seq![a],
        (a.len() == 0 || a.last() != '\r') ==> text::spec_lines(a + seq!['\n'] + b) == seq![a]
            + text::spec_lines(b),
        text::spec_lines(a + seq!['\r', '\n'] + b) == seq![a] + text::spec_lines(b),
{
    let strip = |l: Seq<char>| text::strip_cr(l);
    law_split(a, b, '\n');
    let ar = a.push('\r');
    assert(!ar.contains('\n')) by {
        if ar.contains('\n') {
            let k = choose|k: int| 0 <= k < ar.len() && ar[k] == '\n';
            assert(a[k] == '\n');
        }
    }
    law_split(ar, b, '\n');
    assert(a + seq!['\r', '\n'] + b =~= ar + seq!['\n'] + b);
    lemma_split_pieces(b, '\n');
    let pb = text::spec_split(b, '\n');
    let pa = text::spec_split(a + seq!['\n'] + b, '\n');
    let par = text::spec_split(ar + seq!['\n'] + b, '\n');
    assert(seq![a].drop_last() =~= Seq::<Seq<char>>::empty());
    assert(seq![a].drop_last().map_values(strip) =~= Seq::<Seq<char>>::empty());
    if a.len() > 0 {
        assert(text::spec_lines(a) =~= seq![a]);
    }
    assert(pa.last() == pb.last());
    assert(par.last() == pb.last());
    assert(ar.drop_last() =~= a);
    assert(par.drop_last().map_values(strip) =~= seq![a] + pb.drop_last().map_values(strip));
    assert(text::spec_lines(ar + seq!['\n'] + b) =~= seq![a] + text::spec_lines(b));
    if a.len() == 0 || a.last() != '\r' {
        assert(pa.drop_last().map_values(strip) =~= seq![a] + pb.drop_last().map_values(strip));
        assert(text::spec_lines(a + seq!['\n'] + b) =~= seq![a] + text::spec_lines(b));
    }
}

/// Of two texts the one comes first that has the smaller character where they first
/// differ, or that ends there.
pub proof fn law_before(a: Seq<char>, b: Seq<char>)
    ensures
        text::spec_before(a, b) <==> exists|k: int| first_differ(a, b, k),
    decreases a.len(),
{
    if a.len() > 0 && b.len() > 0 && a[0] == b[0] {
        let x = a.drop_first();
        let y = b.drop_first();
        law_before(x, y);
        if exists|k: int| first_differ(x, y, k) {
            let k = choose|k: int| first_differ(x, y, k);
            assert(a.take(k + 1) =~= seq![a[0]] + x.take(k));
            assert(b.take(k + 1) =~= seq![b[0]] + y.take(k));
            assert(first_differ(a, b, k + 1));
        }
        if exists|k: int| first_differ(a, b, k) {
            let k = choose|k: int| first_differ(a, b, k);
            if k == 0 {
                assert(false);
            }
            assert(x.take(k - 1) =~= a.take(k).drop_first());
            assert(y.take(k - 1) =~= b.take(k).drop_first());
            assert(first_differ(x, y, k - 1));
        }
    } else {
        if text::spec_before(a, b) {
            assert(a.take(0) =~= b.take(0));
            assert(first_differ(a, b, 0));
        }
        if exists|k: int| first_differ(a, b, k) {
            let k = choose|k: int| first_differ(a, b, k);
            if k > 0 {
                assert(a.take(k)[0] == a[0]);
                assert(b.take(k)[0] == b[0]);
            }
        }
    }
}

/// Whether two texts agree up to a place at which the first is behind its end, or has
/// the smaller character.
pub open spec fn first_differ(a: Seq<char>, b: Seq<char>, k: int) -> bool {
    0 <= k <= a.len() && k < b.len() && a.take(k) == b.take(k) && (k == a.len() || a[k] < b[k])
}

/// Padding adds spaces on one side, as many as are missing to the width, and takes
/// nothing away.
pub proof fn law_pad(s: &str, width: usize, right: String, left: String)
    requires
        call_ensures(text::pad_right, (s, width), right),
        call_ensures(text::pad_left, (s, width), left),
    ensures
        right@.len() == if s@.len() < width { width as nat } else { s@.len() },
        left@.len() == right@.len(),
        right@.take(s@.len() as int) == s@,
        left@.skip(left@.len() - s@.len()) == s@,
        forall|i: int| s@.len() <= i < right@.len() ==> (#[trigger] right@[i]) == ' ',
        forall|i: int| 0 <= i < left@.len() - s@.len() ==> (#[trigger] left@[i]) == ' ',
{
}

/// No digits stand for nothing, and one more digit for ten times as much and the digit.
pub proof fn law_digits(s: Seq<char>, k: nat)
    requires
        k < 10,
    ensures
        values::digits_value(Seq::empty()) == 0,
        values::digits_value(s.push("0123456789"@[k as int])) == 10 * values::digits_value(s) + k,
        forall|c: char| values::is_digit(c) <==> "0123456789"@.contains(c),
{
    reveal_strlit("0123456789");
    assert(s.push("0123456789"@[k as int]).drop_last() =~= s);
    assert forall|c: char| values::is_digit(c) <==> "0123456789"@.contains(c) by {
        let n = c as int - '0' as int;
        if values::is_digit(c) {
            assert("0123456789"@[n] == c);
        }
    }
}

/// A number in decimal is written in digits, without a leading zero unless it is zero,
/// and reads as itself.
pub proof fn law_decimal(n: nat)
    ensures
        text::spec_decimal(n).len() > 0,
        values::all_digits(text::spec_decimal(n)),
        n > 0 ==> text::spec_decimal(n)[0] != '0',
        values::digits_value(text::spec_decimal(n)) == n,
        values::spec_number(text::spec_decimal(n)) == Some(n),
    decreases n,
{
    let s = text::spec_decimal(n);
    let d = text::digit(n % 10);
    if n < 10 {
        assert(s.drop_last() =~= Seq::<char>::empty());
        assert(values::digits_value(s) == n) by {
            assert(values::digits_value(s.drop_last()) == 0);
        }
    } else {
        law_decimal(n / 10);
        assert(s.drop_last() =~= text::spec_decimal(n / 10));
        assert(s[0] == text::spec_decimal(n / 10)[0]);
        assert forall|i: int| 0 <= i < s.len() implies values::is_digit(#[trigger] s[i]) by {
            if i < s.len() - 1 {
                assert(s[i] == text::spec_decimal(n / 10)[i]);
            }
        }
    }
    assert(values::is_digit(s[0]));
}

/// A text behind its plus sign, if it starts with one.
pub open spec fn unsigned(s: Seq<char>) -> Seq<char> {
    if s.len() > 0 && s[0] == '+' {
        s.skip(1)
    } else {
        s
    }
}

/// Whether a text is one or more digits.
pub open spec fn in_digits(s: Seq<char>) -> bool {
    s.len() > 0 && forall|i: int| 0 <= i < s.len() ==> '0' <= (#[trigger] s[i]) <= '9'
}

/// A percentage is read from digits, with one plus sign before them or none: accepted up
/// to 100, refused above, and refused where anything else stands in the text.
pub proof fn law_percentage(value: &str, r: Result<u8, AppError>)
    requires
        call_ensures(values::parse_airflow, (value,), r),
    ensures
        ({
            let n = values::digits_value(unsigned(value@));
            let good = in_digits(unsigned(value@)) && n <= 100;
            &&& good ==> r is Ok && r->Ok_0 == n
            &&& !good ==> r is Err && r->Err_0.message@ == "invalid airflow: "@ + debug_text(
                value@,
            )
        }),
{
    lemma_number(value@);
}

/// A text stands for the number that its digits do, behind a plus sign or not, and for
/// none where anything else stands in it.
pub proof fn law_number(s: Seq<char>)
    ensures
        in_digits(unsigned(s)) ==> values::spec_number(s) == Some(
            values::digits_value(unsigned(s)),
        ),
        !in_digits(unsigned(s)) ==> values::spec_number(s) is None,
{
    lemma_number(s);
}

/// Digits are digits.
proof fn lemma_number(s: Seq<char>)
    ensures
        in_digits(unsigned(s)) <==> unsigned(s).len() > 0 && values::all_digits(unsigned(s)),
{
    let d = unsigned(s);
    if in_digits(d) {
        assert forall|i: int| 0 <= i < d.len() implies values::is_digit(#[trigger] d[i]) by {}
    }
    if values::all_digits(d) {
        assert forall|i: int| 0 <= i < d.len() implies '0' <= (#[trigger] d[i]) <= '9' by {
            assert(values::is_digit(d[i]));
        }
    }
}

/// Degrees written in digits stand for ten times as many tenths, and one more digit
/// behind a point for as many tenths more, below a thousand degrees.
pub proof fn law_tenths(whole: Seq<char>, k: nat)
    requires
        whole.len() > 0,
        values::all_digits(whole),
        k < 10,
    ensures
        ({
            let v = values::digits_value(whole);
            let with_point = whole.push('.').push("0123456789"@[k as int]);
            &&& v < 1000 ==> values::spec_tenths(whole) == Some((10 * v) as i16)
            &&& v < 1000 ==> values::spec_tenths(with_point) == Some((10 * v + k) as i16)
            &&& v >= 1000 ==> values::spec_tenths(whole) is None && values::spec_tenths(
                with_point,
            ) is None
        }),
{
    reveal_strlit("0123456789");
    let w = whole.push('.').push("0123456789"@[k as int]);
    assert(w.take(w.len() - 2) =~= whole);
    assert(w[w.len() - 2] == '.');
    assert(!values::is_digit(w[w.len() - 2]));
    assert(!values::all_digits(w));
}

/// A setpoint is accepted where it was read as one of 10.0 to 25.0 degrees, as it was
/// read, and refused otherwise.
pub proof fn law_accept_setpoint(
    value: &str,
    read: Option<i16>,
    r: Result<Temperature, AppError>,
)
    requires
        call_ensures(values::accept_setpoint, (value, read), r),
    ensures
        read is Some && 100 <= read->0 <= 250 ==> r is Ok && r->Ok_0.deci == read->0,
        read is None || read->0 < 100 || read->0 > 250 ==> r is Err && r->Err_0.message@
            == "invalid setpoint: "@ + debug_text(value@),
{
}

/// A text is a setpoint where it reads as one of 10.0 to 25.0 degrees; degrees written in
/// digits, with one decimal or none, read as what they say, and an empty text as none.
pub proof fn law_parse_setpoint(value: &str, r: Result<Temperature, AppError>)
    requires
        call_ensures(values::parse_setpoint, (value,), r),
    ensures
        ({
            let read = values::read_deci(value@);
            let written = values::spec_tenths(value@);
            let refused = r is Err && r->Err_0.message@ == "invalid setpoint: "@ + debug_text(
                value@,
            );
            &&& read is Some && 100 <= read->0 <= 250 ==> r is Ok && r->Ok_0.deci == read->0
            &&& read is None || read->0 < 100 || read->0 > 250 ==> refused
            &&& written is Some && 100 <= written->0 <= 250 ==> r is Ok && r->Ok_0.deci
                == written->0
            &&& written is Some && (written->0 < 100 || written->0 > 250) ==> refused
            &&& value@.len() == 0 ==> refused
        }),
{
}

/// A temperature within 10.0 and 25.0 degrees stays as it is; any other goes to the
/// nearer limit.
pub proof fn law_clamp(
    t: Temperature,
    r: Temperature,
)
    requires
        call_ensures(values::clamp_setpoint, (t,), r),
    ensures
        100 <= t.deci <= 250 ==> r == t,
        t.deci < 100 ==> r.deci == 100,
        t.deci > 250 ==> r.deci == 250,
{
}

/// Two texts are the same exactly where their characters are, and one joined to another
/// stands behind it.
pub proof fn law_same_joined(a: &str, b: &str, same: bool, both: String)
    requires
        call_ensures(text::same, (a, b), same),
        call_ensures(text::joined, (a, b), both),
    ensures
        same <==> a@ == b@,
        both@ == a@ + b@,
{
}

} // verus!
