//! Colour themes and the cookie that remembers the selected one.

use axum::http::header::InvalidHeaderValue;
use axum::http::HeaderValue;
use vstd::prelude::*;
use crate::text;

verus! {

/// A colour theme.
#[derive(Debug, PartialEq, Eq)]
pub struct Theme {
    pub name: String,
}

/// The themes there are: the first is the default.
#[derive(Debug, PartialEq, Eq)]
pub struct Themes {
    pub list: Vec<Theme>,
}

impl Themes {
    /// There is a theme, and every name can stand in a header.
    pub open spec fn usable(&self) -> bool {
        &&& self.list@.len() > 0
        &&& forall|i: int| 0 <= i < self.list@.len() ==> header_text((#[trigger] self.list@[i]).name@)
    }

    /// Whether there is a theme, and every name can stand in a header.
    pub fn valid(&self) -> (r: bool)
        ensures
            r == self.usable(),
    {
        for i in 0..self.list.len()
            invariant
                forall|k: int| 0 <= k < i ==> header_text((#[trigger] self.list@[k]).name@),
        {
            let chars = text::chars_of(self.list[i].name.as_str());
            for c in 0..chars.len()
                invariant
                    i < self.list@.len(),
                    chars@ == self.list@[i as int].name@,
                    forall|k: int| 0 <= k < c ==> header_char(#[trigger] chars@[k]),
            {
                let ch = chars[c];
                if ch != '\t' && (ch < ' ' || ch == '\u{7f}') {
                    assert(!header_char(chars@[c as int]));
                    assert(!header_text(self.list@[i as int].name@));
                    return false;
                }
            }
        }
        self.list.len() > 0
    }

    /// The theme of a name, or the default.
    pub open spec fn spec_lookup(&self, name: Seq<char>) -> Theme {
        match named(self.list@, name) {
            Some(theme) => theme,
            None => self.list@[0],
        }
    }

    /// The theme of a name, or the default.
    pub fn lookup(&self, name: &str) -> (r: &Theme)
        requires
            self.list@.len() > 0,
        ensures
            *r == self.spec_lookup(name@),
    {
        assert(self.list@.skip(0) =~= self.list@);
        for i in 0..self.list.len()
            invariant
                named(self.list@, name@) == named(self.list@.skip(i as int), name@),
        {
            if text::same(self.list[i].name.as_str(), name) {
                return &self.list[i];
            }
            assert(self.list@.skip(i as int).drop_first() =~= self.list@.skip(i + 1));
        }
        &self.list[0]
    }

    /// The theme that a cookie header selects: the one that its `theme` cookie
    /// names, or the default.
    pub open spec fn spec_selected(&self, header: Seq<char>) -> Theme {
        match theme_value(text::spec_split(header, ';')) {
            Some(name) => self.spec_lookup(name),
            None => self.list@[0],
        }
    }

    /// The theme that a cookie header selects: the one that its `theme` cookie
    /// names, or the default.
    pub fn selected(&self, header: &str) -> (r: &Theme)
        requires
            self.list@.len() > 0,
        ensures
            *r == self.spec_selected(header@),
    {
        let pairs = text::split(header, ';');
        let ghost all = text::texts(pairs@);
        assert(all.skip(0) =~= all);
        for i in 0..pairs.len()
            invariant
                self.list@.len() > 0,
                all == text::texts(pairs@),
                all == text::spec_split(header@, ';'),
                theme_value(all) == theme_value(all.skip(i as int)),
        {
            let chars = text::chars_of(pairs[i].as_str());
            let pair = text::trim_start(&chars, 0);
            assert(chars@.skip(0) =~= chars@);
            assert(all.skip(i as int)[0] == chars@);
            if text::starts_with(pair.as_str(), "theme=") {
                let pair_chars = text::chars_of(pair.as_str());
                let from: usize = "theme=".unicode_len();
                let name = text::string_of(&pair_chars, from, pair_chars.len());
                assert(name@ =~= pair@.skip(from as int));
                return self.lookup(name.as_str());
            }
            assert(all.skip(i as int).drop_first() =~= all.skip(i + 1));
        }
        &self.list[0]
    }
}

/// The value of the `theme` cookie among the pairs of a cookie header.
pub open spec fn theme_value(pairs: Seq<Seq<char>>) -> Option<Seq<char>>
    decreases pairs.len(),
{
    if pairs.len() == 0 {
        None
    } else {
        let pair = text::spec_trim_start(pairs[0]);
        if "theme="@.is_prefix_of(pair) {
            Some(pair.skip("theme="@.len() as int))
        } else {
            theme_value(pairs.drop_first())
        }
    }
}

/// The first theme of a name, if there is one.
pub open spec fn named(list: Seq<Theme>, name: Seq<char>) -> Option<Theme>
    decreases list.len(),
{
    if list.len() == 0 {
        None
    } else if list[0].name@ == name {
        Some(list[0])
    } else {
        named(list.drop_first(), name)
    }
}

/// The first theme of a name is in the list and has the name; where there is none,
/// no theme in the list has it.
proof fn lemma_named(list: Seq<Theme>, name: Seq<char>)
    ensures
        match named(list, name) {
            Some(theme) => list.contains(theme) && theme.name@ == name,
            None => forall|i: int| 0 <= i < list.len() ==> (#[trigger] list[i]).name@ != name,
        },
    decreases list.len(),
{
    if list.len() > 0 && list[0].name@ != name {
        let rest = list.drop_first();
        lemma_named(rest, name);
        match named(rest, name) {
            Some(theme) => {
                let k = choose|k: int| 0 <= k < rest.len() && rest[k] == theme;
                assert(list[k + 1] == theme);
            },
            None => {
                assert forall|i: int| 0 <= i < list.len() implies (#[trigger] list[i]).name@
                    != name by {
                    if i > 0 {
                        assert(rest[i - 1] == list[i]);
                    }
                }
            },
        }
    } else if list.len() > 0 {
        assert(list[0] == named(list, name)->0);
    }
}

/// Whatever name is looked up, a theme of the list comes out: one of that name if
/// there is one, the default otherwise.
pub proof fn law_lookup(themes: Themes, name: Seq<char>)
    requires
        themes.list@.len() > 0,
    ensures
        themes.list@.contains(themes.spec_lookup(name)),
        themes.spec_lookup(name).name@ == name || (themes.spec_lookup(name) == themes.list@[0]
            && forall|i: int|
            0 <= i < themes.list@.len() ==> (#[trigger] themes.list@[i]).name@ != name),
{
    lemma_named(themes.list@, name);
    assert(themes.list@.contains(themes.list@[0]));
}

/// The `http` crate's header value.
#[verifier::external_type_specification]
#[verifier::external_body]
pub struct ExHeaderValue(HeaderValue);

/// The `http` crate's error about a text that is no header value.
#[verifier::external_type_specification]
#[verifier::external_body]
pub struct ExInvalidHeaderValue(InvalidHeaderValue);

/// The header value that the `http` crate makes of a text.
pub uninterp spec fn header_of(value: Seq<char>) -> HeaderValue;

/// Whether a character can stand in a header value: no control character of ASCII but
/// the tab.
pub open spec fn header_char(c: char) -> bool {
    (c as int >= 32 && c as int != 127) || c == '\t'
}

/// Whether a text can be a header value.
pub open spec fn header_text(value: Seq<char>) -> bool {
    forall|i: int| 0 <= i < value.len() ==> header_char(#[trigger] value[i])
}

/// `HeaderValue::from_str` accepts a text without control characters of ASCII (the
/// tab is accepted) and refuses every other. What it makes of the text is named
/// [`header_of`].
pub assume_specification[ HeaderValue::from_str ](src: &str) -> (r: Result<
    HeaderValue,
    InvalidHeaderValue,
>)
    ensures
        match r {
            Ok(value) => header_text(src@) && value == header_of(src@),
            Err(_) => !header_text(src@),
        },
;

/// The cookie that remembers a theme for a year.
pub open spec fn cookie_text(name: Seq<char>) -> Seq<char> {
    "theme="@ + name + "; Path=/; Max-Age=31536000; SameSite=Lax"@
}

/// The text of a cookie for a name that can stand in a header is a header value.
pub proof fn lemma_cookie_text(name: Seq<char>)
    requires
        header_text(name),
    ensures
        header_text(cookie_text(name)),
{
    reveal_strlit("theme=");
    reveal_strlit("; Path=/; Max-Age=31536000; SameSite=Lax");
    let head = "theme="@;
    let tail = "; Path=/; Max-Age=31536000; SameSite=Lax"@;
    assert forall|i: int| 0 <= i < cookie_text(name).len() implies header_char(
        #[trigger] cookie_text(name)[i],
    ) by {
        if i < head.len() {
            assert(cookie_text(name)[i] == head[i]);
        } else if i < head.len() + name.len() {
            assert(cookie_text(name)[i] == name[i - head.len()]);
        } else {
            assert(cookie_text(name)[i] == tail[i - head.len() - name.len()]);
        }
    }
}

/// The value of the cookie header that remembers a theme.
pub fn cookie(theme: &Theme) -> (r: HeaderValue)
    requires
        header_text(theme.name@),
    ensures
        r == header_of(cookie_text(theme.name@)),
{
    let head = text::joined("theme=", theme.name.as_str());
    let value = text::joined(head.as_str(), "; Path=/; Max-Age=31536000; SameSite=Lax");
    proof {
        lemma_cookie_text(theme.name@);
    }
    HeaderValue::from_str(value.as_str()).unwrap()
}

} // verus!
