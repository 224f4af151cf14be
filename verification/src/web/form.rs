//! Form fields.

use vstd::prelude::*;
use crate::text;

verus! {

/// The value of the first field with a key, or the empty text.
pub open spec fn spec_field(form: Seq<(String, String)>, key: Seq<char>) -> Seq<char>
    decreases form.len(),
{
    if form.len() == 0 {
        Seq::empty()
    } else if form[0].0@ == key {
        form[0].1@
    } else {
        spec_field(form.drop_first(), key)
    }
}

/// The value of the first field with a key, or the empty text.
pub fn field(form: &Vec<(String, String)>, key: &str) -> (r: String)
    ensures
        r@ == spec_field(form@, key@),
{
    assert(form@.skip(0) =~= form@);
    for i in 0..form.len()
        invariant
            spec_field(form@, key@) == spec_field(form@.skip(i as int), key@),
    {
        if text::same(form[i].0.as_str(), key) {
            return form[i].1.as_str().to_owned();
        }
        assert(form@.skip(i as int).drop_first() =~= form@.skip(i + 1));
    }
    String::new()
}

} // verus!
