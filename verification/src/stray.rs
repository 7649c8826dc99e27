//! Which intake values speak of a stray.

use vstd::prelude::*;

use crate::text;

verus! {

/// Known intake-type values that indicate a stray.
pub const STRAY_VALUES: [&'static str; 6] = [
    "STRAY",
    "FOUND",
    "STRAY INCOMING",
    "FIELD",
    "CONFISCATED",
    "WILDLIFE",
];

/// Whether a value, trimmed and in upper case, holds one of the known words.
pub open spec fn is_stray(v: Seq<char>) -> bool {
    exists|i: int|
        0 <= i < STRAY_VALUES@.len() && text::has(
            text::uppercase(text::trimmed(v)),
            (#[trigger] STRAY_VALUES@[i])@,
        )
}

/// Whether a value, trimmed and in upper case, holds one of the known words.
pub fn is_stray_value(v: &str) -> (res: bool)
    ensures
        res == is_stray(v@),
{
    let upper = text::upper(v.trim());
    let mut i: usize = 0;
    while i < STRAY_VALUES.len()
        invariant
            i <= STRAY_VALUES@.len(),
            upper@ == text::uppercase(text::trimmed(v@)),
            forall|j: int| 0 <= j < i ==> !text::has(upper@, (#[trigger] STRAY_VALUES@[j])@),
        decreases STRAY_VALUES@.len() - i,
    {
        if text::contains(upper.as_str(), STRAY_VALUES[i]) {
            return true;
        }
        i += 1;
    }
    false
}

/// A value speaks of a stray exactly where it has one of six words as a part, in
/// any case and with any space around.
pub proof fn strays_go_by_six_words(v: Seq<char>)
    ensures
        ({
            let u = text::uppercase(text::trimmed(v));
            is_stray(v) <==> text::has(u, "STRAY"@) || text::has(u, "FOUND"@) || text::has(
                u,
                "STRAY INCOMING"@,
            ) || text::has(u, "FIELD"@) || text::has(u, "CONFISCATED"@) || text::has(u, "WILDLIFE"@)
        }),
{
    let u = text::uppercase(text::trimmed(v));
    let words = STRAY_VALUES@;
    assert(words.len() == 6);
    assert(words[0]@ == "STRAY"@ && words[1]@ == "FOUND"@ && words[2]@ == "STRAY INCOMING"@
        && words[3]@ == "FIELD"@ && words[4]@ == "CONFISCATED"@ && words[5]@ == "WILDLIFE"@);
    if text::has(u, "STRAY"@) {
        assert(text::has(u, words[0]@));
    }
    if text::has(u, "FOUND"@) {
        assert(text::has(u, words[1]@));
    }
    if text::has(u, "STRAY INCOMING"@) {
        assert(text::has(u, words[2]@));
    }
    if text::has(u, "FIELD"@) {
        assert(text::has(u, words[3]@));
    }
    if text::has(u, "CONFISCATED"@) {
        assert(text::has(u, words[4]@));
    }
    if text::has(u, "WILDLIFE"@) {
        assert(text::has(u, words[5]@));
    }
}

} // verus!
