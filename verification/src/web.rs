//! URLs, parsed and written by the `url` crate.

use url::Url;
use vstd::prelude::*;

use crate::text;

verus! {

/// A parsed URL, opaque to proofs but for [`url_text`].
#[verifier::external_type_specification]
#[verifier::external_body]
pub struct ExUrl(url::Url);

/// The serialization of a URL.
pub uninterp spec fn url_text(u: url::Url) -> Seq<char>;

/// The serialization of the URL of a result, or the complaint.
pub open spec fn text_or(res: Result<Url, String>) -> Result<Seq<char>, Seq<char>> {
    match res {
        Ok(u) => Ok(url_text(u)),
        Err(e) => Err(e@),
    }
}

/// What `Url::parse` makes of a text: a URL, or its complaint.
pub uninterp spec fn parsed(text: Seq<char>) -> Result<Seq<char>, Seq<char>>;

/// `Url::parse`: the URL that the text names, or the complaint, each a function
/// of the text alone.
#[verifier::external_body]
pub(crate) fn parse(text: &str) -> (res: Result<Url, String>)
    ensures
        text_or(res) == parsed(text@),
{
    Url::parse(text).map_err(|e| e.to_string())
}

/// The texts of a row of pairs.
pub open spec fn pairs_of(pairs: Seq<(String, String)>) -> Seq<(Seq<char>, Seq<char>)> {
    pairs.map_values(|p: (String, String)| (p.0@, p.1@))
}

/// A query parameter.
pub fn pair(name: &str, value: String) -> (res: (String, String))
    ensures
        res.0@ == name@,
        res.1@ == value@,
{
    (name.to_owned(), value)
}

/// The most bytes that a text takes in a URL: three for an ASCII character, which
/// may be percent-encoded, and sixteen for any other, which takes twelve at most
/// when it is percent-encoded and up to four more as a label of a host.
pub open spec fn written_len(s: Seq<char>) -> nat
    decreases s.len(),
{
    if s.len() == 0 {
        0
    } else {
        written_len(s.drop_last()) + (if s.last() <= '\u{7f}' {
            3nat
        } else {
            16
        })
    }
}

/// The most bytes that a row of pairs takes in a URL, with the two separators of
/// each.
pub open spec fn pairs_len(pairs: Seq<(Seq<char>, Seq<char>)>) -> nat
    decreases pairs.len(),
{
    if pairs.len() == 0 {
        0
    } else {
        pairs_len(pairs.drop_last()) + written_len(pairs.last().0) + written_len(pairs.last().1) + 2
    }
}

/// The most bytes that a base URL and its parameters may take. The `url` crate
/// panics where parameters are added to a URL of 4 GB; what is left below that is
/// for what parsing adds to a base, such as the slash of an empty path.
pub const MAX_BYTES: u64 = 0xffff_0000;

/// Whether a base URL and its parameters stay below the crate's limit, however
/// they are encoded.
pub open spec fn fits(base: Seq<char>, pairs: Seq<(Seq<char>, Seq<char>)>) -> bool {
    written_len(base) + pairs_len(pairs) <= MAX_BYTES
}

/// What `Url::parse_with_params` makes of a base URL and query parameters.
pub uninterp spec fn parsed_with(
    base: Seq<char>,
    pairs: Seq<(Seq<char>, Seq<char>)>,
) -> Result<Seq<char>, Seq<char>>;

/// `Url::parse_with_params`: the base URL with the parameters added to its
/// query, or the complaint, each a function of the texts alone.
#[verifier::external_body]
pub(crate) fn parse_with(base: &str, pairs: &Vec<(String, String)>) -> (res: Result<Url, String>)
    requires
        fits(base@, pairs_of(pairs@)),
    ensures
        text_or(res) == parsed_with(base@, pairs_of(pairs@)),
{
    Url::parse_with_params(base, pairs).map_err(|e| e.to_string())
}

/// The URL with parameters added to its query; a complaint about one that is
/// too long to be written.
pub open spec fn built(base: Seq<char>, pairs: Seq<(Seq<char>, Seq<char>)>) -> Result<
    Seq<char>,
    Seq<char>,
> {
    if fits(base, pairs) {
        parsed_with(base, pairs)
    } else {
        Err("URLs more than 4 GB are not supported"@)
    }
}

/// A length with that of a text added, unless it passes the limit.
fn add_written(total: u64, s: &str) -> (res: Option<u64>)
    requires
        total <= MAX_BYTES,
    ensures
        match res {
            Some(n) => n == total + written_len(s@) && n <= MAX_BYTES,
            None => total + written_len(s@) > MAX_BYTES,
        },
{
    let chars = text::chars_of(s);
    let mut sum: u64 = total;
    let mut i: usize = 0;
    while i < chars.len()
        invariant
            i <= chars.len(),
            chars@ == s@,
            sum == total + written_len(s@.take(i as int)),
            sum <= MAX_BYTES,
        decreases chars.len() - i,
    {
        proof {
            assert(s@.take(i + 1).drop_last() == s@.take(i as int));
            lemma_written_prefix(s@, i + 1);
        }
        let step: u64 = if chars[i] <= '\u{7f}' {
            3
        } else {
            16
        };
        if step > MAX_BYTES - sum {
            return None;
        }
        sum += step;
        i += 1;
    }
    assert(s@.take(chars.len() as int) == s@);
    Some(sum)
}

/// Whether a base URL and its parameters stay below the crate's limit.
fn is_within_limit(base: &str, pairs: &Vec<(String, String)>) -> (res: bool)
    ensures
        res == fits(base@, pairs_of(pairs@)),
{
    let ghost all = pairs_of(pairs@);
    let mut total: u64 = match add_written(0, base) {
        Some(n) => n,
        None => return false,
    };
    let mut i: usize = 0;
    while i < pairs.len()
        invariant
            i <= pairs.len(),
            all == pairs_of(pairs@),
            total == written_len(base@) + pairs_len(all.take(i as int)),
            total <= MAX_BYTES,
        decreases pairs.len() - i,
    {
        proof {
            assert(all.take(i + 1).drop_last() == all.take(i as int));
            lemma_pairs_prefix(all, i + 1);
        }
        if MAX_BYTES - total < 2 {
            return false;
        }
        let named = match add_written(total + 2, &pairs[i].0) {
            Some(n) => n,
            None => return false,
        };
        total = match add_written(named, &pairs[i].1) {
            Some(n) => n,
            None => return false,
        };
        i += 1;
    }
    assert(all.take(pairs.len() as int) == all);
    true
}

/// Adds query parameters to a base URL.
pub fn build(base: &str, pairs: &Vec<(String, String)>) -> (res: Result<Url, String>)
    ensures
        text_or(res) == built(base@, pairs_of(pairs@)),
{
    if is_within_limit(base, pairs) {
        parse_with(base, pairs)
    } else {
        Err("URLs more than 4 GB are not supported".to_owned())
    }
}

/// A text takes at least the bytes of its first `n` characters.
proof fn lemma_written_prefix(s: Seq<char>, n: int)
    requires
        0 <= n <= s.len(),
    ensures
        written_len(s.take(n)) <= written_len(s),
    decreases s.len() - n,
{
    if n < s.len() {
        lemma_written_prefix(s, n + 1);
        assert(s.take(n + 1).drop_last() == s.take(n));
    } else {
        assert(s.take(n) == s);
    }
}

/// A row of pairs takes at least the bytes of its first `n`.
proof fn lemma_pairs_prefix(pairs: Seq<(Seq<char>, Seq<char>)>, n: int)
    requires
        0 <= n <= pairs.len(),
    ensures
        pairs_len(pairs.take(n)) <= pairs_len(pairs),
    decreases pairs.len() - n,
{
    if n < pairs.len() {
        lemma_pairs_prefix(pairs, n + 1);
        assert(pairs.take(n + 1).drop_last() == pairs.take(n));
    } else {
        assert(pairs.take(n) == pairs);
    }
}

/// What `Url::host_str` finds in a URL, by its serialization.
pub uninterp spec fn host_of(text: Seq<char>) -> Option<Seq<char>>;

/// What `Url::scheme` finds in a URL, by its serialization.
pub uninterp spec fn scheme_of(text: Seq<char>) -> Seq<char>;

/// What `Url::authority` finds in a URL, by its serialization.
pub uninterp spec fn authority_of(text: Seq<char>) -> Seq<char>;

/// What `Url::path` finds in a URL, by its serialization.
pub uninterp spec fn path_of(text: Seq<char>) -> Seq<char>;

/// `Url::as_str`: the serialization.
pub assume_specification[ url::Url::as_str ](u: &url::Url) -> (res: &str)
    ensures
        res@ == url_text(*u),
;

/// `Url::host_str`: the host, a function of the serialization.
pub assume_specification[ url::Url::host_str ](u: &url::Url) -> (res: Option<&str>)
    ensures
        match res {
            Some(h) => host_of(url_text(*u)) == Some(h@),
            None => host_of(url_text(*u)) is None,
        },
;

/// `Url::scheme`: the scheme, a function of the serialization.
pub assume_specification[ url::Url::scheme ](u: &url::Url) -> (res: &str)
    ensures
        res@ == scheme_of(url_text(*u)),
;

/// `Url::authority`: user, host and port, a function of the serialization.
pub assume_specification[ url::Url::authority ](u: &url::Url) -> (res: &str)
    ensures
        res@ == authority_of(url_text(*u)),
;

/// `Url::path`: the percent-encoded path, which is ASCII; a function of the
/// serialization.
pub assume_specification[ url::Url::path ](u: &url::Url) -> (res: &str)
    ensures
        res@ == path_of(url_text(*u)),
        text::all_ascii(res@),
;

} // verus!
