use vstd::prelude::*;
use vstd::string::StrSliceExecFns;

verus! {

/// What `str::trim` leaves of a text: the text without leading and trailing
/// white space.
pub uninterp spec fn trimmed(s: Seq<char>) -> Seq<char>;

/// Relies on `str::trim`: the result is a function of the text alone.
#[verifier::external_body]
fn trim(s: &str) -> (r: &str)
    ensures
        r@ == trimmed(s@),
{
    s.trim()
}

/// Whether `s` begins with `p`.
pub open spec fn has_prefix(s: Seq<char>, p: Seq<char>) -> bool {
    p.len() <= s.len() && s.subrange(0, p.len() as int) == p
}

/// Whether `s` begins with `p`, compared character by character.
fn starts_with(s: &str, p: &str) -> (r: bool)
    ensures
        r == has_prefix(s@, p@),
{
    let n = p.unicode_len();
    if n > s.unicode_len() {
        return false;
    }
    let mut i: usize = 0;
    while i < n
        invariant
            n == p@.len(),
            n <= s@.len(),
            i <= n,
            forall|k: int| 0 <= k < i ==> s@[k] == p@[k],
        decreases n - i,
    {
        if s.get_char(i) != p.get_char(i) {
            assert(s@.subrange(0, n as int)[i as int] != p@[i as int]);
            return false;
        }
        i = i + 1;
    }
    assert(s@.subrange(0, n as int) =~= p@);
    true
}

/// Whether a text names a web address by its scheme.
pub open spec fn is_web_address(s: Seq<char>) -> bool {
    has_prefix(s, "http://"@) || has_prefix(s, "https://"@)
}

/// Checks one invite link given on the command line: after trimming, it must
/// start with `http://` or `https://`; the trimmed text is returned.
pub fn validate_url(raw: &str) -> (r: Result<String, String>)
    ensures
        is_web_address(trimmed(raw@)) ==> (r matches Ok(t) && t@ == trimmed(raw@)),
        !is_web_address(trimmed(raw@)) ==> (r matches Err(m) && m@
            == "URL must start with http:// or https://"@),
{
    let s = trim(raw);
    if starts_with(s, "http://") || starts_with(s, "https://") {
        Ok(s.to_owned())
    } else {
        Err("URL must start with http:// or https://".to_owned())
    }
}

} // verus!
