use vstd::prelude::*;

verus! {

/// The serialization of the absolute URL that `url::Url::parse` reads from
/// a text, or `None` when the text is no absolute URL.
pub uninterp spec fn url_serialization(s: Seq<char>) -> Option<Seq<char>>;

/// The last path segment of the URL that `url::Url::parse` reads from a
/// text, or `None` when the text is no absolute URL or its URL has no path
/// segments.
pub uninterp spec fn url_last_segment(s: Seq<char>) -> Option<Seq<char>>;

/// Relies on `url::Url::parse` (re-exported by reqwest) and on the
/// conversion of the parsed URL into its serialization.
#[verifier::external_body]
pub(crate) fn parse_url(s: &str) -> (r: Option<String>)
    ensures
        match r {
            Some(t) => url_serialization(s@) == Some(t@),
            None => url_serialization(s@) is None,
        },
{
    reqwest::Url::parse(s).ok().map(String::from)
}

/// Relies on `url::Url::path_segments` and the last item of its iterator,
/// on the URL that `url::Url::parse` reads from `s`.
#[verifier::external_body]
fn last_path_segment(s: &str) -> (r: Option<String>)
    ensures
        match r {
            Some(t) => url_last_segment(s@) == Some(t@),
            None => url_last_segment(s@) is None,
        },
{
    reqwest::Url::parse(s).ok().and_then(|u| u.path_segments().and_then(|p| p.last()).map(String::from))
}

/// An input from which no invite can be derived: the offending text and why.
#[derive(Debug, Clone, PartialEq, Eq)]
pub struct MalformedInput {
    pub input: String,
    pub reason: String,
}

/// The invite code a text leads to: the last path segment of its URL, when
/// that is not empty.
pub open spec fn invite_code_of(s: Seq<char>) -> Option<Seq<char>> {
    match url_last_segment(s) {
        Some(c) => if c.len() > 0 {
            Some(c)
        } else {
            None
        },
        None => None,
    }
}

/// Derives the invite code from an invite link: the last segment of the
/// link's path. A text that is no absolute URL, or whose path ends without a
/// segment, is malformed.
pub fn get_invite_code_from_url(url: &str) -> (r: Result<String, MalformedInput>)
    ensures
        match r {
            Ok(c) => invite_code_of(url@) == Some(c@),
            Err(e) => invite_code_of(url@) is None && e.input@ == url@,
        },
{
    match last_path_segment(url) {
        Some(code) => {
            if !code.as_str().is_empty() {
                Ok(code)
            } else {
                Err(MalformedInput { input: url.to_owned(), reason: "No code in URL".to_owned() })
            }
        },
        None => Err(MalformedInput { input: url.to_owned(), reason: "No code in URL".to_owned() }),
    }
}

/// Parses each invite link as an absolute URL and keeps its serialization.
/// The first link that does not parse fails the whole list.
pub fn resolve_invite_urls(urls: Vec<String>) -> (r: Result<Vec<String>, MalformedInput>)
    ensures
        match r {
            Ok(v) => v@.len() == urls@.len() && forall|i: int|
                0 <= i < urls@.len() ==> url_serialization((#[trigger] urls@[i])@) == Some(
                    v@[i]@,
                ),
            Err(e) => exists|j: int|
                0 <= j < urls@.len() && url_serialization((#[trigger] urls@[j])@) is None
                    && e.input@ == urls@[j]@ && forall|k: int|
                    0 <= k < j ==> url_serialization((#[trigger] urls@[k])@) is Some,
        },
{
    let mut parsed: Vec<String> = Vec::new();
    let mut i: usize = 0;
    while i < urls.len()
        invariant
            i <= urls@.len(),
            parsed@.len() == i,
            forall|k: int|
                0 <= k < i ==> url_serialization((#[trigger] urls@[k])@) == Some(parsed@[k]@),
        decreases urls@.len() - i,
    {
        match parse_url(urls[i].as_str()) {
            Some(u) => parsed.push(u),
            None => {
                assert(url_serialization(urls@[i as int]@) is None);
                return Err(
                    MalformedInput { input: urls[i].clone(), reason: "not an absolute URL".to_owned() },
                );
            },
        }
        i = i + 1;
    }
    Ok(parsed)
}

/// The invite codes of a list of links, in order. Derivation happens before
/// any fetching: the first link without a code fails the whole batch.
pub fn invite_codes(urls: &Vec<String>) -> (r: Result<Vec<String>, MalformedInput>)
    ensures
        match r {
            Ok(v) => v@.len() == urls@.len() && forall|i: int|
                0 <= i < urls@.len() ==> invite_code_of((#[trigger] urls@[i])@) == Some(
                    v@[i]@,
                ),
            Err(e) => exists|j: int|
                0 <= j < urls@.len() && invite_code_of((#[trigger] urls@[j])@) is None
                    && e.input@ == urls@[j]@ && forall|k: int|
                    0 <= k < j ==> invite_code_of((#[trigger] urls@[k])@) is Some,
        },
{
    let mut codes: Vec<String> = Vec::new();
    let mut i: usize = 0;
    while i < urls.len()
        invariant
            i <= urls@.len(),
            codes@.len() == i,
            forall|k: int|
                0 <= k < i ==> invite_code_of((#[trigger] urls@[k])@) == Some(codes@[k]@),
        decreases urls@.len() - i,
    {
        match get_invite_code_from_url(urls[i].as_str()) {
            Ok(c) => codes.push(c),
            Err(e) => {
                return Err(e);
            },
        }
        i = i + 1;
    }
    Ok(codes)
}

} // verus!
