//! URL validation, relative-reference resolution and filename derivation.
//!
//! The URL algebra itself (the WHATWG parsing and joining rules) is done by
//! the `url` crate behind trusted wrappers; everything built on top of the
//! wrappers is verified.

use vstd::prelude::*;

use crate::FailureKind;

verus! {

/// What `url::Url::parse` computes on a string: the normalized
/// serialization on success, `Err(true)` for a relative reference
/// (no scheme), `Err(false)` for any other parse failure.
pub uninterp spec fn url_parse(s: Seq<char>) -> Result<Seq<char>, bool>;

/// What parsing a base URL and joining a reference against it computes:
/// the normalized absolute serialization, or `None` where the base does
/// not parse or the join fails.
pub uninterp spec fn url_join(base: Seq<char>, rel: Seq<char>) -> Option<Seq<char>>;

/// The path component of a URL: what `url::Url::path` returns after a
/// successful parse, `None` where the string does not parse as a URL.
pub uninterp spec fn url_path_of(s: Seq<char>) -> Option<Seq<char>>;

/// The three ways user input can come out of URL parsing.
pub enum UrlParseOutcome {
    /// The input parsed; the field holds the normalized serialization.
    Absolute(String),
    /// The input is a relative reference: it needs a base to resolve.
    Relative,
    /// The input cannot be parsed as a URL at all.
    Invalid,
}

/// Relies on `url::Url::parse`: deterministic WHATWG URL parsing, with
/// `ParseError::RelativeUrlWithoutBase` as the distinguished failure for
/// scheme-less references, and on `url::Url::as_str` for the normalized
/// serialization.
#[verifier::external_body]
pub(crate) fn parse_url(s: &str) -> (r: UrlParseOutcome)
    ensures
        match r {
            UrlParseOutcome::Absolute(u) => url_parse(s@) == Ok::<Seq<char>, bool>(u@),
            UrlParseOutcome::Relative => url_parse(s@) == Err::<Seq<char>, bool>(true),
            UrlParseOutcome::Invalid => url_parse(s@) == Err::<Seq<char>, bool>(false),
        },
{
    match url::Url::parse(s) {
        Ok(u) => UrlParseOutcome::Absolute(String::from(u.as_str())),
        Err(url::ParseError::RelativeUrlWithoutBase) => UrlParseOutcome::Relative,
        Err(_) => UrlParseOutcome::Invalid,
    }
}

/// Relies on `url::Url::parse` and `url::Url::join`: resolving a reference
/// against a base URL per the WHATWG rules, both deterministic functions
/// of their string arguments.
#[verifier::external_body]
pub(crate) fn join_url(base: &str, rel: &str) -> (r: Option<String>)
    ensures
        match r {
            Some(u) => url_join(base@, rel@) == Some(u@),
            None => url_join(base@, rel@) is None,
        },
{
    match url::Url::parse(base) {
        Ok(b) => match b.join(rel) {
            Ok(u) => Some(String::from(u.as_str())),
            Err(_) => None,
        },
        Err(_) => None,
    }
}

/// Relies on `url::Url::parse` and `url::Url::path`: the path component of
/// a parsed URL, which starts with `/` for every URL that can be a base.
#[verifier::external_body]
fn url_path(s: &str) -> (r: Option<String>)
    ensures
        match r {
            Some(p) => url_path_of(s@) == Some(p@),
            None => url_path_of(s@) is None,
        },
{
    match url::Url::parse(s) {
        Ok(u) => Some(String::from(u.path())),
        Err(_) => None,
    }
}

/// Validate raw user input as a URL. On success the normalized
/// serialization is what every later pipeline step uses; on failure
/// nothing has been fetched and no staging area exists.
pub fn validate_url(input: &str) -> (r: Result<String, FailureKind>)
    ensures
        match r {
            Ok(u) => url_parse(input@) == Ok::<Seq<char>, bool>(u@),
            Err(k) => k == FailureKind::InvalidUrl && url_parse(input@) is Err,
        },
{
    match parse_url(input) {
        UrlParseOutcome::Absolute(u) => Ok(u),
        UrlParseOutcome::Relative => Err(FailureKind::InvalidUrl),
        UrlParseOutcome::Invalid => Err(FailureKind::InvalidUrl),
    }
}

/// The suffix of `p` after its last `/`; the whole of `p` when it holds
/// no `/` at all.
pub open spec fn last_segment(p: Seq<char>) -> Seq<char>
    decreases p.len(),
{
    if p.len() == 0 {
        p
    } else if p.last() == '/' {
        Seq::empty()
    } else {
        last_segment(p.drop_last()).push(p.last())
    }
}

/// The file name a fetched resource is stored under: the last path
/// segment of the final URL, or the fallback name where the URL has no
/// usable last segment (no parse, a path that is not `/`-rooted, or an
/// empty last segment).
pub open spec fn filename_spec(u: Seq<char>, fallback: Seq<char>) -> Seq<char> {
    match url_path_of(u) {
        Some(p) => if p.len() > 0 && p[0] == '/' && last_segment(p).len() > 0 {
            last_segment(p)
        } else {
            fallback
        },
        None => fallback,
    }
}

/// Derive the local file name for a resource from the final
/// (post-redirect) URL it was served from.
pub fn derive_filename(final_url: &str, fallback: &str) -> (r: String)
    ensures
        r@ == filename_spec(final_url@, fallback@),
{
    match url_path(final_url) {
        None => fallback.to_owned(),
        Some(p) => {
            let ps = p.as_str();
            let n = ps.unicode_len();
            if n == 0 || ps.get_char(0) != '/' {
                return fallback.to_owned();
            }
            let mut cut: usize = 0;
            let mut i: usize = 0;
            while i < n
                invariant
                    i <= n,
                    cut <= i,
                    n == ps@.len(),
                    last_segment(ps@.subrange(0, i as int)) =~= ps@.subrange(cut as int, i as int),
                decreases n - i,
            {
                proof {
                    assert(ps@.subrange(0, i + 1 as int).drop_last() =~= ps@.subrange(0, i as int));
                    assert(ps@.subrange(0, i + 1 as int).last() == ps@[i as int]);
                }
                if ps.get_char(i) == '/' {
                    cut = i + 1;
                    proof {
                        assert(last_segment(ps@.subrange(0, i + 1 as int)) =~= ps@.subrange(
                            cut as int,
                            i + 1 as int,
                        ));
                    }
                } else {
                    proof {
                        assert(last_segment(ps@.subrange(0, i + 1 as int)) =~= ps@.subrange(
                            cut as int,
                            i + 1 as int,
                        ));
                    }
                }
                i = i + 1;
            }
            proof {
                assert(ps@.subrange(0, n as int) =~= ps@);
            }
            if cut == n {
                fallback.to_owned()
            } else {
                let seg = ps.substring_char(cut, n);
                seg.to_owned()
            }
        },
    }
}

} // verus!
