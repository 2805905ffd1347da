//! Decisions of the media fetch engine: the destination pre-check, the
//! output filename, the completeness check after a transfer, and the
//! per-item aggregate outcome.
use vstd::prelude::*;

use crate::text::replace_str;
use crate::text::replaced;

verus! {

/// Outcome of fetching one media reference.
pub enum FetchOutcome {
    Success,
    Failed,
}

/// What the pre-check decides for a destination file.
pub enum Precheck {
    SkipExisting,
    DeleteThenFetch,
    Fetch,
}

/// A destination that already exists with content counts as fetched and
/// costs no network call; one that exists empty is a corrupt leftover,
/// to be deleted and refetched; otherwise fetch.
pub fn precheck_destination(exists: bool, size: u64) -> (r: Precheck)
    ensures
        r == (if exists && size > 0 {
            Precheck::SkipExisting
        } else if exists {
            Precheck::DeleteThenFetch
        } else {
            Precheck::Fetch
        }),
{
    if exists {
        if size > 0 {
            Precheck::SkipExisting
        } else {
            Precheck::DeleteThenFetch
        }
    } else {
        Precheck::Fetch
    }
}

/// A finished transfer is complete when the server declared no content
/// length, or the bytes written match the declared length; an
/// incomplete transfer's file is deleted and the fetch reports failure.
pub fn transfer_complete(written: u64, declared: &Option<u64>) -> (r: bool)
    ensures
        r == (*declared is None || *declared == Some(written)),
{
    match declared {
        None => true,
        Some(expected) => *expected == written,
    }
}

/// The filename prefix: the configured template with the author and
/// identifier tokens substituted, spaces collapsed to underscores.
pub open spec fn spec_file_prefix(
    template: Seq<char>,
    username: Seq<char>,
    id: Seq<char>,
) -> Seq<char> {
    replaced(replaced(replaced(template, "{USERNAME}"@, username), "{ID}"@, id), " "@, "_"@)
}

pub fn format_file_prefix(template: &str, username: &str, id: &str) -> (r: String)
    ensures
        r@ == spec_file_prefix(template@, username@, id@),
{
    proof {
        reveal_strlit("{USERNAME}");
        reveal_strlit("{ID}");
        reveal_strlit(" ");
    }
    let a = replace_str(template, "{USERNAME}", username);
    let b = replace_str(a.as_str(), "{ID}", id);
    replace_str(b.as_str(), " ", "_")
}

/// Names what `url::Url::parse` followed by `Url::path_segments` ends
/// in: the outer level is whether the text parses as an absolute URL at
/// all, the inner the last path segment where the URL has a segmented
/// path.
pub uninterp spec fn url_last_segment(s: Seq<char>) -> Option<Option<Seq<char>>>;

/// Relies on `url::Url::parse` and `Url::path_segments`: both depend on
/// the text alone.
#[verifier::external_body]
fn parse_url_segment(url: &str) -> (r: Option<Option<String>>)
    ensures
        r.deep_view() == url_last_segment(url@),
{
    match url::Url::parse(url) {
        Ok(u) => match u.path_segments() {
            Some(segments) => match segments.last() {
                Some(s) => Some(Some(s.to_string())),
                None => Some(None),
            },
            None => Some(None),
        },
        Err(_) => None,
    }
}

/// The name component taken from the media URL: its last path segment,
/// or `unknown` where the URL has none; `None` where the text is not a
/// URL at all (a per-item error for the caller).
pub open spec fn basename_of(u: Seq<char>) -> Option<Seq<char>> {
    match url_last_segment(u) {
        Some(Some(s)) => Some(s),
        Some(None) => Some("unknown"@),
        None => None,
    }
}

/// The output filename of one media reference:
/// `{prefix}_{basename from the URL path}`.
pub fn media_filename(prefix: &str, url: &str) -> (r: Option<String>)
    ensures
        match r {
            Some(f) => match basename_of(url@) {
                Some(b) => f@ == prefix@ + "_"@ + b,
                None => false,
            },
            None => basename_of(url@) is None,
        },
{
    let seg: Option<String> = match parse_url_segment(url) {
        Some(inner) => match inner {
            Some(s) => Some(s),
            None => Some("unknown".to_owned()),
        },
        None => {
            return None;
        },
    };
    let base = match seg {
        Some(b) => b,
        None => {
            return None;
        },
    };
    let mut out = prefix.to_owned();
    out.append("_");
    out.append(base.as_str());
    proof {
        reveal_strlit("_");
        assert("_"@ =~= seq!['_']);
        assert(out@ =~= prefix@ + "_"@ + base@);
    }
    Some(out)
}

/// An item succeeds overall when at least one of its media references
/// succeeded; already-present files count as successes.
pub fn item_succeeded(outcomes: &Vec<FetchOutcome>) -> (r: bool)
    ensures
        r == (exists|k: int| 0 <= k < outcomes@.len() && outcomes@[k] is Success),
{
    let n = outcomes.len();
    let mut i: usize = 0;
    while i < n
        invariant
            n == outcomes@.len(),
            i <= n,
            forall|k: int| 0 <= k < i ==> !(outcomes@[k] is Success),
        decreases n - i,
    {
        let hit = match outcomes[i] {
            FetchOutcome::Success => true,
            FetchOutcome::Failed => false,
        };
        if hit {
            proof {
                assert(outcomes@[i as int] is Success);
            }
            return true;
        }
        i += 1;
    }
    false
}

} // verus!
