//! Pulls the tweet object, its author handle and its media references out
//! of one timeline entry, tolerating the several known nesting shapes.
use vstd::prelude::*;

use crate::json::Json;
use crate::json::spec_get;
use crate::json::spec_get_arr;
use crate::json::spec_get_path;
use crate::json::spec_get_str;
use crate::text::str_eq;

verus! {

pub open spec fn nested_tweet_path() -> Seq<Seq<char>> {
    seq!["content"@, "itemContent"@, "tweet_results"@, "result"@, "tweet"@]
}

/// Tweet-object resolution, in order: the nested `tweet_results` path,
/// then a direct `tweet` field, then the entry itself. The first hit wins.
pub open spec fn spec_tweet_object(entry: Json) -> Json {
    match spec_get_path(entry, nested_tweet_path()) {
        Some(t) => t,
        None => match spec_get(entry, "tweet"@) {
            Some(t) => t,
            None => entry,
        },
    }
}

pub fn extract_tweet_object<'a>(entry: &'a Json) -> (r: &'a Json)
    ensures
        *r == spec_tweet_object(*entry),
{
    let path: [&str; 5] = ["content", "itemContent", "tweet_results", "result", "tweet"];
    let keys: &[&str] = &path;
    proof {
        assert(keys.deep_view() =~= nested_tweet_path());
    }
    match entry.get_path(keys) {
        Some(t) => t,
        None => match entry.get("tweet") {
            Some(t) => t,
            None => entry,
        },
    }
}

pub open spec fn author_path() -> Seq<Seq<char>> {
    seq!["core"@, "user_results"@, "result"@, "legacy"@, "screen_name"@]
}

/// The author handle at the single fixed path; absence is tolerated.
pub open spec fn spec_username(tweet: Json) -> Option<Seq<char>> {
    match spec_get_path(tweet, author_path()) {
        Some(Json::Str(s)) => Some(s@),
        _ => None,
    }
}

pub fn extract_username(tweet: &Json) -> (r: Option<String>)
    ensures
        r.deep_view() == spec_username(*tweet),
{
    let path: [&str; 5] = ["core", "user_results", "result", "legacy", "screen_name"];
    let keys: &[&str] = &path;
    proof {
        assert(keys.deep_view() =~= author_path());
    }
    match tweet.get_path(keys) {
        Some(node) => match node.as_str() {
            Some(s) => Some(s.as_str().to_owned()),
            None => None,
        },
        None => None,
    }
}

pub open spec fn has_bitrate(v: Json) -> bool {
    spec_get(v, "bitrate"@) is Some
}

/// The sort key of a variant: its bitrate where it is an unsigned number,
/// zero where the field holds anything else.
pub open spec fn bitrate_key(v: Json) -> u64 {
    match spec_get(v, "bitrate"@) {
        Some(Json::UInt(n)) => n,
        _ => 0,
    }
}

/// Maximum-bitrate pick among variants that expose a bitrate; variants
/// without one are excluded, and of equally good variants the last wins.
pub open spec fn best_variant(vs: Seq<Json>) -> Option<Json>
    decreases vs.len(),
{
    if vs.len() == 0 {
        None
    } else {
        let prev = best_variant(vs.drop_last());
        let v = vs.last();
        if !has_bitrate(v) {
            prev
        } else {
            match prev {
                None => Some(v),
                Some(p) => if bitrate_key(v) >= bitrate_key(p) {
                    Some(v)
                } else {
                    Some(p)
                },
            }
        }
    }
}

fn best_variant_exec<'a>(vs: &'a Vec<Json>) -> (r: Option<&'a Json>)
    ensures
        match r {
            Some(b) => best_variant(vs@) == Some(*b),
            None => best_variant(vs@) is None,
        },
{
    let n = vs.len();
    let mut cur: Option<&Json> = None;
    let mut cur_key: u64 = 0;
    let mut i: usize = 0;
    proof {
        assert(vs@.take(0) =~= Seq::<Json>::empty());
    }
    while i < n
        invariant
            n == vs@.len(),
            i <= n,
            match cur {
                Some(b) => best_variant(vs@.take(i as int)) == Some(*b) && cur_key == bitrate_key(
                    *b,
                ),
                None => best_variant(vs@.take(i as int)) is None,
            },
        decreases n - i,
    {
        let v = &vs[i];
        proof {
            assert(vs@.take(i + 1).drop_last() =~= vs@.take(i as int));
            assert(vs@.take(i + 1).last() == vs@[i as int]);
        }
        match v.get("bitrate") {
            Some(b) => {
                let key = match b.as_u64() {
                    Some(x) => x,
                    None => 0,
                };
                match cur {
                    None => {
                        cur = Some(v);
                        cur_key = key;
                    },
                    Some(_) => {
                        if key >= cur_key {
                            cur = Some(v);
                            cur_key = key;
                        }
                    },
                }
            },
            None => {},
        }
        i += 1;
    }
    proof {
        assert(vs@.take(n as int) =~= vs@);
    }
    cur
}

/// The URL one media node contributes: `media_url_https` for a photo,
/// the best variant's `url` for a video, nothing for any other type.
pub open spec fn spec_media_url(m: Json) -> Option<Seq<char>> {
    let ty = spec_get_str(m, "type"@);
    if ty == Some("photo"@) {
        spec_get_str(m, "media_url_https"@)
    } else if ty == Some("video"@) {
        match spec_get(m, "video_info"@) {
            Some(vi) => match spec_get_arr(vi, "variants"@) {
                Some(vs) => match best_variant(vs) {
                    Some(b) => spec_get_str(b, "url"@),
                    None => None,
                },
                None => None,
            },
            None => None,
        }
    } else {
        None
    }
}

fn media_url(m: &Json) -> (r: Option<String>)
    ensures
        r.deep_view() == spec_media_url(*m),
{
    let mut is_photo = false;
    let mut is_video = false;
    match m.get("type") {
        Some(t) => match t.as_str() {
            Some(s) => {
                proof {
                    assert(spec_get_str(*m, "type"@) == Some(s@));
                }
                is_photo = str_eq(s.as_str(), "photo");
                is_video = str_eq(s.as_str(), "video");
            },
            None => {
                proof {
                    assert(spec_get_str(*m, "type"@) is None);
                }
            },
        },
        None => {
            proof {
                assert(spec_get_str(*m, "type"@) is None);
            }
        },
    }
    proof {
        assert(is_photo == (spec_get_str(*m, "type"@) == Some("photo"@)));
        assert(is_video == (spec_get_str(*m, "type"@) == Some("video"@)));
    }
    if is_photo {
        match m.get("media_url_https") {
            Some(u) => match u.as_str() {
                Some(s) => Some(s.as_str().to_owned()),
                None => None,
            },
            None => None,
        }
    } else if is_video {
        match m.get("video_info") {
            Some(vi) => match vi.get("variants") {
                Some(vars) => match vars.as_arr() {
                    Some(vs) => match best_variant_exec(vs) {
                        Some(b) => match b.get("url") {
                            Some(u) => match u.as_str() {
                                Some(s) => Some(s.as_str().to_owned()),
                                None => None,
                            },
                            None => None,
                        },
                        None => None,
                    },
                    None => None,
                },
                None => None,
            },
            None => None,
        }
    } else {
        None
    }
}

pub open spec fn collect_media_urls(ms: Seq<Json>) -> Seq<Seq<char>>
    decreases ms.len(),
{
    if ms.len() == 0 {
        Seq::empty()
    } else {
        collect_media_urls(ms.drop_last()) + match spec_media_url(ms.last()) {
            Some(u) => seq![u],
            None => Seq::<Seq<char>>::empty(),
        }
    }
}

pub open spec fn spec_get2_arr(j: Json, k1: Seq<char>, k2: Seq<char>) -> Option<Seq<Json>> {
    match spec_get(j, k1) {
        Some(x) => spec_get_arr(x, k2),
        None => None,
    }
}

/// The media list read from `legacy.extended_entities.media` if present,
/// else `legacy.entities.media`; the first non-absent source wins.
pub open spec fn spec_media_list(tweet: Json) -> Option<Seq<Json>> {
    let legacy = match spec_get(tweet, "legacy"@) {
        Some(l) => l,
        None => Json::Null,
    };
    match spec_get2_arr(legacy, "extended_entities"@, "media"@) {
        Some(a) => Some(a),
        None => spec_get2_arr(legacy, "entities"@, "media"@),
    }
}

/// Every URL the tweet's media list resolves to, in order. An empty
/// result is a legitimate outcome, not an error.
pub open spec fn spec_media_urls(tweet: Json) -> Seq<Seq<char>> {
    match spec_media_list(tweet) {
        Some(ms) => collect_media_urls(ms),
        None => Seq::empty(),
    }
}

pub fn extract_media_urls(tweet: &Json) -> (r: Vec<String>)
    ensures
        r.deep_view() == spec_media_urls(*tweet),
{
    let mut out: Vec<String> = Vec::new();
    let media_arr: Option<&Vec<Json>> = match tweet.get("legacy") {
        Some(legacy) => {
            let ext: Option<&Vec<Json>> = match legacy.get("extended_entities") {
                Some(ee) => match ee.get("media") {
                    Some(mnode) => mnode.as_arr(),
                    None => None,
                },
                None => None,
            };
            match ext {
                Some(a) => Some(a),
                None => match legacy.get("entities") {
                    Some(e) => match e.get("media") {
                        Some(mnode) => mnode.as_arr(),
                        None => None,
                    },
                    None => None,
                },
            }
        },
        None => None,
    };
    match media_arr {
        None => {
            proof {
                assert(out.deep_view() =~~= spec_media_urls(*tweet));
            }
            out
        },
        Some(ms) => {
            let n = ms.len();
            let mut i: usize = 0;
            proof {
                assert(ms@.take(0) =~= Seq::<Json>::empty());
                assert(out.deep_view() =~~= collect_media_urls(ms@.take(0)));
            }
            while i < n
                invariant
                    n == ms@.len(),
                    i <= n,
                    spec_media_list(*tweet) == Some(ms@),
                    out.deep_view() == collect_media_urls(ms@.take(i as int)),
                decreases n - i,
            {
                proof {
                    assert(ms@.take(i + 1).drop_last() =~= ms@.take(i as int));
                    assert(ms@.take(i + 1).last() == ms@[i as int]);
                }
                match media_url(&ms[i]) {
                    Some(u) => {
                        out.push(u);
                    },
                    None => {},
                }
                proof {
                    assert(out.deep_view() =~~= collect_media_urls(ms@.take(i + 1)));
                }
                i += 1;
            }
            proof {
                assert(ms@.take(n as int) =~= ms@);
            }
            out
        },
    }
}

pub open spec fn result_path() -> Seq<Seq<char>> {
    seq!["content"@, "itemContent"@, "tweet_results"@, "result"@]
}

/// The node identifiers are read from: the nested result if that path
/// exists, else the entry itself.
pub open spec fn spec_tweet_data(entry: Json) -> Json {
    match spec_get_path(entry, result_path()) {
        Some(t) => t,
        None => entry,
    }
}

pub fn extract_tweet_data<'a>(entry: &'a Json) -> (r: &'a Json)
    ensures
        *r == spec_tweet_data(*entry),
{
    let path: [&str; 4] = ["content", "itemContent", "tweet_results", "result"];
    let keys: &[&str] = &path;
    proof {
        assert(keys.deep_view() =~= result_path());
    }
    match entry.get_path(keys) {
        Some(t) => t,
        None => entry,
    }
}

/// The item identifier: a top-level `rest_id`, else the nested tweet's
/// `rest_id`; absence means the entry is skipped entirely.
pub open spec fn spec_tweet_id(td: Json) -> Option<Seq<char>> {
    match spec_get_str(td, "rest_id"@) {
        Some(id) => Some(id),
        None => match spec_get(td, "tweet"@) {
            Some(t) => spec_get_str(t, "rest_id"@),
            None => None,
        },
    }
}

pub fn extract_tweet_id(td: &Json) -> (r: Option<String>)
    ensures
        r.deep_view() == spec_tweet_id(*td),
{
    match td.get("rest_id") {
        Some(idnode) => match idnode.as_str() {
            Some(s) => return Some(s.as_str().to_owned()),
            None => {},
        },
        None => {},
    }
    match td.get("tweet") {
        Some(t) => match t.get("rest_id") {
            Some(idnode) => match idnode.as_str() {
                Some(s) => Some(s.as_str().to_owned()),
                None => None,
            },
            None => None,
        },
        None => None,
    }
}

} // verus!
