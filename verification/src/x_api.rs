//! The liked-items timeline: picking content rows and the bottom cursor
//! out of a response page, the cursor-driven traversal and its stopping
//! rules, and the request URL the traversal sends.
use vstd::prelude::*;

use crate::json::Json;
use crate::json::field_equals;
use crate::json::field_str;
use crate::json::spec_get;
use crate::json::spec_get_arr;
use crate::json::spec_get_path;
use crate::json::spec_get_str;
use crate::json::take_field;
use crate::json::take_path;
use crate::text::has_prefix;
use crate::text::int_to_dec;
use crate::text::str_eq;
use crate::text::str_has_prefix;

verus! {

// ---------------------------------------------------------------------
// Picking entries and the cursor out of one response page
// ---------------------------------------------------------------------
pub open spec fn instructions_path() -> Seq<Seq<char>> {
    seq!["data"@, "user"@, "result"@, "timeline_v2"@, "timeline"@, "instructions"@]
}

/// The instruction list of a response page, where the page has one.
pub open spec fn likes_instructions(data: Json) -> Option<Seq<Json>> {
    match spec_get_path(data, instructions_path()) {
        Some(Json::Arr(items)) => Some(items@),
        _ => None,
    }
}

pub open spec fn entry_id(e: Json) -> Option<Seq<char>> {
    spec_get_str(e, "entryId"@)
}

/// A content row: its identifier marker starts with `tweet-`.
pub open spec fn is_tweet_entry(e: Json) -> bool {
    match entry_id(e) {
        Some(id) => has_prefix(id, "tweet-"@),
        None => false,
    }
}

/// A bottom-cursor row: not a content row, and its marker starts with
/// `cursor-bottom-`.
pub open spec fn is_cursor_entry(e: Json) -> bool {
    !is_tweet_entry(e) && match entry_id(e) {
        Some(id) => has_prefix(id, "cursor-bottom-"@),
        None => false,
    }
}

/// What a cursor row carries at `content.value`.
pub open spec fn cursor_value(e: Json) -> Option<Seq<char>> {
    match spec_get(e, "content"@) {
        Some(c) => spec_get_str(c, "value"@),
        None => None,
    }
}

pub open spec fn is_add_entries(ins: Json) -> bool {
    spec_get_str(ins, "type"@) == Some("TimelineAddEntries"@)
}

/// The rows an instruction contributes: its `entries` array, for the
/// add-entries instruction type only.
pub open spec fn instr_entries(ins: Json) -> Seq<Json> {
    if is_add_entries(ins) {
        match spec_get_arr(ins, "entries"@) {
            Some(es) => es,
            None => Seq::empty(),
        }
    } else {
        Seq::empty()
    }
}

pub open spec fn entries_tweets(es: Seq<Json>) -> Seq<Json>
    decreases es.len(),
{
    if es.len() == 0 {
        Seq::empty()
    } else {
        entries_tweets(es.drop_last()) + if is_tweet_entry(es.last()) {
            seq![es.last()]
        } else {
            Seq::<Json>::empty()
        }
    }
}

/// The cursor after walking the rows in order: each cursor row
/// overwrites the accumulator with whatever it carries, even absence.
pub open spec fn entries_cursor(es: Seq<Json>, acc: Option<Seq<char>>) -> Option<Seq<char>>
    decreases es.len(),
{
    if es.len() == 0 {
        acc
    } else {
        entries_cursor(
            es.drop_first(),
            if is_cursor_entry(es[0]) {
                cursor_value(es[0])
            } else {
                acc
            },
        )
    }
}

pub open spec fn instrs_tweets(ins: Seq<Json>) -> Seq<Json>
    decreases ins.len(),
{
    if ins.len() == 0 {
        Seq::empty()
    } else {
        instrs_tweets(ins.drop_last()) + entries_tweets(instr_entries(ins.last()))
    }
}

pub open spec fn instrs_cursor(ins: Seq<Json>, acc: Option<Seq<char>>) -> Option<Seq<char>>
    decreases ins.len(),
{
    if ins.len() == 0 {
        acc
    } else {
        instrs_cursor(ins.drop_first(), entries_cursor(instr_entries(ins[0]), acc))
    }
}

/// All content rows of one page, in order. A malformed page simply
/// contributes no rows.
pub open spec fn page_entries(data: Json) -> Seq<Json> {
    match likes_instructions(data) {
        Some(ins) => instrs_tweets(ins),
        None => Seq::empty(),
    }
}

/// The bottom cursor of one page, if its last cursor row carries one.
pub open spec fn page_cursor(data: Json) -> Option<Seq<char>> {
    match likes_instructions(data) {
        Some(ins) => instrs_cursor(ins, None),
        None => None,
    }
}

/// One parsed response page: its content rows and its bottom cursor.
pub struct Page {
    pub entries: Vec<Json>,
    pub cursor: Option<String>,
}

/// Splits one response document into content rows and the next cursor.
pub fn parse_likes_response(data: Json) -> (p: Page)
    ensures
        p.entries@ == page_entries(data),
        p.cursor.deep_view() == page_cursor(data),
{
    let mut entries: Vec<Json> = Vec::new();
    let mut cursor: Option<String> = None;
    let path: [&str; 6] = ["data", "user", "result", "timeline_v2", "timeline", "instructions"];
    let keys: &[&str] = &path;
    proof {
        assert(keys.deep_view() =~= instructions_path());
    }
    let node = match take_path(data, keys) {
        Some(v) => v,
        None => {
            return Page { entries, cursor };
        },
    };
    let mut ins: Vec<Json> = match node {
        Json::Arr(items) => items,
        _ => {
            return Page { entries, cursor };
        },
    };
    let ghost ins0 = ins@;
    proof {
        assert(likes_instructions(data) == Some(ins0));
        assert(ins0.skip(0) =~= ins0);
        assert(ins0.take(0) =~= Seq::<Json>::empty());
    }
    let ghost mut i: int = 0;
    while ins.len() > 0
        invariant
            0 <= i <= ins0.len(),
            ins@ == ins0.skip(i),
            likes_instructions(data) == Some(ins0),
            entries@ == instrs_tweets(ins0.take(i)),
            instrs_cursor(ins0, None) == instrs_cursor(ins0.skip(i), cursor.deep_view()),
        decreases ins@.len(),
    {
        let instr = ins.remove(0);
        proof {
            assert(instr == ins0.skip(i)[0]);
            assert(instr == ins0[i]);
            assert(ins@ =~= ins0.skip(i + 1));
            assert(ins0.skip(i).drop_first() =~= ins0.skip(i + 1));
            assert(ins0.take(i + 1).drop_last() =~= ins0.take(i));
            assert(ins0.take(i + 1).last() == ins0[i]);
        }
        let tae = field_equals(&instr, "type", "TimelineAddEntries");
        let mut handled = false;
        if tae {
            match take_field(instr, "entries") {
                Some(en) => match en {
                    Json::Arr(mut es) => {
                        handled = true;
                        let ghost es0 = es@;
                        let ghost acc0 = cursor.deep_view();
                        proof {
                            assert(instr_entries(ins0[i]) == es0);
                            assert(es0.skip(0) =~= es0);
                            assert(es0.take(0) =~= Seq::<Json>::empty());
                            assert(entries@ + Seq::<Json>::empty() =~= entries@);
                        }
                        let ghost mut k: int = 0;
                        while es.len() > 0
                            invariant
                                0 <= k <= es0.len(),
                                es@ == es0.skip(k),
                                entries@ == instrs_tweets(ins0.take(i)) + entries_tweets(
                                    es0.take(k),
                                ),
                                entries_cursor(es0, acc0) == entries_cursor(
                                    es0.skip(k),
                                    cursor.deep_view(),
                                ),
                            decreases es@.len(),
                        {
                            let e = es.remove(0);
                            proof {
                                assert(e == es0.skip(k)[0]);
                                assert(e == es0[k]);
                                assert(es@ =~= es0.skip(k + 1));
                                assert(es0.skip(k).drop_first() =~= es0.skip(k + 1));
                                assert(es0.take(k + 1).drop_last() =~= es0.take(k));
                                assert(es0.take(k + 1).last() == es0[k]);
                            }
                            let id_opt = field_str(&e, "entryId");
                            match id_opt {
                                Some(id) => {
                                    if str_has_prefix(id.as_str(), "tweet-") {
                                        entries.push(e);
                                        proof {
                                            assert(entries@ =~= instrs_tweets(ins0.take(i))
                                                + entries_tweets(es0.take(k + 1)));
                                        }
                                    } else {
                                        if str_has_prefix(id.as_str(), "cursor-bottom-") {
                                            let mut cv: Option<String> = None;
                                            match e.get("content") {
                                                Some(c) => {
                                                    cv = field_str(c, "value");
                                                },
                                                None => {},
                                            }
                                            proof {
                                                assert(cv.deep_view() == cursor_value(es0[k]));
                                            }
                                            cursor = cv;
                                        }
                                        proof {
                                            assert(entries@ =~= instrs_tweets(ins0.take(i))
                                                + entries_tweets(es0.take(k + 1)));
                                        }
                                    }
                                },
                                None => {
                                    proof {
                                        assert(entries@ =~= instrs_tweets(ins0.take(i))
                                            + entries_tweets(es0.take(k + 1)));
                                    }
                                },
                            }
                            proof {
                                k = k + 1;
                            }
                        }
                        proof {
                            assert(es0.take(es0.len() as int) =~= es0);
                            assert(es0.skip(es0.len() as int).len() == 0);
                            assert(entries@ == instrs_tweets(ins0.take(i)) + entries_tweets(es0));
                            assert(entries_cursor(es0, acc0) == cursor.deep_view());
                            assert(entries@ =~= instrs_tweets(ins0.take(i + 1)));
                        }
                    },
                    _ => {},
                },
                None => {},
            }
        }
        if !handled {
            proof {
                assert(instr_entries(ins0[i]) =~= Seq::<Json>::empty());
                assert(entries@ + Seq::<Json>::empty() =~= entries@);
                assert(entries@ =~= instrs_tweets(ins0.take(i + 1)));
            }
        }
        proof {
            i = i + 1;
        }
    }
    proof {
        assert(ins0.take(ins0.len() as int) =~= ins0);
        assert(ins0.skip(ins0.len() as int).len() == 0);
    }
    Page { entries, cursor }
}

// ---------------------------------------------------------------------
// The traversal and its stopping rules
// ---------------------------------------------------------------------
/// Whether the traversal, started with `prev` as the cursor it just used,
/// consumes a stopping page within this page list, and after how many
/// pages: stop after the first page when not in fetch-all mode, when a
/// page yields no cursor, or when it repeats the cursor just used.
pub open spec fn spec_visited(pages: Seq<Page>, all: bool, prev: Option<Seq<char>>) -> Option<
    int,
>
    decreases pages.len(),
{
    if pages.len() == 0 {
        None
    } else {
        let cur = pages[0].cursor.deep_view();
        if !all || cur is None || cur == prev {
            Some(1)
        } else {
            match spec_visited(pages.drop_first(), all, cur) {
                Some(n) => Some(1 + n),
                None => None,
            }
        }
    }
}

pub open spec fn concat_entries(pages: Seq<Page>) -> Seq<Json>
    decreases pages.len(),
{
    if pages.len() == 0 {
        Seq::empty()
    } else {
        concat_entries(pages.drop_last()) + pages.last().entries@
    }
}

/// The traversal over a page list: the pages stand for the responses the
/// timeline endpoint would give, in order. Consumes pages until a
/// stopping rule fires and returns exactly the concatenation of the
/// visited pages' rows, in visitation order; `None` means the list ran
/// out before any stopping rule fired.
pub fn fetch_all_from_pages(pages: Vec<Page>, all: bool) -> (r: Option<Vec<Json>>)
    ensures
        match r {
            Some(v) => match spec_visited(pages@, all, None) {
                Some(n) => v@ == concat_entries(pages@.take(n)),
                None => false,
            },
            None => spec_visited(pages@, all, None) is None,
        },
        !all && pages@.len() > 0 ==> r is Some && spec_visited(pages@, all, None) == Some(1int),
{
    let ghost pages0 = pages@;
    let mut rest = pages;
    let mut out: Vec<Json> = Vec::new();
    let mut prev: Option<String> = None;
    let ghost mut k: int = 0;
    proof {
        assert(pages0.skip(0) =~= pages0);
        assert(pages0.take(0) =~= Seq::<Page>::empty());
    }
    while rest.len() > 0
        invariant
            pages@ == pages0,
            0 <= k <= pages0.len(),
            rest@ == pages0.skip(k),
            out@ == concat_entries(pages0.take(k)),
            !all ==> k == 0,
            match spec_visited(pages0.skip(k), all, prev.deep_view()) {
                Some(m) => spec_visited(pages0, all, None) == Some(k + m),
                None => spec_visited(pages0, all, None) is None,
            },
        decreases rest@.len(),
    {
        let page = rest.remove(0);
        proof {
            assert(page == pages0.skip(k)[0]);
            assert(page == pages0[k]);
            assert(rest@ =~= pages0.skip(k + 1));
            assert(pages0.skip(k).drop_first() =~= pages0.skip(k + 1));
            assert(pages0.take(k + 1).drop_last() =~= pages0.take(k));
            assert(pages0.take(k + 1).last() == pages0[k]);
        }
        let Page { entries: mut es, cursor: pcur } = page;
        out.append(&mut es);
        proof {
            assert(out@ =~= concat_entries(pages0.take(k + 1)));
        }
        let stop: bool = if !all {
            true
        } else {
            match &pcur {
                None => true,
                Some(c) => match &prev {
                    None => false,
                    Some(p) => str_eq(c.as_str(), p.as_str()),
                },
            }
        };
        if stop {
            proof {
                assert(spec_visited(pages0.skip(k), all, prev.deep_view()) == Some(1int));
            }
            return Some(out);
        }
        prev = pcur;
        proof {
            k = k + 1;
        }
    }
    proof {
        assert(pages0.skip(k).len() == 0);
    }
    None
}

/// What the traversal does after a live page: stop, or continue with the
/// page's cursor. Stop when not in fetch-all mode, when the page yields
/// no cursor, or when the cursor repeats the one just used.
pub enum PageStep {
    Stop,
    Continue(String),
}

// ---------------------------------------------------------------------
// The request the traversal sends
// ---------------------------------------------------------------------
pub open spec fn hex_char(d: int) -> char {
    if d < 10 {
        crate::text::digit_char(d)
    } else if d == 10 {
        'a'
    } else if d == 11 {
        'b'
    } else if d == 12 {
        'c'
    } else if d == 13 {
        'd'
    } else if d == 14 {
        'e'
    } else {
        'f'
    }
}

/// How one character is written inside a JSON string literal: the two
/// quote and backslash escapes, the five short control escapes, the
/// `\u00..` form for the other control characters, everything else as is.
pub open spec fn esc_char(c: char) -> Seq<char> {
    if c == '"' {
        seq!['\\', '"']
    } else if c == '\\' {
        seq!['\\', '\\']
    } else if c as u32 == 8 {
        seq!['\\', 'b']
    } else if c as u32 == 9 {
        seq!['\\', 't']
    } else if c as u32 == 10 {
        seq!['\\', 'n']
    } else if c as u32 == 12 {
        seq!['\\', 'f']
    } else if c as u32 == 13 {
        seq!['\\', 'r']
    } else if (c as u32) < 32 {
        seq!['\\', 'u', '0', '0', hex_char(((c as u32) as int) / 16), hex_char(((c as u32) as int) % 16)]
    } else {
        seq![c]
    }
}

pub open spec fn json_escaped(s: Seq<char>) -> Seq<char>
    decreases s.len(),
{
    if s.len() == 0 {
        Seq::empty()
    } else {
        json_escaped(s.drop_last()) + esc_char(s.last())
    }
}

fn hex_str(d: u32) -> (r: &'static str)
    requires
        d < 16,
    ensures
        r@ == seq![hex_char(d as int)],
{
    if d < 10 {
        let r = crate::text::digit_str(d as u64);
        proof {
            assert(hex_char(d as int) == crate::text::digit_char(d as int));
        }
        r
    } else if d == 10 {
        proof {
            reveal_strlit("a");
            assert("a"@ =~= seq![hex_char(10)]);
        }
        "a"
    } else if d == 11 {
        proof {
            reveal_strlit("b");
            assert("b"@ =~= seq![hex_char(11)]);
        }
        "b"
    } else if d == 12 {
        proof {
            reveal_strlit("c");
            assert("c"@ =~= seq![hex_char(12)]);
        }
        "c"
    } else if d == 13 {
        proof {
            reveal_strlit("d");
            assert("d"@ =~= seq![hex_char(13)]);
        }
        "d"
    } else if d == 14 {
        proof {
            reveal_strlit("e");
            assert("e"@ =~= seq![hex_char(14)]);
        }
        "e"
    } else {
        proof {
            reveal_strlit("f");
            assert("f"@ =~= seq![hex_char(15)]);
        }
        "f"
    }
}

/// Writes `s` as the inside of a JSON string literal.
pub fn escape_json(s: &str) -> (r: String)
    ensures
        r@ == json_escaped(s@),
{
    let slen: usize = s.unicode_len();
    let mut out = String::new();
    let mut i: usize = 0;
    proof {
        assert(s@.take(0) =~= Seq::<char>::empty());
    }
    while i < slen
        invariant
            slen == s@.len(),
            i <= slen,
            out@ == json_escaped(s@.take(i as int)),
        decreases slen - i,
    {
        let c = s.get_char(i);
        let u = c as u32;
        proof {
            assert(s@.take(i + 1).drop_last() =~= s@.take(i as int));
            assert(s@.take(i + 1).last() == s@[i as int]);
        }
        if c == '"' {
            out.append("\\\"");
            proof {
                reveal_strlit("\\\"");
                assert("\\\""@ =~= seq!['\\', '"']);
            }
        } else if c == '\\' {
            out.append("\\\\");
            proof {
                reveal_strlit("\\\\");
                assert("\\\\"@ =~= seq!['\\', '\\']);
            }
        } else if u == 8 {
            out.append("\\b");
            proof {
                reveal_strlit("\\b");
                assert("\\b"@ =~= seq!['\\', 'b']);
            }
        } else if u == 9 {
            out.append("\\t");
            proof {
                reveal_strlit("\\t");
                assert("\\t"@ =~= seq!['\\', 't']);
            }
        } else if u == 10 {
            out.append("\\n");
            proof {
                reveal_strlit("\\n");
                assert("\\n"@ =~= seq!['\\', 'n']);
            }
        } else if u == 12 {
            out.append("\\f");
            proof {
                reveal_strlit("\\f");
                assert("\\f"@ =~= seq!['\\', 'f']);
            }
        } else if u == 13 {
            out.append("\\r");
            proof {
                reveal_strlit("\\r");
                assert("\\r"@ =~= seq!['\\', 'r']);
            }
        } else if u < 32 {
            out.append("\\u00");
            out.append(hex_str(u / 16));
            out.append(hex_str(u % 16));
            proof {
                reveal_strlit("\\u00");
                assert("\\u00"@ =~= seq!['\\', 'u', '0', '0']);
            }
        } else {
            let piece = s.substring_char(i, i + 1);
            out.append(piece);
            proof {
                assert(piece@ =~= seq![s@[i as int]]);
            }
        }
        proof {
            assert(out@ =~= json_escaped(s@.take(i + 1)));
        }
        i += 1;
    }
    proof {
        assert(s@.take(slen as int) =~= s@);
    }
    out
}

/// The `variables` object of the likes request, exactly as it is sent:
/// fixed flags, the subject and the page size, and the cursor when one
/// is carried, with the keys in sorted order.
pub open spec fn spec_variables_json(
    user_id: Seq<char>,
    count: int,
    cursor: Option<Seq<char>>,
) -> Seq<char> {
    "{\"count\":"@ + int_to_dec(count) + (match cursor {
        Some(c) => ",\"cursor\":\""@ + json_escaped(c) + "\""@,
        None => Seq::<char>::empty(),
    }) + ",\"includePromotedContent\":false,\"userId\":\""@ + json_escaped(user_id)
        + "\",\"withBirdwatchNotes\":false,\"withClientEventToken\":false,\"withV2Timeline\":true,\"withVoice\":true}"@
}

pub fn build_variables_json(user_id: &str, count: i32, cursor: &Option<String>) -> (r: String)
    ensures
        r@ == spec_variables_json(user_id@, count as int, cursor.deep_view()),
{
    let mut out = "{\"count\":".to_owned();
    let countstr = crate::text::i32_to_dec(count);
    out.append(countstr.as_str());
    match cursor {
        Some(c) => {
            out.append(",\"cursor\":\"");
            let esc = escape_json(c.as_str());
            out.append(esc.as_str());
            out.append("\"");
        },
        None => {},
    }
    out.append(",\"includePromotedContent\":false,\"userId\":\"");
    let uid = escape_json(user_id);
    out.append(uid.as_str());
    out.append(
        "\",\"withBirdwatchNotes\":false,\"withClientEventToken\":false,\"withV2Timeline\":true,\"withVoice\":true}",
    );
    proof {
        assert(out@ =~= spec_variables_json(user_id@, count as int, cursor.deep_view()));
    }
    out
}

/// Names what `urlencoding::encode` returns.
pub uninterp spec fn percent_encoded(s: Seq<char>) -> Seq<char>;

/// Relies on `urlencoding::encode`: percent-encodes every byte outside
/// alphanumerics and `-`, `_`, `.`, `~`; depends on the input alone, and
/// an empty string stays empty.
#[verifier::external_body]
fn urlencode(s: &str) -> (r: String)
    ensures
        r@ == percent_encoded(s@),
        s@.len() == 0 ==> r@.len() == 0,
{
    urlencoding::encode(s).into_owned()
}

/// The full request URL of one timeline page: the endpoint with the
/// URL-encoded `variables`, `features` and `fieldToggles` parameters.
pub fn build_likes_url(
    api_url: &str,
    variables_json: &str,
    features: &str,
    fieldtoggles: &str,
) -> (r: String)
    ensures
        r@ == api_url@ + "?variables="@ + percent_encoded(variables_json@) + "&features="@
            + percent_encoded(features@) + "&fieldToggles="@ + percent_encoded(fieldtoggles@),
{
    let mut out = api_url.to_owned();
    out.append("?variables=");
    let v = urlencode(variables_json);
    out.append(v.as_str());
    out.append("&features=");
    let f = urlencode(features);
    out.append(f.as_str());
    out.append("&fieldToggles=");
    let t = urlencode(fieldtoggles);
    out.append(t.as_str());
    proof {
        assert(out@ =~= api_url@ + "?variables="@ + percent_encoded(variables_json@)
            + "&features="@ + percent_encoded(features@) + "&fieldToggles="@ + percent_encoded(
            fieldtoggles@,
        ));
    }
    out
}

pub fn next_page_action(all: bool, prev: &Option<String>, cur: &Option<String>) -> (r: PageStep)
    ensures
        match r {
            PageStep::Stop => !all || cur.deep_view() is None || cur.deep_view()
                == prev.deep_view(),
            PageStep::Continue(c) => all && cur.deep_view() == Some(c@) && cur.deep_view()
                != prev.deep_view(),
        },
{
    if !all {
        return PageStep::Stop;
    }
    match cur {
        None => PageStep::Stop,
        Some(c) => {
            let same: bool = match prev {
                None => false,
                Some(p) => str_eq(c.as_str(), p.as_str()),
            };
            if same {
                PageStep::Stop
            } else {
                PageStep::Continue(c.clone())
            }
        },
    }
}

} // verus!
