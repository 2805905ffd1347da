//! Credential bootstrap: pulls the bearer token, cookie string and
//! client headers out of a captured request command, reads the needed
//! cookies, and lays the private token file's text out.
use vstd::prelude::*;

use crate::text::contains_char;
use crate::text::find_char;
use crate::text::first_index_of;
use crate::text::has_prefix;
use crate::text::lemma_first_index_of;
use crate::text::lower_of;
use crate::text::lowercase;
use crate::text::split_str;
use crate::text::split_on;
use crate::text::str_eq;
use crate::text::str_has_prefix;
use crate::text::strip_quotes;
use crate::text::strip_quotes_spec;
use crate::text::trim_str;
use crate::text::trimmed;

verus! {

/// Arguments of the bootstrap step: where the captured command sits.
pub struct SetupArgs {
    pub curl_file: String,
}

/// Why the bootstrap failed.
#[derive(Debug)]
pub enum SetupError {
    /// One of the fixed patterns does not compile.
    Pattern,
    /// The command carries no cookie argument.
    NoCookie,
    /// No authorization header with a bearer token was found.
    NoBearer,
    /// A required cookie is missing; carries its name.
    MissingCookie(String),
}

/// Names what `regex::Regex::new` returns: whether the pattern compiles.
pub uninterp spec fn regex_valid(pat: Seq<char>) -> bool;

/// Names what `Regex::captures_iter` yields over a text: the first
/// capture group of each match, in match order.
pub uninterp spec fn regex_group_matches(pat: Seq<char>, text: Seq<char>) -> Seq<Seq<char>>;

/// Relies on `regex::Regex::new` and `Regex::captures_iter`: whether the
/// pattern compiles depends on the pattern alone, and the matches on
/// pattern and text alone.
#[verifier::external_body]
fn regex_first_groups(pattern: &str, text: &str) -> (r: Option<Vec<String>>)
    ensures
        match r {
            Some(gs) => regex_valid(pattern@) && gs.deep_view() == regex_group_matches(
                pattern@,
                text@,
            ),
            None => !regex_valid(pattern@),
        },
{
    match regex::Regex::new(pattern) {
        Ok(re) => Some(
            re.captures_iter(text).filter_map(|c| c.get(1)).map(
                |m| m.as_str().to_string(),
            ).collect(),
        ),
        Err(_) => None,
    }
}

pub open spec fn header_pat() -> Seq<char> {
    r"-H\s+'([^']+)'"@
}

pub open spec fn cookie_pat() -> Seq<char> {
    r"-b\s+'([^']+)'"@
}

pub open spec fn bearer_pat() -> Seq<char> {
    r"Bearer\s+(\S+)"@
}

/// The quoted header arguments of the command, in order.
pub open spec fn headers_of(cmd: Seq<char>) -> Seq<Seq<char>> {
    regex_group_matches(header_pat(), cmd)
}

/// The first quoted cookie argument of the command.
pub open spec fn cookie_of(cmd: Seq<char>) -> Option<Seq<char>> {
    let gs = regex_group_matches(cookie_pat(), cmd);
    if gs.len() > 0 {
        Some(gs[0])
    } else {
        None
    }
}

/// The bearer token inside one header, where the pattern finds one.
pub open spec fn bearer_cap(h: Seq<char>) -> Option<Seq<char>> {
    let gs = regex_group_matches(bearer_pat(), h);
    if gs.len() > 0 {
        Some(gs[0])
    } else {
        None
    }
}

pub open spec fn is_auth_header(h: Seq<char>) -> bool {
    has_prefix(lower_of(h), "authorization:"@)
}

pub open spec fn is_ua_header(h: Seq<char>) -> bool {
    has_prefix(lower_of(h), "user-agent:"@)
}

pub open spec fn is_uuid_header(h: Seq<char>) -> bool {
    has_prefix(lower_of(h), "x-client-uuid:"@)
}

pub open spec fn is_txid_header(h: Seq<char>) -> bool {
    has_prefix(lower_of(h), "x-client-transaction-id:"@)
}

/// What stands after the first colon of a header, trimmed.
pub open spec fn header_value(h: Seq<char>) -> Seq<char> {
    trimmed(h.skip(first_index_of(h, ':') + 1))
}

/// The token of the last authorization header on which the bearer
/// pattern finds one.
pub open spec fn fold_bearer(hs: Seq<Seq<char>>) -> Option<Seq<char>>
    decreases hs.len(),
{
    if hs.len() == 0 {
        None
    } else if is_auth_header(hs.last()) && bearer_cap(hs.last()) is Some {
        bearer_cap(hs.last())
    } else {
        fold_bearer(hs.drop_last())
    }
}

/// The value of the last header with this role; authorization headers
/// are claimed by the bearer rule first, and a header without a colon
/// assigns nothing.
pub open spec fn fold_header(hs: Seq<Seq<char>>, is_role: spec_fn(Seq<char>) -> bool) -> Option<
    Seq<char>,
>
    decreases hs.len(),
{
    if hs.len() == 0 {
        None
    } else if !is_auth_header(hs.last()) && is_role(hs.last()) && contains_char(hs.last(), ':') {
        Some(header_value(hs.last()))
    } else {
        fold_header(hs.drop_last(), is_role)
    }
}

pub open spec fn fold_ua(hs: Seq<Seq<char>>) -> Option<Seq<char>> {
    fold_header(hs, |h: Seq<char>| is_ua_header(h))
}

pub open spec fn fold_uuid(hs: Seq<Seq<char>>) -> Option<Seq<char>> {
    fold_header(hs, |h: Seq<char>| !is_ua_header(h) && is_uuid_header(h))
}

pub open spec fn fold_txid(hs: Seq<Seq<char>>) -> Option<Seq<char>> {
    fold_header(hs, |h: Seq<char>| !is_ua_header(h) && !is_uuid_header(h) && is_txid_header(h))
}

/// What the captured command parses to.
pub struct ParsedCurl {
    pub bearer_token: String,
    pub cookie_str: String,
    pub user_agent: Option<String>,
    pub x_client_uuid: Option<String>,
    pub x_client_transaction_id: Option<String>,
}

pub open spec fn curl_patterns_valid() -> bool {
    regex_valid(header_pat()) && regex_valid(cookie_pat()) && regex_valid(bearer_pat())
}

/// Reads the value after the first colon, trimmed; assigns nothing when
/// the header carries no colon.
fn header_value_exec(h: &str) -> (r: Option<String>)
    ensures
        contains_char(h@, ':') ==> r.deep_view() == Some(header_value(h@)),
        !contains_char(h@, ':') ==> r is None,
{
    let hlen: usize = h.unicode_len();
    let ci = find_char(h, ':');
    proof {
        lemma_first_index_of(h@, ':');
    }
    if ci < hlen {
        let tail = h.substring_char(ci + 1, hlen);
        proof {
            assert(tail@ =~= h@.skip(first_index_of(h@, ':') + 1));
        }
        Some(trim_str(tail))
    } else {
        None
    }
}

/// Parses the captured command: every quoted header, the cookie
/// argument, and the bearer token of the authorization header.
pub fn parse_curl_command(cmd: &str) -> (r: Result<ParsedCurl, SetupError>)
    ensures
        r is Ok <==> curl_patterns_valid() && cookie_of(cmd@) is Some && fold_bearer(
            headers_of(cmd@),
        ) is Some,
        match r {
            Ok(p) => Some(p.bearer_token@) == fold_bearer(headers_of(cmd@)) && Some(
                p.cookie_str@,
            ) == cookie_of(cmd@) && p.user_agent.deep_view() == fold_ua(headers_of(cmd@))
                && p.x_client_uuid.deep_view() == fold_uuid(headers_of(cmd@))
                && p.x_client_transaction_id.deep_view() == fold_txid(headers_of(cmd@)),
            Err(e) => match e {
                SetupError::Pattern => !curl_patterns_valid(),
                SetupError::NoCookie => curl_patterns_valid() && cookie_of(cmd@) is None,
                SetupError::NoBearer => curl_patterns_valid() && cookie_of(cmd@) is Some
                    && fold_bearer(headers_of(cmd@)) is None,
                _ => false,
            },
        },
{
    let hs = match regex_first_groups(r"-H\s+'([^']+)'", cmd) {
        Some(v) => v,
        None => {
            return Err(SetupError::Pattern);
        },
    };
    let cookie_caps = match regex_first_groups(r"-b\s+'([^']+)'", cmd) {
        Some(v) => v,
        None => {
            return Err(SetupError::Pattern);
        },
    };
    match regex_first_groups(r"Bearer\s+(\S+)", "") {
        Some(_) => {},
        None => {
            return Err(SetupError::Pattern);
        },
    };
    let ghost hv = hs.deep_view();
    proof {
        assert(hv == headers_of(cmd@));
        assert(hv.take(0) =~= Seq::<Seq<char>>::empty());
    }
    let mut bearer: Option<String> = None;
    let mut user_agent: Option<String> = None;
    let mut x_client_uuid: Option<String> = None;
    let mut x_client_transaction_id: Option<String> = None;
    let n = hs.len();
    let mut i: usize = 0;
    while i < n
        invariant
            n == hs@.len(),
            hv == hs.deep_view(),
            curl_patterns_valid(),
            i <= n,
            bearer.deep_view() == fold_bearer(hv.take(i as int)),
            user_agent.deep_view() == fold_ua(hv.take(i as int)),
            x_client_uuid.deep_view() == fold_uuid(hv.take(i as int)),
            x_client_transaction_id.deep_view() == fold_txid(hv.take(i as int)),
        decreases n - i,
    {
        let h: &str = hs[i].as_str();
        proof {
            assert(hv[i as int] == hs@[i as int]@);
            assert(hv.take(i + 1).drop_last() =~= hv.take(i as int));
            assert(hv.take(i + 1).last() == hv[i as int]);
        }
        let hl = lowercase(h);
        if str_has_prefix(hl.as_str(), "authorization:") {
            match regex_first_groups(r"Bearer\s+(\S+)", h) {
                Some(gs) => {
                    if gs.len() > 0 {
                        proof {
                            assert(gs.deep_view()[0] == gs@[0]@);
                        }
                        bearer = Some(gs[0].clone());
                    }
                },
                None => {
                    proof {
                        assert(false);
                    }
                },
            }
        } else if str_has_prefix(hl.as_str(), "user-agent:") {
            match header_value_exec(h) {
                Some(v) => {
                    user_agent = Some(v);
                },
                None => {},
            }
        } else if str_has_prefix(hl.as_str(), "x-client-uuid:") {
            match header_value_exec(h) {
                Some(v) => {
                    x_client_uuid = Some(v);
                },
                None => {},
            }
        } else if str_has_prefix(hl.as_str(), "x-client-transaction-id:") {
            match header_value_exec(h) {
                Some(v) => {
                    x_client_transaction_id = Some(v);
                },
                None => {},
            }
        }
        i += 1;
    }
    proof {
        assert(hv.take(n as int) =~= hv);
    }
    if cookie_caps.len() == 0 {
        return Err(SetupError::NoCookie);
    }
    proof {
        assert(cookie_caps.deep_view()[0] == cookie_caps@[0]@);
    }
    let cookie_str = cookie_caps[0].clone();
    let bearer_token = match bearer {
        Some(b) => b,
        None => {
            return Err(SetupError::NoBearer);
        },
    };
    Ok(
        ParsedCurl {
            bearer_token,
            cookie_str,
            user_agent,
            x_client_uuid,
            x_client_transaction_id,
        },
    )
}

// ---------------------------------------------------------------------
// Cookies
// ---------------------------------------------------------------------
/// The trimmed name before the first `=` of one cookie part.
pub open spec fn cookie_key(part: Seq<char>) -> Seq<char> {
    trimmed(part.take(first_index_of(part, '=')))
}

/// The value after the first `=`: trimmed, then stripped of quotes.
pub open spec fn cookie_val(part: Seq<char>) -> Seq<char> {
    strip_quotes_spec(trimmed(part.skip(first_index_of(part, '=') + 1)))
}

/// The value of the last `;`-separated part naming this cookie; parts
/// without an `=` carry nothing.
pub open spec fn cookie_lookup_parts(parts: Seq<Seq<char>>, key: Seq<char>) -> Option<Seq<char>>
    decreases parts.len(),
{
    if parts.len() == 0 {
        None
    } else if contains_char(parts.last(), '=') && cookie_key(parts.last()) == key {
        Some(cookie_val(parts.last()))
    } else {
        cookie_lookup_parts(parts.drop_last(), key)
    }
}

pub open spec fn cookie_lookup(s: Seq<char>, key: Seq<char>) -> Option<Seq<char>> {
    cookie_lookup_parts(split_on(s, ';'), key)
}

/// The subject identifier as the `twid` cookie carries it: a plain or a
/// percent-encoded `u=` prefix is stripped.
pub open spec fn twid_of(v: Seq<char>) -> Seq<char> {
    let a = if has_prefix(v, "u="@) {
        v.skip(2)
    } else {
        v
    };
    if has_prefix(a, "u%3D"@) {
        a.skip(4)
    } else {
        a
    }
}

fn cookie_lookup_exec(parts: &Vec<String>, key: &str) -> (r: Option<String>)
    ensures
        r.deep_view() == cookie_lookup_parts(parts.deep_view(), key@),
{
    let ghost pv = parts.deep_view();
    let n = parts.len();
    let mut j: usize = n;
    proof {
        assert(pv.take(n as int) =~= pv);
    }
    while j > 0
        invariant
            n == parts@.len(),
            pv == parts.deep_view(),
            j <= n,
            cookie_lookup_parts(pv, key@) == cookie_lookup_parts(pv.take(j as int), key@),
        decreases j,
    {
        let part: &str = parts[j - 1].as_str();
        proof {
            assert(pv[j - 1] == parts@[j - 1]@);
            assert(pv.take(j as int).drop_last() =~= pv.take(j - 1));
            assert(pv.take(j as int).last() == pv[j - 1]);
        }
        let plen: usize = part.unicode_len();
        let ci = find_char(part, '=');
        proof {
            lemma_first_index_of(part@, '=');
        }
        if ci < plen {
            let k = trim_str(part.substring_char(0, ci));
            proof {
                assert(part@.subrange(0, ci as int) =~= part@.take(first_index_of(part@, '=')));
            }
            if str_eq(k.as_str(), key) {
                let rawv = part.substring_char(ci + 1, plen);
                proof {
                    assert(rawv@ =~= part@.skip(first_index_of(part@, '=') + 1));
                }
                let v = strip_quotes(trim_str(rawv).as_str());
                return Some(v);
            }
        }
        j -= 1;
    }
    proof {
        assert(pv.take(0) =~= Seq::<Seq<char>>::empty());
    }
    None
}

/// The cookies the bootstrap needs.
pub struct ParsedCookies {
    pub twid: String,
    pub auth_token: String,
    pub ct0: String,
    pub personalization_id: String,
}

/// Reads the four required cookies out of the cookie string; the first
/// missing one, in the required order, is the error.
pub fn parse_cookies(cookie_str: &str) -> (r: Result<ParsedCookies, SetupError>)
    ensures
        r is Ok <==> cookie_lookup(cookie_str@, "twid"@) is Some && cookie_lookup(
            cookie_str@,
            "auth_token"@,
        ) is Some && cookie_lookup(cookie_str@, "ct0"@) is Some && cookie_lookup(
            cookie_str@,
            "personalization_id"@,
        ) is Some,
        match r {
            Ok(c) => match (
                cookie_lookup(cookie_str@, "twid"@),
                cookie_lookup(cookie_str@, "auth_token"@),
                cookie_lookup(cookie_str@, "ct0"@),
                cookie_lookup(cookie_str@, "personalization_id"@),
            ) {
                (Some(tw), Some(at), Some(c0), Some(pi)) => c.twid@ == twid_of(tw)
                    && c.auth_token@ == at && c.ct0@ == c0 && c.personalization_id@ == pi,
                _ => false,
            },
            Err(e) => match e {
                SetupError::MissingCookie(k) => (k@ == "twid"@ && cookie_lookup(
                    cookie_str@,
                    "twid"@,
                ) is None) || (k@ == "auth_token"@ && cookie_lookup(cookie_str@, "twid"@) is Some
                    && cookie_lookup(cookie_str@, "auth_token"@) is None) || (k@ == "ct0"@
                    && cookie_lookup(cookie_str@, "twid"@) is Some && cookie_lookup(
                    cookie_str@,
                    "auth_token"@,
                ) is Some && cookie_lookup(cookie_str@, "ct0"@) is None) || (k@
                    == "personalization_id"@ && cookie_lookup(cookie_str@, "twid"@) is Some
                    && cookie_lookup(cookie_str@, "auth_token"@) is Some && cookie_lookup(
                    cookie_str@,
                    "ct0"@,
                ) is Some && cookie_lookup(cookie_str@, "personalization_id"@) is None),
                _ => false,
            },
        },
{
    let parts = split_str(cookie_str, ';');
    let twid_raw = match cookie_lookup_exec(&parts, "twid") {
        Some(v) => v,
        None => {
            return Err(SetupError::MissingCookie("twid".to_owned()));
        },
    };
    let auth_token = match cookie_lookup_exec(&parts, "auth_token") {
        Some(v) => v,
        None => {
            return Err(SetupError::MissingCookie("auth_token".to_owned()));
        },
    };
    let ct0 = match cookie_lookup_exec(&parts, "ct0") {
        Some(v) => v,
        None => {
            return Err(SetupError::MissingCookie("ct0".to_owned()));
        },
    };
    let personalization_id = match cookie_lookup_exec(&parts, "personalization_id") {
        Some(v) => v,
        None => {
            return Err(SetupError::MissingCookie("personalization_id".to_owned()));
        },
    };
    proof {
        reveal_strlit("u=");
        reveal_strlit("u%3D");
    }
    let step1 = if str_has_prefix(twid_raw.as_str(), "u=") {
        let l: usize = twid_raw.as_str().unicode_len();
        twid_raw.as_str().substring_char(2, l).to_owned()
    } else {
        twid_raw
    };
    let twid = if str_has_prefix(step1.as_str(), "u%3D") {
        let l: usize = step1.as_str().unicode_len();
        step1.as_str().substring_char(4, l).to_owned()
    } else {
        step1
    };
    Ok(ParsedCookies { twid, auth_token, ct0, personalization_id })
}

/// The private token file's text, one `NAME=value` line per field.
pub open spec fn tokens_content(
    user_id: Seq<char>,
    bearer: Seq<char>,
    auth: Seq<char>,
    ct0: Seq<char>,
    pid: Seq<char>,
    ua: Seq<char>,
    uuid: Seq<char>,
    txid: Seq<char>,
) -> Seq<char> {
    "USER_ID="@ + user_id + "\nBEARER_TOKEN="@ + bearer + "\nAUTH_TOKEN="@ + auth + "\nCT0="@
        + ct0 + "\nPERSONALIZATION_ID="@ + pid + "\nUSER_AGENT="@ + ua + "\nX_CLIENT_UUID="@
        + uuid + "\nX_CLIENT_TRANSACTION_ID="@ + txid + "\n"@
}

pub fn format_private_tokens(
    user_id: &str,
    bearer: &str,
    auth: &str,
    ct0: &str,
    pid: &str,
    ua: &str,
    uuid: &str,
    txid: &str,
) -> (r: String)
    ensures
        r@ == tokens_content(user_id@, bearer@, auth@, ct0@, pid@, ua@, uuid@, txid@),
{
    let mut out = "USER_ID=".to_owned();
    out.append(user_id);
    out.append("\nBEARER_TOKEN=");
    out.append(bearer);
    out.append("\nAUTH_TOKEN=");
    out.append(auth);
    out.append("\nCT0=");
    out.append(ct0);
    out.append("\nPERSONALIZATION_ID=");
    out.append(pid);
    out.append("\nUSER_AGENT=");
    out.append(ua);
    out.append("\nX_CLIENT_UUID=");
    out.append(uuid);
    out.append("\nX_CLIENT_TRANSACTION_ID=");
    out.append(txid);
    out.append("\n");
    proof {
        assert(out@ =~= tokens_content(user_id@, bearer@, auth@, ct0@, pid@, ua@, uuid@, txid@));
    }
    out
}

/// The whole bootstrap on the captured command's text: parse the
/// command, read the cookies, and lay out the token file.
pub fn private_tokens_from_curl(cmd: &str) -> (r: Result<String, SetupError>)
    ensures
        r is Ok <==> (curl_patterns_valid() && cookie_of(cmd@) is Some && fold_bearer(
            headers_of(cmd@),
        ) is Some && (match cookie_of(cmd@) {
            Some(cs) => cookie_lookup(cs, "twid"@) is Some && cookie_lookup(cs, "auth_token"@)
                is Some && cookie_lookup(cs, "ct0"@) is Some && cookie_lookup(
                cs,
                "personalization_id"@,
            ) is Some,
            None => false,
        })),
        match r {
            Ok(content) => match (cookie_of(cmd@), fold_bearer(headers_of(cmd@))) {
                (Some(cs), Some(b)) => match (
                    cookie_lookup(cs, "twid"@),
                    cookie_lookup(cs, "auth_token"@),
                    cookie_lookup(cs, "ct0"@),
                    cookie_lookup(cs, "personalization_id"@),
                ) {
                    (Some(tw), Some(at), Some(c0), Some(pi)) => content@ == tokens_content(
                        twid_of(tw),
                        b,
                        at,
                        c0,
                        pi,
                        match fold_ua(headers_of(cmd@)) {
                            Some(u) => u,
                            None => Seq::empty(),
                        },
                        match fold_uuid(headers_of(cmd@)) {
                            Some(u) => u,
                            None => Seq::empty(),
                        },
                        match fold_txid(headers_of(cmd@)) {
                            Some(u) => u,
                            None => Seq::empty(),
                        },
                    ),
                    _ => false,
                },
                _ => false,
            },
            Err(e) => match e {
                SetupError::Pattern => !curl_patterns_valid(),
                SetupError::NoCookie => curl_patterns_valid() && cookie_of(cmd@) is None,
                SetupError::NoBearer => curl_patterns_valid() && cookie_of(cmd@) is Some
                    && fold_bearer(headers_of(cmd@)) is None,
                SetupError::MissingCookie(k) => curl_patterns_valid() && fold_bearer(
                    headers_of(cmd@),
                ) is Some && match cookie_of(cmd@) {
                    Some(cs) => (k@ == "twid"@ && cookie_lookup(cs, "twid"@) is None) || (k@
                        == "auth_token"@ && cookie_lookup(cs, "twid"@) is Some && cookie_lookup(
                        cs,
                        "auth_token"@,
                    ) is None) || (k@ == "ct0"@ && cookie_lookup(cs, "twid"@) is Some
                        && cookie_lookup(cs, "auth_token"@) is Some && cookie_lookup(
                        cs,
                        "ct0"@,
                    ) is None) || (k@ == "personalization_id"@ && cookie_lookup(cs, "twid"@)
                        is Some && cookie_lookup(cs, "auth_token"@) is Some && cookie_lookup(
                        cs,
                        "ct0"@,
                    ) is Some && cookie_lookup(cs, "personalization_id"@) is None),
                    None => false,
                },
            },
        },
{
    let parsed = match parse_curl_command(cmd) {
        Ok(p) => p,
        Err(e) => {
            return Err(e);
        },
    };
    let cookies = match parse_cookies(parsed.cookie_str.as_str()) {
        Ok(c) => c,
        Err(e) => {
            return Err(e);
        },
    };
    let ua = match &parsed.user_agent {
        Some(u) => u.as_str(),
        None => "",
    };
    let uuid = match &parsed.x_client_uuid {
        Some(u) => u.as_str(),
        None => "",
    };
    let txid = match &parsed.x_client_transaction_id {
        Some(u) => u.as_str(),
        None => "",
    };
    proof {
        reveal_strlit("");
    }
    let content = format_private_tokens(
        cookies.twid.as_str(),
        parsed.bearer_token.as_str(),
        cookies.auth_token.as_str(),
        cookies.ct0.as_str(),
        cookies.personalization_id.as_str(),
        ua,
        uuid,
        txid,
    );
    Ok(content)
}

} // verus!
