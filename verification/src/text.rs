//! String helpers proved against `Seq<char>` views: equality, prefix tests,
//! searching, trimming, splitting, joining and replacing, plus decimal
//! number conversions.
use vstd::prelude::*;

verus! {

/// Character-by-character string equality.
pub fn str_eq(a: &str, b: &str) -> (r: bool)
    ensures
        r == (a@ == b@),
{
    let alen: usize = a.unicode_len();
    let blen: usize = b.unicode_len();
    if alen != blen {
        return false;
    }
    let mut i: usize = 0;
    while i < alen
        invariant
            alen == a@.len(),
            blen == b@.len(),
            alen == blen,
            i <= alen,
            forall|k: int| 0 <= k < i ==> a@[k] == b@[k],
        decreases alen - i,
    {
        if a.get_char(i) != b.get_char(i) {
            return false;
        }
        i += 1;
    }
    proof {
        assert(a@ =~= b@);
    }
    true
}

/// `p` is a prefix of `s`.
pub open spec fn has_prefix(s: Seq<char>, p: Seq<char>) -> bool {
    p.len() <= s.len() && s.subrange(0, p.len() as int) == p
}

pub fn str_has_prefix(s: &str, p: &str) -> (r: bool)
    ensures
        r == has_prefix(s@, p@),
{
    let slen: usize = s.unicode_len();
    let plen: usize = p.unicode_len();
    if plen > slen {
        return false;
    }
    let mut i: usize = 0;
    while i < plen
        invariant
            slen == s@.len(),
            plen == p@.len(),
            plen <= slen,
            i <= plen,
            forall|k: int| 0 <= k < i ==> s@[k] == p@[k],
        decreases plen - i,
    {
        if s.get_char(i) != p.get_char(i) {
            proof {
                assert(s@.subrange(0, p@.len() as int)[i as int] == s@[i as int]);
            }
            return false;
        }
        i += 1;
    }
    proof {
        assert(s@.subrange(0, p@.len() as int) =~= p@);
    }
    true
}

/// Index of the first occurrence of `c` in `s`, or `s.len()` if absent.
pub open spec fn first_index_of(s: Seq<char>, c: char) -> int
    decreases s.len(),
{
    if s.len() == 0 {
        0
    } else if s[0] == c {
        0
    } else {
        1 + first_index_of(s.drop_first(), c)
    }
}

pub proof fn lemma_first_index_of(s: Seq<char>, c: char)
    ensures
        0 <= first_index_of(s, c) <= s.len(),
        first_index_of(s, c) < s.len() ==> s[first_index_of(s, c)] == c,
        forall|k: int| 0 <= k < first_index_of(s, c) ==> s[k] != c,
    decreases s.len(),
{
    if s.len() > 0 && s[0] != c {
        lemma_first_index_of(s.drop_first(), c);
        assert forall|k: int| 0 <= k < first_index_of(s, c) implies s[k] != c by {
            if k > 0 {
                assert(s[k] == s.drop_first()[k - 1]);
            }
        }
    }
}

pub proof fn lemma_first_index_at(s: Seq<char>, c: char, i: int)
    requires
        0 <= i <= s.len(),
        forall|k: int| 0 <= k < i ==> s[k] != c,
        i == s.len() || s[i] == c,
    ensures
        first_index_of(s, c) == i,
    decreases i,
{
    if s.len() == 0 {
    } else if i == 0 {
        if s.len() > 0 && s[0] != c {
            lemma_first_index_of(s.drop_first(), c);
        }
    } else {
        assert(s[0] != c);
        lemma_first_index_at(s.drop_first(), c, i - 1);
    }
}

pub open spec fn contains_char(s: Seq<char>, c: char) -> bool {
    first_index_of(s, c) < s.len()
}

/// Finds the first occurrence of `c`, returning `s.len()` when absent.
pub fn find_char(s: &str, c: char) -> (r: usize)
    ensures
        r == first_index_of(s@, c),
{
    let slen: usize = s.unicode_len();
    let mut i: usize = 0;
    while i < slen
        invariant
            slen == s@.len(),
            i <= slen,
            forall|k: int| 0 <= k < i ==> s@[k] != c,
        decreases slen - i,
    {
        if s.get_char(i) == c {
            proof {
                lemma_first_index_at(s@, c, i as int);
            }
            return i;
        }
        i += 1;
    }
    proof {
        lemma_first_index_at(s@, c, slen as int);
    }
    slen
}

pub fn str_contains_char(s: &str, c: char) -> (r: bool)
    ensures
        r == contains_char(s@, c),
{
    let slen: usize = s.unicode_len();
    let i = find_char(s, c);
    proof {
        lemma_first_index_of(s@, c);
    }
    i < slen
}

/// The characters `str::trim` removes: Unicode `White_Space`.
pub open spec fn is_space(c: char) -> bool {
    c == ' ' || c == '\t' || c == '\n' || c == '\r' || (0x0b <= c as u32 && c as u32 <= 0x0c)
        || c as u32 == 0x85 || c as u32 == 0xa0 || c as u32 == 0x1680 || (0x2000 <= c as u32
        && c as u32 <= 0x200a) || c as u32 == 0x2028 || c as u32 == 0x2029 || c as u32 == 0x202f
        || c as u32 == 0x205f || c as u32 == 0x3000
}

pub fn space_char(c: char) -> (r: bool)
    ensures
        r == is_space(c),
{
    let u = c as u32;
    u == 0x20 || u == 0x09 || u == 0x0a || u == 0x0d || (0x0b <= u && u <= 0x0c) || u == 0x85
        || u == 0xa0 || u == 0x1680 || (0x2000 <= u && u <= 0x200a) || u == 0x2028 || u == 0x2029
        || u == 0x202f || u == 0x205f || u == 0x3000
}

pub open spec fn strip_front(s: Seq<char>, c: char) -> Seq<char>
    decreases s.len(),
{
    if s.len() > 0 && s[0] == c {
        strip_front(s.drop_first(), c)
    } else {
        s
    }
}

pub open spec fn strip_back(s: Seq<char>, c: char) -> Seq<char>
    decreases s.len(),
{
    if s.len() > 0 && s.last() == c {
        strip_back(s.drop_last(), c)
    } else {
        s
    }
}

pub open spec fn trim_front(s: Seq<char>) -> Seq<char>
    decreases s.len(),
{
    if s.len() > 0 && is_space(s[0]) {
        trim_front(s.drop_first())
    } else {
        s
    }
}

pub open spec fn trim_back(s: Seq<char>) -> Seq<char>
    decreases s.len(),
{
    if s.len() > 0 && is_space(s.last()) {
        trim_back(s.drop_last())
    } else {
        s
    }
}

/// What `str::trim` leaves.
pub open spec fn trimmed(s: Seq<char>) -> Seq<char> {
    trim_back(trim_front(s))
}

proof fn lemma_trim_front_skip(s: Seq<char>, i: int)
    requires
        0 <= i <= s.len(),
        forall|k: int| 0 <= k < i ==> is_space(s[k]),
        i == s.len() || !is_space(s[i]),
    ensures
        trim_front(s) == s.skip(i),
    decreases i,
{
    if i == 0 {
        assert(trim_front(s) =~= s.skip(0));
    } else {
        assert(is_space(s[0]));
        lemma_trim_front_skip(s.drop_first(), i - 1);
        assert(s.drop_first().skip(i - 1) =~= s.skip(i));
    }
}

proof fn lemma_trim_back_take(s: Seq<char>, j: int)
    requires
        0 <= j <= s.len(),
        forall|k: int| j <= k < s.len() ==> is_space(s[k]),
        j == 0 || !is_space(s[j - 1]),
    ensures
        trim_back(s) == s.take(j),
    decreases s.len() - j,
{
    if j == s.len() {
        assert(trim_back(s) =~= s.take(j));
    } else {
        assert(is_space(s.last()));
        lemma_trim_back_take(s.drop_last(), j);
        assert(s.drop_last() =~= s.take(s.len() - 1));
        assert(s.drop_last().take(j) =~= s.take(j));
    }
}

/// Verified counterpart of `str::trim`.
pub fn trim_str(s: &str) -> (r: String)
    ensures
        r@ == trimmed(s@),
{
    let slen: usize = s.unicode_len();
    let mut i: usize = 0;
    while i < slen && space_char(s.get_char(i))
        invariant
            slen == s@.len(),
            i <= slen,
            forall|k: int| 0 <= k < i ==> is_space(s@[k]),
        decreases slen - i,
    {
        i += 1;
    }
    proof {
        lemma_trim_front_skip(s@, i as int);
    }
    if i == slen {
        proof {
            assert(trim_back(s@.skip(i as int)) =~= s@.skip(i as int));
        }
        let r = s.substring_char(i, slen);
        return r.to_owned();
    }
    let mut j: usize = slen;
    while j > i && space_char(s.get_char(j - 1))
        invariant
            slen == s@.len(),
            i < j <= slen,
            forall|k: int| j <= k < slen ==> is_space(s@[k]),
            i < slen,
            !is_space(s@[i as int]),
        decreases j,
    {
        j -= 1;
    }
    proof {
        let t = s@.skip(i as int);
        assert forall|k: int| (j - i) <= k < t.len() implies is_space(t[k]) by {
            assert(t[k] == s@[k + i]);
        }
        assert(j > i);
        assert(t[(j - i) - 1] == s@[j - 1]);
        lemma_trim_back_take(t, j - i);
        assert(t.take(j - i) =~= s@.subrange(i as int, j as int));
    }
    let r = s.substring_char(i, j);
    r.to_owned()
}

proof fn lemma_strip_front_skip(s: Seq<char>, c: char, i: int)
    requires
        0 <= i <= s.len(),
        forall|k: int| 0 <= k < i ==> s[k] == c,
        i == s.len() || s[i] != c,
    ensures
        strip_front(s, c) == s.skip(i),
    decreases i,
{
    if i == 0 {
        assert(strip_front(s, c) =~= s.skip(0));
    } else {
        lemma_strip_front_skip(s.drop_first(), c, i - 1);
        assert(s.drop_first().skip(i - 1) =~= s.skip(i));
    }
}

proof fn lemma_strip_back_take(s: Seq<char>, c: char, j: int)
    requires
        0 <= j <= s.len(),
        forall|k: int| j <= k < s.len() ==> s[k] == c,
        j == 0 || s[j - 1] != c,
    ensures
        strip_back(s, c) == s.take(j),
    decreases s.len() - j,
{
    if j == s.len() {
        assert(strip_back(s, c) =~= s.take(j));
    } else {
        lemma_strip_back_take(s.drop_last(), c, j);
        assert(s.drop_last() =~= s.take(s.len() - 1));
        assert(s.drop_last().take(j) =~= s.take(j));
    }
}

/// What `str::trim_matches('"')` leaves.
pub open spec fn strip_quotes_spec(s: Seq<char>) -> Seq<char> {
    strip_back(strip_front(s, '"'), '"')
}

/// Verified counterpart of `str::trim_matches('"')`.
pub fn strip_quotes(s: &str) -> (r: String)
    ensures
        r@ == strip_quotes_spec(s@),
{
    let slen: usize = s.unicode_len();
    let mut i: usize = 0;
    while i < slen && s.get_char(i) == '"'
        invariant
            slen == s@.len(),
            i <= slen,
            forall|k: int| 0 <= k < i ==> s@[k] == '"',
        decreases slen - i,
    {
        i += 1;
    }
    proof {
        lemma_strip_front_skip(s@, '"', i as int);
    }
    if i == slen {
        proof {
            assert(strip_back(s@.skip(i as int), '"') =~= s@.skip(i as int));
        }
        let r = s.substring_char(i, slen);
        return r.to_owned();
    }
    let mut j: usize = slen;
    while j > i && s.get_char(j - 1) == '"'
        invariant
            slen == s@.len(),
            i < j <= slen,
            forall|k: int| j <= k < slen ==> s@[k] == '"',
            i < slen,
            s@[i as int] != '"',
        decreases j,
    {
        j -= 1;
    }
    proof {
        let t = s@.skip(i as int);
        assert forall|k: int| (j - i) <= k < t.len() implies t[k] == '"' by {
            assert(t[k] == s@[k + i]);
        }
        assert(t[(j - i) - 1] == s@[j - 1]);
        lemma_strip_back_take(t, '"', j - i);
        assert(t.take(j - i) =~= s@.subrange(i as int, j as int));
    }
    let r = s.substring_char(i, j);
    r.to_owned()
}

/// The pieces `str::split(sep)` yields, in order; always at least one piece.
pub open spec fn split_on(s: Seq<char>, sep: char) -> Seq<Seq<char>>
    decreases s.len(),
{
    if s.len() == 0 {
        seq![s]
    } else if s[0] == sep {
        seq![Seq::<char>::empty()] + split_on(s.drop_first(), sep)
    } else {
        let r = split_on(s.drop_first(), sep);
        seq![seq![s[0]] + r[0]] + r.drop_first()
    }
}

pub proof fn lemma_split_on_nonempty(s: Seq<char>, sep: char)
    ensures
        split_on(s, sep).len() >= 1,
    decreases s.len(),
{
    if s.len() > 0 {
        lemma_split_on_nonempty(s.drop_first(), sep);
    }
}

/// Verified counterpart of `str::split`, collected into a `Vec`.
pub fn split_str(s: &str, sep: char) -> (r: Vec<String>)
    ensures
        r.deep_view() == split_on(s@, sep),
        r.len() >= 1,
    decreases s@.len(),
{
    let slen: usize = s.unicode_len();
    if slen == 0 {
        let mut r: Vec<String> = Vec::new();
        r.push(String::new());
        proof {
            assert(r.deep_view() =~~= split_on(s@, sep));
        }
        return r;
    }
    let c0 = s.get_char(0);
    let rest = s.substring_char(1, slen);
    proof {
        assert(rest@ =~= s@.drop_first());
    }
    if c0 == sep {
        let mut r = split_str(rest, sep);
        r.insert(0, String::new());
        proof {
            assert(r.deep_view() =~~= split_on(s@, sep));
        }
        r
    } else {
        let mut r = split_str(rest, sep);
        proof {
            lemma_split_on_nonempty(rest@, sep);
        }
        let first = r.remove(0);
        let mut nf = s.substring_char(0, 1).to_owned();
        proof {
            assert(nf@ =~= seq![s@[0]]);
        }
        nf.append(first.as_str());
        r.insert(0, nf);
        proof {
            assert(r.deep_view() =~~= split_on(s@, sep));
        }
        r
    }
}

/// The pieces joined with `sep` between them.
pub open spec fn joined(parts: Seq<Seq<char>>, sep: char) -> Seq<char>
    decreases parts.len(),
{
    if parts.len() == 0 {
        Seq::empty()
    } else if parts.len() == 1 {
        parts[0]
    } else {
        parts[0] + seq![sep] + joined(parts.drop_first(), sep)
    }
}

proof fn lemma_joined_step(p: Seq<Seq<char>>, sep: char, i: int)
    requires
        1 <= i < p.len(),
    ensures
        joined(p.take(i + 1), sep) == joined(p.take(i), sep) + seq![sep] + p[i],
    decreases i,
{
    if i == 1 {
        assert(p.take(2).drop_first() =~= seq![p[1]]);
        assert(p.take(1) =~= seq![p[0]]);
        assert(p.take(2).len() == 2);
        assert(p.take(2)[0] == p[0]);
        assert(seq![p[1]].len() == 1);
        assert(joined(seq![p[1]], sep) == p[1]);
        assert(joined(p.take(2), sep) == p.take(2)[0] + seq![sep] + joined(
            p.take(2).drop_first(),
            sep,
        ));
        assert(joined(p.take(2), sep) =~= p[0] + seq![sep] + p[1]);
        assert(joined(p.take(1), sep) + seq![sep] + p[1] =~= p[0] + seq![sep] + p[1]);
    } else {
        let pd = p.drop_first();
        lemma_joined_step(pd, sep, i - 1);
        assert(p.take(i + 1).drop_first() =~= pd.take(i));
        assert(p.take(i).drop_first() =~= pd.take(i - 1));
        assert(p.take(i + 1)[0] == p[0]);
        assert(p.take(i)[0] == p[0]);
        assert(joined(p.take(i + 1), sep) =~= p[0] + seq![sep] + joined(pd.take(i), sep));
        assert(joined(p.take(i), sep) =~= p[0] + seq![sep] + joined(pd.take(i - 1), sep));
        assert(p[0] + seq![sep] + (joined(pd.take(i - 1), sep) + seq![sep] + pd[i - 1]) =~= (p[0]
            + seq![sep] + joined(pd.take(i - 1), sep)) + seq![sep] + p[i]);
    }
}

/// Joins the first `m` entries of `tokens` with underscores.
pub fn join_underscore(tokens: &Vec<String>, m: usize) -> (r: String)
    requires
        m <= tokens.len(),
    ensures
        r@ == joined(tokens.deep_view().take(m as int), '_'),
{
    let mut out = String::new();
    if m == 0 {
        proof {
            assert(tokens.deep_view().take(0) =~= Seq::<Seq<char>>::empty());
        }
        return out;
    }
    out.append(tokens[0].as_str());
    proof {
        assert(tokens.deep_view().take(1) =~= seq![tokens.deep_view()[0]]);
        assert(tokens.deep_view()[0] == tokens@[0]@);
    }
    let mut i: usize = 1;
    while i < m
        invariant
            1 <= i <= m <= tokens.len(),
            out@ == joined(tokens.deep_view().take(i as int), '_'),
        decreases m - i,
    {
        out.append("_");
        out.append(tokens[i].as_str());
        proof {
            reveal_strlit("_");
            assert("_"@ =~= seq!['_']);
            lemma_joined_step(tokens.deep_view(), '_', i as int);
            assert(tokens.deep_view()[i as int] == tokens@[i as int]@);
        }
        i += 1;
    }
    out
}

/// `str::replace` semantics: scan left to right, substitute each
/// non-overlapping occurrence of `pat` with `sub`.
pub open spec fn replaced(s: Seq<char>, pat: Seq<char>, sub: Seq<char>) -> Seq<char>
    decreases s.len(),
{
    if pat.len() == 0 {
        s
    } else if s.len() < pat.len() {
        s
    } else if s.subrange(0, pat.len() as int) == pat {
        sub + replaced(s.skip(pat.len() as int), pat, sub)
    } else {
        seq![s[0]] + replaced(s.drop_first(), pat, sub)
    }
}

/// `pat` occurs in `s` at position `i`.
fn match_at(s: &str, slen: usize, i: usize, pat: &str) -> (r: bool)
    requires
        slen == s@.len(),
        i <= slen,
    ensures
        r == (i + pat@.len() <= s@.len() && s@.subrange(
            i as int,
            i + pat@.len(),
        ) == pat@),
{
    let plen: usize = pat.unicode_len();
    if plen > slen - i {
        return false;
    }
    let mut k: usize = 0;
    while k < plen
        invariant
            slen == s@.len(),
            plen == pat@.len(),
            i + plen <= slen,
            k <= plen,
            forall|m: int| 0 <= m < k ==> s@[i + m] == pat@[m],
        decreases plen - k,
    {
        if s.get_char(i + k) != pat.get_char(k) {
            proof {
                assert(s@.subrange(i as int, i + pat@.len())[k as int] == s@[i + k]);
            }
            return false;
        }
        k += 1;
    }
    proof {
        assert(s@.subrange(i as int, i + pat@.len()) =~= pat@);
    }
    true
}

/// Verified counterpart of `str::replace`.
pub fn replace_str(s: &str, pat: &str, sub: &str) -> (r: String)
    requires
        pat@.len() > 0,
    ensures
        r@ == replaced(s@, pat@, sub@),
{
    let slen: usize = s.unicode_len();
    let plen: usize = pat.unicode_len();
    let mut out = String::new();
    let mut i: usize = 0;
    proof {
        assert(s@.skip(0) =~= s@);
        assert(Seq::<char>::empty() + replaced(s@, pat@, sub@) =~= replaced(s@, pat@, sub@));
    }
    while i < slen
        invariant
            slen == s@.len(),
            plen == pat@.len(),
            plen > 0,
            i <= slen,
            replaced(s@, pat@, sub@) == out@ + replaced(s@.skip(i as int), pat@, sub@),
        decreases slen - i,
    {
        if match_at(s, slen, i, pat) {
            out.append(sub);
            proof {
                let t = s@.skip(i as int);
                assert(t.subrange(0, pat@.len() as int) =~= s@.subrange(i as int, i + pat@.len()));
                assert(t.skip(pat@.len() as int) =~= s@.skip(i + pat@.len()));
            }
            i += plen;
        } else {
            let piece = s.substring_char(i, i + 1);
            out.append(piece);
            proof {
                let t = s@.skip(i as int);
                assert(piece@ =~= seq![t[0]]);
                if t.len() >= pat@.len() {
                    assert(t.subrange(0, pat@.len() as int) =~= s@.subrange(
                        i as int,
                        i + pat@.len(),
                    ));
                }
                assert(t.drop_first() =~= s@.skip(i + 1));
            }
            i += 1;
        }
    }
    proof {
        assert(s@.skip(slen as int) =~= Seq::<char>::empty());
        assert(out@ + Seq::<char>::empty() =~= out@);
    }
    out
}

/// What `str::lines` yields: pieces split on the line break, without a
/// trailing empty piece.
pub open spec fn lines_of(s: Seq<char>) -> Seq<Seq<char>> {
    let raw = split_on(s, '\n');
    if raw.len() > 0 && raw.last().len() == 0 {
        raw.drop_last()
    } else {
        raw
    }
}

/// Splits into lines, dropping the trailing empty piece a final line
/// break leaves.
pub fn split_lines(s: &str) -> (r: Vec<String>)
    ensures
        r.deep_view() == lines_of(s@),
{
    let mut lines = split_str(s, '\n');
    proof {
        assert(lines.deep_view()[lines@.len() - 1] == lines@[lines@.len() - 1]@);
    }
    let last_empty = lines[lines.len() - 1].as_str().is_empty();
    if last_empty {
        let _dropped = lines.pop();
        proof {
            assert(lines.deep_view() =~~= lines_of(s@));
        }
    } else {
        proof {
            assert(lines.deep_view() =~~= lines_of(s@));
        }
    }
    lines
}

pub open spec fn is_digit(c: char) -> bool {
    48 <= c as u32 && c as u32 <= 57
}

pub open spec fn all_digits(s: Seq<char>) -> bool {
    forall|k: int| 0 <= k < s.len() ==> is_digit(s[k])
}

pub fn digit_char_exec(c: char) -> (r: bool)
    ensures
        r == is_digit(c),
{
    let u = c as u32;
    48 <= u && u <= 57
}

/// Value of a digit string read in base ten.
pub open spec fn dec_val(s: Seq<char>) -> int
    decreases s.len(),
{
    if s.len() == 0 {
        0
    } else {
        dec_val(s.drop_last()) * 10 + (s.last() as u32 - 48)
    }
}

pub open spec fn int_body(s: Seq<char>) -> Seq<char> {
    if s.len() > 0 && (s[0] == '+' || s[0] == '-') {
        s.drop_first()
    } else {
        s
    }
}

pub open spec fn int_negative(s: Seq<char>) -> bool {
    s.len() > 0 && s[0] == '-'
}

/// The strings `str::parse::<i32>` accepts.
pub open spec fn valid_i32_string(s: Seq<char>) -> bool {
    let b = int_body(s);
    b.len() > 0 && all_digits(b) && (if int_negative(s) {
        dec_val(b) <= 0x8000_0000
    } else {
        dec_val(b) <= 0x7fff_ffff
    })
}

pub open spec fn i32_value(s: Seq<char>) -> int {
    if int_negative(s) {
        -dec_val(int_body(s))
    } else {
        dec_val(int_body(s))
    }
}

/// Verified counterpart of `str::parse::<i32>`.
pub fn parse_i32(s: &str) -> (r: Option<i32>)
    ensures
        r is Some <==> valid_i32_string(s@),
        r is Some ==> r.unwrap() as int == i32_value(s@),
{
    let slen: usize = s.unicode_len();
    let mut start: usize = 0;
    let mut neg = false;
    if slen > 0 {
        let c = s.get_char(0);
        if c == '-' {
            neg = true;
            start = 1;
        } else if c == '+' {
            start = 1;
        }
    }
    if start == slen {
        return None;
    }
    let ghost body = s@.skip(start as int);
    proof {
        assert(body =~= int_body(s@));
    }
    let mut mag: u64 = 0;
    let mut too_big = false;
    let mut i: usize = start;
    proof {
        assert(s@.subrange(start as int, start as int) =~= Seq::<char>::empty());
    }
    while i < slen
        invariant
            slen == s@.len(),
            start <= i <= slen,
            start < slen,
            body == s@.skip(start as int),
            body == int_body(s@),
            neg == int_negative(s@),
            forall|k: int| start <= k < i ==> is_digit(s@[k]),
            !too_big ==> mag == dec_val(s@.subrange(start as int, i as int)) && mag
                <= 0x8000_0000,
            too_big ==> dec_val(s@.subrange(start as int, i as int)) > 0x8000_0000,
        decreases slen - i,
    {
        let c = s.get_char(i);
        let u = c as u32;
        if u < 48 || u > 57 {
            proof {
                assert(body[i - start] == s@[i as int]);
                assert(!is_digit(body[i - start]));
                assert(!all_digits(body));
            }
            return None;
        }
        let d = (u - 48) as u64;
        proof {
            assert(s@.subrange(start as int, i + 1).drop_last() =~= s@.subrange(
                start as int,
                i as int,
            ));
            assert(s@.subrange(start as int, i + 1).last() == s@[i as int]);
        }
        if !too_big {
            let m2 = mag * 10 + d;
            if m2 > 0x8000_0000 {
                too_big = true;
            } else {
                mag = m2;
            }
        }
        i += 1;
    }
    proof {
        assert(body =~= s@.subrange(start as int, slen as int));
        assert(all_digits(body));
    }
    if too_big {
        return None;
    }
    if neg {
        if mag == 0x8000_0000 {
            Some(i32::MIN)
        } else {
            Some(-(mag as i32))
        }
    } else {
        if mag > 0x7fff_ffff {
            None
        } else {
            Some(mag as i32)
        }
    }
}

pub open spec fn digit_char(d: int) -> char {
    if d == 0 {
        '0'
    } else if d == 1 {
        '1'
    } else if d == 2 {
        '2'
    } else if d == 3 {
        '3'
    } else if d == 4 {
        '4'
    } else if d == 5 {
        '5'
    } else if d == 6 {
        '6'
    } else if d == 7 {
        '7'
    } else if d == 8 {
        '8'
    } else {
        '9'
    }
}

/// Base-ten digits of a non-negative value, most significant first.
pub open spec fn dec_digits(n: int) -> Seq<char>
    decreases n,
{
    if n < 10 {
        seq![digit_char(n)]
    } else {
        dec_digits(n / 10) + seq![digit_char(n % 10)]
    }
}

/// Decimal rendering of a signed value.
pub open spec fn int_to_dec(v: int) -> Seq<char> {
    if v < 0 {
        seq!['-'] + dec_digits(-v)
    } else {
        dec_digits(v)
    }
}

pub fn digit_str(d: u64) -> (r: &'static str)
    requires
        d < 10,
    ensures
        r@ == seq![digit_char(d as int)],
{
    if d == 0 {
        proof {
            reveal_strlit("0");
            assert("0"@ =~= seq![digit_char(0)]);
        }
        "0"
    } else if d == 1 {
        proof {
            reveal_strlit("1");
            assert("1"@ =~= seq![digit_char(1)]);
        }
        "1"
    } else if d == 2 {
        proof {
            reveal_strlit("2");
            assert("2"@ =~= seq![digit_char(2)]);
        }
        "2"
    } else if d == 3 {
        proof {
            reveal_strlit("3");
            assert("3"@ =~= seq![digit_char(3)]);
        }
        "3"
    } else if d == 4 {
        proof {
            reveal_strlit("4");
            assert("4"@ =~= seq![digit_char(4)]);
        }
        "4"
    } else if d == 5 {
        proof {
            reveal_strlit("5");
            assert("5"@ =~= seq![digit_char(5)]);
        }
        "5"
    } else if d == 6 {
        proof {
            reveal_strlit("6");
            assert("6"@ =~= seq![digit_char(6)]);
        }
        "6"
    } else if d == 7 {
        proof {
            reveal_strlit("7");
            assert("7"@ =~= seq![digit_char(7)]);
        }
        "7"
    } else if d == 8 {
        proof {
            reveal_strlit("8");
            assert("8"@ =~= seq![digit_char(8)]);
        }
        "8"
    } else {
        proof {
            reveal_strlit("9");
            assert("9"@ =~= seq![digit_char(9)]);
        }
        "9"
    }
}

pub fn u64_to_dec(n: u64) -> (r: String)
    ensures
        r@ == dec_digits(n as int),
    decreases n,
{
    if n < 10 {
        digit_str(n).to_owned()
    } else {
        let mut r = u64_to_dec(n / 10);
        r.append(digit_str(n % 10));
        r
    }
}

pub fn i32_to_dec(n: i32) -> (r: String)
    ensures
        r@ == int_to_dec(n as int),
{
    if n < 0 {
        let mag = (-(n as i64)) as u64;
        let mut r = "-".to_owned();
        proof {
            reveal_strlit("-");
            assert("-"@ =~= seq!['-']);
        }
        r.append(u64_to_dec(mag).as_str());
        r
    } else {
        u64_to_dec(n as u64)
    }
}

/// Names what `str::to_lowercase` returns.
pub uninterp spec fn lower_of(s: Seq<char>) -> Seq<char>;

/// Relies on `str::to_lowercase`: the result depends on the characters alone,
/// and an empty string stays empty.
#[verifier::external_body]
pub fn lowercase(s: &str) -> (r: String)
    ensures
        r@ == lower_of(s@),
        s@.len() == 0 ==> r@.len() == 0,
{
    s.to_lowercase()
}

} // verus!
