//! Re-files downloaded artifacts into per-author folders: parsing a
//! downloaded filename back into author and identifier, deriving each
//! target folder's matching prefix, picking the folder, and counting
//! what happened to each file.
use vstd::prelude::*;

use crate::text::all_digits;
use crate::text::digit_char_exec;
use crate::text::find_char;
use crate::text::first_index_of;
use crate::text::has_prefix;
use crate::text::join_underscore;
use crate::text::joined;
use crate::text::lemma_first_index_of;
use crate::text::split_on;
use crate::text::split_str;
use crate::text::str_eq;
use crate::text::str_has_prefix;

verus! {

pub struct FileOrganizer;

/// Index of the last occurrence of `c`, or `-1` if absent.
pub open spec fn last_index_of(s: Seq<char>, c: char) -> int
    decreases s.len(),
{
    if s.len() == 0 {
        -1
    } else if s.last() == c {
        s.len() - 1
    } else {
        last_index_of(s.drop_last(), c)
    }
}

proof fn lemma_last_index_at(s: Seq<char>, c: char, i: int)
    requires
        0 <= i < s.len(),
        s[i] == c,
        forall|k: int| i < k < s.len() ==> s[k] != c,
    ensures
        last_index_of(s, c) == i,
    decreases s.len(),
{
    if i == s.len() - 1 {
    } else {
        assert(s.last() != c);
        lemma_last_index_at(s.drop_last(), c, i);
    }
}

proof fn lemma_last_index_none(s: Seq<char>, c: char)
    requires
        forall|k: int| 0 <= k < s.len() ==> s[k] != c,
    ensures
        last_index_of(s, c) == -1,
    decreases s.len(),
{
    if s.len() > 0 {
        lemma_last_index_none(s.drop_last(), c);
    }
}

/// What is left of a filename after stripping the extension: everything
/// before the last dot, or the whole name when there is none.
pub open spec fn stem_of(s: Seq<char>) -> Seq<char> {
    if last_index_of(s, '.') >= 0 {
        s.take(last_index_of(s, '.'))
    } else {
        s
    }
}

fn stem_str<'a>(s: &'a str) -> (r: &'a str)
    ensures
        r@ == stem_of(s@),
{
    let slen: usize = s.unicode_len();
    let mut j: usize = slen;
    while j > 0
        invariant
            slen == s@.len(),
            j <= slen,
            forall|k: int| j <= k < slen ==> s@[k] != '.',
        decreases j,
    {
        if s.get_char(j - 1) == '.' {
            proof {
                lemma_last_index_at(s@, '.', j - 1);
            }
            return s.substring_char(0, j - 1);
        }
        j -= 1;
    }
    proof {
        lemma_last_index_none(s@, '.');
    }
    s
}

/// The underscore-separated tokens of the stem.
pub open spec fn filename_tokens(filename: Seq<char>) -> Seq<Seq<char>> {
    split_on(stem_of(filename), '_')
}

/// Index of the all-digit token in the highest position, or `-1`.
/// An empty token counts as all digits, as the digit test on each of
/// its characters holds vacuously.
pub open spec fn last_digit_index(toks: Seq<Seq<char>>) -> int
    decreases toks.len(),
{
    if toks.len() == 0 {
        -1
    } else if all_digits(toks.last()) {
        toks.len() - 1
    } else {
        last_digit_index(toks.drop_last())
    }
}

proof fn lemma_last_digit_at(toks: Seq<Seq<char>>, i: int)
    requires
        0 <= i < toks.len(),
        all_digits(toks[i]),
        forall|k: int| i < k < toks.len() ==> !all_digits(toks[k]),
    ensures
        last_digit_index(toks) == i,
    decreases toks.len(),
{
    if i == toks.len() - 1 {
    } else {
        assert(!all_digits(toks.last()));
        lemma_last_digit_at(toks.drop_last(), i);
    }
}

proof fn lemma_last_digit_none(toks: Seq<Seq<char>>)
    requires
        forall|k: int| 0 <= k < toks.len() ==> !all_digits(toks[k]),
    ensures
        last_digit_index(toks) == -1,
    decreases toks.len(),
{
    if toks.len() > 0 {
        lemma_last_digit_none(toks.drop_last());
    }
}

/// The filename parses when the stem has at least three tokens and one
/// of them is all digits.
pub open spec fn parse_ok(filename: Seq<char>) -> bool {
    filename_tokens(filename).len() >= 3 && last_digit_index(filename_tokens(filename)) >= 0
}

/// The recovered identifier: the all-digit token in the highest
/// position.
pub open spec fn parsed_id(filename: Seq<char>) -> Seq<char> {
    filename_tokens(filename)[last_digit_index(filename_tokens(filename))]
}

/// The recovered author: the second token when the identifier leads,
/// else the join of every token before the identifier.
pub open spec fn parsed_author(filename: Seq<char>) -> Seq<char> {
    let toks = filename_tokens(filename);
    let m = last_digit_index(toks);
    if m == 0 {
        toks[1]
    } else {
        joined(toks.take(m), '_')
    }
}

fn all_digits_str(s: &str) -> (r: bool)
    ensures
        r == all_digits(s@),
{
    let slen: usize = s.unicode_len();
    let mut i: usize = 0;
    while i < slen
        invariant
            slen == s@.len(),
            i <= slen,
            forall|k: int| 0 <= k < i ==> crate::text::is_digit(s@[k]),
        decreases slen - i,
    {
        if !digit_char_exec(s.get_char(i)) {
            return false;
        }
        i += 1;
    }
    true
}

impl FileOrganizer {
    /// Parses a downloaded filename back into `(author, identifier)`:
    /// strip the extension, split on underscores, require at least
    /// three tokens and an all-digit token among them.
    pub fn parse_filename(filename: &str) -> (r: Result<(String, String), String>)
        ensures
            r is Ok <==> parse_ok(filename@),
            match r {
                Ok(parts) => parts.0@ == parsed_author(filename@) && parts.1@ == parsed_id(
                    filename@,
                ),
                Err(_) => !parse_ok(filename@),
            },
    {
        let stem = stem_str(filename);
        let tokens = split_str(stem, '_');
        let ghost tv = tokens.deep_view();
        proof {
            assert(tv == filename_tokens(filename@));
        }
        if tokens.len() < 3 {
            return Err("filename needs at least three underscore-separated parts".to_owned());
        }
        let n = tokens.len();
        let mut found: Option<usize> = None;
        let mut i: usize = 0;
        while i < n
            invariant
                n == tokens@.len(),
                n == tv.len(),
                tv == tokens.deep_view(),
                i <= n,
                match found {
                    Some(m) => m < i && all_digits(tv[m as int]) && (forall|k: int|
                        m < k < i ==> !all_digits(tv[k])),
                    None => forall|k: int| 0 <= k < i ==> !all_digits(tv[k]),
                },
            decreases n - i,
        {
            proof {
                assert(tv[i as int] == tokens@[i as int]@);
            }
            if all_digits_str(tokens[i].as_str()) {
                found = Some(i);
            }
            i += 1;
        }
        let m = match found {
            Some(m) => m,
            None => {
                proof {
                    lemma_last_digit_none(tv);
                }
                return Err("no numeric identifier part found".to_owned());
            },
        };
        proof {
            lemma_last_digit_at(tv, m as int);
            assert(tv[m as int] == tokens@[m as int]@);
        }
        let id = tokens[m].clone();
        let author = if m == 0 {
            proof {
                assert(tv[1] == tokens@[1]@);
            }
            tokens[1].clone()
        } else {
            join_underscore(&tokens, m)
        };
        Ok((author, id))
    }
}

/// The matching prefix a target folder derives: the part before the
/// first space of its name, or the whole name without one.
pub open spec fn folder_prefix_spec(name: Seq<char>) -> Seq<char> {
    name.take(first_index_of(name, ' '))
}

pub fn folder_prefix(name: &str) -> (r: String)
    ensures
        r@ == folder_prefix_spec(name@),
{
    let i = find_char(name, ' ');
    proof {
        lemma_first_index_of(name@, ' ');
    }
    name.substring_char(0, i).to_owned()
}

/// A parsed author matches a folder prefix when they are equal, or one
/// is the other followed by an underscore and more text.
pub open spec fn author_matches(author: Seq<char>, prefix: Seq<char>) -> bool {
    author == prefix || has_prefix(author, prefix + seq!['_']) || has_prefix(
        prefix,
        author + seq!['_'],
    )
}

pub fn author_matches_exec(author: &str, prefix: &str) -> (r: bool)
    ensures
        r == author_matches(author@, prefix@),
{
    proof {
        reveal_strlit("_");
        assert("_"@ =~= seq!['_']);
    }
    if str_eq(author, prefix) {
        return true;
    }
    let mut pu = prefix.to_owned();
    pu.append("_");
    if str_has_prefix(author, pu.as_str()) {
        return true;
    }
    let mut au = author.to_owned();
    au.append("_");
    str_has_prefix(prefix, au.as_str())
}

/// The first folder in index order whose prefix matches; ties among
/// several plausible folders go to whichever stands earlier in the
/// caller's index.
pub fn find_target_folder(author: &str, prefixes: &Vec<String>) -> (r: Option<usize>)
    ensures
        match r {
            Some(i) => i < prefixes@.len() && author_matches(author@, prefixes@[i as int]@) && (
            forall|k: int| 0 <= k < i ==> !author_matches(author@, prefixes@[k]@)),
            None => forall|k: int|
                0 <= k < prefixes@.len() ==> !author_matches(author@, prefixes@[k]@),
        },
{
    let n = prefixes.len();
    let mut i: usize = 0;
    while i < n
        invariant
            n == prefixes@.len(),
            i <= n,
            forall|k: int| 0 <= k < i ==> !author_matches(author@, prefixes@[k]@),
        decreases n - i,
    {
        if author_matches_exec(author, prefixes[i].as_str()) {
            return Some(i);
        }
        i += 1;
    }
    None
}

/// Some entry of the list reads as this text.
pub open spec fn index_has_prefix(ps: Seq<String>, x: Seq<char>) -> bool {
    exists|j: int| 0 <= j < ps.len() && (#[trigger] ps[j]@) == x
}

/// The target-folder index: each distinct prefix once, keyed to the
/// folder it came from; a later folder with the same prefix replaces
/// the earlier one, as a keyed index would.
#[verifier::rlimit(100)]
pub fn folder_index(names: &Vec<String>) -> (r: (Vec<String>, Vec<usize>))
    ensures
        r.0@.len() == r.1@.len(),
        forall|j: int|
            0 <= j < r.1@.len() ==> r.1@[j] < names@.len() && r.0@[j]@ == folder_prefix_spec(
                names@[r.1@[j] as int]@,
            ),
        forall|j1: int, j2: int|
            0 <= j1 < j2 < r.0@.len() ==> r.0@[j1]@ != r.0@[j2]@,
        forall|i: int|
            0 <= i < names@.len() ==> index_has_prefix(
                r.0@,
                #[trigger] folder_prefix_spec(names@[i]@),
            ),
{
    let n = names.len();
    let mut prefixes: Vec<String> = Vec::new();
    let mut picks: Vec<usize> = Vec::new();
    let mut i: usize = 0;
    while i < n
        invariant
            n == names@.len(),
            i <= n,
            prefixes@.len() == picks@.len(),
            forall|j: int|
                0 <= j < picks@.len() ==> picks@[j] < i && prefixes@[j]@ == folder_prefix_spec(
                    names@[picks@[j] as int]@,
                ),
            forall|j1: int, j2: int|
                0 <= j1 < j2 < prefixes@.len() ==> prefixes@[j1]@ != prefixes@[j2]@,
            forall|k: int|
                0 <= k < i ==> index_has_prefix(
                    prefixes@,
                    #[trigger] folder_prefix_spec(names@[k]@),
                ),
        decreases n - i,
    {
        let prefix = folder_prefix(names[i].as_str());
        let m = prefixes.len();
        let mut pos: Option<usize> = None;
        let mut j: usize = 0;
        while j < m
            invariant
                m == prefixes@.len(),
                j <= m,
                match pos {
                    Some(p) => p < j && prefixes@[p as int]@ == prefix@,
                    None => forall|k: int| 0 <= k < j ==> prefixes@[k]@ != prefix@,
                },
            decreases m - j,
        {
            if str_eq(prefixes[j].as_str(), prefix.as_str()) {
                pos = Some(j);
            }
            j += 1;
        }
        let ghost oldp = prefixes@;
        match pos {
            Some(p) => {
                picks[p] = i;
            },
            None => {
                prefixes.push(prefix);
                picks.push(i);
            },
        }
        proof {
            assert forall|k: int|
                0 <= k < i + 1 implies index_has_prefix(
                    prefixes@,
                    #[trigger] folder_prefix_spec(names@[k]@),
                ) by {
                if k < i {
                    let j0 = choose|j: int|
                        0 <= j < oldp.len() && (#[trigger] oldp[j]@) == folder_prefix_spec(
                            names@[k]@,
                        );
                    assert(prefixes@[j0]@ == folder_prefix_spec(names@[k]@));
                } else {
                    match pos {
                        Some(p) => {
                            assert(prefixes@[p as int]@ == folder_prefix_spec(names@[k]@));
                        },
                        None => {
                            assert(prefixes@[oldp.len() as int]@ == folder_prefix_spec(
                                names@[k]@,
                            ));
                        },
                    }
                }
            }
        }
        i += 1;
    }
    (prefixes, picks)
}

/// What happened to one file of the source directory.
pub enum FileStep {
    Unparsable,
    NoFolder,
    DuplicateDeleteFailed,
    Moved { deleted_dup: bool },
    MoveFailed { deleted_dup: bool },
}

/// Final counts of one organizing pass.
pub struct OrganizeStats {
    pub moved: u64,
    pub skipped: u64,
    pub deleted: u64,
    pub errors: u64,
}

impl OrganizeStats {
    pub fn new() -> (r: OrganizeStats)
        ensures
            r.moved == 0,
            r.skipped == 0,
            r.deleted == 0,
            r.errors == 0,
    {
        OrganizeStats { moved: 0, skipped: 0, deleted: 0, errors: 0 }
    }

    /// One file's effect on the counts: unparsable and unmatched files
    /// are skipped, a duplicate deleted before a move counts once, a
    /// failed delete or move counts as an error, a completed move as
    /// moved.
    pub fn apply_step(&mut self, step: &FileStep)
        requires
            old(self).moved < u64::MAX,
            old(self).skipped < u64::MAX,
            old(self).deleted < u64::MAX,
            old(self).errors < u64::MAX,
        ensures
            match *step {
                FileStep::Unparsable => final(self).skipped == old(self).skipped + 1 && final(self).moved == old(self).moved && final(self).deleted == old(self).deleted && final(self).errors == old(self).errors,
                FileStep::NoFolder => final(self).skipped == old(self).skipped + 1 && final(self).moved == old(self).moved && final(self).deleted == old(self).deleted && final(self).errors == old(self).errors,
                FileStep::DuplicateDeleteFailed => final(self).errors == old(self).errors + 1
                    && final(self).moved == old(self).moved && final(self).deleted == old(self).deleted && final(self).skipped == old(self).skipped,
                FileStep::Moved { deleted_dup } => final(self).moved == old(self).moved + 1
                    && final(self).deleted == old(self).deleted + (if deleted_dup {
                    1int
                } else {
                    0int
                }) && final(self).errors == old(self).errors && final(self).skipped == old(self).skipped,
                FileStep::MoveFailed { deleted_dup } => final(self).errors == old(self).errors
                    + 1 && final(self).deleted == old(self).deleted + (if deleted_dup {
                    1int
                } else {
                    0int
                }) && final(self).moved == old(self).moved && final(self).skipped == old(self).skipped,
            },
    {
        match step {
            FileStep::Unparsable => {
                self.skipped = self.skipped + 1;
            },
            FileStep::NoFolder => {
                self.skipped = self.skipped + 1;
            },
            FileStep::DuplicateDeleteFailed => {
                self.errors = self.errors + 1;
            },
            FileStep::Moved { deleted_dup } => {
                if *deleted_dup {
                    self.deleted = self.deleted + 1;
                }
                self.moved = self.moved + 1;
            },
            FileStep::MoveFailed { deleted_dup } => {
                if *deleted_dup {
                    self.deleted = self.deleted + 1;
                }
                self.errors = self.errors + 1;
            },
        }
    }
}

} // verus!
