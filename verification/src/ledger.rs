//! The download ledger: the set of item identifiers already fully
//! processed, loaded from a line-oriented append-only list and kept in
//! memory. Identifiers are only ever added, never removed.
use vstd::prelude::*;

use crate::text::lines_of;
use crate::text::split_lines;
use crate::text::str_eq;
use crate::text::trim_str;
use crate::text::trimmed;

verus! {

/// The identifiers a persisted ledger file holds: one per line,
/// whitespace-trimmed.
pub open spec fn ledger_ids_of(content: Seq<char>) -> Set<Seq<char>> {
    lines_of(content).map_values(|l: Seq<char>| trimmed(l)).to_set()
}

/// The in-memory set of already-downloaded identifiers.
pub struct Ledger {
    ids: Vec<String>,
}

impl View for Ledger {
    type V = Set<Seq<char>>;

    closed spec fn view(&self) -> Set<Seq<char>> {
        self.ids.deep_view().to_set()
    }
}

fn vec_holds(ids: &Vec<String>, s: &str) -> (r: bool)
    ensures
        r == ids.deep_view().to_set().contains(s@),
{
    let n = ids.len();
    let mut i: usize = 0;
    while i < n
        invariant
            n == ids@.len(),
            i <= n,
            forall|k: int| 0 <= k < i ==> ids.deep_view()[k] != s@,
        decreases n - i,
    {
        proof {
            assert(ids.deep_view()[i as int] == ids@[i as int]@);
        }
        if str_eq(ids[i].as_str(), s) {
            proof {
                assert(ids.deep_view()[i as int] == s@);
                assert(ids.deep_view().contains(s@));
            }
            return true;
        }
        i += 1;
    }
    proof {
        if ids.deep_view().to_set().contains(s@) {
            let k = choose|k: int|
                0 <= k < ids.deep_view().len() && ids.deep_view()[k] == s@;
            assert(ids.deep_view()[k] != s@);
        }
    }
    false
}

/// Pushing one element adds exactly it to the set of elements, and keeps
/// distinctness when it was not there.
proof fn lemma_push_to_set(sq: Seq<Seq<char>>, elt: Seq<char>)
    ensures
        sq.push(elt).to_set() == sq.to_set().insert(elt),
        sq.no_duplicates() && !sq.to_set().contains(elt) ==> sq.push(elt).no_duplicates(),
{
    assert(sq.push(elt) =~= sq + seq![elt]);
    Seq::<Seq<char>>::lemma_to_set_insert_commutes(sq, elt);
    assert(sq.push(elt).to_set() =~= sq.to_set().insert(elt));
    if sq.no_duplicates() && !sq.to_set().contains(elt) {
        assert forall|k: int| 0 <= k < sq.len() implies sq[k] != elt by {
            if sq[k] == elt {
                assert(sq.contains(sq[k]));
            }
        }
        assert forall|a: int, b: int|
            0 <= a < sq.push(elt).len() && 0 <= b < sq.push(elt).len() && a != b implies sq.push(
            elt,
        )[a] != sq.push(elt)[b] by {
            if a < sq.len() && b < sq.len() {
                assert(sq[a] != sq[b]);
            }
        }
    }
}

impl Ledger {
    /// Every stored identifier appears once.
    pub closed spec fn wf(&self) -> bool {
        self.ids.deep_view().no_duplicates()
    }

    /// An empty ledger, for when no record file exists yet.
    pub fn new() -> (r: Ledger)
        ensures
            r@ == Set::<Seq<char>>::empty(),
            r.wf(),
    {
        let r = Ledger { ids: Vec::new() };
        proof {
            assert(r.ids.deep_view() =~= Seq::<Seq<char>>::empty());
            assert(r.ids.deep_view().to_set() =~= Set::<Seq<char>>::empty());
        }
        r
    }

    /// Loads the ledger from the record file's text: one identifier per
    /// line, whitespace-trimmed, duplicates tolerated.
    pub fn from_content(content: &str) -> (r: Ledger)
        ensures
            r@ == ledger_ids_of(content@),
            r.wf(),
    {
        let lines = split_lines(content);
        let ghost lv = lines.deep_view();
        let ghost tv = lv.map_values(|l: Seq<char>| trimmed(l));
        let n = lines.len();
        let mut out = Ledger { ids: Vec::new() };
        let mut i: usize = 0;
        proof {
            assert(out.ids.deep_view() =~= Seq::<Seq<char>>::empty());
            assert(tv.take(0) =~= Seq::<Seq<char>>::empty());
            assert(out.ids.deep_view().to_set() =~= tv.take(0).to_set());
        }
        while i < n
            invariant
                n == lines@.len(),
                lv == lines.deep_view(),
                tv == lv.map_values(|l: Seq<char>| trimmed(l)),
                i <= n,
                out.wf(),
                out.ids.deep_view().to_set() == tv.take(i as int).to_set(),
            decreases n - i,
        {
            let t = trim_str(lines[i].as_str());
            proof {
                assert(lv[i as int] == lines@[i as int]@);
                assert(tv[i as int] == trimmed(lv[i as int]));
                assert(tv.take(i + 1) =~= tv.take(i as int).push(tv[i as int]));
                lemma_push_to_set(tv.take(i as int), tv[i as int]);
            }
            if !vec_holds(&out.ids, t.as_str()) {
                let ghost pre = out.ids.deep_view();
                out.ids.push(t);
                proof {
                    assert(out.ids.deep_view() =~~= pre.push(tv[i as int]));
                    lemma_push_to_set(pre, tv[i as int]);
                    assert(out.ids.deep_view().to_set() =~= tv.take(i + 1).to_set());
                }
            } else {
                proof {
                    assert(out.ids.deep_view().to_set() =~= tv.take(i + 1).to_set());
                }
            }
            i += 1;
        }
        proof {
            assert(tv.take(n as int) =~= tv);
        }
        out
    }

    /// The identifier is already recorded.
    pub fn is_downloaded(&self, tweet_id: &str) -> (r: bool)
        ensures
            r == self@.contains(tweet_id@),
    {
        vec_holds(&self.ids, tweet_id)
    }

    /// How many distinct identifiers the ledger holds.
    pub fn downloaded_count(&self) -> (r: usize)
        requires
            self.wf(),
        ensures
            r == self@.len(),
    {
        proof {
            self.ids.deep_view().unique_seq_to_set();
        }
        self.ids.len()
    }

    /// Adds one identifier to the in-memory set. The set only ever
    /// grows: the new view is the old view with this identifier added.
    pub fn record_downloaded_id(&mut self, tweet_id: &str)
        requires
            old(self).wf(),
        ensures
            final(self)@ == old(self)@.insert(tweet_id@),
            final(self).wf(),
    {
        if !vec_holds(&self.ids, tweet_id) {
            let ghost pre = self.ids.deep_view();
            self.ids.push(tweet_id.to_owned());
            proof {
                assert(self.ids.deep_view() =~~= pre.push(tweet_id@));
                lemma_push_to_set(pre, tweet_id@);
            }
        } else {
            proof {
                assert(self@ =~= old(self)@.insert(tweet_id@));
            }
        }
    }
}

/// Ledger monotonicity: recording an identifier keeps every identifier
/// already present, makes the new one present, and grows the count by
/// one exactly when the identifier was new.
pub proof fn lemma_ledger_monotone(pre: Set<Seq<char>>, id: Seq<char>)
    requires
        pre.finite(),
    ensures
        pre.insert(id).contains(id),
        forall|x: Seq<char>| pre.contains(x) ==> pre.insert(id).contains(x),
        pre.contains(id) ==> pre.insert(id) == pre,
        !pre.contains(id) ==> pre.insert(id).len() == pre.len() + 1,
{
    if pre.contains(id) {
        assert(pre.insert(id) =~= pre);
    }
}

} // verus!
