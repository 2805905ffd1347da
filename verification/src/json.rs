//! A tree-of-nodes document model. Timeline responses arrive as deeply
//! nested documents of varying shape; the extraction logic queries them by
//! field name, so the model keeps objects as ordered field lists and
//! numbers only where the logic reads them (unsigned integers).
use vstd::prelude::*;

use crate::text::str_eq;

verus! {

/// One node of a structured document.
///
/// `BigNum` stands for a number that does not fit an unsigned 64-bit
/// integer (a float or a negative); the logic never reads one, it only
/// carries it through, so only its presence is kept.
pub enum Json {
    Null,
    Bool(bool),
    UInt(u64),
    BigNum,
    Str(String),
    Arr(Vec<Json>),
    Obj(Vec<(String, Json)>),
}

/// Field lookup in an object: the first field with this name wins.
pub open spec fn spec_obj_get(fields: Seq<(String, Json)>, key: Seq<char>) -> Option<Json>
    decreases fields.len(),
{
    if fields.len() == 0 {
        None
    } else if fields[0].0@ == key {
        Some(fields[0].1)
    } else {
        spec_obj_get(fields.drop_first(), key)
    }
}

/// `j.get(key)`: `None` unless `j` is an object with that field.
pub open spec fn spec_get(j: Json, key: Seq<char>) -> Option<Json> {
    match j {
        Json::Obj(fields) => spec_obj_get(fields@, key),
        _ => None,
    }
}

/// Chained lookup along a path of field names.
pub open spec fn spec_get_path(j: Json, keys: Seq<Seq<char>>) -> Option<Json>
    decreases keys.len(),
{
    if keys.len() == 0 {
        Some(j)
    } else {
        match spec_get(j, keys[0]) {
            Some(v) => spec_get_path(v, keys.drop_first()),
            None => None,
        }
    }
}

/// The field's string content, if the field holds a string.
pub open spec fn spec_get_str(j: Json, key: Seq<char>) -> Option<Seq<char>> {
    match spec_get(j, key) {
        Some(Json::Str(s)) => Some(s@),
        _ => None,
    }
}

/// The field's elements, if the field holds an array.
pub open spec fn spec_get_arr(j: Json, key: Seq<char>) -> Option<Seq<Json>> {
    match spec_get(j, key) {
        Some(Json::Arr(items)) => Some(items@),
        _ => None,
    }
}

proof fn lemma_obj_get_skip(fields: Seq<(String, Json)>, key: Seq<char>, i: int)
    requires
        0 <= i <= fields.len(),
        forall|k: int| 0 <= k < i ==> fields[k].0@ != key,
    ensures
        spec_obj_get(fields, key) == spec_obj_get(fields.skip(i), key),
    decreases i,
{
    if i > 0 {
        lemma_obj_get_skip(fields.drop_first(), key, i - 1);
        assert(fields.drop_first().skip(i - 1) =~= fields.skip(i));
    } else {
        assert(fields.skip(0) =~= fields);
    }
}

impl Json {
    /// Field lookup on an object node; `None` on any other node.
    pub fn get<'a>(&'a self, key: &str) -> (r: Option<&'a Json>)
        ensures
            match r {
                Some(v) => spec_get(*self, key@) == Some(*v),
                None => spec_get(*self, key@) is None,
            },
    {
        match self {
            Json::Obj(fields) => {
                let n = fields.len();
                let mut i: usize = 0;
                while i < n
                    invariant
                        n == fields@.len(),
                        i <= n,
                        spec_get(*self, key@) == spec_obj_get(fields@, key@),
                        forall|k: int| 0 <= k < i ==> fields@[k].0@ != key@,
                    decreases n - i,
                {
                    if str_eq(fields[i].0.as_str(), key) {
                        proof {
                            lemma_obj_get_skip(fields@, key@, i as int);
                            let t = fields@.skip(i as int);
                            assert(t.len() > 0);
                            assert(t[0] == fields@[i as int]);
                            assert(t[0].0@ == key@);
                            assert(spec_obj_get(t, key@) == Some(t[0].1));
                        }
                        return Some(&fields[i].1);
                    }
                    i += 1;
                }
                proof {
                    lemma_obj_get_skip(fields@, key@, n as int);
                    assert(fields@.skip(n as int).len() == 0);
                }
                None
            },
            _ => None,
        }
    }

    /// Lookup along a path of field names.
    pub fn get_path<'a>(&'a self, keys: &[&str]) -> (r: Option<&'a Json>)
        ensures
            match r {
                Some(v) => spec_get_path(*self, keys.deep_view()) == Some(*v),
                None => spec_get_path(*self, keys.deep_view()) is None,
            },
    {
        let n = keys.len();
        let mut cur: &Json = self;
        let mut i: usize = 0;
        proof {
            assert(keys.deep_view().skip(0) =~= keys.deep_view());
        }
        while i < n
            invariant
                n == keys@.len(),
                n == keys.deep_view().len(),
                i <= n,
                spec_get_path(*self, keys.deep_view()) == spec_get_path(
                    *cur,
                    keys.deep_view().skip(i as int),
                ),
            decreases n - i,
        {
            let k: &str = keys[i];
            proof {
                assert(keys.deep_view()[i as int] == keys@[i as int]@);
                assert(keys.deep_view().skip(i as int)[0] == keys.deep_view()[i as int]);
                assert(keys.deep_view().skip(i as int).drop_first() =~= keys.deep_view().skip(
                    i + 1,
                ));
            }
            match cur.get(k) {
                Some(v) => {
                    cur = v;
                },
                None => {
                    return None;
                },
            }
            i += 1;
        }
        proof {
            assert(keys.deep_view().skip(n as int).len() == 0);
        }
        Some(cur)
    }

    /// The node's string content, if it is a string node.
    pub fn as_str<'a>(&'a self) -> (r: Option<&'a String>)
        ensures
            match r {
                Some(s) => *self == Json::Str(*s),
                None => !(*self is Str),
            },
    {
        match self {
            Json::Str(s) => Some(s),
            _ => None,
        }
    }

    /// The node's elements, if it is an array node.
    pub fn as_arr<'a>(&'a self) -> (r: Option<&'a Vec<Json>>)
        ensures
            match r {
                Some(items) => *self == Json::Arr(*items),
                None => !(*self is Arr),
            },
    {
        match self {
            Json::Arr(items) => Some(items),
            _ => None,
        }
    }

    /// The unsigned value of the node, if it is one.
    pub fn as_u64(&self) -> (r: Option<u64>)
        ensures
            match r {
                Some(n) => *self == Json::UInt(n),
                None => !(*self is UInt),
            },
    {
        match self {
            Json::UInt(n) => Some(*n),
            _ => None,
        }
    }
}

/// The field holds exactly this string.
pub fn field_equals(j: &Json, key: &str, val: &str) -> (r: bool)
    ensures
        r == (spec_get_str(*j, key@) == Some(val@)),
{
    let mut eq = false;
    match j.get(key) {
        Some(t) => match t.as_str() {
            Some(s) => {
                proof {
                    assert(spec_get_str(*j, key@) == Some(s@));
                }
                eq = str_eq(s.as_str(), val);
            },
            None => {
                proof {
                    assert(spec_get_str(*j, key@) is None);
                }
            },
        },
        None => {
            proof {
                assert(spec_get_str(*j, key@) is None);
            }
        },
    }
    eq
}

/// The field's string content as an owned value.
pub fn field_str(j: &Json, key: &str) -> (r: Option<String>)
    ensures
        r.deep_view() == spec_get_str(*j, key@),
{
    let mut out: Option<String> = None;
    match j.get(key) {
        Some(t) => match t.as_str() {
            Some(s) => {
                proof {
                    assert(spec_get_str(*j, key@) == Some(s@));
                }
                out = Some(s.as_str().to_owned());
            },
            None => {
                proof {
                    assert(spec_get_str(*j, key@) is None);
                }
            },
        },
        None => {
            proof {
                assert(spec_get_str(*j, key@) is None);
            }
        },
    }
    out
}

/// Field lookup that consumes the node and hands the field's value out.
pub fn take_field(j: Json, key: &str) -> (r: Option<Json>)
    ensures
        match r {
            Some(v) => spec_get(j, key@) == Some(v),
            None => spec_get(j, key@) is None,
        },
{
    match j {
        Json::Obj(mut fields) => {
            let ghost fields0 = fields@;
            let ghost mut i: int = 0;
            while fields.len() > 0
                invariant
                    0 <= i <= fields0.len(),
                    fields@ == fields0.skip(i),
                    spec_get(j, key@) == spec_obj_get(fields0, key@),
                    spec_obj_get(fields0, key@) == spec_obj_get(fields@, key@),
                decreases fields@.len(),
            {
                let ghost pre = fields@;
                let pair = fields.remove(0);
                proof {
                    assert(pre.len() > 0);
                    assert(i < fields0.len());
                    assert(pair == pre[0]);
                    assert(fields@ =~= pre.drop_first());
                    assert(pre.drop_first() =~= fields0.skip(i + 1));
                }
                if str_eq(pair.0.as_str(), key) {
                    proof {
                        assert(pair.0@ == key@);
                        assert(spec_obj_get(pre, key@) == Some(pre[0].1));
                    }
                    return Some(pair.1);
                }
                proof {
                    assert(pre[0].0@ != key@);
                    assert(spec_obj_get(pre, key@) == spec_obj_get(pre.drop_first(), key@));
                    i = i + 1;
                }
            }
            None
        },
        _ => None,
    }
}

/// Lookup along a path of field names, consuming the document.
pub fn take_path(j: Json, keys: &[&str]) -> (r: Option<Json>)
    ensures
        match r {
            Some(v) => spec_get_path(j, keys.deep_view()) == Some(v),
            None => spec_get_path(j, keys.deep_view()) is None,
        },
{
    let n = keys.len();
    let mut cur = j;
    let mut i: usize = 0;
    proof {
        assert(keys.deep_view().skip(0) =~= keys.deep_view());
    }
    while i < n
        invariant
            n == keys@.len(),
            n == keys.deep_view().len(),
            i <= n,
            spec_get_path(j, keys.deep_view()) == spec_get_path(
                cur,
                keys.deep_view().skip(i as int),
            ),
        decreases n - i,
    {
        let k: &str = keys[i];
        proof {
            assert(keys.deep_view()[i as int] == keys@[i as int]@);
            assert(keys.deep_view().skip(i as int)[0] == keys.deep_view()[i as int]);
            assert(keys.deep_view().skip(i as int).drop_first() =~= keys.deep_view().skip(i + 1));
        }
        match take_field(cur, k) {
            Some(v) => {
                cur = v;
            },
            None => {
                return None;
            },
        }
        i += 1;
    }
    proof {
        assert(keys.deep_view().skip(n as int).len() == 0);
    }
    Some(cur)
}

} // verus!
