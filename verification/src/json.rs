//! The JSON document model that the whole wire protocol is stated over.
//!
//! `Json` is the executable tree; `JsonV` is its mathematical shape, with
//! strings as `Seq<char>` and arrays and objects as sequences. Every codec
//! in this crate states its contract over `JsonV`.

use vstd::prelude::*;

verus! {

broadcast use vstd::std_specs::vec::group_vec_axioms, vstd::seq::group_seq_axioms;

/// An executable JSON document.
///
/// Integer numbers are held exactly in an `i128`, which covers every `u64`
/// and `i64` a peer can produce. A number that is not an integer is carried
/// as its decimal text in `Num`, untouched by the logic.
#[derive(Debug)]
pub enum Json {
    Null,
    Bool(bool),
    Int(i128),
    Num(String),
    Str(String),
    Arr(Vec<Json>),
    Obj(Vec<(String, Json)>),
}

/// The mathematical shape of a JSON document.
#[verifier::ext_equal]
pub enum JsonV {
    Null,
    Bool(bool),
    Int(int),
    Num(Seq<char>),
    Str(Seq<char>),
    Arr(Seq<JsonV>),
    Obj(Seq<(Seq<char>, JsonV)>),
}

pub open spec fn json_view(j: Json) -> JsonV
    decreases j, 0int, 0int,
    via json_view_decreases
{
    match j {
        Json::Null => JsonV::Null,
        Json::Bool(b) => JsonV::Bool(b),
        Json::Int(i) => JsonV::Int(i as int),
        Json::Num(s) => JsonV::Num(s@),
        Json::Str(s) => JsonV::Str(s@),
        Json::Arr(items) => JsonV::Arr(arr_view_from(items@, 0)),
        Json::Obj(pairs) => JsonV::Obj(obj_view_from(pairs@, 0)),
    }
}

pub open spec fn arr_view_from(items: Seq<Json>, k: int) -> Seq<JsonV>
    decreases items, 1int, items.len() - k,
    via arr_view_from_decreases
{
    if 0 <= k < items.len() {
        seq![json_view(items[k])] + arr_view_from(items, k + 1)
    } else {
        Seq::empty()
    }
}

pub open spec fn obj_view_from(pairs: Seq<(String, Json)>, k: int) -> Seq<(Seq<char>, JsonV)>
    decreases pairs, 1int, pairs.len() - k,
    via obj_view_from_decreases
{
    if 0 <= k < pairs.len() {
        seq![(pairs[k].0@, json_view(pairs[k].1))] + obj_view_from(pairs, k + 1)
    } else {
        Seq::empty()
    }
}

#[via_fn]
proof fn json_view_decreases(j: Json) {
    match j {
        Json::Arr(items) => {
            assert(decreases_to!(j => items));
            assert(decreases_to!(items => items@));
        },
        Json::Obj(pairs) => {
            assert(decreases_to!(j => pairs));
            assert(decreases_to!(pairs => pairs@));
        },
        _ => {},
    }
}

#[via_fn]
proof fn arr_view_from_decreases(items: Seq<Json>, k: int) {
    if 0 <= k < items.len() {
        assert(decreases_to!(items => items[k]));
    }
}

#[via_fn]
proof fn obj_view_from_decreases(pairs: Seq<(String, Json)>, k: int) {
    if 0 <= k < pairs.len() {
        assert(decreases_to!(pairs => pairs[k]));
        assert(decreases_to!(pairs[k] => pairs[k].1));
    }
}

/// `arr_view_from(items, 0)` is the element-wise view of `items`.
pub proof fn lemma_arr_view(items: Seq<Json>)
    ensures
        arr_view_from(items, 0).len() == items.len(),
        forall|i: int|
            0 <= i < items.len() ==> #[trigger] arr_view_from(items, 0)[i] == json_view(items[i]),
{
    lemma_arr_view_from(items, 0);
    assert forall|i: int|
        0 <= i < items.len() implies #[trigger] arr_view_from(items, 0)[i] == json_view(
        items[i],
    ) by {
        assert(arr_view_from(items, 0)[i - 0] == json_view(items[i]));
    }
}

/// `obj_view_from(pairs, 0)` is the element-wise view of `pairs`.
pub proof fn lemma_obj_view(pairs: Seq<(String, Json)>)
    ensures
        obj_view_from(pairs, 0).len() == pairs.len(),
        forall|i: int|
            0 <= i < pairs.len() ==> #[trigger] obj_view_from(pairs, 0)[i] == (
            pairs[i].0@,
            json_view(pairs[i].1),
            ),
{
    lemma_obj_view_from(pairs, 0);
    assert forall|i: int|
        0 <= i < pairs.len() implies #[trigger] obj_view_from(pairs, 0)[i] == (
        pairs[i].0@,
        json_view(pairs[i].1),
    ) by {
        assert(obj_view_from(pairs, 0)[i - 0] == (pairs[i].0@, json_view(pairs[i].1)));
    }
}

pub broadcast proof fn lemma_arr_view_from(items: Seq<Json>, k: int)
    requires
        0 <= k <= items.len(),
    ensures
        #[trigger] arr_view_from(items, k).len() == items.len() - k,
        forall|i: int|
            k <= i < items.len() ==> arr_view_from(items, k)[i - k] == json_view(items[i]),
    decreases items.len() - k,
{
    if k < items.len() {
        lemma_arr_view_from(items, k + 1);
    }
}

pub broadcast proof fn lemma_obj_view_from(pairs: Seq<(String, Json)>, k: int)
    requires
        0 <= k <= pairs.len(),
    ensures
        #[trigger] obj_view_from(pairs, k).len() == pairs.len() - k,
        forall|i: int|
            k <= i < pairs.len() ==> obj_view_from(pairs, k)[i - k] == (
            pairs[i].0@,
            json_view(pairs[i].1),
            ),
    decreases pairs.len() - k,
{
    if k < pairs.len() {
        lemma_obj_view_from(pairs, k + 1);
    }
}

impl View for Json {
    type V = JsonV;

    open spec fn view(&self) -> JsonV {
        json_view(*self)
    }
}

/// The value under the first occurrence of `key` in an object's pair list.
pub open spec fn obj_get(pairs: Seq<(Seq<char>, JsonV)>, key: Seq<char>) -> Option<JsonV>
    decreases pairs.len(),
{
    if pairs.len() == 0 {
        None
    } else if pairs[0].0 == key {
        Some(pairs[0].1)
    } else {
        obj_get(pairs.skip(1), key)
    }
}

/// Whether an object's pair list holds `key` at all.
pub open spec fn obj_has(pairs: Seq<(Seq<char>, JsonV)>, key: Seq<char>) -> bool {
    obj_get(pairs, key) is Some
}

impl Json {
    /// A structurally equal copy of the document.
    pub fn duplicate(&self) -> (r: Json)
        ensures
            r@ == self@,
        decreases *self,
    {
        match self {
            Json::Null => Json::Null,
            Json::Bool(b) => Json::Bool(*b),
            Json::Int(i) => Json::Int(*i),
            Json::Num(s) => Json::Num(s.clone()),
            Json::Str(s) => Json::Str(s.clone()),
            Json::Arr(items) => {
                let mut out: Vec<Json> = Vec::new();
                let mut k: usize = 0;
                while k < items.len()
                    invariant
                        *self == Json::Arr(*items),
                        k <= items.len(),
                        out@.len() == k as int,
                        forall|i: int| 0 <= i < k ==> out@[i]@ == json_view(items@[i]),
                    decreases items.len() - k,
                {
                    proof {
                        let j = *self;
                        match j {
                            Json::Arr(its) => {
                                assert(decreases_to!(j => its));
                                assert(decreases_to!(its => its@));
                                assert(decreases_to!(its@ => its@[k as int]));
                            },
                            _ => {
                                assert(false);
                            },
                        }
                    }
                    let copy = items[k].duplicate();
                    out.push(copy);
                    k = k + 1;
                }
                proof {
                    lemma_arr_view(out@);
                    lemma_arr_view(items@);
                    assert(arr_view_from(out@, 0) =~= arr_view_from(items@, 0));
                }
                Json::Arr(out)
            },
            Json::Obj(pairs) => {
                let mut out: Vec<(String, Json)> = Vec::new();
                let mut k: usize = 0;
                while k < pairs.len()
                    invariant
                        *self == Json::Obj(*pairs),
                        k <= pairs.len(),
                        out@.len() == k as int,
                        forall|i: int|
                            0 <= i < k ==> out@[i].0@ == pairs@[i].0@ && out@[i].1@ == json_view(
                                pairs@[i].1,
                            ),
                    decreases pairs.len() - k,
                {
                    proof {
                        let j = *self;
                        match j {
                            Json::Obj(ps) => {
                                assert(decreases_to!(j => ps));
                                assert(decreases_to!(ps => ps@));
                                assert(decreases_to!(ps@ => ps@[k as int]));
                                assert(decreases_to!(ps@[k as int] => ps@[k as int].1));
                            },
                            _ => {
                                assert(false);
                            },
                        }
                    }
                    let name = pairs[k].0.clone();
                    let copy = pairs[k].1.duplicate();
                    out.push((name, copy));
                    k = k + 1;
                }
                proof {
                    lemma_obj_view(out@);
                    lemma_obj_view(pairs@);
                    assert(obj_view_from(out@, 0) =~= obj_view_from(pairs@, 0));
                }
                Json::Obj(out)
            },
        }
    }
}

/// Character-wise string equality, usable on any two string slices.
pub fn str_eq(a: &str, b: &str) -> (r: bool)
    ensures
        r == (a@ == b@),
{
    let x: String = a.to_owned();
    let y: String = b.to_owned();
    x == y
}

fn lookup_from<'a>(pairs: &'a Vec<(String, Json)>, k: usize, key: &str) -> (r: Option<&'a Json>)
    requires
        k <= pairs.len(),
    ensures
        match r {
            Some(v) => obj_get(obj_view_from(pairs@, 0).skip(k as int), key@) == Some(v@) && exists|
                i: int,
            |
                0 <= i < pairs@.len() && #[trigger] pairs@[i].1 == *v,
            None => obj_get(obj_view_from(pairs@, 0).skip(k as int), key@) is None,
        },
    decreases pairs.len() - k,
{
    proof {
        lemma_obj_view(pairs@);
    }
    if k < pairs.len() {
        proof {
            let vs = obj_view_from(pairs@, 0);
            assert(vs.skip(k as int)[0] == vs[k as int]);
            assert(vs.skip(k as int).skip(1) =~= vs.skip(k as int + 1));
        }
        if str_eq(pairs[k].0.as_str(), key) {
            Some(&pairs[k].1)
        } else {
            lookup_from(pairs, k + 1, key)
        }
    } else {
        proof {
            assert(obj_view_from(pairs@, 0).skip(k as int) =~= Seq::<(Seq<char>, JsonV)>::empty());
        }
        None
    }
}

/// The value under the first occurrence of `key`, if any. A found value is
/// one of the pair list's own members, which recursive callers lean on for
/// termination.
pub fn obj_lookup<'a>(pairs: &'a Vec<(String, Json)>, key: &str) -> (r: Option<&'a Json>)
    ensures
        match r {
            Some(v) => obj_get(obj_view_from(pairs@, 0), key@) == Some(v@) && exists|i: int|
                0 <= i < pairs@.len() && #[trigger] pairs@[i].1 == *v,
            None => obj_get(obj_view_from(pairs@, 0), key@) is None,
        },
{
    let r = lookup_from(pairs, 0, key);
    proof {
        assert(obj_view_from(pairs@, 0).skip(0) =~= obj_view_from(pairs@, 0));
    }
    r
}


/// A value found by `obj_get` is one of the pair list's members.
pub proof fn lemma_obj_get_is_element(pairs: Seq<(Seq<char>, JsonV)>, key: Seq<char>)
    requires
        obj_get(pairs, key) is Some,
    ensures
        exists|i: int|
            0 <= i < pairs.len() && #[trigger] pairs[i].1 == obj_get(pairs, key).unwrap(),
    decreases pairs.len(),
{
    if pairs.len() > 0 {
        if pairs[0].0 == key {
            assert(pairs[0].1 == obj_get(pairs, key).unwrap());
        } else {
            lemma_obj_get_is_element(pairs.skip(1), key);
            let i = choose|i: int|
                0 <= i < pairs.skip(1).len() && #[trigger] pairs.skip(1)[i].1 == obj_get(
                    pairs.skip(1),
                    key,
                ).unwrap();
            assert(pairs[i + 1].1 == obj_get(pairs, key).unwrap());
        }
    }
}


pub proof fn lemma_obj_get_cons(pairs: Seq<(Seq<char>, JsonV)>, key: Seq<char>)
    requires
        pairs.len() > 0,
    ensures
        obj_get(pairs, key) == if pairs[0].0 == key {
            Some(pairs[0].1)
        } else {
            obj_get(pairs.skip(1), key)
        },
{
}

/// Resolves `obj_get` over a short concrete pair list by unrolling it.
pub proof fn lemma_lookup_chain(pairs: Seq<(Seq<char>, JsonV)>, key: Seq<char>)
    ensures
        pairs.len() >= 1 ==> obj_get(pairs, key) == if pairs[0].0 == key {
            Some(pairs[0].1)
        } else {
            obj_get(pairs.skip(1), key)
        },
        pairs.len() >= 2 ==> obj_get(pairs.skip(1), key) == if pairs[1].0 == key {
            Some(pairs[1].1)
        } else {
            obj_get(pairs.skip(2), key)
        },
        pairs.len() >= 3 ==> obj_get(pairs.skip(2), key) == if pairs[2].0 == key {
            Some(pairs[2].1)
        } else {
            obj_get(pairs.skip(3), key)
        },
        pairs.len() >= 4 ==> obj_get(pairs.skip(3), key) == if pairs[3].0 == key {
            Some(pairs[3].1)
        } else {
            obj_get(pairs.skip(4), key)
        },
        pairs.len() >= 5 ==> obj_get(pairs.skip(4), key) == if pairs[4].0 == key {
            Some(pairs[4].1)
        } else {
            obj_get(pairs.skip(5), key)
        },
        obj_get(pairs.skip(pairs.len() as int), key) is None,
{
    if pairs.len() >= 1 {
        lemma_obj_get_cons(pairs, key);
    }
    if pairs.len() >= 2 {
        lemma_obj_get_cons(pairs.skip(1), key);
        assert(pairs.skip(1)[0] == pairs[1]);
        assert(pairs.skip(1).skip(1) =~= pairs.skip(2));
    }
    if pairs.len() >= 3 {
        lemma_obj_get_cons(pairs.skip(2), key);
        assert(pairs.skip(2)[0] == pairs[2]);
        assert(pairs.skip(2).skip(1) =~= pairs.skip(3));
    }
    if pairs.len() >= 4 {
        lemma_obj_get_cons(pairs.skip(3), key);
        assert(pairs.skip(3)[0] == pairs[3]);
        assert(pairs.skip(3).skip(1) =~= pairs.skip(4));
    }
    if pairs.len() >= 5 {
        lemma_obj_get_cons(pairs.skip(4), key);
        assert(pairs.skip(4)[0] == pairs[4]);
        assert(pairs.skip(4).skip(1) =~= pairs.skip(5));
    }
    assert(pairs.skip(pairs.len() as int) =~= Seq::<(Seq<char>, JsonV)>::empty());
}

} // verus!
