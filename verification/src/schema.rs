//! The closed schema language tools describe their arguments and results
//! with, and its exact JSON Schema wire form.
//!
//! A node is written as an object with a `type` discriminator; an `Object`
//! node carries `properties` and its `required` list, an `Array` node an
//! optional `items` node, and every node but `Null` an optional
//! `description`. Writing and reading are exact inverses
//! (`lemma_schema_round_trip`).

use vstd::prelude::*;

use crate::json::Json;
use crate::json::JsonV;
use crate::json::lemma_obj_get_is_element;
use crate::json::lemma_obj_view;
use crate::json::obj_get;
use crate::json::obj_lookup;
use crate::json::obj_view_from;
use crate::json::str_eq;

verus! {

broadcast use vstd::std_specs::vec::group_vec_axioms, vstd::seq::group_seq_axioms;

/// A schema node.
#[derive(Debug)]
pub enum Schema {
    Object {
        description: Option<String>,
        properties: Vec<(String, Schema)>,
        required: Vec<String>,
    },
    String { description: Option<String> },
    Integer { description: Option<String> },
    Number { description: Option<String> },
    Boolean { description: Option<String> },
    Array { description: Option<String>, items: Option<Box<Schema>> },
    Null,
}

/// The shape of a schema node.
#[verifier::ext_equal]
pub enum SchemaV {
    Object {
        description: Option<Seq<char>>,
        properties: Seq<(Seq<char>, SchemaV)>,
        required: Seq<Seq<char>>,
    },
    String { description: Option<Seq<char>> },
    Integer { description: Option<Seq<char>> },
    Number { description: Option<Seq<char>> },
    Boolean { description: Option<Seq<char>> },
    Array { description: Option<Seq<char>>, items: Option<Box<SchemaV>> },
    Null,
}

pub open spec fn opt_str_view(d: Option<String>) -> Option<Seq<char>> {
    match d {
        Some(t) => Some(t@),
        None => None,
    }
}

pub open spec fn schema_view(s: Schema) -> SchemaV
    decreases s, 0int, 0int,
    via schema_view_decreases
{
    match s {
        Schema::Object { description, properties, required } => SchemaV::Object {
            description: opt_str_view(description),
            properties: props_view_from(properties@, 0),
            required: Seq::new(required@.len(), |i: int| required@[i]@),
        },
        Schema::String { description } => SchemaV::String {
            description: opt_str_view(description),
        },
        Schema::Integer { description } => SchemaV::Integer {
            description: opt_str_view(description),
        },
        Schema::Number { description } => SchemaV::Number {
            description: opt_str_view(description),
        },
        Schema::Boolean { description } => SchemaV::Boolean {
            description: opt_str_view(description),
        },
        Schema::Array { description, items } => SchemaV::Array {
            description: opt_str_view(description),
            items: match items {
                Some(b) => Some(Box::new(schema_view(*b))),
                None => None,
            },
        },
        Schema::Null => SchemaV::Null,
    }
}

pub open spec fn props_view_from(props: Seq<(String, Schema)>, k: int) -> Seq<(Seq<char>, SchemaV)>
    decreases props, 1int, props.len() - k,
    via props_view_from_decreases
{
    if 0 <= k < props.len() {
        seq![(props[k].0@, schema_view(props[k].1))] + props_view_from(props, k + 1)
    } else {
        Seq::empty()
    }
}

#[via_fn]
proof fn schema_view_decreases(s: Schema) {
    match s {
        Schema::Object { description, properties, required } => {
            assert(decreases_to!(s => properties));
            assert(decreases_to!(properties => properties@));
        },
        Schema::Array { description, items } => {
            match items {
                Some(b) => {
                    assert(decreases_to!(s => items));
                    assert(decreases_to!(items => b));
                },
                None => {},
            }
        },
        _ => {},
    }
}

#[via_fn]
proof fn props_view_from_decreases(props: Seq<(String, Schema)>, k: int) {
    if 0 <= k < props.len() {
        assert(decreases_to!(props => props[k]));
        assert(decreases_to!(props[k] => props[k].1));
    }
}

impl View for Schema {
    type V = SchemaV;

    open spec fn view(&self) -> SchemaV {
        schema_view(*self)
    }
}

/// `props_view_from(props, 0)` is the element-wise view of `props`.
pub proof fn lemma_props_view(props: Seq<(String, Schema)>)
    ensures
        props_view_from(props, 0).len() == props.len(),
        forall|i: int|
            0 <= i < props.len() ==> #[trigger] props_view_from(props, 0)[i] == (
            props[i].0@,
            schema_view(props[i].1),
            ),
{
    lemma_props_view_from(props, 0);
    assert forall|i: int|
        0 <= i < props.len() implies #[trigger] props_view_from(props, 0)[i] == (
        props[i].0@,
        schema_view(props[i].1),
    ) by {
        assert(props_view_from(props, 0)[i - 0] == (props[i].0@, schema_view(props[i].1)));
    }
}

proof fn lemma_props_view_from(props: Seq<(String, Schema)>, k: int)
    requires
        0 <= k <= props.len(),
    ensures
        props_view_from(props, k).len() == props.len() - k,
        forall|i: int|
            k <= i < props.len() ==> props_view_from(props, k)[i - k] == (
            props[i].0@,
            schema_view(props[i].1),
            ),
    decreases props.len() - k,
{
    if k < props.len() {
        lemma_props_view_from(props, k + 1);
    }
}

/// The `description` member, present exactly when a description is set.
pub open spec fn desc_entries(d: Option<Seq<char>>) -> Seq<(Seq<char>, JsonV)> {
    match d {
        Some(t) => seq![("description"@, JsonV::Str(t))],
        None => Seq::empty(),
    }
}

/// A primitive node: its `type` tag and the optional description.
pub open spec fn enc_prim(tag: Seq<char>, d: Option<Seq<char>>) -> JsonV {
    JsonV::Obj(seq![("type"@, JsonV::Str(tag))] + desc_entries(d))
}

/// The document a schema node is written as.
pub open spec fn enc_schema(s: SchemaV) -> JsonV
    decreases s, 0int, 0int,
    via enc_schema_decreases
{
    match s {
        SchemaV::Object { description, properties, required } => JsonV::Obj(
            seq![("type"@, JsonV::Str("object"@))] + desc_entries(description) + seq![
                ("properties"@, JsonV::Obj(enc_props(properties, 0))),
                (
                    "required"@,
                    JsonV::Arr(Seq::new(required.len(), |i: int| JsonV::Str(required[i]))),
                ),
            ],
        ),
        SchemaV::String { description } => enc_prim("string"@, description),
        SchemaV::Integer { description } => enc_prim("integer"@, description),
        SchemaV::Number { description } => enc_prim("number"@, description),
        SchemaV::Boolean { description } => enc_prim("boolean"@, description),
        SchemaV::Array { description, items } => match items {
            Some(b) => JsonV::Obj(
                seq![("type"@, JsonV::Str("array"@))] + desc_entries(description) + seq![
                    ("items"@, enc_schema(*b)),
                ],
            ),
            None => JsonV::Obj(seq![("type"@, JsonV::Str("array"@))] + desc_entries(description)),
        },
        SchemaV::Null => JsonV::Obj(seq![("type"@, JsonV::Str("null"@))]),
    }
}

pub open spec fn enc_props(props: Seq<(Seq<char>, SchemaV)>, k: int) -> Seq<(Seq<char>, JsonV)>
    decreases props, 1int, props.len() - k,
    via enc_props_decreases
{
    if 0 <= k < props.len() {
        seq![(props[k].0, enc_schema(props[k].1))] + enc_props(props, k + 1)
    } else {
        Seq::empty()
    }
}

#[via_fn]
proof fn enc_schema_decreases(s: SchemaV) {
    match s {
        SchemaV::Object { description, properties, required } => {
            assert(decreases_to!(s => properties));
        },
        SchemaV::Array { description, items } => {
            match items {
                Some(b) => {
                    assert(decreases_to!(s => items));
                    assert(decreases_to!(items => b));
                },
                None => {},
            }
        },
        _ => {},
    }
}

#[via_fn]
proof fn enc_props_decreases(props: Seq<(Seq<char>, SchemaV)>, k: int) {
    if 0 <= k < props.len() {
        assert(decreases_to!(props => props[k]));
        assert(decreases_to!(props[k] => props[k].1));
    }
}

/// The optional description of a node being read; fails on a value that is
/// not a string.
pub open spec fn dec_description(pairs: Seq<(Seq<char>, JsonV)>) -> Option<Option<Seq<char>>> {
    match obj_get(pairs, "description"@) {
        None => Some(None),
        Some(JsonV::Str(t)) => Some(Some(t)),
        Some(_) => None,
    }
}

pub open spec fn dec_strings(items: Seq<JsonV>, k: int) -> Option<Seq<Seq<char>>>
    decreases items.len() - k,
{
    if 0 <= k < items.len() {
        match items[k] {
            JsonV::Str(t) => match dec_strings(items, k + 1) {
                Some(rest) => Some(seq![t] + rest),
                None => None,
            },
            _ => None,
        }
    } else {
        Some(Seq::empty())
    }
}

/// The `required` list of an object node; absent means empty.
pub open spec fn dec_required(pairs: Seq<(Seq<char>, JsonV)>) -> Option<Seq<Seq<char>>> {
    match obj_get(pairs, "required"@) {
        None => Some(Seq::empty()),
        Some(JsonV::Arr(items)) => dec_strings(items, 0),
        Some(_) => None,
    }
}

/// The schema node a document denotes, if any.
pub open spec fn dec_schema(j: JsonV) -> Option<SchemaV>
    decreases j, 0int, 0int,
    via dec_schema_decreases
{
    match j {
        JsonV::Obj(pairs) => match obj_get(pairs, "type"@) {
            Some(JsonV::Str(t)) => if t == "object"@ {
                match (obj_get(pairs, "properties"@), dec_description(pairs), dec_required(pairs)) {
                    (Some(JsonV::Obj(ppairs)), Some(description), Some(required)) => match dec_props(
                        ppairs,
                        0,
                    ) {
                        Some(properties) => Some(
                            SchemaV::Object { description, properties, required },
                        ),
                        None => None,
                    },
                    _ => None,
                }
            } else if t == "string"@ {
                match dec_description(pairs) {
                    Some(description) => Some(SchemaV::String { description }),
                    None => None,
                }
            } else if t == "integer"@ {
                match dec_description(pairs) {
                    Some(description) => Some(SchemaV::Integer { description }),
                    None => None,
                }
            } else if t == "number"@ {
                match dec_description(pairs) {
                    Some(description) => Some(SchemaV::Number { description }),
                    None => None,
                }
            } else if t == "boolean"@ {
                match dec_description(pairs) {
                    Some(description) => Some(SchemaV::Boolean { description }),
                    None => None,
                }
            } else if t == "array"@ {
                match dec_description(pairs) {
                    Some(description) => match obj_get(pairs, "items"@) {
                        None => Some(SchemaV::Array { description, items: None }),
                        Some(iv) => match dec_schema(iv) {
                            Some(s) => Some(
                                SchemaV::Array { description, items: Some(Box::new(s)) },
                            ),
                            None => None,
                        },
                    },
                    None => None,
                }
            } else if t == "null"@ {
                Some(SchemaV::Null)
            } else {
                None
            },
            _ => None,
        },
        _ => None,
    }
}

pub open spec fn dec_props(ppairs: Seq<(Seq<char>, JsonV)>, k: int) -> Option<
    Seq<(Seq<char>, SchemaV)>,
>
    decreases ppairs, 1int, ppairs.len() - k,
    via dec_props_decreases
{
    if 0 <= k < ppairs.len() {
        match dec_schema(ppairs[k].1) {
            Some(s) => match dec_props(ppairs, k + 1) {
                Some(rest) => Some(seq![(ppairs[k].0, s)] + rest),
                None => None,
            },
            None => None,
        }
    } else {
        Some(Seq::empty())
    }
}

#[via_fn]
proof fn dec_schema_decreases(j: JsonV) {
    match j {
        JsonV::Obj(pairs) => {
            assert(decreases_to!(j => pairs));
            if obj_get(pairs, "properties"@) is Some {
                lemma_obj_get_is_element(pairs, "properties"@);
                let i = choose|i: int|
                    0 <= i < pairs.len() && #[trigger] pairs[i].1 == obj_get(
                        pairs,
                        "properties"@,
                    ).unwrap();
                assert(decreases_to!(pairs => pairs[i]));
                assert(decreases_to!(pairs[i] => pairs[i].1));
                match pairs[i].1 {
                    JsonV::Obj(ppairs) => {
                        assert(decreases_to!(pairs[i].1 => ppairs));
                    },
                    _ => {},
                }
            }
            if obj_get(pairs, "items"@) is Some {
                lemma_obj_get_is_element(pairs, "items"@);
                let i = choose|i: int|
                    0 <= i < pairs.len() && #[trigger] pairs[i].1 == obj_get(
                        pairs,
                        "items"@,
                    ).unwrap();
                assert(decreases_to!(pairs => pairs[i]));
                assert(decreases_to!(pairs[i] => pairs[i].1));
            }
        },
        _ => {},
    }
}

#[via_fn]
proof fn dec_props_decreases(ppairs: Seq<(Seq<char>, JsonV)>, k: int) {
    if 0 <= k < ppairs.len() {
        assert(decreases_to!(ppairs => ppairs[k]));
        assert(decreases_to!(ppairs[k] => ppairs[k].1));
    }
}

/// The element-wise view of a built string list.
pub open spec fn strs_view(v: Seq<String>) -> Seq<Seq<char>> {
    Seq::new(v.len(), |i: int| v[i]@)
}

/// `enc_props(props, 0)` lists each property with its encoded schema.
pub proof fn lemma_enc_props(props: Seq<(Seq<char>, SchemaV)>)
    ensures
        enc_props(props, 0).len() == props.len(),
        forall|i: int|
            0 <= i < props.len() ==> #[trigger] enc_props(props, 0)[i] == (
            props[i].0,
            enc_schema(props[i].1),
            ),
{
    lemma_enc_props_from(props, 0);
    assert forall|i: int|
        0 <= i < props.len() implies #[trigger] enc_props(props, 0)[i] == (
        props[i].0,
        enc_schema(props[i].1),
    ) by {
        assert(enc_props(props, 0)[i - 0] == (props[i].0, enc_schema(props[i].1)));
    }
}

proof fn lemma_enc_props_from(props: Seq<(Seq<char>, SchemaV)>, k: int)
    requires
        0 <= k <= props.len(),
    ensures
        enc_props(props, k).len() == props.len() - k,
        forall|i: int|
            k <= i < props.len() ==> enc_props(props, k)[i - k] == (
            props[i].0,
            enc_schema(props[i].1),
            ),
    decreases props.len() - k,
{
    if k < props.len() {
        lemma_enc_props_from(props, k + 1);
    }
}

fn clone_opt_string(d: &Option<String>) -> (r: Option<String>)
    ensures
        opt_str_view(r) == opt_str_view(*d),
{
    match d {
        Some(t) => Some(t.clone()),
        None => None,
    }
}

fn prim_to_json(tag: &str, d: &Option<String>) -> (j: Json)
    ensures
        j@ == enc_prim(tag@, opt_str_view(*d)),
{
    let mut pairs: Vec<(String, Json)> = Vec::new();
    pairs.push(("type".to_owned(), Json::Str(tag.to_owned())));
    match d {
        Some(t) => {
            pairs.push(("description".to_owned(), Json::Str(t.clone())));
        },
        None => {},
    }
    let j = Json::Obj(pairs);
    proof {
        lemma_obj_view(pairs@);
        assert(obj_view_from(pairs@, 0) =~~= seq![("type"@, JsonV::Str(tag@))] + desc_entries(
            opt_str_view(*d),
        ));
        assert(j@ =~~= enc_prim(tag@, opt_str_view(*d)));
    }
    j
}

impl Schema {
    /// A structurally equal copy of the node.
    pub fn duplicate(&self) -> (r: Schema)
        ensures
            r@ == self@,
        decreases *self, 0int, 0int,
    {
        match self {
            Schema::Object { description, properties, required } => {
                let d = clone_opt_string(description);
                let mut props: Vec<(String, Schema)> = Vec::new();
                let mut k: usize = 0;
                while k < properties.len()
                    invariant
                        *self == (Schema::Object {
                            description: *description,
                            properties: *properties,
                            required: *required,
                        }),
                        k <= properties.len(),
                        props@.len() == k as int,
                        forall|i: int|
                            0 <= i < k ==> props@[i].0@ == properties@[i].0@ && props@[i].1@
                                == schema_view(properties@[i].1),
                    decreases properties.len() - k,
                {
                    proof {
                        let w = *self;
                        match w {
                            Schema::Object { description: d2, properties: p2, required: r2 } => {
                                assert(decreases_to!(w => p2));
                                assert(decreases_to!(p2 => p2@));
                                assert(decreases_to!(p2@ => p2@[k as int]));
                                assert(decreases_to!(p2@[k as int] => p2@[k as int].1));
                            },
                            _ => {
                                assert(false);
                            },
                        }
                    }
                    let name = properties[k].0.clone();
                    let copy = properties[k].1.duplicate();
                    props.push((name, copy));
                    k = k + 1;
                }
                let mut req: Vec<String> = Vec::new();
                let mut k2: usize = 0;
                while k2 < required.len()
                    invariant
                        k2 <= required.len(),
                        req@.len() == k2 as int,
                        forall|i: int| 0 <= i < k2 ==> req@[i]@ == required@[i]@,
                    decreases required.len() - k2,
                {
                    req.push(required[k2].clone());
                    k2 = k2 + 1;
                }
                let r = Schema::Object { description: d, properties: props, required: req };
                proof {
                    lemma_props_view(props@);
                    lemma_props_view(properties@);
                    assert(props_view_from(props@, 0) =~~= props_view_from(properties@, 0));
                    assert(Seq::new(req@.len(), |i: int| req@[i]@) =~~= Seq::new(
                        required@.len(),
                        |i: int| required@[i]@,
                    ));
                    assert(r@ =~~= self@);
                }
                r
            },
            Schema::String { description } => Schema::String {
                description: clone_opt_string(description),
            },
            Schema::Integer { description } => Schema::Integer {
                description: clone_opt_string(description),
            },
            Schema::Number { description } => Schema::Number {
                description: clone_opt_string(description),
            },
            Schema::Boolean { description } => Schema::Boolean {
                description: clone_opt_string(description),
            },
            Schema::Array { description, items } => {
                let d = clone_opt_string(description);
                match items {
                    Some(b) => {
                        proof {
                            let w = *self;
                            match w {
                                Schema::Array { description: d2, items: i2 } => {
                                    assert(decreases_to!(w => i2));
                                    match i2 {
                                        Some(b2) => {
                                            assert(decreases_to!(i2 => b2));
                                        },
                                        None => {
                                            assert(false);
                                        },
                                    }
                                },
                                _ => {
                                    assert(false);
                                },
                            }
                        }
                        let inner = (**b).duplicate();
                        let r = Schema::Array { description: d, items: Some(Box::new(inner)) };
                        proof {
                            assert(r@ =~~= self@);
                        }
                        r
                    },
                    None => Schema::Array { description: d, items: None },
                }
            },
            Schema::Null => Schema::Null,
        }
    }

    /// The JSON Schema document this node is written as.
    pub fn to_json(&self) -> (j: Json)
        ensures
            j@ == enc_schema(self@),
        decreases *self, 0int, 0int,
    {
        match self {
            Schema::Object { description, properties, required } => {
                let mut props: Vec<(String, Json)> = Vec::new();
                let mut k: usize = 0;
                while k < properties.len()
                    invariant
                        *self == (Schema::Object {
                            description: *description,
                            properties: *properties,
                            required: *required,
                        }),
                        k <= properties.len(),
                        props@.len() == k as int,
                        forall|i: int|
                            0 <= i < k ==> props@[i].0@ == properties@[i].0@ && props@[i].1@
                                == enc_schema(schema_view(properties@[i].1)),
                    decreases properties.len() - k,
                {
                    proof {
                        let w = *self;
                        match w {
                            Schema::Object { description: d2, properties: p2, required: r2 } => {
                                assert(decreases_to!(w => p2));
                                assert(decreases_to!(p2 => p2@));
                                assert(decreases_to!(p2@ => p2@[k as int]));
                                assert(decreases_to!(p2@[k as int] => p2@[k as int].1));
                            },
                            _ => {
                                assert(false);
                            },
                        }
                    }
                    let name = properties[k].0.clone();
                    let value = properties[k].1.to_json();
                    props.push((name, value));
                    k = k + 1;
                }
                let mut req: Vec<Json> = Vec::new();
                let mut k2: usize = 0;
                while k2 < required.len()
                    invariant
                        k2 <= required.len(),
                        req@.len() == k2 as int,
                        forall|i: int| 0 <= i < k2 ==> req@[i]@ == JsonV::Str(required@[i]@),
                    decreases required.len() - k2,
                {
                    req.push(Json::Str(required[k2].clone()));
                    k2 = k2 + 1;
                }
                let mut pairs: Vec<(String, Json)> = Vec::new();
                pairs.push(("type".to_owned(), Json::Str("object".to_owned())));
                match description {
                    Some(t) => {
                        pairs.push(("description".to_owned(), Json::Str(t.clone())));
                    },
                    None => {},
                }
                pairs.push(("properties".to_owned(), Json::Obj(props)));
                pairs.push(("required".to_owned(), Json::Arr(req)));
                let j = Json::Obj(pairs);
                proof {
                    lemma_obj_view(pairs@);
                    lemma_obj_view(props@);
                    lemma_props_view(properties@);
                    lemma_enc_props(props_view_from(properties@, 0));
                    crate::json::lemma_arr_view(req@);
                    let pv = props_view_from(properties@, 0);
                    assert(obj_view_from(props@, 0) =~~= enc_props(pv, 0));
                    let rv = Seq::new(pv_req_len(*self), |i: int| JsonV::Str(req_of(*self)[i]));
                    assert(crate::json::arr_view_from(req@, 0) =~~= rv);
                    assert(obj_view_from(pairs@, 0) =~~= seq![("type"@, JsonV::Str("object"@))]
                        + desc_entries(opt_str_view(*description)) + seq![
                        ("properties"@, JsonV::Obj(enc_props(pv, 0))),
                        ("required"@, JsonV::Arr(rv)),
                    ]);
                    assert(j@ =~~= enc_schema(self@));
                }
                j
            },
            Schema::String { description } => prim_to_json("string", description),
            Schema::Integer { description } => prim_to_json("integer", description),
            Schema::Number { description } => prim_to_json("number", description),
            Schema::Boolean { description } => prim_to_json("boolean", description),
            Schema::Array { description, items } => {
                let mut pairs: Vec<(String, Json)> = Vec::new();
                pairs.push(("type".to_owned(), Json::Str("array".to_owned())));
                match description {
                    Some(t) => {
                        pairs.push(("description".to_owned(), Json::Str(t.clone())));
                    },
                    None => {},
                }
                match items {
                    Some(b) => {
                        proof {
                            let w = *self;
                            match w {
                                Schema::Array { description: d2, items: i2 } => {
                                    assert(decreases_to!(w => i2));
                                    match i2 {
                                        Some(b2) => {
                                            assert(decreases_to!(i2 => b2));
                                        },
                                        None => {
                                            assert(false);
                                        },
                                    }
                                },
                                _ => {
                                    assert(false);
                                },
                            }
                        }
                        let inner = (**b).to_json();
                        pairs.push(("items".to_owned(), inner));
                        let j = Json::Obj(pairs);
                        proof {
                            lemma_obj_view(pairs@);
                            assert(obj_view_from(pairs@, 0) =~~= seq![
                                ("type"@, JsonV::Str("array"@)),
                            ] + desc_entries(opt_str_view(*description)) + seq![
                                ("items"@, enc_schema(schema_view(**b))),
                            ]);
                            assert(j@ =~~= enc_schema(self@));
                        }
                        j
                    },
                    None => {
                        let j = Json::Obj(pairs);
                        proof {
                            lemma_obj_view(pairs@);
                            assert(obj_view_from(pairs@, 0) =~~= seq![
                                ("type"@, JsonV::Str("array"@)),
                            ] + desc_entries(opt_str_view(*description)));
                            assert(j@ =~~= enc_schema(self@));
                        }
                        j
                    },
                }
            },
            Schema::Null => {
                let mut pairs: Vec<(String, Json)> = Vec::new();
                pairs.push(("type".to_owned(), Json::Str("null".to_owned())));
                let j = Json::Obj(pairs);
                proof {
                    lemma_obj_view(pairs@);
                    assert(obj_view_from(pairs@, 0) =~~= seq![("type"@, JsonV::Str("null"@))]);
                    assert(j@ =~~= enc_schema(self@));
                }
                j
            },
        }
    }
}

/// The required list of an object node's shape; a name for the proofs.
spec fn req_of(s: Schema) -> Seq<Seq<char>> {
    match s {
        Schema::Object { required, .. } => Seq::new(required@.len(), |i: int| required@[i]@),
        _ => Seq::empty(),
    }
}

spec fn pv_req_len(s: Schema) -> nat {
    req_of(s).len()
}


fn description_from(pairs: &Vec<(String, Json)>) -> (r: Result<Option<String>, ()>)
    ensures
        match r {
            Ok(d) => dec_description(obj_view_from(pairs@, 0)) == Some(opt_str_view(d)),
            Err(_) => dec_description(obj_view_from(pairs@, 0)) is None,
        },
{
    match obj_lookup(pairs, "description") {
        None => Ok(None),
        Some(Json::Str(d)) => Ok(Some(d.clone())),
        Some(_) => Err(()),
    }
}

fn strings_from_json(items: &Vec<Json>, k: usize) -> (r: Option<Vec<String>>)
    requires
        k <= items.len(),
    ensures
        match r {
            Some(v) => dec_strings(crate::json::arr_view_from(items@, 0), k as int) == Some(
                strs_view(v@),
            ),
            None => dec_strings(crate::json::arr_view_from(items@, 0), k as int) is None,
        },
    decreases items.len() - k,
{
    proof {
        crate::json::lemma_arr_view(items@);
    }
    if k < items.len() {
        match &items[k] {
            Json::Str(t) => {
                match strings_from_json(items, k + 1) {
                    Some(mut rest) => {
                        rest.insert(0, t.clone());
                        proof {
                            assert(strs_view(rest@) =~~= seq![t@] + strs_view(rest@.skip(1)));
                        }
                        Some(rest)
                    },
                    None => None,
                }
            },
            _ => None,
        }
    } else {
        let v: Vec<String> = Vec::new();
        proof {
            assert(strs_view(v@) =~~= Seq::<Seq<char>>::empty());
        }
        Some(v)
    }
}

fn props_from_json(whole: &Json, ppairs: &Vec<(String, Json)>, k: usize) -> (r: Option<
    Vec<(String, Schema)>,
>)
    requires
        *whole == Json::Obj(*ppairs),
        k <= ppairs.len(),
    ensures
        match r {
            Some(v) => dec_props(obj_view_from(ppairs@, 0), k as int) == Some(
                props_view_from(v@, 0),
            ),
            None => dec_props(obj_view_from(ppairs@, 0), k as int) is None,
        },
    decreases *whole, 0int, ppairs.len() - k,
{
    proof {
        lemma_obj_view(ppairs@);
    }
    if k < ppairs.len() {
        proof {
            let w = *whole;
            match w {
                Json::Obj(ps) => {
                    assert(decreases_to!(w => ps));
                    assert(decreases_to!(ps => ps@));
                    assert(decreases_to!(ps@ => ps@[k as int]));
                    assert(decreases_to!(ps@[k as int] => ps@[k as int].1));
                },
                _ => {
                    assert(false);
                },
            }
        }
        match Schema::from_json(&ppairs[k].1) {
            Some(schema) => {
                match props_from_json(whole, ppairs, k + 1) {
                    Some(mut rest) => {
                        let ghost before = rest@;
                        rest.insert(0, (ppairs[k].0.clone(), schema));
                        proof {
                            assert(rest@.skip(1) =~= before);
                            lemma_props_view(rest@);
                            lemma_props_view(before);
                            assert(props_view_from(rest@, 0) =~~= seq![
                                (rest@[0].0@, schema_view(rest@[0].1)),
                            ] + props_view_from(before, 0));
                            assert(dec_props(obj_view_from(ppairs@, 0), k as int) == Some(
                                props_view_from(rest@, 0),
                            ));
                        }
                        Some(rest)
                    },
                    None => None,
                }
            },
            None => None,
        }
    } else {
        let v: Vec<(String, Schema)> = Vec::new();
        Some(v)
    }
}

impl Schema {
    /// Reads a schema node out of a document; `None` when the document is
    /// not a well-formed node.
    pub fn from_json(j: &Json) -> (r: Option<Schema>)
        ensures
            dec_schema(j@) matches Some(sv) ==> (r matches Some(s) && s@ == sv),
            dec_schema(j@) is None ==> r is None,
        decreases *j, 1int, 0int,
    {
        let pairs = match j {
            Json::Obj(pairs) => pairs,
            _ => {
                return None;
            },
        };
        let t = match obj_lookup(pairs, "type") {
            Some(Json::Str(t)) => t,
            _ => {
                return None;
            },
        };
        if str_eq(t.as_str(), "object") {
            let description = match description_from(pairs) {
                Ok(d) => d,
                Err(_) => {
                    return None;
                },
            };
            let propsval = match obj_lookup(pairs, "properties") {
                Some(v) => v,
                None => {
                    return None;
                },
            };
            let ppairs = match propsval {
                Json::Obj(ppairs) => ppairs,
                _ => {
                    return None;
                },
            };
            proof {
                let w = *j;
                match w {
                    Json::Obj(ps) => {
                        crate::json::lemma_obj_get_is_element(
                            obj_view_from(ps@, 0),
                            "properties"@,
                        );
                        lemma_obj_view(ps@);
                        let i = choose|i: int|
                            0 <= i < ps@.len() && #[trigger] ps@[i].1 == *propsval;
                        assert(decreases_to!(w => ps));
                        assert(decreases_to!(ps => ps@));
                        assert(decreases_to!(ps@ => ps@[i]));
                        assert(decreases_to!(ps@[i] => ps@[i].1));
                    },
                    _ => {
                        assert(false);
                    },
                }
            }
            let properties = match props_from_json(propsval, ppairs, 0) {
                Some(v) => v,
                None => {
                    return None;
                },
            };
            let required = match obj_lookup(pairs, "required") {
                None => Vec::new(),
                Some(Json::Arr(items)) => match strings_from_json(items, 0) {
                    Some(v) => v,
                    None => {
                        return None;
                    },
                },
                Some(_) => {
                    return None;
                },
            };
            let r = Schema::Object { description, properties, required };
            proof {
                lemma_props_view(r.arrow_Object_properties()@);
                assert(Seq::new(required@.len(), |i: int| required@[i]@) =~~= strs_view(
                    required@,
                ));
                assert(r@ =~~= dec_schema(j@).unwrap());
            }
            Some(r)
        } else if str_eq(t.as_str(), "string") {
            let description = match description_from(pairs) {
                Ok(d) => d,
                Err(_) => {
                    return None;
                },
            };
            Some(Schema::String { description })
        } else if str_eq(t.as_str(), "integer") {
            let description = match description_from(pairs) {
                Ok(d) => d,
                Err(_) => {
                    return None;
                },
            };
            Some(Schema::Integer { description })
        } else if str_eq(t.as_str(), "number") {
            let description = match description_from(pairs) {
                Ok(d) => d,
                Err(_) => {
                    return None;
                },
            };
            Some(Schema::Number { description })
        } else if str_eq(t.as_str(), "boolean") {
            let description = match description_from(pairs) {
                Ok(d) => d,
                Err(_) => {
                    return None;
                },
            };
            Some(Schema::Boolean { description })
        } else if str_eq(t.as_str(), "array") {
            let description = match description_from(pairs) {
                Ok(d) => d,
                Err(_) => {
                    return None;
                },
            };
            match obj_lookup(pairs, "items") {
                None => Some(Schema::Array { description, items: None }),
                Some(iv) => {
                    proof {
                        let w = *j;
                        match w {
                            Json::Obj(ps) => {
                                crate::json::lemma_obj_get_is_element(
                                    obj_view_from(ps@, 0),
                                    "items"@,
                                );
                                lemma_obj_view(ps@);
                                let i = choose|i: int|
                                    0 <= i < ps@.len() && #[trigger] ps@[i].1 == *iv;
                                assert(decreases_to!(w => ps));
                                assert(decreases_to!(ps => ps@));
                                assert(decreases_to!(ps@ => ps@[i]));
                                assert(decreases_to!(ps@[i] => ps@[i].1));
                            },
                            _ => {
                                assert(false);
                            },
                        }
                    }
                    match Schema::from_json(iv) {
                        Some(inner) => Some(
                            Schema::Array { description, items: Some(Box::new(inner)) },
                        ),
                        None => None,
                    }
                },
            }
        } else if str_eq(t.as_str(), "null") {
            Some(Schema::Null)
        } else {
            None
        }
    }
}


/// The schema object's member names are pairwise distinct.
proof fn lemma_schema_keys_distinct()
    ensures
        "type"@ != "description"@,
        "type"@ != "properties"@,
        "type"@ != "required"@,
        "type"@ != "items"@,
        "description"@ != "properties"@,
        "description"@ != "required"@,
        "description"@ != "items"@,
        "properties"@ != "required"@,
        "properties"@ != "items"@,
        "required"@ != "items"@,
{
    reveal_strlit("type");
    reveal_strlit("description");
    reveal_strlit("properties");
    reveal_strlit("required");
    reveal_strlit("items");
    assert("type"@.len() == 4);
    assert("description"@.len() == 11);
    assert("properties"@.len() == 10);
    assert("required"@.len() == 8);
    assert("items"@.len() == 5);
}

/// The node tags are pairwise distinct.
proof fn lemma_schema_tags_distinct()
    ensures
        "object"@ != "string"@,
        "object"@ != "integer"@,
        "object"@ != "number"@,
        "object"@ != "boolean"@,
        "object"@ != "array"@,
        "object"@ != "null"@,
        "string"@ != "integer"@,
        "string"@ != "number"@,
        "string"@ != "boolean"@,
        "string"@ != "array"@,
        "string"@ != "null"@,
        "integer"@ != "number"@,
        "integer"@ != "boolean"@,
        "integer"@ != "array"@,
        "integer"@ != "null"@,
        "number"@ != "boolean"@,
        "number"@ != "array"@,
        "number"@ != "null"@,
        "boolean"@ != "array"@,
        "boolean"@ != "null"@,
        "array"@ != "null"@,
{
    reveal_strlit("object");
    reveal_strlit("string");
    reveal_strlit("integer");
    reveal_strlit("number");
    reveal_strlit("boolean");
    reveal_strlit("array");
    reveal_strlit("null");
    assert("object"@.len() == 6);
    assert("string"@.len() == 6);
    assert("integer"@.len() == 7);
    assert("number"@.len() == 6);
    assert("boolean"@.len() == 7);
    assert("array"@.len() == 5);
    assert("null"@.len() == 4);
    assert("object"@[0] == 'o');
    assert("string"@[0] == 's');
    assert("number"@[0] == 'n');
    assert("integer"@[0] == 'i');
    assert("boolean"@[0] == 'b');
}

proof fn lemma_dec_strings_of_strs(req: Seq<Seq<char>>, k: int)
    requires
        0 <= k <= req.len(),
    ensures
        dec_strings(Seq::new(req.len(), |i: int| JsonV::Str(req[i])), k) == Some(req.skip(k)),
    decreases req.len() - k,
{
    let items = Seq::new(req.len(), |i: int| JsonV::Str(req[i]));
    if k < req.len() {
        lemma_dec_strings_of_strs(req, k + 1);
        assert(seq![req[k]] + req.skip(k + 1) =~= req.skip(k));
    } else {
        assert(req.skip(k) =~= Seq::<Seq<char>>::empty());
    }
}

/// A primitive node's document reads back as that node, under the given
/// tag, provided the tag is handled before any other it could be confused
/// with; the callers below instantiate it tag by tag.
proof fn lemma_dec_prim_description(tag: Seq<char>, d: Option<Seq<char>>)
    ensures
        obj_get(obj_of_prim(tag, d), "type"@) == Some(JsonV::Str(tag)),
        dec_description(obj_of_prim(tag, d)) == Some(d),
        obj_get(obj_of_prim(tag, d), "properties"@) is None,
        obj_get(obj_of_prim(tag, d), "required"@) is None,
        obj_get(obj_of_prim(tag, d), "items"@) is None,
{
    lemma_schema_keys_distinct();
    let pairs = obj_of_prim(tag, d);
    match d {
        Some(t) => {
            assert(pairs.len() == 2);
            assert(pairs[0] == ("type"@, JsonV::Str(tag)));
            assert(pairs[1] == ("description"@, JsonV::Str(t)));
        },
        None => {
            assert(pairs.len() == 1);
            assert(pairs[0] == ("type"@, JsonV::Str(tag)));
        },
    }
    crate::json::lemma_lookup_chain(pairs, "type"@);
    crate::json::lemma_lookup_chain(pairs, "description"@);
    crate::json::lemma_lookup_chain(pairs, "properties"@);
    crate::json::lemma_lookup_chain(pairs, "required"@);
    crate::json::lemma_lookup_chain(pairs, "items"@);
}

/// The member list of a primitive node's document.
pub open spec fn obj_of_prim(tag: Seq<char>, d: Option<Seq<char>>) -> Seq<(Seq<char>, JsonV)> {
    seq![("type"@, JsonV::Str(tag))] + desc_entries(d)
}

/// Writing a schema and reading it back yields the schema unchanged.
pub proof fn lemma_schema_round_trip(s: SchemaV)
    ensures
        dec_schema(enc_schema(s)) == Some(s),
    decreases s, 0int, 0int,
{
    lemma_schema_keys_distinct();
    lemma_schema_tags_distinct();
    match s {
        SchemaV::Object { description, properties, required } => {
            let props_entry = ("properties"@, JsonV::Obj(enc_props(properties, 0)));
            let req_entry = (
                "required"@,
                JsonV::Arr(Seq::new(required.len(), |i: int| JsonV::Str(required[i]))),
            );
            let pairs = seq![("type"@, JsonV::Str("object"@))] + desc_entries(description)
                + seq![props_entry, req_entry];
            match description {
                Some(t) => {
                    assert(pairs.len() == 4);
                    assert(pairs[0] == ("type"@, JsonV::Str("object"@)));
                    assert(pairs[1] == ("description"@, JsonV::Str(t)));
                    assert(pairs[2] == props_entry);
                    assert(pairs[3] == req_entry);
                },
                None => {
                    assert(pairs.len() == 3);
                    assert(pairs[0] == ("type"@, JsonV::Str("object"@)));
                    assert(pairs[1] == props_entry);
                    assert(pairs[2] == req_entry);
                },
            }
            crate::json::lemma_lookup_chain(pairs, "type"@);
            crate::json::lemma_lookup_chain(pairs, "description"@);
            crate::json::lemma_lookup_chain(pairs, "properties"@);
            crate::json::lemma_lookup_chain(pairs, "required"@);
            assert(obj_get(pairs, "properties"@) == Some(JsonV::Obj(enc_props(properties, 0))));
            lemma_dec_strings_of_strs(required, 0);
            assert(required.skip(0) =~= required);
            assert(decreases_to!(s => properties));
            lemma_props_round_trip(properties, 0);
            assert(properties.skip(0) =~= properties);
            assert(dec_schema(enc_schema(s)) == Some(s));
        },
        SchemaV::String { description } => {
            lemma_dec_prim_description("string"@, description);
        },
        SchemaV::Integer { description } => {
            lemma_dec_prim_description("integer"@, description);
        },
        SchemaV::Number { description } => {
            lemma_dec_prim_description("number"@, description);
        },
        SchemaV::Boolean { description } => {
            lemma_dec_prim_description("boolean"@, description);
        },
        SchemaV::Array { description, items } => {
            match items {
                Some(b) => {
                    let pairs = seq![("type"@, JsonV::Str("array"@))] + desc_entries(description)
                        + seq![("items"@, enc_schema(*b))];
                    match description {
                        Some(t) => {
                            assert(pairs.len() == 3);
                            assert(pairs[0] == ("type"@, JsonV::Str("array"@)));
                            assert(pairs[1] == ("description"@, JsonV::Str(t)));
                            assert(pairs[2] == ("items"@, enc_schema(*b)));
                        },
                        None => {
                            assert(pairs.len() == 2);
                            assert(pairs[0] == ("type"@, JsonV::Str("array"@)));
                            assert(pairs[1] == ("items"@, enc_schema(*b)));
                        },
                    }
                    crate::json::lemma_lookup_chain(pairs, "type"@);
                    crate::json::lemma_lookup_chain(pairs, "description"@);
                    crate::json::lemma_lookup_chain(pairs, "items"@);
                    assert(decreases_to!(s => items));
                    assert(decreases_to!(items => b));
                    lemma_schema_round_trip(*b);
                    assert(dec_schema(enc_schema(s)) == Some(s));
                },
                None => {
                    lemma_dec_prim_description("array"@, description);
                    assert(dec_schema(enc_schema(s)) == Some(s));
                },
            }
        },
        SchemaV::Null => {
            let pairs = seq![("type"@, JsonV::Str("null"@))];
            crate::json::lemma_lookup_chain(pairs, "type"@);
            assert(dec_schema(enc_schema(s)) == Some(s));
        },
    }
}

proof fn lemma_props_round_trip(properties: Seq<(Seq<char>, SchemaV)>, k: int)
    requires
        0 <= k <= properties.len(),
    ensures
        dec_props(enc_props(properties, 0), k) == Some(props_suffix(properties, k)),
    decreases properties, 1int, properties.len() - k,
{
    lemma_enc_props(properties);
    if k < properties.len() {
        assert(decreases_to!(properties => properties[k]));
        assert(decreases_to!(properties[k] => properties[k].1));
        lemma_schema_round_trip(properties[k].1);
        lemma_props_round_trip(properties, k + 1);
        assert(seq![(properties[k].0, properties[k].1)] + props_suffix(properties, k + 1)
            =~= props_suffix(properties, k));
        assert(enc_props(properties, 0)[k] == (properties[k].0, enc_schema(properties[k].1)));
    } else {
        assert(props_suffix(properties, k) =~= Seq::<(Seq<char>, SchemaV)>::empty());
    }
}

/// The tail of a property list from index `k` on.
pub open spec fn props_suffix(properties: Seq<(Seq<char>, SchemaV)>, k: int) -> Seq<
    (Seq<char>, SchemaV),
> {
    properties.skip(k)
}


} // verus!
