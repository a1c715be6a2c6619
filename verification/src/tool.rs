//! Tools: argument descriptors, the derived input schema, argument binding,
//! and the wire form of a tool's public description.
//!
//! A tool's arguments are described by `ArgSpec` values; the input schema
//! published under `tools/list` is derived from them, and a caller's
//! `arguments` object is bound against them before any handler runs. A
//! required argument that is missing (or carries `null`, which the binder
//! treats as absent) fails the binding — `lemma_missing_required_fails` —
//! so the handler is never consulted for such a call.

use vstd::prelude::*;

use crate::json::Json;
use crate::json::JsonV;
use crate::json::lemma_obj_view;
use crate::json::obj_get;
use crate::json::obj_has;
use crate::json::obj_lookup;
use crate::json::obj_view_from;
use crate::message::ErrorKind;
use crate::schema::Schema;
use crate::schema::SchemaV;
use crate::schema::opt_str_view;

verus! {

broadcast use vstd::std_specs::vec::group_vec_axioms, vstd::seq::group_seq_axioms;

/// The JSON type an argument accepts.
#[derive(Clone, Copy, PartialEq, Eq, Structural, Debug)]
pub enum ArgType {
    Text,
    Integer,
    Number,
    Boolean,
}

/// A name and a human-readable description, the common base of every
/// argument descriptor.
pub struct NamedArg {
    pub name: String,
    pub description: String,
}

impl NamedArg {
    pub fn new(name: String, description: String) -> (r: NamedArg)
        ensures
            r.name@ == name@,
            r.description@ == description@,
    {
        NamedArg { name, description }
    }
}

/// One argument of a tool: its name, description, accepted type, and
/// whether the caller must supply it.
pub struct ArgSpec {
    pub arg: NamedArg,
    pub kind: ArgType,
    pub required: bool,
}

/// The shape of an argument descriptor.
#[verifier::ext_equal]
pub struct ArgSpecV {
    pub name: Seq<char>,
    pub description: Seq<char>,
    pub kind: ArgType,
    pub required: bool,
}

impl View for ArgSpec {
    type V = ArgSpecV;

    open spec fn view(&self) -> ArgSpecV {
        ArgSpecV {
            name: self.arg.name@,
            description: self.arg.description@,
            kind: self.kind,
            required: self.required,
        }
    }
}

/// A required string argument.
pub fn string(name: String, description: String) -> (r: ArgSpec)
    ensures
        r@ == (ArgSpecV {
            name: name@,
            description: description@,
            kind: ArgType::Text,
            required: true,
        }),
{
    ArgSpec { arg: NamedArg::new(name, description), kind: ArgType::Text, required: true }
}

/// A required unsigned 32-bit integer argument.
pub fn u32(name: String, description: String) -> (r: ArgSpec)
    ensures
        r@ == (ArgSpecV {
            name: name@,
            description: description@,
            kind: ArgType::Integer,
            required: true,
        }),
{
    ArgSpec { arg: NamedArg::new(name, description), kind: ArgType::Integer, required: true }
}

/// A required number argument; the bound value passes through as the
/// number document it arrived as.
pub fn number(name: String, description: String) -> (r: ArgSpec)
    ensures
        r@ == (ArgSpecV {
            name: name@,
            description: description@,
            kind: ArgType::Number,
            required: true,
        }),
{
    ArgSpec { arg: NamedArg::new(name, description), kind: ArgType::Number, required: true }
}

/// A required boolean argument.
pub fn bool(name: String, description: String) -> (r: ArgSpec)
    ensures
        r@ == (ArgSpecV {
            name: name@,
            description: description@,
            kind: ArgType::Boolean,
            required: true,
        }),
{
    ArgSpec { arg: NamedArg::new(name, description), kind: ArgType::Boolean, required: true }
}

/// The same argument, no longer required; an absent or `null` value then
/// binds to `null` instead of failing.
pub fn optional(argument: ArgSpec) -> (r: ArgSpec)
    ensures
        r@ == (ArgSpecV {
            name: argument@.name,
            description: argument@.description,
            kind: argument@.kind,
            required: false,
        }),
{
    ArgSpec { arg: argument.arg, kind: argument.kind, required: false }
}

/// The schema a single argument publishes.
pub open spec fn arg_schema_spec(a: ArgSpecV) -> SchemaV {
    match a.kind {
        ArgType::Text => SchemaV::String { description: Some(a.description) },
        ArgType::Integer => SchemaV::Integer { description: Some(a.description) },
        ArgType::Number => SchemaV::Number { description: Some(a.description) },
        ArgType::Boolean => SchemaV::Boolean { description: Some(a.description) },
    }
}

impl ArgSpec {
    /// The schema this argument publishes.
    pub fn schema(&self) -> (r: Schema)
        ensures
            r@ == arg_schema_spec(self@),
    {
        let description = Some(self.arg.description.clone());
        match self.kind {
            ArgType::Text => Schema::String { description },
            ArgType::Integer => Schema::Integer { description },
            ArgType::Number => Schema::Number { description },
            ArgType::Boolean => Schema::Boolean { description },
        }
    }
}

/// The names of the required arguments, in order.
pub open spec fn required_upto(args: Seq<ArgSpecV>, k: int) -> Seq<Seq<char>>
    decreases k,
{
    if k <= 0 {
        Seq::empty()
    } else {
        required_upto(args, k - 1) + (if args[k - 1].required {
            seq![args[k - 1].name]
        } else {
            Seq::empty()
        })
    }
}

/// The input schema a tool with these arguments publishes: one property
/// per argument, and exactly the required arguments listed as required.
pub open spec fn input_schema_spec(args: Seq<ArgSpecV>) -> SchemaV {
    SchemaV::Object {
        description: None,
        properties: Seq::new(args.len(), |i: int| (args[i].name, arg_schema_spec(args[i]))),
        required: required_upto(args, args.len() as int),
    }
}

/// The view of an argument list.
pub open spec fn args_view(args: Seq<ArgSpec>) -> Seq<ArgSpecV> {
    Seq::new(args.len(), |i: int| args[i]@)
}

/// Builds the input schema of a tool with the given arguments.
pub fn input_schema(args: &Vec<ArgSpec>) -> (r: Schema)
    ensures
        r@ == input_schema_spec(args_view(args@)),
{
    let mut properties: Vec<(String, Schema)> = Vec::new();
    let mut required: Vec<String> = Vec::new();
    let mut k: usize = 0;
    while k < args.len()
        invariant
            k <= args.len(),
            properties@.len() == k as int,
            forall|i: int|
                0 <= i < k ==> properties@[i].0@ == args@[i]@.name && properties@[i].1@
                    == arg_schema_spec(args@[i]@),
            crate::schema::strs_view(required@) =~= required_upto(args_view(args@), k as int),
        decreases args.len() - k,
    {
        properties.push((args[k].arg.name.clone(), args[k].schema()));
        if args[k].required {
            required.push(args[k].arg.name.clone());
        }
        proof {
            assert(crate::schema::strs_view(required@) =~= required_upto(
                args_view(args@),
                k as int + 1,
            ));
        }
        k = k + 1;
    }
    let r = Schema::Object { description: None, properties, required };
    proof {
        crate::schema::lemma_props_view(properties@);
        assert(crate::schema::props_view_from(properties@, 0) =~~= Seq::new(
            args_view(args@).len(),
            |i: int| (args_view(args@)[i].name, arg_schema_spec(args_view(args@)[i])),
        ));
        assert(Seq::new(required@.len(), |i: int| required@[i]@) =~= crate::schema::strs_view(
            required@,
        ));
        assert(r@ =~~= input_schema_spec(args_view(args@)));
    }
    r
}

/// The member list of a call's `arguments` value, which must be an object.
pub fn object(j: Json) -> (r: Result<Vec<(String, Json)>, ErrorKind>)
    ensures
        ({
            let jv = j@;
            match r {
                Ok(pairs) => jv matches JsonV::Obj(ps) && obj_view_from(pairs@, 0) == ps,
                Err(e) => !(jv matches JsonV::Obj(_)) && e@.code == -32602i64,
            }
        }),
{
    match j {
        Json::Obj(pairs) => Ok(pairs),
        _ => Err(ErrorKind::invalid_params("arguments must be an object".to_owned())),
    }
}

/// Whether one value is accepted for an argument, and what it binds to.
///
/// A missing member arrives here as `null`. `null` binds only for an
/// optional argument; any other value must fit the argument's type, an
/// integer argument keeping only unsigned 32-bit integers, as the native
/// handlers expect.
pub open spec fn bind_one(a: ArgSpecV, v: JsonV) -> Option<JsonV> {
    if v == JsonV::Null {
        if a.required {
            None
        } else {
            Some(JsonV::Null)
        }
    } else {
        match a.kind {
            ArgType::Text => match v {
                JsonV::Str(_) => Some(v),
                _ => None,
            },
            ArgType::Integer => match v {
                JsonV::Int(i) => if 0 <= i <= u32::MAX {
                    Some(v)
                } else {
                    None
                },
                _ => None,
            },
            ArgType::Number => match v {
                JsonV::Int(_) => Some(v),
                JsonV::Num(_) => Some(v),
                _ => None,
            },
            ArgType::Boolean => match v {
                JsonV::Bool(_) => Some(v),
                _ => None,
            },
        }
    }
}

/// The value an argument sees: the object's member of its name, or `null`.
pub open spec fn arg_value(obj: Seq<(Seq<char>, JsonV)>, a: ArgSpecV) -> JsonV {
    match obj_get(obj, a.name) {
        Some(v) => v,
        None => JsonV::Null,
    }
}

/// The bound values for an argument list, argument by argument; `None`
/// when any argument rejects its value. Unknown members are ignored.
pub open spec fn bind_spec(args: Seq<ArgSpecV>, obj: Seq<(Seq<char>, JsonV)>, k: int) -> Option<
    Seq<JsonV>,
>
    decreases args.len() - k,
{
    if 0 <= k < args.len() {
        match bind_one(args[k], arg_value(obj, args[k])) {
            Some(v) => match bind_spec(args, obj, k + 1) {
                Some(rest) => Some(seq![v] + rest),
                None => None,
            },
            None => None,
        }
    } else {
        Some(Seq::empty())
    }
}

fn bind_one_exec(a: &ArgSpec, v: Json) -> (r: Option<Json>)
    ensures
        match r {
            Some(out) => bind_one(a@, v@) == Some(out@),
            None => bind_one(a@, v@) is None,
        },
{
    match v {
        Json::Null => if a.required {
            None
        } else {
            Some(Json::Null)
        },
        other => {
            proof {
                assert(other@ != JsonV::Null);
            }
            match a.kind {
                ArgType::Text => match other {
                    Json::Str(s) => Some(Json::Str(s)),
                    _ => None,
                },
                ArgType::Integer => match other {
                    Json::Int(i) => if 0 <= i && i <= u32::MAX as i128 {
                        Some(Json::Int(i))
                    } else {
                        None
                    },
                    _ => None,
                },
                ArgType::Number => match other {
                    Json::Int(i) => Some(Json::Int(i)),
                    Json::Num(s) => Some(Json::Num(s)),
                    _ => None,
                },
                ArgType::Boolean => match other {
                    Json::Bool(b) => Some(Json::Bool(b)),
                    _ => None,
                },
            }
        },
    }
}

/// Binds a call's arguments object against an argument list: the result
/// holds one value per argument, in argument order. Fails with
/// `invalid params` exactly when some argument rejects its value — in
/// particular whenever a required argument is missing.
pub fn bind_args(args: &Vec<ArgSpec>, obj: &Vec<(String, Json)>) -> (r: Result<
    Vec<Json>,
    ErrorKind,
>)
    ensures
        ({
            let bound = bind_spec(args_view(args@), obj_view_from(obj@, 0), 0);
            match r {
                Ok(values) => bound == Some(Seq::new(values@.len(), |i: int| values@[i]@)),
                Err(e) => bound is None && e@.code == -32602i64,
            }
        }),
{
    match bind_from(args, obj, 0) {
        Some(values) => Ok(values),
        None => Err(ErrorKind::invalid_params("invalid arguments".to_owned())),
    }
}

fn bind_from(args: &Vec<ArgSpec>, obj: &Vec<(String, Json)>, k: usize) -> (r: Option<Vec<Json>>)
    requires
        k <= args.len(),
    ensures
        ({
            let bound = bind_spec(args_view(args@), obj_view_from(obj@, 0), k as int);
            match r {
                Some(values) => bound == Some(Seq::new(values@.len(), |i: int| values@[i]@)),
                None => bound is None,
            }
        }),
    decreases args.len() - k,
{
    if k < args.len() {
        let found = match obj_lookup(obj, args[k].arg.name.as_str()) {
            Some(v) => v.duplicate(),
            None => Json::Null,
        };
        proof {
            assert(found@ == arg_value(obj_view_from(obj@, 0), args@[k as int]@));
        }
        match bind_one_exec(&args[k], found) {
            Some(v) => match bind_from(args, obj, k + 1) {
                Some(mut rest) => {
                    let ghost before = rest@;
                    rest.insert(0, v);
                    proof {
                        assert(rest@.skip(1) =~= before);
                        assert(Seq::new(rest@.len(), |i: int| rest@[i]@) =~~= seq![rest@[0]@]
                            + Seq::new(before.len(), |i: int| before[i]@));
                    }
                    Some(rest)
                },
                None => None,
            },
            None => None,
        }
    } else {
        let v: Vec<Json> = Vec::new();
        proof {
            assert(Seq::new(v@.len(), |i: int| v@[i]@) =~~= Seq::<JsonV>::empty());
        }
        Some(v)
    }
}

/// A call whose arguments object leaves out a required argument binds to
/// nothing: the handler behind the tool is never reached for it.
pub proof fn lemma_missing_required_fails(
    args: Seq<ArgSpecV>,
    obj: Seq<(Seq<char>, JsonV)>,
    i: int,
)
    requires
        0 <= i < args.len(),
        args[i].required,
        !obj_has(obj, args[i].name),
    ensures
        bind_spec(args, obj, 0) is None,
{
    lemma_bind_fails_from(args, obj, i, 0);
}

proof fn lemma_bind_fails_from(args: Seq<ArgSpecV>, obj: Seq<(Seq<char>, JsonV)>, i: int, k: int)
    requires
        0 <= k <= i < args.len(),
        args[i].required,
        !obj_has(obj, args[i].name),
    ensures
        bind_spec(args, obj, k) is None,
    decreases args.len() - k,
{
    if k == i {
        assert(arg_value(obj, args[i]) == JsonV::Null);
        assert(bind_one(args[i], JsonV::Null) is None);
    } else {
        lemma_bind_fails_from(args, obj, i, k + 1);
    }
}

/// Lexicographic order on names, by code point.
pub open spec fn lex_le(a: Seq<char>, b: Seq<char>) -> bool
    decreases a.len(),
{
    if a.len() == 0 {
        true
    } else if b.len() == 0 {
        false
    } else if (a[0] as int) < (b[0] as int) {
        true
    } else if (a[0] as int) > (b[0] as int) {
        false
    } else {
        lex_le(a.skip(1), b.skip(1))
    }
}

pub open spec fn lex_lt(a: Seq<char>, b: Seq<char>) -> bool {
    lex_le(a, b) && a != b
}

proof fn lemma_lex_le_total(a: Seq<char>, b: Seq<char>)
    ensures
        lex_le(a, b) || lex_le(b, a),
        (lex_le(a, b) && lex_le(b, a)) ==> a == b,
    decreases a.len(),
{
    if a.len() > 0 && b.len() > 0 && a[0] == b[0] {
        lemma_lex_le_total(a.skip(1), b.skip(1));
        if lex_le(a, b) && lex_le(b, a) {
            assert(a.skip(1) == b.skip(1));
            assert forall|i: int| 0 <= i < a.len() implies a[i] == b[i] by {
                if i > 0 {
                    assert(a[i] == a.skip(1)[i - 1]);
                    assert(b[i] == b.skip(1)[i - 1]);
                }
            }
            assert(a =~= b);
        }
    } else if a.len() == 0 && b.len() == 0 {
        assert(a =~= b);
    }
}

/// Character-wise lexicographic comparison of two names.
pub fn str_le(a: &str, b: &str) -> (r: bool)
    ensures
        r == lex_le(a@, b@),
{
    let na = a.unicode_len();
    let nb = b.unicode_len();
    let mut k: usize = 0;
    proof {
        assert(a@.skip(0) =~= a@);
        assert(b@.skip(0) =~= b@);
    }
    loop
        invariant
            k <= na,
            k <= nb,
            na == a@.len(),
            nb == b@.len(),
            forall|i: int| 0 <= i < k ==> a@[i] == b@[i],
            lex_le(a@, b@) == lex_le(a@.skip(k as int), b@.skip(k as int)),
        decreases na - k,
    {
        proof {
            lemma_lex_le_total(a@, b@);
        }
        if k == na {
            proof {
                assert(a@.skip(k as int).len() == 0);
            }
            return true;
        }
        if k == nb {
            proof {
                assert(b@.skip(k as int).len() == 0);
                assert(a@.skip(k as int).len() > 0);
            }
            return false;
        }
        let ca = a.get_char(k);
        let cb = b.get_char(k);
        proof {
            assert(a@.skip(k as int)[0] == a@[k as int]);
            assert(b@.skip(k as int)[0] == b@[k as int]);
            assert(a@.skip(k as int).skip(1) =~= a@.skip(k as int + 1));
            assert(b@.skip(k as int).skip(1) =~= b@.skip(k as int + 1));
        }
        if (ca as u32) < (cb as u32) {
            return true;
        }
        if (ca as u32) > (cb as u32) {
            return false;
        }
        k = k + 1;
    }
}

/// A registered tool: the published description plus the argument list the
/// binder checks calls against.
pub struct ToolDef {
    pub name: String,
    pub title: Option<String>,
    pub description: String,
    pub args: Vec<ArgSpec>,
    pub output: Option<Schema>,
}

/// The shape of a registered tool.
#[verifier::ext_equal]
pub struct ToolDefV {
    pub name: Seq<char>,
    pub title: Option<Seq<char>>,
    pub description: Seq<char>,
    pub args: Seq<ArgSpecV>,
    pub output: Option<SchemaV>,
}

pub open spec fn opt_schema_view(s: Option<Schema>) -> Option<SchemaV> {
    match s {
        Some(sc) => Some(crate::schema::schema_view(sc)),
        None => None,
    }
}

impl View for ToolDef {
    type V = ToolDefV;

    open spec fn view(&self) -> ToolDefV {
        ToolDefV {
            name: self.name@,
            title: opt_str_view(self.title),
            description: self.description@,
            args: args_view(self.args@),
            output: opt_schema_view(self.output),
        }
    }
}

/// A tool over one argument, still unnamed; finish it with `name` and
/// `description`.
pub fn tool(a: ArgSpec) -> (r: ToolDef)
    ensures
        r@.name.len() == 0,
        r@.description.len() == 0,
        r@.args =~= seq![a@],
        r@.title is None,
        r@.output is None,
{
    let mut args: Vec<ArgSpec> = Vec::new();
    args.push(a);
    ToolDef {
        name: String::new(),
        title: None,
        description: String::new(),
        args,
        output: None,
    }
}

/// A tool over two arguments, still unnamed.
pub fn tool_2(a: ArgSpec, b: ArgSpec) -> (r: ToolDef)
    ensures
        r@.name.len() == 0,
        r@.description.len() == 0,
        r@.args =~= seq![a@, b@],
        r@.title is None,
        r@.output is None,
{
    let mut args: Vec<ArgSpec> = Vec::new();
    args.push(a);
    args.push(b);
    ToolDef {
        name: String::new(),
        title: None,
        description: String::new(),
        args,
        output: None,
    }
}

impl ToolDef {
    /// The same tool under the given name.
    pub fn name(self, name: String) -> (r: ToolDef)
        ensures
            r@ == (ToolDefV { name: name@, ..self@ }),
    {
        ToolDef { name, ..self }
    }

    /// The same tool with the given description.
    pub fn description(self, description: String) -> (r: ToolDef)
        ensures
            r@ == (ToolDefV { description: description@, ..self@ }),
    {
        ToolDef { description, ..self }
    }

    /// The input schema this tool publishes, derived from its arguments.
    pub fn input(&self) -> (r: Schema)
        ensures
            r@ == input_schema_spec(self@.args),
    {
        input_schema(&self.args)
    }

    /// The output schema, where the tool declares one.
    pub fn output(&self) -> (r: Option<&Schema>)
        ensures
            match r {
                Some(s) => self@.output == Some(s@),
                None => self@.output is None,
            },
    {
        match &self.output {
            Some(s) => Some(s),
            None => None,
        }
    }
}

/// The first registered tool of the given name.
pub open spec fn find_tool(tools: Seq<ToolDefV>, name: Seq<char>) -> Option<ToolDefV>
    decreases tools.len(),
{
    if tools.len() == 0 {
        None
    } else if tools[0].name == name {
        Some(tools[0])
    } else {
        find_tool(tools.skip(1), name)
    }
}

/// The view of a tool list.
pub open spec fn tools_view(tools: Seq<ToolDef>) -> Seq<ToolDefV> {
    Seq::new(tools.len(), |i: int| tools[i]@)
}

/// Strictly sorted by name: the registry's invariant, which makes the
/// `tools/list` reply sorted and names unique.
pub open spec fn reg_sorted(tools: Seq<ToolDefV>) -> bool {
    forall|i: int, j: int|
        0 <= i < j < tools.len() ==> lex_lt(#[trigger] tools[i].name, #[trigger] tools[j].name)
}

/// Looks a tool up by name.
pub fn lookup_tool<'a>(tools: &'a Vec<ToolDef>, name: &str) -> (r: Option<&'a ToolDef>)
    ensures
        match r {
            Some(t) => find_tool(tools_view(tools@), name@) == Some(t@),
            None => find_tool(tools_view(tools@), name@) is None,
        },
{
    proof {
        assert(tools_view(tools@).skip(0) =~= tools_view(tools@));
    }
    lookup_tool_from(tools, 0, name)
}

fn lookup_tool_from<'a>(tools: &'a Vec<ToolDef>, k: usize, name: &str) -> (r: Option<&'a ToolDef>)
    requires
        k <= tools.len(),
    ensures
        match r {
            Some(t) => find_tool(tools_view(tools@).skip(k as int), name@) == Some(t@),
            None => find_tool(tools_view(tools@).skip(k as int), name@) is None,
        },
    decreases tools.len() - k,
{
    let ghost tv = tools_view(tools@);
    if k < tools.len() {
        proof {
            assert(tv.skip(k as int)[0] == tv[k as int]);
            assert(tv.skip(k as int).skip(1) =~= tv.skip(k as int + 1));
        }
        if crate::json::str_eq(tools[k].name.as_str(), name) {
            Some(&tools[k])
        } else {
            lookup_tool_from(tools, k + 1, name)
        }
    } else {
        proof {
            assert(tv.skip(k as int) =~= Seq::<ToolDefV>::empty());
        }
        None
    }
}

/// A `tools/call` request's parameters: the tool's name and its arguments
/// value.
#[derive(Debug)]
pub struct ToolCall {
    pub name: String,
    pub arguments: Json,
}

/// The shape of a call's parameters.
#[verifier::ext_equal]
pub struct ToolCallV {
    pub name: Seq<char>,
    pub arguments: JsonV,
}

impl View for ToolCall {
    type V = ToolCallV;

    open spec fn view(&self) -> ToolCallV {
        ToolCallV { name: self.name@, arguments: self.arguments@ }
    }
}

/// The call a `tools/call` params document denotes: `name` must be a
/// string; a missing `arguments` member is read as `null`.
pub open spec fn dec_call(j: JsonV) -> Option<ToolCallV> {
    match j {
        JsonV::Obj(pairs) => match obj_get(pairs, "name"@) {
            Some(JsonV::Str(name)) => Some(
                ToolCallV {
                    name,
                    arguments: match obj_get(pairs, "arguments"@) {
                        Some(v) => v,
                        None => JsonV::Null,
                    },
                },
            ),
            _ => None,
        },
        _ => None,
    }
}

/// The document a call's parameters are written as.
pub open spec fn enc_call(c: ToolCallV) -> JsonV {
    JsonV::Obj(seq![("name"@, JsonV::Str(c.name)), ("arguments"@, c.arguments)])
}

impl ToolCall {
    /// Reads a call out of a params document.
    pub fn from_json(j: &Json) -> (r: Option<ToolCall>)
        ensures
            dec_call(j@) matches Some(c) ==> (r matches Some(call) && call@ == c),
            dec_call(j@) is None ==> r is None,
    {
        let pairs = match j {
            Json::Obj(pairs) => pairs,
            _ => {
                return None;
            },
        };
        match obj_lookup(pairs, "name") {
            Some(Json::Str(name)) => {
                let arguments = match obj_lookup(pairs, "arguments") {
                    Some(v) => v.duplicate(),
                    None => Json::Null,
                };
                Some(ToolCall { name: name.clone(), arguments })
            },
            _ => None,
        }
    }

    /// The params document of this call.
    pub fn to_json(self) -> (j: Json)
        ensures
            j@ == enc_call(self@),
    {
        let mut pairs: Vec<(String, Json)> = Vec::new();
        pairs.push(("name".to_owned(), Json::Str(self.name)));
        pairs.push(("arguments".to_owned(), self.arguments));
        let j = Json::Obj(pairs);
        proof {
            lemma_obj_view(pairs@);
            assert(obj_view_from(pairs@, 0) =~~= seq![
                ("name"@, JsonV::Str(pairs@[0].1.arrow_Str_0()@)),
                ("arguments"@, crate::json::json_view(pairs@[1].1)),
            ]);
        }
        j
    }
}

/// The published description of one tool, as `tools/list` reports it.
#[derive(Debug)]
pub struct Tool {
    pub name: String,
    pub title: Option<String>,
    pub description: String,
    pub input_schema: Schema,
    pub output_schema: Option<Schema>,
}

/// The shape of a published tool description.
#[verifier::ext_equal]
pub struct ToolV {
    pub name: Seq<char>,
    pub title: Option<Seq<char>>,
    pub description: Seq<char>,
    pub input_schema: SchemaV,
    pub output_schema: Option<SchemaV>,
}

impl View for Tool {
    type V = ToolV;

    open spec fn view(&self) -> ToolV {
        ToolV {
            name: self.name@,
            title: opt_str_view(self.title),
            description: self.description@,
            input_schema: crate::schema::schema_view(self.input_schema),
            output_schema: opt_schema_view(self.output_schema),
        }
    }
}

/// The `title` member, present exactly when a title is set.
pub open spec fn title_entries(t: Option<Seq<char>>) -> Seq<(Seq<char>, JsonV)> {
    match t {
        Some(v) => seq![("title"@, JsonV::Str(v))],
        None => Seq::empty(),
    }
}

/// The `outputSchema` member, present exactly when one is declared.
pub open spec fn output_entries(s: Option<SchemaV>) -> Seq<(Seq<char>, JsonV)> {
    match s {
        Some(v) => seq![("outputSchema"@, crate::schema::enc_schema(v))],
        None => Seq::empty(),
    }
}

/// The document a published tool description is written as.
pub open spec fn enc_tool(t: ToolV) -> JsonV {
    JsonV::Obj(
        seq![("name"@, JsonV::Str(t.name))] + title_entries(t.title) + seq![
            ("description"@, JsonV::Str(t.description)),
            ("inputSchema"@, crate::schema::enc_schema(t.input_schema)),
        ] + output_entries(t.output_schema),
    )
}

/// The published description a document denotes, if any.
pub open spec fn dec_tool(j: JsonV) -> Option<ToolV> {
    match j {
        JsonV::Obj(pairs) => {
            let title = match obj_get(pairs, "title"@) {
                None => Some(None),
                Some(JsonV::Str(t)) => Some(Some(t)),
                Some(_) => None,
            };
            let output = match obj_get(pairs, "outputSchema"@) {
                None => Some(None),
                Some(v) => match crate::schema::dec_schema(v) {
                    Some(s) => Some(Some(s)),
                    None => None,
                },
            };
            match (obj_get(pairs, "name"@), obj_get(pairs, "description"@), obj_get(
                pairs,
                "inputSchema"@,
            ), title, output) {
                (
                    Some(JsonV::Str(name)),
                    Some(JsonV::Str(description)),
                    Some(input),
                    Some(title),
                    Some(output_schema),
                ) => match crate::schema::dec_schema(input) {
                    Some(input_schema) => Some(
                        ToolV { name, title, description, input_schema, output_schema },
                    ),
                    None => None,
                },
                _ => None,
            }
        },
        _ => None,
    }
}

impl Tool {
    /// The document this description is written as.
    pub fn to_json(&self) -> (j: Json)
        ensures
            j@ == enc_tool(self@),
    {
        let mut pairs: Vec<(String, Json)> = Vec::new();
        pairs.push(("name".to_owned(), Json::Str(self.name.clone())));
        match &self.title {
            Some(t) => {
                pairs.push(("title".to_owned(), Json::Str(t.clone())));
            },
            None => {},
        }
        pairs.push(("description".to_owned(), Json::Str(self.description.clone())));
        pairs.push(("inputSchema".to_owned(), self.input_schema.to_json()));
        match &self.output_schema {
            Some(s) => {
                pairs.push(("outputSchema".to_owned(), s.to_json()));
            },
            None => {},
        }
        let j = Json::Obj(pairs);
        proof {
            lemma_obj_view(pairs@);
            assert(obj_view_from(pairs@, 0) =~~= seq![("name"@, JsonV::Str(self.name@))]
                + title_entries(opt_str_view(self.title)) + seq![
                ("description"@, JsonV::Str(self.description@)),
                ("inputSchema"@, crate::schema::enc_schema(self.input_schema@)),
            ] + output_entries(opt_schema_view(self.output_schema)));
        }
        j
    }

    /// Reads a published description out of a document.
    pub fn from_json(j: &Json) -> (r: Option<Tool>)
        ensures
            dec_tool(j@) matches Some(t) ==> (r matches Some(tool) && tool@ == t),
            dec_tool(j@) is None ==> r is None,
    {
        let pairs = match j {
            Json::Obj(pairs) => pairs,
            _ => {
                return None;
            },
        };
        let name = match obj_lookup(pairs, "name") {
            Some(Json::Str(n)) => n.clone(),
            _ => {
                return None;
            },
        };
        let description = match obj_lookup(pairs, "description") {
            Some(Json::Str(d)) => d.clone(),
            _ => {
                return None;
            },
        };
        let title = match obj_lookup(pairs, "title") {
            None => None,
            Some(Json::Str(t)) => Some(t.clone()),
            Some(_) => {
                return None;
            },
        };
        let input_schema = match obj_lookup(pairs, "inputSchema") {
            Some(v) => match Schema::from_json(v) {
                Some(s) => s,
                None => {
                    return None;
                },
            },
            None => {
                return None;
            },
        };
        let output_schema = match obj_lookup(pairs, "outputSchema") {
            None => None,
            Some(v) => match Schema::from_json(v) {
                Some(s) => Some(s),
                None => {
                    return None;
                },
            },
        };
        Some(Tool { name, title, description, input_schema, output_schema })
    }
}


/// Lexicographic order is transitive.
pub proof fn lemma_lex_le_trans(a: Seq<char>, b: Seq<char>, c: Seq<char>)
    requires
        lex_le(a, b),
        lex_le(b, c),
    ensures
        lex_le(a, c),
    decreases a.len(),
{
    if a.len() > 0 && b.len() > 0 && c.len() > 0 {
        if (a[0] as int) == (b[0] as int) && (b[0] as int) == (c[0] as int) {
            lemma_lex_le_trans(a.skip(1), b.skip(1), c.skip(1));
        }
    }
}

/// Distinct names stay distinct under the order.
pub proof fn lemma_lex_lt_trans(a: Seq<char>, b: Seq<char>, c: Seq<char>)
    requires
        lex_lt(a, b),
        lex_lt(b, c),
    ensures
        lex_lt(a, c),
{
    lemma_lex_le_trans(a, b, c);
    lemma_lex_le_total(a, c);
    if a == c {
        lemma_lex_le_total(a, b);
    }
}

/// Antisymmetry and totality of the order, stated for callers.
pub proof fn lemma_lex_order(a: Seq<char>, b: Seq<char>)
    ensures
        lex_le(a, b) || lex_le(b, a),
        (lex_le(a, b) && lex_le(b, a)) ==> a == b,
        !lex_le(a, b) ==> lex_lt(b, a),
{
    lemma_lex_le_total(a, b);
}

/// Strict character-wise comparison of two names.
pub fn str_lt(a: &str, b: &str) -> (r: bool)
    ensures
        r == lex_lt(a@, b@),
{
    proof {
        lemma_lex_le_total(a@, b@);
    }
    str_le(a, b) && !crate::json::str_eq(a, b)
}

/// `find_tool` scans a concatenation left to right.
pub proof fn lemma_find_tool_concat(xs: Seq<ToolDefV>, ys: Seq<ToolDefV>, name: Seq<char>)
    ensures
        find_tool(xs + ys, name) == (match find_tool(xs, name) {
            Some(t) => Some(t),
            None => find_tool(ys, name),
        }),
    decreases xs.len(),
{
    if xs.len() == 0 {
        assert(xs + ys =~= ys);
    } else {
        assert((xs + ys)[0] == xs[0]);
        assert((xs + ys).skip(1) =~= xs.skip(1) + ys);
        lemma_find_tool_concat(xs.skip(1), ys, name);
    }
}

/// A list whose names all differ from `name` holds no such tool.
pub proof fn lemma_find_tool_absent(xs: Seq<ToolDefV>, name: Seq<char>)
    requires
        forall|i: int| 0 <= i < xs.len() ==> (#[trigger] xs[i].name) != name,
    ensures
        find_tool(xs, name) is None,
    decreases xs.len(),
{
    if xs.len() > 0 {
        assert(xs.skip(1).len() == xs.len() - 1);
        assert forall|i: int| 0 <= i < xs.skip(1).len() implies (#[trigger] xs.skip(1)[i].name)
            != name by {
            assert(xs.skip(1)[i] == xs[i + 1]);
        }
        lemma_find_tool_absent(xs.skip(1), name);
    }
}


} // verus!
