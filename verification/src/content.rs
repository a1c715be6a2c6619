//! Tool results: content blocks, the structured/unstructured split, and the
//! `Outcome` envelope with its `isError` flag.
//!
//! On the wire an outcome is flattened: unstructured blocks go under a
//! `content` list, a structured value under `structuredContent`; the key
//! name is the discriminator. Writing and reading are exact inverses
//! (`lemma_outcome_round_trip`).

use vstd::prelude::*;

use crate::json::Json;
use crate::json::JsonV;
use crate::json::lemma_lookup_chain;
use crate::json::lemma_obj_view;
use crate::json::obj_get;
use crate::json::obj_has;
use crate::json::obj_lookup;
use crate::json::obj_view_from;
use crate::json::str_eq;

verus! {

broadcast use vstd::std_specs::vec::group_vec_axioms, vstd::seq::group_seq_axioms;

/// Base64-encoded binary payload, carried as text.
#[derive(Debug)]
pub struct Base64(pub String);

/// One unstructured content block.
#[derive(Debug)]
pub enum Unstructured {
    Text { text: String },
    Image { data: Base64, mime_type: String },
    Audio { data: Base64, mime_type: String },
    ResourceLink { uri: String, name: String, description: String, mime_type: String },
    Resource { uri: String, title: String, mime_type: String, text: String },
}

/// The shape of a content block.
#[verifier::ext_equal]
pub enum UnstructuredV {
    Text { text: Seq<char> },
    Image { data: Seq<char>, mime_type: Seq<char> },
    Audio { data: Seq<char>, mime_type: Seq<char> },
    ResourceLink { uri: Seq<char>, name: Seq<char>, description: Seq<char>, mime_type: Seq<char> },
    Resource { uri: Seq<char>, title: Seq<char>, mime_type: Seq<char>, text: Seq<char> },
}

impl View for Unstructured {
    type V = UnstructuredV;

    open spec fn view(&self) -> UnstructuredV {
        match self {
            Unstructured::Text { text } => UnstructuredV::Text { text: text@ },
            Unstructured::Image { data, mime_type } => UnstructuredV::Image {
                data: data.0@,
                mime_type: mime_type@,
            },
            Unstructured::Audio { data, mime_type } => UnstructuredV::Audio {
                data: data.0@,
                mime_type: mime_type@,
            },
            Unstructured::ResourceLink { uri, name, description, mime_type } => {
                UnstructuredV::ResourceLink {
                    uri: uri@,
                    name: name@,
                    description: description@,
                    mime_type: mime_type@,
                }
            },
            Unstructured::Resource { uri, title, mime_type, text } => UnstructuredV::Resource {
                uri: uri@,
                title: title@,
                mime_type: mime_type@,
                text: text@,
            },
        }
    }
}

/// A tool's result content: a list of blocks, or one structured value.
#[derive(Debug)]
pub enum Content {
    Unstructured(Vec<Unstructured>),
    Structured(Json),
}

/// The shape of a tool's result content.
#[verifier::ext_equal]
pub enum ContentV {
    Unstructured(Seq<UnstructuredV>),
    Structured(JsonV),
}

impl View for Content {
    type V = ContentV;

    open spec fn view(&self) -> ContentV {
        match self {
            Content::Unstructured(parts) => ContentV::Unstructured(
                Seq::new(parts@.len(), |i: int| parts@[i]@),
            ),
            Content::Structured(v) => ContentV::Structured(v@),
        }
    }
}

/// What a tool call produced: its content and whether it reports a failure.
#[derive(Debug)]
pub struct Outcome {
    pub content: Content,
    pub is_error: bool,
}

/// The shape of an outcome.
#[verifier::ext_equal]
pub struct OutcomeV {
    pub content: ContentV,
    pub is_error: bool,
}

impl View for Outcome {
    type V = OutcomeV;

    open spec fn view(&self) -> OutcomeV {
        OutcomeV { content: self.content@, is_error: self.is_error }
    }
}

impl Outcome {
    /// A single text block, the plainest successful result.
    pub fn text(text: String) -> (r: Outcome)
        ensures
            r@ == (OutcomeV {
                content: ContentV::Unstructured(seq![UnstructuredV::Text { text: text@ }]),
                is_error: false,
            }),
    {
        let mut parts: Vec<Unstructured> = Vec::new();
        parts.push(Unstructured::Text { text });
        let r = Outcome { content: Content::Unstructured(parts), is_error: false };
        proof {
            assert(r@.content =~~= ContentV::Unstructured(
                seq![UnstructuredV::Text { text: text@ }],
            ));
        }
        r
    }
}

/// Conversion of a handler's native return value into an outcome.
///
/// A plain value becomes a successful outcome; a `Result` keeps its value
/// on success and reports the error's text with `is_error` set on failure.
pub trait IntoOutcome {
    fn into_outcome(self) -> Outcome;
}

impl IntoOutcome for String {
    /// One text block, not an error.
    fn into_outcome(self) -> (r: Outcome)
        ensures
            r@ == (OutcomeV {
                content: ContentV::Unstructured(seq![UnstructuredV::Text { text: self@ }]),
                is_error: false,
            }),
    {
        Outcome::text(self)
    }
}

impl IntoOutcome for Outcome {
    /// An outcome passes through unchanged.
    fn into_outcome(self) -> (r: Outcome)
        ensures
            r@ == self@,
    {
        self
    }
}

impl IntoOutcome for Result<String, String> {
    /// The value's text on success; the error's text with `is_error` set on
    /// failure.
    fn into_outcome(self) -> (r: Outcome)
        ensures
            r@ == (match self {
                Ok(t) => OutcomeV {
                    content: ContentV::Unstructured(seq![UnstructuredV::Text { text: t@ }]),
                    is_error: false,
                },
                Err(e) => OutcomeV {
                    content: ContentV::Unstructured(seq![UnstructuredV::Text { text: e@ }]),
                    is_error: true,
                },
            }),
    {
        match self {
            Ok(t) => Outcome::text(t),
            Err(e) => {
                let mut parts: Vec<Unstructured> = Vec::new();
                parts.push(Unstructured::Text { text: e });
                let r = Outcome { content: Content::Unstructured(parts), is_error: true };
                proof {
                    assert(r@.content =~~= ContentV::Unstructured(
                        seq![UnstructuredV::Text { text: parts@[0].arrow_Text_text()@ }],
                    ));
                }
                r
            },
        }
    }
}

/// The document a content block is written as.
pub open spec fn enc_part(p: UnstructuredV) -> JsonV {
    match p {
        UnstructuredV::Text { text } => JsonV::Obj(
            seq![("type"@, JsonV::Str("text"@)), ("text"@, JsonV::Str(text))],
        ),
        UnstructuredV::Image { data, mime_type } => JsonV::Obj(
            seq![
                ("type"@, JsonV::Str("image"@)),
                ("data"@, JsonV::Str(data)),
                ("mimeType"@, JsonV::Str(mime_type)),
            ],
        ),
        UnstructuredV::Audio { data, mime_type } => JsonV::Obj(
            seq![
                ("type"@, JsonV::Str("audio"@)),
                ("data"@, JsonV::Str(data)),
                ("mimeType"@, JsonV::Str(mime_type)),
            ],
        ),
        UnstructuredV::ResourceLink { uri, name, description, mime_type } => JsonV::Obj(
            seq![
                ("type"@, JsonV::Str("resourceLink"@)),
                ("uri"@, JsonV::Str(uri)),
                ("name"@, JsonV::Str(name)),
                ("description"@, JsonV::Str(description)),
                ("mimeType"@, JsonV::Str(mime_type)),
            ],
        ),
        UnstructuredV::Resource { uri, title, mime_type, text } => JsonV::Obj(
            seq![
                ("type"@, JsonV::Str("resource"@)),
                ("uri"@, JsonV::Str(uri)),
                ("title"@, JsonV::Str(title)),
                ("mimeType"@, JsonV::Str(mime_type)),
                ("text"@, JsonV::Str(text)),
            ],
        ),
    }
}

/// The document an outcome is written as.
pub open spec fn enc_outcome(o: OutcomeV) -> JsonV {
    match o.content {
        ContentV::Unstructured(parts) => JsonV::Obj(
            seq![
                ("content"@, JsonV::Arr(Seq::new(parts.len(), |i: int| enc_part(parts[i])))),
                ("isError"@, JsonV::Bool(o.is_error)),
            ],
        ),
        ContentV::Structured(v) => JsonV::Obj(
            seq![("structuredContent"@, v), ("isError"@, JsonV::Bool(o.is_error))],
        ),
    }
}

/// The content block a document denotes, if any.
pub open spec fn dec_part(j: JsonV) -> Option<UnstructuredV> {
    match j {
        JsonV::Obj(pairs) => match obj_get(pairs, "type"@) {
            Some(JsonV::Str(t)) => if t == "text"@ {
                match obj_get(pairs, "text"@) {
                    Some(JsonV::Str(text)) => Some(UnstructuredV::Text { text }),
                    _ => None,
                }
            } else if t == "image"@ {
                match (obj_get(pairs, "data"@), obj_get(pairs, "mimeType"@)) {
                    (Some(JsonV::Str(data)), Some(JsonV::Str(mime_type))) => Some(
                        UnstructuredV::Image { data, mime_type },
                    ),
                    _ => None,
                }
            } else if t == "audio"@ {
                match (obj_get(pairs, "data"@), obj_get(pairs, "mimeType"@)) {
                    (Some(JsonV::Str(data)), Some(JsonV::Str(mime_type))) => Some(
                        UnstructuredV::Audio { data, mime_type },
                    ),
                    _ => None,
                }
            } else if t == "resourceLink"@ {
                match (
                    obj_get(pairs, "uri"@),
                    obj_get(pairs, "name"@),
                    obj_get(pairs, "description"@),
                    obj_get(pairs, "mimeType"@),
                ) {
                    (
                        Some(JsonV::Str(uri)),
                        Some(JsonV::Str(name)),
                        Some(JsonV::Str(description)),
                        Some(JsonV::Str(mime_type)),
                    ) => Some(UnstructuredV::ResourceLink { uri, name, description, mime_type }),
                    _ => None,
                }
            } else if t == "resource"@ {
                match (
                    obj_get(pairs, "uri"@),
                    obj_get(pairs, "title"@),
                    obj_get(pairs, "mimeType"@),
                    obj_get(pairs, "text"@),
                ) {
                    (
                        Some(JsonV::Str(uri)),
                        Some(JsonV::Str(title)),
                        Some(JsonV::Str(mime_type)),
                        Some(JsonV::Str(text)),
                    ) => Some(UnstructuredV::Resource { uri, title, mime_type, text }),
                    _ => None,
                }
            } else {
                None
            },
            _ => None,
        },
        _ => None,
    }
}

pub open spec fn dec_parts(items: Seq<JsonV>, k: int) -> Option<Seq<UnstructuredV>>
    decreases items.len() - k,
{
    if 0 <= k < items.len() {
        match dec_part(items[k]) {
            Some(p) => match dec_parts(items, k + 1) {
                Some(rest) => Some(seq![p] + rest),
                None => None,
            },
            None => None,
        }
    } else {
        Some(Seq::empty())
    }
}

/// The outcome a document denotes, if any.
pub open spec fn dec_outcome(j: JsonV) -> Option<OutcomeV> {
    match j {
        JsonV::Obj(pairs) => {
            let is_error = match obj_get(pairs, "isError"@) {
                Some(JsonV::Bool(b)) => Some(b),
                None => Some(false),
                _ => None,
            };
            match is_error {
                Some(is_error) => if obj_has(pairs, "structuredContent"@) {
                    match obj_get(pairs, "structuredContent"@) {
                        Some(v) => Some(OutcomeV { content: ContentV::Structured(v), is_error }),
                        None => None,
                    }
                } else {
                    match obj_get(pairs, "content"@) {
                        Some(JsonV::Arr(items)) => match dec_parts(items, 0) {
                            Some(parts) => Some(
                                OutcomeV { content: ContentV::Unstructured(parts), is_error },
                            ),
                            None => None,
                        },
                        _ => None,
                    }
                },
                None => None,
            }
        },
        _ => None,
    }
}

impl Unstructured {
    /// The document this block is written as.
    pub fn to_json(&self) -> (j: Json)
        ensures
            j@ == enc_part(self@),
    {
        let mut pairs: Vec<(String, Json)> = Vec::new();
        match self {
            Unstructured::Text { text } => {
                pairs.push(("type".to_owned(), Json::Str("text".to_owned())));
                pairs.push(("text".to_owned(), Json::Str(text.clone())));
            },
            Unstructured::Image { data, mime_type } => {
                pairs.push(("type".to_owned(), Json::Str("image".to_owned())));
                pairs.push(("data".to_owned(), Json::Str(data.0.clone())));
                pairs.push(("mimeType".to_owned(), Json::Str(mime_type.clone())));
            },
            Unstructured::Audio { data, mime_type } => {
                pairs.push(("type".to_owned(), Json::Str("audio".to_owned())));
                pairs.push(("data".to_owned(), Json::Str(data.0.clone())));
                pairs.push(("mimeType".to_owned(), Json::Str(mime_type.clone())));
            },
            Unstructured::ResourceLink { uri, name, description, mime_type } => {
                pairs.push(("type".to_owned(), Json::Str("resourceLink".to_owned())));
                pairs.push(("uri".to_owned(), Json::Str(uri.clone())));
                pairs.push(("name".to_owned(), Json::Str(name.clone())));
                pairs.push(("description".to_owned(), Json::Str(description.clone())));
                pairs.push(("mimeType".to_owned(), Json::Str(mime_type.clone())));
            },
            Unstructured::Resource { uri, title, mime_type, text } => {
                pairs.push(("type".to_owned(), Json::Str("resource".to_owned())));
                pairs.push(("uri".to_owned(), Json::Str(uri.clone())));
                pairs.push(("title".to_owned(), Json::Str(title.clone())));
                pairs.push(("mimeType".to_owned(), Json::Str(mime_type.clone())));
                pairs.push(("text".to_owned(), Json::Str(text.clone())));
            },
        }
        let j = Json::Obj(pairs);
        proof {
            lemma_obj_view(pairs@);
            match enc_part(self@) {
                JsonV::Obj(target) => {
                    assert(obj_view_from(pairs@, 0) =~~= target);
                },
                _ => {
                    assert(false);
                },
            }
        }
        j
    }

    /// Reads a content block out of a document.
    pub fn from_json(j: &Json) -> (r: Option<Unstructured>)
        ensures
            dec_part(j@) matches Some(p) ==> (r matches Some(u) && u@ == p),
            dec_part(j@) is None ==> r is None,
    {
        let pairs = match j {
            Json::Obj(pairs) => pairs,
            _ => {
                return None;
            },
        };
        let t = match obj_lookup(pairs, "type") {
            Some(Json::Str(t)) => t,
            _ => {
                return None;
            },
        };
        if str_eq(t.as_str(), "text") {
            match obj_lookup(pairs, "text") {
                Some(Json::Str(text)) => Some(Unstructured::Text { text: text.clone() }),
                _ => None,
            }
        } else if str_eq(t.as_str(), "image") {
            match (obj_lookup(pairs, "data"), obj_lookup(pairs, "mimeType")) {
                (Some(Json::Str(data)), Some(Json::Str(mime_type))) => Some(
                    Unstructured::Image {
                        data: Base64(data.clone()),
                        mime_type: mime_type.clone(),
                    },
                ),
                _ => None,
            }
        } else if str_eq(t.as_str(), "audio") {
            match (obj_lookup(pairs, "data"), obj_lookup(pairs, "mimeType")) {
                (Some(Json::Str(data)), Some(Json::Str(mime_type))) => Some(
                    Unstructured::Audio {
                        data: Base64(data.clone()),
                        mime_type: mime_type.clone(),
                    },
                ),
                _ => None,
            }
        } else if str_eq(t.as_str(), "resourceLink") {
            match (
                obj_lookup(pairs, "uri"),
                obj_lookup(pairs, "name"),
                obj_lookup(pairs, "description"),
                obj_lookup(pairs, "mimeType"),
            ) {
                (
                    Some(Json::Str(uri)),
                    Some(Json::Str(name)),
                    Some(Json::Str(description)),
                    Some(Json::Str(mime_type)),
                ) => Some(
                    Unstructured::ResourceLink {
                        uri: uri.clone(),
                        name: name.clone(),
                        description: description.clone(),
                        mime_type: mime_type.clone(),
                    },
                ),
                _ => None,
            }
        } else if str_eq(t.as_str(), "resource") {
            match (
                obj_lookup(pairs, "uri"),
                obj_lookup(pairs, "title"),
                obj_lookup(pairs, "mimeType"),
                obj_lookup(pairs, "text"),
            ) {
                (
                    Some(Json::Str(uri)),
                    Some(Json::Str(title)),
                    Some(Json::Str(mime_type)),
                    Some(Json::Str(text)),
                ) => Some(
                    Unstructured::Resource {
                        uri: uri.clone(),
                        title: title.clone(),
                        mime_type: mime_type.clone(),
                        text: text.clone(),
                    },
                ),
                _ => None,
            }
        } else {
            None
        }
    }
}

fn parts_from_json(items: &Vec<Json>, k: usize) -> (r: Option<Vec<Unstructured>>)
    requires
        k <= items.len(),
    ensures
        match r {
            Some(v) => dec_parts(crate::json::arr_view_from(items@, 0), k as int) == Some(
                Seq::new(v@.len(), |i: int| v@[i]@),
            ),
            None => dec_parts(crate::json::arr_view_from(items@, 0), k as int) is None,
        },
    decreases items.len() - k,
{
    proof {
        crate::json::lemma_arr_view(items@);
    }
    if k < items.len() {
        match Unstructured::from_json(&items[k]) {
            Some(part) => {
                match parts_from_json(items, k + 1) {
                    Some(mut rest) => {
                        let ghost before = rest@;
                        rest.insert(0, part);
                        proof {
                            assert(rest@.skip(1) =~= before);
                            assert(Seq::new(rest@.len(), |i: int| rest@[i]@) =~~= seq![rest@[0]@]
                                + Seq::new(before.len(), |i: int| before[i]@));
                        }
                        Some(rest)
                    },
                    None => None,
                }
            },
            None => None,
        }
    } else {
        let v: Vec<Unstructured> = Vec::new();
        proof {
            assert(Seq::new(v@.len(), |i: int| v@[i]@) =~~= Seq::<UnstructuredV>::empty());
        }
        Some(v)
    }
}

impl Outcome {
    /// The document this outcome is written as.
    pub fn to_json(&self) -> (j: Json)
        ensures
            j@ == enc_outcome(self@),
    {
        let mut pairs: Vec<(String, Json)> = Vec::new();
        match &self.content {
            Content::Unstructured(parts) => {
                let mut items: Vec<Json> = Vec::new();
                let mut k: usize = 0;
                while k < parts.len()
                    invariant
                        k <= parts.len(),
                        items@.len() == k as int,
                        forall|i: int| 0 <= i < k ==> items@[i]@ == enc_part(parts@[i]@),
                    decreases parts.len() - k,
                {
                    items.push(parts[k].to_json());
                    k = k + 1;
                }
                pairs.push(("content".to_owned(), Json::Arr(items)));
                pairs.push(("isError".to_owned(), Json::Bool(self.is_error)));
                let j = Json::Obj(pairs);
                proof {
                    lemma_obj_view(pairs@);
                    crate::json::lemma_arr_view(items@);
                    let pv = Seq::new(parts@.len(), |i: int| parts@[i]@);
                    assert(crate::json::arr_view_from(items@, 0) =~~= Seq::new(
                        pv.len(),
                        |i: int| enc_part(pv[i]),
                    ));
                    assert(obj_view_from(pairs@, 0) =~~= seq![
                        ("content"@, JsonV::Arr(Seq::new(pv.len(), |i: int| enc_part(pv[i])))),
                        ("isError"@, JsonV::Bool(self.is_error)),
                    ]);
                    assert(j@ =~~= enc_outcome(self@));
                }
                j
            },
            Content::Structured(v) => {
                pairs.push(("structuredContent".to_owned(), v.duplicate()));
                pairs.push(("isError".to_owned(), Json::Bool(self.is_error)));
                let j = Json::Obj(pairs);
                proof {
                    lemma_obj_view(pairs@);
                    assert(obj_view_from(pairs@, 0) =~~= seq![
                        ("structuredContent"@, crate::json::json_view(*v)),
                        ("isError"@, JsonV::Bool(self.is_error)),
                    ]);
                    assert(j@ =~~= enc_outcome(self@));
                }
                j
            },
        }
    }

    /// Reads an outcome out of a document.
    pub fn from_json(j: &Json) -> (r: Option<Outcome>)
        ensures
            dec_outcome(j@) matches Some(o) ==> (r matches Some(out) && out@ == o),
            dec_outcome(j@) is None ==> r is None,
    {
        let pairs = match j {
            Json::Obj(pairs) => pairs,
            _ => {
                return None;
            },
        };
        let is_error = match obj_lookup(pairs, "isError") {
            Some(Json::Bool(b)) => *b,
            None => false,
            Some(_) => {
                return None;
            },
        };
        match obj_lookup(pairs, "structuredContent") {
            Some(v) => Some(Outcome { content: Content::Structured(v.duplicate()), is_error }),
            None => {
                match obj_lookup(pairs, "content") {
                    Some(Json::Arr(items)) => match parts_from_json(items, 0) {
                        Some(parts) => Some(
                            Outcome { content: Content::Unstructured(parts), is_error },
                        ),
                        None => None,
                    },
                    _ => None,
                }
            },
        }
    }
}


/// The member names of blocks and outcomes are pairwise distinct where the
/// reader must tell them apart.
proof fn lemma_content_keys_distinct()
    ensures
        "type"@ != "text"@,
        "type"@ != "data"@,
        "type"@ != "mimeType"@,
        "type"@ != "uri"@,
        "type"@ != "name"@,
        "type"@ != "description"@,
        "type"@ != "title"@,
        "text"@ != "data"@,
        "text"@ != "mimeType"@,
        "text"@ != "uri"@,
        "text"@ != "name"@,
        "text"@ != "description"@,
        "text"@ != "title"@,
        "data"@ != "mimeType"@,
        "data"@ != "uri"@,
        "data"@ != "name"@,
        "uri"@ != "mimeType"@,
        "uri"@ != "name"@,
        "uri"@ != "description"@,
        "uri"@ != "title"@,
        "name"@ != "mimeType"@,
        "name"@ != "description"@,
        "title"@ != "mimeType"@,
        "title"@ != "text"@,
        "title"@ != "description"@,
        "description"@ != "mimeType"@,
        "content"@ != "structuredContent"@,
        "content"@ != "isError"@,
        "isError"@ != "structuredContent"@,
        "text"@ != "image"@,
        "text"@ != "audio"@,
        "text"@ != "resourceLink"@,
        "text"@ != "resource"@,
        "image"@ != "audio"@,
        "image"@ != "resourceLink"@,
        "image"@ != "resource"@,
        "audio"@ != "resourceLink"@,
        "audio"@ != "resource"@,
        "resourceLink"@ != "resource"@,
{
    reveal_strlit("type");
    reveal_strlit("text");
    reveal_strlit("data");
    reveal_strlit("mimeType");
    reveal_strlit("uri");
    reveal_strlit("name");
    reveal_strlit("description");
    reveal_strlit("title");
    reveal_strlit("content");
    reveal_strlit("structuredContent");
    reveal_strlit("isError");
    reveal_strlit("image");
    reveal_strlit("audio");
    reveal_strlit("resourceLink");
    reveal_strlit("resource");
    assert("type"@.len() == 4);
    assert("text"@.len() == 4);
    assert("data"@.len() == 4);
    assert("mimeType"@.len() == 8);
    assert("uri"@.len() == 3);
    assert("name"@.len() == 4);
    assert("description"@.len() == 11);
    assert("title"@.len() == 5);
    assert("content"@.len() == 7);
    assert("structuredContent"@.len() == 17);
    assert("isError"@.len() == 7);
    assert("image"@.len() == 5);
    assert("audio"@.len() == 5);
    assert("resourceLink"@.len() == 12);
    assert("resource"@.len() == 8);
    assert("type"@[1] == 'y');
    assert("text"@[1] == 'e');
    assert("data"@[0] == 'd');
    assert("name"@[0] == 'n');
    assert("type"@[0] == 't');
    assert("text"@[0] == 't');
    assert("content"@[0] == 'c');
    assert("isError"@[0] == 'i');
    assert("image"@[0] == 'i');
    assert("audio"@[0] == 'a');
    assert("title"@[0] == 't');
    assert("title"@[1] == 'i');
}

/// Writing a content block and reading it back yields the block unchanged.
proof fn lemma_part_round_trip(p: UnstructuredV)
    ensures
        dec_part(enc_part(p)) == Some(p),
{
    lemma_content_keys_distinct();
    match p {
        UnstructuredV::Text { text } => {
            let pairs = seq![("type"@, JsonV::Str("text"@)), ("text"@, JsonV::Str(text))];
            lemma_lookup_chain(pairs, "type"@);
            lemma_lookup_chain(pairs, "text"@);
            assert(dec_part(enc_part(p)) == Some(p));
        },
        UnstructuredV::Image { data, mime_type } => {
            let pairs = seq![
                ("type"@, JsonV::Str("image"@)),
                ("data"@, JsonV::Str(data)),
                ("mimeType"@, JsonV::Str(mime_type)),
            ];
            lemma_lookup_chain(pairs, "type"@);
            lemma_lookup_chain(pairs, "data"@);
            lemma_lookup_chain(pairs, "mimeType"@);
            assert(dec_part(enc_part(p)) == Some(p));
        },
        UnstructuredV::Audio { data, mime_type } => {
            let pairs = seq![
                ("type"@, JsonV::Str("audio"@)),
                ("data"@, JsonV::Str(data)),
                ("mimeType"@, JsonV::Str(mime_type)),
            ];
            lemma_lookup_chain(pairs, "type"@);
            lemma_lookup_chain(pairs, "data"@);
            lemma_lookup_chain(pairs, "mimeType"@);
            assert(dec_part(enc_part(p)) == Some(p));
        },
        UnstructuredV::ResourceLink { uri, name, description, mime_type } => {
            let pairs = seq![
                ("type"@, JsonV::Str("resourceLink"@)),
                ("uri"@, JsonV::Str(uri)),
                ("name"@, JsonV::Str(name)),
                ("description"@, JsonV::Str(description)),
                ("mimeType"@, JsonV::Str(mime_type)),
            ];
            lemma_lookup_chain(pairs, "type"@);
            lemma_lookup_chain(pairs, "uri"@);
            lemma_lookup_chain(pairs, "name"@);
            lemma_lookup_chain(pairs, "description"@);
            lemma_lookup_chain(pairs, "mimeType"@);
            assert(dec_part(enc_part(p)) == Some(p));
        },
        UnstructuredV::Resource { uri, title, mime_type, text } => {
            let pairs = seq![
                ("type"@, JsonV::Str("resource"@)),
                ("uri"@, JsonV::Str(uri)),
                ("title"@, JsonV::Str(title)),
                ("mimeType"@, JsonV::Str(mime_type)),
                ("text"@, JsonV::Str(text)),
            ];
            lemma_lookup_chain(pairs, "type"@);
            lemma_lookup_chain(pairs, "uri"@);
            lemma_lookup_chain(pairs, "title"@);
            lemma_lookup_chain(pairs, "mimeType"@);
            lemma_lookup_chain(pairs, "text"@);
            assert(dec_part(enc_part(p)) == Some(p));
        },
    }
}

proof fn lemma_parts_round_trip(parts: Seq<UnstructuredV>, k: int)
    requires
        0 <= k <= parts.len(),
    ensures
        dec_parts(Seq::new(parts.len(), |i: int| enc_part(parts[i])), k) == Some(parts.skip(k)),
    decreases parts.len() - k,
{
    if k < parts.len() {
        lemma_part_round_trip(parts[k]);
        lemma_parts_round_trip(parts, k + 1);
        assert(seq![parts[k]] + parts.skip(k + 1) =~= parts.skip(k));
    } else {
        assert(parts.skip(k) =~= Seq::<UnstructuredV>::empty());
    }
}

/// Writing an outcome and reading it back yields the outcome unchanged; in
/// particular a structured value survives the trip as the same document.
pub proof fn lemma_outcome_round_trip(o: OutcomeV)
    ensures
        dec_outcome(enc_outcome(o)) == Some(o),
{
    lemma_content_keys_distinct();
    match o.content {
        ContentV::Unstructured(parts) => {
            let items = Seq::new(parts.len(), |i: int| enc_part(parts[i]));
            let pairs = seq![
                ("content"@, JsonV::Arr(items)),
                ("isError"@, JsonV::Bool(o.is_error)),
            ];
            lemma_lookup_chain(pairs, "content"@);
            lemma_lookup_chain(pairs, "isError"@);
            lemma_lookup_chain(pairs, "structuredContent"@);
            lemma_parts_round_trip(parts, 0);
            assert(parts.skip(0) =~= parts);
            assert(dec_outcome(enc_outcome(o)) == Some(o));
        },
        ContentV::Structured(v) => {
            let pairs = seq![
                ("structuredContent"@, v),
                ("isError"@, JsonV::Bool(o.is_error)),
            ];
            lemma_lookup_chain(pairs, "structuredContent"@);
            lemma_lookup_chain(pairs, "isError"@);
            lemma_lookup_chain(pairs, "content"@);
            assert(dec_outcome(enc_outcome(o)) == Some(o));
        },
    }
}


} // verus!
