//! The initialize handshake payloads: client and server information, the
//! server's capabilities, and the `initialized` notification.

use vstd::prelude::*;

use crate::json::Json;
use crate::json::JsonV;
use crate::json::lemma_obj_view;
use crate::json::obj_get;
use crate::json::obj_lookup;
use crate::json::obj_view_from;
use crate::message::Message;
use crate::message::MessageV;

verus! {

broadcast use vstd::std_specs::vec::group_vec_axioms, vstd::seq::group_seq_axioms;

/// The protocol revision this crate implements.
pub const VERSION: &'static str = "2025-06-18";

/// Whether a flag is off; an off flag is left off the wire.
pub fn is_false(b: &bool) -> (r: bool)
    ensures
        r == !*b,
{
    !*b
}

/// The server's tool capability flags.
pub struct Tools {
    pub list_changed: bool,
}

/// The capabilities a server announces: the tools capability is present
/// exactly when the server serves tools.
pub struct Capabilities {
    pub tools: Option<Tools>,
}

/// The shape of an announced capability set.
#[verifier::ext_equal]
pub struct CapabilitiesV {
    pub tools: Option<bool>,
}

impl View for Capabilities {
    type V = CapabilitiesV;

    open spec fn view(&self) -> CapabilitiesV {
        CapabilitiesV {
            tools: match self.tools {
                Some(t) => Some(t.list_changed),
                None => None,
            },
        }
    }
}

/// The server's self-description.
pub struct ServerInfo {
    pub name: String,
    pub version: String,
}

/// The shape of a server's self-description.
#[verifier::ext_equal]
pub struct ServerInfoV {
    pub name: Seq<char>,
    pub version: Seq<char>,
}

impl View for ServerInfo {
    type V = ServerInfoV;

    open spec fn view(&self) -> ServerInfoV {
        ServerInfoV { name: self.name@, version: self.version@ }
    }
}

/// The client's self-description.
pub struct ClientInfo {
    pub name: String,
    pub title: Option<String>,
    pub version: String,
}

/// The shape of a client's self-description.
#[verifier::ext_equal]
pub struct ClientInfoV {
    pub name: Seq<char>,
    pub title: Option<Seq<char>>,
    pub version: Seq<char>,
}

impl View for ClientInfo {
    type V = ClientInfoV;

    open spec fn view(&self) -> ClientInfoV {
        ClientInfoV {
            name: self.name@,
            title: crate::schema::opt_str_view(self.title),
            version: self.version@,
        }
    }
}

/// The document a capability set is written as: an empty object when
/// nothing is announced, the `listChanged` flag only when it is on.
pub open spec fn enc_capabilities(c: CapabilitiesV) -> JsonV {
    JsonV::Obj(
        match c.tools {
            None => Seq::empty(),
            Some(list_changed) => seq![
                (
                    "tools"@,
                    JsonV::Obj(
                        if list_changed {
                            seq![("listChanged"@, JsonV::Bool(true))]
                        } else {
                            Seq::empty()
                        },
                    ),
                ),
            ],
        },
    )
}

/// The document a server's self-description is written as.
pub open spec fn enc_server_info(s: ServerInfoV) -> JsonV {
    JsonV::Obj(seq![("name"@, JsonV::Str(s.name)), ("version"@, JsonV::Str(s.version))])
}

/// The result of a successful `initialize`.
pub struct InitializeResult {
    pub protocol_version: String,
    pub capabilities: Capabilities,
    pub server_info: ServerInfo,
}

/// The shape of an initialize result.
#[verifier::ext_equal]
pub struct InitializeResultV {
    pub protocol_version: Seq<char>,
    pub capabilities: CapabilitiesV,
    pub server_info: ServerInfoV,
}

impl View for InitializeResult {
    type V = InitializeResultV;

    open spec fn view(&self) -> InitializeResultV {
        InitializeResultV {
            protocol_version: self.protocol_version@,
            capabilities: self.capabilities@,
            server_info: self.server_info@,
        }
    }
}

/// The document an initialize result is written as.
pub open spec fn enc_initialize_result(r: InitializeResultV) -> JsonV {
    JsonV::Obj(
        seq![
            ("protocolVersion"@, JsonV::Str(r.protocol_version)),
            ("capabilities"@, enc_capabilities(r.capabilities)),
            ("serverInfo"@, enc_server_info(r.server_info)),
        ],
    )
}

/// The initialize result a document denotes, if any. A missing
/// `listChanged` flag reads as off; a missing `tools` member as the
/// capability not announced.
pub open spec fn dec_initialize_result(j: JsonV) -> Option<InitializeResultV> {
    match j {
        JsonV::Obj(pairs) => match (
            obj_get(pairs, "protocolVersion"@),
            obj_get(pairs, "capabilities"@),
            obj_get(pairs, "serverInfo"@),
        ) {
            (Some(JsonV::Str(protocol_version)), Some(caps), Some(info)) => match (
                dec_capabilities(caps),
                dec_server_info(info),
            ) {
                (Some(capabilities), Some(server_info)) => Some(
                    InitializeResultV { protocol_version, capabilities, server_info },
                ),
                _ => None,
            },
            _ => None,
        },
        _ => None,
    }
}

pub open spec fn dec_capabilities(j: JsonV) -> Option<CapabilitiesV> {
    match j {
        JsonV::Obj(pairs) => match obj_get(pairs, "tools"@) {
            None => Some(CapabilitiesV { tools: None }),
            Some(JsonV::Obj(tpairs)) => match obj_get(tpairs, "listChanged"@) {
                None => Some(CapabilitiesV { tools: Some(false) }),
                Some(JsonV::Bool(b)) => Some(CapabilitiesV { tools: Some(b) }),
                Some(_) => None,
            },
            Some(_) => None,
        },
        _ => None,
    }
}

pub open spec fn dec_server_info(j: JsonV) -> Option<ServerInfoV> {
    match j {
        JsonV::Obj(pairs) => match (obj_get(pairs, "name"@), obj_get(pairs, "version"@)) {
            (Some(JsonV::Str(name)), Some(JsonV::Str(version))) => Some(
                ServerInfoV { name, version },
            ),
            _ => None,
        },
        _ => None,
    }
}

impl InitializeResult {
    /// The document this result is written as.
    pub fn to_json(&self) -> (j: Json)
        ensures
            j@ == enc_initialize_result(self@),
    {
        let mut caps: Vec<(String, Json)> = Vec::new();
        match &self.capabilities.tools {
            Some(t) => {
                let mut tp: Vec<(String, Json)> = Vec::new();
                if !is_false(&t.list_changed) {
                    tp.push(("listChanged".to_owned(), Json::Bool(true)));
                }
                proof {
                    lemma_obj_view(tp@);
                    assert(obj_view_from(tp@, 0) =~~= (if t.list_changed {
                        seq![("listChanged"@, JsonV::Bool(true))]
                    } else {
                        Seq::<(Seq<char>, JsonV)>::empty()
                    }));
                }
                caps.push(("tools".to_owned(), Json::Obj(tp)));
            },
            None => {},
        }
        let caps_json = Json::Obj(caps);
        proof {
            lemma_obj_view(caps@);
            match enc_capabilities(self.capabilities@) {
                JsonV::Obj(target) => {
                    assert(obj_view_from(caps@, 0) =~~= target);
                },
                _ => {
                    assert(false);
                },
            }
        }
        let mut info: Vec<(String, Json)> = Vec::new();
        info.push(("name".to_owned(), Json::Str(self.server_info.name.clone())));
        info.push(("version".to_owned(), Json::Str(self.server_info.version.clone())));
        let info_json = Json::Obj(info);
        proof {
            lemma_obj_view(info@);
            assert(obj_view_from(info@, 0) =~~= seq![
                ("name"@, JsonV::Str(self.server_info.name@)),
                ("version"@, JsonV::Str(self.server_info.version@)),
            ]);
        }
        let mut pairs: Vec<(String, Json)> = Vec::new();
        pairs.push(("protocolVersion".to_owned(), Json::Str(self.protocol_version.clone())));
        pairs.push(("capabilities".to_owned(), caps_json));
        pairs.push(("serverInfo".to_owned(), info_json));
        let j = Json::Obj(pairs);
        proof {
            lemma_obj_view(pairs@);
            assert(obj_view_from(pairs@, 0) =~~= seq![
                ("protocolVersion"@, JsonV::Str(self.protocol_version@)),
                ("capabilities"@, enc_capabilities(self.capabilities@)),
                ("serverInfo"@, enc_server_info(self.server_info@)),
            ]);
        }
        j
    }

    /// Reads an initialize result out of a document.
    pub fn from_json(j: &Json) -> (r: Option<InitializeResult>)
        ensures
            dec_initialize_result(j@) matches Some(v) ==> (r matches Some(out) && out@ == v),
            dec_initialize_result(j@) is None ==> r is None,
    {
        let pairs = match j {
            Json::Obj(pairs) => pairs,
            _ => {
                return None;
            },
        };
        let protocol_version = match obj_lookup(pairs, "protocolVersion") {
            Some(Json::Str(v)) => v.clone(),
            _ => {
                return None;
            },
        };
        let capabilities = match obj_lookup(pairs, "capabilities") {
            Some(Json::Obj(cpairs)) => {
                match obj_lookup(cpairs, "tools") {
                    None => Capabilities { tools: None },
                    Some(Json::Obj(tpairs)) => match obj_lookup(tpairs, "listChanged") {
                        None => Capabilities { tools: Some(Tools { list_changed: false }) },
                        Some(Json::Bool(b)) => Capabilities {
                            tools: Some(Tools { list_changed: *b }),
                        },
                        Some(_) => {
                            return None;
                        },
                    },
                    Some(_) => {
                        return None;
                    },
                }
            },
            _ => {
                return None;
            },
        };
        let server_info = match obj_lookup(pairs, "serverInfo") {
            Some(Json::Obj(ipairs)) => {
                match (obj_lookup(ipairs, "name"), obj_lookup(ipairs, "version")) {
                    (Some(Json::Str(name)), Some(Json::Str(version))) => ServerInfo {
                        name: name.clone(),
                        version: version.clone(),
                    },
                    _ => {
                        return None;
                    },
                }
            },
            _ => {
                return None;
            },
        };
        Some(InitializeResult { protocol_version, capabilities, server_info })
    }
}

/// The params a client sends with `initialize`.
pub struct InitializeParams {
    pub protocol_version: String,
    pub client_info: ClientInfo,
}

/// The shape of initialize params.
#[verifier::ext_equal]
pub struct InitializeParamsV {
    pub protocol_version: Seq<char>,
    pub client_info: ClientInfoV,
}

impl View for InitializeParams {
    type V = InitializeParamsV;

    open spec fn view(&self) -> InitializeParamsV {
        InitializeParamsV {
            protocol_version: self.protocol_version@,
            client_info: self.client_info@,
        }
    }
}

/// The document a client's initialize params are written as; the client
/// announces no capabilities.
pub open spec fn enc_initialize_params(p: InitializeParamsV) -> JsonV {
    JsonV::Obj(
        seq![
            ("protocolVersion"@, JsonV::Str(p.protocol_version)),
            ("capabilities"@, JsonV::Obj(Seq::empty())),
            (
                "clientInfo"@,
                JsonV::Obj(
                    seq![("name"@, JsonV::Str(p.client_info.name))] + (match p.client_info.title {
                        Some(t) => seq![("title"@, JsonV::Str(t))],
                        None => Seq::empty(),
                    }) + seq![("version"@, JsonV::Str(p.client_info.version))],
                ),
            ),
        ],
    )
}

impl InitializeParams {
    /// The document these params are written as.
    pub fn to_json(&self) -> (j: Json)
        ensures
            j@ == enc_initialize_params(self@),
    {
        let mut info: Vec<(String, Json)> = Vec::new();
        info.push(("name".to_owned(), Json::Str(self.client_info.name.clone())));
        match &self.client_info.title {
            Some(t) => {
                info.push(("title".to_owned(), Json::Str(t.clone())));
            },
            None => {},
        }
        info.push(("version".to_owned(), Json::Str(self.client_info.version.clone())));
        let info_json = Json::Obj(info);
        proof {
            lemma_obj_view(info@);
            assert(obj_view_from(info@, 0) =~~= seq![("name"@, JsonV::Str(self.client_info.name@))]
                + (match crate::schema::opt_str_view(self.client_info.title) {
                Some(t) => seq![("title"@, JsonV::Str(t))],
                None => Seq::<(Seq<char>, JsonV)>::empty(),
            }) + seq![("version"@, JsonV::Str(self.client_info.version@))]);
        }
        let empty_caps: Vec<(String, Json)> = Vec::new();
        let caps_json = Json::Obj(empty_caps);
        proof {
            lemma_obj_view(empty_caps@);
            assert(obj_view_from(empty_caps@, 0) =~~= Seq::<(Seq<char>, JsonV)>::empty());
        }
        let mut pairs: Vec<(String, Json)> = Vec::new();
        pairs.push(("protocolVersion".to_owned(), Json::Str(self.protocol_version.clone())));
        pairs.push(("capabilities".to_owned(), caps_json));
        pairs.push(("clientInfo".to_owned(), info_json));
        let j = Json::Obj(pairs);
        proof {
            lemma_obj_view(pairs@);
            match enc_initialize_params(self@) {
                JsonV::Obj(target) => {
                    assert(obj_view_from(pairs@, 0) =~~= target);
                },
                _ => {
                    assert(false);
                },
            }
        }
        j
    }
}

/// A client-to-server notification.
pub enum Notification {
    Initialized,
}

impl Notification {
    /// The frame this notification is sent as.
    pub fn stamp(self) -> (r: Message)
        ensures
            r@ == (MessageV::Notification { method: "initialized"@, params: None }),
    {
        Message::notification("initialized".to_owned(), None)
    }
}

} // verus!
