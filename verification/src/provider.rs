//! Provider capabilities and their registry.  A provider is one backend:
//! its identity, wire format, endpoint base, and credential.  Everything
//! here is value-level: request bodies and endpoint paths are built as
//! bytes, catalog responses are parsed from bytes; the transport that
//! carries them lives outside the library.

use vstd::prelude::*;
use crate::decode::{Decoder, WireFormat, sp_init, sp_wf};
use crate::json::{
    Json, JsonV, json_serialize_into, parse_document, sp_document, sp_ser, sp_obj_field, obj_field,
    copy_range, views_of, entry_views_of, bytes_eq,
};
use crate::wire::{key_candidates, key_content, key_parts, key_text};

verus! {

/// The error taxonomy of the library: why a provider operation failed.
#[derive(Debug)]
pub enum ProviderError {
    /// A prerequisite (the credential) is missing; checked before any call.
    NotReady,
    /// The connection or HTTP exchange itself failed.
    Transport(Vec<u8>),
    /// A wire payload was malformed beyond recovery.
    Decode,
    /// The backend answered with a non-success status and this body.
    Backend(u16, Vec<u8>),
    /// The stream failed after chunks had already been delivered.
    StreamAborted,
    /// No provider of this name is registered.
    UnknownProvider(Vec<u8>),
}

/// Model of a provider.
pub struct ProviderV {
    pub name: Seq<u8>,
    pub format: WireFormat,
    pub base_url: Seq<u8>,
    pub api_key: Option<Seq<u8>>,
    pub requires_key: bool,
}

/// One configured backend.  Immutable for the life of a registry; carries no
/// conversation state.
pub struct Provider {
    name: Vec<u8>,
    format: WireFormat,
    base_url: Vec<u8>,
    api_key: Option<Vec<u8>>,
    requires_key: bool,
}

impl View for Provider {
    type V = ProviderV;

    closed spec fn view(&self) -> ProviderV {
        ProviderV {
            name: self.name@,
            format: self.format,
            base_url: self.base_url@,
            api_key: match self.api_key {
                Some(ref k) => Some(k@),
                None => None,
            },
            requires_key: self.requires_key,
        }
    }
}

/// `base` with a trailing slash added if it lacks one.
pub open spec fn sp_norm_base(base: Seq<u8>) -> Seq<u8> {
    if base.len() > 0 && base.last() == 0x2f {
        base
    } else {
        base.push(0x2f)
    }
}

// Spec constants for the JSON request shapes and endpoint paths.
pub open spec fn key_model() -> Seq<u8> {
    seq![0x6du8, 0x6fu8, 0x64u8, 0x65u8, 0x6cu8]
}

pub open spec fn key_prompt() -> Seq<u8> {
    seq![0x70u8, 0x72u8, 0x6fu8, 0x6du8, 0x70u8, 0x74u8]
}

pub open spec fn key_stream() -> Seq<u8> {
    seq![0x73u8, 0x74u8, 0x72u8, 0x65u8, 0x61u8, 0x6du8]
}

pub open spec fn key_messages() -> Seq<u8> {
    seq![0x6du8, 0x65u8, 0x73u8, 0x73u8, 0x61u8, 0x67u8, 0x65u8, 0x73u8]
}

pub open spec fn key_role() -> Seq<u8> {
    seq![0x72u8, 0x6fu8, 0x6cu8, 0x65u8]
}

pub open spec fn key_contents() -> Seq<u8> {
    seq![0x63u8, 0x6fu8, 0x6eu8, 0x74u8, 0x65u8, 0x6eu8, 0x74u8, 0x73u8]
}

pub open spec fn val_user() -> Seq<u8> {
    seq![0x75u8, 0x73u8, 0x65u8, 0x72u8]
}

pub open spec fn key_models() -> Seq<u8> {
    seq![0x6du8, 0x6fu8, 0x64u8, 0x65u8, 0x6cu8, 0x73u8]
}

pub open spec fn key_name() -> Seq<u8> {
    seq![0x6eu8, 0x61u8, 0x6du8, 0x65u8]
}

pub open spec fn key_data() -> Seq<u8> {
    seq![0x64u8, 0x61u8, 0x74u8, 0x61u8]
}

pub open spec fn key_id() -> Seq<u8> {
    seq![0x69u8, 0x64u8]
}

/// `supportedGenerationMethods`
pub open spec fn key_methods() -> Seq<u8> {
    seq![
        0x73u8, 0x75u8, 0x70u8, 0x70u8, 0x6fu8, 0x72u8, 0x74u8, 0x65u8, 0x64u8, 0x47u8, 0x65u8,
        0x6eu8, 0x65u8, 0x72u8, 0x61u8, 0x74u8, 0x69u8, 0x6fu8, 0x6eu8, 0x4du8, 0x65u8, 0x74u8,
        0x68u8, 0x6fu8, 0x64u8, 0x73u8,
    ]
}

/// `generateContent`
pub open spec fn val_generate() -> Seq<u8> {
    seq![
        0x67u8, 0x65u8, 0x6eu8, 0x65u8, 0x72u8, 0x61u8, 0x74u8, 0x65u8, 0x43u8, 0x6fu8, 0x6eu8,
        0x74u8, 0x65u8, 0x6eu8, 0x74u8,
    ]
}

/// `streamGenerateContent`
pub open spec fn val_stream_generate() -> Seq<u8> {
    seq![
        0x73u8, 0x74u8, 0x72u8, 0x65u8, 0x61u8, 0x6du8, 0x47u8, 0x65u8, 0x6eu8, 0x65u8, 0x72u8,
        0x61u8, 0x74u8, 0x65u8, 0x43u8, 0x6fu8, 0x6eu8, 0x74u8, 0x65u8, 0x6eu8, 0x74u8,
    ]
}

/// `api/generate`
pub open spec fn path_generate() -> Seq<u8> {
    seq![
        0x61u8, 0x70u8, 0x69u8, 0x2fu8, 0x67u8, 0x65u8, 0x6eu8, 0x65u8, 0x72u8, 0x61u8, 0x74u8,
        0x65u8,
    ]
}

/// `api/tags`
pub open spec fn path_tags() -> Seq<u8> {
    seq![0x61u8, 0x70u8, 0x69u8, 0x2fu8, 0x74u8, 0x61u8, 0x67u8, 0x73u8]
}

/// `chat/completions`
pub open spec fn path_chat() -> Seq<u8> {
    seq![
        0x63u8, 0x68u8, 0x61u8, 0x74u8, 0x2fu8, 0x63u8, 0x6fu8, 0x6du8, 0x70u8, 0x6cu8, 0x65u8,
        0x74u8, 0x69u8, 0x6fu8, 0x6eu8, 0x73u8,
    ]
}

/// `models/`
pub open spec fn path_models_slash() -> Seq<u8> {
    seq![0x6du8, 0x6fu8, 0x64u8, 0x65u8, 0x6cu8, 0x73u8, 0x2fu8]
}

/// `?key=`
pub open spec fn query_key_prefix() -> Seq<u8> {
    seq![0x3fu8, 0x6bu8, 0x65u8, 0x79u8, 0x3du8]
}

/// Upper-case hex digit for a value below 16.
pub open spec fn sp_hex_upper(v: u8) -> u8 {
    if v < 10 {
        (0x30 + v) as u8
    } else {
        (0x41 + v - 10) as u8
    }
}

/// Is this byte left bare by percent-encoding (RFC 3986 unreserved)?
pub open spec fn sp_unreserved(b: u8) -> bool {
    ||| 0x41 <= b <= 0x5a
    ||| 0x61 <= b <= 0x7a
    ||| 0x30 <= b <= 0x39
    ||| b == 0x2d
    ||| b == 0x2e
    ||| b == 0x5f
    ||| b == 0x7e
}

/// Percent-encoding of one byte.
pub open spec fn sp_pct_byte(b: u8) -> Seq<u8> {
    if sp_unreserved(b) {
        seq![b]
    } else {
        seq![0x25u8, sp_hex_upper(b / 16), sp_hex_upper(b % 16)]
    }
}

/// Percent-encoding of a byte string, for embedding in a URL query.
pub open spec fn sp_pct(s: Seq<u8>) -> Seq<u8>
    decreases s.len(),
{
    if s.len() == 0 {
        Seq::empty()
    } else {
        sp_pct_byte(s[0]) + sp_pct(s.subrange(1, s.len() as int))
    }
}

/// `model` with a leading `models/` stripped, as the catalog returns names
/// in that form.
pub open spec fn sp_strip_models_prefix(m: Seq<u8>) -> Seq<u8> {
    if m.len() >= 7 && m.subrange(0, 7) == path_models_slash() {
        m.skip(7)
    } else {
        m
    }
}

/// The JSON body of a streaming generation request, per wire format.
pub open spec fn sp_query_body(format: WireFormat, model: Seq<u8>, prompt: Seq<u8>) -> Seq<u8> {
    match format {
        WireFormat::NewlineJson => sp_ser(
            JsonV::Obj(
                seq![
                    (key_model(), JsonV::Str(model)),
                    (key_prompt(), JsonV::Str(prompt)),
                    (key_stream(), JsonV::Bool(true)),
                ],
            ),
        ),
        WireFormat::Sse => sp_ser(
            JsonV::Obj(
                seq![
                    (key_model(), JsonV::Str(model)),
                    (
                        key_messages(),
                        JsonV::Arr(
                            seq![
                                JsonV::Obj(
                                    seq![
                                        (key_role(), JsonV::Str(val_user())),
                                        (key_content(), JsonV::Str(prompt)),
                                    ],
                                ),
                            ],
                        ),
                    ),
                    (key_stream(), JsonV::Bool(true)),
                ],
            ),
        ),
        WireFormat::FragmentedArray => sp_ser(
            JsonV::Obj(
                seq![
                    (
                        key_contents(),
                        JsonV::Arr(
                            seq![
                                JsonV::Obj(
                                    seq![
                                        (key_role(), JsonV::Str(val_user())),
                                        (
                                            key_parts(),
                                            JsonV::Arr(
                                                seq![
                                                    JsonV::Obj(
                                                        seq![(key_text(), JsonV::Str(prompt))],
                                                    ),
                                                ],
                                            ),
                                        ),
                                    ],
                                ),
                            ],
                        ),
                    ),
                ],
            ),
        ),
    }
}

/// The URL of a generation request, per wire format.  The fragmented-array
/// backend addresses the model in the path and carries its key in the query.
pub open spec fn sp_query_url(p: ProviderV, model: Seq<u8>, key: Seq<u8>) -> Seq<u8> {
    match p.format {
        WireFormat::NewlineJson => p.base_url + path_generate(),
        WireFormat::Sse => p.base_url + path_chat(),
        WireFormat::FragmentedArray => p.base_url + path_models_slash() + sp_strip_models_prefix(
            model,
        ) + seq![0x3au8] + val_stream_generate() + query_key_prefix() + sp_pct(key),
    }
}

/// The URL of the model-catalog request, per wire format.
pub open spec fn sp_models_url(p: ProviderV, key: Seq<u8>) -> Seq<u8> {
    match p.format {
        WireFormat::NewlineJson => p.base_url + path_tags(),
        WireFormat::Sse => p.base_url + key_models(),
        WireFormat::FragmentedArray => p.base_url + key_models() + query_key_prefix() + sp_pct(
            key,
        ),
    }
}

// ---------------------------------------------------------------------------
// Catalog parsing.

/// The string values bound to `key` in a list of objects, or `None` if an
/// element is not an object or binds `key` to something else.
pub open spec fn sp_names_by_key(es: Seq<JsonV>, key: Seq<u8>) -> Option<Seq<Seq<u8>>>
    decreases es.len(),
{
    if es.len() == 0 {
        Some(Seq::empty())
    } else {
        match es[0] {
            JsonV::Obj(em) => match sp_obj_field(em, key) {
                Some(JsonV::Str(nm)) => match sp_names_by_key(es.drop_first(), key) {
                    Some(rest) => Some(seq![nm] + rest),
                    None => None,
                },
                _ => None,
            },
            _ => None,
        }
    }
}

/// Does a list of JSON strings contain `a` or `b`?  `None` if an element is
/// not a string.
pub open spec fn sp_contains_either(ms: Seq<JsonV>, a: Seq<u8>, b: Seq<u8>) -> Option<bool>
    decreases ms.len(),
{
    if ms.len() == 0 {
        Some(false)
    } else {
        match ms[0] {
            JsonV::Str(s) => match sp_contains_either(ms.drop_first(), a, b) {
                Some(rest) => Some(s == a || s == b || rest),
                None => None,
            },
            _ => None,
        }
    }
}

/// The catalog names of the fragmented-array backend: each entry's `name`,
/// kept only when its generation methods include plain or streaming
/// generation.
pub open spec fn sp_filtered_names(es: Seq<JsonV>) -> Option<Seq<Seq<u8>>>
    decreases es.len(),
{
    if es.len() == 0 {
        Some(Seq::empty())
    } else {
        match es[0] {
            JsonV::Obj(em) => match sp_obj_field(em, key_name()) {
                Some(JsonV::Str(nm)) => {
                    let keep = match sp_obj_field(em, key_methods()) {
                        None => Some(false),
                        Some(JsonV::Null) => Some(false),
                        Some(JsonV::Arr(ms)) => sp_contains_either(
                            ms,
                            val_generate(),
                            val_stream_generate(),
                        ),
                        Some(_) => None,
                    };
                    match (keep, sp_filtered_names(es.drop_first())) {
                        (Some(k), Some(rest)) => if k {
                            Some(seq![nm] + rest)
                        } else {
                            Some(rest)
                        },
                        _ => None,
                    }
                },
                _ => None,
            },
            _ => None,
        }
    }
}

/// The model names carried by one catalog response body, or `None` for a
/// body that is not shaped as that backend's catalog.
pub open spec fn sp_models_of(format: WireFormat, body: Seq<u8>) -> Option<Seq<Seq<u8>>> {
    match sp_document(body) {
        Some(JsonV::Obj(ms)) => match format {
            WireFormat::NewlineJson => match sp_obj_field(ms, key_models()) {
                Some(JsonV::Arr(es)) => sp_names_by_key(es, key_name()),
                _ => None,
            },
            WireFormat::Sse => match sp_obj_field(ms, key_data()) {
                Some(JsonV::Arr(es)) => sp_names_by_key(es, key_id()),
                _ => None,
            },
            WireFormat::FragmentedArray => match sp_obj_field(ms, key_models()) {
                Some(JsonV::Arr(es)) => sp_filtered_names(es),
                _ => None,
            },
        },
        _ => None,
    }
}

/// The URL of a single-shot generation request.  The fragmented-array
/// backend has a distinct non-streaming action; for the newline backend the
/// single-shot call is the streaming call consumed to completion, and the
/// SSE endpoint is shared too.
pub open spec fn sp_single_url(p: ProviderV, model: Seq<u8>, key: Seq<u8>) -> Seq<u8> {
    match p.format {
        WireFormat::FragmentedArray => p.base_url + path_models_slash() + sp_strip_models_prefix(
            model,
        ) + seq![0x3au8] + val_generate() + query_key_prefix() + sp_pct(key),
        _ => sp_query_url(p, model, key),
    }
}

/// The text of a single-shot generation response: the first part of the
/// first candidate's content.  `None` when any of that is missing: the
/// response carried no text.
pub open spec fn sp_single_text(body: Seq<u8>) -> Option<Seq<u8>> {
    match sp_document(body) {
        Some(JsonV::Obj(ms)) => match sp_obj_field(ms, key_candidates()) {
            Some(JsonV::Arr(cs)) => if cs.len() > 0 {
                match cs[0] {
                    JsonV::Obj(cm) => match sp_obj_field(cm, key_content()) {
                        Some(JsonV::Obj(km)) => match sp_obj_field(km, key_parts()) {
                            Some(JsonV::Arr(ps)) => if ps.len() > 0 {
                                match ps[0] {
                                    JsonV::Obj(pm) => match sp_obj_field(pm, key_text()) {
                                        Some(JsonV::Str(t)) => Some(t),
                                        _ => None,
                                    },
                                    _ => None,
                                }
                            } else {
                                None
                            },
                            _ => None,
                        },
                        _ => None,
                    },
                    _ => None,
                }
            } else {
                None
            },
            _ => None,
        },
        _ => None,
    }
}

/// The credential a provider holds, or nothing.
pub open spec fn sp_key_of(p: ProviderV) -> Seq<u8> {
    match p.api_key {
        Some(k) => k,
        None => Seq::empty(),
    }
}

// ---------------------------------------------------------------------------
// Executable byte constants.

fn push_all(dst: &mut Vec<u8>, bytes: &Vec<u8>)
    ensures
        final(dst)@ == old(dst)@ + bytes@,
{
    dst.extend_from_slice(bytes.as_slice());
}

fn key_model_vec() -> (v: Vec<u8>)
    ensures
        v@ == key_model(),
{
    let mut v: Vec<u8> = Vec::new();
    v.push(0x6d);
    v.push(0x6f);
    v.push(0x64);
    v.push(0x65);
    v.push(0x6c);
    proof {
        assert(v@ =~= key_model());
    }
    v
}

fn key_prompt_vec() -> (v: Vec<u8>)
    ensures
        v@ == key_prompt(),
{
    let mut v: Vec<u8> = Vec::new();
    v.push(0x70);
    v.push(0x72);
    v.push(0x6f);
    v.push(0x6d);
    v.push(0x70);
    v.push(0x74);
    proof {
        assert(v@ =~= key_prompt());
    }
    v
}

fn key_stream_vec() -> (v: Vec<u8>)
    ensures
        v@ == key_stream(),
{
    let mut v: Vec<u8> = Vec::new();
    v.push(0x73);
    v.push(0x74);
    v.push(0x72);
    v.push(0x65);
    v.push(0x61);
    v.push(0x6d);
    proof {
        assert(v@ =~= key_stream());
    }
    v
}

fn key_messages_vec() -> (v: Vec<u8>)
    ensures
        v@ == key_messages(),
{
    let mut v: Vec<u8> = Vec::new();
    v.push(0x6d);
    v.push(0x65);
    v.push(0x73);
    v.push(0x73);
    v.push(0x61);
    v.push(0x67);
    v.push(0x65);
    v.push(0x73);
    proof {
        assert(v@ =~= key_messages());
    }
    v
}

fn key_role_vec() -> (v: Vec<u8>)
    ensures
        v@ == key_role(),
{
    let mut v: Vec<u8> = Vec::new();
    v.push(0x72);
    v.push(0x6f);
    v.push(0x6c);
    v.push(0x65);
    proof {
        assert(v@ =~= key_role());
    }
    v
}

fn key_contents_vec() -> (v: Vec<u8>)
    ensures
        v@ == key_contents(),
{
    let mut v: Vec<u8> = Vec::new();
    v.push(0x63);
    v.push(0x6f);
    v.push(0x6e);
    v.push(0x74);
    v.push(0x65);
    v.push(0x6e);
    v.push(0x74);
    v.push(0x73);
    proof {
        assert(v@ =~= key_contents());
    }
    v
}

fn val_user_vec() -> (v: Vec<u8>)
    ensures
        v@ == val_user(),
{
    let mut v: Vec<u8> = Vec::new();
    v.push(0x75);
    v.push(0x73);
    v.push(0x65);
    v.push(0x72);
    proof {
        assert(v@ =~= val_user());
    }
    v
}

fn key_models_vec() -> (v: Vec<u8>)
    ensures
        v@ == key_models(),
{
    let mut v: Vec<u8> = Vec::new();
    v.push(0x6d);
    v.push(0x6f);
    v.push(0x64);
    v.push(0x65);
    v.push(0x6c);
    v.push(0x73);
    proof {
        assert(v@ =~= key_models());
    }
    v
}

fn key_name_vec() -> (v: Vec<u8>)
    ensures
        v@ == key_name(),
{
    let mut v: Vec<u8> = Vec::new();
    v.push(0x6e);
    v.push(0x61);
    v.push(0x6d);
    v.push(0x65);
    proof {
        assert(v@ =~= key_name());
    }
    v
}

fn key_data_vec() -> (v: Vec<u8>)
    ensures
        v@ == key_data(),
{
    let mut v: Vec<u8> = Vec::new();
    v.push(0x64);
    v.push(0x61);
    v.push(0x74);
    v.push(0x61);
    proof {
        assert(v@ =~= key_data());
    }
    v
}

fn key_id_vec() -> (v: Vec<u8>)
    ensures
        v@ == key_id(),
{
    let mut v: Vec<u8> = Vec::new();
    v.push(0x69);
    v.push(0x64);
    proof {
        assert(v@ =~= key_id());
    }
    v
}

fn key_methods_vec() -> (v: Vec<u8>)
    ensures
        v@ == key_methods(),
{
    let mut v: Vec<u8> = Vec::new();
    v.push(0x73);
    v.push(0x75);
    v.push(0x70);
    v.push(0x70);
    v.push(0x6f);
    v.push(0x72);
    v.push(0x74);
    v.push(0x65);
    v.push(0x64);
    v.push(0x47);
    v.push(0x65);
    v.push(0x6e);
    v.push(0x65);
    v.push(0x72);
    v.push(0x61);
    v.push(0x74);
    v.push(0x69);
    v.push(0x6f);
    v.push(0x6e);
    v.push(0x4d);
    v.push(0x65);
    v.push(0x74);
    v.push(0x68);
    v.push(0x6f);
    v.push(0x64);
    v.push(0x73);
    proof {
        assert(v@ =~= key_methods());
    }
    v
}

fn val_generate_vec() -> (v: Vec<u8>)
    ensures
        v@ == val_generate(),
{
    let mut v: Vec<u8> = Vec::new();
    v.push(0x67);
    v.push(0x65);
    v.push(0x6e);
    v.push(0x65);
    v.push(0x72);
    v.push(0x61);
    v.push(0x74);
    v.push(0x65);
    v.push(0x43);
    v.push(0x6f);
    v.push(0x6e);
    v.push(0x74);
    v.push(0x65);
    v.push(0x6e);
    v.push(0x74);
    proof {
        assert(v@ =~= val_generate());
    }
    v
}

fn val_stream_generate_vec() -> (v: Vec<u8>)
    ensures
        v@ == val_stream_generate(),
{
    let mut v: Vec<u8> = Vec::new();
    v.push(0x73);
    v.push(0x74);
    v.push(0x72);
    v.push(0x65);
    v.push(0x61);
    v.push(0x6d);
    v.push(0x47);
    v.push(0x65);
    v.push(0x6e);
    v.push(0x65);
    v.push(0x72);
    v.push(0x61);
    v.push(0x74);
    v.push(0x65);
    v.push(0x43);
    v.push(0x6f);
    v.push(0x6e);
    v.push(0x74);
    v.push(0x65);
    v.push(0x6e);
    v.push(0x74);
    proof {
        assert(v@ =~= val_stream_generate());
    }
    v
}

fn path_generate_vec() -> (v: Vec<u8>)
    ensures
        v@ == path_generate(),
{
    let mut v: Vec<u8> = Vec::new();
    v.push(0x61);
    v.push(0x70);
    v.push(0x69);
    v.push(0x2f);
    v.push(0x67);
    v.push(0x65);
    v.push(0x6e);
    v.push(0x65);
    v.push(0x72);
    v.push(0x61);
    v.push(0x74);
    v.push(0x65);
    proof {
        assert(v@ =~= path_generate());
    }
    v
}

fn path_tags_vec() -> (v: Vec<u8>)
    ensures
        v@ == path_tags(),
{
    let mut v: Vec<u8> = Vec::new();
    v.push(0x61);
    v.push(0x70);
    v.push(0x69);
    v.push(0x2f);
    v.push(0x74);
    v.push(0x61);
    v.push(0x67);
    v.push(0x73);
    proof {
        assert(v@ =~= path_tags());
    }
    v
}

fn path_chat_vec() -> (v: Vec<u8>)
    ensures
        v@ == path_chat(),
{
    let mut v: Vec<u8> = Vec::new();
    v.push(0x63);
    v.push(0x68);
    v.push(0x61);
    v.push(0x74);
    v.push(0x2f);
    v.push(0x63);
    v.push(0x6f);
    v.push(0x6d);
    v.push(0x70);
    v.push(0x6c);
    v.push(0x65);
    v.push(0x74);
    v.push(0x69);
    v.push(0x6f);
    v.push(0x6e);
    v.push(0x73);
    proof {
        assert(v@ =~= path_chat());
    }
    v
}

fn path_models_slash_vec() -> (v: Vec<u8>)
    ensures
        v@ == path_models_slash(),
{
    let mut v = key_models_vec();
    v.push(0x2f);
    proof {
        assert(v@ =~= path_models_slash());
    }
    v
}

fn query_key_prefix_vec() -> (v: Vec<u8>)
    ensures
        v@ == query_key_prefix(),
{
    let mut v: Vec<u8> = Vec::new();
    v.push(0x3f);
    v.push(0x6b);
    v.push(0x65);
    v.push(0x79);
    v.push(0x3d);
    proof {
        assert(v@ =~= query_key_prefix());
    }
    v
}

/// Append the percent-encoded form of `s` to `dst`: mirror of `sp_pct`.
fn pct_into(dst: &mut Vec<u8>, s: &Vec<u8>)
    ensures
        final(dst)@ == old(dst)@ + sp_pct(s@),
{
    let n = s.len();
    let mut i: usize = 0;
    let ghost base = dst@;
    proof {
        assert(s@.subrange(0, n as int) =~= s@);
        assert(base + Seq::<u8>::empty() =~= base);
    }
    while i < n
        invariant
            0 <= i <= n == s@.len(),
            dst@ + sp_pct(s@.subrange(i as int, n as int)) == base + sp_pct(s@),
        decreases n - i,
    {
        let ghost pre = dst@;
        let ghost rest = s@.subrange(i as int, n as int);
        proof {
            assert(rest[0] == s@[i as int]);
            assert(rest.subrange(1, rest.len() as int) =~= s@.subrange(i as int + 1, n as int));
        }
        let b = s[i];
        let bare = (0x41 <= b && b <= 0x5a) || (0x61 <= b && b <= 0x7a) || (0x30 <= b && b
            <= 0x39) || b == 0x2d || b == 0x2e || b == 0x5f || b == 0x7e;
        if bare {
            dst.push(b);
        } else {
            dst.push(0x25);
            let hi = b / 16;
            let lo = b % 16;
            dst.push(
                if hi < 10 {
                    0x30 + hi
                } else {
                    0x41 + hi - 10
                },
            );
            dst.push(
                if lo < 10 {
                    0x30 + lo
                } else {
                    0x41 + lo - 10
                },
            );
        }
        proof {
            assert(dst@ =~= pre + sp_pct_byte(s@[i as int]));
            assert(pre + (sp_pct_byte(s@[i as int]) + sp_pct(s@.subrange(i as int + 1, n as int)))
                =~= (pre + sp_pct_byte(s@[i as int])) + sp_pct(s@.subrange(i as int + 1, n as int)));
        }
        i += 1;
    }
    proof {
        assert(s@.subrange(n as int, n as int) =~= Seq::<u8>::empty());
        assert(dst@ + Seq::<u8>::empty() =~= dst@);
    }
}

/// Is this HTTP status a success, as the transport reports it?
pub fn status_success(status: u16) -> (r: bool)
    ensures
        r == (200 <= status < 300),
{
    200 <= status && status < 300
}

// ---------------------------------------------------------------------------
// The provider capability.

impl Provider {
    /// Configure one backend.  The base URL gets a trailing slash if it
    /// lacks one, so endpoint paths can be appended directly.
    pub fn new(
        name: Vec<u8>,
        format: WireFormat,
        base_url: Vec<u8>,
        api_key: Option<Vec<u8>>,
        requires_key: bool,
    ) -> (r: Provider)
        ensures
            r@.name == name@,
            r@.format == format,
            r@.base_url == sp_norm_base(base_url@),
            r@.api_key == (match api_key {
                Some(k) => Some(k@),
                None => None::<Seq<u8>>,
            }),
            r@.requires_key == requires_key,
    {
        let mut base = base_url;
        if base.len() == 0 || base[base.len() - 1] != 0x2f {
            base.push(0x2f);
        }
        Provider { name, format, base_url: base, api_key, requires_key }
    }

    /// The provider's identity, unique within a registry.
    pub fn get_name(&self) -> (r: &Vec<u8>)
        ensures
            r@ == self@.name,
    {
        &self.name
    }

    pub fn wire_format(&self) -> (r: WireFormat)
        ensures
            r == self@.format,
    {
        self.format
    }

    /// A fresh decoder for one streaming response of this backend.
    pub fn make_decoder(&self) -> (r: Decoder)
        ensures
            r@ == sp_init(self@.format),
            sp_wf(r@),
    {
        Decoder::new(self.format)
    }

    /// Ready if and only if no credential is required or one is present;
    /// checked before any generation call is attempted.
    pub fn check_readiness(&self) -> (r: Result<(), ProviderError>)
        ensures
            r is Ok <==> (!self@.requires_key || self@.api_key is Some),
            r is Err ==> r->Err_0 is NotReady,
    {
        if self.requires_key && self.api_key.is_none() {
            Err(ProviderError::NotReady)
        } else {
            Ok(())
        }
    }

    /// The credential to send as a bearer token, where the backend expects
    /// one in a header rather than in the URL.
    pub fn bearer_token(&self) -> (r: Option<&Vec<u8>>)
        ensures
            match r {
                Some(k) => self@.api_key == Some(k@),
                None => self@.api_key is None,
            },
    {
        match &self.api_key {
            Some(k) => Some(k),
            None => None,
        }
    }

    /// The URL of a streaming generation request for `model`.
    pub fn query_url(&self, model: &Vec<u8>) -> (r: Result<Vec<u8>, ProviderError>)
        ensures
            match r {
                Ok(u) => u@ == sp_query_url(self@, model@, sp_key_of(self@)) && (
                !self@.requires_key || self@.api_key is Some),
                Err(e) => self@.requires_key && self@.api_key is None && e is NotReady,
            },
    {
        if self.requires_key && self.api_key.is_none() {
            return Err(ProviderError::NotReady);
        }
        let mut u = copy_range(&self.base_url, 0, self.base_url.len());
        match self.format {
            WireFormat::NewlineJson => {
                let p = path_generate_vec();
                push_all(&mut u, &p);
            },
            WireFormat::Sse => {
                let p = path_chat_vec();
                push_all(&mut u, &p);
            },
            WireFormat::FragmentedArray => {
                let p = path_models_slash_vec();
                push_all(&mut u, &p);
                let stripped = self.strip_models_prefix(model);
                push_all(&mut u, &stripped);
                u.push(0x3a);
                let act = val_stream_generate_vec();
                push_all(&mut u, &act);
                let q = query_key_prefix_vec();
                push_all(&mut u, &q);
                match &self.api_key {
                    Some(k) => pct_into(&mut u, k),
                    None => {
                        proof {
                            assert(sp_pct(Seq::<u8>::empty()) =~= Seq::<u8>::empty());
                        }
                    },
                }
                proof {
                    assert(u@ =~= sp_query_url(self@, model@, sp_key_of(self@)));
                }
            },
        }
        Ok(u)
    }

    /// The URL of the model-catalog request.
    pub fn models_url(&self) -> (r: Result<Vec<u8>, ProviderError>)
        ensures
            match r {
                Ok(u) => u@ == sp_models_url(self@, sp_key_of(self@)) && (!self@.requires_key
                    || self@.api_key is Some),
                Err(e) => self@.requires_key && self@.api_key is None && e is NotReady,
            },
    {
        if self.requires_key && self.api_key.is_none() {
            return Err(ProviderError::NotReady);
        }
        let mut u = copy_range(&self.base_url, 0, self.base_url.len());
        match self.format {
            WireFormat::NewlineJson => {
                let p = path_tags_vec();
                push_all(&mut u, &p);
            },
            WireFormat::Sse => {
                let p = key_models_vec();
                push_all(&mut u, &p);
            },
            WireFormat::FragmentedArray => {
                let p = key_models_vec();
                push_all(&mut u, &p);
                let q = query_key_prefix_vec();
                push_all(&mut u, &q);
                match &self.api_key {
                    Some(k) => pct_into(&mut u, k),
                    None => {
                        proof {
                            assert(sp_pct(Seq::<u8>::empty()) =~= Seq::<u8>::empty());
                        }
                    },
                }
                proof {
                    assert(u@ =~= sp_models_url(self@, sp_key_of(self@)));
                }
            },
        }
        Ok(u)
    }

    /// The URL of a single-shot generation request for `model`.
    pub fn single_query_url(&self, model: &Vec<u8>) -> (r: Result<Vec<u8>, ProviderError>)
        ensures
            match r {
                Ok(u) => u@ == sp_single_url(self@, model@, sp_key_of(self@)) && (
                !self@.requires_key || self@.api_key is Some),
                Err(e) => self@.requires_key && self@.api_key is None && e is NotReady,
            },
    {
        match self.format {
            WireFormat::FragmentedArray => {
                if self.requires_key && self.api_key.is_none() {
                    return Err(ProviderError::NotReady);
                }
                let mut u = copy_range(&self.base_url, 0, self.base_url.len());
                let p = path_models_slash_vec();
                push_all(&mut u, &p);
                let stripped = self.strip_models_prefix(model);
                push_all(&mut u, &stripped);
                u.push(0x3a);
                let act = val_generate_vec();
                push_all(&mut u, &act);
                let q = query_key_prefix_vec();
                push_all(&mut u, &q);
                match &self.api_key {
                    Some(k) => pct_into(&mut u, k),
                    None => {
                        proof {
                            assert(sp_pct(Seq::<u8>::empty()) =~= Seq::<u8>::empty());
                        }
                    },
                }
                proof {
                    assert(u@ =~= sp_single_url(self@, model@, sp_key_of(self@)));
                }
                Ok(u)
            },
            _ => self.query_url(model),
        }
    }

    /// The text of a single-shot generation response: mirror of
    /// `sp_single_text`.  A response without the expected text is a decode
    /// failure, as the backend contract promises one.
    pub fn parse_single_text(&self, body: &Vec<u8>) -> (r: Result<Vec<u8>, ProviderError>)
        ensures
            match r {
                Ok(t) => sp_single_text(body@) == Some(t@),
                Err(e) => sp_single_text(body@) is None && e is Decode,
            },
    {
        match parse_document(body) {
            Some(Json::Obj(ms)) => {
                let kc = crate::wire::key_candidates_vec();
                match obj_field(&ms, &kc) {
                    Some(Json::Arr(cs)) => {
                        if cs.len() == 0 {
                            return Err(ProviderError::Decode);
                        }
                        proof {
                            assert(views_of(*cs)[0] == crate::json::json_view(cs[0]));
                        }
                        match &cs[0] {
                            Json::Obj(cm) => {
                                let kk = crate::wire::key_content_vec();
                                match obj_field(cm, &kk) {
                                    Some(Json::Obj(km)) => {
                                        let kp = crate::wire::key_parts_vec();
                                        match obj_field(km, &kp) {
                                            Some(Json::Arr(ps)) => {
                                                if ps.len() == 0 {
                                                    return Err(ProviderError::Decode);
                                                }
                                                proof {
                                                    assert(views_of(*ps)[0]
                                                        == crate::json::json_view(ps[0]));
                                                }
                                                match &ps[0] {
                                                    Json::Obj(pm) => {
                                                        let kt = crate::wire::key_text_vec();
                                                        match obj_field(pm, &kt) {
                                                            Some(Json::Str(t)) => Ok(
                                                                copy_range(t, 0, t.len()),
                                                            ),
                                                            _ => Err(ProviderError::Decode),
                                                        }
                                                    },
                                                    _ => Err(ProviderError::Decode),
                                                }
                                            },
                                            _ => Err(ProviderError::Decode),
                                        }
                                    },
                                    _ => Err(ProviderError::Decode),
                                }
                            },
                            _ => Err(ProviderError::Decode),
                        }
                    },
                    _ => Err(ProviderError::Decode),
                }
            },
            _ => Err(ProviderError::Decode),
        }
    }

    /// `model` with a leading `models/` stripped.
    fn strip_models_prefix(&self, model: &Vec<u8>) -> (r: Vec<u8>)
        ensures
            r@ == sp_strip_models_prefix(model@),
    {
        if model.len() >= 7 && model[0] == 0x6d && model[1] == 0x6f && model[2] == 0x64 && model[3]
            == 0x65 && model[4] == 0x6c && model[5] == 0x73 && model[6] == 0x2f {
            proof {
                assert(model@.subrange(0, 7) =~= path_models_slash());
            }
            let r = copy_range(model, 7, model.len());
            proof {
                assert(r@ =~= model@.skip(7));
            }
            r
        } else {
            proof {
                if model@.len() >= 7 {
                    assert(model@.subrange(0, 7) != path_models_slash());
                }
            }
            copy_range(model, 0, model.len())
        }
    }

    /// The JSON body of a streaming generation request: mirror of
    /// `sp_query_body`.
    pub fn query_body(&self, model: &Vec<u8>, prompt: &Vec<u8>) -> (r: Vec<u8>)
        ensures
            r@ == sp_query_body(self@.format, model@, prompt@),
    {
        let j = match self.format {
            WireFormat::NewlineJson => {
                let mc = copy_range(model, 0, model.len());
                let pc = copy_range(prompt, 0, prompt.len());
                proof {
                    assert(mc@ =~= model@);
                    assert(pc@ =~= prompt@);
                }
                let mut entries: Vec<(Vec<u8>, Json)> = Vec::new();
                entries.push((key_model_vec(), Json::Str(mc)));
                entries.push((key_prompt_vec(), Json::Str(pc)));
                entries.push((key_stream_vec(), Json::Bool(true)));
                proof {
                    assert(entry_views_of(entries) =~~= seq![
                        (key_model(), JsonV::Str(model@)),
                        (key_prompt(), JsonV::Str(prompt@)),
                        (key_stream(), JsonV::Bool(true)),
                    ]);
                }
                Json::Obj(entries)
            },
            WireFormat::Sse => {
                let pc = copy_range(prompt, 0, prompt.len());
                proof {
                    assert(pc@ =~= prompt@);
                }
                let mut msg: Vec<(Vec<u8>, Json)> = Vec::new();
                msg.push((key_role_vec(), Json::Str(val_user_vec())));
                msg.push((crate::wire::key_content_vec(), Json::Str(pc)));
                proof {
                    assert(entry_views_of(msg) =~~= seq![
                        (key_role(), JsonV::Str(val_user())),
                        (key_content(), JsonV::Str(prompt@)),
                    ]);
                }
                let mut msgs: Vec<Json> = Vec::new();
                msgs.push(Json::Obj(msg));
                proof {
                    assert(views_of(msgs) =~~= seq![
                        JsonV::Obj(
                            seq![
                                (key_role(), JsonV::Str(val_user())),
                                (key_content(), JsonV::Str(prompt@)),
                            ],
                        ),
                    ]);
                }
                let mc = copy_range(model, 0, model.len());
                proof {
                    assert(mc@ =~= model@);
                }
                let mut entries: Vec<(Vec<u8>, Json)> = Vec::new();
                entries.push((key_model_vec(), Json::Str(mc)));
                entries.push((key_messages_vec(), Json::Arr(msgs)));
                entries.push((key_stream_vec(), Json::Bool(true)));
                proof {
                    assert(entry_views_of(entries) =~~= seq![
                        (key_model(), JsonV::Str(model@)),
                        (
                            key_messages(),
                            JsonV::Arr(
                                seq![
                                    JsonV::Obj(
                                        seq![
                                            (key_role(), JsonV::Str(val_user())),
                                            (key_content(), JsonV::Str(prompt@)),
                                        ],
                                    ),
                                ],
                            ),
                        ),
                        (key_stream(), JsonV::Bool(true)),
                    ]);
                }
                Json::Obj(entries)
            },
            WireFormat::FragmentedArray => {
                let pc = copy_range(prompt, 0, prompt.len());
                proof {
                    assert(pc@ =~= prompt@);
                }
                let mut part: Vec<(Vec<u8>, Json)> = Vec::new();
                part.push((crate::wire::key_text_vec(), Json::Str(pc)));
                proof {
                    assert(entry_views_of(part) =~~= seq![(key_text(), JsonV::Str(prompt@))]);
                }
                let mut parts: Vec<Json> = Vec::new();
                parts.push(Json::Obj(part));
                proof {
                    assert(views_of(parts) =~~= seq![
                        JsonV::Obj(seq![(key_text(), JsonV::Str(prompt@))]),
                    ]);
                }
                let mut content: Vec<(Vec<u8>, Json)> = Vec::new();
                content.push((key_role_vec(), Json::Str(val_user_vec())));
                content.push((crate::wire::key_parts_vec(), Json::Arr(parts)));
                proof {
                    assert(entry_views_of(content) =~~= seq![
                        (key_role(), JsonV::Str(val_user())),
                        (
                            key_parts(),
                            JsonV::Arr(
                                seq![JsonV::Obj(seq![(key_text(), JsonV::Str(prompt@))])],
                            ),
                        ),
                    ]);
                }
                let mut contents: Vec<Json> = Vec::new();
                contents.push(Json::Obj(content));
                proof {
                    assert(views_of(contents) =~~= seq![
                        JsonV::Obj(
                            seq![
                                (key_role(), JsonV::Str(val_user())),
                                (
                                    key_parts(),
                                    JsonV::Arr(
                                        seq![JsonV::Obj(seq![(key_text(), JsonV::Str(prompt@))])],
                                    ),
                                ),
                            ],
                        ),
                    ]);
                }
                let mut entries: Vec<(Vec<u8>, Json)> = Vec::new();
                entries.push((key_contents_vec(), Json::Arr(contents)));
                proof {
                    assert(entry_views_of(entries) =~~= seq![
                        (
                            key_contents(),
                            JsonV::Arr(
                                seq![
                                    JsonV::Obj(
                                        seq![
                                            (key_role(), JsonV::Str(val_user())),
                                            (
                                                key_parts(),
                                                JsonV::Arr(
                                                    seq![
                                                        JsonV::Obj(
                                                            seq![(key_text(), JsonV::Str(prompt@))],
                                                        ),
                                                    ],
                                                ),
                                            ),
                                        ],
                                    ),
                                ],
                            ),
                        ),
                    ]);
                }
                Json::Obj(entries)
            },
        };
        let mut out: Vec<u8> = Vec::new();
        json_serialize_into(&mut out, &j);
        out
    }

    /// Parse one catalog response body into the model names it carries:
    /// mirror of `sp_models_of`.
    pub fn parse_models(&self, body: &Vec<u8>) -> (r: Result<Vec<Vec<u8>>, ProviderError>)
        ensures
            match r {
                Ok(names) => sp_models_of(self@.format, body@) == Some(names.deep_view()),
                Err(e) => sp_models_of(self@.format, body@) is None && e is Decode,
            },
    {
        let doc = parse_document(body);
        match doc {
            Some(Json::Obj(ms)) => {
                match self.format {
                    WireFormat::NewlineJson => {
                        let km = key_models_vec();
                        match obj_field(&ms, &km) {
                            Some(Json::Arr(es)) => {
                                let kn = key_name_vec();
                                match names_by_key(es, &kn) {
                                    Some(names) => Ok(names),
                                    None => Err(ProviderError::Decode),
                                }
                            },
                            _ => Err(ProviderError::Decode),
                        }
                    },
                    WireFormat::Sse => {
                        let kd = key_data_vec();
                        match obj_field(&ms, &kd) {
                            Some(Json::Arr(es)) => {
                                let ki = key_id_vec();
                                match names_by_key(es, &ki) {
                                    Some(names) => Ok(names),
                                    None => Err(ProviderError::Decode),
                                }
                            },
                            _ => Err(ProviderError::Decode),
                        }
                    },
                    WireFormat::FragmentedArray => {
                        let km = key_models_vec();
                        match obj_field(&ms, &km) {
                            Some(Json::Arr(es)) => match filtered_names(es) {
                                Some(names) => Ok(names),
                                None => Err(ProviderError::Decode),
                            },
                            _ => Err(ProviderError::Decode),
                        }
                    },
                }
            },
            _ => Err(ProviderError::Decode),
        }
    }
}

/// Mirror of `sp_names_by_key`.
fn names_by_key(es: &Vec<Json>, key: &Vec<u8>) -> (r: Option<Vec<Vec<u8>>>)
    ensures
        match r {
            Some(names) => sp_names_by_key(views_of(*es), key@) == Some(names.deep_view()),
            None => sp_names_by_key(views_of(*es), key@) is None,
        },
{
    let ghost full = views_of(*es);
    let n = es.len();
    let mut acc: Vec<Vec<u8>> = Vec::new();
    let mut i: usize = 0;
    proof {
        assert(full.skip(0) =~= full);
        assert(acc.deep_view() =~= Seq::<Seq<u8>>::empty());
    }
    while i < n
        invariant
            0 <= i <= n == es@.len(),
            full == views_of(*es),
            match sp_names_by_key(full.skip(i as int), key@) {
                Some(rest) => sp_names_by_key(full, key@) == Some(acc.deep_view() + rest),
                None => sp_names_by_key(full, key@) is None,
            },
        decreases n - i,
    {
        proof {
            assert(full.skip(i as int)[0] == full[i as int]);
            assert(full.skip(i as int).drop_first() =~= full.skip(i as int + 1));
        }
        match &es[i] {
            Json::Obj(em) => {
                match obj_field(em, key) {
                    Some(Json::Str(nm)) => {
                        let ghost acc0 = acc.deep_view();
                        let ghost nv = nm@;
                        acc.push(copy_range(nm, 0, nm.len()));
                        proof {
                            assert(acc.deep_view() =~~= acc0.push(nv));
                            if sp_names_by_key(full.skip(i as int + 1), key@) is Some {
                                let rest = sp_names_by_key(
                                    full.skip(i as int + 1),
                                    key@,
                                ).unwrap();
                                assert(acc0 + (seq![nv] + rest) =~= acc0.push(nv) + rest);
                            }
                        }
                    },
                    _ => {
                        return None;
                    },
                }
            },
            _ => {
                return None;
            },
        }
        i += 1;
    }
    proof {
        assert(full.skip(n as int) =~= Seq::<JsonV>::empty());
        assert(acc.deep_view() + Seq::<Seq<u8>>::empty() =~= acc.deep_view());
    }
    Some(acc)
}

/// Mirror of `sp_contains_either`.
fn contains_either(ms: &Vec<Json>, a: &Vec<u8>, b: &Vec<u8>) -> (r: Option<bool>)
    ensures
        r == sp_contains_either(views_of(*ms), a@, b@),
{
    let ghost full = views_of(*ms);
    let n = ms.len();
    let mut found = false;
    let mut i: usize = 0;
    proof {
        assert(full.skip(0) =~= full);
    }
    while i < n
        invariant
            0 <= i <= n == ms@.len(),
            full == views_of(*ms),
            match sp_contains_either(full.skip(i as int), a@, b@) {
                Some(rest) => sp_contains_either(full, a@, b@) == Some(found || rest),
                None => sp_contains_either(full, a@, b@) is None,
            },
        decreases n - i,
    {
        proof {
            assert(full.skip(i as int)[0] == full[i as int]);
            assert(full.skip(i as int).drop_first() =~= full.skip(i as int + 1));
        }
        match &ms[i] {
            Json::Str(s) => {
                if bytes_eq(s, a) || bytes_eq(s, b) {
                    found = true;
                }
            },
            _ => {
                return None;
            },
        }
        i += 1;
    }
    proof {
        assert(full.skip(n as int) =~= Seq::<JsonV>::empty());
    }
    Some(found)
}

/// Mirror of `sp_filtered_names`.
fn filtered_names(es: &Vec<Json>) -> (r: Option<Vec<Vec<u8>>>)
    ensures
        match r {
            Some(names) => sp_filtered_names(views_of(*es)) == Some(names.deep_view()),
            None => sp_filtered_names(views_of(*es)) is None,
        },
{
    let ghost full = views_of(*es);
    let n = es.len();
    let mut acc: Vec<Vec<u8>> = Vec::new();
    let mut i: usize = 0;
    proof {
        assert(full.skip(0) =~= full);
        assert(acc.deep_view() =~= Seq::<Seq<u8>>::empty());
    }
    while i < n
        invariant
            0 <= i <= n == es@.len(),
            full == views_of(*es),
            match sp_filtered_names(full.skip(i as int)) {
                Some(rest) => sp_filtered_names(full) == Some(acc.deep_view() + rest),
                None => sp_filtered_names(full) is None,
            },
        decreases n - i,
    {
        proof {
            assert(full.skip(i as int)[0] == full[i as int]);
            assert(full.skip(i as int).drop_first() =~= full.skip(i as int + 1));
        }
        match &es[i] {
            Json::Obj(em) => {
                let kn = key_name_vec();
                match obj_field(em, &kn) {
                    Some(Json::Str(nm)) => {
                        let km = key_methods_vec();
                        let keep: Option<bool> = match obj_field(em, &km) {
                            None => Some(false),
                            Some(Json::Null) => Some(false),
                            Some(Json::Arr(methods)) => {
                                let ga = val_generate_vec();
                                let gb = val_stream_generate_vec();
                                contains_either(methods, &ga, &gb)
                            },
                            Some(_) => None,
                        };
                        match keep {
                            None => {
                                return None;
                            },
                            Some(k) => {
                                if k {
                                    let ghost acc0 = acc.deep_view();
                                    let ghost nv = nm@;
                                    acc.push(copy_range(nm, 0, nm.len()));
                                    proof {
                                        assert(acc.deep_view() =~~= acc0.push(nv));
                                        if sp_filtered_names(full.skip(i as int + 1)) is Some {
                                            let rest = sp_filtered_names(
                                                full.skip(i as int + 1),
                                            ).unwrap();
                                            assert(acc0 + (seq![nv] + rest) =~= acc0.push(nv)
                                                + rest);
                                        }
                                    }
                                }
                            },
                        }
                    },
                    _ => {
                        return None;
                    },
                }
            },
            _ => {
                return None;
            },
        }
        i += 1;
    }
    proof {
        assert(full.skip(n as int) =~= Seq::<JsonV>::empty());
        assert(acc.deep_view() + Seq::<Seq<u8>>::empty() =~= acc.deep_view());
    }
    Some(acc)
}


// ---------------------------------------------------------------------------
// The default backends.

/// `ollama`
pub open spec fn name_ollama() -> Seq<u8> {
    seq![
        0x6fu8, 0x6cu8, 0x6cu8, 0x61u8, 0x6du8, 0x61u8,
    ]
}

/// `groq`
pub open spec fn name_groq() -> Seq<u8> {
    seq![
        0x67u8, 0x72u8, 0x6fu8, 0x71u8,
    ]
}

/// `gemini`
pub open spec fn name_gemini() -> Seq<u8> {
    seq![
        0x67u8, 0x65u8, 0x6du8, 0x69u8, 0x6eu8, 0x69u8,
    ]
}

/// `http://localhost:11434/`
pub open spec fn base_ollama() -> Seq<u8> {
    seq![
        0x68u8, 0x74u8, 0x74u8, 0x70u8, 0x3au8, 0x2fu8, 0x2fu8, 0x6cu8, 0x6fu8, 0x63u8, 0x61u8,
        0x6cu8, 0x68u8, 0x6fu8, 0x73u8, 0x74u8, 0x3au8, 0x31u8, 0x31u8, 0x34u8, 0x33u8, 0x34u8,
        0x2fu8,
    ]
}

/// `https://api.groq.com/openai/v1/`
pub open spec fn base_groq() -> Seq<u8> {
    seq![
        0x68u8, 0x74u8, 0x74u8, 0x70u8, 0x73u8, 0x3au8, 0x2fu8, 0x2fu8, 0x61u8, 0x70u8, 0x69u8,
        0x2eu8, 0x67u8, 0x72u8, 0x6fu8, 0x71u8, 0x2eu8, 0x63u8, 0x6fu8, 0x6du8, 0x2fu8, 0x6fu8,
        0x70u8, 0x65u8, 0x6eu8, 0x61u8, 0x69u8, 0x2fu8, 0x76u8, 0x31u8, 0x2fu8,
    ]
}

/// `https://generativelanguage.googleapis.com/v1beta/`
pub open spec fn base_gemini() -> Seq<u8> {
    seq![
        0x68u8, 0x74u8, 0x74u8, 0x70u8, 0x73u8, 0x3au8, 0x2fu8, 0x2fu8, 0x67u8, 0x65u8, 0x6eu8,
        0x65u8, 0x72u8, 0x61u8, 0x74u8, 0x69u8, 0x76u8, 0x65u8, 0x6cu8, 0x61u8, 0x6eu8, 0x67u8,
        0x75u8, 0x61u8, 0x67u8, 0x65u8, 0x2eu8, 0x67u8, 0x6fu8, 0x6fu8, 0x67u8, 0x6cu8, 0x65u8,
        0x61u8, 0x70u8, 0x69u8, 0x73u8, 0x2eu8, 0x63u8, 0x6fu8, 0x6du8, 0x2fu8, 0x76u8, 0x31u8,
        0x62u8, 0x65u8, 0x74u8, 0x61u8, 0x2fu8,
    ]
}

/// The three stock backends, as a fresh registry lists them (most recently
/// registered first).
pub open spec fn sp_default_backends(
    groq_key: Option<Seq<u8>>,
    gemini_key: Option<Seq<u8>>,
) -> Seq<ProviderV> {
    seq![
        ProviderV {
            name: name_gemini(),
            format: WireFormat::FragmentedArray,
            base_url: base_gemini(),
            api_key: gemini_key,
            requires_key: true,
        },
        ProviderV {
            name: name_groq(),
            format: WireFormat::Sse,
            base_url: base_groq(),
            api_key: groq_key,
            requires_key: true,
        },
        ProviderV {
            name: name_ollama(),
            format: WireFormat::NewlineJson,
            base_url: base_ollama(),
            api_key: None,
            requires_key: false,
        },
    ]
}

fn name_ollama_vec() -> (v: Vec<u8>)
    ensures
        v@ == name_ollama(),
{
    let mut v: Vec<u8> = Vec::new();
    v.push(0x6f);
    v.push(0x6c);
    v.push(0x6c);
    v.push(0x61);
    v.push(0x6d);
    v.push(0x61);
    proof {
        assert(v@ =~= name_ollama());
    }
    v
}

fn name_groq_vec() -> (v: Vec<u8>)
    ensures
        v@ == name_groq(),
{
    let mut v: Vec<u8> = Vec::new();
    v.push(0x67);
    v.push(0x72);
    v.push(0x6f);
    v.push(0x71);
    proof {
        assert(v@ =~= name_groq());
    }
    v
}

fn name_gemini_vec() -> (v: Vec<u8>)
    ensures
        v@ == name_gemini(),
{
    let mut v: Vec<u8> = Vec::new();
    v.push(0x67);
    v.push(0x65);
    v.push(0x6d);
    v.push(0x69);
    v.push(0x6e);
    v.push(0x69);
    proof {
        assert(v@ =~= name_gemini());
    }
    v
}

fn base_ollama_vec() -> (v: Vec<u8>)
    ensures
        v@ == base_ollama(),
{
    let mut v: Vec<u8> = Vec::new();
    v.push(0x68);
    v.push(0x74);
    v.push(0x74);
    v.push(0x70);
    v.push(0x3a);
    v.push(0x2f);
    v.push(0x2f);
    v.push(0x6c);
    v.push(0x6f);
    v.push(0x63);
    v.push(0x61);
    v.push(0x6c);
    v.push(0x68);
    v.push(0x6f);
    v.push(0x73);
    v.push(0x74);
    v.push(0x3a);
    v.push(0x31);
    v.push(0x31);
    v.push(0x34);
    v.push(0x33);
    v.push(0x34);
    v.push(0x2f);
    proof {
        assert(v@ =~= base_ollama());
    }
    v
}

fn base_groq_vec() -> (v: Vec<u8>)
    ensures
        v@ == base_groq(),
{
    let mut v: Vec<u8> = Vec::new();
    v.push(0x68);
    v.push(0x74);
    v.push(0x74);
    v.push(0x70);
    v.push(0x73);
    v.push(0x3a);
    v.push(0x2f);
    v.push(0x2f);
    v.push(0x61);
    v.push(0x70);
    v.push(0x69);
    v.push(0x2e);
    v.push(0x67);
    v.push(0x72);
    v.push(0x6f);
    v.push(0x71);
    v.push(0x2e);
    v.push(0x63);
    v.push(0x6f);
    v.push(0x6d);
    v.push(0x2f);
    v.push(0x6f);
    v.push(0x70);
    v.push(0x65);
    v.push(0x6e);
    v.push(0x61);
    v.push(0x69);
    v.push(0x2f);
    v.push(0x76);
    v.push(0x31);
    v.push(0x2f);
    proof {
        assert(v@ =~= base_groq());
    }
    v
}

fn base_gemini_vec() -> (v: Vec<u8>)
    ensures
        v@ == base_gemini(),
{
    let mut v: Vec<u8> = Vec::new();
    v.push(0x68);
    v.push(0x74);
    v.push(0x74);
    v.push(0x70);
    v.push(0x73);
    v.push(0x3a);
    v.push(0x2f);
    v.push(0x2f);
    v.push(0x67);
    v.push(0x65);
    v.push(0x6e);
    v.push(0x65);
    v.push(0x72);
    v.push(0x61);
    v.push(0x74);
    v.push(0x69);
    v.push(0x76);
    v.push(0x65);
    v.push(0x6c);
    v.push(0x61);
    v.push(0x6e);
    v.push(0x67);
    v.push(0x75);
    v.push(0x61);
    v.push(0x67);
    v.push(0x65);
    v.push(0x2e);
    v.push(0x67);
    v.push(0x6f);
    v.push(0x6f);
    v.push(0x67);
    v.push(0x6c);
    v.push(0x65);
    v.push(0x61);
    v.push(0x70);
    v.push(0x69);
    v.push(0x73);
    v.push(0x2e);
    v.push(0x63);
    v.push(0x6f);
    v.push(0x6d);
    v.push(0x2f);
    v.push(0x76);
    v.push(0x31);
    v.push(0x62);
    v.push(0x65);
    v.push(0x74);
    v.push(0x61);
    v.push(0x2f);
    proof {
        assert(v@ =~= base_gemini());
    }
    v
}

// ---------------------------------------------------------------------------
// The registry.

/// First provider of this name; since registration removes any earlier entry
/// of the same name, it is also the only one.
pub open spec fn sp_reg_find(s: Seq<ProviderV>, name: Seq<u8>) -> Option<ProviderV>
    decreases s.len(),
{
    if s.len() == 0 {
        None
    } else if s[0].name == name {
        Some(s[0])
    } else {
        sp_reg_find(s.drop_first(), name)
    }
}

/// `s` with every entry of this name removed; the others keep their order.
pub open spec fn sp_reg_strip(s: Seq<ProviderV>, name: Seq<u8>) -> Seq<ProviderV>
    decreases s.len(),
{
    if s.len() == 0 {
        Seq::empty()
    } else if s[0].name == name {
        sp_reg_strip(s.drop_first(), name)
    } else {
        seq![s[0]] + sp_reg_strip(s.drop_first(), name)
    }
}

/// Every provider name occurs at most once: a provider's identity is unique
/// within a registry.
pub open spec fn sp_reg_unique(s: Seq<ProviderV>) -> bool {
    forall|i: int, j: int| 0 <= i < j < s.len() ==> s[i].name != s[j].name
}

/// Stripping a name leaves no entry of that name behind.
pub proof fn lemma_strip_no_name(s: Seq<ProviderV>, name: Seq<u8>)
    ensures
        forall|k: int|
            0 <= k < sp_reg_strip(s, name).len() ==> (#[trigger] sp_reg_strip(s, name)[k]).name
                != name,
    decreases s.len(),
{
    if s.len() > 0 {
        lemma_strip_no_name(s.drop_first(), name);
    }
}

/// Every name in the stripped sequence was already a name in the sequence.
proof fn lemma_strip_name_mem(s: Seq<ProviderV>, name: Seq<u8>)
    ensures
        forall|k: int|
            0 <= k < sp_reg_strip(s, name).len() ==> (exists|j: int|
                0 <= j < s.len() && s[j].name == (#[trigger] sp_reg_strip(s, name)[k]).name),
    decreases s.len(),
{
    if s.len() > 0 {
        lemma_strip_name_mem(s.drop_first(), name);
        let stripped = sp_reg_strip(s, name);
        assert forall|k: int| 0 <= k < stripped.len() implies (exists|j: int|
            0 <= j < s.len() && s[j].name == (#[trigger] stripped[k]).name) by {
            if s[0].name == name {
                let j0 = choose|j0: int|
                    0 <= j0 < s.drop_first().len() && s.drop_first()[j0].name
                        == sp_reg_strip(s.drop_first(), name)[k].name;
                assert(s[j0 + 1].name == stripped[k].name);
            } else {
                if k == 0 {
                    assert(s[0].name == stripped[0].name);
                } else {
                    let j0 = choose|j0: int|
                        0 <= j0 < s.drop_first().len() && s.drop_first()[j0].name
                            == sp_reg_strip(s.drop_first(), name)[k - 1].name;
                    assert(s[j0 + 1].name == stripped[k].name);
                }
            }
        }
    }
}

/// Stripping keeps names unique.
pub proof fn lemma_strip_keeps_unique(s: Seq<ProviderV>, name: Seq<u8>)
    requires
        sp_reg_unique(s),
    ensures
        sp_reg_unique(sp_reg_strip(s, name)),
    decreases s.len(),
{
    if s.len() > 0 {
        let rest = s.drop_first();
        assert forall|i: int, j: int| 0 <= i < j < rest.len() implies rest[i].name
            != rest[j].name by {
            assert(s[i + 1].name != s[j + 1].name);
        }
        lemma_strip_keeps_unique(rest, name);
        if s[0].name != name {
            lemma_strip_name_mem(rest, name);
            let stripped = sp_reg_strip(s, name);
            assert forall|i: int, j: int| 0 <= i < j < stripped.len() implies stripped[i].name
                != stripped[j].name by {
                if i == 0 {
                    let j0 = choose|j0: int|
                        0 <= j0 < rest.len() && rest[j0].name == sp_reg_strip(rest, name)[j
                            - 1].name;
                    assert(s[0].name != s[j0 + 1].name);
                } else {
                    assert(sp_reg_strip(rest, name)[i - 1].name != sp_reg_strip(rest, name)[j
                        - 1].name);
                }
            }
        }
    }
}

/// Looking up any other name is unaffected by the strip.
pub proof fn lemma_strip_keeps_find(s: Seq<ProviderV>, name: Seq<u8>, n: Seq<u8>)
    requires
        n != name,
    ensures
        sp_reg_find(sp_reg_strip(s, name), n) == sp_reg_find(s, n),
    decreases s.len(),
{
    if s.len() > 0 {
        lemma_strip_keeps_find(s.drop_first(), name, n);
        if s[0].name != name {
            assert((seq![s[0]] + sp_reg_strip(s.drop_first(), name)).drop_first()
                =~= sp_reg_strip(s.drop_first(), name));
        }
    }
}

/// Appending one entry to the input strips to the old result, plus that
/// entry if its name differs.
proof fn lemma_strip_snoc(s: Seq<ProviderV>, x: ProviderV, name: Seq<u8>)
    ensures
        sp_reg_strip(s.push(x), name) == (if x.name == name {
            sp_reg_strip(s, name)
        } else {
            sp_reg_strip(s, name) + seq![x]
        }),
    decreases s.len(),
{
    if s.len() == 0 {
        assert(s.push(x)[0] == x);
        assert(s.push(x).drop_first() =~= Seq::<ProviderV>::empty());
        assert(sp_reg_strip(Seq::<ProviderV>::empty(), name) =~= Seq::<ProviderV>::empty());
        if x.name != name {
            assert(seq![x] + Seq::<ProviderV>::empty() =~= Seq::<ProviderV>::empty() + seq![x]);
        }
    } else {
        assert(s.push(x)[0] == s[0]);
        assert(s.push(x).drop_first() =~= s.drop_first().push(x));
        lemma_strip_snoc(s.drop_first(), x, name);
        if s[0].name != name && x.name != name {
            assert(seq![s[0]] + (sp_reg_strip(s.drop_first(), name) + seq![x]) =~= (seq![s[0]]
                + sp_reg_strip(s.drop_first(), name)) + seq![x]);
        }
    }
}

/// Views of a provider vector's entries.
pub open spec fn providers_view(v: Vec<Provider>) -> Seq<ProviderV> {
    Seq::new(
        v@.len(),
        |i: int|
            if 0 <= i < v@.len() {
                v[i]@
            } else {
                ProviderV {
                    name: Seq::empty(),
                    format: WireFormat::NewlineJson,
                    base_url: Seq::empty(),
                    api_key: None,
                    requires_key: false,
                }
            },
    )
}

/// The mapping from provider name to capability; it owns no conversation
/// state.  Names are unique: registering a name again replaces the earlier
/// provider.
pub struct ProviderRegistry {
    providers: Vec<Provider>,
}

impl View for ProviderRegistry {
    type V = Seq<ProviderV>;

    closed spec fn view(&self) -> Seq<ProviderV> {
        providers_view(self.providers)
    }
}

impl ProviderRegistry {
    /// An empty registry; the surrounding program registers its backends.
    pub fn new() -> (r: ProviderRegistry)
        ensures
            r@ == Seq::<ProviderV>::empty(),
            sp_reg_unique(r@),
    {
        let r = ProviderRegistry { providers: Vec::new() };
        proof {
            assert(r@ =~= Seq::<ProviderV>::empty());
        }
        r
    }

    /// Register a provider: it stands first, and any earlier provider of the
    /// same name is removed, so each name stays unique within the registry.
    pub fn register(&mut self, provider: Provider)
        ensures
            final(self)@ == seq![provider@] + sp_reg_strip(old(self)@, provider@.name),
            sp_reg_unique(old(self)@) ==> sp_reg_unique(final(self)@),
    {
        let ghost orig = self@;
        let ghost pv = provider@;
        let name = copy_range(provider.get_name(), 0, provider.get_name().len());
        proof {
            assert(name@ =~= pv.name);
        }
        let mut kept: Vec<Provider> = Vec::new();
        kept.push(provider);
        let ghost mut k: int = 0;
        proof {
            assert(providers_view(self.providers) =~= orig.skip(0));
            assert(orig.take(0) =~= Seq::<ProviderV>::empty());
            assert(providers_view(kept) =~= seq![pv] + sp_reg_strip(orig.take(0), pv.name));
        }
        while self.providers.len() > 0
            invariant
                0 <= k <= orig.len(),
                name@ == pv.name,
                providers_view(self.providers) == orig.skip(k),
                providers_view(kept) == seq![pv] + sp_reg_strip(orig.take(k), pv.name),
            decreases self.providers@.len(),
        {
            let ghost before = providers_view(self.providers);
            proof {
                assert(before.len() == self.providers@.len());
                assert(orig.skip(k).len() == orig.len() - k);
                assert(k < orig.len());
                assert(orig.skip(k)[0] == orig[k]);
            }
            let p = self.providers.remove(0);
            proof {
                assert(p@ == before[0]);
                assert(before[0] == orig[k]);
                assert(providers_view(self.providers) =~= before.drop_first());
                assert(before.drop_first() =~= orig.skip(k + 1));
                assert(orig.take(k + 1) =~= orig.take(k).push(orig[k]));
                lemma_strip_snoc(orig.take(k), orig[k], pv.name);
            }
            if !bytes_eq(p.get_name(), &name) {
                let ghost keptv = providers_view(kept);
                kept.push(p);
                proof {
                    assert(providers_view(kept) =~= keptv.push(orig[k]));
                    assert((seq![pv] + sp_reg_strip(orig.take(k), pv.name)).push(orig[k])
                        =~= seq![pv] + (sp_reg_strip(orig.take(k), pv.name) + seq![orig[k]]));
                }
            }
            proof {
                k = k + 1;
            }
        }
        proof {
            assert(orig.skip(k).len() == 0);
            assert(orig.take(k) =~= orig);
        }
        self.providers = kept;
        proof {
            if sp_reg_unique(orig) {
                lemma_strip_keeps_unique(orig, pv.name);
                lemma_strip_no_name(orig, pv.name);
                let fin = seq![pv] + sp_reg_strip(orig, pv.name);
                assert forall|i: int, j: int| 0 <= i < j < fin.len() implies fin[i].name
                    != fin[j].name by {
                    if i > 0 {
                        assert(sp_reg_strip(orig, pv.name)[i - 1].name != sp_reg_strip(
                            orig,
                            pv.name,
                        )[j - 1].name);
                    } else {
                        assert(sp_reg_strip(orig, pv.name)[j - 1].name != pv.name);
                    }
                }
            }
        }
    }


    /// A registry holding the three stock backends, handed their optional
    /// credentials.  Which keys exist is the surrounding program's to find
    /// out; the configuration table itself lives here.
    pub fn with_default_backends(
        groq_key: Option<Vec<u8>>,
        gemini_key: Option<Vec<u8>>,
    ) -> (r: ProviderRegistry)
        ensures
            r@ == sp_default_backends(
                match groq_key {
                    Some(k) => Some(k@),
                    None => None::<Seq<u8>>,
                },
                match gemini_key {
                    Some(k) => Some(k@),
                    None => None::<Seq<u8>>,
                },
            ),
            sp_reg_unique(r@),
    {
        let ghost gk = match groq_key {
            Some(ref k) => Some(k@),
            None => None::<Seq<u8>>,
        };
        let ghost mk = match gemini_key {
            Some(ref k) => Some(k@),
            None => None::<Seq<u8>>,
        };
        let ghost oll = ProviderV {
            name: name_ollama(),
            format: WireFormat::NewlineJson,
            base_url: base_ollama(),
            api_key: None,
            requires_key: false,
        };
        let ghost gq = ProviderV {
            name: name_groq(),
            format: WireFormat::Sse,
            base_url: base_groq(),
            api_key: gk,
            requires_key: true,
        };
        let ghost gm = ProviderV {
            name: name_gemini(),
            format: WireFormat::FragmentedArray,
            base_url: base_gemini(),
            api_key: mk,
            requires_key: true,
        };
        let mut r = ProviderRegistry::new();
        r.register(
            Provider::new(
                name_ollama_vec(),
                WireFormat::NewlineJson,
                base_ollama_vec(),
                None,
                false,
            ),
        );
        proof {
            assert(sp_norm_base(base_ollama()) =~= base_ollama());
            assert(sp_reg_strip(Seq::<ProviderV>::empty(), name_ollama()) =~= Seq::<
                ProviderV,
            >::empty());
            assert(r@ =~= seq![oll]);
        }
        let ghost s1 = r@;
        r.register(Provider::new(name_groq_vec(), WireFormat::Sse, base_groq_vec(), groq_key, true));
        proof {
            assert(sp_norm_base(base_groq()) =~= base_groq());
            assert(name_groq() != name_ollama());
            assert(s1.drop_first() =~= Seq::<ProviderV>::empty());
            assert(sp_reg_strip(Seq::<ProviderV>::empty(), name_groq()) =~= Seq::<
                ProviderV,
            >::empty());
            assert(sp_reg_strip(s1, name_groq()) =~= seq![oll]);
            assert(r@ =~= seq![gq, oll]);
        }
        let ghost s2 = r@;
        r.register(
            Provider::new(
                name_gemini_vec(),
                WireFormat::FragmentedArray,
                base_gemini_vec(),
                gemini_key,
                true,
            ),
        );
        proof {
            assert(sp_norm_base(base_gemini()) =~= base_gemini());
            assert(name_gemini()[0] != name_ollama()[0]);
            assert(name_gemini() != name_ollama());
            assert(name_gemini() != name_groq());
            assert(s2.drop_first() =~= seq![oll]);
            assert(seq![oll].drop_first() =~= Seq::<ProviderV>::empty());
            assert(sp_reg_strip(Seq::<ProviderV>::empty(), name_gemini()) =~= Seq::<
                ProviderV,
            >::empty());
            assert(sp_reg_strip(seq![oll], name_gemini()) =~= seq![oll]);
            assert(sp_reg_strip(s2, name_gemini()) =~= seq![gq, oll]);
            assert(r@ =~= seq![gm, gq, oll]);
            assert(seq![gm, gq, oll] =~= sp_default_backends(gk, mk));
        }
        r
    }

    /// Look a provider up by name.
    pub fn get_provider(&self, name: &Vec<u8>) -> (r: Option<&Provider>)
        ensures
            match r {
                Some(p) => sp_reg_find(self@, name@) == Some(p@),
                None => sp_reg_find(self@, name@) is None,
            },
    {
        let ghost full = self@;
        let n = self.providers.len();
        let mut i: usize = 0;
        proof {
            assert(full.skip(0) =~= full);
        }
        while i < n
            invariant
                0 <= i <= n == self.providers@.len(),
                full == self@,
                sp_reg_find(full, name@) == sp_reg_find(full.skip(i as int), name@),
            decreases n - i,
        {
            proof {
                assert(full.skip(i as int)[0] == full[i as int]);
                assert(full.skip(i as int).drop_first() =~= full.skip(i as int + 1));
            }
            let p = &self.providers[i];
            if bytes_eq(p.get_name(), name) {
                return Some(p);
            }
            i += 1;
        }
        proof {
            assert(full.skip(n as int) =~= Seq::<ProviderV>::empty());
        }
        None
    }

    /// The names of all registered providers, in registration order (newest
    /// first).
    pub fn list_providers(&self) -> (r: Vec<Vec<u8>>)
        ensures
            r.deep_view().len() == self@.len(),
            forall|i: int| 0 <= i < self@.len() ==> r.deep_view()[i] == self@[i].name,
    {
        let n = self.providers.len();
        let mut out: Vec<Vec<u8>> = Vec::new();
        let mut i: usize = 0;
        while i < n
            invariant
                0 <= i <= n == self.providers@.len(),
                out.deep_view().len() == i,
                forall|k: int| 0 <= k < i ==> out.deep_view()[k] == self@[k].name,
            decreases n - i,
        {
            let p = &self.providers[i];
            let nm = copy_range(p.get_name(), 0, p.get_name().len());
            let ghost out0 = out.deep_view();
            let ghost nv = nm@;
            out.push(nm);
            proof {
                assert(out.deep_view() =~~= out0.push(nv));
            }
            i += 1;
        }
        out
    }
}

} // verus!
