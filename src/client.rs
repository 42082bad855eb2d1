//! The inference client's own logic: request payloads, status checks, and the
//! reading of the model listing. The HTTP exchange itself is done by the caller.
use vstd::prelude::*;
use vstd::utf8::{decode_utf8, valid_utf8};
use std::collections::HashMap;
use crate::json::{item_str_members, json_accepts, json_item_str_members, parse_json};
use crate::text::utf8_text;

verus! {

/// Failures of the inference client.
#[derive(Clone, Debug, PartialEq, Eq)]
pub enum ClientError {
    /// The server could not be reached; the transport's message.
    UpstreamUnavailable(String),
    /// The server answered with a status outside `200..=299`.
    UpstreamError(u16),
    /// The body of a non-streaming answer does not have the expected shape.
    MalformedResponse,
}

/// What the server reports about one model; every part is optional.
#[derive(Clone, Debug, PartialEq)]
pub struct ModelInfo {
    pub modelfile: Option<String>,
    pub parameters: Option<String>,
    pub template: Option<String>,
    pub details: Option<ModelDetails>,
    pub model_info: Option<HashMap<String, serde_json::Value>>,
    pub capabilities: Option<Vec<String>>,
}

#[derive(Clone, Debug, PartialEq, Eq)]
pub struct ModelDetails {
    pub parent_model: Option<String>,
    pub format: Option<String>,
    pub family: Option<String>,
    pub families: Option<Vec<String>>,
    pub parameter_size: Option<String>,
    pub quantization_level: Option<String>,
}

/// A request to generate text.
#[derive(Clone, Debug, PartialEq)]
pub struct GenerationRequest {
    pub model: String,
    pub prompt: String,
    pub system: Option<String>,
    pub template: Option<String>,
    pub images: Option<Vec<String>>,
    pub raw: Option<bool>,
    pub format: Option<String>,
    pub options: Option<HashMap<String, serde_json::Value>>,
    pub context: Option<Vec<u8>>,
}

/// One member of the generation payload, with its value. There is no null.
#[derive(Clone, Debug, PartialEq)]
pub enum PayloadField {
    Model(String),
    Prompt(String),
    Stream(bool),
    Context(Vec<u8>),
    System(String),
    Template(String),
    Images(Vec<String>),
    Raw(bool),
    Format(String),
    Options(HashMap<String, serde_json::Value>),
}

/// The name of a payload member.
#[derive(PartialEq, Eq, Structural, Clone, Copy, Debug)]
pub enum PayloadKey {
    Model,
    Prompt,
    Stream,
    Context,
    System,
    Template,
    Images,
    Raw,
    Format,
    Options,
}

pub open spec fn key_of(f: PayloadField) -> PayloadKey {
    match f {
        PayloadField::Model(_) => PayloadKey::Model,
        PayloadField::Prompt(_) => PayloadKey::Prompt,
        PayloadField::Stream(_) => PayloadKey::Stream,
        PayloadField::Context(_) => PayloadKey::Context,
        PayloadField::System(_) => PayloadKey::System,
        PayloadField::Template(_) => PayloadKey::Template,
        PayloadField::Images(_) => PayloadKey::Images,
        PayloadField::Raw(_) => PayloadKey::Raw,
        PayloadField::Format(_) => PayloadKey::Format,
        PayloadField::Options(_) => PayloadKey::Options,
    }
}

impl PayloadField {
    /// The member's name.
    pub fn key(&self) -> (r: PayloadKey)
        ensures
            r == key_of(*self),
    {
        match self {
            PayloadField::Model(_) => PayloadKey::Model,
            PayloadField::Prompt(_) => PayloadKey::Prompt,
            PayloadField::Stream(_) => PayloadKey::Stream,
            PayloadField::Context(_) => PayloadKey::Context,
            PayloadField::System(_) => PayloadKey::System,
            PayloadField::Template(_) => PayloadKey::Template,
            PayloadField::Images(_) => PayloadKey::Images,
            PayloadField::Raw(_) => PayloadKey::Raw,
            PayloadField::Format(_) => PayloadKey::Format,
            PayloadField::Options(_) => PayloadKey::Options,
        }
    }
}

pub open spec fn opt_member<T>(o: Option<T>, f: spec_fn(T) -> PayloadField) -> Seq<PayloadField> {
    match o {
        Some(v) => seq![f(v)],
        None => seq![],
    }
}

/// The payload of a request: model, prompt and `stream: true`, then each
/// optional member that is set, in a fixed order; unset members are left out.
pub open spec fn payload_spec(req: GenerationRequest) -> Seq<PayloadField> {
    seq![PayloadField::Model(req.model), PayloadField::Prompt(req.prompt), PayloadField::Stream(true)]
        + opt_member(req.context, |v: Vec<u8>| PayloadField::Context(v))
        + opt_member(req.system, |v: String| PayloadField::System(v))
        + opt_member(req.template, |v: String| PayloadField::Template(v))
        + opt_member(req.images, |v: Vec<String>| PayloadField::Images(v))
        + opt_member(req.raw, |v: bool| PayloadField::Raw(v))
        + opt_member(req.format, |v: String| PayloadField::Format(v))
        + opt_member(req.options, |v: HashMap<String, serde_json::Value>| PayloadField::Options(v))
}

/// Whether a member of the request is set; model, prompt and stream always are.
pub open spec fn member_set(req: GenerationRequest, k: PayloadKey) -> bool {
    match k {
        PayloadKey::Model | PayloadKey::Prompt | PayloadKey::Stream => true,
        PayloadKey::Context => req.context is Some,
        PayloadKey::System => req.system is Some,
        PayloadKey::Template => req.template is Some,
        PayloadKey::Images => req.images is Some,
        PayloadKey::Raw => req.raw is Some,
        PayloadKey::Format => req.format is Some,
        PayloadKey::Options => req.options is Some,
    }
}

pub open spec fn has_key(p: Seq<PayloadField>, k: PayloadKey) -> bool {
    exists|i: int| 0 <= i < p.len() && key_of(#[trigger] p[i]) == k
}

proof fn lemma_has_key_concat(a: Seq<PayloadField>, b: Seq<PayloadField>, k: PayloadKey)
    ensures
        has_key(a + b, k) == (has_key(a, k) || has_key(b, k)),
{
    if has_key(a + b, k) {
        let i = choose|i: int| 0 <= i < (a + b).len() && key_of(#[trigger] (a + b)[i]) == k;
        if i < a.len() {
            assert(a[i] == (a + b)[i]);
        } else {
            assert(b[i - a.len()] == (a + b)[i]);
        }
    }
    if has_key(a, k) {
        let i = choose|i: int| 0 <= i < a.len() && key_of(#[trigger] a[i]) == k;
        assert((a + b)[i] == a[i]);
    }
    if has_key(b, k) {
        let i = choose|i: int| 0 <= i < b.len() && key_of(#[trigger] b[i]) == k;
        assert((a + b)[a.len() + i] == b[i]);
    }
}

proof fn lemma_has_key_small(p: Seq<PayloadField>, k: PayloadKey)
    requires
        p.len() <= 1,
    ensures
        has_key(p, k) == (p.len() == 1 && key_of(p[0]) == k),
{
    if p.len() == 1 && key_of(p[0]) == k {
        assert(key_of(p[0]) == k);
    }
}

/// In the payload of any request, a member appears exactly when it is set:
/// an unset optional member is left out, never sent as null.
pub proof fn lemma_payload_omits_unset(req: GenerationRequest, k: PayloadKey)
    ensures
        has_key(payload_spec(req), k) == member_set(req, k),
{
    let base = seq![PayloadField::Model(req.model), PayloadField::Prompt(req.prompt), PayloadField::Stream(true)];
    let s1 = opt_member(req.context, |v: Vec<u8>| PayloadField::Context(v));
    let s2 = opt_member(req.system, |v: String| PayloadField::System(v));
    let s3 = opt_member(req.template, |v: String| PayloadField::Template(v));
    let s4 = opt_member(req.images, |v: Vec<String>| PayloadField::Images(v));
    let s5 = opt_member(req.raw, |v: bool| PayloadField::Raw(v));
    let s6 = opt_member(req.format, |v: String| PayloadField::Format(v));
    let s7 = opt_member(req.options, |v: HashMap<String, serde_json::Value>| PayloadField::Options(v));
    lemma_has_key_concat(base + s1 + s2 + s3 + s4 + s5 + s6, s7, k);
    lemma_has_key_concat(base + s1 + s2 + s3 + s4 + s5, s6, k);
    lemma_has_key_concat(base + s1 + s2 + s3 + s4, s5, k);
    lemma_has_key_concat(base + s1 + s2 + s3, s4, k);
    lemma_has_key_concat(base + s1 + s2, s3, k);
    lemma_has_key_concat(base + s1, s2, k);
    lemma_has_key_concat(base, s1, k);
    lemma_has_key_small(s1, k);
    lemma_has_key_small(s2, k);
    lemma_has_key_small(s3, k);
    lemma_has_key_small(s4, k);
    lemma_has_key_small(s5, k);
    lemma_has_key_small(s6, k);
    lemma_has_key_small(s7, k);
    if has_key(base, k) {
        let i = choose|i: int| 0 <= i < base.len() && key_of(#[trigger] base[i]) == k;
        assert(i == 0 || i == 1 || i == 2);
    }
    if k == PayloadKey::Model {
        assert(key_of(base[0]) == k);
    } else if k == PayloadKey::Prompt {
        assert(key_of(base[1]) == k);
    } else if k == PayloadKey::Stream {
        assert(key_of(base[2]) == k);
    }
}

/// Builds the generation payload of a request, as `payload_spec` says.
pub fn build_payload(req: GenerationRequest) -> (r: Vec<PayloadField>)
    ensures
        r@ == payload_spec(req),
{
    let ghost g = req;
    let mut out: Vec<PayloadField> = Vec::new();
    out.push(PayloadField::Model(req.model));
    out.push(PayloadField::Prompt(req.prompt));
    out.push(PayloadField::Stream(true));
    let ghost p0 = out@;
    if let Some(v) = req.context {
        out.push(PayloadField::Context(v));
    }
    let ghost p1 = out@;
    if let Some(v) = req.system {
        out.push(PayloadField::System(v));
    }
    let ghost p2 = out@;
    if let Some(v) = req.template {
        out.push(PayloadField::Template(v));
    }
    let ghost p3 = out@;
    if let Some(v) = req.images {
        out.push(PayloadField::Images(v));
    }
    let ghost p4 = out@;
    if let Some(v) = req.raw {
        out.push(PayloadField::Raw(v));
    }
    let ghost p5 = out@;
    if let Some(v) = req.format {
        out.push(PayloadField::Format(v));
    }
    let ghost p6 = out@;
    if let Some(v) = req.options {
        out.push(PayloadField::Options(v));
    }
    proof {
        assert(p0 =~= seq![PayloadField::Model(g.model), PayloadField::Prompt(g.prompt), PayloadField::Stream(true)]);
        assert(p1 =~= p0 + opt_member(g.context, |v: Vec<u8>| PayloadField::Context(v)));
        assert(p2 =~= p1 + opt_member(g.system, |v: String| PayloadField::System(v)));
        assert(p3 =~= p2 + opt_member(g.template, |v: String| PayloadField::Template(v)));
        assert(p4 =~= p3 + opt_member(g.images, |v: Vec<String>| PayloadField::Images(v)));
        assert(p5 =~= p4 + opt_member(g.raw, |v: bool| PayloadField::Raw(v)));
        assert(p6 =~= p5 + opt_member(g.format, |v: String| PayloadField::Format(v)));
        assert(out@ =~= p6 + opt_member(g.options, |v: HashMap<String, serde_json::Value>| PayloadField::Options(v)));
    }
    out
}

pub open spec fn is_success(status: u16) -> bool {
    200 <= status <= 299
}

/// Accepts a success status; any other is `UpstreamError` with that status.
pub fn check_status(status: u16) -> (r: Result<(), ClientError>)
    ensures
        r is Ok <==> is_success(status),
        !is_success(status) ==> (r matches Err(ClientError::UpstreamError(s)) && s == status),
{
    if 200 <= status && status <= 299 {
        Ok(())
    } else {
        Err(ClientError::UpstreamError(status))
    }
}

/// The server is healthy when the listing request got a success status;
/// a transport failure (no status) counts as unhealthy.
pub fn health_from_status(status: Option<u16>) -> (r: bool)
    ensures
        r == (status matches Some(s) && is_success(s)),
{
    match status {
        Some(s) => 200 <= s && s <= 299,
        None => false,
    }
}

/// The strings that are there, in order.
pub open spec fn present_names(items: Seq<Option<Seq<char>>>) -> Seq<Seq<char>>
    decreases items.len(),
{
    if items.len() == 0 {
        seq![]
    } else {
        let init = present_names(items.drop_last());
        match items.last() {
            Some(n) => init.push(n),
            None => init,
        }
    }
}

/// The model names of a listing body: the `name` strings of the items of its
/// `models` array; no array means no models.
pub open spec fn listed_names(text: Seq<char>) -> Seq<Seq<char>> {
    match json_item_str_members(text, "models"@, "name"@) {
        Some(items) => present_names(items),
        None => seq![],
    }
}

pub open spec fn strings_view(v: Seq<String>) -> Seq<Seq<char>> {
    v.map_values(|s: String| s@)
}

/// Reads the model names out of the body of a listing answer. A body that is
/// not UTF-8 JSON is `MalformedResponse`.
pub fn model_names(body: &[u8]) -> (r: Result<Vec<String>, ClientError>)
    ensures
        !(valid_utf8(body@) && json_accepts(decode_utf8(body@))) ==> r matches Err(
            ClientError::MalformedResponse,
        ),
        valid_utf8(body@) && json_accepts(decode_utf8(body@)) ==> (r matches Ok(v) && strings_view(v@)
            == listed_names(decode_utf8(body@))),
{
    let text = match utf8_text(body) {
        Some(t) => t,
        None => {
            return Err(ClientError::MalformedResponse);
        },
    };
    let doc = match parse_json(text) {
        Some(d) => d,
        None => {
            return Err(ClientError::MalformedResponse);
        },
    };
    let mut out: Vec<String> = Vec::new();
    match item_str_members(&doc, "models", "name") {
        Some(items) => {
            let ghost iv = items@.map_values(|x: Option<String>| crate::json::opt_str_view(x));
            let mut i: usize = 0;
            while i < items.len()
                invariant
                    i <= items@.len(),
                    iv == items@.map_values(|x: Option<String>| crate::json::opt_str_view(x)),
                    strings_view(out@) == present_names(iv.subrange(0, i as int)),
                decreases items@.len() - i,
            {
                assert(iv.subrange(0, i as int + 1).drop_last() =~= iv.subrange(0, i as int));
                match &items[i] {
                    Some(n) => {
                        let ghost before = strings_view(out@);
                        out.push(n.clone());
                        assert(strings_view(out@) =~= before.push(n@));
                    },
                    None => {},
                }
                i = i + 1;
            }
            assert(iv.subrange(0, items@.len() as int) =~= iv);
        },
        None => {
            assert(strings_view(out@) =~= Seq::<Seq<char>>::empty());
        },
    }
    Ok(out)
}

} // verus!
