//! Wire-level data model and the event decoder.
//!
//! A server-sent event carries one string payload: either the `[DONE]`
//! sentinel, or a JSON chunk whose first choice holds a delta that begins
//! a message (a `role` field), extends it (a `content` field), or closes
//! it (neither). The decoder turns each payload into a typed `Response`
//! event and ends the sequence after the sentinel or the first failure.

use vstd::prelude::*;
use vstd::string::StringExecFns;

use crate::errors::Errors;

verus! {

/// Who a conversation message is from.
#[derive(Debug, Clone, Copy, PartialEq, Eq, Structural)]
pub enum Role {
    /// A system message, sent at the start to set the tone of the model.
    System,
    /// A message generated by the model.
    Assistant,
    /// A message entered by the user.
    User,
}

impl Role {
    /// The lowercase wire spelling of this role.
    pub open spec fn spec_name(self) -> Seq<char> {
        match self {
            Role::System => "system"@,
            Role::Assistant => "assistant"@,
            Role::User => "user"@,
        }
    }

    /// The lowercase string this role serializes to.
    pub fn as_str(&self) -> (r: &'static str)
        ensures
            r@ == self.spec_name(),
    {
        match self {
            Role::System => "system",
            Role::Assistant => "assistant",
            Role::User => "user",
        }
    }
}

/// Which role, if any, a wire string names.
pub open spec fn spec_role_of(s: Seq<char>) -> Option<Role> {
    if s == "user"@ {
        Some(Role::User)
    } else if s == "assistant"@ {
        Some(Role::Assistant)
    } else if s == "system"@ {
        Some(Role::System)
    } else {
        None
    }
}

/// Parses a wire role string; any string but the three lowercase role
/// names is rejected with `InvalidRole`.
pub fn parse_role(s: &str) -> (r: Result<Role, Errors>)
    ensures
        match r {
            Ok(role) => spec_role_of(s@) == Some(role),
            Err(e) => spec_role_of(s@) is None && e == Errors::InvalidRole,
        },
{
    let owned = s.to_owned();
    if owned == String::from_str("user") {
        Ok(Role::User)
    } else if owned == String::from_str("assistant") {
        Ok(Role::Assistant)
    } else if owned == String::from_str("system") {
        Ok(Role::System)
    } else {
        Err(Errors::InvalidRole)
    }
}

/// Round trip of a role through its wire spelling: parsing the string a
/// role serializes to yields that same role.
pub proof fn lemma_role_round_trip(role: Role)
    ensures
        spec_role_of(role.spec_name()) == Some(role),
{
    reveal_strlit("user");
    reveal_strlit("assistant");
    reveal_strlit("system");
    assert("user"@.len() == 4);
    assert("assistant"@.len() == 9);
    assert("system"@.len() == 6);
}

/// One `{role, content}` pair of a request payload.
#[derive(Debug, Clone)]
pub struct MessageJson {
    pub role: String,
    pub content: String,
}

/// Mathematical content of a `MessageJson`.
pub struct MessageJsonModel {
    pub role: Seq<char>,
    pub content: Seq<char>,
}

impl View for MessageJson {
    type V = MessageJsonModel;

    open spec fn view(&self) -> MessageJsonModel {
        MessageJsonModel { role: self.role@, content: self.content@ }
    }
}

/// A complete chat-completion request: the projected conversation plus the
/// model name, always asking for a streamed reply.
#[derive(Debug)]
pub struct Payload {
    pub model: String,
    pub messages: Vec<MessageJson>,
    pub stream: bool,
}

/// The delta carried by one inbound choice: it begins a message, extends
/// one, or closes one.
#[derive(Debug, Clone)]
pub enum InboundChunkPayload {
    /// Begins a single message by announcing its role.
    AnnounceRoles { role: String },
    /// Streams a part of the message content.
    StreamContent { content: String },
    /// Closes a single message.
    Close {},
}

/// Mathematical content of an `InboundChunkPayload`.
pub enum DeltaModel {
    AnnounceRoles(Seq<char>),
    StreamContent(Seq<char>),
    Close,
}

impl View for InboundChunkPayload {
    type V = DeltaModel;

    open spec fn view(&self) -> DeltaModel {
        match self {
            InboundChunkPayload::AnnounceRoles { role } => DeltaModel::AnnounceRoles(role@),
            InboundChunkPayload::StreamContent { content } => DeltaModel::StreamContent(content@),
            InboundChunkPayload::Close {} => DeltaModel::Close,
        }
    }
}

/// The first choice of an inbound chunk: its delta and the index of the
/// message slot the chunk refers to.
#[derive(Debug, Clone)]
pub struct InboundChunkChoice {
    pub delta: InboundChunkPayload,
    pub index: usize,
}

/// Mathematical content of an `InboundChunkChoice`.
pub struct ChoiceModel {
    pub delta: DeltaModel,
    pub index: int,
}

impl View for InboundChunkChoice {
    type V = ChoiceModel;

    open spec fn view(&self) -> ChoiceModel {
        ChoiceModel { delta: self.delta@, index: self.index as int }
    }
}

/// The first choice that a chunk payload parses to, `None` when the text
/// is not a JSON object holding a first choice with an unsigned `index`
/// and a `delta` object. What it holds for a given text is fixed by the
/// JSON grammar and stated nowhere here; the payload text alone
/// determines it.
pub uninterp spec fn spec_first_choice(s: Seq<char>) -> Option<ChoiceModel>;

/// Relies on serde_json: `from_str::<Value>` parses the payload, and
/// `Value::get`, `Value::as_u64` and `Value::as_str` read the `index` and
/// `delta` of `choices[0]`. A delta with a string `role` field begins a
/// message (checked first, as the wire format never sends both), one with
/// a string `content` field extends it, and any other delta closes it.
#[verifier::external_body]
fn parse_first_choice(payload: &str) -> (r: Option<InboundChunkChoice>)
    ensures
        match r {
            Some(c) => spec_first_choice(payload@) == Some(c@),
            None => spec_first_choice(payload@) is None,
        },
{
    let v: serde_json::Value = serde_json::from_str(payload).ok()?;
    let c = v.get("choices")?.get(0)?;
    let index = c.get("index")?.as_u64()? as usize;
    let d = c.get("delta")?;
    let delta = if let Some(role) = d.get("role").and_then(serde_json::Value::as_str) {
        InboundChunkPayload::AnnounceRoles { role: role.to_owned() }
    } else if let Some(content) = d.get("content").and_then(serde_json::Value::as_str) {
        InboundChunkPayload::StreamContent { content: content.to_owned() }
    } else {
        InboundChunkPayload::Close {}
    };
    Some(InboundChunkChoice { delta, index })
}

/// A decoded, provider-agnostic response event. Produced by the decoder,
/// consumed once by the accumulator, never stored.
#[derive(Debug, Clone)]
pub enum Response {
    /// A fragment of content for the currently open message.
    Content { delta: String, response_index: usize },
    /// Opens a new message with the announced role.
    BeginResponse { role: Role, response_index: usize },
    /// Closes the currently open message.
    CloseResponse { response_index: usize },
    /// The server stream has ended.
    Done,
}

/// Mathematical content of a `Response`.
pub enum ResponseModel {
    Content { delta: Seq<char>, response_index: int },
    BeginResponse { role: Role, response_index: int },
    CloseResponse { response_index: int },
    Done,
}

impl View for Response {
    type V = ResponseModel;

    open spec fn view(&self) -> ResponseModel {
        match self {
            Response::Content { delta, response_index } => ResponseModel::Content {
                delta: delta@,
                response_index: *response_index as int,
            },
            Response::BeginResponse { role, response_index } => ResponseModel::BeginResponse {
                role: *role,
                response_index: *response_index as int,
            },
            Response::CloseResponse { response_index } => ResponseModel::CloseResponse {
                response_index: *response_index as int,
            },
            Response::Done => ResponseModel::Done,
        }
    }
}

/// What one payload decodes to: the sentinel gives `Done`; a chunk with no
/// usable first choice gives `DecodeError`; otherwise the first choice's
/// delta picks the event, rejecting an unknown role with `InvalidRole`.
pub open spec fn spec_decode(s: Seq<char>) -> Result<ResponseModel, Errors> {
    if s == "[DONE]"@ {
        Ok(ResponseModel::Done)
    } else {
        match spec_first_choice(s) {
            None => Err(Errors::DecodeError),
            Some(c) => match c.delta {
                DeltaModel::AnnounceRoles(name) => match spec_role_of(name) {
                    Some(role) => Ok(ResponseModel::BeginResponse {
                        role,
                        response_index: c.index,
                    }),
                    None => Err(Errors::InvalidRole),
                },
                DeltaModel::StreamContent(text) => Ok(ResponseModel::Content {
                    delta: text,
                    response_index: c.index,
                }),
                DeltaModel::Close => Ok(ResponseModel::CloseResponse { response_index: c.index }),
            },
        }
    }
}

/// Decodes a single event payload into a `Response` event, exactly as
/// `spec_decode` says.
pub fn decode_payload(payload: &str) -> (r: Result<Response, Errors>)
    ensures
        match r {
            Ok(resp) => spec_decode(payload@) == Ok::<ResponseModel, Errors>(resp@),
            Err(e) => spec_decode(payload@) == Err::<ResponseModel, Errors>(e),
        },
{
    let owned = payload.to_owned();
    if owned == String::from_str("[DONE]") {
        Ok(Response::Done)
    } else {
        match parse_first_choice(payload) {
            None => Err(Errors::DecodeError),
            Some(choice) => {
                let InboundChunkChoice { delta, index } = choice;
                match delta {
                    InboundChunkPayload::AnnounceRoles { role } => {
                        match parse_role(role.as_str()) {
                            Ok(r) => Ok(Response::BeginResponse { role: r, response_index: index }),
                            Err(e) => Err(e),
                        }
                    },
                    InboundChunkPayload::StreamContent { content } => {
                        Ok(Response::Content { delta: content, response_index: index })
                    },
                    InboundChunkPayload::Close {} => {
                        Ok(Response::CloseResponse { response_index: index })
                    },
                }
            },
        }
    }
}

/// The event decoder: a single-pass source of `Response` events over the
/// payloads of one round trip. It ends the sequence after the sentinel
/// or after the first failed payload, and yields nothing further.
pub struct Decoder {
    finished: bool,
}

impl Decoder {
    /// Whether the sequence has ended: no further event will be yielded.
    pub closed spec fn spec_finished(&self) -> bool {
        self.finished
    }

    /// A fresh decoder at the start of a round trip.
    pub fn new() -> (d: Decoder)
        ensures
            !d.spec_finished(),
    {
        Decoder { finished: false }
    }

    /// Feeds the next raw payload in receipt order. Yields `None` once the
    /// sequence has ended; otherwise decodes the payload, and ends the
    /// sequence after `Done` or after any decode failure.
    pub fn next_event(&mut self, payload: &str) -> (r: Option<Result<Response, Errors>>)
        ensures
            old(self).spec_finished() ==> r is None && *final(self) == *old(self),
            !old(self).spec_finished() ==> match r {
                Some(ev) => match ev {
                    Ok(resp) => spec_decode(payload@) == Ok::<ResponseModel, Errors>(resp@)
                        && (final(self).spec_finished() <==> resp is Done),
                    Err(e) => spec_decode(payload@) == Err::<ResponseModel, Errors>(e)
                        && final(self).spec_finished(),
                },
                None => false,
            },
    {
        if self.finished {
            return None;
        }
        match decode_payload(payload) {
            Ok(resp) => {
                if let Response::Done = resp {
                    self.finished = true;
                }
                Some(Ok(resp))
            },
            Err(e) => {
                self.finished = true;
                Some(Err(e))
            },
        }
    }
}

} // verus!
