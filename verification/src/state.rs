//! The message accumulator: the conversation and the fold of response
//! events into it.
//!
//! A conversation is an ordered sequence of messages in which only the
//! most recently appended one may still be in progress; every earlier one
//! is complete. The accumulator preserves that invariant while folding
//! `Response` events, and projects the complete messages, in order, into
//! the request payload for the next round trip.

use vstd::prelude::*;
use vstd::string::StringExecFns;

use crate::client::{
    MessageJson, MessageJsonModel, Payload, Response, ResponseModel, Role, spec_role_of,
    lemma_role_round_trip,
};
use crate::errors::Errors;

verus! {

/// A finalized message: immutable once constructed.
#[derive(Debug, Clone)]
pub struct CompleteMessage {
    pub direction: Role,
    pub text: String,
    /// Whole seconds since the Unix epoch at the moment of completion.
    pub time: u64,
}

/// Mathematical content of a `CompleteMessage`.
pub struct CompleteModel {
    pub direction: Role,
    pub text: Seq<char>,
    pub time: int,
}

impl View for CompleteMessage {
    type V = CompleteModel;

    open spec fn view(&self) -> CompleteModel {
        CompleteModel { direction: self.direction, text: self.text@, time: self.time as int }
    }
}

/// A message still accumulating text during a round trip.
#[derive(Debug, Clone)]
pub struct IncompleteMessage {
    pub direction: Role,
    pub partial_text: String,
}

/// Mathematical content of an `IncompleteMessage`.
pub struct InProgressModel {
    pub direction: Role,
    pub partial_text: Seq<char>,
}

impl View for IncompleteMessage {
    type V = InProgressModel;

    open spec fn view(&self) -> InProgressModel {
        InProgressModel { direction: self.direction, partial_text: self.partial_text@ }
    }
}

/// A conversation message: either complete or still in progress.
#[derive(Debug, Clone)]
pub enum Message {
    Complete(CompleteMessage),
    InProgress(IncompleteMessage),
}

/// Mathematical content of a `Message`.
pub enum MessageModel {
    Complete(CompleteModel),
    InProgress(InProgressModel),
}

impl View for Message {
    type V = MessageModel;

    open spec fn view(&self) -> MessageModel {
        match self {
            Message::Complete(c) => MessageModel::Complete(c@),
            Message::InProgress(p) => MessageModel::InProgress(p@),
        }
    }
}

/// What completing a message at time `now` yields: an in-progress message
/// is finalized with its accumulated text and stamped `now`; an already
/// complete message is returned unchanged, timestamp included.
pub open spec fn spec_complete(m: MessageModel, now: int) -> CompleteModel {
    match m {
        MessageModel::Complete(c) => c,
        MessageModel::InProgress(p) => CompleteModel {
            direction: p.direction,
            text: p.partial_text,
            time: now,
        },
    }
}

impl Message {
    /// Finalizes this message at time `now`; completing an already
    /// complete message is a no-op, exactly as `spec_complete` says.
    pub fn into_complete(self, now: u64) -> (c: CompleteMessage)
        ensures
            c@ == spec_complete(self@, now as int),
    {
        match self {
            Message::Complete(c) => c,
            Message::InProgress(p) => CompleteMessage {
                direction: p.direction,
                text: p.partial_text,
                time: now,
            },
        }
    }
}

/// A message becomes complete exactly once: completing an already complete
/// message again, at any later time, yields identical content and
/// timestamp.
pub proof fn lemma_complete_idempotent(m: MessageModel, t1: int, t2: int)
    ensures
        spec_complete(MessageModel::Complete(spec_complete(m, t1)), t2) == spec_complete(m, t1),
{
}

/// Whether the conversation has a currently open message: a last message
/// still in progress.
pub open spec fn spec_has_open(s: Seq<MessageModel>) -> bool {
    s.len() > 0 && s.last() is InProgress
}

/// The central conversation invariant: every message but the last is
/// complete, so at most the most recently appended one is in progress.
pub open spec fn spec_wf(s: Seq<MessageModel>) -> bool {
    forall|i: int| 0 <= i < s.len() - 1 ==> s[i] is Complete
}

/// The request-payload projection: the `{role, content}` pairs of exactly
/// the complete messages, in conversation order; in-progress messages are
/// excluded, as their content was never acknowledged by the server.
pub open spec fn spec_payload(s: Seq<MessageModel>) -> Seq<MessageJsonModel>
    decreases s.len(),
{
    if s.len() == 0 {
        Seq::empty()
    } else {
        let rest = spec_payload(s.drop_last());
        match s.last() {
            MessageModel::Complete(c) => rest.push(
                MessageJsonModel { role: c.direction.spec_name(), content: c.text },
            ),
            MessageModel::InProgress(_) => rest,
        }
    }
}

/// The payload projection ignores a trailing in-progress message.
pub proof fn lemma_payload_skips_in_progress(s: Seq<MessageModel>, p: InProgressModel)
    ensures
        spec_payload(s.push(MessageModel::InProgress(p))) == spec_payload(s),
{
    assert(s.push(MessageModel::InProgress(p)).drop_last() =~= s);
}

/// The payload projection keeps an appended complete message, in order,
/// as its `{role, content}` pair.
pub proof fn lemma_payload_appends_complete(s: Seq<MessageModel>, c: CompleteModel)
    ensures
        spec_payload(s.push(MessageModel::Complete(c))) == spec_payload(s).push(
            (MessageJsonModel { role: c.direction.spec_name(), content: c.text }),
        ),
{
    assert(s.push(MessageModel::Complete(c)).drop_last() =~= s);
}

/// Round trip of a complete message through the request payload: the
/// projection carries the role's wire spelling, which parses back to the
/// same role, and resubmitting the projected content as a new user
/// message stores the literal text unchanged.
pub proof fn lemma_payload_round_trip(s: Seq<MessageModel>, c: CompleteModel, now: int)
    ensures
        spec_role_of(c.direction.spec_name()) == Some(c.direction),
        spec_payload(s.push(MessageModel::Complete(
            (CompleteModel { direction: Role::User, text: c.text, time: now }),
        ))) == spec_payload(s).push(
            (MessageJsonModel { role: Role::User.spec_name(), content: c.text }),
        ),
{
    lemma_role_round_trip(c.direction);
    lemma_payload_appends_complete(
        s,
        CompleteModel { direction: Role::User, text: c.text, time: now },
    );
}

/// View of a vector of payload entries.
pub open spec fn payload_view(v: Seq<MessageJson>) -> Seq<MessageJsonModel> {
    v.map_values(|e: MessageJson| e@)
}

/// View of a vector of response events.
pub open spec fn events_view(v: Seq<Response>) -> Seq<ResponseModel> {
    v.map_values(|e: Response| e@)
}

/// What folding one event into the conversation yields. Opening requires
/// no open message; extending and closing require one; the terminal
/// `Done` closes a still-open message as a safety net and is never an
/// error. The sole error transition is `ProtocolViolation`, which leaves
/// the conversation unchanged.
pub open spec fn spec_apply(s: Seq<MessageModel>, ev: ResponseModel, now: int) -> Result<
    Seq<MessageModel>,
    Errors,
> {
    match ev {
        ResponseModel::BeginResponse { role, response_index } => if spec_has_open(s) {
            Err(Errors::ProtocolViolation)
        } else {
            Ok(s.push(MessageModel::InProgress(
                InProgressModel { direction: role, partial_text: Seq::empty() },
            )))
        },
        ResponseModel::Content { delta, response_index } => if spec_has_open(s) {
            Ok(s.update(s.len() - 1, spec_append_delta(s.last(), delta)))
        } else {
            Err(Errors::ProtocolViolation)
        },
        ResponseModel::CloseResponse { response_index } => if spec_has_open(s) {
            Ok(s.update(s.len() - 1, MessageModel::Complete(spec_complete(s.last(), now))))
        } else {
            Err(Errors::ProtocolViolation)
        },
        ResponseModel::Done => if spec_has_open(s) {
            Ok(s.update(s.len() - 1, MessageModel::Complete(spec_complete(s.last(), now))))
        } else {
            Ok(s)
        },
    }
}

/// Appending a delta to an in-progress message's partial text.
pub open spec fn spec_append_delta(m: MessageModel, delta: Seq<char>) -> MessageModel {
    match m {
        MessageModel::InProgress(p) => MessageModel::InProgress(
            InProgressModel { direction: p.direction, partial_text: p.partial_text + delta },
        ),
        MessageModel::Complete(c) => MessageModel::Complete(c),
    }
}

/// What folding a whole sequence of events yields: the events are applied
/// in receipt order, stopping at the first error.
pub open spec fn spec_apply_all(
    s: Seq<MessageModel>,
    evs: Seq<ResponseModel>,
    now: int,
) -> Result<Seq<MessageModel>, Errors>
    decreases evs.len(),
{
    if evs.len() == 0 {
        Ok(s)
    } else {
        match spec_apply(s, evs[0], now) {
            Ok(s2) => spec_apply_all(s2, evs.drop_first(), now),
            Err(e) => Err(e),
        }
    }
}

/// The terminal `Done` event leaves no message open, so a drained round
/// trip never leaves an unreachable in-progress tail behind.
pub proof fn lemma_done_leaves_nothing_open(s: Seq<MessageModel>, now: int)
    ensures
        spec_apply(s, ResponseModel::Done, now) matches Ok(s2) ==> !spec_has_open(s2),
{
}

/// Folding a concatenation folds the first part, then the second from
/// where the first left off; an error in the first part is the whole
/// fold's error.
pub proof fn lemma_apply_all_append(
    s: Seq<MessageModel>,
    a: Seq<ResponseModel>,
    b: Seq<ResponseModel>,
    now: int,
)
    ensures
        spec_apply_all(s, a + b, now) == (match spec_apply_all(s, a, now) {
            Ok(s2) => spec_apply_all(s2, b, now),
            Err(e) => Err::<Seq<MessageModel>, Errors>(e),
        }),
    decreases a.len(),
{
    if a.len() == 0 {
        assert(a + b =~= b);
    } else {
        assert((a + b)[0] == a[0]);
        assert((a + b).drop_first() =~= a.drop_first() + b);
        match spec_apply(s, a[0], now) {
            Ok(s2) => {
                lemma_apply_all_append(s2, a.drop_first(), b, now);
            },
            Err(e) => {},
        }
    }
}

/// The conversation: the authoritative, ordered list of messages,
/// exclusively owned by the accumulator.
pub struct Messages {
    messages: Vec<Message>,
}

impl View for Messages {
    type V = Seq<MessageModel>;

    closed spec fn view(&self) -> Seq<MessageModel> {
        self.messages@.map_values(|m: Message| m@)
    }
}

impl Messages {
    /// An empty conversation.
    pub fn new() -> (m: Messages)
        ensures
            m@ =~= Seq::<MessageModel>::empty(),
            spec_wf(m@),
    {
        Messages { messages: Vec::new() }
    }

    /// How many messages the conversation holds.
    pub fn len(&self) -> (n: usize)
        ensures
            n == self@.len(),
    {
        self.messages.len()
    }

    /// The message at position `i`, in conversation order.
    pub fn get(&self, i: usize) -> (m: &Message)
        requires
            i < self@.len(),
        ensures
            m@ == self@[i as int],
    {
        &self.messages[i]
    }

    /// Whether a message is currently open.
    pub fn has_open(&self) -> (b: bool)
        ensures
            b == spec_has_open(self@),
    {
        if self.messages.len() == 0 {
            false
        } else {
            match &self.messages[self.messages.len() - 1] {
                Message::InProgress(_) => true,
                Message::Complete(_) => false,
            }
        }
    }

    /// Appends the user's turn as an already complete message stamped
    /// `now`. The prior round trip must have been drained, so no message
    /// is open.
    pub fn push_user_message(&mut self, text: String, now: u64)
        requires
            !spec_has_open(old(self)@),
        ensures
            final(self)@ =~= old(self)@.push(MessageModel::Complete(
                (CompleteModel { direction: Role::User, text: text@, time: now as int }),
            )),
            spec_wf(old(self)@) ==> spec_wf(final(self)@),
    {
        self.messages.push(Message::Complete(
            CompleteMessage { direction: Role::User, text, time: now },
        ));
        proof {
            assert(final(self)@ =~= old(self)@.push(MessageModel::Complete(
                CompleteModel { direction: Role::User, text: text@, time: now as int },
            )));
        }
    }

    /// Serializes the conversation into the request-payload projection:
    /// exactly the complete messages, in order, as `{role, content}`
    /// pairs.
    pub fn to_payload(&self) -> (p: Vec<MessageJson>)
        ensures
            payload_view(p@) == spec_payload(self@),
    {
        let ghost s = self@;
        let mut out: Vec<MessageJson> = Vec::new();
        let mut i: usize = 0;
        while i < self.messages.len()
            invariant
                i <= self.messages.len(),
                s == self@,
                self@.len() == self.messages@.len(),
                payload_view(out@) == spec_payload(s.take(i as int)),
            decreases self.messages.len() - i,
        {
            let ghost prev = out@;
            match &self.messages[i] {
                Message::Complete(c) => {
                    out.push(MessageJson {
                        role: c.direction.as_str().to_owned(),
                        content: c.text.clone(),
                    });
                },
                Message::InProgress(_) => {},
            }
            proof {
                assert(s.take(i as int + 1).drop_last() =~= s.take(i as int));
                assert(s.take(i as int + 1).last() == s[i as int]);
                if self.messages@[i as int] is Complete {
                    assert(payload_view(out@) =~= payload_view(prev).push(out@.last()@));
                } else {
                    assert(payload_view(out@) =~= payload_view(prev));
                }
            }
            i += 1;
        }
        proof {
            assert(s.take(s.len() as int) =~= s);
        }
        out
    }

    /// Builds the full chat-completion request around the projection:
    /// the given model name, the projected messages, and a streamed
    /// reply always requested.
    pub fn request_payload(&self, model: &str) -> (p: Payload)
        ensures
            p.model@ == model@,
            payload_view(p.messages@) == spec_payload(self@),
            p.stream == true,
    {
        Payload { model: model.to_owned(), messages: self.to_payload(), stream: true }
    }

    /// Folds one response event into the conversation, exactly as
    /// `spec_apply` says: a `ProtocolViolation` leaves it unchanged, and
    /// the central invariant is preserved either way.
    pub fn apply_event(&mut self, event: &Response, now: u64) -> (r: Result<(), Errors>)
        ensures
            match r {
                Ok(u) => spec_apply(old(self)@, event@, now as int) == Ok::<
                    Seq<MessageModel>,
                    Errors,
                >(final(self)@),
                Err(e) => spec_apply(old(self)@, event@, now as int) == Err::<
                    Seq<MessageModel>,
                    Errors,
                >(e) && final(self)@ == old(self)@,
            },
            spec_wf(old(self)@) ==> spec_wf(final(self)@),
    {
        match event {
            Response::BeginResponse { role, response_index: _ } => {
                if self.has_open() {
                    Err(Errors::ProtocolViolation)
                } else {
                    self.messages.push(Message::InProgress(
                        IncompleteMessage { direction: *role, partial_text: String::new() },
                    ));
                    proof {
                        assert(final(self)@ =~= old(self)@.push(MessageModel::InProgress(
                            InProgressModel { direction: *role, partial_text: Seq::empty() },
                        )));
                    }
                    Ok(())
                }
            },
            Response::Content { delta, response_index: _ } => {
                if self.messages.len() == 0 {
                    return Err(Errors::ProtocolViolation);
                }
                let last = self.messages.pop().unwrap();
                match last {
                    Message::InProgress(mut p) => {
                        p.partial_text.append(delta.as_str());
                        self.messages.push(Message::InProgress(p));
                        proof {
                            assert(final(self)@ =~= old(self)@.update(
                                old(self)@.len() - 1,
                                spec_append_delta(old(self)@.last(), delta@),
                            ));
                        }
                        Ok(())
                    },
                    Message::Complete(c) => {
                        self.messages.push(Message::Complete(c));
                        proof {
                            assert(final(self)@ =~= old(self)@);
                        }
                        Err(Errors::ProtocolViolation)
                    },
                }
            },
            Response::CloseResponse { response_index: _ } => {
                if self.messages.len() == 0 {
                    return Err(Errors::ProtocolViolation);
                }
                let last = self.messages.pop().unwrap();
                match last {
                    Message::InProgress(p) => {
                        let complete = Message::InProgress(p).into_complete(now);
                        self.messages.push(Message::Complete(complete));
                        proof {
                            assert(final(self)@ =~= old(self)@.update(
                                old(self)@.len() - 1,
                                MessageModel::Complete(spec_complete(old(self)@.last(), now as int)),
                            ));
                        }
                        Ok(())
                    },
                    Message::Complete(c) => {
                        self.messages.push(Message::Complete(c));
                        proof {
                            assert(final(self)@ =~= old(self)@);
                        }
                        Err(Errors::ProtocolViolation)
                    },
                }
            },
            Response::Done => {
                if self.messages.len() == 0 {
                    return Ok(());
                }
                let last = self.messages.pop().unwrap();
                let complete = last.into_complete(now);
                self.messages.push(Message::Complete(complete));
                proof {
                    if spec_has_open(old(self)@) {
                        assert(final(self)@ =~= old(self)@.update(
                            old(self)@.len() - 1,
                            MessageModel::Complete(spec_complete(old(self)@.last(), now as int)),
                        ));
                    } else {
                        assert(final(self)@ =~= old(self)@);
                    }
                }
                Ok(())
            },
        }
    }

    /// Folds a whole batch of response events, in receipt order, stamping
    /// completions with the one clock reading `now`. On an error the fold
    /// stops; the conversation keeps the progress of the successful
    /// prefix and is not rolled back.
    pub fn apply_events(&mut self, events: &Vec<Response>, now: u64) -> (r: Result<(), Errors>)
        ensures
            match r {
                Ok(u) => spec_apply_all(old(self)@, events_view(events@), now as int) == Ok::<
                    Seq<MessageModel>,
                    Errors,
                >(final(self)@),
                Err(e) => spec_apply_all(old(self)@, events_view(events@), now as int) == Err::<
                    Seq<MessageModel>,
                    Errors,
                >(e) && (exists|i: int|
                    0 <= i <= events@.len() && spec_apply_all(
                        old(self)@,
                        events_view(events@).take(i),
                        now as int,
                    ) == Ok::<Seq<MessageModel>, Errors>(final(self)@)),
            },
            spec_wf(old(self)@) ==> spec_wf(final(self)@),
    {
        let ghost s0 = self@;
        let ghost evs = events_view(events@);
        let mut i: usize = 0;
        while i < events.len()
            invariant
                i <= events.len(),
                s0 == old(self)@,
                evs == events_view(events@),
                evs.len() == events@.len(),
                spec_apply_all(s0, evs.take(i as int), now as int) == Ok::<
                    Seq<MessageModel>,
                    Errors,
                >(self@),
                spec_wf(s0) ==> spec_wf(self@),
            decreases events.len() - i,
        {
            let ghost before = self@;
            let r = self.apply_event(&events[i], now);
            proof {
                assert(evs[i as int] == events@[i as int]@);
            }
            match r {
                Ok(_) => {
                    proof {
                        let ii = i as int;
                        let single = seq![evs[ii]];
                        assert(single[0] == evs[ii]);
                        assert(single.drop_first() =~= Seq::<ResponseModel>::empty());
                        assert(spec_apply_all(self@, Seq::<ResponseModel>::empty(), now as int)
                            == Ok::<Seq<MessageModel>, Errors>(self@));
                        assert(spec_apply_all(before, single, now as int) == Ok::<
                            Seq<MessageModel>,
                            Errors,
                        >(self@));
                        lemma_apply_all_append(s0, evs.take(ii), single, now as int);
                        assert(evs.take(ii + 1) =~= evs.take(ii) + single);
                        assert(spec_apply_all(s0, evs.take(ii + 1), now as int) == Ok::<
                            Seq<MessageModel>,
                            Errors,
                        >(self@));
                    }
                },
                Err(e) => {
                    proof {
                        let ii = i as int;
                        let rest = evs.skip(ii);
                        assert(rest.len() > 0);
                        assert(rest[0] == evs[ii]);
                        assert(spec_apply(before, evs[ii], now as int) == Err::<
                            Seq<MessageModel>,
                            Errors,
                        >(e));
                        assert(spec_apply_all(before, rest, now as int) == Err::<
                            Seq<MessageModel>,
                            Errors,
                        >(e));
                        lemma_apply_all_append(s0, evs.take(ii), rest, now as int);
                        assert(evs.take(ii) + rest =~= evs);
                        assert(spec_apply_all(s0, evs, now as int) == Err::<
                            Seq<MessageModel>,
                            Errors,
                        >(e));
                        assert(spec_apply_all(s0, evs.take(ii), now as int) == Ok::<
                            Seq<MessageModel>,
                            Errors,
                        >(self@));
                        assert(0 <= ii <= events@.len() && spec_apply_all(
                            s0,
                            events_view(events@).take(ii),
                            now as int,
                        ) == Ok::<Seq<MessageModel>, Errors>(self@));
                    }
                    return Err(e);
                },
            }
            i += 1;
        }
        proof {
            assert(evs.take(evs.len() as int) =~= evs);
        }
        Ok(())
    }
}

/// Relies on std::time::SystemTime::now and duration_since(UNIX_EPOCH):
/// the current time as whole seconds since the Unix epoch, or 0 when the
/// system clock reads earlier than the epoch.
#[verifier::external_body]
pub fn time() -> u64 {
    std::time::SystemTime::now()
        .duration_since(std::time::UNIX_EPOCH)
        .map(|d| d.as_secs())
        .unwrap_or(0)
}

} // verus!
