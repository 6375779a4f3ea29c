//! The session state machine. It owns the participant list and the message
//! log, turns each inbound frame into the one state change the frame calls
//! for, and turns local actions into outbound frames. Every error is locally
//! absorbed: a frame that does not decode changes nothing and raises nothing.

use vstd::prelude::*;

use crate::decode::{decode_entry, decode_frame, spec_decode_entry, spec_decode_frame};
use crate::encode::{encode_frame, spec_encode_frame};
use crate::roster::{apply_roster, copy_bytes, roster_view, spec_roster, UserProfile,
    UserProfileView};
use crate::wire::{MessageData, MessageDataView, MsgTypes, WebSocketMessage, WsmView};

verus! {

/// An event the session serializes into its single control path: an inbound
/// frame's text, or the text of a local submission.
pub enum Msg {
    HandleMsg(Vec<u8>),
    SubmitMessage(Vec<u8>),
}

/// What one step of the session asks of its surroundings: whether observable
/// state changed (a re-render signal) and a frame to hand to the connection
/// channel, if any. Sending is best-effort: a send failure is the caller's
/// to log and swallow, never fed back into the session.
pub struct Effect {
    pub render: bool,
    pub outbound: Option<Vec<u8>>,
}

/// The session: the local display name, fixed at construction, the current
/// participant list, and the append-only message log.
pub struct Chat {
    pub local_name: Vec<u8>,
    pub users: Vec<UserProfile>,
    pub messages: Vec<MessageData>,
}

/// Mathematical image of a session.
pub ghost struct ChatView {
    pub local_name: Seq<u8>,
    pub users: Seq<UserProfileView>,
    pub messages: Seq<MessageDataView>,
}

impl View for Chat {
    type V = ChatView;

    open spec fn view(&self) -> ChatView {
        ChatView {
            local_name: self.local_name@,
            users: roster_view(self.users@),
            messages: Seq::new(self.messages@.len(), |i: int| self.messages@[i]@),
        }
    }
}

/// The register frame the session sends on construction.
pub open spec fn spec_register_frame(name: Seq<u8>) -> Seq<u8> {
    spec_encode_frame(
        WsmView { message_type: MsgTypes::Register, data_array: None, data: Some(name) },
    )
}

/// The chat frame a non-empty submission sends: the raw text as payload,
/// untagged — the server is the one that labels and echoes it.
pub open spec fn spec_chat_frame(text: Seq<u8>) -> Seq<u8> {
    spec_encode_frame(
        WsmView { message_type: MsgTypes::Message, data_array: None, data: Some(text) },
    )
}

/// What one inbound text does to a session: the state after it, and whether
/// observable state changed.
///
/// A frame that does not decode is discarded without a trace. A roster frame
/// replaces the participant list with what its name list alone derives to —
/// a missing list is an empty roster. A chat frame appends its payload's
/// entry to the log when the payload is present and decodes; otherwise it is
/// discarded. An inbound register frame is a no-op.
pub open spec fn spec_handle(pre: ChatView, t: Seq<u8>) -> (ChatView, bool) {
    match spec_decode_frame(t) {
        Ok(v) => match v.message_type {
            MsgTypes::Users => (
                ChatView {
                    users: spec_roster(
                        match v.data_array {
                            Some(ns) => ns,
                            None => Seq::empty(),
                        },
                    ),
                    ..pre
                },
                true,
            ),
            MsgTypes::Message => match v.data {
                Some(payload) => match spec_decode_entry(payload) {
                    Ok(e) => (ChatView { messages: pre.messages.push(e), ..pre }, true),
                    Err(_) => (pre, false),
                },
                None => (pre, false),
            },
            MsgTypes::Register => (pre, false),
        },
        Err(_) => (pre, false),
    }
}

impl Chat {
    /// Starts a session for the given local name: empty roster, empty log,
    /// and the register frame to hand to the connection channel. Whether
    /// that send succeeds does not matter to the session — registration is
    /// fire-and-forget, the server being the authority on membership.
    pub fn create(local_name: Vec<u8>) -> (r: (Chat, Vec<u8>))
        ensures
            r.0@.local_name == local_name@,
            r.0@.users == Seq::<UserProfileView>::empty(),
            r.0@.messages == Seq::<MessageDataView>::empty(),
            r.1@ == spec_register_frame(local_name@),
    {
        let data = copy_bytes(local_name.as_slice());
        let msg = WebSocketMessage {
            message_type: MsgTypes::Register,
            data_array: None,
            data: Some(data),
        };
        let frame = encode_frame(&msg);
        let chat = Chat { local_name, users: Vec::new(), messages: Vec::new() };
        proof {
            assert(chat@.users =~= Seq::<UserProfileView>::empty());
            assert(chat@.messages =~= Seq::<MessageDataView>::empty());
        }
        (chat, frame)
    }

    /// Handles one inbound frame text; returns whether observable state
    /// changed. Never fails: a text that does not decode leaves the session
    /// exactly as it was.
    pub fn handle_msg(&mut self, text: &[u8]) -> (render: bool)
        ensures
            final(self)@ == spec_handle(old(self)@, text@).0,
            render == spec_handle(old(self)@, text@).1,
    {
        match decode_frame(text) {
            Ok(m) => match m.message_type {
                MsgTypes::Users => {
                    let names: Vec<Vec<u8>> = match m.data_array {
                        Some(ns) => ns,
                        None => Vec::new(),
                    };
                    proof {
                        if m@.data_array is None {
                            assert(names.deep_view() =~~= Seq::<Seq<u8>>::empty());
                        }
                    }
                    self.users = apply_roster(&names);
                    true
                },
                MsgTypes::Message => match m.data {
                    Some(payload) => match decode_entry(payload.as_slice()) {
                        Ok(e) => {
                            let ghost pre_msgs = self@.messages;
                            let ghost ev = e@;
                            self.messages.push(e);
                            proof {
                                assert(self@.messages =~= pre_msgs.push(ev));
                            }
                            true
                        },
                        Err(_) => false,
                    },
                    None => false,
                },
                MsgTypes::Register => false,
            },
            Err(_) => false,
        }
    }

    /// Turns a local submission into the chat frame to send. An empty
    /// submission is suppressed: no frame, no log entry. A non-empty one
    /// yields exactly one frame and still appends nothing locally — the
    /// session shows its own message only once the server echoes it back.
    pub fn submit_message(&self, input: &[u8]) -> (out: Option<Vec<u8>>)
        ensures
            input@.len() == 0 <==> out is None,
            input@.len() > 0 ==> (out matches Some(f) && f@ == spec_chat_frame(input@)),
    {
        if input.len() == 0 {
            None
        } else {
            let msg = WebSocketMessage {
                message_type: MsgTypes::Message,
                data_array: None,
                data: Some(copy_bytes(input)),
            };
            Some(encode_frame(&msg))
        }
    }

    /// One step of the session's single control path: dispatches an event
    /// and returns its effect. Inbound handling never produces an outbound
    /// frame; a submission never changes the session's state.
    pub fn update(&mut self, msg: Msg) -> (eff: Effect)
        ensures
            match msg {
                Msg::HandleMsg(t) => {
                    &&& final(self)@ == spec_handle(old(self)@, t@).0
                    &&& eff.render == spec_handle(old(self)@, t@).1
                    &&& eff.outbound is None
                },
                Msg::SubmitMessage(t) => {
                    &&& final(self)@ == old(self)@
                    &&& eff.render == false
                    &&& (t@.len() == 0 <==> eff.outbound is None)
                    &&& t@.len() > 0 ==> (eff.outbound matches Some(f) && f@ == spec_chat_frame(
                        t@,
                    ))
                },
            },
    {
        match msg {
            Msg::HandleMsg(t) => {
                let render = self.handle_msg(t.as_slice());
                Effect { render, outbound: None }
            },
            Msg::SubmitMessage(t) => {
                let outbound = self.submit_message(t.as_slice());
                Effect { render: false, outbound }
            },
        }
    }
}

/// The session state after handling a whole sequence of inbound texts in
/// arrival order.
pub open spec fn spec_run(pre: ChatView, ts: Seq<Seq<u8>>) -> ChatView
    decreases ts.len(),
{
    if ts.len() == 0 {
        pre
    } else {
        spec_run(spec_handle(pre, ts[0]).0, ts.drop_first())
    }
}

/// Handling one more text after a history is handling it from the state the
/// history left behind.
pub proof fn lemma_run_snoc(pre: ChatView, ts: Seq<Seq<u8>>, t: Seq<u8>)
    ensures
        spec_run(pre, ts.push(t)) == spec_handle(spec_run(pre, ts), t).0,
    decreases ts.len(),
{
    if ts.len() == 0 {
        assert(ts.push(t)[0] == t);
        assert(ts.push(t).drop_first() =~= Seq::<Seq<u8>>::empty());
        assert(spec_run(pre, ts.push(t)) == spec_run(
            spec_handle(pre, t).0,
            Seq::<Seq<u8>>::empty(),
        ));
        assert(spec_run(spec_handle(pre, t).0, Seq::<Seq<u8>>::empty()) == spec_handle(pre, t).0);
        assert(spec_run(pre, ts) == pre);
    } else {
        assert(ts.push(t)[0] == ts[0]);
        assert(ts.push(t).drop_first() =~= ts.drop_first().push(t));
        assert(spec_run(pre, ts.push(t)) == spec_run(
            spec_handle(pre, ts[0]).0,
            ts.drop_first().push(t),
        ));
        assert(spec_run(pre, ts) == spec_run(spec_handle(pre, ts[0]).0, ts.drop_first()));
        lemma_run_snoc(spec_handle(pre, ts[0]).0, ts.drop_first(), t);
    }
}

/// Law: after any history of inbound texts whose last is a roster frame,
/// the participant list equals what that frame's name list alone derives
/// to — the history before it contributes nothing.
pub proof fn lemma_roster_after_any_history(
    pre: ChatView,
    ts: Seq<Seq<u8>>,
    t: Seq<u8>,
    v: WsmView,
)
    requires
        spec_decode_frame(t) == Ok::<WsmView, crate::wire::DecodeError>(v),
        v.message_type == MsgTypes::Users,
    ensures
        spec_run(pre, ts.push(t)).users == spec_roster(
            match v.data_array {
                Some(ns) => ns,
                None => Seq::empty(),
            },
        ),
{
    lemma_run_snoc(pre, ts, t);
}

/// Law: a roster snapshot replaces the participant list outright. Whatever
/// two sessions held before, handling the same roster frame leaves them with
/// the same participant list — the list after the frame is a function of
/// that frame's name list alone, with no accumulation across snapshots.
pub proof fn lemma_roster_full_replace(pre1: ChatView, pre2: ChatView, t: Seq<u8>)
    requires
        spec_decode_frame(t) matches Ok(v) && v.message_type == MsgTypes::Users,
    ensures
        spec_handle(pre1, t).0.users == spec_handle(pre2, t).0.users,
{
}

/// Law: a text that does not decode as a frame changes nothing and signals
/// nothing; so does a chat frame whose payload is missing or does not decode
/// as an entry, and an inbound register frame.
pub proof fn lemma_bad_frame_no_change(pre: ChatView, t: Seq<u8>)
    requires
        match spec_decode_frame(t) {
            Ok(v) => v.message_type == MsgTypes::Register || (v.message_type == MsgTypes::Message
                && match v.data {
                Some(p) => spec_decode_entry(p) is Err,
                None => true,
            }),
            Err(_) => true,
        },
    ensures
        spec_handle(pre, t) == (pre, false),
{
}

} // verus!
