//! Wire-level data model: the frame envelope, the chat entry nested in a
//! `message` frame, the decode error taxonomy, and the byte spellings of the
//! fixed field names and tags of the schema.

use vstd::prelude::*;

verus! {

/// Discriminant tag of a frame envelope.
#[derive(Clone, Copy, PartialEq, Eq, Structural, Debug)]
pub enum MsgTypes {
    Users,
    Register,
    Message,
}

/// Why an inbound text failed to decode.
#[derive(Clone, Copy, PartialEq, Eq, Structural, Debug)]
pub enum DecodeError {
    /// The text is not a well-formed frame (or a well-formed chat entry).
    Malformed,
    /// The frame is well-formed but its tag names no known variant.
    UnknownVariant,
}

/// The frame envelope: one tag and at most one of the two payload fields.
/// A `Users` frame carries `data_array`; `Register` and `Message` frames
/// carry `data`. A missing payload field decodes as `None`.
#[derive(PartialEq, Eq, Debug)]
pub struct WebSocketMessage {
    pub message_type: MsgTypes,
    pub data_array: Option<Vec<Vec<u8>>>,
    pub data: Option<Vec<u8>>,
}

/// Mathematical image of a `WebSocketMessage`.
pub ghost struct WsmView {
    pub message_type: MsgTypes,
    pub data_array: Option<Seq<Seq<u8>>>,
    pub data: Option<Seq<u8>>,
}

impl View for WebSocketMessage {
    type V = WsmView;

    open spec fn view(&self) -> WsmView {
        WsmView {
            message_type: self.message_type,
            data_array: match self.data_array {
                Some(ns) => Some(ns.deep_view()),
                None => None,
            },
            data: match self.data {
                Some(d) => Some(d@),
                None => None,
            },
        }
    }
}

/// A decoded chat entry: who wrote it and what was written.
#[derive(PartialEq, Eq, Debug)]
pub struct MessageData {
    pub from: Vec<u8>,
    pub message: Vec<u8>,
}

/// Mathematical image of a `MessageData`.
pub ghost struct MessageDataView {
    pub from: Seq<u8>,
    pub message: Seq<u8>,
}

impl View for MessageData {
    type V = MessageDataView;

    open spec fn view(&self) -> MessageDataView {
        MessageDataView { from: self.from@, message: self.message@ }
    }
}

/// The literal marker the server uses to label the local user's own prior
/// submissions when it echoes them back. The client never tags its own
/// outbound entries; this protocol convention is the only way an entry is
/// known to be self-authored.
pub open spec fn lit_you() -> Seq<u8> {
    seq!['Y' as u8, 'o' as u8, 'u' as u8]
}

pub fn you_marker() -> (v: Vec<u8>)
    ensures
        v@ == lit_you(),
{
    let mut v: Vec<u8> = Vec::new();
    v.push('Y' as u8);
    v.push('o' as u8);
    v.push('u' as u8);
    proof {
        assert(v@ =~= lit_you());
    }
    v
}

impl MessageData {
    /// Classification the presentation layer consumes: an entry is
    /// self-authored exactly when its sender equals the server's marker for
    /// the local user.
    pub fn is_self_authored(&self) -> (r: bool)
        ensures
            r == (self@.from == lit_you()),
    {
        let marker = you_marker();
        crate::scan::bytes_eq(self.from.as_slice(), marker.as_slice())
    }
}

/// Field name `messageType`.
pub open spec fn lit_message_type() -> Seq<u8> {
    seq![
        'm' as u8,
        'e' as u8,
        's' as u8,
        's' as u8,
        'a' as u8,
        'g' as u8,
        'e' as u8,
        'T' as u8,
        'y' as u8,
        'p' as u8,
        'e' as u8,
    ]
}

/// Field name `dataArray`.
pub open spec fn lit_data_array() -> Seq<u8> {
    seq![
        'd' as u8,
        'a' as u8,
        't' as u8,
        'a' as u8,
        'A' as u8,
        'r' as u8,
        'r' as u8,
        'a' as u8,
        'y' as u8,
    ]
}

/// Field name `data`.
pub open spec fn lit_data() -> Seq<u8> {
    seq!['d' as u8, 'a' as u8, 't' as u8, 'a' as u8]
}

/// Field name `from`.
pub open spec fn lit_from() -> Seq<u8> {
    seq!['f' as u8, 'r' as u8, 'o' as u8, 'm' as u8]
}

/// Field name `message`, also the tag of a chat frame.
pub open spec fn lit_message() -> Seq<u8> {
    seq!['m' as u8, 'e' as u8, 's' as u8, 's' as u8, 'a' as u8, 'g' as u8, 'e' as u8]
}

/// Tag of a roster frame.
pub open spec fn lit_users() -> Seq<u8> {
    seq!['u' as u8, 's' as u8, 'e' as u8, 'r' as u8, 's' as u8]
}

/// Tag of a register frame.
pub open spec fn lit_register() -> Seq<u8> {
    seq!['r' as u8, 'e' as u8, 'g' as u8, 'i' as u8, 's' as u8, 't' as u8, 'e' as u8, 'r' as u8]
}

/// The byte spelling of a frame tag.
pub open spec fn tag_of(t: MsgTypes) -> Seq<u8> {
    match t {
        MsgTypes::Users => lit_users(),
        MsgTypes::Register => lit_register(),
        MsgTypes::Message => lit_message(),
    }
}

pub fn message_type_key() -> (v: Vec<u8>)
    ensures
        v@ == lit_message_type(),
{
    let mut v: Vec<u8> = Vec::new();
    v.push('m' as u8);
    v.push('e' as u8);
    v.push('s' as u8);
    v.push('s' as u8);
    v.push('a' as u8);
    v.push('g' as u8);
    v.push('e' as u8);
    v.push('T' as u8);
    v.push('y' as u8);
    v.push('p' as u8);
    v.push('e' as u8);
    proof {
        assert(v@ =~= lit_message_type());
    }
    v
}

pub fn data_array_key() -> (v: Vec<u8>)
    ensures
        v@ == lit_data_array(),
{
    let mut v: Vec<u8> = Vec::new();
    v.push('d' as u8);
    v.push('a' as u8);
    v.push('t' as u8);
    v.push('a' as u8);
    v.push('A' as u8);
    v.push('r' as u8);
    v.push('r' as u8);
    v.push('a' as u8);
    v.push('y' as u8);
    proof {
        assert(v@ =~= lit_data_array());
    }
    v
}

pub fn data_key() -> (v: Vec<u8>)
    ensures
        v@ == lit_data(),
{
    let mut v: Vec<u8> = Vec::new();
    v.push('d' as u8);
    v.push('a' as u8);
    v.push('t' as u8);
    v.push('a' as u8);
    proof {
        assert(v@ =~= lit_data());
    }
    v
}

pub fn from_key() -> (v: Vec<u8>)
    ensures
        v@ == lit_from(),
{
    let mut v: Vec<u8> = Vec::new();
    v.push('f' as u8);
    v.push('r' as u8);
    v.push('o' as u8);
    v.push('m' as u8);
    proof {
        assert(v@ =~= lit_from());
    }
    v
}

pub fn message_key() -> (v: Vec<u8>)
    ensures
        v@ == lit_message(),
{
    let mut v: Vec<u8> = Vec::new();
    v.push('m' as u8);
    v.push('e' as u8);
    v.push('s' as u8);
    v.push('s' as u8);
    v.push('a' as u8);
    v.push('g' as u8);
    v.push('e' as u8);
    proof {
        assert(v@ =~= lit_message());
    }
    v
}

pub fn users_tag() -> (v: Vec<u8>)
    ensures
        v@ == lit_users(),
{
    let mut v: Vec<u8> = Vec::new();
    v.push('u' as u8);
    v.push('s' as u8);
    v.push('e' as u8);
    v.push('r' as u8);
    v.push('s' as u8);
    proof {
        assert(v@ =~= lit_users());
    }
    v
}

pub fn register_tag() -> (v: Vec<u8>)
    ensures
        v@ == lit_register(),
{
    let mut v: Vec<u8> = Vec::new();
    v.push('r' as u8);
    v.push('e' as u8);
    v.push('g' as u8);
    v.push('i' as u8);
    v.push('s' as u8);
    v.push('t' as u8);
    v.push('e' as u8);
    v.push('r' as u8);
    proof {
        assert(v@ =~= lit_register());
    }
    v
}

} // verus!
