//! Decoding of wire text into envelopes and chat entries. The spec-level
//! parser below is the definition of well-formedness for this schema; each
//! exec function is proved to return exactly what the spec parser says.
//!
//! Decoding is forward-compatible: a member under an unknown key is skipped,
//! whatever the shape of its value. A known payload field may also hold
//! `null`, which counts as absent. A repeated known key is malformed, and so
//! is a string escape outside the single-character set the codec accepts
//! (`scan::unescape`): such a frame is discarded by the session like any
//! other malformed one.

use vstd::prelude::*;

use crate::scan::{
    bytes_eq, scan_atom, scan_string, skip_value, skip_ws, string_end, value_end, ws_end, atom_end,
};
use crate::wire::{
    data_array_key, data_key, from_key, lit_data, lit_data_array, lit_from, lit_message,
    lit_message_type, lit_register, lit_users, message_key, message_type_key, register_tag,
    users_tag, DecodeError, MessageData, MessageDataView, MsgTypes, WebSocketMessage, WsmView,
};

verus! {

/// Fields gathered while walking the members of an envelope object.
pub ghost struct FrameAccV {
    pub message_type: Option<Seq<u8>>,
    pub data_array: Option<Seq<Seq<u8>>>,
    pub data: Option<Seq<u8>>,
    pub mt_seen: bool,
    pub da_seen: bool,
    pub d_seen: bool,
}

pub open spec fn empty_frame_acc() -> FrameAccV {
    FrameAccV {
        message_type: None,
        data_array: None,
        data: None,
        mt_seen: false,
        da_seen: false,
        d_seen: false,
    }
}

/// Fields gathered while walking the members of a chat entry object.
pub ghost struct EntryAccV {
    pub from: Option<Seq<u8>>,
    pub message: Option<Seq<u8>>,
}

/// True when the four bytes at `i` spell exactly the atom `null`.
pub open spec fn is_null_at(s: Seq<u8>, i: int) -> bool {
    &&& 0 <= i
    &&& i + 4 <= s.len()
    &&& s[i] == 'n' as u8
    &&& s[i + 1] == 'u' as u8
    &&& s[i + 2] == 'l' as u8
    &&& s[i + 3] == 'l' as u8
    &&& scan_atom(s, i) == i + 4
}

/// A payload value that must be a string, or `null` for an absent field.
pub open spec fn parse_str_value(s: Seq<u8>, i: int) -> Option<(Option<Seq<u8>>, int)> {
    if 0 <= i && i < s.len() && s[i] == '"' as u8 {
        match scan_string(s, i + 1) {
            Some(p) => Some((Some(p.0), p.1)),
            None => None,
        }
    } else if is_null_at(s, i) {
        Some((None, i + 4))
    } else {
        None
    }
}

/// Elements of a roster list: string literals separated by commas.
/// `can_close` says whether a closing bracket may come next (it may at the
/// start of the list, not after a comma).
pub open spec fn elems(s: Seq<u8>, i: int, acc: Seq<Seq<u8>>, can_close: bool) -> Option<
    (Seq<Seq<u8>>, int),
>
    decreases s.len() - i,
{
    if i < 0 || i >= s.len() {
        None
    } else if can_close && s[i] == ']' as u8 {
        Some((acc, i + 1))
    } else if s[i] == '"' as u8 {
        match scan_string(s, i + 1) {
            Some(p) => {
                let t = skip_ws(s, p.1);
                if 0 <= t && t < s.len() {
                    if s[t] == ',' as u8 {
                        let n = skip_ws(s, t + 1);
                        if i < n && n <= s.len() {
                            elems(s, n, acc.push(p.0), false)
                        } else {
                            None
                        }
                    } else if s[t] == ']' as u8 {
                        Some((acc.push(p.0), t + 1))
                    } else {
                        None
                    }
                } else {
                    None
                }
            },
            None => None,
        }
    } else {
        None
    }
}

/// One envelope member whose key was already read: parses the value the key
/// calls for, records it, and refuses a key seen twice.
pub open spec fn frame_field(s: Seq<u8>, v: int, key: Seq<u8>, acc: FrameAccV) -> Option<
    (FrameAccV, int),
> {
    if key == lit_message_type() {
        if acc.mt_seen {
            None
        } else {
            match parse_str_value(s, v) {
                Some(p) => Some((FrameAccV { message_type: p.0, mt_seen: true, ..acc }, p.1)),
                None => None,
            }
        }
    } else if key == lit_data_array() {
        if acc.da_seen {
            None
        } else {
            if 0 <= v && v < s.len() && s[v] == '[' as u8 {
                match elems(s, skip_ws(s, v + 1), Seq::empty(), true) {
                    Some(p) => Some((FrameAccV { data_array: Some(p.0), da_seen: true, ..acc }, p.1)),
                    None => None,
                }
            } else if is_null_at(s, v) {
                Some((FrameAccV { da_seen: true, ..acc }, v + 4))
            } else {
                None
            }
        }
    } else if key == lit_data() {
        if acc.d_seen {
            None
        } else {
            match parse_str_value(s, v) {
                Some(p) => Some((FrameAccV { data: p.0, d_seen: true, ..acc }, p.1)),
                None => None,
            }
        }
    } else {
        match skip_value(s, v) {
            Some(j) => Some((acc, j)),
            None => None,
        }
    }
}

/// The members of an envelope object, from the first byte of a key (no
/// leading whitespace) to just after the closing brace.
pub open spec fn frame_members(s: Seq<u8>, i: int, acc: FrameAccV) -> Option<(FrameAccV, int)>
    decreases s.len() - i,
{
    if i < 0 || i >= s.len() {
        None
    } else if s[i] == '"' as u8 {
        match scan_string(s, i + 1) {
            Some(kp) => {
                let c = skip_ws(s, kp.1);
                if 0 <= c && c < s.len() && s[c] == ':' as u8 {
                    let v = skip_ws(s, c + 1);
                    match frame_field(s, v, kp.0, acc) {
                        Some(fp) => {
                            let t = skip_ws(s, fp.1);
                            if 0 <= t && t < s.len() {
                                if s[t] == ',' as u8 {
                                    let n = skip_ws(s, t + 1);
                                    if i < n && n <= s.len() {
                                        frame_members(s, n, fp.0)
                                    } else {
                                        None
                                    }
                                } else if s[t] == '}' as u8 {
                                    Some((fp.0, t + 1))
                                } else {
                                    None
                                }
                            } else {
                                None
                            }
                        },
                        None => None,
                    }
                } else {
                    None
                }
            },
            None => None,
        }
    } else {
        None
    }
}

/// What decoding an envelope from `s` yields: the envelope, or the error.
/// The tag decides the variant; a missing tag is malformed, a tag that names
/// no variant is the unknown-variant error.
pub open spec fn spec_decode_frame(s: Seq<u8>) -> Result<WsmView, DecodeError> {
    let i = skip_ws(s, 0);
    if 0 <= i && i < s.len() && s[i] == '{' as u8 {
        let j = skip_ws(s, i + 1);
        let parsed = if 0 <= j && j < s.len() && s[j] == '}' as u8 {
            Some((empty_frame_acc(), j + 1))
        } else {
            frame_members(s, j, empty_frame_acc())
        };
        match parsed {
            Some(p) => {
                if skip_ws(s, p.1) == s.len() {
                    match p.0.message_type {
                        Some(tag) => {
                            if tag == lit_users() {
                                Ok(
                                    WsmView {
                                        message_type: MsgTypes::Users,
                                        data_array: p.0.data_array,
                                        data: p.0.data,
                                    },
                                )
                            } else if tag == lit_register() {
                                Ok(
                                    WsmView {
                                        message_type: MsgTypes::Register,
                                        data_array: p.0.data_array,
                                        data: p.0.data,
                                    },
                                )
                            } else if tag == lit_message() {
                                Ok(
                                    WsmView {
                                        message_type: MsgTypes::Message,
                                        data_array: p.0.data_array,
                                        data: p.0.data,
                                    },
                                )
                            } else {
                                Err(DecodeError::UnknownVariant)
                            }
                        },
                        None => Err(DecodeError::Malformed),
                    }
                } else {
                    Err(DecodeError::Malformed)
                }
            },
            None => Err(DecodeError::Malformed),
        }
    } else {
        Err(DecodeError::Malformed)
    }
}

/// One chat entry member whose key was already read. Both known fields must
/// be strings; an unknown key's value is skipped.
pub open spec fn entry_field(s: Seq<u8>, v: int, key: Seq<u8>, acc: EntryAccV) -> Option<
    (EntryAccV, int),
> {
    if key == lit_from() {
        if acc.from is Some {
            None
        } else {
            if 0 <= v && v < s.len() && s[v] == '"' as u8 {
                match scan_string(s, v + 1) {
                    Some(p) => Some((EntryAccV { from: Some(p.0), ..acc }, p.1)),
                    None => None,
                }
            } else {
                None
            }
        }
    } else if key == lit_message() {
        if acc.message is Some {
            None
        } else {
            if 0 <= v && v < s.len() && s[v] == '"' as u8 {
                match scan_string(s, v + 1) {
                    Some(p) => Some((EntryAccV { message: Some(p.0), ..acc }, p.1)),
                    None => None,
                }
            } else {
                None
            }
        }
    } else {
        match skip_value(s, v) {
            Some(j) => Some((acc, j)),
            None => None,
        }
    }
}

/// The members of a chat entry object.
pub open spec fn entry_members(s: Seq<u8>, i: int, acc: EntryAccV) -> Option<(EntryAccV, int)>
    decreases s.len() - i,
{
    if i < 0 || i >= s.len() {
        None
    } else if s[i] == '"' as u8 {
        match scan_string(s, i + 1) {
            Some(kp) => {
                let c = skip_ws(s, kp.1);
                if 0 <= c && c < s.len() && s[c] == ':' as u8 {
                    let v = skip_ws(s, c + 1);
                    match entry_field(s, v, kp.0, acc) {
                        Some(fp) => {
                            let t = skip_ws(s, fp.1);
                            if 0 <= t && t < s.len() {
                                if s[t] == ',' as u8 {
                                    let n = skip_ws(s, t + 1);
                                    if i < n && n <= s.len() {
                                        entry_members(s, n, fp.0)
                                    } else {
                                        None
                                    }
                                } else if s[t] == '}' as u8 {
                                    Some((fp.0, t + 1))
                                } else {
                                    None
                                }
                            } else {
                                None
                            }
                        },
                        None => None,
                    }
                } else {
                    None
                }
            },
            None => None,
        }
    } else {
        None
    }
}

/// What decoding a chat entry from `s` yields. Both fields are required.
pub open spec fn spec_decode_entry(s: Seq<u8>) -> Result<MessageDataView, DecodeError> {
    let i = skip_ws(s, 0);
    if 0 <= i && i < s.len() && s[i] == '{' as u8 {
        let j = skip_ws(s, i + 1);
        let parsed = if 0 <= j && j < s.len() && s[j] == '}' as u8 {
            Some((EntryAccV { from: None, message: None }, j + 1))
        } else {
            entry_members(s, j, EntryAccV { from: None, message: None })
        };
        match parsed {
            Some(p) => {
                if skip_ws(s, p.1) == s.len() {
                    match p.0.from {
                        Some(f) => match p.0.message {
                            Some(m) => Ok(MessageDataView { from: f, message: m }),
                            None => Err(DecodeError::Malformed),
                        },
                        None => Err(DecodeError::Malformed),
                    }
                } else {
                    Err(DecodeError::Malformed)
                }
            },
            None => Err(DecodeError::Malformed),
        }
    } else {
        Err(DecodeError::Malformed)
    }
}

/// The image of an exec frame decode result in the spec world.
pub open spec fn frame_result_view(r: Result<WebSocketMessage, DecodeError>) -> Result<
    WsmView,
    DecodeError,
> {
    match r {
        Ok(m) => Ok(m@),
        Err(e) => Err(e),
    }
}

/// The image of an exec entry decode result in the spec world.
pub open spec fn entry_result_view(r: Result<MessageData, DecodeError>) -> Result<
    MessageDataView,
    DecodeError,
> {
    match r {
        Ok(e) => Ok(e@),
        Err(e) => Err(e),
    }
}

struct FrameAcc {
    message_type: Option<Vec<u8>>,
    data_array: Option<Vec<Vec<u8>>>,
    data: Option<Vec<u8>>,
    mt_seen: bool,
    da_seen: bool,
    d_seen: bool,
}

impl View for FrameAcc {
    type V = FrameAccV;

    closed spec fn view(&self) -> FrameAccV {
        FrameAccV {
            message_type: match self.message_type {
                Some(v) => Some(v@),
                None => None,
            },
            data_array: match self.data_array {
                Some(ns) => Some(ns.deep_view()),
                None => None,
            },
            data: match self.data {
                Some(v) => Some(v@),
                None => None,
            },
            mt_seen: self.mt_seen,
            da_seen: self.da_seen,
            d_seen: self.d_seen,
        }
    }
}

struct EntryAcc {
    from: Option<Vec<u8>>,
    message: Option<Vec<u8>>,
}

impl View for EntryAcc {
    type V = EntryAccV;

    closed spec fn view(&self) -> EntryAccV {
        EntryAccV {
            from: match self.from {
                Some(v) => Some(v@),
                None => None,
            },
            message: match self.message {
                Some(v) => Some(v@),
                None => None,
            },
        }
    }
}

fn null_at(s: &[u8], i: usize) -> (r: bool)
    requires
        i <= s@.len(),
    ensures
        r == is_null_at(s@, i as int),
{
    if s.len() - i < 4 {
        return false;
    }
    let j = atom_end(s, i);
    s[i] == 'n' as u8 && s[i + 1] == 'u' as u8 && s[i + 2] == 'l' as u8 && s[i + 3] == 'l' as u8
        && j == i + 4
}

fn parse_str_value_x(s: &[u8], i: usize) -> (r: Option<(Option<Vec<u8>>, usize)>)
    requires
        i <= s@.len(),
    ensures
        match r {
            Some(p) => {
                &&& parse_str_value(s@, i as int) == Some(
                    (
                        match p.0 {
                            Some(v) => Some(v@),
                            None => None,
                        },
                        p.1 as int,
                    ),
                )
                &&& i < p.1 <= s@.len()
            },
            None => parse_str_value(s@, i as int) is None,
        },
{
    if i < s.len() && s[i] == '"' as u8 {
        match string_end(s, i + 1) {
            Some((t, j)) => Some((Some(t), j)),
            None => None,
        }
    } else if null_at(s, i) {
        Some((None, i + 4))
    } else {
        None
    }
}

fn elems_x(s: &[u8], i: usize, acc: Vec<Vec<u8>>, can_close: bool) -> (r: Option<
    (Vec<Vec<u8>>, usize),
>)
    requires
        i <= s@.len(),
    ensures
        match r {
            Some(p) => {
                &&& elems(s@, i as int, acc.deep_view(), can_close) == Some(
                    (p.0.deep_view(), p.1 as int),
                )
                &&& i < p.1 <= s@.len()
            },
            None => elems(s@, i as int, acc.deep_view(), can_close) is None,
        },
    decreases s@.len() - i,
{
    if i >= s.len() {
        return None;
    }
    let b = s[i];
    if can_close && b == ']' as u8 {
        return Some((acc, i + 1));
    }
    if b != '"' as u8 {
        return None;
    }
    match string_end(s, i + 1) {
        Some((e, k)) => {
            let t = ws_end(s, k);
            if t < s.len() {
                let tb = s[t];
                if tb == ',' as u8 {
                    let n = ws_end(s, t + 1);
                    if i < n {
                        let ghost acc0 = acc.deep_view();
                        let mut acc2 = acc;
                        acc2.push(e);
                        proof {
                            assert(acc2.deep_view() =~~= acc0.push(e@));
                        }
                        elems_x(s, n, acc2, false)
                    } else {
                        None
                    }
                } else if tb == ']' as u8 {
                    let ghost acc0 = acc.deep_view();
                    let mut acc2 = acc;
                    acc2.push(e);
                    proof {
                        assert(acc2.deep_view() =~~= acc0.push(e@));
                    }
                    Some((acc2, t + 1))
                } else {
                    None
                }
            } else {
                None
            }
        },
        None => None,
    }
}

fn frame_field_x(s: &[u8], v: usize, key: &Vec<u8>, acc: FrameAcc) -> (r: Option<
    (FrameAcc, usize),
>)
    requires
        v <= s@.len(),
    ensures
        match r {
            Some(p) => {
                &&& frame_field(s@, v as int, key@, acc@) == Some((p.0@, p.1 as int))
                &&& v < p.1 <= s@.len()
            },
            None => frame_field(s@, v as int, key@, acc@) is None,
        },
{
    let mtk = message_type_key();
    let dak = data_array_key();
    let dk = data_key();
    if bytes_eq(key.as_slice(), mtk.as_slice()) {
        if acc.mt_seen {
            None
        } else {
            match parse_str_value_x(s, v) {
                Some((val, e)) => Some((FrameAcc { message_type: val, mt_seen: true, ..acc }, e)),
                None => None,
            }
        }
    } else if bytes_eq(key.as_slice(), dak.as_slice()) {
        if acc.da_seen {
            None
        } else {
            if v < s.len() && s[v] == '[' as u8 {
                let n0 = ws_end(s, v + 1);
                let empty_names: Vec<Vec<u8>> = Vec::new();
                proof {
                    assert(empty_names.deep_view() =~~= Seq::<Seq<u8>>::empty());
                }
                match elems_x(s, n0, empty_names, true) {
                    Some((ns, e)) => Some(
                        (FrameAcc { data_array: Some(ns), da_seen: true, ..acc }, e),
                    ),
                    None => None,
                }
            } else if null_at(s, v) {
                Some((FrameAcc { da_seen: true, ..acc }, v + 4))
            } else {
                None
            }
        }
    } else if bytes_eq(key.as_slice(), dk.as_slice()) {
        if acc.d_seen {
            None
        } else {
            match parse_str_value_x(s, v) {
                Some((val, e)) => Some((FrameAcc { data: val, d_seen: true, ..acc }, e)),
                None => None,
            }
        }
    } else {
        match value_end(s, v) {
            Some(j) => Some((acc, j)),
            None => None,
        }
    }
}

fn frame_members_x(s: &[u8], i: usize, acc: FrameAcc) -> (r: Option<(FrameAcc, usize)>)
    requires
        i <= s@.len(),
    ensures
        match r {
            Some(p) => {
                &&& frame_members(s@, i as int, acc@) == Some((p.0@, p.1 as int))
                &&& i < p.1 <= s@.len()
            },
            None => frame_members(s@, i as int, acc@) is None,
        },
    decreases s@.len() - i,
{
    if i >= s.len() {
        return None;
    }
    if s[i] != '"' as u8 {
        return None;
    }
    match string_end(s, i + 1) {
        Some((key, k)) => {
            let c = ws_end(s, k);
            if c < s.len() && s[c] == ':' as u8 {
                let v = ws_end(s, c + 1);
                match frame_field_x(s, v, &key, acc) {
                    Some((acc2, e)) => {
                        let t = ws_end(s, e);
                        if t < s.len() {
                            let tb = s[t];
                            if tb == ',' as u8 {
                                let n = ws_end(s, t + 1);
                                if i < n {
                                    frame_members_x(s, n, acc2)
                                } else {
                                    None
                                }
                            } else if tb == '}' as u8 {
                                Some((acc2, t + 1))
                            } else {
                                None
                            }
                        } else {
                            None
                        }
                    },
                    None => None,
                }
            } else {
                None
            }
        },
        None => None,
    }
}

/// Decodes an envelope from wire text, exactly as the spec parser says.
pub fn decode_frame(text: &[u8]) -> (r: Result<WebSocketMessage, DecodeError>)
    ensures
        frame_result_view(r) == spec_decode_frame(text@),
{
    let i = ws_end(text, 0);
    if !(i < text.len() && text[i] == '{' as u8) {
        return Err(DecodeError::Malformed);
    }
    let j = ws_end(text, i + 1);
    let start_acc = FrameAcc {
        message_type: None,
        data_array: None,
        data: None,
        mt_seen: false,
        da_seen: false,
        d_seen: false,
    };
    let parsed: Option<(FrameAcc, usize)> = if j < text.len() && text[j] == '}' as u8 {
        Some((start_acc, j + 1))
    } else {
        frame_members_x(text, j, start_acc)
    };
    match parsed {
        Some((acc, e)) => {
            if ws_end(text, e) != text.len() {
                return Err(DecodeError::Malformed);
            }
            match acc.message_type {
                Some(tag) => {
                    let ut = users_tag();
                    let rt = register_tag();
                    let mt = message_key();
                    let kind: Option<MsgTypes> = if bytes_eq(tag.as_slice(), ut.as_slice()) {
                        Some(MsgTypes::Users)
                    } else if bytes_eq(tag.as_slice(), rt.as_slice()) {
                        Some(MsgTypes::Register)
                    } else if bytes_eq(tag.as_slice(), mt.as_slice()) {
                        Some(MsgTypes::Message)
                    } else {
                        None
                    };
                    match kind {
                        Some(k) => Ok(
                            WebSocketMessage {
                                message_type: k,
                                data_array: acc.data_array,
                                data: acc.data,
                            },
                        ),
                        None => Err(DecodeError::UnknownVariant),
                    }
                },
                None => Err(DecodeError::Malformed),
            }
        },
        None => Err(DecodeError::Malformed),
    }
}

fn entry_field_x(s: &[u8], v: usize, key: &Vec<u8>, acc: EntryAcc) -> (r: Option<
    (EntryAcc, usize),
>)
    requires
        v <= s@.len(),
    ensures
        match r {
            Some(p) => {
                &&& entry_field(s@, v as int, key@, acc@) == Some((p.0@, p.1 as int))
                &&& v < p.1 <= s@.len()
            },
            None => entry_field(s@, v as int, key@, acc@) is None,
        },
{
    let fk = from_key();
    let mk = message_key();
    if bytes_eq(key.as_slice(), fk.as_slice()) {
        if acc.from.is_some() {
            None
        } else {
            if v < s.len() && s[v] == '"' as u8 {
                match string_end(s, v + 1) {
                    Some((t, j)) => Some((EntryAcc { from: Some(t), ..acc }, j)),
                    None => None,
                }
            } else {
                None
            }
        }
    } else if bytes_eq(key.as_slice(), mk.as_slice()) {
        if acc.message.is_some() {
            None
        } else {
            if v < s.len() && s[v] == '"' as u8 {
                match string_end(s, v + 1) {
                    Some((t, j)) => Some((EntryAcc { message: Some(t), ..acc }, j)),
                    None => None,
                }
            } else {
                None
            }
        }
    } else {
        match value_end(s, v) {
            Some(j) => Some((acc, j)),
            None => None,
        }
    }
}

fn entry_members_x(s: &[u8], i: usize, acc: EntryAcc) -> (r: Option<(EntryAcc, usize)>)
    requires
        i <= s@.len(),
    ensures
        match r {
            Some(p) => {
                &&& entry_members(s@, i as int, acc@) == Some((p.0@, p.1 as int))
                &&& i < p.1 <= s@.len()
            },
            None => entry_members(s@, i as int, acc@) is None,
        },
    decreases s@.len() - i,
{
    if i >= s.len() {
        return None;
    }
    if s[i] != '"' as u8 {
        return None;
    }
    match string_end(s, i + 1) {
        Some((key, k)) => {
            let c = ws_end(s, k);
            if c < s.len() && s[c] == ':' as u8 {
                let v = ws_end(s, c + 1);
                match entry_field_x(s, v, &key, acc) {
                    Some((acc2, e)) => {
                        let t = ws_end(s, e);
                        if t < s.len() {
                            let tb = s[t];
                            if tb == ',' as u8 {
                                let n = ws_end(s, t + 1);
                                if i < n {
                                    entry_members_x(s, n, acc2)
                                } else {
                                    None
                                }
                            } else if tb == '}' as u8 {
                                Some((acc2, t + 1))
                            } else {
                                None
                            }
                        } else {
                            None
                        }
                    },
                    None => None,
                }
            } else {
                None
            }
        },
        None => None,
    }
}

/// Decodes a chat entry from a frame's payload, exactly as the spec parser
/// says.
pub fn decode_entry(text: &[u8]) -> (r: Result<MessageData, DecodeError>)
    ensures
        entry_result_view(r) == spec_decode_entry(text@),
{
    let i = ws_end(text, 0);
    if !(i < text.len() && text[i] == '{' as u8) {
        return Err(DecodeError::Malformed);
    }
    let j = ws_end(text, i + 1);
    let start_acc = EntryAcc { from: None, message: None };
    let parsed: Option<(EntryAcc, usize)> = if j < text.len() && text[j] == '}' as u8 {
        Some((start_acc, j + 1))
    } else {
        entry_members_x(text, j, start_acc)
    };
    match parsed {
        Some((acc, e)) => {
            if ws_end(text, e) != text.len() {
                return Err(DecodeError::Malformed);
            }
            match acc.from {
                Some(f) => match acc.message {
                    Some(m) => Ok(MessageData { from: f, message: m }),
                    None => Err(DecodeError::Malformed),
                },
                None => Err(DecodeError::Malformed),
            }
        },
        None => Err(DecodeError::Malformed),
    }
}

} // verus!
