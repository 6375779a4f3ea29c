//! The codec round trip: decoding the encoding of a chat entry gives back
//! exactly that entry, whatever its sender and body hold.

use vstd::prelude::*;

use crate::decode::{
    elems, frame_field, frame_members, spec_decode_entry, spec_decode_frame, EntryAccV, FrameAccV,
};
use crate::encode::{esc, esc_byte, names_list, quoted, spec_encode_entry, spec_encode_frame};
use crate::scan::{is_ws, scan_string, skip_ws, unescape};
use crate::wire::{
    lit_data, lit_data_array, lit_from, lit_message, lit_message_type, lit_register, lit_users,
    tag_of, DecodeError, MessageDataView, WsmView,
};

verus! {

/// True of content whose escaped form is itself: no quote, no backslash.
pub open spec fn no_esc(s: Seq<u8>) -> bool {
    forall|k: int| 0 <= k < s.len() ==> s[k] != '"' as u8 && s[k] != '\\' as u8
}

pub proof fn lemma_esc_id(s: Seq<u8>)
    requires
        no_esc(s),
    ensures
        esc(s) == s,
    decreases s.len(),
{
    if s.len() == 0 {
        assert(esc(s) =~= s);
    } else {
        assert(no_esc(s.drop_first()));
        lemma_esc_id(s.drop_first());
        assert(esc(s) =~= s);
    }
}

/// Scanning a string literal's body over the escaped form of `content`
/// yields `content` back and stops just after the closing quote.
pub proof fn lemma_scan_esc(s: Seq<u8>, i: int, content: Seq<u8>, rest: Seq<u8>)
    requires
        0 <= i <= s.len(),
        s.skip(i) == esc(content) + seq!['"' as u8] + rest,
    ensures
        scan_string(s, i) == Some((content, i + esc(content).len() + 1)),
    decreases content.len(),
{
    assert(s.skip(i).len() == s.len() - i);
    if content.len() == 0 {
        assert(esc(content) == Seq::<u8>::empty());
        assert(s.skip(i)[0] == '"' as u8);
        assert(s[i] == '"' as u8);
        assert(content =~= Seq::<u8>::empty());
        assert(scan_string(s, i) == Some((content, i + 1)));
    } else {
        let c = content[0];
        let tail = content.drop_first();
        assert(esc(content) == esc_byte(c) + esc(tail));
        assert(seq![c] + tail =~= content);
        if c == '"' as u8 || c == '\\' as u8 {
            assert(esc_byte(c) =~= seq!['\\' as u8, c]);
            assert(s.skip(i)[0] == '\\' as u8);
            assert(s.skip(i)[1] == c);
            assert(s[i] == '\\' as u8);
            assert(s[i + 1] == c);
            assert(unescape(c) == Some(c));
            assert(s.skip(i + 2) =~= s.skip(i).skip(2));
            assert(s.skip(i + 2) =~= esc(tail) + seq!['"' as u8] + rest);
            lemma_scan_esc(s, i + 2, tail, rest);
            assert(scan_string(s, i) == Some((content, i + esc(content).len() + 1)));
        } else {
            assert(esc_byte(c) =~= seq![c]);
            assert(s.skip(i)[0] == c);
            assert(s[i] == c);
            assert(s.skip(i + 1) =~= s.skip(i).skip(1));
            assert(s.skip(i + 1) =~= esc(tail) + seq!['"' as u8] + rest);
            lemma_scan_esc(s, i + 1, tail, rest);
            assert(scan_string(s, i) == Some((content, i + esc(content).len() + 1)));
        }
    }
}

/// Scanning a roster list body over the encoding of `ns` yields the names
/// appended to what was already gathered, stopping just after the closing
/// bracket.
#[verifier::rlimit(100)]
pub proof fn lemma_elems_names(
    s: Seq<u8>,
    i: int,
    ns: Seq<Seq<u8>>,
    acc: Seq<Seq<u8>>,
    rest: Seq<u8>,
    can_close: bool,
)
    requires
        0 <= i <= s.len(),
        s.skip(i) == names_list(ns) + seq![']' as u8] + rest,
        ns.len() == 0 ==> can_close,
    ensures
        elems(s, i, acc, can_close) == Some((acc + ns, i + names_list(ns).len() + 1)),
    decreases ns.len(),
{
    assert(s.skip(i).len() == s.len() - i);
    if ns.len() == 0 {
        assert(names_list(ns) == Seq::<u8>::empty());
        assert(s.skip(i)[0] == ']' as u8);
        assert(s[i] == ']' as u8);
        assert(acc + ns =~~= acc);
        assert(elems(s, i, acc, can_close) == Some((acc + ns, i + 1)));
    } else {
        let h = ns[0];
        let t = ns.drop_first();
        assert(s.skip(i)[0] == '"' as u8);
        assert(s[i] == '"' as u8);
        if ns.len() == 1 {
            assert(names_list(ns) == quoted(h));
            let rest2 = seq![']' as u8] + rest;
            assert(s.skip(i + 1) =~= s.skip(i).skip(1));
            assert(s.skip(i + 1) =~= esc(h) + seq!['"' as u8] + rest2);
            lemma_scan_esc(s, i + 1, h, rest2);
            let p = i + 2 + esc(h).len();
            assert(scan_string(s, i + 1) == Some((h, p)));
            assert(s.skip(i + 1)[esc(h).len() as int + 1] == ']' as u8);
            assert(s[p] == ']' as u8);
            assert(skip_ws(s, p) == p);
            assert(acc.push(h) =~~= acc + ns);
            assert(elems(s, i, acc, can_close) == Some((acc + ns, p + 1)));
        } else {
            assert(names_list(ns) == quoted(h) + seq![',' as u8] + names_list(t));
            let rest2 = seq![',' as u8] + names_list(t) + seq![']' as u8] + rest;
            assert(s.skip(i + 1) =~= s.skip(i).skip(1));
            assert(s.skip(i + 1) =~= esc(h) + seq!['"' as u8] + rest2);
            lemma_scan_esc(s, i + 1, h, rest2);
            let p = i + 2 + esc(h).len();
            assert(scan_string(s, i + 1) == Some((h, p)));
            assert(s.skip(i + 1)[esc(h).len() as int + 1] == ',' as u8);
            assert(s[p] == ',' as u8);
            assert(skip_ws(s, p) == p);
            assert(names_list(t).len() >= 2) by {
                if t.len() == 1 {
                } else {
                }
            }
            assert(names_list(t)[0] == '"' as u8) by {
                if t.len() == 1 {
                } else {
                }
            }
            assert(s.skip(i + 1)[esc(h).len() as int + 2] == '"' as u8);
            assert(s[p + 1] == '"' as u8);
            assert(skip_ws(s, p + 1) == p + 1);
            assert(s.skip(p + 1) =~= s.skip(i + 1).skip(esc(h).len() as int + 2));
            assert(s.skip(p + 1) =~= names_list(t) + seq![']' as u8] + rest);
            lemma_elems_names(s, p + 1, t, acc.push(h), rest, false);
            assert(acc.push(h) + t =~~= acc + ns);
            assert(elems(s, i, acc, can_close) == Some(
                (acc + ns, i + names_list(ns).len() + 1),
            ));
        }
    }
}

/// The text an optional roster payload contributes to an envelope's
/// encoding, leading comma included.
spec fn da_text(da: Option<Seq<Seq<u8>>>) -> Seq<u8> {
    match da {
        Some(ns) => seq![',' as u8, '"' as u8] + lit_data_array() + seq![
            '"' as u8,
            ':' as u8,
            '[' as u8,
        ] + names_list(ns) + seq![']' as u8],
        None => Seq::<u8>::empty(),
    }
}

/// The text an optional string payload contributes, leading comma included.
spec fn d_text(d: Option<Seq<u8>>) -> Seq<u8> {
    match d {
        Some(dd) => seq![',' as u8, '"' as u8] + lit_data() + seq!['"' as u8, ':' as u8] + quoted(
            dd,
        ),
        None => Seq::<u8>::empty(),
    }
}

/// The member chain from a `data` member that closes the object: it records
/// the payload and ends at the input's end.
#[verifier::rlimit(100)]
proof fn lemma_member_data(s: Seq<u8>, i: int, dd: Seq<u8>, acc: FrameAccV)
    requires
        0 <= i <= s.len(),
        s.skip(i) == seq!['"' as u8] + lit_data() + seq!['"' as u8, ':' as u8] + quoted(dd) + seq![
            '}' as u8,
        ],
        !acc.d_seen,
    ensures
        frame_members(s, i, acc) == Some(
            (FrameAccV { data: Some(dd), d_seen: true, ..acc }, s.len() as int),
        ),
{
    assert(s.skip(i).len() == s.len() - i);
    assert(s.skip(i)[0] == '"' as u8);
    assert(s[i] == '"' as u8);
    assert(no_esc(lit_data()));
    lemma_esc_id(lit_data());
    let rest1 = seq![':' as u8] + quoted(dd) + seq!['}' as u8];
    assert(s.skip(i + 1) =~= s.skip(i).skip(1));
    assert(s.skip(i + 1) =~= esc(lit_data()) + seq!['"' as u8] + rest1);
    lemma_scan_esc(s, i + 1, lit_data(), rest1);
    assert(scan_string(s, i + 1) == Some((lit_data(), i + 6)));
    assert(s.skip(i + 1)[5] == ':' as u8);
    assert(s[i + 6] == ':' as u8);
    assert(skip_ws(s, i + 6) == i + 6);
    assert(s.skip(i + 1)[6] == '"' as u8);
    assert(s[i + 7] == '"' as u8);
    assert(skip_ws(s, i + 7) == i + 7);
    assert(lit_data().len() == 4);
    assert(lit_message_type().len() == 11);
    assert(lit_data_array().len() == 9);
    assert(lit_data() != lit_message_type());
    assert(lit_data() != lit_data_array());
    let rest2 = seq!['}' as u8];
    assert(s.skip(i + 8) =~= s.skip(i).skip(8));
    assert(s.skip(i + 8) =~= esc(dd) + seq!['"' as u8] + rest2);
    lemma_scan_esc(s, i + 8, dd, rest2);
    let e = i + 9 + esc(dd).len();
    assert(scan_string(s, i + 8) == Some((dd, e)));
    let acc2 = FrameAccV { data: Some(dd), d_seen: true, ..acc };
    assert(frame_field(s, i + 7, lit_data(), acc) == Some((acc2, e)));
    assert(s.skip(i + 8)[esc(dd).len() as int + 1] == '}' as u8);
    assert(s[e] == '}' as u8);
    assert(skip_ws(s, e) == e);
    assert(e + 1 == s.len());
    assert(frame_members(s, i, acc) == Some((acc2, e + 1)));
}

/// The member chain from a `dataArray` member, followed by a `data` member
/// or by the closing brace: it records the names (and the payload, when one
/// follows) and ends at the input's end.
#[verifier::rlimit(100)]
proof fn lemma_member_data_array(
    s: Seq<u8>,
    i: int,
    ns: Seq<Seq<u8>>,
    tail_d: Option<Seq<u8>>,
    acc: FrameAccV,
)
    requires
        0 <= i <= s.len(),
        s.skip(i) == seq!['"' as u8] + lit_data_array() + seq!['"' as u8, ':' as u8, '[' as u8]
            + names_list(ns) + seq![']' as u8] + d_text(tail_d) + seq!['}' as u8],
        !acc.da_seen,
        !acc.d_seen,
    ensures
        frame_members(s, i, acc) == Some(
            (
                match tail_d {
                    Some(dd) => FrameAccV {
                        data_array: Some(ns),
                        da_seen: true,
                        data: Some(dd),
                        d_seen: true,
                        ..acc
                    },
                    None => FrameAccV { data_array: Some(ns), da_seen: true, ..acc },
                },
                s.len() as int,
            ),
        ),
{
    assert(s.skip(i).len() == s.len() - i);
    assert(s.skip(i)[0] == '"' as u8);
    assert(s[i] == '"' as u8);
    assert(no_esc(lit_data_array()));
    lemma_esc_id(lit_data_array());
    let dpart = d_text(tail_d);
    let rest1 = seq![':' as u8, '[' as u8] + names_list(ns) + seq![']' as u8] + dpart + seq![
        '}' as u8,
    ];
    assert(s.skip(i + 1) =~= s.skip(i).skip(1));
    assert(s.skip(i + 1) =~= esc(lit_data_array()) + seq!['"' as u8] + rest1);
    lemma_scan_esc(s, i + 1, lit_data_array(), rest1);
    assert(scan_string(s, i + 1) == Some((lit_data_array(), i + 11)));
    assert(s.skip(i + 1)[10] == ':' as u8);
    assert(s[i + 11] == ':' as u8);
    assert(skip_ws(s, i + 11) == i + 11);
    assert(s.skip(i + 1)[11] == '[' as u8);
    assert(s[i + 12] == '[' as u8);
    assert(skip_ws(s, i + 12) == i + 12);
    assert(lit_data_array().len() == 9);
    assert(lit_message_type().len() == 11);
    assert(lit_data_array() != lit_message_type());
    // The list body: either a name's opening quote or the closing bracket.
    assert(names_list(ns).len() == 0 || names_list(ns)[0] == '"' as u8) by {
        if ns.len() == 0 {
        } else if ns.len() == 1 {
        } else {
        }
    }
    assert(s.skip(i + 1)[12] == if ns.len() == 0 {
        ']' as u8
    } else {
        '"' as u8
    });
    assert(s[i + 13] == if ns.len() == 0 {
        ']' as u8
    } else {
        '"' as u8
    });
    assert(skip_ws(s, i + 13) == i + 13);
    let rest2 = dpart + seq!['}' as u8];
    assert(s.skip(i + 13) =~= s.skip(i).skip(13));
    assert(s.skip(i + 13) =~= names_list(ns) + seq![']' as u8] + rest2);
    lemma_elems_names(s, i + 13, ns, Seq::empty(), rest2, true);
    let p = i + 14 + names_list(ns).len();
    assert(elems(s, i + 13, Seq::empty(), true) == Some((Seq::empty() + ns, p)));
    assert(Seq::empty() + ns =~~= ns);
    let acc2 = FrameAccV { data_array: Some(ns), da_seen: true, ..acc };
    assert(frame_field(s, i + 12, lit_data_array(), acc) == Some((acc2, p)));
    match tail_d {
        Some(dd) => {
            assert(s.skip(i + 13)[names_list(ns).len() as int + 1] == ',' as u8);
            assert(s[p] == ',' as u8);
            assert(skip_ws(s, p) == p);
            assert(s.skip(i + 13)[names_list(ns).len() as int + 2] == '"' as u8);
            assert(s[p + 1] == '"' as u8);
            assert(skip_ws(s, p + 1) == p + 1);
            assert(s.skip(p + 1) =~= s.skip(i + 13).skip(names_list(ns).len() as int + 2));
            assert(s.skip(p + 1) =~= seq!['"' as u8] + lit_data() + seq!['"' as u8, ':' as u8]
                + quoted(dd) + seq!['}' as u8]);
            lemma_member_data(s, p + 1, dd, acc2);
            assert(frame_members(s, i, acc) == Some(
                (FrameAccV { data: Some(dd), d_seen: true, ..acc2 }, s.len() as int),
            ));
        },
        None => {
            assert(s.skip(i + 13)[names_list(ns).len() as int + 1] == '}' as u8);
            assert(s[p] == '}' as u8);
            assert(skip_ws(s, p) == p);
            assert(p + 1 == s.len());
            assert(frame_members(s, i, acc) == Some((acc2, p + 1)));
        },
    }
}

/// The member chain from the tag member on: the tag, then whichever
/// payload members the envelope encodes, up to the input's end.
#[verifier::rlimit(100)]
proof fn lemma_member_tag(
    s: Seq<u8>,
    i: int,
    tag: Seq<u8>,
    da: Option<Seq<Seq<u8>>>,
    d: Option<Seq<u8>>,
    acc: FrameAccV,
)
    requires
        0 <= i <= s.len(),
        s.skip(i) == seq!['"' as u8] + lit_message_type() + seq!['"' as u8, ':' as u8] + quoted(
            tag,
        ) + da_text(da) + d_text(d) + seq!['}' as u8],
        no_esc(tag),
        !acc.mt_seen,
        !acc.da_seen,
        !acc.d_seen,
    ensures
        frame_members(s, i, acc) == Some(
            (
                FrameAccV {
                    message_type: Some(tag),
                    mt_seen: true,
                    data_array: match da {
                        Some(ns) => Some(ns),
                        None => acc.data_array,
                    },
                    da_seen: acc.da_seen || da is Some,
                    data: match d {
                        Some(dd) => Some(dd),
                        None => acc.data,
                    },
                    d_seen: acc.d_seen || d is Some,
                },
                s.len() as int,
            ),
        ),
{
    assert(s.skip(i).len() == s.len() - i);
    assert(s.skip(i)[0] == '"' as u8);
    assert(s[i] == '"' as u8);
    assert(no_esc(lit_message_type()));
    lemma_esc_id(lit_message_type());
    lemma_esc_id(tag);
    let rest1 = seq![':' as u8] + quoted(tag) + da_text(da) + d_text(d) + seq!['}' as u8];
    assert(s.skip(i + 1) =~= s.skip(i).skip(1));
    assert(s.skip(i + 1) =~= esc(lit_message_type()) + seq!['"' as u8] + rest1);
    lemma_scan_esc(s, i + 1, lit_message_type(), rest1);
    assert(scan_string(s, i + 1) == Some((lit_message_type(), i + 13)));
    assert(s.skip(i + 1)[12] == ':' as u8);
    assert(s[i + 13] == ':' as u8);
    assert(skip_ws(s, i + 13) == i + 13);
    assert(s.skip(i + 1)[13] == '"' as u8);
    assert(s[i + 14] == '"' as u8);
    assert(skip_ws(s, i + 14) == i + 14);
    let rest2 = da_text(da) + d_text(d) + seq!['}' as u8];
    assert(s.skip(i + 15) =~= s.skip(i).skip(15));
    assert(s.skip(i + 15) =~= esc(tag) + seq!['"' as u8] + rest2);
    lemma_scan_esc(s, i + 15, tag, rest2);
    let e1 = i + 16 + tag.len() as int;
    assert(scan_string(s, i + 15) == Some((tag, e1)));
    let acc1 = FrameAccV { message_type: Some(tag), mt_seen: true, ..acc };
    assert(frame_field(s, i + 14, lit_message_type(), acc) == Some((acc1, e1)));
    match da {
        Some(ns) => {
            assert(da_text(da).len() >= 14);
            assert(s.skip(i + 15)[tag.len() as int + 1] == ',' as u8);
            assert(s[e1] == ',' as u8);
            assert(skip_ws(s, e1) == e1);
            assert(s.skip(i + 15)[tag.len() as int + 2] == '"' as u8);
            assert(s[e1 + 1] == '"' as u8);
            assert(skip_ws(s, e1 + 1) == e1 + 1);
            assert(s.skip(e1 + 1) =~= s.skip(i).skip(e1 + 1 - i));
            assert(s.skip(e1 + 1) =~= seq!['"' as u8] + lit_data_array() + seq![
                '"' as u8,
                ':' as u8,
                '[' as u8,
            ] + names_list(ns) + seq![']' as u8] + d_text(d) + seq!['}' as u8]);
            lemma_member_data_array(s, e1 + 1, ns, d, acc1);
        },
        None => {
            match d {
                Some(dd) => {
                    assert(s.skip(i + 15)[tag.len() as int + 1] == ',' as u8);
                    assert(s[e1] == ',' as u8);
                    assert(skip_ws(s, e1) == e1);
                    assert(s.skip(i + 15)[tag.len() as int + 2] == '"' as u8);
                    assert(s[e1 + 1] == '"' as u8);
                    assert(skip_ws(s, e1 + 1) == e1 + 1);
                    assert(s.skip(e1 + 1) =~= s.skip(i).skip(e1 + 1 - i));
                    assert(s.skip(e1 + 1) =~= seq!['"' as u8] + lit_data() + seq![
                        '"' as u8,
                        ':' as u8,
                    ] + quoted(dd) + seq!['}' as u8]);
                    lemma_member_data(s, e1 + 1, dd, acc1);
                },
                None => {
                    assert(s.skip(i + 15)[tag.len() as int + 1] == '}' as u8);
                    assert(s[e1] == '}' as u8);
                    assert(skip_ws(s, e1) == e1);
                    assert(e1 + 1 == s.len());
                    assert(frame_members(s, i, acc) == Some((acc1, e1 + 1)));
                },
            }
        },
    }
}

/// Law: the codec round trip for whole envelopes. For every envelope value,
/// decoding its one textual representation yields exactly the envelope back.
#[verifier::rlimit(100)]
pub proof fn lemma_frame_round_trip(v: WsmView)
    ensures
        spec_decode_frame(spec_encode_frame(v)) == Ok::<WsmView, DecodeError>(v),
{
    let s = spec_encode_frame(v);
    let tag = tag_of(v.message_type);
    assert(no_esc(lit_users()));
    assert(no_esc(lit_register()));
    assert(no_esc(lit_message()));
    assert(no_esc(tag));
    assert(s =~= seq!['{' as u8] + (seq!['"' as u8] + lit_message_type() + seq![
        '"' as u8,
        ':' as u8,
    ] + quoted(tag) + da_text(v.data_array) + d_text(v.data) + seq!['}' as u8]));
    assert(s[0] == '{' as u8);
    assert(skip_ws(s, 0) == 0);
    assert(s[1] == '"' as u8);
    assert(skip_ws(s, 1) == 1);
    assert(s.skip(1) =~= seq!['"' as u8] + lit_message_type() + seq!['"' as u8, ':' as u8]
        + quoted(tag) + da_text(v.data_array) + d_text(v.data) + seq!['}' as u8]);
    let acc0 = crate::decode::empty_frame_acc();
    lemma_member_tag(s, 1, tag, v.data_array, v.data, acc0);
    let accf = FrameAccV {
        message_type: Some(tag),
        mt_seen: true,
        data_array: v.data_array,
        da_seen: v.data_array is Some,
        data: v.data,
        d_seen: v.data is Some,
    };
    assert(frame_members(s, 1, acc0) == Some((accf, s.len() as int)));
    assert(skip_ws(s, s.len() as int) == s.len());
    assert(lit_users().len() == 5);
    assert(lit_register().len() == 8);
    assert(lit_message().len() == 7);
    assert(lit_register() != lit_users());
    assert(lit_message() != lit_users());
    assert(lit_message() != lit_register());
    assert(WsmView { message_type: v.message_type, data_array: accf.data_array, data: accf.data }
        == v);
    assert(spec_decode_frame(s) == Ok::<WsmView, DecodeError>(v));
}

/// Law: the codec round trip. For every chat entry, decoding its one
/// textual representation yields exactly the entry back.
#[verifier::rlimit(100)]
pub proof fn lemma_entry_round_trip(e: MessageDataView)
    ensures
        spec_decode_entry(spec_encode_entry(e)) == Ok::<MessageDataView, crate::wire::DecodeError>(
            e,
        ),
{
    let s = spec_encode_entry(e);
    let ef = esc(e.from);
    let em = esc(e.message);
    let qf = quoted(e.from);
    let qm = quoted(e.message);
    let pre1 = seq!['{' as u8, '"' as u8] + lit_from() + seq!['"' as u8, ':' as u8];
    let mid = seq![',' as u8, '"' as u8] + lit_message() + seq!['"' as u8, ':' as u8];
    assert(s =~= pre1 + qf + mid + qm + seq!['}' as u8]);
    assert(pre1.len() == 8);
    assert(mid.len() == 11);
    assert(qf.len() == ef.len() + 2);
    assert(qm.len() == em.len() + 2);
    let f = ef.len() as int;
    let m = em.len() as int;
    assert(s.len() == 24 + f + m);

    // The outer object opens at position zero.
    assert(s[0] == '{' as u8);
    assert(!is_ws('{' as u8));
    assert(skip_ws(s, 0) == 0);
    assert(s[1] == '"' as u8);
    assert(skip_ws(s, 1) == 1);

    // First member: the `from` key.
    assert(no_esc(lit_from()));
    lemma_esc_id(lit_from());
    let rest1 = seq![':' as u8] + qf + mid + qm + seq!['}' as u8];
    assert(s.skip(2) =~= esc(lit_from()) + seq!['"' as u8] + rest1);
    lemma_scan_esc(s, 2, lit_from(), rest1);
    assert(scan_string(s, 2) == Some((lit_from(), 7int)));
    assert(s[7] == ':' as u8);
    assert(skip_ws(s, 7) == 7);
    assert(s[8] == '"' as u8);
    assert(skip_ws(s, 8) == 8);

    // Its value: the quoted sender.
    let rest2 = mid + qm + seq!['}' as u8];
    assert(s.skip(9) =~= ef + seq!['"' as u8] + rest2);
    lemma_scan_esc(s, 9, e.from, rest2);
    let end1: int = 10 + f;
    assert(scan_string(s, 9) == Some((e.from, end1)));
    assert(s[end1] == ',' as u8);
    assert(skip_ws(s, end1) == end1);
    let n: int = end1 + 1;
    assert(s[n] == '"' as u8);
    assert(skip_ws(s, n) == n);

    // Second member: the `message` key.
    assert(no_esc(lit_message()));
    lemma_esc_id(lit_message());
    let rest3 = seq![':' as u8] + qm + seq!['}' as u8];
    assert(s.skip(n + 1) =~= esc(lit_message()) + seq!['"' as u8] + rest3);
    lemma_scan_esc(s, n + 1, lit_message(), rest3);
    let kend: int = n + 9;
    assert(scan_string(s, n + 1) == Some((lit_message(), kend)));
    assert(lit_message().len() == 7);
    assert(lit_from().len() == 4);
    assert(lit_message() != lit_from());
    assert(s[kend] == ':' as u8);
    assert(skip_ws(s, kend) == kend);
    let v2: int = kend + 1;
    assert(s[v2] == '"' as u8);
    assert(skip_ws(s, v2) == v2);

    // Its value: the quoted body.
    let rest4 = seq!['}' as u8];
    assert(s.skip(v2 + 1) =~= em + seq!['"' as u8] + rest4);
    lemma_scan_esc(s, v2 + 1, e.message, rest4);
    let end2: int = v2 + 2 + m;
    assert(scan_string(s, v2 + 1) == Some((e.message, end2)));
    assert(end2 == s.len() - 1);
    assert(s[end2] == '}' as u8);
    assert(skip_ws(s, end2) == end2);
    assert(skip_ws(s, s.len() as int) == s.len());

    // Assemble: the second member closes the object, the first chains to it.
    let acc0 = EntryAccV { from: None, message: None };
    let acc1 = EntryAccV { from: Some(e.from), message: None };
    let acc2 = EntryAccV { from: Some(e.from), message: Some(e.message) };
    assert(crate::decode::entry_field(s, v2, lit_message(), acc1) == Some((acc2, end2)));
    assert(crate::decode::entry_members(s, n, acc1) == Some((acc2, end2 + 1)));
    assert(crate::decode::entry_field(s, 8, lit_from(), acc0) == Some((acc1, end1)));
    assert(crate::decode::entry_members(s, 1, acc0) == Some((acc2, end2 + 1)));
    assert(MessageDataView { from: e.from, message: e.message } == e);
    assert(spec_decode_entry(s) == Ok::<MessageDataView, crate::wire::DecodeError>(e));
}

} // verus!
