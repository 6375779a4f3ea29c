//! Encoding of envelopes and chat entries into wire text. Every valid value
//! has exactly one textual representation; payload fields that are absent are
//! left out of the text.

use vstd::prelude::*;

use crate::wire::{
    lit_data, lit_data_array, lit_from, lit_message, lit_message_type, tag_of, MessageData,
    MessageDataView, MsgTypes, WebSocketMessage, WsmView,
};
use crate::wire::{data_array_key, data_key, from_key, message_key, message_type_key};

verus! {

/// How one byte of string content stands in the wire text: a quote or a
/// backslash is escaped, every other byte stands as itself.
pub open spec fn esc_byte(b: u8) -> Seq<u8> {
    if b == '"' as u8 || b == '\\' as u8 {
        seq!['\\' as u8, b]
    } else {
        seq![b]
    }
}

/// Escaped form of a whole byte string.
pub open spec fn esc(s: Seq<u8>) -> Seq<u8>
    decreases s.len(),
{
    if s.len() == 0 {
        Seq::empty()
    } else {
        esc_byte(s[0]) + esc(s.drop_first())
    }
}

/// A string literal of the wire text: quote, escaped content, quote.
pub open spec fn quoted(s: Seq<u8>) -> Seq<u8> {
    seq!['"' as u8] + esc(s) + seq!['"' as u8]
}

/// Comma-separated string literals, the body of a roster list.
pub open spec fn names_list(ns: Seq<Seq<u8>>) -> Seq<u8>
    decreases ns.len(),
{
    if ns.len() == 0 {
        Seq::empty()
    } else if ns.len() == 1 {
        quoted(ns[0])
    } else {
        quoted(ns[0]) + seq![',' as u8] + names_list(ns.drop_first())
    }
}

/// The one textual representation of an envelope.
pub open spec fn spec_encode_frame(v: WsmView) -> Seq<u8> {
    seq!['{' as u8, '"' as u8] + lit_message_type() + seq!['"' as u8, ':' as u8] + quoted(
        tag_of(v.message_type),
    ) + (match v.data_array {
        Some(ns) => seq![',' as u8, '"' as u8] + lit_data_array() + seq![
            '"' as u8,
            ':' as u8,
            '[' as u8,
        ] + names_list(ns) + seq![']' as u8],
        None => Seq::empty(),
    }) + (match v.data {
        Some(d) => seq![',' as u8, '"' as u8] + lit_data() + seq!['"' as u8, ':' as u8] + quoted(d),
        None => Seq::empty(),
    }) + seq!['}' as u8]
}

/// The one textual representation of a chat entry.
pub open spec fn spec_encode_entry(e: MessageDataView) -> Seq<u8> {
    seq!['{' as u8, '"' as u8] + lit_from() + seq!['"' as u8, ':' as u8] + quoted(e.from) + seq![
        ',' as u8,
        '"' as u8,
    ] + lit_message() + seq!['"' as u8, ':' as u8] + quoted(e.message) + seq!['}' as u8]
}

/// Appends the quoted, escaped form of `s` to `out`.
pub fn push_quoted(out: &mut Vec<u8>, s: &[u8])
    ensures
        final(out)@ == old(out)@ + quoted(s@),
{
    out.push('"' as u8);
    proof {
        assert(s@.skip(0) =~= s@);
        assert(out@ + esc(s@) =~= old(out)@ + seq!['"' as u8] + esc(s@));
    }
    let mut k: usize = 0;
    while k < s.len()
        invariant
            0 <= k <= s@.len(),
            out@ + esc(s@.skip(k as int)) == old(out)@ + seq!['"' as u8] + esc(s@),
        decreases s@.len() - k,
    {
        let b = s[k];
        let ghost pre = out@;
        if b == '"' as u8 || b == '\\' as u8 {
            out.push('\\' as u8);
            out.push(b);
        } else {
            out.push(b);
        }
        proof {
            let ki = k as int;
            assert(s@.skip(ki).len() > 0);
            assert(s@.skip(ki)[0] == s@[ki]);
            assert(s@.skip(ki).drop_first() =~= s@.skip(ki + 1));
            assert(esc(s@.skip(ki)) == esc_byte(s@[ki]) + esc(s@.skip(ki + 1)));
            assert(out@ =~= pre + esc_byte(s@[ki]));
            assert(out@ + esc(s@.skip(ki + 1)) =~= pre + esc(s@.skip(ki)));
        }
        k = k + 1;
    }
    proof {
        assert(s@.skip(s@.len() as int) =~= Seq::<u8>::empty());
        assert(out@ + esc(s@.skip(s@.len() as int)) =~= out@);
    }
    out.push('"' as u8);
    proof {
        assert(out@ =~= old(out)@ + quoted(s@));
    }
}

/// Appends the roster names from index `k` on, comma-separated and quoted.
fn push_names_from(out: &mut Vec<u8>, ns: &Vec<Vec<u8>>, k: usize)
    requires
        k <= ns@.len(),
    ensures
        final(out)@ == old(out)@ + names_list(ns.deep_view().skip(k as int)),
    decreases ns@.len() - k,
{
    let ghost dv = ns.deep_view();
    proof {
        assert(dv.len() == ns@.len());
    }
    if k >= ns.len() {
        proof {
            assert(dv.skip(k as int) =~~= Seq::<Seq<u8>>::empty());
            assert(out@ + names_list(dv.skip(k as int)) =~= out@);
        }
        return ;
    }
    push_quoted(out, ns[k].as_slice());
    proof {
        assert(dv[k as int] == ns@[k as int]@);
    }
    if k + 1 < ns.len() {
        out.push(',' as u8);
        let ghost mid = out@;
        push_names_from(out, ns, k + 1);
        proof {
            assert(dv.skip(k as int).len() > 1);
            assert(dv.skip(k as int)[0] == dv[k as int]);
            assert(dv.skip(k as int).drop_first() =~~= dv.skip(k as int + 1));
            assert(names_list(dv.skip(k as int)) == quoted(dv[k as int]) + seq![',' as u8]
                + names_list(dv.skip(k as int + 1)));
            assert(out@ =~= old(out)@ + names_list(dv.skip(k as int)));
        }
    } else {
        proof {
            assert(dv.skip(k as int).len() == 1);
            assert(dv.skip(k as int)[0] == dv[k as int]);
            assert(names_list(dv.skip(k as int)) == quoted(dv[k as int]));
            assert(out@ =~= old(out)@ + names_list(dv.skip(k as int)));
        }
    }
}

/// Encodes an envelope into its wire text.
#[verifier::rlimit(60)]
pub fn encode_frame(m: &WebSocketMessage) -> (r: Vec<u8>)
    ensures
        r@ == spec_encode_frame(m@),
{
    let ghost head = seq!['{' as u8, '"' as u8] + lit_message_type() + seq!['"' as u8, ':' as u8]
        + quoted(tag_of(m@.message_type));
    let ghost with_da = head + (match m@.data_array {
        Some(ns) => seq![',' as u8, '"' as u8] + lit_data_array() + seq![
            '"' as u8,
            ':' as u8,
            '[' as u8,
        ] + names_list(ns) + seq![']' as u8],
        None => Seq::<u8>::empty(),
    });
    let ghost with_d = with_da + (match m@.data {
        Some(d) => seq![',' as u8, '"' as u8] + lit_data() + seq!['"' as u8, ':' as u8] + quoted(d),
        None => Seq::<u8>::empty(),
    });
    let mut out: Vec<u8> = Vec::new();
    out.push('{' as u8);
    out.push('"' as u8);
    let mut key = message_type_key();
    out.append(&mut key);
    out.push('"' as u8);
    out.push(':' as u8);
    let tag: Vec<u8> = match m.message_type {
        MsgTypes::Users => crate::wire::users_tag(),
        MsgTypes::Register => crate::wire::register_tag(),
        MsgTypes::Message => message_key(),
    };
    push_quoted(&mut out, tag.as_slice());
    proof {
        assert(out@ =~= head);
    }
    match &m.data_array {
        Some(ns) => {
            out.push(',' as u8);
            out.push('"' as u8);
            let mut dak = data_array_key();
            out.append(&mut dak);
            out.push('"' as u8);
            out.push(':' as u8);
            out.push('[' as u8);
            push_names_from(&mut out, ns, 0);
            proof {
                assert(ns.deep_view().skip(0) =~~= ns.deep_view());
            }
            out.push(']' as u8);
        },
        None => {},
    }
    proof {
        assert(out@ =~= with_da);
    }
    match &m.data {
        Some(d) => {
            out.push(',' as u8);
            out.push('"' as u8);
            let mut dk = data_key();
            out.append(&mut dk);
            out.push('"' as u8);
            out.push(':' as u8);
            push_quoted(&mut out, d.as_slice());
        },
        None => {},
    }
    proof {
        assert(out@ =~= with_d);
    }
    out.push('}' as u8);
    proof {
        assert(out@ =~= with_d + seq!['}' as u8]);
        assert(spec_encode_frame(m@) == with_d + seq!['}' as u8]);
    }
    out
}

/// Encodes a chat entry into its wire text.
pub fn encode_entry(e: &MessageData) -> (r: Vec<u8>)
    ensures
        r@ == spec_encode_entry(e@),
{
    let mut out: Vec<u8> = Vec::new();
    out.push('{' as u8);
    out.push('"' as u8);
    let mut fk = from_key();
    out.append(&mut fk);
    out.push('"' as u8);
    out.push(':' as u8);
    push_quoted(&mut out, e.from.as_slice());
    out.push(',' as u8);
    out.push('"' as u8);
    let mut mk = message_key();
    out.append(&mut mk);
    out.push('"' as u8);
    out.push(':' as u8);
    push_quoted(&mut out, e.message.as_slice());
    out.push('}' as u8);
    proof {
        assert(out@ =~= spec_encode_entry(e@));
    }
    out
}

} // verus!
