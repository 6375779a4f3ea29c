//! Byte-level scanners for the wire text: whitespace, string literals with
//! escapes, bare atoms, and bracketed values. Each exec scanner is proved
//! equal to its spec counterpart, which the codec's contracts are stated over.

use vstd::prelude::*;

verus! {

/// Whitespace accepted between tokens of a frame.
pub open spec fn is_ws(b: u8) -> bool {
    b == 32 || b == 9 || b == 10 || b == 13
}

/// Bytes that end a bare atom and open or close composite values.
pub open spec fn is_delim(b: u8) -> bool {
    ||| b == ',' as u8
    ||| b == ':' as u8
    ||| b == '{' as u8
    ||| b == '}' as u8
    ||| b == '[' as u8
    ||| b == ']' as u8
    ||| b == '"' as u8
}

/// First position at or after `i` holding a non-whitespace byte (or the end).
pub open spec fn skip_ws(s: Seq<u8>, i: int) -> int
    decreases s.len() - i,
{
    if 0 <= i && i < s.len() && is_ws(s[i]) {
        skip_ws(s, i + 1)
    } else {
        i
    }
}

/// The byte a single-character escape stands for, if the escape is accepted.
pub open spec fn unescape(b: u8) -> Option<u8> {
    if b == '"' as u8 {
        Some('"' as u8)
    } else if b == '\\' as u8 {
        Some('\\' as u8)
    } else if b == '/' as u8 {
        Some('/' as u8)
    } else if b == 'n' as u8 {
        Some(10u8)
    } else if b == 't' as u8 {
        Some(9u8)
    } else if b == 'r' as u8 {
        Some(13u8)
    } else if b == 'b' as u8 {
        Some(8u8)
    } else if b == 'f' as u8 {
        Some(12u8)
    } else {
        None
    }
}

/// Scans a string literal's body starting just after its opening quote.
/// Returns the unescaped content and the position just after the closing
/// quote, or `None` when the literal never closes or holds an escape the
/// codec does not accept.
pub open spec fn scan_string(s: Seq<u8>, i: int) -> Option<(Seq<u8>, int)>
    decreases s.len() - i,
{
    if i < 0 || i >= s.len() {
        None
    } else if s[i] == '"' as u8 {
        Some((Seq::empty(), i + 1))
    } else if s[i] == '\\' as u8 {
        if i + 1 < s.len() {
            match unescape(s[i + 1]) {
                Some(c) => match scan_string(s, i + 2) {
                    Some(p) => Some((seq![c] + p.0, p.1)),
                    None => None,
                },
                None => None,
            }
        } else {
            None
        }
    } else {
        match scan_string(s, i + 1) {
            Some(p) => Some((seq![s[i]] + p.0, p.1)),
            None => None,
        }
    }
}

/// End of a bare atom (a number or a literal word) starting at `i`.
pub open spec fn scan_atom(s: Seq<u8>, i: int) -> int
    decreases s.len() - i,
{
    if 0 <= i && i < s.len() && !is_ws(s[i]) && !is_delim(s[i]) {
        scan_atom(s, i + 1)
    } else {
        i
    }
}

/// Scans past a bracketed value whose opening bracket was already consumed,
/// tolerant of any byte inside string literals. `depth` counts brackets still
/// open; the scan ends just after the bracket that closes the outermost one.
pub open spec fn scan_nested(s: Seq<u8>, i: int, depth: int, in_str: bool, esc: bool) -> Option<int>
    decreases s.len() - i,
{
    if i < 0 || i >= s.len() {
        None
    } else if in_str {
        if esc {
            scan_nested(s, i + 1, depth, true, false)
        } else if s[i] == '\\' as u8 {
            scan_nested(s, i + 1, depth, true, true)
        } else if s[i] == '"' as u8 {
            scan_nested(s, i + 1, depth, false, false)
        } else {
            scan_nested(s, i + 1, depth, true, false)
        }
    } else if s[i] == '"' as u8 {
        scan_nested(s, i + 1, depth, true, false)
    } else if s[i] == '{' as u8 || s[i] == '[' as u8 {
        scan_nested(s, i + 1, depth + 1, false, false)
    } else if s[i] == '}' as u8 || s[i] == ']' as u8 {
        if depth == 1 {
            Some(i + 1)
        } else {
            scan_nested(s, i + 1, depth - 1, false, false)
        }
    } else {
        scan_nested(s, i + 1, depth, false, false)
    }
}

/// End of one value of any shape starting at `i`: a string literal, a
/// bracketed composite, or a bare atom.
pub open spec fn skip_value(s: Seq<u8>, i: int) -> Option<int> {
    if i < 0 || i >= s.len() {
        None
    } else if s[i] == '"' as u8 {
        match scan_string(s, i + 1) {
            Some(p) => Some(p.1),
            None => None,
        }
    } else if s[i] == '{' as u8 || s[i] == '[' as u8 {
        scan_nested(s, i + 1, 1, false, false)
    } else {
        let j = scan_atom(s, i);
        if j > i {
            Some(j)
        } else {
            None
        }
    }
}

fn ws_byte(b: u8) -> (r: bool)
    ensures
        r == is_ws(b),
{
    b == 32 || b == 9 || b == 10 || b == 13
}

fn delim_byte(b: u8) -> (r: bool)
    ensures
        r == is_delim(b),
{
    b == ',' as u8 || b == ':' as u8 || b == '{' as u8 || b == '}' as u8 || b == '[' as u8
        || b == ']' as u8 || b == '"' as u8
}

pub fn ws_end(s: &[u8], i: usize) -> (r: usize)
    requires
        i <= s@.len(),
    ensures
        r == skip_ws(s@, i as int),
        i <= r <= s@.len(),
    decreases s@.len() - i,
{
    if i < s.len() && ws_byte(s[i]) {
        ws_end(s, i + 1)
    } else {
        i
    }
}

pub fn unescape_byte(b: u8) -> (r: Option<u8>)
    ensures
        r == unescape(b),
{
    if b == '"' as u8 {
        Some('"' as u8)
    } else if b == '\\' as u8 {
        Some('\\' as u8)
    } else if b == '/' as u8 {
        Some('/' as u8)
    } else if b == 'n' as u8 {
        Some(10u8)
    } else if b == 't' as u8 {
        Some(9u8)
    } else if b == 'r' as u8 {
        Some(13u8)
    } else if b == 'b' as u8 {
        Some(8u8)
    } else if b == 'f' as u8 {
        Some(12u8)
    } else {
        None
    }
}

pub fn string_end(s: &[u8], i: usize) -> (r: Option<(Vec<u8>, usize)>)
    requires
        i <= s@.len(),
    ensures
        match r {
            Some(p) => {
                &&& scan_string(s@, i as int) == Some((p.0@, p.1 as int))
                &&& i < p.1 <= s@.len()
            },
            None => scan_string(s@, i as int) is None,
        },
    decreases s@.len() - i,
{
    if i >= s.len() {
        return None;
    }
    let b = s[i];
    if b == '"' as u8 {
        let t: Vec<u8> = Vec::new();
        return Some((t, i + 1));
    }
    if b == '\\' as u8 {
        if i + 1 >= s.len() {
            return None;
        }
        match unescape_byte(s[i + 1]) {
            Some(c) => {
                match string_end(s, i + 2) {
                    Some((mut t, j)) => {
                        t.insert(0, c);
                        proof {
                            assert(t@ =~= seq![c] + t@.subrange(1, t@.len() as int));
                        }
                        Some((t, j))
                    },
                    None => None,
                }
            },
            None => None,
        }
    } else {
        match string_end(s, i + 1) {
            Some((mut t, j)) => {
                t.insert(0, b);
                proof {
                    assert(t@ =~= seq![b] + t@.subrange(1, t@.len() as int));
                }
                Some((t, j))
            },
            None => None,
        }
    }
}

pub fn atom_end(s: &[u8], i: usize) -> (r: usize)
    requires
        i <= s@.len(),
    ensures
        r == scan_atom(s@, i as int),
        i <= r <= s@.len(),
    decreases s@.len() - i,
{
    if i < s.len() && !ws_byte(s[i]) && !delim_byte(s[i]) {
        atom_end(s, i + 1)
    } else {
        i
    }
}

pub fn nested_end(s: &[u8], i: usize, depth: usize, in_str: bool, esc: bool) -> (r: Option<usize>)
    requires
        i <= s@.len(),
        1 <= depth <= i,
    ensures
        match r {
            Some(j) => {
                &&& scan_nested(s@, i as int, depth as int, in_str, esc) == Some(j as int)
                &&& i < j <= s@.len()
            },
            None => scan_nested(s@, i as int, depth as int, in_str, esc) is None,
        },
    decreases s@.len() - i,
{
    if i >= s.len() {
        return None;
    }
    let b = s[i];
    if in_str {
        if esc {
            nested_end(s, i + 1, depth, true, false)
        } else if b == '\\' as u8 {
            nested_end(s, i + 1, depth, true, true)
        } else if b == '"' as u8 {
            nested_end(s, i + 1, depth, false, false)
        } else {
            nested_end(s, i + 1, depth, true, false)
        }
    } else if b == '"' as u8 {
        nested_end(s, i + 1, depth, true, false)
    } else if b == '{' as u8 || b == '[' as u8 {
        nested_end(s, i + 1, depth + 1, false, false)
    } else if b == '}' as u8 || b == ']' as u8 {
        if depth == 1 {
            Some(i + 1)
        } else {
            nested_end(s, i + 1, depth - 1, false, false)
        }
    } else {
        nested_end(s, i + 1, depth, false, false)
    }
}

pub fn value_end(s: &[u8], i: usize) -> (r: Option<usize>)
    requires
        i <= s@.len(),
    ensures
        match r {
            Some(j) => {
                &&& skip_value(s@, i as int) == Some(j as int)
                &&& i < j <= s@.len()
            },
            None => skip_value(s@, i as int) is None,
        },
{
    if i >= s.len() {
        return None;
    }
    let b = s[i];
    if b == '"' as u8 {
        match string_end(s, i + 1) {
            Some((_t, j)) => Some(j),
            None => None,
        }
    } else if b == '{' as u8 || b == '[' as u8 {
        nested_end(s, i + 1, 1, false, false)
    } else {
        let j = atom_end(s, i);
        if j > i {
            Some(j)
        } else {
            None
        }
    }
}

/// Element-wise comparison of two byte strings.
pub fn bytes_eq(a: &[u8], b: &[u8]) -> (r: bool)
    ensures
        r == (a@ == b@),
{
    if a.len() != b.len() {
        return false;
    }
    let mut k: usize = 0;
    while k < a.len()
        invariant
            0 <= k <= a@.len(),
            a@.len() == b@.len(),
            forall|m: int| 0 <= m < k ==> a@[m] == b@[m],
        decreases a@.len() - k,
    {
        if a[k] != b[k] {
            return false;
        }
        k = k + 1;
    }
    proof {
        assert(a@ =~= b@);
    }
    true
}

} // verus!
