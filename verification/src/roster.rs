//! Roster reconciliation: a roster snapshot frame fully replaces the
//! participant list. Each participant is the name paired with an avatar URL
//! derived from the name alone: the identicon service base, the
//! percent-encoded name, and the `.svg` suffix.

use vstd::prelude::*;

verus! {

/// A roster entry: a display name and its derived avatar URL.
#[derive(PartialEq, Eq, Debug)]
pub struct UserProfile {
    pub name: Vec<u8>,
    pub avatar: Vec<u8>,
}

/// Mathematical image of a `UserProfile`.
pub ghost struct UserProfileView {
    pub name: Seq<u8>,
    pub avatar: Seq<u8>,
}

impl View for UserProfile {
    type V = UserProfileView;

    open spec fn view(&self) -> UserProfileView {
        UserProfileView { name: self.name@, avatar: self.avatar@ }
    }
}

/// Bytes that stand for themselves in a URL path segment.
pub open spec fn is_unreserved(b: u8) -> bool {
    ||| 'A' as u8 <= b && b <= 'Z' as u8
    ||| 'a' as u8 <= b && b <= 'z' as u8
    ||| '0' as u8 <= b && b <= '9' as u8
    ||| b == '-' as u8
    ||| b == '.' as u8
    ||| b == '_' as u8
    ||| b == '~' as u8
}

/// Upper-case hexadecimal digit for a value below sixteen.
pub open spec fn hex_digit(n: u8) -> u8 {
    if n < 10 {
        (('0' as u8) + n) as u8
    } else {
        (('A' as u8) + n - 10) as u8
    }
}

/// Percent-encoding of one byte.
pub open spec fn pct_byte(b: u8) -> Seq<u8> {
    if is_unreserved(b) {
        seq![b]
    } else {
        seq!['%' as u8, hex_digit((b / 16) as u8), hex_digit((b % 16) as u8)]
    }
}

/// Percent-encoding of a whole name.
pub open spec fn pct(s: Seq<u8>) -> Seq<u8>
    decreases s.len(),
{
    if s.len() == 0 {
        Seq::empty()
    } else {
        pct_byte(s[0]) + pct(s.drop_first())
    }
}

/// The identicon service base the avatar URLs point at.
pub open spec fn lit_avatar_base() -> Seq<u8> {
    seq![
        'h' as u8, 't' as u8, 't' as u8, 'p' as u8, 's' as u8, ':' as u8, '/' as u8, '/' as u8,
        'a' as u8, 'v' as u8, 'a' as u8, 't' as u8, 'a' as u8, 'r' as u8, 's' as u8, '.' as u8,
        'd' as u8, 'i' as u8, 'c' as u8, 'e' as u8, 'b' as u8, 'e' as u8, 'a' as u8, 'r' as u8,
        '.' as u8, 'c' as u8, 'o' as u8, 'm' as u8, '/' as u8, 'a' as u8, 'p' as u8, 'i' as u8,
        '/' as u8, 'a' as u8, 'd' as u8, 'v' as u8, 'e' as u8, 'n' as u8, 't' as u8, 'u' as u8,
        'r' as u8, 'e' as u8, 'r' as u8, '-' as u8, 'n' as u8, 'e' as u8, 'u' as u8, 't' as u8,
        'r' as u8, 'a' as u8, 'l' as u8, '/' as u8,
    ]
}

/// The avatar file suffix.
pub open spec fn lit_svg_suffix() -> Seq<u8> {
    seq!['.' as u8, 's' as u8, 'v' as u8, 'g' as u8]
}

/// The avatar URL is a pure function of the name.
pub open spec fn spec_avatar_url(name: Seq<u8>) -> Seq<u8> {
    lit_avatar_base() + pct(name) + lit_svg_suffix()
}

/// The participant a name maps to.
pub open spec fn spec_participant(name: Seq<u8>) -> UserProfileView {
    UserProfileView { name: name, avatar: spec_avatar_url(name) }
}

/// The whole participant list a roster snapshot maps to: one participant per
/// name, in the order the names came, duplicates kept.
pub open spec fn spec_roster(names: Seq<Seq<u8>>) -> Seq<UserProfileView> {
    Seq::new(names.len(), |i: int| spec_participant(names[i]))
}

/// Image of an exec participant list in the spec world.
pub open spec fn roster_view(users: Seq<UserProfile>) -> Seq<UserProfileView> {
    Seq::new(users.len(), |i: int| users[i]@)
}

fn avatar_base() -> (v: Vec<u8>)
    ensures
        v@ == lit_avatar_base(),
{
    let mut v: Vec<u8> = Vec::new();
    v.push('h' as u8);
    v.push('t' as u8);
    v.push('t' as u8);
    v.push('p' as u8);
    v.push('s' as u8);
    v.push(':' as u8);
    v.push('/' as u8);
    v.push('/' as u8);
    v.push('a' as u8);
    v.push('v' as u8);
    v.push('a' as u8);
    v.push('t' as u8);
    v.push('a' as u8);
    v.push('r' as u8);
    v.push('s' as u8);
    v.push('.' as u8);
    v.push('d' as u8);
    v.push('i' as u8);
    v.push('c' as u8);
    v.push('e' as u8);
    v.push('b' as u8);
    v.push('e' as u8);
    v.push('a' as u8);
    v.push('r' as u8);
    v.push('.' as u8);
    v.push('c' as u8);
    v.push('o' as u8);
    v.push('m' as u8);
    v.push('/' as u8);
    v.push('a' as u8);
    v.push('p' as u8);
    v.push('i' as u8);
    v.push('/' as u8);
    v.push('a' as u8);
    v.push('d' as u8);
    v.push('v' as u8);
    v.push('e' as u8);
    v.push('n' as u8);
    v.push('t' as u8);
    v.push('u' as u8);
    v.push('r' as u8);
    v.push('e' as u8);
    v.push('r' as u8);
    v.push('-' as u8);
    v.push('n' as u8);
    v.push('e' as u8);
    v.push('u' as u8);
    v.push('t' as u8);
    v.push('r' as u8);
    v.push('a' as u8);
    v.push('l' as u8);
    v.push('/' as u8);
    proof {
        assert(v@ =~= lit_avatar_base());
    }
    v
}

fn hex_digit_x(n: u8) -> (r: u8)
    requires
        n < 16,
    ensures
        r == hex_digit(n),
{
    if n < 10 {
        ('0' as u8) + n
    } else {
        ('A' as u8) + n - 10
    }
}

fn unreserved_byte(b: u8) -> (r: bool)
    ensures
        r == is_unreserved(b),
{
    (('A' as u8) <= b && b <= ('Z' as u8)) || (('a' as u8) <= b && b <= ('z' as u8)) || (('0'
        as u8) <= b && b <= ('9' as u8)) || b == ('-' as u8) || b == ('.' as u8) || b == ('_'
        as u8) || b == ('~' as u8)
}

/// Appends the percent-encoded form of `s` to `out`.
fn push_pct(out: &mut Vec<u8>, s: &[u8])
    ensures
        final(out)@ == old(out)@ + pct(s@),
{
    proof {
        assert(s@.skip(0) =~= s@);
    }
    let mut k: usize = 0;
    while k < s.len()
        invariant
            0 <= k <= s@.len(),
            out@ + pct(s@.skip(k as int)) == old(out)@ + pct(s@),
        decreases s@.len() - k,
    {
        let b = s[k];
        let ghost pre = out@;
        if unreserved_byte(b) {
            out.push(b);
        } else {
            out.push('%' as u8);
            out.push(hex_digit_x(b / 16));
            out.push(hex_digit_x(b % 16));
        }
        proof {
            let ki = k as int;
            assert(s@.skip(ki).len() > 0);
            assert(s@.skip(ki)[0] == s@[ki]);
            assert(s@.skip(ki).drop_first() =~= s@.skip(ki + 1));
            assert(pct(s@.skip(ki)) == pct_byte(s@[ki]) + pct(s@.skip(ki + 1)));
            assert(out@ =~= pre + pct_byte(s@[ki]));
            assert(out@ + pct(s@.skip(ki + 1)) =~= pre + pct(s@.skip(ki)));
        }
        k = k + 1;
    }
    proof {
        assert(s@.skip(s@.len() as int) =~= Seq::<u8>::empty());
        assert(out@ + pct(s@.skip(s@.len() as int)) =~= out@);
    }
}

/// Builds the avatar URL a name derives to.
pub fn avatar_url(name: &[u8]) -> (r: Vec<u8>)
    ensures
        r@ == spec_avatar_url(name@),
{
    let mut out = avatar_base();
    push_pct(&mut out, name);
    out.push('.' as u8);
    out.push('s' as u8);
    out.push('v' as u8);
    out.push('g' as u8);
    proof {
        assert(out@ =~= spec_avatar_url(name@));
    }
    out
}

/// Copies a byte string.
pub fn copy_bytes(s: &[u8]) -> (r: Vec<u8>)
    ensures
        r@ == s@,
{
    let mut r: Vec<u8> = Vec::new();
    r.extend_from_slice(s);
    proof {
        assert(r@ =~= s@);
    }
    r
}

/// Rebuilds the whole participant list from a roster snapshot: order kept,
/// duplicates kept, no memory of the previous list.
pub fn apply_roster(names: &Vec<Vec<u8>>) -> (r: Vec<UserProfile>)
    ensures
        roster_view(r@) == spec_roster(names.deep_view()),
{
    let mut r: Vec<UserProfile> = Vec::new();
    let mut k: usize = 0;
    while k < names.len()
        invariant
            0 <= k <= names@.len(),
            r@.len() == k,
            forall|m: int| 0 <= m < k ==> r@[m]@ == spec_participant(names.deep_view()[m]),
        decreases names@.len() - k,
    {
        let name = copy_bytes(names[k].as_slice());
        let avatar = avatar_url(names[k].as_slice());
        r.push(UserProfile { name, avatar });
        proof {
            assert(names.deep_view()[k as int] == names@[k as int]@);
        }
        k = k + 1;
    }
    proof {
        assert(roster_view(r@) =~= spec_roster(names.deep_view()));
    }
    r
}

} // verus!
