//! The combined peer address a node registers with: the 20 bytes of its
//! peer key followed by the 4 octets of its IPv4 address.
//!
//! The peer key is presented as 40 lowercase hexadecimal digits.

use vstd::prelude::*;
use vstd::string::StrSliceExecFns;

verus! {

/// Length in bytes of an encoded peer address.
pub const ADDRESS_LEN: usize = 24;

/// Length in bytes of the peer key at the start of an address.
pub const PEER_KEY_LEN: usize = 20;

/// An IPv4 address as its four octets, most significant first.
pub type Ipv4Octets = [u8; 4];

/// Why a peer address could not be decoded or encoded.
#[derive(Debug, Clone, Copy, PartialEq, Eq, Structural)]
pub enum AddressError {
    /// The encoded address is not exactly `ADDRESS_LEN` bytes long.
    WrongLength,
    /// The peer identifier is not `2 * PEER_KEY_LEN` lowercase hexadecimal digits.
    MalformedPeerId,
}

/// Lowercase hexadecimal digit for a value below 16.
pub open spec fn hex_digit(n: nat) -> char {
    if n < 10 {
        (n + 48) as char
    } else {
        (n + 87) as char
    }
}

pub open spec fn is_hex_digit(c: char) -> bool {
    ('0' <= c && c <= '9') || ('a' <= c && c <= 'f')
}

/// Value of a lowercase hexadecimal digit.
pub open spec fn hex_value(c: char) -> nat {
    if c <= '9' {
        (c as nat - 48) as nat
    } else {
        (c as nat - 87) as nat
    }
}

/// Two lowercase hexadecimal digits per byte, high nibble first.
pub open spec fn hex_of(s: Seq<u8>) -> Seq<char>
    decreases s.len(),
{
    if s.len() == 0 {
        Seq::empty()
    } else {
        hex_of(s.drop_last()).push(hex_digit(s.last() as nat / 16)).push(
            hex_digit(s.last() as nat % 16),
        )
    }
}

/// Bytes spelled by a sequence of hexadecimal digit pairs.
pub open spec fn unhex(p: Seq<char>) -> Seq<u8>
    decreases p.len(),
{
    if p.len() < 2 {
        Seq::empty()
    } else {
        unhex(p.subrange(0, p.len() - 2)).push(
            (hex_value(p[p.len() - 2]) * 16 + hex_value(p[p.len() - 1])) as u8,
        )
    }
}

/// A peer identifier as this network writes it: the hex spelling of a peer key.
pub open spec fn valid_peer_id(p: Seq<char>) -> bool {
    p.len() == 2 * PEER_KEY_LEN && forall|k: int| 0 <= k < p.len() ==> is_hex_digit(#[trigger] p[k])
}

/// Peer identifier held by an encoded address.
pub open spec fn peer_id_of(a: Seq<u8>) -> Seq<char> {
    hex_of(a.subrange(0, PEER_KEY_LEN as int))
}

/// IPv4 octets held by an encoded address.
pub open spec fn ip_of(a: Seq<u8>) -> Seq<u8> {
    a.subrange(PEER_KEY_LEN as int, ADDRESS_LEN as int)
}

/// The address that encodes a peer identifier and IPv4 octets.
pub open spec fn encoded_address(p: Seq<char>, ip: Seq<u8>) -> Seq<u8> {
    unhex(p) + ip
}

proof fn lemma_digit(n: nat)
    requires
        n < 16,
    ensures
        is_hex_digit(hex_digit(n)),
        hex_value(hex_digit(n)) == n,
{
}

proof fn lemma_value(c: char)
    requires
        is_hex_digit(c),
    ensures
        hex_value(c) < 16,
        hex_digit(hex_value(c)) == c,
{
}

proof fn lemma_hex_len(s: Seq<u8>)
    ensures
        hex_of(s).len() == 2 * s.len(),
    decreases s.len(),
{
    if s.len() > 0 {
        lemma_hex_len(s.drop_last());
    }
}

proof fn lemma_hex_digits(s: Seq<u8>)
    ensures
        forall|k: int| 0 <= k < hex_of(s).len() ==> is_hex_digit(#[trigger] hex_of(s)[k]),
    decreases s.len(),
{
    if s.len() > 0 {
        let h0 = hex_of(s.drop_last());
        lemma_hex_digits(s.drop_last());
        lemma_digit(s.last() as nat / 16);
        lemma_digit(s.last() as nat % 16);
        assert forall|k: int| 0 <= k < hex_of(s).len() implies is_hex_digit(#[trigger] hex_of(s)[k]) by {
            if k < h0.len() {
                assert(hex_of(s)[k] == h0[k]);
            }
        }
    }
}

proof fn lemma_unhex_len(p: Seq<char>)
    requires
        p.len() % 2 == 0,
    ensures
        2 * unhex(p).len() == p.len(),
    decreases p.len(),
{
    if p.len() >= 2 {
        lemma_unhex_len(p.subrange(0, p.len() - 2));
    }
}

proof fn lemma_unhex_hex(s: Seq<u8>)
    ensures
        unhex(hex_of(s)) == s,
    decreases s.len(),
{
    if s.len() > 0 {
        let b = s.last() as nat;
        lemma_unhex_hex(s.drop_last());
        lemma_hex_len(s.drop_last());
        lemma_digit(b / 16);
        lemma_digit(b % 16);
        let h = hex_of(s);
        assert(h.subrange(0, h.len() - 2) =~= hex_of(s.drop_last()));
        assert(s.drop_last().push(s.last()) =~= s);
    }
}

proof fn lemma_hex_unhex(p: Seq<char>)
    requires
        p.len() % 2 == 0,
        forall|k: int| 0 <= k < p.len() ==> is_hex_digit(#[trigger] p[k]),
    ensures
        hex_of(unhex(p)) == p,
    decreases p.len(),
{
    if p.len() >= 2 {
        let q = p.subrange(0, p.len() - 2);
        assert forall|k: int| 0 <= k < q.len() implies is_hex_digit(#[trigger] q[k]) by {
            assert(q[k] == p[k]);
        }
        lemma_hex_unhex(q);
        let hi = p[p.len() - 2];
        let lo = p[p.len() - 1];
        lemma_value(hi);
        lemma_value(lo);
        let vh = hex_value(hi);
        let vl = hex_value(lo);
        let b = (vh * 16 + vl) as u8;
        assert(b as nat / 16 == vh && b as nat % 16 == vl) by (nonlinear_arith)
            requires
                vh < 16,
                vl < 16,
                b as nat == vh * 16 + vl,
        ;
        let u = unhex(p);
        assert(u.drop_last() =~= unhex(q));
        assert(p =~= q.push(hi).push(lo));
    }
}

/// Encoding the decoded parts of any well-sized address gives the address back.
pub proof fn law_address_decode_encode(a: Seq<u8>)
    requires
        a.len() == ADDRESS_LEN,
    ensures
        valid_peer_id(peer_id_of(a)),
        encoded_address(peer_id_of(a), ip_of(a)) == a,
{
    let key = a.subrange(0, PEER_KEY_LEN as int);
    lemma_hex_len(key);
    lemma_hex_digits(key);
    lemma_unhex_hex(key);
    assert(key + ip_of(a) =~= a);
}

/// Decoding the encoding of a valid peer identifier and IPv4 octets gives them back.
pub proof fn law_address_encode_decode(p: Seq<char>, ip: Seq<u8>)
    requires
        valid_peer_id(p),
        ip.len() == 4,
    ensures
        encoded_address(p, ip).len() == ADDRESS_LEN,
        peer_id_of(encoded_address(p, ip)) == p,
        ip_of(encoded_address(p, ip)) == ip,
{
    lemma_unhex_len(p);
    lemma_hex_unhex(p);
    let e = encoded_address(p, ip);
    assert(e.subrange(0, PEER_KEY_LEN as int) =~= unhex(p));
    assert(e.subrange(PEER_KEY_LEN as int, ADDRESS_LEN as int) =~= ip);
}

/// Relies on `String::push`: appends one character.
#[verifier::external_body]
fn push_char(s: &mut String, c: char)
    ensures
        final(s)@ == old(s)@.push(c),
{
    s.push(c)
}

fn digit(n: u8) -> (c: char)
    requires
        n < 16,
    ensures
        c == hex_digit(n as nat),
{
    if n < 10 {
        (n + 48) as char
    } else {
        (n + 87) as char
    }
}

fn value(c: char) -> (v: u8)
    requires
        is_hex_digit(c),
    ensures
        v == hex_value(c),
{
    if c <= '9' {
        (c as u32 - 48) as u8
    } else {
        (c as u32 - 87) as u8
    }
}

/// Splits an encoded peer address into the peer identifier and the IPv4 octets.
pub fn decode_address(a: &Vec<u8>) -> (r: Result<(String, Ipv4Octets), AddressError>)
    ensures
        match r {
            Ok((p, ip)) => a@.len() == ADDRESS_LEN && p@ == peer_id_of(a@) && ip@ == ip_of(a@),
            Err(e) => a@.len() != ADDRESS_LEN && e == AddressError::WrongLength,
        },
{
    if a.len() != ADDRESS_LEN {
        return Err(AddressError::WrongLength);
    }
    let mut p = String::new();
    let mut i: usize = 0;
    while i < PEER_KEY_LEN
        invariant
            a@.len() == ADDRESS_LEN,
            0 <= i <= PEER_KEY_LEN,
            p@ == hex_of(a@.subrange(0, i as int)),
        decreases PEER_KEY_LEN - i,
    {
        let b = a[i];
        push_char(&mut p, digit(b / 16));
        push_char(&mut p, digit(b % 16));
        proof {
            assert(a@.subrange(0, i + 1).drop_last() =~= a@.subrange(0, i as int));
        }
        i = i + 1;
    }
    let ip: Ipv4Octets = [a[20], a[21], a[22], a[23]];
    proof {
        assert(ip@ =~= ip_of(a@));
    }
    Ok((p, ip))
}

/// Joins a peer identifier and IPv4 octets into an encoded peer address.
pub fn encode_address(peer_id: &str, ip: Ipv4Octets) -> (r: Result<Vec<u8>, AddressError>)
    ensures
        match r {
            Ok(a) => valid_peer_id(peer_id@) && a@ == encoded_address(peer_id@, ip@),
            Err(e) => !valid_peer_id(peer_id@) && e == AddressError::MalformedPeerId,
        },
{
    let n = peer_id.unicode_len();
    if n != 2 * PEER_KEY_LEN {
        return Err(AddressError::MalformedPeerId);
    }
    let mut j: usize = 0;
    while j < n
        invariant
            n == peer_id@.len(),
            0 <= j <= n,
            forall|k: int| 0 <= k < j ==> is_hex_digit(#[trigger] peer_id@[k]),
        decreases n - j,
    {
        let c = peer_id.get_char(j);
        if !(('0' <= c && c <= '9') || ('a' <= c && c <= 'f')) {
            return Err(AddressError::MalformedPeerId);
        }
        j = j + 1;
    }
    let mut out: Vec<u8> = Vec::new();
    let mut i: usize = 0;
    while i < PEER_KEY_LEN
        invariant
            n == peer_id@.len() == 2 * PEER_KEY_LEN,
            valid_peer_id(peer_id@),
            0 <= i <= PEER_KEY_LEN,
            out@ == unhex(peer_id@.subrange(0, 2 * i)),
        decreases PEER_KEY_LEN - i,
    {
        let hi = value(peer_id.get_char(2 * i));
        let lo = value(peer_id.get_char(2 * i + 1));
        out.push(hi * 16 + lo);
        proof {
            let q = peer_id@.subrange(0, 2 * i + 2);
            assert(q.subrange(0, q.len() - 2) =~= peer_id@.subrange(0, 2 * i));
        }
        i = i + 1;
    }
    proof {
        assert(peer_id@.subrange(0, 2 * PEER_KEY_LEN) =~= peer_id@);
        assert(unhex(peer_id@) + ip@.subrange(0, 0) =~= unhex(peer_id@));
    }
    let mut k: usize = 0;
    while k < 4
        invariant
            0 <= k <= 4,
            out@ == unhex(peer_id@) + ip@.subrange(0, k as int),
        decreases 4 - k,
    {
        out.push(ip[k]);
        proof {
            assert(ip@.subrange(0, k + 1) =~= ip@.subrange(0, k as int).push(ip@[k as int]));
        }
        k = k + 1;
    }
    proof {
        assert(ip@.subrange(0, 4) =~= ip@);
    }
    Ok(out)
}

} // verus!
