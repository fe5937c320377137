//! Wire text forms of the identifier types.
//!
//! A `NodeId` is written `n<uint>`, a `ClientId` `c<uint>`, and a store
//! peer `seq-kv` or `lin-kv`; these three forms exhaust the legal texts of
//! a `PeerId` field. The mapping is total on values and is proved to round
//! trip: parsing the printed form of any peer id gives that id back.
//! Parsing an ill-formed text fails rather than succeeding silently.

use vstd::prelude::*;

use crate::ids::{ClientId, NodeId, ParseStoreError, PeerId, Store};

verus! {

/// Largest value whose product with ten still fits in a `u64`.
pub const U64_MAX_OVER_TEN: u64 = 1844674407370955161;

pub open spec fn is_dec_digit(b: u8) -> bool {
    48 <= b <= 57
}

pub open spec fn digit_val(b: u8) -> nat
    recommends
        is_dec_digit(b),
{
    (b - 48) as nat
}

pub open spec fn all_dec_digits(s: Seq<u8>) -> bool {
    forall|i: int| 0 <= i < s.len() ==> is_dec_digit(#[trigger] s[i])
}

/// Numeric value of a sequence of decimal digit bytes, most significant
/// digit first.
pub open spec fn dec_val(s: Seq<u8>) -> nat
    decreases s.len(),
{
    if s.len() == 0 {
        0
    } else {
        dec_val(s.drop_last()) * 10 + digit_val(s.last())
    }
}

/// The canonical decimal digit bytes of `n`: no leading zero except for
/// zero itself.
pub open spec fn dec_of(n: nat) -> Seq<u8>
    decreases n,
{
    if n < 10 {
        seq![(n + 48) as u8]
    } else {
        dec_of(n / 10).push(((n % 10) + 48) as u8)
    }
}

/// A digit string that parses as a `u64`: nonempty, digits only, value in
/// range.
pub open spec fn valid_dec_u64(s: Seq<u8>) -> bool {
    s.len() > 0 && all_dec_digits(s) && dec_val(s) <= u64::MAX
}

pub open spec fn wire_of_node(n: NodeId) -> Seq<u8> {
    seq![110u8] + dec_of(n.0 as nat)
}

pub open spec fn wire_of_client(c: ClientId) -> Seq<u8> {
    seq![99u8] + dec_of(c.0 as nat)
}

pub open spec fn wire_of_store(s: Store) -> Seq<u8> {
    match s {
        Store::SeqKv => seq![115u8, 101u8, 113u8, 45u8, 107u8, 118u8],
        Store::LinKv => seq![108u8, 105u8, 110u8, 45u8, 107u8, 118u8],
    }
}

pub open spec fn wire_of_peer(p: PeerId) -> Seq<u8> {
    match p {
        PeerId::Node(n) => wire_of_node(n),
        PeerId::Client(c) => wire_of_client(c),
        PeerId::Store(s) => wire_of_store(s),
    }
}

/// The peer id a wire text denotes, if any. Node and client forms carry
/// their prefix letter; anything else must name a store peer exactly.
pub open spec fn peer_of_wire(s: Seq<u8>) -> Option<PeerId> {
    if s.len() > 0 && s[0] == 110u8 && valid_dec_u64(s.skip(1)) {
        Some(PeerId::Node(NodeId(dec_val(s.skip(1)) as u64)))
    } else if s.len() > 0 && s[0] == 99u8 && valid_dec_u64(s.skip(1)) {
        Some(PeerId::Client(ClientId(dec_val(s.skip(1)) as u64)))
    } else if s == wire_of_store(Store::SeqKv) {
        Some(PeerId::Store(Store::SeqKv))
    } else if s == wire_of_store(Store::LinKv) {
        Some(PeerId::Store(Store::LinKv))
    } else {
        None
    }
}

fn push_dec(n: u64, out: &mut Vec<u8>)
    ensures
        final(out)@ == old(out)@ + dec_of(n as nat),
    decreases n,
{
    if n < 10 {
        out.push((n + 48) as u8);
        proof {
            assert(old(out)@.push((n + 48) as u8) =~= old(out)@ + dec_of(n as nat));
        }
    } else {
        push_dec(n / 10, out);
        out.push(((n % 10) + 48) as u8);
        proof {
            assert((old(out)@ + dec_of((n / 10) as nat)).push(((n % 10) + 48) as u8) =~= old(
                out,
            )@ + dec_of(n as nat));
        }
    }
}

/// Prints `n<uint>` for a node id.
pub fn node_wire(n: NodeId) -> (r: Vec<u8>)
    ensures
        r@ == wire_of_node(n),
{
    let mut out: Vec<u8> = Vec::new();
    out.push(110u8);
    push_dec(n.0, &mut out);
    proof {
        assert(Seq::<u8>::empty().push(110u8) =~= seq![110u8]);
    }
    out
}

/// Prints `c<uint>` for a client id.
pub fn client_wire(c: ClientId) -> (r: Vec<u8>)
    ensures
        r@ == wire_of_client(c),
{
    let mut out: Vec<u8> = Vec::new();
    out.push(99u8);
    push_dec(c.0, &mut out);
    proof {
        assert(Seq::<u8>::empty().push(99u8) =~= seq![99u8]);
    }
    out
}

/// Prints the well-known name of a store peer.
pub fn store_wire(s: Store) -> (r: Vec<u8>)
    ensures
        r@ == wire_of_store(s),
{
    let mut out: Vec<u8> = Vec::new();
    match s {
        Store::SeqKv => {
            out.push(115u8);
            out.push(101u8);
            out.push(113u8);
        },
        Store::LinKv => {
            out.push(108u8);
            out.push(105u8);
            out.push(110u8);
        },
    }
    out.push(45u8);
    out.push(107u8);
    out.push(118u8);
    proof {
        assert(out@ =~= wire_of_store(s));
    }
    out
}

/// Prints the wire form of any peer id.
pub fn peer_wire(p: PeerId) -> (r: Vec<u8>)
    ensures
        r@ == wire_of_peer(p),
{
    match p {
        PeerId::Node(n) => node_wire(n),
        PeerId::Client(c) => client_wire(c),
        PeerId::Store(s) => store_wire(s),
    }
}

proof fn lemma_dec_val_take_succ(t: Seq<u8>, j: int)
    requires
        0 <= j < t.len(),
    ensures
        dec_val(t.take(j + 1)) == dec_val(t.take(j)) * 10 + digit_val(t[j]),
{
    assert(t.take(j + 1).drop_last() =~= t.take(j));
    assert(t.take(j + 1).last() == t[j]);
}

proof fn lemma_dec_val_take_le(t: Seq<u8>, j: int)
    requires
        0 <= j <= t.len(),
    ensures
        dec_val(t.take(j)) <= dec_val(t),
    decreases t.len() - j,
{
    if j == t.len() {
        assert(t.take(j) =~= t);
    } else {
        lemma_dec_val_take_succ(t, j);
        lemma_dec_val_take_le(t, j + 1);
    }
}

/// Parses the decimal digits of `s` from index `start` to the end as a
/// `u64`. Fails exactly when that range is empty, holds a non-digit byte,
/// or denotes a value above `u64::MAX`.
pub fn parse_dec_u64(s: &[u8], start: usize) -> (r: Option<u64>)
    requires
        start <= s@.len(),
    ensures
        r is Some <==> valid_dec_u64(s@.skip(start as int)),
        r matches Some(v) ==> v == dec_val(s@.skip(start as int)),
{
    let ghost t = s@.skip(start as int);
    if start == s.len() {
        return None;
    }
    let mut acc: u64 = 0;
    let mut i: usize = start;
    while i < s.len()
        invariant
            start <= i <= s@.len(),
            t == s@.skip(start as int),
            acc == dec_val(t.take(i - start)),
            all_dec_digits(t.take(i - start)),
        decreases s@.len() - i,
    {
        let b = s[i];
        assert(t[i - start] == b);
        if b < 48 || b > 57 {
            assert(!is_dec_digit(t[i - start]));
            return None;
        }
        let d = (b - 48) as u64;
        proof {
            lemma_dec_val_take_succ(t, i - start);
            assert(t.take(i - start + 1).take(i - start) =~= t.take(i - start));
        }
        if acc > U64_MAX_OVER_TEN || (acc == U64_MAX_OVER_TEN && d > 5) {
            proof {
                assert(dec_val(t.take(i - start + 1)) > u64::MAX);
                lemma_dec_val_take_le(t, i - start + 1);
            }
            return None;
        }
        acc = acc * 10 + d;
        i = i + 1;
        proof {
            assert(all_dec_digits(t.take(i - start))) by {
                assert(forall|k: int|
                    0 <= k < i - start ==> is_dec_digit(#[trigger] t.take(i - start)[k]));
            }
        }
    }
    proof {
        assert(t.take(s@.len() - start) =~= t);
    }
    Some(acc)
}

proof fn lemma_dec_of_ok(n: nat)
    ensures
        dec_of(n).len() >= 1,
        all_dec_digits(dec_of(n)),
        dec_val(dec_of(n)) == n,
    decreases n,
{
    if n < 10 {
        let d = dec_of(n);
        assert(d =~= seq![(n + 48) as u8]);
        assert(d.drop_last() =~= Seq::<u8>::empty());
        assert(d.last() == (n + 48) as u8);
        assert(dec_val(d) == dec_val(d.drop_last()) * 10 + digit_val(d.last()));
        assert(dec_val(Seq::<u8>::empty()) == 0);
        assert(digit_val((n + 48) as u8) == n);
    } else {
        lemma_dec_of_ok(n / 10);
        vstd::arithmetic::div_mod::lemma_fundamental_div_mod(n as int, 10);
        let d = dec_of(n);
        assert(d == dec_of(n / 10).push(((n % 10) + 48) as u8));
        assert(d.drop_last() =~= dec_of(n / 10));
        assert(d.last() == ((n % 10) + 48) as u8);
        assert(dec_val(d) == dec_val(dec_of(n / 10)) * 10 + digit_val(((n % 10) + 48) as u8));
        assert(digit_val(((n % 10) + 48) as u8) == n % 10);
        assert(dec_val(d) == (n / 10) * 10 + n % 10);
        assert(forall|i: int|
            0 <= i < dec_of(n).len() ==> is_dec_digit(#[trigger] dec_of(n)[i]));
    }
}

/// Parses the well-known name of a store peer.
pub fn parse_store(s: &[u8]) -> (r: Result<Store, ParseStoreError>)
    ensures
        match r {
            Ok(st) => s@ == wire_of_store(st),
            Err(_) => s@ != wire_of_store(Store::SeqKv) && s@ != wire_of_store(Store::LinKv),
        },
{
    if s.len() == 6 {
        if s[0] == 115 && s[1] == 101 && s[2] == 113 && s[3] == 45 && s[4] == 107 && s[5] == 118 {
            proof {
                assert(s@ =~= wire_of_store(Store::SeqKv));
            }
            return Ok(Store::SeqKv);
        }
        if s[0] == 108 && s[1] == 105 && s[2] == 110 && s[3] == 45 && s[4] == 107 && s[5] == 118 {
            proof {
                assert(s@ =~= wire_of_store(Store::LinKv));
            }
            return Ok(Store::LinKv);
        }
    }
    Err(ParseStoreError)
}

impl core::str::FromStr for Store {
    type Err = ParseStoreError;

    fn from_str(s: &str) -> (r: Result<Store, ParseStoreError>) {
        parse_store(s.as_bytes())
    }
}

/// Parses any legal wire form of a peer id: node prefix first, then client
/// prefix, then the store names; every other text is rejected.
pub fn parse_peer_id(s: &[u8]) -> (r: Result<PeerId, ParseStoreError>)
    ensures
        match r {
            Ok(p) => peer_of_wire(s@) == Some(p),
            Err(_) => peer_of_wire(s@) is None,
        },
{
    if s.len() > 0 {
        let b0 = s[0];
        if b0 == 110 {
            match parse_dec_u64(s, 1) {
                Some(v) => {
                    return Ok(PeerId::Node(NodeId::new(v)));
                },
                None => {
                    return Err(ParseStoreError);
                },
            }
        }
        if b0 == 99 {
            match parse_dec_u64(s, 1) {
                Some(v) => {
                    return Ok(PeerId::Client(ClientId::new(v)));
                },
                None => {
                    return Err(ParseStoreError);
                },
            }
        }
    }
    match parse_store(s) {
        Ok(st) => Ok(PeerId::Store(st)),
        Err(e) => Err(e),
    }
}

/// The identifier wire mapping is bidirectional: parsing the printed form
/// of any peer id yields that peer id back.
pub proof fn lemma_peer_wire_round_trip(p: PeerId)
    ensures
        peer_of_wire(wire_of_peer(p)) == Some(p),
{
    match p {
        PeerId::Node(n) => {
            lemma_dec_of_ok(n.0 as nat);
            assert(wire_of_node(n)[0] == 110u8);
            assert(wire_of_node(n).skip(1) =~= dec_of(n.0 as nat));
        },
        PeerId::Client(c) => {
            lemma_dec_of_ok(c.0 as nat);
            assert(wire_of_client(c)[0] == 99u8);
            assert(wire_of_client(c).skip(1) =~= dec_of(c.0 as nat));
        },
        PeerId::Store(st) => {
            assert(wire_of_store(st)[0] != 110u8 && wire_of_store(st)[0] != 99u8);
        },
    }
}

} // verus!
