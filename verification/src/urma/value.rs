//! Basic value types.

use vstd::prelude::*;
use vstd::string::*;

use crate::ffi::{urma_eid_t, urma_jetty_id_t};
use crate::text;
use crate::text::push_hex_byte;

verus! {

/// Plain token value agreed by both ends (security credential); this is the
/// `urma_token_t` value, unrelated to the token-id mechanism (which stays
/// disabled, see `RegisteredSeg::register`)
pub const TOKEN_VALUE: u32 = 0xACFE;

pub const DEFAULT_DEPTH: u32 = 64;

/// Poll parameters for completion records: 100 retries x 100ms
pub const POLL_RETRIES: u32 = 100;

/// See [`POLL_RETRIES`]; in milliseconds
pub const POLL_INTERVAL: u64 = 100;

/// 16-byte EID (UB network endpoint identifier)
#[derive(Clone, Copy, PartialEq, Eq, Debug)]
pub struct Eid(pub [u8; 16]);

/// The first `n` pairs of bytes in hexadecimal, with colons between them.
pub open spec fn pairs_text(raw: Seq<u8>, n: nat) -> Seq<char>
    decreases n,
{
    if n == 0 {
        seq![]
    } else {
        let before = pairs_text(raw, (n - 1) as nat);
        (if n == 1 {
            before
        } else {
            before.push(':')
        }) + text::hex_byte(raw[2 * n - 2]) + text::hex_byte(raw[2 * n - 1])
    }
}

fn push_pairs(s: &mut String, raw: &[u8; 16])
    ensures
        final(s)@ == old(s)@ + pairs_text(raw@, 8),
{
    let mut i: usize = 0;
    assert(s@ =~= old(s)@ + pairs_text(raw@, 0));
    while i < 8
        invariant
            i <= 8,
            s@ == old(s)@ + pairs_text(raw@, i as nat),
        decreases 8 - i,
    {
        let ghost before = s@;
        if i != 0 {
            s.push(':');
        }
        push_hex_byte(s, raw[2 * i]);
        push_hex_byte(s, raw[2 * i + 1]);
        i += 1;
        assert(s@ =~= old(s)@ + pairs_text(raw@, i as nat));
    }
}

impl Eid {
    pub fn from_raw(raw: urma_eid_t) -> (r: Self)
        ensures
            r.0 == raw.raw,
    {
        Eid(raw.raw)
    }

    pub fn to_raw(self) -> (r: urma_eid_t)
        ensures
            r.raw == self.0,
    {
        urma_eid_t { raw: self.0 }
    }

    /// The EID as text: eight groups of four hexadecimal digits.
    pub fn to_string(&self) -> (r: String)
        ensures
            r@ == pairs_text(self.0@, 8),
    {
        let mut s = String::new();
        push_pairs(&mut s, &self.0);
        assert(s@ =~= pairs_text(self.0@, 8));
        s
    }
}

impl urma_eid_t {
    /// The raw EID as debug output shows it.
    pub fn to_debug_string(&self) -> (r: String)
        ensures
            r@ == "urma_eid_t("@ + pairs_text(self.raw@, 8) + ")"@,
    {
        let mut s = String::new();
        s.append("urma_eid_t(");
        push_pairs(&mut s, &self.raw);
        s.append(")");
        assert(s@ =~= "urma_eid_t("@ + pairs_text(self.raw@, 8) + ")"@);
        s
    }
}

/// jetty identifier (published to the directory; used by the peer on import)
#[derive(Clone, Copy, Debug)]
pub struct JettyId {
    pub eid: Eid,
    pub uasid: u32,
    pub id: u32,
}

impl JettyId {
    /// The identifier that the library knows as `raw`.
    pub open spec fn of(raw: urma_jetty_id_t) -> JettyId {
        JettyId { eid: Eid(raw.eid.raw), uasid: raw.uasid, id: raw.id }
    }

    /// What the library knows the identifier as.
    pub open spec fn raw(self) -> urma_jetty_id_t {
        urma_jetty_id_t { eid: urma_eid_t { raw: self.eid.0 }, uasid: self.uasid, id: self.id }
    }

    pub fn from_raw(raw: &urma_jetty_id_t) -> (r: Self)
        ensures
            r == JettyId::of(*raw),
    {
        JettyId { eid: Eid::from_raw(raw.eid), uasid: raw.uasid, id: raw.id }
    }

    pub fn to_raw(self) -> (r: urma_jetty_id_t)
        ensures
            r == self.raw(),
    {
        urma_jetty_id_t { eid: self.eid.to_raw(), uasid: self.uasid, id: self.id }
    }
}

/// An identifier survives its way through the library's own form, both ways.
pub proof fn law_jetty_id_round_trip(id: JettyId, raw: urma_jetty_id_t)
    ensures
        JettyId::of(id.raw()) == id,
        JettyId::of(raw).raw() == raw,
{
}

/// Public descriptor of registered memory: published to the directory as-is,
/// for the peer's `Peer::import`
#[derive(Clone, Copy, Debug)]
pub struct SegDesc {
    pub eid: Eid,
    pub uasid: u32,
    pub va: u64,
    pub len: u64,
    /// Raw `urma_seg_attr_t` value: opaque to users, round-tripped to
    /// `Peer::import` together with the descriptor
    pub attr: u32,
    /// Driver-allocated id from the remote's register; the import exchange
    /// resolves the segment by it, so it travels with the descriptor as-is
    pub token_id: u32,
}

} // verus!
