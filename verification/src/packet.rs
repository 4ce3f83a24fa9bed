//! Packet-type tags of the multi-packet upload protocol, carried in P1.

use vstd::prelude::*;

verus! {

/// How to interpret a data packet when uploading a payload over multiple
/// host round-trips: `Init` opens a session, `Add` continues it, `Last`
/// closes it and yields the reassembled payload.
#[derive(Clone, Copy, PartialEq, Eq, Structural, Debug)]
pub enum PacketType {
    Init,
    Add,
    Last,
}

impl PacketType {
    /// Wire value of this packet type, as carried in P1.
    pub open spec fn spec_to_u8(self) -> u8 {
        match self {
            PacketType::Init => 0u8,
            PacketType::Add => 1u8,
            PacketType::Last => 2u8,
        }
    }

    #[verifier::when_used_as_spec(spec_to_u8)]
    pub fn to_u8(self) -> (r: u8)
        ensures
            r == self.spec_to_u8(),
    {
        match self {
            PacketType::Init => 0,
            PacketType::Add => 1,
            PacketType::Last => 2,
        }
    }

    /// Parse a P1 byte; every value above 2 is rejected.
    pub fn new(p1: u8) -> (r: Result<PacketType, ()>)
        ensures
            r matches Ok(p) ==> p.spec_to_u8() == p1,
            r is Err <==> p1 > 2,
    {
        match p1 {
            0 => Ok(PacketType::Init),
            1 => Ok(PacketType::Add),
            2 => Ok(PacketType::Last),
            _ => Err(()),
        }
    }

    pub fn is_init(&self) -> (r: bool)
        ensures
            r == (*self == PacketType::Init),
    {
        matches!(self, PacketType::Init)
    }

    pub fn is_last(&self) -> (r: bool)
        ensures
            r == (*self == PacketType::Last),
    {
        matches!(self, PacketType::Last)
    }

    pub fn is_next(&self) -> (r: bool)
        ensures
            r == (*self == PacketType::Add),
    {
        !self.is_init() && !self.is_last()
    }
}

} // verus!
