//! Participant addresses: a tagged value holding either a 2-byte short
//! address or an 8-byte extended address. Equality is by tag and bytes.

use vstd::prelude::*;

verus! {

/// A UWB participant address. The bytes are held little-endian in an
/// unsigned value of the exact width: two bytes for a short address,
/// eight for an extended address.
#[derive(Clone, Copy, PartialEq, Eq, Structural, Debug, Hash)]
pub enum MacAddress {
    Short(u16),
    Extended(u64),
}

impl MacAddress {
    /// The short address value, when the tag is short.
    pub open spec fn short_value(self) -> u16
        recommends
            self is Short,
    {
        match self {
            MacAddress::Short(v) => v,
            MacAddress::Extended(v) => v as u16,
        }
    }

    /// Default address a device carries before the host initializes it,
    /// derived from its connection handle.
    pub fn from_handle(handle: usize) -> (r: MacAddress)
        requires
            handle < 0x10000,
        ensures
            r == MacAddress::Short(handle as u16),
    {
        MacAddress::Short(handle as u16)
    }

    /// The address bytes, least significant first: two for a short
    /// address, eight for an extended one.
    pub fn le_bytes(&self) -> (r: Vec<u8>)
        ensures
            r@ == self.spec_le_bytes(),
    {
        let mut out: Vec<u8> = Vec::new();
        match self {
            MacAddress::Short(v) => {
                out.push((*v & 0xff) as u8);
                out.push((*v >> 8) as u8);
                proof {
                    assert(out@ =~= self.spec_le_bytes());
                }
            }
            MacAddress::Extended(v) => {
                out.push((*v & 0xff) as u8);
                out.push(((*v >> 8) & 0xff) as u8);
                out.push(((*v >> 16) & 0xff) as u8);
                out.push(((*v >> 24) & 0xff) as u8);
                out.push(((*v >> 32) & 0xff) as u8);
                out.push(((*v >> 40) & 0xff) as u8);
                out.push(((*v >> 48) & 0xff) as u8);
                out.push(((*v >> 56) & 0xff) as u8);
                proof {
                    assert(out@ =~= self.spec_le_bytes());
                }
            }
        }
        out
    }

    /// Whether `list` holds this address.
    pub fn is_in(&self, list: &Vec<MacAddress>) -> (r: bool)
        ensures
            r == list@.contains(*self),
    {
        let mut i: usize = 0;
        while i < list.len()
            invariant
                i <= list@.len(),
                forall|j: int| 0 <= j < i ==> list@[j] != *self,
            decreases list@.len() - i,
        {
            if list[i] == *self {
                proof {
                    assert(list@.contains(*self)) by {
                        assert(list@[i as int] == *self);
                    }
                }
                return true;
            }
            i += 1;
        }
        proof {
            assert(!list@.contains(*self));
        }
        false
    }

    /// The address bytes, least significant first.
    pub open spec fn spec_le_bytes(self) -> Seq<u8> {
        match self {
            MacAddress::Short(v) => seq![
                (v & 0xff) as u8,
                (v >> 8) as u8,
            ],
            MacAddress::Extended(v) => seq![
                (v & 0xff) as u8,
                ((v >> 8) & 0xff) as u8,
                ((v >> 16) & 0xff) as u8,
                ((v >> 24) & 0xff) as u8,
                ((v >> 32) & 0xff) as u8,
                ((v >> 40) & 0xff) as u8,
                ((v >> 48) & 0xff) as u8,
                ((v >> 56) & 0xff) as u8,
            ],
        }
    }
}

} // verus!
