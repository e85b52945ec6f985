//! Turning raw notifications into typed change events, and picking the
//! configured interface's address out of them.

use vstd::prelude::*;

use crate::addr::Ipv4;
use crate::decode::{decoded, Address, Attr, DecodeError};

verus! {

/// One raw notification as the transport hands it over: an address was added,
/// an address was deleted, or something the monitor does not care about.
#[derive(Clone, Debug, PartialEq, Eq)]
pub enum RawMessage {
    NewAddr(Vec<Attr>),
    DelAddr(Vec<Attr>),
    Other,
}

/// A decoded change event: which address, and whether it is new or deleted.
#[derive(Clone, Debug, PartialEq, Eq)]
pub struct Message {
    pub addr: Address,
    pub new: bool,
}

/// What a raw notification decodes to: address bits, label, and whether the
/// address is new — or the error that makes the record a skip.
pub open spec fn spec_message(m: RawMessage) -> Result<(int, Seq<char>, bool), DecodeError> {
    match m {
        RawMessage::NewAddr(attrs) => match decoded(attrs@) {
            Some(p) => Ok((p.0, p.1, true)),
            None => Err(DecodeError::NotFound),
        },
        RawMessage::DelAddr(attrs) => match decoded(attrs@) {
            Some(p) => Ok((p.0, p.1, false)),
            None => Err(DecodeError::NotFound),
        },
        RawMessage::Other => Err(DecodeError::InvalidData),
    }
}

impl Message {
    /// Gets the address.
    pub fn addr(&self) -> (r: &Address)
        ensures
            r == self.addr,
    {
        &self.addr
    }

    /// Checks whether the address is new or deleted.
    pub fn is_new(&self) -> (r: bool)
        ensures
            r == self.new,
    {
        self.new
    }

    /// Decodes one raw notification into a change event.
    ///
    /// Add and delete records decode through [`Address::decode`]; any other
    /// record kind is `InvalidData`. A failed decode is the per-record error,
    /// never a panic: callers skip it and read on.
    pub fn try_from_raw(m: &RawMessage) -> (r: Result<Message, DecodeError>)
        ensures
            match r {
                Ok(msg) => spec_message(*m) matches Ok(p) && p.0 == msg.addr.addr.bits
                    && p.1 == msg.addr.label@ && p.2 == msg.new,
                Err(e) => spec_message(*m) matches Err(e2) && e2 == e,
            },
    {
        match m {
            RawMessage::NewAddr(attrs) => match Address::decode(attrs) {
                Ok(ad) => Ok(Message { addr: ad, new: true }),
                Err(e) => Err(e),
            },
            RawMessage::DelAddr(attrs) => match Address::decode(attrs) {
                Ok(ad) => Ok(Message { addr: ad, new: false }),
                Err(e) => Err(e),
            },
            RawMessage::Other => Err(DecodeError::InvalidData),
        }
    }
}

/// The address of a record reported under the watched interface's label, or
/// nothing where the labels differ.
pub fn parse_addr(am: &Address, if_name: &String) -> (r: Option<Ipv4>)
    ensures
        r == if am.label@ == if_name@ {
            Some(am.addr)
        } else {
            None::<Ipv4>
        },
{
    if am.label == *if_name {
        Some(am.addr)
    } else {
        None
    }
}

/// The address of the first record labelled with the watched interface.
pub open spec fn spec_find_addr(addrs: Seq<Address>, if_name: Seq<char>) -> Option<Ipv4>
    decreases addrs.len(),
{
    if addrs.len() == 0 {
        None
    } else if addrs[0].label@ == if_name {
        Some(addrs[0].addr)
    } else {
        spec_find_addr(addrs.drop_first(), if_name)
    }
}

/// Scans an address enumeration for the first entry reported under the
/// watched interface's label.
pub fn find_addr(addrs: &Vec<Address>, if_name: &String) -> (r: Option<Ipv4>)
    ensures
        r == spec_find_addr(addrs@, if_name@),
{
    proof {
        assert(addrs@.skip(0) =~= addrs@);
    }
    let mut i: usize = 0;
    while i < addrs.len()
        invariant
            i <= addrs.len(),
            spec_find_addr(addrs@, if_name@) == spec_find_addr(addrs@.skip(i as int), if_name@),
        decreases addrs.len() - i,
    {
        proof {
            assert(addrs@.skip(i as int)[0] == addrs@[i as int]);
            assert(addrs@.skip(i as int).drop_first() =~= addrs@.skip(i as int + 1));
        }
        if let Some(a) = parse_addr(&addrs[i], if_name) {
            return Some(a);
        }
        i = i + 1;
    }
    None
}

} // verus!
