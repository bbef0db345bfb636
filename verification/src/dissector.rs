//! The dissector contract that every protocol decoder satisfies, and the
//! dissector of last resort that stores raw bytes verbatim.

use vstd::prelude::*;
use vstd::slice::slice_to_vec;
use crate::error::Outcome;
use crate::value::NamedValue;
use crate::value::Val;

verus! {

/// A description of a protocol, including code that can parse it.
pub trait Protocol {
    /// A short name that can fit in a user display, e.g. "IPv6".
    fn short_name(&self) -> &'static str;

    /// A complete, unambiguous protocol name, e.g.
    /// "Internet Protocol version 6".
    fn full_name(&self) -> &'static str;

    /// Dissect some bytes according to the protocol. Failure is
    /// reported through the outcome, never by panicking.
    fn dissect(&self, data: &[u8]) -> Outcome<Val>;
}

/// Dissector of last resort: store raw bytes without interpretation.
pub struct RawBytes {
    short_name: &'static str,
    full_name: &'static str,
}

/// Whether `r` is the tree that the raw-bytes dissector owes for input
/// `data`: one `Subpacket` whose single child, named `raw data`, holds
/// all of the input verbatim.
pub open spec fn is_raw_dissection(r: Outcome<Val>, data: Seq<u8>) -> bool {
    &&& r matches Outcome::<Val>::Ok(v)
    &&& v matches Val::Subpacket(cs)
    &&& cs@.len() == 1
    &&& cs@[0].0@ == "raw data"@
    &&& cs@[0].1 matches Outcome::<Val>::Ok(b)
    &&& b matches Val::Bytes(bytes)
    &&& bytes@ == data
}

impl RawBytes {
    /// The short name this dissector was built with.
    pub closed spec fn spec_short_name(&self) -> Seq<char> {
        self.short_name@
    }

    /// The full name this dissector was built with.
    pub closed spec fn spec_full_name(&self) -> Seq<char> {
        self.full_name@
    }

    /// Wrap a (short name, full name) pair into a boxed raw-bytes
    /// dissector.
    pub fn boxed(short_name: &'static str, full_name: &'static str) -> (r: Box<RawBytes>)
        ensures
            r.spec_short_name() == short_name@,
            r.spec_full_name() == full_name@,
    {
        Box::new(RawBytes { short_name: short_name, full_name: full_name })
    }

    /// The dissector standing for a protocol identifier that no decoder
    /// was found for: the short name is the sentinel "UNKNOWN", the full
    /// name is the identifier's description.
    pub fn unknown_protocol(description: &'static str) -> (r: Box<RawBytes>)
        ensures
            r.spec_short_name() == "UNKNOWN"@,
            r.spec_full_name() == description@,
    {
        Box::new(RawBytes { short_name: "UNKNOWN", full_name: description })
    }
}

impl Protocol for RawBytes {
    fn short_name(&self) -> (r: &'static str)
        ensures
            r@ == self.spec_short_name(),
    {
        self.short_name
    }

    fn full_name(&self) -> (r: &'static str)
        ensures
            r@ == self.spec_full_name(),
    {
        self.full_name
    }

    /// Wrap the whole input, whatever it holds, as the one child of a
    /// fresh `Subpacket`: this dissection cannot fail.
    fn dissect(&self, data: &[u8]) -> (r: Outcome<Val>)
        ensures
            is_raw_dissection(r, data@),
    {
        let payload: Outcome<Val> = Ok(Val::Bytes(slice_to_vec(data)));
        let mut children: Vec<NamedValue> = Vec::new();
        children.push(("raw data", payload));
        Ok(Val::Subpacket(children))
    }
}

} // verus!
