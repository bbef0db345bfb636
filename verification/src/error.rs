//! The failure vocabulary of the dissection framework.
//!
//! Errors are plain data: a dissector never aborts on malformed input, it
//! returns one of these values (or stores it inside the value tree).

use vstd::prelude::*;
use crate::text::dec_digits;
use crate::text::dec_str_u64;
use crate::value::Val;

verus! {

/// An error related to packet dissection (underflow, bad value, etc.).
#[derive(Clone, Debug)]
pub enum Error {
    /// The buffer is shorter than the field being decoded requires.
    Underflow { expected: usize, have: usize, subject: String },
    /// A value is present but semantically invalid.
    InvalidData(String),
}

/// The result of a dissection operation: a payload (a parsed value by
/// default), or the error that stopped this operation (and only this
/// operation).
pub type Outcome<T = Val> = Result<T, Error>;

/// The deterministic one-line rendering of an error.
pub open spec fn error_text(e: Error) -> Seq<char> {
    match e {
        Error::Underflow { expected, have, subject } => "underflow: "@ + subject@
            + " expected "@ + dec_digits(expected as nat) + " B, have "@ + dec_digits(
            have as nat,
        ),
        Error::InvalidData(msg) => "invalid data: "@ + msg@,
    }
}

impl Error {
    /// Build an `Underflow` outcome for a too-short buffer.
    pub fn underflow<T>(expected: usize, have: usize, subject: &str) -> (r: Outcome<T>)
        ensures
            (r matches Outcome::<T>::Err(e) && e matches Error::Underflow {
                expected: x,
                have: h,
                subject: s,
            } && x == expected && h == have && s@ == subject@),
    {
        Err(
            Error::Underflow {
                expected: expected,
                have: have,
                subject: subject.to_owned(),
            },
        )
    }

    /// Build an `InvalidData` outcome carrying `message`.
    pub fn inval<T>(message: &str) -> (r: Outcome<T>)
        ensures
            (r matches Outcome::<T>::Err(e) && e matches Error::InvalidData(m) && m@
                == message@),
    {
        Err(Error::InvalidData(message.to_owned()))
    }

    /// The rendered error message, e.g.
    /// `underflow: length field expected 4 B, have 2`.
    pub fn message(&self) -> (r: String)
        ensures
            r@ == error_text(*self),
    {
        match self {
            Error::Underflow { expected, have, subject } => {
                let mut s = String::new();
                s.append("underflow: ");
                s.append(subject.as_str());
                s.append(" expected ");
                let ed = dec_str_u64(*expected as u64);
                s.append(ed.as_str());
                s.append(" B, have ");
                let hd = dec_str_u64(*have as u64);
                s.append(hd.as_str());
                assert(s@ =~= error_text(*self));
                s
            },
            Error::InvalidData(msg) => {
                let mut s = String::new();
                s.append("invalid data: ");
                s.append(msg.as_str());
                assert(s@ =~= error_text(*self));
                s
            },
        }
    }
}

} // verus!
