//! The generic primitive decoders: size- and endianness-aware extraction
//! of fixed-width integers from the front of a byte buffer.

use vstd::prelude::*;
use crate::error::Error;
use crate::error::Outcome;
use crate::text::dec_digits;
use crate::text::dec_str_i64;
use crate::text::dec_str_u64;
use crate::text::int_text;
use crate::wire::ByteOrder;

verus! {

/// A fixed-width integer type that the primitive decoders can produce.
/// All conversions are checked against the type's value range: they
/// never truncate and never panic.
pub trait WireInt: Sized {
    /// The smallest value of the type.
    spec fn min_spec() -> int;

    /// The largest value of the type.
    spec fn max_spec() -> int;

    /// The mathematical value of this value.
    spec fn as_math(&self) -> int;

    /// Convert from an unsigned 64-bit reading; `None` when out of range.
    fn of_u64(v: u64) -> (r: Option<Self>)
        ensures
            r is Some <==> Self::min_spec() <= v as int <= Self::max_spec(),
            r matches Some(x) ==> x.as_math() == v as int,
    ;

    /// Convert from a signed 64-bit reading; `None` when out of range.
    fn of_i64(v: i64) -> (r: Option<Self>)
        ensures
            r is Some <==> Self::min_spec() <= v as int <= Self::max_spec(),
            r matches Some(x) ==> x.as_math() == v as int,
    ;

    /// Convert into a 64-bit unsigned value; `None` when negative.
    fn to_u64_checked(&self) -> (r: Option<u64>)
        ensures
            r is Some <==> 0 <= self.as_math(),
            r matches Some(x) ==> x as int == self.as_math(),
    ;

    /// The decimal rendering of this value.
    fn dec_text(&self) -> (r: String)
        ensures
            r@ == int_text(self.as_math()),
    ;
}

impl WireInt for u8 {
    open spec fn min_spec() -> int {
        0
    }

    open spec fn max_spec() -> int {
        u8::MAX as int
    }

    open spec fn as_math(&self) -> int {
        *self as int
    }

    fn of_u64(v: u64) -> (r: Option<u8>) {
        if v <= 0xFF {
            Some(v as u8)
        } else {
            None
        }
    }

    fn of_i64(v: i64) -> (r: Option<u8>) {
        if 0 <= v && v <= 0xFF {
            Some(v as u8)
        } else {
            None
        }
    }

    fn to_u64_checked(&self) -> (r: Option<u64>) {
        Some(*self as u64)
    }

    fn dec_text(&self) -> (r: String) {
        dec_str_u64(*self as u64)
    }
}

impl WireInt for u16 {
    open spec fn min_spec() -> int {
        0
    }

    open spec fn max_spec() -> int {
        u16::MAX as int
    }

    open spec fn as_math(&self) -> int {
        *self as int
    }

    fn of_u64(v: u64) -> (r: Option<u16>) {
        if v <= 0xFF_FF {
            Some(v as u16)
        } else {
            None
        }
    }

    fn of_i64(v: i64) -> (r: Option<u16>) {
        if 0 <= v && v <= 0xFF_FF {
            Some(v as u16)
        } else {
            None
        }
    }

    fn to_u64_checked(&self) -> (r: Option<u64>) {
        Some(*self as u64)
    }

    fn dec_text(&self) -> (r: String) {
        dec_str_u64(*self as u64)
    }
}

impl WireInt for u32 {
    open spec fn min_spec() -> int {
        0
    }

    open spec fn max_spec() -> int {
        u32::MAX as int
    }

    open spec fn as_math(&self) -> int {
        *self as int
    }

    fn of_u64(v: u64) -> (r: Option<u32>) {
        if v <= 0xFF_FF_FF_FF {
            Some(v as u32)
        } else {
            None
        }
    }

    fn of_i64(v: i64) -> (r: Option<u32>) {
        if 0 <= v && v <= 0xFF_FF_FF_FF {
            Some(v as u32)
        } else {
            None
        }
    }

    fn to_u64_checked(&self) -> (r: Option<u64>) {
        Some(*self as u64)
    }

    fn dec_text(&self) -> (r: String) {
        dec_str_u64(*self as u64)
    }
}

impl WireInt for u64 {
    open spec fn min_spec() -> int {
        0
    }

    open spec fn max_spec() -> int {
        u64::MAX as int
    }

    open spec fn as_math(&self) -> int {
        *self as int
    }

    fn of_u64(v: u64) -> (r: Option<u64>) {
        Some(v)
    }

    fn of_i64(v: i64) -> (r: Option<u64>) {
        if 0 <= v {
            Some(v as u64)
        } else {
            None
        }
    }

    fn to_u64_checked(&self) -> (r: Option<u64>) {
        Some(*self)
    }

    fn dec_text(&self) -> (r: String) {
        dec_str_u64(*self)
    }
}

impl WireInt for i8 {
    open spec fn min_spec() -> int {
        i8::MIN as int
    }

    open spec fn max_spec() -> int {
        i8::MAX as int
    }

    open spec fn as_math(&self) -> int {
        *self as int
    }

    fn of_u64(v: u64) -> (r: Option<i8>) {
        if v <= 0x7F {
            Some(v as i8)
        } else {
            None
        }
    }

    fn of_i64(v: i64) -> (r: Option<i8>) {
        if -0x80 <= v && v <= 0x7F {
            Some(v as i8)
        } else {
            None
        }
    }

    fn to_u64_checked(&self) -> (r: Option<u64>) {
        if *self >= 0 {
            Some(*self as u64)
        } else {
            None
        }
    }

    fn dec_text(&self) -> (r: String) {
        dec_str_i64(*self as i64)
    }
}

impl WireInt for i16 {
    open spec fn min_spec() -> int {
        i16::MIN as int
    }

    open spec fn max_spec() -> int {
        i16::MAX as int
    }

    open spec fn as_math(&self) -> int {
        *self as int
    }

    fn of_u64(v: u64) -> (r: Option<i16>) {
        if v <= 0x7F_FF {
            Some(v as i16)
        } else {
            None
        }
    }

    fn of_i64(v: i64) -> (r: Option<i16>) {
        if -0x80_00 <= v && v <= 0x7F_FF {
            Some(v as i16)
        } else {
            None
        }
    }

    fn to_u64_checked(&self) -> (r: Option<u64>) {
        if *self >= 0 {
            Some(*self as u64)
        } else {
            None
        }
    }

    fn dec_text(&self) -> (r: String) {
        dec_str_i64(*self as i64)
    }
}

impl WireInt for i32 {
    open spec fn min_spec() -> int {
        i32::MIN as int
    }

    open spec fn max_spec() -> int {
        i32::MAX as int
    }

    open spec fn as_math(&self) -> int {
        *self as int
    }

    fn of_u64(v: u64) -> (r: Option<i32>) {
        if v <= 0x7F_FF_FF_FF {
            Some(v as i32)
        } else {
            None
        }
    }

    fn of_i64(v: i64) -> (r: Option<i32>) {
        if -0x80_00_00_00 <= v && v <= 0x7F_FF_FF_FF {
            Some(v as i32)
        } else {
            None
        }
    }

    fn to_u64_checked(&self) -> (r: Option<u64>) {
        if *self >= 0 {
            Some(*self as u64)
        } else {
            None
        }
    }

    fn dec_text(&self) -> (r: String) {
        dec_str_i64(*self as i64)
    }
}

impl WireInt for i64 {
    open spec fn min_spec() -> int {
        i64::MIN as int
    }

    open spec fn max_spec() -> int {
        i64::MAX as int
    }

    open spec fn as_math(&self) -> int {
        *self as int
    }

    fn of_u64(v: u64) -> (r: Option<i64>) {
        if v <= 0x7F_FF_FF_FF_FF_FF_FF_FF {
            Some(v as i64)
        } else {
            None
        }
    }

    fn of_i64(v: i64) -> (r: Option<i64>) {
        Some(v)
    }

    fn to_u64_checked(&self) -> (r: Option<u64>) {
        if *self >= 0 {
            Some(*self as u64)
        } else {
            None
        }
    }

    fn dec_text(&self) -> (r: String) {
        dec_str_i64(*self)
    }
}

/// Whether a buffer of `len` bytes is a decodable integer size.
pub open spec fn decodable_len(len: nat) -> bool {
    len == 1 || len == 2 || len == 4 || len == 8
}

/// The message given when a buffer's length is not a decodable size.
pub open spec fn size_error_text(len: nat) -> Seq<char> {
    "Invalid integer size ("@ + dec_digits(len) + " B)"@
}

/// The message given when a decoded value does not fit the caller's type.
pub open spec fn convert_error_text(len: nat) -> Seq<char> {
    "Failed to convert integer ("@ + dec_digits(len) + " B)"@
}

/// The invalid-size outcome for a buffer of `len` bytes.
fn size_error<T>(len: usize) -> (r: Outcome<T>)
    ensures
        (r matches Outcome::<T>::Err(e) && e matches Error::InvalidData(m) && m@
            == size_error_text(len as nat)),
{
    let mut s = String::new();
    s.append("Invalid integer size (");
    let d = dec_str_u64(len as u64);
    s.append(d.as_str());
    s.append(" B)");
    assert(s@ =~= size_error_text(len as nat));
    Err(Error::InvalidData(s))
}

/// The failed-conversion outcome for a buffer of `len` bytes.
fn convert_error<T>(len: usize) -> (r: Outcome<T>)
    ensures
        (r matches Outcome::<T>::Err(e) && e matches Error::InvalidData(m) && m@
            == convert_error_text(len as nat)),
{
    let mut s = String::new();
    s.append("Failed to convert integer (");
    let d = dec_str_u64(len as u64);
    s.append(d.as_str());
    s.append(" B)");
    assert(s@ =~= convert_error_text(len as nat));
    Err(Error::InvalidData(s))
}

/// The value of `bytes` under byte order `E`, read unsigned: the byte
/// itself for a single byte (byte order is irrelevant there), the
/// order's combined value for wider buffers.
pub open spec fn unsigned_reading<E: ByteOrder>(bytes: Seq<u8>) -> int {
    if bytes.len() == 1 {
        bytes[0] as int
    } else {
        E::combined(bytes) as int
    }
}

/// Two's-complement reinterpretation of an unsigned reading `u` at a
/// width that holds `half * 2` distinct values.
pub open spec fn twos_complement(u: int, half: int) -> int {
    if u < half {
        u
    } else {
        u - 2 * half
    }
}

/// The value of `bytes` under byte order `E`, read as a signed
/// two's-complement integer of the buffer's own width.
pub open spec fn signed_reading<E: ByteOrder>(bytes: Seq<u8>) -> int {
    if bytes.len() == 1 {
        twos_complement(bytes[0] as int, 0x80)
    } else if bytes.len() == 2 {
        twos_complement(E::combined(bytes) as int, 0x80_00)
    } else if bytes.len() == 4 {
        twos_complement(E::combined(bytes) as int, 0x80_00_00_00)
    } else {
        twos_complement(E::combined(bytes) as int, 0x80_00_00_00_00_00_00_00)
    }
}

/// Parse an unsigned integer of byte order `E` from a byte buffer.
///
/// The buffer's length picks the width that is read: 1, 2, 4 or 8
/// bytes. Any other length fails with `InvalidData` naming the size,
/// and a value that does not fit in `T` fails with `InvalidData` rather
/// than being truncated.
pub fn unsigned<T: WireInt, E: ByteOrder>(buffer: &[u8]) -> (r: Outcome<T>)
    ensures
        !decodable_len(buffer@.len()) ==> (r matches Outcome::<T>::Err(e) && e
            matches Error::InvalidData(m) && m@ == size_error_text(buffer@.len())),
        decodable_len(buffer@.len()) && T::min_spec() <= unsigned_reading::<E>(buffer@)
            <= T::max_spec() ==> (r matches Outcome::<T>::Ok(t) && t.as_math()
            == unsigned_reading::<E>(buffer@)),
        decodable_len(buffer@.len()) && !(T::min_spec() <= unsigned_reading::<E>(buffer@)
            <= T::max_spec()) ==> (r matches Outcome::<T>::Err(e) && e
            matches Error::InvalidData(m) && m@ == convert_error_text(buffer@.len())),
{
    let len = buffer.len();
    let reading: u64 = if len == 1 {
        buffer[0] as u64
    } else if len == 2 {
        E::read_u16(buffer) as u64
    } else if len == 4 {
        E::read_u32(buffer) as u64
    } else if len == 8 {
        E::read_u64(buffer)
    } else {
        return size_error::<T>(len);
    };
    match T::of_u64(reading) {
        Some(t) => Ok(t),
        None => convert_error::<T>(len),
    }
}

/// Parse a signed two's-complement integer of byte order `E` from a
/// byte buffer.
///
/// The buffer's length picks the width that is read: 1, 2, 4 or 8
/// bytes. Any other length fails with `InvalidData` naming the size,
/// and a value that does not fit in `T` fails with `InvalidData` rather
/// than being truncated.
pub fn signed<T: WireInt, E: ByteOrder>(buffer: &[u8]) -> (r: Outcome<T>)
    ensures
        !decodable_len(buffer@.len()) ==> (r matches Outcome::<T>::Err(e) && e
            matches Error::InvalidData(m) && m@ == size_error_text(buffer@.len())),
        decodable_len(buffer@.len()) && T::min_spec() <= signed_reading::<E>(buffer@)
            <= T::max_spec() ==> (r matches Outcome::<T>::Ok(t) && t.as_math()
            == signed_reading::<E>(buffer@)),
        decodable_len(buffer@.len()) && !(T::min_spec() <= signed_reading::<E>(buffer@)
            <= T::max_spec()) ==> (r matches Outcome::<T>::Err(e) && e
            matches Error::InvalidData(m) && m@ == convert_error_text(buffer@.len())),
{
    let len = buffer.len();
    let reading: i64 = if len == 1 {
        let b = buffer[0];
        if b < 0x80 {
            b as i64
        } else {
            (b as i64) - 0x1_00
        }
    } else if len == 2 {
        let u = E::read_u16(buffer);
        if u < 0x80_00 {
            u as i64
        } else {
            (u as i64) - 0x1_00_00
        }
    } else if len == 4 {
        let u = E::read_u32(buffer);
        if u < 0x80_00_00_00 {
            u as i64
        } else {
            (u as i64) - 0x1_00_00_00_00
        }
    } else if len == 8 {
        let u = E::read_u64(buffer);
        if u < 0x80_00_00_00_00_00_00_00 {
            u as i64
        } else {
            ((u - 0x80_00_00_00_00_00_00_00) as i64) + i64::MIN
        }
    } else {
        return size_error::<T>(len);
    };
    match T::of_i64(reading) {
        Some(t) => Ok(t),
        None => convert_error::<T>(len),
    }
}

} // verus!
