//! The value codec: per value shape, converts between the kernel's raw byte
//! buffer and a typed value, little-endian as on the target hardware.
//!
//! Fixed-size scalars demand a buffer of exactly their width. Strings are
//! truncated at the first terminator byte, never merely the last. Arrays
//! decode elementwise; leftover bytes are a kernel/schema mismatch and fail
//! rather than being silently dropped.

use vstd::bytes::spec_u16_from_le_bytes;
use vstd::bytes::spec_u16_to_le_bytes;
use vstd::bytes::spec_u32_from_le_bytes;
use vstd::bytes::spec_u32_to_le_bytes;
use vstd::bytes::spec_u64_from_le_bytes;
use vstd::bytes::spec_u64_to_le_bytes;
use vstd::bytes::u16_from_le_bytes;
use vstd::bytes::u16_to_le_bytes;
use vstd::bytes::u32_from_le_bytes;
use vstd::bytes::u32_to_le_bytes;
use vstd::bytes::u64_from_le_bytes;
use vstd::bytes::u64_to_le_bytes;
use vstd::prelude::*;
use vstd::slice::slice_subrange;
use vstd::slice::slice_to_vec;

use crate::error::CtlError;
use crate::error::ErrorModel;
use crate::error::res_view;
use crate::shape::ValueShape;

verus! {

/// A typed MIB value, one variant per value shape. `Record` and `Bytes`
/// carry their raw bytes through untouched; `Text` holds string bytes with
/// the terminator already trimmed.
#[derive(Clone, Debug, PartialEq, Eq)]
pub enum TypedValue {
    Int32(i32),
    Int64(i64),
    Long(i64),
    DeviceId(i32),
    Record(Vec<u8>),
    Text(Vec<u8>),
    Bytes(Vec<u8>),
    U16s(Vec<u16>),
    U32s(Vec<u32>),
    U64s(Vec<u64>),
}

/// The mathematical model of a [`TypedValue`].
pub ghost enum ValueModel {
    Int32(i32),
    Int64(i64),
    Long(i64),
    DeviceId(i32),
    Record(Seq<u8>),
    Text(Seq<u8>),
    Bytes(Seq<u8>),
    U16s(Seq<u16>),
    U32s(Seq<u32>),
    U64s(Seq<u64>),
}

impl View for TypedValue {
    type V = ValueModel;

    open spec fn view(&self) -> ValueModel {
        match self {
            TypedValue::Int32(x) => ValueModel::Int32(*x),
            TypedValue::Int64(x) => ValueModel::Int64(*x),
            TypedValue::Long(x) => ValueModel::Long(*x),
            TypedValue::DeviceId(x) => ValueModel::DeviceId(*x),
            TypedValue::Record(b) => ValueModel::Record(b@),
            TypedValue::Text(b) => ValueModel::Text(b@),
            TypedValue::Bytes(b) => ValueModel::Bytes(b@),
            TypedValue::U16s(xs) => ValueModel::U16s(xs@),
            TypedValue::U32s(xs) => ValueModel::U32s(xs@),
            TypedValue::U64s(xs) => ValueModel::U64s(xs@),
        }
    }
}

/// The signed reading of a four-byte unsigned value (two's complement).
pub open spec fn i32_of_u32(x: u32) -> i32 {
    if x >= 0x8000_0000 {
        ((x as int) - 0x1_0000_0000) as i32
    } else {
        x as i32
    }
}

/// The unsigned carrier of a four-byte signed value (two's complement).
pub open spec fn u32_of_i32(x: i32) -> u32 {
    if x < 0 {
        ((x as int) + 0x1_0000_0000) as u32
    } else {
        x as u32
    }
}

/// The signed reading of an eight-byte unsigned value (two's complement).
pub open spec fn i64_of_u64(x: u64) -> i64 {
    if x >= 0x8000_0000_0000_0000 {
        ((x as int) - 0x1_0000_0000_0000_0000) as i64
    } else {
        x as i64
    }
}

/// The unsigned carrier of an eight-byte signed value (two's complement).
pub open spec fn u64_of_i64(x: i64) -> u64 {
    if x < 0 {
        ((x as int) + 0x1_0000_0000_0000_0000) as u64
    } else {
        x as u64
    }
}

fn i32_from_u32(x: u32) -> (r: i32)
    ensures
        r == i32_of_u32(x),
{
    if x >= 0x8000_0000u32 {
        let y: u32 = x - 0x8000_0000u32;
        let z: i32 = y as i32;
        z - 0x7fff_ffffi32 - 1
    } else {
        x as i32
    }
}

fn u32_from_i32(x: i32) -> (r: u32)
    ensures
        r == u32_of_i32(x),
{
    if x < 0 {
        let y: i32 = x + 0x7fff_ffffi32 + 1;
        (y as u32) + 0x8000_0000u32
    } else {
        x as u32
    }
}

fn i64_from_u64(x: u64) -> (r: i64)
    ensures
        r == i64_of_u64(x),
{
    if x >= 0x8000_0000_0000_0000u64 {
        let y: u64 = x - 0x8000_0000_0000_0000u64;
        let z: i64 = y as i64;
        z - 0x7fff_ffff_ffff_ffffi64 - 1
    } else {
        x as i64
    }
}

fn u64_from_i64(x: i64) -> (r: u64)
    ensures
        r == u64_of_i64(x),
{
    if x < 0 {
        let y: i64 = x + 0x7fff_ffff_ffff_ffffi64 + 1;
        (y as u64) + 0x8000_0000_0000_0000u64
    } else {
        x as u64
    }
}

/// The index of the first terminator byte in `b`, or `b.len()` when there is
/// none.
pub open spec fn spec_first_nul(b: Seq<u8>) -> int
    decreases b.len(),
{
    if b.len() == 0 {
        0
    } else if b[0] == 0 {
        0
    } else {
        1 + spec_first_nul(b.drop_first())
    }
}

pub proof fn lemma_first_nul_bounds(b: Seq<u8>)
    ensures
        0 <= spec_first_nul(b) <= b.len(),
        forall|j: int| 0 <= j < spec_first_nul(b) ==> b[j] != 0,
        spec_first_nul(b) < b.len() ==> b[spec_first_nul(b)] == 0,
    decreases b.len(),
{
    if b.len() > 0 && b[0] != 0 {
        lemma_first_nul_bounds(b.drop_first());
        assert forall|j: int| 0 <= j < spec_first_nul(b) implies b[j] != 0 by {
            if j > 0 {
                assert(b.drop_first()[j - 1] == b[j]);
            }
        }
    }
}

pub proof fn lemma_first_nul_is(b: Seq<u8>, i: int)
    requires
        0 <= i <= b.len(),
        forall|j: int| 0 <= j < i ==> b[j] != 0,
        i < b.len() ==> b[i] == 0,
    ensures
        spec_first_nul(b) == i,
    decreases b.len(),
{
    if b.len() > 0 && i > 0 {
        assert(forall|j: int|
            0 <= j < i - 1 ==> b.drop_first()[j] == b[j + 1] && b.drop_first()[j] != 0);
        lemma_first_nul_is(b.drop_first(), i - 1);
    }
}

/// The string bytes decoded from a raw buffer: everything before the first
/// terminator.
pub open spec fn spec_text_of(b: Seq<u8>) -> Seq<u8> {
    b.take(spec_first_nul(b))
}

/// The two-byte unsigned elements of a raw buffer.
pub open spec fn spec_u16s_of(b: Seq<u8>) -> Seq<u16> {
    Seq::new((b.len() / 2) as nat, |i: int| spec_u16_from_le_bytes(b.subrange(2 * i, 2 * i + 2)))
}

/// The four-byte unsigned elements of a raw buffer.
pub open spec fn spec_u32s_of(b: Seq<u8>) -> Seq<u32> {
    Seq::new((b.len() / 4) as nat, |i: int| spec_u32_from_le_bytes(b.subrange(4 * i, 4 * i + 4)))
}

/// The eight-byte unsigned elements of a raw buffer.
pub open spec fn spec_u64s_of(b: Seq<u8>) -> Seq<u64> {
    Seq::new((b.len() / 8) as nat, |i: int| spec_u64_from_le_bytes(b.subrange(8 * i, 8 * i + 8)))
}

/// The raw bytes of a sequence of two-byte unsigned elements.
pub open spec fn spec_bytes_of_u16s(xs: Seq<u16>) -> Seq<u8>
    decreases xs.len(),
{
    if xs.len() == 0 {
        Seq::empty()
    } else {
        spec_bytes_of_u16s(xs.drop_last()) + spec_u16_to_le_bytes(xs.last())
    }
}

/// The raw bytes of a sequence of four-byte unsigned elements.
pub open spec fn spec_bytes_of_u32s(xs: Seq<u32>) -> Seq<u8>
    decreases xs.len(),
{
    if xs.len() == 0 {
        Seq::empty()
    } else {
        spec_bytes_of_u32s(xs.drop_last()) + spec_u32_to_le_bytes(xs.last())
    }
}

/// The raw bytes of a sequence of eight-byte unsigned elements.
pub open spec fn spec_bytes_of_u64s(xs: Seq<u64>) -> Seq<u8>
    decreases xs.len(),
{
    if xs.len() == 0 {
        Seq::empty()
    } else {
        spec_bytes_of_u64s(xs.drop_last()) + spec_u64_to_le_bytes(xs.last())
    }
}

/// What [`decode`] returns for a shape and a raw buffer: the typed reading
/// of the bytes, or `ShapeMismatch` when the buffer length does not fit the
/// shape (the wrong width for a scalar, a remainder for an array).
pub open spec fn spec_decode(shape: ValueShape, b: Seq<u8>) -> Result<ValueModel, ErrorModel> {
    match shape {
        ValueShape::Int32 => if b.len() == 4 {
            Ok(ValueModel::Int32(i32_of_u32(spec_u32_from_le_bytes(b))))
        } else {
            Err(ErrorModel::ShapeMismatch)
        },
        ValueShape::Int64 => if b.len() == 8 {
            Ok(ValueModel::Int64(i64_of_u64(spec_u64_from_le_bytes(b))))
        } else {
            Err(ErrorModel::ShapeMismatch)
        },
        ValueShape::Long => if b.len() == 8 {
            Ok(ValueModel::Long(i64_of_u64(spec_u64_from_le_bytes(b))))
        } else {
            Err(ErrorModel::ShapeMismatch)
        },
        ValueShape::DeviceId => if b.len() == 4 {
            Ok(ValueModel::DeviceId(i32_of_u32(spec_u32_from_le_bytes(b))))
        } else {
            Err(ErrorModel::ShapeMismatch)
        },
        ValueShape::OpaqueRecord => Ok(ValueModel::Record(b)),
        ValueShape::CString => Ok(ValueModel::Text(spec_text_of(b))),
        ValueShape::ByteArray => Ok(ValueModel::Bytes(b)),
        ValueShape::U16Array => if b.len() % 2 == 0 {
            Ok(ValueModel::U16s(spec_u16s_of(b)))
        } else {
            Err(ErrorModel::ShapeMismatch)
        },
        ValueShape::U32Array => if b.len() % 4 == 0 {
            Ok(ValueModel::U32s(spec_u32s_of(b)))
        } else {
            Err(ErrorModel::ShapeMismatch)
        },
        ValueShape::U64Array => if b.len() % 8 == 0 {
            Ok(ValueModel::U64s(spec_u64s_of(b)))
        } else {
            Err(ErrorModel::ShapeMismatch)
        },
        ValueShape::SubtreeMarker => Ok(ValueModel::Bytes(b)),
    }
}

/// What [`encode`] returns for a shape and a typed value: the exact byte
/// layout the kernel expects, or `ShapeMismatch` when the value is not of
/// the shape, or is a string with an embedded terminator.
pub open spec fn spec_encode(shape: ValueShape, v: ValueModel) -> Result<Seq<u8>, ErrorModel> {
    match (shape, v) {
        (ValueShape::Int32, ValueModel::Int32(x)) => Ok(spec_u32_to_le_bytes(u32_of_i32(x))),
        (ValueShape::Int64, ValueModel::Int64(x)) => Ok(spec_u64_to_le_bytes(u64_of_i64(x))),
        (ValueShape::Long, ValueModel::Long(x)) => Ok(spec_u64_to_le_bytes(u64_of_i64(x))),
        (ValueShape::DeviceId, ValueModel::DeviceId(x)) => Ok(spec_u32_to_le_bytes(u32_of_i32(x))),
        (ValueShape::OpaqueRecord, ValueModel::Record(b)) => Ok(b),
        (ValueShape::CString, ValueModel::Text(b)) => if b.contains(0) {
            Err(ErrorModel::ShapeMismatch)
        } else {
            Ok(b.push(0))
        },
        (ValueShape::ByteArray, ValueModel::Bytes(b)) => Ok(b),
        (ValueShape::U16Array, ValueModel::U16s(xs)) => Ok(spec_bytes_of_u16s(xs)),
        (ValueShape::U32Array, ValueModel::U32s(xs)) => Ok(spec_bytes_of_u32s(xs)),
        (ValueShape::U64Array, ValueModel::U64s(xs)) => Ok(spec_bytes_of_u64s(xs)),
        _ => Err(ErrorModel::ShapeMismatch),
    }
}

/// The index of the first terminator byte in `b`, or its length.
pub fn first_nul(b: &[u8]) -> (r: usize)
    ensures
        r == spec_first_nul(b@),
{
    let mut i: usize = 0;
    while i < b.len()
        invariant
            0 <= i <= b@.len(),
            forall|j: int| 0 <= j < i ==> b@[j] != 0,
        decreases b@.len() - i,
    {
        if b[i] == 0 {
            proof {
                lemma_first_nul_is(b@, i as int);
            }
            return i;
        }
        i = i + 1;
    }
    proof {
        lemma_first_nul_is(b@, b@.len() as int);
    }
    i
}

/// Decodes a raw kernel buffer into a typed value per [`spec_decode`].
#[verifier::loop_isolation(false)]
pub fn decode(shape: ValueShape, b: &[u8]) -> (r: Result<TypedValue, CtlError>)
    ensures
        res_view(r) == spec_decode(shape, b@),
{
    match shape {
        ValueShape::Int32 => {
            if b.len() == 4 {
                Ok(TypedValue::Int32(i32_from_u32(u32_from_le_bytes(b))))
            } else {
                Err(CtlError::ShapeMismatch)
            }
        },
        ValueShape::Int64 => {
            if b.len() == 8 {
                Ok(TypedValue::Int64(i64_from_u64(u64_from_le_bytes(b))))
            } else {
                Err(CtlError::ShapeMismatch)
            }
        },
        ValueShape::Long => {
            if b.len() == 8 {
                Ok(TypedValue::Long(i64_from_u64(u64_from_le_bytes(b))))
            } else {
                Err(CtlError::ShapeMismatch)
            }
        },
        ValueShape::DeviceId => {
            if b.len() == 4 {
                Ok(TypedValue::DeviceId(i32_from_u32(u32_from_le_bytes(b))))
            } else {
                Err(CtlError::ShapeMismatch)
            }
        },
        ValueShape::OpaqueRecord => Ok(TypedValue::Record(slice_to_vec(b))),
        ValueShape::CString => {
            let n = first_nul(b);
            proof {
                lemma_first_nul_bounds(b@);
            }
            Ok(TypedValue::Text(slice_to_vec(slice_subrange(b, 0, n))))
        },
        ValueShape::ByteArray => Ok(TypedValue::Bytes(slice_to_vec(b))),
        ValueShape::U16Array => {
            if b.len() % 2 != 0 {
                return Err(CtlError::ShapeMismatch);
            }
            let count = b.len() / 2;
            let mut out: Vec<u16> = Vec::new();
            let mut i: usize = 0;
            while i < count
                invariant
                    0 <= i <= count,
                    count == b@.len() / 2,
                    b@.len() % 2 == 0,
                    out@.len() == i,
                    forall|j: int|
                        0 <= j < i ==> out@[j] == spec_u16_from_le_bytes(
                            b@.subrange(2 * j, 2 * j + 2),
                        ),
                decreases count - i,
            {
                let x = u16_from_le_bytes(slice_subrange(b, 2 * i, 2 * i + 2));
                out.push(x);
                i = i + 1;
            }
            proof {
                assert(out@ =~= spec_u16s_of(b@));
            }
            Ok(TypedValue::U16s(out))
        },
        ValueShape::U32Array => {
            if b.len() % 4 != 0 {
                return Err(CtlError::ShapeMismatch);
            }
            let count = b.len() / 4;
            let mut out: Vec<u32> = Vec::new();
            let mut i: usize = 0;
            while i < count
                invariant
                    0 <= i <= count,
                    count == b@.len() / 4,
                    b@.len() % 4 == 0,
                    out@.len() == i,
                    forall|j: int|
                        0 <= j < i ==> out@[j] == spec_u32_from_le_bytes(
                            b@.subrange(4 * j, 4 * j + 4),
                        ),
                decreases count - i,
            {
                let x = u32_from_le_bytes(slice_subrange(b, 4 * i, 4 * i + 4));
                out.push(x);
                i = i + 1;
            }
            proof {
                assert(out@ =~= spec_u32s_of(b@));
            }
            Ok(TypedValue::U32s(out))
        },
        ValueShape::U64Array => {
            if b.len() % 8 != 0 {
                return Err(CtlError::ShapeMismatch);
            }
            let count = b.len() / 8;
            let mut out: Vec<u64> = Vec::new();
            let mut i: usize = 0;
            while i < count
                invariant
                    0 <= i <= count,
                    count == b@.len() / 8,
                    b@.len() % 8 == 0,
                    out@.len() == i,
                    forall|j: int|
                        0 <= j < i ==> out@[j] == spec_u64_from_le_bytes(
                            b@.subrange(8 * j, 8 * j + 8),
                        ),
                decreases count - i,
            {
                let x = u64_from_le_bytes(slice_subrange(b, 8 * i, 8 * i + 8));
                out.push(x);
                i = i + 1;
            }
            proof {
                assert(out@ =~= spec_u64s_of(b@));
            }
            Ok(TypedValue::U64s(out))
        },
        ValueShape::SubtreeMarker => Ok(TypedValue::Bytes(slice_to_vec(b))),
    }
}

/// Encodes a typed value into the byte layout the kernel expects for the
/// shape, per [`spec_encode`].
#[verifier::loop_isolation(false)]
pub fn encode(shape: ValueShape, v: &TypedValue) -> (r: Result<Vec<u8>, CtlError>)
    ensures
        res_view(r) == spec_encode(shape, v@),
{
    match (shape, v) {
        (ValueShape::Int32, TypedValue::Int32(x)) => Ok(u32_to_le_bytes(u32_from_i32(*x))),
        (ValueShape::Int64, TypedValue::Int64(x)) => Ok(u64_to_le_bytes(u64_from_i64(*x))),
        (ValueShape::Long, TypedValue::Long(x)) => Ok(u64_to_le_bytes(u64_from_i64(*x))),
        (ValueShape::DeviceId, TypedValue::DeviceId(x)) => Ok(u32_to_le_bytes(u32_from_i32(*x))),
        (ValueShape::OpaqueRecord, TypedValue::Record(b)) => Ok(slice_to_vec(b.as_slice())),
        (ValueShape::CString, TypedValue::Text(b)) => {
            let n = first_nul(b.as_slice());
            proof {
                lemma_first_nul_bounds(b@);
            }
            if n < b.len() {
                return Err(CtlError::ShapeMismatch);
            }
            let mut out = slice_to_vec(b.as_slice());
            out.push(0);
            Ok(out)
        },
        (ValueShape::ByteArray, TypedValue::Bytes(b)) => Ok(slice_to_vec(b.as_slice())),
        (ValueShape::U16Array, TypedValue::U16s(xs)) => {
            let mut out: Vec<u8> = Vec::new();
            let mut i: usize = 0;
            proof {
                assert(xs@.take(0) =~= Seq::<u16>::empty());
            }
            while i < xs.len()
                invariant
                    0 <= i <= xs@.len(),
                    out@ == spec_bytes_of_u16s(xs@.take(i as int)),
                decreases xs@.len() - i,
            {
                proof {
                    assert(xs@.take(i + 1 as int).drop_last() =~= xs@.take(i as int));
                    assert(xs@.take(i + 1 as int).last() == xs@[i as int]);
                }
                let mut piece = u16_to_le_bytes(xs[i]);
                out.append(&mut piece);
                i = i + 1;
            }
            proof {
                assert(xs@.take(xs@.len() as int) =~= xs@);
            }
            Ok(out)
        },
        (ValueShape::U32Array, TypedValue::U32s(xs)) => {
            let mut out: Vec<u8> = Vec::new();
            let mut i: usize = 0;
            proof {
                assert(xs@.take(0) =~= Seq::<u32>::empty());
            }
            while i < xs.len()
                invariant
                    0 <= i <= xs@.len(),
                    out@ == spec_bytes_of_u32s(xs@.take(i as int)),
                decreases xs@.len() - i,
            {
                proof {
                    assert(xs@.take(i + 1 as int).drop_last() =~= xs@.take(i as int));
                    assert(xs@.take(i + 1 as int).last() == xs@[i as int]);
                }
                let mut piece = u32_to_le_bytes(xs[i]);
                out.append(&mut piece);
                i = i + 1;
            }
            proof {
                assert(xs@.take(xs@.len() as int) =~= xs@);
            }
            Ok(out)
        },
        (ValueShape::U64Array, TypedValue::U64s(xs)) => {
            let mut out: Vec<u8> = Vec::new();
            let mut i: usize = 0;
            proof {
                assert(xs@.take(0) =~= Seq::<u64>::empty());
            }
            while i < xs.len()
                invariant
                    0 <= i <= xs@.len(),
                    out@ == spec_bytes_of_u64s(xs@.take(i as int)),
                decreases xs@.len() - i,
            {
                proof {
                    assert(xs@.take(i + 1 as int).drop_last() =~= xs@.take(i as int));
                    assert(xs@.take(i + 1 as int).last() == xs@[i as int]);
                }
                let mut piece = u64_to_le_bytes(xs[i]);
                out.append(&mut piece);
                i = i + 1;
            }
            proof {
                assert(xs@.take(xs@.len() as int) =~= xs@);
            }
            Ok(out)
        },
        _ => Err(CtlError::ShapeMismatch),
    }
}

} // verus!
