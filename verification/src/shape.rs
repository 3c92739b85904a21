//! The wire/byte-layout categories a MIB leaf value can have, and the byte
//! widths each one implies on this platform (OpenBSD amd64: `long` is eight
//! bytes, `dev_t` is four).

use vstd::prelude::*;

verus! {

/// The closed set of value shapes a schema leaf can declare. The shape
/// determines how the codec reads and writes the raw buffer and whether the
/// invoker must probe the kernel for the buffer size first.
#[derive(Clone, Copy, Debug, PartialEq, Eq, Structural)]
pub enum ValueShape {
    /// A four-byte signed integer.
    Int32,
    /// An eight-byte signed integer.
    Int64,
    /// A platform `long`: eight bytes here.
    Long,
    /// A device identifier (`dev_t`): four bytes here.
    DeviceId,
    /// An opaque fixed-layout kernel record, passed through as raw bytes.
    OpaqueRecord,
    /// A NUL-terminated string of kernel-reported length.
    CString,
    /// A variable-length array of single bytes.
    ByteArray,
    /// A variable-length array of two-byte unsigned elements.
    U16Array,
    /// A variable-length array of four-byte unsigned elements.
    U32Array,
    /// A variable-length array of eight-byte unsigned elements.
    U64Array,
    /// A node that carries no scalar value of its own, only children; its
    /// raw buffer is passed through untouched.
    SubtreeMarker,
}

/// The exact buffer width of a fixed-size scalar shape, or `None` for the
/// variable-length shapes whose size only the kernel knows.
pub open spec fn spec_fixed_width(shape: ValueShape) -> Option<usize> {
    match shape {
        ValueShape::Int32 => Some(4usize),
        ValueShape::Int64 => Some(8usize),
        ValueShape::Long => Some(8usize),
        ValueShape::DeviceId => Some(4usize),
        _ => None,
    }
}

impl ValueShape {
    /// The exact buffer width of a fixed-size scalar shape; `None` means the
    /// required size must be probed from the kernel.
    pub fn fixed_width(&self) -> (r: Option<usize>)
        ensures
            r == spec_fixed_width(*self),
    {
        match self {
            ValueShape::Int32 => Some(4usize),
            ValueShape::Int64 => Some(8usize),
            ValueShape::Long => Some(8usize),
            ValueShape::DeviceId => Some(4usize),
            _ => None,
        }
    }
}

} // verus!
