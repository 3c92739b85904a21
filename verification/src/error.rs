//! The error taxonomy of the library.
//!
//! The first five variants are determined entirely client-side and are
//! guaranteed to be raised before any kernel call would be issued. The last
//! two can only arise from a real kernel reply.

use vstd::prelude::*;

verus! {

/// Everything that can go wrong between a path string and a typed value.
#[derive(Clone, Debug, PartialEq, Eq)]
pub enum CtlError {
    /// Syntactic problem in the input string: an empty path segment, more
    /// than one assignment delimiter, or a literal value that itself
    /// contains a delimiter.
    MalformedPath,
    /// A segment does not match any child at the current schema node.
    /// `depth` is the zero-based index of the offending segment; the
    /// segments before it form the valid prefix consumed so far.
    UnknownName { depth: usize, segment: Vec<u8> },
    /// The path ended on an interior node: required trailing segments are
    /// missing.
    IncompletePath,
    /// The path continues past a leaf.
    TrailingSegments,
    /// A write was attempted against a target whose resolved mutability is
    /// false. Rejected before any kernel call.
    NotWritable,
    /// The kernel itself rejected the call; the platform error number is
    /// preserved. See [`classify_errno`] for its classification.
    KernelRejected { code: i32 },
    /// A buffer length or typed value is inconsistent with the declared
    /// value shape.
    ShapeMismatch,
}

/// The mathematical model of a [`CtlError`].
pub ghost enum ErrorModel {
    MalformedPath,
    UnknownName { depth: int, segment: Seq<u8> },
    IncompletePath,
    TrailingSegments,
    NotWritable,
    KernelRejected { code: i32 },
    ShapeMismatch,
}

impl View for CtlError {
    type V = ErrorModel;

    open spec fn view(&self) -> ErrorModel {
        match self {
            CtlError::MalformedPath => ErrorModel::MalformedPath,
            CtlError::UnknownName { depth, segment } => ErrorModel::UnknownName {
                depth: *depth as int,
                segment: segment@,
            },
            CtlError::IncompletePath => ErrorModel::IncompletePath,
            CtlError::TrailingSegments => ErrorModel::TrailingSegments,
            CtlError::NotWritable => ErrorModel::NotWritable,
            CtlError::KernelRejected { code } => ErrorModel::KernelRejected { code: *code },
            CtlError::ShapeMismatch => ErrorModel::ShapeMismatch,
        }
    }
}

/// The views of both sides of a fallible result, for stating contracts over
/// mathematical models.
pub open spec fn res_view<T: View>(r: Result<T, CtlError>) -> Result<T::V, ErrorModel> {
    match r {
        Ok(t) => Ok(t@),
        Err(e) => Err(e@),
    }
}

/// Coarse classification of a kernel error number, so that callers can
/// distinguish a configuration problem from a transient one.
#[derive(Clone, Copy, Debug, PartialEq, Eq, Structural)]
pub enum ErrnoClass {
    PermissionDenied,
    NotFound,
    InvalidArgument,
    Busy,
    OutOfMemory,
    Other,
}

/// The platform's error numbers for the classified cases (`EPERM`,
/// `ENOENT`, `ENOMEM`, `EACCES`, `EBUSY`, `EINVAL`).
pub const EPERM: i32 = 1;

pub const ENOENT: i32 = 2;

pub const ENOMEM: i32 = 12;

pub const EACCES: i32 = 13;

pub const EBUSY: i32 = 16;

pub const EINVAL: i32 = 22;

/// What [`classify_errno`] returns for each error number.
pub open spec fn spec_classify_errno(code: i32) -> ErrnoClass {
    if code == EPERM || code == EACCES {
        ErrnoClass::PermissionDenied
    } else if code == ENOENT {
        ErrnoClass::NotFound
    } else if code == EINVAL {
        ErrnoClass::InvalidArgument
    } else if code == EBUSY {
        ErrnoClass::Busy
    } else if code == ENOMEM {
        ErrnoClass::OutOfMemory
    } else {
        ErrnoClass::Other
    }
}

impl CtlError {
    /// The classification of a kernel rejection; `None` for the errors that
    /// are determined client-side and never reach the kernel.
    pub fn kernel_class(&self) -> (r: Option<ErrnoClass>)
        ensures
            r == match self {
                CtlError::KernelRejected { code } => Some(spec_classify_errno(*code)),
                _ => None::<ErrnoClass>,
            },
    {
        match self {
            CtlError::KernelRejected { code } => Some(classify_errno(*code)),
            _ => None,
        }
    }
}

/// Classifies the error number carried by [`CtlError::KernelRejected`].
pub fn classify_errno(code: i32) -> (r: ErrnoClass)
    ensures
        r == spec_classify_errno(code),
{
    if code == EPERM || code == EACCES {
        ErrnoClass::PermissionDenied
    } else if code == ENOENT {
        ErrnoClass::NotFound
    } else if code == EINVAL {
        ErrnoClass::InvalidArgument
    } else if code == EBUSY {
        ErrnoClass::Busy
    } else if code == ENOMEM {
        ErrnoClass::OutOfMemory
    } else {
        ErrnoClass::Other
    }
}

} // verus!
