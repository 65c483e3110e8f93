//! The error kinds of the library.  All validation happens before any
//! computation, and every error surfaces to the caller at once.

use vstd::prelude::*;

verus! {

/// Why a library operation was refused.
#[derive(Clone, Copy, Debug, PartialEq, Eq, Structural)]
pub enum WarpError {
    /// A parameter vector whose length is not 0, 2, 6 or 8.
    InvalidParameterCount,
    /// A matrix whose fixed-point determinant is zero cannot be inverted.
    SingularMatrix,
    /// A source or destination array with more than `MAX_CHANNELS` channels.
    ChannelDepthExceeded,
    /// Buffers whose shapes disagree with one another.
    ShapeMismatch,
    /// Interpolation with fewer than two knots, or knots out of order.
    InterpolationDomainError,
    /// A kind name that is not one of the accepted spellings.
    InvalidKindName,
}

} // verus!
