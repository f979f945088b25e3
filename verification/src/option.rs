//! Telling optional result types apart from plain ones.

use vstd::prelude::*;

use crate::parse::CliFromStr;

verus! {

/// Marker trait for optional result types.
pub trait IsOptionMarker {

}

impl<T: CliFromStr> IsOptionMarker for Option<T> {

}

/// Whether the result type wraps an optional value, so that empty submitted
/// text parses to "nothing" instead of being rejected.
pub fn is_option<T: CliFromStr>() -> (r: bool)
    ensures
        r == T::spec_is_option(),
{
    T::is_option_type()
}

} // verus!
