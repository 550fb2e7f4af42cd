//! The one admitted shape of a private adapter query.

use vstd::prelude::*;

verus! {

/// Bytes of the adapter information that the query returns.
pub const UMD_ADAPTER_INFO_BYTES: u32 = 48;

/// Accepts only an output-only query with an aligned buffer of the exact size.
pub fn is_exact(
    input_size: u32,
    input_is_null: bool,
    output_size: u32,
    output_is_null: bool,
    output_is_aligned: bool,
) -> (b: bool)
    ensures
        b == (input_size == 0 && input_is_null && output_size == UMD_ADAPTER_INFO_BYTES
            && !output_is_null && output_is_aligned),
{
    input_size == 0 && input_is_null && output_size == UMD_ADAPTER_INFO_BYTES && !output_is_null
        && output_is_aligned
}

} // verus!
