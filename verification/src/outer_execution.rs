//! Which ordinary allocations an outer batch may name.

use vstd::prelude::*;
use crate::allocation_identity;
use crate::allocation_identity::HeliosAllocDescRejection;
use crate::protocol::HeliosWddmAllocationDescV2;
use crate::protocol::Hwa2Vocabulary;

verus! {

/// The finished record is that of a buffer or an image which the kernel driver did
/// not author. Neither sharing nor association decides.
pub open spec fn is_outer_execution_resource(
    desc: HeliosWddmAllocationDescV2,
    package_generation: u64,
    vocabulary: Hwa2Vocabulary,
    record: Result<(), HeliosAllocDescRejection>,
) -> bool {
    record is Ok && allocation_identity::output_refusal(desc, package_generation, vocabulary)
        is None && (desc.allocation_kind == vocabulary.kind_buffer || desc.allocation_kind
        == vocabulary.kind_image) && desc.flags & vocabulary.flag_standard == 0
}

/// Whether an allocation needs an execution binding. `record` is what its record
/// says of itself.
pub fn hwa2_is_outer_execution_resource(
    desc: &HeliosWddmAllocationDescV2,
    package_generation: u64,
    vocabulary: &Hwa2Vocabulary,
    record: Result<(), HeliosAllocDescRejection>,
) -> (b: bool)
    ensures
        b == is_outer_execution_resource(*desc, package_generation, *vocabulary, record),
{
    if record.is_err() {
        return false;
    }
    if allocation_identity::check_output(desc, package_generation, vocabulary).is_some() {
        return false;
    }
    if desc.allocation_kind != vocabulary.kind_buffer && desc.allocation_kind
        != vocabulary.kind_image {
        return false;
    }
    !desc.has_flag(vocabulary.flag_standard)
}

/// An allocation needs an execution binding exactly if its record is good and finished, it
/// is a buffer or an image, and the kernel driver did not author it.
pub proof fn law_a_finished_texture_needs_a_binding(
    desc: HeliosWddmAllocationDescV2,
    package_generation: u64,
    vocabulary: Hwa2Vocabulary,
    record: Result<(), HeliosAllocDescRejection>,
)
    ensures
        ({
            let flags = desc.flags;
            let finished = desc.package_generation == package_generation
                && desc.allocation_generation != 0 && (flags
                & vocabulary.flag_direct_flip_compatible == 0 || flags & vocabulary.flag_primary
                != 0) && (flags & vocabulary.flag_d3d12_runtime_primary == 0 || desc.vidpn_source
                == 0xFFFF_FFFF);
            let kind = desc.allocation_kind;
            is_outer_execution_resource(desc, package_generation, vocabulary, record) <==> record
                is Ok && finished && (kind == vocabulary.kind_buffer || kind
                == vocabulary.kind_image) && flags & vocabulary.flag_standard == 0
        }),
{
}

} // verus!
