//! Records and numbers of the wire contract.

use vstd::prelude::*;

verus! {

pub const HELIOS_HWA2_BYTES: u16 = 168;
pub const HELIOS_HVM1_SIZE: u16 = 64;
pub const HELIOS_HOC1_BYTES: u16 = 64;
/// `"HWA2"`, little-endian.
pub const HELIOS_HWA2_MAGIC: u32 = 0x3241_5748;
/// `"HVM1"`, little-endian.
pub const HELIOS_HVM1_MAGIC: u32 = 0x314D_5648;
/// `"HOC1"`, little-endian.
pub const HELIOS_HOC1_MAGIC: u32 = 0x3143_4F48;
pub const HELIOS_HWA2_ABI_VERSION: u16 = 2;
pub const HELIOS_HVM1_ABI_VERSION: u16 = 1;
pub const HELIOS_HOC1_ABI_VERSION: u16 = 1;
/// The one size of a reply pool.
pub const HELIOS_HVM1_REPLY_POOL_BYTES: u64 = 0x40_0000;
/// The display source of an allocation that has none yet.
pub const D3DDDI_ID_UNINITIALIZED: u32 = 0xFFFF_FFFF;

/// One plane of an image: where it starts, and its pitches.
#[derive(Clone, Copy, Debug, PartialEq, Eq, Structural)]
pub struct HeliosWddmPlaneRecordV2 {
    pub offset: u64,
    pub row_pitch: u32,
    pub slice_pitch: u32,
}

/// The private data of an ordinary allocation.
#[derive(Clone, Copy, Debug, PartialEq, Eq)]
pub struct HeliosWddmAllocationDescV2 {
    pub magic: u32,
    pub abi_version: u16,
    pub struct_size: u16,
    pub package_generation: u64,
    pub allocation_generation: u64,
    pub byte_size: u64,
    pub width: u32,
    pub height: u32,
    pub depth_or_array_size: u32,
    pub mip_levels: u32,
    pub dxgi_format: u32,
    pub d3d_ddi_format: u32,
    pub sample_count: u32,
    pub sample_quality: u32,
    pub allocation_kind: u32,
    pub flags: u32,
    pub bind_flags: u32,
    pub misc_flags: u32,
    pub vidpn_source: u32,
    pub standard_allocation_type: u32,
    pub swizzle_class: u32,
    pub memory_class: u32,
    pub plane_count: u32,
    pub reserved: u32,
    pub planes: [HeliosWddmPlaneRecordV2; 4],
}

/// The numbers that the wire contract assigns to the flags, classes and kinds of
/// an ordinary allocation. The rules of this library hold for any assignment.
#[derive(Clone, Copy, Debug, PartialEq, Eq, Structural)]
pub struct Hwa2Vocabulary {
    /// Every flag that only the kernel driver may set.
    pub flag_kmd_owned_mask: u32,
    pub flag_direct_flip_compatible: u32,
    pub flag_d3d12_runtime_primary: u32,
    pub flag_primary: u32,
    pub flag_standard: u32,
    pub bind_render_target: u32,
    pub bind_shader_resource: u32,
    pub bind_unordered_access: u32,
    pub bind_depth_stencil: u32,
    pub bind_present: u32,
    pub swizzle_linear: u32,
    pub kind_buffer: u32,
    pub kind_image: u32,
}

impl HeliosWddmAllocationDescV2 {
    /// A record with its identity filled in and everything else zero.
    pub fn header(package_generation: u64, allocation_generation: u64) -> (d: Self)
        ensures
            d.magic == HELIOS_HWA2_MAGIC,
            d.abi_version == HELIOS_HWA2_ABI_VERSION,
            d.struct_size == HELIOS_HWA2_BYTES,
            d.package_generation == package_generation,
            d.allocation_generation == allocation_generation,
            d.byte_size == 0,
            d.width == 0 && d.height == 0 && d.depth_or_array_size == 0 && d.mip_levels == 0,
            d.dxgi_format == 0 && d.d3d_ddi_format == 0 && d.sample_count == 0
                && d.sample_quality == 0,
            d.allocation_kind == 0 && d.flags == 0 && d.bind_flags == 0 && d.misc_flags == 0,
            d.vidpn_source == 0 && d.standard_allocation_type == 0 && d.swizzle_class == 0
                && d.memory_class == 0,
            d.plane_count == 0 && d.reserved == 0,
            forall|i: int|
                0 <= i < 4 ==> #[trigger] d.planes@[i] == (HeliosWddmPlaneRecordV2 {
                    offset: 0,
                    row_pitch: 0,
                    slice_pitch: 0,
                }),
    {
        HeliosWddmAllocationDescV2 {
            magic: HELIOS_HWA2_MAGIC,
            abi_version: HELIOS_HWA2_ABI_VERSION,
            struct_size: HELIOS_HWA2_BYTES,
            package_generation,
            allocation_generation,
            byte_size: 0,
            width: 0,
            height: 0,
            depth_or_array_size: 0,
            mip_levels: 0,
            dxgi_format: 0,
            d3d_ddi_format: 0,
            sample_count: 0,
            sample_quality: 0,
            allocation_kind: 0,
            flags: 0,
            bind_flags: 0,
            misc_flags: 0,
            vidpn_source: 0,
            standard_allocation_type: 0,
            swizzle_class: 0,
            memory_class: 0,
            plane_count: 0,
            reserved: 0,
            planes: [HeliosWddmPlaneRecordV2 { offset: 0, row_pitch: 0, slice_pitch: 0 };4],
        }
    }

    /// Whether any bit of `flag` is set.
    pub fn has_flag(&self, flag: u32) -> (b: bool)
        ensures
            b == (self.flags & flag != 0),
    {
        self.flags & flag != 0
    }
}

/// What a memory allocation is for.
#[derive(Clone, Copy, Debug, PartialEq, Eq, Structural)]
pub enum Hvm1Role {
    /// The pool that replies are written to.
    ReplyPool,
    VulkanHostVisible,
    Feedback,
    /// Memory that the processor never sees.
    VulkanDeviceLocal,
}

impl Hvm1Role {
    /// The number of the role.
    pub open spec fn number(self) -> u32 {
        match self {
            Hvm1Role::ReplyPool => 1,
            Hvm1Role::VulkanHostVisible => 2,
            Hvm1Role::Feedback => 3,
            Hvm1Role::VulkanDeviceLocal => 4,
        }
    }

    pub fn to_u32(self) -> (n: u32)
        ensures
            n == self.number(),
    {
        match self {
            Hvm1Role::ReplyPool => 1,
            Hvm1Role::VulkanHostVisible => 2,
            Hvm1Role::Feedback => 3,
            Hvm1Role::VulkanDeviceLocal => 4,
        }
    }
}

/// The bounds on what a native render context holds.
#[derive(Clone, Copy, Debug, PartialEq, Eq, Structural)]
pub enum Hnr2CapacityLimit {
    OutstandingSubmissions,
    SlotPoolBytes,
    LiveSnapshots,
    LiveSnapshotBytes,
    SnapshotBytes,
}

/// A bound that would be exceeded.
#[derive(Clone, Copy, Debug, PartialEq, Eq, Structural)]
pub struct Hnr2CapacityRefusal {
    pub limit: Hnr2CapacityLimit,
}

/// What is wrong with the header of a render fragment.
#[derive(Clone, Copy, Debug, PartialEq, Eq, Structural)]
pub enum Hnr2Reject {
    MagicMismatch,
    AbiVersionMismatch,
    HeaderSizeMismatch,
    PackageGenerationUnset,
    PackageGenerationMismatch,
    FlagBitsUnknown,
    BatchTokenZero,
    BatchTokenNotIncreasing,
    BatchTokenMismatch,
    BatchAlreadyOpen,
    NoOpenBatch,
    FragmentCountZero,
    FragmentCountTooLarge,
    FragmentCountChanged,
    FragmentIndexOutOfRange,
    FragmentIndexOutOfOrder,
    BeginFlagMisplaced,
    CommitFlagMisplaced,
    TotalPayloadZero,
    TotalPayloadTooLarge,
    TotalPayloadChanged,
    FragmentPayloadZero,
    FragmentOffsetMismatch,
    FragmentPayloadOverrun,
    NonFinalFragmentExhaustsPayload,
    FinalFragmentShort,
    UseRecordsBeforeCommit,
    PatchRecordsBeforeCommit,
    FullPayloadCrcBeforeCommit,
    AllocationListNotEmpty,
    UseRecordCountTooLarge,
    PatchRecordCountTooLarge,
    UseRecordCountMismatch,
    PatchWithoutUse,
    UseRecordOffsetMismatch,
    PatchRecordOffsetMismatch,
    CommandLengthOverflow,
    CommandLengthMismatch,
    ReplyFlagOutsideCommit,
    ReplyIndexNotSentinel,
    ReplyOffsetNotZero,
    ReplyCapacityNotZero,
    ReplySlotGenerationNotZero,
    ReplyIndexOutOfRange,
    ReplySlotGenerationZero,
    ReplyCapacityTooSmall,
    ReplyCapacityTooLarge,
    ReplyOffsetMisaligned,
    ReplySlotIndexOutOfRange,
    ReplyRangeCrossesSlot,
    CommandLengthAboveDmaBuffer,
    CommandBufferBelowAdvertisedMinimum,
    PatchLocationListInNotEmpty,
}

/// What is wrong with the tables of a commit.
#[derive(Clone, Copy, Debug, PartialEq, Eq, Structural)]
pub enum Hnr2TableReject {
    UseCountMismatch,
    PatchCountMismatch,
    AllocationListTooLarge,
    AccessFlagsUnknownBits,
    AccessFlagsZero,
    AllocationGenerationZero,
    AllocationIndexOutOfRange,
    AllocationUsedTwice,
    PatchRunNotContiguous,
    PatchRunOutOfRange,
    PatchRunLeavesGap,
    PatchAllocationMismatch,
    PatchOperandKindUnknown,
    PatchOperandWidthMismatch,
    PatchOffsetMisaligned,
    PatchOffsetOutOfPayload,
    PatchReservedNonZero,
    WriteOperationMismatch,
    ReplyIndexNotWritable,
    ReplyIndexHasNoUseRecord,
}

/// What is wrong with a physical capability.
#[derive(Clone, Copy, Debug, PartialEq, Eq, Structural)]
pub enum Hnr2DmaReject {
    OutputPatchCountNotUseCount,
    OutputPatchCountTooLarge,
    AllocationGenerationZero,
    AccessFlagsInvalid,
    ByteLengthZero,
    RangeOutOfAllocation,
    UnplacedCapabilityNotZeroed,
    SegmentUnknown,
    CapabilityUnplacedAtSubmit,
    AllocationGenerationStale,
    PlacementEpochStale,
    SegmentNotCurrent,
    PhysicalAddressMisaligned,
}

/// What is wrong with the descriptor of an outer submission.
#[allow(inconsistent_fields)]
#[derive(Clone, Copy, Debug, PartialEq, Eq, Structural)]
pub enum HeliosOuterSubmitRejection {
    Magic { found: u32 },
    AbiVersion { found: u16 },
    StructSize { found: u16 },
    PrivateDataSize { found: usize },
    PackageGeneration { found: u64, expected: u64 },
    SessionGeneration { found: u64, expected: u64 },
    ContextGeneration { found: u64, expected: u64 },
    EndpointId { found: u32, expected: u32 },
    NotD3D12VirtualContext { context_flags: u32 },
    BatchIdZero,
    BatchIdNotIncreasing { found: u64, last: u64 },
    Hob1BytesZero,
    Hob1BytesBelowHeader { found: u32, header_bytes: u16 },
    Hob1BytesAboveLimit { found: u32, limit: u64 },
    Hob1BytesMismatch { found: u32, command_length: u64 },
    ReservedNonZero { found: u32 },
    Hob1BatchIdMismatch { hos1: u64, hob1: u64 },
    Hob1CrcMismatch { hos1: u64, hob1: u64 },
    Hob1TotalBytesMismatch { hos1: u64, hob1: u64 },
}

} // verus!
