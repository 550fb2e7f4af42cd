//! The identity of allocations: the private-data records that an allocation is
//! created and opened with, and the generations that tell one allocation from
//! another.
//!
//! What a record says of itself alone is judged elsewhere; that outcome comes in
//! as an argument. What the kernel driver owns in a record, and what must hold
//! from one call to the next, is judged here.

use vstd::prelude::*;
use crate::bytes;
use crate::protocol;
use crate::protocol::HeliosWddmAllocationDescV2;
use crate::protocol::HeliosWddmPlaneRecordV2;
use crate::protocol::Hvm1Role;
use crate::protocol::HELIOS_HVM1_REPLY_POOL_BYTES;
use crate::protocol::Hwa2Vocabulary;
use crate::stream::StreamWriter;

verus! {

pub const HELIOS_HVM1_SEGMENT_PAGE_SHIFT: u32 = 12;
pub const HELIOS_HOC1_POOL_BYTES: u64 = 0x400_0000;
pub const HELIOS_HOC1_EXTENT_ALIGNMENT: u32 = 0x1_0000;
pub const HELIOS_HOC1_MAX_LIVE_EXTENTS: u32 = 256;
pub const HELIOS_HOB1_MAX_BYTES: u64 = 0xF0_0000;

/// What is wrong with the record of an ordinary allocation.
#[allow(inconsistent_fields)]
#[derive(Debug, Clone, Copy, PartialEq, Eq, Structural)]
pub enum HeliosAllocDescRejection {
    PrivateDataSize { found: usize, expected: usize },
    PackageGeneration { found: u64, expected: u64 },
    AllocationGenerationNonZeroOnInput { found: u64 },
    AllocationGenerationZero,
    KmdOwnedFlagSetOnInput { bits: u32 },
    DirectFlipWithoutPrimary,
    D3D12RuntimePrimaryNotSentinel { found: u32 },
    /// The record breaks a rule of its own, under this number.
    Record { code: u32 },
}

/// What is wrong with the record of a memory allocation.
#[derive(Debug, Clone, Copy, PartialEq, Eq, Structural)]
pub enum Hvm1Reject {
    PrivateDataSizeMismatch,
    AccessNotRoleCompatible,
    ByteSizeNotExactForRole,
    WriteBackFieldNotZeroOnInput,
    AllocationAlignmentInvalid,
    /// The record breaks a rule of its own, under this number.
    Record { code: u32 },
}

/// What is wrong with the record of a command pool.
#[allow(inconsistent_fields)]
#[derive(Debug, Clone, Copy, PartialEq, Eq, Structural)]
pub enum HeliosOuterCommandAllocRejection {
    PrivateDataSize { found: usize, expected: usize },
    AllocationGenerationNonZeroOnInput { found: u64 },
    /// The record breaks a rule of its own, under this number.
    Record { code: u32 },
}

/// What is wrong with an extent of a command pool.
#[allow(inconsistent_fields)]
#[derive(Debug, Clone, Copy, PartialEq, Eq, Structural)]
pub enum HeliosExtentRejection {
    ByteLengthZero,
    ByteLengthAboveHob1Limit { found: u64, limit: u64 },
    OffsetMisaligned { offset: u64, alignment: u32 },
    RangeOutsidePool { end: u64, pool_bytes: u64 },
    LiveExtentLimit { live: u32, limit: u32 },
}

/// What is wrong with the retirement of an extent.
#[derive(Debug, Clone, Copy, PartialEq, Eq, Structural)]
pub enum HeliosRetirementRejection {
    Hqc1ValueNotIncreasing { found: u64, previous: u64 },
    /// The tuple breaks a rule of its own, under this number.
    Record { code: u32 },
}

/// Why an operation on an allocation is refused.
#[allow(inconsistent_fields)]
#[derive(Debug, Clone, Copy, PartialEq, Eq, Structural)]
pub enum IdentityRefusal {
    Hwa2(HeliosAllocDescRejection),
    Hvm1(Hvm1Reject),
    Hoc1(HeliosOuterCommandAllocRejection),
    Extent(HeliosExtentRejection),
    SealTransition { from: HeliosExtentSealState, to: HeliosExtentSealState },
    Retirement(HeliosRetirementRejection),
    /// The counter was never set up.
    GenerationCounterUninitialised,
    /// Every generation was given out. None is ever given out twice.
    GenerationSpaceExhausted,
    AdapterEpochSpaceExhausted,
    /// The allocation is from before the current epoch.
    StaleAdapterEpoch { object_epoch: u32, adapter_epoch: u32 },
    OpenCountOverflow,
    GenerationZeroAtStamp,
    /// The kernel driver may not set these flags.
    KmdFlagOutsidePartition { bits: u32 },
    ExpectedGenerationZero,
    ApertureSegmentNotExposed { role: u32 },
    Role4NeverLockable,
    PlacementMismatch { field: PlacementField },
    LiveExtentCounterOverflow,
    /// The device has not come to the extent's value yet.
    ExtentNotRetiredYet { recorded: u64, completed: u64 },
    NoLiveExtent,
}

/// The source of allocation generations of one adapter, and its epoch. The zero
/// value is no valid counter.
#[derive(Debug, Clone, Copy, PartialEq, Eq, Structural)]
pub struct GenerationCounter {
    /// The next generation to give out.
    pub next: u64,
    pub epoch: u32,
}

/// What a counter gives, and the counter after that.
pub open spec fn minted(c: GenerationCounter) -> Result<(u64, GenerationCounter), IdentityRefusal> {
    if c.next == 0 {
        Err(IdentityRefusal::GenerationCounterUninitialised)
    } else if c.next == u64::MAX {
        Err(IdentityRefusal::GenerationSpaceExhausted)
    } else {
        Ok((c.next, GenerationCounter { next: (c.next + 1) as u64, ..c }))
    }
}

/// The counter after a reset: a new epoch, and no generation again.
pub open spec fn after_reset(c: GenerationCounter) -> Result<GenerationCounter, IdentityRefusal> {
    if c.epoch == u32::MAX {
        Err(IdentityRefusal::AdapterEpochSpaceExhausted)
    } else {
        Ok(GenerationCounter { epoch: (c.epoch + 1) as u32, ..c })
    }
}

impl GenerationCounter {
    pub fn new() -> (c: Self)
        ensures
            c == (GenerationCounter { next: 1, epoch: 1 }),
    {
        GenerationCounter { next: 1, epoch: 1 }
    }

    /// Gives out the next generation.
    pub fn mint(self) -> (r: Result<(u64, Self), IdentityRefusal>)
        ensures
            r == minted(self),
    {
        if self.next == 0 {
            return Err(IdentityRefusal::GenerationCounterUninitialised);
        }
        if self.next == u64::MAX {
            return Err(IdentityRefusal::GenerationSpaceExhausted);
        }
        Ok((self.next, GenerationCounter { next: self.next + 1, epoch: self.epoch }))
    }

    /// Starts a new epoch. The generations go on.
    pub fn on_adapter_reset(self) -> (r: Result<Self, IdentityRefusal>)
        ensures
            r == after_reset(self),
    {
        if self.epoch == u32::MAX {
            return Err(IdentityRefusal::AdapterEpochSpaceExhausted);
        }
        Ok(GenerationCounter { next: self.next, epoch: self.epoch + 1 })
    }
}

/// The identity of one allocation.
#[derive(Debug, Clone, Copy, PartialEq, Eq, Structural)]
pub struct AllocationIdentity {
    pub generation: u64,
    pub epoch: u32,
    /// How often it is open.
    pub opens: u32,
}

/// What opening an allocation gives. Its generation stays.
pub open spec fn opened(a: AllocationIdentity, adapter_epoch: u32) -> Result<
    AllocationIdentity,
    IdentityRefusal,
> {
    if a.epoch != adapter_epoch {
        Err(IdentityRefusal::StaleAdapterEpoch { object_epoch: a.epoch, adapter_epoch })
    } else if a.opens == u32::MAX {
        Err(IdentityRefusal::OpenCountOverflow)
    } else {
        Ok(AllocationIdentity { opens: (a.opens + 1) as u32, ..a })
    }
}

impl AllocationIdentity {
    /// Mints the identity of a new allocation.
    pub fn create(counter: GenerationCounter) -> (r: Result<
        (Self, GenerationCounter),
        IdentityRefusal,
    >)
        ensures
            match minted(counter) {
                Err(e) => r == Err::<(Self, GenerationCounter), IdentityRefusal>(e),
                Ok(m) => r == Ok::<(Self, GenerationCounter), IdentityRefusal>(
                    (AllocationIdentity { generation: m.0, epoch: m.1.epoch, opens: 0 }, m.1),
                ),
            },
    {
        let (generation, counter): (u64, GenerationCounter) = counter.mint()?;
        Ok((AllocationIdentity { generation, epoch: counter.epoch, opens: 0 }, counter))
    }

    /// Opens the allocation once more.
    pub fn open(self, adapter_epoch: u32) -> (r: Result<Self, IdentityRefusal>)
        ensures
            r == opened(self, adapter_epoch),
    {
        if self.epoch != adapter_epoch {
            return Err(
                IdentityRefusal::StaleAdapterEpoch { object_epoch: self.epoch, adapter_epoch },
            );
        }
        if self.opens == u32::MAX {
            return Err(IdentityRefusal::OpenCountOverflow);
        }
        Ok(
            AllocationIdentity {
                generation: self.generation,
                epoch: self.epoch,
                opens: self.opens + 1,
            },
        )
    }

    /// Whether an expected generation still names this allocation. Zero names none.
    pub fn matches_expected(
        &self,
        expected_allocation_generation: u64,
        adapter_epoch: u32,
    ) -> (r: Result<bool, IdentityRefusal>)
        ensures
            r == (if expected_allocation_generation == 0 {
                Err::<bool, IdentityRefusal>(IdentityRefusal::ExpectedGenerationZero)
            } else if self.epoch != adapter_epoch {
                Err(IdentityRefusal::StaleAdapterEpoch { object_epoch: self.epoch, adapter_epoch })
            } else {
                Ok(self.generation == expected_allocation_generation)
            }),
    {
        if expected_allocation_generation == 0 {
            return Err(IdentityRefusal::ExpectedGenerationZero);
        }
        if self.epoch != adapter_epoch {
            return Err(
                IdentityRefusal::StaleAdapterEpoch { object_epoch: self.epoch, adapter_epoch },
            );
        }
        Ok(self.generation == expected_allocation_generation)
    }
}

/// Generations are nonzero and strictly increase, and a reset takes none back.
pub proof fn law_generations_never_repeat(c: GenerationCounter)
    requires
        minted(c) is Ok,
    ensures
        minted(c)->Ok_0.0 != 0,
        minted(c)->Ok_0.1.next > minted(c)->Ok_0.0,
        after_reset(c) is Ok ==> after_reset(c)->Ok_0.next == c.next && after_reset(c)->Ok_0.epoch
            > c.epoch,
        minted(minted(c)->Ok_0.1) is Ok ==> minted(minted(c)->Ok_0.1)->Ok_0.0 > minted(c)->Ok_0.0,
{
}

/// After a reset no allocation from before it can be opened.
pub proof fn law_reset_makes_stale(c: GenerationCounter, a: AllocationIdentity)
    requires
        a.epoch == c.epoch,
        after_reset(c) is Ok,
    ensures
        opened(a, after_reset(c)->Ok_0.epoch) is Err,
{
}

/// The head fields of an ordinary allocation's record are those that stand in `b`.
pub open spec fn is_hwa2_of(d: HeliosWddmAllocationDescV2, b: Seq<u8>) -> bool {
    &&& d.magic == bytes::word32(b, 0)
    &&& d.abi_version == bytes::word16(b, 4)
    &&& d.struct_size == bytes::word16(b, 6)
    &&& d.package_generation == bytes::word64(b, 8)
    &&& d.allocation_generation == bytes::word64(b, 16)
    &&& d.byte_size == bytes::word64(b, 24)
    &&& d.width == bytes::word32(b, 32)
    &&& d.height == bytes::word32(b, 36)
    &&& d.depth_or_array_size == bytes::word32(b, 40)
    &&& d.mip_levels == bytes::word32(b, 44)
    &&& d.dxgi_format == bytes::word32(b, 48)
    &&& d.d3d_ddi_format == bytes::word32(b, 52)
    &&& d.sample_count == bytes::word32(b, 56)
    &&& d.sample_quality == bytes::word32(b, 60)
    &&& d.allocation_kind == bytes::word32(b, 64)
    &&& d.flags == bytes::word32(b, 68)
    &&& d.bind_flags == bytes::word32(b, 72)
    &&& d.misc_flags == bytes::word32(b, 76)
    &&& d.vidpn_source == bytes::word32(b, 80)
    &&& d.standard_allocation_type == bytes::word32(b, 84)
    &&& d.swizzle_class == bytes::word32(b, 88)
    &&& d.memory_class == bytes::word32(b, 92)
    &&& d.plane_count == bytes::word32(b, 96)
    &&& d.reserved == bytes::word32(b, 100)
    &&& is_plane_of(d.planes@[0], b, 104)
    &&& is_plane_of(d.planes@[1], b, 120)
    &&& is_plane_of(d.planes@[2], b, 136)
    &&& is_plane_of(d.planes@[3], b, 152)
}

pub open spec fn is_plane_of(p: HeliosWddmPlaneRecordV2, b: Seq<u8>, at: int) -> bool {
    p.offset == bytes::word64(b, at) && p.row_pitch == bytes::word32(b, at + 8) && p.slice_pitch
        == bytes::word32(b, at + 12)
}

fn read_plane(b: &[u8], at: usize) -> (p: HeliosWddmPlaneRecordV2)
    requires
        at + 16 <= b.len(),
    ensures
        is_plane_of(p, b@, at as int),
{
    HeliosWddmPlaneRecordV2 {
        offset: bytes::read64(b, at),
        row_pitch: bytes::read32(b, at + 8),
        slice_pitch: bytes::read32(b, at + 12),
    }
}

/// Reads the record of an ordinary allocation. Only a buffer of exactly its length
/// holds one.
pub fn decode_hwa2(b: &[u8]) -> (r: Result<HeliosWddmAllocationDescV2, HeliosAllocDescRejection>)
    ensures
        if b@.len() != 168 {
            r == Err::<HeliosWddmAllocationDescV2, HeliosAllocDescRejection>(
                HeliosAllocDescRejection::PrivateDataSize {
                    found: b@.len() as usize,
                    expected: 168,
                },
            )
        } else {
            r is Ok && is_hwa2_of(r->Ok_0, b@)
        },
{
    if b.len() != 168 {
        return Err(HeliosAllocDescRejection::PrivateDataSize { found: b.len(), expected: 168 });
    }
    let planes: [HeliosWddmPlaneRecordV2; 4] = [
        read_plane(b, 104),
        read_plane(b, 120),
        read_plane(b, 136),
        read_plane(b, 152),
    ];
    Ok(
        HeliosWddmAllocationDescV2 {
            magic: bytes::read32(b, 0),
            abi_version: bytes::read16(b, 4),
            struct_size: bytes::read16(b, 6),
            package_generation: bytes::read64(b, 8),
            allocation_generation: bytes::read64(b, 16),
            byte_size: bytes::read64(b, 24),
            width: bytes::read32(b, 32),
            height: bytes::read32(b, 36),
            depth_or_array_size: bytes::read32(b, 40),
            mip_levels: bytes::read32(b, 44),
            dxgi_format: bytes::read32(b, 48),
            d3d_ddi_format: bytes::read32(b, 52),
            sample_count: bytes::read32(b, 56),
            sample_quality: bytes::read32(b, 60),
            allocation_kind: bytes::read32(b, 64),
            flags: bytes::read32(b, 68),
            bind_flags: bytes::read32(b, 72),
            misc_flags: bytes::read32(b, 76),
            vidpn_source: bytes::read32(b, 80),
            standard_allocation_type: bytes::read32(b, 84),
            swizzle_class: bytes::read32(b, 88),
            memory_class: bytes::read32(b, 92),
            plane_count: bytes::read32(b, 96),
            reserved: bytes::read32(b, 100),
            planes,
        },
    )
}

/// What the kernel driver owns in a request is filled in, if anything.
pub open spec fn input_refusal(
    d: HeliosWddmAllocationDescV2,
    package_generation: u64,
    vocabulary: Hwa2Vocabulary,
) -> Option<HeliosAllocDescRejection> {
    if d.package_generation != package_generation {
        Some(
            HeliosAllocDescRejection::PackageGeneration {
                found: d.package_generation,
                expected: package_generation,
            },
        )
    } else if d.allocation_generation != 0 {
        Some(
            HeliosAllocDescRejection::AllocationGenerationNonZeroOnInput {
                found: d.allocation_generation,
            },
        )
    } else if d.flags & vocabulary.flag_kmd_owned_mask != 0 {
        Some(
            HeliosAllocDescRejection::KmdOwnedFlagSetOnInput {
                bits: d.flags & vocabulary.flag_kmd_owned_mask,
            },
        )
    } else {
        None
    }
}

/// What the kernel driver owns in a finished record is wrong, if anything.
pub open spec fn output_refusal(
    d: HeliosWddmAllocationDescV2,
    package_generation: u64,
    vocabulary: Hwa2Vocabulary,
) -> Option<HeliosAllocDescRejection> {
    if d.package_generation != package_generation {
        Some(
            HeliosAllocDescRejection::PackageGeneration {
                found: d.package_generation,
                expected: package_generation,
            },
        )
    } else if d.allocation_generation == 0 {
        Some(HeliosAllocDescRejection::AllocationGenerationZero)
    } else if d.flags & vocabulary.flag_direct_flip_compatible != 0 && d.flags
        & vocabulary.flag_primary == 0 {
        Some(HeliosAllocDescRejection::DirectFlipWithoutPrimary)
    } else if d.flags & vocabulary.flag_d3d12_runtime_primary != 0 && d.vidpn_source
        != protocol::D3DDDI_ID_UNINITIALIZED {
        Some(
            HeliosAllocDescRejection::D3D12RuntimePrimaryNotSentinel { found: d.vidpn_source },
        )
    } else {
        None
    }
}

/// The first of two judgements that refuses.
pub open spec fn first_refusal<E>(record: Result<(), E>, then: Option<E>) -> Option<E> {
    match record {
        Err(e) => Some(e),
        Ok(_) => then,
    }
}

/// Judges what the kernel driver owns in a request.
pub fn check_input(
    d: &HeliosWddmAllocationDescV2,
    package_generation: u64,
    vocabulary: &Hwa2Vocabulary,
) -> (r: Option<HeliosAllocDescRejection>)
    ensures
        r == input_refusal(*d, package_generation, *vocabulary),
{
    if d.package_generation != package_generation {
        return Some(
            HeliosAllocDescRejection::PackageGeneration {
                found: d.package_generation,
                expected: package_generation,
            },
        );
    }
    if d.allocation_generation != 0 {
        return Some(
            HeliosAllocDescRejection::AllocationGenerationNonZeroOnInput {
                found: d.allocation_generation,
            },
        );
    }
    let bits: u32 = d.flags & vocabulary.flag_kmd_owned_mask;
    if bits != 0 {
        return Some(HeliosAllocDescRejection::KmdOwnedFlagSetOnInput { bits });
    }
    None
}

/// Judges what the kernel driver owns in a finished record.
pub fn check_output(
    d: &HeliosWddmAllocationDescV2,
    package_generation: u64,
    vocabulary: &Hwa2Vocabulary,
) -> (r: Option<HeliosAllocDescRejection>)
    ensures
        r == output_refusal(*d, package_generation, *vocabulary),
{
    if d.package_generation != package_generation {
        return Some(
            HeliosAllocDescRejection::PackageGeneration {
                found: d.package_generation,
                expected: package_generation,
            },
        );
    }
    if d.allocation_generation == 0 {
        return Some(HeliosAllocDescRejection::AllocationGenerationZero);
    }
    if d.has_flag(vocabulary.flag_direct_flip_compatible) && !d.has_flag(vocabulary.flag_primary) {
        return Some(HeliosAllocDescRejection::DirectFlipWithoutPrimary);
    }
    if d.has_flag(vocabulary.flag_d3d12_runtime_primary) && d.vidpn_source
        != protocol::D3DDDI_ID_UNINITIALIZED {
        return Some(
            HeliosAllocDescRejection::D3D12RuntimePrimaryNotSentinel { found: d.vidpn_source },
        );
    }
    None
}

/// Admits the record of a create request.
pub fn hwa2_admit_create_input(
    b: &[u8],
    package_generation: u64,
    vocabulary: &Hwa2Vocabulary,
    record: Result<(), HeliosAllocDescRejection>,
) -> (r: Result<HeliosWddmAllocationDescV2, IdentityRefusal>)
    ensures
        if b@.len() != 168 {
            r == Err::<HeliosWddmAllocationDescV2, IdentityRefusal>(
                IdentityRefusal::Hwa2(
                    HeliosAllocDescRejection::PrivateDataSize {
                        found: b@.len() as usize,
                        expected: 168,
                    },
                ),
            )
        } else {
            exists|d: HeliosWddmAllocationDescV2| #[trigger]
                is_hwa2_of(d, b@) && r == (match first_refusal(
                    record,
                    input_refusal(d, package_generation, *vocabulary),
                ) {
                    Some(e) => Err::<HeliosWddmAllocationDescV2, IdentityRefusal>(
                        IdentityRefusal::Hwa2(e),
                    ),
                    None => Ok(d),
                })
        },
{
    let d = match decode_hwa2(b) {
        Ok(d) => d,
        Err(e) => {
            return Err(IdentityRefusal::Hwa2(e));
        },
    };
    if let Err(e) = record {
        return Err(IdentityRefusal::Hwa2(e));
    }
    if let Some(e) = check_input(&d, package_generation, vocabulary) {
        return Err(IdentityRefusal::Hwa2(e));
    }
    Ok(d)
}

/// The record of a created allocation: the request, with a generation and with the
/// flags of the kernel driver.
pub open spec fn stamped(
    d: HeliosWddmAllocationDescV2,
    allocation_generation: u64,
    kmd_flags: u32,
) -> HeliosWddmAllocationDescV2 {
    HeliosWddmAllocationDescV2 { allocation_generation, flags: d.flags | kmd_flags, ..d }
}

/// Finishes the record of a created allocation. The kernel driver adds a generation
/// and its own flags and nothing else; the finished record is judged again.
pub fn hwa2_stamp_create_output(
    input: &HeliosWddmAllocationDescV2,
    allocation_generation: u64,
    kmd_flags: u32,
    package_generation: u64,
    vocabulary: &Hwa2Vocabulary,
    record: Result<(), HeliosAllocDescRejection>,
) -> (r: Result<HeliosWddmAllocationDescV2, IdentityRefusal>)
    ensures
        ({
            let output = stamped(*input, allocation_generation, kmd_flags);
            let stray = kmd_flags & !vocabulary.flag_kmd_owned_mask;
            r == (if allocation_generation == 0 {
                Err::<HeliosWddmAllocationDescV2, IdentityRefusal>(
                    IdentityRefusal::GenerationZeroAtStamp,
                )
            } else if stray != 0 {
                Err(IdentityRefusal::KmdFlagOutsidePartition { bits: stray })
            } else {
                match first_refusal(
                    record,
                    output_refusal(output, package_generation, *vocabulary),
                ) {
                    Some(e) => Err(IdentityRefusal::Hwa2(e)),
                    None => Ok(output),
                }
            })
        }),
{
    if allocation_generation == 0 {
        return Err(IdentityRefusal::GenerationZeroAtStamp);
    }
    let stray: u32 = kmd_flags & !vocabulary.flag_kmd_owned_mask;
    if stray != 0 {
        return Err(IdentityRefusal::KmdFlagOutsidePartition { bits: stray });
    }
    let mut output = *input;
    output.allocation_generation = allocation_generation;
    output.flags = output.flags | kmd_flags;
    if let Err(e) = record {
        return Err(IdentityRefusal::Hwa2(e));
    }
    if let Some(e) = check_output(&output, package_generation, vocabulary) {
        return Err(IdentityRefusal::Hwa2(e));
    }
    Ok(output)
}

/// Admits the record of an allocation that is opened. Nothing is written.
pub fn hwa2_admit_open(
    b: &[u8],
    package_generation: u64,
    vocabulary: &Hwa2Vocabulary,
    record: Result<(), HeliosAllocDescRejection>,
) -> (r: Result<HeliosWddmAllocationDescV2, IdentityRefusal>)
    ensures
        if b@.len() != 168 {
            r == Err::<HeliosWddmAllocationDescV2, IdentityRefusal>(
                IdentityRefusal::Hwa2(
                    HeliosAllocDescRejection::PrivateDataSize {
                        found: b@.len() as usize,
                        expected: 168,
                    },
                ),
            )
        } else {
            exists|d: HeliosWddmAllocationDescV2| #[trigger]
                is_hwa2_of(d, b@) && r == (match first_refusal(
                    record,
                    output_refusal(d, package_generation, *vocabulary),
                ) {
                    Some(e) => Err::<HeliosWddmAllocationDescV2, IdentityRefusal>(
                        IdentityRefusal::Hwa2(e),
                    ),
                    None => Ok(d),
                })
        },
{
    let d = match decode_hwa2(b) {
        Ok(d) => d,
        Err(e) => {
            return Err(IdentityRefusal::Hwa2(e));
        },
    };
    if let Err(e) = record {
        return Err(IdentityRefusal::Hwa2(e));
    }
    if let Some(e) = check_output(&d, package_generation, vocabulary) {
        return Err(IdentityRefusal::Hwa2(e));
    }
    Ok(d)
}

/// Both records agree on everything that the kernel driver does not own.
pub open spec fn echoes(
    a: HeliosWddmAllocationDescV2,
    b: HeliosWddmAllocationDescV2,
    mask: u32,
) -> bool {
    &&& a.magic == b.magic
    &&& a.abi_version == b.abi_version
    &&& a.struct_size == b.struct_size
    &&& a.package_generation == b.package_generation
    &&& a.byte_size == b.byte_size
    &&& a.width == b.width
    &&& a.height == b.height
    &&& a.depth_or_array_size == b.depth_or_array_size
    &&& a.mip_levels == b.mip_levels
    &&& a.dxgi_format == b.dxgi_format
    &&& a.d3d_ddi_format == b.d3d_ddi_format
    &&& a.sample_count == b.sample_count
    &&& a.sample_quality == b.sample_quality
    &&& a.allocation_kind == b.allocation_kind
    &&& a.flags & !mask == b.flags & !mask
    &&& a.bind_flags == b.bind_flags
    &&& a.misc_flags == b.misc_flags
    &&& a.vidpn_source == b.vidpn_source
    &&& a.standard_allocation_type == b.standard_allocation_type
    &&& a.swizzle_class == b.swizzle_class
    &&& a.memory_class == b.memory_class
    &&& a.plane_count == b.plane_count
    &&& a.reserved == b.reserved
    &&& a.planes@ == b.planes@
}

/// Whether two records agree on everything that the kernel driver does not own.
pub fn hwa2_echoed_fields_equal(
    a: &HeliosWddmAllocationDescV2,
    b: &HeliosWddmAllocationDescV2,
    vocabulary: &Hwa2Vocabulary,
) -> (r: bool)
    ensures
        r == echoes(*a, *b, vocabulary.flag_kmd_owned_mask),
{
    let mask: u32 = vocabulary.flag_kmd_owned_mask;
    let head: bool = a.magic == b.magic && a.abi_version == b.abi_version && a.struct_size
        == b.struct_size && a.package_generation == b.package_generation && a.byte_size
        == b.byte_size && a.width == b.width && a.height == b.height && a.depth_or_array_size
        == b.depth_or_array_size && a.mip_levels == b.mip_levels && a.dxgi_format == b.dxgi_format
        && a.d3d_ddi_format == b.d3d_ddi_format && a.sample_count == b.sample_count
        && a.sample_quality == b.sample_quality && a.allocation_kind == b.allocation_kind && a.flags
        & !mask == b.flags & !mask && a.bind_flags == b.bind_flags && a.misc_flags == b.misc_flags
        && a.vidpn_source == b.vidpn_source && a.standard_allocation_type
        == b.standard_allocation_type && a.swizzle_class == b.swizzle_class && a.memory_class
        == b.memory_class && a.plane_count == b.plane_count && a.reserved == b.reserved;
    let planes: bool = a.planes[0] == b.planes[0] && a.planes[1] == b.planes[1] && a.planes[2]
        == b.planes[2] && a.planes[3] == b.planes[3];
    proof {
        if planes {
            assert(a.planes@ =~= b.planes@);
        } else {
            assert(a.planes@ != b.planes@);
        }
    }
    head && planes
}

/// The finished record of a create echoes the request, and is no request any more:
/// its generation alone bars it.
pub proof fn law_stamp_echoes_the_request(
    d: HeliosWddmAllocationDescV2,
    allocation_generation: u64,
    kmd_flags: u32,
    package_generation: u64,
    vocabulary: Hwa2Vocabulary,
)
    requires
        allocation_generation != 0,
        kmd_flags & !vocabulary.flag_kmd_owned_mask == 0,
        input_refusal(d, package_generation, vocabulary) is None,
    ensures
        echoes(
            d,
            stamped(d, allocation_generation, kmd_flags),
            vocabulary.flag_kmd_owned_mask,
        ),
        stamped(d, allocation_generation, kmd_flags).flags & vocabulary.flag_kmd_owned_mask
            == kmd_flags,
        input_refusal(
            stamped(d, allocation_generation, kmd_flags),
            package_generation,
            vocabulary,
        ) is Some,
{
    let flags = d.flags;
    let mask = vocabulary.flag_kmd_owned_mask;
    assert(flags & !mask == (flags | kmd_flags) & !mask && (flags | kmd_flags) & mask == kmd_flags)
        by (bit_vector)
        requires
            kmd_flags & !mask == 0,
            flags & mask == 0,
    ;
}

/// The bytes of a plane.
pub open spec fn then_plane(s: Seq<u8>, p: HeliosWddmPlaneRecordV2) -> Seq<u8> {
    s + bytes::le64(p.offset) + bytes::le32(p.row_pitch) + bytes::le32(p.slice_pitch)
}

/// The first 64 bytes of a record.
pub open spec fn hwa2_front(d: HeliosWddmAllocationDescV2) -> Seq<u8> {
    Seq::<u8>::empty() + bytes::le32(d.magic) + bytes::le16(d.abi_version) + bytes::le16(
        d.struct_size,
    ) + bytes::le64(d.package_generation) + bytes::le64(d.allocation_generation) + bytes::le64(
        d.byte_size,
    ) + bytes::le32(d.width) + bytes::le32(d.height) + bytes::le32(d.depth_or_array_size)
        + bytes::le32(d.mip_levels) + bytes::le32(d.dxgi_format) + bytes::le32(d.d3d_ddi_format)
        + bytes::le32(d.sample_count) + bytes::le32(d.sample_quality)
}

/// The next 40 bytes of a record.
pub open spec fn then_hwa2_middle(s: Seq<u8>, d: HeliosWddmAllocationDescV2) -> Seq<u8> {
    s + bytes::le32(d.allocation_kind) + bytes::le32(d.flags) + bytes::le32(d.bind_flags)
        + bytes::le32(d.misc_flags) + bytes::le32(d.vidpn_source) + bytes::le32(
        d.standard_allocation_type,
    ) + bytes::le32(d.swizzle_class) + bytes::le32(d.memory_class) + bytes::le32(d.plane_count)
        + bytes::le32(d.reserved)
}

/// The bytes of the record of an ordinary allocation.
pub open spec fn hwa2_bytes(d: HeliosWddmAllocationDescV2) -> Seq<u8> {
    then_plane(
        then_plane(
            then_plane(
                then_plane(then_hwa2_middle(hwa2_front(d), d), d.planes@[0]),
                d.planes@[1],
            ),
            d.planes@[2],
        ),
        d.planes@[3],
    )
}

fn write_plane(w: &mut StreamWriter<168>, p: HeliosWddmPlaneRecordV2)
    requires
        old(w).wf(),
    ensures
        final(w).wf(),
        final(w)@ == then_plane(old(w)@, p),
{
    w.u64(p.offset);
    w.u32(p.row_pitch);
    w.u32(p.slice_pitch);
}

fn write_hwa2_front(d: &HeliosWddmAllocationDescV2) -> (w: StreamWriter<168>)
    ensures
        w.wf(),
        w@ == hwa2_front(*d),
{
    let mut w = StreamWriter::<168>::new();
    w.u32(d.magic);
    w.u16(d.abi_version);
    w.u16(d.struct_size);
    w.u64(d.package_generation);
    w.u64(d.allocation_generation);
    w.u64(d.byte_size);
    w.u32(d.width);
    w.u32(d.height);
    w.u32(d.depth_or_array_size);
    w.u32(d.mip_levels);
    w.u32(d.dxgi_format);
    w.u32(d.d3d_ddi_format);
    w.u32(d.sample_count);
    w.u32(d.sample_quality);
    w
}

fn write_hwa2_middle(w: &mut StreamWriter<168>, d: &HeliosWddmAllocationDescV2)
    requires
        old(w).wf(),
    ensures
        final(w).wf(),
        final(w)@ == then_hwa2_middle(old(w)@, *d),
{
    w.u32(d.allocation_kind);
    w.u32(d.flags);
    w.u32(d.bind_flags);
    w.u32(d.misc_flags);
    w.u32(d.vidpn_source);
    w.u32(d.standard_allocation_type);
    w.u32(d.swizzle_class);
    w.u32(d.memory_class);
    w.u32(d.plane_count);
    w.u32(d.reserved);
}

/// Encodes the record of an ordinary allocation.
pub fn encode_hwa2(desc: &HeliosWddmAllocationDescV2) -> (out: [u8; 168])
    ensures
        out@ == hwa2_bytes(*desc),
{
    broadcast use bytes::group_lengths;
    let mut w = write_hwa2_front(desc);
    write_hwa2_middle(&mut w, desc);
    write_plane(&mut w, desc.planes[0]);
    write_plane(&mut w, desc.planes[1]);
    write_plane(&mut w, desc.planes[2]);
    write_plane(&mut w, desc.planes[3]);
    assert(w@.len() == 168);
    w.to_array()
}

/// `b` begins with `a`.
pub open spec fn begins_with(b: Seq<u8>, a: Seq<u8>) -> bool {
    a.len() <= b.len() && forall|i: int| 0 <= i < a.len() ==> #[trigger] b[i] == a[i]
}

proof fn lemma_front(d: HeliosWddmAllocationDescV2)
    ensures
        hwa2_front(d).len() == 64,
        bytes::word32(hwa2_front(d), 0) == d.magic,
        bytes::word16(hwa2_front(d), 4) == d.abi_version,
        bytes::word16(hwa2_front(d), 6) == d.struct_size,
        bytes::word64(hwa2_front(d), 8) == d.package_generation,
        bytes::word64(hwa2_front(d), 16) == d.allocation_generation,
        bytes::word64(hwa2_front(d), 24) == d.byte_size,
        bytes::word32(hwa2_front(d), 32) == d.width,
        bytes::word32(hwa2_front(d), 36) == d.height,
        bytes::word32(hwa2_front(d), 40) == d.depth_or_array_size,
        bytes::word32(hwa2_front(d), 44) == d.mip_levels,
        bytes::word32(hwa2_front(d), 48) == d.dxgi_format,
        bytes::word32(hwa2_front(d), 52) == d.d3d_ddi_format,
        bytes::word32(hwa2_front(d), 56) == d.sample_count,
        bytes::word32(hwa2_front(d), 60) == d.sample_quality,
{
    broadcast use bytes::group_lengths;
    let b = hwa2_front(d);
    assert(b.subrange(0, 4) =~= bytes::le32(d.magic));
    bytes::lemma_word32_at(b, 0, d.magic);
    assert(b.subrange(4, 6) =~= bytes::le16(d.abi_version));
    bytes::lemma_word16_at(b, 4, d.abi_version);
    assert(b.subrange(6, 8) =~= bytes::le16(d.struct_size));
    bytes::lemma_word16_at(b, 6, d.struct_size);
    assert(b.subrange(8, 16) =~= bytes::le64(d.package_generation));
    bytes::lemma_word64_at(b, 8, d.package_generation);
    assert(b.subrange(16, 24) =~= bytes::le64(d.allocation_generation));
    bytes::lemma_word64_at(b, 16, d.allocation_generation);
    assert(b.subrange(24, 32) =~= bytes::le64(d.byte_size));
    bytes::lemma_word64_at(b, 24, d.byte_size);
    assert(b.subrange(32, 36) =~= bytes::le32(d.width));
    bytes::lemma_word32_at(b, 32, d.width);
    assert(b.subrange(36, 40) =~= bytes::le32(d.height));
    bytes::lemma_word32_at(b, 36, d.height);
    assert(b.subrange(40, 44) =~= bytes::le32(d.depth_or_array_size));
    bytes::lemma_word32_at(b, 40, d.depth_or_array_size);
    assert(b.subrange(44, 48) =~= bytes::le32(d.mip_levels));
    bytes::lemma_word32_at(b, 44, d.mip_levels);
    assert(b.subrange(48, 52) =~= bytes::le32(d.dxgi_format));
    bytes::lemma_word32_at(b, 48, d.dxgi_format);
    assert(b.subrange(52, 56) =~= bytes::le32(d.d3d_ddi_format));
    bytes::lemma_word32_at(b, 52, d.d3d_ddi_format);
    assert(b.subrange(56, 60) =~= bytes::le32(d.sample_count));
    bytes::lemma_word32_at(b, 56, d.sample_count);
    assert(b.subrange(60, 64) =~= bytes::le32(d.sample_quality));
    bytes::lemma_word32_at(b, 60, d.sample_quality);
}

proof fn lemma_middle(s: Seq<u8>, d: HeliosWddmAllocationDescV2)
    requires
        s.len() == 64,
    ensures
        then_hwa2_middle(s, d).len() == 104,
        begins_with(then_hwa2_middle(s, d), s),
        bytes::word32(then_hwa2_middle(s, d), 64) == d.allocation_kind,
        bytes::word32(then_hwa2_middle(s, d), 68) == d.flags,
        bytes::word32(then_hwa2_middle(s, d), 72) == d.bind_flags,
        bytes::word32(then_hwa2_middle(s, d), 76) == d.misc_flags,
        bytes::word32(then_hwa2_middle(s, d), 80) == d.vidpn_source,
        bytes::word32(then_hwa2_middle(s, d), 84) == d.standard_allocation_type,
        bytes::word32(then_hwa2_middle(s, d), 88) == d.swizzle_class,
        bytes::word32(then_hwa2_middle(s, d), 92) == d.memory_class,
        bytes::word32(then_hwa2_middle(s, d), 96) == d.plane_count,
        bytes::word32(then_hwa2_middle(s, d), 100) == d.reserved,
{
    broadcast use bytes::group_lengths;
    let b = then_hwa2_middle(s, d);
    assert(b.subrange(64, 68) =~= bytes::le32(d.allocation_kind));
    bytes::lemma_word32_at(b, 64, d.allocation_kind);
    assert(b.subrange(68, 72) =~= bytes::le32(d.flags));
    bytes::lemma_word32_at(b, 68, d.flags);
    assert(b.subrange(72, 76) =~= bytes::le32(d.bind_flags));
    bytes::lemma_word32_at(b, 72, d.bind_flags);
    assert(b.subrange(76, 80) =~= bytes::le32(d.misc_flags));
    bytes::lemma_word32_at(b, 76, d.misc_flags);
    assert(b.subrange(80, 84) =~= bytes::le32(d.vidpn_source));
    bytes::lemma_word32_at(b, 80, d.vidpn_source);
    assert(b.subrange(84, 88) =~= bytes::le32(d.standard_allocation_type));
    bytes::lemma_word32_at(b, 84, d.standard_allocation_type);
    assert(b.subrange(88, 92) =~= bytes::le32(d.swizzle_class));
    bytes::lemma_word32_at(b, 88, d.swizzle_class);
    assert(b.subrange(92, 96) =~= bytes::le32(d.memory_class));
    bytes::lemma_word32_at(b, 92, d.memory_class);
    assert(b.subrange(96, 100) =~= bytes::le32(d.plane_count));
    bytes::lemma_word32_at(b, 96, d.plane_count);
    assert(b.subrange(100, 104) =~= bytes::le32(d.reserved));
    bytes::lemma_word32_at(b, 100, d.reserved);
}

proof fn lemma_plane(s: Seq<u8>, p: HeliosWddmPlaneRecordV2)
    ensures
        then_plane(s, p).len() == s.len() + 16,
        begins_with(then_plane(s, p), s),
        is_plane_of(p, then_plane(s, p), s.len() as int),
{
    broadcast use bytes::group_lengths;
    let b = then_plane(s, p);
    let n = s.len() as int;
    assert(b.subrange(n, n + 8) =~= bytes::le64(p.offset));
    bytes::lemma_word64_at(b, n, p.offset);
    assert(b.subrange(n + 8, n + 12) =~= bytes::le32(p.row_pitch));
    bytes::lemma_word32_at(b, n + 8, p.row_pitch);
    assert(b.subrange(n + 12, n + 16) =~= bytes::le32(p.slice_pitch));
    bytes::lemma_word32_at(b, n + 12, p.slice_pitch);
}

/// The encoded record of an ordinary allocation reads back as what was encoded.
pub proof fn law_hwa2_round_trip(d: HeliosWddmAllocationDescV2)
    ensures
        hwa2_bytes(d).len() == 168,
        is_hwa2_of(d, hwa2_bytes(d)),
{
    let f = hwa2_front(d);
    let m = then_hwa2_middle(f, d);
    let p0 = then_plane(m, d.planes@[0]);
    let p1 = then_plane(p0, d.planes@[1]);
    let p2 = then_plane(p1, d.planes@[2]);
    let p3 = then_plane(p2, d.planes@[3]);
    lemma_front(d);
    lemma_middle(f, d);
    lemma_plane(m, d.planes@[0]);
    lemma_plane(p0, d.planes@[1]);
    lemma_plane(p1, d.planes@[2]);
    lemma_plane(p2, d.planes@[3]);
    assert(begins_with(p3, p2));
    assert(begins_with(p3, p1));
    assert(begins_with(p3, p0));
    assert(begins_with(p3, m));
    assert(begins_with(p3, f));
}

/// A record is read back in one way only: what was decoded from the bytes of a
/// record is that record.
pub proof fn law_hwa2_reads_one_way(
    d: HeliosWddmAllocationDescV2,
    e: HeliosWddmAllocationDescV2,
    b: Seq<u8>,
)
    requires
        is_hwa2_of(d, b),
        is_hwa2_of(e, b),
    ensures
        echoes(d, e, 0),
        d.allocation_generation == e.allocation_generation,
        d.flags == e.flags,
{
    assert forall|i: int| 0 <= i < 4 implies d.planes@[i] == e.planes@[i] by {
        assert(i == 0 || i == 1 || i == 2 || i == 3);
    }
    assert(d.planes@ =~= e.planes@);
}

/// What a stamp changes in the bytes of a record: the generation and the flag word,
/// and no other byte.
pub proof fn law_stamp_changes_two_words(
    d: HeliosWddmAllocationDescV2,
    allocation_generation: u64,
    kmd_flags: u32,
    i: int,
)
    requires
        0 <= i < 168,
        !(16 <= i < 24),
        !(68 <= i < 72),
    ensures
        hwa2_bytes(stamped(d, allocation_generation, kmd_flags))[i] == hwa2_bytes(d)[i],
{
    let e = stamped(d, allocation_generation, kmd_flags);
    lemma_front(d);
    lemma_front(e);
    lemma_front_bytes(d, e, i);
    lemma_middle(hwa2_front(d), d);
    lemma_middle(hwa2_front(e), e);
    lemma_middle_bytes(d, e, i);
    lemma_planes_bytes(
        then_hwa2_middle(hwa2_front(d), d),
        then_hwa2_middle(hwa2_front(e), e),
        d,
        i,
    );
}

proof fn lemma_front_bytes(
    d: HeliosWddmAllocationDescV2,
    e: HeliosWddmAllocationDescV2,
    i: int,
)
    requires
        e == (HeliosWddmAllocationDescV2 {
            allocation_generation: e.allocation_generation,
            flags: e.flags,
            ..d
        }),
    ensures
        0 <= i < 64 && !(16 <= i < 24) ==> hwa2_front(e)[i] == hwa2_front(d)[i],
{
    broadcast use bytes::group_lengths;
}

proof fn lemma_middle_bytes(
    d: HeliosWddmAllocationDescV2,
    e: HeliosWddmAllocationDescV2,
    i: int,
)
    requires
        e == (HeliosWddmAllocationDescV2 {
            allocation_generation: e.allocation_generation,
            flags: e.flags,
            ..d
        }),
        hwa2_front(d).len() == 64,
        hwa2_front(e).len() == 64,
        0 <= i < 64 && !(16 <= i < 24) ==> hwa2_front(e)[i] == hwa2_front(d)[i],
    ensures
        0 <= i < 104 && !(16 <= i < 24) && !(68 <= i < 72) ==> then_hwa2_middle(
            hwa2_front(e),
            e,
        )[i] == then_hwa2_middle(hwa2_front(d), d)[i],
{
    broadcast use bytes::group_lengths;
}

proof fn lemma_planes_bytes(a: Seq<u8>, b: Seq<u8>, d: HeliosWddmAllocationDescV2, i: int)
    requires
        a.len() == 104,
        b.len() == 104,
        0 <= i < 168,
        i < 104 ==> a[i] == b[i],
    ensures
        then_plane(
            then_plane(then_plane(then_plane(a, d.planes@[0]), d.planes@[1]), d.planes@[2]),
            d.planes@[3],
        )[i] == then_plane(
            then_plane(then_plane(then_plane(b, d.planes@[0]), d.planes@[1]), d.planes@[2]),
            d.planes@[3],
        )[i],
{
    broadcast use bytes::group_lengths;
}

/// The record of a memory allocation.
#[derive(Debug, Clone, Copy, PartialEq, Eq, Structural)]
pub struct HeliosVenusMemoryAllocationV1 {
    pub magic: u32,
    pub abi_version: u16,
    pub struct_size: u16,
    pub package_generation: u64,
    pub object_generation: u64,
    pub byte_size: u64,
    pub role: u32,
    pub access: u32,
    pub cache_policy: u32,
    pub segment_page_shift: u32,
    pub allocation_alignment: u64,
    pub reserved: u64,
}

/// The record that stands in `b`.
pub open spec fn hvm1_of(b: Seq<u8>) -> HeliosVenusMemoryAllocationV1 {
    HeliosVenusMemoryAllocationV1 {
        magic: bytes::word32(b, 0),
        abi_version: bytes::word16(b, 4),
        struct_size: bytes::word16(b, 6),
        package_generation: bytes::word64(b, 8),
        object_generation: bytes::word64(b, 16),
        byte_size: bytes::word64(b, 24),
        role: bytes::word32(b, 32),
        access: bytes::word32(b, 36),
        cache_policy: bytes::word32(b, 40),
        segment_page_shift: bytes::word32(b, 44),
        allocation_alignment: bytes::word64(b, 48),
        reserved: bytes::word64(b, 56),
    }
}

/// Reads the record of a memory allocation. Only a buffer of exactly its length
/// holds one.
pub fn decode_hvm1(b: &[u8]) -> (r: Result<HeliosVenusMemoryAllocationV1, Hvm1Reject>)
    ensures
        r == (if b@.len() != 64 {
            Err::<HeliosVenusMemoryAllocationV1, Hvm1Reject>(Hvm1Reject::PrivateDataSizeMismatch)
        } else {
            Ok(hvm1_of(b@))
        }),
{
    if b.len() != 64 {
        return Err(Hvm1Reject::PrivateDataSizeMismatch);
    }
    Ok(
        HeliosVenusMemoryAllocationV1 {
            magic: bytes::read32(b, 0),
            abi_version: bytes::read16(b, 4),
            struct_size: bytes::read16(b, 6),
            package_generation: bytes::read64(b, 8),
            object_generation: bytes::read64(b, 16),
            byte_size: bytes::read64(b, 24),
            role: bytes::read32(b, 32),
            access: bytes::read32(b, 36),
            cache_policy: bytes::read32(b, 40),
            segment_page_shift: bytes::read32(b, 44),
            allocation_alignment: bytes::read64(b, 48),
            reserved: bytes::read64(b, 56),
        },
    )
}

/// What is wrong with a request for memory of a role, if anything: a reply pool has
/// one size, memory that the processor never sees has no processor access, and what
/// the kernel driver writes back is zero. `cpu_access` is every access of the
/// processor.
pub open spec fn hvm1_input_refusal(
    h: HeliosVenusMemoryAllocationV1,
    role: Hvm1Role,
    cpu_access: u32,
) -> Option<Hvm1Reject> {
    if role == Hvm1Role::VulkanDeviceLocal && h.access & cpu_access != 0 {
        Some(Hvm1Reject::AccessNotRoleCompatible)
    } else if role == Hvm1Role::ReplyPool && h.byte_size != HELIOS_HVM1_REPLY_POOL_BYTES {
        Some(Hvm1Reject::ByteSizeNotExactForRole)
    } else if h.object_generation != 0 || h.segment_page_shift != 0 || h.allocation_alignment != 0 {
        Some(Hvm1Reject::WriteBackFieldNotZeroOnInput)
    } else {
        None
    }
}

/// What a memory request is answered, given what its record says of itself.
pub open spec fn hvm1_admitted(
    b: Seq<u8>,
    cpu_access: u32,
    record: Result<Hvm1Role, Hvm1Reject>,
) -> Result<(HeliosVenusMemoryAllocationV1, Hvm1Role), IdentityRefusal> {
    if b.len() != 64 {
        Err(IdentityRefusal::Hvm1(Hvm1Reject::PrivateDataSizeMismatch))
    } else {
        match record {
            Err(e) => Err(IdentityRefusal::Hvm1(e)),
            Ok(role) => match hvm1_input_refusal(hvm1_of(b), role, cpu_access) {
                Some(e) => Err(IdentityRefusal::Hvm1(e)),
                None => Ok((hvm1_of(b), role)),
            },
        }
    }
}

/// Admits the record of a memory request, and says for what role.
pub fn hvm1_admit_create_input(
    b: &[u8],
    cpu_access: u32,
    record: Result<Hvm1Role, Hvm1Reject>,
) -> (r: Result<(HeliosVenusMemoryAllocationV1, Hvm1Role), IdentityRefusal>)
    ensures
        r == hvm1_admitted(b@, cpu_access, record),
{
    let h = match decode_hvm1(b) {
        Ok(h) => h,
        Err(e) => {
            return Err(IdentityRefusal::Hvm1(e));
        },
    };
    let role = match record {
        Ok(role) => role,
        Err(e) => {
            return Err(IdentityRefusal::Hvm1(e));
        },
    };
    if role == Hvm1Role::VulkanDeviceLocal && h.access & cpu_access != 0 {
        return Err(IdentityRefusal::Hvm1(Hvm1Reject::AccessNotRoleCompatible));
    }
    if role == Hvm1Role::ReplyPool && h.byte_size != HELIOS_HVM1_REPLY_POOL_BYTES {
        return Err(IdentityRefusal::Hvm1(Hvm1Reject::ByteSizeNotExactForRole));
    }
    if h.object_generation != 0 || h.segment_page_shift != 0 || h.allocation_alignment != 0 {
        return Err(IdentityRefusal::Hvm1(Hvm1Reject::WriteBackFieldNotZeroOnInput));
    }
    Ok((h, role))
}

/// The finished record of a memory allocation.
pub open spec fn hvm1_stamped(
    h: HeliosVenusMemoryAllocationV1,
    object_generation: u64,
    allocation_alignment: u64,
) -> HeliosVenusMemoryAllocationV1 {
    HeliosVenusMemoryAllocationV1 {
        object_generation,
        segment_page_shift: HELIOS_HVM1_SEGMENT_PAGE_SHIFT,
        allocation_alignment,
        ..h
    }
}

/// Finishes the record of a memory allocation. `record` is what the finished record
/// says of itself.
pub fn hvm1_stamp_create_output(
    input: &HeliosVenusMemoryAllocationV1,
    object_generation: u64,
    allocation_alignment: u64,
    record: Result<(), Hvm1Reject>,
) -> (r: Result<HeliosVenusMemoryAllocationV1, IdentityRefusal>)
    ensures
        r == (if object_generation == 0 {
            Err::<HeliosVenusMemoryAllocationV1, IdentityRefusal>(
                IdentityRefusal::GenerationZeroAtStamp,
            )
        } else if record is Err {
            Err(IdentityRefusal::Hvm1(record->Err_0))
        } else {
            Ok(hvm1_stamped(*input, object_generation, allocation_alignment))
        }),
{
    if object_generation == 0 {
        return Err(IdentityRefusal::GenerationZeroAtStamp);
    }
    if let Err(e) = record {
        return Err(IdentityRefusal::Hvm1(e));
    }
    let mut output = *input;
    output.object_generation = object_generation;
    output.segment_page_shift = HELIOS_HVM1_SEGMENT_PAGE_SHIFT;
    output.allocation_alignment = allocation_alignment;
    Ok(output)
}

/// Where memory of a role is placed.
#[derive(Debug, Clone, Copy, PartialEq, Eq, Structural)]
pub struct Hvm1Placement {
    pub cpu_visible: bool,
    pub cached: bool,
    pub accessed_physically: bool,
    pub explicit_residency_notification: bool,
    pub disable_partial_residency: bool,
    pub restricted_to_single_segment: bool,
    pub preferred_segment: u32,
    pub cache_policy: u32,
}

/// Admits the placement of a role. What is placed in the aperture segment needs
/// that segment.
pub fn hvm1_admit_placement(
    role: Hvm1Role,
    placement: Hvm1Placement,
    aperture_segment: u32,
    aperture_segment_exposed: bool,
) -> (r: Result<Hvm1Placement, IdentityRefusal>)
    ensures
        r == (if placement.preferred_segment == aperture_segment && !aperture_segment_exposed {
            Err::<Hvm1Placement, IdentityRefusal>(
                IdentityRefusal::ApertureSegmentNotExposed { role: role.number() },
            )
        } else {
            Ok(placement)
        }),
{
    if placement.preferred_segment == aperture_segment && !aperture_segment_exposed {
        return Err(IdentityRefusal::ApertureSegmentNotExposed { role: role.to_u32() });
    }
    Ok(placement)
}

/// Whether memory of a role can be locked. Memory that the processor never sees
/// has no address to hand out.
pub fn hvm1_lock_admissible(role: Hvm1Role) -> (r: Result<(), IdentityRefusal>)
    ensures
        r is Ok <==> role != Hvm1Role::VulkanDeviceLocal,
        r is Err ==> r->Err_0 == IdentityRefusal::Role4NeverLockable,
{
    if role == Hvm1Role::VulkanDeviceLocal {
        return Err(IdentityRefusal::Role4NeverLockable);
    }
    Ok(())
}

/// One part of a placement.
#[derive(Debug, Clone, Copy, PartialEq, Eq, Structural)]
pub enum PlacementField {
    CpuVisible,
    Cached,
    AccessedPhysically,
    ExplicitResidencyNotification,
    DisablePartialResidency,
    RestrictedToSingleSegment,
    PreferredSegment,
    CachePolicy,
}

/// The flags that are about to be written for an allocation.
#[derive(Debug, Clone, Copy, PartialEq, Eq, Structural)]
pub struct WrittenAllocationFlags {
    pub cpu_visible: bool,
    pub cached: bool,
    pub accessed_physically: bool,
    pub explicit_residency_notification: bool,
    pub disable_partial_residency: bool,
    pub restricted_to_single_segment: bool,
    pub preferred_segment: u32,
    pub cache_policy: u32,
}

/// The first part in which the written flags differ from the placement.
pub open spec fn placement_difference(p: Hvm1Placement, w: WrittenAllocationFlags) -> Option<
    PlacementField,
> {
    if w.cpu_visible != p.cpu_visible {
        Some(PlacementField::CpuVisible)
    } else if w.cached != p.cached {
        Some(PlacementField::Cached)
    } else if w.accessed_physically != p.accessed_physically {
        Some(PlacementField::AccessedPhysically)
    } else if w.explicit_residency_notification != p.explicit_residency_notification {
        Some(PlacementField::ExplicitResidencyNotification)
    } else if w.disable_partial_residency != p.disable_partial_residency {
        Some(PlacementField::DisablePartialResidency)
    } else if w.restricted_to_single_segment != p.restricted_to_single_segment {
        Some(PlacementField::RestrictedToSingleSegment)
    } else if w.preferred_segment != p.preferred_segment {
        Some(PlacementField::PreferredSegment)
    } else if w.cache_policy != p.cache_policy {
        Some(PlacementField::CachePolicy)
    } else {
        None
    }
}

/// Compares what is about to be written with the placement of the role.
pub fn hvm1_written_flags_match(
    placement: &Hvm1Placement,
    written: &WrittenAllocationFlags,
) -> (r: Result<(), IdentityRefusal>)
    ensures
        match placement_difference(*placement, *written) {
            Some(field) => r is Err && r->Err_0 == (IdentityRefusal::PlacementMismatch { field }),
            None => r is Ok,
        },
{
    if written.cpu_visible != placement.cpu_visible {
        return Err(IdentityRefusal::PlacementMismatch { field: PlacementField::CpuVisible });
    }
    if written.cached != placement.cached {
        return Err(IdentityRefusal::PlacementMismatch { field: PlacementField::Cached });
    }
    if written.accessed_physically != placement.accessed_physically {
        return Err(
            IdentityRefusal::PlacementMismatch { field: PlacementField::AccessedPhysically },
        );
    }
    if written.explicit_residency_notification != placement.explicit_residency_notification {
        return Err(
            IdentityRefusal::PlacementMismatch {
                field: PlacementField::ExplicitResidencyNotification,
            },
        );
    }
    if written.disable_partial_residency != placement.disable_partial_residency {
        return Err(
            IdentityRefusal::PlacementMismatch { field: PlacementField::DisablePartialResidency },
        );
    }
    if written.restricted_to_single_segment != placement.restricted_to_single_segment {
        return Err(
            IdentityRefusal::PlacementMismatch { field: PlacementField::RestrictedToSingleSegment },
        );
    }
    if written.preferred_segment != placement.preferred_segment {
        return Err(IdentityRefusal::PlacementMismatch { field: PlacementField::PreferredSegment });
    }
    if written.cache_policy != placement.cache_policy {
        return Err(IdentityRefusal::PlacementMismatch { field: PlacementField::CachePolicy });
    }
    Ok(())
}

pub fn hvm1_fields_equal(
    a: &HeliosVenusMemoryAllocationV1,
    b: &HeliosVenusMemoryAllocationV1,
) -> (r: bool)
    ensures
        r == (*a == *b),
{
    *a == *b
}

/// The bytes of the record of a memory allocation.
pub open spec fn hvm1_bytes(h: HeliosVenusMemoryAllocationV1) -> Seq<u8> {
    Seq::<u8>::empty() + bytes::le32(h.magic) + bytes::le16(h.abi_version) + bytes::le16(
        h.struct_size,
    ) + bytes::le64(h.package_generation) + bytes::le64(h.object_generation) + bytes::le64(
        h.byte_size,
    ) + bytes::le32(h.role) + bytes::le32(h.access) + bytes::le32(h.cache_policy) + bytes::le32(
        h.segment_page_shift,
    ) + bytes::le64(h.allocation_alignment) + bytes::le64(h.reserved)
}

/// Encodes the record of a memory allocation.
pub fn encode_hvm1(record: &HeliosVenusMemoryAllocationV1) -> (out: [u8; 64])
    ensures
        out@ == hvm1_bytes(*record),
{
    broadcast use bytes::group_lengths;
    let mut w = StreamWriter::<64>::new();
    w.u32(record.magic);
    w.u16(record.abi_version);
    w.u16(record.struct_size);
    w.u64(record.package_generation);
    w.u64(record.object_generation);
    w.u64(record.byte_size);
    w.u32(record.role);
    w.u32(record.access);
    w.u32(record.cache_policy);
    w.u32(record.segment_page_shift);
    w.u64(record.allocation_alignment);
    w.u64(record.reserved);
    w.to_array()
}

/// The encoded record of a memory allocation reads back as what was encoded.
pub proof fn law_hvm1_round_trip(h: HeliosVenusMemoryAllocationV1)
    ensures
        hvm1_bytes(h).len() == 64,
        hvm1_of(hvm1_bytes(h)) == h,
{
    broadcast use bytes::group_lengths;
    let b = hvm1_bytes(h);
    assert(b.subrange(0, 4) =~= bytes::le32(h.magic));
    bytes::lemma_word32_at(b, 0, h.magic);
    assert(b.subrange(4, 6) =~= bytes::le16(h.abi_version));
    bytes::lemma_word16_at(b, 4, h.abi_version);
    assert(b.subrange(6, 8) =~= bytes::le16(h.struct_size));
    bytes::lemma_word16_at(b, 6, h.struct_size);
    assert(b.subrange(8, 16) =~= bytes::le64(h.package_generation));
    bytes::lemma_word64_at(b, 8, h.package_generation);
    assert(b.subrange(16, 24) =~= bytes::le64(h.object_generation));
    bytes::lemma_word64_at(b, 16, h.object_generation);
    assert(b.subrange(24, 32) =~= bytes::le64(h.byte_size));
    bytes::lemma_word64_at(b, 24, h.byte_size);
    assert(b.subrange(32, 36) =~= bytes::le32(h.role));
    bytes::lemma_word32_at(b, 32, h.role);
    assert(b.subrange(36, 40) =~= bytes::le32(h.access));
    bytes::lemma_word32_at(b, 36, h.access);
    assert(b.subrange(40, 44) =~= bytes::le32(h.cache_policy));
    bytes::lemma_word32_at(b, 40, h.cache_policy);
    assert(b.subrange(44, 48) =~= bytes::le32(h.segment_page_shift));
    bytes::lemma_word32_at(b, 44, h.segment_page_shift);
    assert(b.subrange(48, 56) =~= bytes::le64(h.allocation_alignment));
    bytes::lemma_word64_at(b, 48, h.allocation_alignment);
    assert(b.subrange(56, 64) =~= bytes::le64(h.reserved));
    bytes::lemma_word64_at(b, 56, h.reserved);
}

/// The record of a command pool.
#[derive(Debug, Clone, Copy, PartialEq, Eq)]
pub struct HeliosOuterCommandAllocationV1 {
    pub magic: u32,
    pub abi_version: u16,
    pub struct_size: u16,
    pub package_generation: u64,
    pub allocation_generation: u64,
    pub byte_size: u64,
    pub extent_alignment: u32,
    pub access: u32,
    pub cache_policy: u32,
    pub physical_adapter_mask: u32,
    pub reserved: [u8; 16],
}

/// The fields of the record are those that stand in `b`.
pub open spec fn is_hoc1_of(h: HeliosOuterCommandAllocationV1, b: Seq<u8>) -> bool {
    &&& h.magic == bytes::word32(b, 0)
    &&& h.abi_version == bytes::word16(b, 4)
    &&& h.struct_size == bytes::word16(b, 6)
    &&& h.package_generation == bytes::word64(b, 8)
    &&& h.allocation_generation == bytes::word64(b, 16)
    &&& h.byte_size == bytes::word64(b, 24)
    &&& h.extent_alignment == bytes::word32(b, 32)
    &&& h.access == bytes::word32(b, 36)
    &&& h.cache_policy == bytes::word32(b, 40)
    &&& h.physical_adapter_mask == bytes::word32(b, 44)
    &&& h.reserved@ == b.subrange(48, 64)
}

/// Reads the record of a command pool. Only a buffer of exactly its length holds
/// one.
pub fn decode_hoc1(b: &[u8]) -> (r: Result<
    HeliosOuterCommandAllocationV1,
    HeliosOuterCommandAllocRejection,
>)
    ensures
        if b@.len() != 64 {
            r == Err::<HeliosOuterCommandAllocationV1, HeliosOuterCommandAllocRejection>(
                HeliosOuterCommandAllocRejection::PrivateDataSize {
                    found: b@.len() as usize,
                    expected: 64,
                },
            )
        } else {
            r is Ok && is_hoc1_of(r->Ok_0, b@)
        },
{
    if b.len() != 64 {
        return Err(
            HeliosOuterCommandAllocRejection::PrivateDataSize { found: b.len(), expected: 64 },
        );
    }
    let mut reserved: [u8; 16] = [0u8;16];
    let mut i: usize = 0;
    while i < 16
        invariant
            i <= 16,
            b@.len() == 64,
            forall|j: int| 0 <= j < i ==> reserved@[j] == b@[48 + j],
        decreases 16 - i,
    {
        reserved[i] = b[48 + i];
        i = i + 1;
    }
    assert(reserved@ =~= b@.subrange(48, 64));
    Ok(
        HeliosOuterCommandAllocationV1 {
            magic: bytes::read32(b, 0),
            abi_version: bytes::read16(b, 4),
            struct_size: bytes::read16(b, 6),
            package_generation: bytes::read64(b, 8),
            allocation_generation: bytes::read64(b, 16),
            byte_size: bytes::read64(b, 24),
            extent_alignment: bytes::read32(b, 32),
            access: bytes::read32(b, 36),
            cache_policy: bytes::read32(b, 40),
            physical_adapter_mask: bytes::read32(b, 44),
            reserved,
        },
    )
}

/// Admits the record of a command pool.
pub fn hoc1_admit_create_input(
    b: &[u8],
    record: Result<(), HeliosOuterCommandAllocRejection>,
) -> (r: Result<HeliosOuterCommandAllocationV1, IdentityRefusal>)
    ensures
        if b@.len() != 64 {
            r == Err::<HeliosOuterCommandAllocationV1, IdentityRefusal>(
                IdentityRefusal::Hoc1(
                    HeliosOuterCommandAllocRejection::PrivateDataSize {
                        found: b@.len() as usize,
                        expected: 64,
                    },
                ),
            )
        } else {
            exists|h: HeliosOuterCommandAllocationV1| #[trigger]
                is_hoc1_of(h, b@) && r == (if record is Err {
                    Err::<HeliosOuterCommandAllocationV1, IdentityRefusal>(
                        IdentityRefusal::Hoc1(record->Err_0),
                    )
                } else if h.allocation_generation != 0 {
                    Err(
                        IdentityRefusal::Hoc1(
                            HeliosOuterCommandAllocRejection::AllocationGenerationNonZeroOnInput {
                                found: h.allocation_generation,
                            },
                        ),
                    )
                } else {
                    Ok(h)
                })
        },
{
    let h = match decode_hoc1(b) {
        Ok(h) => h,
        Err(e) => {
            return Err(IdentityRefusal::Hoc1(e));
        },
    };
    if let Err(e) = record {
        return Err(IdentityRefusal::Hoc1(e));
    }
    if h.allocation_generation != 0 {
        return Err(
            IdentityRefusal::Hoc1(
                HeliosOuterCommandAllocRejection::AllocationGenerationNonZeroOnInput {
                    found: h.allocation_generation,
                },
            ),
        );
    }
    Ok(h)
}

/// Finishes the record of a command pool: the generation, and nothing else.
/// `record` is what the finished record says of itself.
pub fn hoc1_stamp_create_output(
    input: &HeliosOuterCommandAllocationV1,
    allocation_generation: u64,
    record: Result<(), HeliosOuterCommandAllocRejection>,
) -> (r: Result<HeliosOuterCommandAllocationV1, IdentityRefusal>)
    ensures
        r == (if allocation_generation == 0 {
            Err::<HeliosOuterCommandAllocationV1, IdentityRefusal>(
                IdentityRefusal::GenerationZeroAtStamp,
            )
        } else if record is Err {
            Err(IdentityRefusal::Hoc1(record->Err_0))
        } else {
            Ok(HeliosOuterCommandAllocationV1 { allocation_generation, ..*input })
        }),
{
    if allocation_generation == 0 {
        return Err(IdentityRefusal::GenerationZeroAtStamp);
    }
    if let Err(e) = record {
        return Err(IdentityRefusal::Hoc1(e));
    }
    let mut output = *input;
    output.allocation_generation = allocation_generation;
    Ok(output)
}

/// The bytes of the record of a command pool.
pub open spec fn hoc1_bytes(h: HeliosOuterCommandAllocationV1) -> Seq<u8> {
    Seq::<u8>::empty() + bytes::le32(h.magic) + bytes::le16(h.abi_version) + bytes::le16(
        h.struct_size,
    ) + bytes::le64(h.package_generation) + bytes::le64(h.allocation_generation) + bytes::le64(
        h.byte_size,
    ) + bytes::le32(h.extent_alignment) + bytes::le32(h.access) + bytes::le32(h.cache_policy)
        + bytes::le32(h.physical_adapter_mask) + h.reserved@
}

/// Encodes the record of a command pool.
pub fn encode_hoc1(record: &HeliosOuterCommandAllocationV1) -> (out: [u8; 64])
    ensures
        out@ == hoc1_bytes(*record),
{
    broadcast use bytes::group_lengths;
    let mut w = StreamWriter::<64>::new();
    w.u32(record.magic);
    w.u16(record.abi_version);
    w.u16(record.struct_size);
    w.u64(record.package_generation);
    w.u64(record.allocation_generation);
    w.u64(record.byte_size);
    w.u32(record.extent_alignment);
    w.u32(record.access);
    w.u32(record.cache_policy);
    w.u32(record.physical_adapter_mask);
    w.bytes(&record.reserved);
    w.to_array()
}

/// The encoded record of a command pool reads back as what was encoded.
pub proof fn law_hoc1_round_trip(h: HeliosOuterCommandAllocationV1)
    ensures
        hoc1_bytes(h).len() == 64,
        is_hoc1_of(h, hoc1_bytes(h)),
{
    broadcast use bytes::group_lengths;
    let b = hoc1_bytes(h);
    assert(b.subrange(0, 4) =~= bytes::le32(h.magic));
    bytes::lemma_word32_at(b, 0, h.magic);
    assert(b.subrange(4, 6) =~= bytes::le16(h.abi_version));
    bytes::lemma_word16_at(b, 4, h.abi_version);
    assert(b.subrange(6, 8) =~= bytes::le16(h.struct_size));
    bytes::lemma_word16_at(b, 6, h.struct_size);
    assert(b.subrange(8, 16) =~= bytes::le64(h.package_generation));
    bytes::lemma_word64_at(b, 8, h.package_generation);
    assert(b.subrange(16, 24) =~= bytes::le64(h.allocation_generation));
    bytes::lemma_word64_at(b, 16, h.allocation_generation);
    assert(b.subrange(24, 32) =~= bytes::le64(h.byte_size));
    bytes::lemma_word64_at(b, 24, h.byte_size);
    assert(b.subrange(32, 36) =~= bytes::le32(h.extent_alignment));
    bytes::lemma_word32_at(b, 32, h.extent_alignment);
    assert(b.subrange(36, 40) =~= bytes::le32(h.access));
    bytes::lemma_word32_at(b, 36, h.access);
    assert(b.subrange(40, 44) =~= bytes::le32(h.cache_policy));
    bytes::lemma_word32_at(b, 40, h.cache_policy);
    assert(b.subrange(44, 48) =~= bytes::le32(h.physical_adapter_mask));
    bytes::lemma_word32_at(b, 44, h.physical_adapter_mask);
    assert(b.subrange(48, 64) =~= h.reserved@);
}

/// The states of an extent. It goes through them in order, and is free again after
/// the last.
#[derive(Debug, Clone, Copy, PartialEq, Eq, Structural)]
pub enum HeliosExtentSealState {
    Free,
    Reserved,
    Sealed,
    Submitted,
    Retired,
}

impl HeliosExtentSealState {
    pub open spec fn next(self) -> Self {
        match self {
            HeliosExtentSealState::Free => HeliosExtentSealState::Reserved,
            HeliosExtentSealState::Reserved => HeliosExtentSealState::Sealed,
            HeliosExtentSealState::Sealed => HeliosExtentSealState::Submitted,
            HeliosExtentSealState::Submitted => HeliosExtentSealState::Retired,
            HeliosExtentSealState::Retired => HeliosExtentSealState::Free,
        }
    }

    /// Goes to the next state, and to no other.
    pub fn advance(self, to: Self) -> (r: Result<Self, IdentityRefusal>)
        ensures
            r == (if to == self.next() {
                Ok::<Self, IdentityRefusal>(to)
            } else {
                Err(IdentityRefusal::SealTransition { from: self, to })
            }),
    {
        let next = match self {
            HeliosExtentSealState::Free => HeliosExtentSealState::Reserved,
            HeliosExtentSealState::Reserved => HeliosExtentSealState::Sealed,
            HeliosExtentSealState::Sealed => HeliosExtentSealState::Submitted,
            HeliosExtentSealState::Submitted => HeliosExtentSealState::Retired,
            HeliosExtentSealState::Retired => HeliosExtentSealState::Free,
        };
        if to == next {
            Ok(to)
        } else {
            Err(IdentityRefusal::SealTransition { from: self, to })
        }
    }

    /// Only a reserved extent may be written.
    pub fn cpu_writable(self) -> (b: bool)
        ensures
            b == (self == HeliosExtentSealState::Reserved),
    {
        self == HeliosExtentSealState::Reserved
    }
}

/// What an extent retires with.
#[derive(Debug, Clone, Copy, PartialEq, Eq, Structural)]
pub struct HeliosExtentRetirementV1 {
    pub queue_context: u64,
    pub context_generation: u64,
    pub batch_id: u64,
    pub hqc1_value: u64,
}

/// What is wrong with an extent, given how many are live, if anything.
pub open spec fn extent_refusal(offset: u64, length: u64, live: u32) -> Option<
    HeliosExtentRejection,
> {
    if length == 0 {
        Some(HeliosExtentRejection::ByteLengthZero)
    } else if length > HELIOS_HOB1_MAX_BYTES {
        Some(
            HeliosExtentRejection::ByteLengthAboveHob1Limit {
                found: length,
                limit: HELIOS_HOB1_MAX_BYTES,
            },
        )
    } else if offset % 0x1_0000 != 0 {
        Some(
            HeliosExtentRejection::OffsetMisaligned {
                offset,
                alignment: HELIOS_HOC1_EXTENT_ALIGNMENT,
            },
        )
    } else if offset + length > HELIOS_HOC1_POOL_BYTES {
        Some(
            HeliosExtentRejection::RangeOutsidePool {
                end: if offset + length > u64::MAX {
                    u64::MAX
                } else {
                    (offset + length) as u64
                },
                pool_bytes: HELIOS_HOC1_POOL_BYTES,
            },
        )
    } else if live >= HELIOS_HOC1_MAX_LIVE_EXTENTS {
        Some(
            HeliosExtentRejection::LiveExtentLimit { live, limit: HELIOS_HOC1_MAX_LIVE_EXTENTS },
        )
    } else {
        None
    }
}

fn check_extent(offset: u64, length: u64, live: u32) -> (r: Option<HeliosExtentRejection>)
    ensures
        r == extent_refusal(offset, length, live),
{
    if length == 0 {
        return Some(HeliosExtentRejection::ByteLengthZero);
    }
    if length > HELIOS_HOB1_MAX_BYTES {
        return Some(
            HeliosExtentRejection::ByteLengthAboveHob1Limit {
                found: length,
                limit: HELIOS_HOB1_MAX_BYTES,
            },
        );
    }
    if offset % HELIOS_HOC1_EXTENT_ALIGNMENT as u64 != 0 {
        return Some(
            HeliosExtentRejection::OffsetMisaligned {
                offset,
                alignment: HELIOS_HOC1_EXTENT_ALIGNMENT,
            },
        );
    }
    let end: u64 = offset.saturating_add(length);
    if end > HELIOS_HOC1_POOL_BYTES {
        return Some(
            HeliosExtentRejection::RangeOutsidePool { end, pool_bytes: HELIOS_HOC1_POOL_BYTES },
        );
    }
    if live >= HELIOS_HOC1_MAX_LIVE_EXTENTS {
        return Some(
            HeliosExtentRejection::LiveExtentLimit { live, limit: HELIOS_HOC1_MAX_LIVE_EXTENTS },
        );
    }
    None
}

/// The extents of one command pool: how many are live, and the last value that one
/// retired with.
#[derive(Debug, Clone, Copy, PartialEq, Eq, Structural)]
pub struct Hoc1Pool {
    pub live_extents: u32,
    pub last_retired_hqc1_value: u64,
}

impl Default for Hoc1Pool {
    fn default() -> (p: Self)
        ensures
            p == (Hoc1Pool { live_extents: 0, last_retired_hqc1_value: 0 }),
    {
        Self::new()
    }
}

/// What reserving an extent gives.
pub open spec fn reserved(p: Hoc1Pool, offset: u64, length: u64) -> Result<
    (HeliosExtentSealState, Hoc1Pool),
    IdentityRefusal,
> {
    match extent_refusal(offset, length, p.live_extents) {
        Some(e) => Err(IdentityRefusal::Extent(e)),
        None => Ok(
            (
                HeliosExtentSealState::Reserved,
                Hoc1Pool { live_extents: (p.live_extents + 1) as u32, ..p },
            ),
        ),
    }
}

/// What retiring an extent gives.
pub open spec fn retired(
    p: Hoc1Pool,
    t: HeliosExtentRetirementV1,
    completed: u64,
    record: Result<(), HeliosRetirementRejection>,
) -> Result<Hoc1Pool, IdentityRefusal> {
    if record is Err {
        Err(IdentityRefusal::Retirement(record->Err_0))
    } else if t.hqc1_value <= p.last_retired_hqc1_value {
        Err(
            IdentityRefusal::Retirement(
                HeliosRetirementRejection::Hqc1ValueNotIncreasing {
                    found: t.hqc1_value,
                    previous: p.last_retired_hqc1_value,
                },
            ),
        )
    } else if completed < t.hqc1_value {
        Err(IdentityRefusal::ExtentNotRetiredYet { recorded: t.hqc1_value, completed })
    } else if p.live_extents == 0 {
        Err(IdentityRefusal::NoLiveExtent)
    } else {
        Ok(
            Hoc1Pool {
                live_extents: (p.live_extents - 1) as u32,
                last_retired_hqc1_value: t.hqc1_value,
            },
        )
    }
}

impl Hoc1Pool {
    pub open spec fn wf(self) -> bool {
        self.live_extents <= HELIOS_HOC1_MAX_LIVE_EXTENTS
    }

    pub fn new() -> (p: Self)
        ensures
            p == (Hoc1Pool { live_extents: 0, last_retired_hqc1_value: 0 }),
    {
        Hoc1Pool { live_extents: 0, last_retired_hqc1_value: 0 }
    }

    /// Reserves one extent. It starts out reserved.
    pub fn reserve(self, offset: u64, bytes: u64) -> (r: Result<
        (HeliosExtentSealState, Self),
        IdentityRefusal,
    >)
        ensures
            r == reserved(self, offset, bytes),
            r is Ok ==> r->Ok_0.1.wf(),
    {
        if let Some(e) = check_extent(offset, bytes, self.live_extents) {
            return Err(IdentityRefusal::Extent(e));
        }
        let state = HeliosExtentSealState::Free.advance(HeliosExtentSealState::Reserved)?;
        Ok(
            (
                state,
                Hoc1Pool {
                    live_extents: self.live_extents + 1,
                    last_retired_hqc1_value: self.last_retired_hqc1_value,
                },
            ),
        )
    }

    /// Retires one extent, once the device has come to its value. `record` is what
    /// the retirement says of itself.
    pub fn retire(
        self,
        retirement: &HeliosExtentRetirementV1,
        completed_hqc1_value: u64,
        record: Result<(), HeliosRetirementRejection>,
    ) -> (r: Result<Self, IdentityRefusal>)
        ensures
            r == retired(self, *retirement, completed_hqc1_value, record),
            self.wf() && r is Ok ==> r->Ok_0.wf(),
    {
        if let Err(e) = record {
            return Err(IdentityRefusal::Retirement(e));
        }
        if retirement.hqc1_value <= self.last_retired_hqc1_value {
            return Err(
                IdentityRefusal::Retirement(
                    HeliosRetirementRejection::Hqc1ValueNotIncreasing {
                        found: retirement.hqc1_value,
                        previous: self.last_retired_hqc1_value,
                    },
                ),
            );
        }
        if completed_hqc1_value < retirement.hqc1_value {
            return Err(
                IdentityRefusal::ExtentNotRetiredYet {
                    recorded: retirement.hqc1_value,
                    completed: completed_hqc1_value,
                },
            );
        }
        if self.live_extents == 0 {
            return Err(IdentityRefusal::NoLiveExtent);
        }
        Ok(
            Hoc1Pool {
                live_extents: self.live_extents - 1,
                last_retired_hqc1_value: retirement.hqc1_value,
            },
        )
    }
}

/// No more extents are live than a pool can have, every reserved extent lies inside
/// the pool, and values of retirement only go up.
pub proof fn law_pool_stays_bounded(
    p: Hoc1Pool,
    offset: u64,
    length: u64,
    t: HeliosExtentRetirementV1,
    completed: u64,
    record: Result<(), HeliosRetirementRejection>,
)
    ensures
        reserved(p, offset, length) is Ok ==> reserved(p, offset, length)->Ok_0.1.live_extents
            <= HELIOS_HOC1_MAX_LIVE_EXTENTS && offset + length <= HELIOS_HOC1_POOL_BYTES && length
            <= HELIOS_HOB1_MAX_BYTES,
        retired(p, t, completed, record) is Ok ==> retired(
            p,
            t,
            completed,
            record,
        )->Ok_0.last_retired_hqc1_value > p.last_retired_hqc1_value && t.hqc1_value <= completed,
        reserved(p, offset, length) is Ok && retired(
            reserved(p, offset, length)->Ok_0.1,
            t,
            completed,
            record,
        ) is Ok ==> retired(
            reserved(p, offset, length)->Ok_0.1,
            t,
            completed,
            record,
        )->Ok_0.live_extents == p.live_extents,
{
}

/// Which of the three records a buffer holds.
#[derive(Debug, Clone, Copy, PartialEq, Eq, Structural)]
pub enum AllocPrivateKind {
    Hwa2,
    Hvm1,
    Hoc1,
}

/// The record that the length and the tag of a buffer tell.
pub open spec fn private_kind(b: Seq<u8>) -> Option<AllocPrivateKind> {
    if b.len() == 168 && bytes::word32(b, 0) == protocol::HELIOS_HWA2_MAGIC {
        Some(AllocPrivateKind::Hwa2)
    } else if b.len() == 64 && bytes::word32(b, 0) == protocol::HELIOS_HVM1_MAGIC {
        Some(AllocPrivateKind::Hvm1)
    } else if b.len() == 64 && bytes::word32(b, 0) == protocol::HELIOS_HOC1_MAGIC {
        Some(AllocPrivateKind::Hoc1)
    } else {
        None
    }
}

/// Tells the three records apart. A buffer that is none of them is refused.
pub fn classify_alloc_private_data(b: &[u8]) -> (r: Option<AllocPrivateKind>)
    ensures
        r == private_kind(b@),
{
    if b.len() < 4 {
        return None;
    }
    let magic: u32 = bytes::read32(b, 0);
    if b.len() == 168 && magic == protocol::HELIOS_HWA2_MAGIC {
        return Some(AllocPrivateKind::Hwa2);
    }
    if b.len() == 64 && magic == protocol::HELIOS_HVM1_MAGIC {
        return Some(AllocPrivateKind::Hvm1);
    }
    if b.len() == 64 && magic == protocol::HELIOS_HOC1_MAGIC {
        return Some(AllocPrivateKind::Hoc1);
    }
    None
}

/// An encoded record under its own tag is told by it.
pub proof fn law_records_are_told_apart(
    d: HeliosWddmAllocationDescV2,
    h: HeliosVenusMemoryAllocationV1,
    c: HeliosOuterCommandAllocationV1,
)
    requires
        d.magic == protocol::HELIOS_HWA2_MAGIC,
        h.magic == protocol::HELIOS_HVM1_MAGIC,
        c.magic == protocol::HELIOS_HOC1_MAGIC,
    ensures
        private_kind(hwa2_bytes(d)) == Some(AllocPrivateKind::Hwa2),
        private_kind(hvm1_bytes(h)) == Some(AllocPrivateKind::Hvm1),
        private_kind(hoc1_bytes(c)) == Some(AllocPrivateKind::Hoc1),
{
    law_hwa2_round_trip(d);
    law_hvm1_round_trip(h);
    law_hoc1_round_trip(c);
}

/// The versions of the three records.
pub const ADMITTED_ABI_VERSIONS: (u16, u16, u16) = (
    protocol::HELIOS_HWA2_ABI_VERSION,
    protocol::HELIOS_HVM1_ABI_VERSION,
    protocol::HELIOS_HOC1_ABI_VERSION,
);

} // verus!
