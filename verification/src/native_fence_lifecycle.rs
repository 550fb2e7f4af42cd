//! The life of native fences, and the private-data record they travel with.
//!
//! There is no table of fences. What is bounded is their population, and what
//! makes a fence valid is one epoch for the whole adapter, so that a reset
//! invalidates every fence at once.

use vstd::prelude::*;
use crate::bytes;
use crate::stream::StreamWriter;

verus! {

/// `"HNF1"`, little-endian.
pub const HNF1_MAGIC: u32 = 0x3146_4E48;
pub const HNF1_ABI_VERSION: u16 = 1;
pub const HNF1_SIZE: usize = 64;

pub const OFF_MAGIC: usize = 0;
pub const OFF_ABI_VERSION: usize = 4;
pub const OFF_STRUCT_SIZE: usize = 6;
pub const OFF_PACKAGE_GENERATION: usize = 8;
pub const OFF_OBJECT_GENERATION: usize = 16;
pub const OFF_NATIVE_TYPE: usize = 24;
pub const OFF_FLAGS: usize = 28;
pub const OFF_ADAPTER_LUID: usize = 32;
pub const OFF_RESERVED: usize = 40;
pub const RESERVED_LEN: usize = 24;

/// The fence can be shared.
pub const HNF1_FLAG_SHARED: u32 = 0x1;
/// The flags that have no meaning.
pub const HNF1_FLAGS_RESERVED_MASK: u32 = 0xFFFF_FFFE;

pub const NATIVE_FENCE_TYPE_DEFAULT: u32 = 0;
pub const NATIVE_FENCE_TYPE_INTRA_GPU: u32 = 1;

/// The most created fences of an adapter.
pub const MAX_LIVE_GLOBAL: u32 = 4096;
/// The most opened fences of an adapter.
pub const MAX_LIVE_LOCAL: u32 = 16384;

/// What is wrong with a private-data record.
#[derive(Clone, Copy, PartialEq, Eq, Debug, Structural)]
pub enum PddReject {
    Magic,
    AbiVersion,
    StructSize,
    PackageGeneration,
    ObjectGenerationNotZero,
    NativeType,
    NativeTypeMismatch,
    Flags,
    AdapterLuid,
    Reserved,
}

/// The private-data record of a native fence.
#[derive(Clone, Copy, PartialEq, Eq, Debug)]
pub struct Hnf1 {
    pub magic: u32,
    pub abi_version: u16,
    pub struct_size: u16,
    pub package_generation: u64,
    pub object_generation: u64,
    pub native_type: u32,
    pub flags: u32,
    pub adapter_luid: i64,
    pub reserved: [u8; 24],
}

/// The fields of the record are those that stand in `b`.
pub open spec fn is_hnf1_of(h: Hnf1, b: Seq<u8>) -> bool {
    &&& h.magic == bytes::word32(b, 0)
    &&& h.abi_version == bytes::word16(b, 4)
    &&& h.struct_size == bytes::word16(b, 6)
    &&& h.package_generation == bytes::word64(b, 8)
    &&& h.object_generation == bytes::word64(b, 16)
    &&& h.native_type == bytes::word32(b, 24)
    &&& h.flags == bytes::word32(b, 28)
    &&& h.adapter_luid == bytes::word64(b, 32) as i64
    &&& h.reserved@ == b.subrange(40, 64)
}

/// Reads a record without judging it.
pub fn parse(b: &[u8; HNF1_SIZE]) -> (h: Hnf1)
    ensures
        is_hnf1_of(h, b@),
{
    let mut reserved: [u8; 24] = [0u8;24];
    let mut i: usize = 0;
    while i < 24
        invariant
            i <= 24,
            forall|j: int| 0 <= j < i ==> reserved@[j] == b@[40 + j],
        decreases 24 - i,
    {
        reserved[i] = b[40 + i];
        i = i + 1;
    }
    assert(reserved@ =~= b@.subrange(40, 64));
    Hnf1 {
        magic: bytes::read32(b, 0),
        abi_version: bytes::read16(b, 4),
        struct_size: bytes::read16(b, 6),
        package_generation: bytes::read64(b, 8),
        object_generation: bytes::read64(b, 16),
        native_type: bytes::read32(b, 24),
        flags: bytes::read32(b, 28),
        adapter_luid: bytes::read64(b, 32) as i64,
        reserved,
    }
}

/// Only the default type is implemented.
pub open spec fn is_admitted_type(native_type: u32) -> bool {
    native_type == NATIVE_FENCE_TYPE_DEFAULT
}

/// What is wrong with the record of a create request, if anything. The adapter may
/// be left open; naming another adapter is refused.
pub open spec fn create_refusal(
    h: Hnf1,
    package_generation: u64,
    adapter_luid: i64,
    native_type: u32,
) -> Option<PddReject> {
    if h.magic != HNF1_MAGIC {
        Some(PddReject::Magic)
    } else if h.abi_version != HNF1_ABI_VERSION {
        Some(PddReject::AbiVersion)
    } else if h.struct_size != HNF1_SIZE {
        Some(PddReject::StructSize)
    } else if h.package_generation != package_generation {
        Some(PddReject::PackageGeneration)
    } else if h.object_generation != 0 {
        Some(PddReject::ObjectGenerationNotZero)
    } else if !is_admitted_type(h.native_type) {
        Some(PddReject::NativeType)
    } else if h.native_type != native_type {
        Some(PddReject::NativeTypeMismatch)
    } else if h.flags & HNF1_FLAGS_RESERVED_MASK != 0 {
        Some(PddReject::Flags)
    } else if h.adapter_luid != 0 && h.adapter_luid != adapter_luid {
        Some(PddReject::AdapterLuid)
    } else if exists|i: int| 0 <= i < 24 && #[trigger] h.reserved@[i] != 0 {
        Some(PddReject::Reserved)
    } else {
        None
    }
}

/// What is wrong with the record of an open request, if anything. It names the
/// fence's own flags and the adapter exactly.
pub open spec fn open_refusal(
    h: Hnf1,
    package_generation: u64,
    adapter_luid: i64,
    native_type: u32,
    flags: u32,
) -> Option<PddReject> {
    let e = create_refusal(h, package_generation, adapter_luid, native_type);
    if e is Some {
        e
    } else if h.flags != flags {
        Some(PddReject::Flags)
    } else if h.adapter_luid != adapter_luid {
        Some(PddReject::AdapterLuid)
    } else {
        None
    }
}

fn is_zero(b: &[u8; 24]) -> (r: bool)
    ensures
        r == !exists|i: int| 0 <= i < 24 && #[trigger] b@[i] != 0,
{
    let mut i: usize = 0;
    while i < 24
        invariant
            i <= 24,
            forall|j: int| 0 <= j < i ==> #[trigger] b@[j] == 0,
        decreases 24 - i,
    {
        if b[i] != 0 {
            assert(b@[i as int] != 0);
            return false;
        }
        i = i + 1;
    }
    true
}

fn check_create(
    h: &Hnf1,
    package_generation: u64,
    adapter_luid: i64,
    native_type: u32,
) -> (r: Option<PddReject>)
    ensures
        r == create_refusal(*h, package_generation, adapter_luid, native_type),
{
    if h.magic != HNF1_MAGIC {
        return Some(PddReject::Magic);
    }
    if h.abi_version != HNF1_ABI_VERSION {
        return Some(PddReject::AbiVersion);
    }
    if h.struct_size as usize != HNF1_SIZE {
        return Some(PddReject::StructSize);
    }
    if h.package_generation != package_generation {
        return Some(PddReject::PackageGeneration);
    }
    if h.object_generation != 0 {
        return Some(PddReject::ObjectGenerationNotZero);
    }
    if !native_type_is_documented(h.native_type) {
        return Some(PddReject::NativeType);
    }
    if h.native_type != native_type {
        return Some(PddReject::NativeTypeMismatch);
    }
    if h.flags & HNF1_FLAGS_RESERVED_MASK != 0 {
        return Some(PddReject::Flags);
    }
    if h.adapter_luid != 0 && h.adapter_luid != adapter_luid {
        return Some(PddReject::AdapterLuid);
    }
    if !is_zero(&h.reserved) {
        return Some(PddReject::Reserved);
    }
    None
}

/// Validates the record of a create request against what the system says of it.
pub fn validate_create(
    b: &[u8; HNF1_SIZE],
    package_generation: u64,
    adapter_luid: i64,
    ddi_native_type: u32,
) -> (r: Result<Hnf1, PddReject>)
    ensures
        exists|h: Hnf1| #[trigger]
            is_hnf1_of(h, b@) && r == (match create_refusal(
                h,
                package_generation,
                adapter_luid,
                ddi_native_type,
            ) {
                Some(e) => Err::<Hnf1, PddReject>(e),
                None => Ok(h),
            }),
{
    let h = parse(b);
    match check_create(&h, package_generation, adapter_luid, ddi_native_type) {
        Some(e) => Err(e),
        None => Ok(h),
    }
}

/// Validates the record of an open request against the fence that is opened.
pub fn validate_open(
    b: &[u8; HNF1_SIZE],
    package_generation: u64,
    adapter_luid: i64,
    native_type: u32,
    flags: u32,
) -> (r: Result<Hnf1, PddReject>)
    ensures
        exists|h: Hnf1| #[trigger]
            is_hnf1_of(h, b@) && r == (match open_refusal(
                h,
                package_generation,
                adapter_luid,
                native_type,
                flags,
            ) {
                Some(e) => Err::<Hnf1, PddReject>(e),
                None => Ok(h),
            }),
{
    let h = parse(b);
    match check_create(&h, package_generation, adapter_luid, native_type) {
        Some(e) => Err(e),
        None => {
            if h.flags != flags {
                return Err(PddReject::Flags);
            }
            if h.adapter_luid != adapter_luid {
                return Err(PddReject::AdapterLuid);
            }
            Ok(h)
        },
    }
}

/// Whether the type is the one that is implemented.
pub fn native_type_is_documented(native_type: u32) -> (b: bool)
    ensures
        b == is_admitted_type(native_type),
{
    native_type == NATIVE_FENCE_TYPE_DEFAULT
}

/// The bytes of the answer to a request.
pub open spec fn hnf1_bytes(
    package_generation: u64,
    object_generation: u64,
    native_type: u32,
    flags: u32,
    adapter_luid: i64,
) -> Seq<u8> {
    Seq::<u8>::empty() + bytes::le32(HNF1_MAGIC) + bytes::le16(HNF1_ABI_VERSION) + bytes::le16(
        HNF1_SIZE as u16,
    ) + bytes::le64(package_generation) + bytes::le64(object_generation) + bytes::le32(native_type)
        + bytes::le32(flags) + bytes::le64(adapter_luid as u64) + bytes::le64(0) + bytes::le64(0)
        + bytes::le64(0)
}

/// Builds the answer to a request from scratch, so that no byte of the request
/// survives in it.
pub fn encode(
    package_generation: u64,
    object_generation: u64,
    native_type: u32,
    flags: u32,
    adapter_luid: i64,
) -> (out: [u8; HNF1_SIZE])
    ensures
        out@ == hnf1_bytes(package_generation, object_generation, native_type, flags, adapter_luid),
{
    broadcast use bytes::group_lengths;
    let mut w = StreamWriter::<HNF1_SIZE>::new();
    w.u32(HNF1_MAGIC);
    w.u16(HNF1_ABI_VERSION);
    w.u16(HNF1_SIZE as u16);
    w.u64(package_generation);
    w.u64(object_generation);
    w.u32(native_type);
    w.u32(flags);
    w.u64(adapter_luid as u64);
    w.u64(0);
    w.u64(0);
    w.u64(0);
    w.to_array()
}

/// Parsing an encoded record gives back what was encoded, with a zero tail.
#[verifier::spinoff_prover]
pub proof fn law_hnf1_round_trip(
    h: Hnf1,
    package_generation: u64,
    object_generation: u64,
    native_type: u32,
    flags: u32,
    adapter_luid: i64,
)
    requires
        is_hnf1_of(
            h,
            hnf1_bytes(package_generation, object_generation, native_type, flags, adapter_luid),
        ),
    ensures
        h.magic == HNF1_MAGIC,
        h.abi_version == HNF1_ABI_VERSION,
        h.struct_size == HNF1_SIZE,
        h.package_generation == package_generation,
        h.object_generation == object_generation,
        h.native_type == native_type,
        h.flags == flags,
        h.adapter_luid == adapter_luid,
        forall|i: int| 0 <= i < 24 ==> #[trigger] h.reserved@[i] == 0,
{
    broadcast use bytes::group_lengths;
    let b = hnf1_bytes(package_generation, object_generation, native_type, flags, adapter_luid);
    assert(bytes::word32(b, 0) == HNF1_MAGIC) by {
        assert(b.subrange(0, 4) =~= bytes::le32(HNF1_MAGIC));
        bytes::lemma_word32_at(b, 0, HNF1_MAGIC);
    }
    assert(bytes::word16(b, 4) == HNF1_ABI_VERSION) by {
        assert(b.subrange(4, 6) =~= bytes::le16(HNF1_ABI_VERSION));
        bytes::lemma_word16_at(b, 4, HNF1_ABI_VERSION);
    }
    assert(bytes::word16(b, 6) == (HNF1_SIZE as u16)) by {
        assert(b.subrange(6, 8) =~= bytes::le16(HNF1_SIZE as u16));
        bytes::lemma_word16_at(b, 6, HNF1_SIZE as u16);
    }
    assert(bytes::word64(b, 8) == package_generation) by {
        assert(b.subrange(8, 16) =~= bytes::le64(package_generation));
        bytes::lemma_word64_at(b, 8, package_generation);
    }
    assert(bytes::word64(b, 16) == object_generation) by {
        assert(b.subrange(16, 24) =~= bytes::le64(object_generation));
        bytes::lemma_word64_at(b, 16, object_generation);
    }
    assert(bytes::word32(b, 24) == native_type) by {
        assert(b.subrange(24, 28) =~= bytes::le32(native_type));
        bytes::lemma_word32_at(b, 24, native_type);
    }
    assert(bytes::word32(b, 28) == flags) by {
        assert(b.subrange(28, 32) =~= bytes::le32(flags));
        bytes::lemma_word32_at(b, 28, flags);
    }
    assert(bytes::word64(b, 32) == (adapter_luid as u64)) by {
        assert(b.subrange(32, 40) =~= bytes::le64(adapter_luid as u64));
        bytes::lemma_word64_at(b, 32, adapter_luid as u64);
    }
    assert((adapter_luid as u64) as i64 == adapter_luid) by (bit_vector);
    assert(b.subrange(40, 64) =~= bytes::le64(0) + bytes::le64(0) + bytes::le64(0));
}

/// Why an operation on a fence is refused.
#[derive(Clone, Copy, PartialEq, Eq, Debug, Structural)]
pub enum Refusal {
    /// The bounded population is full.
    PoolExhausted,
    /// The fence was made before the current epoch.
    StaleEpoch,
    /// Native fences are not offered.
    NotAdmitted,
    /// The fence is still opened somewhere.
    LocalReferencesOutstanding,
    /// The fence is opened nowhere.
    NoLocalReference,
    /// The fence is not live.
    NotLive,
}

#[derive(Clone, Copy, PartialEq, Eq, Debug, Structural)]
pub enum FenceState {
    Live,
    /// Destroyed early: it dies with its last local reference.
    Draining,
    /// Freed.
    Dead,
}

/// How many fences an adapter has.
#[derive(Clone, Copy, PartialEq, Eq, Debug, Structural)]
pub struct Population {
    /// Created fences.
    pub live_global: u32,
    /// Opened fences.
    pub live_local: u32,
}

impl Default for Population {
    fn default() -> (p: Self)
        ensures
            p == (Population { live_global: 0, live_local: 0 }),
    {
        Population { live_global: 0, live_local: 0 }
    }
}

impl Population {
    /// The population is within its bounds.
    pub open spec fn wf(self) -> bool {
        self.live_global <= MAX_LIVE_GLOBAL && self.live_local <= MAX_LIVE_LOCAL
    }
}

/// Counts one created fence.
pub fn admit_create(pop: Population) -> (r: Result<Population, Refusal>)
    ensures
        r == (if pop.live_global >= MAX_LIVE_GLOBAL {
            Err::<Population, Refusal>(Refusal::PoolExhausted)
        } else {
            Ok(Population { live_global: (pop.live_global + 1) as u32, ..pop })
        }),
        pop.wf() && r is Ok ==> r->Ok_0.wf(),
{
    if pop.live_global >= MAX_LIVE_GLOBAL {
        return Err(Refusal::PoolExhausted);
    }
    Ok(Population { live_global: pop.live_global + 1, live_local: pop.live_local })
}

/// Counts one opened fence.
pub fn admit_open(pop: Population) -> (r: Result<Population, Refusal>)
    ensures
        r == (if pop.live_local >= MAX_LIVE_LOCAL {
            Err::<Population, Refusal>(Refusal::PoolExhausted)
        } else {
            Ok(Population { live_local: (pop.live_local + 1) as u32, ..pop })
        }),
        pop.wf() && r is Ok ==> r->Ok_0.wf(),
{
    if pop.live_local >= MAX_LIVE_LOCAL {
        return Err(Refusal::PoolExhausted);
    }
    Ok(Population { live_global: pop.live_global, live_local: pop.live_local + 1 })
}

/// Uncounts one opened fence.
pub fn retire_local(pop: Population) -> (r: Result<Population, Refusal>)
    ensures
        r == (if pop.live_local == 0 {
            Err::<Population, Refusal>(Refusal::NoLocalReference)
        } else {
            Ok(Population { live_local: (pop.live_local - 1) as u32, ..pop })
        }),
        pop.wf() && r is Ok ==> r->Ok_0.wf(),
{
    if pop.live_local == 0 {
        return Err(Refusal::NoLocalReference);
    }
    Ok(Population { live_global: pop.live_global, live_local: pop.live_local - 1 })
}

/// Uncounts one created fence.
pub fn retire_global(pop: Population) -> (r: Result<Population, Refusal>)
    ensures
        r == (if pop.live_global == 0 {
            Err::<Population, Refusal>(Refusal::NotLive)
        } else {
            Ok(Population { live_global: (pop.live_global - 1) as u32, ..pop })
        }),
        pop.wf() && r is Ok ==> r->Ok_0.wf(),
{
    if pop.live_global == 0 {
        return Err(Refusal::NotLive);
    }
    Ok(Population { live_global: pop.live_global - 1, live_local: pop.live_local })
}

/// One created fence.
#[derive(Clone, Copy, PartialEq, Eq, Debug, Structural)]
pub struct GlobalFence {
    pub state: FenceState,
    /// How often it is opened.
    pub local_refs: u32,
    /// The epoch it was made under.
    pub epoch: u64,
    /// Tells stale references from current ones. It is never looked up.
    pub object_generation: u64,
}

impl GlobalFence {
    pub fn new(epoch: u64, object_generation: u64) -> (f: Self)
        ensures
            f == (GlobalFence {
                state: FenceState::Live,
                local_refs: 0,
                epoch,
                object_generation,
            }),
    {
        GlobalFence { state: FenceState::Live, local_refs: 0, epoch, object_generation }
    }
}

/// Whether a fence made under `object_epoch` is still valid.
pub fn epoch_is_current(object_epoch: u64, adapter_epoch: u64) -> (b: bool)
    ensures
        b == (object_epoch == adapter_epoch),
{
    object_epoch == adapter_epoch
}

/// What opening a fence gives.
pub open spec fn opened(fence: GlobalFence, adapter_epoch: u64) -> Result<GlobalFence, Refusal> {
    if fence.state != FenceState::Live {
        Err(Refusal::NotLive)
    } else if fence.epoch != adapter_epoch {
        Err(Refusal::StaleEpoch)
    } else if fence.local_refs == u32::MAX {
        Err(Refusal::PoolExhausted)
    } else {
        Ok(GlobalFence { local_refs: (fence.local_refs + 1) as u32, ..fence })
    }
}

/// What closing a fence gives. The epoch does not matter: teardown works across a
/// reset.
pub open spec fn closed(fence: GlobalFence) -> Result<GlobalFence, Refusal> {
    if fence.state == FenceState::Dead {
        Err(Refusal::NotLive)
    } else if fence.local_refs == 0 {
        Err(Refusal::NoLocalReference)
    } else {
        Ok(
            GlobalFence {
                local_refs: (fence.local_refs - 1) as u32,
                state: if fence.state == FenceState::Draining && fence.local_refs == 1 {
                    FenceState::Dead
                } else {
                    fence.state
                },
                ..fence
            },
        )
    }
}

/// What destroying a fence gives.
pub open spec fn destroyed(fence: GlobalFence) -> Result<GlobalFence, Refusal> {
    if fence.state == FenceState::Dead {
        Err(Refusal::NotLive)
    } else if fence.local_refs != 0 {
        Err(Refusal::LocalReferencesOutstanding)
    } else {
        Ok(GlobalFence { state: FenceState::Dead, ..fence })
    }
}

pub fn open_local(fence: GlobalFence, adapter_epoch: u64) -> (r: Result<GlobalFence, Refusal>)
    ensures
        r == opened(fence, adapter_epoch),
{
    if fence.state != FenceState::Live {
        return Err(Refusal::NotLive);
    }
    if !epoch_is_current(fence.epoch, adapter_epoch) {
        return Err(Refusal::StaleEpoch);
    }
    if fence.local_refs == u32::MAX {
        return Err(Refusal::PoolExhausted);
    }
    Ok(
        GlobalFence {
            state: fence.state,
            local_refs: fence.local_refs + 1,
            epoch: fence.epoch,
            object_generation: fence.object_generation,
        },
    )
}

pub fn close_local(fence: GlobalFence) -> (r: Result<GlobalFence, Refusal>)
    ensures
        r == closed(fence),
{
    if fence.state == FenceState::Dead {
        return Err(Refusal::NotLive);
    }
    if fence.local_refs == 0 {
        return Err(Refusal::NoLocalReference);
    }
    let local_refs: u32 = fence.local_refs - 1;
    let state = if fence.state == FenceState::Draining && local_refs == 0 {
        FenceState::Dead
    } else {
        fence.state
    };
    Ok(
        GlobalFence {
            state,
            local_refs,
            epoch: fence.epoch,
            object_generation: fence.object_generation,
        },
    )
}

/// Destroys a fence that is opened nowhere.
pub fn destroy_global(fence: GlobalFence) -> (r: Result<GlobalFence, Refusal>)
    ensures
        r == destroyed(fence),
{
    if fence.state == FenceState::Dead {
        return Err(Refusal::NotLive);
    }
    if fence.local_refs != 0 {
        return Err(Refusal::LocalReferencesOutstanding);
    }
    Ok(
        GlobalFence {
            state: FenceState::Dead,
            local_refs: fence.local_refs,
            epoch: fence.epoch,
            object_generation: fence.object_generation,
        },
    )
}

/// Closing undoes opening, whatever the epoch has become in between.
pub proof fn law_close_undoes_open(fence: GlobalFence, adapter_epoch: u64)
    requires
        opened(fence, adapter_epoch) is Ok,
    ensures
        closed(opened(fence, adapter_epoch)->Ok_0) == Ok::<GlobalFence, Refusal>(fence),
{
}

/// A fence that is opened somewhere cannot be destroyed, and one that is dead can
/// be neither opened, closed nor destroyed.
pub proof fn law_no_fence_dangles(fence: GlobalFence, adapter_epoch: u64)
    ensures
        fence.local_refs > 0 ==> destroyed(fence) is Err,
        fence.state == FenceState::Dead ==> opened(fence, adapter_epoch) is Err && closed(fence)
            is Err && destroyed(fence) is Err,
        destroyed(fence) is Ok ==> destroyed(fence)->Ok_0.local_refs == 0,
        closed(fence) is Ok && closed(fence)->Ok_0.state == FenceState::Dead
            ==> closed(fence)->Ok_0.local_refs == 0,
{
}

/// The object generation after `previous`. It is never zero and never wraps.
pub fn next_object_generation(previous: u64) -> (r: Option<u64>)
    ensures
        r == (if previous == u64::MAX {
            None
        } else {
            Some((previous + 1) as u64)
        }),
{
    previous.checked_add(1)
}

/// The epoch after `previous`, if it is at most `maximum`.
pub fn next_epoch(previous: u64, maximum: u64) -> (r: Option<u64>)
    ensures
        r == (if previous < maximum {
            Some((previous + 1) as u64)
        } else {
            None
        }),
{
    if previous < maximum {
        Some(previous + 1)
    } else {
        None
    }
}

/// The most fences in one update.
pub const MAX_UPDATE_FENCES: u32 = MAX_LIVE_GLOBAL;

pub fn update_count_is_bounded(count: u32) -> (b: bool)
    ensures
        b == (count <= MAX_UPDATE_FENCES),
{
    count <= MAX_UPDATE_FENCES
}

/// Whether a value moves forward. This is recorded and never enforced.
pub fn value_update_is_forward(previous: u64, next: u64) -> (b: bool)
    ensures
        b == (next >= previous),
{
    next >= previous
}

/// Whether native fences are offered: only if every gate is open.
pub fn surface_is_admitted(
    wddm_3_2_reported: bool,
    display_owner_enabled: bool,
    os_enabled_feature: bool,
    adapter_luid_known: bool,
    lifecycle_active: bool,
) -> (b: bool)
    ensures
        b == (wddm_3_2_reported && display_owner_enabled && os_enabled_feature
            && adapter_luid_known && lifecycle_active),
{
    wddm_3_2_reported && display_owner_enabled && os_enabled_feature && adapter_luid_known
        && lifecycle_active
}

/// A record is good for a create request exactly if it has its tag, version and size, is
/// of the package, names no object yet, is of the default type as the system says, sets
/// no flag but the lowest, names this adapter or none, and is zero behind its fields.
pub proof fn law_a_good_create_record_is_admitted(
    h: Hnf1,
    package_generation: u64,
    adapter_luid: i64,
    native_type: u32,
)
    ensures
        ({
            let r = create_refusal(h, package_generation, adapter_luid, native_type);
            let zeros = forall|i: int| 0 <= i < 24 ==> #[trigger] h.reserved@[i] == 0;
            &&& r is None <==> h.magic == 0x3146_4E48 && h.abi_version == 1 && h.struct_size == 64
                && h.package_generation == package_generation && h.object_generation == 0
                && h.native_type == 0 && native_type == 0 && h.flags <= 1 && (h.adapter_luid == 0
                || h.adapter_luid == adapter_luid) && zeros
            &&& r matches Some(e) ==> match e {
                PddReject::Magic => h.magic != 0x3146_4E48,
                PddReject::AbiVersion => h.abi_version != 1,
                PddReject::StructSize => h.struct_size != 64,
                PddReject::PackageGeneration => h.package_generation != package_generation,
                PddReject::ObjectGenerationNotZero => h.object_generation != 0,
                PddReject::NativeType => h.native_type != 0,
                PddReject::NativeTypeMismatch => h.native_type != native_type,
                PddReject::Flags => h.flags > 1,
                PddReject::AdapterLuid => h.adapter_luid != 0 && h.adapter_luid != adapter_luid,
                PddReject::Reserved => !zeros,
            }
        }),
{
    let f = h.flags;
    assert((f & 0xFFFF_FFFEu32 != 0) <==> f > 1) by (bit_vector);
}

/// A record is good for an open request exactly if it would be good for a create request
/// and names the flags of the fence and the adapter itself.
pub proof fn law_a_good_open_record_is_admitted(
    h: Hnf1,
    package_generation: u64,
    adapter_luid: i64,
    native_type: u32,
    flags: u32,
)
    ensures
        ({
            let c = create_refusal(h, package_generation, adapter_luid, native_type);
            let r = open_refusal(h, package_generation, adapter_luid, native_type, flags);
            &&& r is None <==> c is None && h.flags == flags && h.adapter_luid == adapter_luid
            &&& c is Some ==> r == c
            &&& c is None && h.flags != flags ==> r == Some(PddReject::Flags)
            &&& c is None && h.flags == flags && h.adapter_luid != adapter_luid ==> r == Some(
                PddReject::AdapterLuid,
            )
        }),
{
}

/// A fence is opened exactly while it is live and of the current epoch, is closed as
/// often as it was opened, and is destroyed exactly while it is opened nowhere. A fence
/// that drains dies with its last reference. Nothing else of it changes.
pub proof fn law_a_fence_lives_while_it_is_opened(f: GlobalFence, adapter_epoch: u64)
    ensures
        match opened(f, adapter_epoch) {
            Ok(g) => f.state is Live && f.epoch == adapter_epoch && g.local_refs == f.local_refs
                + 1 && g == (GlobalFence { local_refs: g.local_refs, ..f }),
            Err(e) => match e {
                Refusal::NotLive => !(f.state is Live),
                Refusal::StaleEpoch => f.state is Live && f.epoch != adapter_epoch,
                Refusal::PoolExhausted => f.state is Live && f.local_refs == u32::MAX,
                _ => false,
            },
        },
        match closed(f) {
            Ok(g) => !(f.state is Dead) && g.local_refs == f.local_refs - 1 && g.epoch == f.epoch
                && g.object_generation == f.object_generation && (if f.state is Draining
                && g.local_refs == 0 {
                g.state is Dead
            } else {
                g.state == f.state
            }),
            Err(e) => match e {
                Refusal::NotLive => f.state is Dead,
                Refusal::NoLocalReference => !(f.state is Dead) && f.local_refs == 0,
                _ => false,
            },
        },
        match destroyed(f) {
            Ok(g) => !(f.state is Dead) && f.local_refs == 0 && g.state is Dead && g == (
            GlobalFence { state: g.state, ..f }),
            Err(e) => match e {
                Refusal::NotLive => f.state is Dead,
                Refusal::LocalReferencesOutstanding => !(f.state is Dead) && f.local_refs > 0,
                _ => false,
            },
        },
{
}

} // verus!
