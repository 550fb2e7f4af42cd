//! What the words of a copy stream say, read back from its bytes.

use vstd::prelude::*;
use crate::bytes;
use crate::present_copy;
use crate::present_copy::{CopyIds, CopyRegion, CopyToBufferIds};

verus! {

/// The 32-bit word at `at`.
#[verifier::opaque]
pub open spec fn w32(m: Seq<u8>, at: int) -> int {
    bytes::word32(m, at) as int
}

/// The 64-bit word at `at`.
#[verifier::opaque]
pub open spec fn w64(m: Seq<u8>, at: int) -> int {
    bytes::word64(m, at) as int
}

/// At `at` begins a recording of the command buffer that is submitted once.
pub open spec fn reads_begin(m: Seq<u8>, at: int, command_buffer: u64) -> bool {
    &&& w32(m, at) == 90
    &&& w32(m, at + 4) == 0
    &&& w64(m, at + 8) == command_buffer
    &&& w64(m, at + 16) == 1
    &&& w32(m, at + 24) == 42
    &&& w64(m, at + 28) == 0
    &&& w32(m, at + 36) == 1
    &&& w64(m, at + 40) == 0
}

/// At `at` stands a pipeline barrier between two stages.
pub open spec fn reads_barrier(
    m: Seq<u8>,
    at: int,
    command_buffer: u64,
    src_stage: int,
    dst_stage: int,
) -> bool {
    &&& w32(m, at) == 126
    &&& w32(m, at + 4) == 0
    &&& w64(m, at + 8) == command_buffer
    &&& w32(m, at + 16) == src_stage
    &&& w32(m, at + 20) == dst_stage
    &&& w32(m, at + 24) == 0
}

/// At `at` stands a barrier on the one color layer of an image, which stays in the
/// general layout and with its queue family.
pub open spec fn reads_image_barrier(
    m: Seq<u8>,
    at: int,
    image: u64,
    src_access: int,
    dst_access: int,
) -> bool {
    &&& w32(m, at) == 45
    &&& w64(m, at + 4) == 0
    &&& w32(m, at + 12) == src_access
    &&& w32(m, at + 16) == dst_access
    &&& w32(m, at + 20) == 1
    &&& w32(m, at + 24) == 1
    &&& w32(m, at + 28) == 0xFFFF_FFFF
    &&& w32(m, at + 32) == 0xFFFF_FFFF
    &&& w64(m, at + 36) == image
    &&& w32(m, at + 44) == 1
    &&& w32(m, at + 48) == 0
    &&& w32(m, at + 52) == 1
    &&& w32(m, at + 56) == 0
    &&& w32(m, at + 60) == 1
}

/// At `at` stand the counts of a barrier on two images.
pub open spec fn reads_two_images(m: Seq<u8>, at: int) -> bool {
    &&& w32(m, at) == 0
    &&& w64(m, at + 4) == 0
    &&& w32(m, at + 12) == 0
    &&& w64(m, at + 16) == 0
    &&& w32(m, at + 24) == 2
    &&& w64(m, at + 28) == 2
}

/// At `at` stand a barrier on memory as a whole and the counts of one on one image.
pub open spec fn reads_memory_and_image(
    m: Seq<u8>,
    at: int,
    src_access: int,
    dst_access: int,
) -> bool {
    &&& w32(m, at) == 1
    &&& w64(m, at + 4) == 1
    &&& w32(m, at + 12) == 46
    &&& w64(m, at + 16) == 0
    &&& w32(m, at + 24) == src_access
    &&& w32(m, at + 28) == dst_access
    &&& w32(m, at + 32) == 0
    &&& w64(m, at + 36) == 0
    &&& w32(m, at + 44) == 1
    &&& w64(m, at + 48) == 1
}

/// At `at` stands the head of a copy of `count` regions between two images.
pub open spec fn reads_copy_head(m: Seq<u8>, at: int, ids: CopyIds, count: int) -> bool {
    &&& w32(m, at) == 113
    &&& w32(m, at + 4) == 0
    &&& w64(m, at + 8) == ids.command_buffer
    &&& w64(m, at + 16) == ids.src_image
    &&& w32(m, at + 24) == 1
    &&& w64(m, at + 28) == ids.dst_image
    &&& w32(m, at + 36) == 1
    &&& w32(m, at + 40) == count
    &&& w64(m, at + 44) == count
}

/// At `at` stands the head of a copy of `count` regions into a buffer.
pub open spec fn reads_buffer_head(m: Seq<u8>, at: int, ids: CopyToBufferIds, count: int) -> bool {
    &&& w32(m, at) == 116
    &&& w32(m, at + 4) == 0
    &&& w64(m, at + 8) == ids.command_buffer
    &&& w64(m, at + 16) == ids.src_image
    &&& w32(m, at + 24) == 1
    &&& w64(m, at + 28) == ids.dst_buffer
    &&& w32(m, at + 36) == count
    &&& w64(m, at + 40) == count
}

/// At `at` stands the one color layer of an image.
pub open spec fn reads_layers(m: Seq<u8>, at: int) -> bool {
    w32(m, at) == 1 && w32(m, at + 4) == 0 && w32(m, at + 8) == 0 && w32(m, at + 12) == 1
}

/// At `at` stands the region: one color layer of each image, where it is taken from,
/// where it goes, and its size.
pub open spec fn reads_region(m: Seq<u8>, at: int, r: CopyRegion) -> bool {
    &&& reads_layers(m, at)
    &&& w32(m, at + 16) == r.src_x
    &&& w32(m, at + 20) == r.src_y
    &&& w32(m, at + 24) == 0
    &&& reads_layers(m, at + 28)
    &&& w32(m, at + 44) == r.dst_x
    &&& w32(m, at + 48) == r.dst_y
    &&& w32(m, at + 52) == 0
    &&& w32(m, at + 56) == r.width
    &&& w32(m, at + 60) == r.height
    &&& w32(m, at + 64) == 1
}

/// At `at` stands the region of a copy into a surface of four-byte texels: the byte of
/// the surface at which it begins, the texels of a row of the surface, one color
/// layer of the image, where it is taken from, and its size.
pub open spec fn reads_buffer_region(
    m: Seq<u8>,
    at: int,
    r: CopyRegion,
    pitch: u32,
    plane_offset: u64,
) -> bool {
    &&& w64(m, at) == plane_offset + r.dst_y * pitch + 4 * r.dst_x
    &&& w32(m, at + 8) == pitch / 4
    &&& w32(m, at + 12) == 0
    &&& reads_layers(m, at + 16)
    &&& w32(m, at + 32) == r.src_x
    &&& w32(m, at + 36) == r.src_y
    &&& w32(m, at + 40) == 0
    &&& w32(m, at + 44) == r.width
    &&& w32(m, at + 48) == r.height
    &&& w32(m, at + 52) == 1
}

/// At `at` stands the end of the recording and its submission: no waits, this command
/// buffer, no signals and no fence.
pub open spec fn reads_submit(m: Seq<u8>, at: int, queue: u64, command_buffer: u64) -> bool {
    &&& w32(m, at) == 91
    &&& w32(m, at + 4) == 0
    &&& w64(m, at + 8) == command_buffer
    &&& w32(m, at + 16) == 18
    &&& w32(m, at + 20) == 0
    &&& w64(m, at + 24) == queue
    &&& w32(m, at + 32) == 1
    &&& w64(m, at + 36) == 1
    &&& w32(m, at + 44) == 4
    &&& w64(m, at + 48) == 0
    &&& w32(m, at + 56) == 0
    &&& w64(m, at + 60) == 0
    &&& w64(m, at + 68) == 0
    &&& w32(m, at + 76) == 1
    &&& w64(m, at + 80) == 1
    &&& w64(m, at + 88) == command_buffer
    &&& w32(m, at + 96) == 0
    &&& w64(m, at + 100) == 0
    &&& w64(m, at + 108) == 0
}

/// `t` is `s` and `n` more bytes.
#[verifier::opaque]
spec fn adds(t: Seq<u8>, s: Seq<u8>, n: int) -> bool {
    bytes::begins(t, s) && t.len() == s.len() + n
}

/// The words of `s` are words of `t`, too.
proof fn lemma_kept(t: Seq<u8>, s: Seq<u8>, n: int)
    requires
        adds(t, s, n),
    ensures
        forall|at: int| 0 <= at && at + 4 <= s.len() ==> #[trigger] w32(t, at) == w32(s, at),
        forall|at: int| 0 <= at && at + 8 <= s.len() ==> #[trigger] w64(t, at) == w64(s, at),
        t.len() == s.len() + n,
{
    reveal(adds);
    reveal(w32);
    reveal(w64);
    bytes::lemma_begins(t, s);
}

proof fn lemma_adds_more(u: Seq<u8>, t: Seq<u8>, s: Seq<u8>, k: int, n: int)
    requires
        adds(u, t, k),
        adds(t, s, n),
    ensures
        adds(u, s, k + n),
{
    reveal(adds);
}

proof fn lemma_begin(s: Seq<u8>, command_buffer: u64)
    ensures
        ({
            let t = present_copy::then_begin(s, command_buffer);
            adds(t, s, 48) && reads_begin(t, s.len() as int, command_buffer)
        }),
{
    broadcast use {bytes::group_lengths, bytes::group_reading};
    reveal(adds);
    reveal(w32);
    reveal(w64);
}

#[verifier::spinoff_prover]
proof fn lemma_image_barrier(s: Seq<u8>, image: u64, src_access: u32, dst_access: u32)
    ensures
        ({
            let t = present_copy::then_image_barrier(s, image, src_access, dst_access);
            adds(t, s, 64) && reads_image_barrier(
                t,
                s.len() as int,
                image,
                src_access as int,
                dst_access as int,
            )
        }),
{
    broadcast use {bytes::group_lengths, bytes::group_reading};
    reveal(adds);
    reveal(w32);
    reveal(w64);
}

proof fn lemma_barrier_head(s: Seq<u8>, command_buffer: u64, src_stage: u32, dst_stage: u32)
    ensures
        ({
            let t = present_copy::then_barrier_head(s, command_buffer, src_stage, dst_stage);
            adds(t, s, 28) && reads_barrier(
                t,
                s.len() as int,
                command_buffer,
                src_stage as int,
                dst_stage as int,
            )
        }),
{
    broadcast use {bytes::group_lengths, bytes::group_reading};
    reveal(adds);
    reveal(w32);
    reveal(w64);
}

#[verifier::spinoff_prover]
proof fn lemma_submit(s: Seq<u8>, queue: u64, command_buffer: u64)
    ensures
        ({
            let t = present_copy::then_submit(s, queue, command_buffer);
            adds(t, s, 116) && reads_submit(t, s.len() as int, queue, command_buffer)
        }),
{
    broadcast use {bytes::group_lengths, bytes::group_reading};
    reveal(adds);
    reveal(w32);
    reveal(w64);
}

proof fn lemma_copy_head(s: Seq<u8>, ids: CopyIds, count: int)
    requires
        0 <= count <= u32::MAX,
    ensures
        ({
            let t = present_copy::then_copy_head(s, ids, count);
            adds(t, s, 52) && reads_copy_head(t, s.len() as int, ids, count)
        }),
{
    broadcast use {bytes::group_lengths, bytes::group_reading};
    reveal(adds);
    reveal(w32);
    reveal(w64);
}

proof fn lemma_buffer_head(s: Seq<u8>, ids: CopyToBufferIds, count: int)
    requires
        0 <= count <= u32::MAX,
    ensures
        ({
            let t = present_copy::then_buffer_copy_head(s, ids, count);
            adds(t, s, 48) && reads_buffer_head(t, s.len() as int, ids, count)
        }),
{
    broadcast use {bytes::group_lengths, bytes::group_reading};
    reveal(adds);
    reveal(w32);
    reveal(w64);
}

proof fn lemma_region(s: Seq<u8>, r: CopyRegion)
    ensures
        ({
            let t = present_copy::then_region(s, r);
            adds(t, s, 68) && reads_region(t, s.len() as int, r)
        }),
{
    broadcast use {bytes::group_lengths, bytes::group_reading};
    reveal(adds);
    reveal(w32);
    reveal(w64);
}

proof fn lemma_buffer_region(s: Seq<u8>, r: CopyRegion, pitch: u32, plane_offset: u64)
    requires
        plane_offset + r.dst_y * pitch + 4 * r.dst_x <= u64::MAX,
    ensures
        ({
            let t = present_copy::then_buffer_region(s, r, pitch, plane_offset);
            adds(t, s, 56) && reads_buffer_region(t, s.len() as int, r, pitch, plane_offset)
        }),
{
    broadcast use {bytes::group_lengths, bytes::group_reading};
    reveal(adds);
    reveal(w32);
    reveal(w64);
    assert(0 <= r.dst_y * pitch) by (nonlinear_arith);
}

/// At `at` stands a barrier between two stages on both images, each with what it was
/// accessed for before and what it is accessed for behind the barrier.
pub open spec fn reads_images_barrier(
    m: Seq<u8>,
    at: int,
    ids: CopyIds,
    stages: (int, int),
    src_access: (int, int),
    dst_access: (int, int),
) -> bool {
    &&& reads_barrier(m, at, ids.command_buffer, stages.0, stages.1)
    &&& reads_two_images(m, at + 28)
    &&& reads_image_barrier(m, at + 64, ids.src_image, src_access.0, src_access.1)
    &&& reads_image_barrier(m, at + 128, ids.dst_image, dst_access.0, dst_access.1)
}

/// At `at` stands a barrier between two stages on memory as a whole and on the source
/// image.
pub open spec fn reads_buffer_barrier(
    m: Seq<u8>,
    at: int,
    ids: CopyToBufferIds,
    stages: (int, int),
    memory_access: (int, int),
    image_access: (int, int),
) -> bool {
    &&& reads_barrier(m, at, ids.command_buffer, stages.0, stages.1)
    &&& reads_memory_and_image(m, at + 28, memory_access.0, memory_access.1)
    &&& reads_image_barrier(m, at + 84, ids.src_image, image_access.0, image_access.1)
}

#[verifier::spinoff_prover]
proof fn lemma_images_barrier(
    s: Seq<u8>,
    ids: CopyIds,
    src_stage: u32,
    dst_stage: u32,
    src_access: (u32, u32),
    dst_access: (u32, u32),
)
    ensures
        ({
            let t = present_copy::then_barrier(
                s,
                ids,
                src_stage,
                dst_stage,
                src_access,
                dst_access,
            );
            adds(t, s, 192) && reads_images_barrier(
                t,
                s.len() as int,
                ids,
                (src_stage as int, dst_stage as int),
                (src_access.0 as int, src_access.1 as int),
                (dst_access.0 as int, dst_access.1 as int),
            )
        }),
{
    let a = present_copy::then_barrier_head(s, ids.command_buffer, src_stage, dst_stage);
    lemma_barrier_head(s, ids.command_buffer, src_stage, dst_stage);
    let b = a + bytes::le32(0) + bytes::le64(0) + bytes::le32(0) + bytes::le64(0) + bytes::le32(2)
        + bytes::le64(2);
    assert(adds(b, a, 36) && reads_two_images(b, a.len() as int)) by {
        broadcast use {bytes::group_lengths, bytes::group_reading};

        reveal(adds);
        reveal(w32);
        reveal(w64);
    }
    let c = present_copy::then_image_barrier(b, ids.src_image, src_access.0, src_access.1);
    lemma_image_barrier(b, ids.src_image, src_access.0, src_access.1);
    let d = present_copy::then_image_barrier(c, ids.dst_image, dst_access.0, dst_access.1);
    lemma_image_barrier(c, ids.dst_image, dst_access.0, dst_access.1);
    lemma_kept(a, s, 28);
    lemma_kept(b, a, 36);
    lemma_kept(c, b, 64);
    lemma_kept(d, c, 64);
    lemma_adds_more(b, a, s, 36, 28);
    lemma_adds_more(c, b, s, 64, 64);
    lemma_adds_more(d, c, s, 64, 128);
}

#[verifier::spinoff_prover]
proof fn lemma_buffer_barrier(
    s: Seq<u8>,
    ids: CopyToBufferIds,
    src_stage: u32,
    dst_stage: u32,
    memory_access: (u32, u32),
    image_access: (u32, u32),
)
    ensures
        ({
            let t = present_copy::then_buffer_barrier(
                s,
                ids,
                src_stage,
                dst_stage,
                memory_access,
                image_access,
            );
            adds(t, s, 148) && reads_buffer_barrier(
                t,
                s.len() as int,
                ids,
                (src_stage as int, dst_stage as int),
                (memory_access.0 as int, memory_access.1 as int),
                (image_access.0 as int, image_access.1 as int),
            )
        }),
{
    let a = present_copy::then_barrier_head(s, ids.command_buffer, src_stage, dst_stage);
    lemma_barrier_head(s, ids.command_buffer, src_stage, dst_stage);
    let b = a + bytes::le32(1) + bytes::le64(1) + bytes::le32(
        present_copy::ST_MEMORY_BARRIER as u32,
    ) + bytes::present(false) + bytes::le32(memory_access.0) + bytes::le32(memory_access.1)
        + bytes::le32(0) + bytes::le64(0) + bytes::le32(1) + bytes::le64(1);
    assert(adds(b, a, 56) && reads_memory_and_image(
        b,
        a.len() as int,
        memory_access.0 as int,
        memory_access.1 as int,
    )) by {
        broadcast use {bytes::group_lengths, bytes::group_reading};

        reveal(adds);
        reveal(w32);
        reveal(w64);
    }
    let c = present_copy::then_image_barrier(b, ids.src_image, image_access.0, image_access.1);
    lemma_image_barrier(b, ids.src_image, image_access.0, image_access.1);
    lemma_kept(a, s, 28);
    lemma_kept(b, a, 56);
    lemma_kept(c, b, 64);
    lemma_adds_more(b, a, s, 56, 28);
    lemma_adds_more(c, b, s, 64, 84);
}

proof fn lemma_regions(s: Seq<u8>, regions: Seq<CopyRegion>, n: int)
    requires
        0 <= n <= regions.len(),
    ensures
        adds(present_copy::then_regions(s, regions, n), s, 68 * n),
        forall|i: int|
            0 <= i < n ==> reads_region(
                present_copy::then_regions(s, regions, n),
                s.len() + 68 * i,
                #[trigger] regions[i],
            ),
    decreases n,
{
    if n == 0 {
        reveal(adds);
    } else {
        let before = present_copy::then_regions(s, regions, n - 1);
        let t = present_copy::then_regions(s, regions, n);
        lemma_regions(s, regions, n - 1);
        lemma_region(before, regions[n - 1]);
        lemma_kept(before, s, 68 * (n - 1));
        lemma_kept(t, before, 68);
        lemma_adds_more(t, before, s, 68, 68 * (n - 1));
        assert forall|i: int| 0 <= i < n implies reads_region(
            t,
            s.len() + 68 * i,
            #[trigger] regions[i],
        ) by {
            if i < n - 1 {
                assert(reads_region(before, s.len() + 68 * i, regions[i]));
            }
        }
    }
}

proof fn lemma_buffer_regions(
    s: Seq<u8>,
    regions: Seq<CopyRegion>,
    pitch: u32,
    plane_offset: u64,
    n: int,
)
    requires
        0 <= n <= regions.len(),
        forall|i: int|
            0 <= i < regions.len() ==> plane_offset + (#[trigger] regions[i]).dst_y * pitch + 4
                * regions[i].dst_x <= u64::MAX,
    ensures
        adds(
            present_copy::then_buffer_regions(s, regions, pitch, plane_offset, n),
            s,
            56 * n,
        ),
        forall|i: int|
            0 <= i < n ==> reads_buffer_region(
                present_copy::then_buffer_regions(s, regions, pitch, plane_offset, n),
                s.len() + 56 * i,
                #[trigger] regions[i],
                pitch,
                plane_offset,
            ),
    decreases n,
{
    if n == 0 {
        reveal(adds);
    } else {
        let before = present_copy::then_buffer_regions(s, regions, pitch, plane_offset, n - 1);
        let t = present_copy::then_buffer_regions(s, regions, pitch, plane_offset, n);
        lemma_buffer_regions(s, regions, pitch, plane_offset, n - 1);
        lemma_buffer_region(before, regions[n - 1], pitch, plane_offset);
        lemma_kept(before, s, 56 * (n - 1));
        lemma_kept(t, before, 56);
        lemma_adds_more(t, before, s, 56, 56 * (n - 1));
        assert forall|i: int| 0 <= i < n implies reads_buffer_region(
            t,
            s.len() + 56 * i,
            #[trigger] regions[i],
            pitch,
            plane_offset,
        ) by {
            if i < n - 1 {
                assert(reads_buffer_region(
                    before,
                    s.len() + 56 * i,
                    regions[i],
                    pitch,
                    plane_offset,
                ));
            }
        }
    }
}

proof fn lemma_access_words()
    ensures
        present_copy::any_access() == 0x1_8000,
{
    assert(0x8000u32 | 0x1_0000u32 == 0x1_8000u32) by (bit_vector);
}

/// `m` is a copy of these regions: it reads, from the first byte to the last, as the
/// start of a recording, a barrier that waits for everything and lets the copy read
/// and write, the copy with its regions in order, a barrier that lets everything see
/// what was copied, and the submission of that recording.
pub open spec fn is_copy(m: Seq<u8>, ids: CopyIds, regions: Seq<CopyRegion>) -> bool {
    let end = 292 + 68 * (regions.len() as int);
    &&& m.len() == end + 308
    &&& reads_begin(m, 0, ids.command_buffer)
    &&& reads_images_barrier(
        m,
        48,
        ids,
        (0x1_0000, 0x1000),
        (0x1_8000, 0x800),
        (0x1_8000, 0x1000),
    )
    &&& reads_copy_head(m, 240, ids, regions.len() as int)
    &&& forall|i: int|
        0 <= i < regions.len() ==> reads_region(m, 292 + 68 * i, #[trigger] regions[i])
    &&& reads_images_barrier(
        m,
        end,
        ids,
        (0x1000, 0x1_0000),
        (0x800, 0x1_8000),
        (0x1000, 0x1_8000),
    )
    &&& reads_submit(m, end + 192, ids.queue, ids.command_buffer)
}

#[verifier::spinoff_prover]
proof fn lemma_copy_words(
    ids: CopyIds,
    regions: Seq<CopyRegion>,
    a: Seq<u8>,
    b: Seq<u8>,
    c: Seq<u8>,
    d: Seq<u8>,
    e: Seq<u8>,
    m: Seq<u8>,
)
    requires
        adds(a, Seq::empty(), 48),
        adds(b, a, 192),
        adds(c, b, 52),
        adds(d, c, 68 * (regions.len() as int)),
        adds(e, d, 192),
        adds(m, e, 116),
        reads_begin(a, 0, ids.command_buffer),
        reads_images_barrier(
            b,
            a.len() as int,
            ids,
            (0x1_0000, 0x1000),
            (0x1_8000, 0x800),
            (0x1_8000, 0x1000),
        ),
        reads_copy_head(c, b.len() as int, ids, regions.len() as int),
        forall|i: int|
            0 <= i < regions.len() ==> reads_region(d, c.len() + 68 * i, #[trigger] regions[i]),
        reads_images_barrier(
            e,
            d.len() as int,
            ids,
            (0x1000, 0x1_0000),
            (0x800, 0x1_8000),
            (0x1000, 0x1_8000),
        ),
        reads_submit(m, e.len() as int, ids.queue, ids.command_buffer),
    ensures
        is_copy(m, ids, regions),
{
    let n = regions.len() as int;
    lemma_kept(a, Seq::empty(), 48);
    lemma_kept(b, a, 192);
    lemma_kept(c, b, 52);
    lemma_kept(d, c, 68 * n);
    lemma_kept(e, d, 192);
    lemma_kept(m, e, 116);
    lemma_adds_more(m, e, d, 116, 192);
    lemma_kept(m, d, 308);
    lemma_adds_more(m, d, c, 308, 68 * n);
    lemma_kept(m, c, 308 + 68 * n);
    assert forall|i: int| 0 <= i < regions.len() implies reads_region(
        m,
        292 + 68 * i,
        #[trigger] regions[i],
    ) by {
        assert(reads_region(d, 292 + 68 * i, regions[i]));
    }
}

/// Every word of a copy between two images is the one that its regions and its objects
/// ask for: each region stands at a fixed place and says where it is taken from, where
/// it goes, and its size.
#[verifier::spinoff_prover]
pub proof fn law_the_words_of_a_copy(ids: CopyIds, regions: Seq<CopyRegion>)
    requires
        regions.len() <= u32::MAX,
    ensures
        is_copy(present_copy::copy_message(ids, regions), ids, regions),
{
    lemma_access_words();
    let any = present_copy::any_access();
    let n = regions.len() as int;
    let a = present_copy::then_begin(Seq::empty(), ids.command_buffer);
    lemma_begin(Seq::empty(), ids.command_buffer);
    let b = present_copy::then_barrier(a, ids, 0x1_0000, 0x1000, (any, 0x800), (any, 0x1000));
    lemma_images_barrier(a, ids, 0x1_0000, 0x1000, (any, 0x800), (any, 0x1000));
    let c = present_copy::then_copy_head(b, ids, n);
    lemma_copy_head(b, ids, n);
    let d = present_copy::then_regions(c, regions, n);
    lemma_regions(c, regions, n);
    let e = present_copy::then_barrier(d, ids, 0x1000, 0x1_0000, (0x800, any), (0x1000, any));
    lemma_images_barrier(d, ids, 0x1000, 0x1_0000, (0x800, any), (0x1000, any));
    let m = present_copy::copy_message(ids, regions);
    lemma_submit(e, ids.queue, ids.command_buffer);
    assert(m == present_copy::then_submit(e, ids.queue, ids.command_buffer));
    lemma_copy_words(ids, regions, a, b, c, d, e, m);
}

/// A copy into a pitched surface reads in the same order: the barriers are on memory
/// as a whole and on the source image, and each region says at which byte of the
/// surface it begins.
#[verifier::spinoff_prover]
pub proof fn law_the_words_of_a_buffer_copy(
    ids: CopyToBufferIds,
    regions: Seq<CopyRegion>,
    pitch: u32,
    plane_offset: u64,
)
    requires
        regions.len() <= u32::MAX,
        forall|i: int|
            0 <= i < regions.len() ==> plane_offset + (#[trigger] regions[i]).dst_y * pitch + 4
                * regions[i].dst_x <= u64::MAX,
    ensures
        ({
            let m = present_copy::copy_to_buffer_message(ids, regions, pitch, plane_offset);
            let end = 244 + 56 * (regions.len() as int);
            &&& m.len() == end + 264
            &&& reads_begin(m, 0, ids.command_buffer)
            &&& reads_buffer_barrier(
                m,
                48,
                ids,
                (0x1_0000, 0x1000),
                (0x1_8000, 0x1000),
                (0x1_8000, 0x800),
            )
            &&& reads_buffer_head(m, 196, ids, regions.len() as int)
            &&& forall|i: int|
                0 <= i < regions.len() ==> reads_buffer_region(
                    m,
                    244 + 56 * i,
                    #[trigger] regions[i],
                    pitch,
                    plane_offset,
                )
            &&& reads_buffer_barrier(
                m,
                end,
                ids,
                (0x1000, 0x1_0000),
                (0x1000, 0x1_8000),
                (0x800, 0x1_8000),
            )
            &&& reads_submit(m, end + 148, ids.queue, ids.command_buffer)
        }),
{
    lemma_access_words();
    let any = present_copy::any_access();
    let n = regions.len() as int;
    let a = present_copy::then_begin(Seq::empty(), ids.command_buffer);
    lemma_begin(Seq::empty(), ids.command_buffer);
    let b = present_copy::then_buffer_barrier(
        a,
        ids,
        0x1_0000,
        0x1000,
        (any, 0x1000),
        (any, 0x800),
    );
    lemma_buffer_barrier(a, ids, 0x1_0000, 0x1000, (any, 0x1000), (any, 0x800));
    let c = present_copy::then_buffer_copy_head(b, ids, n);
    lemma_buffer_head(b, ids, n);
    let d = present_copy::then_buffer_regions(c, regions, pitch, plane_offset, n);
    lemma_buffer_regions(c, regions, pitch, plane_offset, n);
    let e = present_copy::then_buffer_barrier(
        d,
        ids,
        0x1000,
        0x1_0000,
        (0x1000, any),
        (0x800, any),
    );
    lemma_buffer_barrier(d, ids, 0x1000, 0x1_0000, (0x1000, any), (0x800, any));
    let m = present_copy::copy_to_buffer_message(ids, regions, pitch, plane_offset);
    lemma_submit(e, ids.queue, ids.command_buffer);
    assert(m == present_copy::then_submit(e, ids.queue, ids.command_buffer));
    lemma_kept(a, Seq::empty(), 48);
    lemma_kept(b, a, 148);
    lemma_kept(c, b, 48);
    lemma_kept(d, c, 56 * n);
    lemma_kept(e, d, 148);
    lemma_kept(m, e, 116);
    assert forall|i: int| 0 <= i < regions.len() implies reads_buffer_region(
        m,
        244 + 56 * i,
        #[trigger] regions[i],
        pitch,
        plane_offset,
    ) by {
        assert(reads_buffer_region(d, 244 + 56 * i, regions[i], pitch, plane_offset));
    }
}

/// Copies of different regions are different messages.
pub proof fn law_a_copy_tells_its_regions(ids: CopyIds, a: Seq<CopyRegion>, b: Seq<CopyRegion>)
    requires
        a.len() <= u32::MAX,
        b.len() <= u32::MAX,
        present_copy::copy_message(ids, a) == present_copy::copy_message(ids, b),
    ensures
        a == b,
{
    law_the_words_of_a_copy(ids, a);
    law_the_words_of_a_copy(ids, b);
    assert forall|i: int| 0 <= i < a.len() implies a[i] == b[i] by {
        let m = present_copy::copy_message(ids, a);
        assert(reads_region(m, 292 + 68 * i, a[i]));
        assert(reads_region(m, 292 + 68 * i, b[i]));
    }
    assert(a =~= b);
}

} // verus!
