//! The present copy: which rectangles are copied, what the source alias image
//! is, and the command stream that copies.

use vstd::prelude::*;
use crate::bytes;
use crate::memory_type;
use crate::protocol::HeliosWddmAllocationDescV2;
use crate::protocol::Hwa2Vocabulary;
use crate::stream::StreamWriter;
use crate::venus::ImageCreateSpec;
use crate::venus::IMAGE_TILING_OPTIMAL;

verus! {

/// Prepared-copy slots of an adapter.
pub const MAX_SLOTS: usize = 4;
/// Copy regions that one stream may carry.
pub const MAX_REGIONS: usize = 32;
/// The capacity of a copy stream.
pub const STREAM_BYTES: usize = 4096;

pub const CMD_GET_DEVICE_QUEUE: u32 = 17;
pub const CMD_QUEUE_SUBMIT: u32 = 18;
/// The one queue query whose record can name a host ring.
pub const CMD_GET_DEVICE_QUEUE2: u32 = 155;
pub const CMD_CREATE_COMMAND_POOL: u32 = 85;
pub const CMD_DESTROY_COMMAND_POOL: u32 = 86;
pub const CMD_ALLOCATE_COMMAND_BUFFERS: u32 = 88;
pub const CMD_BEGIN_COMMAND_BUFFER: u32 = 90;
pub const CMD_END_COMMAND_BUFFER: u32 = 91;
pub const CMD_CMD_COPY_IMAGE: u32 = 113;
pub const CMD_CMD_COPY_IMAGE_TO_BUFFER: u32 = 116;
pub const CMD_CMD_PIPELINE_BARRIER: u32 = 126;
pub const CMD_BIND_BUFFER_MEMORY: u32 = 28;
pub const CMD_GET_BUFFER_MEMORY_REQUIREMENTS: u32 = 30;
pub const CMD_CREATE_BUFFER: u32 = 50;
pub const CMD_DESTROY_BUFFER: u32 = 51;

pub const ST_SUBMIT_INFO: i32 = 4;
pub const ST_BUFFER_CREATE_INFO: i32 = 12;
pub const ST_MEMORY_BARRIER: i32 = 46;
pub const ST_COMMAND_POOL_CREATE_INFO: i32 = 39;
pub const ST_COMMAND_BUFFER_ALLOCATE_INFO: i32 = 40;
pub const ST_COMMAND_BUFFER_BEGIN_INFO: i32 = 42;
pub const ST_IMAGE_MEMORY_BARRIER: i32 = 45;
pub const ST_DEVICE_QUEUE_INFO_2: i32 = 1000145003;
/// Names the host ring on which the fences of a queue retire.
pub const ST_DEVICE_QUEUE_TIMELINE_INFO_MESA: i32 = 1000384005;

pub const IMAGE_LAYOUT_GENERAL: i32 = 1;
pub const PIPELINE_STAGE_TRANSFER: u32 = 0x0000_1000;
pub const PIPELINE_STAGE_ALL_COMMANDS: u32 = 0x0001_0000;
pub const ACCESS_TRANSFER_READ: u32 = 0x0000_0800;
pub const ACCESS_TRANSFER_WRITE: u32 = 0x0000_1000;
pub const ACCESS_MEMORY_READ: u32 = 0x0000_8000;
pub const ACCESS_MEMORY_WRITE: u32 = 0x0001_0000;
pub const IMAGE_ASPECT_COLOR: u32 = 0x1;
pub const QUEUE_FAMILY_IGNORED: u32 = 0xFFFF_FFFF;
pub const COMMAND_POOL_CREATE_RESET_COMMAND_BUFFER: u32 = 0x2;
pub const COMMAND_BUFFER_LEVEL_PRIMARY: i32 = 0;
pub const COMMAND_BUFFER_USAGE_ONE_TIME_SUBMIT: u32 = 0x1;
pub const IMAGE_CREATE_MUTABLE_FORMAT: u32 = 0x8;
pub const IMAGE_USAGE_TRANSFER_SRC: u32 = 0x01;
pub const IMAGE_USAGE_TRANSFER_DST: u32 = 0x02;
pub const IMAGE_USAGE_SAMPLED: u32 = 0x04;
pub const IMAGE_USAGE_STORAGE: u32 = 0x08;
pub const IMAGE_USAGE_COLOR_ATTACHMENT: u32 = 0x10;
pub const IMAGE_LAYOUT_UNDEFINED: u32 = 0;
pub const BUFFER_USAGE_TRANSFER_SRC: u32 = 0x1;
pub const BUFFER_USAGE_TRANSFER_DST: u32 = 0x2;
/// Every format of a present copy has four bytes to the texel.
pub const TEXEL_BYTES: u32 = 4;

/// The host ring of the render queue. It is not zero, so a fence on it retires
/// when the device is done and not when the decoder is.
pub const PRESENT_COPY_RING_IDX: u32 = 1;

/// `"HPCR"`, little-endian.
pub const COPY_REF_MAGIC: u32 = 0x5243_5048;
/// Where the copy reference stands in the private data of a present packet.
pub const COPY_REF_OFFSET: usize = 16;
pub const COPY_REF_BYTES: usize = 16;

/// A copy reference that a packet can carry.
pub open spec fn is_copy_ref(copy: (u32, u32)) -> bool {
    copy.1 != 0 && copy.0 < MAX_SLOTS
}

/// The bytes of a copy reference: magic, slot, serial, zero; all zero for none.
pub open spec fn copy_ref_bytes(copy: Option<(u32, u32)>) -> Seq<u8> {
    match copy {
        Some(c) if is_copy_ref(c) => bytes::le32(COPY_REF_MAGIC) + bytes::le32(c.0)
            + bytes::le32(c.1) + bytes::le32(0),
        _ => Seq::new(16, |i: int| 0u8),
    }
}

/// The copy reference that these bytes are, if they are an exact one.
pub open spec fn copy_ref_of(b: Seq<u8>) -> Option<(u32, u32)> {
    let copy = (bytes::word32(b, 4), bytes::word32(b, 8));
    if b.len() >= 16 && bytes::word32(b, 0) == COPY_REF_MAGIC && bytes::word32(b, 12) == 0
        && is_copy_ref(copy) {
        Some(copy)
    } else {
        None
    }
}

/// Encodes the reference of a present packet to its prepared copy. A zero serial
/// or a slot that does not exist is no copy.
pub fn encode_copy_ref(copy: Option<(u32, u32)>) -> (out: [u8; COPY_REF_BYTES])
    ensures
        out@ == copy_ref_bytes(copy),
{
    let mut out: [u8; COPY_REF_BYTES] = [0u8;COPY_REF_BYTES];
    assert(out@ =~= Seq::new(16, |i: int| 0u8));
    if let Some((slot, serial)) = copy {
        if serial != 0 && (slot as usize) < MAX_SLOTS {
            let magic: [u8; 4] = bytes::le32_bytes(COPY_REF_MAGIC);
            let slot_bytes: [u8; 4] = bytes::le32_bytes(slot);
            let serial_bytes: [u8; 4] = bytes::le32_bytes(serial);
            let zero: [u8; 4] = bytes::le32_bytes(0);
            bytes::write_at(&mut out, 0, &magic);
            bytes::write_at(&mut out, 4, &slot_bytes);
            bytes::write_at(&mut out, 8, &serial_bytes);
            bytes::write_at(&mut out, 12, &zero);
            assert(out@ =~= copy_ref_bytes(copy));
        }
    }
    out
}

/// Decodes a copy reference. Only an exact record is one.
pub fn decode_copy_ref(b: &[u8]) -> (r: Option<(u32, u32)>)
    ensures
        r == copy_ref_of(b@),
{
    if b.len() < COPY_REF_BYTES {
        return None;
    }
    if bytes::read32(b, 0) != COPY_REF_MAGIC || bytes::read32(b, 12) != 0 {
        return None;
    }
    let slot: u32 = bytes::read32(b, 4);
    let serial: u32 = bytes::read32(b, 8);
    if serial == 0 || slot as usize >= MAX_SLOTS {
        return None;
    }
    Some((slot, serial))
}

/// Decoding gives back the copy that was encoded, and nothing where none was.
pub proof fn law_copy_ref_round_trip(copy: Option<(u32, u32)>)
    ensures
        copy_ref_of(copy_ref_bytes(copy)) == (match copy {
            Some(c) if is_copy_ref(c) => Some(c),
            _ => None,
        }),
{
    let b = copy_ref_bytes(copy);
    match copy {
        Some(c) if is_copy_ref(c) => {
            bytes::lemma_le32_round_trip(COPY_REF_MAGIC);
            bytes::lemma_le32_round_trip(c.0);
            bytes::lemma_le32_round_trip(c.1);
            bytes::lemma_le32_round_trip(0);
            bytes::lemma_word32_bytes(b, 0);
            bytes::lemma_word32_bytes(b, 4);
            bytes::lemma_word32_bytes(b, 8);
            bytes::lemma_word32_bytes(b, 12);
            assert(b.subrange(0, 4) =~= bytes::le32(COPY_REF_MAGIC));
            assert(b.subrange(4, 8) =~= bytes::le32(c.0));
            assert(b.subrange(8, 12) =~= bytes::le32(c.1));
            assert(b.subrange(12, 16) =~= bytes::le32(0));
        },
        _ => {
            assert(b[0] == 0 && b[1] == 0 && b[2] == 0 && b[3] == 0);
        },
    }
}

/// Bytes are decoded to a copy only if they begin with its reference.
pub proof fn law_only_copy_refs_decode(b: Seq<u8>, copy: (u32, u32))
    requires
        copy_ref_of(b) == Some(copy),
    ensures
        is_copy_ref(copy),
        b.len() >= 16,
        b.take(16) == copy_ref_bytes(Some(copy)),
{
    bytes::lemma_word32_bytes(b, 0);
    bytes::lemma_word32_bytes(b, 4);
    bytes::lemma_word32_bytes(b, 8);
    bytes::lemma_word32_bytes(b, 12);
    assert(b.take(16) =~= b.subrange(0, 4) + b.subrange(4, 8) + b.subrange(8, 12) + b.subrange(
        12,
        16,
    ));
}

/// A rectangle, without its right column and bottom row.
#[derive(Clone, Copy, PartialEq, Eq, Debug, Structural)]
pub struct CopyRect {
    pub left: i32,
    pub top: i32,
    pub right: i32,
    pub bottom: i32,
}

impl CopyRect {
    pub fn new(left: i32, top: i32, right: i32, bottom: i32) -> (r: Self)
        ensures
            r == (CopyRect { left, top, right, bottom }),
    {
        CopyRect { left, top, right, bottom }
    }

    pub open spec fn empty(self) -> bool {
        self.right <= self.left || self.bottom <= self.top
    }

    pub open spec fn meet(self, other: Self) -> Self {
        CopyRect {
            left: if self.left >= other.left { self.left } else { other.left },
            top: if self.top >= other.top { self.top } else { other.top },
            right: if self.right <= other.right { self.right } else { other.right },
            bottom: if self.bottom <= other.bottom { self.bottom } else { other.bottom },
        }
    }

    fn is_empty(self) -> (b: bool)
        ensures
            b == self.empty(),
    {
        self.right <= self.left || self.bottom <= self.top
    }

    fn intersect(self, other: Self) -> (r: Self)
        ensures
            r == self.meet(other),
    {
        CopyRect {
            left: if self.left >= other.left { self.left } else { other.left },
            top: if self.top >= other.top { self.top } else { other.top },
            right: if self.right <= other.right { self.right } else { other.right },
            bottom: if self.bottom <= other.bottom { self.bottom } else { other.bottom },
        }
    }
}

/// One region of a copy between two images.
#[derive(Clone, Copy, PartialEq, Eq, Debug, Structural)]
pub struct CopyRegion {
    pub src_x: u32,
    pub src_y: u32,
    pub dst_x: u32,
    pub dst_y: u32,
    pub width: u32,
    pub height: u32,
}

#[derive(Clone, Copy, PartialEq, Eq, Debug, Structural)]
pub enum GeometryRefusal {
    /// A rectangle without area, or an image without texels.
    Empty,
    /// The two rectangles differ in size, which a copy cannot mend.
    Stretch,
    /// More rectangles than a stream can carry.
    TooManyRects,
    /// An extent or an offset that a texel coordinate cannot hold.
    OutOfRange,
}

/// A present copy: the extents of both images, what is copied where, and, in
/// destination coordinates, which parts of it; no part means all of it.
pub struct CopyGeometry<'a> {
    pub src_extent: (u32, u32),
    pub dst_extent: (u32, u32),
    pub src_rect: CopyRect,
    pub dst_rect: CopyRect,
    pub sub_rects: &'a [CopyRect],
}

pub open spec fn larger(a: int, b: int) -> int {
    if a >= b {
        a
    } else {
        b
    }
}

pub open spec fn smaller(a: int, b: int) -> int {
    if a <= b {
        a
    } else {
        b
    }
}

impl<'a> CopyGeometry<'a> {
    /// What is added to a destination coordinate for its source coordinate.
    pub open spec fn dx(&self) -> int {
        self.src_rect.left - self.dst_rect.left
    }

    pub open spec fn dy(&self) -> int {
        self.src_rect.top - self.dst_rect.top
    }

    /// The rectangles to copy.
    pub open spec fn rects(&self) -> Seq<CopyRect> {
        if self.sub_rects@.len() == 0 {
            seq![self.dst_rect]
        } else {
            self.sub_rects@
        }
    }

    /// The first destination column of `r` that lies in the destination rectangle,
    /// in the destination image, and over the source image.
    pub open spec fn left(&self, r: CopyRect) -> int {
        larger(larger(r.left as int, self.dst_rect.left as int), larger(0, -self.dx()))
    }

    pub open spec fn right(&self, r: CopyRect) -> int {
        smaller(
            smaller(r.right as int, self.dst_rect.right as int),
            smaller(self.dst_extent.0 as int, self.src_extent.0 - self.dx()),
        )
    }

    pub open spec fn top(&self, r: CopyRect) -> int {
        larger(larger(r.top as int, self.dst_rect.top as int), larger(0, -self.dy()))
    }

    pub open spec fn bottom(&self, r: CopyRect) -> int {
        smaller(
            smaller(r.bottom as int, self.dst_rect.bottom as int),
            smaller(self.dst_extent.1 as int, self.src_extent.1 - self.dy()),
        )
    }

    /// Some of `r` is copied.
    pub open spec fn is_visible(&self, r: CopyRect) -> bool {
        self.left(r) < self.right(r) && self.top(r) < self.bottom(r)
    }

    /// The part of `r` that is copied.
    pub open spec fn region(&self, r: CopyRect) -> CopyRegion {
        CopyRegion {
            src_x: (self.left(r) + self.dx()) as u32,
            src_y: (self.top(r) + self.dy()) as u32,
            dst_x: self.left(r) as u32,
            dst_y: self.top(r) as u32,
            width: (self.right(r) - self.left(r)) as u32,
            height: (self.bottom(r) - self.top(r)) as u32,
        }
    }

    /// The regions of the first `n` rectangles, in order, without those of which
    /// nothing is copied.
    pub open spec fn first_regions(&self, n: int) -> Seq<CopyRegion>
        decreases n,
    {
        if n <= 0 {
            Seq::empty()
        } else if self.is_visible(self.rects()[n - 1]) {
            self.first_regions(n - 1).push(self.region(self.rects()[n - 1]))
        } else {
            self.first_regions(n - 1)
        }
    }

    pub open spec fn all_regions(&self) -> Seq<CopyRegion> {
        self.first_regions(self.rects().len() as int)
    }

    /// Why the copy is refused, if it is.
    pub open spec fn refusal(&self) -> Option<GeometryRefusal> {
        let (s, d) = (self.src_rect, self.dst_rect);
        if self.sub_rects@.len() > MAX_REGIONS {
            Some(GeometryRefusal::TooManyRects)
        } else if self.src_extent.0 == 0 || self.src_extent.1 == 0 || self.dst_extent.0 == 0
            || self.dst_extent.1 == 0 {
            Some(GeometryRefusal::Empty)
        } else if self.src_extent.0 > i32::MAX || self.src_extent.1 > i32::MAX || self.dst_extent.0
            > i32::MAX || self.dst_extent.1 > i32::MAX {
            Some(GeometryRefusal::OutOfRange)
        } else if s.empty() || d.empty() {
            Some(GeometryRefusal::Empty)
        } else if s.right - s.left != d.right - d.left || s.bottom - s.top != d.bottom - d.top {
            Some(GeometryRefusal::Stretch)
        } else if !(i32::MIN <= self.dx() <= i32::MAX) || !(i32::MIN <= self.dy() <= i32::MAX) {
            Some(GeometryRefusal::OutOfRange)
        } else if self.all_regions().len() == 0 {
            Some(GeometryRefusal::Empty)
        } else {
            None
        }
    }

    /// Fills the front of `out` with the regions to copy and returns how many there
    /// are. A refused copy leaves `out` as it was.
    pub fn regions(&self, out: &mut [CopyRegion; MAX_REGIONS]) -> (r: Result<usize, GeometryRefusal>)
        ensures
            match self.refusal() {
                Some(e) => r == Err::<usize, GeometryRefusal>(e) && final(out)@ == old(out)@,
                None => r is Ok && r->Ok_0 == self.all_regions().len() && r->Ok_0 <= 32
                    && final(out)@ == self.all_regions() + old(out)@.skip(r->Ok_0 as int),
            },
    {
        if self.sub_rects.len() > MAX_REGIONS {
            return Err(GeometryRefusal::TooManyRects);
        }
        let (sw, sh): (u32, u32) = self.src_extent;
        let (dw, dh): (u32, u32) = self.dst_extent;
        if sw == 0 || sh == 0 || dw == 0 || dh == 0 {
            return Err(GeometryRefusal::Empty);
        }
        let src_bounds: CopyRect = match extent_rect(sw, sh) {
            Some(b) => b,
            None => {
                return Err(GeometryRefusal::OutOfRange);
            },
        };
        let dst_bounds: CopyRect = match extent_rect(dw, dh) {
            Some(b) => b,
            None => {
                return Err(GeometryRefusal::OutOfRange);
            },
        };
        let src: CopyRect = self.src_rect;
        let dst: CopyRect = self.dst_rect;
        if src.is_empty() || dst.is_empty() {
            return Err(GeometryRefusal::Empty);
        }
        if src.right as i64 - src.left as i64 != dst.right as i64 - dst.left as i64 || src.bottom
            as i64 - src.top as i64 != dst.bottom as i64 - dst.top as i64 {
            return Err(GeometryRefusal::Stretch);
        }
        let dx: i32 = match src.left.checked_sub(dst.left) {
            Some(v) => v,
            None => {
                return Err(GeometryRefusal::OutOfRange);
            },
        };
        let dy: i32 = match src.top.checked_sub(dst.top) {
            Some(v) => v,
            None => {
                return Err(GeometryRefusal::OutOfRange);
            },
        };
        let count: usize = if self.sub_rects.len() == 0 {
            1
        } else {
            self.sub_rects.len()
        };
        let mut n: usize = 0;
        let mut i: usize = 0;
        while i < count
            invariant
                count == self.rects().len() <= 32,
                count == (if self.sub_rects@.len() == 0 { 1 } else { self.sub_rects@.len() as int }),
                i <= count,
                n <= i,
                n == self.first_regions(i as int).len(),
                src == self.src_rect,
                dst == self.dst_rect,
                !src.empty(),
                !dst.empty(),
                src.right - src.left == dst.right - dst.left,
                src.bottom - src.top == dst.bottom - dst.top,
                dx == self.dx(),
                dy == self.dy(),
                0 < self.src_extent.0 <= i32::MAX,
                0 < self.src_extent.1 <= i32::MAX,
                0 < self.dst_extent.0 <= i32::MAX,
                0 < self.dst_extent.1 <= i32::MAX,
                src_bounds == (CopyRect {
                    left: 0,
                    top: 0,
                    right: self.src_extent.0 as i32,
                    bottom: self.src_extent.1 as i32,
                }),
                dst_bounds == (CopyRect {
                    left: 0,
                    top: 0,
                    right: self.dst_extent.0 as i32,
                    bottom: self.dst_extent.1 as i32,
                }),
                out@ == self.first_regions(i as int) + old(out)@.skip(n as int),
            decreases count - i,
        {
            let r: CopyRect = if self.sub_rects.len() == 0 {
                dst
            } else {
                self.sub_rects[i]
            };
            assert(r == self.rects()[i as int]);
            let d: CopyRect = r.intersect(dst).intersect(dst_bounds);
            if !d.is_empty() {
                let s: CopyRect = CopyRect::new(
                    d.left + dx,
                    d.top + dy,
                    d.right + dx,
                    d.bottom + dy,
                ).intersect(src_bounds);
                if !s.is_empty() {
                    let region = CopyRegion {
                        src_x: s.left as u32,
                        src_y: s.top as u32,
                        dst_x: (s.left - dx) as u32,
                        dst_y: (s.top - dy) as u32,
                        width: (s.right - s.left) as u32,
                        height: (s.bottom - s.top) as u32,
                    };
                    assert(self.is_visible(r));
                    assert(region == self.region(r));
                    let ghost before = out@;
                    out[n] = region;
                    n = n + 1;
                    assert(out@ =~= self.first_regions(i + 1) + old(out)@.skip(n as int));
                } else {
                    assert(!self.is_visible(r));
                }
            } else {
                assert(!self.is_visible(r));
            }
            i = i + 1;
        }
        if n == 0 {
            assert(out@ =~= old(out)@);
            return Err(GeometryRefusal::Empty);
        }
        Ok(n)
    }
}

fn extent_rect(width: u32, height: u32) -> (r: Option<CopyRect>)
    ensures
        match r {
            Some(b) => width <= i32::MAX && height <= i32::MAX && b == (CopyRect {
                left: 0,
                top: 0,
                right: width as i32,
                bottom: height as i32,
            }),
            None => width > i32::MAX || height > i32::MAX,
        },
{
    if width > i32::MAX as u32 || height > i32::MAX as u32 {
        return None;
    }
    Some(CopyRect { left: 0, top: 0, right: width as i32, bottom: height as i32 })
}

/// A region that is copied has texels, and lies inside both images and inside what
/// the present asked for.
pub proof fn law_regions_are_inside(g: CopyGeometry<'_>, r: CopyRect)
    requires
        g.refusal() is None,
        g.is_visible(r),
    ensures
        g.region(r).width > 0,
        g.region(r).height > 0,
        g.region(r).src_x + g.region(r).width <= g.src_extent.0,
        g.region(r).src_y + g.region(r).height <= g.src_extent.1,
        g.region(r).dst_x + g.region(r).width <= g.dst_extent.0,
        g.region(r).dst_y + g.region(r).height <= g.dst_extent.1,
        g.dst_rect.left <= g.region(r).dst_x,
        g.region(r).dst_x + g.region(r).width <= g.dst_rect.right,
        g.dst_rect.top <= g.region(r).dst_y,
        g.region(r).dst_y + g.region(r).height <= g.dst_rect.bottom,
        g.src_rect.left <= g.region(r).src_x,
        g.region(r).src_x + g.region(r).width <= g.src_rect.right,
        g.src_rect.top <= g.region(r).src_y,
        g.region(r).src_y + g.region(r).height <= g.src_rect.bottom,
{
}

#[derive(Clone, Copy, PartialEq, Eq, Debug, Structural)]
pub enum AliasRefusal {
    /// Not a two-dimensional image of one sample, one level and one layer.
    Shape,
    /// Bound as neither render target, present source nor shader resource: the one
    /// class that may be linear.
    Tiling,
    /// A format that has no counterpart.
    Format,
    /// A depth or stencil target, which is never a present source.
    DepthStencil,
}

impl AliasRefusal {
    /// The number under which the refusal is counted.
    pub fn code(self) -> (n: u32)
        ensures
            n == (match self {
                AliasRefusal::Shape => 1u32,
                AliasRefusal::Tiling => 2,
                AliasRefusal::Format => 3,
                AliasRefusal::DepthStencil => 4,
            }),
    {
        match self {
            AliasRefusal::Shape => 1,
            AliasRefusal::Tiling => 2,
            AliasRefusal::Format => 3,
            AliasRefusal::DepthStencil => 4,
        }
    }
}

/// The counterpart of a present source's format.
pub fn dxgi_to_vk_format(dxgi: u32) -> (r: Option<u32>)
    ensures
        r == vk_format(dxgi),
{
    match dxgi {
        87 => Some(44),
        88 => Some(50),
        28 => Some(37),
        29 => Some(43),
        _ => None,
    }
}

pub open spec fn vk_format(dxgi: u32) -> Option<u32> {
    match dxgi {
        87 => Some(44u32),
        88 => Some(50u32),
        28 => Some(37u32),
        29 => Some(43u32),
        _ => None,
    }
}

/// The formats under which an image of this format may be viewed: linear, then
/// gamma-encoded.
pub fn dxgi_view_formats(dxgi: u32) -> (r: Option<[u32; 2]>)
    ensures
        match r {
            Some(f) => view_formats(dxgi) == Some(f@),
            None => view_formats(dxgi) is None,
        },
{
    match dxgi {
        87 | 88 => {
            let f: [u32; 2] = [44, 50];
            assert(f@ =~= seq![44u32, 50]);
            Some(f)
        },
        28 | 29 => {
            let f: [u32; 2] = [37, 43];
            assert(f@ =~= seq![37u32, 43]);
            Some(f)
        },
        _ => None,
    }
}

pub open spec fn view_formats(dxgi: u32) -> Option<Seq<u32>> {
    if dxgi == 87 || dxgi == 88 {
        Some(seq![44u32, 50])
    } else if dxgi == 28 || dxgi == 29 {
        Some(seq![37u32, 43])
    } else {
        None
    }
}

/// Why the allocation cannot be aliased by an image, if it cannot.
pub open spec fn alias_refusal(
    desc: HeliosWddmAllocationDescV2,
    vocabulary: Hwa2Vocabulary,
) -> Option<AliasRefusal> {
    let bind = desc.bind_flags;
    if desc.width == 0 || desc.height == 0 || desc.depth_or_array_size != 1 || desc.mip_levels != 1
        || desc.sample_count != 1 {
        Some(AliasRefusal::Shape)
    } else if bind & vocabulary.bind_depth_stencil != 0 {
        Some(AliasRefusal::DepthStencil)
    } else if bind & (vocabulary.bind_render_target | vocabulary.bind_present
        | vocabulary.bind_shader_resource) == 0 {
        Some(AliasRefusal::Tiling)
    } else if vk_format(desc.dxgi_format) is None {
        Some(AliasRefusal::Format)
    } else {
        None
    }
}

/// How an image with these bindings is used.
pub open spec fn alias_usage(bind: u32, vocabulary: Hwa2Vocabulary) -> u32 {
    let transfer = IMAGE_USAGE_TRANSFER_SRC | IMAGE_USAGE_TRANSFER_DST;
    let sampled = if bind & vocabulary.bind_shader_resource != 0 {
        transfer | IMAGE_USAGE_SAMPLED
    } else {
        transfer
    };
    let color = if bind & vocabulary.bind_render_target != 0 {
        sampled | IMAGE_USAGE_COLOR_ATTACHMENT
    } else {
        sampled
    };
    if bind & vocabulary.bind_unordered_access != 0 {
        color | IMAGE_USAGE_STORAGE
    } else {
        color
    }
}

/// The image that aliases an allocation: identical to the one that the texture's
/// owner created, so that the host lays both out alike. The declared swizzle is
/// not consulted, since every ordinary texture declares a linear one.
pub fn alias_image_spec(
    desc: &HeliosWddmAllocationDescV2,
    vocabulary: &Hwa2Vocabulary,
) -> (r: Result<ImageCreateSpec, AliasRefusal>)
    ensures
        match alias_refusal(*desc, *vocabulary) {
            Some(e) => r == Err::<ImageCreateSpec, AliasRefusal>(e),
            None => r matches Ok(s) && s.external_handle_type == 0 && s.flags
                == IMAGE_CREATE_MUTABLE_FORMAT && Some(s.format) == vk_format(desc.dxgi_format)
                && s.width == desc.width && s.height == desc.height && s.tiling
                == IMAGE_TILING_OPTIMAL && s.usage == alias_usage(desc.bind_flags, *vocabulary)
                && s.initial_layout == IMAGE_LAYOUT_UNDEFINED && s.view_format_count == 2
                && view_formats(desc.dxgi_format) == Some(s.view_formats@),
        },
{
    if desc.width == 0 || desc.height == 0 || desc.depth_or_array_size != 1 || desc.mip_levels != 1
        || desc.sample_count != 1 {
        return Err(AliasRefusal::Shape);
    }
    let bind: u32 = desc.bind_flags;
    if bind & vocabulary.bind_depth_stencil != 0 {
        return Err(AliasRefusal::DepthStencil);
    }
    if bind & (vocabulary.bind_render_target | vocabulary.bind_present
        | vocabulary.bind_shader_resource) == 0 {
        return Err(AliasRefusal::Tiling);
    }
    let format: u32 = match dxgi_to_vk_format(desc.dxgi_format) {
        Some(f) => f,
        None => {
            return Err(AliasRefusal::Format);
        },
    };
    let view_formats: [u32; 2] = match dxgi_view_formats(desc.dxgi_format) {
        Some(f) => f,
        None => {
            return Err(AliasRefusal::Format);
        },
    };
    let mut usage: u32 = IMAGE_USAGE_TRANSFER_SRC | IMAGE_USAGE_TRANSFER_DST;
    if bind & vocabulary.bind_shader_resource != 0 {
        usage = usage | IMAGE_USAGE_SAMPLED;
    }
    if bind & vocabulary.bind_render_target != 0 {
        usage = usage | IMAGE_USAGE_COLOR_ATTACHMENT;
    }
    if bind & vocabulary.bind_unordered_access != 0 {
        usage = usage | IMAGE_USAGE_STORAGE;
    }
    Ok(
        ImageCreateSpec {
            external_handle_type: 0,
            flags: IMAGE_CREATE_MUTABLE_FORMAT,
            format,
            width: desc.width,
            height: desc.height,
            tiling: IMAGE_TILING_OPTIMAL,
            usage,
            initial_layout: IMAGE_LAYOUT_UNDEFINED,
            view_format_count: 2,
            view_formats,
        },
    )
}

/// What the alias of a present allocation has to be.
#[derive(Clone, Copy, PartialEq, Eq, Debug, Structural)]
pub enum TargetClass {
    /// A texture: aliased by an identical image.
    OptimalImage,
    /// A surface of the kernel driver with a real row layout: its bytes are the
    /// surface, so the copy goes to a buffer with this pitch.
    LinearBuffer { pitch: u32, offset: u64 },
}

#[derive(Clone, Copy, PartialEq, Eq, Debug, Structural)]
pub enum TargetRefusal {
    /// The first plane does not hold all rows inside the allocation.
    Plane,
}

/// Only a standard allocation's linear claim is a byte layout.
pub open spec fn is_linear_target(
    desc: HeliosWddmAllocationDescV2,
    vocabulary: Hwa2Vocabulary,
) -> bool {
    desc.flags & vocabulary.flag_standard != 0 && desc.swizzle_class == vocabulary.swizzle_linear
}

/// The first plane holds all rows, each of whole texels, inside the allocation.
pub open spec fn plane_holds_rows(desc: HeliosWddmAllocationDescV2) -> bool {
    let plane = desc.planes@[0];
    desc.plane_count != 0 && desc.width * TEXEL_BYTES <= plane.row_pitch && plane.row_pitch % 4 == 0
        && plane.offset + plane.row_pitch * desc.height <= desc.byte_size
}

/// Classifies a present allocation by who laid it out.
pub fn target_class(
    desc: &HeliosWddmAllocationDescV2,
    vocabulary: &Hwa2Vocabulary,
) -> (r: Result<TargetClass, TargetRefusal>)
    ensures
        r == (if !is_linear_target(*desc, *vocabulary) {
            Ok::<TargetClass, TargetRefusal>(TargetClass::OptimalImage)
        } else if plane_holds_rows(*desc) {
            Ok(
                TargetClass::LinearBuffer {
                    pitch: desc.planes@[0].row_pitch,
                    offset: desc.planes@[0].offset,
                },
            )
        } else {
            Err(TargetRefusal::Plane)
        }),
{
    if desc.flags & vocabulary.flag_standard == 0 || desc.swizzle_class
        != vocabulary.swizzle_linear {
        return Ok(TargetClass::OptimalImage);
    }
    if desc.plane_count == 0 {
        return Err(TargetRefusal::Plane);
    }
    let plane = desc.planes[0];
    let row_bytes: u32 = match desc.width.checked_mul(TEXEL_BYTES) {
        Some(v) => v,
        None => {
            return Err(TargetRefusal::Plane);
        },
    };
    if plane.row_pitch < row_bytes || plane.row_pitch % TEXEL_BYTES != 0 {
        return Err(TargetRefusal::Plane);
    }
    let rows: u64 = match (plane.row_pitch as u64).checked_mul(desc.height as u64) {
        Some(v) => v,
        None => {
            return Err(TargetRefusal::Plane);
        },
    };
    let end: u64 = match plane.offset.checked_add(rows) {
        Some(v) => v,
        None => {
            return Err(TargetRefusal::Plane);
        },
    };
    if end > desc.byte_size {
        return Err(TargetRefusal::Plane);
    }
    Ok(TargetClass::LinearBuffer { pitch: plane.row_pitch, offset: plane.offset })
}

/// Lazily allocated or protected memory.
pub const MEMORY_PROPERTY_FORBIDDEN: u32 = 0x30;

/// The type is declared, device-local, and neither lazily allocated nor protected.
pub open spec fn is_renderer_local(flags: Seq<u32>, count: u32, i: u32) -> bool {
    i < count && i < 32 && i < flags.len() && flags[i as int]
        & memory_type::MEMORY_PROPERTY_DEVICE_LOCAL != 0 && flags[i as int]
        & MEMORY_PROPERTY_FORBIDDEN == 0
}

/// The memory type at which every outer allocation is imported: the first in the
/// renderer's order that is device-local and neither lazily allocated nor
/// protected.
pub fn choose_renderer_device_local_memory_type(
    memory_type_flags: &[u32],
    memory_type_count: u32,
) -> (r: Option<u32>)
    ensures
        match r {
            Some(i) => is_renderer_local(memory_type_flags@, memory_type_count, i) && forall|j: u32|
                j < i ==> !#[trigger] is_renderer_local(memory_type_flags@, memory_type_count, j),
            None => forall|j: u32|
                !#[trigger] is_renderer_local(memory_type_flags@, memory_type_count, j),
        },
{
    let mut i: u32 = 0;
    while (i as usize) < memory_type_flags.len() && i < memory_type_count && i < 32
        invariant
            i <= 32,
            forall|j: u32|
                j < i ==> !#[trigger] is_renderer_local(memory_type_flags@, memory_type_count, j),
        decreases 32 - i,
    {
        let flags: u32 = memory_type_flags[i as usize];
        if flags & memory_type::MEMORY_PROPERTY_DEVICE_LOCAL != 0 && flags
            & MEMORY_PROPERTY_FORBIDDEN == 0 {
            assert(is_renderer_local(memory_type_flags@, memory_type_count, i));
            return Some(i);
        }
        i = i + 1;
    }
    None
}

/// The objects that a copy between two images names.
#[derive(Clone, Copy)]
pub struct CopyIds {
    pub queue: u64,
    pub command_buffer: u64,
    pub src_image: u64,
    pub dst_image: u64,
}

/// The objects that a copy into a pitched surface names.
#[derive(Clone, Copy)]
pub struct CopyToBufferIds {
    pub queue: u64,
    pub command_buffer: u64,
    pub src_image: u64,
    pub dst_buffer: u64,
}

/// `s`, then the start of a recording that is submitted once.
pub open spec fn then_begin(s: Seq<u8>, command_buffer: u64) -> Seq<u8> {
    s + bytes::le32(CMD_BEGIN_COMMAND_BUFFER) + bytes::le32(0) + bytes::le64(command_buffer)
        + bytes::present(true) + bytes::le32(ST_COMMAND_BUFFER_BEGIN_INFO as u32) + bytes::present(
        false,
    ) + bytes::le32(COMMAND_BUFFER_USAGE_ONE_TIME_SUBMIT) + bytes::present(false)
}

/// `s`, then a barrier on all of one image, which keeps its general layout.
pub open spec fn then_image_barrier(
    s: Seq<u8>,
    image: u64,
    src_access: u32,
    dst_access: u32,
) -> Seq<u8> {
    s + bytes::le32(ST_IMAGE_MEMORY_BARRIER as u32) + bytes::present(false) + bytes::le32(
        src_access,
    ) + bytes::le32(dst_access) + bytes::le32(IMAGE_LAYOUT_GENERAL as u32) + bytes::le32(
        IMAGE_LAYOUT_GENERAL as u32,
    ) + bytes::le32(QUEUE_FAMILY_IGNORED) + bytes::le32(QUEUE_FAMILY_IGNORED) + bytes::le64(image)
        + bytes::le32(IMAGE_ASPECT_COLOR) + bytes::le32(0) + bytes::le32(1) + bytes::le32(0)
        + bytes::le32(1)
}

/// `s`, then the head of a pipeline barrier.
pub open spec fn then_barrier_head(
    s: Seq<u8>,
    command_buffer: u64,
    src_stage: u32,
    dst_stage: u32,
) -> Seq<u8> {
    s + bytes::le32(CMD_CMD_PIPELINE_BARRIER) + bytes::le32(0) + bytes::le64(command_buffer)
        + bytes::le32(src_stage) + bytes::le32(dst_stage) + bytes::le32(0)
}

/// What memory is accessed for before and after a copy.
pub open spec fn any_access() -> u32 {
    ACCESS_MEMORY_READ | ACCESS_MEMORY_WRITE
}

/// `s`, then a pipeline barrier on two images.
pub open spec fn then_barrier(
    s: Seq<u8>,
    ids: CopyIds,
    src_stage: u32,
    dst_stage: u32,
    src_access: (u32, u32),
    dst_access: (u32, u32),
) -> Seq<u8> {
    let counts = then_barrier_head(s, ids.command_buffer, src_stage, dst_stage) + bytes::le32(0)
        + bytes::le64(0) + bytes::le32(0) + bytes::le64(0) + bytes::le32(2) + bytes::le64(2);
    then_image_barrier(
        then_image_barrier(counts, ids.src_image, src_access.0, src_access.1),
        ids.dst_image,
        dst_access.0,
        dst_access.1,
    )
}

/// `s`, then a pipeline barrier on memory as a whole and on one image.
pub open spec fn then_buffer_barrier(
    s: Seq<u8>,
    ids: CopyToBufferIds,
    src_stage: u32,
    dst_stage: u32,
    memory_access: (u32, u32),
    image_access: (u32, u32),
) -> Seq<u8> {
    let counts = then_barrier_head(s, ids.command_buffer, src_stage, dst_stage) + bytes::le32(1)
        + bytes::le64(1) + bytes::le32(ST_MEMORY_BARRIER as u32) + bytes::present(false)
        + bytes::le32(memory_access.0) + bytes::le32(memory_access.1) + bytes::le32(0)
        + bytes::le64(0) + bytes::le32(1) + bytes::le64(1);
    then_image_barrier(counts, ids.src_image, image_access.0, image_access.1)
}

/// `s`, then the one color layer of an image.
pub open spec fn then_layers(s: Seq<u8>) -> Seq<u8> {
    s + bytes::le32(IMAGE_ASPECT_COLOR) + bytes::le32(0) + bytes::le32(0) + bytes::le32(1)
}

/// `s`, then one region of an image copy.
pub open spec fn then_region(s: Seq<u8>, r: CopyRegion) -> Seq<u8> {
    then_layers(
        then_layers(s) + bytes::le32(r.src_x) + bytes::le32(r.src_y) + bytes::le32(0),
    ) + bytes::le32(r.dst_x) + bytes::le32(r.dst_y) + bytes::le32(0) + bytes::le32(r.width)
        + bytes::le32(r.height) + bytes::le32(1)
}

/// `s`, then the first `n` regions.
pub open spec fn then_regions(s: Seq<u8>, regions: Seq<CopyRegion>, n: int) -> Seq<u8>
    decreases n,
{
    if n <= 0 {
        s
    } else {
        then_region(then_regions(s, regions, n - 1), regions[n - 1])
    }
}

/// Where in a pitched surface a region begins.
pub open spec fn buffer_offset(r: CopyRegion, pitch: u32, plane_offset: u64) -> int {
    plane_offset + r.dst_y * pitch + r.dst_x * TEXEL_BYTES
}

/// `s`, then one region of a copy into a pitched surface.
pub open spec fn then_buffer_region(
    s: Seq<u8>,
    r: CopyRegion,
    pitch: u32,
    plane_offset: u64,
) -> Seq<u8> {
    then_layers(
        s + bytes::le64(buffer_offset(r, pitch, plane_offset) as u64) + bytes::le32(
            pitch / TEXEL_BYTES,
        ) + bytes::le32(0),
    ) + bytes::le32(r.src_x) + bytes::le32(r.src_y) + bytes::le32(0) + bytes::le32(r.width)
        + bytes::le32(r.height) + bytes::le32(1)
}

/// `s`, then the first `n` regions of a copy into a pitched surface.
pub open spec fn then_buffer_regions(
    s: Seq<u8>,
    regions: Seq<CopyRegion>,
    pitch: u32,
    plane_offset: u64,
    n: int,
) -> Seq<u8>
    decreases n,
{
    if n <= 0 {
        s
    } else {
        then_buffer_region(
            then_buffer_regions(s, regions, pitch, plane_offset, n - 1),
            regions[n - 1],
            pitch,
            plane_offset,
        )
    }
}

/// `s`, then the end of the recording, and its submission without a fence.
pub open spec fn then_submit(s: Seq<u8>, queue: u64, command_buffer: u64) -> Seq<u8> {
    s + bytes::le32(CMD_END_COMMAND_BUFFER) + bytes::le32(0) + bytes::le64(command_buffer)
        + bytes::le32(CMD_QUEUE_SUBMIT) + bytes::le32(0) + bytes::le64(queue) + bytes::le32(1)
        + bytes::le64(1) + bytes::le32(ST_SUBMIT_INFO as u32) + bytes::present(false)
        + bytes::le32(0) + bytes::le64(0) + bytes::le64(0) + bytes::le32(1) + bytes::le64(1)
        + bytes::le64(command_buffer) + bytes::le32(0) + bytes::le64(0) + bytes::le64(0)
}

/// `s`, then the head of an image copy.
pub open spec fn then_copy_head(s: Seq<u8>, ids: CopyIds, count: int) -> Seq<u8> {
    s + bytes::le32(CMD_CMD_COPY_IMAGE) + bytes::le32(0) + bytes::le64(ids.command_buffer)
        + bytes::le64(ids.src_image) + bytes::le32(IMAGE_LAYOUT_GENERAL as u32) + bytes::le64(
        ids.dst_image,
    ) + bytes::le32(IMAGE_LAYOUT_GENERAL as u32) + bytes::le32(count as u32) + bytes::le64(
        count as u64,
    )
}

/// `s`, then the head of a copy into a buffer.
pub open spec fn then_buffer_copy_head(s: Seq<u8>, ids: CopyToBufferIds, count: int) -> Seq<u8> {
    s + bytes::le32(CMD_CMD_COPY_IMAGE_TO_BUFFER) + bytes::le32(0) + bytes::le64(
        ids.command_buffer,
    ) + bytes::le64(ids.src_image) + bytes::le32(IMAGE_LAYOUT_GENERAL as u32) + bytes::le64(
        ids.dst_buffer,
    ) + bytes::le32(count as u32) + bytes::le64(count as u64)
}

/// One whole copy between two images.
pub open spec fn copy_message(ids: CopyIds, regions: Seq<CopyRegion>) -> Seq<u8> {
    let begun = then_begin(Seq::empty(), ids.command_buffer);
    let guarded = then_barrier(
        begun,
        ids,
        PIPELINE_STAGE_ALL_COMMANDS,
        PIPELINE_STAGE_TRANSFER,
        (any_access(), ACCESS_TRANSFER_READ),
        (any_access(), ACCESS_TRANSFER_WRITE),
    );
    let headed = then_copy_head(guarded, ids, regions.len() as int);
    let copied = then_regions(headed, regions, regions.len() as int);
    let released = then_barrier(
        copied,
        ids,
        PIPELINE_STAGE_TRANSFER,
        PIPELINE_STAGE_ALL_COMMANDS,
        (ACCESS_TRANSFER_READ, any_access()),
        (ACCESS_TRANSFER_WRITE, any_access()),
    );
    then_submit(released, ids.queue, ids.command_buffer)
}

/// One whole copy into a pitched surface.
pub open spec fn copy_to_buffer_message(
    ids: CopyToBufferIds,
    regions: Seq<CopyRegion>,
    pitch: u32,
    plane_offset: u64,
) -> Seq<u8> {
    let begun = then_begin(Seq::empty(), ids.command_buffer);
    let guarded = then_buffer_barrier(
        begun,
        ids,
        PIPELINE_STAGE_ALL_COMMANDS,
        PIPELINE_STAGE_TRANSFER,
        (any_access(), ACCESS_TRANSFER_WRITE),
        (any_access(), ACCESS_TRANSFER_READ),
    );
    let headed = then_buffer_copy_head(guarded, ids, regions.len() as int);
    let copied = then_buffer_regions(headed, regions, pitch, plane_offset, regions.len() as int);
    let released = then_buffer_barrier(
        copied,
        ids,
        PIPELINE_STAGE_TRANSFER,
        PIPELINE_STAGE_ALL_COMMANDS,
        (ACCESS_TRANSFER_WRITE, any_access()),
        (ACCESS_TRANSFER_READ, any_access()),
    );
    then_submit(released, ids.queue, ids.command_buffer)
}

fn begin(w: &mut StreamWriter<STREAM_BYTES>, command_buffer: u64)
    requires
        old(w).wf(),
    ensures
        final(w).wf(),
        final(w)@ == then_begin(old(w)@, command_buffer),
{
    w.header(CMD_BEGIN_COMMAND_BUFFER, 0);
    w.u64(command_buffer);
    w.count(true);  // begin info
    w.i32(ST_COMMAND_BUFFER_BEGIN_INFO);
    w.count(false);
    w.u32(COMMAND_BUFFER_USAGE_ONE_TIME_SUBMIT);
    w.count(false);  // inheritance info
}

fn image_barrier(w: &mut StreamWriter<STREAM_BYTES>, image: u64, src_access: u32, dst_access: u32)
    requires
        old(w).wf(),
    ensures
        final(w).wf(),
        final(w)@ == then_image_barrier(old(w)@, image, src_access, dst_access),
{
    w.i32(ST_IMAGE_MEMORY_BARRIER);
    w.count(false);
    w.u32(src_access);
    w.u32(dst_access);
    w.i32(IMAGE_LAYOUT_GENERAL);
    w.i32(IMAGE_LAYOUT_GENERAL);
    w.u32(QUEUE_FAMILY_IGNORED);
    w.u32(QUEUE_FAMILY_IGNORED);
    w.u64(image);
    w.u32(IMAGE_ASPECT_COLOR);
    w.u32(0);  // first level
    w.u32(1);  // levels
    w.u32(0);  // first layer
    w.u32(1);  // layers
}

fn barrier_head(
    w: &mut StreamWriter<STREAM_BYTES>,
    command_buffer: u64,
    src_stage: u32,
    dst_stage: u32,
)
    requires
        old(w).wf(),
    ensures
        final(w).wf(),
        final(w)@ == then_barrier_head(old(w)@, command_buffer, src_stage, dst_stage),
{
    w.header(CMD_CMD_PIPELINE_BARRIER, 0);
    w.u64(command_buffer);
    w.u32(src_stage);
    w.u32(dst_stage);
    w.u32(0);  // dependency flags
}

/// A barrier on both images.
fn barrier(
    w: &mut StreamWriter<STREAM_BYTES>,
    ids: CopyIds,
    src_stage: u32,
    dst_stage: u32,
    src_access: (u32, u32),
    dst_access: (u32, u32),
)
    requires
        old(w).wf(),
    ensures
        final(w).wf(),
        final(w)@ == then_barrier(old(w)@, ids, src_stage, dst_stage, src_access, dst_access),
{
    barrier_head(w, ids.command_buffer, src_stage, dst_stage);
    w.u32(0);  // memory barriers
    w.u64(0);
    w.u32(0);  // buffer barriers
    w.u64(0);
    w.u32(2);  // image barriers
    w.u64(2);
    image_barrier(w, ids.src_image, src_access.0, src_access.1);
    image_barrier(w, ids.dst_image, dst_access.0, dst_access.1);
}

/// A barrier on memory as a whole, for the buffer, and on the source image.
fn buffer_barrier(
    w: &mut StreamWriter<STREAM_BYTES>,
    ids: CopyToBufferIds,
    src_stage: u32,
    dst_stage: u32,
    memory_access: (u32, u32),
    image_access: (u32, u32),
)
    requires
        old(w).wf(),
    ensures
        final(w).wf(),
        final(w)@ == then_buffer_barrier(
            old(w)@,
            ids,
            src_stage,
            dst_stage,
            memory_access,
            image_access,
        ),
{
    barrier_head(w, ids.command_buffer, src_stage, dst_stage);
    w.u32(1);  // memory barriers
    w.u64(1);
    w.i32(ST_MEMORY_BARRIER);
    w.count(false);
    w.u32(memory_access.0);
    w.u32(memory_access.1);
    w.u32(0);  // buffer barriers
    w.u64(0);
    w.u32(1);  // image barriers
    w.u64(1);
    image_barrier(w, ids.src_image, image_access.0, image_access.1);
}

fn subresource_layers(w: &mut StreamWriter<STREAM_BYTES>)
    requires
        old(w).wf(),
    ensures
        final(w).wf(),
        final(w)@ == then_layers(old(w)@),
{
    w.u32(IMAGE_ASPECT_COLOR);
    w.u32(0);  // level
    w.u32(0);  // first layer
    w.u32(1);  // layers
}

/// Ends the recording and submits it: no waits, one command buffer, no signals.
fn queue_submit(w: &mut StreamWriter<STREAM_BYTES>, queue: u64, command_buffer: u64)
    requires
        old(w).wf(),
    ensures
        final(w).wf(),
        final(w)@ == then_submit(old(w)@, queue, command_buffer),
{
    w.header(CMD_END_COMMAND_BUFFER, 0);
    w.u64(command_buffer);
    w.header(CMD_QUEUE_SUBMIT, 0);
    w.u64(queue);
    w.u32(1);
    w.u64(1);
    w.i32(ST_SUBMIT_INFO);
    w.count(false);
    w.u32(0);
    w.u64(0);
    w.u64(0);
    w.u32(1);
    w.u64(1);
    w.u64(command_buffer);
    w.u32(0);
    w.u64(0);
    w.u64(0);  // fence
}

fn copy_head(w: &mut StreamWriter<STREAM_BYTES>, ids: CopyIds, count: usize)
    requires
        old(w).wf(),
    ensures
        final(w).wf(),
        final(w)@ == then_copy_head(old(w)@, ids, count as int),
{
    w.header(CMD_CMD_COPY_IMAGE, 0);
    w.u64(ids.command_buffer);
    w.u64(ids.src_image);
    w.i32(IMAGE_LAYOUT_GENERAL);
    w.u64(ids.dst_image);
    w.i32(IMAGE_LAYOUT_GENERAL);
    w.u32(count as u32);
    w.u64(count as u64);
}

fn buffer_copy_head(w: &mut StreamWriter<STREAM_BYTES>, ids: CopyToBufferIds, count: usize)
    requires
        old(w).wf(),
    ensures
        final(w).wf(),
        final(w)@ == then_buffer_copy_head(old(w)@, ids, count as int),
{
    w.header(CMD_CMD_COPY_IMAGE_TO_BUFFER, 0);
    w.u64(ids.command_buffer);
    w.u64(ids.src_image);
    w.i32(IMAGE_LAYOUT_GENERAL);
    w.u64(ids.dst_buffer);
    w.u32(count as u32);
    w.u64(count as u64);
}

fn copy_region(w: &mut StreamWriter<STREAM_BYTES>, r: CopyRegion)
    requires
        old(w).wf(),
    ensures
        final(w).wf(),
        final(w)@ == then_region(old(w)@, r),
{
    subresource_layers(w);
    w.u32(r.src_x);
    w.u32(r.src_y);
    w.u32(0);
    subresource_layers(w);
    w.u32(r.dst_x);
    w.u32(r.dst_y);
    w.u32(0);
    w.u32(r.width);
    w.u32(r.height);
    w.u32(1);
}

fn copy_regions(w: &mut StreamWriter<STREAM_BYTES>, regions: &[CopyRegion])
    requires
        old(w).wf(),
    ensures
        final(w).wf(),
        final(w)@ == then_regions(old(w)@, regions@, regions@.len() as int),
{
    let mut i: usize = 0;
    while i < regions.len()
        invariant
            i <= regions@.len(),
            w.wf(),
            w@ == then_regions(old(w)@, regions@, i as int),
        decreases regions@.len() - i,
    {
        copy_region(w, regions[i]);
        i = i + 1;
    }
}

fn buffer_copy_region(
    w: &mut StreamWriter<STREAM_BYTES>,
    r: CopyRegion,
    pitch: u32,
    plane_offset: u64,
)
    requires
        old(w).wf(),
        buffer_offset(r, pitch, plane_offset) <= u64::MAX,
    ensures
        final(w).wf(),
        final(w)@ == then_buffer_region(old(w)@, r, pitch, plane_offset),
{
    assert(0 <= r.dst_y * pitch <= 0xFFFF_FFFF * 0xFFFF_FFFF) by (nonlinear_arith)
        requires
            0 <= r.dst_y <= 0xFFFF_FFFF,
            0 <= pitch <= 0xFFFF_FFFF,
    ;
    let down: u64 = r.dst_y as u64 * pitch as u64;
    let along: u64 = r.dst_x as u64 * TEXEL_BYTES as u64;
    w.u64(plane_offset + down + along);
    w.u32(pitch / TEXEL_BYTES);  // row length in texels
    w.u32(0);  // rows are tightly packed
    subresource_layers(w);
    w.u32(r.src_x);
    w.u32(r.src_y);
    w.u32(0);
    w.u32(r.width);
    w.u32(r.height);
    w.u32(1);
}

fn buffer_copy_regions(
    w: &mut StreamWriter<STREAM_BYTES>,
    regions: &[CopyRegion],
    pitch: u32,
    plane_offset: u64,
)
    requires
        old(w).wf(),
        forall|i: int|
            0 <= i < regions@.len() ==> buffer_offset(#[trigger] regions@[i], pitch, plane_offset)
                <= u64::MAX,
    ensures
        final(w).wf(),
        final(w)@ == then_buffer_regions(
            old(w)@,
            regions@,
            pitch,
            plane_offset,
            regions@.len() as int,
        ),
{
    let mut i: usize = 0;
    while i < regions.len()
        invariant
            i <= regions@.len(),
            w.wf(),
            w@ == then_buffer_regions(old(w)@, regions@, pitch, plane_offset, i as int),
            forall|i: int|
                0 <= i < regions@.len() ==> buffer_offset(
                    #[trigger] regions@[i],
                    pitch,
                    plane_offset,
                ) <= u64::MAX,
        decreases regions@.len() - i,
    {
        buffer_copy_region(w, regions[i], pitch, plane_offset);
        i = i + 1;
    }
}

/// Encodes the copy of one present as a command stream: a recording with the copy
/// between two barriers, and its submission. Neither image changes its layout.
pub fn encode_copy_stream(ids: CopyIds, regions: &[CopyRegion]) -> (w: StreamWriter<STREAM_BYTES>)
    ensures
        w.wf(),
        w@ == copy_message(ids, regions@),
{
    let mut w = StreamWriter::<STREAM_BYTES>::new();
    begin(&mut w, ids.command_buffer);
    barrier(
        &mut w,
        ids,
        PIPELINE_STAGE_ALL_COMMANDS,
        PIPELINE_STAGE_TRANSFER,
        (ACCESS_MEMORY_READ | ACCESS_MEMORY_WRITE, ACCESS_TRANSFER_READ),
        (ACCESS_MEMORY_READ | ACCESS_MEMORY_WRITE, ACCESS_TRANSFER_WRITE),
    );
    copy_head(&mut w, ids, regions.len());
    copy_regions(&mut w, regions);
    barrier(
        &mut w,
        ids,
        PIPELINE_STAGE_TRANSFER,
        PIPELINE_STAGE_ALL_COMMANDS,
        (ACCESS_TRANSFER_READ, ACCESS_MEMORY_READ | ACCESS_MEMORY_WRITE),
        (ACCESS_TRANSFER_WRITE, ACCESS_MEMORY_READ | ACCESS_MEMORY_WRITE),
    );
    queue_submit(&mut w, ids.queue, ids.command_buffer);
    w
}

/// Encodes the copy of one present into a pitched surface.
pub fn encode_copy_to_buffer_stream(
    ids: CopyToBufferIds,
    regions: &[CopyRegion],
    pitch: u32,
    plane_offset: u64,
) -> (w: StreamWriter<STREAM_BYTES>)
    requires
        forall|i: int|
            0 <= i < regions@.len() ==> buffer_offset(#[trigger] regions@[i], pitch, plane_offset)
                <= u64::MAX,
    ensures
        w.wf(),
        w@ == copy_to_buffer_message(ids, regions@, pitch, plane_offset),
{
    let mut w = StreamWriter::<STREAM_BYTES>::new();
    begin(&mut w, ids.command_buffer);
    buffer_barrier(
        &mut w,
        ids,
        PIPELINE_STAGE_ALL_COMMANDS,
        PIPELINE_STAGE_TRANSFER,
        (ACCESS_MEMORY_READ | ACCESS_MEMORY_WRITE, ACCESS_TRANSFER_WRITE),
        (ACCESS_MEMORY_READ | ACCESS_MEMORY_WRITE, ACCESS_TRANSFER_READ),
    );
    buffer_copy_head(&mut w, ids, regions.len());
    buffer_copy_regions(&mut w, regions, pitch, plane_offset);
    buffer_barrier(
        &mut w,
        ids,
        PIPELINE_STAGE_TRANSFER,
        PIPELINE_STAGE_ALL_COMMANDS,
        (ACCESS_TRANSFER_WRITE, ACCESS_MEMORY_READ | ACCESS_MEMORY_WRITE),
        (ACCESS_TRANSFER_READ, ACCESS_MEMORY_READ | ACCESS_MEMORY_WRITE),
    );
    queue_submit(&mut w, ids.queue, ids.command_buffer);
    w
}

/// The bytes of a copy stream without its regions, and of one region.
pub const STREAM_FIXED_BYTES: usize = 600;
pub const STREAM_REGION_BYTES: usize = 68;
/// The bytes of a copy into a buffer without its regions, and of one region.
pub const BUFFER_STREAM_FIXED_BYTES: usize = 508;
pub const BUFFER_STREAM_REGION_BYTES: usize = 56;

proof fn lemma_regions_len(s: Seq<u8>, regions: Seq<CopyRegion>, n: int)
    requires
        0 <= n <= regions.len(),
    ensures
        then_regions(s, regions, n).len() == s.len() + n * STREAM_REGION_BYTES,
    decreases n,
{
    broadcast use bytes::group_lengths;
    if n > 0 {
        lemma_regions_len(s, regions, n - 1);
    }
}

proof fn lemma_buffer_regions_len(
    s: Seq<u8>,
    regions: Seq<CopyRegion>,
    pitch: u32,
    plane_offset: u64,
    n: int,
)
    requires
        0 <= n <= regions.len(),
    ensures
        then_buffer_regions(s, regions, pitch, plane_offset, n).len() == s.len() + n
            * BUFFER_STREAM_REGION_BYTES,
    decreases n,
{
    broadcast use bytes::group_lengths;
    if n > 0 {
        lemma_buffer_regions_len(s, regions, pitch, plane_offset, n - 1);
    }
}

/// A copy stream has a fixed cost and a cost for each region, so the most regions
/// that a geometry can give always fit.
pub proof fn law_copy_streams_fit(
    ids: CopyIds,
    buffer_ids: CopyToBufferIds,
    regions: Seq<CopyRegion>,
    pitch: u32,
    plane_offset: u64,
)
    ensures
        copy_message(ids, regions).len() == STREAM_FIXED_BYTES + regions.len()
            * STREAM_REGION_BYTES,
        copy_to_buffer_message(buffer_ids, regions, pitch, plane_offset).len()
            == BUFFER_STREAM_FIXED_BYTES + regions.len() * BUFFER_STREAM_REGION_BYTES,
        regions.len() <= MAX_REGIONS ==> copy_message(ids, regions).len() <= STREAM_BYTES
            && copy_to_buffer_message(buffer_ids, regions, pitch, plane_offset).len()
            <= STREAM_BYTES,
{
    broadcast use bytes::group_lengths;
    let n = regions.len() as int;
    let headed = then_copy_head(
        then_barrier(
            then_begin(Seq::empty(), ids.command_buffer),
            ids,
            PIPELINE_STAGE_ALL_COMMANDS,
            PIPELINE_STAGE_TRANSFER,
            (any_access(), ACCESS_TRANSFER_READ),
            (any_access(), ACCESS_TRANSFER_WRITE),
        ),
        ids,
        n,
    );
    assert(headed.len() == 292);
    lemma_regions_len(headed, regions, n);
    let buffer_headed = then_buffer_copy_head(
        then_buffer_barrier(
            then_begin(Seq::empty(), buffer_ids.command_buffer),
            buffer_ids,
            PIPELINE_STAGE_ALL_COMMANDS,
            PIPELINE_STAGE_TRANSFER,
            (any_access(), ACCESS_TRANSFER_WRITE),
            (any_access(), ACCESS_TRANSFER_READ),
        ),
        buffer_ids,
        n,
    );
    assert(buffer_headed.len() == 244);
    lemma_buffer_regions_len(buffer_headed, regions, pitch, plane_offset, n);
}

/// The formats that can be presented, and the pair under which each is viewed: the
/// linear one first, then the gamma-encoded one. Every format is one of its pair.
pub proof fn law_formats_come_in_pairs(dxgi: u32)
    ensures
        vk_format(dxgi) == (if dxgi == 87 {
            Some(44u32)
        } else if dxgi == 88 {
            Some(50u32)
        } else if dxgi == 28 {
            Some(37u32)
        } else if dxgi == 29 {
            Some(43u32)
        } else {
            None
        }),
        vk_format(dxgi) is Some <==> view_formats(dxgi) is Some,
        view_formats(dxgi) matches Some(f) ==> f.len() == 2 && f.contains(vk_format(dxgi)->0) && (
        dxgi == 87 || dxgi == 88 ==> f == seq![44u32, 50]) && (dxgi == 28 || dxgi == 29 ==> f
            == seq![37u32, 43]),
{
    if let Some(f) = view_formats(dxgi) {
        assert(f[0] == vk_format(dxgi)->0 || f[1] == vk_format(dxgi)->0);
    }
}

/// An allocation can be aliased exactly if it is a plain image with texels, is bound as a
/// render target, a present source or a shader resource and not for depth, and has a
/// format that can be presented.
pub proof fn law_a_plain_colored_image_is_aliased(
    desc: HeliosWddmAllocationDescV2,
    vocabulary: Hwa2Vocabulary,
)
    ensures
        ({
            let r = alias_refusal(desc, vocabulary);
            let plain = desc.width > 0 && desc.height > 0 && desc.depth_or_array_size == 1
                && desc.mip_levels == 1 && desc.sample_count == 1;
            let bind = desc.bind_flags;
            let shown = bind & vocabulary.bind_render_target != 0 || bind & vocabulary.bind_present
                != 0 || bind & vocabulary.bind_shader_resource != 0;
            let f = desc.dxgi_format;
            let known = f == 28 || f == 29 || f == 87 || f == 88;
            &&& r is None <==> plain && bind & vocabulary.bind_depth_stencil == 0 && shown && known
            &&& r == Some(AliasRefusal::Shape) <==> !plain
            &&& r == Some(AliasRefusal::DepthStencil) ==> bind & vocabulary.bind_depth_stencil != 0
            &&& r == Some(AliasRefusal::Tiling) ==> !shown
            &&& r == Some(AliasRefusal::Format) ==> !known
        }),
{
    let b = desc.bind_flags;
    let x = vocabulary.bind_render_target;
    let y = vocabulary.bind_present;
    let z = vocabulary.bind_shader_resource;
    assert((b & (x | y | z) == 0) <==> (b & x == 0 && b & y == 0 && b & z == 0)) by (bit_vector);
}

/// An aliased image is copied from and to, and beyond that is used exactly as its
/// bindings say.
pub proof fn law_an_image_is_used_as_it_is_bound(bind: u32, vocabulary: Hwa2Vocabulary)
    ensures
        alias_usage(bind, vocabulary) == 3 + (if bind & vocabulary.bind_shader_resource != 0 {
            4int
        } else {
            0
        }) + (if bind & vocabulary.bind_unordered_access != 0 {
            8int
        } else {
            0
        }) + (if bind & vocabulary.bind_render_target != 0 {
            16int
        } else {
            0
        }),
{
    assert(1u32 | 2u32 == 3u32) by (bit_vector);
    assert(3u32 | 4u32 == 7u32) by (bit_vector);
    assert(3u32 | 16u32 == 19u32) by (bit_vector);
    assert(7u32 | 16u32 == 23u32) by (bit_vector);
    assert(3u32 | 8u32 == 11u32) by (bit_vector);
    assert(7u32 | 8u32 == 15u32) by (bit_vector);
    assert(19u32 | 8u32 == 27u32) by (bit_vector);
    assert(23u32 | 8u32 == 31u32) by (bit_vector);
}

/// A copy goes to a buffer exactly for a standard allocation that is linear, and then
/// every texel of the surface lies inside the allocation.
pub proof fn law_a_linear_surface_holds_its_texels(
    desc: HeliosWddmAllocationDescV2,
    vocabulary: Hwa2Vocabulary,
    x: int,
    y: int,
)
    requires
        0 <= x < desc.width,
        0 <= y < desc.height,
    ensures
        is_linear_target(desc, vocabulary) <==> desc.flags & vocabulary.flag_standard != 0
            && desc.swizzle_class == vocabulary.swizzle_linear,
        plane_holds_rows(desc) ==> ({
            let plane = desc.planes@[0];
            &&& plane.row_pitch % 4 == 0
            &&& plane.offset + y * plane.row_pitch + 4 * x + 4 <= desc.byte_size
            &&& 4 * x + 4 <= plane.row_pitch
        }),
{
    let plane = desc.planes@[0];
    if plane_holds_rows(desc) {
        let p = plane.row_pitch as int;
        let h = desc.height as int;
        assert(y * p + p <= p * h) by (nonlinear_arith)
            requires
                0 <= y < h,
                0 <= p,
        ;
    }
}

/// A surface whose first plane holds whole rows of whole texels inside the allocation is
/// taken, whatever lies behind the rows.
pub proof fn law_a_plane_that_holds_its_rows_is_taken(desc: HeliosWddmAllocationDescV2)
    requires
        desc.plane_count > 0,
        desc.planes@[0].row_pitch % 4 == 0,
        4 * desc.width <= desc.planes@[0].row_pitch,
        desc.planes@[0].offset + desc.height * desc.planes@[0].row_pitch <= desc.byte_size,
    ensures
        plane_holds_rows(desc),
{
    let p = desc.planes@[0].row_pitch as int;
    let h = desc.height as int;
    assert(p * h == h * p) by (nonlinear_arith);
}

/// The type at which an outer allocation is imported has the device-local bit, and
/// neither of the two bits of memory that is allocated lazily or protected.
pub proof fn law_renderer_types_are_local(flags: Seq<u32>, count: u32, i: u32)
    ensures
        is_renderer_local(flags, count, i) <==> i < count && i < 32 && i < flags.len()
            && flags[i as int] % 2 == 1 && flags[i as int] / 16 % 4 == 0,
{
    let f = flags[i as int];
    assert((f & 0x1u32 != 0) <==> f % 2 == 1) by (bit_vector);
    assert((f & 0x30u32 == 0) <==> f / 16 % 4 == 0) by (bit_vector);
}

/// A copy reference is its tag, one of four slots, a serial that is not zero, and a zero
/// word. Bytes that lack any of these are none.
pub proof fn law_a_copy_reference_names_a_slot(b: Seq<u8>)
    ensures
        copy_ref_of(b) == (if b.len() >= 16 && bytes::word32(b, 0) == 0x5243_5048 && bytes::word32(
            b,
            4,
        ) < 4 && bytes::word32(b, 8) > 0 && bytes::word32(b, 12) == 0 {
            Some((bytes::word32(b, 4), bytes::word32(b, 8)))
        } else {
            None
        }),
{
}

} // verus!
