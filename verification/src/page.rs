//! Page rounding, row pitches, byte windows, page frames and seqlock reads.

use vstd::prelude::*;

verus! {

/// Page granularity of window offsets and allocation sizes.
pub const PAGE_BYTES: u64 = 4096;

/// Row-pitch alignment of cross-adapter row-major textures.
pub const CROSS_ADAPTER_PITCH_ALIGN: u32 = 256;

/// The least multiple of `unit` that is at least `n`, or, where that exceeds
/// `max`, the greatest multiple of `unit` that does not.
pub open spec fn rounded_up(n: int, unit: int, max: int) -> int {
    if n + unit - 1 > max {
        max - max % unit
    } else {
        (n + unit - 1) - (n + unit - 1) % unit
    }
}

/// Rounds `n` up to a multiple of the page size, saturating.
pub fn round_up_page(n: u64) -> (r: u64)
    ensures
        r == rounded_up(n as int, PAGE_BYTES as int, u64::MAX as int),
{
    let bumped: u64 = n.saturating_add(PAGE_BYTES - 1);
    bumped - bumped % PAGE_BYTES
}

/// The row pitch of a surface of `width` four-byte texels, saturating.
pub open spec fn pitch_of(width: u32) -> int {
    rounded_up(
        if width * 4 > u32::MAX {
            u32::MAX as int
        } else {
            width * 4
        },
        CROSS_ADAPTER_PITCH_ALIGN as int,
        u32::MAX as int,
    )
}

/// The row pitch of a linear surface of four-byte texels, aligned for
/// cross-adapter use.
pub fn cross_adapter_pitch(width: u32) -> (r: u32)
    ensures
        r == pitch_of(width),
{
    let raw: u32 = if width > u32::MAX / 4 {
        u32::MAX
    } else {
        width * 4
    };
    let bumped: u32 = raw.saturating_add(CROSS_ADAPTER_PITCH_ALIGN - 1);
    bumped - bumped % CROSS_ADAPTER_PITCH_ALIGN
}

/// The offset itself if `offset .. offset + bytes` lies inside a window of `len`
/// bytes.
pub fn window_range(len: u64, offset: u64, bytes: u64) -> (r: Option<u64>)
    ensures
        r == (if offset + bytes <= len {
            Some(offset)
        } else {
            None
        }),
{
    match offset.checked_add(bytes) {
        Some(end) => {
            if end <= len {
                Some(offset)
            } else {
                None
            }
        },
        None => None,
    }
}

/// A physical page frame number.
#[derive(Clone, Copy, PartialEq, Eq, Debug, Structural)]
pub struct Pfn(pub u64);

impl Pfn {
    /// The byte address of this page frame, if it is a nonnegative `i64`.
    pub fn physical_address(self) -> (r: Option<u64>)
        ensures
            r == (if self.0 * PAGE_BYTES <= i64::MAX {
                Some((self.0 * PAGE_BYTES) as u64)
            } else {
                None
            }),
    {
        match self.0.checked_mul(PAGE_BYTES) {
            Some(address) => {
                if address <= i64::MAX as u64 {
                    Some(address)
                } else {
                    None
                }
            },
            None => None,
        }
    }
}

/// The verdict of one seqlock read attempt.
#[derive(Clone, Copy, PartialEq, Eq, Debug, Structural)]
pub enum SeqRead {
    /// The snapshot is coherent.
    Stable,
    /// A publish was in flight or landed mid-read; read again.
    Retry,
}

/// Classifies a seqlock read by the sequence value before and after the fields.
pub fn seq_read(before: u32, after: u32) -> (r: SeqRead)
    ensures
        r == (if before % 2 == 0 && before == after {
            SeqRead::Stable
        } else {
            SeqRead::Retry
        }),
{
    if before % 2 != 0 || before != after {
        SeqRead::Retry
    } else {
        SeqRead::Stable
    }
}

/// Read attempts before the reader reports that it has no coherent value.
pub const SEQ_READ_ATTEMPTS: u32 = 8;

/// Rounding up to pages gives a page multiple. It is at least the value that was
/// rounded wherever such a multiple can be represented, and it never wraps to
/// zero.
pub proof fn law_page_rounding(n: u64)
    ensures
        rounded_up(n as int, PAGE_BYTES as int, u64::MAX as int) % (PAGE_BYTES as int) == 0,
        n <= u64::MAX - 4095 ==> n <= rounded_up(n as int, PAGE_BYTES as int, u64::MAX as int) < n
            + PAGE_BYTES,
        n > 0 ==> rounded_up(n as int, PAGE_BYTES as int, u64::MAX as int) > 0,
{
}

/// A row pitch is aligned and, wherever such a pitch can be represented, holds its row
/// with less than one alignment to spare. An aligned row is its own pitch.
pub proof fn law_pitch_holds_the_row(width: u32)
    ensures
        pitch_of(width) % (CROSS_ADAPTER_PITCH_ALIGN as int) == 0,
        width * 4 <= u32::MAX - 255 ==> width * 4 <= pitch_of(width) < width * 4
            + CROSS_ADAPTER_PITCH_ALIGN,
        width % 64 == 0 && width * 4 <= u32::MAX - 255 ==> pitch_of(width) == width * 4,
{
}

/// Where the next multiple cannot be represented, rounding gives the greatest one that can:
/// pages are 4096 bytes and pitches multiples of 256.
pub proof fn law_rounding_stops_at_the_greatest_multiple(n: u64, width: u32)
    ensures
        n > u64::MAX - 4095 ==> rounded_up(n as int, PAGE_BYTES as int, u64::MAX as int)
            == 0xFFFF_FFFF_FFFF_F000,
        n % 4096 == 0 ==> rounded_up(n as int, PAGE_BYTES as int, u64::MAX as int) == n,
        width * 4 > u32::MAX - 255 ==> pitch_of(width) == 0xFFFF_FF00,
        pitch_of(width) % 256 == 0,
        width * 4 <= u32::MAX - 255 ==> 4 * width <= pitch_of(width) < 4 * width + 256,
{
}

} // verus!
