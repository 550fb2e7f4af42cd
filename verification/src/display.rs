//! Display modes, the programming gate word, and scan-out formats.

use vstd::prelude::*;

verus! {

/// Smallest scan-out extent that is adopted from the host.
pub const MIN_DISPLAY_WIDTH: u32 = 320;
pub const MIN_DISPLAY_HEIGHT: u32 = 240;

/// The extent that is advertised when the host reports none that is usable.
pub const FALLBACK_DISPLAY_WIDTH: u32 = 1920;
pub const FALLBACK_DISPLAY_HEIGHT: u32 = 1080;

/// A scan-out extent that is at least the smallest usable one.
#[derive(Clone, Copy, Debug, PartialEq, Eq, Structural)]
pub struct DisplayMode {
    width: u32,
    height: u32,
}

impl DisplayMode {
    pub closed spec fn spec_width(&self) -> u32 {
        self.width
    }

    pub closed spec fn spec_height(&self) -> u32 {
        self.height
    }

    pub open spec fn wf(&self) -> bool {
        self.spec_width() >= MIN_DISPLAY_WIDTH && self.spec_height() >= MIN_DISPLAY_HEIGHT
    }

    /// The extent used when the host reports nothing usable.
    pub fn fallback() -> (m: Self)
        ensures
            m.wf(),
            m.spec_width() == FALLBACK_DISPLAY_WIDTH,
            m.spec_height() == FALLBACK_DISPLAY_HEIGHT,
    {
        DisplayMode { width: FALLBACK_DISPLAY_WIDTH, height: FALLBACK_DISPLAY_HEIGHT }
    }

    /// Adopts the host-reported extent, or `None` if it is too small.
    pub fn from_host(width: u32, height: u32) -> (m: Option<Self>)
        ensures
            m is Some <==> width >= MIN_DISPLAY_WIDTH && height >= MIN_DISPLAY_HEIGHT,
            m matches Some(mode) ==> mode.wf() && mode.spec_width() == width && mode.spec_height()
                == height,
    {
        if width < MIN_DISPLAY_WIDTH || height < MIN_DISPLAY_HEIGHT {
            None
        } else {
            Some(DisplayMode { width, height })
        }
    }

    pub fn width(self) -> (w: u32)
        ensures
            w == self.spec_width(),
    {
        self.width
    }

    pub fn height(self) -> (h: u32)
        ensures
            h == self.spec_height(),
    {
        self.height
    }

    /// The width in the upper half of the word and the height in the lower, each
    /// cut to sixteen bits.
    pub fn packed(self) -> (p: u32)
        ensures
            p == (self.spec_width() % 0x1_0000) * 0x1_0000 + self.spec_height() % 0x1_0000,
    {
        (self.width % 0x1_0000) * 0x1_0000 + self.height % 0x1_0000
    }
}

impl From<DisplayMode> for (u32, u32) {
    fn from(mode: DisplayMode) -> (pair: Self) {
        (mode.width(), mode.height())
    }
}

impl vstd::std_specs::convert::FromSpecImpl<DisplayMode> for (u32, u32) {
    open spec fn obeys_from_spec() -> bool {
        true
    }

    open spec fn from_spec(mode: DisplayMode) -> (u32, u32) {
        (mode.spec_width(), mode.spec_height())
    }
}

/// The word of a programming interval: its generation in the upper half, its active
/// flag in the lower.
pub open spec fn gate_word(seq: u32, active: bool) -> u64 {
    (seq * 0x1_0000_0000 + (if active {
        1int
    } else {
        0
    })) as u64
}

pub open spec fn gate_generation(word: u64) -> u32 {
    (word / 0x1_0000_0000) as u32
}

pub open spec fn gate_is_active(word: u64) -> bool {
    word % 0x1_0000_0000 != 0
}

/// Packs a programming interval.
pub fn gate_pack(seq: u32, active: bool) -> (w: u64)
    ensures
        w == gate_word(seq, active),
{
    (seq as u64) * 0x1_0000_0000 + (if active {
        1
    } else {
        0
    })
}

/// The generation half of a gate word.
pub fn gate_seq(word: u64) -> (seq: u32)
    ensures
        seq == gate_generation(word),
{
    (word / 0x1_0000_0000) as u32
}

/// The active half of a gate word.
pub fn gate_active(word: u64) -> (active: bool)
    ensures
        active == gate_is_active(word),
{
    word % 0x1_0000_0000 != 0
}

/// Unpacking a packed gate gives back its generation and its flag.
pub proof fn law_gate_round_trip(seq: u32, active: bool)
    ensures
        gate_generation(gate_word(seq, active)) == seq,
        gate_is_active(gate_word(seq, active)) == active,
{
}

/// A clear that expects one interval's word never meets the word of another: words
/// are equal only if both halves are.
pub proof fn law_stale_clear_never_matches(seq: u32, active: bool, other: u32, flag: bool)
    requires
        gate_word(seq, active) == gate_word(other, flag),
    ensures
        seq == other,
        active == flag,
{
    law_gate_round_trip(seq, active);
    law_gate_round_trip(other, flag);
}

/// The surface formats that can be scanned out.
#[derive(Clone, Copy, Debug, PartialEq, Eq, Structural)]
pub enum ScanoutFormat {
    Bgrx8,
    Bgra8,
    Rgba8,
}

impl ScanoutFormat {
    /// The DXGI number of the format.
    pub open spec fn spec_dxgi(self) -> u32 {
        match self {
            ScanoutFormat::Bgrx8 => 88,
            ScanoutFormat::Bgra8 => 87,
            ScanoutFormat::Rgba8 => 28,
        }
    }

    /// The format that a DXGI number declares.
    pub open spec fn declared(dxgi: u32) -> Option<Self> {
        if dxgi == 28 {
            Some(ScanoutFormat::Rgba8)
        } else if dxgi == 87 {
            Some(ScanoutFormat::Bgra8)
        } else if dxgi == 88 {
            Some(ScanoutFormat::Bgrx8)
        } else {
            None
        }
    }

    /// The format that a DXGI number declares, with zero standing for the padded
    /// blue-first one.
    pub open spec fn declared_or_zero(dxgi: u32) -> Option<Self> {
        if dxgi == 0 {
            Some(ScanoutFormat::Bgrx8)
        } else {
            Self::declared(dxgi)
        }
    }

    /// The format that a surface declares by its DXGI number.
    pub fn from_dxgi(dxgi: u32) -> (f: Option<Self>)
        ensures
            f == Self::declared(dxgi),
    {
        if dxgi == 28 {
            Some(ScanoutFormat::Rgba8)
        } else if dxgi == 87 {
            Some(ScanoutFormat::Bgra8)
        } else if dxgi == 88 {
            Some(ScanoutFormat::Bgrx8)
        } else {
            None
        }
    }

    /// As [`Self::from_dxgi`], with zero standing for the padded blue-first format.
    pub fn from_dxgi_or_legacy_zero(dxgi: u32) -> (f: Option<Self>)
        ensures
            f == Self::declared_or_zero(dxgi),
    {
        if dxgi == 0 {
            Some(ScanoutFormat::Bgrx8)
        } else {
            Self::from_dxgi(dxgi)
        }
    }

    /// The wire number of the format.
    pub fn virtio(self) -> (v: u32)
        ensures
            v == (match self {
                ScanoutFormat::Bgra8 => 1u32,
                ScanoutFormat::Bgrx8 => 2u32,
                ScanoutFormat::Rgba8 => 67u32,
            }),
    {
        match self {
            ScanoutFormat::Bgra8 => 1,
            ScanoutFormat::Bgrx8 => 2,
            ScanoutFormat::Rgba8 => 67,
        }
    }

    /// The DXGI number of the format.
    pub fn dxgi(self) -> (d: u32)
        ensures
            d == self.spec_dxgi(),
    {
        match self {
            ScanoutFormat::Bgrx8 => 88,
            ScanoutFormat::Bgra8 => 87,
            ScanoutFormat::Rgba8 => 28,
        }
    }
}

/// A format is declared by its own number and by no other, and a declared format is
/// also accepted where zero is: it always has a wire number.
pub proof fn law_declared_formats_convert(format: ScanoutFormat, dxgi: u32)
    ensures
        ScanoutFormat::declared(format.spec_dxgi()) == Some(format),
        ScanoutFormat::declared(dxgi) == Some(format) ==> dxgi == format.spec_dxgi(),
        ScanoutFormat::declared(dxgi) is Some ==> ScanoutFormat::declared_or_zero(dxgi)
            == ScanoutFormat::declared(dxgi),
{
}

/// A gate word holds its generation above its lower half, and its flag in that half.
pub proof fn law_gate_words_hold_their_halves(seq: u32, active: bool)
    ensures
        gate_word(seq, active) / 0x1_0000_0000 == seq,
        gate_word(seq, active) % 0x1_0000_0000 == (if active {
            1int
        } else {
            0
        }),
{
}

/// The numbers of the formats that can be scanned out. Zero stands for the padded one
/// where it may.
pub proof fn law_formats_have_their_numbers(dxgi: u32)
    ensures
        ScanoutFormat::declared(dxgi) == (if dxgi == 87 {
            Some(ScanoutFormat::Bgra8)
        } else if dxgi == 88 {
            Some(ScanoutFormat::Bgrx8)
        } else if dxgi == 28 {
            Some(ScanoutFormat::Rgba8)
        } else {
            None
        }),
        ScanoutFormat::declared_or_zero(0) == Some(ScanoutFormat::Bgrx8),
{
}

} // verus!
