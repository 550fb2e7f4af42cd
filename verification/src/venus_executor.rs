//! Admission of the bounded Venus command subset: every byte is consumed, and
//! every host-resource operand is reported with its place in the payload.

use vstd::prelude::*;
use crate::bytes;
use crate::venus_grammar;

pub use crate::venus_sequence::{
    validate_venus_a7_outer_stream, validate_venus_control_stream, A7CommandKind, A7Parsed,
    VenusA7Admission, VenusControlAdmission,
};

verus! {

pub const OP_QUEUE_SUBMIT: u32 = 18;
pub const OP_ALLOCATE_MEMORY: u32 = 21;
pub const OP_FREE_MEMORY: u32 = 22;
pub const OP_QUEUE_BIND_SPARSE: u32 = 34;
pub const OP_SET_REPLY: u32 = 178;
pub const OP_QUEUE_SUBMIT2: u32 = 206;

pub const ST_SUBMIT_INFO: u32 = 4;
pub const ST_BIND_SPARSE_INFO: u32 = 7;
pub const ST_DEVICE_GROUP_SUBMIT_INFO: u32 = 1_000_060_005;
pub const ST_DEVICE_GROUP_BIND_SPARSE_INFO: u32 = 1_000_060_006;
pub const ST_PROTECTED_SUBMIT_INFO: u32 = 1_000_145_000;
pub const ST_TIMELINE_SEMAPHORE_SUBMIT_INFO: u32 = 1_000_207_003;
pub const ST_SUBMIT_INFO2: u32 = 1_000_314_004;
pub const ST_SEMAPHORE_SUBMIT_INFO: u32 = 1_000_314_005;
pub const ST_COMMAND_BUFFER_SUBMIT_INFO: u32 = 1_000_314_006;

pub const ST_MEMORY_ALLOCATE_INFO: u32 = 5;
pub const ST_MEMORY_ALLOCATE_FLAGS_INFO: u32 = 1_000_060_000;
pub const ST_EXPORT_MEMORY_ALLOCATE_INFO: u32 = 1_000_072_002;
pub const ST_MEMORY_DEDICATED_ALLOCATE_INFO: u32 = 1_000_127_001;
pub const ST_MEMORY_OPAQUE_CAPTURE_ADDRESS_ALLOCATE_INFO: u32 = 1_000_257_003;
pub const ST_IMPORT_MEMORY_RESOURCE_INFO_MESA: u32 = 1_000_384_002;

/// The command flag that asks the host for a reply.
pub const COMMAND_GENERATE_REPLY: u32 = 1;

/// The operand kind of a 32-bit host resource id.
pub const OPERAND_KIND_HOST_RESOURCE_ID32: u16 = 1;

/// Deepest extension chain that is followed.
pub const MAX_NESTING: u32 = 8;

#[derive(Clone, Copy, Debug, PartialEq, Eq, Structural)]
pub enum VenusReject {
    Truncated,
    TrailingBytes,
    UnknownOpcode,
    BadFlags,
    BadPointer,
    BadArrayCount,
    BadStructureType,
    UnsupportedChain,
    MissingImport,
    DuplicateImport,
    NonZeroResourceOperand,
    OperandCapacity,
    CountOverflow,
    InvalidSequence,
}

#[derive(Clone, Copy, Debug, PartialEq, Eq, Structural)]
pub enum VenusCommandClass {
    AllocateMemory,
    FreeMemory,
    QueueSubmit,
    QueueSubmit2,
    QueueBindSparse,
}

/// One host-resource word of a payload: where it stands, and its kind.
#[derive(Clone, Copy, Debug, PartialEq, Eq, Structural)]
pub struct VenusOperand {
    pub payload_offset: u32,
    pub operand_kind: u16,
}

impl Default for VenusOperand {
    fn default() -> (o: Self)
        ensures
            o == (VenusOperand { payload_offset: 0, operand_kind: 0 }),
    {
        VenusOperand { payload_offset: 0, operand_kind: 0 }
    }
}

#[derive(Clone, Copy, Debug, PartialEq, Eq, Structural)]
pub struct VenusAdmission {
    pub class: VenusCommandClass,
    pub operand_count: u32,
    /// The reply range of a reply-bearing command; zero for every other class.
    pub reply_offset: u64,
    pub reply_size: u64,
    /// What an allocation asks for; zero for every other class.
    pub allocation_size: u64,
    pub memory_type_index: u32,
}

/// A result without a value, as the place where reading stands.
pub open spec fn stops(r: Result<(), VenusReject>, at: int) -> Result<int, VenusReject> {
    match r {
        Ok(_) => Ok(at),
        Err(e) => Err(e),
    }
}

/// A result with its value and the place where reading stands.
pub open spec fn yields<T>(r: Result<T, VenusReject>, at: int) -> Result<(T, int), VenusReject> {
    match r {
        Ok(v) => Ok((v, at)),
        Err(e) => Err(e),
    }
}

/// Reads a byte string from the front. A command schema walks its commands with it.
pub struct Cursor<'a> {
    pub bytes: &'a [u8],
    pub offset: usize,
}

impl<'a> Cursor<'a> {
    pub open spec fn wf(&self) -> bool {
        self.offset <= self.bytes.len()
    }

    pub fn new(bytes: &'a [u8]) -> (c: Self)
        ensures
            c.wf(),
            c.bytes == bytes,
            c.offset == 0,
    {
        Cursor { bytes, offset: 0 }
    }

    pub fn skip(&mut self, n: usize) -> (r: Result<(), VenusReject>)
        requires
            old(self).wf(),
        ensures
            final(self).wf(),
            final(self).bytes == old(self).bytes,
            r is Err ==> final(self).offset == old(self).offset,
            stops(r, final(self).offset as int) == venus_grammar::skip(
                old(self).bytes@,
                old(self).offset as int,
                n as int,
            ),
    {
        match self.offset.checked_add(n) {
            None => Err(VenusReject::CountOverflow),
            Some(end) => {
                if end > self.bytes.len() {
                    Err(VenusReject::Truncated)
                } else {
                    self.offset = end;
                    Ok(())
                }
            },
        }
    }

    pub fn u32(&mut self) -> (r: Result<u32, VenusReject>)
        requires
            old(self).wf(),
        ensures
            final(self).wf(),
            final(self).bytes == old(self).bytes,
            yields(r, final(self).offset as int) == venus_grammar::u32_at(
                old(self).bytes@,
                old(self).offset as int,
            ),
    {
        let at: usize = self.offset;
        self.skip(4)?;
        Ok(bytes::read32(self.bytes, at))
    }

    pub fn u64(&mut self) -> (r: Result<u64, VenusReject>)
        requires
            old(self).wf(),
        ensures
            final(self).wf(),
            final(self).bytes == old(self).bytes,
            yields(r, final(self).offset as int) == venus_grammar::u64_at(
                old(self).bytes@,
                old(self).offset as int,
            ),
    {
        let at: usize = self.offset;
        self.skip(8)?;
        Ok(bytes::read64(self.bytes, at))
    }

    pub fn pointer(&mut self) -> (r: Result<bool, VenusReject>)
        requires
            old(self).wf(),
        ensures
            final(self).wf(),
            final(self).bytes == old(self).bytes,
            yields(r, final(self).offset as int) == venus_grammar::pointer(
                old(self).bytes@,
                old(self).offset as int,
            ),
    {
        let v: u64 = self.u64()?;
        if v == 0 {
            Ok(false)
        } else if v == 1 {
            Ok(true)
        } else {
            Err(VenusReject::BadPointer)
        }
    }

    pub fn bounded_count(&mut self) -> (r: Result<u32, VenusReject>)
        requires
            old(self).wf(),
        ensures
            final(self).wf(),
            final(self).bytes == old(self).bytes,
            yields(r, final(self).offset as int) == venus_grammar::bounded_count(
                old(self).bytes@,
                old(self).offset as int,
            ),
    {
        let count: u32 = self.u32()?;
        if count as usize > (self.bytes.len() - self.offset) / 4 + 1 {
            return Err(VenusReject::BadArrayCount);
        }
        Ok(count)
    }

    /// Where reading stands, as a 32-bit word.
    pub fn offset_u32(&self) -> (r: Result<u32, VenusReject>)
        ensures
            r == (if self.offset <= u32::MAX {
                Ok::<u32, VenusReject>(self.offset as u32)
            } else {
                Err(VenusReject::CountOverflow)
            }),
    {
        if self.offset > u32::MAX as usize {
            return Err(VenusReject::CountOverflow);
        }
        Ok(self.offset as u32)
    }

    /// The next `n` bytes.
    pub fn take(&mut self, n: usize) -> (r: Result<&'a [u8], VenusReject>)
        requires
            old(self).wf(),
        ensures
            final(self).wf(),
            final(self).bytes == old(self).bytes,
            match venus_grammar::skip(old(self).bytes@, old(self).offset as int, n as int) {
                Err(e) => r is Err && r->Err_0 == e && final(self).offset == old(self).offset,
                Ok(end) => r is Ok && final(self).offset == end && r->Ok_0@
                    == old(self).bytes@.subrange(old(self).offset as int, end),
            },
    {
        let at: usize = self.offset;
        self.skip(n)?;
        Ok(vstd::slice::slice_subrange(self.bytes, at, at + n))
    }

    /// The marker of an array whose count the marker alone gives.
    pub fn array_count(&mut self) -> (r: Result<u64, VenusReject>)
        requires
            old(self).wf(),
        ensures
            final(self).wf(),
            final(self).bytes == old(self).bytes,
            yields(r, final(self).offset as int) == venus_grammar::u64_at(
                old(self).bytes@,
                old(self).offset as int,
            ),
    {
        self.u64()
    }

    /// Whether the rest of the string could hold `count` elements of four bytes.
    pub fn bound_loop_count(&self, count: u64) -> (r: Result<(), VenusReject>)
        requires
            self.wf(),
        ensures
            r is Ok <==> count <= (self.bytes@.len() - self.offset) / 4 + 1,
            r is Err ==> r->Err_0 == VenusReject::BadArrayCount,
    {
        if count > ((self.bytes.len() - self.offset) / 4 + 1) as u64 {
            return Err(VenusReject::BadArrayCount);
        }
        Ok(())
    }

    /// Skips `count` elements of `width` bytes; narrow elements are padded together
    /// to a word.
    pub fn skip_array(&mut self, count: u64, width: usize) -> (r: Result<(), VenusReject>)
        requires
            old(self).wf(),
        ensures
            final(self).wf(),
            final(self).bytes == old(self).bytes,
            stops(r, final(self).offset as int) == venus_grammar::wide_elements(
                old(self).bytes@,
                old(self).offset as int,
                count as int,
                width as int,
            ),
    {
        assert(count * width >= 0) by (nonlinear_arith);
        if count > usize::MAX as u64 {
            assert(width >= 1 ==> count * width >= count) by (nonlinear_arith)
                requires
                    count >= 0,
                    width >= 0,
            ;
            return Err(VenusReject::CountOverflow);
        }
        match (count as usize).checked_mul(width) {
            None => Err(VenusReject::CountOverflow),
            Some(n) => {
                if width >= 4 {
                    self.skip(n)
                } else {
                    match n.checked_add(3) {
                        None => Err(VenusReject::CountOverflow),
                        Some(m) => self.skip(m / 4 * 4),
                    }
                }
            },
        }
    }

    /// The next `count` bytes, which are padded to a word.
    pub fn take_padded(&mut self, count: u64) -> (r: Result<&'a [u8], VenusReject>)
        requires
            old(self).wf(),
        ensures
            final(self).wf(),
            final(self).bytes == old(self).bytes,
            match venus_grammar::padded_bytes(
                old(self).bytes@,
                old(self).offset as int,
                count as int,
            ) {
                Err(e) => r is Err && r->Err_0 == e && final(self).offset == old(self).offset,
                Ok(end) => r is Ok && final(self).offset == end && r->Ok_0@
                    == old(self).bytes@.subrange(
                    old(self).offset as int,
                    old(self).offset + count,
                ),
            },
    {
        if count > usize::MAX as u64 {
            return Err(VenusReject::CountOverflow);
        }
        let n: usize = count as usize;
        match n.checked_add(3) {
            None => Err(VenusReject::CountOverflow),
            Some(m) => {
                let at: usize = self.offset;
                self.skip(m / 4 * 4)?;
                Ok(vstd::slice::slice_subrange(self.bytes, at, at + n))
            },
        }
    }

    /// The marker of an array with `expected` elements: absent, or that count.
    pub fn array(&mut self, expected: u32) -> (r: Result<bool, VenusReject>)
        requires
            old(self).wf(),
        ensures
            final(self).wf(),
            final(self).bytes == old(self).bytes,
            match venus_grammar::u64_at(old(self).bytes@, old(self).offset as int) {
                Err(e) => r is Err && r->Err_0 == e,
                Ok((n, end)) => final(self).offset == end && r == (if n == 0 {
                    Ok::<bool, VenusReject>(false)
                } else if n == expected {
                    Ok(true)
                } else {
                    Err(VenusReject::BadArrayCount)
                }),
            },
    {
        let n: u64 = self.u64()?;
        if n == 0 {
            Ok(false)
        } else if n == expected as u64 {
            Ok(true)
        } else {
            Err(VenusReject::BadArrayCount)
        }
    }

    /// Skips `count` elements of `stride` bytes.
    pub fn repeat_skip(&mut self, count: u32, stride: usize) -> (r: Result<(), VenusReject>)
        requires
            old(self).wf(),
        ensures
            final(self).wf(),
            final(self).bytes == old(self).bytes,
            stops(r, final(self).offset as int) == venus_grammar::skip(
                old(self).bytes@,
                old(self).offset as int,
                count * stride,
            ),
    {
        assert(count * stride >= 0) by (nonlinear_arith);
        match (count as usize).checked_mul(stride) {
            None => Err(VenusReject::CountOverflow),
            Some(n) => self.skip(n),
        }
    }

    fn marker(&mut self, expected: u32) -> (r: Result<(), VenusReject>)
        requires
            old(self).wf(),
        ensures
            final(self).wf(),
            final(self).bytes == old(self).bytes,
            stops(r, final(self).offset as int) == venus_grammar::marker(
                old(self).bytes@,
                old(self).offset as int,
                expected,
            ),
    {
        let v: u64 = self.u64()?;
        if v == expected as u64 {
            Ok(())
        } else {
            Err(VenusReject::BadArrayCount)
        }
    }

    fn elements(&mut self, count: u32, stride: usize) -> (r: Result<(), VenusReject>)
        requires
            old(self).wf(),
        ensures
            final(self).wf(),
            final(self).bytes == old(self).bytes,
            stops(r, final(self).offset as int) == venus_grammar::elements(
                old(self).bytes@,
                old(self).offset as int,
                count,
                stride as int,
            ),
    {
        self.marker(count)?;
        self.repeat_skip(count, stride)
    }

    fn counted(&mut self, stride: usize) -> (r: Result<(), VenusReject>)
        requires
            old(self).wf(),
        ensures
            final(self).wf(),
            final(self).bytes == old(self).bytes,
            stops(r, final(self).offset as int) == venus_grammar::counted(
                old(self).bytes@,
                old(self).offset as int,
                stride as int,
            ),
    {
        let n: u32 = self.bounded_count()?;
        self.elements(n, stride)
    }

    fn stype(&mut self, expected: u32) -> (r: Result<(), VenusReject>)
        requires
            old(self).wf(),
        ensures
            final(self).wf(),
            final(self).bytes == old(self).bytes,
            stops(r, final(self).offset as int) == venus_grammar::stype(
                old(self).bytes@,
                old(self).offset as int,
                expected,
            ),
    {
        let v: u32 = self.u32()?;
        if v == expected {
            Ok(())
        } else {
            Err(VenusReject::BadStructureType)
        }
    }

    pub(crate) fn header(&mut self) -> (r: Result<(u32, u32), VenusReject>)
        requires
            old(self).wf(),
        ensures
            final(self).wf(),
            final(self).bytes == old(self).bytes,
            yields(r, final(self).offset as int) == venus_grammar::header(
                old(self).bytes@,
                old(self).offset as int,
            ),
    {
        let opcode: u32 = self.u32()?;
        let flags: u32 = self.u32()?;
        Ok((opcode, flags))
    }

    pub(crate) fn reply_range(&mut self) -> (r: Result<(u64, u64), VenusReject>)
        requires
            old(self).wf(),
        ensures
            final(self).wf(),
            final(self).bytes == old(self).bytes,
            yields(r, final(self).offset as int) == venus_grammar::reply_range(
                old(self).bytes@,
                old(self).offset as int,
            ),
    {
        let offset: u64 = self.u64()?;
        let size: u64 = self.u64()?;
        if size == 0 {
            return Err(VenusReject::BadArrayCount);
        }
        Ok((offset, size))
    }
}

fn parse_leaf_pnext(c: &mut Cursor<'_>) -> (r: Result<(), VenusReject>)
    requires
        old(c).wf(),
    ensures
        final(c).wf(),
        final(c).bytes == old(c).bytes,
        stops(r, final(c).offset as int) == venus_grammar::leaf_pnext(
            old(c).bytes@,
            old(c).offset as int,
        ),
{
    if c.pointer()? {
        return Err(VenusReject::UnsupportedChain);
    }
    Ok(())
}

fn parse_timeline_body(c: &mut Cursor<'_>) -> (r: Result<(), VenusReject>)
    requires
        old(c).wf(),
    ensures
        final(c).wf(),
        final(c).bytes == old(c).bytes,
        stops(r, final(c).offset as int) == venus_grammar::timeline_body(
            old(c).bytes@,
            old(c).offset as int,
        ),
{
    c.counted(8)?;
    c.counted(8)
}

fn parse_device_group_body(c: &mut Cursor<'_>) -> (r: Result<(), VenusReject>)
    requires
        old(c).wf(),
    ensures
        final(c).wf(),
        final(c).bytes == old(c).bytes,
        stops(r, final(c).offset as int) == venus_grammar::device_group_body(
            old(c).bytes@,
            old(c).offset as int,
        ),
{
    c.counted(4)?;
    c.counted(4)?;
    c.counted(4)
}

fn parse_submit_pnext(c: &mut Cursor<'_>, depth: u32) -> (r: Result<(), VenusReject>)
    requires
        old(c).wf(),
    ensures
        final(c).wf(),
        final(c).bytes == old(c).bytes,
        stops(r, final(c).offset as int) == venus_grammar::submit_pnext(
            old(c).bytes@,
            old(c).offset as int,
            depth as nat,
        ),
    decreases MAX_NESTING - depth,
{
    if depth >= MAX_NESTING {
        return Err(VenusReject::UnsupportedChain);
    }
    if !c.pointer()? {
        return Ok(());
    }
    let tag: u32 = c.u32()?;
    if tag == ST_DEVICE_GROUP_SUBMIT_INFO {
        parse_submit_pnext(c, depth + 1)?;
        parse_device_group_body(c)
    } else if tag == ST_PROTECTED_SUBMIT_INFO {
        parse_submit_pnext(c, depth + 1)?;
        c.skip(4)
    } else if tag == ST_TIMELINE_SEMAPHORE_SUBMIT_INFO {
        parse_submit_pnext(c, depth + 1)?;
        parse_timeline_body(c)
    } else {
        Err(VenusReject::UnsupportedChain)
    }
}

fn parse_submit_info(c: &mut Cursor<'_>) -> (r: Result<(), VenusReject>)
    requires
        old(c).wf(),
    ensures
        final(c).wf(),
        final(c).bytes == old(c).bytes,
        stops(r, final(c).offset as int) == venus_grammar::submit_info(
            old(c).bytes@,
            old(c).offset as int,
        ),
{
    c.stype(ST_SUBMIT_INFO)?;
    parse_submit_pnext(c, 0)?;
    let waits: u32 = c.bounded_count()?;
    c.elements(waits, 8)?;
    c.elements(waits, 4)?;
    c.counted(8)?;
    c.counted(8)
}

fn parse_semaphore_submit_info(c: &mut Cursor<'_>) -> (r: Result<(), VenusReject>)
    requires
        old(c).wf(),
    ensures
        final(c).wf(),
        final(c).bytes == old(c).bytes,
        stops(r, final(c).offset as int) == venus_grammar::semaphore_submit_info(
            old(c).bytes@,
            old(c).offset as int,
        ),
{
    c.stype(ST_SEMAPHORE_SUBMIT_INFO)?;
    parse_leaf_pnext(c)?;
    c.skip(8 + 8 + 8 + 4)
}

fn parse_command_buffer_submit_info(c: &mut Cursor<'_>) -> (r: Result<(), VenusReject>)
    requires
        old(c).wf(),
    ensures
        final(c).wf(),
        final(c).bytes == old(c).bytes,
        stops(r, final(c).offset as int) == venus_grammar::command_buffer_submit_info(
            old(c).bytes@,
            old(c).offset as int,
        ),
{
    c.stype(ST_COMMAND_BUFFER_SUBMIT_INFO)?;
    parse_leaf_pnext(c)?;
    c.skip(8 + 4)
}

fn parse_semaphores(c: &mut Cursor<'_>) -> (r: Result<(), VenusReject>)
    requires
        old(c).wf(),
    ensures
        final(c).wf(),
        final(c).bytes == old(c).bytes,
        stops(r, final(c).offset as int) == venus_grammar::counted_items(
            old(c).bytes@,
            old(c).offset as int,
            venus_grammar::semaphore_item(),
        ),
{
    let n: u32 = c.bounded_count()?;
    c.marker(n)?;
    let ghost s = c.bytes@;
    let ghost start = c.offset as int;
    let mut i: u32 = 0;
    while i < n
        invariant
            i <= n,
            c.wf(),
            c.bytes == old(c).bytes,
            s == c.bytes@,
            venus_grammar::counted_items(s, old(c).offset as int, venus_grammar::semaphore_item())
                == venus_grammar::repeated(s, start, n as nat, venus_grammar::semaphore_item()),
            venus_grammar::repeated(s, start, n as nat, venus_grammar::semaphore_item())
                == venus_grammar::repeated(
                s,
                c.offset as int,
                (n - i) as nat,
                venus_grammar::semaphore_item(),
            ),
        decreases n - i,
    {
        parse_semaphore_submit_info(c)?;
        i = i + 1;
    }
    Ok(())
}

fn parse_command_buffers(c: &mut Cursor<'_>) -> (r: Result<(), VenusReject>)
    requires
        old(c).wf(),
    ensures
        final(c).wf(),
        final(c).bytes == old(c).bytes,
        stops(r, final(c).offset as int) == venus_grammar::counted_items(
            old(c).bytes@,
            old(c).offset as int,
            venus_grammar::command_buffer_item(),
        ),
{
    let n: u32 = c.bounded_count()?;
    c.marker(n)?;
    let ghost s = c.bytes@;
    let ghost start = c.offset as int;
    let mut i: u32 = 0;
    while i < n
        invariant
            i <= n,
            c.wf(),
            c.bytes == old(c).bytes,
            s == c.bytes@,
            venus_grammar::counted_items(s, old(c).offset as int, venus_grammar::command_buffer_item())
                == venus_grammar::repeated(s, start, n as nat, venus_grammar::command_buffer_item()),
            venus_grammar::repeated(s, start, n as nat, venus_grammar::command_buffer_item())
                == venus_grammar::repeated(
                s,
                c.offset as int,
                (n - i) as nat,
                venus_grammar::command_buffer_item(),
            ),
        decreases n - i,
    {
        parse_command_buffer_submit_info(c)?;
        i = i + 1;
    }
    Ok(())
}

fn parse_submit_info2(c: &mut Cursor<'_>) -> (r: Result<(), VenusReject>)
    requires
        old(c).wf(),
    ensures
        final(c).wf(),
        final(c).bytes == old(c).bytes,
        stops(r, final(c).offset as int) == venus_grammar::submit_info2(
            old(c).bytes@,
            old(c).offset as int,
        ),
{
    c.stype(ST_SUBMIT_INFO2)?;
    parse_leaf_pnext(c)?;
    c.skip(4)?;
    parse_semaphores(c)?;
    parse_command_buffers(c)?;
    parse_semaphores(c)
}

fn parse_bind_pnext(c: &mut Cursor<'_>, depth: u32) -> (r: Result<(), VenusReject>)
    requires
        old(c).wf(),
    ensures
        final(c).wf(),
        final(c).bytes == old(c).bytes,
        stops(r, final(c).offset as int) == venus_grammar::bind_pnext(
            old(c).bytes@,
            old(c).offset as int,
            depth as nat,
        ),
    decreases MAX_NESTING - depth,
{
    if depth >= MAX_NESTING {
        return Err(VenusReject::UnsupportedChain);
    }
    if !c.pointer()? {
        return Ok(());
    }
    let tag: u32 = c.u32()?;
    if tag == ST_DEVICE_GROUP_BIND_SPARSE_INFO {
        parse_bind_pnext(c, depth + 1)?;
        c.skip(8)
    } else if tag == ST_TIMELINE_SEMAPHORE_SUBMIT_INFO {
        parse_bind_pnext(c, depth + 1)?;
        parse_timeline_body(c)
    } else {
        Err(VenusReject::UnsupportedChain)
    }
}

fn parse_sparse_object(c: &mut Cursor<'_>, stride: usize) -> (r: Result<(), VenusReject>)
    requires
        old(c).wf(),
    ensures
        final(c).wf(),
        final(c).bytes == old(c).bytes,
        stops(r, final(c).offset as int) == venus_grammar::sparse_object(
            old(c).bytes@,
            old(c).offset as int,
            stride as int,
        ),
{
    c.skip(8)?;
    c.counted(stride)
}

fn parse_sparse_objects(c: &mut Cursor<'_>, stride: usize) -> (r: Result<(), VenusReject>)
    requires
        old(c).wf(),
    ensures
        final(c).wf(),
        final(c).bytes == old(c).bytes,
        stops(r, final(c).offset as int) == venus_grammar::counted_items(
            old(c).bytes@,
            old(c).offset as int,
            venus_grammar::sparse_item(stride as int),
        ),
{
    let n: u32 = c.bounded_count()?;
    c.marker(n)?;
    let ghost s = c.bytes@;
    let ghost start = c.offset as int;
    let mut i: u32 = 0;
    while i < n
        invariant
            i <= n,
            c.wf(),
            c.bytes == old(c).bytes,
            s == c.bytes@,
            venus_grammar::counted_items(s, old(c).offset as int, venus_grammar::sparse_item(stride as int))
                == venus_grammar::repeated(s, start, n as nat, venus_grammar::sparse_item(stride as int)),
            venus_grammar::repeated(s, start, n as nat, venus_grammar::sparse_item(stride as int))
                == venus_grammar::repeated(
                s,
                c.offset as int,
                (n - i) as nat,
                venus_grammar::sparse_item(stride as int),
            ),
        decreases n - i,
    {
        parse_sparse_object(c, stride)?;
        i = i + 1;
    }
    Ok(())
}

fn parse_bind_sparse_info(c: &mut Cursor<'_>) -> (r: Result<(), VenusReject>)
    requires
        old(c).wf(),
    ensures
        final(c).wf(),
        final(c).bytes == old(c).bytes,
        stops(r, final(c).offset as int) == venus_grammar::bind_sparse_info(
            old(c).bytes@,
            old(c).offset as int,
        ),
{
    c.stype(ST_BIND_SPARSE_INFO)?;
    parse_bind_pnext(c, 0)?;
    c.counted(8)?;
    parse_sparse_objects(c, 36)?;
    parse_sparse_objects(c, 36)?;
    parse_sparse_objects(c, 56)?;
    c.counted(8)
}

fn parse_queue_item(c: &mut Cursor<'_>, opcode: u32) -> (r: Result<(), VenusReject>)
    requires
        old(c).wf(),
        venus_grammar::is_queue(opcode),
    ensures
        final(c).wf(),
        final(c).bytes == old(c).bytes,
        stops(r, final(c).offset as int) == venus_grammar::queue_item(
            old(c).bytes@,
            old(c).offset as int,
            opcode,
        ),
{
    if opcode == OP_QUEUE_SUBMIT {
        parse_submit_info(c)
    } else if opcode == OP_QUEUE_SUBMIT2 {
        parse_submit_info2(c)
    } else {
        parse_bind_sparse_info(c)
    }
}

fn parse_queue_items(c: &mut Cursor<'_>, opcode: u32) -> (r: Result<(), VenusReject>)
    requires
        old(c).wf(),
        venus_grammar::is_queue(opcode),
    ensures
        final(c).wf(),
        final(c).bytes == old(c).bytes,
        stops(r, final(c).offset as int) == venus_grammar::counted_items(
            old(c).bytes@,
            old(c).offset as int,
            venus_grammar::queue_items(opcode),
        ),
{
    let n: u32 = c.bounded_count()?;
    c.marker(n)?;
    let ghost s = c.bytes@;
    let ghost start = c.offset as int;
    let mut i: u32 = 0;
    while i < n
        invariant
            i <= n,
            c.wf(),
            c.bytes == old(c).bytes,
            s == c.bytes@,
            venus_grammar::is_queue(opcode),
            venus_grammar::counted_items(s, old(c).offset as int, venus_grammar::queue_items(opcode))
                == venus_grammar::repeated(s, start, n as nat, venus_grammar::queue_items(opcode)),
            venus_grammar::repeated(s, start, n as nat, venus_grammar::queue_items(opcode))
                == venus_grammar::repeated(
                s,
                c.offset as int,
                (n - i) as nat,
                venus_grammar::queue_items(opcode),
            ),
        decreases n - i,
    {
        parse_queue_item(c, opcode)?;
        i = i + 1;
    }
    Ok(())
}

fn parse_queue(c: &mut Cursor<'_>, opcode: u32) -> (r: Result<VenusCommandClass, VenusReject>)
    requires
        old(c).wf(),
        venus_grammar::is_queue(opcode),
    ensures
        final(c).wf(),
        final(c).bytes == old(c).bytes,
        match venus_grammar::queue_body(old(c).bytes@, old(c).offset as int, opcode) {
            Err(e) => r == Err::<VenusCommandClass, VenusReject>(e),
            Ok(end) => r == Ok::<VenusCommandClass, VenusReject>(venus_grammar::queue_class(opcode))
                && final(c).offset == end,
        },
{
    c.skip(8)?;
    parse_queue_items(c, opcode)?;
    c.skip(8)?;
    if opcode == OP_QUEUE_SUBMIT {
        Ok(VenusCommandClass::QueueSubmit)
    } else if opcode == OP_QUEUE_SUBMIT2 {
        Ok(VenusCommandClass::QueueSubmit2)
    } else {
        Ok(VenusCommandClass::QueueBindSparse)
    }
}

/// The result of a walk, and the operand storage it left behind.
pub(crate) open spec fn tracks(
    o: venus_grammar::Outcome,
    r: Result<(), VenusReject>,
    at: int,
    before: Seq<VenusOperand>,
    after: Seq<VenusOperand>,
    count: int,
) -> bool {
    &&& match o.refusal {
        None => r is Ok,
        Some(e) => r == Err::<(), VenusReject>(e),
    }
    &&& after == venus_grammar::stored(before, o.walk.out)
    &&& count == o.walk.out.len()
    &&& count <= before.len()
    &&& r is Ok ==> at == o.walk.at
}

/// Reports one operand behind the `count` that are reported.
pub fn push_operand(
    out: &mut [VenusOperand],
    count: usize,
    payload_offset: u32,
    operand_kind: u16,
) -> (r: Result<usize, VenusReject>)
    ensures
        final(out)@.len() == old(out)@.len(),
        if count < old(out)@.len() {
            r is Ok && r->Ok_0 == count + 1 && final(out)@ == old(out)@.update(
                count as int,
                VenusOperand { payload_offset, operand_kind },
            )
        } else {
            r == Err::<usize, VenusReject>(VenusReject::OperandCapacity) && final(out)@ == old(
                out,
            )@
        },
{
    if count >= out.len() {
        return Err(VenusReject::OperandCapacity);
    }
    out[count] = VenusOperand { payload_offset, operand_kind };
    Ok(count + 1)
}

/// Reports a host-resource word of `width` bytes. Only the 32-bit width is held.
pub fn push_resource(
    out: &mut [VenusOperand],
    count: usize,
    payload_offset: u32,
    width: usize,
) -> (r: Result<usize, VenusReject>)
    ensures
        final(out)@.len() == old(out)@.len(),
        if width == 4 && count < old(out)@.len() {
            r is Ok && r->Ok_0 == count + 1 && final(out)@ == old(out)@.update(
                count as int,
                VenusOperand {
                    payload_offset,
                    operand_kind: OPERAND_KIND_HOST_RESOURCE_ID32,
                },
            )
        } else {
            r == Err::<usize, VenusReject>(VenusReject::OperandCapacity) && final(out)@ == old(
                out,
            )@
        },
{
    if width != 4 {
        return Err(VenusReject::OperandCapacity);
    }
    push_operand(out, count, payload_offset, OPERAND_KIND_HOST_RESOURCE_ID32)
}

pub(crate) fn parse_resource_operand(
    c: &mut Cursor<'_>,
    out: &mut [VenusOperand],
    count: &mut usize,
    Ghost(imports): Ghost<nat>,
) -> (r: Result<(), VenusReject>)
    requires
        old(c).wf(),
        *old(count) <= old(out)@.len(),
    ensures
        final(c).wf(),
        final(c).bytes == old(c).bytes,
        final(out)@.len() == old(out)@.len(),
        tracks(
            venus_grammar::resource_operand(
                old(c).bytes@,
                venus_grammar::Walk {
                    at: old(c).offset as int,
                    out: old(out)@.take(*old(count) as int),
                    imports,
                },
                old(out)@.len(),
            ),
            r,
            final(c).offset as int,
            old(out)@,
            final(out)@,
            *final(count) as int,
        ),
{
    let ghost before = out@;
    let ghost used = out@.take(*count as int);
    assert(venus_grammar::stored(before, used) =~= before);
    let payload_offset: u32 = c.offset_u32()?;
    let v: u32 = c.u32()?;
    if v != 0 {
        return Err(VenusReject::NonZeroResourceOperand);
    }
    let ghost operand = VenusOperand {
        payload_offset,
        operand_kind: OPERAND_KIND_HOST_RESOURCE_ID32,
    };
    *count = push_operand(out, *count, payload_offset, OPERAND_KIND_HOST_RESOURCE_ID32)?;
    assert(out@ =~= venus_grammar::stored(before, used.push(operand)));
    Ok(())
}

fn parse_memory_link(
    c: &mut Cursor<'_>,
    out: &mut [VenusOperand],
    count: &mut usize,
    imports: &mut u32,
    tag: u32,
) -> (r: Result<(), VenusReject>)
    requires
        old(c).wf(),
        *old(count) <= old(out)@.len(),
    ensures
        final(c).wf(),
        final(c).bytes == old(c).bytes,
        final(out)@.len() == old(out)@.len(),
        ({
            let o = venus_grammar::memory_link(
                old(c).bytes@,
                venus_grammar::Walk {
                    at: old(c).offset as int,
                    out: old(out)@.take(*old(count) as int),
                    imports: *old(imports) as nat,
                },
                tag,
                old(out)@.len(),
            );
            &&& tracks(
                o,
                r,
                final(c).offset as int,
                old(out)@,
                final(out)@,
                *final(count) as int,
            )
            &&& r is Ok ==> *final(imports) == o.walk.imports
        }),
{
    assert(venus_grammar::stored(out@, out@.take(*count as int)) =~= out@);
    if tag == ST_EXPORT_MEMORY_ALLOCATE_INFO {
        c.skip(4)
    } else if tag == ST_MEMORY_ALLOCATE_FLAGS_INFO {
        c.skip(8)
    } else if tag == ST_MEMORY_DEDICATED_ALLOCATE_INFO {
        c.skip(16)
    } else if tag == ST_MEMORY_OPAQUE_CAPTURE_ADDRESS_ALLOCATE_INFO {
        c.skip(8)
    } else if tag == ST_IMPORT_MEMORY_RESOURCE_INFO_MESA {
        if *imports != 0 {
            return Err(VenusReject::DuplicateImport);
        }
        *imports = 1;
        parse_resource_operand(c, out, count, Ghost(1))
    } else {
        Err(VenusReject::UnsupportedChain)
    }
}

fn parse_memory_pnext(
    c: &mut Cursor<'_>,
    out: &mut [VenusOperand],
    count: &mut usize,
    depth: u32,
    imports: &mut u32,
) -> (r: Result<(), VenusReject>)
    requires
        old(c).wf(),
        *old(count) <= old(out)@.len(),
    ensures
        final(c).wf(),
        final(c).bytes == old(c).bytes,
        final(out)@.len() == old(out)@.len(),
        ({
            let o = venus_grammar::memory_pnext(
                old(c).bytes@,
                venus_grammar::Walk {
                    at: old(c).offset as int,
                    out: old(out)@.take(*old(count) as int),
                    imports: *old(imports) as nat,
                },
                depth as nat,
                old(out)@.len(),
            );
            &&& tracks(
                o,
                r,
                final(c).offset as int,
                old(out)@,
                final(out)@,
                *final(count) as int,
            )
            &&& r is Ok ==> *final(imports) == o.walk.imports
        }),
    decreases MAX_NESTING - depth,
{
    let ghost s = c.bytes@;
    let ghost before = out@;
    let ghost used = out@.take(*count as int);
    let ghost seen = *imports as nat;
    assert(venus_grammar::stored(before, used) =~= before);
    if depth >= MAX_NESTING {
        return Err(VenusReject::UnsupportedChain);
    }
    if !c.pointer()? {
        return Ok(());
    }
    let tag: u32 = c.u32()?;
    let ghost q = c.offset as int;
    parse_memory_pnext(c, out, count, depth + 1, imports)?;
    let ghost inner = venus_grammar::memory_pnext(
        s,
        venus_grammar::Walk { at: q, out: used, imports: seen },
        (depth + 1) as nat,
        before.len(),
    );
    assert(out@.take(*count as int) =~= inner.walk.out);
    let ghost link = venus_grammar::memory_link(s, inner.walk, tag, before.len());
    proof {
        assert(link.walk.out.len() >= inner.walk.out.len());
        venus_grammar::lemma_stored_twice(before, inner.walk.out, link.walk.out);
    }
    parse_memory_link(c, out, count, imports, tag)
}

/// What the fields of an allocation behind its chain ask for.
fn parse_allocate_tail(c: &mut Cursor<'_>, imports: u32) -> (r: Result<(u64, u32), VenusReject>)
    requires
        old(c).wf(),
    ensures
        final(c).wf(),
        final(c).bytes == old(c).bytes,
        match venus_grammar::allocate_tail(
            old(c).bytes@,
            old(c).offset as int,
            imports as nat,
        ) {
            Err(e) => r == Err::<(u64, u32), VenusReject>(e),
            Ok((a, end)) => r == Ok::<(u64, u32), VenusReject>((a.size, a.memory_type_index))
                && final(c).offset == end,
        },
{
    let size: u64 = c.u64()?;
    let memory_type_index: u32 = c.u32()?;
    if size == 0 {
        return Err(VenusReject::BadArrayCount);
    }
    if c.pointer()? {
        return Err(VenusReject::BadPointer);
    }
    if !c.pointer()? {
        return Err(VenusReject::BadPointer);
    }
    c.skip(8)?;
    if imports != 1 {
        return Err(VenusReject::MissingImport);
    }
    Ok((size, memory_type_index))
}

fn parse_allocate_head(c: &mut Cursor<'_>) -> (r: Result<(), VenusReject>)
    requires
        old(c).wf(),
    ensures
        final(c).wf(),
        final(c).bytes == old(c).bytes,
        stops(r, final(c).offset as int) == venus_grammar::allocate_head(
            old(c).bytes@,
            old(c).offset as int,
        ),
{
    c.skip(8)?;
    if !c.pointer()? {
        return Err(VenusReject::BadPointer);
    }
    c.stype(ST_MEMORY_ALLOCATE_INFO)
}

fn parse_allocate(c: &mut Cursor<'_>, out: &mut [VenusOperand], count: &mut usize) -> (r: Result<
    (u64, u32),
    VenusReject,
>)
    requires
        old(c).wf(),
        *old(count) <= old(out)@.len(),
    ensures
        final(c).wf(),
        final(c).bytes == old(c).bytes,
        final(out)@.len() == old(out)@.len(),
        ({
            let (o, a) = venus_grammar::allocate_body(
                old(c).bytes@,
                venus_grammar::Walk {
                    at: old(c).offset as int,
                    out: old(out)@.take(*old(count) as int),
                    imports: 0,
                },
                old(out)@.len(),
            );
            &&& r == (match o.refusal {
                None => Ok::<(u64, u32), VenusReject>((a.size, a.memory_type_index)),
                Some(e) => Err(e),
            })
            &&& final(out)@ == venus_grammar::stored(old(out)@, o.walk.out)
            &&& *final(count) == o.walk.out.len()
            &&& *final(count) <= old(out)@.len()
            &&& r is Ok ==> final(c).offset == o.walk.at
        }),
{
    assert(venus_grammar::stored(out@, out@.take(*count as int)) =~= out@);
    parse_allocate_head(c)?;
    let mut imports: u32 = 0;
    parse_memory_pnext(c, out, count, 0, &mut imports)?;
    parse_allocate_tail(c, imports)
}

/// The answer to one walk over a command.
pub open spec fn admitted(o: venus_grammar::Outcome, c: venus_grammar::Command) -> Result<
    VenusAdmission,
    VenusReject,
> {
    match o.refusal {
        Some(e) => Err(e),
        None => Ok(
            VenusAdmission {
                class: c.class,
                operand_count: o.walk.out.len() as u32,
                reply_offset: c.reply.0,
                reply_size: c.reply.1,
                allocation_size: c.allocation.size,
                memory_type_index: c.allocation.memory_type_index,
            },
        ),
    }
}

fn parse_reply_then_allocate(
    c: &mut Cursor<'_>,
    flags: u32,
    out: &mut [VenusOperand],
) -> (r: Result<VenusAdmission, VenusReject>)
    requires
        old(c).wf(),
    ensures
        final(c).wf(),
        final(c).bytes == old(c).bytes,
        ({
            let (o, k) = venus_grammar::reply_then_allocate(
                old(c).bytes@,
                old(c).offset as int,
                flags,
                old(out)@.len(),
            );
            &&& r == admitted(o, k)
            &&& final(out)@ == venus_grammar::stored(old(out)@, o.walk.out)
            &&& r is Ok ==> final(c).offset == o.walk.at
        }),
{
    let ghost s = c.bytes@;
    let ghost before = out@;
    assert(venus_grammar::stored(before, Seq::empty()) =~= before);
    assert(before.take(0) =~= Seq::empty());
    if flags != 0 {
        return Err(VenusReject::BadFlags);
    }
    if !c.pointer()? {
        return Err(VenusReject::BadFlags);
    }
    let mut count: usize = 0;
    let ghost reply = venus_grammar::resource_operand(
        s,
        venus_grammar::Walk { at: c.offset as int, out: Seq::empty(), imports: 0 },
        before.len(),
    );
    parse_resource_operand(c, out, &mut count, Ghost(0))?;
    let ghost reported = out@.take(count as int);
    assert(reported =~= reply.walk.out);
    let (reply_offset, reply_size): (u64, u64) = c.reply_range()?;
    let (opcode, next_flags): (u32, u32) = c.header()?;
    if opcode != OP_ALLOCATE_MEMORY || next_flags != COMMAND_GENERATE_REPLY {
        return Err(VenusReject::BadFlags);
    }
    let ghost r = c.offset as int;
    proof {
        let walk = venus_grammar::Walk { at: r, out: reported, imports: 0 };
        let head = venus_grammar::moved(walk, venus_grammar::allocate_head(s, r));
        venus_grammar::lemma_memory_pnext_extends(s, head.walk, 0, before.len());
        let (o, _) = venus_grammar::allocate_body(s, walk, before.len());
        assert(o.walk.out.len() >= reported.len());
        venus_grammar::lemma_stored_twice(before, reported, o.walk.out);
    }
    let (allocation_size, memory_type_index): (u64, u32) = parse_allocate(c, out, &mut count)?;
    Ok(
        VenusAdmission {
            class: VenusCommandClass::AllocateMemory,
            operand_count: count as u32,
            reply_offset,
            reply_size,
            allocation_size,
            memory_type_index,
        },
    )
}

/// Validates one complete command stream and reports its host-resource operands
/// in payload order. Every reported operand is a zero word of the payload.
pub fn validate_venus_stream(bytes: &[u8], operand_storage: &mut [VenusOperand]) -> (r: Result<
    VenusAdmission,
    VenusReject,
>)
    ensures
        r == admitted(
            venus_grammar::stream(bytes@, old(operand_storage)@.len()).0,
            venus_grammar::stream(bytes@, old(operand_storage)@.len()).1,
        ),
        final(operand_storage)@ == venus_grammar::stored(
            old(operand_storage)@,
            venus_grammar::stream(bytes@, old(operand_storage)@.len()).0.walk.out,
        ),
{
    assert(venus_grammar::stored(operand_storage@, Seq::empty()) =~= operand_storage@);
    let mut c = Cursor::new(bytes);
    let (opcode, flags): (u32, u32) = c.header()?;
    let mut admission = VenusAdmission {
        class: VenusCommandClass::FreeMemory,
        operand_count: 0,
        reply_offset: 0,
        reply_size: 0,
        allocation_size: 0,
        memory_type_index: 0,
    };
    if opcode == OP_SET_REPLY {
        admission = parse_reply_then_allocate(&mut c, flags, operand_storage)?;
    } else if opcode == OP_FREE_MEMORY {
        if flags != 0 {
            return Err(VenusReject::BadFlags);
        }
        c.skip(8 + 8)?;
        if c.pointer()? {
            return Err(VenusReject::BadPointer);
        }
    } else if opcode == OP_QUEUE_SUBMIT || opcode == OP_QUEUE_SUBMIT2 || opcode
        == OP_QUEUE_BIND_SPARSE {
        if flags != 0 {
            return Err(VenusReject::BadFlags);
        }
        admission.class = parse_queue(&mut c, opcode)?;
    } else {
        return Err(VenusReject::UnknownOpcode);
    }
    if c.offset != bytes.len() {
        return Err(VenusReject::TrailingBytes);
    }
    Ok(admission)
}

} // verus!
