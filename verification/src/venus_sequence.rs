//! The order in which schema-walked Venus commands may follow each other: outer
//! batches, and control transactions.
//!
//! The package's command schema walks the bytes of each command. What it found
//! comes in as one [`A7Parsed`] per command, and the rules here decide.

use vstd::prelude::*;
use crate::venus_executor;
use crate::venus_executor::{
    Cursor, VenusOperand, VenusReject, COMMAND_GENERATE_REPLY, OP_ALLOCATE_MEMORY, OP_FREE_MEMORY,
    OP_SET_REPLY,
};
use crate::venus_grammar;

verus! {

pub const OP_CREATE_BUFFER: u32 = 50;
pub const OP_DESTROY_BUFFER: u32 = 51;
pub const OP_CREATE_BUFFER_VIEW: u32 = 52;
pub const OP_DESTROY_BUFFER_VIEW: u32 = 53;
pub const OP_CREATE_IMAGE: u32 = 54;
pub const OP_DESTROY_IMAGE: u32 = 55;
pub const OP_CREATE_IMAGE_VIEW: u32 = 57;
pub const OP_DESTROY_IMAGE_VIEW: u32 = 58;
pub const OP_UPDATE_DESCRIPTOR_SETS: u32 = 79;
pub const OP_BEGIN_COMMAND_BUFFER: u32 = 90;
pub const OP_END_COMMAND_BUFFER: u32 = 91;
pub const OP_BIND_BUFFER_MEMORY2: u32 = 138;
pub const OP_BIND_IMAGE_MEMORY2: u32 = 139;
pub const OP_GET_IMAGE_MEMORY_REQUIREMENTS2: u32 = 144;
pub const OP_GET_BUFFER_MEMORY_REQUIREMENTS2: u32 = 145;

/// What a schema-walked command is for.
#[derive(Clone, Copy, Debug, PartialEq, Eq, Structural)]
pub enum A7CommandKind {
    PureControl,
    Allocation,
    CommandRecord,
    Queue,
}

/// What the command schema found in one command.
#[derive(Clone, Copy, Debug, PartialEq, Eq)]
pub struct A7Parsed {
    pub kind: A7CommandKind,
    pub opcode: u32,
    /// What an allocation asks for.
    pub allocation_size: u64,
    pub memory_type_index: u32,
    /// The device and the object that the command names.
    pub identity: (u64, u64),
    /// Where the command ends in the stream.
    pub end: usize,
    /// Host-resource operands reported so far in the stream, this command included.
    pub operand_count: usize,
}

#[derive(Clone, Copy, Debug, PartialEq, Eq, Structural)]
pub struct VenusA7Admission {
    pub command_count: u32,
    pub allocation_command_count: u32,
    /// View creates and destroys, and descriptor-set updates.
    pub object_command_count: u32,
    pub command_buffer_count: u32,
    pub queue_command_count: u32,
    pub operand_count: u32,
    /// Object destroys followed by one release of memory, and no queue command.
    pub terminal_teardown: bool,
}

impl Default for VenusA7Admission {
    fn default() -> (a: Self)
        ensures
            a == no_outer_commands(),
    {
        VenusA7Admission {
            command_count: 0,
            allocation_command_count: 0,
            object_command_count: 0,
            command_buffer_count: 0,
            queue_command_count: 0,
            operand_count: 0,
            terminal_teardown: false,
        }
    }
}

#[derive(Clone, Copy, Debug, PartialEq, Eq, Structural)]
pub struct VenusControlAdmission {
    pub command_count: u32,
    pub opcode: u32,
    pub operand_count: u32,
    pub reply_offset: u64,
    pub reply_size: u64,
}

impl Default for VenusControlAdmission {
    fn default() -> (a: Self)
        ensures
            a == (VenusControlAdmission {
                command_count: 0,
                opcode: 0,
                operand_count: 0,
                reply_offset: 0,
                reply_size: 0,
            }),
    {
        VenusControlAdmission {
            command_count: 0,
            opcode: 0,
            operand_count: 0,
            reply_offset: 0,
            reply_size: 0,
        }
    }
}

pub open spec fn no_outer_commands() -> VenusA7Admission {
    VenusA7Admission {
        command_count: 0,
        allocation_command_count: 0,
        object_command_count: 0,
        command_buffer_count: 0,
        queue_command_count: 0,
        operand_count: 0,
        terminal_teardown: false,
    }
}

/// The part of an outer batch that has been read.
#[derive(Clone, Copy, PartialEq, Eq, Structural)]
pub struct OuterState {
    pub admission: VenusA7Admission,
    /// Between the begin and the end of a command buffer.
    pub recording: bool,
    pub recorded_any: bool,
    pub materializing: bool,
    pub object_phase: bool,
    pub tearing_down: bool,
    pub terminal_free_seen: bool,
    pub operand_count: usize,
}

pub open spec fn outer_start() -> OuterState {
    OuterState {
        admission: no_outer_commands(),
        recording: false,
        recorded_any: false,
        materializing: false,
        object_phase: false,
        tearing_down: false,
        terminal_free_seen: false,
        operand_count: 0,
    }
}

/// Allocations and binds: only before every other region, and an allocation
/// imports exactly one host resource.
pub open spec fn materializes(st: OuterState, opcode: u32, f: A7Parsed) -> Result<
    OuterState,
    VenusReject,
> {
    if st.tearing_down || st.recording || st.recorded_any || st.object_phase
        || st.admission.queue_command_count != 0 {
        Err(VenusReject::InvalidSequence)
    } else if opcode == OP_ALLOCATE_MEMORY && (f.operand_count != st.operand_count + 1
        || f.allocation_size == 0 || f.memory_type_index == u32::MAX) {
        Err(VenusReject::MissingImport)
    } else if opcode != OP_ALLOCATE_MEMORY && f.operand_count != st.operand_count {
        Err(VenusReject::InvalidSequence)
    } else {
        Ok(OuterState { materializing: true, ..st })
    }
}

/// Destroys, ended by one release of memory, and nothing else in the stream.
pub open spec fn tears_down(st: OuterState, opcode: u32, f: A7Parsed) -> Result<
    OuterState,
    VenusReject,
> {
    if st.materializing || st.recording || st.recorded_any || st.object_phase
        || st.admission.queue_command_count != 0 || st.terminal_free_seen || f.operand_count
        != st.operand_count {
        Err(VenusReject::InvalidSequence)
    } else {
        Ok(
            OuterState {
                tearing_down: true,
                terminal_free_seen: opcode == OP_FREE_MEMORY,
                ..st
            },
        )
    }
}

pub open spec fn is_materialization(opcode: u32) -> bool {
    opcode == OP_ALLOCATE_MEMORY || opcode == OP_BIND_BUFFER_MEMORY2 || opcode
        == OP_BIND_IMAGE_MEMORY2
}

pub open spec fn is_teardown(opcode: u32) -> bool {
    opcode == OP_DESTROY_BUFFER || opcode == OP_DESTROY_IMAGE || opcode == OP_FREE_MEMORY
}

/// View creates and destroys, and descriptor-set updates.
pub open spec fn is_object_materialization(opcode: u32) -> bool {
    opcode == OP_CREATE_BUFFER_VIEW || opcode == OP_DESTROY_BUFFER_VIEW || opcode
        == OP_CREATE_IMAGE_VIEW || opcode == OP_DESTROY_IMAGE_VIEW || opcode
        == OP_UPDATE_DESCRIPTOR_SETS
}

pub open spec fn allocation_step(st: OuterState, opcode: u32, f: A7Parsed) -> Result<
    OuterState,
    VenusReject,
> {
    let moved = if is_materialization(opcode) {
        materializes(st, opcode, f)
    } else if is_teardown(opcode) {
        tears_down(st, opcode, f)
    } else {
        Err(VenusReject::InvalidSequence)
    };
    match moved {
        Err(e) => Err(e),
        Ok(next) => if st.admission.allocation_command_count == u32::MAX {
            Err(VenusReject::CountOverflow)
        } else {
            Ok(
                OuterState {
                    admission: VenusA7Admission {
                        allocation_command_count: (st.admission.allocation_command_count + 1) as u32,
                        ..st.admission
                    },
                    ..next
                },
            )
        },
    }
}

/// Command recording: every recorded command lies between a begin and its end.
pub open spec fn record_step(st: OuterState, opcode: u32) -> Result<OuterState, VenusReject> {
    if st.tearing_down || st.admission.queue_command_count != 0 {
        Err(VenusReject::InvalidSequence)
    } else if (opcode == OP_BEGIN_COMMAND_BUFFER) == st.recording {
        Err(VenusReject::InvalidSequence)
    } else if opcode == OP_BEGIN_COMMAND_BUFFER {
        Ok(OuterState { recording: true, ..st })
    } else if opcode != OP_END_COMMAND_BUFFER {
        Ok(st)
    } else if st.admission.command_buffer_count == u32::MAX {
        Err(VenusReject::CountOverflow)
    } else {
        Ok(
            OuterState {
                recording: false,
                recorded_any: true,
                admission: VenusA7Admission {
                    command_buffer_count: (st.admission.command_buffer_count + 1) as u32,
                    ..st.admission
                },
                ..st
            },
        )
    }
}

/// The queue command: one, outside a recording, and last in the stream.
pub open spec fn queue_step(st: OuterState, last: bool) -> Result<OuterState, VenusReject> {
    if st.tearing_down || st.recording || st.admission.queue_command_count != 0 {
        Err(VenusReject::InvalidSequence)
    } else if !last {
        Err(VenusReject::TrailingBytes)
    } else {
        Ok(
            OuterState {
                admission: VenusA7Admission { queue_command_count: 1, ..st.admission },
                ..st
            },
        )
    }
}

/// Object materialization: behind the allocations and before the recordings.
pub open spec fn object_step(st: OuterState, opcode: u32, f: A7Parsed) -> Result<
    OuterState,
    VenusReject,
> {
    if !is_object_materialization(opcode) || st.tearing_down || st.recording || st.recorded_any
        || st.admission.queue_command_count != 0 || f.operand_count != st.operand_count {
        Err(VenusReject::InvalidSequence)
    } else if st.admission.object_command_count == u32::MAX {
        Err(VenusReject::CountOverflow)
    } else {
        Ok(
            OuterState {
                object_phase: true,
                admission: VenusA7Admission {
                    object_command_count: (st.admission.object_command_count + 1) as u32,
                    ..st.admission
                },
                ..st
            },
        )
    }
}

/// One command of an outer batch.
pub open spec fn outer_step(st: OuterState, opcode: u32, f: A7Parsed, last: bool) -> Result<
    OuterState,
    VenusReject,
> {
    if st.admission.command_count == u32::MAX {
        Err(VenusReject::CountOverflow)
    } else {
        let counted = OuterState {
            admission: VenusA7Admission {
                command_count: (st.admission.command_count + 1) as u32,
                ..st.admission
            },
            ..st
        };
        let moved = match f.kind {
            A7CommandKind::Allocation => allocation_step(counted, opcode, f),
            A7CommandKind::CommandRecord => record_step(counted, opcode),
            A7CommandKind::Queue => queue_step(counted, last),
            A7CommandKind::PureControl => object_step(counted, opcode, f),
        };
        match moved {
            Err(e) => Err(e),
            Ok(next) => Ok(OuterState { operand_count: f.operand_count, ..next }),
        }
    }
}

/// What the schema found in the command with index `k`, whose header ends at `from`.
/// A command that it was not asked about is refused as unknown, and one that it let
/// end before its header or behind the stream as truncated.
pub open spec fn parse_of(
    s: Seq<u8>,
    parses: Seq<Result<A7Parsed, VenusReject>>,
    k: int,
    from: int,
) -> Result<A7Parsed, VenusReject> {
    if k >= parses.len() {
        Err(VenusReject::UnknownOpcode)
    } else {
        match parses[k] {
            Err(e) => Err(e),
            Ok(f) => if f.end < from || f.end > s.len() {
                Err(VenusReject::Truncated)
            } else {
                Ok(f)
            },
        }
    }
}

/// The rest of an outer batch from `at` on, whose first command has index `k`.
pub open spec fn outer_walk(
    s: Seq<u8>,
    parses: Seq<Result<A7Parsed, VenusReject>>,
    k: nat,
    at: int,
    st: OuterState,
) -> Result<OuterState, VenusReject>
    decreases parses.len() - k,
{
    if at == s.len() {
        Ok(st)
    } else {
        match venus_grammar::header(s, at) {
            Err(e) => Err(e),
            Ok(((opcode, flags), p)) => if flags != 0 {
                Err(VenusReject::BadFlags)
            } else {
                match parse_of(s, parses, k as int, p) {
                    Err(e) => Err(e),
                    Ok(f) => match outer_step(st, opcode, f, f.end == s.len()) {
                        Err(e) => Err(e),
                        Ok(next) => outer_walk(s, parses, k + 1, f.end as int, next),
                    },
                }
            },
        }
    }
}

/// A batch that has been read whole: closed recordings, and either a finished
/// teardown or exactly one queue command.
pub open spec fn outer_finish(st: OuterState) -> Result<VenusA7Admission, VenusReject> {
    if st.recording || (st.tearing_down && (!st.terminal_free_seen
        || st.admission.queue_command_count != 0)) || (!st.tearing_down
        && st.admission.queue_command_count != 1) {
        Err(VenusReject::InvalidSequence)
    } else if st.operand_count > u32::MAX {
        Err(VenusReject::CountOverflow)
    } else {
        Ok(
            VenusA7Admission {
                terminal_teardown: st.tearing_down,
                operand_count: st.operand_count as u32,
                ..st.admission
            },
        )
    }
}

/// A whole outer batch.
pub open spec fn outer_stream(s: Seq<u8>, parses: Seq<Result<A7Parsed, VenusReject>>) -> Result<
    VenusA7Admission,
    VenusReject,
> {
    match outer_walk(s, parses, 0, 0, outer_start()) {
        Err(e) => Err(e),
        Ok(st) => outer_finish(st),
    }
}

fn parse_outcome(
    c: &Cursor<'_>,
    parses: &[Result<A7Parsed, VenusReject>],
    k: usize,
) -> (r: Result<A7Parsed, VenusReject>)
    ensures
        r == parse_of(c.bytes@, parses@, k as int, c.offset as int),
{
    if k >= parses.len() {
        return Err(VenusReject::UnknownOpcode);
    }
    match parses[k] {
        Err(e) => Err(e),
        Ok(f) => {
            if f.end < c.offset || f.end > c.bytes.len() {
                Err(VenusReject::Truncated)
            } else {
                Ok(f)
            }
        },
    }
}

fn step_allocation(st: &mut OuterState, opcode: u32, f: A7Parsed) -> (r: Result<(), VenusReject>)
    ensures
        match allocation_step(*old(st), opcode, f) {
            Err(e) => r == Err::<(), VenusReject>(e),
            Ok(next) => r is Ok && *final(st) == next,
        },
{
    if opcode == OP_ALLOCATE_MEMORY || opcode == OP_BIND_BUFFER_MEMORY2 || opcode
        == OP_BIND_IMAGE_MEMORY2 {
        if st.tearing_down || st.recording || st.recorded_any || st.object_phase
            || st.admission.queue_command_count != 0 {
            return Err(VenusReject::InvalidSequence);
        }
        st.materializing = true;
        if opcode == OP_ALLOCATE_MEMORY {
            if f.operand_count <= st.operand_count || f.operand_count - st.operand_count != 1
                || f.allocation_size == 0 || f.memory_type_index == u32::MAX {
                return Err(VenusReject::MissingImport);
            }
        } else if f.operand_count != st.operand_count {
            return Err(VenusReject::InvalidSequence);
        }
    } else if opcode == OP_DESTROY_BUFFER || opcode == OP_DESTROY_IMAGE || opcode
        == OP_FREE_MEMORY {
        if st.materializing || st.recording || st.recorded_any || st.object_phase
            || st.admission.queue_command_count != 0 || st.terminal_free_seen || f.operand_count
            != st.operand_count {
            return Err(VenusReject::InvalidSequence);
        }
        st.tearing_down = true;
        st.terminal_free_seen = opcode == OP_FREE_MEMORY;
    } else {
        return Err(VenusReject::InvalidSequence);
    }
    match st.admission.allocation_command_count.checked_add(1) {
        None => Err(VenusReject::CountOverflow),
        Some(n) => {
            st.admission.allocation_command_count = n;
            Ok(())
        },
    }
}

fn step_record(st: &mut OuterState, opcode: u32) -> (r: Result<(), VenusReject>)
    ensures
        match record_step(*old(st), opcode) {
            Err(e) => r == Err::<(), VenusReject>(e),
            Ok(next) => r is Ok && *final(st) == next,
        },
{
    if st.tearing_down || st.admission.queue_command_count != 0 {
        return Err(VenusReject::InvalidSequence);
    }
    if opcode == OP_BEGIN_COMMAND_BUFFER && !st.recording {
        st.recording = true;
    } else if opcode == OP_END_COMMAND_BUFFER && st.recording {
        st.recording = false;
        st.recorded_any = true;
        match st.admission.command_buffer_count.checked_add(1) {
            None => return Err(VenusReject::CountOverflow),
            Some(n) => st.admission.command_buffer_count = n,
        }
    } else if opcode == OP_BEGIN_COMMAND_BUFFER || !st.recording {
        return Err(VenusReject::InvalidSequence);
    }
    Ok(())
}

fn step_object(st: &mut OuterState, opcode: u32, f: A7Parsed) -> (r: Result<(), VenusReject>)
    ensures
        match object_step(*old(st), opcode, f) {
            Err(e) => r == Err::<(), VenusReject>(e),
            Ok(next) => r is Ok && *final(st) == next,
        },
{
    let object_materialization = opcode == OP_CREATE_BUFFER_VIEW || opcode
        == OP_DESTROY_BUFFER_VIEW || opcode == OP_CREATE_IMAGE_VIEW || opcode
        == OP_DESTROY_IMAGE_VIEW || opcode == OP_UPDATE_DESCRIPTOR_SETS;
    if !object_materialization || st.tearing_down || st.recording || st.recorded_any
        || st.admission.queue_command_count != 0 || f.operand_count != st.operand_count {
        return Err(VenusReject::InvalidSequence);
    }
    st.object_phase = true;
    match st.admission.object_command_count.checked_add(1) {
        None => Err(VenusReject::CountOverflow),
        Some(n) => {
            st.admission.object_command_count = n;
            Ok(())
        },
    }
}

fn step_outer(st: &mut OuterState, opcode: u32, f: A7Parsed, last: bool) -> (r: Result<
    (),
    VenusReject,
>)
    ensures
        match outer_step(*old(st), opcode, f, last) {
            Err(e) => r == Err::<(), VenusReject>(e),
            Ok(next) => r is Ok && *final(st) == next,
        },
{
    match st.admission.command_count.checked_add(1) {
        None => return Err(VenusReject::CountOverflow),
        Some(n) => st.admission.command_count = n,
    }
    match f.kind {
        A7CommandKind::Allocation => step_allocation(st, opcode, f)?,
        A7CommandKind::CommandRecord => step_record(st, opcode)?,
        A7CommandKind::Queue => {
            if st.tearing_down || st.recording || st.admission.queue_command_count != 0 {
                return Err(VenusReject::InvalidSequence);
            }
            st.admission.queue_command_count = 1;
            if !last {
                return Err(VenusReject::TrailingBytes);
            }
        },
        A7CommandKind::PureControl => step_object(st, opcode, f)?,
    }
    st.operand_count = f.operand_count;
    Ok(())
}

/// Validates one complete outer batch: zero or more allocations and binds, object
/// materialization, whole command-buffer recordings, and exactly one final queue
/// command; or else a teardown, which ends in one release of memory.
///
/// `parses` holds, in order, what the command schema found in each command.
pub fn validate_venus_a7_outer_stream(
    bytes: &[u8],
    parses: &[Result<A7Parsed, VenusReject>],
) -> (r: Result<VenusA7Admission, VenusReject>)
    ensures
        r == outer_stream(bytes@, parses@),
{
    let mut c = Cursor::new(bytes);
    let admission: VenusA7Admission = VenusA7Admission::default();
    let mut st = OuterState {
        admission,
        recording: false,
        recorded_any: false,
        materializing: false,
        object_phase: false,
        tearing_down: false,
        terminal_free_seen: false,
        operand_count: 0,
    };
    let mut k: usize = 0;
    while c.offset != bytes.len()
        invariant
            c.wf(),
            c.bytes == bytes,
            k <= parses.len(),
            outer_walk(bytes@, parses@, 0, 0, outer_start()) == outer_walk(
                bytes@,
                parses@,
                k as nat,
                c.offset as int,
                st,
            ),
        decreases parses.len() - k,
    {
        let (opcode, flags): (u32, u32) = c.header()?;
        if flags != 0 {
            return Err(VenusReject::BadFlags);
        }
        let f: A7Parsed = parse_outcome(&c, parses, k)?;
        step_outer(&mut st, opcode, f, f.end == bytes.len())?;
        c.offset = f.end;
        k = k + 1;
    }
    if st.recording || (st.tearing_down && (!st.terminal_free_seen
        || st.admission.queue_command_count != 0)) || (!st.tearing_down
        && st.admission.queue_command_count != 1) {
        return Err(VenusReject::InvalidSequence);
    }
    if st.operand_count > u32::MAX as usize {
        return Err(VenusReject::CountOverflow);
    }
    st.admission.terminal_teardown = st.tearing_down;
    st.admission.operand_count = st.operand_count as u32;
    Ok(st.admission)
}

/// A command header and what the schema found behind it.
pub open spec fn command_of(
    s: Seq<u8>,
    parses: Seq<Result<A7Parsed, VenusReject>>,
    k: int,
    at: int,
) -> Result<(u32, u32, A7Parsed), VenusReject> {
    match venus_grammar::header(s, at) {
        Err(e) => Err(e),
        Ok(((opcode, flags), p)) => match parse_of(s, parses, k, p) {
            Err(e) => Err(e),
            Ok(f) => Ok((opcode, flags, f)),
        },
    }
}

/// The reply stream at the head of a reply-bearing control transaction.
pub open spec fn control_reply(s: Seq<u8>, capacity: nat) -> (venus_grammar::Outcome, (u64, u64)) {
    let start = venus_grammar::Walk { at: 0, out: Seq::empty(), imports: 0 };
    match venus_grammar::header(s, 0) {
        Err(e) => (venus_grammar::refuses(start, e), (0, 0)),
        Ok(((opcode, flags), p)) => if opcode != OP_SET_REPLY || flags != 0 {
            (venus_grammar::refuses(start, VenusReject::InvalidSequence), (0, 0))
        } else {
            match venus_grammar::pointer(s, p) {
                Err(e) => (venus_grammar::refuses(start, e), (0, 0)),
                Ok((false, _)) => (
                    venus_grammar::refuses(start, VenusReject::InvalidSequence),
                    (0, 0),
                ),
                Ok((true, q)) => {
                    let operand = venus_grammar::resource_operand(
                        s,
                        venus_grammar::Walk { at: q, ..start },
                        capacity,
                    );
                    if operand.refusal is Some {
                        (operand, (0, 0))
                    } else {
                        match venus_grammar::reply_range(s, operand.walk.at) {
                            Err(e) => (venus_grammar::refuses(operand.walk, e), (0, 0)),
                            Ok((range, at)) => (
                                venus_grammar::proceeds(
                                    venus_grammar::Walk { at, ..operand.walk },
                                ),
                                range,
                            ),
                        }
                    }
                },
            }
        },
    }
}

/// A create that a query of the same object follows: reply-less, and naming a
/// device and an object.
pub open spec fn opens_query(flags: u32, f: A7Parsed) -> bool {
    flags == 0 && f.kind == A7CommandKind::PureControl && f.identity.0 != 0 && f.identity.1 != 0
        && f.operand_count == 1
}

/// The replying query of the object that `identity` names.
pub open spec fn queries(opcode: u32, flags: u32, f: A7Parsed, wanted: u32, identity: (u64, u64)) -> bool {
    opcode == wanted && flags == COMMAND_GENERATE_REPLY && f.kind == A7CommandKind::PureControl
        && f.identity == identity && f.operand_count == 1
}

/// The reply-less destroy of the buffer that `identity` names.
pub open spec fn destroys(opcode: u32, flags: u32, f: A7Parsed, identity: (u64, u64)) -> bool {
    opcode == OP_DESTROY_BUFFER && flags == 0 && f.kind == A7CommandKind::Allocation && f.identity
        == identity && f.operand_count == 1
}

/// What a control transaction amounts to: how many commands, the opcode that is
/// reported for it, and where it ends.
pub struct ControlRun {
    pub command_count: u32,
    pub opcode: u32,
    pub end: int,
}

/// The commands behind a reply stream: a buffer created, queried and destroyed; an
/// image created and queried; or any one replying control command.
pub open spec fn replying_commands(
    s: Seq<u8>,
    parses: Seq<Result<A7Parsed, VenusReject>>,
    at: int,
) -> Result<ControlRun, VenusReject> {
    match command_of(s, parses, 0, at) {
        Err(e) => Err(e),
        Ok((opcode, flags, f)) => if opcode == OP_CREATE_BUFFER || opcode == OP_CREATE_IMAGE {
            if !opens_query(flags, f) {
                Err(VenusReject::InvalidSequence)
            } else {
                match command_of(s, parses, 1, f.end as int) {
                    Err(e) => Err(e),
                    Ok((query_opcode, query_flags, query)) => if opcode == OP_CREATE_IMAGE {
                        if queries(
                            query_opcode,
                            query_flags,
                            query,
                            OP_GET_IMAGE_MEMORY_REQUIREMENTS2,
                            f.identity,
                        ) {
                            Ok(
                                ControlRun {
                                    command_count: 2,
                                    opcode: query.opcode,
                                    end: query.end as int,
                                },
                            )
                        } else {
                            Err(VenusReject::InvalidSequence)
                        }
                    } else if !queries(
                        query_opcode,
                        query_flags,
                        query,
                        OP_GET_BUFFER_MEMORY_REQUIREMENTS2,
                        f.identity,
                    ) {
                        Err(VenusReject::InvalidSequence)
                    } else {
                        match command_of(s, parses, 2, query.end as int) {
                            Err(e) => Err(e),
                            Ok((last_opcode, last_flags, last)) => if destroys(
                                last_opcode,
                                last_flags,
                                last,
                                f.identity,
                            ) {
                                Ok(
                                    ControlRun {
                                        command_count: 3,
                                        opcode: query.opcode,
                                        end: last.end as int,
                                    },
                                )
                            } else {
                                Err(VenusReject::InvalidSequence)
                            },
                        }
                    },
                }
            }
        } else if flags != COMMAND_GENERATE_REPLY || f.kind != A7CommandKind::PureControl
            || f.operand_count != 1 {
            Err(VenusReject::InvalidSequence)
        } else {
            Ok(ControlRun { command_count: 1, opcode: f.opcode, end: f.end as int })
        },
    }
}

/// A command that a reply-less transaction may hold: pure control, or the destroy
/// of an unbound buffer or image.
pub open spec fn is_ring_legal(opcode: u32, f: A7Parsed) -> bool {
    (f.kind == A7CommandKind::PureControl || (f.kind == A7CommandKind::Allocation && (opcode
        == OP_DESTROY_BUFFER || opcode == OP_DESTROY_IMAGE))) && f.operand_count == 0
}

/// The rest of a reply-less transaction, whose next command has index `k`.
pub open spec fn silent_commands(
    s: Seq<u8>,
    parses: Seq<Result<A7Parsed, VenusReject>>,
    k: nat,
    run: ControlRun,
) -> Result<ControlRun, VenusReject>
    decreases parses.len() - k,
{
    if run.end == s.len() {
        if run.command_count == 0 {
            Err(VenusReject::InvalidSequence)
        } else {
            Ok(run)
        }
    } else {
        match venus_grammar::header(s, run.end) {
            Err(e) => Err(e),
            Ok(((opcode, flags), p)) => if opcode == OP_SET_REPLY || flags != 0 {
                Err(VenusReject::BadFlags)
            } else {
                match parse_of(s, parses, k as int, p) {
                    Err(e) => Err(e),
                    Ok(f) => if !is_ring_legal(opcode, f) {
                        Err(VenusReject::InvalidSequence)
                    } else if run.command_count == u32::MAX {
                        Err(VenusReject::CountOverflow)
                    } else {
                        silent_commands(
                            s,
                            parses,
                            k + 1,
                            ControlRun {
                                command_count: (run.command_count + 1) as u32,
                                opcode: f.opcode,
                                end: f.end as int,
                            },
                        )
                    },
                }
            },
        }
    }
}

/// The operands that a control transaction reports: its reply stream's, if any.
pub open spec fn control_operands(s: Seq<u8>, has_reply: bool, capacity: nat) -> Seq<VenusOperand> {
    if has_reply {
        control_reply(s, capacity).0.walk.out
    } else {
        Seq::empty()
    }
}

/// A whole control transaction.
pub open spec fn control_stream(
    s: Seq<u8>,
    has_reply: bool,
    capacity: nat,
    parses: Seq<Result<A7Parsed, VenusReject>>,
) -> Result<VenusControlAdmission, VenusReject> {
    let (reply, range) = control_reply(s, capacity);
    if has_reply && reply.refusal is Some {
        Err(reply.refusal->0)
    } else {
        let run = if has_reply {
            replying_commands(s, parses, reply.walk.at)
        } else {
            silent_commands(s, parses, 0, ControlRun { command_count: 0, opcode: 0, end: 0 })
        };
        match run {
            Err(e) => Err(e),
            Ok(run) => if run.end != s.len() {
                Err(VenusReject::TrailingBytes)
            } else {
                Ok(
                    VenusControlAdmission {
                        command_count: run.command_count,
                        opcode: run.opcode,
                        operand_count: if has_reply {
                            1
                        } else {
                            0
                        },
                        reply_offset: if has_reply {
                            range.0
                        } else {
                            0
                        },
                        reply_size: if has_reply {
                            range.1
                        } else {
                            0
                        },
                    },
                )
            },
        }
    }
}

fn read_reply(c: &mut Cursor<'_>, out: &mut [VenusOperand]) -> (r: Result<(u64, u64), VenusReject>)
    requires
        old(c).wf(),
        old(c).offset == 0,
    ensures
        final(c).wf(),
        final(c).bytes == old(c).bytes,
        ({
            let (o, range) = control_reply(old(c).bytes@, old(out)@.len());
            &&& match o.refusal {
                None => r == Ok::<(u64, u64), VenusReject>(range) && final(c).offset == o.walk.at,
                Some(e) => r == Err::<(u64, u64), VenusReject>(e),
            }
            &&& final(out)@ == venus_grammar::stored(old(out)@, o.walk.out)
        }),
{
    assert(venus_grammar::stored(out@, Seq::empty()) =~= out@);
    assert(out@.take(0) =~= Seq::empty());
    let (opcode, flags): (u32, u32) = c.header()?;
    if opcode != OP_SET_REPLY || flags != 0 {
        return Err(VenusReject::InvalidSequence);
    }
    if !c.pointer()? {
        return Err(VenusReject::InvalidSequence);
    }
    let mut count: usize = 0;
    venus_executor::parse_resource_operand(c, out, &mut count, Ghost(0))?;
    c.reply_range()
}

fn read_command(
    c: &mut Cursor<'_>,
    parses: &[Result<A7Parsed, VenusReject>],
    k: usize,
) -> (r: Result<(u32, u32, A7Parsed), VenusReject>)
    requires
        old(c).wf(),
    ensures
        final(c).wf(),
        final(c).bytes == old(c).bytes,
        r == command_of(old(c).bytes@, parses@, k as int, old(c).offset as int),
        r matches Ok((_, _, f)) ==> final(c).offset == f.end,
{
    let (opcode, flags): (u32, u32) = c.header()?;
    let f: A7Parsed = parse_outcome(c, parses, k)?;
    c.offset = f.end;
    Ok((opcode, flags, f))
}

fn run_replying(c: &mut Cursor<'_>, parses: &[Result<A7Parsed, VenusReject>]) -> (r: Result<
    (u32, u32),
    VenusReject,
>)
    requires
        old(c).wf(),
    ensures
        final(c).wf(),
        final(c).bytes == old(c).bytes,
        match replying_commands(old(c).bytes@, parses@, old(c).offset as int) {
            Err(e) => r == Err::<(u32, u32), VenusReject>(e),
            Ok(run) => r == Ok::<(u32, u32), VenusReject>((run.command_count, run.opcode))
                && final(c).offset == run.end,
        },
{
    let (opcode, flags, f): (u32, u32, A7Parsed) = read_command(c, parses, 0)?;
    if opcode == OP_CREATE_BUFFER || opcode == OP_CREATE_IMAGE {
        let identity: (u64, u64) = f.identity;
        if flags != 0 || f.kind != A7CommandKind::PureControl || identity.0 == 0 || identity.1 == 0
            || f.operand_count != 1 {
            return Err(VenusReject::InvalidSequence);
        }
        let (query_opcode, query_flags, query): (u32, u32, A7Parsed) = read_command(c, parses, 1)?;
        let wanted: u32 = if opcode == OP_CREATE_IMAGE {
            OP_GET_IMAGE_MEMORY_REQUIREMENTS2
        } else {
            OP_GET_BUFFER_MEMORY_REQUIREMENTS2
        };
        if query_opcode != wanted || query_flags != COMMAND_GENERATE_REPLY || query.kind
            != A7CommandKind::PureControl || query.identity.0 != identity.0 || query.identity.1
            != identity.1 || query.operand_count != 1 {
            return Err(VenusReject::InvalidSequence);
        }
        if opcode == OP_CREATE_IMAGE {
            return Ok((2, query.opcode));
        }
        let (last_opcode, last_flags, last): (u32, u32, A7Parsed) = read_command(c, parses, 2)?;
        if last_opcode != OP_DESTROY_BUFFER || last_flags != 0 || last.kind
            != A7CommandKind::Allocation || last.identity.0 != identity.0 || last.identity.1
            != identity.1 || last.operand_count != 1 {
            return Err(VenusReject::InvalidSequence);
        }
        return Ok((3, query.opcode));
    }
    if flags != COMMAND_GENERATE_REPLY || f.kind != A7CommandKind::PureControl || f.operand_count
        != 1 {
        return Err(VenusReject::InvalidSequence);
    }
    Ok((1, f.opcode))
}

fn run_silent(c: &mut Cursor<'_>, parses: &[Result<A7Parsed, VenusReject>]) -> (r: Result<
    (u32, u32),
    VenusReject,
>)
    requires
        old(c).wf(),
    ensures
        final(c).wf(),
        final(c).bytes == old(c).bytes,
        match silent_commands(
            old(c).bytes@,
            parses@,
            0,
            ControlRun { command_count: 0, opcode: 0, end: old(c).offset as int },
        ) {
            Err(e) => r == Err::<(u32, u32), VenusReject>(e),
            Ok(run) => r == Ok::<(u32, u32), VenusReject>((run.command_count, run.opcode))
                && final(c).offset == run.end,
        },
{
    let mut command_count: u32 = 0;
    let mut last_opcode: u32 = 0;
    let mut k: usize = 0;
    let len: usize = c.bytes.len();
    while c.offset != len
        invariant
            c.wf(),
            c.bytes == old(c).bytes,
            len == c.bytes.len(),
            k <= parses.len(),
            silent_commands(
                c.bytes@,
                parses@,
                0,
                ControlRun { command_count: 0, opcode: 0, end: old(c).offset as int },
            ) == silent_commands(
                c.bytes@,
                parses@,
                k as nat,
                ControlRun { command_count, opcode: last_opcode, end: c.offset as int },
            ),
        decreases parses.len() - k,
    {
        let (opcode, flags): (u32, u32) = c.header()?;
        if opcode == OP_SET_REPLY || flags != 0 {
            return Err(VenusReject::BadFlags);
        }
        let f: A7Parsed = parse_outcome(c, parses, k)?;
        let ring_legal_destroy = f.kind == A7CommandKind::Allocation && (opcode
            == OP_DESTROY_BUFFER || opcode == OP_DESTROY_IMAGE);
        if (f.kind != A7CommandKind::PureControl && !ring_legal_destroy) || f.operand_count != 0 {
            return Err(VenusReject::InvalidSequence);
        }
        match command_count.checked_add(1) {
            None => return Err(VenusReject::CountOverflow),
            Some(n) => command_count = n,
        }
        last_opcode = f.opcode;
        c.offset = f.end;
        k = k + 1;
    }
    if command_count == 0 {
        return Err(VenusReject::InvalidSequence);
    }
    Ok((command_count, last_opcode))
}

/// Validates one finite control transaction. A reply-bearing transaction is a
/// reply stream and one replying command, or the create-and-query of one object;
/// a reply-less one is one or more zero-flag commands. The reply stream's zero
/// placeholder is the only host-resource operand permitted.
///
/// `parses` holds, in order, what the command schema found in each command behind
/// the reply stream.
pub fn validate_venus_control_stream(
    bytes: &[u8],
    has_reply: bool,
    operand_storage: &mut [VenusOperand],
    parses: &[Result<A7Parsed, VenusReject>],
) -> (r: Result<VenusControlAdmission, VenusReject>)
    ensures
        r == control_stream(bytes@, has_reply, old(operand_storage)@.len(), parses@),
        final(operand_storage)@ == venus_grammar::stored(
            old(operand_storage)@,
            control_operands(bytes@, has_reply, old(operand_storage)@.len()),
        ),
{
    assert(venus_grammar::stored(operand_storage@, Seq::empty()) =~= operand_storage@);
    let mut c = Cursor::new(bytes);
    let mut reply: (u64, u64) = (0, 0);
    if has_reply {
        reply = read_reply(&mut c, operand_storage)?;
    }
    let (command_count, opcode): (u32, u32) = if has_reply {
        run_replying(&mut c, parses)?
    } else {
        run_silent(&mut c, parses)?
    };
    if c.offset != bytes.len() {
        return Err(VenusReject::TrailingBytes);
    }
    Ok(
        VenusControlAdmission {
            command_count,
            opcode,
            operand_count: if has_reply {
                1
            } else {
                0
            },
            reply_offset: reply.0,
            reply_size: reply.1,
        },
    )
}

/// What every reachable state of an outer batch keeps.
spec fn outer_invariant(st: OuterState) -> bool {
    let a = st.admission;
    &&& a.queue_command_count <= 1
    &&& !st.recorded_any ==> a.command_buffer_count == 0
    &&& !st.object_phase ==> a.object_command_count == 0
    &&& st.terminal_free_seen ==> st.tearing_down
    &&& st.tearing_down ==> !st.materializing && !st.recording && !st.recorded_any
        && !st.object_phase && a.queue_command_count == 0
    &&& (!st.materializing && !st.recording && !st.recorded_any && !st.object_phase
        && a.queue_command_count == 0) ==> st.operand_count == 0
    &&& a.command_count == 0 ==> !st.tearing_down && a.queue_command_count == 0
    &&& (!st.tearing_down && !st.materializing && !st.recording && !st.recorded_any
        && !st.object_phase && a.queue_command_count == 0) ==> a.command_count == 0
    &&& st.tearing_down ==> a.allocation_command_count == a.command_count
    &&& a.command_count >= a.allocation_command_count + a.object_command_count + 2
        * a.command_buffer_count + a.queue_command_count + (if st.recording {
        1int
    } else {
        0
    })
}

proof fn lemma_outer_walk_keeps(
    s: Seq<u8>,
    parses: Seq<Result<A7Parsed, VenusReject>>,
    k: nat,
    at: int,
    st: OuterState,
)
    requires
        outer_invariant(st),
    ensures
        outer_walk(s, parses, k, at, st) matches Ok(end) ==> outer_invariant(end),
    decreases parses.len() - k,
{
    if at != s.len() {
        if let Ok(((opcode, flags), p)) = venus_grammar::header(s, at) {
            if let Ok(f) = parse_of(s, parses, k as int, p) {
                if let Ok(next) = outer_step(st, opcode, f, f.end == s.len()) {
                    assert(outer_invariant(next));
                    lemma_outer_walk_keeps(s, parses, k + 1, f.end as int, next);
                }
            }
        }
    }
}

/// An admitted outer batch holds exactly one queue command, or it is a teardown.
/// A teardown records no command buffer, materializes no object, submits nothing
/// and names no host resource: all of its commands release allocations. Every
/// counted command is counted once, and a command buffer takes a begin and an end.
pub proof fn law_outer_batch_is_one_submission_or_one_teardown(
    s: Seq<u8>,
    parses: Seq<Result<A7Parsed, VenusReject>>,
    a: VenusA7Admission,
)
    requires
        outer_stream(s, parses) == Ok::<VenusA7Admission, VenusReject>(a),
    ensures
        a.command_count >= 1,
        !a.terminal_teardown ==> a.queue_command_count == 1,
        a.terminal_teardown ==> a.queue_command_count == 0 && a.command_buffer_count == 0
            && a.object_command_count == 0 && a.operand_count == 0 && a.allocation_command_count
            == a.command_count,
        a.command_count >= a.allocation_command_count + a.object_command_count + 2
            * a.command_buffer_count + a.queue_command_count,
{
    lemma_outer_walk_keeps(s, parses, 0, 0, outer_start());
}

/// An admitted control transaction holds at least one command. With a reply it
/// holds at most three and reports exactly one operand; without, it reports none
/// and has no reply range.
pub proof fn law_control_operands_are_the_reply_placeholder(
    s: Seq<u8>,
    has_reply: bool,
    capacity: nat,
    parses: Seq<Result<A7Parsed, VenusReject>>,
    a: VenusControlAdmission,
)
    requires
        control_stream(s, has_reply, capacity, parses) == Ok::<VenusControlAdmission, VenusReject>(
            a,
        ),
    ensures
        a.command_count >= 1,
        has_reply ==> a.command_count <= 3 && a.operand_count == 1 && a.reply_size != 0,
        !has_reply ==> a.operand_count == 0 && a.reply_offset == 0 && a.reply_size == 0,
        control_operands(s, has_reply, capacity).len() == a.operand_count,
{
    if !has_reply {
        lemma_silent_run_is_nonempty(
            s,
            parses,
            0,
            ControlRun { command_count: 0, opcode: 0, end: 0 },
        );
    }
}

proof fn lemma_silent_run_is_nonempty(
    s: Seq<u8>,
    parses: Seq<Result<A7Parsed, VenusReject>>,
    k: nat,
    run: ControlRun,
)
    ensures
        silent_commands(s, parses, k, run) matches Ok(end) ==> end.command_count >= 1,
    decreases parses.len() - k,
{
    if run.end != s.len() {
        if let Ok(((opcode, flags), p)) = venus_grammar::header(s, run.end) {
            if let Ok(f) = parse_of(s, parses, k as int, p) {
                if is_ring_legal(opcode, f) && run.command_count < u32::MAX {
                    lemma_silent_run_is_nonempty(
                        s,
                        parses,
                        k + 1,
                        ControlRun {
                            command_count: (run.command_count + 1) as u32,
                            opcode: f.opcode,
                            end: f.end as int,
                        },
                    );
                }
            }
        }
    }
}

/// Where the command with index `k` begins, if the first one begins at `from`.
pub open spec fn start_of(
    parses: Seq<Result<A7Parsed, VenusReject>>,
    from: int,
    k: int,
) -> int {
    if k == 0 {
        from
    } else {
        parses[k - 1]->Ok_0.end as int
    }
}

/// The first `n` commands follow each other from `from` on without a gap, each has at
/// least its header, and the last one ends at `to`.
pub open spec fn tiles(
    parses: Seq<Result<A7Parsed, VenusReject>>,
    from: int,
    n: int,
    to: int,
) -> bool {
    &&& 0 <= n <= parses.len()
    &&& forall|k: int|
        0 <= k < n ==> (#[trigger] parses[k]) is Ok && start_of(parses, from, k) + 8
            <= parses[k]->Ok_0.end
    &&& start_of(parses, from, n) == to
}

proof fn lemma_outer_step_counts(st: OuterState, opcode: u32, f: A7Parsed, last: bool)
    ensures
        outer_step(st, opcode, f, last) matches Ok(next) ==> next.admission.command_count
            == st.admission.command_count + 1,
{
}

proof fn lemma_tiles_extend(
    parses: Seq<Result<A7Parsed, VenusReject>>,
    n: int,
    to: int,
    f: A7Parsed,
)
    requires
        tiles(parses, 0, n, to),
        n < parses.len(),
        parses[n] == Ok::<A7Parsed, VenusReject>(f),
        to + 8 <= f.end,
    ensures
        tiles(parses, 0, n + 1, f.end as int),
{
}

#[verifier::spinoff_prover]
proof fn lemma_outer_walk_tiles(
    s: Seq<u8>,
    parses: Seq<Result<A7Parsed, VenusReject>>,
    k: nat,
    at: int,
    st: OuterState,
)
    requires
        tiles(parses, 0, k as int, at),
        st.admission.command_count == k,
    ensures
        outer_walk(s, parses, k, at, st) matches Ok(end) ==> tiles(
            parses,
            0,
            end.admission.command_count as int,
            s.len() as int,
        ),
    decreases parses.len() - k,
{
    if at != s.len() {
        if let Ok(((opcode, flags), p)) = venus_grammar::header(s, at) {
            if let Ok(f) = parse_of(s, parses, k as int, p) {
                if let Ok(next) = outer_step(st, opcode, f, f.end == s.len()) {
                    lemma_outer_step_counts(st, opcode, f, f.end == s.len());
                    lemma_tiles_extend(parses, k as int, at, f);
                    lemma_outer_walk_tiles(s, parses, k + 1, f.end as int, next);
                }
            }
        }
    }
}

/// The commands of an admitted outer batch are all of its bytes: they follow each other
/// without a gap from the first byte to the last.
pub proof fn law_outer_commands_are_the_stream(
    s: Seq<u8>,
    parses: Seq<Result<A7Parsed, VenusReject>>,
    a: VenusA7Admission,
)
    requires
        outer_stream(s, parses) == Ok::<VenusA7Admission, VenusReject>(a),
    ensures
        tiles(parses, 0, a.command_count as int, s.len() as int),
{
    lemma_outer_walk_tiles(s, parses, 0, 0, outer_start());
}

proof fn lemma_silent_run_tiles(
    s: Seq<u8>,
    parses: Seq<Result<A7Parsed, VenusReject>>,
    k: nat,
    run: ControlRun,
)
    requires
        tiles(parses, 0, k as int, run.end),
        run.command_count == k,
    ensures
        silent_commands(s, parses, k, run) matches Ok(end) ==> tiles(
            parses,
            0,
            end.command_count as int,
            s.len() as int,
        ),
    decreases parses.len() - k,
{
    if run.end != s.len() {
        if let Ok(((opcode, flags), p)) = venus_grammar::header(s, run.end) {
            if let Ok(f) = parse_of(s, parses, k as int, p) {
                if is_ring_legal(opcode, f) && run.command_count < u32::MAX {
                    lemma_silent_run_tiles(
                        s,
                        parses,
                        k + 1,
                        ControlRun {
                            command_count: (run.command_count + 1) as u32,
                            opcode: f.opcode,
                            end: f.end as int,
                        },
                    );
                }
            }
        }
    }
}

/// The commands of an admitted control transaction are all of its bytes behind the
/// reply stream, if it has one.
pub proof fn law_control_commands_are_the_stream(
    s: Seq<u8>,
    has_reply: bool,
    capacity: nat,
    parses: Seq<Result<A7Parsed, VenusReject>>,
    a: VenusControlAdmission,
)
    requires
        control_stream(s, has_reply, capacity, parses) == Ok::<VenusControlAdmission, VenusReject>(
            a,
        ),
    ensures
        tiles(
            parses,
            if has_reply {
                control_reply(s, capacity).0.walk.at
            } else {
                0
            },
            a.command_count as int,
            s.len() as int,
        ),
{
    if !has_reply {
        lemma_silent_run_tiles(
            s,
            parses,
            0,
            ControlRun { command_count: 0, opcode: 0, end: 0 },
        );
    }
}

} // verus!
