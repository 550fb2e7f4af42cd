//! Which sequences of Venus commands make up an admitted outer batch, told from the
//! opcodes of its commands and from what the command schema found in each.

use vstd::prelude::*;
use crate::bytes;
use crate::venus_grammar;
use crate::venus_sequence;
use crate::venus_sequence::{A7CommandKind, A7Parsed, OuterState, VenusA7Admission};
use crate::venus_executor::VenusReject;

verus! {

/// What was found in the command with index `k`.
pub open spec fn found(parses: Seq<Result<A7Parsed, VenusReject>>, k: int) -> A7Parsed {
    parses[k]->Ok_0
}

/// Where the command with index `k` begins, if the first one begins at `from`.
pub open spec fn begins_at(parses: Seq<Result<A7Parsed, VenusReject>>, from: int, k: int) -> int {
    if k <= 0 {
        from
    } else {
        found(parses, k - 1).end as int
    }
}

/// The opcode of the command with index `k`.
pub open spec fn opcode_of(
    s: Seq<u8>,
    parses: Seq<Result<A7Parsed, VenusReject>>,
    from: int,
    k: int,
) -> u32 {
    bytes::word32(s, begins_at(parses, from, k))
}

/// The flags of the command with index `k`.
pub open spec fn flags_of(
    s: Seq<u8>,
    parses: Seq<Result<A7Parsed, VenusReject>>,
    from: int,
    k: int,
) -> u32 {
    bytes::word32(s, begins_at(parses, from, k) + 4)
}

/// The operands that were reported up to the command with index `k`, that one left out.
pub open spec fn operands_before(parses: Seq<Result<A7Parsed, VenusReject>>, k: int) -> int {
    if k <= 0 {
        0
    } else {
        found(parses, k - 1).operand_count as int
    }
}

/// The bytes from `from` on are `n` commands, one behind the other, each of which the
/// schema accepted.
pub open spec fn are_commands(
    s: Seq<u8>,
    parses: Seq<Result<A7Parsed, VenusReject>>,
    from: int,
    n: int,
) -> bool {
    &&& 0 <= from
    &&& 0 <= n <= parses.len()
    &&& forall|k: int|
        0 <= k < n ==> (#[trigger] parses[k]) is Ok && begins_at(parses, from, k) + 8 <= found(
            parses,
            k,
        ).end <= s.len()
}

/// The command with index `k` allocates memory for one import, or binds memory.
pub open spec fn allocates_or_binds(
    s: Seq<u8>,
    parses: Seq<Result<A7Parsed, VenusReject>>,
    k: int,
) -> bool {
    let f = found(parses, k);
    let opcode = opcode_of(s, parses, 0, k);
    &&& f.kind is Allocation
    &&& flags_of(s, parses, 0, k) == 0
    &&& ({
        ||| opcode == 21 && f.operand_count == operands_before(parses, k) + 1 && f.allocation_size
            > 0 && f.memory_type_index != 0xFFFF_FFFF
        ||| (opcode == 138 || opcode == 139) && f.operand_count == operands_before(parses, k)
    })
}

/// The command with index `k` makes or destroys a view, or updates descriptor sets.
pub open spec fn handles_an_object(
    s: Seq<u8>,
    parses: Seq<Result<A7Parsed, VenusReject>>,
    k: int,
) -> bool {
    let f = found(parses, k);
    let opcode = opcode_of(s, parses, 0, k);
    &&& f.kind is PureControl
    &&& flags_of(s, parses, 0, k) == 0
    &&& (opcode == 52 || opcode == 53 || opcode == 57 || opcode == 58 || opcode == 79)
    &&& f.operand_count == operands_before(parses, k)
}

/// The command with index `k` is recorded: it begins a recording exactly where none is
/// open, that is first of all and behind an end.
pub open spec fn is_recorded(
    s: Seq<u8>,
    parses: Seq<Result<A7Parsed, VenusReject>>,
    first: int,
    k: int,
) -> bool {
    &&& found(parses, k).kind is CommandRecord
    &&& flags_of(s, parses, 0, k) == 0
    &&& (opcode_of(s, parses, 0, k) == 90 <==> (k == first || opcode_of(s, parses, 0, k - 1)
        == 91))
}

/// How many of the commands from `first` up to `k` end a recording.
pub open spec fn ends_between(
    s: Seq<u8>,
    parses: Seq<Result<A7Parsed, VenusReject>>,
    first: int,
    k: int,
) -> int
    decreases k - first,
{
    if k <= first {
        0
    } else {
        ends_between(s, parses, first, k - 1) + if opcode_of(s, parses, 0, k - 1) == 91 {
            1int
        } else {
            0
        }
    }
}

/// The first `m` commands allocate and bind, those up to `o` handle objects, and those
/// up to `k` are recorded.
pub open spec fn has_phases(
    s: Seq<u8>,
    parses: Seq<Result<A7Parsed, VenusReject>>,
    m: int,
    o: int,
    k: int,
) -> bool {
    &&& 0 <= m <= o <= k
    &&& are_commands(s, parses, 0, k)
    &&& forall|i: int| 0 <= i < m ==> #[trigger] allocates_or_binds(s, parses, i)
    &&& forall|i: int| m <= i < o ==> #[trigger] handles_an_object(s, parses, i)
    &&& forall|i: int| o <= i < k ==> #[trigger] is_recorded(s, parses, o, i)
}

/// A batch that submits work: `m` allocations and binds, object commands up to `o`,
/// whole recordings, and one queue command, which is the last of its `n` commands and
/// ends the stream.
pub open spec fn is_submission(
    s: Seq<u8>,
    parses: Seq<Result<A7Parsed, VenusReject>>,
    m: int,
    o: int,
    n: int,
) -> bool {
    &&& n >= 1
    &&& has_phases(s, parses, m, o, n - 1)
    &&& o < n - 1 ==> opcode_of(s, parses, 0, n - 2) == 91
    &&& are_commands(s, parses, 0, n)
    &&& found(parses, n - 1).kind is Queue
    &&& flags_of(s, parses, 0, n - 1) == 0
    &&& found(parses, n - 1).end == s.len()
}

/// The command with index `k` destroys a buffer or an image.
pub open spec fn destroys_an_object(
    s: Seq<u8>,
    parses: Seq<Result<A7Parsed, VenusReject>>,
    k: int,
) -> bool {
    let opcode = opcode_of(s, parses, 0, k);
    &&& found(parses, k).kind is Allocation
    &&& flags_of(s, parses, 0, k) == 0
    &&& (opcode == 51 || opcode == 55)
    &&& found(parses, k).operand_count == 0
}

/// The first `k` commands destroy buffers and images.
pub open spec fn is_destroying(
    s: Seq<u8>,
    parses: Seq<Result<A7Parsed, VenusReject>>,
    k: int,
) -> bool {
    &&& are_commands(s, parses, 0, k)
    &&& forall|i: int| 0 <= i < k ==> #[trigger] destroys_an_object(s, parses, i)
}

/// A batch that tears down: destroys, then one release of memory, which is the last of
/// its `n` commands and ends the stream.
pub open spec fn is_teardown_batch(
    s: Seq<u8>,
    parses: Seq<Result<A7Parsed, VenusReject>>,
    n: int,
) -> bool {
    &&& n >= 1
    &&& is_destroying(s, parses, n - 1)
    &&& are_commands(s, parses, 0, n)
    &&& found(parses, n - 1).kind is Allocation
    &&& flags_of(s, parses, 0, n - 1) == 0
    &&& opcode_of(s, parses, 0, n - 1) == 22
    &&& found(parses, n - 1).operand_count == 0
    &&& found(parses, n - 1).end == s.len()
}

/// What a batch that submits work is counted as.
pub open spec fn counts_submission(
    s: Seq<u8>,
    parses: Seq<Result<A7Parsed, VenusReject>>,
    m: int,
    o: int,
    n: int,
    a: VenusA7Admission,
) -> bool {
    &&& a.command_count == n
    &&& a.allocation_command_count == m
    &&& a.object_command_count == o - m
    &&& a.command_buffer_count == ends_between(s, parses, o, n - 1)
    &&& a.queue_command_count == 1
    &&& a.operand_count == found(parses, n - 1).operand_count
    &&& !a.terminal_teardown
}

/// What a batch that tears down is counted as.
pub open spec fn counts_teardown(n: int, a: VenusA7Admission) -> bool {
    &&& a.command_count == n
    &&& a.allocation_command_count == n
    &&& a.object_command_count == 0
    &&& a.command_buffer_count == 0
    &&& a.queue_command_count == 0
    &&& a.operand_count == 0
    &&& a.terminal_teardown
}

/// The state behind `k` commands of a batch with these phases.
spec fn phase_state(
    s: Seq<u8>,
    parses: Seq<Result<A7Parsed, VenusReject>>,
    m: int,
    o: int,
    k: int,
) -> OuterState {
    OuterState {
        admission: VenusA7Admission {
            command_count: k as u32,
            allocation_command_count: m as u32,
            object_command_count: (o - m) as u32,
            command_buffer_count: ends_between(s, parses, o, k) as u32,
            queue_command_count: 0,
            operand_count: 0,
            terminal_teardown: false,
        },
        recording: k > o && opcode_of(s, parses, 0, k - 1) != 91,
        recorded_any: ends_between(s, parses, o, k) > 0,
        materializing: m > 0,
        object_phase: o > m,
        tearing_down: false,
        terminal_free_seen: false,
        operand_count: operands_before(parses, k) as usize,
    }
}

/// The state behind a queue command.
spec fn queued_state(st: OuterState, f: A7Parsed) -> OuterState {
    OuterState {
        admission: VenusA7Admission {
            command_count: (st.admission.command_count + 1) as u32,
            queue_command_count: 1,
            ..st.admission
        },
        operand_count: f.operand_count,
        ..st
    }
}

/// The state behind `k` destroys, and a release of memory if `freed`.
spec fn destroy_state(k: int, freed: bool) -> OuterState {
    OuterState {
        admission: VenusA7Admission {
            command_count: k as u32,
            allocation_command_count: k as u32,
            object_command_count: 0,
            command_buffer_count: 0,
            queue_command_count: 0,
            operand_count: 0,
            terminal_teardown: false,
        },
        recording: false,
        recorded_any: false,
        materializing: false,
        object_phase: false,
        tearing_down: k > 0,
        terminal_free_seen: freed,
        operand_count: 0,
    }
}

proof fn lemma_ends_bounds(
    s: Seq<u8>,
    parses: Seq<Result<A7Parsed, VenusReject>>,
    first: int,
    k: int,
)
    requires
        first <= k,
    ensures
        0 <= ends_between(s, parses, first, k) <= k - first,
    decreases k - first,
{
    if first < k {
        lemma_ends_bounds(s, parses, first, k - 1);
    }
}

/// One more command of a batch in its phases.
#[verifier::spinoff_prover]
proof fn lemma_phase_step(
    s: Seq<u8>,
    parses: Seq<Result<A7Parsed, VenusReject>>,
    m: int,
    o: int,
    k: int,
    last: bool,
)
    requires
        has_phases(s, parses, m, o, k),
        are_commands(s, parses, 0, k + 1),
        flags_of(s, parses, 0, k) == 0,
        k < u32::MAX,
    ensures
        ({
            let opcode = opcode_of(s, parses, 0, k);
            let f = found(parses, k);
            let next = venus_sequence::outer_step(
                phase_state(s, parses, m, o, k),
                opcode,
                f,
                last,
            );
            match f.kind {
                A7CommandKind::Allocation => if m == k && allocates_or_binds(s, parses, k) {
                    next == Ok::<OuterState, VenusReject>(
                        phase_state(s, parses, k + 1, k + 1, k + 1),
                    )
                } else {
                    k > 0 || (opcode != 51 && opcode != 55 && opcode != 22) || f.operand_count
                        != 0 ==> next is Err
                },
                A7CommandKind::PureControl => if o == k && handles_an_object(s, parses, k) {
                    next == Ok::<OuterState, VenusReject>(
                        phase_state(s, parses, m, k + 1, k + 1),
                    )
                } else {
                    next is Err
                },
                A7CommandKind::CommandRecord => if is_recorded(s, parses, o, k) {
                    next == Ok::<OuterState, VenusReject>(phase_state(s, parses, m, o, k + 1))
                } else {
                    next is Err
                },
                A7CommandKind::Queue => if last && (o == k || opcode_of(s, parses, 0, k - 1)
                    == 91) {
                    next == Ok::<OuterState, VenusReject>(
                        queued_state(phase_state(s, parses, m, o, k), f),
                    )
                } else {
                    next is Err
                },
            }
        }),
{
    lemma_ends_bounds(s, parses, o, k);
    lemma_ends_bounds(s, parses, k + 1, k + 1);
    if o < k {
        assert(is_recorded(s, parses, o, o));
        if opcode_of(s, parses, 0, k - 1) == 91 {
            lemma_ends_bounds(s, parses, o, k - 1);
        }
    }
}

/// One more command of a batch that destroys.
#[verifier::spinoff_prover]
proof fn lemma_destroy_step(
    s: Seq<u8>,
    parses: Seq<Result<A7Parsed, VenusReject>>,
    k: int,
    freed: bool,
    last: bool,
)
    requires
        are_commands(s, parses, 0, k + 1),
        flags_of(s, parses, 0, k) == 0,
        0 <= k < u32::MAX,
        freed ==> k > 0,
    ensures
        ({
            let opcode = opcode_of(s, parses, 0, k);
            let f = found(parses, k);
            let next = venus_sequence::outer_step(destroy_state(k, freed), opcode, f, last);
            if !freed && f.kind is Allocation && f.operand_count == 0 && (opcode == 51 || opcode
                == 55) {
                next == Ok::<OuterState, VenusReject>(destroy_state(k + 1, false))
            } else if !freed && f.kind is Allocation && f.operand_count == 0 && opcode == 22 {
                next == Ok::<OuterState, VenusReject>(destroy_state(k + 1, true))
            } else {
                k > 0 ==> next is Err
            }
        }),
{
}

/// One round of the walk over a batch.
proof fn lemma_walk_round(
    s: Seq<u8>,
    parses: Seq<Result<A7Parsed, VenusReject>>,
    k: int,
    st: OuterState,
)
    requires
        are_commands(s, parses, 0, k),
        k == 0 || begins_at(parses, 0, k) <= s.len(),
    ensures
        ({
            let at = begins_at(parses, 0, k);
            let w = venus_sequence::outer_walk(s, parses, k as nat, at, st);
            if at == s.len() {
                w == Ok::<OuterState, VenusReject>(st)
            } else if are_commands(s, parses, 0, k + 1) && flags_of(s, parses, 0, k) == 0 {
                w == match venus_sequence::outer_step(
                    st,
                    opcode_of(s, parses, 0, k),
                    found(parses, k),
                    found(parses, k).end == s.len(),
                ) {
                    Err(e) => Err(e),
                    Ok(next) => venus_sequence::outer_walk(
                        s,
                        parses,
                        (k + 1) as nat,
                        begins_at(parses, 0, k + 1),
                        next,
                    ),
                }
            } else {
                w is Err
            }
        }),
{
    let at = begins_at(parses, 0, k);
    if at != s.len() {
        if are_commands(s, parses, 0, k + 1) {
            assert(parses[k] is Ok);
            assert(venus_grammar::header(s, at) == Ok::<((u32, u32), int), VenusReject>(
                ((opcode_of(s, parses, 0, k), flags_of(s, parses, 0, k)), at + 8),
            ));
        } else if k < parses.len() && parses[k] is Ok && at + 8 <= found(parses, k).end
            <= s.len() {
            assert(are_commands(s, parses, 0, k + 1));
        }
    }
}

proof fn lemma_phases_extend(
    s: Seq<u8>,
    parses: Seq<Result<A7Parsed, VenusReject>>,
    m: int,
    o: int,
    k: int,
)
    requires
        has_phases(s, parses, m, o, k),
        are_commands(s, parses, 0, k + 1),
    ensures
        m == k && allocates_or_binds(s, parses, k) ==> has_phases(s, parses, k + 1, k + 1, k + 1),
        o == k && handles_an_object(s, parses, k) ==> has_phases(s, parses, m, k + 1, k + 1),
        is_recorded(s, parses, o, k) ==> has_phases(s, parses, m, o, k + 1),
{
}

/// The state behind `k` commands of a whole batch.
#[verifier::opaque]
spec fn state_at(
    s: Seq<u8>,
    parses: Seq<Result<A7Parsed, VenusReject>>,
    m: int,
    o: int,
    k: int,
) -> OuterState {
    phase_state(
        s,
        parses,
        if m <= k {
            m
        } else {
            k
        },
        if o <= k {
            o
        } else {
            k
        },
        k,
    )
}

#[verifier::spinoff_prover]
proof fn lemma_submission_step(
    s: Seq<u8>,
    parses: Seq<Result<A7Parsed, VenusReject>>,
    m: int,
    o: int,
    n: int,
    k: int,
)
    requires
        is_submission(s, parses, m, o, n),
        n <= u32::MAX,
        0 <= k <= n - 1,
    ensures
        flags_of(s, parses, 0, k) == 0,
        venus_sequence::outer_step(
            state_at(s, parses, m, o, k),
            opcode_of(s, parses, 0, k),
            found(parses, k),
            found(parses, k).end == s.len(),
        ) == Ok::<OuterState, VenusReject>(
            if k < n - 1 {
                state_at(s, parses, m, o, k + 1)
            } else {
                queued_state(phase_state(s, parses, m, o, n - 1), found(parses, n - 1))
            },
        ),
{
    reveal(state_at);
    let mk = if m <= k { m } else { k };
    let ok = if o <= k { o } else { k };
    lemma_fewer_commands(s, parses, n, k);
    lemma_fewer_commands(s, parses, n, k + 1);
    if k < m {
        assert(allocates_or_binds(s, parses, k));
    } else if k < o {
        assert(handles_an_object(s, parses, k));
    } else if k < n - 1 {
        assert(is_recorded(s, parses, o, k));
    }
    assert(has_phases(s, parses, mk, ok, k));
    lemma_phase_step(s, parses, mk, ok, k, found(parses, k).end == s.len());
}

/// A batch in its phases is read to its end.
#[verifier::spinoff_prover]
proof fn lemma_submission_walk(
    s: Seq<u8>,
    parses: Seq<Result<A7Parsed, VenusReject>>,
    m: int,
    o: int,
    n: int,
    k: int,
)
    requires
        is_submission(s, parses, m, o, n),
        n <= u32::MAX,
        0 <= k <= n - 1,
    ensures
        venus_sequence::outer_walk(
            s,
            parses,
            k as nat,
            begins_at(parses, 0, k),
            state_at(s, parses, m, o, k),
        ) == Ok::<OuterState, VenusReject>(
            queued_state(phase_state(s, parses, m, o, n - 1), found(parses, n - 1)),
        ),
    decreases n - k,
{
    lemma_submission_step(s, parses, m, o, n, k);
    lemma_inside(s, parses, n, k);
    lemma_fewer_commands(s, parses, n, k);
    lemma_fewer_commands(s, parses, n, k + 1);
    lemma_walk_round(s, parses, k, state_at(s, parses, m, o, k));
    if k < n - 1 {
        lemma_submission_walk(s, parses, m, o, n, k + 1);
    } else {
        lemma_walk_round(
            s,
            parses,
            n,
            queued_state(phase_state(s, parses, m, o, n - 1), found(parses, n - 1)),
        );
    }
}

proof fn lemma_fewer_commands(
    s: Seq<u8>,
    parses: Seq<Result<A7Parsed, VenusReject>>,
    n: int,
    k: int,
)
    requires
        are_commands(s, parses, 0, n),
        0 <= k <= n,
    ensures
        are_commands(s, parses, 0, k),
{
}

/// Every command but the last one ends before the last one does.
proof fn lemma_inside(
    s: Seq<u8>,
    parses: Seq<Result<A7Parsed, VenusReject>>,
    n: int,
    k: int,
)
    requires
        are_commands(s, parses, 0, n),
        0 <= k < n,
    ensures
        begins_at(parses, 0, k) + 8 <= s.len(),
        0 <= begins_at(parses, 0, k),
{
    assert(parses[k] is Ok);
}

#[verifier::spinoff_prover]
proof fn lemma_teardown_walk(
    s: Seq<u8>,
    parses: Seq<Result<A7Parsed, VenusReject>>,
    n: int,
    k: int,
)
    requires
        is_teardown_batch(s, parses, n),
        n <= u32::MAX,
        0 <= k <= n - 1,
    ensures
        venus_sequence::outer_walk(
            s,
            parses,
            k as nat,
            begins_at(parses, 0, k),
            destroy_state(k, false),
        ) == Ok::<OuterState, VenusReject>(destroy_state(n, true)),
    decreases n - k,
{
    lemma_inside(s, parses, n, k);
    lemma_fewer_commands(s, parses, n, k);
    lemma_fewer_commands(s, parses, n, k + 1);
    lemma_walk_round(s, parses, k, destroy_state(k, false));
    if k < n - 1 {
        assert(destroys_an_object(s, parses, k));
        lemma_destroy_step(s, parses, k, false, found(parses, k).end == s.len());
        lemma_teardown_walk(s, parses, n, k + 1);
    } else {
        lemma_destroy_step(s, parses, k, false, true);
        lemma_walk_round(s, parses, n, destroy_state(n, true));
    }
}

/// Every batch that submits work is admitted: any allocations and binds, then any object
/// commands, then any whole recordings, then one queue command, which ends the stream.
/// It is counted by what its commands are.
pub proof fn law_submissions_are_admitted(
    s: Seq<u8>,
    parses: Seq<Result<A7Parsed, VenusReject>>,
    m: int,
    o: int,
    n: int,
)
    requires
        is_submission(s, parses, m, o, n),
        n <= u32::MAX,
        found(parses, n - 1).operand_count <= u32::MAX,
    ensures
        venus_sequence::outer_stream(s, parses) matches Ok(a) && counts_submission(
            s,
            parses,
            m,
            o,
            n,
            a,
        ),
{
    lemma_submission_walk(s, parses, m, o, n, 0);
    assert(state_at(s, parses, m, o, 0) == venus_sequence::outer_start()) by {
        reveal(state_at);
    }
    lemma_ends_bounds(s, parses, o, n - 1);
}

/// Every batch that tears down is admitted: any destroys of buffers and images, then one
/// release of memory, which ends the stream.
pub proof fn law_teardowns_are_admitted(
    s: Seq<u8>,
    parses: Seq<Result<A7Parsed, VenusReject>>,
    n: int,
)
    requires
        is_teardown_batch(s, parses, n),
        n <= u32::MAX,
    ensures
        venus_sequence::outer_stream(s, parses) matches Ok(a) && counts_teardown(n, a),
{
    lemma_teardown_walk(s, parses, n, 0);
    assert(destroy_state(0, false) == venus_sequence::outer_start());
}

/// What a walk that began with destroys comes to.
#[verifier::spinoff_prover]
proof fn lemma_destroying_ends(
    s: Seq<u8>,
    parses: Seq<Result<A7Parsed, VenusReject>>,
    k: int,
    end: OuterState,
) -> (n: int)
    requires
        is_destroying(s, parses, k),
        0 < k <= u32::MAX,
        begins_at(parses, 0, k) <= s.len(),
        venus_sequence::outer_walk(
            s,
            parses,
            k as nat,
            begins_at(parses, 0, k),
            destroy_state(k, false),
        ) == Ok::<OuterState, VenusReject>(end),
    ensures
        end == destroy_state(n, true) && is_teardown_batch(s, parses, n) && n <= u32::MAX || end
            == destroy_state(n, false) && n > 0,
    decreases parses.len() - k,
{
    lemma_walk_round(s, parses, k, destroy_state(k, false));
    if begins_at(parses, 0, k) == s.len() {
        k
    } else {
        if k == u32::MAX {
            assert(venus_sequence::outer_step(
                destroy_state(k, false),
                opcode_of(s, parses, 0, k),
                found(parses, k),
                found(parses, k).end == s.len(),
            ) is Err);
            k
        } else {
            lemma_destroy_step(s, parses, k, false, found(parses, k).end == s.len());
            if opcode_of(s, parses, 0, k) == 22 {
                lemma_freed_ends(s, parses, k + 1, end);
                k + 1
            } else {
                assert(destroys_an_object(s, parses, k));
                lemma_destroying_ends(s, parses, k + 1, end)
            }
        }
    }
}

/// Nothing is read behind the release of memory.
proof fn lemma_freed_ends(
    s: Seq<u8>,
    parses: Seq<Result<A7Parsed, VenusReject>>,
    k: int,
    end: OuterState,
)
    requires
        are_commands(s, parses, 0, k),
        0 < k <= u32::MAX,
        begins_at(parses, 0, k) <= s.len(),
        venus_sequence::outer_walk(
            s,
            parses,
            k as nat,
            begins_at(parses, 0, k),
            destroy_state(k, true),
        ) == Ok::<OuterState, VenusReject>(end),
    ensures
        begins_at(parses, 0, k) == s.len(),
        end == destroy_state(k, true),
{
    lemma_walk_round(s, parses, k, destroy_state(k, true));
    if begins_at(parses, 0, k) != s.len() && k < u32::MAX {
        lemma_destroy_step(s, parses, k, true, found(parses, k).end == s.len());
    }
}

/// A batch in its phases was read to `end`: it had a queue command, or it never had one.
spec fn phases_end(
    s: Seq<u8>,
    parses: Seq<Result<A7Parsed, VenusReject>>,
    end: OuterState,
    m: int,
    o: int,
    n: int,
) -> bool {
    ||| n <= u32::MAX && is_submission(s, parses, m, o, n) && end == queued_state(
        phase_state(s, parses, m, o, n - 1),
        found(parses, n - 1),
    )
    ||| n <= u32::MAX && is_teardown_batch(s, parses, n) && end == destroy_state(n, true)
    ||| venus_sequence::outer_finish(end) is Err
}

#[verifier::spinoff_prover]
proof fn lemma_phases_end(
    s: Seq<u8>,
    parses: Seq<Result<A7Parsed, VenusReject>>,
    m: int,
    o: int,
    k: int,
    end: OuterState,
) -> (r: (int, int, int))
    requires
        has_phases(s, parses, m, o, k),
        k <= u32::MAX,
        begins_at(parses, 0, k) <= s.len(),
        venus_sequence::outer_walk(
            s,
            parses,
            k as nat,
            begins_at(parses, 0, k),
            phase_state(s, parses, m, o, k),
        ) == Ok::<OuterState, VenusReject>(end),
    ensures
        phases_end(s, parses, end, r.0, r.1, r.2),
    decreases parses.len() - k,
{
    let st = phase_state(s, parses, m, o, k);
    let f = found(parses, k);
    let opcode = opcode_of(s, parses, 0, k);
    let last = f.end == s.len();
    lemma_walk_round(s, parses, k, st);
    if begins_at(parses, 0, k) == s.len() {
        (m, o, k)
    } else if k == u32::MAX {
        assert(venus_sequence::outer_step(st, opcode, f, last) is Err);
        (m, o, k)
    } else {
        lemma_phase_step(s, parses, m, o, k, last);
        lemma_phases_extend(s, parses, m, o, k);
        match f.kind {
            A7CommandKind::Allocation => if m == k && allocates_or_binds(s, parses, k) {
                lemma_phases_end(s, parses, k + 1, k + 1, k + 1, end)
            } else {
                assert(k == 0);
                assert(st == destroy_state(0, false));
                lemma_destroy_step(s, parses, 0, false, last);
                if opcode == 22 {
                    lemma_freed_ends(s, parses, 1, end);
                    assert(is_destroying(s, parses, 0));
                    assert(is_teardown_batch(s, parses, 1));
                    (0, 0, 1)
                } else {
                    assert(destroys_an_object(s, parses, 0));
                    assert(is_destroying(s, parses, 1));
                    let n = lemma_destroying_ends(s, parses, 1, end);
                    (0, 0, n)
                }
            },
            A7CommandKind::PureControl => lemma_phases_end(s, parses, m, k + 1, k + 1, end),
            A7CommandKind::CommandRecord => lemma_phases_end(s, parses, m, o, k + 1, end),
            A7CommandKind::Queue => {
                lemma_walk_round(s, parses, k + 1, queued_state(st, f));
                assert(is_submission(s, parses, m, o, k + 1));
                (m, o, k + 1)
            },
        }
    }
}

/// Nothing else is admitted: an admitted batch submits work or tears down, and its
/// counts are those of its commands.
pub proof fn law_only_submissions_and_teardowns_are_admitted(
    s: Seq<u8>,
    parses: Seq<Result<A7Parsed, VenusReject>>,
    a: VenusA7Admission,
)
    requires
        venus_sequence::outer_stream(s, parses) == Ok::<VenusA7Admission, VenusReject>(a),
    ensures
        (exists|m: int, o: int, n: int| #[trigger]
            is_submission(s, parses, m, o, n) && counts_submission(s, parses, m, o, n, a)) || (
        exists|n: int| #[trigger] is_teardown_batch(s, parses, n) && counts_teardown(n, a)),
{
    assert(phase_state(s, parses, 0, 0, 0) == venus_sequence::outer_start());
    let end = venus_sequence::outer_walk(s, parses, 0, 0, venus_sequence::outer_start())->Ok_0;
    let (m, o, n) = lemma_phases_end(s, parses, 0, 0, 0, end);
    if n <= u32::MAX && is_submission(s, parses, m, o, n) && end == queued_state(
        phase_state(s, parses, m, o, n - 1),
        found(parses, n - 1),
    ) {
        lemma_ends_bounds(s, parses, o, n - 1);
        assert(counts_submission(s, parses, m, o, n, a));
    } else {
        assert(is_teardown_batch(s, parses, n) && counts_teardown(n, a));
    }
}

proof fn lemma_one_phase_back(
    s: Seq<u8>,
    parses: Seq<Result<A7Parsed, VenusReject>>,
    m: int,
    o: int,
    k: int,
) -> (r: (int, int))
    requires
        has_phases(s, parses, m, o, k),
        0 < k < u32::MAX,
    ensures
        has_phases(s, parses, r.0, r.1, k - 1),
        flags_of(s, parses, 0, k - 1) == 0,
        venus_sequence::outer_step(
            phase_state(s, parses, r.0, r.1, k - 1),
            opcode_of(s, parses, 0, k - 1),
            found(parses, k - 1),
            found(parses, k - 1).end == s.len(),
        ) == Ok::<OuterState, VenusReject>(phase_state(s, parses, m, o, k)),
{
    lemma_fewer_commands(s, parses, k, k - 1);
    let mk = if m < k { m } else { k - 1 };
    let ok = if o < k { o } else { k - 1 };
    if m == k {
        assert(allocates_or_binds(s, parses, k - 1));
    } else if o == k {
        assert(handles_an_object(s, parses, k - 1));
    } else {
        assert(is_recorded(s, parses, o, k - 1));
    }
    assert(has_phases(s, parses, mk, ok, k - 1));
    lemma_phase_step(s, parses, mk, ok, k - 1, found(parses, k - 1).end == s.len());
    (mk, ok)
}

/// A batch is read through its phases before anything behind them is.
#[verifier::spinoff_prover]
proof fn lemma_walk_through_phases(
    s: Seq<u8>,
    parses: Seq<Result<A7Parsed, VenusReject>>,
    m: int,
    o: int,
    k: int,
)
    requires
        has_phases(s, parses, m, o, k),
        k < u32::MAX,
        k == 0 || begins_at(parses, 0, k) <= s.len(),
    ensures
        venus_sequence::outer_walk(s, parses, 0, 0, venus_sequence::outer_start())
            == venus_sequence::outer_walk(
            s,
            parses,
            k as nat,
            begins_at(parses, 0, k),
            phase_state(s, parses, m, o, k),
        ),
    decreases k,
{
    if k == 0 {
        assert(phase_state(s, parses, m, o, 0) == venus_sequence::outer_start());
    } else {
        let (mk, ok) = lemma_one_phase_back(s, parses, m, o, k);
        lemma_inside(s, parses, k, k - 1);
        lemma_walk_through_phases(s, parses, mk, ok, k - 1);
        lemma_walk_round(s, parses, k - 1, phase_state(s, parses, mk, ok, k - 1));
    }
}

/// The command with index `k` cannot follow commands in these phases, and why.
pub open spec fn fault_of(
    s: Seq<u8>,
    parses: Seq<Result<A7Parsed, VenusReject>>,
    m: int,
    o: int,
    k: int,
) -> Option<VenusReject> {
    let f = found(parses, k);
    let opcode = opcode_of(s, parses, 0, k);
    let open = o < k && opcode_of(s, parses, 0, k - 1) != 91;
    match f.kind {
        A7CommandKind::Allocation => if opcode == 21 && m == k {
            if allocates_or_binds(s, parses, k) {
                None
            } else {
                Some(VenusReject::MissingImport)
            }
        } else if k == 0 && (opcode == 51 || opcode == 55 || opcode == 22) && f.operand_count
            == 0 {
            None
        } else if m == k && allocates_or_binds(s, parses, k) {
            None
        } else {
            Some(VenusReject::InvalidSequence)
        },
        A7CommandKind::PureControl => if o == k && handles_an_object(s, parses, k) {
            None
        } else {
            Some(VenusReject::InvalidSequence)
        },
        A7CommandKind::CommandRecord => if is_recorded(s, parses, o, k) {
            None
        } else {
            Some(VenusReject::InvalidSequence)
        },
        A7CommandKind::Queue => if open {
            Some(VenusReject::InvalidSequence)
        } else if f.end != s.len() {
            Some(VenusReject::TrailingBytes)
        } else {
            None
        },
    }
}

/// A batch that goes wrong behind commands in their phases is refused for the command
/// that goes wrong: flags that are not zero, a command that the schema refused, an
/// allocation without its import, a queue command that is not last, and otherwise a
/// command out of its place. One that ends before its queue command is refused, too.
#[verifier::spinoff_prover]
pub proof fn law_a_batch_is_refused_at_its_first_fault(
    s: Seq<u8>,
    parses: Seq<Result<A7Parsed, VenusReject>>,
    m: int,
    o: int,
    k: int,
)
    requires
        has_phases(s, parses, m, o, k),
        k < u32::MAX,
        k == 0 || begins_at(parses, 0, k) <= s.len(),
        s.len() <= usize::MAX,
    ensures
        ({
            let at = begins_at(parses, 0, k);
            let r = venus_sequence::outer_stream(s, parses);
            &&& at == s.len() ==> r == Err::<VenusA7Admission, VenusReject>(
                VenusReject::InvalidSequence,
            )
            &&& at < s.len() < at + 8 && at + 8 <= usize::MAX ==> r == Err::<
                VenusA7Admission,
                VenusReject,
            >(VenusReject::Truncated)
            &&& at + 8 <= s.len() && flags_of(s, parses, 0, k) != 0 ==> r == Err::<
                VenusA7Admission,
                VenusReject,
            >(VenusReject::BadFlags)
            &&& at + 8 <= s.len() && flags_of(s, parses, 0, k) == 0 && k < parses.len()
                && parses[k] is Err ==> r == Err::<VenusA7Admission, VenusReject>(
                parses[k]->Err_0,
            )
            &&& at + 8 <= s.len() && flags_of(s, parses, 0, k) == 0 && are_commands(
                s,
                parses,
                0,
                k + 1,
            ) ==> (fault_of(s, parses, m, o, k) matches Some(e) ==> r == Err::<
                VenusA7Admission,
                VenusReject,
            >(e))
        }),
{
    let at = begins_at(parses, 0, k);
    let st = phase_state(s, parses, m, o, k);
    lemma_walk_through_phases(s, parses, m, o, k);
    lemma_walk_round(s, parses, k, st);
    if at + 8 <= s.len() && flags_of(s, parses, 0, k) == 0 && are_commands(s, parses, 0, k + 1) {
        lemma_fault(s, parses, m, o, k);
    } else if at + 8 <= s.len() {
        assert(venus_grammar::header(s, at) == Ok::<((u32, u32), int), VenusReject>(
            ((opcode_of(s, parses, 0, k), flags_of(s, parses, 0, k)), at + 8),
        ));
    }
}

#[verifier::spinoff_prover]
proof fn lemma_fault(
    s: Seq<u8>,
    parses: Seq<Result<A7Parsed, VenusReject>>,
    m: int,
    o: int,
    k: int,
)
    requires
        has_phases(s, parses, m, o, k),
        are_commands(s, parses, 0, k + 1),
        flags_of(s, parses, 0, k) == 0,
        k < u32::MAX,
    ensures
        fault_of(s, parses, m, o, k) matches Some(e) ==> venus_sequence::outer_step(
            phase_state(s, parses, m, o, k),
            opcode_of(s, parses, 0, k),
            found(parses, k),
            found(parses, k).end == s.len(),
        ) == Err::<OuterState, VenusReject>(e),
{
    lemma_ends_bounds(s, parses, o, k);
    if o < k {
        assert(is_recorded(s, parses, o, o));
        if opcode_of(s, parses, 0, k - 1) == 91 {
            lemma_ends_bounds(s, parses, o, k - 1);
        }
    }
}

} // verus!
