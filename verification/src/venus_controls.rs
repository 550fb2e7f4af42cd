//! Which control transactions are admitted, told from the words of the reply stream and
//! from the opcodes of the commands behind it.

use vstd::prelude::*;
use crate::bytes;
use crate::venus_batches;
use crate::venus_grammar;
use crate::venus_sequence;
use crate::venus_sequence::{A7Parsed, ControlRun, VenusControlAdmission};
use crate::venus_executor::{VenusOperand, VenusReject};

verus! {

/// The stream begins with a reply stream: its place in the reply buffer, a size that is
/// not zero, and a zero word where the host resource goes.
pub open spec fn has_reply_stream(s: Seq<u8>, offset: u64, size: u64) -> bool {
    &&& 36 <= s.len()
    &&& bytes::word32(s, 0) == 178
    &&& bytes::word32(s, 4) == 0
    &&& bytes::word64(s, 8) == 1
    &&& bytes::word32(s, 16) == 0
    &&& bytes::word64(s, 20) == offset
    &&& bytes::word64(s, 28) == size
    &&& size > 0
}

/// The command with index `k` behind the reply stream controls, names one operand so
/// far, and has these flags.
pub open spec fn controls(
    s: Seq<u8>,
    parses: Seq<Result<A7Parsed, VenusReject>>,
    k: int,
    flags: int,
) -> bool {
    &&& venus_batches::found(parses, k).kind is PureControl
    &&& venus_batches::found(parses, k).operand_count == 1
    &&& venus_batches::flags_of(s, parses, 36, k) == flags
}

/// The commands behind a reply stream are one replying control command.
pub open spec fn is_one_command(s: Seq<u8>, parses: Seq<Result<A7Parsed, VenusReject>>) -> bool {
    &&& venus_batches::are_commands(s, parses, 36, 1)
    &&& venus_batches::opcode_of(s, parses, 36, 0) != 50
    &&& venus_batches::opcode_of(s, parses, 36, 0) != 54
    &&& controls(s, parses, 0, 1)
    &&& venus_batches::found(parses, 0).end == s.len()
}

/// The first two commands behind a reply stream create an object without a reply, and
/// query the same object with one.
pub open spec fn creates_and_queries(
    s: Seq<u8>,
    parses: Seq<Result<A7Parsed, VenusReject>>,
    create: int,
    query: int,
) -> bool {
    let named = venus_batches::found(parses, 0).identity;
    &&& venus_batches::are_commands(s, parses, 36, 2)
    &&& venus_batches::opcode_of(s, parses, 36, 0) == create
    &&& controls(s, parses, 0, 0)
    &&& named.0 != 0
    &&& named.1 != 0
    &&& venus_batches::opcode_of(s, parses, 36, 1) == query
    &&& controls(s, parses, 1, 1)
    &&& venus_batches::found(parses, 1).identity == named
}

/// The commands behind a reply stream create and query one image.
pub open spec fn is_image_query(s: Seq<u8>, parses: Seq<Result<A7Parsed, VenusReject>>) -> bool {
    creates_and_queries(s, parses, 54, 144) && venus_batches::found(parses, 1).end == s.len()
}

/// The commands behind a reply stream create, query and destroy one buffer.
pub open spec fn is_buffer_query(s: Seq<u8>, parses: Seq<Result<A7Parsed, VenusReject>>) -> bool {
    &&& creates_and_queries(s, parses, 50, 145)
    &&& venus_batches::are_commands(s, parses, 36, 3)
    &&& venus_batches::opcode_of(s, parses, 36, 2) == 51
    &&& venus_batches::flags_of(s, parses, 36, 2) == 0
    &&& venus_batches::found(parses, 2).kind is Allocation
    &&& venus_batches::found(parses, 2).identity == venus_batches::found(parses, 0).identity
    &&& venus_batches::found(parses, 2).operand_count == 1
    &&& venus_batches::found(parses, 2).end == s.len()
}

/// The admission of a transaction with this reply.
pub open spec fn replies(
    a: VenusControlAdmission,
    command_count: int,
    opcode: u32,
    offset: u64,
    size: u64,
) -> bool {
    &&& a.command_count == command_count
    &&& a.opcode == opcode
    &&& a.operand_count == 1
    &&& a.reply_offset == offset
    &&& a.reply_size == size
}

proof fn lemma_reply(s: Seq<u8>, capacity: nat, offset: u64, size: u64)
    requires
        has_reply_stream(s, offset, size),
        s.len() <= usize::MAX,
        capacity > 0,
    ensures
        ({
            let (o, range) = venus_sequence::control_reply(s, capacity);
            &&& o.refusal is None
            &&& o.walk.at == 36
            &&& o.walk.out == seq![VenusOperand { payload_offset: 16, operand_kind: 1 }]
            &&& range == (offset, size)
        }),
{
}

proof fn lemma_command(
    s: Seq<u8>,
    parses: Seq<Result<A7Parsed, VenusReject>>,
    k: int,
)
    requires
        0 <= k,
        venus_batches::are_commands(s, parses, 36, k + 1),
    ensures
        venus_sequence::command_of(s, parses, k, venus_batches::begins_at(parses, 36, k)) == Ok::<
            (u32, u32, A7Parsed),
            VenusReject,
        >(
            (
                venus_batches::opcode_of(s, parses, 36, k),
                venus_batches::flags_of(s, parses, 36, k),
                venus_batches::found(parses, k),
            ),
        ),
{
    assert(parses[k] is Ok);
    if k > 0 {
        assert(parses[k - 1] is Ok);
    }
}

/// A reply-bearing transaction is admitted if it is a reply stream and one replying
/// control command that creates neither a buffer nor an image, or the creation and
/// query of one image, or the creation, query and destruction of one buffer. It
/// reports the reply range, the opcode of the command that replies, and the zero word
/// of the reply stream as its one operand.
#[verifier::spinoff_prover]
pub proof fn law_replying_transactions_are_admitted(
    s: Seq<u8>,
    capacity: nat,
    parses: Seq<Result<A7Parsed, VenusReject>>,
    offset: u64,
    size: u64,
)
    requires
        has_reply_stream(s, offset, size),
        s.len() <= usize::MAX,
        capacity > 0,
    ensures
        ({
            let r = venus_sequence::control_stream(s, true, capacity, parses);
            &&& is_one_command(s, parses) ==> (r matches Ok(a) && replies(
                a,
                1,
                venus_batches::found(parses, 0).opcode,
                offset,
                size,
            ))
            &&& is_image_query(s, parses) ==> (r matches Ok(a) && replies(
                a,
                2,
                venus_batches::found(parses, 1).opcode,
                offset,
                size,
            ))
            &&& is_buffer_query(s, parses) ==> (r matches Ok(a) && replies(
                a,
                3,
                venus_batches::found(parses, 1).opcode,
                offset,
                size,
            ))
        }),
        venus_sequence::control_operands(s, true, capacity) == seq![
            VenusOperand { payload_offset: 16, operand_kind: 1 },
        ],
{
    lemma_reply(s, capacity, offset, size);
    if is_one_command(s, parses) {
        lemma_command(s, parses, 0);
    }
    if is_image_query(s, parses) {
        assert(venus_batches::are_commands(s, parses, 36, 1));
        lemma_command(s, parses, 0);
        lemma_command(s, parses, 1);
    }
    if is_buffer_query(s, parses) {
        assert(venus_batches::are_commands(s, parses, 36, 1));
        lemma_command(s, parses, 0);
        lemma_command(s, parses, 1);
        lemma_command(s, parses, 2);
    }
}

proof fn lemma_only_reply(s: Seq<u8>, capacity: nat)
    requires
        s.len() <= usize::MAX,
        venus_sequence::control_reply(s, capacity).0.refusal is None,
    ensures
        has_reply_stream(
            s,
            venus_sequence::control_reply(s, capacity).1.0,
            venus_sequence::control_reply(s, capacity).1.1,
        ),
        capacity > 0,
        venus_sequence::control_reply(s, capacity).0.walk.at == 36,
{
}

proof fn lemma_only_command(
    s: Seq<u8>,
    parses: Seq<Result<A7Parsed, VenusReject>>,
    k: int,
)
    requires
        0 <= k,
        venus_batches::are_commands(s, parses, 36, k),
        venus_sequence::command_of(
            s,
            parses,
            k,
            venus_batches::begins_at(parses, 36, k),
        ) is Ok,
    ensures
        venus_batches::are_commands(s, parses, 36, k + 1),
{
}

/// No other reply-bearing transaction is admitted.
#[verifier::spinoff_prover]
pub proof fn law_only_these_reply(
    s: Seq<u8>,
    capacity: nat,
    parses: Seq<Result<A7Parsed, VenusReject>>,
    a: VenusControlAdmission,
)
    requires
        s.len() <= usize::MAX,
        venus_sequence::control_stream(s, true, capacity, parses) == Ok::<
            VenusControlAdmission,
            VenusReject,
        >(a),
    ensures
        capacity > 0,
        has_reply_stream(s, a.reply_offset, a.reply_size),
        is_one_command(s, parses) || is_image_query(s, parses) || is_buffer_query(s, parses),
{
    lemma_only_reply(s, capacity);
    lemma_only_command(s, parses, 0);
    lemma_command(s, parses, 0);
    let opcode = venus_batches::opcode_of(s, parses, 36, 0);
    if opcode == 50 || opcode == 54 {
        lemma_only_command(s, parses, 1);
        lemma_command(s, parses, 1);
        if opcode == 50 {
            lemma_only_command(s, parses, 2);
            lemma_command(s, parses, 2);
        }
    }
}

/// The command with index `k` of a reply-less transaction: no reply stream, no flags, no
/// operand, and either control or the destroy of a buffer or an image.
pub open spec fn is_silent(
    s: Seq<u8>,
    parses: Seq<Result<A7Parsed, VenusReject>>,
    k: int,
) -> bool {
    let f = venus_batches::found(parses, k);
    let opcode = venus_batches::opcode_of(s, parses, 0, k);
    &&& opcode != 178
    &&& venus_batches::flags_of(s, parses, 0, k) == 0
    &&& f.operand_count == 0
    &&& (f.kind is PureControl || f.kind is Allocation && (opcode == 51 || opcode == 55))
}

/// The stream is `n` commands of a reply-less transaction.
pub open spec fn are_silent(
    s: Seq<u8>,
    parses: Seq<Result<A7Parsed, VenusReject>>,
    n: int,
) -> bool {
    &&& venus_batches::are_commands(s, parses, 0, n)
    &&& forall|k: int| 0 <= k < n ==> #[trigger] is_silent(s, parses, k)
}

/// What `k` commands of a reply-less transaction amount to.
spec fn silent_run(parses: Seq<Result<A7Parsed, VenusReject>>, k: int) -> ControlRun {
    ControlRun {
        command_count: k as u32,
        opcode: if k <= 0 {
            0
        } else {
            venus_batches::found(parses, k - 1).opcode
        },
        end: venus_batches::begins_at(parses, 0, k),
    }
}

proof fn lemma_silent_round(s: Seq<u8>, parses: Seq<Result<A7Parsed, VenusReject>>, k: int)
    requires
        are_silent(s, parses, k),
        k <= u32::MAX,
        k == 0 || venus_batches::begins_at(parses, 0, k) <= s.len(),
    ensures
        ({
            let r = venus_sequence::silent_commands(s, parses, k as nat, silent_run(parses, k));
            if venus_batches::begins_at(parses, 0, k) == s.len() {
                if k == 0 {
                    r is Err
                } else {
                    r == Ok::<ControlRun, VenusReject>(silent_run(parses, k))
                }
            } else if k < u32::MAX && are_silent(s, parses, k + 1) {
                r == venus_sequence::silent_commands(
                    s,
                    parses,
                    (k + 1) as nat,
                    silent_run(parses, k + 1),
                )
            } else {
                r is Err
            }
        }),
{
    let at = venus_batches::begins_at(parses, 0, k);
    if at != s.len() {
        if venus_batches::are_commands(s, parses, 0, k + 1) {
            assert(parses[k] is Ok);
            assert(venus_grammar::header(s, at) == Ok::<((u32, u32), int), VenusReject>(
                (
                    (
                        venus_batches::opcode_of(s, parses, 0, k),
                        venus_batches::flags_of(s, parses, 0, k),
                    ),
                    at + 8,
                ),
            ));
            if is_silent(s, parses, k) {
                assert(are_silent(s, parses, k + 1));
            } else if are_silent(s, parses, k + 1) {
                assert(is_silent(s, parses, k));
            }
        } else if k < parses.len() && parses[k] is Ok && at + 8 <= venus_batches::found(
            parses,
            k,
        ).end <= s.len() {
            assert(venus_batches::are_commands(s, parses, 0, k + 1));
        }
    }
}

proof fn lemma_silent_walk(
    s: Seq<u8>,
    parses: Seq<Result<A7Parsed, VenusReject>>,
    n: int,
    k: int,
)
    requires
        are_silent(s, parses, n),
        1 <= n <= u32::MAX,
        0 <= k <= n,
        venus_batches::begins_at(parses, 0, n) == s.len(),
    ensures
        venus_sequence::silent_commands(s, parses, k as nat, silent_run(parses, k)) == Ok::<
            ControlRun,
            VenusReject,
        >(silent_run(parses, n)),
    decreases n - k,
{
    assert(venus_batches::are_commands(s, parses, 0, k));
    if k < n {
        assert(parses[k] is Ok);
        assert(are_silent(s, parses, k + 1));
    }
    lemma_silent_round(s, parses, k);
    if k < n {
        lemma_silent_walk(s, parses, n, k + 1);
    }
}

/// A reply-less transaction of one command or more is admitted, under the number of its
/// commands and the opcode of the last one. It reports no operand and no reply.
pub proof fn law_silent_transactions_are_admitted(
    s: Seq<u8>,
    capacity: nat,
    parses: Seq<Result<A7Parsed, VenusReject>>,
    n: int,
)
    requires
        are_silent(s, parses, n),
        1 <= n <= u32::MAX,
        venus_batches::begins_at(parses, 0, n) == s.len(),
    ensures
        venus_sequence::control_stream(s, false, capacity, parses) matches Ok(a) && a.command_count
            == n && a.opcode == venus_batches::found(parses, n - 1).opcode && a.operand_count == 0
            && a.reply_offset == 0 && a.reply_size == 0,
        venus_sequence::control_operands(s, false, capacity).len() == 0,
{
    lemma_silent_walk(s, parses, n, 0);
}

proof fn lemma_silent_end(
    s: Seq<u8>,
    parses: Seq<Result<A7Parsed, VenusReject>>,
    k: int,
) -> (n: int)
    requires
        are_silent(s, parses, k),
        k <= u32::MAX,
        k == 0 || venus_batches::begins_at(parses, 0, k) <= s.len(),
        venus_sequence::silent_commands(s, parses, k as nat, silent_run(parses, k)) is Ok,
    ensures
        are_silent(s, parses, n),
        1 <= n <= u32::MAX,
        venus_batches::begins_at(parses, 0, n) == s.len(),
    decreases parses.len() - k,
{
    lemma_silent_round(s, parses, k);
    if venus_batches::begins_at(parses, 0, k) == s.len() {
        k
    } else {
        lemma_silent_end(s, parses, k + 1)
    }
}

/// No other reply-less transaction is admitted.
pub proof fn law_only_these_are_silent(
    s: Seq<u8>,
    capacity: nat,
    parses: Seq<Result<A7Parsed, VenusReject>>,
)
    requires
        venus_sequence::control_stream(s, false, capacity, parses) is Ok,
    ensures
        exists|n: int|
            1 <= n <= u32::MAX && #[trigger] are_silent(s, parses, n) && venus_batches::begins_at(
                parses,
                0,
                n,
            ) == s.len(),
{
    let n = lemma_silent_end(s, parses, 0);
}

} // verus!
