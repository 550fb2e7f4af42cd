//! Streams that continue one another: whatever the grammar reads in a stream it
//! reads in every continuation, so an admitted stream has no admitted continuation
//! and no admitted beginning.

use vstd::prelude::*;
use crate::bytes;
use crate::venus_executor;
use crate::venus_executor::{VenusAdmission, VenusReject};
use crate::venus_grammar;

verus! {

/// `t` begins with `s`.
pub open spec fn continues(s: Seq<u8>, t: Seq<u8>) -> bool {
    s.len() <= t.len() && forall|i: int| 0 <= i < s.len() ==> #[trigger] t[i] == s[i]
}

/// Where the production is read in `s`, it is read alike in `t`, and reading goes
/// forward.
spec fn stable(
    item: spec_fn(Seq<u8>, int) -> Result<int, VenusReject>,
    s: Seq<u8>,
    t: Seq<u8>,
) -> bool {
    forall|at: int|
        0 <= at && (#[trigger] item(s, at)) is Ok ==> item(t, at) == item(s, at) && item(
            s,
            at,
        )->Ok_0 >= at
}

proof fn lemma_words(s: Seq<u8>, t: Seq<u8>, at: int)
    requires
        continues(s, t),
        0 <= at,
    ensures
        venus_grammar::u32_at(s, at) is Ok ==> venus_grammar::u32_at(t, at) == venus_grammar::u32_at(s, at) && venus_grammar::u32_at(s, at)->Ok_0.1 == at + 4,
        venus_grammar::u64_at(s, at) is Ok ==> venus_grammar::u64_at(t, at) == venus_grammar::u64_at(s, at) && venus_grammar::u64_at(s, at)->Ok_0.1 == at + 8,
        venus_grammar::pointer(s, at) is Ok ==> venus_grammar::pointer(t, at) == venus_grammar::pointer(s, at) && venus_grammar::pointer(s, at)->Ok_0.1 == at
            + 8,
        venus_grammar::bounded_count(s, at) is Ok ==> venus_grammar::bounded_count(t, at) == venus_grammar::bounded_count(s, at)
            && venus_grammar::bounded_count(s, at)->Ok_0.1 == at + 4,
        venus_grammar::leaf_pnext(s, at) is Ok ==> venus_grammar::leaf_pnext(t, at) == venus_grammar::leaf_pnext(s, at) && venus_grammar::leaf_pnext(
            s,
            at,
        )->Ok_0 == at + 8,
{
    if at + 4 <= s.len() {
        assert(bytes::word32(t, at) == bytes::word32(s, at));
    }
    if at + 8 <= s.len() {
        assert(bytes::word64(t, at) == bytes::word64(s, at));
    }
}

proof fn lemma_stype(s: Seq<u8>, t: Seq<u8>, at: int, expected: u32)
    requires
        continues(s, t),
        0 <= at,
        venus_grammar::stype(s, at, expected) is Ok,
    ensures
        venus_grammar::stype(t, at, expected) == venus_grammar::stype(s, at, expected),
        venus_grammar::stype(s, at, expected)->Ok_0 == at + 4,
{
    lemma_words(s, t, at);
}

proof fn lemma_elements(s: Seq<u8>, t: Seq<u8>, at: int, n: u32, stride: int)
    requires
        continues(s, t),
        0 <= at,
        0 <= stride,
    ensures
        venus_grammar::marker(s, at, n) is Ok ==> venus_grammar::marker(t, at, n) == venus_grammar::marker(s, at, n) && venus_grammar::marker(
            s,
            at,
            n,
        )->Ok_0 == at + 8,
        venus_grammar::elements(s, at, n, stride) is Ok ==> venus_grammar::elements(t, at, n, stride) == venus_grammar::elements(
            s,
            at,
            n,
            stride,
        ) && venus_grammar::elements(s, at, n, stride)->Ok_0 >= at,
{
    lemma_words(s, t, at);
    assert(n * stride >= 0) by (nonlinear_arith)
        requires
            n >= 0,
            stride >= 0,
    ;
}

proof fn lemma_counted(s: Seq<u8>, t: Seq<u8>, at: int, stride: int)
    requires
        continues(s, t),
        0 <= at,
        0 <= stride,
        venus_grammar::counted(s, at, stride) is Ok,
    ensures
        venus_grammar::counted(t, at, stride) == venus_grammar::counted(s, at, stride),
        venus_grammar::counted(s, at, stride)->Ok_0 >= at,
{
    lemma_words(s, t, at);
    if let Ok((n, p)) = venus_grammar::bounded_count(s, at) {
        lemma_elements(s, t, p, n, stride);
    }
}

proof fn lemma_repeated(
    s: Seq<u8>,
    t: Seq<u8>,
    at: int,
    n: nat,
    item: spec_fn(Seq<u8>, int) -> Result<int, VenusReject>,
)
    requires
        stable(item, s, t),
        0 <= at,
        venus_grammar::repeated(s, at, n, item) is Ok,
    ensures
        venus_grammar::repeated(t, at, n, item) == venus_grammar::repeated(s, at, n, item),
        venus_grammar::repeated(s, at, n, item)->Ok_0 >= at,
    decreases n,
{
    if n > 0 {
        if let Ok(p) = item(s, at) {
            lemma_repeated(s, t, p, (n - 1) as nat, item);
        }
    }
}

proof fn lemma_counted_items(
    s: Seq<u8>,
    t: Seq<u8>,
    at: int,
    item: spec_fn(Seq<u8>, int) -> Result<int, VenusReject>,
)
    requires
        continues(s, t),
        stable(item, s, t),
        0 <= at,
        venus_grammar::counted_items(s, at, item) is Ok,
    ensures
        venus_grammar::counted_items(t, at, item) == venus_grammar::counted_items(s, at, item),
        venus_grammar::counted_items(s, at, item)->Ok_0 >= at,
{
    lemma_words(s, t, at);
    if let Ok((n, p)) = venus_grammar::bounded_count(s, at) {
        lemma_elements(s, t, p, n, 0);
        if let Ok(q) = venus_grammar::marker(s, p, n) {
            lemma_repeated(s, t, q, n as nat, item);
        }
    }
}

proof fn lemma_bodies(s: Seq<u8>, t: Seq<u8>, at: int)
    requires
        continues(s, t),
        0 <= at,
    ensures
        venus_grammar::timeline_body(s, at) is Ok ==> venus_grammar::timeline_body(t, at) == venus_grammar::timeline_body(s, at)
            && venus_grammar::timeline_body(s, at)->Ok_0 >= at,
        venus_grammar::device_group_body(s, at) is Ok ==> venus_grammar::device_group_body(t, at) == venus_grammar::device_group_body(s, at)
            && venus_grammar::device_group_body(s, at)->Ok_0 >= at,
{
    if let Ok(p) = venus_grammar::counted(s, at, 8) {
        lemma_counted(s, t, at, 8);
        if venus_grammar::counted(s, p, 8) is Ok {
            lemma_counted(s, t, p, 8);
        }
    }
    if let Ok(p) = venus_grammar::counted(s, at, 4) {
        lemma_counted(s, t, at, 4);
        if let Ok(q) = venus_grammar::counted(s, p, 4) {
            lemma_counted(s, t, p, 4);
            if venus_grammar::counted(s, q, 4) is Ok {
                lemma_counted(s, t, q, 4);
            }
        }
    }
}

proof fn lemma_submit_pnext(s: Seq<u8>, t: Seq<u8>, at: int, depth: nat)
    requires
        continues(s, t),
        0 <= at,
        venus_grammar::submit_pnext(s, at, depth) is Ok,
    ensures
        venus_grammar::submit_pnext(t, at, depth) == venus_grammar::submit_pnext(s, at, depth),
        venus_grammar::submit_pnext(s, at, depth)->Ok_0 >= at,
    decreases venus_executor::MAX_NESTING - depth,
{
    lemma_words(s, t, at);
    if let Ok((true, p)) = venus_grammar::pointer(s, at) {
        lemma_words(s, t, p);
        if let Ok((_, q)) = venus_grammar::u32_at(s, p) {
            if let Ok(r) = venus_grammar::submit_pnext(s, q, depth + 1) {
                lemma_submit_pnext(s, t, q, depth + 1);
                lemma_bodies(s, t, r);
            }
        }
    }
}

proof fn lemma_bind_pnext(s: Seq<u8>, t: Seq<u8>, at: int, depth: nat)
    requires
        continues(s, t),
        0 <= at,
        venus_grammar::bind_pnext(s, at, depth) is Ok,
    ensures
        venus_grammar::bind_pnext(t, at, depth) == venus_grammar::bind_pnext(s, at, depth),
        venus_grammar::bind_pnext(s, at, depth)->Ok_0 >= at,
    decreases venus_executor::MAX_NESTING - depth,
{
    lemma_words(s, t, at);
    if let Ok((true, p)) = venus_grammar::pointer(s, at) {
        lemma_words(s, t, p);
        if let Ok((_, q)) = venus_grammar::u32_at(s, p) {
            if let Ok(r) = venus_grammar::bind_pnext(s, q, depth + 1) {
                lemma_bind_pnext(s, t, q, depth + 1);
                lemma_bodies(s, t, r);
            }
        }
    }
}

proof fn lemma_submit_info(s: Seq<u8>, t: Seq<u8>, at: int)
    requires
        continues(s, t),
        0 <= at,
        venus_grammar::submit_info(s, at) is Ok,
    ensures
        venus_grammar::submit_info(t, at) == venus_grammar::submit_info(s, at),
        venus_grammar::submit_info(s, at)->Ok_0 >= at,
{
    lemma_stype(s, t, at, venus_executor::ST_SUBMIT_INFO);
    let p = at + 4;
    lemma_submit_pnext(s, t, p, 0);
    let q = venus_grammar::submit_pnext(s, p, 0)->Ok_0;
    lemma_words(s, t, q);
    let (waits, r) = venus_grammar::bounded_count(s, q)->Ok_0;
    lemma_elements(s, t, r, waits, 8);
    let u = venus_grammar::elements(s, r, waits, 8)->Ok_0;
    lemma_elements(s, t, u, waits, 4);
    let v = venus_grammar::elements(s, u, waits, 4)->Ok_0;
    lemma_counted(s, t, v, 8);
    lemma_counted(s, t, venus_grammar::counted(s, v, 8)->Ok_0, 8);
}

proof fn lemma_leaf_items(s: Seq<u8>, t: Seq<u8>)
    requires
        continues(s, t),
    ensures
        stable(venus_grammar::semaphore_item(), s, t),
        stable(venus_grammar::command_buffer_item(), s, t),
{
    assert forall|at: int| 0 <= at && (#[trigger] venus_grammar::semaphore_item()(s, at)) is Ok implies
        venus_grammar::semaphore_item()(t, at) == venus_grammar::semaphore_item()(s, at) && venus_grammar::semaphore_item()(s, at)->Ok_0
        >= at by {
        assert(venus_grammar::semaphore_submit_info(s, at) is Ok);
        lemma_stype(s, t, at, venus_executor::ST_SEMAPHORE_SUBMIT_INFO);
        lemma_words(s, t, at + 4);
    }
    assert forall|at: int| 0 <= at && (#[trigger] venus_grammar::command_buffer_item()(s, at)) is Ok implies
        venus_grammar::command_buffer_item()(t, at) == venus_grammar::command_buffer_item()(s, at) && venus_grammar::command_buffer_item()(
        s,
        at,
    )->Ok_0 >= at by {
        assert(venus_grammar::command_buffer_submit_info(s, at) is Ok);
        lemma_stype(s, t, at, venus_executor::ST_COMMAND_BUFFER_SUBMIT_INFO);
        lemma_words(s, t, at + 4);
    }
}

proof fn lemma_submit_info2(s: Seq<u8>, t: Seq<u8>, at: int)
    requires
        continues(s, t),
        0 <= at,
        venus_grammar::submit_info2(s, at) is Ok,
    ensures
        venus_grammar::submit_info2(t, at) == venus_grammar::submit_info2(s, at),
        venus_grammar::submit_info2(s, at)->Ok_0 >= at,
{
    lemma_leaf_items(s, t);
    lemma_stype(s, t, at, venus_executor::ST_SUBMIT_INFO2);
    lemma_words(s, t, at + 4);
    let r = at + 16;
    lemma_counted_items(s, t, r, venus_grammar::semaphore_item());
    let u = venus_grammar::counted_items(s, r, venus_grammar::semaphore_item())->Ok_0;
    lemma_counted_items(s, t, u, venus_grammar::command_buffer_item());
    let v = venus_grammar::counted_items(s, u, venus_grammar::command_buffer_item())->Ok_0;
    lemma_counted_items(s, t, v, venus_grammar::semaphore_item());
}

proof fn lemma_sparse_item(s: Seq<u8>, t: Seq<u8>, stride: int)
    requires
        continues(s, t),
        0 <= stride,
    ensures
        stable(venus_grammar::sparse_item(stride), s, t),
{
    assert forall|at: int| 0 <= at && (#[trigger] venus_grammar::sparse_item(stride)(s, at)) is Ok implies
        venus_grammar::sparse_item(stride)(t, at) == venus_grammar::sparse_item(stride)(s, at) && venus_grammar::sparse_item(stride)(
        s,
        at,
    )->Ok_0 >= at by {
        assert(venus_grammar::sparse_object(s, at, stride) is Ok);
        lemma_counted(s, t, at + 8, stride);
    }
}

proof fn lemma_bind_sparse_info(s: Seq<u8>, t: Seq<u8>, at: int)
    requires
        continues(s, t),
        0 <= at,
        venus_grammar::bind_sparse_info(s, at) is Ok,
    ensures
        venus_grammar::bind_sparse_info(t, at) == venus_grammar::bind_sparse_info(s, at),
        venus_grammar::bind_sparse_info(s, at)->Ok_0 >= at,
{
    lemma_sparse_item(s, t, 36);
    lemma_sparse_item(s, t, 56);
    lemma_stype(s, t, at, venus_executor::ST_BIND_SPARSE_INFO);
    lemma_bind_pnext(s, t, at + 4, 0);
    let q = venus_grammar::bind_pnext(s, at + 4, 0)->Ok_0;
    lemma_counted(s, t, q, 8);
    let r = venus_grammar::counted(s, q, 8)->Ok_0;
    lemma_counted_items(s, t, r, venus_grammar::sparse_item(36));
    let u = venus_grammar::counted_items(s, r, venus_grammar::sparse_item(36))->Ok_0;
    lemma_counted_items(s, t, u, venus_grammar::sparse_item(36));
    let v = venus_grammar::counted_items(s, u, venus_grammar::sparse_item(36))->Ok_0;
    lemma_counted_items(s, t, v, venus_grammar::sparse_item(56));
    lemma_counted(s, t, venus_grammar::counted_items(s, v, venus_grammar::sparse_item(56))->Ok_0, 8);
}

proof fn lemma_queue_body(s: Seq<u8>, t: Seq<u8>, at: int, opcode: u32)
    requires
        continues(s, t),
        0 <= at,
        venus_grammar::queue_body(s, at, opcode) is Ok,
    ensures
        venus_grammar::queue_body(t, at, opcode) == venus_grammar::queue_body(s, at, opcode),
{
    let item = venus_grammar::queue_items(opcode);
    assert forall|p: int| 0 <= p && (#[trigger] item(s, p)) is Ok implies item(t, p) == item(s, p)
        && item(s, p)->Ok_0 >= p by {
        assert(venus_grammar::queue_item(s, p, opcode) is Ok);
        if opcode == venus_executor::OP_QUEUE_SUBMIT {
            lemma_submit_info(s, t, p);
        } else if opcode == venus_executor::OP_QUEUE_SUBMIT2 {
            lemma_submit_info2(s, t, p);
        } else {
            lemma_bind_sparse_info(s, t, p);
        }
    }
    lemma_counted_items(s, t, at + 8, item);
}

proof fn lemma_resource_operand(s: Seq<u8>, t: Seq<u8>, walk: venus_grammar::Walk, capacity: nat)
    requires
        continues(s, t),
        0 <= walk.at,
        venus_grammar::resource_operand(s, walk, capacity).refusal is None,
    ensures
        venus_grammar::resource_operand(t, walk, capacity) == venus_grammar::resource_operand(s, walk, capacity),
        venus_grammar::resource_operand(s, walk, capacity).walk.at >= walk.at,
{
    lemma_words(s, t, walk.at);
}

proof fn lemma_memory_pnext(s: Seq<u8>, t: Seq<u8>, walk: venus_grammar::Walk, depth: nat, capacity: nat)
    requires
        continues(s, t),
        0 <= walk.at,
        venus_grammar::memory_pnext(s, walk, depth, capacity).refusal is None,
    ensures
        venus_grammar::memory_pnext(t, walk, depth, capacity) == venus_grammar::memory_pnext(s, walk, depth, capacity),
        venus_grammar::memory_pnext(s, walk, depth, capacity).walk.at >= walk.at,
    decreases venus_executor::MAX_NESTING - depth,
{
    lemma_words(s, t, walk.at);
    if let Ok((true, p)) = venus_grammar::pointer(s, walk.at) {
        lemma_words(s, t, p);
        if let Ok((tag, q)) = venus_grammar::u32_at(s, p) {
            let next = venus_grammar::Walk { at: q, ..walk };
            lemma_memory_pnext(s, t, next, depth + 1, capacity);
            let inner = venus_grammar::memory_pnext(s, next, depth + 1, capacity).walk;
            assert(venus_grammar::memory_link(s, inner, tag, capacity).refusal is None);
            if tag == venus_executor::ST_IMPORT_MEMORY_RESOURCE_INFO_MESA {
                lemma_resource_operand(s, t, venus_grammar::Walk { imports: 1, ..inner }, capacity);
            }
        }
    }
}

proof fn lemma_allocate_body(s: Seq<u8>, t: Seq<u8>, walk: venus_grammar::Walk, capacity: nat)
    requires
        continues(s, t),
        0 <= walk.at,
        venus_grammar::allocate_body(s, walk, capacity).0.refusal is None,
    ensures
        venus_grammar::allocate_body(t, walk, capacity) == venus_grammar::allocate_body(s, walk, capacity),
{
    let at = walk.at;
    lemma_words(s, t, at + 8);
    lemma_stype(s, t, at + 16, venus_executor::ST_MEMORY_ALLOCATE_INFO);
    assert(venus_grammar::allocate_head(t, at) == venus_grammar::allocate_head(s, at));
    let head = venus_grammar::moved(venus_grammar::Walk { imports: 0, ..walk }, venus_grammar::allocate_head(s, at)).walk;
    lemma_memory_pnext(s, t, head, 0, capacity);
    let chain = venus_grammar::memory_pnext(s, head, 0, capacity).walk;
    lemma_words(s, t, chain.at);
    lemma_words(s, t, chain.at + 8);
    lemma_words(s, t, chain.at + 12);
    lemma_words(s, t, chain.at + 20);
    assert(venus_grammar::allocate_tail(t, chain.at, chain.imports) == venus_grammar::allocate_tail(s, chain.at, chain.imports));
}

proof fn lemma_header(s: Seq<u8>, t: Seq<u8>, at: int)
    requires
        continues(s, t),
        0 <= at,
        venus_grammar::header(s, at) is Ok,
    ensures
        venus_grammar::header(t, at) == venus_grammar::header(s, at),
        venus_grammar::header(s, at)->Ok_0.1 == at + 8,
{
    lemma_words(s, t, at);
    lemma_words(s, t, at + 4);
}

proof fn lemma_reply_then_allocate(s: Seq<u8>, t: Seq<u8>, at: int, flags: u32, capacity: nat)
    requires
        continues(s, t),
        0 <= at,
        venus_grammar::reply_then_allocate(s, at, flags, capacity).0.refusal is None,
    ensures
        venus_grammar::reply_then_allocate(t, at, flags, capacity) == venus_grammar::reply_then_allocate(s, at, flags, capacity),
{
    let start = venus_grammar::Walk { at, out: Seq::empty(), imports: 0 };
    lemma_words(s, t, at);
    let opened = venus_grammar::Walk { at: at + 8, ..start };
    lemma_resource_operand(s, t, opened, capacity);
    let reply = venus_grammar::resource_operand(s, opened, capacity).walk;
    lemma_words(s, t, reply.at);
    lemma_words(s, t, reply.at + 8);
    assert(venus_grammar::reply_range(t, reply.at) == venus_grammar::reply_range(s, reply.at));
    let q = reply.at + 16;
    lemma_header(s, t, q);
    lemma_allocate_body(s, t, venus_grammar::Walk { at: q + 8, ..reply }, capacity);
}

/// What is read in a stream is read in every continuation of it.
proof fn lemma_command(s: Seq<u8>, t: Seq<u8>, capacity: nat)
    requires
        continues(s, t),
        venus_grammar::command(s, capacity).0.refusal is None,
    ensures
        venus_grammar::command(t, capacity) == venus_grammar::command(s, capacity),
{
    lemma_header(s, t, 0);
    let ((opcode, flags), p) = venus_grammar::header(s, 0)->Ok_0;
    if opcode == venus_executor::OP_SET_REPLY {
        lemma_reply_then_allocate(s, t, p, flags, capacity);
    } else if opcode == venus_executor::OP_FREE_MEMORY {
        lemma_words(s, t, p + 16);
        assert(venus_grammar::free_body(t, p, flags) == venus_grammar::free_body(s, p, flags));
    } else if venus_grammar::is_queue(opcode) {
        lemma_queue_body(s, t, p, opcode);
    }
}

/// An admitted stream with anything behind it is refused for its trailing bytes.
pub proof fn law_trailing_bytes_are_refused(s: Seq<u8>, x: Seq<u8>, capacity: nat)
    requires
        venus_grammar::stream(s, capacity).0.refusal is None,
        x.len() > 0,
    ensures
        venus_grammar::stream(s + x, capacity).0.refusal == Some(VenusReject::TrailingBytes),
        venus_executor::admitted(
            venus_grammar::stream(s + x, capacity).0,
            venus_grammar::stream(s + x, capacity).1,
        ) == Err::<VenusAdmission, VenusReject>(VenusReject::TrailingBytes),
{
    lemma_command(s, s + x, capacity);
}

#[verifier::opaque]
spec fn is_admitted(s: Seq<u8>, capacity: nat) -> bool {
    venus_grammar::stream(s, capacity).0.refusal is None
}

proof fn lemma_one_is_refused(s: Seq<u8>, x: Seq<u8>, capacity: nat)
    requires
        x.len() > 0,
        is_admitted(s, capacity),
    ensures
        !is_admitted(s + x, capacity),
{
    reveal(is_admitted);
    law_trailing_bytes_are_refused(s, x, capacity);
}

proof fn lemma_beginning(s: Seq<u8>, n: int, capacity: nat)
    requires
        is_admitted(s, capacity),
        0 <= n < s.len(),
    ensures
        !is_admitted(s.take(n), capacity),
{
    assert(s.take(n) + s.skip(n) =~= s);
    if is_admitted(s.take(n), capacity) {
        lemma_one_is_refused(s.take(n), s.skip(n), capacity);
    }
}

/// No beginning of an admitted stream is admitted, but for the whole of it.
pub proof fn law_beginnings_are_refused(s: Seq<u8>, n: int, capacity: nat)
    requires
        venus_grammar::stream(s, capacity).0.refusal is None,
        0 <= n < s.len(),
    ensures
        venus_grammar::stream(s.take(n), capacity).0.refusal is Some,
        venus_executor::admitted(
            venus_grammar::stream(s.take(n), capacity).0,
            venus_grammar::stream(s.take(n), capacity).1,
        ) is Err,
{
    reveal(is_admitted);
    lemma_beginning(s, n, capacity);
}

} // verus!
