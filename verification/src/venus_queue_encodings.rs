//! The byte strings that are one admitted queue command, written down from the parts of
//! the command.

use vstd::prelude::*;
use crate::bytes;
use crate::venus_encodings;
use crate::venus_executor::{VenusCommandClass, VenusReject};
use crate::venus_grammar;

verus! {

/// An array of `count` elements.
pub struct Elements {
    pub count: u32,
    pub body: Seq<u8>,
}

/// The elements have `stride` bytes each.
pub open spec fn has_stride(e: Elements, stride: int) -> bool {
    e.body.len() == e.count * stride
}

/// The bytes of an array: its count, a marker that repeats the count, and the elements.
#[verifier::opaque]
pub open spec fn array_bytes(e: Elements) -> Seq<u8> {
    bytes::le32(e.count) + bytes::le64(e.count as u64) + e.body
}

broadcast proof fn lemma_array_len(e: Elements)
    ensures
        #[trigger] array_bytes(e).len() == 12 + e.body.len(),
{
    reveal(array_bytes);
}

broadcast group group_parts {
    venus_encodings::group_stands,
    lemma_array_len,
}

/// The widths of the elements that occur.
spec fn is_stride(stride: int) -> bool {
    stride == 4 || stride == 8 || stride == 36 || stride == 56
}

proof fn lemma_array(s: Seq<u8>, at: int, e: Elements, stride: int)
    requires
        venus_encodings::stands(s, at, array_bytes(e)),
        has_stride(e, stride),
        is_stride(stride),
        s.len() <= usize::MAX,
    ensures
        venus_grammar::counted(s, at, stride) == Ok::<int, VenusReject>(
            at + array_bytes(e).len(),
        ),
{
    broadcast use venus_encodings::group_stands;
    reveal(array_bytes);
    venus_encodings::lemma_stands_inside(s, at, array_bytes(e));
}

proof fn lemma_array_read(s: Seq<u8>, at: int, stride: int) -> (e: Elements)
    requires
        0 <= at,
        is_stride(stride),
        venus_grammar::counted(s, at, stride) is Ok,
    ensures
        has_stride(e, stride),
        venus_encodings::stands(s, at, array_bytes(e)),
        venus_grammar::counted(s, at, stride) == Ok::<int, VenusReject>(
            at + array_bytes(e).len(),
        ),
{
    broadcast use venus_encodings::group_stands;
    reveal(array_bytes);
    let count = bytes::word32(s, at);
    let n: int = count * stride;
    venus_encodings::lemma_stands_here(s, at + 12, n);
    Elements { count, body: s.subrange(at + 12, at + 12 + n) }
}

/// One link of the chain of a submission.
pub enum SubmitLink {
    DeviceGroup { first: Elements, second: Elements, third: Elements },
    Protected { word: u32 },
    Timeline { waits: Elements, signals: Elements },
}

pub open spec fn submit_tag(l: SubmitLink) -> u32 {
    match l {
        SubmitLink::DeviceGroup { .. } => 1_000_060_005,
        SubmitLink::Protected { .. } => 1_000_145_000,
        SubmitLink::Timeline { .. } => 1_000_207_003,
    }
}

pub open spec fn submit_fields(l: SubmitLink) -> Seq<u8> {
    match l {
        SubmitLink::DeviceGroup { first, second, third } => array_bytes(first) + array_bytes(second)
            + array_bytes(third),
        SubmitLink::Protected { word } => bytes::le32(word),
        SubmitLink::Timeline { waits, signals } => array_bytes(waits) + array_bytes(signals),
    }
}

pub open spec fn is_submit_link(l: SubmitLink) -> bool {
    match l {
        SubmitLink::DeviceGroup { first, second, third } => has_stride(first, 4) && has_stride(
            second,
            4,
        ) && has_stride(third, 4),
        SubmitLink::Protected { .. } => true,
        SubmitLink::Timeline { waits, signals } => has_stride(waits, 8) && has_stride(signals, 8),
    }
}

/// The bytes of a chain: each link is a marker and a tag, then the rest of the chain,
/// then its own fields. A null marker ends the chain.
pub open spec fn submit_chain(links: Seq<SubmitLink>) -> Seq<u8>
    decreases links.len(),
{
    if links.len() == 0 {
        bytes::le64(0)
    } else {
        bytes::le64(1) + bytes::le32(submit_tag(links[0])) + submit_chain(links.skip(1))
            + submit_fields(links[0])
    }
}

/// At most seven links, each with its elements.
pub open spec fn are_submit_links(links: Seq<SubmitLink>, most: int) -> bool {
    &&& links.len() <= most
    &&& forall|i: int| 0 <= i < links.len() ==> is_submit_link(#[trigger] links[i])
}

/// Where the fields of the link with this tag end.
#[verifier::opaque]
spec fn submit_fields_end(s: Seq<u8>, at: int, tag: u32) -> Result<int, VenusReject> {
    if tag == 1_000_060_005 {
        venus_grammar::device_group_body(s, at)
    } else if tag == 1_000_145_000 {
        venus_grammar::skip(s, at, 4)
    } else if tag == 1_000_207_003 {
        venus_grammar::timeline_body(s, at)
    } else {
        Err(VenusReject::UnsupportedChain)
    }
}

/// Where a chain ends.
#[verifier::opaque]
spec fn submit_chain_end(s: Seq<u8>, at: int, depth: nat) -> Result<int, VenusReject> {
    venus_grammar::submit_pnext(s, at, depth)
}

proof fn lemma_submit_null(s: Seq<u8>, at: int, depth: nat)
    requires
        depth < 8,
        venus_encodings::stands(s, at, bytes::le64(0)),
    ensures
        s.len() <= usize::MAX || submit_chain_end(s, at, depth) is Ok ==> submit_chain_end(
            s,
            at,
            depth,
        ) == Ok::<int, VenusReject>(at + 8),
{
    reveal(submit_chain_end);
    venus_encodings::lemma_stands_word64(s, at, 0);
}

proof fn lemma_submit_first(s: Seq<u8>, at: int, depth: nat)
    requires
        submit_chain_end(s, at, depth) is Ok,
    ensures
        depth < 8,
        venus_grammar::pointer(s, at) is Ok,
        venus_grammar::pointer(s, at)->Ok_0.0 ==> venus_grammar::u32_at(
            s,
            venus_grammar::pointer(s, at)->Ok_0.1,
        ) is Ok,
{
    reveal(submit_chain_end);
}

proof fn lemma_submit_link(s: Seq<u8>, at: int, depth: nat)
    requires
        depth < 8,
        venus_grammar::pointer(s, at) matches Ok((true, p)) && p == at + 8,
        venus_grammar::u32_at(s, at + 8) is Ok,
    ensures
        ({
            let (tag, q) = venus_grammar::u32_at(s, at + 8)->Ok_0;
            match submit_chain_end(s, q, depth + 1) {
                Ok(r) => submit_chain_end(s, at, depth) == submit_fields_end(s, r, tag),
                Err(_) => submit_chain_end(s, at, depth) is Err,
            }
        }),
{
    reveal(submit_fields_end);
    reveal(submit_chain_end);
}

proof fn lemma_submit_fields(s: Seq<u8>, at: int, l: SubmitLink)
    requires
        venus_encodings::stands(s, at, submit_fields(l)),
        is_submit_link(l),
        s.len() <= usize::MAX,
    ensures
        submit_fields_end(s, at, submit_tag(l)) == Ok::<int, VenusReject>(
            at + submit_fields(l).len(),
        ),
{
    broadcast use group_parts;
    reveal(submit_fields_end);
    venus_encodings::lemma_stands_inside(s, at, submit_fields(l));
    match l {
        SubmitLink::DeviceGroup { first, second, third } => {
            lemma_array(s, at, first, 4);
            lemma_array(s, at + array_bytes(first).len(), second, 4);
            lemma_array(
                s,
                at + array_bytes(first).len() + array_bytes(second).len(),
                third,
                4,
            );
        },
        SubmitLink::Protected { .. } => {},
        SubmitLink::Timeline { waits, signals } => {
            lemma_array(s, at, waits, 8);
            lemma_array(s, at + array_bytes(waits).len(), signals, 8);
        },
    }
}

/// What a chain with a first link is made of.
proof fn lemma_submit_chain_parts(s: Seq<u8>, at: int, links: Seq<SubmitLink>)
    requires
        links.len() > 0,
    ensures
        venus_encodings::stands(s, at, submit_chain(links)) <==> (venus_encodings::stands(
            s,
            at,
            bytes::le64(1),
        ) && venus_encodings::stands(s, at + 8, bytes::le32(submit_tag(links[0])))
            && venus_encodings::stands(s, at + 12, submit_chain(links.skip(1)))
            && venus_encodings::stands(
            s,
            at + 12 + submit_chain(links.skip(1)).len(),
            submit_fields(links[0]),
        )),
        submit_chain(links).len() == 12 + submit_chain(links.skip(1)).len() + submit_fields(
            links[0],
        ).len(),
{
    broadcast use group_parts;
}

#[verifier::spinoff_prover]
proof fn lemma_submit_chain(s: Seq<u8>, at: int, links: Seq<SubmitLink>, depth: nat)
    requires
        venus_encodings::stands(s, at, submit_chain(links)),
        are_submit_links(links, 7 - depth),
        s.len() <= usize::MAX,
    ensures
        submit_chain_end(s, at, depth) == Ok::<int, VenusReject>(
            at + submit_chain(links).len(),
        ),
    decreases links.len(),
{
    if links.len() > 0 {
        let rest = links.skip(1);
        assert(are_submit_links(rest, 7 - (depth + 1)));
        lemma_submit_chain_parts(s, at, links);
        lemma_submit_chain(s, at + 12, rest, depth + 1);
        lemma_submit_fields(s, at + 12 + submit_chain(rest).len(), links[0]);
        lemma_marker_and_tag(s, at, submit_tag(links[0]));
        lemma_submit_link(s, at, depth);
    } else {
        lemma_submit_null(s, at, depth);
    }
}

proof fn lemma_marker_and_tag(s: Seq<u8>, at: int, tag: u32)
    requires
        venus_encodings::stands(s, at, bytes::le64(1)),
        venus_encodings::stands(s, at + 8, bytes::le32(tag)),
        s.len() <= usize::MAX,
    ensures
        venus_grammar::pointer(s, at) == Ok::<(bool, int), VenusReject>((true, at + 8)),
        venus_grammar::u32_at(s, at + 8) == Ok::<(u32, int), VenusReject>((tag, at + 12)),
{
    venus_encodings::lemma_stands_word64(s, at, 1);
    venus_encodings::lemma_stands_word32(s, at + 8, tag);
}

/// The link whose fields were read.
proof fn lemma_submit_fields_read(s: Seq<u8>, at: int, tag: u32) -> (l: SubmitLink)
    requires
        0 <= at,
        submit_fields_end(s, at, tag) is Ok,
    ensures
        submit_tag(l) == tag,
        is_submit_link(l),
        venus_encodings::stands(s, at, submit_fields(l)),
        submit_fields_end(s, at, tag) == Ok::<int, VenusReject>(at + submit_fields(l).len()),
{
    broadcast use group_parts;
    reveal(submit_fields_end);
    if tag == 1_000_060_005 {
        let first = lemma_array_read(s, at, 4);
        let p = at + array_bytes(first).len();
        let second = lemma_array_read(s, p, 4);
        let third = lemma_array_read(s, p + array_bytes(second).len(), 4);
        SubmitLink::DeviceGroup { first, second, third }
    } else if tag == 1_000_145_000 {
        SubmitLink::Protected { word: bytes::word32(s, at) }
    } else {
        let waits = lemma_array_read(s, at, 8);
        let signals = lemma_array_read(s, at + array_bytes(waits).len(), 8);
        SubmitLink::Timeline { waits, signals }
    }
}

/// The marker that was read, and behind a marker that is not null the tag.
proof fn lemma_marker_read(s: Seq<u8>, at: int)
    requires
        0 <= at,
        venus_grammar::pointer(s, at) is Ok,
    ensures
        ({
            let (present, p) = venus_grammar::pointer(s, at)->Ok_0;
            &&& p == at + 8
            &&& venus_encodings::stands(
                s,
                at,
                bytes::le64(
                    if present {
                        1
                    } else {
                        0
                    },
                ),
            )
            &&& venus_grammar::u32_at(s, p) matches Ok((tag, q)) ==> q == p + 4
                && venus_encodings::stands(s, p, bytes::le32(tag))
        }),
{
    broadcast use venus_encodings::group_stands;
}

#[verifier::spinoff_prover]
proof fn lemma_submit_chain_read(s: Seq<u8>, at: int, depth: nat) -> (links: Seq<SubmitLink>)
    requires
        0 <= at,
        submit_chain_end(s, at, depth) is Ok,
    ensures
        venus_encodings::stands(s, at, submit_chain(links)),
        are_submit_links(links, 7 - depth),
        submit_chain_end(s, at, depth) == Ok::<int, VenusReject>(
            at + submit_chain(links).len(),
        ),
    decreases 8 - depth,
{
    lemma_submit_first(s, at, depth);
    lemma_marker_read(s, at);
    let (present, p) = venus_grammar::pointer(s, at)->Ok_0;
    if !present {
        assert(submit_chain(Seq::empty()).len() == 8);
        lemma_submit_null(s, at, depth);
        Seq::empty()
    } else {
        let (tag, q) = venus_grammar::u32_at(s, p)->Ok_0;
        lemma_submit_link(s, at, depth);
        let rest = lemma_submit_chain_read(s, q, depth + 1);
        let l = lemma_submit_fields_read(s, q + submit_chain(rest).len(), tag);
        let links = seq![l] + rest;
        assert(links.skip(1) =~= rest);
        lemma_submit_chain_parts(s, at, links);
        assert forall|i: int| 0 <= i < links.len() implies is_submit_link(
            #[trigger] links[i],
        ) by {
            if i > 0 {
                assert(links[i] == rest[i - 1]);
            }
        }
        links
    }
}

/// One link of the chain of a sparse binding.
pub enum BindLink {
    DeviceGroup { resource: u32, memory: u32 },
    Timeline { waits: Elements, signals: Elements },
}

pub open spec fn bind_tag(l: BindLink) -> u32 {
    match l {
        BindLink::DeviceGroup { .. } => 1_000_060_006,
        BindLink::Timeline { .. } => 1_000_207_003,
    }
}

pub open spec fn bind_fields(l: BindLink) -> Seq<u8> {
    match l {
        BindLink::DeviceGroup { resource, memory } => bytes::le32(resource) + bytes::le32(memory),
        BindLink::Timeline { waits, signals } => array_bytes(waits) + array_bytes(signals),
    }
}

pub open spec fn is_bind_link(l: BindLink) -> bool {
    match l {
        BindLink::DeviceGroup { .. } => true,
        BindLink::Timeline { waits, signals } => has_stride(waits, 8) && has_stride(signals, 8),
    }
}

pub open spec fn bind_chain(links: Seq<BindLink>) -> Seq<u8>
    decreases links.len(),
{
    if links.len() == 0 {
        bytes::le64(0)
    } else {
        bytes::le64(1) + bytes::le32(bind_tag(links[0])) + bind_chain(links.skip(1)) + bind_fields(
            links[0],
        )
    }
}

pub open spec fn are_bind_links(links: Seq<BindLink>, most: int) -> bool {
    &&& links.len() <= most
    &&& forall|i: int| 0 <= i < links.len() ==> is_bind_link(#[trigger] links[i])
}

/// Where the fields of the link with this tag end.
#[verifier::opaque]
spec fn bind_fields_end(s: Seq<u8>, at: int, tag: u32) -> Result<int, VenusReject> {
    if tag == 1_000_060_006 {
        venus_grammar::skip(s, at, 8)
    } else if tag == 1_000_207_003 {
        venus_grammar::timeline_body(s, at)
    } else {
        Err(VenusReject::UnsupportedChain)
    }
}

proof fn lemma_bind_link(s: Seq<u8>, at: int, depth: nat)
    requires
        depth < 8,
        venus_grammar::pointer(s, at) matches Ok((true, p)) && p == at + 8,
        venus_grammar::u32_at(s, at + 8) is Ok,
    ensures
        ({
            let (tag, q) = venus_grammar::u32_at(s, at + 8)->Ok_0;
            match venus_grammar::bind_pnext(s, q, depth + 1) {
                Ok(r) => venus_grammar::bind_pnext(s, at, depth) == bind_fields_end(s, r, tag),
                Err(_) => venus_grammar::bind_pnext(s, at, depth) is Err,
            }
        }),
{
    reveal(bind_fields_end);
}

proof fn lemma_bind_fields(s: Seq<u8>, at: int, l: BindLink)
    requires
        venus_encodings::stands(s, at, bind_fields(l)),
        is_bind_link(l),
        s.len() <= usize::MAX,
    ensures
        bind_fields_end(s, at, bind_tag(l)) == Ok::<int, VenusReject>(at + bind_fields(l).len()),
{
    broadcast use group_parts;
    reveal(bind_fields_end);
    venus_encodings::lemma_stands_inside(s, at, bind_fields(l));
    if let BindLink::Timeline { waits, signals } = l {
        lemma_array(s, at, waits, 8);
        lemma_array(s, at + array_bytes(waits).len(), signals, 8);
    }
}

proof fn lemma_bind_fields_read(s: Seq<u8>, at: int, tag: u32) -> (l: BindLink)
    requires
        0 <= at,
        bind_fields_end(s, at, tag) is Ok,
    ensures
        bind_tag(l) == tag,
        is_bind_link(l),
        venus_encodings::stands(s, at, bind_fields(l)),
        bind_fields_end(s, at, tag) == Ok::<int, VenusReject>(at + bind_fields(l).len()),
{
    broadcast use group_parts;
    reveal(bind_fields_end);
    if tag == 1_000_060_006 {
        BindLink::DeviceGroup { resource: bytes::word32(s, at), memory: bytes::word32(s, at + 4) }
    } else {
        let waits = lemma_array_read(s, at, 8);
        let signals = lemma_array_read(s, at + array_bytes(waits).len(), 8);
        BindLink::Timeline { waits, signals }
    }
}

proof fn lemma_bind_chain_parts(s: Seq<u8>, at: int, links: Seq<BindLink>)
    requires
        links.len() > 0,
    ensures
        venus_encodings::stands(s, at, bind_chain(links)) <==> (venus_encodings::stands(
            s,
            at,
            bytes::le64(1),
        ) && venus_encodings::stands(s, at + 8, bytes::le32(bind_tag(links[0])))
            && venus_encodings::stands(s, at + 12, bind_chain(links.skip(1)))
            && venus_encodings::stands(
            s,
            at + 12 + bind_chain(links.skip(1)).len(),
            bind_fields(links[0]),
        )),
        bind_chain(links).len() == 12 + bind_chain(links.skip(1)).len() + bind_fields(
            links[0],
        ).len(),
{
    broadcast use group_parts;
}

#[verifier::spinoff_prover]
proof fn lemma_bind_chain(s: Seq<u8>, at: int, links: Seq<BindLink>, depth: nat)
    requires
        venus_encodings::stands(s, at, bind_chain(links)),
        are_bind_links(links, 7 - depth),
        s.len() <= usize::MAX,
    ensures
        venus_grammar::bind_pnext(s, at, depth) == Ok::<int, VenusReject>(
            at + bind_chain(links).len(),
        ),
    decreases links.len(),
{
    if links.len() > 0 {
        let rest = links.skip(1);
        assert(are_bind_links(rest, 7 - (depth + 1)));
        lemma_bind_chain_parts(s, at, links);
        lemma_bind_chain(s, at + 12, rest, depth + 1);
        lemma_bind_fields(s, at + 12 + bind_chain(rest).len(), links[0]);
        lemma_marker_and_tag(s, at, bind_tag(links[0]));
        lemma_bind_link(s, at, depth);
    } else {
        venus_encodings::lemma_stands_word64(s, at, 0);
    }
}

#[verifier::spinoff_prover]
proof fn lemma_bind_chain_read(s: Seq<u8>, at: int, depth: nat) -> (links: Seq<BindLink>)
    requires
        0 <= at,
        venus_grammar::bind_pnext(s, at, depth) is Ok,
    ensures
        venus_encodings::stands(s, at, bind_chain(links)),
        are_bind_links(links, 7 - depth),
        venus_grammar::bind_pnext(s, at, depth) == Ok::<int, VenusReject>(
            at + bind_chain(links).len(),
        ),
    decreases 8 - depth,
{
    lemma_marker_read(s, at);
    let (present, p) = venus_grammar::pointer(s, at)->Ok_0;
    if !present {
        assert(bind_chain(Seq::empty()).len() == 8);
        Seq::empty()
    } else {
        let (tag, q) = venus_grammar::u32_at(s, p)->Ok_0;
        lemma_bind_link(s, at, depth);
        let rest = lemma_bind_chain_read(s, q, depth + 1);
        let l = lemma_bind_fields_read(s, q + bind_chain(rest).len(), tag);
        let links = seq![l] + rest;
        assert(links.skip(1) =~= rest);
        lemma_bind_chain_parts(s, at, links);
        assert forall|i: int| 0 <= i < links.len() implies is_bind_link(#[trigger] links[i]) by {
            if i > 0 {
                assert(links[i] == rest[i - 1]);
            }
        }
        links
    }
}

/// The byte strings of a class are exactly those that `item` reads.
spec fn recognizes(
    item: spec_fn(Seq<u8>, int) -> Result<int, VenusReject>,
    class: spec_fn(Seq<u8>) -> bool,
) -> bool {
    &&& forall|s: Seq<u8>, at: int, part: Seq<u8>|
        #![trigger class(part), venus_encodings::stands(s, at, part)]
        class(part) && venus_encodings::stands(s, at, part) && s.len() <= usize::MAX ==> part.len()
            >= 4 && item(s, at) == Ok::<int, VenusReject>(at + part.len())
    &&& forall|s: Seq<u8>, at: int|
        0 <= at && (#[trigger] item(s, at)) is Ok ==> exists|part: Seq<u8>|
            class(part) && #[trigger] venus_encodings::stands(s, at, part) && item(s, at) == Ok::<
                int,
                VenusReject,
            >(at + part.len())
}

/// The parts one behind the other.
pub open spec fn joined(parts: Seq<Seq<u8>>) -> Seq<u8>
    decreases parts.len(),
{
    if parts.len() == 0 {
        Seq::empty()
    } else {
        parts[0] + joined(parts.skip(1))
    }
}

/// The bytes of a list: the count of its parts, a marker that repeats the count, and the
/// parts.
#[verifier::opaque]
pub open spec fn list_bytes(parts: Seq<Seq<u8>>) -> Seq<u8> {
    bytes::le32(parts.len() as u32) + bytes::le64(parts.len() as u64) + joined(parts)
}

/// Every part is of the class, and the count of the parts fits its word.
pub open spec fn are_all(parts: Seq<Seq<u8>>, class: spec_fn(Seq<u8>) -> bool) -> bool {
    parts.len() <= u32::MAX && forall|i: int| 0 <= i < parts.len() ==> class(#[trigger] parts[i])
}

proof fn lemma_repeated(
    s: Seq<u8>,
    at: int,
    parts: Seq<Seq<u8>>,
    item: spec_fn(Seq<u8>, int) -> Result<int, VenusReject>,
    class: spec_fn(Seq<u8>) -> bool,
)
    requires
        recognizes(item, class),
        are_all(parts, class),
        venus_encodings::stands(s, at, joined(parts)),
        s.len() <= usize::MAX,
    ensures
        venus_grammar::repeated(s, at, parts.len(), item) == Ok::<int, VenusReject>(
            at + joined(parts).len(),
        ),
        joined(parts).len() >= 4 * parts.len(),
    decreases parts.len(),
{
    if parts.len() > 0 {
        let rest = parts.skip(1);
        venus_encodings::lemma_stands_both(s, at, parts[0], joined(rest));
        assert(class(parts[0]));
        assert(are_all(rest, class));
        lemma_repeated(s, at + parts[0].len(), rest, item, class);
    }
}

proof fn lemma_list(
    s: Seq<u8>,
    at: int,
    parts: Seq<Seq<u8>>,
    item: spec_fn(Seq<u8>, int) -> Result<int, VenusReject>,
    class: spec_fn(Seq<u8>) -> bool,
)
    requires
        recognizes(item, class),
        are_all(parts, class),
        venus_encodings::stands(s, at, list_bytes(parts)),
        s.len() <= usize::MAX,
    ensures
        venus_grammar::counted_items(s, at, item) == Ok::<int, VenusReject>(
            at + list_bytes(parts).len(),
        ),
{
    broadcast use venus_encodings::group_stands;
    reveal(list_bytes);
    lemma_repeated(s, at + 12, parts, item, class);
    venus_encodings::lemma_stands_inside(s, at, list_bytes(parts));
}

proof fn lemma_repeated_read(
    s: Seq<u8>,
    at: int,
    n: nat,
    item: spec_fn(Seq<u8>, int) -> Result<int, VenusReject>,
    class: spec_fn(Seq<u8>) -> bool,
) -> (parts: Seq<Seq<u8>>)
    requires
        recognizes(item, class),
        0 <= at <= s.len(),
        n <= u32::MAX,
        venus_grammar::repeated(s, at, n, item) is Ok,
    ensures
        parts.len() == n,
        are_all(parts, class),
        venus_encodings::stands(s, at, joined(parts)),
        venus_grammar::repeated(s, at, n, item) == Ok::<int, VenusReject>(
            at + joined(parts).len(),
        ),
    decreases n,
{
    if n == 0 {
        reveal(venus_encodings::stands);
        assert(s.subrange(at, at) =~= Seq::empty());
        Seq::empty()
    } else {
        assert(item(s, at) is Ok);
        let part = choose|part: Seq<u8>|
            class(part) && #[trigger] venus_encodings::stands(s, at, part) && item(s, at) == Ok::<
                int,
                VenusReject,
            >(at + part.len());
        venus_encodings::lemma_stands_inside(s, at, part);
        let rest = lemma_repeated_read(s, at + part.len(), (n - 1) as nat, item, class);
        let parts = seq![part] + rest;
        assert(parts.skip(1) =~= rest);
        venus_encodings::lemma_stands_both(s, at, part, joined(rest));
        assert forall|i: int| 0 <= i < parts.len() implies class(#[trigger] parts[i]) by {
            if i > 0 {
                assert(parts[i] == rest[i - 1]);
            }
        }
        parts
    }
}

proof fn lemma_list_read(
    s: Seq<u8>,
    at: int,
    item: spec_fn(Seq<u8>, int) -> Result<int, VenusReject>,
    class: spec_fn(Seq<u8>) -> bool,
) -> (parts: Seq<Seq<u8>>)
    requires
        recognizes(item, class),
        0 <= at,
        venus_grammar::counted_items(s, at, item) is Ok,
    ensures
        are_all(parts, class),
        venus_encodings::stands(s, at, list_bytes(parts)),
        venus_grammar::counted_items(s, at, item) == Ok::<int, VenusReject>(
            at + list_bytes(parts).len(),
        ),
{
    broadcast use venus_encodings::group_stands;
    reveal(list_bytes);
    let n = bytes::word32(s, at);
    let parts = lemma_repeated_read(s, at + 12, n as nat, item, class);
    parts
}

/// A semaphore of a second-form submission: its tag, no chain, then handle, value, stages
/// and device.
pub open spec fn semaphore_bytes(handle: u64, value: u64, stages: u64, device: u32) -> Seq<u8> {
    bytes::le32(1_000_314_005) + bytes::le64(0) + bytes::le64(handle) + bytes::le64(value)
        + bytes::le64(stages) + bytes::le32(device)
}

pub open spec fn is_semaphore(part: Seq<u8>) -> bool {
    exists|handle: u64, value: u64, stages: u64, device: u32|
        part == #[trigger] semaphore_bytes(handle, value, stages, device)
}

/// A command buffer of a second-form submission: its tag, no chain, then handle and
/// device mask.
pub open spec fn buffer_bytes(handle: u64, mask: u32) -> Seq<u8> {
    bytes::le32(1_000_314_006) + bytes::le64(0) + bytes::le64(handle) + bytes::le32(mask)
}

pub open spec fn is_buffer(part: Seq<u8>) -> bool {
    exists|handle: u64, mask: u32| part == #[trigger] buffer_bytes(handle, mask)
}

/// An object that is bound sparsely: its handle, and its binds.
pub open spec fn sparse_bytes(handle: u64, binds: Elements) -> Seq<u8> {
    bytes::le64(handle) + array_bytes(binds)
}

pub open spec fn is_sparse(part: Seq<u8>, stride: int) -> bool {
    exists|handle: u64, binds: Elements|
        has_stride(binds, stride) && part == #[trigger] sparse_bytes(handle, binds)
}

pub open spec fn semaphores() -> spec_fn(Seq<u8>) -> bool {
    |part: Seq<u8>| is_semaphore(part)
}

pub open spec fn buffers() -> spec_fn(Seq<u8>) -> bool {
    |part: Seq<u8>| is_buffer(part)
}

pub open spec fn sparse_objects(stride: int) -> spec_fn(Seq<u8>) -> bool {
    |part: Seq<u8>| is_sparse(part, stride)
}

proof fn lemma_semaphores()
    ensures
        recognizes(venus_grammar::semaphore_item(), semaphores()),
{
    let item = venus_grammar::semaphore_item();
    let class = semaphores();
    assert forall|s: Seq<u8>, at: int, part: Seq<u8>|
        #![trigger class(part), venus_encodings::stands(s, at, part)]
        class(part) && venus_encodings::stands(s, at, part) && s.len()
            <= usize::MAX implies part.len() >= 4 && item(s, at) == Ok::<int, VenusReject>(
        at + part.len(),
    ) by {
        broadcast use venus_encodings::group_stands;

    }
    assert forall|s: Seq<u8>, at: int| 0 <= at && (#[trigger] item(s, at)) is Ok implies exists|
        part: Seq<u8>,
    |
        class(part) && #[trigger] venus_encodings::stands(s, at, part) && item(s, at) == Ok::<
            int,
            VenusReject,
        >(at + part.len()) by {
        broadcast use venus_encodings::group_stands;

        let part = semaphore_bytes(
            bytes::word64(s, at + 12),
            bytes::word64(s, at + 20),
            bytes::word64(s, at + 28),
            bytes::word32(s, at + 36),
        );
        assert(class(part) && venus_encodings::stands(s, at, part));
    }
}

proof fn lemma_buffers()
    ensures
        recognizes(venus_grammar::command_buffer_item(), buffers()),
{
    let item = venus_grammar::command_buffer_item();
    let class = buffers();
    assert forall|s: Seq<u8>, at: int, part: Seq<u8>|
        #![trigger class(part), venus_encodings::stands(s, at, part)]
        class(part) && venus_encodings::stands(s, at, part) && s.len()
            <= usize::MAX implies part.len() >= 4 && item(s, at) == Ok::<int, VenusReject>(
        at + part.len(),
    ) by {
        broadcast use venus_encodings::group_stands;

    }
    assert forall|s: Seq<u8>, at: int| 0 <= at && (#[trigger] item(s, at)) is Ok implies exists|
        part: Seq<u8>,
    |
        class(part) && #[trigger] venus_encodings::stands(s, at, part) && item(s, at) == Ok::<
            int,
            VenusReject,
        >(at + part.len()) by {
        broadcast use venus_encodings::group_stands;

        let part = buffer_bytes(bytes::word64(s, at + 12), bytes::word32(s, at + 20));
        assert(class(part) && venus_encodings::stands(s, at, part));
    }
}

proof fn lemma_sparse_objects(stride: int)
    requires
        stride == 36 || stride == 56,
    ensures
        recognizes(venus_grammar::sparse_item(stride), sparse_objects(stride)),
{
    let item = venus_grammar::sparse_item(stride);
    let class = sparse_objects(stride);
    assert forall|s: Seq<u8>, at: int, part: Seq<u8>|
        #![trigger class(part), venus_encodings::stands(s, at, part)]
        class(part) && venus_encodings::stands(s, at, part) && s.len()
            <= usize::MAX implies part.len() >= 4 && item(s, at) == Ok::<int, VenusReject>(
        at + part.len(),
    ) by {
        broadcast use group_parts;

        let (handle, binds) = choose|handle: u64, binds: Elements|
            has_stride(binds, stride) && part == #[trigger] sparse_bytes(handle, binds);
        lemma_array(s, at + 8, binds, stride);
    }
    assert forall|s: Seq<u8>, at: int| 0 <= at && (#[trigger] item(s, at)) is Ok implies exists|
        part: Seq<u8>,
    |
        class(part) && #[trigger] venus_encodings::stands(s, at, part) && item(s, at) == Ok::<
            int,
            VenusReject,
        >(at + part.len()) by {
        broadcast use group_parts;

        let binds = lemma_array_read(s, at + 8, stride);
        let part = sparse_bytes(bytes::word64(s, at), binds);
        assert(class(part) && venus_encodings::stands(s, at, part));
    }
}

/// One submission: waits with the stages that they hold up, command buffers, signals.
pub struct Submission {
    pub links: Seq<SubmitLink>,
    pub wait_count: u32,
    pub waits: Seq<u8>,
    pub stages: Seq<u8>,
    pub buffers: Elements,
    pub signals: Elements,
}

pub open spec fn submission_bytes(x: Submission) -> Seq<u8> {
    bytes::le32(4) + submit_chain(x.links) + (bytes::le32(x.wait_count) + bytes::le64(
        x.wait_count as u64,
    ) + x.waits + bytes::le64(x.wait_count as u64) + x.stages) + array_bytes(x.buffers)
        + array_bytes(x.signals)
}

pub open spec fn is_submission(x: Submission) -> bool {
    &&& are_submit_links(x.links, 7)
    &&& x.waits.len() == 8 * x.wait_count
    &&& x.stages.len() == 4 * x.wait_count
    &&& has_stride(x.buffers, 8)
    &&& has_stride(x.signals, 8)
}

/// One second-form submission: flags, waits, command buffers, signals.
pub struct Submission2 {
    pub flags: u32,
    pub waits: Seq<Seq<u8>>,
    pub buffers: Seq<Seq<u8>>,
    pub signals: Seq<Seq<u8>>,
}

pub open spec fn submission2_bytes(x: Submission2) -> Seq<u8> {
    bytes::le32(1_000_314_004) + bytes::le64(0) + bytes::le32(x.flags) + list_bytes(x.waits)
        + list_bytes(x.buffers) + list_bytes(x.signals)
}

pub open spec fn is_submission2(x: Submission2) -> bool {
    are_all(x.waits, semaphores()) && are_all(x.buffers, buffers()) && are_all(
        x.signals,
        semaphores(),
    )
}

/// One sparse binding: waits, then bound buffers, opaque images and images, then signals.
pub struct Binding {
    pub links: Seq<BindLink>,
    pub waits: Elements,
    pub buffers: Seq<Seq<u8>>,
    pub opaque_images: Seq<Seq<u8>>,
    pub images: Seq<Seq<u8>>,
    pub signals: Elements,
}

pub open spec fn binding_bytes(x: Binding) -> Seq<u8> {
    bytes::le32(7) + bind_chain(x.links) + array_bytes(x.waits) + list_bytes(x.buffers)
        + list_bytes(x.opaque_images) + list_bytes(x.images) + array_bytes(x.signals)
}

pub open spec fn is_binding(x: Binding) -> bool {
    &&& are_bind_links(x.links, 7)
    &&& has_stride(x.waits, 8)
    &&& are_all(x.buffers, sparse_objects(36))
    &&& are_all(x.opaque_images, sparse_objects(36))
    &&& are_all(x.images, sparse_objects(56))
    &&& has_stride(x.signals, 8)
}

/// The waits of a submission and their stages.
spec fn waits_end(s: Seq<u8>, at: int) -> Result<int, VenusReject> {
    match venus_grammar::bounded_count(s, at) {
        Err(e) => Err(e),
        Ok((waits, r)) => match venus_grammar::elements(s, r, waits, 8) {
            Err(e) => Err(e),
            Ok(t) => venus_grammar::elements(s, t, waits, 4),
        },
    }
}

proof fn lemma_waits(s: Seq<u8>, at: int, count: u32, waits: Seq<u8>, stages: Seq<u8>)
    requires
        venus_encodings::stands(
            s,
            at,
            bytes::le32(count) + bytes::le64(count as u64) + waits + bytes::le64(count as u64)
                + stages,
        ),
        waits.len() == 8 * count,
        stages.len() == 4 * count,
        s.len() <= usize::MAX,
    ensures
        waits_end(s, at) == Ok::<int, VenusReject>(at + 20 + waits.len() + stages.len()),
{
    broadcast use venus_encodings::group_stands;
    venus_encodings::lemma_stands_inside(
        s,
        at,
        bytes::le32(count) + bytes::le64(count as u64) + waits + bytes::le64(count as u64)
            + stages,
    );
}

proof fn lemma_waits_read(s: Seq<u8>, at: int) -> (r: (u32, Seq<u8>, Seq<u8>))
    requires
        0 <= at,
        waits_end(s, at) is Ok,
    ensures
        r.1.len() == 8 * r.0,
        r.2.len() == 4 * r.0,
        venus_encodings::stands(
            s,
            at,
            bytes::le32(r.0) + bytes::le64(r.0 as u64) + r.1 + bytes::le64(r.0 as u64) + r.2,
        ),
        waits_end(s, at) == Ok::<int, VenusReject>(at + 20 + r.1.len() + r.2.len()),
{
    broadcast use venus_encodings::group_stands;
    let count = bytes::word32(s, at);
    let mid = at + 12 + 8 * count;
    venus_encodings::lemma_stands_here(s, at + 12, 8 * count);
    venus_encodings::lemma_stands_here(s, mid + 8, 4 * count);
    (count, s.subrange(at + 12, mid), s.subrange(mid + 8, mid + 8 + 4 * count))
}

/// Where a submission ends.
#[verifier::opaque]
spec fn submission_end(s: Seq<u8>, at: int) -> Result<int, VenusReject> {
    venus_grammar::submit_info(s, at)
}

/// A submission, one production behind the other.
proof fn lemma_submit_info(s: Seq<u8>, at: int)
    ensures
        submission_end(s, at) == match venus_grammar::stype(s, at, 4) {
            Err(e) => Err(e),
            Ok(p) => match submit_chain_end(s, p, 0) {
                Err(e) => Err(e),
                Ok(q) => match waits_end(s, q) {
                    Err(e) => Err(e),
                    Ok(u) => match venus_grammar::counted(s, u, 8) {
                        Err(e) => Err(e),
                        Ok(v) => venus_grammar::counted(s, v, 8),
                    },
                },
            },
        },
{
    reveal(submit_chain_end);
    reveal(submission_end);
}

#[verifier::spinoff_prover]
proof fn lemma_submission(s: Seq<u8>, at: int, x: Submission)
    requires
        venus_encodings::stands(s, at, submission_bytes(x)),
        is_submission(x),
        s.len() <= usize::MAX,
    ensures
        submission_end(s, at) == Ok::<int, VenusReject>(
            at + submission_bytes(x).len(),
        ),
        submission_bytes(x).len() >= 4,
{
    let p = at + 4;
    let q = p + submit_chain(x.links).len();
    let u = q + 20 + x.waits.len() + x.stages.len();
    let v = u + array_bytes(x.buffers).len();
    assert(venus_grammar::stype(s, at, 4) == Ok::<int, VenusReject>(p)
        && venus_encodings::stands(s, p, submit_chain(x.links)) && venus_encodings::stands(
        s,
        q,
        bytes::le32(x.wait_count) + bytes::le64(x.wait_count as u64) + x.waits + bytes::le64(
            x.wait_count as u64,
        ) + x.stages,
    ) && venus_encodings::stands(s, u, array_bytes(x.buffers)) && venus_encodings::stands(
        s,
        v,
        array_bytes(x.signals),
    ) && at + submission_bytes(x).len() == v + array_bytes(x.signals).len()) by {
        broadcast use group_parts;

    }
    lemma_submit_chain(s, p, x.links, 0);
    lemma_waits(s, q, x.wait_count, x.waits, x.stages);
    lemma_array(s, u, x.buffers, 8);
    lemma_array(s, v, x.signals, 8);
    lemma_submit_info(s, at);
}

#[verifier::spinoff_prover]
proof fn lemma_submission_read(s: Seq<u8>, at: int) -> (x: Submission)
    requires
        0 <= at,
        submission_end(s, at) is Ok,
    ensures
        is_submission(x),
        venus_encodings::stands(s, at, submission_bytes(x)),
        submission_end(s, at) == Ok::<int, VenusReject>(
            at + submission_bytes(x).len(),
        ),
{
    lemma_submit_info(s, at);
    let p = at + 4;
    lemma_tag_read(s, at, 4);
    let links = lemma_submit_chain_read(s, p, 0);
    let q = p + submit_chain(links).len();
    let (wait_count, waits, stages) = lemma_waits_read(s, q);
    let u = q + 20 + waits.len() + stages.len();
    let buffers = lemma_array_read(s, u, 8);
    let v = u + array_bytes(buffers).len();
    let signals = lemma_array_read(s, v, 8);
    let x = Submission { links, wait_count, waits, stages, buffers, signals };
    lemma_submission_joined(s, at, x);
    x
}

proof fn lemma_submission_joined(s: Seq<u8>, at: int, x: Submission)
    requires
        ({
            let q = at + 4 + submit_chain(x.links).len();
            let u = q + 20 + x.waits.len() + x.stages.len();
            &&& venus_encodings::stands(s, at, bytes::le32(4))
            &&& venus_encodings::stands(s, at + 4, submit_chain(x.links))
            &&& venus_encodings::stands(
                s,
                q,
                bytes::le32(x.wait_count) + bytes::le64(x.wait_count as u64) + x.waits
                    + bytes::le64(x.wait_count as u64) + x.stages,
            )
            &&& venus_encodings::stands(s, u, array_bytes(x.buffers))
            &&& venus_encodings::stands(
                s,
                u + array_bytes(x.buffers).len(),
                array_bytes(x.signals),
            )
        }),
    ensures
        venus_encodings::stands(s, at, submission_bytes(x)),
        submission_bytes(x).len() == 24 + submit_chain(x.links).len() + x.waits.len()
            + x.stages.len() + array_bytes(x.buffers).len() + array_bytes(x.signals).len(),
{
    broadcast use group_parts;
}

proof fn lemma_tag_read(s: Seq<u8>, at: int, tag: u32)
    requires
        0 <= at,
        venus_grammar::stype(s, at, tag) is Ok,
    ensures
        venus_grammar::stype(s, at, tag) == Ok::<int, VenusReject>(at + 4),
        venus_encodings::stands(s, at, bytes::le32(tag)),
{
    broadcast use venus_encodings::group_stands;
}

#[verifier::spinoff_prover]
proof fn lemma_submission2(s: Seq<u8>, at: int, x: Submission2)
    requires
        venus_encodings::stands(s, at, submission2_bytes(x)),
        is_submission2(x),
        s.len() <= usize::MAX,
    ensures
        venus_grammar::submit_info2(s, at) == Ok::<int, VenusReject>(
            at + submission2_bytes(x).len(),
        ),
        submission2_bytes(x).len() >= 4,
{
    let r = at + 16;
    let t = r + list_bytes(x.waits).len();
    let u = t + list_bytes(x.buffers).len();
    assert(venus_grammar::stype(s, at, 1_000_314_004) == Ok::<int, VenusReject>(at + 4)
        && venus_grammar::leaf_pnext(s, at + 4) == Ok::<int, VenusReject>(at + 12)
        && venus_grammar::skip(s, at + 12, 4) == Ok::<int, VenusReject>(r)
        && venus_encodings::stands(s, r, list_bytes(x.waits)) && venus_encodings::stands(
        s,
        t,
        list_bytes(x.buffers),
    ) && venus_encodings::stands(s, u, list_bytes(x.signals)) && at + submission2_bytes(x).len()
        == u + list_bytes(x.signals).len()) by {
        broadcast use group_parts;

    }
    lemma_semaphores();
    lemma_buffers();
    lemma_list(s, r, x.waits, venus_grammar::semaphore_item(), semaphores());
    lemma_list(s, t, x.buffers, venus_grammar::command_buffer_item(), buffers());
    lemma_list(s, u, x.signals, venus_grammar::semaphore_item(), semaphores());
}

#[verifier::spinoff_prover]
proof fn lemma_submission2_read(s: Seq<u8>, at: int) -> (x: Submission2)
    requires
        0 <= at,
        venus_grammar::submit_info2(s, at) is Ok,
    ensures
        is_submission2(x),
        venus_encodings::stands(s, at, submission2_bytes(x)),
        venus_grammar::submit_info2(s, at) == Ok::<int, VenusReject>(
            at + submission2_bytes(x).len(),
        ),
{
    let r = at + 16;
    let flags = bytes::word32(s, at + 12);
    lemma_submission2_head(s, at);
    reveal(second_form_lists);
    lemma_semaphores();
    lemma_buffers();
    let waits = lemma_list_read(s, r, venus_grammar::semaphore_item(), semaphores());
    let t = r + list_bytes(waits).len();
    let bufs = lemma_list_read(s, t, venus_grammar::command_buffer_item(), buffers());
    let u = t + list_bytes(bufs).len();
    let signals = lemma_list_read(s, u, venus_grammar::semaphore_item(), semaphores());
    let x = Submission2 { flags, waits, buffers: bufs, signals };
    lemma_submission2_joined(s, at, x);
    x
}

proof fn lemma_submission2_head(s: Seq<u8>, at: int)
    requires
        0 <= at,
        venus_grammar::submit_info2(s, at) is Ok,
    ensures
        venus_encodings::stands(
            s,
            at,
            bytes::le32(1_000_314_004) + bytes::le64(0) + bytes::le32(bytes::word32(s, at + 12)),
        ),
        venus_grammar::submit_info2(s, at) == second_form_lists(s, at + 16),
{
    broadcast use venus_encodings::group_stands;
    reveal(second_form_lists);
    assert(venus_grammar::stype(s, at, 1_000_314_004) == Ok::<int, VenusReject>(at + 4));
    assert(venus_grammar::leaf_pnext(s, at + 4) == Ok::<int, VenusReject>(at + 12));
    assert(venus_grammar::skip(s, at + 12, 4) == Ok::<int, VenusReject>(at + 16));
}

/// The three lists of a second-form submission.
#[verifier::opaque]
spec fn second_form_lists(s: Seq<u8>, at: int) -> Result<int, VenusReject> {
    match venus_grammar::counted_items(s, at, venus_grammar::semaphore_item()) {
        Err(e) => Err(e),
        Ok(t) => match venus_grammar::counted_items(s, t, venus_grammar::command_buffer_item()) {
            Err(e) => Err(e),
            Ok(u) => venus_grammar::counted_items(s, u, venus_grammar::semaphore_item()),
        },
    }
}

proof fn lemma_submission2_joined(s: Seq<u8>, at: int, x: Submission2)
    requires
        venus_encodings::stands(
            s,
            at,
            bytes::le32(1_000_314_004) + bytes::le64(0) + bytes::le32(x.flags),
        ),
        venus_encodings::stands(s, at + 16, list_bytes(x.waits)),
        venus_encodings::stands(s, at + 16 + list_bytes(x.waits).len(), list_bytes(x.buffers)),
        venus_encodings::stands(
            s,
            at + 16 + list_bytes(x.waits).len() + list_bytes(x.buffers).len(),
            list_bytes(x.signals),
        ),
    ensures
        venus_encodings::stands(s, at, submission2_bytes(x)),
        submission2_bytes(x).len() == 16 + list_bytes(x.waits).len() + list_bytes(x.buffers).len()
            + list_bytes(x.signals).len(),
{
    broadcast use group_parts;
}

#[verifier::spinoff_prover]
proof fn lemma_binding(s: Seq<u8>, at: int, x: Binding)
    requires
        venus_encodings::stands(s, at, binding_bytes(x)),
        is_binding(x),
        s.len() <= usize::MAX,
    ensures
        venus_grammar::bind_sparse_info(s, at) == Ok::<int, VenusReject>(
            at + binding_bytes(x).len(),
        ),
        binding_bytes(x).len() >= 4,
{
    let p = at + 4;
    let q = p + bind_chain(x.links).len();
    let r = q + array_bytes(x.waits).len();
    let t = r + list_bytes(x.buffers).len();
    let u = t + list_bytes(x.opaque_images).len();
    let v = u + list_bytes(x.images).len();
    assert(venus_grammar::stype(s, at, 7) == Ok::<int, VenusReject>(p)
        && venus_encodings::stands(s, p, bind_chain(x.links)) && venus_encodings::stands(
        s,
        q,
        array_bytes(x.waits),
    ) && venus_encodings::stands(s, r, list_bytes(x.buffers)) && venus_encodings::stands(
        s,
        t,
        list_bytes(x.opaque_images),
    ) && venus_encodings::stands(s, u, list_bytes(x.images)) && venus_encodings::stands(
        s,
        v,
        array_bytes(x.signals),
    ) && at + binding_bytes(x).len() == v + array_bytes(x.signals).len()) by {
        broadcast use group_parts;

    }
    lemma_bind_chain(s, p, x.links, 0);
    lemma_array(s, q, x.waits, 8);
    lemma_sparse_objects(36);
    lemma_sparse_objects(56);
    lemma_list(s, r, x.buffers, venus_grammar::sparse_item(36), sparse_objects(36));
    lemma_list(s, t, x.opaque_images, venus_grammar::sparse_item(36), sparse_objects(36));
    lemma_list(s, u, x.images, venus_grammar::sparse_item(56), sparse_objects(56));
    lemma_array(s, v, x.signals, 8);
}

#[verifier::spinoff_prover]
proof fn lemma_binding_read(s: Seq<u8>, at: int) -> (x: Binding)
    requires
        0 <= at,
        venus_grammar::bind_sparse_info(s, at) is Ok,
    ensures
        is_binding(x),
        venus_encodings::stands(s, at, binding_bytes(x)),
        venus_grammar::bind_sparse_info(s, at) == Ok::<int, VenusReject>(
            at + binding_bytes(x).len(),
        ),
{
    let p = at + 4;
    lemma_binding_head(s, at);
    reveal(binding_parts);
    lemma_sparse_objects(36);
    lemma_sparse_objects(56);
    let links = lemma_bind_chain_read(s, p, 0);
    let q = p + bind_chain(links).len();
    let waits = lemma_array_read(s, q, 8);
    let r = q + array_bytes(waits).len();
    let bufs = lemma_list_read(s, r, venus_grammar::sparse_item(36), sparse_objects(36));
    let t = r + list_bytes(bufs).len();
    let opaque_images = lemma_list_read(s, t, venus_grammar::sparse_item(36), sparse_objects(36));
    let u = t + list_bytes(opaque_images).len();
    let images = lemma_list_read(s, u, venus_grammar::sparse_item(56), sparse_objects(56));
    let v = u + list_bytes(images).len();
    let signals = lemma_array_read(s, v, 8);
    let x = Binding { links, waits, buffers: bufs, opaque_images, images, signals };
    lemma_binding_joined(s, at, x);
    x
}

/// What follows the chain of a sparse binding.
#[verifier::opaque]
spec fn binding_parts(s: Seq<u8>, at: int) -> Result<int, VenusReject> {
    match venus_grammar::counted(s, at, 8) {
        Err(e) => Err(e),
        Ok(r) => match venus_grammar::counted_items(s, r, venus_grammar::sparse_item(36)) {
            Err(e) => Err(e),
            Ok(t) => match venus_grammar::counted_items(s, t, venus_grammar::sparse_item(36)) {
                Err(e) => Err(e),
                Ok(u) => match venus_grammar::counted_items(
                    s,
                    u,
                    venus_grammar::sparse_item(56),
                ) {
                    Err(e) => Err(e),
                    Ok(v) => venus_grammar::counted(s, v, 8),
                },
            },
        },
    }
}

proof fn lemma_binding_head(s: Seq<u8>, at: int)
    requires
        0 <= at,
        venus_grammar::bind_sparse_info(s, at) is Ok,
    ensures
        venus_encodings::stands(s, at, bytes::le32(7)),
        venus_grammar::bind_pnext(s, at + 4, 0) is Ok,
        venus_grammar::bind_sparse_info(s, at) == binding_parts(
            s,
            venus_grammar::bind_pnext(s, at + 4, 0)->Ok_0,
        ),
{
    reveal(binding_parts);
    lemma_tag_read(s, at, 7);
}

proof fn lemma_binding_joined(s: Seq<u8>, at: int, x: Binding)
    requires
        ({
            let q = at + 4 + bind_chain(x.links).len();
            let r = q + array_bytes(x.waits).len();
            let t = r + list_bytes(x.buffers).len();
            let u = t + list_bytes(x.opaque_images).len();
            let v = u + list_bytes(x.images).len();
            &&& venus_encodings::stands(s, at, bytes::le32(7))
            &&& venus_encodings::stands(s, at + 4, bind_chain(x.links))
            &&& venus_encodings::stands(s, q, array_bytes(x.waits))
            &&& venus_encodings::stands(s, r, list_bytes(x.buffers))
            &&& venus_encodings::stands(s, t, list_bytes(x.opaque_images))
            &&& venus_encodings::stands(s, u, list_bytes(x.images))
            &&& venus_encodings::stands(s, v, array_bytes(x.signals))
        }),
    ensures
        venus_encodings::stands(s, at, binding_bytes(x)),
        binding_bytes(x).len() == 4 + bind_chain(x.links).len() + array_bytes(x.waits).len()
            + list_bytes(x.buffers).len() + list_bytes(x.opaque_images).len() + list_bytes(
            x.images,
        ).len() + array_bytes(x.signals).len(),
{
    broadcast use group_parts;
}

/// An element of the list that the queue command with this opcode carries: a submission
/// for 18, a second-form submission for 206, a sparse binding for 34.
pub open spec fn is_queue_part(opcode: u32, part: Seq<u8>) -> bool {
    ||| opcode == 18 && exists|x: Submission|
        is_submission(x) && part == #[trigger] submission_bytes(x)
    ||| opcode == 206 && exists|x: Submission2|
        is_submission2(x) && part == #[trigger] submission2_bytes(x)
    ||| opcode == 34 && exists|x: Binding| is_binding(x) && part == #[trigger] binding_bytes(x)
}

pub open spec fn queue_parts(opcode: u32) -> spec_fn(Seq<u8>) -> bool {
    |part: Seq<u8>| is_queue_part(opcode, part)
}

/// What a queue command reads, one element at a time.
proof fn lemma_queue_item(s: Seq<u8>, at: int, opcode: u32, part: Seq<u8>)
    requires
        is_queue_part(opcode, part),
        venus_encodings::stands(s, at, part),
        s.len() <= usize::MAX,
    ensures
        venus_grammar::queue_item(s, at, opcode) == Ok::<int, VenusReject>(at + part.len()),
        part.len() >= 4,
{
    if opcode == 18 {
        let x = choose|x: Submission| is_submission(x) && part == #[trigger] submission_bytes(x);
        lemma_submission(s, at, x);
        reveal(submission_end);
    } else if opcode == 206 {
        let x = choose|x: Submission2|
            is_submission2(x) && part == #[trigger] submission2_bytes(x);
        lemma_submission2(s, at, x);
    } else {
        let x = choose|x: Binding| is_binding(x) && part == #[trigger] binding_bytes(x);
        lemma_binding(s, at, x);
    }
}

proof fn lemma_queue_item_read(s: Seq<u8>, at: int, opcode: u32) -> (part: Seq<u8>)
    requires
        0 <= at,
        opcode == 18 || opcode == 206 || opcode == 34,
        venus_grammar::queue_item(s, at, opcode) is Ok,
    ensures
        is_queue_part(opcode, part),
        venus_encodings::stands(s, at, part),
        venus_grammar::queue_item(s, at, opcode) == Ok::<int, VenusReject>(at + part.len()),
{
    if opcode == 18 {
        reveal(submission_end);
        let x = lemma_submission_read(s, at);
        submission_bytes(x)
    } else if opcode == 206 {
        let x = lemma_submission2_read(s, at);
        submission2_bytes(x)
    } else {
        let x = lemma_binding_read(s, at);
        binding_bytes(x)
    }
}

proof fn lemma_queue_items(opcode: u32)
    requires
        opcode == 18 || opcode == 206 || opcode == 34,
    ensures
        recognizes(venus_grammar::queue_items(opcode), queue_parts(opcode)),
{
    let item = venus_grammar::queue_items(opcode);
    let class = queue_parts(opcode);
    assert forall|s: Seq<u8>, at: int, part: Seq<u8>|
        #![trigger class(part), venus_encodings::stands(s, at, part)]
        class(part) && venus_encodings::stands(s, at, part) && s.len()
            <= usize::MAX implies part.len() >= 4 && item(s, at) == Ok::<int, VenusReject>(
        at + part.len(),
    ) by {
        lemma_queue_item(s, at, opcode, part);
    }
    assert forall|s: Seq<u8>, at: int| 0 <= at && (#[trigger] item(s, at)) is Ok implies exists|
        part: Seq<u8>,
    |
        class(part) && #[trigger] venus_encodings::stands(s, at, part) && item(s, at) == Ok::<
            int,
            VenusReject,
        >(at + part.len()) by {
        let part = lemma_queue_item_read(s, at, opcode);
        assert(class(part) && venus_encodings::stands(s, at, part));
    }
}

/// The bytes of a queue command: its queue, its list, and its fence.
pub open spec fn queue_bytes(opcode: u32, queue: u64, parts: Seq<Seq<u8>>, fence: u64) -> Seq<u8> {
    bytes::le32(opcode) + bytes::le32(0) + bytes::le64(queue) + list_bytes(parts) + bytes::le64(
        fence,
    )
}

/// The stream is admitted as a queue command of this class: without operands, and with
/// neither a reply nor an allocation.
#[verifier::opaque]
pub open spec fn admits_queue(s: Seq<u8>, capacity: nat, class: VenusCommandClass) -> bool {
    let (o, c) = venus_grammar::stream(s, capacity);
    &&& o.refusal is None
    &&& c.class == class
    &&& c.reply == (0u64, 0u64)
    &&& c.allocation.size == 0
    &&& c.allocation.memory_type_index == 0
    &&& o.walk.out.len() == 0
}

/// The class of the queue command with this opcode.
pub open spec fn class_of(opcode: u32) -> VenusCommandClass {
    if opcode == 18 {
        VenusCommandClass::QueueSubmit
    } else if opcode == 206 {
        VenusCommandClass::QueueSubmit2
    } else {
        VenusCommandClass::QueueBindSparse
    }
}

/// Every queue command is admitted whose list holds elements of its own form.
pub proof fn law_queue_commands_are_admitted(
    opcode: u32,
    queue: u64,
    parts: Seq<Seq<u8>>,
    fence: u64,
    capacity: nat,
)
    requires
        opcode == 18 || opcode == 206 || opcode == 34,
        are_all(parts, queue_parts(opcode)),
        queue_bytes(opcode, queue, parts, fence).len() <= usize::MAX,
    ensures
        admits_queue(queue_bytes(opcode, queue, parts, fence), capacity, class_of(opcode)),
{
    let s = queue_bytes(opcode, queue, parts, fence);
    venus_encodings::lemma_stands_whole(s);
    assert(venus_encodings::stands(s, 0, bytes::le32(opcode)) && venus_encodings::stands(
        s,
        4,
        bytes::le32(0),
    ) && venus_encodings::stands(s, 16, list_bytes(parts)) && s.len() == 24 + list_bytes(
        parts,
    ).len()) by {
        broadcast use venus_encodings::group_stands;

    }
    lemma_queue_items(opcode);
    lemma_list(s, 16, parts, venus_grammar::queue_items(opcode), queue_parts(opcode));
    lemma_queue_stream(s, opcode, capacity);
}

proof fn lemma_queue_stream(s: Seq<u8>, opcode: u32, capacity: nat)
    requires
        opcode == 18 || opcode == 206 || opcode == 34,
        venus_encodings::stands(s, 0, bytes::le32(opcode)),
        venus_encodings::stands(s, 4, bytes::le32(0)),
        venus_grammar::counted_items(s, 16, venus_grammar::queue_items(opcode)) == Ok::<
            int,
            VenusReject,
        >(s.len() - 8),
        24 <= s.len() <= usize::MAX,
    ensures
        admits_queue(s, capacity, class_of(opcode)),
{
    reveal(admits_queue);
    venus_encodings::lemma_stands_word32(s, 0, opcode);
    venus_encodings::lemma_stands_word32(s, 4, 0);
    assert(venus_grammar::header(s, 0) == Ok::<((u32, u32), int), VenusReject>(((opcode, 0), 8)));
    assert(venus_grammar::queue_body(s, 8, opcode) == Ok::<int, VenusReject>(s.len() as int));
}

/// No other stream is admitted as a queue command.
pub proof fn law_only_queue_commands_are_admitted(s: Seq<u8>, capacity: nat)
    requires
        venus_grammar::stream(s, capacity).0.refusal is None,
        !(venus_grammar::stream(s, capacity).1.class is AllocateMemory),
        !(venus_grammar::stream(s, capacity).1.class is FreeMemory),
    ensures
        exists|opcode: u32, queue: u64, parts: Seq<Seq<u8>>, fence: u64|
            (opcode == 18 || opcode == 206 || opcode == 34) && are_all(parts, queue_parts(opcode))
                && #[trigger] queue_bytes(opcode, queue, parts, fence) == s && venus_grammar::stream(
                s,
                capacity,
            ).1.class == class_of(opcode),
{
    venus_encodings::lemma_class_of_stream(s, capacity);
    let opcode = bytes::word32(s, 0);
    lemma_queue_read(s, opcode, capacity);
    lemma_queue_items(opcode);
    let parts = lemma_list_read(s, 16, venus_grammar::queue_items(opcode), queue_parts(opcode));
    let queue = bytes::word64(s, 8);
    let fence = bytes::word64(s, s.len() - 8);
    let b = queue_bytes(opcode, queue, parts, fence);
    assert(venus_encodings::stands(s, 0, b) && b.len() == s.len()) by {
        broadcast use venus_encodings::group_stands;

    }
    venus_encodings::lemma_whole_stands(s, b);
}

proof fn lemma_queue_read(s: Seq<u8>, opcode: u32, capacity: nat)
    requires
        opcode == 18 || opcode == 206 || opcode == 34,
        opcode == bytes::word32(s, 0),
        venus_grammar::header(s, 0) == Ok::<((u32, u32), int), VenusReject>(
            ((opcode, bytes::word32(s, 4)), 8),
        ),
        8 <= s.len(),
        venus_grammar::stream(s, capacity).0.refusal is None,
    ensures
        bytes::word32(s, 4) == 0,
        16 <= s.len() - 8,
        venus_grammar::counted_items(s, 16, venus_grammar::queue_items(opcode)) == Ok::<
            int,
            VenusReject,
        >(s.len() - 8),
{
    assert(venus_grammar::queue_body(s, 8, opcode) == Ok::<int, VenusReject>(s.len() as int));
    lemma_queue_items(opcode);
    let parts = lemma_list_read(s, 16, venus_grammar::queue_items(opcode), queue_parts(opcode));
}

} // verus!
