//! The words of an image creation.

use vstd::prelude::*;
use crate::bytes;
use crate::venus;
use crate::venus::ImageCreateSpec;

verus! {

/// How many formats the list of an image names.
pub open spec fn listed(spec: ImageCreateSpec) -> int {
    if spec.view_format_count >= 2 {
        2
    } else {
        spec.view_format_count as int
    }
}

/// How long a format list is.
pub open spec fn list_bytes(n: int) -> int {
    if n == 0 {
        8
    } else {
        32 + 4 * n
    }
}

/// How long the extension chain of an image is.
pub open spec fn chain_bytes(spec: ImageCreateSpec) -> int {
    list_bytes(listed(spec)) + (if spec.external_handle_type == 0 {
        0int
    } else {
        16
    })
}

/// The words of the format list at `at`: a null link, or a link with its tag, no further
/// link, the count of its formats twice, and the formats.
pub open spec fn is_format_list(m: Seq<u8>, at: int, spec: ImageCreateSpec) -> bool {
    let n = listed(spec);
    if n == 0 {
        bytes::word64(m, at) == 0
    } else {
        &&& bytes::word64(m, at) == 1
        &&& bytes::word32(m, at + 8) == 1000147000
        &&& bytes::word64(m, at + 12) == 0
        &&& bytes::word32(m, at + 20) == n
        &&& bytes::word64(m, at + 24) == n
        &&& bytes::word32(m, at + 32) == spec.view_formats@[0]
        &&& n == 2 ==> bytes::word32(m, at + 36) == spec.view_formats@[1]
    }
}

proof fn lemma_format_list(spec: ImageCreateSpec)
    ensures
        venus::format_list_link(spec).len() == list_bytes(listed(spec)),
        is_format_list(venus::format_list_link(spec), 0, spec),
{
    broadcast use {bytes::group_lengths, bytes::group_reading};

    let e = Seq::<u8>::empty();
    let l = venus::format_list_link(spec);
    let n = listed(spec);
    if n == 0 {
        assert(l =~= e + bytes::le64(0));
    } else {
        let s = e + bytes::le64(1) + bytes::le32(1000147000) + bytes::le64(0) + bytes::le32(
            n as u32,
        ) + bytes::le64(n as u64) + bytes::le32(spec.view_formats@[0]);
        if n == 1 {
            assert(l =~= s);
        } else {
            assert(l =~= s + bytes::le32(spec.view_formats@[1]));
        }
    }
}

proof fn lemma_inner32(m: Seq<u8>, at: int, l: Seq<u8>, i: int)
    requires
        0 <= at,
        at + l.len() <= m.len(),
        m.subrange(at, at + l.len() as int) == l,
        0 <= i,
        i + 4 <= l.len(),
    ensures
        bytes::word32(m, at + i) == bytes::word32(l, i),
{
    assert(l[i] == m[at + i] && l[i + 1] == m[at + i + 1] && l[i + 2] == m[at + i + 2] && l[i + 3]
        == m[at + i + 3]);
}

proof fn lemma_inner64(m: Seq<u8>, at: int, l: Seq<u8>, i: int)
    requires
        0 <= at,
        at + l.len() <= m.len(),
        m.subrange(at, at + l.len() as int) == l,
        0 <= i,
        i + 8 <= l.len(),
    ensures
        bytes::word64(m, at + i) == bytes::word64(l, i),
{
    lemma_inner32(m, at, l, i);
    lemma_inner32(m, at, l, i + 4);
}

/// The words at `at` of a string that holds the list there are the words of the list.
proof fn lemma_format_list_at(m: Seq<u8>, at: int, spec: ImageCreateSpec)
    requires
        0 <= at,
        at + list_bytes(listed(spec)) <= m.len(),
        m.subrange(at, at + list_bytes(listed(spec))) == venus::format_list_link(spec),
    ensures
        is_format_list(m, at, spec),
{
    lemma_format_list(spec);
    let l = venus::format_list_link(spec);
    lemma_inner64(m, at, l, 0);
    if listed(spec) > 0 {
        lemma_inner32(m, at, l, 8);
        lemma_inner64(m, at, l, 12);
        lemma_inner32(m, at, l, 20);
        lemma_inner64(m, at, l, 24);
        lemma_inner32(m, at, l, 32);
        if listed(spec) == 2 {
            lemma_inner32(m, at, l, 36);
        }
    }
}

proof fn lemma_chain_len(spec: ImageCreateSpec)
    ensures
        venus::image_chain(spec).len() == chain_bytes(spec),
{
    broadcast use bytes::group_lengths;

    lemma_format_list(spec);
}

/// What a creation says before the chain of its image.
spec fn head(device_id: u64) -> Seq<u8> {
    Seq::<u8>::empty() + bytes::le32(54) + bytes::le32(1) + bytes::le64(device_id) + bytes::le64(1)
        + bytes::le32(14)
}

/// What it says behind the chain, after the bytes `s`.
spec fn then_image(s: Seq<u8>, image_id: u64, spec: ImageCreateSpec) -> Seq<u8> {
    s + bytes::le32(spec.flags) + bytes::le32(1) + bytes::le32(spec.format) + bytes::le32(
        spec.width,
    ) + bytes::le32(spec.height) + bytes::le32(1) + bytes::le32(1) + bytes::le32(1) + bytes::le32(
        1,
    ) + bytes::le32(spec.tiling) + bytes::le32(spec.usage) + bytes::le32(0) + bytes::le32(0)
        + bytes::le64(0) + bytes::le32(spec.initial_layout) + bytes::le64(0) + bytes::le64(1)
        + bytes::le64(image_id)
}

/// The words of an image behind its chain: its flags, two dimensions, its format and
/// extent, one of each of depth, mip level, layer and sample, its tiling and usage, no
/// sharing, its first layout, no allocator, and the image that it becomes.
pub open spec fn is_image(m: Seq<u8>, at: int, image_id: u64, spec: ImageCreateSpec) -> bool {
    &&& bytes::word32(m, at) == spec.flags
    &&& bytes::word32(m, at + 4) == 1
    &&& bytes::word32(m, at + 8) == spec.format
    &&& bytes::word32(m, at + 12) == spec.width
    &&& bytes::word32(m, at + 16) == spec.height
    &&& bytes::word32(m, at + 20) == 1
    &&& bytes::word32(m, at + 24) == 1
    &&& bytes::word32(m, at + 28) == 1
    &&& bytes::word32(m, at + 32) == 1
    &&& bytes::word32(m, at + 36) == spec.tiling
    &&& bytes::word32(m, at + 40) == spec.usage
    &&& bytes::word32(m, at + 44) == 0
    &&& bytes::word32(m, at + 48) == 0
    &&& bytes::word64(m, at + 52) == 0
    &&& bytes::word32(m, at + 60) == spec.initial_layout
    &&& bytes::word64(m, at + 64) == 0
    &&& bytes::word64(m, at + 72) == 1
    &&& bytes::word64(m, at + 80) == image_id
    &&& m.len() == at + 88
}

#[verifier::spinoff_prover]
proof fn lemma_image(s: Seq<u8>, image_id: u64, spec: ImageCreateSpec)
    ensures
        is_image(then_image(s, image_id, spec), s.len() as int, image_id, spec),
        then_image(s, image_id, spec).subrange(0, s.len() as int) =~= s,
{
    broadcast use {bytes::group_lengths, bytes::group_reading};

}

proof fn lemma_head(device_id: u64)
    ensures
        ({
            let h = head(device_id);
            &&& h.len() == 28
            &&& bytes::word32(h, 0) == 54
            &&& bytes::word32(h, 4) == 1
            &&& bytes::word64(h, 8) == device_id
            &&& bytes::word64(h, 16) == 1
            &&& bytes::word32(h, 24) == 14
        }),
{
    broadcast use {bytes::group_lengths, bytes::group_reading};

}

/// The words of an image creation that asks for a reply. External memory is one link, whose
/// handle types follow the format list that it points at; without it the list is the
/// chain.
#[verifier::spinoff_prover]
pub proof fn law_the_words_of_an_image_creation(
    device_id: u64,
    image_id: u64,
    spec: ImageCreateSpec,
)
    ensures
        ({
            let m = venus::image_create_message(device_id, image_id, spec);
            let at = 28 + chain_bytes(spec);
            &&& bytes::word32(m, 0) == 54
            &&& bytes::word32(m, 4) == 1
            &&& bytes::word64(m, 8) == device_id
            &&& bytes::word64(m, 16) == 1
            &&& bytes::word32(m, 24) == 14
            &&& spec.external_handle_type == 0 ==> is_format_list(m, 28, spec)
            &&& spec.external_handle_type != 0 ==> bytes::word64(m, 28) == 1 && bytes::word32(m, 36)
                == 1000072001 && is_format_list(m, 40, spec) && bytes::word32(m, at - 4)
                == spec.external_handle_type
            &&& is_image(m, at, image_id, spec)
        }),
{
    let m = venus::image_create_message(device_id, image_id, spec);
    let h = head(device_id);
    let c = venus::image_chain(spec);
    let l = venus::format_list_link(spec);
    let at = 28 + chain_bytes(spec);
    lemma_head(device_id);
    lemma_chain_len(spec);
    lemma_format_list(spec);
    lemma_image(h + c, image_id, spec);
    assert(m == then_image(h + c, image_id, spec));
    assert((h + c).len() == at);
    assert(bytes::begins(m, h)) by {
        assert forall|i: int| 0 <= i < h.len() implies #[trigger] m[i] == h[i] by {
            assert(m.subrange(0, at)[i] == (h + c)[i]);
        }
    }
    bytes::lemma_begins(m, h);
    assert forall|i: int| 0 <= i < c.len() implies m[28 + i] == #[trigger] c[i] by {
        assert(m.subrange(0, at)[28 + i] == (h + c)[28 + i]);
    }
    if spec.external_handle_type == 0 {
        assert(m.subrange(28, 28 + l.len() as int) =~= l);
        lemma_format_list_at(m, 28, spec);
    } else {
        broadcast use bytes::group_lengths;

        let front = bytes::le64(1) + bytes::le32(1000072001);
        assert(c == front + l + bytes::le32(spec.external_handle_type));
        assert(m.subrange(28, 36) =~= bytes::le64(1)) by {
            assert(c.subrange(0, 8) =~= bytes::le64(1));
            assert forall|i: int| 0 <= i < 8 implies m.subrange(28, 36)[i] == bytes::le64(1)[i] by {
                assert(m[28 + i] == c[i]);
            }
        }
        bytes::lemma_word64_at(m, 28, 1);
        assert(m.subrange(36, 40) =~= bytes::le32(1000072001)) by {
            assert forall|i: int| 0 <= i < 4 implies m.subrange(36, 40)[i] == bytes::le32(
                1000072001,
            )[i] by {
                assert(m[28 + (8 + i)] == c[8 + i]);
            }
        }
        bytes::lemma_word32_at(m, 36, 1000072001);
        assert(m.subrange(40, 40 + l.len() as int) =~= l) by {
            assert forall|i: int| 0 <= i < l.len() implies m.subrange(40, 40 + l.len() as int)[i]
                == l[i] by {
                assert(m[28 + (12 + i)] == c[12 + i]);
            }
        }
        lemma_format_list_at(m, 40, spec);
        assert(m.subrange(at - 4, at) =~= bytes::le32(spec.external_handle_type)) by {
            assert forall|i: int| 0 <= i < 4 implies m.subrange(at - 4, at)[i] == bytes::le32(
                spec.external_handle_type,
            )[i] by {
                assert(m[28 + (12 + l.len() + i)] == c[12 + l.len() + i]);
            }
        }
        bytes::lemma_word32_at(m, at - 4, spec.external_handle_type);
    }
}

} // verus!
