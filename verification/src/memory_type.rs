//! Selection of a memory type among those that the host offers.

use vstd::prelude::*;

verus! {

pub const MEMORY_PROPERTY_DEVICE_LOCAL: u32 = 0x1;
pub const MEMORY_PROPERTY_HOST_VISIBLE: u32 = 0x2;
pub const MEMORY_PROPERTY_HOST_COHERENT: u32 = 0x4;
/// The most memory types a host declares.
pub const VK_MAX_MEMORY_TYPES: u32 = 32;

/// A selected memory type, and whether it is what was asked for.
#[must_use]
#[derive(Debug, Clone, Copy, PartialEq, Eq, Structural)]
pub enum MemoryTypeChoice {
    /// Every requested property is present.
    Exact(u32),
    /// The type is allowed, but misses a requested property.
    Downgraded(u32),
}

impl MemoryTypeChoice {
    /// The chosen type, whichever way it was chosen.
    pub fn index(self) -> (i: u32)
        ensures
            self == MemoryTypeChoice::Exact(i) || self == MemoryTypeChoice::Downgraded(i),
    {
        match self {
            MemoryTypeChoice::Exact(i) => i,
            MemoryTypeChoice::Downgraded(i) => i,
        }
    }
}

/// The type `i` is declared by the host and allowed by `bits`.
pub open spec fn is_offered(flags: Seq<u32>, count: u32, bits: u32, i: u32) -> bool {
    i < count && i < VK_MAX_MEMORY_TYPES && i < flags.len() && bits & (1u32 << i) != 0
}

/// The type is offered, has every property of `need` and none of `avoid`.
pub open spec fn suits(
    flags: Seq<u32>,
    count: u32,
    bits: u32,
    need: u32,
    avoid: u32,
    i: u32,
) -> bool {
    is_offered(flags, count, bits, i) && flags[i as int] & need == need && flags[i as int] & avoid
        == 0
}

/// `i` is the first type that suits.
pub open spec fn is_first(
    flags: Seq<u32>,
    count: u32,
    bits: u32,
    need: u32,
    avoid: u32,
    i: u32,
) -> bool {
    suits(flags, count, bits, need, avoid, i) && forall|j: u32|
        j < i ==> !#[trigger] suits(flags, count, bits, need, avoid, j)
}

/// No type suits.
pub open spec fn none_suits(
    flags: Seq<u32>,
    count: u32,
    bits: u32,
    need: u32,
    avoid: u32,
) -> bool {
    forall|j: u32| !#[trigger] suits(flags, count, bits, need, avoid, j)
}

/// How many bits of `v` are set.
pub open spec fn ones(v: nat) -> nat
    decreases v,
{
    if v == 0 {
        0
    } else {
        v % 2 + ones(v / 2)
    }
}

fn count_ones(v: u32) -> (n: u32)
    ensures
        n == ones(v as nat),
{
    let mut rest: u32 = v;
    let mut n: u32 = 0;
    while rest != 0
        invariant
            n + ones(rest as nat) == ones(v as nat),
            n + rest <= u32::MAX,
        decreases rest,
    {
        n = n + rest % 2;
        rest = rest / 2;
    }
    n
}

fn first_suiting(
    memory_type_flags: &[u32],
    memory_type_count: u32,
    memory_type_bits: u32,
    need: u32,
    avoid: u32,
) -> (r: Option<u32>)
    ensures
        match r {
            Some(i) => is_first(
                memory_type_flags@,
                memory_type_count,
                memory_type_bits,
                need,
                avoid,
                i,
            ),
            None => none_suits(
                memory_type_flags@,
                memory_type_count,
                memory_type_bits,
                need,
                avoid,
            ),
        },
{
    let mut i: u32 = 0;
    while i < memory_type_count && i < VK_MAX_MEMORY_TYPES && (i as usize)
        < memory_type_flags.len()
        invariant
            i <= VK_MAX_MEMORY_TYPES,
            forall|j: u32|
                j < i ==> !#[trigger] suits(
                    memory_type_flags@,
                    memory_type_count,
                    memory_type_bits,
                    need,
                    avoid,
                    j,
                ),
        decreases VK_MAX_MEMORY_TYPES - i,
    {
        let flags: u32 = memory_type_flags[i as usize];
        if memory_type_bits & (1u32 << i) != 0 && flags & need == need && flags & avoid == 0 {
            assert(suits(
                memory_type_flags@,
                memory_type_count,
                memory_type_bits,
                need,
                avoid,
                i,
            ));
            return Some(i);
        }
        i = i + 1;
    }
    None
}

/// The type that an imported resource can be allocated in: of those that are
/// offered the first with the fewest properties. `None` is a refusal.
pub fn choose_importable_memory_type(
    memory_type_flags: &[u32],
    memory_type_count: u32,
    memory_type_bits: u32,
) -> (r: Option<u32>)
    ensures
        match r {
            Some(i) => is_offered(memory_type_flags@, memory_type_count, memory_type_bits, i)
                && forall|j: u32| #[trigger]
                is_offered(memory_type_flags@, memory_type_count, memory_type_bits, j) ==> {
                    let a = ones(memory_type_flags@[i as int] as nat);
                    let b = ones(memory_type_flags@[j as int] as nat);
                    a <= b && (j < i ==> a < b)
                },
            None => forall|j: u32|
                !#[trigger] is_offered(memory_type_flags@, memory_type_count, memory_type_bits, j),
        },
{
    let mut best: Option<(u32, u32)> = None;
    let mut i: u32 = 0;
    while i < memory_type_count && i < VK_MAX_MEMORY_TYPES && (i as usize)
        < memory_type_flags.len()
        invariant
            i <= VK_MAX_MEMORY_TYPES,
            match best {
                Some((k, w)) => k < i && is_offered(
                    memory_type_flags@,
                    memory_type_count,
                    memory_type_bits,
                    k,
                ) && w == ones(memory_type_flags@[k as int] as nat) && forall|j: u32|
                    j < i && #[trigger] is_offered(
                        memory_type_flags@,
                        memory_type_count,
                        memory_type_bits,
                        j,
                    ) ==> {
                        let b = ones(memory_type_flags@[j as int] as nat);
                        w <= b && (j < k ==> w < b)
                    },
                None => forall|j: u32|
                    j < i ==> !#[trigger] is_offered(
                        memory_type_flags@,
                        memory_type_count,
                        memory_type_bits,
                        j,
                    ),
            },
        decreases VK_MAX_MEMORY_TYPES - i,
    {
        if memory_type_bits & (1u32 << i) != 0 {
            assert(is_offered(memory_type_flags@, memory_type_count, memory_type_bits, i));
            let weight: u32 = count_ones(memory_type_flags[i as usize]);
            match best {
                Some((k, w)) => {
                    if weight < w {
                        best = Some((i, weight));
                    }
                },
                None => {
                    best = Some((i, weight));
                },
            }
        }
        i = i + 1;
    }
    match best {
        Some((k, w)) => Some(k),
        None => None,
    }
}

/// A host-visible type, preferably a coherent one. A downgrade is host-visible but
/// not coherent: writes to it need flushes.
pub fn choose_host_visible_memory_type(
    memory_type_flags: &[u32],
    memory_type_count: u32,
    memory_type_bits: u32,
) -> (r: Option<MemoryTypeChoice>)
    ensures
        ({
            let both = MEMORY_PROPERTY_HOST_VISIBLE | MEMORY_PROPERTY_HOST_COHERENT;
            let (f, c, b) = (memory_type_flags@, memory_type_count, memory_type_bits);
            match r {
                Some(MemoryTypeChoice::Exact(i)) => is_first(f, c, b, both, 0, i),
                Some(MemoryTypeChoice::Downgraded(i)) => none_suits(f, c, b, both, 0) && is_first(
                    f,
                    c,
                    b,
                    MEMORY_PROPERTY_HOST_VISIBLE,
                    0,
                    i,
                ),
                None => none_suits(f, c, b, both, 0) && none_suits(
                    f,
                    c,
                    b,
                    MEMORY_PROPERTY_HOST_VISIBLE,
                    0,
                ),
            }
        }),
{
    let both: u32 = MEMORY_PROPERTY_HOST_VISIBLE | MEMORY_PROPERTY_HOST_COHERENT;
    match first_suiting(memory_type_flags, memory_type_count, memory_type_bits, both, 0) {
        Some(i) => Some(MemoryTypeChoice::Exact(i)),
        None => {
            match first_suiting(
                memory_type_flags,
                memory_type_count,
                memory_type_bits,
                MEMORY_PROPERTY_HOST_VISIBLE,
                0,
            ) {
                Some(i) => Some(MemoryTypeChoice::Downgraded(i)),
                None => None,
            }
        },
    }
}

/// A device-local type: one that the host cannot see, or else one that it can, or
/// else, as a downgrade, the first type that is offered at all.
pub fn choose_device_local_memory_type(
    memory_type_flags: &[u32],
    memory_type_count: u32,
    memory_type_bits: u32,
) -> (r: Option<MemoryTypeChoice>)
    ensures
        ({
            let (f, c, b) = (memory_type_flags@, memory_type_count, memory_type_bits);
            let local = MEMORY_PROPERTY_DEVICE_LOCAL;
            let visible = MEMORY_PROPERTY_HOST_VISIBLE;
            match r {
                Some(MemoryTypeChoice::Exact(i)) => is_first(f, c, b, local, visible, i) || (
                none_suits(f, c, b, local, visible) && is_first(f, c, b, local, 0, i)),
                Some(MemoryTypeChoice::Downgraded(i)) => none_suits(f, c, b, local, visible)
                    && none_suits(f, c, b, local, 0) && is_first(f, c, b, 0, 0, i),
                None => none_suits(f, c, b, local, visible) && none_suits(f, c, b, local, 0)
                    && none_suits(f, c, b, 0, 0),
            }
        }),
{
    let strict = first_suiting(
        memory_type_flags,
        memory_type_count,
        memory_type_bits,
        MEMORY_PROPERTY_DEVICE_LOCAL,
        MEMORY_PROPERTY_HOST_VISIBLE,
    );
    if let Some(i) = strict {
        return Some(MemoryTypeChoice::Exact(i));
    }
    let local = first_suiting(
        memory_type_flags,
        memory_type_count,
        memory_type_bits,
        MEMORY_PROPERTY_DEVICE_LOCAL,
        0,
    );
    if let Some(i) = local {
        return Some(MemoryTypeChoice::Exact(i));
    }
    match first_suiting(memory_type_flags, memory_type_count, memory_type_bits, 0, 0) {
        Some(i) => Some(MemoryTypeChoice::Downgraded(i)),
        None => None,
    }
}

/// A device-local type that the host cannot see. There is no second choice.
pub fn choose_strict_device_local_memory_type(
    memory_type_flags: &[u32],
    memory_type_count: u32,
    memory_type_bits: u32,
) -> (r: Option<MemoryTypeChoice>)
    ensures
        ({
            let (f, c, b) = (memory_type_flags@, memory_type_count, memory_type_bits);
            let local = MEMORY_PROPERTY_DEVICE_LOCAL;
            let visible = MEMORY_PROPERTY_HOST_VISIBLE;
            match r {
                Some(choice) => choice is Exact && is_first(f, c, b, local, visible, choice->Exact_0),
                None => none_suits(f, c, b, local, visible),
            }
        }),
{
    match first_suiting(
        memory_type_flags,
        memory_type_count,
        memory_type_bits,
        MEMORY_PROPERTY_DEVICE_LOCAL,
        MEMORY_PROPERTY_HOST_VISIBLE,
    ) {
        Some(i) => Some(MemoryTypeChoice::Exact(i)),
        None => None,
    }
}

/// A strict choice is also what the ordinary selector gives, so the tiers never
/// hide a type that the host cannot see behind one that it can.
pub proof fn law_strict_choice_comes_first(flags: Seq<u32>, count: u32, bits: u32, i: u32)
    requires
        is_first(flags, count, bits, MEMORY_PROPERTY_DEVICE_LOCAL, MEMORY_PROPERTY_HOST_VISIBLE, i),
    ensures
        !none_suits(flags, count, bits, MEMORY_PROPERTY_DEVICE_LOCAL, MEMORY_PROPERTY_HOST_VISIBLE),
        forall|j: u32|
            is_first(
                flags,
                count,
                bits,
                MEMORY_PROPERTY_DEVICE_LOCAL,
                MEMORY_PROPERTY_HOST_VISIBLE,
                j,
            ) ==> j == i,
{
    assert forall|j: u32|
        is_first(
            flags,
            count,
            bits,
            MEMORY_PROPERTY_DEVICE_LOCAL,
            MEMORY_PROPERTY_HOST_VISIBLE,
            j,
        ) implies j == i by {
        assert(suits(
            flags,
            count,
            bits,
            MEMORY_PROPERTY_DEVICE_LOCAL,
            MEMORY_PROPERTY_HOST_VISIBLE,
            j,
        ));
        if j < i {
        } else if i < j {
        }
    }
}

/// A type is offered exactly if the host declares it, it is one of the first 32, and its
/// bit is set in `bits`.
pub proof fn law_an_offered_type_is_declared_and_allowed(
    flags: Seq<u32>,
    count: u32,
    bits: u32,
    i: u32,
)
    ensures
        is_offered(flags, count, bits, i) <==> i < count && i < 32 && i < flags.len() && (bits >> i)
            % 2 == 1,
{
    if i < 32 {
        assert((bits & (1u32 << i) != 0) <==> (bits >> i) % 2 == 1) by (bit_vector)
            requires
                i < 32,
        ;
    }
}

/// What each choice asks of a type, bit by bit: the lowest bit for device-local memory,
/// the next for memory that the host sees, and the one above for coherent memory.
pub proof fn law_choices_ask_for_their_bits(flags: Seq<u32>, count: u32, bits: u32, i: u32)
    ensures
        ({
            let offered = is_offered(flags, count, bits, i);
            let f = flags[i as int];
            &&& suits(
                flags,
                count,
                bits,
                MEMORY_PROPERTY_HOST_VISIBLE | MEMORY_PROPERTY_HOST_COHERENT,
                0,
                i,
            ) <==> offered && f / 2 % 2 == 1 && f / 4 % 2 == 1
            &&& suits(flags, count, bits, MEMORY_PROPERTY_HOST_VISIBLE, 0, i) <==> offered && f / 2
                % 2 == 1
            &&& suits(
                flags,
                count,
                bits,
                MEMORY_PROPERTY_DEVICE_LOCAL,
                MEMORY_PROPERTY_HOST_VISIBLE,
                i,
            ) <==> offered && f % 2 == 1 && f / 2 % 2 == 0
            &&& suits(flags, count, bits, MEMORY_PROPERTY_DEVICE_LOCAL, 0, i) <==> offered && f % 2
                == 1
            &&& suits(flags, count, bits, 0, 0, i) <==> offered
        }),
{
    let f = flags[i as int];
    assert(0x2u32 | 0x4u32 == 0x6u32) by (bit_vector);
    assert((f & 0x6 == 0x6) <==> (f / 2 % 2 == 1 && f / 4 % 2 == 1)) by (bit_vector);
    assert((f & 0x2 == 0x2) <==> f / 2 % 2 == 1) by (bit_vector);
    assert((f & 0x2 == 0) <==> f / 2 % 2 == 0) by (bit_vector);
    assert((f & 0x1 == 0x1) <==> f % 2 == 1) by (bit_vector);
    assert(f & 0 == 0) by (bit_vector);
}

/// The first type that suits is unique, and there is one exactly if any type suits.
pub proof fn law_the_first_type_is_unique(
    flags: Seq<u32>,
    count: u32,
    bits: u32,
    need: u32,
    avoid: u32,
    i: u32,
    j: u32,
)
    ensures
        is_first(flags, count, bits, need, avoid, i) && is_first(
            flags,
            count,
            bits,
            need,
            avoid,
            j,
        ) ==> i == j,
        is_first(flags, count, bits, need, avoid, i) ==> !none_suits(
            flags,
            count,
            bits,
            need,
            avoid,
        ) && (suits(flags, count, bits, need, avoid, j) ==> i <= j),
        none_suits(flags, count, bits, need, avoid) ==> !suits(
            flags,
            count,
            bits,
            need,
            avoid,
            j,
        ),
{
    if is_first(flags, count, bits, need, avoid, i) && is_first(
        flags,
        count,
        bits,
        need,
        avoid,
        j,
    ) {
        assert(suits(flags, count, bits, need, avoid, i));
        assert(suits(flags, count, bits, need, avoid, j));
    }
}

/// The number of bits that are set: none of zero, and doubling a word or setting its
/// lowest bit counts as it should.
pub proof fn law_bits_are_counted(v: nat)
    ensures
        ones(0) == 0,
        ones(2 * v) == ones(v),
        ones(2 * v + 1) == ones(v) + 1,
{
    reveal_with_fuel(ones, 2);
    assert((2 * v) / 2 == v && (2 * v) % 2 == 0);
    assert((2 * v + 1) / 2 == v && (2 * v + 1) % 2 == 1);
}

} // verus!
