//! What arenas and their buffers are for, told of their slots and bytes.

use crate::arena::{cut, id_after, layout_bytes, layout_slots, outcome, Arena, ArenaIds, ArenaView};
use crate::arena::{ArenaBuffer, SlotView, MAX_ARENA_SIZE, UNREGISTERED_START};
use crate::error::{over_limit_text, LimboError};
use crate::io::IO;
use vstd::prelude::*;

verus! {

/// `slots` slots of `slot_size` bytes are the fewest that hold `arena_size` bytes, counted in
/// whole groups of 64 of which there is at least one.
pub open spec fn fewest_slots(slots: nat, slot_size: nat, arena_size: nat) -> bool {
    &&& slots % 64 == 0
    &&& slots >= 64
    &&& slots * slot_size >= arena_size
    &&& slots == 64 || (slots - 64) * slot_size < arena_size
}

/// `io` maps memory when it is asked for `len` bytes, and the memory has that length.
pub open spec fn gives_memory<I: IO>(io: I, len: nat) -> bool {
    &&& forall|mapped: Option<I::Region>|
        #[trigger] call_ensures(I::map_arena, (&io, len as usize), mapped) ==> mapped is Some
    &&& forall|region: I::Region, memory: &'static mut [u8]|
        call_ensures(I::map_arena, (&io, len as usize), Some(region)) && #[trigger] call_ensures(
            I::memory,
            (&io, region),
            memory,
        ) ==> memory@.len() == len
}

/// An arena is as large as it takes, and no larger.
pub proof fn arena_is_as_large_as_it_takes(slots: nat, slot_size: nat, arena_size: nat)
    requires
        slot_size > 0,
    ensures
        fewest_slots(layout_slots(slot_size, arena_size), slot_size, arena_size),
        fewest_slots(slots, slot_size, arena_size) ==> slots == layout_slots(slot_size, arena_size),
        layout_bytes(slot_size, arena_size) == layout_slots(slot_size, arena_size) * slot_size,
{
    let least = layout_slots(slot_size, arena_size);
    crate::arena::lemma_layout(slot_size, arena_size);
    assert((least - 64) * slot_size == least * slot_size - 64 * slot_size) by (nonlinear_arith);
    if least != 64 {
        assert(least * slot_size != 64 * slot_size) by (nonlinear_arith)
            requires
                least != 64,
                slot_size > 0,
        ;
    }
    if fewest_slots(slots, slot_size, arena_size) {
        if slots < least {
            assert(slots * slot_size <= (least - 64) * slot_size) by (nonlinear_arith)
                requires
                    slots <= least - 64,
            ;
        } else if least < slots {
            assert(least * slot_size <= (slots - 64) * slot_size) by (nonlinear_arith)
                requires
                    least <= slots - 64,
            ;
        }
    }
}

/// Creating an arena succeeds when it can: if it stays within the limit and the I/O gives memory
/// for it. It then has the slots it takes, all free.
pub proof fn arena_is_created_when_it_can_be<I: IO>(
    io: I,
    slots: nat,
    slot_size: nat,
    arena_size: nat,
    next_id: u32,
    created: Result<ArenaView, Seq<char>>,
    next_id_after: u32,
)
    requires
        slot_size > 0,
        Arena::creation(io, slot_size, arena_size, next_id, created, next_id_after),
        fewest_slots(slots, slot_size, arena_size),
        slots * slot_size <= MAX_ARENA_SIZE,
        gives_memory(io, slots * slot_size),
    ensures
        created matches Ok(arena) && {
            &&& arena.slot_size == slot_size
            &&& arena.slots.len() == slots
            &&& forall|i: int| 0 <= i < slots ==> #[trigger] arena.slots[i] is Some
        },
{
    arena_is_as_large_as_it_takes(slots, slot_size, arena_size);
    let bytes = slots * slot_size;
    let mapped = choose|mapped: Option<I::Region>|
        {
            &&& #[trigger] call_ensures(I::map_arena, (&io, bytes as usize), mapped)
            &&& mapped is Some
            &&& Arena::creation_on(
                io,
                mapped->0,
                slot_size,
                slots,
                next_id,
                created,
                next_id_after,
            )
        };
    assert(mapped == Some(mapped->0));
}

/// An arena that was created has the fewest slots that hold what was asked for. Its slots lie one
/// after the other on the memory of the one region that the I/O mapped for them and was asked to
/// register. Its identifier is the index of the registration, or the next of the supply.
pub proof fn created_arena_lies_on_its_region<I: IO>(
    io: I,
    slot_size: nat,
    arena_size: nat,
    next_id: u32,
    arena: ArenaView,
    next_id_after: u32,
)
    requires
        slot_size > 0,
        Arena::creation(
            io,
            slot_size,
            arena_size,
            next_id,
            Ok::<ArenaView, Seq<char>>(arena),
            next_id_after,
        ),
    ensures
        arena.slot_size == slot_size,
        fewest_slots(arena.slots.len(), slot_size, arena_size),
        arena.slots.len() * slot_size <= MAX_ARENA_SIZE,
        exists|
            region: I::Region,
            registered: Result<u32, LimboError>,
            memory: &'static mut [u8],
        |
            {
                &&& call_ensures(
                    I::map_arena,
                    (&io, (arena.slots.len() * slot_size) as usize),
                    Some(region),
                )
                &&& #[trigger] call_ensures(I::register_fixed_buffer, (&io, &region), registered)
                &&& #[trigger] call_ensures(I::memory, (&io, region), memory)
                &&& memory@.len() == arena.slots.len() * slot_size
                &&& forall|i: int|
                    0 <= i < arena.slots.len() ==> #[trigger] arena.slots[i] == Some(
                        memory@.subrange(i * slot_size, (i + 1) * slot_size),
                    )
                &&& match registered {
                    Ok(index) => arena.id == index && next_id_after == next_id,
                    Err(_) => arena.id == next_id && next_id_after == (next_id + 1) % 0x1_0000_0000,
                }
            },
{
    arena_is_as_large_as_it_takes(0, slot_size, arena_size);
    let slots = layout_slots(slot_size, arena_size);
    let bytes = layout_bytes(slot_size, arena_size);
    let created = Ok::<ArenaView, Seq<char>>(arena);
    let mapped = choose|mapped: Option<I::Region>|
        {
            &&& #[trigger] call_ensures(I::map_arena, (&io, bytes as usize), mapped)
            &&& mapped is Some
            &&& Arena::creation_on(
                io,
                mapped->0,
                slot_size,
                slots,
                next_id,
                created,
                next_id_after,
            )
        };
    let region = mapped->0;
    assert(mapped == Some(region));
    assert(arena.slots.len() == slots);
    let (registered, memory) = choose|
        registered: Result<u32, LimboError>,
        memory: &'static mut [u8],
    |
        {
            &&& #[trigger] call_ensures(I::register_fixed_buffer, (&io, &region), registered)
            &&& #[trigger] call_ensures(I::memory, (&io, region), memory)
            &&& memory@.len() == bytes
            &&& arena.slots == cut(memory@, slot_size, slots)
            &&& match registered {
                Ok(index) => arena.id == index && next_id_after == next_id,
                Err(_) => arena.id == next_id && next_id_after == id_after(next_id),
            }
        };
    assert forall|i: int| 0 <= i < slots implies #[trigger] arena.slots[i] == Some(
        memory@.subrange(i * slot_size, (i + 1) * slot_size),
    ) by {
        assert(i * slot_size + slot_size == (i + 1) * slot_size) by (nonlinear_arith);
    }
}

/// An arena is refused only if it would exceed the limit, which the refusal tells with its size, or
/// if the I/O gave no memory of the right length. No identifier is used then.
pub proof fn arena_is_refused_for_a_reason<I: IO>(
    io: I,
    slots: nat,
    slot_size: nat,
    arena_size: nat,
    next_id: u32,
    text: Seq<char>,
    next_id_after: u32,
)
    requires
        slot_size > 0,
        Arena::creation(
            io,
            slot_size,
            arena_size,
            next_id,
            Err::<ArenaView, Seq<char>>(text),
            next_id_after,
        ),
        fewest_slots(slots, slot_size, arena_size),
    ensures
        next_id_after == next_id,
        slots * slot_size > MAX_ARENA_SIZE ==> text == over_limit_text(
            slots * slot_size,
            MAX_ARENA_SIZE as nat,
        ),
        slots * slot_size <= MAX_ARENA_SIZE ==> {
            &&& text == "Failed to allocate arena"@
            &&& !gives_memory(io, slots * slot_size)
        },
{
    arena_is_as_large_as_it_takes(slots, slot_size, arena_size);
    if slots * slot_size <= MAX_ARENA_SIZE && gives_memory(io, slots * slot_size) {
        arena_is_created_when_it_can_be(
            io,
            slots,
            slot_size,
            arena_size,
            next_id,
            Err::<ArenaView, Seq<char>>(text),
            next_id_after,
        );
    }
}

/// An arena beyond the limit is refused whatever the I/O.
pub proof fn arena_beyond_the_limit_is_refused<I: IO>(
    io: I,
    slots: nat,
    slot_size: nat,
    arena_size: nat,
    next_id: u32,
    created: Result<ArenaView, Seq<char>>,
    next_id_after: u32,
)
    requires
        slot_size > 0,
        Arena::creation(io, slot_size, arena_size, next_id, created, next_id_after),
        fewest_slots(slots, slot_size, arena_size),
        slots * slot_size > MAX_ARENA_SIZE,
    ensures
        created is Err,
        next_id_after == next_id,
{
    arena_is_as_large_as_it_takes(slots, slot_size, arena_size);
}

/// What came of creating an arena is the arena, or the text of the refusal.
pub proof fn outcome_is_what_came(created: Result<Arena, String>)
    ensures
        match created {
            Ok(arena) => outcome(created) == Ok::<ArenaView, Seq<char>>(arena@),
            Err(text) => outcome(created) == Err::<ArenaView, Seq<char>>(text@),
        },
{
}

/// The supply counts up from one identifier to the next, and starts over at zero after the last.
pub proof fn ids_count_up(id: u32)
    ensures
        id_after(id) == (id + 1) % 0x1_0000_0000,
{
}

/// A supply that was just made begins where the identifiers of registered arenas end.
pub proof fn ids_begin_after_the_registered(ids: ArenaIds)
    requires
        call_ensures(ArenaIds::new, (), ids),
    ensures
        ids@ == 2,
{
}

/// A buffer of an arena that was registered tells the index of that registration, whatever its
/// slot, its length and what it holds. A buffer of another arena tells none.
pub proof fn fixed_id_is_the_registration(arena: ArenaView, buffer: SlotView, size: nat)
    requires
        buffer.arena_id == arena.id,
    ensures
        arena.id < UNREGISTERED_START ==> {
            &&& buffer.fixed_id() == Some(arena.id)
            &&& arena.next_buffer(size).fixed_id() == Some(arena.id)
        },
        arena.id >= UNREGISTERED_START ==> {
            &&& buffer.fixed_id() is None
            &&& arena.next_buffer(size).fixed_id() is None
        },
{
}

/// The next buffer of an arena that was just created tells the index under which the I/O registered
/// its region, if the index is one of those that are kept for registered arenas.
pub proof fn created_arena_tells_its_registration<I: IO>(
    io: I,
    slot_size: nat,
    arena_size: nat,
    next_id: u32,
    arena: ArenaView,
    next_id_after: u32,
    size: nat,
)
    requires
        slot_size > 0,
        next_id >= UNREGISTERED_START,
        Arena::creation(
            io,
            slot_size,
            arena_size,
            next_id,
            Ok::<ArenaView, Seq<char>>(arena),
            next_id_after,
        ),
    ensures
        exists|region: I::Region, registered: Result<u32, LimboError>|
            {
                &&& call_ensures(
                    I::map_arena,
                    (&io, (arena.slots.len() * slot_size) as usize),
                    Some(region),
                )
                &&& #[trigger] call_ensures(I::register_fixed_buffer, (&io, &region), registered)
                &&& match registered {
                    Ok(index) if index < UNREGISTERED_START => arena.next_buffer(size).fixed_id()
                        == Some(index),
                    _ => arena.next_buffer(size).fixed_id() is None,
                }
            },
{
    created_arena_lies_on_its_region(io, slot_size, arena_size, next_id, arena, next_id_after);
}

/// What a buffer tells of its registration goes by its arena alone.
pub proof fn fixed_id_goes_by_the_arena(
    a: ArenaBuffer,
    b: ArenaBuffer,
    x: Option<u32>,
    y: Option<u32>,
)
    requires
        call_ensures(ArenaBuffer::fixed_id, (&a,), x),
        call_ensures(ArenaBuffer::fixed_id, (&b,), y),
        a@.arena_id == b@.arena_id,
    ensures
        x == y,
        x matches Some(index) ==> index == a@.arena_id && index < UNREGISTERED_START,
        x is None ==> a@.arena_id >= UNREGISTERED_START,
{
}

/// An arena can serve a length exactly if its slots are long enough and one of them is free.
pub proof fn free_slots_serve(arena: ArenaView, size: nat)
    ensures
        arena.can_serve(size) <==> {
            &&& size <= arena.slot_size
            &&& exists|i: int| 0 <= i < arena.slots.len() && #[trigger] arena.slots[i] is Some
        },
{
    assert forall|i: int| 0 <= i < arena.slots.len() && #[trigger] arena.slots[i] is Some implies
        arena.free_slots().contains(i) by {}
    if exists|i: int| arena.free_slots().contains(i) {
        let i = choose|i: int| arena.free_slots().contains(i);
        assert(arena.slots[i] is Some);
    }
}

/// The buffer that is handed out is the first slot that is free, with what it holds and the length
/// that was asked for. That slot is handed out then, and nothing else differs.
pub proof fn first_free_slot_is_handed_out(arena: ArenaView, size: nat)
    requires
        arena.can_serve(size),
    ensures
        ({
            let buffer = arena.next_buffer(size);
            let after = arena.after_alloc();
            &&& 0 <= buffer.slot < arena.slots.len()
            &&& arena.slots[buffer.slot] == Some(buffer.data)
            &&& forall|j: int| 0 <= j < buffer.slot ==> #[trigger] arena.slots[j] is None
            &&& buffer.arena_id == arena.id
            &&& buffer.len == size
            &&& after.id == arena.id
            &&& after.slot_size == arena.slot_size
            &&& after.slots.len() == arena.slots.len()
            &&& after.slots[buffer.slot] is None
            &&& forall|j: int|
                0 <= j < arena.slots.len() && j != buffer.slot ==> #[trigger] after.slots[j]
                    == arena.slots[j]
        }),
{
    super::lemma_has_lowest_free(arena, choose|i: int| arena.free_slots().contains(i));
    let slot = arena.next_buffer(size).slot;
    assert(arena.is_lowest_free(slot));
    assert(arena.free_slots().contains(slot));
    assert forall|j: int| 0 <= j < slot implies #[trigger] arena.slots[j] is None by {
        assert(!arena.free_slots().contains(j));
    }
}

/// A buffer can come back exactly while the slot that it names is handed out, if it has the whole
/// of it. Its slot then holds what the buffer held, and nothing else differs.
pub proof fn returned_slot_holds_the_bytes(arena: ArenaView, buffer: SlotView)
    ensures
        arena.issued(buffer) <==> {
            &&& buffer.arena_id == arena.id
            &&& 0 <= buffer.slot < arena.slots.len()
            &&& arena.slots[buffer.slot] is None
            &&& buffer.data.len() == arena.slot_size
            &&& buffer.len <= buffer.data.len()
        },
        arena.issued(buffer) ==> {
            let after = arena.after_free(buffer);
            &&& after.id == arena.id
            &&& after.slot_size == arena.slot_size
            &&& after.slots.len() == arena.slots.len()
            &&& after.slots[buffer.slot] == Some(buffer.data)
            &&& forall|j: int|
                0 <= j < arena.slots.len() && j != buffer.slot ==> #[trigger] after.slots[j]
                    == arena.slots[j]
        },
{
}

/// A buffer shows the first bytes of its slot, as many as were asked for. What is written to it
/// takes their place; the rest of the slot and which slot it is stay.
pub proof fn buffer_is_the_beginning_of_its_slot(buffer: SlotView, bytes: Seq<u8>)
    requires
        buffer.len <= buffer.data.len(),
        bytes.len() == buffer.len,
    ensures
        buffer.wf(),
        buffer.bytes().len() == buffer.len,
        forall|i: int| 0 <= i < buffer.len ==> #[trigger] buffer.bytes()[i] == buffer.data[i],
        ({
            let after = buffer.written(bytes);
            &&& after.arena_id == buffer.arena_id
            &&& after.slot == buffer.slot
            &&& after.len == buffer.len
            &&& after.data.len() == buffer.data.len()
            &&& forall|i: int| 0 <= i < buffer.len ==> #[trigger] after.data[i] == bytes[i]
            &&& forall|i: int|
                buffer.len <= i < buffer.data.len() ==> #[trigger] after.data[i] == buffer.data[i]
        }),
{
}

} // verus!
