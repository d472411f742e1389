//! Arenas: memory cut into slots of one size, handed out slot by slot.

use crate::bitmap::SlotBitmap;
use crate::buffer::Buffer;
use crate::error::{over_limit, over_limit_text, LimboError};
use crate::io::IO;
use branches::unlikely;
use vstd::prelude::*;
use vstd::string::*;

verus! {

/// `branches::unlikely` tells the optimiser that a branch is rarely taken; it returns the
/// condition that it is given.
pub assume_specification[ branches::unlikely ](b: bool) -> (res: bool)
    ensures
        res == b,
;

/// Largest size of an arena, in bytes.
pub const MAX_ARENA_SIZE: usize = 32 * 1024 * 1024;

/// First identifier of the arenas that are not registered; the registered ones come before it.
pub const UNREGISTERED_START: u32 = 2;

/// Arenas have a multiple of this many slots, and at least this many.
pub const SLOT_GROUP: usize = 64;

/// `n` divided by `d`, rounded up.
pub open spec fn ceil_div(n: nat, d: nat) -> nat
    recommends
        d > 0,
{
    if n % d == 0 {
        n / d
    } else {
        n / d + 1
    }
}

/// Number of slots of an arena that is to hold `arena_size` bytes in slots of `slot_size` bytes:
/// enough to hold them, in whole groups, and at least one group.
pub open spec fn layout_slots(slot_size: nat, arena_size: nat) -> nat {
    let wanted = ceil_div(arena_size, slot_size);
    let at_least = if wanted < SLOT_GROUP {
        SLOT_GROUP as nat
    } else {
        wanted
    };
    ceil_div(at_least, SLOT_GROUP as nat) * SLOT_GROUP as nat
}

/// Size in bytes of such an arena.
pub open spec fn layout_bytes(slot_size: nat, arena_size: nat) -> nat {
    layout_slots(slot_size, arena_size) * slot_size
}

/// An arena holds what was asked for and at least one group of slots, in whole groups. It is no
/// larger than that takes: it is one group, or less than a group beyond what was asked for.
pub proof fn lemma_layout(slot_size: nat, arena_size: nat)
    requires
        slot_size > 0,
    ensures
        layout_slots(slot_size, arena_size) % SLOT_GROUP as nat == 0,
        layout_slots(slot_size, arena_size) >= SLOT_GROUP,
        layout_bytes(slot_size, arena_size) >= arena_size,
        layout_bytes(slot_size, arena_size) >= SLOT_GROUP * slot_size,
        layout_bytes(slot_size, arena_size) == SLOT_GROUP * slot_size || layout_bytes(
            slot_size,
            arena_size,
        ) < arena_size + SLOT_GROUP * slot_size,
{
    let wanted = ceil_div(arena_size, slot_size);
    let slots = layout_slots(slot_size, arena_size);
    assert(arena_size <= wanted * slot_size < arena_size + slot_size) by {
        vstd::arithmetic::div_mod::lemma_fundamental_div_mod(arena_size as int, slot_size as int);
        let q = arena_size / slot_size;
        assert((q + 1) * slot_size == q * slot_size + slot_size) by (nonlinear_arith);
        assert(slot_size * q == q * slot_size) by (nonlinear_arith);
    }
    assert(slots >= wanted && slots >= 64);
    assert(slots * slot_size >= wanted * slot_size) by (nonlinear_arith)
        requires
            slots >= wanted,
    ;
    assert(slots * slot_size >= 64 * slot_size) by (nonlinear_arith)
        requires
            slots >= 64,
    ;
    if wanted > 64 {
        assert(slots <= wanted + 63);
        assert(slots * slot_size <= wanted * slot_size + 63 * slot_size) by (nonlinear_arith)
            requires
                slots <= wanted + 63,
        ;
    } else {
        assert(slots == 64);
    }
}

/// Computes `layout_slots` and `layout_bytes`. There is no result if the size in bytes is more
/// than a `usize` can hold.
pub fn layout(slot_size: usize, arena_size: usize) -> (res: Option<(usize, usize)>)
    requires
        slot_size > 0,
    ensures
        match res {
            Some((slots, bytes)) => {
                &&& slots == layout_slots(slot_size as nat, arena_size as nat)
                &&& bytes == layout_bytes(slot_size as nat, arena_size as nat)
            },
            None => layout_bytes(slot_size as nat, arena_size as nat) > usize::MAX,
        },
{
    let ghost slots = layout_slots(slot_size as nat, arena_size as nat);
    proof {
        assert(slots <= slots * slot_size) by (nonlinear_arith)
            requires
                slot_size >= 1,
        ;
        assert(arena_size as int / slot_size as int <= arena_size) by (nonlinear_arith)
            requires
                slot_size >= 1,
                arena_size >= 0,
        ;
    }
    let mut min_slots: usize = arena_size / slot_size;
    if arena_size % slot_size != 0 {
        assert(min_slots < usize::MAX) by {
            if slot_size == 1 {
                assert(arena_size % 1 == 0);
            } else {
                assert(arena_size as int / slot_size as int <= arena_size as int / 2)
                    by (nonlinear_arith)
                    requires
                        slot_size >= 2,
                        arena_size >= 0,
                ;
            }
        }
        min_slots += 1;
    }
    if min_slots < SLOT_GROUP {
        min_slots = SLOT_GROUP;
    }
    let padded: usize = match min_slots.checked_add(63) {
        Some(padded) => padded,
        None => {
            assert(slots > usize::MAX) by {
                assert(min_slots <= slots && slots % 64 == 0);
                assert(usize::MAX == 0xffff_ffff || usize::MAX == 0xffff_ffff_ffff_ffff);
            }
            return None;
        },
    };
    let rounded_slots: usize = padded & !63;
    assert(rounded_slots == padded / 64 * 64) by {
        assert((padded & !63usize) == (padded / 64) * 64) by (bit_vector);
    }
    match rounded_slots.checked_mul(slot_size) {
        Some(rounded_bytes) => Some((rounded_slots, rounded_bytes)),
        None => None,
    }
}

/// The identifiers that arenas get which are not registered, in turn. A program has one supply of
/// them, from which every pool draws.
pub struct ArenaIds {
    next: u32,
}

impl View for ArenaIds {
    type V = u32;

    /// The identifier that comes next.
    closed spec fn view(&self) -> u32 {
        self.next
    }
}

/// The identifier after `id`. The supply starts over at zero when it has run out.
pub open spec fn id_after(id: u32) -> u32 {
    if id == u32::MAX {
        0
    } else {
        (id + 1) as u32
    }
}

impl ArenaIds {
    /// The whole supply.
    pub fn new() -> (res: ArenaIds)
        ensures
            res@ == UNREGISTERED_START,
    {
        ArenaIds { next: UNREGISTERED_START }
    }

    /// Takes the next identifier.
    pub fn take_next(&mut self) -> (res: u32)
        ensures
            res == old(self)@,
            final(self)@ == id_after(old(self)@),
            final(self)@ == (old(self)@ + 1) % 0x1_0000_0000,
    {
        let id: u32 = self.next;
        self.next = id.wrapping_add(1);
        id
    }
}

/// What a buffer of an arena is: which slot of which arena, how many of the slot's bytes were
/// asked for, and what the slot holds.
pub struct SlotView {
    pub arena_id: u32,
    pub slot: int,
    pub len: nat,
    pub data: Seq<u8>,
}

impl SlotView {
    /// What was asked for fits in the slot.
    pub open spec fn wf(self) -> bool {
        self.len <= self.data.len()
    }

    /// The bytes that were asked for.
    pub open spec fn bytes(self) -> Seq<u8> {
        self.data.subrange(0, self.len as int)
    }

    /// The buffer once `bytes` have been written to it. The rest of the slot keeps what it holds.
    pub open spec fn written(self, bytes: Seq<u8>) -> SlotView {
        SlotView { data: bytes + self.data.skip(self.len as int), ..self }
    }

    /// The identifier of the arena, if it is one of a registered arena.
    pub open spec fn fixed_id(self) -> Option<u32> {
        if self.arena_id < UNREGISTERED_START {
            Some(self.arena_id)
        } else {
            None
        }
    }
}

/// A buffer allocated from an arena. It has its slot to itself until it is given back.
#[derive(Debug)]
pub struct ArenaBuffer {
    /// Memory of the slot.
    memory: &'static mut [u8],
    /// Identifier of the arena that the buffer came from.
    arena_id: u32,
    /// Index of the slot.
    slot_idx: u32,
    /// The length that was asked for.
    len: usize,
}

impl View for ArenaBuffer {
    type V = SlotView;

    closed spec fn view(&self) -> SlotView {
        SlotView {
            arena_id: self.arena_id,
            slot: self.slot_idx as int,
            len: self.len as nat,
            data: self.memory@,
        }
    }
}

impl ArenaBuffer {
    fn new(memory: &'static mut [u8], len: usize, arena_id: u32, slot_idx: u32) -> (res: Self)
        ensures
            res@ == (SlotView {
                arena_id,
                slot: slot_idx as int,
                len: len as nat,
                data: old(memory)@,
            }),
    {
        ArenaBuffer { memory, arena_id, slot_idx, len }
    }

    /// The identifier of the arena, if the arena was registered for fixed-buffer I/O.
    pub fn fixed_id(&self) -> (res: Option<u32>)
        ensures
            res == self@.fixed_id(),
            self@.arena_id < UNREGISTERED_START ==> res == Some(self@.arena_id),
            self@.arena_id >= UNREGISTERED_START ==> res is None,
    {
        // Arenas that are not registered have identifiers from UNREGISTERED_START on.
        if self.arena_id < UNREGISTERED_START {
            Some(self.arena_id)
        } else {
            None
        }
    }

    /// The length that was asked for. The slot itself can be longer.
    pub fn logical_len(&self) -> (res: usize)
        ensures
            res == self@.len,
    {
        self.len
    }

    /// The bytes of the buffer.
    pub fn as_slice(&self) -> (res: &[u8])
        requires
            self@.wf(),
        ensures
            res@ == self@.bytes(),
    {
        vstd::slice::slice_subrange(&*self.memory, 0, self.len)
    }

    /// The bytes of the buffer, to be written.
    pub fn as_mut_slice(&mut self) -> (res: &mut [u8])
        requires
            old(self)@.wf(),
        ensures
            res@ == old(self)@.bytes(),
            final(self)@ == old(self)@.written(final(res)@),
            final(res)@.len() == res@.len() ==> final(self)@.wf() && final(self)@.bytes()
                == final(res)@,
    {
        let (head, _) = self.memory.split_at_mut(self.len);
        head
    }
}

/// What an arena is: its identifier, the size of its slots, and of each slot what it holds while
/// it is free, or nothing while it is handed out.
pub struct ArenaView {
    pub id: u32,
    pub slot_size: nat,
    pub slots: Seq<Option<Seq<u8>>>,
}

/// `memory` cut into `n` slots of `slot_size` bytes, all free.
pub open spec fn cut(memory: Seq<u8>, slot_size: nat, n: nat) -> Seq<Option<Seq<u8>>> {
    Seq::new(n, |i: int| Some(memory.subrange(i * slot_size, i * slot_size + slot_size)))
}

impl ArenaView {
    /// Slots are not empty, they come in groups, and all together they stay within the limit.
    pub open spec fn wf(self) -> bool {
        &&& self.slot_size > 0
        &&& self.slots.len() >= SLOT_GROUP
        &&& self.slots.len() % SLOT_GROUP as nat == 0
        &&& self.size() <= MAX_ARENA_SIZE
        &&& forall|i: int|
            0 <= i < self.slots.len() && #[trigger] self.slots[i] is Some ==> self.slots[i]->0.len()
                == self.slot_size
    }

    /// Size in bytes.
    pub open spec fn size(self) -> nat {
        self.slots.len() * self.slot_size
    }

    /// The slots that are free.
    pub open spec fn free_slots(self) -> Set<int> {
        Set::new(|i: int| 0 <= i < self.slots.len() && self.slots[i] is Some)
    }

    /// Number of slots that are handed out.
    pub open spec fn allocated(self) -> int {
        self.slots.len() - self.free_slots().len()
    }

    /// Slot `i` is free and none before it is.
    pub open spec fn is_lowest_free(self, i: int) -> bool {
        self.free_slots().contains(i) && forall|j: int| j < i ==> !self.free_slots().contains(j)
    }

    /// The free slot with the lowest index.
    pub open spec fn lowest_free(self) -> int {
        choose|i: int| self.is_lowest_free(i)
    }

    /// Whether a buffer of `size` bytes can be had.
    pub open spec fn can_serve(self, size: nat) -> bool {
        size <= self.slot_size && exists|i: int| self.free_slots().contains(i)
    }

    /// The buffer of `size` bytes that is handed out next.
    pub open spec fn next_buffer(self, size: nat) -> SlotView {
        SlotView {
            arena_id: self.id,
            slot: self.lowest_free(),
            len: size,
            data: self.slots[self.lowest_free()]->0,
        }
    }

    /// The arena once it is.
    pub open spec fn after_alloc(self) -> ArenaView {
        ArenaView { slots: self.slots.update(self.lowest_free(), None), ..self }
    }

    /// `buffer` is out and can come back: it carries this arena's identifier, its slot is handed
    /// out, and it has the whole slot. As long as no other arena in use carries this identifier,
    /// that is a buffer which this arena handed out.
    pub open spec fn issued(self, buffer: SlotView) -> bool {
        &&& buffer.arena_id == self.id
        &&& 0 <= buffer.slot < self.slots.len()
        &&& self.slots[buffer.slot] is None
        &&& buffer.data.len() == self.slot_size
        &&& buffer.len <= self.slot_size
    }

    /// The arena once `buffer` has come back.
    pub open spec fn after_free(self, buffer: SlotView) -> ArenaView {
        ArenaView { slots: self.slots.update(buffer.slot, Some(buffer.data)), ..self }
    }
}

/// Preallocated memory that is handed out slot by slot.
#[derive(Debug)]
pub struct Arena {
    /// Identifier that ties buffers to the arena. If the arena is registered, it is the index
    /// under which it was.
    id: u32,
    /// Memory of the slots that are not handed out.
    slots: Vec<Option<&'static mut [u8]>>,
    /// Number of slots that are handed out.
    allocated_slots: usize,
    /// Slots that are free.
    free_slots: SlotBitmap,
    /// Size of the arena in bytes.
    arena_size: usize,
    /// Size of a slot in bytes.
    slot_size: usize,
}

/// What a piece of memory holds, if it is there.
pub open spec fn contents(memory: Option<&'static mut [u8]>) -> Option<Seq<u8>> {
    match memory {
        Some(memory) => Some(memory@),
        None => None,
    }
}

impl View for Arena {
    type V = ArenaView;

    closed spec fn view(&self) -> ArenaView {
        ArenaView {
            id: self.id,
            slot_size: self.slot_size as nat,
            slots: Seq::new(self.slots@.len(), |i: int| contents(self.slots@[i])),
        }
    }
}

/// What came of creating an arena.
pub open spec fn outcome(created: Result<Arena, String>) -> Result<ArenaView, Seq<char>> {
    match created {
        Ok(arena) => Ok(arena@),
        Err(text) => Err(text@),
    }
}

impl Arena {
    /// The bitmap and the counts agree with the slots.
    pub closed spec fn consistent(&self) -> bool {
        &&& self.free_slots.wf()
        &&& self.free_slots.slots() == self.slots@.len()
        &&& self.free_slots@ == self@.free_slots()
        &&& self.allocated_slots == self@.allocated()
        &&& self.arena_size == self@.size()
    }

    pub open spec fn wf(&self) -> bool {
        self@.wf() && self.consistent()
    }

    /// `outcome` is what can come of creating an arena with slots of `slot_size` bytes for
    /// `arena_size` bytes: a refusal that tells the size if the arena were too large, otherwise
    /// what follows from the region that `io` mapped, if it did.
    pub open spec fn creation<I: IO>(
        io: I,
        slot_size: nat,
        arena_size: nat,
        next_id: u32,
        outcome: Result<ArenaView, Seq<char>>,
        next_id_after: u32,
    ) -> bool {
        let bytes = layout_bytes(slot_size, arena_size);
        if bytes > MAX_ARENA_SIZE {
            &&& outcome == Err::<ArenaView, Seq<char>>(
                over_limit_text(bytes, MAX_ARENA_SIZE as nat),
            )
            &&& next_id_after == next_id
        } else {
            exists|mapped: Option<I::Region>|
                {
                    &&& #[trigger] call_ensures(I::map_arena, (&io, bytes as usize), mapped)
                    &&& match mapped {
                        Some(region) => Self::creation_on(
                            io,
                            region,
                            slot_size,
                            layout_slots(slot_size, arena_size),
                            next_id,
                            outcome,
                            next_id_after,
                        ),
                        None => {
                            &&& outcome == Err::<ArenaView, Seq<char>>("Failed to allocate arena"@)
                            &&& next_id_after == next_id
                        },
                    }
                }
        }
    }

    /// `outcome` is what can come of creating an arena of `n_slots` slots on `region`, which `io`
    /// was asked to register, and whose memory the arena uses. The arena is identified by the index
    /// of the registration, or by the next identifier if there was none.
    pub open spec fn creation_on<I: IO>(
        io: I,
        region: I::Region,
        slot_size: nat,
        n_slots: nat,
        next_id: u32,
        outcome: Result<ArenaView, Seq<char>>,
        next_id_after: u32,
    ) -> bool {
        exists|registered: Result<u32, LimboError>, memory: &'static mut [u8]|
            {
                &&& #[trigger] call_ensures(I::register_fixed_buffer, (&io, &region), registered)
                &&& #[trigger] call_ensures(I::memory, (&io, region), memory)
                &&& if memory@.len() == n_slots * slot_size {
                    &&& outcome matches Ok(arena)
                    &&& arena.slot_size == slot_size
                    &&& arena.slots == cut(memory@, slot_size, n_slots)
                    &&& match registered {
                        Ok(index) => arena.id == index && next_id_after == next_id,
                        Err(_) => arena.id == next_id && next_id_after == id_after(next_id),
                    }
                } else {
                    &&& outcome == Err::<ArenaView, Seq<char>>("Failed to allocate arena"@)
                    &&& next_id_after == next_id
                }
            }
    }

    /// Creates an arena of slots of `slot_size` bytes that holds at least `arena_size` bytes, and
    /// at least one group of slots. Its memory is a region that `io` maps and is asked to register.
    /// Where `io` does not register it, the arena gets the next of `ids`.
    pub fn new<I: IO>(slot_size: usize, arena_size: usize, io: &I, ids: &mut ArenaIds) -> (res:
        Result<Arena, String>)
        requires
            slot_size > 0,
            layout_bytes(slot_size as nat, arena_size as nat) <= usize::MAX,
        ensures
            res matches Ok(arena) ==> arena.wf(),
            Self::creation(
                *io,
                slot_size as nat,
                arena_size as nat,
                old(ids)@,
                outcome(res),
                final(ids)@,
            ),
    {
        let (rounded_slots, rounded_bytes) = layout(slot_size, arena_size).unwrap();
        // Guard against the global cap
        if unlikely(rounded_bytes > MAX_ARENA_SIZE) {
            return Err(over_limit(rounded_bytes, MAX_ARENA_SIZE));
        }
        match io.map_arena(rounded_bytes) {
            Some(region) => {
                let registered = io.register_fixed_buffer(&region);
                let memory = io.memory(region);
                if memory.len() != rounded_bytes {
                    return Err("Failed to allocate arena".to_owned());
                }
                Ok(Arena::on_memory(slot_size, rounded_slots, memory, registered, ids))
            },
            None => Err("Failed to allocate arena".to_owned()),
        }
    }

    /// The arena of `n_slots` slots on `memory`, for whatever the registration of that memory gave.
    pub fn on_memory(
        slot_size: usize,
        n_slots: usize,
        memory: &'static mut [u8],
        registered: Result<u32, LimboError>,
        ids: &mut ArenaIds,
    ) -> (res: Arena)
        requires
            slot_size > 0,
            n_slots >= SLOT_GROUP,
            n_slots % SLOT_GROUP == 0,
            n_slots * slot_size <= MAX_ARENA_SIZE,
            old(memory)@.len() == n_slots * slot_size,
        ensures
            res.wf(),
            res@.slot_size == slot_size,
            res@.slots == cut(old(memory)@, slot_size as nat, n_slots as nat),
            registered matches Ok(id) ==> res@.id == id && final(ids)@ == old(ids)@,
            registered is Err ==> res@.id == old(ids)@ && final(ids)@ == id_after(old(ids)@),
    {
        let id: u32 = match registered {
            Ok(id) => id,
            Err(_) => ids.take_next(),
        };
        let arena_size: usize = memory.len();
        let ghost bytes = memory@;
        let slots = cut_slots(memory, slot_size, n_slots);
        assert(n_slots <= MAX_ARENA_SIZE) by (nonlinear_arith)
            requires
                n_slots * slot_size <= MAX_ARENA_SIZE,
                slot_size >= 1,
        ;
        let res = Arena {
            id,
            slots,
            allocated_slots: 0,
            free_slots: SlotBitmap::new(n_slots as u32),
            arena_size,
            slot_size,
        };
        proof {
            assert(res@.slots =~= cut(bytes, slot_size as nat, n_slots as nat));
            assert forall|i: int| 0 <= i < n_slots implies #[trigger] res@.slots[i]->0.len()
                == slot_size by {
                lemma_slot_in_arena(i, n_slots as int, slot_size as int);
            }
            assert(res@.free_slots() =~= vstd::set_lib::set_int_range(0, n_slots as int));
            vstd::set_lib::lemma_int_range(0, n_slots as int);
        }
        res
    }

    /// Allocates a buffer of `size` bytes: the lowest free slot, if there is one and `size` is no
    /// more than a slot.
    pub fn try_alloc(&mut self, size: usize) -> (res: Option<Buffer>)
        requires
            old(self).wf(),
        ensures
            final(self).wf(),
            old(self)@.can_serve(size as nat) ==> {
                &&& res matches Some(Buffer::Pooled(buffer))
                &&& buffer@ == old(self)@.next_buffer(size as nat)
                &&& buffer@.wf()
                &&& final(self)@ == old(self)@.after_alloc()
            },
            !old(self)@.can_serve(size as nat) ==> res is None && final(self)@ == old(self)@,
    {
        if size > self.slot_size {
            // One buffer is one slot. The caller falls back to temporary memory.
            return None;
        }
        proof {
            self.free_slots.lemma_free_slots();
        }
        match self.free_slots.alloc_one() {
            None => None,
            Some(slot) => {
                proof {
                    lemma_lowest_free(old(self)@, slot as int);
                    assert(contents(old(self).slots@[slot as int]) is Some);
                    assert(old(self)@.free_slots().len() > 0);
                }
                self.allocated_slots += 1;
                let memory = self.slots[slot as usize].take().unwrap();
                let buffer = ArenaBuffer::new(memory, size, self.id, slot);
                proof {
                    assert(self@.slots =~= old(self)@.slots.update(slot as int, None));
                    assert(self@.free_slots() =~= old(self)@.free_slots().remove(slot as int));
                }
                Some(Buffer::Pooled(buffer))
            },
        }
    }

    /// Whether `buffer` is out and can come back.
    pub fn has_issued(&self, buffer: &ArenaBuffer) -> (res: bool)
        requires
            self.wf(),
        ensures
            res == self@.issued(buffer@),
    {
        buffer.arena_id == self.id && (buffer.slot_idx as usize) < self.slots.len()
            && !self.free_slots.is_free(buffer.slot_idx) && buffer.memory.len() == self.slot_size
            && buffer.len <= self.slot_size
    }

    /// Takes `buffer` back. Its slot is free again and keeps what was written to it.
    pub fn free(&mut self, buffer: ArenaBuffer)
        requires
            old(self).wf(),
            old(self)@.issued(buffer@),
        ensures
            final(self).wf(),
            final(self)@ == old(self)@.after_free(buffer@),
    {
        let ArenaBuffer { memory, arena_id: _, slot_idx, len: _ } = buffer;
        proof {
            self.free_slots.lemma_free_slots();
        }
        self.free_slots.free_one(slot_idx);
        proof {
            self.free_slots.lemma_free_slots();
            assert(self.free_slots@.len() == old(self)@.free_slots().len() + 1);
        }
        self.allocated_slots -= 1;
        self.slots[slot_idx as usize] = Some(memory);
        proof {
            assert(self@.slots =~= old(self)@.slots.update(slot_idx as int, Some(buffer@.data)));
            assert(self@.free_slots() =~= old(self)@.free_slots().insert(slot_idx as int));
        }
    }
}

/// Slot `i` of `n` lies within an arena of `n` slots.
pub proof fn lemma_slot_in_arena(i: int, n: int, slot_size: int)
    requires
        0 <= i < n,
        0 <= slot_size,
    ensures
        0 <= i * slot_size,
        i * slot_size + slot_size == (i + 1) * slot_size,
        (i + 1) * slot_size <= n * slot_size,
{
    assert(0 <= i * slot_size) by (nonlinear_arith)
        requires
            0 <= i,
            0 <= slot_size,
    ;
    assert(i * slot_size + slot_size == (i + 1) * slot_size) by (nonlinear_arith);
    assert((i + 1) * slot_size <= n * slot_size) by (nonlinear_arith)
        requires
            i + 1 <= n,
            0 <= slot_size,
    ;
}

/// Cuts `memory` into `n_slots` slots, one after the other.
fn cut_slots(memory: &'static mut [u8], slot_size: usize, n_slots: usize) -> (res: Vec<
    Option<&'static mut [u8]>,
>)
    requires
        old(memory)@.len() == n_slots * slot_size,
    ensures
        res@.len() == n_slots,
        forall|i: int|
            0 <= i < n_slots ==> contents(#[trigger] res@[i]) == cut(
                old(memory)@,
                slot_size as nat,
                n_slots as nat,
            )[i],
{
    let ghost bytes = memory@;
    let mut slots: Vec<Option<&'static mut [u8]>> = Vec::new();
    let mut rest = memory;
    let mut i: usize = 0;
    while i < n_slots
        invariant
            i <= n_slots,
            bytes.len() == n_slots * slot_size,
            0 <= i * slot_size <= n_slots * slot_size,
            rest@ == bytes.subrange(i * slot_size, n_slots * slot_size),
            slots@.len() == i,
            forall|j: int|
                0 <= j < i ==> contents(#[trigger] slots@[j]) == cut(
                    bytes,
                    slot_size as nat,
                    n_slots as nat,
                )[j],
        decreases n_slots - i,
    {
        proof {
            lemma_slot_in_arena(i as int, n_slots as int, slot_size as int);
        }
        let (head, tail) = rest.split_at_mut(slot_size);
        assert(head@ =~= bytes.subrange(i * slot_size, i * slot_size + slot_size));
        slots.push(Some(head));
        rest = tail;
        i += 1;
    }
    slots
}

/// There is one lowest free slot at most.
pub proof fn lemma_lowest_free(arena: ArenaView, slot: int)
    requires
        arena.is_lowest_free(slot),
    ensures
        arena.lowest_free() == slot,
{
    let other = arena.lowest_free();
    assert(arena.is_lowest_free(other));
    if other < slot {
        assert(!arena.free_slots().contains(other));
    } else if slot < other {
        assert(!arena.free_slots().contains(slot));
    }
}

} // verus!
