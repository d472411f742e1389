//! What pools are for, told of their page size and the slots of their arenas.

use super::arena::{
    arena_beyond_the_limit_is_refused, arena_is_as_large_as_it_takes,
    arena_is_created_when_it_can_be, arena_is_refused_for_a_reason,
    created_arena_lies_on_its_region, fewest_slots, first_free_slot_is_handed_out,
    free_slots_serve, gives_memory, returned_slot_holds_the_bytes,
};
use crate::arena::{Arena, ArenaView, SlotView, MAX_ARENA_SIZE, UNREGISTERED_START};
use crate::buffer::{Buffer, TempView, DEFAULT_PAGE_SIZE, WAL_FRAME_HEADER_SIZE};
use crate::error::{over_limit_text, LimboError};
use crate::io::IO;
use crate::pool::{BufferPool, PoolView};
use std::sync::Arc;
use vstd::prelude::*;

verus! {

/// The page size that was set, or the default.
pub open spec fn page_bytes(pool: PoolView) -> nat {
    match pool.page_size {
        Some(size) => size,
        None => DEFAULT_PAGE_SIZE as nat,
    }
}

/// A slot of `arena` is free.
pub open spec fn has_free_slot(arena: ArenaView) -> bool {
    exists|i: int| 0 <= i < arena.slots.len() && #[trigger] arena.slots[i] is Some
}

/// `slot` is the first free slot of `before`, with `len` bytes of it to be used, and `after` is
/// `before` with that slot handed out.
pub open spec fn takes_first_free(
    before: ArenaView,
    len: nat,
    slot: SlotView,
    after: ArenaView,
) -> bool {
    &&& 0 <= slot.slot < before.slots.len()
    &&& before.slots[slot.slot] == Some(slot.data)
    &&& forall|j: int| 0 <= j < slot.slot ==> #[trigger] before.slots[j] is None
    &&& slot.arena_id == before.id
    &&& slot.len == len
    &&& after.id == before.id
    &&& after.slot_size == before.slot_size
    &&& after.slots.len() == before.slots.len()
    &&& after.slots[slot.slot] is None
    &&& forall|j: int|
        0 <= j < before.slots.len() && j != slot.slot ==> #[trigger] after.slots[j]
            == before.slots[j]
}

/// `slot` names a slot of `arena` that is handed out, and has the whole of it.
pub open spec fn is_out(arena: ArenaView, slot: SlotView) -> bool {
    &&& slot.arena_id == arena.id
    &&& 0 <= slot.slot < arena.slots.len()
    &&& arena.slots[slot.slot] is None
    &&& slot.data.len() == arena.slot_size
    &&& slot.len <= slot.data.len()
}

/// `after` is `before` with `slot` free again, and what it held kept.
pub open spec fn takes_back(before: ArenaView, slot: SlotView, after: ArenaView) -> bool {
    &&& after.id == before.id
    &&& after.slot_size == before.slot_size
    &&& after.slots.len() == before.slots.len()
    &&& after.slots[slot.slot] == Some(slot.data)
    &&& forall|j: int|
        0 <= j < before.slots.len() && j != slot.slot ==> #[trigger] after.slots[j]
            == before.slots[j]
}

/// A pool that was just begun keeps the size that was asked for, whatever it is, and the I/O. It
/// has neither page size nor arenas.
pub proof fn begun_pool_keeps_the_size<I: IO>(io: Arc<I>, arena_size: usize, pool: BufferPool<I>)
    requires
        call_ensures(BufferPool::<I>::begin_init, (&io, arena_size), pool),
    ensures
        pool@.arena_size == arena_size,
        pool.io() == Some(io),
        pool@.page_size is None,
        pool@.page_arena is None,
        pool@.wal_frame_arena is None,
{
}

/// A new pool has the size that was asked for and nothing else. Setting the page size of a pool
/// sets that alone. A pool waits for its page size until it has one or has its arena for pages.
pub proof fn new_pool_is_bare(pool: PoolView, arena_size: nat, page_size: nat)
    ensures
        PoolView::new(arena_size).arena_size == arena_size,
        PoolView::new(arena_size).page_size is None,
        PoolView::new(arena_size).page_arena is None,
        PoolView::new(arena_size).wal_frame_arena is None,
        pool.with_page_size(page_size).page_size == Some(page_size),
        pool.with_page_size(page_size).arena_size == pool.arena_size,
        pool.with_page_size(page_size).page_arena == pool.page_arena,
        pool.with_page_size(page_size).wal_frame_arena == pool.wal_frame_arena,
        pool.awaits_page_size() <==> pool.page_size is None && pool.page_arena is None,
{
}

/// A pool that was begun for `arena_size` bytes has, once its page size is set, two arenas which
/// each hold that many bytes, in the fewest slots that do: pages in one, frames in the other. Every
/// slot is free.
pub proof fn arenas_hold_the_size_asked_for<I: IO>(
    io: I,
    shared: Arc<I>,
    arena_size: usize,
    pool: BufferPool<I>,
    page_size: nat,
    next_id: u32,
    after: PoolView,
    next_id_after: u32,
)
    requires
        *shared == io,
        call_ensures(BufferPool::<I>::begin_init, (&shared, arena_size), pool),
        page_size > 0,
        pool@.with_page_size(page_size).init(io, next_id, None, after, next_id_after),
    ensures
        after.arena_size == arena_size,
        after.page_size == Some(page_size),
        after.page_arena matches Some(arena) && {
            &&& arena.slot_size == page_size
            &&& arena.slots.len() * page_size >= arena_size
            &&& fewest_slots(arena.slots.len(), page_size, arena_size as nat)
            &&& forall|i: int| 0 <= i < arena.slots.len() ==> #[trigger] arena.slots[i] is Some
        },
        after.wal_frame_arena matches Some(arena) && {
            &&& arena.slot_size == page_size + WAL_FRAME_HEADER_SIZE
            &&& arena.slots.len() * arena.slot_size >= arena_size
            &&& fewest_slots(arena.slots.len(), arena.slot_size, arena_size as nat)
            &&& forall|i: int| 0 <= i < arena.slots.len() ==> #[trigger] arena.slots[i] is Some
        },
{
    let start = pool@.with_page_size(page_size);
    let (page, between) = choose|page: Result<ArenaView, Seq<char>>, between: u32| #[trigger]
        start.init_with(io, next_id, page, between, None, after, next_id_after);
    let arena = page->Ok_0;
    let middle = PoolView { page_arena: Some(arena), ..start };
    let size = arena_size as nat;
    created_arena_lies_on_its_region(io, page_size, size, next_id, arena, between);
    let frame = choose|frame: Result<ArenaView, Seq<char>>| #[trigger]
        middle.init_wal_frame_arena_with(io, between, frame, None, after, next_id_after);
    let second = frame->Ok_0;
    let frame_size = page_size + WAL_FRAME_HEADER_SIZE as nat;
    created_arena_lies_on_its_region(io, frame_size, size, between, second, next_id_after);
}

/// Setting the page size succeeds when it can: if neither arena exceeds the limit and the I/O gives
/// memory for both. Both arenas are there then, with the fewest slots that hold what was asked for.
pub proof fn page_size_is_set_when_it_can_be<I: IO>(
    pool: PoolView,
    page_size: nat,
    page_slots: nat,
    frame_slots: nat,
    io: I,
    next_id: u32,
    failure: Option<Seq<char>>,
    after: PoolView,
    next_id_after: u32,
)
    requires
        page_size > 0,
        pool.page_size is None,
        pool.page_arena is None,
        pool.with_page_size(page_size).init(io, next_id, failure, after, next_id_after),
        fewest_slots(page_slots, page_size, pool.arena_size),
        fewest_slots(frame_slots, page_size + WAL_FRAME_HEADER_SIZE as nat, pool.arena_size),
        page_slots * page_size <= MAX_ARENA_SIZE,
        frame_slots * (page_size + WAL_FRAME_HEADER_SIZE as nat) <= MAX_ARENA_SIZE,
        gives_memory(io, page_slots * page_size),
        gives_memory(io, frame_slots * (page_size + WAL_FRAME_HEADER_SIZE as nat)),
    ensures
        failure is None,
        after.page_size == Some(page_size),
        after.arena_size == pool.arena_size,
        after.page_arena matches Some(arena) && {
            &&& arena.slot_size == page_size
            &&& arena.slots.len() == page_slots
            &&& forall|i: int| 0 <= i < page_slots ==> #[trigger] arena.slots[i] is Some
        },
        after.wal_frame_arena matches Some(arena) && {
            &&& arena.slot_size == page_size + WAL_FRAME_HEADER_SIZE
            &&& arena.slots.len() == frame_slots
            &&& forall|i: int| 0 <= i < frame_slots ==> #[trigger] arena.slots[i] is Some
        },
{
    let start = pool.with_page_size(page_size);
    let size = pool.arena_size;
    let (page, between) = choose|page: Result<ArenaView, Seq<char>>, between: u32| #[trigger]
        start.init_with(io, next_id, page, between, failure, after, next_id_after);
    arena_is_created_when_it_can_be(io, page_slots, page_size, size, next_id, page, between);
    let middle = PoolView { page_arena: Some(page->Ok_0), ..start };
    let frame = choose|frame: Result<ArenaView, Seq<char>>| #[trigger]
        middle.init_wal_frame_arena_with(io, between, frame, failure, after, next_id_after);
    arena_is_created_when_it_can_be(
        io,
        frame_slots,
        page_size + WAL_FRAME_HEADER_SIZE as nat,
        size,
        between,
        frame,
        next_id_after,
    );
}

/// If setting the page size fails, one of the arenas exceeds the limit or the I/O gave no memory
/// for it, and the failure tells which. The arena for pages stays if it was the other that failed.
pub proof fn page_size_fails_for_a_reason<I: IO>(
    pool: PoolView,
    page_size: nat,
    page_slots: nat,
    frame_slots: nat,
    io: I,
    next_id: u32,
    text: Seq<char>,
    after: PoolView,
    next_id_after: u32,
)
    requires
        page_size > 0,
        pool.page_size is None,
        pool.page_arena is None,
        pool.wal_frame_arena is None,
        pool.with_page_size(page_size).init(io, next_id, Some(text), after, next_id_after),
        fewest_slots(page_slots, page_size, pool.arena_size),
        fewest_slots(frame_slots, page_size + WAL_FRAME_HEADER_SIZE as nat, pool.arena_size),
    ensures
        after.arena_size == pool.arena_size,
        after.page_size == Some(page_size),
        after.wal_frame_arena is None,
        ({
            let page_bytes = page_slots * page_size;
            let frame_bytes = frame_slots * (page_size + WAL_FRAME_HEADER_SIZE as nat);
            match after.page_arena {
                None => {
                    &&& next_id_after == next_id
                    &&& if page_bytes > MAX_ARENA_SIZE {
                        text == "Failed to create arena: "@ + over_limit_text(
                            page_bytes,
                            MAX_ARENA_SIZE as nat,
                        )
                    } else {
                        &&& text == "Failed to create arena: "@ + "Failed to allocate arena"@
                        &&& !gives_memory(io, page_bytes)
                    }
                },
                Some(arena) => {
                    &&& arena.slot_size == page_size
                    &&& arena.slots.len() == page_slots
                    &&& page_bytes <= MAX_ARENA_SIZE
                    &&& if frame_bytes > MAX_ARENA_SIZE {
                        text == "Failed to create WAL frame arena: "@ + over_limit_text(
                            frame_bytes,
                            MAX_ARENA_SIZE as nat,
                        )
                    } else {
                        &&& text == "Failed to create WAL frame arena: "@
                            + "Failed to allocate arena"@
                        &&& !gives_memory(io, frame_bytes)
                    }
                },
            }
        }),
{
    let start = pool.with_page_size(page_size);
    let size = pool.arena_size;
    let frame_size = page_size + WAL_FRAME_HEADER_SIZE as nat;
    let told = Some(text);
    let (page, between) = choose|page: Result<ArenaView, Seq<char>>, between: u32| #[trigger]
        start.init_with(io, next_id, page, between, told, after, next_id_after);
    match page {
        Err(reason) => {
            arena_is_refused_for_a_reason(
                io,
                page_slots,
                page_size,
                size,
                next_id,
                reason,
                between,
            );
        },
        Ok(arena) => {
            created_arena_lies_on_its_region(io, page_size, size, next_id, arena, between);
            arena_is_as_large_as_it_takes(page_slots, page_size, size);
            arena_is_as_large_as_it_takes(arena.slots.len(), page_size, size);
            let middle = PoolView { page_arena: Some(arena), ..start };
            let frame = choose|frame: Result<ArenaView, Seq<char>>| #[trigger]
                middle.init_wal_frame_arena_with(io, between, frame, told, after, next_id_after);
            arena_is_refused_for_a_reason(
                io,
                frame_slots,
                frame_size,
                size,
                between,
                frame->Err_0,
                next_id_after,
            );
        },
    }
}

/// A page size for which one of the arenas would exceed the limit cannot be set, whatever the I/O.
pub proof fn page_size_beyond_the_limit_fails<I: IO>(
    pool: PoolView,
    page_size: nat,
    page_slots: nat,
    frame_slots: nat,
    io: I,
    next_id: u32,
    failure: Option<Seq<char>>,
    after: PoolView,
    next_id_after: u32,
)
    requires
        page_size > 0,
        pool.page_size is None,
        pool.page_arena is None,
        pool.with_page_size(page_size).init(io, next_id, failure, after, next_id_after),
        fewest_slots(page_slots, page_size, pool.arena_size),
        fewest_slots(frame_slots, page_size + WAL_FRAME_HEADER_SIZE as nat, pool.arena_size),
        page_slots * page_size > MAX_ARENA_SIZE || frame_slots * (page_size
            + WAL_FRAME_HEADER_SIZE as nat) > MAX_ARENA_SIZE,
    ensures
        failure is Some,
{
    let start = pool.with_page_size(page_size);
    let size = pool.arena_size;
    let frame_size = page_size + WAL_FRAME_HEADER_SIZE as nat;
    let (page, between) = choose|page: Result<ArenaView, Seq<char>>, between: u32| #[trigger]
        start.init_with(io, next_id, page, between, failure, after, next_id_after);
    if page_slots * page_size > MAX_ARENA_SIZE {
        arena_beyond_the_limit_is_refused(io, page_slots, page_size, size, next_id, page, between);
    } else if let Ok(arena) = page {
        let middle = PoolView { page_arena: Some(arena), ..start };
        let frame = choose|frame: Result<ArenaView, Seq<char>>| #[trigger]
            middle.init_wal_frame_arena_with(io, between, frame, failure, after, next_id_after);
        arena_beyond_the_limit_is_refused(
            io,
            frame_slots,
            frame_size,
            size,
            between,
            frame,
            next_id_after,
        );
    }
}

/// The arena for pages is created first and the one for frames then, each for the size that was
/// asked for, and the identifiers are drawn in that order. The pool has the arenas that came of it,
/// and a failure tells why the one that is missing was refused.
pub proof fn arenas_are_created_in_turn<I: IO>(
    pool: PoolView,
    page_size: nat,
    io: I,
    next_id: u32,
    failure: Option<Seq<char>>,
    after: PoolView,
    next_id_after: u32,
)
    requires
        pool.page_size is None,
        pool.page_arena is None,
        pool.wal_frame_arena is None,
        pool.with_page_size(page_size).init(io, next_id, failure, after, next_id_after),
    ensures
        failure is None <==> after.wal_frame_arena is Some,
        failure is None ==> after.page_arena is Some,
        failure is None ==> exists|between: u32|
            {
                &&& #[trigger] Arena::creation(
                    io,
                    page_size,
                    pool.arena_size,
                    next_id,
                    Ok::<ArenaView, Seq<char>>(after.page_arena->0),
                    between,
                )
                &&& Arena::creation(
                    io,
                    page_size + WAL_FRAME_HEADER_SIZE as nat,
                    pool.arena_size,
                    between,
                    Ok::<ArenaView, Seq<char>>(after.wal_frame_arena->0),
                    next_id_after,
                )
            },
        failure is Some && after.page_arena is Some ==> exists|between: u32, why: Seq<char>|
            {
                &&& failure == Some("Failed to create WAL frame arena: "@ + why)
                &&& #[trigger] Arena::creation(
                    io,
                    page_size,
                    pool.arena_size,
                    next_id,
                    Ok::<ArenaView, Seq<char>>(after.page_arena->0),
                    between,
                )
                &&& #[trigger] Arena::creation(
                    io,
                    page_size + WAL_FRAME_HEADER_SIZE as nat,
                    pool.arena_size,
                    between,
                    Err::<ArenaView, Seq<char>>(why),
                    next_id_after,
                )
            },
        after.page_arena is None ==> exists|why: Seq<char>|
            {
                &&& failure == Some("Failed to create arena: "@ + why)
                &&& #[trigger] Arena::creation(
                    io,
                    page_size,
                    pool.arena_size,
                    next_id,
                    Err::<ArenaView, Seq<char>>(why),
                    next_id_after,
                )
            },
{
    let start = pool.with_page_size(page_size);
    let (page, between) = choose|page: Result<ArenaView, Seq<char>>, between: u32| #[trigger]
        start.init_with(io, next_id, page, between, failure, after, next_id_after);
    match page {
        Ok(arena) => {
            let middle = PoolView { page_arena: Some(arena), ..start };
            let frame = choose|frame: Result<ArenaView, Seq<char>>| #[trigger]
                middle.init_wal_frame_arena_with(io, between, frame, failure, after, next_id_after);
            let n = pool.arena_size;
            let frame_size = page_size + WAL_FRAME_HEADER_SIZE as nat;
            assert(after.page_arena == Some(arena));
            let first = Ok::<ArenaView, Seq<char>>(after.page_arena->0);
            assert(Arena::creation(io, page_size, n, next_id, first, between));
            match frame {
                Ok(second) => {
                    assert(after.wal_frame_arena == Some(second));
                    let second = Ok::<ArenaView, Seq<char>>(after.wal_frame_arena->0);
                    assert(Arena::creation(io, frame_size, n, between, second, next_id_after));
                },
                Err(why) => {
                    let second = Err::<ArenaView, Seq<char>>(why);
                    assert(Arena::creation(io, frame_size, n, between, second, next_id_after));
                },
            }
        },
        Err(why) => assert(page == Err::<ArenaView, Seq<char>>(why)),
    }
}

/// Where the I/O registers nothing, the two arenas get identifiers of their own, the next two of
/// the supply.
pub proof fn unregistered_arenas_have_their_own_ids<I: IO>(
    pool: PoolView,
    page_size: nat,
    io: I,
    next_id: u32,
    after: PoolView,
    next_id_after: u32,
)
    requires
        page_size > 0,
        pool.page_size is None,
        pool.page_arena is None,
        pool.wal_frame_arena is None,
        pool.with_page_size(page_size).init(io, next_id, None, after, next_id_after),
        forall|region: I::Region, res: Result<u32, LimboError>|
            #[trigger] call_ensures(I::register_fixed_buffer, (&io, &region), res) ==> res is Err,
    ensures
        after.page_arena matches Some(arena) && arena.id == next_id,
        after.wal_frame_arena matches Some(arena) && arena.id == (next_id + 1) % 0x1_0000_0000,
        next_id_after == (next_id + 2) % 0x1_0000_0000,
{
    arenas_are_created_in_turn(pool, page_size, io, next_id, None, after, next_id_after);
    let n = pool.arena_size;
    let frame_size = page_size + WAL_FRAME_HEADER_SIZE as nat;
    let (page, frame) = (after.page_arena->0, after.wal_frame_arena->0);
    let first = Ok::<ArenaView, Seq<char>>(page);
    let second = Ok::<ArenaView, Seq<char>>(frame);
    let between = choose|between: u32|
        {
            &&& #[trigger] Arena::creation(io, page_size, n, next_id, first, between)
            &&& Arena::creation(io, frame_size, n, between, second, next_id_after)
        };
    created_arena_lies_on_its_region(io, page_size, n, next_id, page, between);
    created_arena_lies_on_its_region(io, frame_size, n, between, frame, next_id_after);
}

/// A page has the size that was set, or the default, and a frame has that and its header. The slots
/// of the arenas have these sizes.
pub proof fn sizes_go_by_the_page_size(pool: PoolView)
    ensures
        pool.db_page_size() == page_bytes(pool),
        pool.frame_size() == page_bytes(pool) + WAL_FRAME_HEADER_SIZE,
        pool.wf() ==> {
            &&& pool.page_arena matches Some(arena) ==> arena.slot_size == page_bytes(pool)
            &&& pool.wal_frame_arena matches Some(arena) ==> arena.slot_size == page_bytes(pool)
                + WAL_FRAME_HEADER_SIZE
        },
{
}

/// A buffer for a frame has the bytes of a page and the header of a frame, for every page size, and
/// a buffer for a page has the bytes of a page. A request for any length gets a buffer of it.
pub proof fn buffers_have_the_length_asked_for(
    pool: PoolView,
    temp: TempView,
    page: Buffer,
    frame: Buffer,
    len: nat,
    other: Buffer,
)
    requires
        pool.wf(),
        temp.wf(),
        pool.hands_out(temp, pool.db_page_size(), page),
        pool.hands_out(temp, pool.frame_size(), frame),
        pool.hands_out(temp, len, other),
    ensures
        page.bytes().len() == page_bytes(pool),
        frame.bytes().len() == page_bytes(pool) + WAL_FRAME_HEADER_SIZE,
        other.bytes().len() == len,
        frame matches Buffer::Pooled(slot) ==> slot@.data.len() == page_bytes(pool)
            + WAL_FRAME_HEADER_SIZE,
        page matches Buffer::Pooled(slot) ==> slot@.data.len() == page_bytes(pool),
{
    lemma_length(pool, temp, page_bytes(pool), page);
    lemma_length(pool, temp, page_bytes(pool) + WAL_FRAME_HEADER_SIZE as nat, frame);
    lemma_length(pool, temp, len, other);
}

proof fn lemma_length(pool: PoolView, temp: TempView, len: nat, buffer: Buffer)
    requires
        pool.wf(),
        temp.wf(),
        pool.hands_out(temp, len, buffer),
    ensures
        buffer.bytes().len() == len,
        buffer matches Buffer::Pooled(slot) ==> {
            &&& len == page_bytes(pool) + WAL_FRAME_HEADER_SIZE ==> slot@.data.len() == len
            &&& len == page_bytes(pool) ==> slot@.data.len() == len
        },
{
    if pool.pools(len) {
        first_free_slot_is_handed_out(pool.arena_for(len)->0, len);
    } else {
        super::buffer::temporary_buffer_has_the_length(temp, len);
    }
}

/// A request for at most a page gets a slot of the arena for pages as long as one is free: the
/// first of them, which is handed out then. Nothing else changes.
pub proof fn short_requests_get_a_slot(
    pool: PoolView,
    arena: ArenaView,
    temp: TempView,
    len: nat,
    buffer: Buffer,
)
    requires
        pool.page_arena == Some(arena),
        has_free_slot(arena),
        len <= arena.slot_size,
        len != page_bytes(pool) + WAL_FRAME_HEADER_SIZE,
        pool.hands_out(temp, len, buffer),
    ensures
        pool.pools(len),
        buffer matches Buffer::Pooled(slot) && {
            &&& pool.after_allocate(len).page_arena matches Some(after)
            &&& takes_first_free(arena, len, slot@, after)
        },
        pool.after_allocate(len).wal_frame_arena == pool.wal_frame_arena,
        pool.after_allocate(len).page_size == pool.page_size,
        pool.after_allocate(len).arena_size == pool.arena_size,
        pool.temp_after_allocate(temp, len) == temp,
{
    free_slots_serve(arena, len);
    first_free_slot_is_handed_out(arena, len);
}

/// In a pool that is in order no length up to a page is that of a frame, so that every one of them
/// gets a slot while one is free.
pub proof fn every_short_request_gets_a_slot(
    pool: PoolView,
    arena: ArenaView,
    temp: TempView,
    len: nat,
    buffer: Buffer,
)
    requires
        pool.wf(),
        pool.page_arena == Some(arena),
        has_free_slot(arena),
        len <= page_bytes(pool),
        pool.hands_out(temp, len, buffer),
    ensures
        buffer matches Buffer::Pooled(slot) && slot@.arena_id == arena.id && slot@.len == len,
        ({
            &&& pool.after_allocate(len).page_arena matches Some(after)
            &&& after.allocated() == arena.allocated() + 1
        }),
{
    short_requests_get_a_slot(pool, arena, temp, len, buffer);
    super::allocation_counts(arena, len);
}

/// A request for the length of a frame gets a slot of the arena for frames as long as one is free:
/// the first of them, which is handed out then. Nothing else changes.
pub proof fn frame_requests_get_a_slot(
    pool: PoolView,
    arena: ArenaView,
    temp: TempView,
    buffer: Buffer,
)
    requires
        pool.wal_frame_arena == Some(arena),
        has_free_slot(arena),
        page_bytes(pool) + WAL_FRAME_HEADER_SIZE <= arena.slot_size,
        pool.hands_out(temp, page_bytes(pool) + WAL_FRAME_HEADER_SIZE as nat, buffer),
    ensures
        ({
            let len = page_bytes(pool) + WAL_FRAME_HEADER_SIZE as nat;
            let after = pool.after_allocate(len);
            &&& pool.pools(len)
            &&& buffer matches Buffer::Pooled(slot)
            &&& after.wal_frame_arena is Some
            &&& takes_first_free(arena, len, slot@, after.wal_frame_arena->0)
            &&& after.page_arena == pool.page_arena
            &&& after.page_size == pool.page_size
            &&& after.arena_size == pool.arena_size
            &&& pool.temp_after_allocate(temp, len) == temp
        }),
{
    let len = page_bytes(pool) + WAL_FRAME_HEADER_SIZE as nat;
    free_slots_serve(arena, len);
    first_free_slot_is_handed_out(arena, len);
}

/// A request gets a temporary buffer only where its arena is missing, is full, or has slots that
/// are too short. The arenas stay as they are then, and the buffer comes from the cache.
pub proof fn temporary_buffers_are_the_last_resort(
    pool: PoolView,
    temp: TempView,
    len: nat,
    buffer: Buffer,
)
    requires
        pool.hands_out(temp, len, buffer),
    ensures
        ({
            let arena = if len == page_bytes(pool) + WAL_FRAME_HEADER_SIZE {
                pool.wal_frame_arena
            } else {
                pool.page_arena
            };
            buffer is Heap <==> match arena {
                Some(arena) => len > arena.slot_size || !has_free_slot(arena),
                None => true,
            }
        }),
        pool.pools(len) <==> buffer is Pooled,
        buffer matches Buffer::Heap(data) ==> {
            &&& data@ == temp.next(len)
            &&& pool.after_allocate(len) == pool
            &&& pool.temp_after_allocate(temp, len) == temp.after_take(len)
        },
{
    if let Some(arena) = pool.page_arena {
        free_slots_serve(arena, len);
    }
    if let Some(arena) = pool.wal_frame_arena {
        free_slots_serve(arena, len);
    }
}

/// A buffer from an arena that was registered tells the index of the registration: a page that of
/// the arena for pages, a frame that of the arena for frames, whatever the length.
pub proof fn handed_out_buffers_tell_the_registration(
    pool: PoolView,
    temp: TempView,
    len: nat,
    buffer: Buffer,
    told: Option<u32>,
)
    requires
        pool.hands_out(temp, len, buffer),
        call_ensures(Buffer::fixed_id, (&buffer,), told),
    ensures
        buffer is Heap ==> told is None,
        buffer is Pooled ==> {
            let arena = if len == page_bytes(pool) + WAL_FRAME_HEADER_SIZE {
                pool.wal_frame_arena->0
            } else {
                pool.page_arena->0
            };
            &&& arena.id < UNREGISTERED_START ==> told == Some(arena.id)
            &&& arena.id >= UNREGISTERED_START ==> told is None
        },
{
}

/// A pool takes back every temporary buffer, and of the others just those whose slot is out. A slot
/// is free again then in its own arena, with what it held, and the rest of the pool stays.
pub proof fn slots_come_back_to_their_arena(pool: PoolView, temp: TempView, buffer: Buffer)
    ensures
        ({
            let after = pool.after_release(buffer);
            match buffer {
                Buffer::Heap(data) => {
                    &&& pool.accepts(buffer)
                    &&& after == pool
                    &&& pool.temp_after_release(temp, buffer) == temp.after_return(data@)
                },
                Buffer::Pooled(slot) => {
                    let page = pool.page_arena is Some && is_out(pool.page_arena->0, slot@);
                    let frame = pool.wal_frame_arena is Some && is_out(
                        pool.wal_frame_arena->0,
                        slot@,
                    );
                    &&& pool.accepts(buffer) <==> page || frame
                    &&& pool.temp_after_release(temp, buffer) == temp
                    &&& page ==> {
                        &&& after.page_arena is Some
                        &&& takes_back(pool.page_arena->0, slot@, after.page_arena->0)
                        &&& after.wal_frame_arena == pool.wal_frame_arena
                    }
                    &&& frame && !page ==> {
                        &&& after.wal_frame_arena is Some
                        &&& takes_back(pool.wal_frame_arena->0, slot@, after.wal_frame_arena->0)
                        &&& after.page_arena == pool.page_arena
                    }
                    &&& after.page_size == pool.page_size
                    &&& after.arena_size == pool.arena_size
                },
            }
        }),
{
    if let Buffer::Pooled(slot) = buffer {
        if let Some(arena) = pool.page_arena {
            returned_slot_holds_the_bytes(arena, slot@);
        }
        if let Some(arena) = pool.wal_frame_arena {
            returned_slot_holds_the_bytes(arena, slot@);
        }
    }
}

} // verus!
