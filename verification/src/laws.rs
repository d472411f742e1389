//! What holds of arenas, pools and files whatever is done with them.

use crate::arena::{id_after, layout_bytes, layout_slots, Arena, ArenaView, SlotView};
use crate::arena::{MAX_ARENA_SIZE, UNREGISTERED_START};
use crate::buffer::{zeros, Buffer, TempView, DEFAULT_PAGE_SIZE};
use crate::error::over_limit_text;
use crate::file::{all_served, same_bytes, Call, FileView};
use crate::generic::{Request, Step};
use crate::io::IO;
use crate::pool::PoolView;
use vstd::prelude::*;

pub mod arena;
pub mod buffer;
pub mod pool;
pub mod request;
pub mod text;

verus! {

/// Where in the memory of an arena a buffer begins.
pub open spec fn offset(arena: ArenaView, buffer: SlotView) -> int {
    buffer.slot * arena.slot_size
}

/// Buffers that are out lie within the arena, and those of different slots do not overlap.
pub proof fn buffers_do_not_overlap(arena: ArenaView, a: SlotView, b: SlotView)
    requires
        arena.wf(),
        arena.issued(a),
        arena.issued(b),
        a.slot != b.slot,
    ensures
        0 <= offset(arena, a) && offset(arena, a) + a.len <= arena.size(),
        offset(arena, a) + a.len <= offset(arena, b) || offset(arena, b) + b.len <= offset(
            arena,
            a,
        ),
{
    let size = arena.slot_size as int;
    let n = arena.slots.len() as int;
    crate::arena::lemma_slot_in_arena(a.slot, n, size);
    crate::arena::lemma_slot_in_arena(b.slot, n, size);
    if a.slot < b.slot {
        assert((a.slot + 1) * size <= b.slot * size) by (nonlinear_arith)
            requires
                a.slot + 1 <= b.slot,
                size >= 0,
        ;
    } else {
        assert((b.slot + 1) * size <= a.slot * size) by (nonlinear_arith)
            requires
                b.slot + 1 <= a.slot,
                size >= 0,
        ;
    }
}

/// An arena can serve up to the size of a slot exactly while a slot is not handed out.
pub proof fn serves_until_full(arena: ArenaView, size: nat)
    requires
        size <= arena.slot_size,
    ensures
        0 <= arena.allocated() <= arena.slots.len(),
        arena.can_serve(size) <==> arena.allocated() < arena.slots.len(),
{
    let free = arena.free_slots();
    lemma_free_slots_finite(arena);
    if arena.can_serve(size) {
        let i = choose|i: int| free.contains(i);
        assert(free.remove(i).len() < free.len());
    } else {
        assert(free =~= Set::empty());
    }
}

proof fn lemma_free_slots_finite(arena: ArenaView)
    ensures
        arena.free_slots().finite(),
        arena.free_slots().len() <= arena.slots.len(),
{
    let all = vstd::set_lib::set_int_range(0, arena.slots.len() as int);
    vstd::set_lib::lemma_int_range(0, arena.slots.len() as int);
    assert(arena.free_slots() <= all);
    vstd::set_lib::lemma_set_subset_finite(all, arena.free_slots());
    vstd::set_lib::lemma_len_subset(arena.free_slots(), all);
}

/// Where there is a free slot there is a lowest one.
proof fn lemma_has_lowest_free(arena: ArenaView, i: int)
    requires
        arena.free_slots().contains(i),
    ensures
        arena.is_lowest_free(arena.lowest_free()),
    decreases i,
{
    if arena.is_lowest_free(i) {
    } else {
        let j = choose|j: int| j < i && arena.free_slots().contains(j);
        lemma_has_lowest_free(arena, j);
    }
}

/// A slot that is handed out was free: no buffer that is out has it. Those buffers stay out, and
/// the new one is out too.
pub proof fn allocation_is_fresh(arena: ArenaView, size: nat, other: SlotView)
    requires
        arena.wf(),
        arena.can_serve(size),
        arena.issued(other),
    ensures
        arena.next_buffer(size).slot != other.slot,
        arena.after_alloc().issued(other),
        arena.after_alloc().issued(arena.next_buffer(size)),
{
    lemma_has_lowest_free(arena, choose|i: int| arena.free_slots().contains(i));
}

/// One more slot is handed out after an allocation.
pub proof fn allocation_counts(arena: ArenaView, size: nat)
    requires
        arena.wf(),
        arena.can_serve(size),
    ensures
        arena.after_alloc().wf(),
        arena.after_alloc().slots.len() == arena.slots.len(),
        arena.after_alloc().issued(arena.next_buffer(size)),
        arena.after_alloc().allocated() == arena.allocated() + 1,
{
    lemma_has_lowest_free(arena, choose|i: int| arena.free_slots().contains(i));
    lemma_free_slots_finite(arena);
    let slot = arena.lowest_free();
    assert(arena.after_alloc().free_slots() =~= arena.free_slots().remove(slot));
}

/// A buffer that comes back makes room for another, cannot come back again, and touches none of
/// those that are out.
pub proof fn free_makes_room(arena: ArenaView, buffer: SlotView, other: SlotView)
    requires
        arena.wf(),
        arena.issued(buffer),
        arena.issued(other),
    ensures
        arena.after_free(buffer).wf(),
        arena.after_free(buffer).allocated() == arena.allocated() - 1,
        arena.after_free(buffer).can_serve(arena.slot_size),
        !arena.after_free(buffer).issued(buffer),
        other.slot != buffer.slot ==> arena.after_free(buffer).issued(other),
{
    lemma_free_slots_finite(arena);
    let after = arena.after_free(buffer);
    assert(after.free_slots() =~= arena.free_slots().insert(buffer.slot));
    assert(after.free_slots().contains(buffer.slot));
}

/// Giving a buffer back undoes its allocation. If it was written to, its slot keeps what was
/// written, and nothing else differs.
pub proof fn free_undoes_allocation(arena: ArenaView, size: nat, bytes: Seq<u8>)
    requires
        arena.wf(),
        arena.can_serve(size),
        bytes.len() == size,
    ensures
        arena.after_alloc().after_free(arena.next_buffer(size)) == arena,
        ({
            let buffer = arena.next_buffer(size);
            let after = arena.after_alloc().after_free(buffer.written(bytes));
            &&& after.slots[buffer.slot] == Some(bytes + buffer.data.skip(size as int))
            &&& after.slots == arena.slots.update(buffer.slot, after.slots[buffer.slot])
        }),
{
    lemma_has_lowest_free(arena, choose|i: int| arena.free_slots().contains(i));
    let buffer = arena.next_buffer(size);
    assert(arena.after_alloc().after_free(buffer).slots =~= arena.slots);
    let after = arena.after_alloc().after_free(buffer.written(bytes));
    assert(after.slots =~= arena.slots.update(buffer.slot, after.slots[buffer.slot]));
}

/// What is written to a buffer is what it holds then. It is still the same slot with the same
/// length, and can come back as before.
pub proof fn write_is_read_back(arena: ArenaView, buffer: SlotView, bytes: Seq<u8>)
    requires
        arena.issued(buffer),
        bytes.len() == buffer.len,
    ensures
        buffer.written(bytes).wf(),
        buffer.written(bytes).bytes() == bytes,
        buffer.written(bytes).slot == buffer.slot,
        buffer.written(bytes).len == buffer.len,
        arena.issued(buffer.written(bytes)),
{
    assert(buffer.written(bytes).bytes() =~= bytes);
}

/// Pages and frames come from different arenas, and a buffer that is out is out of one of them
/// only.
pub proof fn pages_and_frames_are_apart(pool: PoolView, slot: SlotView)
    requires
        pool.wf(),
    ensures
        pool.arena_for(pool.db_page_size()) == pool.page_arena,
        pool.arena_for(pool.frame_size()) == pool.wal_frame_arena,
        !(pool.issued_page(slot) && pool.issued_wal_frame(slot)),
{
}

/// While a pool has no arenas, every buffer is a temporary one, and the pool stays as it is.
pub proof fn only_temporary_before_arenas(pool: PoolView, temp: TempView, len: nat, buffer: Buffer)
    requires
        pool.page_arena is None,
        pool.wal_frame_arena is None,
        pool.hands_out(temp, len, buffer),
    ensures
        buffer is Heap,
        pool.after_allocate(len) == pool,
{
}

/// Two buffers are slots of one arena, and the same one. Slots of one arena have one size, and
/// those of the two arenas differ in size.
pub open spec fn same_slot(a: Buffer, b: Buffer) -> bool {
    &&& a matches Buffer::Pooled(x)
    &&& b matches Buffer::Pooled(y)
    &&& x@.data.len() == y@.data.len()
    &&& x@.slot == y@.slot
}

/// A buffer that is handed out can come back. It shares no slot with any other that is out, and
/// those can still come back.
pub proof fn pool_allocation_is_fresh(
    pool: PoolView,
    temp: TempView,
    len: nat,
    buffer: Buffer,
    other: Buffer,
)
    requires
        pool.wf(),
        pool.hands_out(temp, len, buffer),
        pool.accepts(other),
    ensures
        pool.after_allocate(len).wf(),
        pool.after_allocate(len).accepts(buffer),
        pool.after_allocate(len).accepts(other),
        !same_slot(buffer, other),
{
    if pool.pools(len) {
        let arena = pool.arena_for(len)->0;
        allocation_counts(arena, len);
        if let Buffer::Pooled(slot) = other {
            if arena.issued(slot@) {
                allocation_is_fresh(arena, len, slot@);
            }
        }
    }
}

/// A slot that has come back cannot come back again. Every other buffer that is out still can,
/// and stays out.
pub proof fn pool_release_is_final(pool: PoolView, buffer: Buffer, other: Buffer)
    requires
        pool.wf(),
        pool.accepts(buffer),
        pool.accepts(other),
    ensures
        pool.after_release(buffer).wf(),
        buffer is Pooled ==> !pool.after_release(buffer).accepts(buffer),
        !same_slot(buffer, other) ==> pool.after_release(buffer).accepts(other),
{
    if let Buffer::Pooled(slot) = buffer {
        let arena = if pool.issued_page(slot@) {
            pool.page_arena->0
        } else {
            pool.wal_frame_arena->0
        };
        free_makes_room(arena, slot@, slot@);
        if let Buffer::Pooled(other_slot) = other {
            if arena.issued(other_slot@) {
                free_makes_room(arena, slot@, other_slot@);
            }
        }
    }
}

/// Giving a buffer back undoes its allocation, if nothing was written to it.
pub proof fn release_undoes_allocation(pool: PoolView, temp: TempView, len: nat, buffer: Buffer)
    requires
        pool.wf(),
        pool.hands_out(temp, len, buffer),
    ensures
        pool.after_allocate(len).after_release(buffer) == pool,
{
    if pool.pools(len) {
        let arena = pool.arena_for(len)->0;
        allocation_counts(arena, len);
        free_undoes_allocation(arena, len, Seq::new(len, |i: int| 0u8));
        pages_and_frames_are_apart(pool.after_allocate(len), buffer->Pooled_0@);
    }
}

/// A slot that has come back is handed out again, though its arena was full, for any length that
/// its arena serves, with what was last written to it.
pub proof fn released_slot_is_reused(pool: PoolView, buffer: Buffer, len: nat)
    requires
        pool.wf(),
        buffer is Pooled,
        pool.accepts(buffer),
        !pool.pools(len),
        len <= buffer->Pooled_0@.data.len(),
        pool.arena_for(len) matches Some(arena) && arena.issued(buffer->Pooled_0@),
    ensures
        pool.after_release(buffer).pools(len),
        ({
            let next = pool.after_release(buffer).arena_for(len)->0.next_buffer(len);
            &&& next.slot == buffer->Pooled_0@.slot
            &&& next.data == buffer->Pooled_0@.data
        }),
{
    let slot = buffer->Pooled_0@;
    let arena = pool.arena_for(len)->0;
    let after = arena.after_free(slot);
    pages_and_frames_are_apart(pool, slot);
    free_makes_room(arena, slot, slot);
    assert(after.is_lowest_free(slot.slot)) by {
        assert forall|j: int| j < slot.slot implies !after.free_slots().contains(j) by {
            assert(!arena.free_slots().contains(j));
        }
    }
    crate::arena::lemma_lowest_free(after, slot.slot);
}

/// The pool after `n` requests for `len` bytes.
pub open spec fn after_requests(pool: PoolView, len: nat, n: nat) -> PoolView
    decreases n,
{
    if n == 0 {
        pool
    } else {
        after_requests(pool, len, (n - 1) as nat).after_allocate(len)
    }
}

/// As many requests come from the arena for their length as it has free slots, then they get
/// temporary buffers.
pub proof fn pool_exhaustion(pool: PoolView, len: nat, n: nat)
    requires
        pool.wf(),
        pool.arena_for(len) matches Some(arena) && len <= arena.slot_size,
    ensures
        after_requests(pool, len, n).wf(),
        after_requests(pool, len, n).pools(len) <==> n < pool.arena_for(len)->0.free_slots().len(),
{
    lemma_after_requests(pool, len, n);
}

proof fn lemma_after_requests(pool: PoolView, len: nat, n: nat)
    requires
        pool.wf(),
        pool.arena_for(len) matches Some(arena) && len <= arena.slot_size,
    ensures
        after_requests(pool, len, n).wf(),
        after_requests(pool, len, n).frame_size() == pool.frame_size(),
        after_requests(pool, len, n).arena_for(len) matches Some(arena) && len <= arena.slot_size,
        ({
            let free = pool.arena_for(len)->0.free_slots().len();
            let arena = after_requests(pool, len, n).arena_for(len)->0;
            arena.free_slots().len() == if n < free {
                free - n
            } else {
                0
            }
        }),
        after_requests(pool, len, n).pools(len) <==> n < pool.arena_for(len)->0.free_slots().len(),
    decreases n,
{
    if n > 0 {
        let before = after_requests(pool, len, (n - 1) as nat);
        lemma_after_requests(pool, len, (n - 1) as nat);
        if before.pools(len) {
            allocation_counts(before.arena_for(len)->0, len);
        }
    }
    serves_until_full(after_requests(pool, len, n).arena_for(len)->0, len);
}

/// Neither handing out nor taking back changes the page size, nor the size of arenas, nor which
/// arenas there are.
pub proof fn page_size_stays(pool: PoolView, len: nat, buffer: Buffer)
    requires
        pool.accepts(buffer),
    ensures
        pool.after_allocate(len).page_size == pool.page_size,
        pool.after_allocate(len).arena_size == pool.arena_size,
        pool.after_allocate(len).page_arena is Some == pool.page_arena is Some,
        pool.after_allocate(len).wal_frame_arena is Some == pool.wal_frame_arena is Some,
        pool.after_release(buffer).page_size == pool.page_size,
        pool.after_release(buffer).arena_size == pool.arena_size,
        pool.after_release(buffer).page_arena is Some == pool.page_arena is Some,
        pool.after_release(buffer).wal_frame_arena is Some == pool.wal_frame_arena is Some,
{
}

/// What was made of an arena once it is there: `n` slots of the right size, all free.
pub open spec fn is_new(arena: ArenaView, slot_size: nat, arena_size: nat) -> bool {
    &&& arena.slot_size == slot_size
    &&& arena.slots.len() == layout_slots(slot_size, arena_size)
    &&& arena.size() == layout_bytes(slot_size, arena_size)
    &&& arena.allocated() == 0
}

/// An arena that was created is new.
pub proof fn created_arena_is_new<I: IO>(
    io: I,
    slot_size: nat,
    arena_size: nat,
    next_id: u32,
    arena: ArenaView,
    next_id_after: u32,
)
    requires
        Arena::creation(
            io,
            slot_size,
            arena_size,
            next_id,
            Ok::<ArenaView, Seq<char>>(arena),
            next_id_after,
        ),
    ensures
        is_new(arena, slot_size, arena_size),
{
    let n = arena.slots.len() as int;
    vstd::set_lib::lemma_int_range(0, n);
    assert(arena.free_slots() =~= vstd::set_lib::set_int_range(0, n));
}

/// Setting the page size either fails and tells so, or leaves the pool with a new arena for pages
/// and a new arena for frames. Either way the page size is set for good: no arenas are made again.
pub proof fn page_size_is_set_once<I: IO>(
    pool: PoolView,
    page_size: nat,
    io: I,
    next_id: u32,
    failure: Option<Seq<char>>,
    after: PoolView,
    next_id_after: u32,
)
    requires
        pool.awaits_page_size(),
        pool.with_page_size(page_size).init(io, next_id, failure, after, next_id_after),
    ensures
        after.page_size == Some(page_size),
        after.arena_size == pool.arena_size,
        !after.awaits_page_size(),
        failure is None ==> {
            &&& after.page_arena matches Some(arena)
            &&& is_new(arena, page_size, pool.arena_size)
        },
        failure is None ==> {
            &&& after.wal_frame_arena matches Some(arena)
            &&& is_new(arena, after.frame_size(), pool.arena_size)
        },
{
    let start = pool.with_page_size(page_size);
    let (page, between) = choose|page: Result<ArenaView, Seq<char>>, between: u32| #[trigger]
        start.init_with(io, next_id, page, between, failure, after, next_id_after);
    if let Ok(arena) = page {
        created_arena_is_new(io, page_size, pool.arena_size, next_id, arena, between);
        let middle = PoolView { page_arena: Some(arena), ..start };
        let frame = choose|frame: Result<ArenaView, Seq<char>>| #[trigger]
            middle.init_wal_frame_arena_with(io, between, frame, failure, after, next_id_after);
        if let Ok(second) = frame {
            created_arena_is_new(
                io,
                middle.frame_size(),
                pool.arena_size,
                between,
                second,
                next_id_after,
            );
        }
    }
}

/// A page size for which the arena would be too large is refused, whatever the I/O, and the
/// refusal tells the size. No arena is made and no identifier is used.
pub proof fn large_page_size_is_refused<I: IO>(
    pool: PoolView,
    page_size: nat,
    io: I,
    next_id: u32,
    failure: Option<Seq<char>>,
    after: PoolView,
    next_id_after: u32,
)
    requires
        pool.awaits_page_size(),
        layout_bytes(page_size, pool.arena_size) > MAX_ARENA_SIZE,
        pool.with_page_size(page_size).init(io, next_id, failure, after, next_id_after),
    ensures
        failure == Some(
            "Failed to create arena: "@ + over_limit_text(
                layout_bytes(page_size, pool.arena_size),
                MAX_ARENA_SIZE as nat,
            ),
        ),
        after == pool.with_page_size(page_size),
        next_id_after == next_id,
{
}

/// The identifier that the supply gives after `n` others.
pub open spec fn nth_id(n: nat) -> u32
    decreases n,
{
    if n == 0 {
        UNREGISTERED_START
    } else {
        id_after(nth_id((n - 1) as nat))
    }
}

/// Until the supply starts over, its identifiers differ from each other, and buffers of an arena
/// with one of them are not taken for those of a registered arena.
pub proof fn unregistered_ids(n: nat, buffer: SlotView)
    requires
        n <= u32::MAX - UNREGISTERED_START,
    ensures
        nth_id(n) == UNREGISTERED_START + n,
        buffer.arena_id == nth_id(n) ==> buffer.fixed_id() is None,
    decreases n,
{
    if n > 0 {
        unregistered_ids((n - 1) as nat, buffer);
    }
}

/// A temporary buffer that the cache keeps is the next one of its length, with what it held.
pub proof fn temporary_buffers_are_reused(temp: TempView, data: Seq<u8>)
    requires
        temp.wf(),
        temp.after_return(data) != temp,
    ensures
        temp.after_return(data).wf(),
        temp.after_return(data).next(data.len()) == data,
        temp.after_return(data).after_take(data.len()) == temp,
{
    let after = temp.after_return(data);
    assert(after.after_take(data.len()).pages =~= temp.pages);
    assert(after.after_take(data.len()).frames =~= temp.frames);
}

/// Temporary buffers of before are not used again once another page size than the default was
/// set: whatever is handed out next is zero throughout.
pub proof fn page_size_clears_temporary_buffers(temp: TempView, page_size: nat, len: nat)
    requires
        page_size != DEFAULT_PAGE_SIZE,
    ensures
        temp.after_page_size(page_size).next(len) == zeros(len),
{
}

/// A completed read tells how many bytes were read, and a completed write how many were to be
/// written, as long as the number fits the result.
pub proof fn completion_tells_the_count(pos: u64, len: usize, value: u64)
    ensures
        value <= i32::MAX ==> (Request::Pread { pos }).result(value)->0 == value,
        len <= i32::MAX ==> (Request::Pwrite { pos, len }).result(value)->0 == len,
{
}

/// However a request ends, it leaves the bytes as they are with which it has nothing to do.
pub proof fn requests_spare_other_bytes(
    call: Call,
    before: FileView,
    after: FileView,
    end: Step,
    from: int,
    to: int,
)
    requires
        call.served(before, after, end),
        call.spares(from, to),
        0 <= from <= to <= before.bytes.len(),
    ensures
        same_bytes(before, after, from, to),
{
    reveal_with_fuel(Call::runs, 2);
}

proof fn lemma_all_spare_other_bytes(
    calls: Seq<Call>,
    before: FileView,
    after: FileView,
    from: int,
    to: int,
)
    requires
        all_served(calls, before, after),
        forall|i: int| 0 <= i < calls.len() ==> (#[trigger] calls[i]).spares(from, to),
        0 <= from <= to <= before.bytes.len(),
    ensures
        same_bytes(before, after, from, to),
    decreases calls.len(),
{
    if calls.len() > 0 {
        let (between, end) = choose|between: FileView, end: Step|
            {
                &&& all_served(calls.drop_last(), before, between)
                &&& #[trigger] calls.last().served(between, after, end)
            };
        let earlier = calls.drop_last();
        assert forall|i: int| 0 <= i < earlier.len() implies (#[trigger] earlier[i]).spares(
            from,
            to,
        ) by {
            assert(calls[i].spares(from, to));
        }
        lemma_all_spare_other_bytes(earlier, before, between, from, to);
        requests_spare_other_bytes(calls.last(), between, after, end, from, to);
        assert forall|i: int| from <= i < to implies before.bytes[i]
            == #[trigger] after.bytes[i] by {
            assert(before.bytes[i] == between.bytes[i]);
        }
    }
}

/// What was written at a position is read back from there: at least one byte, and those that are
/// read are the first that were written. Any requests may come in between that write elsewhere and
/// do not truncate, whether they succeed or fail: each goes by its own position, not by the one
/// that another left. The completions tell the counts, as long as they fit the result.
pub proof fn pread_gives_back_pwrite(
    pos: u64,
    write: Call,
    others: Seq<Call>,
    read: Call,
    start: FileView,
    written: FileView,
    then: FileView,
    finish: FileView,
    write_result: i32,
    read_result: i32,
)
    requires
        write.request == (Request::Pwrite { pos, len: write.data.len() as usize }),
        write.data.len() > 0,
        write.served(start, written, Step::Complete(write_result)),
        all_served(others, written, then),
        forall|i: int|
            0 <= i < others.len() ==> (#[trigger] others[i]).spares(
                pos as int,
                pos + write.data.len(),
            ),
        read.request == (Request::Pread { pos }),
        read.room == write.data.len(),
        read.served(then, finish, Step::Complete(read_result)),
    ensures
        1 <= read.got.len() <= write.data.len(),
        read.got == write.data.subrange(0, read.got.len() as int),
        write.data.len() <= i32::MAX ==> {
            &&& write_result == write.data.len()
            &&& read_result == read.got.len()
        },
{
    reveal_with_fuel(Call::runs, 2);
    let end = pos + write.data.len();
    assert(written.bytes.len() >= end && written.bytes.subrange(pos as int, end) == write.data);
    lemma_all_spare_other_bytes(others, written, then, pos as int, end);
    assert(read.got.len() >= 1 && read.got == then.bytes.subrange(
        pos as int,
        pos + read.got.len(),
    ));
    assert forall|i: int| 0 <= i < read.got.len() implies read.got[i] == write.data[i] by {
        assert(then.bytes[pos + i] == written.bytes[pos + i]);
        assert(write.data[i] == written.bytes.subrange(pos as int, end)[i]);
    }
    assert(read.got =~= write.data.subrange(0, read.got.len() as int));
}

/// A file that was cut or extended has the size that was asked for, and keeps the bytes that are
/// within it.
pub proof fn truncate_sets_the_size(
    len: u64,
    truncate: Call,
    size: Call,
    before: FileView,
    between: FileView,
    after: FileView,
    result: i32,
    told: u64,
)
    requires
        truncate.request == (Request::Truncate { size: len }),
        truncate.served(before, between, Step::Complete(result)),
        size.request == Request::Size,
        size.served(between, after, Step::Length(told)),
    ensures
        result == 0,
        told == len,
        after.bytes == between.bytes,
        len <= before.bytes.len() ==> after.bytes == before.bytes.subrange(0, len as int),
        len > before.bytes.len() ==> after.bytes == before.bytes + zeros(
            (len - before.bytes.len()) as nat,
        ),
{
    if len <= before.bytes.len() {
        assert(after.bytes =~= before.bytes.subrange(0, len as int));
    } else {
        assert(after.bytes =~= before.bytes + zeros((len - before.bytes.len()) as nat));
    }
}

} // verus!
