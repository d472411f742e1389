//! The buffer pool: one arena for pages, one for frames of the write-ahead log, and temporary
//! buffers where those cannot serve.

use crate::arena::{layout, layout_bytes, lemma_layout, outcome, MAX_ARENA_SIZE};
use crate::arena::{Arena, ArenaBuffer, ArenaIds, ArenaView, SlotView};
use crate::buffer::{Buffer, TempBufferCache, TempView, DEFAULT_PAGE_SIZE, WAL_FRAME_HEADER_SIZE};
use crate::error::{internal_error, LimboError};
use crate::io::IO;
use std::sync::Arc;
use vstd::prelude::*;

verus! {

/// Smallest size of an arena, in bytes.
pub const MIN_ARENA_SIZE: usize = 64 * 1024;

/// What a pool is: the size its arenas are to have, the page size once it is set, and the arenas
/// once they are there.
pub struct PoolView {
    pub arena_size: nat,
    pub page_size: Option<nat>,
    pub page_arena: Option<ArenaView>,
    pub wal_frame_arena: Option<ArenaView>,
}

impl PoolView {
    /// A pool without page size and arenas.
    pub open spec fn new(arena_size: nat) -> PoolView {
        PoolView { arena_size, page_size: None, page_arena: None, wal_frame_arena: None }
    }

    /// The pool with its page size set.
    pub open spec fn with_page_size(self, page_size: nat) -> PoolView {
        PoolView { page_size: Some(page_size), ..self }
    }

    /// The page size, or the default while none is set.
    pub open spec fn db_page_size(self) -> nat {
        match self.page_size {
            Some(size) => size,
            None => DEFAULT_PAGE_SIZE as nat,
        }
    }

    /// Size of a frame of the write-ahead log.
    pub open spec fn frame_size(self) -> nat {
        self.db_page_size() + WAL_FRAME_HEADER_SIZE as nat
    }

    /// The slots of the page arena are pages and those of the other arena are frames.
    pub open spec fn wf(self) -> bool {
        &&& MIN_ARENA_SIZE <= self.arena_size < MAX_ARENA_SIZE
        &&& self.page_size matches Some(size) ==> 0 < size && size * 64 <= usize::MAX
        &&& self.page_arena matches Some(arena) ==> {
            &&& arena.wf()
            &&& self.page_size == Some(arena.slot_size)
        }
        &&& self.wal_frame_arena matches Some(arena) ==> {
            &&& arena.wf()
            &&& self.page_arena is Some
            &&& arena.slot_size == self.frame_size()
        }
    }

    /// The arena that buffers of `len` bytes come from: frames have their own.
    pub open spec fn arena_for(self, len: nat) -> Option<ArenaView> {
        if len == self.frame_size() {
            self.wal_frame_arena
        } else {
            self.page_arena
        }
    }

    /// Whether a buffer of `len` bytes comes from an arena.
    pub open spec fn pools(self, len: nat) -> bool {
        self.arena_for(len) matches Some(arena) && arena.can_serve(len)
    }

    /// The pool once a buffer of `len` bytes was handed out.
    pub open spec fn after_allocate(self, len: nat) -> PoolView {
        if !self.pools(len) {
            self
        } else if len == self.frame_size() {
            PoolView { wal_frame_arena: Some(self.wal_frame_arena->0.after_alloc()), ..self }
        } else {
            PoolView { page_arena: Some(self.page_arena->0.after_alloc()), ..self }
        }
    }

    /// `buffer` is what a request for `len` bytes gets: the next slot of the arena for that length
    /// if it can serve, otherwise the next temporary buffer.
    pub open spec fn hands_out(self, temp: TempView, len: nat, buffer: Buffer) -> bool {
        if self.pools(len) {
            &&& buffer matches Buffer::Pooled(slot)
            &&& slot@ == self.arena_for(len)->0.next_buffer(len)
        } else {
            &&& buffer is Heap
            &&& buffer.bytes() == temp.next(len)
        }
    }

    /// The temporary buffers that are left once it was handed out.
    pub open spec fn temp_after_allocate(self, temp: TempView, len: nat) -> TempView {
        if self.pools(len) {
            temp
        } else {
            temp.after_take(len)
        }
    }

    /// `slot` is out and comes from the page arena.
    pub open spec fn issued_page(self, slot: SlotView) -> bool {
        self.page_arena matches Some(arena) && arena.issued(slot)
    }

    /// `slot` is out and comes from the arena for frames.
    pub open spec fn issued_wal_frame(self, slot: SlotView) -> bool {
        self.wal_frame_arena matches Some(arena) && arena.issued(slot)
    }

    /// `buffer` can come back: it is a temporary buffer, or it carries the identifier of one of
    /// the arenas, whose slot of that index is handed out. As long as no other arena in use carries
    /// the identifier of one of these, that is a slot which this pool handed out. Identifiers that
    /// the supply gives differ until it starts over; those of registered arenas are the I/O's
    /// affair.
    pub open spec fn accepts(self, buffer: Buffer) -> bool {
        match buffer {
            Buffer::Heap(_) => true,
            Buffer::Pooled(slot) => self.issued_page(slot@) || self.issued_wal_frame(slot@),
        }
    }

    /// The pool once `buffer` has come back.
    pub open spec fn after_release(self, buffer: Buffer) -> PoolView {
        match buffer {
            Buffer::Heap(_) => self,
            Buffer::Pooled(slot) => if self.issued_page(slot@) {
                PoolView { page_arena: Some(self.page_arena->0.after_free(slot@)), ..self }
            } else {
                PoolView {
                    wal_frame_arena: Some(self.wal_frame_arena->0.after_free(slot@)),
                    ..self
                }
            },
        }
    }

    /// The temporary buffers once it has.
    pub open spec fn temp_after_release(self, temp: TempView, buffer: Buffer) -> TempView {
        match buffer {
            Buffer::Heap(data) => temp.after_return(data@),
            Buffer::Pooled(_) => temp,
        }
    }

    /// What can come of creating the arenas, first the one for pages, then the one for frames. If
    /// one fails, the pool stays as it is by then, and the failure is told.
    pub open spec fn init<I: IO>(
        self,
        io: I,
        next_id: u32,
        failure: Option<Seq<char>>,
        after: PoolView,
        next_id_after: u32,
    ) -> bool {
        exists|page: Result<ArenaView, Seq<char>>, next_id_between: u32| #[trigger]
            self.init_with(io, next_id, page, next_id_between, failure, after, next_id_after)
    }

    /// `init`, where `page` came of creating the arena for pages, which left `next_id_between` as
    /// the next identifier.
    pub open spec fn init_with<I: IO>(
        self,
        io: I,
        next_id: u32,
        page: Result<ArenaView, Seq<char>>,
        next_id_between: u32,
        failure: Option<Seq<char>>,
        after: PoolView,
        next_id_after: u32,
    ) -> bool {
        let size = self.db_page_size();
        &&& Arena::creation(io, size, self.arena_size, next_id, page, next_id_between)
        &&& match page {
            Err(text) => {
                &&& failure == Some("Failed to create arena: "@ + text)
                &&& after == self
                &&& next_id_after == next_id_between
            },
            Ok(arena) => {
                let between = PoolView { page_arena: Some(arena), ..self };
                between.init_wal_frame_arena(io, next_id_between, failure, after, next_id_after)
            },
        }
    }

    /// The second half of `init`.
    pub open spec fn init_wal_frame_arena<I: IO>(
        self,
        io: I,
        next_id: u32,
        failure: Option<Seq<char>>,
        after: PoolView,
        next_id_after: u32,
    ) -> bool {
        exists|frame: Result<ArenaView, Seq<char>>| #[trigger]
            self.init_wal_frame_arena_with(io, next_id, frame, failure, after, next_id_after)
    }

    /// `init_wal_frame_arena`, where `frame` came of creating the arena for frames.
    pub open spec fn init_wal_frame_arena_with<I: IO>(
        self,
        io: I,
        next_id: u32,
        frame: Result<ArenaView, Seq<char>>,
        failure: Option<Seq<char>>,
        after: PoolView,
        next_id_after: u32,
    ) -> bool {
        let size = self.frame_size();
        &&& Arena::creation(io, size, self.arena_size, next_id, frame, next_id_after)
        &&& match frame {
            Err(text) => {
                &&& failure == Some("Failed to create WAL frame arena: "@ + text)
                &&& after == self
            },
            Ok(arena) => {
                &&& failure is None
                &&& after == (PoolView { wal_frame_arena: Some(arena), ..self })
            },
        }
    }

    /// Whether setting a page size makes the arenas: neither was done before.
    pub open spec fn awaits_page_size(self) -> bool {
        self.page_arena is None && self.page_size is None
    }
}

/// What `res` tells of a failure.
pub open spec fn failure(res: Result<(), LimboError>) -> Option<Seq<char>> {
    match res {
        Ok(_) => None,
        Err(LimboError::InternalError(text)) => Some(text@),
    }
}

/// The state of a pool.
pub struct PoolInner<I> {
    /// The program's I/O, which gives the memory of arenas and registers it.
    io: Option<Arc<I>>,
    /// The arena of slots of the size of a page.
    page_arena: Option<Arena>,
    /// The arena of slots of the size of a page and the header of a frame. Frames have their own so
    /// that neither size wastes the slots of the other.
    wal_frame_arena: Option<Arena>,
    /// The size of each arena, in bytes.
    arena_size: usize,
    /// The page size, once it is set.
    db_page_size: Option<usize>,
}

/// What an arena is, if it is there.
spec fn arena_view(arena: Option<Arena>) -> Option<ArenaView> {
    match arena {
        Some(arena) => Some(arena@),
        None => None,
    }
}

impl<I> View for PoolInner<I> {
    type V = PoolView;

    closed spec fn view(&self) -> PoolView {
        PoolView {
            arena_size: self.arena_size as nat,
            page_size: match self.db_page_size {
                Some(size) => Some(size as nat),
                None => None,
            },
            page_arena: arena_view(self.page_arena),
            wal_frame_arena: arena_view(self.wal_frame_arena),
        }
    }
}

impl<I: IO> PoolInner<I> {
    /// The arenas are in order.
    pub closed spec fn consistent(&self) -> bool {
        &&& self.page_arena matches Some(arena) ==> arena.wf()
        &&& self.wal_frame_arena matches Some(arena) ==> arena.wf()
    }

    pub open spec fn wf(&self) -> bool {
        self@.wf() && self.consistent()
    }

    /// The program's I/O, once the pool has it.
    pub closed spec fn io(&self) -> Option<Arc<I>> {
        self.io
    }

    /// The page size, or the default while none is set.
    pub fn get_db_page_size(&self) -> (res: usize)
        ensures
            res == self@.db_page_size(),
    {
        match self.db_page_size {
            Some(size) => size,
            None => DEFAULT_PAGE_SIZE,
        }
    }

    /// Allocates a buffer of `len` bytes from the arena for that length. Falls back to temporary
    /// buffers while there is no such arena, when it is full, and for lengths beyond its slots.
    pub fn allocate(&mut self, len: usize, temp: &mut TempBufferCache) -> (res: Buffer)
        requires
            old(self).wf(),
            old(temp)@.wf(),
            len > 0,
        ensures
            final(self).wf(),
            final(self).io() == old(self).io(),
            final(temp)@.wf(),
            old(self)@.hands_out(old(temp)@, len as nat, res),
            res.wf(),
            res.bytes().len() == len,
            final(self)@ == old(self)@.after_allocate(len as nat),
            final(temp)@ == old(self)@.temp_after_allocate(old(temp)@, len as nat),
    {
        let db_page_size: usize = self.get_db_page_size();
        let wal_frame_size: usize = db_page_size + WAL_FRAME_HEADER_SIZE;
        let found = if len == wal_frame_size {
            match &mut self.wal_frame_arena {
                Some(arena) => arena.try_alloc(len),
                None => None,
            }
        } else {
            match &mut self.page_arena {
                Some(arena) => arena.try_alloc(len),
                None => None,
            }
        };
        match found {
            Some(buffer) => buffer,
            None => Buffer::new_temporary(len, temp),
        }
    }

    /// Allocates a buffer of the size of a page.
    fn get_db_page_buffer(&mut self, temp: &mut TempBufferCache) -> (res: Buffer)
        requires
            old(self).wf(),
            old(temp)@.wf(),
        ensures
            final(self).wf(),
            final(self).io() == old(self).io(),
            final(temp)@.wf(),
            old(self)@.hands_out(old(temp)@, old(self)@.db_page_size(), res),
            res.wf(),
            res.bytes().len() == old(self)@.db_page_size(),
            match old(self)@.page_size {
                Some(size) => res.bytes().len() == size,
                None => res.bytes().len() == DEFAULT_PAGE_SIZE,
            },
            final(self)@ == old(self)@.after_allocate(old(self)@.db_page_size()),
            final(temp)@ == old(self)@.temp_after_allocate(old(temp)@, old(self)@.db_page_size()),
    {
        let db_page_size: usize = self.get_db_page_size();
        let found = match &mut self.page_arena {
            Some(arena) => arena.try_alloc(db_page_size),
            None => None,
        };
        match found {
            Some(buffer) => buffer,
            None => Buffer::new_temporary(db_page_size, temp),
        }
    }

    /// Allocates a buffer of the size of a frame of the write-ahead log.
    fn get_wal_frame_buffer(&mut self, temp: &mut TempBufferCache) -> (res: Buffer)
        requires
            old(self).wf(),
            old(temp)@.wf(),
        ensures
            final(self).wf(),
            final(self).io() == old(self).io(),
            final(temp)@.wf(),
            old(self)@.hands_out(old(temp)@, old(self)@.frame_size(), res),
            res.wf(),
            res.bytes().len() == old(self)@.frame_size(),
            match old(self)@.page_size {
                Some(size) => res.bytes().len() == size + WAL_FRAME_HEADER_SIZE,
                None => res.bytes().len() == DEFAULT_PAGE_SIZE + WAL_FRAME_HEADER_SIZE,
            },
            final(self)@ == old(self)@.after_allocate(old(self)@.frame_size()),
            final(temp)@ == old(self)@.temp_after_allocate(old(temp)@, old(self)@.frame_size()),
    {
        let len: usize = self.get_db_page_size() + WAL_FRAME_HEADER_SIZE;
        let found = match &mut self.wal_frame_arena {
            Some(arena) => arena.try_alloc(len),
            None => None,
        };
        match found {
            Some(buffer) => buffer,
            None => Buffer::new_temporary(len, temp),
        }
    }

    /// Whether `buffer` can come back. It goes by the identifier of the arena and the index of the
    /// slot, so that no other arena in use may carry the identifier of one of these.
    pub fn accepts(&self, buffer: &Buffer) -> (res: bool)
        requires
            self.wf(),
        ensures
            res == self@.accepts(*buffer),
    {
        match buffer {
            Buffer::Heap(_) => true,
            Buffer::Pooled(slot) => self.is_page(slot) || match &self.wal_frame_arena {
                Some(arena) => arena.has_issued(slot),
                None => false,
            },
        }
    }

    /// Whether `slot` is out and comes from the page arena.
    fn is_page(&self, slot: &ArenaBuffer) -> (res: bool)
        requires
            self.wf(),
        ensures
            res == self@.issued_page(slot@),
    {
        match &self.page_arena {
            Some(arena) => arena.has_issued(slot),
            None => false,
        }
    }

    /// Takes `buffer` back: a slot goes back to its arena, a temporary buffer to `temp`.
    pub fn release(&mut self, buffer: Buffer, temp: &mut TempBufferCache)
        requires
            old(self).wf(),
            old(temp)@.wf(),
            old(self)@.accepts(buffer),
        ensures
            final(self).wf(),
            final(self).io() == old(self).io(),
            final(temp)@.wf(),
            final(self)@ == old(self)@.after_release(buffer),
            final(temp)@ == old(self)@.temp_after_release(old(temp)@, buffer),
    {
        match buffer {
            Buffer::Heap(data) => temp.return_buffer(data),
            Buffer::Pooled(slot) => {
                if self.is_page(&slot) {
                    if let Some(arena) = &mut self.page_arena {
                        arena.free(slot);
                    }
                } else {
                    if let Some(arena) = &mut self.wal_frame_arena {
                        arena.free(slot);
                    }
                }
            },
        }
    }

    /// Takes in the arena for pages, for whatever came of creating it.
    pub fn install_page_arena(&mut self, created: Result<Arena, String>) -> (res: Result<
        (),
        LimboError,
    >)
        requires
            old(self).wf(),
            old(self)@.page_arena is None,
            old(self)@.wal_frame_arena is None,
            created matches Ok(arena) ==> arena.wf() && old(self)@.page_size == Some(
                arena@.slot_size,
            ),
        ensures
            final(self).wf(),
            final(self).io() == old(self).io(),
            match created {
                Ok(arena) => {
                    &&& res is Ok
                    &&& final(self)@ == (PoolView { page_arena: Some(arena@), ..old(self)@ })
                },
                Err(text) => {
                    &&& res matches Err(LimboError::InternalError(message))
                    &&& message@ == "Failed to create arena: "@ + text@
                    &&& final(self)@ == old(self)@
                },
            },
    {
        match created {
            Ok(arena) => {
                self.page_arena = Some(arena);
                Ok(())
            },
            Err(text) => Err(internal_error("Failed to create arena: ", &text)),
        }
    }

    /// Takes in the arena for frames, for whatever came of creating it.
    pub fn install_wal_frame_arena(&mut self, created: Result<Arena, String>) -> (res: Result<
        (),
        LimboError,
    >)
        requires
            old(self).wf(),
            old(self)@.page_arena is Some,
            old(self)@.wal_frame_arena is None,
            created matches Ok(arena) ==> arena.wf() && arena@.slot_size == old(self)@.frame_size(),
        ensures
            final(self).wf(),
            final(self).io() == old(self).io(),
            match created {
                Ok(arena) => {
                    &&& res is Ok
                    &&& final(self)@ == (PoolView { wal_frame_arena: Some(arena@), ..old(self)@ })
                },
                Err(text) => {
                    &&& res matches Err(LimboError::InternalError(message))
                    &&& message@ == "Failed to create WAL frame arena: "@ + text@
                    &&& final(self)@ == old(self)@
                },
            },
    {
        match created {
            Ok(arena) => {
                self.wal_frame_arena = Some(arena);
                Ok(())
            },
            Err(text) => Err(internal_error("Failed to create WAL frame arena: ", &text)),
        }
    }

    /// Creates the arenas.
    fn init_arenas(&mut self, ids: &mut ArenaIds) -> (res: Result<(), LimboError>)
        requires
            old(self).wf(),
            old(self).io() is Some,
            old(self)@.page_arena is None,
            old(self)@.wal_frame_arena is None,
            old(self)@.page_size is Some,
            layout_bytes(old(self)@.db_page_size(), old(self)@.arena_size) <= usize::MAX,
        ensures
            final(self).wf(),
            final(self).io() == old(self).io(),
            old(self)@.init(
                *old(self).io()->0,
                old(ids)@,
                failure(res),
                final(self)@,
                final(ids)@,
            ),
    {
        let db_page_size: usize = self.get_db_page_size();
        let arena_size: usize = self.arena_size;
        let io = self.io.as_ref().unwrap().clone();
        let ghost before = self@;

        // Create regular page arena
        let created = Arena::new(db_page_size, arena_size, &*io, ids);
        let ghost page = outcome(created);
        let ghost between = ids@;
        let installed = self.install_page_arena(created);
        if installed.is_err() {
            assert(before.init_with(
                *io,
                old(ids)@,
                page,
                between,
                failure(installed),
                self@,
                ids@,
            ));
            return installed;
        }

        // Create WAL frame arena
        let wal_frame_size: usize = db_page_size + WAL_FRAME_HEADER_SIZE;
        let ghost middle = self@;
        proof {
            lemma_layout(db_page_size as nat, arena_size as nat);
            lemma_layout(wal_frame_size as nat, arena_size as nat);
        }
        let created = Arena::new(wal_frame_size, arena_size, &*io, ids);
        let ghost frame = outcome(created);
        let installed = self.install_wal_frame_arena(created);
        proof {
            let told = failure(installed);
            assert(middle.init_wal_frame_arena_with(*io, between, frame, told, self@, ids@));
            assert(before.init_with(*io, old(ids)@, page, between, told, self@, ids@));
        }
        installed
    }
}

/// Buffer pool that hands out slots of its arenas, and temporary buffers where it cannot.
pub struct BufferPool<I> {
    inner: PoolInner<I>,
}

impl<I> View for BufferPool<I> {
    type V = PoolView;

    closed spec fn view(&self) -> PoolView {
        self.inner@
    }
}

impl<I: IO> Default for BufferPool<I> {
    /// A pool with arenas of the default size, which has no I/O yet.
    fn default() -> (res: Self)
        ensures
            res.wf(),
            res.io() is None,
            res@ == PoolView::new(BufferPool::<I>::DEFAULT_ARENA_SIZE as nat),
            res@.arena_size == BufferPool::<I>::DEFAULT_ARENA_SIZE,
            res@.page_size is None,
            res@.page_arena is None,
            res@.wal_frame_arena is None,
    {
        Self::new(Self::DEFAULT_ARENA_SIZE)
    }
}

impl<I: IO> BufferPool<I> {
    /// Size of each arena, 3 MB. A process without privileges may lock 8 MB in memory, so that
    /// with more than this the second arena could not be registered.
    pub const DEFAULT_ARENA_SIZE: usize = 3 * 1024 * 1024;

    /// Size of each arena for tests, 1 MB.
    pub const TEST_ARENA_SIZE: usize = 1024 * 1024;

    /// Page size that holds until another one is set, 4 KB.
    pub const DEFAULT_PAGE_SIZE: usize = DEFAULT_PAGE_SIZE;

    pub closed spec fn consistent(&self) -> bool {
        self.inner.consistent()
    }

    pub open spec fn wf(&self) -> bool {
        self@.wf() && self.consistent()
    }

    /// The program's I/O, once the pool has it.
    pub closed spec fn io(&self) -> Option<Arc<I>> {
        self.inner.io()
    }

    fn new(arena_size: usize) -> (res: Self)
        requires
            MIN_ARENA_SIZE <= arena_size < MAX_ARENA_SIZE,
        ensures
            res.wf(),
            res.io() is None,
            res@ == PoolView::new(arena_size as nat),
            res@.arena_size == arena_size,
            res@.page_size is None,
            res@.page_arena is None,
            res@.wal_frame_arena is None,
    {
        BufferPool {
            inner: PoolInner {
                page_arena: None,
                wal_frame_arena: None,
                arena_size,
                db_page_size: None,
                io: None,
            },
        }
    }

    /// Requests a buffer of `len` bytes.
    pub fn allocate(&mut self, len: usize, temp: &mut TempBufferCache) -> (res: Buffer)
        requires
            old(self).wf(),
            old(temp)@.wf(),
            len > 0,
        ensures
            final(self).wf(),
            final(self).io() == old(self).io(),
            final(temp)@.wf(),
            old(self)@.hands_out(old(temp)@, len as nat, res),
            res.wf(),
            res.bytes().len() == len,
            final(self)@ == old(self)@.after_allocate(len as nat),
            final(temp)@ == old(self)@.temp_after_allocate(old(temp)@, len as nat),
    {
        self.inner.allocate(len, temp)
    }

    /// Requests a buffer of the size of a page.
    pub fn get_page(&mut self, temp: &mut TempBufferCache) -> (res: Buffer)
        requires
            old(self).wf(),
            old(temp)@.wf(),
        ensures
            final(self).wf(),
            final(self).io() == old(self).io(),
            final(temp)@.wf(),
            old(self)@.hands_out(old(temp)@, old(self)@.db_page_size(), res),
            res.wf(),
            res.bytes().len() == old(self)@.db_page_size(),
            match old(self)@.page_size {
                Some(size) => res.bytes().len() == size,
                None => res.bytes().len() == DEFAULT_PAGE_SIZE,
            },
            final(self)@ == old(self)@.after_allocate(old(self)@.db_page_size()),
            final(temp)@ == old(self)@.temp_after_allocate(old(temp)@, old(self)@.db_page_size()),
    {
        self.inner.get_db_page_buffer(temp)
    }

    /// Requests a buffer for a frame of the write-ahead log: a page and the header of the frame.
    pub fn get_wal_frame(&mut self, temp: &mut TempBufferCache) -> (res: Buffer)
        requires
            old(self).wf(),
            old(temp)@.wf(),
        ensures
            final(self).wf(),
            final(self).io() == old(self).io(),
            final(temp)@.wf(),
            old(self)@.hands_out(old(temp)@, old(self)@.frame_size(), res),
            res.wf(),
            res.bytes().len() == old(self)@.frame_size(),
            match old(self)@.page_size {
                Some(size) => res.bytes().len() == size + WAL_FRAME_HEADER_SIZE,
                None => res.bytes().len() == DEFAULT_PAGE_SIZE + WAL_FRAME_HEADER_SIZE,
            },
            final(self)@ == old(self)@.after_allocate(old(self)@.frame_size()),
            final(temp)@ == old(self)@.temp_after_allocate(old(temp)@, old(self)@.frame_size()),
    {
        self.inner.get_wal_frame_buffer(temp)
    }

    /// Whether `buffer` can come back to this pool. It goes by the identifier of the arena and the
    /// index of the slot, so that no other arena in use may carry the identifier of one of this
    /// pool's.
    pub fn accepts(&self, buffer: &Buffer) -> (res: bool)
        requires
            self.wf(),
        ensures
            res == self@.accepts(*buffer),
    {
        self.inner.accepts(buffer)
    }

    /// Gives `buffer` back: a slot becomes free again in its arena, a temporary buffer goes to
    /// `temp`.
    pub fn release(&mut self, buffer: Buffer, temp: &mut TempBufferCache)
        requires
            old(self).wf(),
            old(temp)@.wf(),
            old(self)@.accepts(buffer),
        ensures
            final(self).wf(),
            final(self).io() == old(self).io(),
            final(temp)@.wf(),
            final(self)@ == old(self)@.after_release(buffer),
            final(temp)@ == old(self)@.temp_after_release(old(temp)@, buffer),
    {
        self.inner.release(buffer, temp)
    }

    /// Creates a pool with arenas of `arena_size` bytes, **without** the arenas: they are created
    /// once the page size is known. Until then the pool hands out temporary buffers, so that no
    /// arena is made for a page size that turns out to be another.
    pub fn begin_init(io: &Arc<I>, arena_size: usize) -> (res: Self)
        requires
            MIN_ARENA_SIZE <= arena_size < MAX_ARENA_SIZE,
        ensures
            res.wf(),
            res.io() == Some(*io),
            res@ == PoolView::new(arena_size as nat),
            res@.arena_size == arena_size,
            res@.page_size is None,
            res@.page_arena is None,
            res@.wal_frame_arena is None,
    {
        let mut pool = Self::new(arena_size);
        // Just keep the I/O, don't create arenas yet
        if pool.inner.io.is_none() {
            pool.inner.io = Some(Arc::clone(io));
        }
        pool
    }

    /// Whether the page size can be set to `page_size`: either it does nothing because it is done,
    /// or the pool has its I/O and the size of the arena for such pages can be computed.
    pub fn can_finalize(&self, page_size: usize) -> (res: bool)
        requires
            self.wf(),
        ensures
            res == (self@.awaits_page_size() ==> {
                &&& self.io() is Some
                &&& page_size > 0
                &&& layout_bytes(page_size as nat, self@.arena_size) <= usize::MAX
            }),
    {
        if self.inner.page_arena.is_some() || self.inner.db_page_size.is_some() {
            true
        } else {
            self.inner.io.is_some() && page_size > 0 && layout(
                page_size,
                self.inner.arena_size,
            ).is_some()
        }
    }

    /// Sets the page size and creates the arenas. Only the first call does; a later one leaves the
    /// pool as it is. Every call with a page size that is not the default has `temp` forget its
    /// buffers, which were made for another size.
    pub fn finalize_with_page_size(
        &mut self,
        page_size: usize,
        temp: &mut TempBufferCache,
        ids: &mut ArenaIds,
    ) -> (res: Result<(), LimboError>)
        requires
            old(self).wf(),
            old(temp)@.wf(),
            old(self)@.awaits_page_size() ==> {
                &&& old(self).io() is Some
                &&& page_size > 0
                &&& layout_bytes(page_size as nat, old(self)@.arena_size) <= usize::MAX
            },
        ensures
            final(self).wf(),
            final(self).io() == old(self).io(),
            final(temp)@.wf(),
            final(temp)@ == old(temp)@.after_page_size(page_size as nat),
            final(self)@.arena_size == old(self)@.arena_size,
            match old(self)@.page_size {
                Some(size) => final(self)@.page_size == Some(size),
                None => final(self)@.page_size == Some(page_size as nat),
            },
            if old(self)@.awaits_page_size() {
                old(self)@.with_page_size(page_size as nat).init(
                    *old(self).io()->0,
                    old(ids)@,
                    failure(res),
                    final(self)@,
                    final(ids)@,
                )
            } else {
                res is Ok && final(self)@ == old(self)@ && final(ids)@ == old(ids)@
            },
    {
        if page_size != DEFAULT_PAGE_SIZE {
            // Temporary buffers of the default size may have been handed out: they must not be
            // used for other sizes.
            temp.reinit_cache(page_size);
        }
        if self.inner.page_arena.is_some() {
            return Ok(());
        }
        if self.inner.db_page_size.is_none() {
            proof {
                lemma_layout(page_size as nat, self@.arena_size);
            }
            self.inner.db_page_size = Some(page_size);
            self.inner.init_arenas(ids)?;
        }
        Ok(())
    }
}

} // verus!
