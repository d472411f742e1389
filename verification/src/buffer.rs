//! Buffers: slots of an arena, or temporary heap memory.

use crate::arena::{ArenaBuffer, UNREGISTERED_START};
use vstd::prelude::*;

verus! {

/// Size of the header of a frame of the write-ahead log, in bytes.
pub const WAL_FRAME_HEADER_SIZE: usize = 24;

/// Page size that holds until another one is set.
pub const DEFAULT_PAGE_SIZE: usize = 4096;

/// Largest number of temporary buffers of one size that a cache keeps.
pub const MAX_CACHED: usize = 256;

/// A buffer as callers hold it.
#[derive(Debug)]
pub enum Buffer {
    /// Temporary memory of its own.
    Heap(Vec<u8>),
    /// A slot of one of the pool's arenas.
    Pooled(ArenaBuffer),
}

impl Buffer {
    /// A buffer from an arena lies within its slot.
    pub open spec fn wf(&self) -> bool {
        self matches Buffer::Pooled(buffer) ==> buffer@.wf()
    }

    /// What the buffer holds.
    pub open spec fn bytes(&self) -> Seq<u8> {
        match self {
            Buffer::Heap(data) => data@,
            Buffer::Pooled(buffer) => buffer@.bytes(),
        }
    }

    /// A temporary buffer of `len` bytes: one that `cache` kept, or a new one, zero throughout.
    pub fn new_temporary(len: usize, cache: &mut TempBufferCache) -> (res: Buffer)
        requires
            old(cache)@.wf(),
        ensures
            res is Heap,
            res.bytes() == old(cache)@.next(len as nat),
            final(cache)@ == old(cache)@.after_take(len as nat),
            final(cache)@.wf(),
    {
        match cache.get_buffer(len) {
            Some(data) => Buffer::Heap(data),
            None => {
                let data: Vec<u8> = vec![0; len];
                assert(data@ =~= zeros(len as nat));
                Buffer::Heap(data)
            },
        }
    }

    /// Number of bytes.
    pub fn len(&self) -> (res: usize)
        requires
            self.wf(),
        ensures
            res == self.bytes().len(),
    {
        match self {
            Buffer::Heap(data) => data.len(),
            Buffer::Pooled(buffer) => buffer.logical_len(),
        }
    }

    /// Whether the buffer is a slot of an arena.
    pub fn is_pooled(&self) -> (res: bool)
        ensures
            res == (self is Pooled),
    {
        match self {
            Buffer::Heap(_) => false,
            Buffer::Pooled(_) => true,
        }
    }

    /// The identifier of the buffer's arena, if it has one that is registered.
    pub fn fixed_id(&self) -> (res: Option<u32>)
        ensures
            res == (match self {
                Buffer::Heap(_) => None,
                Buffer::Pooled(buffer) => buffer@.fixed_id(),
            }),
            match self {
                Buffer::Heap(_) => res is None,
                Buffer::Pooled(buffer) => if buffer@.arena_id < UNREGISTERED_START {
                    res == Some(buffer@.arena_id)
                } else {
                    res is None
                },
            },
    {
        match self {
            Buffer::Heap(_) => None,
            Buffer::Pooled(buffer) => buffer.fixed_id(),
        }
    }

    /// The bytes of the buffer.
    pub fn as_slice(&self) -> (res: &[u8])
        requires
            self.wf(),
        ensures
            res@ == self.bytes(),
    {
        match self {
            Buffer::Heap(data) => data.as_slice(),
            Buffer::Pooled(buffer) => buffer.as_slice(),
        }
    }

    /// The bytes of the buffer, to be written.
    pub fn as_mut_slice(&mut self) -> (res: &mut [u8])
        requires
            old(self).wf(),
        ensures
            res@ == old(self).bytes(),
            match *old(self) {
                Buffer::Heap(_) => {
                    &&& *final(self) matches Buffer::Heap(after)
                    &&& after@ == final(res)@
                },
                Buffer::Pooled(before) => {
                    &&& *final(self) matches Buffer::Pooled(after)
                    &&& after@ == before@.written(final(res)@)
                },
            },
            final(res)@.len() == res@.len() ==> final(self).wf() && final(self).bytes()
                == final(res)@,
    {
        match self {
            Buffer::Heap(data) => data.as_mut_slice(),
            Buffer::Pooled(buffer) => buffer.as_mut_slice(),
        }
    }
}

/// `len` zero bytes.
pub open spec fn zeros(len: nat) -> Seq<u8> {
    Seq::new(len, |i: int| 0u8)
}

/// What a cache of temporary buffers is: the page size that it serves, and what the buffers hold
/// that it keeps, the latest last.
pub struct TempView {
    pub page_size: nat,
    pub pages: Seq<Seq<u8>>,
    pub frames: Seq<Seq<u8>>,
}

impl TempView {
    /// Size of a frame of the write-ahead log.
    pub open spec fn frame_size(self) -> nat {
        self.page_size + WAL_FRAME_HEADER_SIZE as nat
    }

    /// Buffers are kept with their like, and not too many of them.
    pub open spec fn wf(self) -> bool {
        &&& self.pages.len() <= MAX_CACHED
        &&& self.frames.len() <= MAX_CACHED
        &&& forall|i: int|
            0 <= i < self.pages.len() ==> (#[trigger] self.pages[i]).len() == self.page_size
        &&& forall|i: int|
            0 <= i < self.frames.len() ==> (#[trigger] self.frames[i]).len() == self.frame_size()
    }

    /// No buffers, and `page_size` to serve.
    pub open spec fn empty(page_size: nat) -> TempView {
        TempView { page_size, pages: Seq::empty(), frames: Seq::empty() }
    }

    /// The cache once the page size was set: it starts over unless that is the default.
    pub open spec fn after_page_size(self, page_size: nat) -> TempView {
        if page_size == DEFAULT_PAGE_SIZE {
            self
        } else {
            TempView::empty(page_size)
        }
    }

    /// Whether a buffer of `len` bytes is kept.
    pub open spec fn holds(self, len: nat) -> bool {
        ||| len == self.page_size && self.pages.len() > 0
        ||| len == self.frame_size() && self.frames.len() > 0
    }

    /// What the temporary buffer of `len` bytes holds that is handed out next: what it held when
    /// it came back, or zeros if none was kept.
    pub open spec fn next(self, len: nat) -> Seq<u8> {
        if !self.holds(len) {
            zeros(len)
        } else if len == self.page_size {
            self.pages.last()
        } else {
            self.frames.last()
        }
    }

    /// The cache once it is.
    pub open spec fn after_take(self, len: nat) -> TempView {
        if !self.holds(len) {
            self
        } else if len == self.page_size {
            TempView { pages: self.pages.drop_last(), ..self }
        } else {
            TempView { frames: self.frames.drop_last(), ..self }
        }
    }

    /// The cache once a temporary buffer with `data` has come back: it is kept if it has one of
    /// the two sizes and there is room.
    pub open spec fn after_return(self, data: Seq<u8>) -> TempView {
        if data.len() == self.page_size && self.pages.len() < MAX_CACHED {
            TempView { pages: self.pages.push(data), ..self }
        } else if data.len() == self.frame_size() && self.frames.len() < MAX_CACHED {
            TempView { frames: self.frames.push(data), ..self }
        } else {
            self
        }
    }
}

/// Temporary buffers that came back, kept to be used again. Each thread has a cache of its own.
pub struct TempBufferCache {
    /// Page size that the cache serves.
    page_size: usize,
    /// Buffers of `page_size` bytes.
    page_buffers: Vec<Vec<u8>>,
    /// Buffers of `page_size + WAL_FRAME_HEADER_SIZE` bytes.
    wal_frame_buffers: Vec<Vec<u8>>,
}

/// What each of `buffers` holds.
spec fn held(buffers: Seq<Vec<u8>>) -> Seq<Seq<u8>> {
    Seq::new(buffers.len(), |i: int| buffers[i]@)
}

impl View for TempBufferCache {
    type V = TempView;

    closed spec fn view(&self) -> TempView {
        TempView {
            page_size: self.page_size as nat,
            pages: held(self.page_buffers@),
            frames: held(self.wal_frame_buffers@),
        }
    }
}

impl TempBufferCache {
    /// An empty cache for the default page size.
    pub fn new() -> (res: TempBufferCache)
        ensures
            res@ == TempView::empty(DEFAULT_PAGE_SIZE as nat),
            res@.wf(),
    {
        let res = TempBufferCache {
            page_size: DEFAULT_PAGE_SIZE,
            page_buffers: Vec::new(),
            wal_frame_buffers: Vec::new(),
        };
        assert(res@.pages =~= Seq::empty());
        assert(res@.frames =~= Seq::empty());
        res
    }

    /// Forgets every buffer, and serves `page_size` from now on.
    pub fn reinit_cache(&mut self, page_size: usize)
        ensures
            final(self)@ == TempView::empty(page_size as nat),
            final(self)@.wf(),
    {
        self.page_buffers.clear();
        self.wal_frame_buffers.clear();
        self.page_size = page_size;
        assert(self@.pages =~= Seq::empty());
        assert(self@.frames =~= Seq::empty());
    }

    /// Whether `len` is the size of a frame.
    fn is_frame_size(&self, len: usize) -> (res: bool)
        ensures
            res == (len == self@.frame_size()),
    {
        len >= WAL_FRAME_HEADER_SIZE && len - WAL_FRAME_HEADER_SIZE == self.page_size
    }

    /// Hands out a buffer of `len` bytes, if one is kept.
    pub fn get_buffer(&mut self, len: usize) -> (res: Option<Vec<u8>>)
        requires
            old(self)@.wf(),
        ensures
            match res {
                Some(data) => old(self)@.holds(len as nat) && data@ == old(self)@.next(len as nat),
                None => !old(self)@.holds(len as nat),
            },
            final(self)@ == old(self)@.after_take(len as nat),
            final(self)@.wf(),
    {
        let res = if len == self.page_size {
            self.page_buffers.pop()
        } else if self.is_frame_size(len) {
            self.wal_frame_buffers.pop()
        } else {
            None
        };
        proof {
            let after = old(self)@.after_take(len as nat);
            assert(self@.pages =~= after.pages);
            assert(self@.frames =~= after.frames);
        }
        res
    }

    /// Takes a temporary buffer back.
    pub fn return_buffer(&mut self, data: Vec<u8>)
        requires
            old(self)@.wf(),
        ensures
            final(self)@ == old(self)@.after_return(data@),
            final(self)@.wf(),
    {
        let ghost before = self@;
        let ghost bytes = data@;
        if data.len() == self.page_size {
            if self.page_buffers.len() < MAX_CACHED {
                self.page_buffers.push(data);
            }
        } else if self.is_frame_size(data.len()) {
            if self.wal_frame_buffers.len() < MAX_CACHED {
                self.wal_frame_buffers.push(data);
            }
        }
        proof {
            assert(self@.pages =~= before.after_return(bytes).pages);
            assert(self@.frames =~= before.after_return(bytes).frames);
        }
    }
}

} // verus!
