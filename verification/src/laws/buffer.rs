//! What buffers hold, and which temporary buffers are used again.

use crate::buffer::{zeros, Buffer, TempBufferCache, TempView, DEFAULT_PAGE_SIZE};
use crate::buffer::WAL_FRAME_HEADER_SIZE;
use vstd::prelude::*;

verus! {

/// A temporary buffer holds all of its memory, and one from an arena the beginning of its slot.
pub proof fn buffer_holds_its_memory(buffer: Buffer)
    ensures
        match buffer {
            Buffer::Heap(data) => buffer.wf() && buffer.bytes() == data@,
            Buffer::Pooled(slot) => {
                &&& buffer.wf() <==> slot@.len <= slot@.data.len()
                &&& buffer.wf() ==> {
                    &&& buffer.bytes().len() == slot@.len
                    &&& forall|i: int|
                        0 <= i < slot@.len ==> #[trigger] buffer.bytes()[i] == slot@.data[i]
                }
            },
        },
{
}

/// The length of a buffer is that of its memory if it is temporary, and otherwise what was asked
/// for, which is what it shows of its slot.
pub proof fn length_is_what_was_asked_for(buffer: Buffer, len: usize, shown: &[u8])
    requires
        call_ensures(Buffer::len, (&buffer,), len),
        call_ensures(Buffer::as_slice, (&buffer,), shown),
        buffer matches Buffer::Pooled(slot) ==> slot@.len <= slot@.data.len(),
    ensures
        shown@.len() == len,
        match buffer {
            Buffer::Heap(data) => len == data@.len() && shown@ == data@,
            Buffer::Pooled(slot) => {
                &&& len == slot@.len
                &&& forall|i: int| 0 <= i < len ==> #[trigger] shown@[i] == slot@.data[i]
            },
        },
{
    buffer_holds_its_memory(buffer);
}

/// New memory is zero throughout.
pub proof fn new_memory_is_zero(len: nat)
    ensures
        zeros(len).len() == len,
        forall|i: int| 0 <= i < len ==> #[trigger] zeros(len)[i] == 0,
{
}

/// A cache keeps pages with pages and frames with frames, up to 256 of either.
pub proof fn cache_keeps_like_with_like(temp: TempView)
    ensures
        temp.wf() <==> {
            &&& temp.pages.len() <= 256
            &&& temp.frames.len() <= 256
            &&& forall|i: int|
                0 <= i < temp.pages.len() ==> (#[trigger] temp.pages[i]).len() == temp.page_size
            &&& forall|i: int|
                0 <= i < temp.frames.len() ==> (#[trigger] temp.frames[i]).len() == temp.page_size
                    + WAL_FRAME_HEADER_SIZE
        },
{
}

/// A temporary buffer has the length that was asked for.
pub proof fn temporary_buffer_has_the_length(temp: TempView, len: nat)
    requires
        temp.wf(),
    ensures
        temp.next(len).len() == len,
{
    if temp.pages.len() > 0 {
        assert(temp.pages[temp.pages.len() - 1].len() == temp.page_size);
    }
    if temp.frames.len() > 0 {
        assert(temp.frames[temp.frames.len() - 1].len() == temp.page_size + WAL_FRAME_HEADER_SIZE);
    }
}

/// The page that came back last is the next one that is handed out, and so is the frame that came
/// back last. For every other length, and where none is kept, the buffer is new.
pub proof fn latest_buffer_is_handed_out(temp: TempView, len: nat)
    ensures
        ({
            let after = temp.after_take(len);
            if len == temp.page_size && temp.pages.len() > 0 {
                &&& temp.holds(len)
                &&& temp.next(len) == temp.pages[temp.pages.len() - 1]
                &&& after.pages == temp.pages.subrange(0, temp.pages.len() - 1)
                &&& after.frames == temp.frames
                &&& after.page_size == temp.page_size
            } else if len == temp.page_size + WAL_FRAME_HEADER_SIZE && temp.frames.len() > 0 {
                &&& temp.holds(len)
                &&& temp.next(len) == temp.frames[temp.frames.len() - 1]
                &&& after.frames == temp.frames.subrange(0, temp.frames.len() - 1)
                &&& after.pages == temp.pages
                &&& after.page_size == temp.page_size
            } else {
                &&& !temp.holds(len)
                &&& temp.next(len).len() == len
                &&& forall|i: int| 0 <= i < len ==> #[trigger] temp.next(len)[i] == 0
                &&& after == temp
            }
        }),
{
}

/// A page or a frame that comes back is kept as the latest while there are fewer than 256 of its
/// kind. Everything else is dropped.
pub proof fn pages_and_frames_are_kept(temp: TempView, data: Seq<u8>)
    ensures
        ({
            let after = temp.after_return(data);
            if data.len() == temp.page_size && temp.pages.len() < 256 {
                &&& after.pages == temp.pages + seq![data]
                &&& after.frames == temp.frames
                &&& after.page_size == temp.page_size
            } else if data.len() == temp.page_size + WAL_FRAME_HEADER_SIZE && temp.frames.len()
                < 256 {
                &&& after.frames == temp.frames + seq![data]
                &&& after.pages == temp.pages
                &&& after.page_size == temp.page_size
            } else {
                after == temp
            }
        }),
{
    let after = temp.after_return(data);
    if data.len() == temp.page_size && temp.pages.len() < 256 {
        assert(after.pages =~= temp.pages + seq![data]);
    } else if data.len() == temp.page_size + WAL_FRAME_HEADER_SIZE && temp.frames.len() < 256 {
        assert(after.frames =~= temp.frames + seq![data]);
    }
}

/// A buffer that comes back to a cache with room is the next one of its length, with what it held.
pub proof fn returned_buffer_is_handed_out_next(temp: TempView, data: Seq<u8>)
    requires
        data.len() == temp.page_size || data.len() == temp.page_size + WAL_FRAME_HEADER_SIZE,
        temp.pages.len() < 256,
        temp.frames.len() < 256,
    ensures
        temp.after_return(data).holds(data.len()),
        temp.after_return(data).next(data.len()) == data,
        temp.after_return(data).after_take(data.len()) == temp,
{
    let after = temp.after_return(data);
    assert(after.after_take(data.len()).pages =~= temp.pages);
    assert(after.after_take(data.len()).frames =~= temp.frames);
}

/// A new cache serves the default page size and keeps nothing.
pub proof fn new_cache_is_empty(cache: TempBufferCache)
    requires
        call_ensures(TempBufferCache::new, (), cache),
    ensures
        cache@.page_size == DEFAULT_PAGE_SIZE,
        cache@.pages.len() == 0,
        cache@.frames.len() == 0,
{
}

/// Setting a page size that is not the default leaves a cache that keeps nothing and serves that
/// size. Setting the default leaves the cache as it is.
pub proof fn page_size_starts_the_cache_over(temp: TempView, page_size: nat)
    ensures
        TempView::empty(page_size).page_size == page_size,
        TempView::empty(page_size).pages.len() == 0,
        TempView::empty(page_size).frames.len() == 0,
        page_size == DEFAULT_PAGE_SIZE ==> temp.after_page_size(page_size) == temp,
        page_size != DEFAULT_PAGE_SIZE ==> {
            &&& temp.after_page_size(page_size).page_size == page_size
            &&& temp.after_page_size(page_size).pages.len() == 0
            &&& temp.after_page_size(page_size).frames.len() == 0
        },
{
}

} // verus!
