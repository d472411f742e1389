//! Arenas, pools and temporary buffers, one step at a time.

use buffer_pool::arena::{layout, Arena, ArenaIds, MAX_ARENA_SIZE, UNREGISTERED_START};
use buffer_pool::bitmap::SlotBitmap;
use buffer_pool::buffer::{Buffer, TempBufferCache, MAX_CACHED, WAL_FRAME_HEADER_SIZE};
use buffer_pool::error::{over_limit, push_decimal, LimboError};
use buffer_pool::io::IO;
use buffer_pool::pool::{BufferPool, MIN_ARENA_SIZE};
use std::cell::{Cell, RefCell};
use std::sync::Arc;

/// I/O that gives heap memory a number of times, and registers it a number of times.
struct TestIO {
    /// Requests for memory that are still answered.
    maps: Cell<usize>,
    /// Bytes that the memory is longer than asked for.
    excess: usize,
    /// What is written to the memory beforehand.
    fill: u8,
    /// Registrations that are still answered.
    registrations: Cell<u32>,
    /// The next index of a registration.
    next_index: Cell<u32>,
    /// Address and length of the memory that was given, and of the memory that was registered.
    given: RefCell<Vec<(usize, usize)>>,
    registered: RefCell<Vec<(usize, usize)>>,
}

fn test_io(maps: usize, registrations: u32) -> TestIO {
    TestIO {
        maps: Cell::new(maps),
        excess: 0,
        fill: 0,
        registrations: Cell::new(registrations),
        next_index: Cell::new(0),
        given: RefCell::new(Vec::new()),
        registered: RefCell::new(Vec::new()),
    }
}

impl IO for TestIO {
    type Region = &'static mut [u8];

    fn map_arena(&self, len: usize) -> Option<&'static mut [u8]> {
        if self.maps.get() == 0 {
            return None;
        }
        self.maps.set(self.maps.get() - 1);
        let memory = Box::leak(vec![self.fill; len + self.excess].into_boxed_slice());
        self.given.borrow_mut().push((memory.as_ptr() as usize, memory.len()));
        Some(memory)
    }

    fn register_fixed_buffer(&self, memory: &&'static mut [u8]) -> Result<u32, LimboError> {
        if self.registrations.get() == 0 {
            return Err(LimboError::InternalError("no room".to_string()));
        }
        self.registrations.set(self.registrations.get() - 1);
        self.registered.borrow_mut().push((memory.as_ptr() as usize, memory.len()));
        let index = self.next_index.get();
        self.next_index.set(index + 1);
        Ok(index)
    }

    fn memory(&self, region: &'static mut [u8]) -> &'static mut [u8] {
        region
    }
}

/// I/O that keeps the refusal to register.
struct PlainIO {}

impl IO for PlainIO {
    type Region = &'static mut [u8];

    fn map_arena(&self, len: usize) -> Option<&'static mut [u8]> {
        Some(Box::leak(vec![0u8; len].into_boxed_slice()))
    }

    fn memory(&self, region: &'static mut [u8]) -> &'static mut [u8] {
        region
    }
}

struct Fixture {
    pool: BufferPool<TestIO>,
    temp: TempBufferCache,
    ids: ArenaIds,
    io: Arc<TestIO>,
}

fn begin(io: TestIO, arena_size: usize) -> Fixture {
    let io = Arc::new(io);
    Fixture {
        pool: BufferPool::begin_init(&io, arena_size),
        temp: TempBufferCache::new(),
        ids: ArenaIds::new(),
        io,
    }
}

impl Fixture {
    fn finalize(&mut self, page_size: usize) -> Result<(), LimboError> {
        assert!(self.pool.can_finalize(page_size));
        self.pool
            .finalize_with_page_size(page_size, &mut self.temp, &mut self.ids)
    }
    fn get_page(&mut self) -> Buffer {
        self.pool.get_page(&mut self.temp)
    }
    fn get_wal_frame(&mut self) -> Buffer {
        self.pool.get_wal_frame(&mut self.temp)
    }
    fn allocate(&mut self, len: usize) -> Buffer {
        self.pool.allocate(len, &mut self.temp)
    }
    fn release(&mut self, buffer: Buffer) {
        assert!(self.pool.accepts(&buffer));
        self.pool.release(buffer, &mut self.temp);
    }
}

fn ready(registrations: u32) -> Fixture {
    let mut f = begin(test_io(2, registrations), BufferPool::<TestIO>::TEST_ARENA_SIZE);
    f.finalize(4096).unwrap();
    f
}

fn message(res: Result<(), LimboError>) -> String {
    match res {
        Ok(()) => panic!("no error"),
        Err(LimboError::InternalError(text)) => text,
    }
}

fn address(buffer: &Buffer) -> usize {
    buffer.as_slice().as_ptr() as usize
}

#[test]
fn layout_rounds_up_to_groups() {
    assert_eq!(layout(4096, 1024 * 1024), Some((256, 1048576)));
    assert_eq!(layout(4096 + 24, 1024 * 1024), Some((256, 1054720)));
    assert_eq!(layout(4096, 3 * 1024 * 1024), Some((768, 3145728)));
    // One group is the least
    assert_eq!(layout(4096, 65536), Some((64, 262144)));
    assert_eq!(layout(65536, 65536), Some((64, 4194304)));
    // One byte more takes another group
    assert_eq!(layout(1024, 64 * 1024), Some((64, 65536)));
    assert_eq!(layout(1024, 64 * 1024 + 1), Some((128, 131072)));
    assert_eq!(layout(1, 100), Some((128, 128)));
    assert_eq!(layout(7, 0), Some((64, 448)));
}

#[test]
fn layout_without_result() {
    assert_eq!(layout(usize::MAX, 1), None);
    assert_eq!(layout(usize::MAX / 64 + 1, 1), None);
    assert_eq!(layout(1, usize::MAX), None);
    assert_eq!(layout(usize::MAX / 64, 1), Some((64, usize::MAX / 64 * 64)));
}

#[test]
fn constants() {
    assert_eq!(BufferPool::<TestIO>::DEFAULT_ARENA_SIZE, 3145728);
    assert_eq!(BufferPool::<TestIO>::TEST_ARENA_SIZE, 1048576);
    assert_eq!(BufferPool::<TestIO>::DEFAULT_PAGE_SIZE, 4096);
    assert_eq!(MAX_ARENA_SIZE, 33554432);
    assert_eq!(MIN_ARENA_SIZE, 65536);
    assert_eq!(UNREGISTERED_START, 2);
    assert_eq!(WAL_FRAME_HEADER_SIZE, 24);
}

#[test]
fn texts() {
    let mut text = String::new();
    push_decimal(&mut text, 0);
    text.push(' ');
    push_decimal(&mut text, 1234567890);
    text.push(' ');
    push_decimal(&mut text, usize::MAX);
    assert_eq!(text, format!("0 1234567890 {}", usize::MAX));
    assert_eq!(over_limit(11, 10), "arena size 11 B exceeds hard limit of 10 B");
}

#[test]
fn bitmap_hands_out_the_lowest_slot() {
    let mut map = SlotBitmap::new(128);
    for i in 0..128 {
        assert!(map.is_free(i));
    }
    for i in 0..128 {
        assert_eq!(map.alloc_one(), Some(i));
        assert!(!map.is_free(i));
    }
    assert_eq!(map.alloc_one(), None);
    map.free_one(127);
    map.free_one(63);
    map.free_one(64);
    assert!(map.is_free(63));
    assert!(!map.is_free(62));
    assert_eq!(map.alloc_one(), Some(63));
    assert_eq!(map.alloc_one(), Some(64));
    assert_eq!(map.alloc_one(), Some(127));
    assert_eq!(map.alloc_one(), None);
    assert_eq!(SlotBitmap::new(0).alloc_one(), None);
}

#[test]
fn ids_are_given_in_turn() {
    let mut ids = ArenaIds::new();
    assert_eq!(ids.take_next(), 2);
    assert_eq!(ids.take_next(), 3);
    assert_eq!(ids.take_next(), 4);
}

#[test]
fn arena_over_the_limit() {
    let io = test_io(1, 0);
    let mut ids = ArenaIds::new();
    let res = Arena::new(1024 * 1024, 64 * 1024, &io, &mut ids);
    assert_eq!(
        res.unwrap_err(),
        "arena size 67108864 B exceeds hard limit of 33554432 B"
    );
    // Neither memory nor an identifier was used
    assert_eq!(io.maps.get(), 1);
    assert_eq!(ids.take_next(), 2);
    // An arena of just the limit is allowed
    assert!(Arena::new(512 * 1024, 64 * 1024, &io, &mut ids).is_ok());
    assert_eq!(io.given.borrow()[0].1, MAX_ARENA_SIZE);
}

#[test]
fn arena_without_memory() {
    let mut ids = ArenaIds::new();
    let none = test_io(0, 0);
    assert_eq!(
        Arena::new(4096, 64 * 1024, &none, &mut ids).unwrap_err(),
        "Failed to allocate arena"
    );
    let mut longer = test_io(1, 1);
    longer.excess = 1;
    assert_eq!(
        Arena::new(4096, 64 * 1024, &longer, &mut ids).unwrap_err(),
        "Failed to allocate arena"
    );
    // Nor does the arena get an identifier if that memory was not registered
    let mut longer = test_io(1, 0);
    longer.excess = 1;
    assert!(Arena::new(4096, 64 * 1024, &longer, &mut ids).is_err());
    assert_eq!(ids.take_next(), 2);
}

#[test]
fn arena_slots_lie_in_order() {
    let memory: Vec<u8> = (0..64 * 8).map(|i| (i / 8) as u8).collect();
    let memory = Box::leak(memory.into_boxed_slice());
    let base = memory.as_ptr() as usize;
    let mut ids = ArenaIds::new();
    let mut arena = Arena::on_memory(8, 64, memory, Ok(1), &mut ids);
    for i in 0..64usize {
        let buffer = arena.try_alloc(8).unwrap();
        assert_eq!(address(&buffer), base + i * 8);
        assert_eq!(buffer.as_slice(), vec![i as u8; 8].as_slice());
        assert_eq!(buffer.fixed_id(), Some(1));
    }
    assert!(arena.try_alloc(8).is_none());
    assert_eq!(ids.take_next(), 2);
}

#[test]
fn arena_serves_up_to_a_slot() {
    let io = PlainIO {};
    let mut ids = ArenaIds::new();
    let mut arena = Arena::new(128, 64 * 1024, &io, &mut ids).unwrap();
    assert!(arena.try_alloc(129).is_none());
    assert_eq!(arena.try_alloc(128).unwrap().len(), 128);
    assert_eq!(arena.try_alloc(1).unwrap().len(), 1);
    assert_eq!(arena.try_alloc(0).unwrap().len(), 0);
    assert_eq!(ids.take_next(), 3);
}

#[test]
fn freed_slot_keeps_its_bytes() {
    let io = PlainIO {};
    let mut ids = ArenaIds::new();
    let mut arena = Arena::new(128, 64 * 1024, &io, &mut ids).unwrap();
    let first = arena.try_alloc(128).unwrap();
    let second = arena.try_alloc(128).unwrap();
    let (mut first, second) = match (first, second) {
        (Buffer::Pooled(first), Buffer::Pooled(second)) => (first, second),
        _ => panic!("not from the arena"),
    };
    assert_eq!(first.logical_len(), 128);
    assert_eq!(first.fixed_id(), None);
    first.as_mut_slice().fill(7);
    assert!(arena.has_issued(&first));
    arena.free(first);
    // A shorter buffer on the same slot writes its part only
    let mut shorter = match arena.try_alloc(3).unwrap() {
        Buffer::Pooled(shorter) => shorter,
        Buffer::Heap(_) => panic!("not from the arena"),
    };
    assert_eq!(shorter.as_slice(), [7, 7, 7]);
    shorter.as_mut_slice().fill(8);
    arena.free(shorter);
    let again = arena.try_alloc(128).unwrap();
    assert_eq!(again.as_slice()[..4], [8, 8, 8, 7]);
    assert_eq!(again.as_slice()[127], 7);
    assert_eq!(second.as_slice(), [0u8; 128]);
}

#[test]
fn temporary_buffers_before_the_page_size_is_set() {
    let mut f = begin(test_io(2, 0), MIN_ARENA_SIZE);
    let page = f.get_page();
    assert!(!page.is_pooled());
    assert_eq!(page.len(), 4096);
    assert_eq!(page.as_slice(), vec![0u8; 4096].as_slice());
    assert_eq!(page.fixed_id(), None);
    let frame = f.get_wal_frame();
    assert!(!frame.is_pooled());
    assert_eq!(frame.len(), 4120);
    let other = f.allocate(1);
    assert!(!other.is_pooled());
    assert_eq!(other.len(), 1);
    assert_eq!(f.io.maps.get(), 2);
}

#[test]
fn default_pool_has_no_io() {
    let mut pool: BufferPool<TestIO> = BufferPool::default();
    let mut temp = TempBufferCache::new();
    assert!(!pool.can_finalize(4096));
    let page = pool.get_page(&mut temp);
    assert!(!page.is_pooled());
    assert_eq!(page.len(), 4096);
}

#[test]
fn page_sizes_that_cannot_be_set() {
    let f = begin(test_io(2, 0), MIN_ARENA_SIZE);
    assert!(!f.pool.can_finalize(0));
    assert!(!f.pool.can_finalize(usize::MAX));
    assert!(f.pool.can_finalize(4096));
    // Once it is set, nothing is computed any more
    let f = ready(0);
    assert!(f.pool.can_finalize(0));
    assert!(f.pool.can_finalize(usize::MAX));
}

#[test]
fn lengths_go_to_their_arena() {
    let mut f = ready(0);
    let given = f.io.given.borrow().clone();
    assert_eq!(given[0].1, 1048576);
    assert_eq!(given[1].1, 1054720);
    let inside = |buffer: &Buffer, which: usize| {
        let at = address(buffer);
        given[which].0 <= at && at + buffer.len() <= given[which].0 + given[which].1
    };
    let page = f.get_page();
    assert!(page.is_pooled() && inside(&page, 0));
    let frame = f.get_wal_frame();
    assert!(frame.is_pooled() && inside(&frame, 1));
    let page = f.allocate(4096);
    assert!(page.is_pooled() && inside(&page, 0));
    let frame = f.allocate(4120);
    assert!(frame.is_pooled() && inside(&frame, 1));
    let small = f.allocate(1024);
    assert!(small.is_pooled() && inside(&small, 0));
    assert_eq!(small.len(), 1024);
    // Longer than a page, and no frame
    for len in [4097, 4119, 4121, 100000] {
        let long = f.allocate(len);
        assert!(!long.is_pooled());
        assert_eq!(long.len(), len);
    }
}

#[test]
fn page_is_an_allocation_of_the_page_size() {
    let mut a = ready(0);
    let mut b = ready(0);
    let base_a = a.io.given.borrow()[0].0;
    let base_b = b.io.given.borrow()[0].0;
    let frame_a = a.io.given.borrow()[1].0;
    let frame_b = b.io.given.borrow()[1].0;
    for _ in 0..3 {
        let (x, y) = (a.get_page(), b.allocate(4096));
        assert_eq!(address(&x) - base_a, address(&y) - base_b);
        let (x, y) = (a.get_wal_frame(), b.allocate(4120));
        assert_eq!(address(&x) - frame_a, address(&y) - frame_b);
    }
}

#[test]
fn registered_arenas_have_a_fixed_id() {
    let mut f = ready(2);
    assert_eq!(f.get_page().fixed_id(), Some(0));
    assert_eq!(f.get_wal_frame().fixed_id(), Some(1));
    assert_eq!(*f.io.registered.borrow(), *f.io.given.borrow());
    assert_eq!(f.ids.take_next(), 2);
    // Only one is registered
    let mut f = ready(1);
    assert_eq!(f.get_page().fixed_id(), Some(0));
    assert_eq!(f.get_wal_frame().fixed_id(), None);
    assert_eq!(f.ids.take_next(), 3);
    // None is
    let mut f = ready(0);
    assert_eq!(f.get_page().fixed_id(), None);
    assert_eq!(f.get_wal_frame().fixed_id(), None);
    assert_eq!(f.ids.take_next(), 4);
}

#[test]
fn refusal_to_register_is_the_default() {
    let io = PlainIO {};
    match io.register_fixed_buffer(&io.map_arena(4).unwrap()) {
        Err(LimboError::InternalError(text)) => assert_eq!(text, "unsupported operation"),
        Ok(_) => panic!("registered"),
    }
}

#[test]
fn large_page_size_is_refused() {
    let mut f = begin(test_io(2, 2), MIN_ARENA_SIZE);
    assert_eq!(
        message(f.finalize(1 << 20)),
        "Failed to create arena: arena size 67108864 B exceeds hard limit of 33554432 B"
    );
    assert_eq!(f.io.maps.get(), 2);
    // The page size is set nevertheless, and no arena is made any more
    assert!(f.finalize(4096).is_ok());
    assert_eq!(f.io.maps.get(), 2);
    let page = f.get_page();
    assert_eq!(page.len(), 1 << 20);
    assert!(!page.is_pooled());
}

#[test]
fn arena_for_frames_over_the_limit() {
    let mut f = begin(test_io(2, 2), MIN_ARENA_SIZE);
    // The arena for pages has just the limit, the one for frames is larger
    assert_eq!(
        message(f.finalize(512 * 1024)),
        "Failed to create WAL frame arena: arena size 33555968 B exceeds hard limit of 33554432 B"
    );
    assert!(f.get_page().is_pooled());
    assert!(!f.get_wal_frame().is_pooled());
}

#[test]
fn no_memory_for_pages() {
    let mut f = begin(test_io(0, 0), MIN_ARENA_SIZE);
    assert_eq!(
        message(f.finalize(4096)),
        "Failed to create arena: Failed to allocate arena"
    );
    assert!(!f.get_page().is_pooled());
    assert!(f.finalize(4096).is_ok());
    assert!(!f.get_page().is_pooled());
}

#[test]
fn no_memory_for_frames() {
    let mut f = begin(test_io(1, 0), MIN_ARENA_SIZE);
    assert_eq!(
        message(f.finalize(4096)),
        "Failed to create WAL frame arena: Failed to allocate arena"
    );
    assert!(f.get_page().is_pooled());
    let frame = f.get_wal_frame();
    assert!(!frame.is_pooled());
    assert_eq!(frame.len(), 4120);
    assert!(f.finalize(4096).is_ok());
    assert!(!f.get_wal_frame().is_pooled());
}

#[test]
fn page_size_is_set_once() {
    let mut f = begin(test_io(4, 0), MIN_ARENA_SIZE);
    f.finalize(8192).unwrap();
    assert_eq!(f.get_page().len(), 8192);
    assert_eq!(f.get_wal_frame().len(), 8216);
    f.finalize(4096).unwrap();
    f.finalize(1024).unwrap();
    assert_eq!(f.get_page().len(), 8192);
    assert_eq!(f.io.maps.get(), 2);
    assert_eq!(f.ids.take_next(), 4);
}

#[test]
fn exhaustion_and_reuse() {
    let mut f = ready(0);
    let mut buffers = Vec::new();
    for i in 0..256 {
        let mut page = f.get_page();
        assert!(page.is_pooled(), "page {}", i);
        page.as_mut_slice()[0] = i as u8;
        buffers.push(page);
    }
    // The arena is full, the one for frames is not
    assert!(!f.get_page().is_pooled());
    assert!(!f.allocate(10).is_pooled());
    assert!(f.get_wal_frame().is_pooled());
    // The slot that comes back is the next one
    let buffer = buffers.remove(100);
    let at = address(&buffer);
    f.release(buffer);
    let again = f.get_page();
    assert!(again.is_pooled());
    assert_eq!(address(&again), at);
    assert_eq!(again.as_slice()[0], 100);
    assert!(!f.get_page().is_pooled());
    // The others were not touched
    for (i, buffer) in buffers.iter().enumerate() {
        let expected = if i < 100 { i } else { i + 1 };
        assert_eq!(buffer.as_slice()[0], expected as u8);
    }
    // Everything can come back
    f.release(again);
    for buffer in buffers {
        f.release(buffer);
    }
    for _ in 0..256 {
        assert!(f.get_page().is_pooled());
    }
    assert!(!f.get_page().is_pooled());
}

#[test]
fn release_undoes_allocate() {
    let mut f = ready(0);
    let first = f.get_page();
    let at = address(&first);
    f.release(first);
    let second = f.get_page();
    assert_eq!(address(&second), at);
    let third = f.get_page();
    assert_eq!(address(&third), at + 4096);
}

#[test]
fn buffers_of_another_pool_are_not_accepted() {
    let io = Arc::new(PlainIO {});
    let mut temp = TempBufferCache::new();
    let mut ids = ArenaIds::new();
    let mut a = BufferPool::begin_init(&io, MIN_ARENA_SIZE);
    let mut b = BufferPool::begin_init(&io, MIN_ARENA_SIZE);
    a.finalize_with_page_size(4096, &mut temp, &mut ids).unwrap();
    b.finalize_with_page_size(4096, &mut temp, &mut ids).unwrap();
    let page = a.get_page(&mut temp);
    let _other = b.get_page(&mut temp);
    let frame = a.get_wal_frame(&mut temp);
    assert!(a.accepts(&page) && !b.accepts(&page));
    assert!(a.accepts(&frame) && !b.accepts(&frame));
    let long = a.allocate(5000, &mut temp);
    assert!(a.accepts(&long) && b.accepts(&long));
}

#[test]
fn temporary_buffers_come_back_as_they_were() {
    let mut f = begin(test_io(2, 0), MIN_ARENA_SIZE);
    let mut page = f.get_page();
    page.as_mut_slice()[5] = 9;
    let mut frame = f.get_wal_frame();
    frame.as_mut_slice()[6] = 8;
    let mut other = f.allocate(100);
    other.as_mut_slice()[7] = 7;
    f.release(page);
    f.release(frame);
    f.release(other);
    let page = f.get_page();
    assert_eq!(page.as_slice()[5], 9);
    let frame = f.allocate(4120);
    assert_eq!(frame.as_slice()[6], 8);
    // Other lengths are not kept
    let other = f.allocate(100);
    assert_eq!(other.as_slice()[7], 0);
    // There was one of each
    let page = f.get_page();
    assert_eq!(page.as_slice()[5], 0);
}

#[test]
fn page_size_clears_temporary_buffers() {
    let mut f = begin(test_io(4, 0), MIN_ARENA_SIZE);
    let mut page = f.get_page();
    page.as_mut_slice()[5] = 9;
    f.release(page);
    // The default keeps them
    f.finalize(4096).unwrap();
    assert!(f.temp.get_buffer(4096).is_some());
    let page = vec![3u8; 4096];
    f.temp.return_buffer(page);
    // Any other page size does not, even though it is not set any more
    f.finalize(512).unwrap();
    assert!(f.temp.get_buffer(4096).is_none());
    f.temp.return_buffer(vec![1u8; 512]);
    f.temp.return_buffer(vec![2u8; 536]);
    f.temp.return_buffer(vec![3u8; 4096]);
    assert_eq!(f.temp.get_buffer(512), Some(vec![1u8; 512]));
    assert_eq!(f.temp.get_buffer(536), Some(vec![2u8; 536]));
    assert_eq!(f.temp.get_buffer(4096), None);
}

#[test]
fn temporary_buffers_are_kept_up_to_a_number() {
    let mut temp = TempBufferCache::new();
    temp.reinit_cache(8);
    for i in 0..MAX_CACHED + 1 {
        temp.return_buffer(vec![(i % 256) as u8; 8]);
    }
    // The latest comes first, and the one too many was not kept
    for i in (0..MAX_CACHED).rev() {
        assert_eq!(temp.get_buffer(8), Some(vec![(i % 256) as u8; 8]));
    }
    assert_eq!(temp.get_buffer(8), None);
}

#[test]
fn memory_of_arenas_is_used_as_it_is_given() {
    let mut io = test_io(2, 0);
    io.fill = 0x5A;
    let mut f = begin(io, MIN_ARENA_SIZE);
    f.finalize(4096).unwrap();
    assert_eq!(f.get_page().as_slice(), vec![0x5Au8; 4096].as_slice());
    assert_eq!(f.get_wal_frame().as_slice(), vec![0x5Au8; 4120].as_slice());
}
