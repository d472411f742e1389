# buffer_pool

A buffer pool for a page-based database, verified with Verus.

A pool has two arenas: one whose slots are pages, one whose slots are a page and the header of a
frame of the write-ahead log. A request is served with a slot of the arena for its length, or with a
temporary buffer where that arena is missing, full, or has slots that are too short. The arenas are
created when the page size becomes known.

- `src/bitmap.rs`: which slots of an arena are free.
- `src/arena.rs`: how arenas are sized, created and cut into slots; allocating and freeing slots.
- `src/buffer.rs`: buffers, and the cache of temporary ones.
- `src/pool.rs`: the pool.
- `src/io.rs`, `src/generic.rs`: what the pool asks of the program's I/O, and the backend of plain
  blocking calls on files.
- `src/file.rs`: what becomes of a file on which that backend carries requests out.
- `src/error.rs`: errors and their texts.
- `src/laws.rs`: what holds across operations: buffers that are out never share a slot, giving a
  buffer back undoes its allocation, the page size is set once, what was written to a file is read
  back from it, and so on.
- `app/`: the pool in a program, with memory from the operating system, files, and one lock around
  the pool so that threads can share it.

State that a program has once, such as the supply of arena identifiers, or once per thread, such as
the cache of temporary buffers, is handed to the library by its caller.
