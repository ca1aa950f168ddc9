//! Chunked reading and writing that keeps memory use constant whatever the
//! size of the data: data moves through one buffer of a fixed chunk size.
use std::io::{Read, Write};
use vstd::prelude::*;

verus! {

/// Default chunk size: 64 MiB.
pub const DEFAULT_CHUNK_SIZE: usize = 64 * 1024 * 1024;

/// An I/O error, as the standard library reports it.
#[verifier::external_type_specification]
#[verifier::external_body]
pub struct ExIoError(std::io::Error);

/// Calls `Read::read` to fill `buf` from `reader`. The trait's
/// documentation obliges every implementation to report at most as many
/// bytes as the buffer holds; the buffer keeps its length. Which bytes come
/// and how many depends on the reader and is not stated.
#[verifier::external_body]
fn read_into<R: Read>(reader: &mut R, buf: &mut Vec<u8>) -> (r: Result<usize, std::io::Error>)
    ensures
        final(buf)@.len() == old(buf)@.len(),
        r matches Ok(n) ==> n <= old(buf)@.len(),
{
    reader.read(buf.as_mut_slice())
}

/// Calls `Write::write_all` to hand `data` to `writer`. What the writer does
/// with it is its own affair and is not stated.
#[verifier::external_body]
fn write_all_to<W: Write>(writer: &mut W, data: &[u8]) -> (r: Result<(), std::io::Error>) {
    writer.write_all(data)
}

/// Calls `Write::flush` on `writer`. Nothing is stated of its outcome.
#[verifier::external_body]
fn flush_writer<W: Write>(writer: &mut W) -> (r: Result<(), std::io::Error>) {
    writer.flush()
}

/// Calls `std::io::Error::other` to make the error reported when a stream
/// is longer than a 64-bit byte count can hold.
#[verifier::external_body]
fn length_overflow_error() -> (e: std::io::Error) {
    std::io::Error::other("stream longer than 2^64 bytes")
}

/// What follows one read from a chunked stream.
#[derive(Debug, Clone, Copy, PartialEq, Eq, Structural)]
pub enum ReadStep {
    /// The stream has ended; the number of bytes read in all.
    Done(u64),
    /// A chunk of `len` bytes was read and is handed on; `total` counts the
    /// bytes read so far with it.
    Chunk { len: usize, total: u64 },
    /// The count of bytes read would not fit in 64 bits.
    TooLong,
}

/// Decides what follows a read that gave `bytes_read` bytes after `total`
/// bytes were read before: a read of nothing ends the stream with `total`,
/// any other read is a chunk that adds to the total, unless the total no
/// longer fits in 64 bits.
pub fn read_step(total: u64, bytes_read: usize) -> (s: ReadStep)
    ensures
        bytes_read == 0 ==> s == ReadStep::Done(total),
        bytes_read > 0 && total + bytes_read <= u64::MAX ==> s == (ReadStep::Chunk {
            len: bytes_read,
            total: (total + bytes_read) as u64,
        }),
        bytes_read > 0 && total + bytes_read > u64::MAX ==> s == ReadStep::TooLong,
{
    if bytes_read == 0 {
        ReadStep::Done(total)
    } else if bytes_read as u128 > (u64::MAX - total) as u128 {
        ReadStep::TooLong
    } else {
        ReadStep::Chunk { len: bytes_read, total: total + bytes_read as u64 }
    }
}

/// Number of bytes in chunks of the lengths `lens`.
pub open spec fn chunk_total(lens: Seq<usize>) -> int
    decreases lens.len(),
{
    if lens.len() == 0 {
        0
    } else {
        chunk_total(lens.drop_last()) + lens.last()
    }
}

/// Whether each of `lens` is a chunk length that a buffer of `chunk_size`
/// bytes can give: from 1 to `chunk_size`.
pub open spec fn chunk_lengths_fit(lens: Seq<usize>, chunk_size: usize) -> bool {
    forall|i: int| 0 <= i < lens.len() ==> 1 <= #[trigger] lens[i] <= chunk_size
}

/// The lengths of a sequence of chunks.
pub open spec fn chunk_lens(chunks: Seq<&[u8]>) -> Seq<usize> {
    chunks.map_values(|c: &[u8]| c@.len() as usize)
}

/// A buffer of `n` zero bytes.
fn zeroed_buffer(n: usize) -> (v: Vec<u8>)
    ensures
        v@.len() == n,
{
    vec![0u8; n]
}

/// Reads data in chunks of a fixed size.
pub struct ChunkedFileReader {
    chunk_size: usize,
}

impl ChunkedFileReader {
    /// A reader with the default chunk size (64 MiB).
    pub fn new() -> (r: Self)
        ensures
            r.spec_chunk_size() == DEFAULT_CHUNK_SIZE,
    {
        Self::with_chunk_size(DEFAULT_CHUNK_SIZE)
    }

    /// A reader with a chosen chunk size.
    pub fn with_chunk_size(chunk_size: usize) -> (r: Self)
        ensures
            r.spec_chunk_size() == chunk_size,
    {
        ChunkedFileReader { chunk_size }
    }

    pub closed spec fn spec_chunk_size(&self) -> usize {
        self.chunk_size
    }

    /// Bytes per chunk.
    #[verifier::when_used_as_spec(spec_chunk_size)]
    pub fn chunk_size(&self) -> (n: usize)
        ensures
            n == self.spec_chunk_size(),
    {
        self.chunk_size
    }

    /// Reads `reader` to its end through one buffer of the chunk size and
    /// hands each chunk read to `chunk_handler`; gives the number of bytes
    /// read, or the first error of the reader or the handler, as it came.
    /// Each read is decided by [`read_step`]: the bytes it gave are handed
    /// on as one chunk and added to the count, a read of nothing ends the
    /// stream. On success the count returned is the total of the chunks
    /// handed on, in order, each of 1 to `chunk_size` bytes, and on each of
    /// them the handler gave a success that its own postcondition admits;
    /// a handler whose precondition demands such chunks is accepted. With a
    /// chunk size of 0 nothing is read. A stream longer than a 64-bit count
    /// can hold ends in an error. Which bytes the reader gives is its own
    /// affair and is not stated.
    pub fn stream_reader<R: Read, F: FnMut(&[u8]) -> Result<(), std::io::Error>>(
        &self,
        reader: &mut R,
        chunk_handler: F,
    ) -> (r: Result<u64, std::io::Error>)
        requires
            forall|c: &[u8]|
                1 <= c@.len() <= self.spec_chunk_size() ==> #[trigger] chunk_handler.requires((c,)),
        ensures
            r matches Ok(t) ==> exists|chunks: Seq<&[u8]>, outs: Seq<F::Output>|
                #![trigger chunk_total(chunk_lens(chunks)), outs.len()]
                chunk_lengths_fit(chunk_lens(chunks), self.spec_chunk_size()) && chunk_total(
                    chunk_lens(chunks),
                ) == t && outs.len() == chunks.len() && (forall|k: int|
                    0 <= k < chunks.len() ==> #[trigger] chunk_handler.ensures((chunks[k],), outs[k]))
                    && (forall|k: int| 0 <= k < outs.len() ==> (#[trigger] outs[k]) is Ok),
            self.spec_chunk_size() == 0 ==> (r matches Ok(t) ==> t == 0),
    {
        let mut buffer = zeroed_buffer(self.chunk_size);
        let mut total_bytes: u64 = 0;
        let ghost mut chunks: Seq<&[u8]> = Seq::empty();
        let ghost mut outs: Seq<F::Output> = Seq::empty();
        let mut handler = chunk_handler;
        loop
            invariant
                handler == chunk_handler,
                outs.len() == chunks.len(),
                forall|k: int|
                    0 <= k < chunks.len() ==> #[trigger] handler.ensures(
                        (chunks[k],),
                        outs[k],
                    ),
                forall|k: int| 0 <= k < outs.len() ==> (#[trigger] outs[k]) is Ok,
                buffer@.len() == self.spec_chunk_size(),
                chunk_lengths_fit(chunk_lens(chunks), self.spec_chunk_size()),
                chunk_total(chunk_lens(chunks)) == total_bytes,
                self.spec_chunk_size() == 0 ==> total_bytes == 0,
                forall|c: &[u8]|
                    1 <= c@.len() <= self.spec_chunk_size() ==> #[trigger] handler.requires(
                        (c,),
                    ),
            decreases u64::MAX - total_bytes,
        {
            let bytes_read = match read_into(reader, &mut buffer) {
                Ok(n) => n,
                Err(e) => return Err(e),
            };
            match read_step(total_bytes, bytes_read) {
                ReadStep::Done(t) => {
                    assert(chunk_total(chunk_lens(chunks)) == t);
                    assert(chunk_lengths_fit(chunk_lens(chunks), self.spec_chunk_size()));
                    assert(outs.len() == chunks.len());
                    return Ok(t);
                },
                ReadStep::TooLong => {
                    return Err(length_overflow_error());
                },
                ReadStep::Chunk { len, total } => {
                    let chunk = &buffer.as_slice()[0..len];
                    let handled = handler(chunk);
                    match handled {
                        Ok(()) => {},
                        Err(e) => return Err(e),
                    }
                    proof {
                        assert(handled is Ok);
                        let prev = chunks;
                        let prev_outs = outs;
                        outs = outs.push(handled);
                        assert(chunk@.len() == len);
                        chunks = chunks.push(chunk);
                        assert forall|k: int|
                            0 <= k < chunks.len() implies #[trigger] handler.ensures(
                            (chunks[k],),
                            outs[k],
                        ) by {
                            if k < prev.len() {
                                assert(outs[k] == prev_outs[k]);
                                assert(chunks[k] == prev[k]);
                                assert(handler.ensures((prev[k],), prev_outs[k]));
                            } else {
                                assert(outs[k] == handled && chunks[k] == chunk);
                            }
                        }
                        assert forall|k: int| 0 <= k < outs.len() implies (#[trigger] outs[k]) is Ok by {
                            if k < prev_outs.len() {
                                assert(outs[k] == prev_outs[k]);
                            }
                        }
                        assert(chunk_lens(chunks).drop_last() =~= chunk_lens(prev));
                        assert forall|k: int| 0 <= k < chunk_lens(chunks).len() implies 1
                            <= #[trigger] chunk_lens(chunks)[k] <= self.spec_chunk_size() by {
                            if k < prev.len() {
                                assert(chunk_lens(chunks)[k] == chunk_lens(prev)[k]);
                            }
                        }
                    }
                    total_bytes = total;
                },
            }
        }
    }
}

impl Default for ChunkedFileReader {
    fn default() -> (r: Self)
        ensures
            r.spec_chunk_size() == DEFAULT_CHUNK_SIZE,
    {
        Self::new()
    }
}

/// Copies `reader` to `writer` through one buffer of `chunk_size` bytes, then
/// flushes the writer. Each read is decided by [`read_step`]: the bytes it
/// gave are written as one chunk and added to the count, a read of nothing
/// ends the copy. The count returned is the total of the chunks written,
/// each of 1 to `chunk_size` bytes; a stream longer than a 64-bit count can
/// hold ends in an error.
fn copy_through_buffer<R: Read, W: Write>(chunk_size: usize, reader: &mut R, writer: &mut W) -> (r: Result<u64, std::io::Error>)
    ensures
        r matches Ok(t) ==> exists|lens: Seq<usize>|
            chunk_lengths_fit(lens, chunk_size) && #[trigger] chunk_total(lens) == t,
        chunk_size == 0 ==> (r matches Ok(t) ==> t == 0),
{
    let mut buffer = zeroed_buffer(chunk_size);
    let mut total_bytes: u64 = 0;
    let ghost mut lens: Seq<usize> = Seq::empty();
    loop
        invariant
            buffer@.len() == chunk_size,
            chunk_lengths_fit(lens, chunk_size),
            chunk_total(lens) == total_bytes,
            chunk_size == 0 ==> total_bytes == 0,
        decreases u64::MAX - total_bytes,
    {
        let bytes_read = match read_into(reader, &mut buffer) {
            Ok(n) => n,
            Err(e) => return Err(e),
        };
        match read_step(total_bytes, bytes_read) {
            ReadStep::Done(t) => {
                return match flush_writer(writer) {
                    Ok(()) => Ok(t),
                    Err(e) => Err(e),
                };
            },
            ReadStep::TooLong => {
                return Err(length_overflow_error());
            },
            ReadStep::Chunk { len, total } => {
                match write_all_to(writer, &buffer.as_slice()[0..len]) {
                    Ok(()) => {},
                    Err(e) => return Err(e),
                }
                proof {
                    let prev = lens;
                    lens = lens.push(len);
                    assert(lens.drop_last() =~= prev);
                }
                total_bytes = total;
            },
        }
    }
}

/// Writes data in chunks of a fixed size.
pub struct ChunkedFileWriter {
    chunk_size: usize,
}

impl ChunkedFileWriter {
    /// A writer with the default chunk size (64 MiB).
    pub fn new() -> (w: Self)
        ensures
            w.spec_chunk_size() == DEFAULT_CHUNK_SIZE,
    {
        Self::with_chunk_size(DEFAULT_CHUNK_SIZE)
    }

    /// A writer with a chosen chunk size.
    pub fn with_chunk_size(chunk_size: usize) -> (w: Self)
        ensures
            w.spec_chunk_size() == chunk_size,
    {
        ChunkedFileWriter { chunk_size }
    }

    pub closed spec fn spec_chunk_size(&self) -> usize {
        self.chunk_size
    }

    /// Bytes per chunk.
    #[verifier::when_used_as_spec(spec_chunk_size)]
    pub fn chunk_size(&self) -> (n: usize)
        ensures
            n == self.spec_chunk_size(),
    {
        self.chunk_size
    }

    /// The byte ranges `[start, end)` that data of `len` bytes is written
    /// in: consecutive chunks of `chunk_size` bytes from the start, the last
    /// one shorter if need be, as few as cover the data.
    pub fn chunk_ranges(&self, len: usize) -> (v: Vec<(usize, usize)>)
        requires
            self.spec_chunk_size() > 0 || len == 0,
        ensures
            v@.len() * self.spec_chunk_size() >= len,
            v@.len() == 0 || (v@.len() - 1) * self.spec_chunk_size() < len,
            forall|i: int|
                0 <= i < v@.len() ==> {
                    let r = #[trigger] v@[i];
                    &&& r.0 == i * self.spec_chunk_size()
                    &&& r.1 == if r.0 + self.spec_chunk_size() < len {
                        r.0 + self.spec_chunk_size()
                    } else {
                        len as int
                    }
                    &&& r.0 < r.1 <= len
                },
    {
        let cs = self.chunk_size;
        let mut v: Vec<(usize, usize)> = Vec::new();
        let mut offset: usize = 0;
        assert(v@.len() == 0);
        assert(0 * (cs as int) == 0);
        while offset < len
            invariant
                cs == self.spec_chunk_size(),
                cs > 0 || len == 0,
                offset <= len,
                offset == if v@.len() * cs < len {
                    v@.len() * cs
                } else {
                    len as int
                },
                v@.len() == 0 || (v@.len() - 1) * cs < len,
                forall|i: int|
                    0 <= i < v@.len() ==> {
                        let r = #[trigger] v@[i];
                        &&& r.0 == i * cs
                        &&& r.1 == if r.0 + cs < len {
                            r.0 + cs
                        } else {
                            len as int
                        }
                        &&& r.0 < r.1 <= len
                    },
            decreases len - offset,
        {
            let end = if cs < len - offset {
                offset + cs
            } else {
                len
            };
            let ghost n = v@.len();
            v.push((offset, end));
            proof {
                assert((n + 1) * cs == n * cs + cs) by (nonlinear_arith);
            }
            offset = end;
        }
        proof {
            if cs > 0 && v@.len() > 0 {
                let n = v@.len();
                assert((n - 1) * cs + cs == n * cs) by (nonlinear_arith);
            }
        }
        v
    }

    /// Writes `data` to `writer` one chunk at a time, in order, then flushes
    /// it; stops at the first error.
    pub fn write_in_chunks<W: Write>(&self, mut writer: W, data: &[u8]) -> (r: Result<(), std::io::Error>)
        requires
            self.spec_chunk_size() > 0 || data@.len() == 0,
    {
        let ranges = self.chunk_ranges(data.len());
        let mut i: usize = 0;
        while i < ranges.len()
            invariant
                i <= ranges@.len(),
                forall|j: int| 0 <= j < ranges@.len() ==> (#[trigger] ranges@[j]).0 < ranges@[j].1 <= data@.len(),
            decreases ranges.len() - i,
        {
            let (start, end) = ranges[i];
            match write_all_to(&mut writer, &data[start..end]) {
                Ok(()) => {},
                Err(e) => return Err(e),
            }
            i = i + 1;
        }
        flush_writer(&mut writer)
    }

    /// Copies `reader` to `writer` through one buffer of the chunk size,
    /// then flushes the writer; gives the number of bytes copied, the total
    /// of the chunks written (each of 1 to `chunk_size` bytes, as
    /// [`read_step`] decides), or the first error met. With a chunk size of
    /// 0 nothing is copied. Which bytes the reader gives and what the writer
    /// does with them is their own affair and is not stated.
    pub fn copy_in_chunks<R: Read, W: Write>(&self, reader: &mut R, writer: &mut W) -> (r: Result<
        u64,
        std::io::Error,
    >)
        ensures
            r matches Ok(t) ==> exists|lens: Seq<usize>|
                chunk_lengths_fit(lens, self.spec_chunk_size()) && #[trigger] chunk_total(lens) == t,
            self.spec_chunk_size() == 0 ==> (r matches Ok(t) ==> t == 0),
    {
        copy_through_buffer(self.chunk_size, reader, writer)
    }
}

impl Default for ChunkedFileWriter {
    fn default() -> (w: Self)
        ensures
            w.spec_chunk_size() == DEFAULT_CHUNK_SIZE,
    {
        Self::new()
    }
}

} // verus!
