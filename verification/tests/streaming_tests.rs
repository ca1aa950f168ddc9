use std::io::{Cursor, Read};

use qdrant_toolkit::chunking::{read_step, ChunkedFileReader, ChunkedFileWriter, ReadStep, DEFAULT_CHUNK_SIZE};

#[test]
fn test_chunked_reader_small_file() {
    let data = b"Hello, World!";
    let mut reader = Cursor::new(data);
    let chunked_reader = ChunkedFileReader::with_chunk_size(5);

    let mut chunks = Vec::new();
    let total = chunked_reader
        .stream_reader(&mut reader, |chunk| {
            chunks.push(chunk.to_vec());
            Ok(())
        })
        .unwrap();

    assert_eq!(total, 13);
    assert_eq!(chunks.len(), 3);
    assert_eq!(chunks[0], b"Hello");
    assert_eq!(chunks[1], b", Wor");
    assert_eq!(chunks[2], b"ld!");
}

#[test]
fn streaming_test_chunked_writer() {
    let data = b"Hello, World! This is a test of chunked writing.";
    let mut output = Vec::new();
    let writer = ChunkedFileWriter::with_chunk_size(10);

    writer.write_in_chunks(&mut output, data).unwrap();
    assert_eq!(&output[..], data);
}

#[test]
fn test_copy_in_chunks() {
    let data = b"Test data for copy in chunks functionality";
    let mut reader = Cursor::new(data);
    let mut writer = Vec::new();
    let chunked_writer = ChunkedFileWriter::with_chunk_size(10);

    let total = chunked_writer
        .copy_in_chunks(&mut reader, &mut writer)
        .unwrap();

    assert_eq!(total, data.len() as u64);
    assert_eq!(&writer[..], data);
}

#[test]
fn default_chunk_size_is_64_mib() {
    assert_eq!(DEFAULT_CHUNK_SIZE, 64 * 1024 * 1024);
    assert_eq!(ChunkedFileReader::new().chunk_size(), DEFAULT_CHUNK_SIZE);
    assert_eq!(ChunkedFileWriter::new().chunk_size(), DEFAULT_CHUNK_SIZE);
}

#[test]
fn chunk_ranges_cover_data() {
    let w = ChunkedFileWriter::with_chunk_size(10);
    assert_eq!(w.chunk_ranges(25), vec![(0, 10), (10, 20), (20, 25)]);
    assert_eq!(w.chunk_ranges(20), vec![(0, 10), (10, 20)]);
    assert_eq!(w.chunk_ranges(0), Vec::<(usize, usize)>::new());
    assert_eq!(w.chunk_ranges(3), vec![(0, 3)]);
}

#[test]
fn reader_with_zero_chunk_size_reads_nothing() {
    let mut reader = Cursor::new(b"abc".to_vec());
    let r = ChunkedFileReader::with_chunk_size(0);
    let mut calls = 0;
    let total = r
        .stream_reader(&mut reader, |_c| {
            calls += 1;
            Ok(())
        })
        .unwrap();
    assert_eq!(total, 0);
    assert_eq!(calls, 0);
}

#[test]
fn handler_error_stops_the_stream() {
    let mut reader = Cursor::new(vec![1u8; 30]);
    let r = ChunkedFileReader::with_chunk_size(10);
    let mut calls = 0;
    let res = r.stream_reader(&mut reader, |_c| {
        calls += 1;
        if calls == 2 {
            Err(std::io::Error::other("stop"))
        } else {
            Ok(())
        }
    });
    assert!(res.is_err());
    assert_eq!(calls, 2);
}

/// A reader that hands out at most three bytes per call.
struct Trickle(Vec<u8>, usize);

impl Read for Trickle {
    fn read(&mut self, buf: &mut [u8]) -> std::io::Result<usize> {
        let n = std::cmp::min(3, std::cmp::min(buf.len(), self.0.len() - self.1));
        buf[..n].copy_from_slice(&self.0[self.1..self.1 + n]);
        self.1 += n;
        Ok(n)
    }
}

#[test]
fn short_reads_give_short_chunks() {
    let mut reader = Trickle(b"abcdefgh".to_vec(), 0);
    let r = ChunkedFileReader::with_chunk_size(5);
    let mut chunks = Vec::new();
    let total = r
        .stream_reader(&mut reader, |c| {
            chunks.push(c.to_vec());
            Ok(())
        })
        .unwrap();
    assert_eq!(total, 8);
    assert_eq!(chunks, vec![b"abc".to_vec(), b"def".to_vec(), b"gh".to_vec()]);
}

#[test]
fn copy_of_empty_input() {
    let mut reader = Cursor::new(Vec::<u8>::new());
    let mut out = Vec::new();
    let total = ChunkedFileWriter::with_chunk_size(4).copy_in_chunks(&mut reader, &mut out).unwrap();
    assert_eq!(total, 0);
    assert!(out.is_empty());
}

#[test]
fn read_step_decides_each_read() {
    assert_eq!(read_step(13, 0), ReadStep::Done(13));
    assert_eq!(read_step(0, 5), ReadStep::Chunk { len: 5, total: 5 });
    assert_eq!(read_step(10, 3), ReadStep::Chunk { len: 3, total: 13 });
    assert_eq!(read_step(u64::MAX - 2, 2), ReadStep::Chunk { len: 2, total: u64::MAX });
    assert_eq!(read_step(u64::MAX - 2, 3), ReadStep::TooLong);
    assert_eq!(read_step(u64::MAX, 0), ReadStep::Done(u64::MAX));
}
