use std::time::SystemTime;

use qdrant_toolkit::snapshot::{ResumableUpload, StreamingSnapshotManager};

#[test]
fn test_resumable_upload() {
    let mut upload = ResumableUpload::new("test".to_string(), 10);

    upload.mark_chunk_uploaded(0);
    upload.mark_chunk_uploaded(2);

    // Progress as the application layer computes it.
    let progress = upload.uploaded_count() as f32 / upload.total_chunks() as f32;
    assert_eq!(progress, 0.2);
    assert!(!upload.is_complete());

    let remaining = upload.get_remaining_chunks();
    assert_eq!(remaining.len(), 8);
    assert!(!remaining.contains(&0));
    assert!(!remaining.contains(&2));
}

#[test]
fn remaining_chunks_in_order() {
    let mut u = ResumableUpload::new("s".to_string(), 5);
    u.mark_chunk_uploaded(3);
    u.mark_chunk_uploaded(1);
    assert_eq!(u.get_remaining_chunks(), vec![0, 2, 4]);
    u.mark_chunk_uploaded(0);
    u.mark_chunk_uploaded(2);
    u.mark_chunk_uploaded(4);
    assert!(u.is_complete());
    assert!(u.get_remaining_chunks().is_empty());
}

#[test]
fn duplicate_marks_count_toward_completion() {
    let mut u = ResumableUpload::new("s".to_string(), 2);
    u.mark_chunk_uploaded(0);
    u.mark_chunk_uploaded(0);
    // completion compares counts, so a repeated chunk counts twice
    assert!(u.is_complete());
    assert_eq!(u.get_remaining_chunks(), vec![1]);
}

#[test]
fn chunk_count_rounds_up() {
    let m = StreamingSnapshotManager::new(1024);
    assert_eq!(m.chunk_count(0), 0);
    assert_eq!(m.chunk_count(1), 1);
    assert_eq!(m.chunk_count(1024), 1);
    assert_eq!(m.chunk_count(1025), 2);
    assert_eq!(m.chunk_size(), 1024);
}

#[test]
fn metadata_checksum_is_hex_size() {
    let m = StreamingSnapshotManager::new(64);
    let now = SystemTime::now();
    let md = m.metadata_for(255, now);
    assert_eq!(md.checksum, "ff");
    assert_eq!(md.total_size, 255);
    assert_eq!(md.chunk_size, 64);
    assert_eq!(md.created_at, now);
    assert_eq!(m.metadata_for(0, now).checksum, "0");
    assert_eq!(m.metadata_for(u64::MAX, now).checksum, format!("{:x}", u64::MAX));
    assert_eq!(m.metadata_for(4096, now).checksum, format!("{:x}", 4096u64));
}

#[test]
fn remaining_chunks_sorted_and_marking_twice_is_once() {
    let mut u = ResumableUpload::new("s".to_string(), 8);
    assert_eq!(u.get_remaining_chunks(), (0..8).collect::<Vec<usize>>());
    u.mark_chunk_uploaded(5);
    u.mark_chunk_uploaded(1);
    u.mark_chunk_uploaded(12);
    let once = u.get_remaining_chunks();
    u.mark_chunk_uploaded(1);
    assert_eq!(u.get_remaining_chunks(), once);
    assert_eq!(once, vec![0, 2, 3, 4, 6, 7]);
    assert!(once.windows(2).all(|w| w[0] < w[1]));
}
