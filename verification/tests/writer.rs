use flicker::writer::{bytes_equal, first_difference, ChunkAction, ResumeTracker, VerifyMismatch, WriteVerifier, BUFFER_SIZE};

#[test]
fn buffer_is_four_mebibytes() {
    assert_eq!(BUFFER_SIZE, 4 * 1024 * 1024);
}

#[test]
fn bytes_comparison() {
    assert!(bytes_equal(b"abc", b"abc"));
    assert!(!bytes_equal(b"abc", b"abd"));
    assert!(!bytes_equal(b"abc", b"ab"));
}

#[test]
fn without_resume_every_chunk_is_written() {
    let mut t = ResumeTracker::new(false);
    assert!(!t.is_resuming());
    assert_eq!(t.chunk_action(None, b"abcd"), ChunkAction::Write);
    assert_eq!(t.chunk_action(Some(b"abcd"), b"abcd"), ChunkAction::Write);
    t.chunk_done(b"abcd");
    assert_eq!(t.processed_bytes(), 4);
}

#[test]
fn resume_skips_every_chunk_already_held() {
    let mut t = ResumeTracker::new(true);
    assert!(t.is_resuming());
    // The device holds the first chunk.
    assert_eq!(t.chunk_action(Some(b"abcd"), b"abcd"), ChunkAction::Skip);
    t.chunk_done(b"abcd");
    // It differs at the second chunk, or cannot be read there.
    assert_eq!(t.chunk_action(Some(b"xxxx"), b"efgh"), ChunkAction::SeekAndWrite(4));
    assert_eq!(t.chunk_action(None, b"efgh"), ChunkAction::SeekAndWrite(4));
    t.chunk_done(b"efgh");
    // A later chunk that it already holds is still skipped.
    assert_eq!(t.chunk_action(Some(b"ijkl"), b"ijkl"), ChunkAction::Skip);
    t.chunk_done(b"ijkl");
    assert_eq!(t.processed_bytes(), 12);
}

#[test]
fn verification_reports_first_differing_byte() {
    let mut v = WriteVerifier::new();
    assert_eq!(v.check_chunk(b"abcd", b"abcd"), Ok(()));
    assert_eq!(v.check_chunk(b"ef", b"ef"), Ok(()));
    assert_eq!(v.verified_bytes(), 6);
    assert_eq!(v.check_chunk(b"ghij", b"ghxx"), Err(VerifyMismatch { offset: 8 }));
    assert_eq!(v.verified_bytes(), 6);
    assert_eq!(v.check_chunk(b"gh", b"xh"), Err(VerifyMismatch { offset: 6 }));
}

#[test]
fn first_difference_index() {
    assert_eq!(first_difference(b"abc", b"abc"), None);
    assert_eq!(first_difference(b"abc", b"abd"), Some(2));
    assert_eq!(first_difference(b"", b""), None);
}

/// Copies `image` onto `device` in chunks of `chunk_len`, doing what the
/// tracker decides for each chunk.
fn copy(device: &mut Vec<u8>, image: &[u8], chunk_len: usize, resume: bool) -> usize {
    let mut t = ResumeTracker::new(resume);
    let mut written = 0;
    let mut position: usize = 0;
    for chunk in image.chunks(chunk_len) {
        let offset = t.processed_bytes() as usize;
        let existing: Option<&[u8]> = if t.is_resuming() {
            position = offset + chunk.len();
            Some(&device[offset..offset + chunk.len()])
        } else {
            None
        };
        let held = existing.map(|e| e.to_vec());
        match t.chunk_action(held.as_deref(), chunk) {
            ChunkAction::Skip => {}
            ChunkAction::Write => {
                device[position..position + chunk.len()].copy_from_slice(chunk);
                position += chunk.len();
                written += 1;
            }
            ChunkAction::SeekAndWrite(at) => {
                position = at as usize;
                device[position..position + chunk.len()].copy_from_slice(chunk);
                position += chunk.len();
                written += 1;
            }
        }
        t.chunk_done(chunk);
    }
    written
}

#[test]
fn resume_leaves_the_device_as_a_plain_copy_does() {
    let image: Vec<u8> = (0u8..10).collect();
    let start: Vec<u8> = vec![0, 1, 2, 3, 9, 9, 6, 7, 8, 0, 42, 43];
    let mut plain = start.clone();
    let mut resumed = start.clone();
    assert_eq!(copy(&mut plain, &image, 4, false), 3);
    assert_eq!(copy(&mut resumed, &image, 4, true), 2);
    assert_eq!(plain, resumed);
    assert_eq!(&plain[..10], &image[..]);
    assert_eq!(&plain[10..], &[42, 43]);
}
