//! The raw copy, decision by decision.

use ricat::{copy, CopyAction, CopyEvent, RicatError, BUFFER_SIZE};

#[test]
fn the_buffer_holds_four_kibibytes() {
    assert_eq!(BUFFER_SIZE, 4096);
}

#[test]
fn a_copy_starts_by_reading() {
    assert_eq!(copy(CopyEvent::Started), CopyAction::Read);
}

#[test]
fn what_was_read_is_written_whole() {
    assert_eq!(copy(CopyEvent::Read(1)), CopyAction::Write(1));
    assert_eq!(copy(CopyEvent::Read(100)), CopyAction::Write(100));
    assert_eq!(copy(CopyEvent::Read(BUFFER_SIZE)), CopyAction::Write(BUFFER_SIZE));
}

#[test]
fn after_a_write_comes_the_next_read() {
    assert_eq!(copy(CopyEvent::Written), CopyAction::Read);
}

#[test]
fn an_empty_read_ends_the_copy() {
    assert_eq!(copy(CopyEvent::Read(0)), CopyAction::Finish(Ok(())));
}

#[test]
fn a_failure_ends_the_copy_with_an_io_error() {
    assert_eq!(
        copy(CopyEvent::Failed("broken pipe".to_string())),
        CopyAction::Finish(Err(RicatError::IoError("broken pipe".to_string())))
    );
}

/// Copies `source` as a driver would, reading `chunk` bytes at a time.
fn copy_bytes(source: &[u8], chunk: usize) -> Vec<u8> {
    let mut buffer = vec![0_u8; BUFFER_SIZE];
    let mut sink = Vec::new();
    let mut position = 0;
    let mut event = CopyEvent::Started;
    loop {
        event = match copy(event) {
            CopyAction::Read => {
                let len = chunk.min(BUFFER_SIZE).min(source.len() - position);
                buffer[..len].copy_from_slice(&source[position..position + len]);
                position += len;
                CopyEvent::Read(len)
            }
            CopyAction::Write(len) => {
                sink.extend_from_slice(&buffer[..len]);
                CopyEvent::Written
            }
            CopyAction::Finish(result) => {
                result.unwrap();
                return sink;
            }
        };
    }
}

#[test]
fn a_copy_hands_on_every_byte_in_order() {
    let source: Vec<u8> = (0..10_000).map(|i| (i % 251) as u8).collect();
    for chunk in [1, 7, 4095, 4096, 5000] {
        assert_eq!(copy_bytes(&source, chunk), source);
    }
    assert_eq!(copy_bytes(b"", 4096), b"");
    assert_eq!(copy_bytes(b"no newline at the end", 4096), b"no newline at the end");
    assert_eq!(copy_bytes(&[0xFF, 0x00, 0xFE], 2), vec![0xFF, 0x00, 0xFE]);
}
