use corpus_mixer::duration::{clip_duration_ms, ClipFile};

/// A wave file of exactly `total_len` bytes whose header announces
/// `byte_rate` bytes per second (one channel, eight-bit samples).
fn wav_bytes(byte_rate: u32, total_len: usize) -> Vec<u8> {
    let header = wav::Header::new(wav::WAV_FORMAT_PCM, 1, byte_rate, 8);
    let mut probe = std::io::Cursor::new(Vec::new());
    wav::write(header, &wav::BitDepth::Eight(vec![0u8; 2]), &mut probe).unwrap();
    let overhead = probe.into_inner().len() - 2;
    assert!(total_len >= overhead);
    assert_eq!((total_len - overhead) % 2, 0, "odd data would be padded");
    let data = vec![0u8; total_len - overhead];
    let mut out = std::io::Cursor::new(Vec::new());
    wav::write(header, &wav::BitDepth::Eight(data), &mut out).unwrap();
    let bytes = out.into_inner();
    assert_eq!(bytes.len(), total_len);
    bytes
}

#[test]
fn duration_is_total_bytes_scaled_by_byte_rate() {
    let bytes = wav_bytes(2000, 50_000);
    assert_eq!(clip_duration_ms(&ClipFile::Content(bytes)), 25_000);
}

#[test]
fn duration_follows_the_header_rate_not_the_data() {
    let slow = wav_bytes(1000, 50_000);
    assert_eq!(clip_duration_ms(&ClipFile::Content(slow)), 50_000);
}

#[test]
fn undecodable_bytes_count_as_zero() {
    assert_eq!(clip_duration_ms(&ClipFile::Content(vec![1, 2, 3, 4])), 0);
    assert_eq!(clip_duration_ms(&ClipFile::Content(Vec::new())), 0);
}

#[test]
fn a_truncated_container_counts_as_zero() {
    // The outer chunk claims 100 bytes but the stream ends after the form
    // type; walking it would read past the end.
    let mut bytes = b"RIFF".to_vec();
    bytes.extend_from_slice(&100u32.to_le_bytes());
    bytes.extend_from_slice(b"WAVE");
    assert_eq!(clip_duration_ms(&ClipFile::Content(bytes)), 0);
}

#[test]
fn a_container_with_a_non_ascii_chunk_id_counts_as_zero() {
    let mut bytes = b"RIFF".to_vec();
    bytes.extend_from_slice(&20u32.to_le_bytes());
    bytes.extend_from_slice(b"WAVE");
    bytes.extend_from_slice(&[0xFF, 0xFF, 0xFF, 0xFF]);
    bytes.extend_from_slice(&4u32.to_le_bytes());
    bytes.extend_from_slice(&[0, 0, 0, 0]);
    assert_eq!(clip_duration_ms(&ClipFile::Content(bytes)), 0);
}

#[test]
fn a_wave_file_with_an_overstated_outer_length_counts_as_zero() {
    // A well-formed file whose outer RIFF length claims more than the
    // stream holds: the walk would step to a header past the end.
    let mut bytes = wav_bytes(2000, 50_000);
    let overstated: u32 = (bytes.len() as u32) + 64;
    bytes[4..8].copy_from_slice(&overstated.to_le_bytes());
    assert_eq!(clip_duration_ms(&ClipFile::Content(bytes)), 0);
}

#[test]
fn missing_and_unreadable_clips_count_as_zero() {
    assert_eq!(clip_duration_ms(&ClipFile::Missing), 0);
    assert_eq!(clip_duration_ms(&ClipFile::Unreadable), 0);
}
