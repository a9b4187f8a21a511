use vstd::prelude::*;

verus! {

/// The bytes-per-second field of the RIFF/WAVE header that `wav::read`
/// decodes from a byte stream, or `None` where the stream does not decode.
/// The decoding is a function of the bytes alone.
pub uninterp spec fn wav_byte_rate(bytes: Seq<u8>) -> Option<u32>;

/// The declared length of the chunk whose header starts at `pos`: the
/// little-endian 32-bit integer in bytes `pos + 4 .. pos + 8`.
pub open spec fn spec_chunk_len(bytes: Seq<u8>, pos: int) -> int {
    bytes[pos + 4] + bytes[pos + 5] * 0x100 + bytes[pos + 6] * 0x10000 + bytes[pos + 7]
        * 0x1000000
}

/// The four id bytes at `pos` are ASCII. The container walk turns every id
/// it visits into a string, which panics on bytes that are not valid UTF-8;
/// ASCII is the safe (and, for chunk ids, the conventional) subset.
pub open spec fn spec_id_ascii(bytes: Seq<u8>, pos: int) -> bool {
    &&& bytes[pos] < 0x80
    &&& bytes[pos + 1] < 0x80
    &&& bytes[pos + 2] < 0x80
    &&& bytes[pos + 3] < 0x80
}

/// The form type at bytes 8..12 reads `WAVE`; only then does the decoder
/// walk the chunk list at all.
pub open spec fn spec_is_wave(bytes: Seq<u8>) -> bool {
    &&& bytes[8] == 0x57
    &&& bytes[9] == 0x41
    &&& bytes[10] == 0x56
    &&& bytes[11] == 0x45
}

/// The chunk walk from `cur` stays safe up to `end`: every chunk header it
/// visits lies whole inside the stream and carries an ASCII id. Each step
/// advances past the header, the declared contents, and a padding byte for
/// an odd length, exactly as the decoder's iterator does.
pub open spec fn spec_walk_safe(bytes: Seq<u8>, cur: int, end: int) -> bool
    decreases end - cur,
{
    if cur >= end {
        true
    } else if cur + 8 > bytes.len() {
        false
    } else if !spec_id_ascii(bytes, cur) {
        false
    } else {
        let next = cur + 8 + spec_chunk_len(bytes, cur) + (spec_chunk_len(bytes, cur) % 2);
        if next >= end {
            true
        } else {
            spec_walk_safe(bytes, next, end)
        }
    }
}

/// The byte stream cannot make the decoder's chunk walk panic: either it is
/// too short to reach the walk (the decoder fails cleanly first), or its
/// form-type bytes are ASCII and, if they read `WAVE`, the walk over the
/// declared outer length stays safe.
pub open spec fn spec_wav_parse_safe(bytes: Seq<u8>) -> bool {
    ||| bytes.len() < 12
    ||| {
        &&& spec_id_ascii(bytes, 8)
        &&& (spec_is_wave(bytes) ==> spec_walk_safe(bytes, 12, 4 + spec_chunk_len(bytes, 0)))
    }
}

/// Reads the declared length of the chunk whose header starts at `pos`.
fn chunk_len_at(bytes: &Vec<u8>, pos: usize) -> (r: u64)
    requires
        pos + 8 <= bytes@.len(),
    ensures
        r == spec_chunk_len(bytes@, pos as int),
        r <= 0xFFFF_FFFF,
{
    let n = bytes.len();
    assert(pos + 8 <= n);
    (bytes[pos + 4] as u64) + (bytes[pos + 5] as u64) * 0x100 + (bytes[pos + 6] as u64) * 0x10000
        + (bytes[pos + 7] as u64) * 0x1000000
}

/// Decides whether a byte stream is safe to hand to the container decoder,
/// walking the chunk list exactly as the decoder would.
pub fn wav_parse_safe(bytes: &Vec<u8>) -> (r: bool)
    ensures
        r == spec_wav_parse_safe(bytes@),
{
    let n = bytes.len();
    if n < 12 {
        return true;
    }
    if !(bytes[8] < 0x80 && bytes[9] < 0x80 && bytes[10] < 0x80 && bytes[11] < 0x80) {
        return false;
    }
    if !(bytes[8] == 0x57 && bytes[9] == 0x41 && bytes[10] == 0x56 && bytes[11] == 0x45) {
        return true;
    }
    let outer_len = chunk_len_at(bytes, 0);
    let end: u64 = 4 + outer_len;
    let mut cur: u64 = 12;
    while cur < end
        invariant
            12 <= cur,
            end == 4 + spec_chunk_len(bytes@, 0),
            end <= 4 + 0xFFFF_FFFFu64,
            n == bytes@.len(),
            n >= 12,
            spec_id_ascii(bytes@, 8),
            spec_is_wave(bytes@),
            spec_walk_safe(bytes@, cur as int, end as int) == spec_walk_safe(
                bytes@,
                12,
                end as int,
            ),
        decreases end - cur,
    {
        if cur + 8 > n as u64 {
            return false;
        }
        let c = cur as usize;
        if !(bytes[c] < 0x80 && bytes[c + 1] < 0x80 && bytes[c + 2] < 0x80 && bytes[c + 3]
            < 0x80) {
            return false;
        }
        let len_c = chunk_len_at(bytes, c);
        let next = cur + 8 + len_c + (len_c % 2);
        cur = if next > end {
            end
        } else {
            next
        };
    }
    true
}

/// Relies on wav::read (crate `wav`): decodes the RIFF/WAVE container from
/// the byte stream and yields its header's bytes-per-second field; any
/// decoding failure becomes `None`. The result depends on the bytes alone.
/// The `requires` keeps out the streams on which the decoder's chunk walk
/// panics instead of failing: a chunk header past the end of the stream, or
/// a visited id that is not valid UTF-8 (`riff`'s iterator and `as_str`
/// unwrap both).
#[verifier::external_body]
fn read_byte_rate(bytes: &Vec<u8>) -> (r: Option<u32>)
    requires
        spec_wav_parse_safe(bytes@),
    ensures
        r == wav_byte_rate(bytes@),
{
    let mut cursor = std::io::Cursor::new(bytes.as_slice());
    match wav::read(&mut cursor) {
        Ok((header, _)) => Some(header.bytes_per_second),
        Err(_) => None,
    }
}

/// One referenced clip as the file system presented it: absent, present but
/// unreadable, or read in full.
pub enum ClipFile {
    Missing,
    Unreadable,
    Content(Vec<u8>),
}

/// Playback duration in milliseconds of a clip file's bytes: the file's total
/// byte length, scaled to milliseconds, divided by the header's byte rate.
/// A stream whose chunk walk is unsafe is never handed to the decoder and
/// counts as zero; one that does not decode, or decodes to a zero rate,
/// counts as zero too; a quotient beyond `u64::MAX` saturates there.
pub open spec fn spec_duration_of_bytes(bytes: Seq<u8>) -> u64 {
    if !spec_wav_parse_safe(bytes) {
        0
    } else {
        match wav_byte_rate(bytes) {
            None => 0,
            Some(rate) => if rate == 0 {
                0
            } else {
                let q = bytes.len() as int * 1000 / (rate as int);
                if q > u64::MAX {
                    u64::MAX
                } else {
                    q as u64
                }
            },
        }
    }
}

/// Duration in milliseconds a clip contributes: zero for a clip that is
/// absent or unreadable, else the duration of its bytes.
pub open spec fn spec_clip_duration_ms(f: ClipFile) -> u64 {
    match f {
        ClipFile::Missing => 0,
        ClipFile::Unreadable => 0,
        ClipFile::Content(bytes) => spec_duration_of_bytes(bytes@),
    }
}

/// Probes a clip for its playback duration in milliseconds. Failure to read
/// or decode is not an error here: it yields a zero duration, which callers
/// treat as unusable. A malformed container on which the decoder would
/// panic is caught by the safety check first and counts as zero as well.
pub fn clip_duration_ms(f: &ClipFile) -> (d: u64)
    ensures
        d == spec_clip_duration_ms(*f),
{
    match f {
        ClipFile::Missing => 0,
        ClipFile::Unreadable => 0,
        ClipFile::Content(bytes) => {
            if !wav_parse_safe(bytes) {
                return 0;
            }
            match read_byte_rate(bytes) {
                None => 0,
                Some(rate) => {
                    if rate == 0 {
                        0
                    } else {
                        let q: u128 = (bytes.len() as u128) * 1000 / (rate as u128);
                        assert(q == bytes@.len() as int * 1000 / (rate as int));
                        if q > u64::MAX as u128 {
                            u64::MAX
                        } else {
                            q as u64
                        }
                    }
                },
            }
        },
    }
}

} // verus!
