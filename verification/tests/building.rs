use corpus_mixer::dataset::{build_dataset, BuildOutcome, RejectReason};
use corpus_mixer::duration::ClipFile;
use corpus_mixer::manifest::{parse_train_manifest, parse_val_manifest, RawEntry};

fn b(s: &str) -> Vec<u8> {
    s.as_bytes().to_vec()
}

/// A wave file of exactly `total_len` bytes whose header announces
/// `byte_rate` bytes per second (one channel, eight-bit samples).
fn wav_bytes(byte_rate: u32, total_len: usize) -> Vec<u8> {
    let header = wav::Header::new(wav::WAV_FORMAT_PCM, 1, byte_rate, 8);
    let mut probe = std::io::Cursor::new(Vec::new());
    wav::write(header, &wav::BitDepth::Eight(vec![0u8; 2]), &mut probe).unwrap();
    let overhead = probe.into_inner().len() - 2;
    let data = vec![0u8; total_len - overhead];
    let mut out = std::io::Cursor::new(Vec::new());
    wav::write(header, &wav::BitDepth::Eight(data), &mut out).unwrap();
    let bytes = out.into_inner();
    assert_eq!(bytes.len(), total_len);
    bytes
}

/// A readable clip of exactly `ms` milliseconds (byte rate 2000).
fn clip(ms: u64) -> ClipFile {
    ClipFile::Content(wav_bytes(2000, (2 * ms) as usize))
}

fn no_val() -> Vec<RawEntry> {
    parse_val_manifest(&b("")).entries
}

#[test]
fn one_missing_train_clip_drops_the_whole_dataset() {
    let train = parse_train_manifest(&b("wavs/a.wav|x\nwavs/b.wav|y\n"));
    let out = build_dataset(
        b("d"),
        &b("datasets/d"),
        train,
        vec![clip(200_000), ClipFile::Missing],
        no_val(),
        vec![],
    );
    match out {
        BuildOutcome::Rejected {
            reason: RejectReason::MissingTrainClip(i),
            ..
        } => assert_eq!(i, 1),
        _ => panic!("a missing training clip must drop the whole dataset"),
    }
}

#[test]
fn a_missing_val_clip_drops_only_that_line() {
    let train = parse_train_manifest(&b("wavs/t.wav|t\n"));
    let val = parse_val_manifest(&b("wavs/v1.wav|a\nwavs/v2.wav|b\nwavs/v3.wav|c\n"));
    let out = build_dataset(
        b("d"),
        &b("datasets/d"),
        train,
        vec![clip(310_000)],
        val.entries,
        vec![clip(5_000), ClipFile::Missing, clip(6_000)],
    );
    match out {
        BuildOutcome::Accepted { data, .. } => {
            assert_eq!(data.train_entries.len(), 1);
            assert_eq!(data.val_entries.len(), 2);
            assert_eq!(data.val_entries[0].basename, b("v1.wav"));
            assert_eq!(data.val_entries[1].basename, b("v3.wav"));
            assert_eq!(data.total_duration_ms, 321_000);
        }
        _ => panic!("the dataset must still be processed"),
    }
}

#[test]
fn exactly_the_threshold_is_retained() {
    let train = parse_train_manifest(&b("wavs/t.wav|t\n"));
    let out = build_dataset(
        b("d"),
        &b("datasets/d"),
        train,
        vec![clip(300_000)],
        no_val(),
        vec![],
    );
    match out {
        BuildOutcome::Accepted { data, .. } => assert_eq!(data.total_duration_ms, 300_000),
        _ => panic!("a dataset of exactly 300.0 seconds must be retained"),
    }
}

#[test]
fn just_below_the_threshold_is_dropped() {
    let train = parse_train_manifest(&b("wavs/t.wav|t\n"));
    let out = build_dataset(
        b("d"),
        &b("datasets/d"),
        train,
        vec![clip(299_999)],
        no_val(),
        vec![],
    );
    match out {
        BuildOutcome::Rejected {
            reason: RejectReason::TooShort(t),
            ..
        } => assert_eq!(t, 299_999),
        _ => panic!("a dataset just below 300.0 seconds must be dropped"),
    }
}

#[test]
fn empty_manifests_are_rejected_with_their_own_reason() {
    let train = parse_train_manifest(&b(""));
    let out = build_dataset(b("d"), &b("datasets/d"), train, vec![], no_val(), vec![]);
    match out {
        BuildOutcome::Rejected {
            reason: RejectReason::EmptyManifests,
            ..
        } => {}
        _ => panic!("a dataset with no rows at all must be rejected as empty"),
    }
}

#[test]
fn an_undelimited_train_line_drops_the_dataset() {
    let train = parse_train_manifest(&b("just some words\n"));
    assert!(train.is_err());
    let out = build_dataset(b("d"), &b("datasets/d"), train, vec![], no_val(), vec![]);
    match out {
        BuildOutcome::Rejected {
            reason: RejectReason::TrainParseError(i),
            long_val_clips,
        } => {
            assert_eq!(i, 0);
            assert!(long_val_clips.is_empty());
        }
        _ => panic!("an undelimited training line must drop the dataset"),
    }
}

#[test]
fn long_validation_clips_are_flagged_but_kept() {
    let train = parse_train_manifest(&b("wavs/t.wav|t\n"));
    let val = parse_val_manifest(&b("wavs/long.wav|v\nwavs/short.wav|w\n"));
    let out = build_dataset(
        b("d"),
        &b("datasets/d"),
        train,
        vec![clip(300_000)],
        val.entries,
        vec![clip(10_000), clip(5_000)],
    );
    match out {
        BuildOutcome::Accepted {
            data,
            long_val_clips,
        } => {
            assert_eq!(long_val_clips, vec![0usize]);
            assert_eq!(data.val_entries.len(), 2);
            assert_eq!(data.total_duration_ms, 315_000);
        }
        _ => panic!("long validation clips are warnings, not errors"),
    }
}

#[test]
fn a_rejected_dataset_still_reports_its_long_validation_clips() {
    let train = parse_train_manifest(&b("wavs/t.wav|t\n"));
    let val = parse_val_manifest(&b("wavs/long.wav|v\n"));
    let out = build_dataset(
        b("d"),
        &b("datasets/d"),
        train,
        vec![clip(30_000)],
        val.entries,
        vec![clip(12_000)],
    );
    match out {
        BuildOutcome::Rejected {
            reason: RejectReason::TooShort(t),
            long_val_clips,
        } => {
            assert_eq!(t, 42_000);
            assert_eq!(long_val_clips, vec![0usize]);
        }
        _ => panic!("42 seconds is below the threshold"),
    }
}

#[test]
fn entries_carry_resolved_paths_and_stripped_basenames() {
    let train = parse_train_manifest(&b("wavs/t.wav|hello\nplain.wav|there\n"));
    let out = build_dataset(
        b("d"),
        &b("datasets/d"),
        train,
        vec![clip(200_000), clip(150_000)],
        no_val(),
        vec![],
    );
    match out {
        BuildOutcome::Accepted { data, .. } => {
            let e0 = &data.train_entries[0];
            assert_eq!(e0.source_ref, b("wavs/t.wav"));
            assert_eq!(e0.basename, b("t.wav"));
            assert_eq!(e0.resolved_path, b("datasets/d/wavs/t.wav"));
            assert_eq!(e0.text, b("hello"));
            assert_eq!(e0.duration_ms, 200_000);
            let e1 = &data.train_entries[1];
            assert_eq!(e1.basename, b("plain.wav"));
            assert_eq!(e1.resolved_path, b("datasets/d/plain.wav"));
            assert_eq!(e1.duration_ms, 150_000);
        }
        _ => panic!("both clips exist and sum over the threshold"),
    }
}
