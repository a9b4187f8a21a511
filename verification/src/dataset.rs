use vstd::prelude::*;

use crate::bytes::copy_range;
use crate::duration::{clip_duration_ms, spec_clip_duration_ms, ClipFile};
use crate::manifest::RawEntry;

verus! {

/// A dataset whose retained entries sum to fewer milliseconds than this is
/// dropped; the boundary itself is retained.
pub const MIN_TOTAL_DURATION_MS: u128 = 300_000;

/// A validation clip at least this long draws an informational warning.
pub const LONG_VAL_CLIP_MS: u64 = 10_000;

/// The clip-subdirectory prefix, `wavs/`, that a clip reference may carry.
pub open spec fn wavs_prefix() -> Seq<u8> {
    seq![119u8, 97u8, 118u8, 115u8, 47u8]
}

/// The clip reference with a leading `wavs/` stripped, if it carries one.
pub open spec fn spec_basename(source_ref: Seq<u8>) -> Seq<u8> {
    if source_ref.len() >= 5 && source_ref.take(5) == wavs_prefix() {
        source_ref.skip(5)
    } else {
        source_ref
    }
}

/// The dataset directory joined with the clip reference as written.
pub open spec fn spec_resolved(dir: Seq<u8>, source_ref: Seq<u8>) -> Seq<u8> {
    dir + seq![47u8] + source_ref
}

/// Strips a leading `wavs/` from a clip reference, if present.
pub fn clip_basename(source_ref: &Vec<u8>) -> (r: Vec<u8>)
    ensures
        r@ == spec_basename(source_ref@),
{
    let n = source_ref.len();
    if n >= 5 && source_ref[0] == 119 && source_ref[1] == 97 && source_ref[2] == 118
        && source_ref[3] == 115 && source_ref[4] == 47 {
        assert(source_ref@.take(5) =~= wavs_prefix());
        let r = copy_range(source_ref, 5, n);
        assert(r@ =~= source_ref@.skip(5));
        r
    } else {
        assert(source_ref@.len() >= 5 ==> source_ref@.take(5) !~= wavs_prefix());
        copy_range(source_ref, 0, n)
    }
}

/// Joins the dataset directory and a clip reference with a path separator.
pub fn resolve_clip_path(dir: &Vec<u8>, source_ref: &Vec<u8>) -> (r: Vec<u8>)
    ensures
        r@ == spec_resolved(dir@, source_ref@),
{
    let mut r = copy_range(dir, 0, dir.len());
    r.push(47);
    crate::bytes::append_bytes(&mut r, source_ref);
    assert(r@ =~= spec_resolved(dir@, source_ref@));
    r
}

/// One retained manifest row, with its derived clip facts.
pub struct LineEntry {
    pub source_ref: Vec<u8>,
    pub basename: Vec<u8>,
    pub text: Vec<u8>,
    pub resolved_path: Vec<u8>,
    pub duration_ms: u64,
}

/// `e` is the entry the loader derives from row `raw` of a dataset under
/// `dir` whose clip file came back as `f`.
pub open spec fn entry_matches(e: LineEntry, dir: Seq<u8>, raw: RawEntry, f: ClipFile) -> bool {
    &&& e.source_ref@ == raw.source_ref@
    &&& e.basename@ == spec_basename(raw.source_ref@)
    &&& e.text@ == raw.text@
    &&& e.resolved_path@ == spec_resolved(dir, raw.source_ref@)
    &&& e.duration_ms == spec_clip_duration_ms(f)
}

/// Builds one entry from a parsed row and its probed clip file.
fn make_entry(dir: &Vec<u8>, raw: &RawEntry, f: &ClipFile) -> (e: LineEntry)
    ensures
        entry_matches(e, dir@, *raw, *f),
{
    let basename = clip_basename(&raw.source_ref);
    let resolved_path = resolve_clip_path(dir, &raw.source_ref);
    let duration_ms = clip_duration_ms(f);
    proof {
        assert(raw.source_ref@.subrange(0, raw.source_ref@.len() as int) =~= raw.source_ref@);
        assert(raw.text@.subrange(0, raw.text@.len() as int) =~= raw.text@);
    }
    LineEntry {
        source_ref: copy_range(&raw.source_ref, 0, raw.source_ref.len()),
        basename,
        text: copy_range(&raw.text, 0, raw.text.len()),
        resolved_path,
        duration_ms,
    }
}

/// Index of the first row whose clip file is absent, if any.
pub open spec fn spec_first_missing(files: Seq<ClipFile>) -> Option<int>
    decreases files.len(),
{
    if files.len() == 0 {
        None
    } else if files[0] is Missing {
        Some(0)
    } else {
        match spec_first_missing(files.skip(1)) {
            None => None,
            Some(j) => Some(j + 1),
        }
    }
}

/// What `spec_first_missing` returns: the index it names is absent, nothing
/// before it is, and `None` means no row's clip file is absent.
pub proof fn lemma_first_missing(files: Seq<ClipFile>)
    ensures
        match spec_first_missing(files) {
            Some(i) => 0 <= i < files.len() && files[i] is Missing && (forall|k: int|
                0 <= k < i ==> !(files[k] is Missing)),
            None => forall|k: int| 0 <= k < files.len() ==> !(files[k] is Missing),
        },
    decreases files.len(),
{
    if files.len() == 0 {
    } else if files[0] is Missing {
    } else {
        lemma_first_missing(files.skip(1));
        match spec_first_missing(files.skip(1)) {
            None => {
                assert forall|k: int| 0 <= k < files.len() implies !(files[k] is Missing) by {
                    if k >= 1 {
                        assert(!(files.skip(1)[k - 1] is Missing));
                    }
                }
            },
            Some(j) => {
                assert(files[j + 1] == files.skip(1)[j]);
                assert forall|k: int| 0 <= k < j + 1 implies !(files[k] is Missing) by {
                    if k >= 1 {
                        assert(!(files.skip(1)[k - 1] is Missing));
                    }
                }
            },
        }
    }
}

/// Finds the first row whose clip file is absent, if any.
fn first_missing(files: &Vec<ClipFile>) -> (r: Option<usize>)
    ensures
        match r {
            Some(i) => spec_first_missing(files@) == Some(i as int),
            None => spec_first_missing(files@) is None,
        },
{
    let mut i: usize = 0;
    while i < files.len()
        invariant
            i <= files@.len(),
            forall|k: int| 0 <= k < i ==> !(files@[k] is Missing),
        decreases files@.len() - i,
    {
        let is_missing = match &files[i] {
            ClipFile::Missing => true,
            _ => false,
        };
        if is_missing {
            proof {
                lemma_first_missing(files@);
                match spec_first_missing(files@) {
                    None => {
                        assert(!(files@[i as int] is Missing));
                    },
                    Some(j) => {
                        if j < i {
                            assert(!(files@[j] is Missing));
                        }
                        if (i as int) < j {
                            assert(!(files@[i as int] is Missing));
                        }
                    },
                }
            }
            return Some(i);
        }
        i = i + 1;
    }
    proof {
        lemma_first_missing(files@);
        match spec_first_missing(files@) {
            None => {},
            Some(j) => {
                assert(!(files@[j] is Missing));
            },
        }
    }
    None
}

/// Builds an entry for every row; used for the training pass, where no row
/// may be skipped.
fn make_entries(dir: &Vec<u8>, raws: &Vec<RawEntry>, files: &Vec<ClipFile>) -> (es: Vec<LineEntry>)
    requires
        raws@.len() == files@.len(),
    ensures
        es@.len() == raws@.len(),
        forall|i: int| 0 <= i < raws@.len() ==> entry_matches(es@[i], dir@, raws@[i], files@[i]),
{
    let mut es: Vec<LineEntry> = Vec::new();
    let mut i: usize = 0;
    while i < raws.len()
        invariant
            raws@.len() == files@.len(),
            i <= raws@.len(),
            es@.len() == i,
            forall|k: int| 0 <= k < i ==> entry_matches(es@[k], dir@, raws@[k], files@[k]),
        decreases raws@.len() - i,
    {
        let e = make_entry(dir, &raws[i], &files[i]);
        es.push(e);
        i = i + 1;
    }
    es
}

/// Indices of the rows whose clip file is present; the validation pass keeps
/// exactly these, in order.
pub open spec fn spec_kept_indices(files: Seq<ClipFile>) -> Seq<int>
    decreases files.len(),
{
    if files.len() == 0 {
        seq![]
    } else {
        let front = spec_kept_indices(files.drop_last());
        if files.last() is Missing {
            front
        } else {
            front.push(files.len() - 1)
        }
    }
}

/// Every kept index lies within the rows, in strictly increasing order.
pub proof fn lemma_kept_indices_bounds(files: Seq<ClipFile>)
    ensures
        forall|j: int|
            0 <= j < spec_kept_indices(files).len() ==> 0 <= #[trigger] spec_kept_indices(files)[j]
                < files.len(),
    decreases files.len(),
{
    if files.len() == 0 {
    } else {
        lemma_kept_indices_bounds(files.drop_last());
        let front = spec_kept_indices(files.drop_last());
        assert forall|j: int|
            0 <= j < spec_kept_indices(files).len() implies 0 <= #[trigger] spec_kept_indices(
            files,
        )[j] < files.len() by {
            if files.last() is Missing {
                assert(spec_kept_indices(files)[j] == front[j]);
            } else if j < front.len() {
                assert(spec_kept_indices(files)[j] == front[j]);
            }
        }
    }
}

/// Builds an entry for every row whose clip file is present, skipping absent
/// ones row by row; used for the validation pass.
fn make_val_entries(dir: &Vec<u8>, raws: &Vec<RawEntry>, files: &Vec<ClipFile>) -> (es: Vec<
    LineEntry,
>)
    requires
        raws@.len() == files@.len(),
    ensures
        es@.len() == spec_kept_indices(files@).len(),
        forall|j: int|
            0 <= j < es@.len() ==> entry_matches(
                es@[j],
                dir@,
                raws@[#[trigger] spec_kept_indices(files@)[j]],
                files@[spec_kept_indices(files@)[j]],
            ),
{
    let mut es: Vec<LineEntry> = Vec::new();
    let mut i: usize = 0;
    proof {
        assert(files@.take(0) =~= Seq::<ClipFile>::empty());
    }
    while i < raws.len()
        invariant
            raws@.len() == files@.len(),
            i <= raws@.len(),
            es@.len() == spec_kept_indices(files@.take(i as int)).len(),
            forall|j: int|
                0 <= j < es@.len() ==> entry_matches(
                    es@[j],
                    dir@,
                    raws@[#[trigger] spec_kept_indices(files@.take(i as int))[j]],
                    files@[spec_kept_indices(files@.take(i as int))[j]],
                ),
            forall|j: int|
                0 <= j < es@.len() ==> 0 <= #[trigger] spec_kept_indices(files@.take(i as int))[j]
                    < i,
        decreases raws@.len() - i,
    {
        let ghost prefix = files@.take(i as int);
        let ghost next = files@.take(i + 1 as int);
        proof {
            assert(next.drop_last() =~= prefix);
            assert(next.last() == files@[i as int]);
        }
        let keep = match &files[i] {
            ClipFile::Missing => false,
            _ => true,
        };
        if keep {
            let e = make_entry(dir, &raws[i], &files[i]);
            es.push(e);
            proof {
                assert(spec_kept_indices(next) == spec_kept_indices(prefix).push(i as int));
            }
        }
        i = i + 1;
    }
    proof {
        assert(files@.take(files@.len() as int) =~= files@);
    }
    es
}

/// The durations the kept rows of the validation pass contribute, and of the
/// training rows, summed as mathematical integers.
pub open spec fn spec_sum_durations(ds: Seq<u64>) -> int
    decreases ds.len(),
{
    if ds.len() == 0 {
        0int
    } else {
        spec_sum_durations(ds.drop_last()) + ds.last()
    }
}

/// The durations of a sequence of entries, in order.
pub open spec fn entry_durations(es: Seq<LineEntry>) -> Seq<u64> {
    es.map_values(|e: LineEntry| e.duration_ms)
}

/// A sum of durations is never negative.
pub proof fn lemma_sum_durations_nonneg(ds: Seq<u64>)
    ensures
        spec_sum_durations(ds) >= 0,
    decreases ds.len(),
{
    if ds.len() > 0 {
        lemma_sum_durations_nonneg(ds.drop_last());
    }
}

/// Sums the durations of the training entries, then the validation entries,
/// saturating at `u128::MAX`.
pub fn total_duration_ms(train: &Vec<LineEntry>, val: &Vec<LineEntry>) -> (t: u128)
    ensures
        ({
            let s = spec_sum_durations(entry_durations(train@) + entry_durations(val@));
            if s > u128::MAX {
                t == u128::MAX
            } else {
                t == s
            }
        }),
{
    let ghost all = entry_durations(train@) + entry_durations(val@);
    let mut t: u128 = 0;
    let mut i: usize = 0;
    proof {
        assert(all.take(0) =~= Seq::<u64>::empty());
    }
    while i < train.len()
        invariant
            all == entry_durations(train@) + entry_durations(val@),
            i <= train@.len(),
            ({
                let s = spec_sum_durations(all.take(i as int));
                if s > u128::MAX {
                    t == u128::MAX
                } else {
                    t == s
                }
            }),
        decreases train@.len() - i,
    {
        let d = train[i].duration_ms;
        proof {
            let next = all.take(i + 1 as int);
            assert(next.drop_last() =~= all.take(i as int));
            assert(next.last() == all[i as int]);
            assert(all[i as int] == d);
            lemma_sum_durations_nonneg(all.take(i as int));
        }
        if (d as u128) > u128::MAX - t {
            t = u128::MAX;
        } else {
            t = t + (d as u128);
        }
        i = i + 1;
    }
    let mut j: usize = 0;
    while j < val.len()
        invariant
            all == entry_durations(train@) + entry_durations(val@),
            j <= val@.len(),
            ({
                let s = spec_sum_durations(all.take(train@.len() + j as int));
                if s > u128::MAX {
                    t == u128::MAX
                } else {
                    t == s
                }
            }),
        decreases val@.len() - j,
    {
        let d = val[j].duration_ms;
        proof {
            let next = all.take(train@.len() + j + 1 as int);
            assert(next.drop_last() =~= all.take(train@.len() + j as int));
            assert(next.last() == all[train@.len() + j as int]);
            assert(all[train@.len() + j as int] == d);
            lemma_sum_durations_nonneg(all.take(train@.len() + j as int));
        }
        if (d as u128) > u128::MAX - t {
            t = u128::MAX;
        } else {
            t = t + (d as u128);
        }
        j = j + 1;
    }
    proof {
        assert(all.take(all.len() as int) =~= all);
    }
    t
}

/// Summing a concatenation splits into the two sums.
pub proof fn lemma_sum_append(a: Seq<u64>, b: Seq<u64>)
    ensures
        spec_sum_durations(a + b) == spec_sum_durations(a) + spec_sum_durations(b),
    decreases b.len(),
{
    if b.len() == 0 {
        assert(a + b =~= a);
    } else {
        lemma_sum_append(a, b.drop_last());
        assert((a + b).drop_last() =~= a + b.drop_last());
        assert((a + b).last() == b.last());
    }
}

/// The durations the validation pass retains: one per kept row, in order.
pub open spec fn spec_val_durations(vf: Seq<ClipFile>) -> Seq<u64> {
    spec_kept_indices(vf).map_values(|i: int| spec_clip_duration_ms(vf[i]))
}

/// The milliseconds a dataset's retained rows sum to: every training row,
/// plus the validation rows whose clip file is present.
pub open spec fn spec_total_ms(tf: Seq<ClipFile>, vf: Seq<ClipFile>) -> int {
    spec_sum_durations(tf.map_values(|f: ClipFile| spec_clip_duration_ms(f)))
        + spec_sum_durations(spec_val_durations(vf))
}

/// Indices of the durations of at least `LONG_VAL_CLIP_MS`.
pub open spec fn spec_long_indices(ds: Seq<u64>) -> Seq<int>
    decreases ds.len(),
{
    if ds.len() == 0 {
        seq![]
    } else {
        let front = spec_long_indices(ds.drop_last());
        if ds.last() >= LONG_VAL_CLIP_MS {
            front.push(ds.len() - 1)
        } else {
            front
        }
    }
}

/// Collects the indices of the entries whose clip is unusually long; callers
/// report these as non-fatal warnings during loading, whatever the later
/// acceptance decision.
fn long_val_indices(es: &Vec<LineEntry>) -> (r: Vec<usize>)
    ensures
        r@.map_values(|x: usize| x as int) == spec_long_indices(entry_durations(es@)),
{
    let ghost ds = entry_durations(es@);
    let mut r: Vec<usize> = Vec::new();
    let mut i: usize = 0;
    proof {
        assert(ds.take(0) =~= Seq::<u64>::empty());
        assert(r@.map_values(|x: usize| x as int) =~= spec_long_indices(ds.take(0)));
    }
    while i < es.len()
        invariant
            ds == entry_durations(es@),
            i <= es@.len(),
            r@.map_values(|x: usize| x as int) == spec_long_indices(ds.take(i as int)),
        decreases es@.len() - i,
    {
        let ghost prefix = ds.take(i as int);
        let ghost next = ds.take(i + 1 as int);
        proof {
            assert(next.drop_last() =~= prefix);
            assert(next.last() == ds[i as int]);
            assert(ds[i as int] == es@[i as int].duration_ms);
        }
        if es[i].duration_ms >= LONG_VAL_CLIP_MS {
            r.push(i);
            proof {
                assert(r@.map_values(|x: usize| x as int) =~= spec_long_indices(next));
            }
        }
        i = i + 1;
    }
    proof {
        assert(ds.take(ds.len() as int) =~= ds);
    }
    r
}

/// One loaded source dataset, ready to merge.
pub struct DatasetData {
    pub name: Vec<u8>,
    pub train_entries: Vec<LineEntry>,
    pub val_entries: Vec<LineEntry>,
    pub total_duration_ms: u128,
}

/// Why a dataset is excluded from the merged corpus.
pub enum RejectReason {
    /// A training-manifest line did not split into two fields; the payload
    /// is that line's index. The training pass is strict: one bad line drops
    /// the whole dataset.
    TrainParseError(usize),
    /// A training row's clip file is absent; the payload is the first such
    /// row's index. One missing training clip drops the whole dataset.
    MissingTrainClip(usize),
    /// No rows were retained at all, so no duration exists to sum.
    EmptyManifests,
    /// The retained rows sum below the acceptance threshold; the payload is
    /// that sum in milliseconds.
    TooShort(u128),
}

/// What loading one dataset produced: the dataset, or why it is excluded.
/// Both ways carry the indices of the retained validation entries whose
/// clip is unusually long: that warning belongs to the loading pass and is
/// owed before the acceptance decision, so a dataset rejected as empty or
/// too short still reports it. A dataset dropped by the training pass never
/// reaches the validation pass, so those rejections carry none.
pub enum BuildOutcome {
    Accepted { data: DatasetData, long_val_clips: Vec<usize> },
    Rejected { reason: RejectReason, long_val_clips: Vec<usize> },
}

/// `r` is the outcome the loader owes for a dataset named `name` under `dir`
/// whose training manifest parsed into `raws` with clip files `tf`, and whose
/// validation manifest parsed into `vr` with clip files `vf`.
pub open spec fn build_outcome_matches(
    r: BuildOutcome,
    name: Seq<u8>,
    dir: Seq<u8>,
    raws: Seq<RawEntry>,
    tf: Seq<ClipFile>,
    vr: Seq<RawEntry>,
    vf: Seq<ClipFile>,
) -> bool {
    let miss = spec_first_missing(tf);
    let kept = spec_kept_indices(vf);
    let total = spec_total_ms(tf, vf);
    let longs = spec_long_indices(spec_val_durations(vf));
    match r {
        BuildOutcome::Rejected { reason, long_val_clips } => match reason {
            RejectReason::TrainParseError(_) => false,
            RejectReason::MissingTrainClip(i) => miss == Some(i as int) && long_val_clips@.len()
                == 0,
            RejectReason::EmptyManifests => miss is None && raws.len() == 0 && kept.len() == 0
                && long_val_clips@.map_values(|x: usize| x as int) == longs,
            RejectReason::TooShort(t) => miss is None && !(raws.len() == 0 && kept.len() == 0)
                && total < MIN_TOTAL_DURATION_MS && t == total && long_val_clips@.map_values(
                |x: usize| x as int,
            ) == longs,
        },
        BuildOutcome::Accepted { data, long_val_clips } => {
            &&& miss is None
            &&& !(raws.len() == 0 && kept.len() == 0)
            &&& total >= MIN_TOTAL_DURATION_MS
            &&& data.name@ == name
            &&& data.train_entries@.len() == raws.len()
            &&& (forall|i: int|
                0 <= i < raws.len() ==> entry_matches(
                    #[trigger] data.train_entries@[i],
                    dir,
                    raws[i],
                    tf[i],
                ))
            &&& data.val_entries@.len() == kept.len()
            &&& (forall|j: int|
                0 <= j < kept.len() ==> entry_matches(
                    #[trigger] data.val_entries@[j],
                    dir,
                    vr[kept[j]],
                    vf[kept[j]],
                ))
            &&& data.total_duration_ms as int == (if total > u128::MAX {
                u128::MAX as int
            } else {
                total
            })
            &&& long_val_clips@.map_values(|x: usize| x as int) == longs
        },
    }
}

/// Loads one structurally valid dataset from its parsed manifests and probed
/// clip files, and decides whether it enters the merged corpus. The training
/// pass is strict: a parse error or a missing clip drops the whole dataset.
/// The validation pass skips absent clips row by row. A dataset with no
/// retained rows, or whose retained rows sum below the threshold, is
/// rejected with the reason.
pub fn build_dataset(
    name: Vec<u8>,
    dir: &Vec<u8>,
    train_parse: Result<Vec<RawEntry>, usize>,
    train_files: Vec<ClipFile>,
    val_raws: Vec<RawEntry>,
    val_files: Vec<ClipFile>,
) -> (r: BuildOutcome)
    requires
        train_parse is Ok ==> train_files@.len() == train_parse->Ok_0@.len(),
        (train_parse is Ok && spec_first_missing(train_files@) is None) ==> val_files@.len()
            == val_raws@.len(),
    ensures
        train_parse is Err ==> (r matches BuildOutcome::Rejected {
            reason: RejectReason::TrainParseError(i),
            long_val_clips,
        } && i == train_parse->Err_0 && long_val_clips@.len() == 0),
        train_parse is Ok ==> build_outcome_matches(
            r,
            name@,
            dir@,
            train_parse->Ok_0@,
            train_files@,
            val_raws@,
            val_files@,
        ),
{
    let raws = match train_parse {
        Ok(raws) => raws,
        Err(i) => {
            let long_val_clips: Vec<usize> = Vec::new();
            return BuildOutcome::Rejected {
                reason: RejectReason::TrainParseError(i),
                long_val_clips,
            };
        },
    };
    match first_missing(&train_files) {
        Some(i) => {
            let long_val_clips: Vec<usize> = Vec::new();
            return BuildOutcome::Rejected {
                reason: RejectReason::MissingTrainClip(i),
                long_val_clips,
            };
        },
        None => {},
    }
    let train_entries = make_entries(dir, &raws, &train_files);
    let val_entries = make_val_entries(dir, &val_raws, &val_files);
    proof {
        lemma_kept_indices_bounds(val_files@);
        assert(entry_durations(train_entries@) =~= train_files@.map_values(
            |f: ClipFile| spec_clip_duration_ms(f),
        ));
        assert(entry_durations(val_entries@) =~= spec_val_durations(val_files@));
    }
    let long_val_clips = long_val_indices(&val_entries);
    if train_entries.len() == 0 && val_entries.len() == 0 {
        return BuildOutcome::Rejected { reason: RejectReason::EmptyManifests, long_val_clips };
    }
    let total = total_duration_ms(&train_entries, &val_entries);
    proof {
        lemma_sum_append(entry_durations(train_entries@), entry_durations(val_entries@));
        assert(spec_sum_durations(entry_durations(train_entries@) + entry_durations(val_entries@))
            == spec_total_ms(train_files@, val_files@));
    }
    if total < MIN_TOTAL_DURATION_MS {
        return BuildOutcome::Rejected { reason: RejectReason::TooShort(total), long_val_clips };
    }
    BuildOutcome::Accepted {
        data: DatasetData { name, train_entries, val_entries, total_duration_ms: total },
        long_val_clips,
    }
}

} // verus!
