use vstd::prelude::*;

use crate::bytes::{append_bytes, copy_range, format_usize, spec_decimal};
use crate::dataset::{wavs_prefix, DatasetData, LineEntry};

verus! {

/// The placeholder vocoder tag, `Vatras`, carried into the metadata of every
/// accepted dataset unchanged.
pub open spec fn spec_vocoder_tag() -> Seq<u8> {
    seq![86u8, 97u8, 116u8, 114u8, 97u8, 115u8]
}

/// The vocoder-tag placeholder as bytes.
pub fn vocoder_tag() -> (r: Vec<u8>)
    ensures
        r@ == spec_vocoder_tag(),
{
    let mut r: Vec<u8> = Vec::new();
    r.push(86);
    r.push(97);
    r.push(116);
    r.push(114);
    r.push(97);
    r.push(115);
    assert(r@ =~= spec_vocoder_tag());
    r
}

/// The name a clip takes in the shared pool: the dataset's sequence id, an
/// underscore, and the clip's basename.
pub open spec fn spec_dest_name(id: int, basename: Seq<u8>) -> Seq<u8> {
    spec_decimal(id as nat) + seq![95u8] + basename
}

/// One merged manifest line: `wavs/<id>_<basename>|<text>|<id>` and a line
/// feed; the third field repeats the dataset's sequence id as a speaker
/// index.
pub open spec fn spec_merged_line(id: int, e: LineEntry) -> Seq<u8> {
    wavs_prefix() + spec_dest_name(id, e.basename@) + seq![124u8] + e.text@ + seq![124u8]
        + spec_decimal(id as nat) + seq![10u8]
}

/// The merged manifest lines of a dataset's entries, concatenated in order.
pub open spec fn spec_lines_block(id: int, es: Seq<LineEntry>) -> Seq<u8>
    decreases es.len(),
{
    if es.len() == 0 {
        seq![]
    } else {
        spec_lines_block(id, es.drop_last()) + spec_merged_line(id, es.last())
    }
}

/// Builds the pool name for one clip. `id_dec` must hold the decimal digits
/// of the dataset's sequence id.
fn dest_name(id_dec: &Vec<u8>, basename: &Vec<u8>, ghost_id: Ghost<int>) -> (r: Vec<u8>)
    requires
        id_dec@ == spec_decimal(ghost_id@ as nat),
    ensures
        r@ == spec_dest_name(ghost_id@, basename@),
{
    let mut r = copy_range(id_dec, 0, id_dec.len());
    r.push(95);
    append_bytes(&mut r, basename);
    assert(r@ =~= spec_dest_name(ghost_id@, basename@));
    r
}

/// Appends one merged manifest line for `e` to `out`.
fn append_merged_line(out: &mut Vec<u8>, id_dec: &Vec<u8>, e: &LineEntry, ghost_id: Ghost<int>)
    requires
        id_dec@ == spec_decimal(ghost_id@ as nat),
    ensures
        final(out)@ == old(out)@ + spec_merged_line(ghost_id@, *e),
{
    out.push(119);
    out.push(97);
    out.push(118);
    out.push(115);
    out.push(47);
    append_bytes(out, id_dec);
    out.push(95);
    append_bytes(out, &e.basename);
    out.push(124);
    append_bytes(out, &e.text);
    out.push(124);
    append_bytes(out, id_dec);
    out.push(10);
    assert(out@ =~= old(out)@ + spec_merged_line(ghost_id@, *e));
}

/// Appends the merged manifest lines of every entry, in order.
fn append_lines_block(out: &mut Vec<u8>, id_dec: &Vec<u8>, es: &Vec<LineEntry>, ghost_id: Ghost<
    int,
>)
    requires
        id_dec@ == spec_decimal(ghost_id@ as nat),
    ensures
        final(out)@ == old(out)@ + spec_lines_block(ghost_id@, es@),
{
    let mut i: usize = 0;
    proof {
        assert(es@.take(0) =~= Seq::<LineEntry>::empty());
        assert(out@ =~= out@ + spec_lines_block(ghost_id@, es@.take(0)));
    }
    while i < es.len()
        invariant
            id_dec@ == spec_decimal(ghost_id@ as nat),
            i <= es@.len(),
            out@ == old(out)@ + spec_lines_block(ghost_id@, es@.take(i as int)),
        decreases es@.len() - i,
    {
        let ghost prefix = es@.take(i as int);
        let ghost next = es@.take(i + 1 as int);
        proof {
            assert(next.drop_last() =~= prefix);
            assert(next.last() == es@[i as int]);
        }
        append_merged_line(out, id_dec, &es[i], ghost_id);
        proof {
            assert(out@ =~= old(out)@ + spec_lines_block(ghost_id@, next));
        }
        i = i + 1;
    }
    proof {
        assert(es@.take(es@.len() as int) =~= es@);
    }
}

/// One clip copy the write phase owes: from the resolved source path to the
/// pool name.
pub struct CopyJob {
    pub source_path: Vec<u8>,
    pub dest_name: Vec<u8>,
}

/// `c` is the copy job for entry `e` of the dataset with sequence id `id`.
pub open spec fn copy_job_matches(c: CopyJob, id: int, e: LineEntry) -> bool {
    &&& c.source_path@ == e.resolved_path@
    &&& c.dest_name@ == spec_dest_name(id, e.basename@)
}

/// The metadata record of one accepted dataset.
pub struct ActorRecord {
    pub id: usize,
    pub name: Vec<u8>,
    pub vocoder_tag: Vec<u8>,
    pub total_duration_ms: u128,
}

/// The merge context: the next sequence id to assign, the two merged
/// manifests under construction, the clip copies owed, and the metadata
/// records of the accepted datasets, in acceptance order.
pub struct MergeContext {
    pub next_id: usize,
    pub train_out: Vec<u8>,
    pub val_out: Vec<u8>,
    pub copies: Vec<CopyJob>,
    pub actors: Vec<ActorRecord>,
}

impl MergeContext {
    /// Sequence ids are assigned 0-based and contiguously: the i-th accepted
    /// dataset's record carries id i, and the next id to assign equals the
    /// number accepted so far.
    pub open spec fn wf(self) -> bool {
        &&& self.next_id == self.actors@.len()
        &&& forall|i: int| 0 <= i < self.actors@.len() ==> #[trigger] self.actors@[i].id == i
    }

    /// An empty context: nothing accepted, nothing emitted.
    pub fn new() -> (r: MergeContext)
        ensures
            r.wf(),
            r.next_id == 0,
            r.train_out@ == Seq::<u8>::empty(),
            r.val_out@ == Seq::<u8>::empty(),
            r.copies@ == Seq::<CopyJob>::empty(),
            r.actors@ == Seq::<ActorRecord>::empty(),
    {
        let r = MergeContext {
            next_id: 0,
            train_out: Vec::new(),
            val_out: Vec::new(),
            copies: Vec::new(),
            actors: Vec::new(),
        };
        proof {
            assert(r.copies@ =~= Seq::<CopyJob>::empty());
            assert(r.actors@ =~= Seq::<ActorRecord>::empty());
        }
        r
    }

    /// What admitting dataset `d` into context `o` leaves behind in `n`: the
    /// dataset takes sequence id `o.next_id`; its merged lines are appended
    /// to the two manifests; one copy job per entry is appended, validation
    /// entries first; and its metadata record is appended with that id.
    pub open spec fn admit_post(o: MergeContext, n: MergeContext, d: DatasetData) -> bool {
        let id = o.next_id as int;
        let nv = d.val_entries@.len() as int;
        let nt = d.train_entries@.len() as int;
        let nc = o.copies@.len() as int;
        &&& n.next_id == o.next_id + 1
        &&& n.train_out@ == o.train_out@ + spec_lines_block(id, d.train_entries@)
        &&& n.val_out@ == o.val_out@ + spec_lines_block(id, d.val_entries@)
        &&& n.copies@.len() == nc + nv + nt
        &&& (forall|k: int| 0 <= k < nc ==> n.copies@[k] == o.copies@[k])
        &&& (forall|j: int|
            0 <= j < nv ==> copy_job_matches(#[trigger] n.copies@[nc + j], id, d.val_entries@[j]))
        &&& (forall|j: int|
            0 <= j < nt ==> copy_job_matches(
                #[trigger] n.copies@[nc + nv + j],
                id,
                d.train_entries@[j],
            ))
        &&& n.actors@.len() == o.actors@.len() + 1
        &&& (forall|k: int| 0 <= k < o.actors@.len() ==> n.actors@[k] == o.actors@[k])
        &&& n.actors@.last().id == o.next_id
        &&& n.actors@.last().name@ == d.name@
        &&& n.actors@.last().vocoder_tag@ == spec_vocoder_tag()
        &&& n.actors@.last().total_duration_ms == d.total_duration_ms
    }

    /// Admits an accepted dataset: assigns it the next sequence id, emits
    /// its merged manifest lines, schedules its clip copies (validation
    /// entries first, as the write phase copies them), and records its
    /// metadata.
    #[verifier::loop_isolation(false)]
    pub fn admit_dataset(&mut self, d: DatasetData)
        requires
            old(self).wf(),
            old(self).next_id < usize::MAX,
        ensures
            final(self).wf(),
            MergeContext::admit_post(*old(self), *final(self), d),
    {
        let id = self.next_id;
        let gid: Ghost<int> = Ghost(id as int);
        let id_dec = format_usize(id);
        append_lines_block(&mut self.train_out, &id_dec, &d.train_entries, gid);
        append_lines_block(&mut self.val_out, &id_dec, &d.val_entries, gid);
        let ghost train_done = self.train_out@;
        let ghost val_done = self.val_out@;
        let ghost actors_before = self.actors@;
        let ghost copies_before = self.copies@;
        let mut j: usize = 0;
        while j < d.val_entries.len()
            invariant
                self.next_id == id,
                self.train_out@ == train_done,
                self.val_out@ == val_done,
                self.actors@ == actors_before,
                id_dec@ == spec_decimal(gid@ as nat),
                j <= d.val_entries@.len(),
                self.copies@.len() == copies_before.len() + j,
                forall|k: int| 0 <= k < copies_before.len() ==> self.copies@[k] == copies_before[k],
                forall|k: int|
                    0 <= k < j ==> copy_job_matches(
                        #[trigger] self.copies@[copies_before.len() + k],
                        gid@,
                        d.val_entries@[k],
                    ),
            decreases d.val_entries@.len() - j,
        {
            let e = &d.val_entries[j];
            let job = CopyJob {
                source_path: copy_range(&e.resolved_path, 0, e.resolved_path.len()),
                dest_name: dest_name(&id_dec, &e.basename, gid),
            };
            proof {
                assert(e.resolved_path@.subrange(0, e.resolved_path@.len() as int)
                    =~= e.resolved_path@);
            }
            self.copies.push(job);
            j = j + 1;
        }
        let ghost copies_mid = self.copies@;
        proof {
            assert(forall|m: int|
                0 <= m < d.val_entries@.len() ==> copy_job_matches(
                    #[trigger] copies_mid[copies_before.len() + m],
                    gid@,
                    d.val_entries@[m],
                ));
        }
        let mut k: usize = 0;
        while k < d.train_entries.len()
            invariant
                self.next_id == id,
                self.train_out@ == train_done,
                self.val_out@ == val_done,
                self.actors@ == actors_before,
                id_dec@ == spec_decimal(gid@ as nat),
                k <= d.train_entries@.len(),
                self.copies@.len() == copies_mid.len() + k,
                forall|m: int| 0 <= m < copies_mid.len() ==> self.copies@[m] == copies_mid[m],
                forall|m: int|
                    0 <= m < k ==> copy_job_matches(
                        #[trigger] self.copies@[copies_mid.len() + m],
                        gid@,
                        d.train_entries@[m],
                    ),
            decreases d.train_entries@.len() - k,
        {
            let e = &d.train_entries[k];
            let job = CopyJob {
                source_path: copy_range(&e.resolved_path, 0, e.resolved_path.len()),
                dest_name: dest_name(&id_dec, &e.basename, gid),
            };
            proof {
                assert(e.resolved_path@.subrange(0, e.resolved_path@.len() as int)
                    =~= e.resolved_path@);
            }
            self.copies.push(job);
            k = k + 1;
        }
        proof {
            assert forall|m: int| 0 <= m < d.val_entries@.len() implies copy_job_matches(
                #[trigger] self.copies@[copies_before.len() + m],
                gid@,
                d.val_entries@[m],
            ) by {
                assert(self.copies@[copies_before.len() + m] == copies_mid[copies_before.len()
                    + m]);
            }
        }
        let record = ActorRecord {
            id,
            name: d.name,
            vocoder_tag: vocoder_tag(),
            total_duration_ms: d.total_duration_ms,
        };
        self.actors.push(record);
        self.next_id = id + 1;
    }
}

/// Sequence ids are contiguous: in a well-formed context the i-th accepted
/// dataset's metadata record carries id `i`, 0-based in acceptance order,
/// and the next id to assign equals the number accepted so far. `new` makes
/// a well-formed context and `admit_dataset` keeps it so, hence this holds
/// of every context they produce.
pub proof fn lemma_sequence_ids_contiguous(ctx: MergeContext)
    requires
        ctx.wf(),
    ensures
        ctx.next_id == ctx.actors@.len(),
        forall|i: int| 0 <= i < ctx.actors@.len() ==> #[trigger] ctx.actors@[i].id == i,
{
}

/// Round trip, for one admission: the merged manifest line of each entry of
/// the admitted dataset names the pool file `<id>_<basename>` under `wavs/`,
/// repeats the dataset's own sequence id as its third field, and the copy
/// plan of the same admission holds a job whose destination is exactly that
/// pool name and whose source is the entry's resolved path. `train` selects
/// the training or the validation entries.
pub proof fn lemma_merged_lines_reference_copies(
    o: MergeContext,
    n: MergeContext,
    d: DatasetData,
    train: bool,
    i: int,
)
    requires
        MergeContext::admit_post(o, n, d),
        train ==> 0 <= i < d.train_entries@.len(),
        !train ==> 0 <= i < d.val_entries@.len(),
    ensures
        ({
            let e = if train {
                d.train_entries@[i]
            } else {
                d.val_entries@[i]
            };
            let id = o.next_id as int;
            let dest = spec_dest_name(id, e.basename@);
            &&& spec_merged_line(id, e) == wavs_prefix() + dest + seq![124u8] + e.text@
                + seq![124u8] + spec_decimal(id as nat) + seq![10u8]
            &&& exists|c: int|
                0 <= c < n.copies@.len() && (#[trigger] n.copies@[c]).dest_name@ == dest
                    && n.copies@[c].source_path@ == e.resolved_path@
        }),
{
    let e = if train {
        d.train_entries@[i]
    } else {
        d.val_entries@[i]
    };
    let id = o.next_id as int;
    let c = if train {
        o.copies@.len() + d.val_entries@.len() + i
    } else {
        o.copies@.len() + i
    };
    assert(copy_job_matches(n.copies@[c], id, e));
    assert(0 <= c < n.copies@.len() && n.copies@[c].dest_name@ == spec_dest_name(id, e.basename@)
        && n.copies@[c].source_path@ == e.resolved_path@);
}

/// The merged manifest block of an admission holds each entry's line whole:
/// the line of the i-th entry stands in the block as a contiguous segment.
pub proof fn lemma_block_contains_line(id: int, es: Seq<LineEntry>, i: int)
    requires
        0 <= i < es.len(),
    ensures
        exists|a: int|
            0 <= a && a + spec_merged_line(id, es[i]).len() <= spec_lines_block(id, es).len()
                && #[trigger] spec_lines_block(id, es).subrange(
                a,
                a + spec_merged_line(id, es[i]).len(),
            ) == spec_merged_line(id, es[i]),
    decreases es.len(),
{
    let line = spec_merged_line(id, es[i]);
    let block = spec_lines_block(id, es);
    if i == es.len() - 1 {
        let front = spec_lines_block(id, es.drop_last());
        let a = front.len() as int;
        assert(es.last() == es[i]);
        assert(block.subrange(a, a + line.len()) =~= line);
        assert(0 <= a && a + line.len() <= block.len() && block.subrange(a, a + line.len())
            == line);
    } else {
        lemma_block_contains_line(id, es.drop_last(), i);
        let front = spec_lines_block(id, es.drop_last());
        assert(es.drop_last()[i] == es[i]);
        let a = choose|a: int|
            0 <= a && a + line.len() <= front.len() && #[trigger] front.subrange(
                a,
                a + line.len(),
            ) == line;
        assert(block.subrange(a, a + line.len()) =~= front.subrange(a, a + line.len()));
        assert(0 <= a && a + line.len() <= block.len() && block.subrange(a, a + line.len())
            == line);
    }
}

} // verus!
