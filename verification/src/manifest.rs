use vstd::prelude::*;

use crate::bytes::{
    copy_range, find_byte, first_index_of, lemma_first_index_of, lemma_first_index_of_absent,
    lemma_first_index_of_unique,
};

verus! {

pub const LINE_FEED: u8 = 10;

pub const CARRIAGE_RETURN: u8 = 13;

pub const FIELD_DELIMITER: u8 = 124;

/// A line with a trailing carriage return keeps everything before it.
pub open spec fn strip_cr(l: Seq<u8>) -> Seq<u8> {
    if l.len() > 0 && l[l.len() - 1] == CARRIAGE_RETURN {
        l.drop_last()
    } else {
        l
    }
}

/// The lines of a manifest file: segments between line feeds, each with a
/// trailing carriage return removed; a final line feed closes the last line
/// rather than opening an empty one.
pub open spec fn spec_lines(c: Seq<u8>) -> Seq<Seq<u8>>
    decreases c.len(),
    via spec_lines_decreases
{
    if c.len() == 0 {
        seq![]
    } else {
        match first_index_of(c, LINE_FEED) {
            None => seq![strip_cr(c)],
            Some(i) => seq![strip_cr(c.take(i))] + spec_lines(c.skip(i + 1)),
        }
    }
}

#[via_fn]
proof fn spec_lines_decreases(c: Seq<u8>) {
    lemma_first_index_of(c, LINE_FEED);
}

/// Splits one manifest line at its delimiters: the clip reference stands
/// before the first `|`, the transcript text between the first and the second
/// `|` (anything after a second delimiter is dropped). A line with no
/// delimiter at all does not parse.
pub open spec fn spec_parse_line(l: Seq<u8>) -> Option<(Seq<u8>, Seq<u8>)> {
    match first_index_of(l, FIELD_DELIMITER) {
        None => None,
        Some(i) => {
            let rest = l.skip(i + 1);
            let text = match first_index_of(rest, FIELD_DELIMITER) {
                None => rest,
                Some(j) => rest.take(j),
            };
            Some((l.take(i), text))
        },
    }
}

/// One parsed manifest row: the clip reference as written, and the transcript
/// text.
#[derive(Debug)]
pub struct RawEntry {
    pub source_ref: Vec<u8>,
    pub text: Vec<u8>,
}

impl RawEntry {
    /// The pair of field views this entry holds.
    pub open spec fn parsed(self) -> (Seq<u8>, Seq<u8>) {
        (self.source_ref@, self.text@)
    }
}

/// Splits a manifest file into its lines.
pub fn split_lines(content: &Vec<u8>) -> (r: Vec<Vec<u8>>)
    ensures
        r.deep_view() == spec_lines(content@),
{
    let mut r: Vec<Vec<u8>> = Vec::new();
    let mut pos: usize = 0;
    proof {
        assert(content@.skip(0) =~= content@);
        assert(r.deep_view() + spec_lines(content@) =~~= spec_lines(content@));
    }
    while pos < content.len()
        invariant
            pos <= content@.len(),
            r.deep_view() + spec_lines(content@.skip(pos as int)) == spec_lines(content@),
        decreases content@.len() - pos,
    {
        let ghost tail = content@.skip(pos as int);
        let nl = find_byte(content, pos, LINE_FEED);
        let end: usize = match nl {
            Some(i) => i,
            None => content.len(),
        };
        proof {
            match nl {
                Some(i) => {
                    assert(tail[i - pos] == content@[i as int]);
                    assert(forall|k: int| 0 <= k < i - pos ==> tail[k] == content@[k + pos]);
                    lemma_first_index_of_unique(tail, LINE_FEED, i - pos);
                },
                None => {
                    assert(forall|k: int|
                        0 <= k < tail.len() ==> tail[k] == content@[k + pos] && content@[k + pos]
                            != LINE_FEED);
                    lemma_first_index_of_absent(tail, LINE_FEED);
                },
            }
        }
        let mut line = copy_range(content, pos, end);
        if line.len() > 0 && line[line.len() - 1] == CARRIAGE_RETURN {
            line.pop();
        }
        proof {
            assert(content@.subrange(pos as int, end as int) =~= if nl is Some {
                tail.take(end - pos)
            } else {
                tail
            });
            assert(line@ =~= strip_cr(content@.subrange(pos as int, end as int)));
        }
        let ghost r_before = r.deep_view();
        r.push(line);
        let next_pos: usize = match nl {
            Some(i) => i + 1,
            None => content.len(),
        };
        proof {
            assert(r.deep_view() =~~= r_before.push(line@));
            assert(tail.len() > 0);
            match nl {
                Some(i) => {
                    assert(tail.skip(i - pos + 1) =~= content@.skip(next_pos as int));
                    assert(spec_lines(tail) == seq![line@] + spec_lines(
                        content@.skip(next_pos as int),
                    ));
                },
                None => {
                    assert(content@.skip(next_pos as int) =~= Seq::<u8>::empty());
                    assert(spec_lines(tail) == seq![line@]);
                },
            }
            assert(r_before.push(line@) + spec_lines(content@.skip(next_pos as int)) =~~= r_before
                + spec_lines(tail));
        }
        pos = next_pos;
    }
    proof {
        assert(content@.skip(pos as int) =~= Seq::<u8>::empty());
        assert(r.deep_view() + spec_lines(content@.skip(pos as int)) =~~= r.deep_view());
    }
    r
}

/// Splits one manifest line at its delimiters, as `spec_parse_line` says.
pub fn parse_line(line: &Vec<u8>) -> (r: Option<RawEntry>)
    ensures
        match r {
            Some(e) => spec_parse_line(line@) == Some(e.parsed()),
            None => spec_parse_line(line@) is None,
        },
{
    let n = line.len();
    let first = find_byte(line, 0, FIELD_DELIMITER);
    match first {
        None => {
            proof {
                lemma_first_index_of_absent(line@, FIELD_DELIMITER);
            }
            None
        },
        Some(i) => {
            proof {
                lemma_first_index_of_unique(line@, FIELD_DELIMITER, i as int);
            }
            assert(i < n);
            let source_ref = copy_range(line, 0, i);
            let ghost rest = line@.skip(i + 1);
            let second = find_byte(line, i + 1, FIELD_DELIMITER);
            let end: usize = match second {
                Some(j) => j,
                None => line.len(),
            };
            proof {
                match second {
                    Some(j) => {
                        assert(rest[j - (i + 1)] == line@[j as int]);
                        assert(forall|k: int|
                            0 <= k < j - (i + 1) ==> rest[k] == line@[k + i + 1]);
                        lemma_first_index_of_unique(rest, FIELD_DELIMITER, j - (i + 1));
                    },
                    None => {
                        assert(forall|k: int|
                            0 <= k < rest.len() ==> rest[k] == line@[k + i + 1] && line@[k + i + 1]
                                != FIELD_DELIMITER);
                        lemma_first_index_of_absent(rest, FIELD_DELIMITER);
                    },
                }
            }
            let text = copy_range(line, i + 1, end);
            proof {
                assert(line@.take(i as int) =~= line@.subrange(0, i as int));
                assert(line@.subrange(i + 1, end as int) =~= if second is Some {
                    rest.take(end - (i + 1))
                } else {
                    rest
                });
            }
            Some(RawEntry { source_ref, text })
        },
    }
}

/// Parses the training manifest. The training pass is strict: the first line
/// that does not split into two fields rejects the whole manifest, and the
/// error names that line.
pub fn parse_train_manifest(content: &Vec<u8>) -> (r: Result<Vec<RawEntry>, usize>)
    ensures
        ({
            let lines = spec_lines(content@);
            match r {
                Ok(es) => es@.len() == lines.len() && (forall|i: int|
                    0 <= i < lines.len() ==> spec_parse_line(lines[i]) == Some(es@[i].parsed())),
                Err(i) => i < lines.len() && spec_parse_line(lines[i as int]) is None && (forall|
                    k: int,
                |
                    0 <= k < i ==> spec_parse_line(lines[k]) is Some),
            }
        }),
{
    let lines = split_lines(content);
    let ghost ls = spec_lines(content@);
    let mut es: Vec<RawEntry> = Vec::new();
    let mut i: usize = 0;
    while i < lines.len()
        invariant
            ls == spec_lines(content@),
            lines.deep_view() == ls,
            i <= ls.len(),
            es@.len() == i,
            forall|k: int| 0 <= k < i ==> spec_parse_line(ls[k]) == Some(es@[k].parsed()),
        decreases ls.len() - i,
    {
        assert(lines@[i as int]@ == ls[i as int]);
        match parse_line(&lines[i]) {
            Some(e) => {
                es.push(e);
            },
            None => {
                return Err(i);
            },
        }
        i = i + 1;
    }
    Ok(es)
}

/// The parsed fields of the lines that do split, in order; the validation
/// pass keeps exactly these.
pub open spec fn spec_val_entries(lines: Seq<Seq<u8>>) -> Seq<(Seq<u8>, Seq<u8>)>
    decreases lines.len(),
{
    if lines.len() == 0 {
        seq![]
    } else {
        let front = spec_val_entries(lines.drop_last());
        match spec_parse_line(lines.last()) {
            Some(p) => front.push(p),
            None => front,
        }
    }
}

/// The indices of the lines that do not split; the validation pass skips
/// exactly these.
pub open spec fn spec_val_skipped(lines: Seq<Seq<u8>>) -> Seq<int>
    decreases lines.len(),
{
    if lines.len() == 0 {
        seq![]
    } else {
        let front = spec_val_skipped(lines.drop_last());
        if spec_parse_line(lines.last()) is None {
            front.push(lines.len() - 1)
        } else {
            front
        }
    }
}

/// What the validation-pass parser returns: the entries of the lines that
/// split, and the indices of the lines it skipped.
pub struct ValParse {
    pub entries: Vec<RawEntry>,
    pub skipped: Vec<usize>,
}

/// Parses the validation manifest. The validation pass is line-independent:
/// a line that does not split into two fields is skipped on its own, and
/// every later line is still read.
pub fn parse_val_manifest(content: &Vec<u8>) -> (r: ValParse)
    ensures
        ({
            let lines = spec_lines(content@);
            r.entries@.map_values(|e: RawEntry| e.parsed()) == spec_val_entries(lines)
                && r.skipped@.map_values(|x: usize| x as int) == spec_val_skipped(lines)
        }),
{
    let lines = split_lines(content);
    let ghost ls = spec_lines(content@);
    let mut entries: Vec<RawEntry> = Vec::new();
    let mut skipped: Vec<usize> = Vec::new();
    let mut i: usize = 0;
    proof {
        assert(entries@.map_values(|e: RawEntry| e.parsed()) =~~= spec_val_entries(
            ls.take(0 as int),
        ));
        assert(skipped@.map_values(|x: usize| x as int) =~= spec_val_skipped(ls.take(0 as int)));
    }
    while i < lines.len()
        invariant
            ls == spec_lines(content@),
            lines.deep_view() == ls,
            i <= ls.len(),
            entries@.map_values(|e: RawEntry| e.parsed()) == spec_val_entries(ls.take(i as int)),
            skipped@.map_values(|x: usize| x as int) == spec_val_skipped(ls.take(i as int)),
        decreases ls.len() - i,
    {
        assert(lines@[i as int]@ == ls[i as int]);
        let ghost prefix = ls.take(i as int);
        let ghost next = ls.take(i + 1 as int);
        proof {
            assert(next.drop_last() =~= prefix);
            assert(next.last() == ls[i as int]);
        }
        match parse_line(&lines[i]) {
            Some(e) => {
                entries.push(e);
                proof {
                    assert(entries@.map_values(|e: RawEntry| e.parsed()) =~~= spec_val_entries(
                        next,
                    ));
                }
            },
            None => {
                skipped.push(i);
                proof {
                    assert(skipped@.map_values(|x: usize| x as int) =~= spec_val_skipped(next));
                }
            },
        }
        i = i + 1;
    }
    proof {
        assert(ls.take(ls.len() as int) =~= ls);
    }
    ValParse { entries, skipped }
}

} // verus!
