use vstd::prelude::*;

verus! {

/// Index of the first occurrence of byte `b` in `s`, if any.
pub open spec fn first_index_of(s: Seq<u8>, b: u8) -> Option<int>
    decreases s.len(),
{
    if s.len() == 0 {
        None
    } else if s[0] == b {
        Some(0)
    } else {
        match first_index_of(s.skip(1), b) {
            None => None,
            Some(j) => Some(j + 1),
        }
    }
}

/// What `first_index_of` returns: the index it names holds `b`, nothing
/// before it does, and `None` means `b` does not occur at all.
pub proof fn lemma_first_index_of(s: Seq<u8>, b: u8)
    ensures
        match first_index_of(s, b) {
            Some(i) => 0 <= i < s.len() && s[i] == b && (forall|k: int| 0 <= k < i ==> s[k] != b),
            None => forall|k: int| 0 <= k < s.len() ==> s[k] != b,
        },
    decreases s.len(),
{
    if s.len() == 0 {
    } else if s[0] == b {
    } else {
        lemma_first_index_of(s.skip(1), b);
        match first_index_of(s.skip(1), b) {
            None => {
                assert forall|k: int| 0 <= k < s.len() implies s[k] != b by {
                    if k >= 1 {
                        assert(s.skip(1)[k - 1] != b);
                    }
                }
            },
            Some(j) => {
                assert(s[j + 1] == s.skip(1)[j]);
                assert forall|k: int| 0 <= k < j + 1 implies s[k] != b by {
                    if k >= 1 {
                        assert(s.skip(1)[k - 1] != b);
                    }
                }
            },
        }
    }
}

/// An index that holds `b` with nothing before it determines `first_index_of`.
pub proof fn lemma_first_index_of_unique(s: Seq<u8>, b: u8, i: int)
    requires
        0 <= i < s.len(),
        s[i] == b,
        forall|k: int| 0 <= k < i ==> s[k] != b,
    ensures
        first_index_of(s, b) == Some(i),
{
    lemma_first_index_of(s, b);
    match first_index_of(s, b) {
        None => {
            assert(s[i] != b);
        },
        Some(j) => {
            if j < i {
                assert(s[j] != b);
            }
            if i < j {
                assert(s[i] != b);
            }
        },
    }
}

/// When no index holds `b`, `first_index_of` is `None`.
pub proof fn lemma_first_index_of_absent(s: Seq<u8>, b: u8)
    requires
        forall|k: int| 0 <= k < s.len() ==> s[k] != b,
    ensures
        first_index_of(s, b) is None,
{
    lemma_first_index_of(s, b);
    match first_index_of(s, b) {
        None => {},
        Some(j) => {
            assert(s[j] != b);
        },
    }
}

/// Finds the first occurrence of `b` in `v` at or after `start`.
pub fn find_byte(v: &Vec<u8>, start: usize, b: u8) -> (r: Option<usize>)
    requires
        start <= v@.len(),
    ensures
        match r {
            Some(i) => start <= i < v@.len() && v@[i as int] == b && (forall|k: int|
                start <= k < i ==> v@[k] != b),
            None => forall|k: int| start <= k < v@.len() ==> v@[k] != b,
        },
{
    let mut i: usize = start;
    while i < v.len()
        invariant
            start <= i <= v@.len(),
            forall|k: int| start <= k < i ==> v@[k] != b,
        decreases v@.len() - i,
    {
        if v[i] == b {
            return Some(i);
        }
        i = i + 1;
    }
    None
}

/// Copies the bytes of `v` from index `a` (inclusive) to `b` (exclusive).
pub fn copy_range(v: &Vec<u8>, a: usize, b: usize) -> (r: Vec<u8>)
    requires
        a <= b <= v@.len(),
    ensures
        r@ == v@.subrange(a as int, b as int),
{
    let mut r: Vec<u8> = Vec::new();
    let mut i: usize = a;
    while i < b
        invariant
            a <= i <= b <= v@.len(),
            r@ == v@.subrange(a as int, i as int),
        decreases b - i,
    {
        r.push(v[i]);
        assert(v@.subrange(a as int, i as int).push(v@[i as int]) =~= v@.subrange(
            a as int,
            i + 1 as int,
        ));
        i = i + 1;
    }
    r
}

/// Appends every byte of `src` to `out`, in order.
pub fn append_bytes(out: &mut Vec<u8>, src: &Vec<u8>)
    ensures
        final(out)@ == old(out)@ + src@,
{
    let mut i: usize = 0;
    while i < src.len()
        invariant
            i <= src@.len(),
            out@ == old(out)@ + src@.subrange(0, i as int),
        decreases src@.len() - i,
    {
        out.push(src[i]);
        assert(old(out)@ + src@.subrange(0, i + 1 as int) =~= (old(out)@ + src@.subrange(
            0,
            i as int,
        )).push(src@[i as int]));
        i = i + 1;
    }
    assert(src@.subrange(0, src@.len() as int) =~= src@);
}

/// The decimal digits of `n`, most significant first.
pub open spec fn spec_decimal(n: nat) -> Seq<u8>
    decreases n,
{
    if n < 10 {
        seq![(48 + n) as u8]
    } else {
        spec_decimal(n / 10).push((48 + n % 10) as u8)
    }
}

/// Formats `n` as its decimal digits.
pub fn format_usize(n: usize) -> (r: Vec<u8>)
    ensures
        r@ == spec_decimal(n as nat),
    decreases n,
{
    if n < 10 {
        let mut r: Vec<u8> = Vec::new();
        r.push(48 + (n as u8));
        assert(r@ =~= seq![(48 + n as nat) as u8]);
        r
    } else {
        let mut r = format_usize(n / 10);
        r.push(48 + ((n % 10) as u8));
        r
    }
}

} // verus!
