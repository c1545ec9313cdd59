//! The hierarchical binning scheme that maps genomic intervals to bin ids.
//!
//! A scheme is fixed by `min_shift`, the width in bits of the finest bins,
//! and `depth`, the number of levels above the finest. Level 0 is the single
//! root bin; each level has eight times as many bins as the one above it, and
//! the bins of level `l` cover `2^(min_shift + 3 * (depth - l))` coordinates
//! each. Bin ids number the levels one after another, coarsest first.
//! Coordinates are zero-based and intervals half-open.
use vstd::arithmetic::div_mod::{lemma_basic_div, lemma_div_is_ordered, lemma_multiply_divide_lt};
use vstd::arithmetic::power2::{lemma2_to64, lemma2_to64_rest, lemma_pow2_adds, lemma_pow2_pos, pow2};
use vstd::bits::{lemma_u64_pow2_no_overflow, lemma_u64_shr_is_div};
use vstd::prelude::*;

verus! {

/// Whether `min_shift` and `depth` describe a scheme whose coordinates and
/// bin ids fit in 64 bits.
pub open spec fn valid_scheme(min_shift: nat, depth: nat) -> bool {
    min_shift + 3 * depth <= 63
}

/// One past the largest coordinate that the scheme covers.
pub open spec fn max_coordinate(min_shift: nat, depth: nat) -> nat {
    pow2(min_shift + 3 * depth)
}

/// Whether `[start, end)` is a non-empty interval that the scheme covers.
pub open spec fn valid_interval(start: nat, end: nat, min_shift: nat, depth: nat) -> bool {
    start < end <= max_coordinate(min_shift, depth)
}

/// The number of bits a coordinate is shifted by to find its bin at level `l`.
pub open spec fn level_shift(min_shift: nat, depth: nat, l: nat) -> nat {
    (min_shift + 3 * (depth - l)) as nat
}

/// The number of bins at level `l`.
pub open spec fn level_size(l: nat) -> nat {
    pow2(3 * l)
}

/// The id of the first bin of level `l`: the number of bins at all coarser
/// levels.
pub open spec fn level_offset(l: nat) -> nat
    decreases l,
{
    if l == 0 {
        0
    } else {
        level_offset((l - 1) as nat) + level_size((l - 1) as nat)
    }
}

/// The index, within level `l`, of the bin that holds coordinate `x`.
pub open spec fn level_index(x: nat, min_shift: nat, depth: nat, l: nat) -> nat {
    x / pow2(level_shift(min_shift, depth, l))
}

/// The bin of the finest level among `l, l - 1, ..., 1` whose single bin
/// holds both `start` and `last`; the root bin 0 where none does.
pub open spec fn finest_bin(start: nat, last: nat, min_shift: nat, depth: nat, l: nat) -> nat
    decreases l,
{
    if l == 0 {
        0
    } else if level_index(start, min_shift, depth, l) == level_index(last, min_shift, depth, l) {
        level_offset(l) + level_index(start, min_shift, depth, l)
    } else {
        finest_bin(start, last, min_shift, depth, (l - 1) as nat)
    }
}

/// The bin that a record on `[start, end)` is filed under: the smallest bin
/// that holds the whole interval.
pub open spec fn bin_of(start: nat, end: nat, min_shift: nat, depth: nat) -> nat {
    finest_bin(start, (end - 1) as nat, min_shift, depth, depth)
}

/// The ids of the bins of level `l` that meet `[start, last]`, ascending.
pub open spec fn level_candidates(start: nat, last: nat, min_shift: nat, depth: nat, l: nat) -> Seq<nat> {
    let b = level_index(start, min_shift, depth, l);
    let e = level_index(last, min_shift, depth, l);
    Seq::new((e - b + 1) as nat, |i: int| (level_offset(l) + b + i) as nat)
}

/// The candidates of levels `0..n`, level by level.
pub open spec fn candidates_below(start: nat, last: nat, min_shift: nat, depth: nat, n: nat) -> Seq<nat>
    decreases n,
{
    if n == 0 {
        Seq::empty()
    } else {
        candidates_below(start, last, min_shift, depth, (n - 1) as nat) + level_candidates(
            start,
            last,
            min_shift,
            depth,
            (n - 1) as nat,
        )
    }
}

/// The ids of every bin, at every level, that meets `[start, end)`: the bins
/// that a query on that interval has to look at.
pub open spec fn candidate_bins(start: nat, end: nat, min_shift: nat, depth: nat) -> Seq<nat> {
    candidates_below(start, (end - 1) as nat, min_shift, depth, depth + 1)
}

proof fn lemma_level_size_step(l: nat)
    ensures
        level_size(l + 1) == 8 * level_size(l),
{
    lemma_pow2_adds(3 * l, 3);
    lemma2_to64();
    assert(3 * (l + 1) == 3 * l + 3);
}

/// Every level's offset lies below the size of that level.
proof fn lemma_level_offset_bound(l: nat)
    ensures
        level_offset(l) < level_size(l),
    decreases l,
{
    if l == 0 {
        lemma2_to64();
    } else {
        lemma_level_offset_bound((l - 1) as nat);
        lemma_level_size_step((l - 1) as nat);
    }
}

/// A covered coordinate's index within level `l` is below that level's size.
proof fn lemma_level_index_bound(x: nat, min_shift: nat, depth: nat, l: nat)
    requires
        l <= depth,
        x < max_coordinate(min_shift, depth),
    ensures
        level_index(x, min_shift, depth, l) < level_size(l),
{
    let s = level_shift(min_shift, depth, l);
    assert(s + 3 * l == min_shift + 3 * depth);
    lemma_pow2_adds(s, 3 * l);
    lemma_pow2_pos(s);
    lemma_multiply_divide_lt(x as int, pow2(s) as int, pow2(3 * l) as int);
}

/// A bin id of level `l <= depth` fits in 64 bits.
proof fn lemma_bin_id_bound(l: nat, k: nat, depth: nat)
    requires
        l <= depth,
        3 * depth <= 63,
        k < level_size(l),
    ensures
        level_offset(l) + k <= u64::MAX,
        level_offset(l) + k < level_offset(l + 1),
{
    lemma_level_offset_bound(l);
    lemma_u64_pow2_no_overflow(3 * l);
    assert(pow2(3 * l) <= pow2(63)) by {
        if 3 * l < 63 {
            vstd::arithmetic::power2::lemma_pow2_strictly_increases(3 * l, 63);
        }
    }
    lemma2_to64_rest();
}

/// Returns the bin that a record on `[start, end)` is filed under.
pub fn to_bin(start: u64, end: u64, min_shift: u8, depth: u8) -> (r: u64)
    requires
        valid_scheme(min_shift as nat, depth as nat),
        valid_interval(start as nat, end as nat, min_shift as nat, depth as nat),
    ensures
        r == bin_of(start as nat, end as nat, min_shift as nat, depth as nat),
{
    let ghost ms = min_shift as nat;
    let ghost d = depth as nat;
    let last = end - 1;
    let mut r: u64 = 0;
    let mut l: u8 = 0;
    let mut t: u64 = 0;
    let mut p: u64 = 1;
    let mut s: u8 = min_shift + 3 * depth;
    proof {
        lemma2_to64();
    }
    while l < depth
        invariant
            ms == min_shift as nat,
            d == depth as nat,
            valid_scheme(ms, d),
            valid_interval(start as nat, end as nat, ms, d),
            last == end - 1,
            l <= depth,
            t == level_offset(l as nat),
            p == level_size(l as nat),
            s == level_shift(ms, d, l as nat),
            r == finest_bin(start as nat, last as nat, ms, d, l as nat),
        decreases depth - l,
    {
        proof {
            lemma_pow2_pos(3 * (l as nat + 1));
            lemma_bin_id_bound(l as nat + 1, 0, d);
            lemma_level_size_step(l as nat);
            lemma_u64_pow2_no_overflow(3 * (l as nat + 1));
        }
        t = t + p;
        p = p * 8;
        s = s - 3;
        l = l + 1;
        proof {
            lemma_u64_shr_is_div(start, s as u64);
            lemma_u64_shr_is_div(last, s as u64);
            lemma_level_index_bound(start as nat, ms, d, l as nat);
            lemma_bin_id_bound(l as nat, level_index(start as nat, ms, d, l as nat), d);
        }
        let b = start >> (s as u64);
        if b == last >> (s as u64) {
            r = t + b;
        }
    }
    r
}

/// Returns the ids of every bin that meets `[start, end)`, level by level
/// from the root down, ascending within each level.
pub fn to_candidate_bins(start: u64, end: u64, min_shift: u8, depth: u8) -> (r: Vec<u64>)
    requires
        valid_scheme(min_shift as nat, depth as nat),
        valid_interval(start as nat, end as nat, min_shift as nat, depth as nat),
    ensures
        r@.map_values(|id: u64| id as nat) == candidate_bins(
            start as nat,
            end as nat,
            min_shift as nat,
            depth as nat,
        ),
{
    let ghost ms = min_shift as nat;
    let ghost d = depth as nat;
    let last = end - 1;
    let mut r: Vec<u64> = Vec::new();
    let mut n: u64 = 0;
    let mut t: u64 = 0;
    let mut p: u64 = 1;
    let mut s: u64 = min_shift as u64 + 3 * depth as u64;
    proof {
        lemma2_to64();
        assert(r@.map_values(|id: u64| id as nat) =~= candidates_below(start as nat, last as nat, ms, d, 0));
    }
    while n <= depth as u64
        invariant
            ms == min_shift as nat,
            d == depth as nat,
            valid_scheme(ms, d),
            valid_interval(start as nat, end as nat, ms, d),
            last == end - 1,
            n <= d + 1,
            n <= d ==> t == level_offset(n as nat),
            n <= d ==> p == level_size(n as nat),
            n <= d ==> s == level_shift(ms, d, n as nat),
            r@.map_values(|id: u64| id as nat) == candidates_below(start as nat, last as nat, ms, d, n as nat),
        decreases d + 1 - n,
    {
        let ghost l = n as nat;
        proof {
            lemma_u64_shr_is_div(start, s);
            lemma_u64_shr_is_div(last, s);
            lemma_level_index_bound(last as nat, ms, d, l);
            lemma_pow2_pos(s as nat);
            lemma_div_is_ordered(start as int, last as int, pow2(s as nat) as int);
        }
        let b = start >> s;
        let e = last >> s;
        let ghost prefix = candidates_below(start as nat, last as nat, ms, d, l);
        let ghost level = level_candidates(start as nat, last as nat, ms, d, l);
        let mut k = b;
        proof {
            assert(level.take(0) =~= Seq::<nat>::empty());
            assert(prefix + level.take(0) =~= prefix);
        }
        while k <= e
            invariant
                b <= k <= e + 1,
                e < level_size(l),
                l <= d,
                3 * d <= 63,
                t == level_offset(l),
                b == level_index(start as nat, ms, d, l),
                e == level_index(last as nat, ms, d, l),
                level == level_candidates(start as nat, last as nat, ms, d, l),
                r@.map_values(|id: u64| id as nat) == prefix + level.take(k - b),
            decreases e + 1 - k,
        {
            proof {
                lemma_bin_id_bound(l, k as nat, d);
                lemma_u64_pow2_no_overflow(3 * l);
            }
            let ghost before = r@;
            r.push(t + k);
            proof {
                assert(level.take(k + 1 - b) =~= level.take(k - b).push(level[k - b]));
                assert(r@.map_values(|id: u64| id as nat) =~= before.map_values(|id: u64| id as nat).push((t + k) as nat));
                assert(r@.map_values(|id: u64| id as nat) =~= prefix + level.take(k + 1 - b));
            }
            k = k + 1;
        }
        proof {
            assert(level.take(e + 1 - b) =~= level);
        }
        n = n + 1;
        if n <= depth as u64 {
            proof {
                lemma_level_size_step(l);
                lemma_u64_pow2_no_overflow(3 * (l + 1));
                lemma_pow2_pos(3 * (l + 1));
                lemma_bin_id_bound(l + 1, 0, d);
            }
            t = t + p;
            p = p * 8;
            s = s - 3;
        }
    }
    r
}

/// A record's bin is always among the candidates of a query over the
/// record's own interval, so a query never misses a record that it covers.
pub proof fn lemma_bin_is_candidate(start: nat, end: nat, min_shift: nat, depth: nat)
    requires
        valid_scheme(min_shift, depth),
        valid_interval(start, end, min_shift, depth),
    ensures
        candidate_bins(start, end, min_shift, depth).contains(bin_of(start, end, min_shift, depth)),
{
    lemma_finest_bin_is_candidate(start, (end - 1) as nat, min_shift, depth, depth);
}

proof fn lemma_finest_bin_is_candidate(start: nat, last: nat, min_shift: nat, depth: nat, l: nat)
    requires
        valid_scheme(min_shift, depth),
        start <= last < max_coordinate(min_shift, depth),
        l <= depth,
    ensures
        candidates_below(start, last, min_shift, depth, l + 1).contains(
            finest_bin(start, last, min_shift, depth, l),
        ),
    decreases l,
{
    let prefix = candidates_below(start, last, min_shift, depth, l);
    let level = level_candidates(start, last, min_shift, depth, l);
    let all = candidates_below(start, last, min_shift, depth, l + 1);
    assert(all == prefix + level);
    let s = level_shift(min_shift, depth, l);
    lemma_pow2_pos(s);
    lemma_div_is_ordered(start as int, last as int, pow2(s) as int);
    if l == 0 {
        lemma_basic_div(last as int, pow2(s) as int);
        lemma_basic_div(start as int, pow2(s) as int);
        assert(all[prefix.len() as int] == level[0]);
    } else if level_index(start, min_shift, depth, l) == level_index(last, min_shift, depth, l) {
        assert(all[prefix.len() as int] == level[0]);
    } else {
        lemma_finest_bin_is_candidate(start, last, min_shift, depth, (l - 1) as nat);
        let i = choose|i: int| 0 <= i < prefix.len() && prefix[i] == finest_bin(start, last, min_shift, depth, (l - 1) as nat);
        assert(all[i] == prefix[i]);
    }
}

proof fn lemma_finest_bin_bound(start: nat, last: nat, min_shift: nat, depth: nat, l: nat)
    requires
        l <= depth,
        last < max_coordinate(min_shift, depth),
        start <= last,
    ensures
        finest_bin(start, last, min_shift, depth, l) < level_offset(l + 1),
    decreases l,
{
    if l == 0 {
        lemma2_to64();
    } else if level_index(start, min_shift, depth, l) == level_index(last, min_shift, depth, l) {
        lemma_level_index_bound(start, min_shift, depth, l);
    } else {
        lemma_finest_bin_bound(start, last, min_shift, depth, (l - 1) as nat);
    }
}

/// Filing depends on nothing but the interval and the scheme: equal
/// arguments give the same bin, and that bin is one of the scheme's bins.
pub proof fn lemma_bin_is_deterministic(
    start: nat,
    end: nat,
    other_start: nat,
    other_end: nat,
    min_shift: nat,
    depth: nat,
)
    requires
        valid_interval(start, end, min_shift, depth),
        start == other_start,
        end == other_end,
    ensures
        bin_of(start, end, min_shift, depth) == bin_of(other_start, other_end, min_shift, depth),
        bin_of(start, end, min_shift, depth) < level_offset(depth + 1),
{
    lemma_finest_bin_bound(start, (end - 1) as nat, min_shift, depth, depth);
}

proof fn lemma_concat_contains(a: Seq<nat>, b: Seq<nat>, x: nat)
    ensures
        (a + b).contains(x) <==> a.contains(x) || b.contains(x),
{
    if (a + b).contains(x) {
        let i = choose|i: int| 0 <= i < (a + b).len() && (a + b)[i] == x;
        if i < a.len() {
            assert(a[i] == x);
        } else {
            assert(b[i - a.len()] == x);
        }
    }
    if a.contains(x) {
        let i = choose|i: int| 0 <= i < a.len() && a[i] == x;
        assert((a + b)[i] == x);
    }
    if b.contains(x) {
        let i = choose|i: int| 0 <= i < b.len() && b[i] == x;
        assert((a + b)[a.len() + i] == x);
    }
}

proof fn lemma_level_contains(start: nat, last: nat, min_shift: nat, depth: nat, l: nat, x: nat)
    requires
        start <= last,
    ensures
        level_candidates(start, last, min_shift, depth, l).contains(x) <==> level_offset(l)
            + level_index(start, min_shift, depth, l) <= x <= level_offset(l) + level_index(
            last,
            min_shift,
            depth,
            l,
        ),
{
    let s = level_shift(min_shift, depth, l);
    lemma_pow2_pos(s);
    lemma_div_is_ordered(start as int, last as int, pow2(s) as int);
    let level = level_candidates(start, last, min_shift, depth, l);
    let lo = level_offset(l) + level_index(start, min_shift, depth, l);
    if lo <= x <= level_offset(l) + level_index(last, min_shift, depth, l) {
        assert(level[x - lo] == x);
    }
}

/// Returns whether bin `id` is among the candidates of a query on
/// `[start, end)`, checking each level's range of bins in turn.
pub fn is_candidate(id: u64, start: u64, end: u64, min_shift: u8, depth: u8) -> (r: bool)
    requires
        valid_scheme(min_shift as nat, depth as nat),
        valid_interval(start as nat, end as nat, min_shift as nat, depth as nat),
    ensures
        r == candidate_bins(start as nat, end as nat, min_shift as nat, depth as nat).contains(
            id as nat,
        ),
{
    let ghost ms = min_shift as nat;
    let ghost d = depth as nat;
    let last = end - 1;
    let mut found = false;
    let mut n: u64 = 0;
    let mut t: u64 = 0;
    let mut p: u64 = 1;
    let mut s: u64 = min_shift as u64 + 3 * depth as u64;
    proof {
        lemma2_to64();
    }
    while n <= depth as u64
        invariant
            ms == min_shift as nat,
            d == depth as nat,
            valid_scheme(ms, d),
            valid_interval(start as nat, end as nat, ms, d),
            last == end - 1,
            n <= d + 1,
            n <= d ==> t == level_offset(n as nat),
            n <= d ==> p == level_size(n as nat),
            n <= d ==> s == level_shift(ms, d, n as nat),
            found == candidates_below(start as nat, last as nat, ms, d, n as nat).contains(id as nat),
        decreases d + 1 - n,
    {
        let ghost l = n as nat;
        proof {
            lemma_u64_shr_is_div(start, s);
            lemma_u64_shr_is_div(last, s);
            lemma_level_index_bound(last as nat, ms, d, l);
            lemma_bin_id_bound(l, level_index(last as nat, ms, d, l), d);
            lemma_level_contains(start as nat, last as nat, ms, d, l, id as nat);
            lemma_concat_contains(
                candidates_below(start as nat, last as nat, ms, d, l),
                level_candidates(start as nat, last as nat, ms, d, l),
                id as nat,
            );
            lemma_pow2_pos(s as nat);
            lemma_div_is_ordered(start as int, last as int, pow2(s as nat) as int);
        }
        let b = start >> s;
        let e = last >> s;
        if t + b <= id && id <= t + e {
            found = true;
        }
        n = n + 1;
        if n <= depth as u64 {
            proof {
                lemma_level_size_step(l);
                lemma_u64_pow2_no_overflow(3 * (l + 1));
                lemma_pow2_pos(3 * (l + 1));
                lemma_bin_id_bound(l + 1, 0, d);
            }
            t = t + p;
            p = p * 8;
            s = s - 3;
        }
    }
    found
}

} // verus!
