use vstd::prelude::*;

verus! {

/// Which extreme values sine and cosine reach over an interval of angles,
/// found from the multiples of π/2 that the interval contains.
#[derive(Clone, Copy, Debug, PartialEq, Eq)]
pub struct QuarterTurnHits {
    /// The interval holds a multiple 4m·(π/2), where cos = 1.
    pub cos_max: bool,
    /// The interval holds a multiple (4m+1)·(π/2), where sin = 1.
    pub sin_max: bool,
    /// The interval holds a multiple (4m+2)·(π/2), where cos = −1.
    pub cos_min: bool,
    /// The interval holds a multiple (4m+3)·(π/2), where sin = −1.
    pub sin_min: bool,
}

/// The direction, among the four axis directions, of `k` quarter turns.
pub open spec fn quarter_residue(k: int) -> int {
    k % 4
}

/// The axis direction of `k` quarter turns is the Euclidean remainder of `k`
/// on division by 4: 0 for cos = 1, 1 for sin = 1, 2 for cos = −1, 3 for sin = −1.
pub proof fn lemma_quarter_residue_is_remainder(k: int)
    ensures
        quarter_residue(k) == k % 4,
        0 <= quarter_residue(k) < 4,
        quarter_residue(k + 4) == quarter_residue(k),
{
}

/// An interval holding the single multiple `k` of π/2 passes exactly through
/// the direction of `k`: cos = 1 when k ≡ 0, sin = 1 when k ≡ 1, cos = −1 when
/// k ≡ 2 and sin = −1 when k ≡ 3 (mod 4).
pub proof fn lemma_single_quarter_turn(k: int)
    ensures
        holds_residue(k, k, 0) <==> k % 4 == 0,
        holds_residue(k, k, 1) <==> k % 4 == 1,
        holds_residue(k, k, 2) <==> k % 4 == 2,
        holds_residue(k, k, 3) <==> k % 4 == 3,
{
    assert(k <= k && quarter_residue(k) == k % 4);
}

/// Some integer `k` with `start <= k <= end` leaves remainder `residue` on division by 4.
pub open spec fn holds_residue(start: int, end: int, residue: int) -> bool {
    exists|k: int| start <= k <= end && #[trigger] quarter_residue(k) == residue
}

/// Given the first and last multiples of π/2 inside an interval of angles,
/// `start` and `end` (counted in quarter turns), tells which of the four axis
/// directions the interval passes through. Only the first four multiples need
/// to be looked at, since four consecutive ones cover every direction.
pub fn quarter_turn_hits(start: i32, end: i32) -> (r: QuarterTurnHits)
    requires
        start <= i32::MAX - 3,
    ensures
        r.cos_max <==> holds_residue(start as int, end as int, 0),
        r.sin_max <==> holds_residue(start as int, end as int, 1),
        r.cos_min <==> holds_residue(start as int, end as int, 2),
        r.sin_min <==> holds_residue(start as int, end as int, 3),
        start == end ==> (r.cos_max <==> start % 4 == 0),
        start == end ==> (r.sin_max <==> start % 4 == 1),
        start == end ==> (r.cos_min <==> start % 4 == 2),
        start == end ==> (r.sin_min <==> start % 4 == 3),
{
    let mut hits = QuarterTurnHits { cos_max: false, sin_max: false, cos_min: false, sin_min: false };
    let last: i64 = if end < start + 3 { end as i64 } else { start as i64 + 3 };
    let mut k: i64 = start as i64;
    while k <= last
        invariant
            start <= k <= start + 4,
            last <= start + 3,
            k <= last + 1 || k == start,
            hits.cos_max <==> holds_residue(start as int, k - 1, 0),
            hits.sin_max <==> holds_residue(start as int, k - 1, 1),
            hits.cos_min <==> holds_residue(start as int, k - 1, 2),
            hits.sin_min <==> holds_residue(start as int, k - 1, 3),
        decreases last + 1 - k,
    {
        let residue = k.checked_rem_euclid(4);
        proof {
            assert(residue == Some((k % 4) as i64));
            lemma_extend_by_one(start as int, k as int);
        }
        match residue {
            Some(0) => hits.cos_max = true,
            Some(1) => hits.sin_max = true,
            Some(2) => hits.cos_min = true,
            _ => hits.sin_min = true,
        }
        k = k + 1;
    }
    proof {
        if end >= start + 3 {
            lemma_four_cover(start as int, end as int);
        }
        lemma_single_quarter_turn(start as int);
    }
    hits
}

proof fn lemma_extend_by_one(start: int, k: int)
    requires
        start <= k,
    ensures
        forall|c: int|
            #![trigger holds_residue(start, k, c)]
            holds_residue(start, k, c) <==> (holds_residue(start, k - 1, c) || quarter_residue(k) == c),
{
    assert forall|c: int|
        #![trigger holds_residue(start, k, c)]
        holds_residue(start, k, c) implies (holds_residue(start, k - 1, c) || quarter_residue(k) == c) by {
        let j = choose|j: int| start <= j <= k && quarter_residue(j) == c;
        if j < k {
            assert(start <= j <= k - 1 && quarter_residue(j) == c);
        }
    }
    assert forall|c: int|
        #![trigger holds_residue(start, k, c)]
        (holds_residue(start, k - 1, c) || quarter_residue(k) == c) implies holds_residue(start, k, c) by {
        if quarter_residue(k) == c {
            assert(start <= k <= k && quarter_residue(k) == c);
        } else {
            let j = choose|j: int| start <= j <= k - 1 && quarter_residue(j) == c;
            assert(start <= j <= k && quarter_residue(j) == c);
        }
    }
}

/// An interval holding at least four consecutive multiples of π/2 passes
/// through all four axis directions.
pub proof fn lemma_full_turn_hits_every_direction(start: int, end: int)
    requires
        start + 3 <= end,
    ensures
        holds_residue(start, end, 0),
        holds_residue(start, end, 1),
        holds_residue(start, end, 2),
        holds_residue(start, end, 3),
{
    lemma_four_cover(start, end);
    lemma_residue_in_first_four(start, 0);
    lemma_residue_in_first_four(start, 1);
    lemma_residue_in_first_four(start, 2);
    lemma_residue_in_first_four(start, 3);
}

/// Among four consecutive integers one leaves remainder `c` modulo 4.
proof fn lemma_residue_in_first_four(start: int, c: int)
    requires
        0 <= c < 4,
    ensures
        holds_residue(start, start + 3, c),
{
    let s = start % 4;
    let w = start + (c - s + 4) % 4;
    assert(quarter_residue(w) == c) by (nonlinear_arith)
        requires
            w == start + (c - s + 4) % 4,
            s == start % 4,
            0 <= c < 4,
    ;
    assert(start <= w <= start + 3);
}

/// Four consecutive integers leave every remainder modulo 4.
proof fn lemma_four_cover(start: int, end: int)
    requires
        start + 3 <= end,
    ensures
        forall|c: int|
            #![trigger holds_residue(start, end, c)]
            holds_residue(start, start + 3, c) <==> holds_residue(start, end, c),
{
    assert forall|c: int|
        #![trigger holds_residue(start, end, c)]
        holds_residue(start, end, c) implies holds_residue(start, start + 3, c) by {
        let j = choose|j: int| start <= j <= end && quarter_residue(j) == c;
        assert(0 <= c < 4);
        lemma_residue_in_first_four(start, c);
    }
    assert forall|c: int|
        #![trigger holds_residue(start, end, c)]
        holds_residue(start, start + 3, c) implies holds_residue(start, end, c) by {
        let j = choose|j: int| start <= j <= start + 3 && quarter_residue(j) == c;
        assert(start <= j <= end && quarter_residue(j) == c);
    }
}

} // verus!
