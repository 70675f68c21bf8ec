use vstd::prelude::*;

verus! {

/// The keys never decrease from one index to the next.
pub open spec fn sorted(keys: Seq<i64>) -> bool {
    forall|i: int, j: int| 0 <= i <= j < keys.len() ==> keys[i] <= keys[j]
}

/// `i` is where `target` would be inserted into `keys` to keep them sorted,
/// with every key before `i` below `target` and every key from `i` on above it.
pub open spec fn is_insertion_point(keys: Seq<i64>, target: i64, i: int) -> bool {
    &&& 0 <= i <= keys.len()
    &&& forall|j: int| 0 <= j < i ==> keys[j] < target
    &&& forall|j: int| i <= j < keys.len() ==> keys[j] > target
}

/// What a search of sorted `keys` for `target` may answer: `Ok(i)` with
/// `keys[i] == target`, or `Err(i)` with `i` the insertion point of `target`.
pub open spec fn is_search_result(keys: Seq<i64>, target: i64, r: Result<usize, usize>) -> bool {
    match r {
        Ok(i) => i < keys.len() && keys[i as int] == target,
        Err(i) => is_insertion_point(keys, target, i as int),
    }
}

/// The keys strictly increase from one index to the next.
pub open spec fn strictly_sorted(keys: Seq<i64>) -> bool {
    forall|i: int, j: int| 0 <= i < j < keys.len() ==> keys[i] < keys[j]
}

/// A search answers `Err` exactly when the target is not among the keys.
pub proof fn lemma_search_err_iff_absent(keys: Seq<i64>, target: i64, r: Result<usize, usize>)
    requires
        is_search_result(keys, target, r),
    ensures
        r is Err <==> !keys.contains(target),
{
    if r is Err {
        if keys.contains(target) {
            let j = choose|j: int| 0 <= j < keys.len() && keys[j] == target;
            assert(keys[j] < target || keys[j] > target);
        }
    } else {
        assert(keys[r->Ok_0 as int] == target);
    }
}

/// Over strictly increasing keys a search has only one possible answer, so any
/// two searches for the same target agree.
pub proof fn lemma_search_result_unique(
    keys: Seq<i64>,
    target: i64,
    r1: Result<usize, usize>,
    r2: Result<usize, usize>,
)
    requires
        strictly_sorted(keys),
        is_search_result(keys, target, r1),
        is_search_result(keys, target, r2),
    ensures
        r1 == r2,
{
    lemma_search_err_iff_absent(keys, target, r1);
    lemma_search_err_iff_absent(keys, target, r2);
    match (r1, r2) {
        (Ok(i), Ok(j)) => {
            if i < j {
                assert(keys[i as int] < keys[j as int]);
            } else if j < i {
                assert(keys[j as int] < keys[i as int]);
            }
        },
        (Err(i), Err(j)) => {
            if i < j {
                assert(keys[i as int] > target);
            } else if j < i {
                assert(keys[j as int] > target);
            }
        },
        _ => {},
    }
}

/// The index between `left` and `right` at which `target` would sit if the keys
/// grew linearly from `left_key` at `left` to `right_key` at `right`, rounded to
/// the nearest index (halves upward): left + ⌊(target − left_key)·(right − left)
/// / (right_key − left_key) + 1/2⌋.
pub open spec fn interpolated_index(left: int, right: int, left_key: int, right_key: int, target: int) -> int {
    left + (2 * ((target - left_key) * (right - left)) + (right_key - left_key)) / (2 * (right_key - left_key))
}

/// The rounding of `product / den` to the nearest integer, halves upward, is the
/// quotient plus one exactly when twice the remainder reaches `den`.
proof fn lemma_round_half_up(product: int, den: int)
    requires
        product >= 0,
        den > 0,
    ensures
        (2 * product + den) / (2 * den) == product / den + (if 2 * (product % den) >= den { 1int } else { 0int }),
{
    let q = product / den;
    let r = product % den;
    vstd::arithmetic::div_mod::lemma_fundamental_div_mod(product, den);
    vstd::arithmetic::div_mod::lemma_mod_bound(product, den);
    let extra: int = if 2 * r >= den { 1 } else { 0 };
    let rest: int = if 2 * r >= den { 2 * r - den } else { 2 * r + den };
    assert(0 <= rest < 2 * den);
    assert(2 * product + den == (q + extra) * (2 * den) + rest) by (nonlinear_arith)
        requires
            product == den * q + r,
            extra == 1 ==> rest == 2 * r - den,
            extra == 0 ==> rest == 2 * r + den,
            extra == 0 || extra == 1,
    ;
    vstd::arithmetic::div_mod::lemma_fundamental_div_mod_converse(2 * product + den, 2 * den, q + extra, rest);
}

/// The index between `left` and `right` at which `target` would sit if the keys
/// grew linearly from `left_key` at `left` to `right_key` at `right`, rounded to
/// the nearest index (halves upward).
fn interpolate(left: usize, right: usize, left_key: i64, right_key: i64, target: i64) -> (pos: usize)
    requires
        left < right,
        left_key < target < right_key,
    ensures
        left <= pos <= right,
        pos == interpolated_index(left as int, right as int, left_key as int, right_key as int, target as int),
{
    let num: u128 = ((target as i128) - (left_key as i128)) as u128;
    let den: u128 = ((right_key as i128) - (left_key as i128)) as u128;
    let span: u128 = (right - left) as u128;
    assert(num * span <= den * span) by (nonlinear_arith)
        requires
            num <= den,
    ;
    assert(den * span <= u64::MAX * u64::MAX) by (nonlinear_arith)
        requires
            den <= u64::MAX,
            span <= u64::MAX,
    ;
    let product: u128 = num * span;
    let quotient: u128 = product / den;
    let remainder: u128 = product % den;
    assert(quotient <= span) by (nonlinear_arith)
        requires
            quotient == product / den,
            product <= den * span,
            den > 0,
    ;
    proof {
        vstd::arithmetic::div_mod::lemma_fundamental_div_mod(product as int, den as int);
        vstd::arithmetic::div_mod::lemma_mod_bound(product as int, den as int);
        lemma_round_half_up(product as int, den as int);
        if quotient == span {
            assert(remainder == 0) by (nonlinear_arith)
                requires
                    product == den * quotient + remainder,
                    quotient == span,
                    product <= den * span,
                    remainder >= 0,
            ;
        }
    }
    let offset: u128 = if quotient < span && remainder >= den - remainder {
        quotient + 1
    } else {
        quotient
    };
    left + (offset as usize)
}

/// Searches sorted `keys` for `target`, probing where linear interpolation
/// between the current bounds puts it rather than at the middle.
///
/// Returns `Ok(i)` with `keys[i] == target`, or `Err(i)` where `i` is the index at
/// which `target` would be inserted to keep `keys` sorted.
pub fn interpolation_search(keys: &[i64], target: i64) -> (r: Result<usize, usize>)
    requires
        keys.len() > 0,
        sorted(keys@),
    ensures
        is_search_result(keys@, target, r),
{
    let mut left: usize = 0;
    let mut right: usize = keys.len() - 1;
    if target < keys[left] {
        return Err(left);
    } else if target == keys[left] {
        return Ok(left);
    }
    if target == keys[right] {
        return Ok(right);
    } else if target > keys[right] {
        return Err(right + 1);
    }
    while right - left > 1
        invariant
            sorted(keys@),
            left < right < keys.len(),
            keys[left as int] < target < keys[right as int],
        decreases right - left,
    {
        let pos: usize = interpolate(left, right, keys[left], keys[right], target);
        if target < keys[pos] {
            if target < keys[pos - 1] {
                right = pos - 1;
            } else if target == keys[pos - 1] {
                return Ok(pos - 1);
            } else {
                return Err(pos);
            }
        } else if target == keys[pos] {
            return Ok(pos);
        } else {
            if target < keys[pos + 1] {
                return Err(pos + 1);
            } else if target == keys[pos + 1] {
                return Ok(pos + 1);
            } else {
                left = pos + 1;
            }
        }
    }
    Err(right)
}

/// Where a time falls among the sorted sample times of a curve.
#[derive(Clone, Copy, Debug, PartialEq, Eq)]
pub enum TimeSlot {
    /// The time is that of the sample at this index.
    At(usize),
    /// The time lies strictly between the samples at these two adjacent indices.
    Between(usize, usize),
}

/// Finds the sample at `target`, or the two adjacent samples around it.
/// Returns `None` when `target` lies before the first or after the last sample.
pub fn locate(keys: &[i64], target: i64) -> (r: Option<TimeSlot>)
    requires
        keys.len() > 0,
        sorted(keys@),
    ensures
        match r {
            Some(TimeSlot::At(i)) => i < keys.len() && keys[i as int] == target,
            Some(TimeSlot::Between(i, j)) => {
                &&& j == i + 1
                &&& j < keys.len()
                &&& is_insertion_point(keys@, target, j as int)
            },
            None => !keys@.contains(target),
        },
        r matches Some(TimeSlot::At(_)) <==> keys@.contains(target),
        r is None <==> (target < keys[0] || keys[keys.len() - 1] < target),
{
    let found = interpolation_search(keys, target);
    proof {
        lemma_search_err_iff_absent(keys@, target, found);
    }
    match found {
        Ok(i) => Some(TimeSlot::At(i)),
        Err(i) => {
            if i > 0 && i < keys.len() {
                Some(TimeSlot::Between(i - 1, i))
            } else {
                None
            }
        },
    }
}

} // verus!
