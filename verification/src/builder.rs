use vstd::prelude::*;
use vstd::arithmetic::power2::{lemma2_to64, lemma_pow2_pos, lemma_pow2_strictly_increases, lemma_pow2_unfold, pow2};

verus! {

/// The deepest level of subdivision a window can reach.
pub const MAX_LEVEL: u32 = 63;

/// Times are counted in units of 2^-64 of the curve's rescaled time range
/// [0, 1], which is this many units long.
pub open spec fn time_scale() -> nat {
    pow2(64)
}

/// A window of the curve's rescaled time range [0, 1] in the bisection that
/// builds a curve, together with the last time the bisection recorded.
/// The window moves freely; a time is recorded only if it comes after the last.
///
/// The window is the dyadic interval centred at t_0 with half-width d_t, where
/// t_0 = center / 2^(level+1) and d_t = 1 / 2^(level+1): the whole range is
/// level 0, and each subdivision halves the window. Recorded times only grow.
pub struct TimeWindow {
    center: u64,
    level: u32,
    /// d_t in units of 2^-64.
    unit: u128,
    /// The last recorded time in units of 2^-64.
    last: u128,
}

/// The window (center, level) lies inside [0, 1] with an odd centre numerator.
pub open spec fn window_valid(w: (nat, nat)) -> bool {
    &&& w.1 <= MAX_LEVEL
    &&& w.0 % 2 == 1
    &&& w.0 + 1 <= pow2(w.1 + 1)
}

/// d_t, the half-width of a window at `level`, in units of 2^-64.
pub open spec fn half_width(level: nat) -> nat {
    pow2((MAX_LEVEL - level) as nat)
}

/// The start of the window, t_0 − d_t, in units of 2^-64.
pub open spec fn start_time(w: (nat, nat)) -> nat {
    ((w.0 - 1) * half_width(w.1)) as nat
}

/// The end of the window, t_0 + d_t, in units of 2^-64.
pub open spec fn end_time(w: (nat, nat)) -> nat {
    (w.0 + 1) * half_width(w.1)
}

/// The left half of a window.
pub open spec fn left_half(w: (nat, nat)) -> (nat, nat) {
    ((2 * w.0 - 1) as nat, w.1 + 1)
}

/// The right sibling of a left half.
pub open spec fn right_sibling(w: (nat, nat)) -> (nat, nat) {
    (w.0 + 2, w.1)
}

/// The window whose right half is `w`.
pub open spec fn parent_of_right(w: (nat, nat)) -> (nat, nat) {
    (((w.0 - 1) / 2) as nat, (w.1 - 1) as nat)
}

/// `w` is the left half of some window.
pub open spec fn is_left_half(w: (nat, nat)) -> bool {
    w.1 >= 1 && w.0 % 4 == 1
}

/// `w` is the right half of some window.
pub open spec fn is_right_half(w: (nat, nat)) -> bool {
    w.1 >= 1 && w.0 % 4 == 3
}

proof fn lemma_half_width_step(level: nat)
    requires
        level < MAX_LEVEL,
    ensures
        half_width(level) == 2 * half_width(level + 1),
{
    lemma_pow2_unfold((MAX_LEVEL - level) as nat);
}

/// The window lies inside the whole time range.
pub proof fn lemma_window_within_range(w: (nat, nat))
    requires
        window_valid(w),
    ensures
        start_time(w) < end_time(w) <= time_scale(),
{
    lemma_pow2_pos(half_width_exponent(w.1));
    lemma_scale_split(w.1);
    let h = half_width(w.1) as int;
    let c = w.0 as int;
    assert((c + 1) * h <= pow2(w.1 + 1) * h) by (nonlinear_arith)
        requires
            c + 1 <= pow2(w.1 + 1),
            h > 0,
    ;
    assert((c - 1) * h < (c + 1) * h) by (nonlinear_arith)
        requires
            h > 0,
    ;
    assert(0 <= (c - 1) * h) by (nonlinear_arith)
        requires
            h > 0,
            c >= 1,
    ;
}

/// The half-width of a window never exceeds the whole range.
proof fn lemma_half_width_bounded(level: nat)
    requires
        level <= MAX_LEVEL,
    ensures
        half_width(level) <= time_scale(),
{
    lemma_scale_split(level);
    lemma_pow2_pos(level + 1);
    let a = pow2(level + 1) as int;
    let b = half_width(level) as int;
    assert(b <= a * b) by (nonlinear_arith)
        requires
            a >= 1,
            b >= 0,
    ;
}

spec fn half_width_exponent(level: nat) -> nat {
    (MAX_LEVEL - level) as nat
}

proof fn lemma_scale_split(level: nat)
    requires
        level <= MAX_LEVEL,
    ensures
        pow2(level + 1) * half_width(level) == time_scale(),
{
    vstd::arithmetic::power2::lemma_pow2_adds(level + 1, (MAX_LEVEL - level) as nat);
}

/// Descending into the left half, switching to the right half and ascending
/// again returns to the window one started from.
pub proof fn lemma_descend_switch_ascend_restores(w: (nat, nat))
    requires
        window_valid(w),
    ensures
        is_left_half(left_half(w)),
        is_right_half(right_sibling(left_half(w))),
        parent_of_right(right_sibling(left_half(w))) == w,
{
    assert((2 * w.0 - 1) % 4 == 1) by (nonlinear_arith)
        requires
            w.0 % 2 == 1,
    ;
}

/// The two halves of a window tile it: the left half starts where the window
/// starts, the right half starts where the left half ends, and the right half
/// ends where the window ends.
pub proof fn lemma_halves_tile(w: (nat, nat))
    requires
        window_valid(w),
        w.1 < MAX_LEVEL,
    ensures
        start_time(left_half(w)) == start_time(w),
        end_time(left_half(w)) == start_time(right_sibling(left_half(w))),
        end_time(right_sibling(left_half(w))) == end_time(w),
        start_time(w) < end_time(left_half(w)) < end_time(w),
{
    let c = w.0 as int;
    let h = half_width(w.1 + 1) as int;
    lemma_half_width_step(w.1);
    lemma_pow2_pos(half_width_exponent(w.1 + 1));
    assert((2 * c - 2) * h == (c - 1) * (2 * h)) by (nonlinear_arith);
    assert((2 * c + 2) * h == (c + 1) * (2 * h)) by (nonlinear_arith);
    assert((c - 1) * (2 * h) < 2 * c * h < (c + 1) * (2 * h)) by (nonlinear_arith)
        requires
            h > 0,
    ;
}

/// Both halves of a valid window that can still be halved are valid windows.
pub proof fn lemma_halves_valid(w: (nat, nat))
    requires
        window_valid(w),
        w.1 < MAX_LEVEL,
    ensures
        window_valid(left_half(w)),
        window_valid(right_sibling(left_half(w))),
{
    let l = w.1;
    let c = w.0 as int;
    lemma_pow2_unfold(l + 2);
    lemma_descend_switch_ascend_restores(w);
    let p = pow2(l + 1) as int;
    assert(2 * c + 2 <= 2 * p);
}

/// How the bisection divides a window: kept whole, or split into two halves
/// that are divided in turn.
pub enum Subdivision {
    Whole,
    Halves(Box<Subdivision>, Box<Subdivision>),
}

/// How many times a subdivision halves a window along its deepest branch.
pub open spec fn depth(s: Subdivision) -> nat
    decreases s,
{
    match s {
        Subdivision::Whole => 0,
        Subdivision::Halves(left, right) => {
            let dl = depth(*left);
            let dr = depth(*right);
            1 + if dl >= dr { dl } else { dr }
        },
    }
}

/// The last recorded time after the bisection walks subdivision `s` of window
/// `w`, starting with `last` recorded: each split records the end of its left
/// half between the walks of the two halves, so a split ends with what its
/// right half leaves.
pub open spec fn last_after_walk(w: (nat, nat), s: Subdivision, last: nat) -> nat
    decreases s,
{
    match s {
        Subdivision::Whole => last,
        Subdivision::Halves(_, right) => {
            let lw = left_half(w);
            last_after_walk(right_sibling(lw), *right, end_time(lw))
        },
    }
}

/// Every step of the bisection's walk of subdivision `s` of window `w`,
/// starting with `last` recorded, meets its precondition: `descend_left` on
/// entering a split window, `record_end` on the left half once it is walked
/// (its end comes after the last recorded time), `switch_to_right` after that,
/// and `ascend_from_right` after the right half.
pub open spec fn walk_allowed(w: (nat, nat), s: Subdivision, last: nat) -> bool
    decreases s,
{
    match s {
        Subdivision::Whole => true,
        Subdivision::Halves(left, right) => {
            let lw = left_half(w);
            let rw = right_sibling(lw);
            &&& w.1 < MAX_LEVEL
            &&& walk_allowed(lw, *left, last)
            &&& last_after_walk(lw, *left, last) < end_time(lw)
            &&& is_left_half(lw)
            &&& walk_allowed(rw, *right, end_time(lw))
            &&& is_right_half(rw)
        },
    }
}

/// Whatever subdivision the error analysis chooses, as long as it stays within
/// the deepest level, the bisection's walk of a window that it enters with the
/// window's start recorded meets every precondition, and leaves a last
/// recorded time inside the window, before its end: so the end of the window
/// can be recorded next, and the recorded times strictly increase.
pub proof fn lemma_walk_allowed(w: (nat, nat), s: Subdivision)
    requires
        window_valid(w),
        w.1 + depth(s) <= MAX_LEVEL,
    ensures
        walk_allowed(w, s, start_time(w)),
        start_time(w) <= last_after_walk(w, s, start_time(w)) < end_time(w),
    decreases s,
{
    lemma_window_within_range(w);
    match s {
        Subdivision::Whole => {},
        Subdivision::Halves(left, right) => {
            let lw = left_half(w);
            let rw = right_sibling(lw);
            lemma_halves_valid(w);
            lemma_halves_tile(w);
            lemma_descend_switch_ascend_restores(w);
            lemma_walk_allowed(lw, *left);
            lemma_walk_allowed(rw, *right);
        },
    }
}

impl View for TimeWindow {
    type V = (nat, nat);

    closed spec fn view(&self) -> (nat, nat) {
        (self.center as nat, self.level as nat)
    }
}

impl TimeWindow {
    /// The last time recorded, in units of 2^-64.
    pub closed spec fn recorded(&self) -> nat {
        self.last as nat
    }

    #[verifier::type_invariant]
    spec fn inv(self) -> bool {
        &&& window_valid(self@)
        &&& self.unit == half_width(self.level as nat)
        &&& self.last <= time_scale()
    }

    /// The whole time range, t_0 = d_t = 1/2, with time 0 recorded.
    pub fn new() -> (w: Self)
        ensures
            w@ == (1nat, 0nat),
            window_valid(w@),
            w.recorded() == 0,
    {
        proof {
            lemma2_to64();
            lemma_pow2_unfold(64);
        }
        TimeWindow { center: 1, level: 0, unit: 0x8000_0000_0000_0000u128, last: 0 }
    }

    /// How many times the whole range has been halved to reach this window.
    pub fn level(&self) -> (r: u32)
        ensures
            r == self@.1,
    {
        self.level
    }

    /// The window can still be halved.
    pub fn can_descend(&self) -> (r: bool)
        ensures
            r <==> self@.1 < MAX_LEVEL,
    {
        self.level < MAX_LEVEL
    }

    /// The window is the left half of another.
    pub fn is_left_half(&self) -> (r: bool)
        ensures
            r <==> is_left_half(self@),
    {
        self.level >= 1 && self.center % 4 == 1
    }

    /// The window is the right half of another.
    pub fn is_right_half(&self) -> (r: bool)
        ensures
            r <==> is_right_half(self@),
    {
        self.level >= 1 && self.center % 4 == 3
    }

    /// The end of the window lies after the last recorded time.
    pub fn can_record_end(&self) -> (r: bool)
        ensures
            r <==> self.recorded() < end_time(self@),
    {
        proof {
            use_type_invariant(self);
            lemma_window_within_range(self@);
            lemma2_to64();
        }
        self.last < (self.center as u128 + 1) * self.unit
    }

    /// Moves to the left half: d_t is halved and t_0 moves back by the new d_t.
    pub fn descend_left(&mut self)
        requires
            old(self)@.1 < MAX_LEVEL,
        ensures
            final(self)@ == left_half(old(self)@),
            window_valid(final(self)@),
            final(self).recorded() == old(self).recorded(),
    {
        proof {
            use_type_invariant(&*self);
            let l = self.level as nat;
            lemma_pow2_unfold(l + 2);
            lemma_pow2_pos(l + 1);
            lemma2_to64();
            if l + 2 < 64 {
                lemma_pow2_strictly_increases(l + 2, 64);
            }
            lemma_halves_tile(self@);
            lemma_half_width_step(l);
        }
        *self = TimeWindow {
            center: 2 * self.center - 1,
            level: self.level + 1,
            unit: self.unit / 2,
            last: self.last,
        };
    }

    /// Moves from a left half to its right sibling: t_0 moves forward by 2·d_t.
    pub fn switch_to_right(&mut self)
        requires
            is_left_half(old(self)@),
        ensures
            final(self)@ == right_sibling(old(self)@),
            window_valid(final(self)@),
            final(self).recorded() == old(self).recorded(),
    {
        proof {
            use_type_invariant(&*self);
            let l = self.level as nat;
            lemma_pow2_unfold(l + 1);
            lemma_pow2_unfold(l);
            let c = self.center as int;
            let p = pow2((l - 1) as nat) as int;
            assert(pow2(l + 1) == 4 * p);
            assert(c + 3 <= 4 * p) by (nonlinear_arith)
                requires
                    c % 4 == 1,
                    c + 1 <= 4 * p,
            ;
        }
        self.center = self.center + 2;
    }

    /// Moves from a right half back to the window it halves: t_0 moves back by
    /// d_t and d_t doubles.
    pub fn ascend_from_right(&mut self)
        requires
            is_right_half(old(self)@),
        ensures
            final(self)@ == parent_of_right(old(self)@),
            window_valid(final(self)@),
            final(self).recorded() == old(self).recorded(),
    {
        proof {
            use_type_invariant(&*self);
            let l = self.level as nat;
            lemma_pow2_unfold(l + 1);
            let parent = parent_of_right(self@);
            lemma_descend_switch_ascend_restores(parent);
            assert(right_sibling(left_half(parent)) == self@);
            lemma_halves_tile(parent);
            lemma_half_width_step(parent.1);
            lemma_half_width_bounded(parent.1);
            lemma2_to64();
        }
        *self = TimeWindow {
            center: (self.center - 1) / 2,
            level: self.level - 1,
            unit: self.unit * 2,
            last: self.last,
        };
    }

    /// The end of the window, t_0 + d_t, in units of 2^-64.
    pub fn end_time(&self) -> (r: u128)
        ensures
            r == end_time(self@),
            r <= time_scale(),
    {
        proof {
            use_type_invariant(self);
            lemma_window_within_range(self@);
            lemma2_to64();
        }
        (self.center as u128 + 1) * self.unit
    }

    /// Records the end of the window as the next time of the curve, which comes
    /// strictly after every time recorded before.
    pub fn record_end(&mut self) -> (r: u128)
        requires
            old(self).recorded() < end_time(old(self)@),
        ensures
            r == end_time(old(self)@),
            r <= time_scale(),
            final(self)@ == old(self)@,
            final(self).recorded() == r,
            old(self).recorded() < final(self).recorded(),
    {
        let end: u128 = self.end_time();
        proof {
            use_type_invariant(&*self);
        }
        self.last = end;
        end
    }
}

} // verus!
