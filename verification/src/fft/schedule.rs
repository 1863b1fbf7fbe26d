//! The butterflies of the iterative radix-2 transform: which entries each
//! one combines, with which twiddle factor, and in which order.

use super::bit_reversal::{exponent_of, lemma_exponent_of_pow2};
use vstd::arithmetic::div_mod::*;
use vstd::arithmetic::power2::*;
use vstd::prelude::*;

verus! {

/// One butterfly of the transform: it combines the entries at `even` and
/// `odd` with the twiddle factor of angle `-2π · twiddle / step`.
#[derive(Clone, Copy, Debug, PartialEq, Eq)]
pub struct Butterfly {
    pub even: usize,
    pub odd: usize,
    pub twiddle: usize,
    pub step: usize,
}

/// A place in the butterfly schedule of a transform of length `len`: the
/// stage that combines blocks of `2 * half` entries, the block that begins at
/// `start`, and the pair at `offset` within that block.
pub struct SchedulePoint {
    pub len: nat,
    pub half: nat,
    pub start: nat,
    pub offset: nat,
}

impl SchedulePoint {
    /// Every stage has been walked through.
    pub open spec fn finished(self) -> bool {
        self.half >= self.len
    }

    /// Lengths and block widths are powers of two, and an unfinished point
    /// lies inside a whole block of its stage.
    pub open spec fn valid(self) -> bool {
        &&& is_pow2(self.len as int)
        &&& is_pow2(self.half as int)
        &&& self.half <= self.len
        &&& if self.finished() {
            self.start == 0 && self.offset == 0
        } else {
            &&& self.start % (2 * self.half) == 0
            &&& self.start + 2 * self.half <= self.len
            &&& self.offset < self.half
        }
    }

    /// The first point: the stage of blocks of two, at its first pair.
    pub open spec fn first(len: nat) -> SchedulePoint {
        SchedulePoint { len, half: 1, start: 0, offset: 0 }
    }

    /// The butterfly to perform at this point.
    pub open spec fn butterfly(self) -> Butterfly {
        Butterfly {
            even: (self.start + self.offset) as usize,
            odd: (self.start + self.offset + self.half) as usize,
            twiddle: self.offset as usize,
            step: (2 * self.half) as usize,
        }
    }

    /// The point after this one: the next pair of the block, else the next
    /// block of the stage, else the first pair of the next stage.
    pub open spec fn successor(self) -> SchedulePoint {
        if self.offset + 1 < self.half {
            SchedulePoint { offset: self.offset + 1, ..self }
        } else if self.start + 4 * self.half <= self.len {
            SchedulePoint { start: self.start + 2 * self.half, offset: 0, ..self }
        } else {
            SchedulePoint { half: 2 * self.half, start: 0, offset: 0, ..self }
        }
    }

    /// The number of butterflies that come before this point: those of the
    /// stages before, of the blocks before, and of the pairs before.
    pub open spec fn position(self) -> nat {
        exponent_of(self.half) * (self.len / 2) + (self.start / (2 * self.half)) * self.half
            + self.offset
    }

    /// The point before this one; the first point has none.
    pub open spec fn predecessor(self) -> SchedulePoint {
        if self.offset > 0 {
            SchedulePoint { offset: (self.offset - 1) as nat, ..self }
        } else if self.start > 0 {
            SchedulePoint {
                start: (self.start - 2 * self.half) as nat,
                offset: (self.half - 1) as nat,
                ..self
            }
        } else {
            SchedulePoint {
                half: self.half / 2,
                start: (self.len - self.half) as nat,
                offset: (self.half / 2 - 1) as nat,
                ..self
            }
        }
    }

    /// The point reached from the first one in `steps` steps.
    pub open spec fn nth(len: nat, steps: nat) -> SchedulePoint
        decreases steps,
    {
        if steps == 0 {
            SchedulePoint::first(len)
        } else {
            SchedulePoint::nth(len, (steps - 1) as nat).successor()
        }
    }
}

/// A power of two below another is at most half of it.
proof fn lemma_pow2_gap(a: nat, b: nat)
    requires
        is_pow2(a as int),
        is_pow2(b as int),
        a < b,
    ensures
        2 * a <= b,
        is_pow2((2 * a) as int),
    decreases a,
{
    reveal(is_pow2);
    if a > 1 {
        lemma_pow2_gap(a / 2, b / 2);
    }
}

/// The successor of a valid unfinished point is valid.
pub proof fn lemma_successor_valid(point: SchedulePoint)
    requires
        point.valid(),
        !point.finished(),
    ensures
        point.successor().valid(),
        point.successor().len == point.len,
{
    lemma_pow2_gap(point.half, point.len);
    if point.offset + 1 < point.half {
        // The next pair of the same block.
    } else if point.start + 4 * point.half <= point.len {
        lemma_mod_adds(point.start as int, (2 * point.half) as int, (2 * point.half) as int);
        lemma_mod_self_0((2 * point.half) as int);
    } else {
        if 2 * point.half < point.len {
            lemma_pow2_gap(2 * point.half, point.len);
            lemma_small_mod(0, 4 * point.half);
        }
    }
}

/// A power of two divides every power of two that is not smaller.
proof fn lemma_pow2_divides(a: nat, b: nat)
    requires
        is_pow2(a as int),
        is_pow2(b as int),
        a <= b,
    ensures
        b % a == 0,
        b == a * (b / a),
    decreases b,
{
    reveal(is_pow2);
    if a == b {
        lemma_mod_self_0(a as int);
    } else {
        lemma_pow2_gap(a, b);
        lemma_pow2_divides(a, b / 2);
        let q = (b / 2) / a;
        assert(b == (2 * q) * a) by (nonlinear_arith)
            requires
                b == 2 * (b / 2),
                b / 2 == a * q,
        ;
        lemma_mod_multiples_basic((2 * q) as int, a as int);
    }
    lemma_fundamental_div_mod(b as int, a as int);
}

/// Doubling a power of two raises its exponent by one.
proof fn lemma_exponent_of_double(half: nat)
    requires
        is_pow2(half as int),
    ensures
        exponent_of(2 * half) == exponent_of(half) + 1,
        pow2(exponent_of(half)) == half,
{
    is_pow2_equiv(half as int);
    let k = choose|k: nat| vstd::arithmetic::power::pow(2, k) == half as int;
    lemma_pow2(k);
    lemma_exponent_of_pow2(k);
    lemma_exponent_of_pow2(k + 1);
    lemma_pow2_unfold(k + 1);
}

/// The last block of a stage ends where the frame ends.
proof fn lemma_last_block(point: SchedulePoint)
    requires
        point.valid(),
        !point.finished(),
        point.start + 4 * point.half > point.len,
    ensures
        point.start + 2 * point.half == point.len,
{
    let step = 2 * point.half;
    lemma_pow2_gap(point.half, point.len);
    lemma_pow2_divides(step, point.len);
    lemma_fundamental_div_mod(point.start as int, step as int);
    let blocks = point.len / step;
    let before = point.start / step;
    assert(blocks - before == 1) by (nonlinear_arith)
        requires
            point.len == step * blocks,
            point.start == step * before,
            point.start + step <= point.len,
            point.start + 2 * step > point.len,
            step > 0,
    ;
    assert(step * blocks == step * before + step) by (nonlinear_arith)
        requires
            blocks == before + 1,
    ;
}

/// Each step of the walk passes one butterfly.
pub proof fn lemma_successor_position(point: SchedulePoint)
    requires
        point.valid(),
        !point.finished(),
    ensures
        point.successor().position() == point.position() + 1,
{
    let half = point.half;
    let step = 2 * half;
    let before = point.start / step;
    lemma_pow2_gap(half, point.len);
    lemma_fundamental_div_mod(point.start as int, step as int);
    if point.offset + 1 < half {
        // The next pair of the same block.
    } else if point.start + 4 * half <= point.len {
        assert(point.start + step == (before + 1) * step + 0) by (nonlinear_arith)
            requires
                point.start == step * before,
        ;
        lemma_fundamental_div_mod_converse_div(
            (point.start + step) as int,
            step as int,
            (before + 1) as int,
            0,
        );
        assert((before + 1) * half == before * half + half) by (nonlinear_arith);
    } else {
        lemma_last_block(point);
        lemma_exponent_of_double(half);
        lemma_pow2_divides(step, point.len);
        let blocks = point.len / step;
        assert(blocks == before + 1) by (nonlinear_arith)
            requires
                point.len == step * blocks,
                point.start == step * before,
                point.start + step == point.len,
                step > 0,
        ;
        assert(point.len == (blocks * half) * 2 + 0) by (nonlinear_arith)
            requires
                point.len == (2 * half) * blocks,
        ;
        lemma_fundamental_div_mod_converse_div(point.len as int, 2, (blocks * half) as int, 0);
        assert((exponent_of(half) + 1) * (point.len / 2) == exponent_of(half) * (point.len / 2)
            + point.len / 2) by (nonlinear_arith);
        assert(blocks * half == before * half + half) by (nonlinear_arith)
            requires
                blocks == before + 1,
        ;
        lemma_div_basics_1(step as int);
        assert(0nat / (2 * step) == 0) by {
            lemma_div_basics_1((2 * step) as int);
        }
    }
}

/// The walk begins before every butterfly, and it has finished when it has
/// passed as many butterflies as there are stages times pairs in a stage.
pub proof fn lemma_position_ends(point: SchedulePoint)
    requires
        point.valid(),
    ensures
        SchedulePoint::first(point.len).position() == 0,
        point.position() <= exponent_of(point.len) * (point.len / 2),
        point.finished() <==> point.position() == exponent_of(point.len) * (point.len / 2),
{
    let len = point.len;
    let half = point.half;
    let pairs = len / 2;
    lemma2_to64();
    lemma_exponent_of_pow2(0);
    lemma_div_basics_1(2);
    assert(exponent_of(1) * pairs == 0) by (nonlinear_arith)
        requires
            exponent_of(1) == 0,
    ;
    if point.finished() {
        assert(half > 0) by {
            reveal(is_pow2);
        }
        lemma_div_basics_1((2 * half) as int);
        assert((0nat / (2 * half)) * half == 0) by (nonlinear_arith)
            requires
                0nat / (2 * half) == 0,
        ;
    } else {
        let step = 2 * half;
        let before = point.start / step;
        let blocks = len / step;
        lemma_pow2_gap(half, len);
        lemma_pow2_divides(step, len);
        lemma_fundamental_div_mod(point.start as int, step as int);
        lemma_exponent_of_double(half);
        lemma_exponent_of_double(len);
        assert(before + 1 <= blocks) by (nonlinear_arith)
            requires
                len == step * blocks,
                point.start == step * before,
                point.start + step <= len,
                step > 0,
        ;
        assert(len == (blocks * half) * 2 + 0) by (nonlinear_arith)
            requires
                len == (2 * half) * blocks,
        ;
        lemma_fundamental_div_mod_converse_div(len as int, 2, (blocks * half) as int, 0);
        assert(before * half + point.offset < pairs) by (nonlinear_arith)
            requires
                before + 1 <= blocks,
                point.offset < half,
                pairs == blocks * half,
        ;
        if exponent_of(half) >= exponent_of(len) {
            if exponent_of(half) > exponent_of(len) {
                lemma_pow2_strictly_increases(exponent_of(len), exponent_of(half));
            }
        }
        assert(exponent_of(half) * pairs + pairs <= exponent_of(len) * pairs) by (nonlinear_arith)
            requires
                exponent_of(half) + 1 <= exponent_of(len),
        ;
    }
}

/// Stepping back and then forward comes back to the same point: every point
/// but the first has exactly the predecessor that leads to it.
pub proof fn lemma_predecessor(point: SchedulePoint)
    requires
        point.valid(),
        !point.finished(),
        point != SchedulePoint::first(point.len),
    ensures
        point.predecessor().valid(),
        !point.predecessor().finished(),
        point.predecessor().len == point.len,
        point.predecessor().successor() == point,
{
    let half = point.half;
    let step = 2 * half;
    lemma_pow2_gap(half, point.len);
    if point.offset > 0 {
        // The pair before in the same block.
    } else if point.start > 0 {
        lemma_fundamental_div_mod(point.start as int, step as int);
        let before = point.start / step;
        assert(before >= 1) by (nonlinear_arith)
            requires
                point.start == step * before,
                point.start > 0,
                step > 0,
        ;
        assert(point.start - step == (before - 1) * step) by (nonlinear_arith)
            requires
                point.start == step * before,
        ;
        lemma_mod_multiples_basic(before - 1, step as int);
    } else {
        reveal(is_pow2);
        lemma_pow2_divides(half, point.len);
        let blocks = point.len / half;
        assert(point.len - half == (blocks - 1) * half) by (nonlinear_arith)
            requires
                point.len == half * blocks,
        ;
        lemma_mod_multiples_basic(blocks - 1, half as int);
    }
}

/// The walk reaches every butterfly: a valid point that is not finished is
/// the point that the walk stands at after as many steps as there are
/// butterflies before it.
pub proof fn lemma_walk_reaches(point: SchedulePoint)
    requires
        point.valid(),
        !point.finished(),
    ensures
        SchedulePoint::nth(point.len, point.position()) == point,
    decreases point.position(),
{
    if point == SchedulePoint::first(point.len) {
        lemma_position_ends(point);
    } else {
        lemma_predecessor(point);
        lemma_successor_position(point.predecessor());
        lemma_walk_reaches(point.predecessor());
    }
}

/// In each stage every entry of the frame belongs to exactly one butterfly:
/// the one of the entry's block whose offset is the entry's place in its
/// half of the block.
pub proof fn lemma_stage_covers(len: nat, half: nat, index: nat)
    requires
        is_pow2(len as int),
        is_pow2(half as int),
        half < len <= usize::MAX,
        index < len,
    ensures
        ({
            let point = SchedulePoint {
                len,
                half,
                start: (index - index % (2 * half)) as nat,
                offset: index % half,
            };
            &&& point.valid()
            &&& !point.finished()
            &&& point.butterfly().even == index || point.butterfly().odd == index
            &&& forall|other: SchedulePoint|
                other.valid() && other.len == len && other.half == half && (
                other.butterfly().even == index || other.butterfly().odd == index) ==> other
                    == point
        }),
{
    let step = 2 * half;
    let place = index % step;
    let point = SchedulePoint { len, half, start: (index - place) as nat, offset: index % half };
    lemma_pow2_gap(half, len);
    lemma_pow2_divides(step, len);
    lemma_fundamental_div_mod(index as int, step as int);
    lemma_mod_mod(index as int, half as int, 2);
    let block = index / step;
    let blocks = len / step;
    lemma_mod_multiples_basic(block as int, step as int);
    assert(block + 1 <= blocks) by (nonlinear_arith)
        requires
            len == step * blocks,
            index == step * block + place,
            index < len,
            0 <= place,
            step > 0,
    ;
    assert(step * block + step <= step * blocks) by (nonlinear_arith)
        requires
            block + 1 <= blocks,
            step > 0,
    ;
    if place < half {
        lemma_small_mod(place, half);
    } else {
        lemma_fundamental_div_mod_converse_mod(place as int, half as int, 1, place - half);
    }
    assert forall|other: SchedulePoint|
        other.valid() && other.len == len && other.half == half && (other.butterfly().even
            == index || other.butterfly().odd == index) implies other == point by {
        lemma_fundamental_div_mod(other.start as int, step as int);
        let before = other.start / step;
        let inside = if other.butterfly().even == index {
            other.offset
        } else {
            other.offset + half
        };
        assert(index == before * step + inside) by (nonlinear_arith)
            requires
                other.start == step * before,
                index == other.start + inside,
        ;
        lemma_fundamental_div_mod_converse_mod(index as int, step as int, before as int, inside as int);
    }
}

/// A butterfly of a valid point joins two distinct entries of the frame, one
/// half block apart, and its twiddle angle lies in the first half turn.
pub proof fn lemma_butterfly_in_range(point: SchedulePoint)
    requires
        point.valid(),
        !point.finished(),
        point.len <= usize::MAX,
    ensures
        point.butterfly().even < point.butterfly().odd < point.len,
        point.butterfly().odd == point.butterfly().even + point.half,
        2 * point.butterfly().twiddle < point.butterfly().step <= point.len,
{
}

/// The walk through the butterflies of a transform, in the order in which the
/// iterative transform performs them.
pub struct ButterflySchedule {
    len: usize,
    half: usize,
    start: usize,
    offset: usize,
}

impl View for ButterflySchedule {
    type V = SchedulePoint;

    closed spec fn view(&self) -> SchedulePoint {
        SchedulePoint {
            len: self.len as nat,
            half: self.half as nat,
            start: self.start as nat,
            offset: self.offset as nat,
        }
    }
}

impl ButterflySchedule {
    #[verifier::type_invariant]
    spec fn well_formed(&self) -> bool {
        self@.valid()
    }

    /// The schedule of a transform of length `len`, at its first butterfly.
    pub fn new(len: usize) -> (schedule: Self)
        requires
            is_pow2(len as int),
        ensures
            schedule@ == SchedulePoint::first(len as nat),
            schedule@.valid(),
    {
        proof {
            reveal(is_pow2);
            lemma_small_mod(0, 2);
        }
        ButterflySchedule { len, half: 1, start: 0, offset: 0 }
    }

    /// Hands out the butterfly at the current point and moves to the next
    /// point; `None`, and no move, once every stage is done.
    pub fn next(&mut self) -> (butterfly: Option<Butterfly>)
        ensures
            old(self)@.valid(),
            final(self)@.valid(),
            old(self)@.finished() ==> butterfly.is_none() && final(self)@ == old(self)@,
            !old(self)@.finished() ==> butterfly == Some(old(self)@.butterfly()) && final(self)@
                == old(self)@.successor(),
            butterfly matches Some(b) ==> b.even < b.odd < old(self)@.len && 2 * b.twiddle
                < b.step <= old(self)@.len,
    {
        proof {
            use_type_invariant(&*self);
        }
        if self.half >= self.len {
            return None;
        }
        proof {
            lemma_successor_valid(self@);
            lemma_pow2_gap(self.half as nat, self.len as nat);
        }
        let butterfly = Butterfly {
            even: self.start + self.offset,
            odd: self.start + self.offset + self.half,
            twiddle: self.offset,
            step: 2 * self.half,
        };
        let len = self.len;
        let step = 2 * self.half;
        if self.offset + 1 < self.half {
            *self = ButterflySchedule { len, half: self.half, start: self.start, offset: self.offset + 1 };
        } else if len - self.start - step >= step {
            *self = ButterflySchedule { len, half: self.half, start: self.start + step, offset: 0 };
        } else {
            *self = ButterflySchedule { len, half: step, start: 0, offset: 0 };
        }
        Some(butterfly)
    }
}

} // verus!
