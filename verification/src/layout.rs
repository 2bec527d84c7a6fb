//! Partition of a rectangle along an axis.
//!
//! The constraint solver of `tui` proposes the sizes. [`fit_area`] keeps what it proposes
//! for the regions without a ratio, as far as there is room, and divides the cells that
//! those regions leave among the ratios by weight, so that the regions lie side by side
//! and fill the area exactly.

use tui::layout::{Constraint as Asked, Direction as Axis, Layout, Rect as Area};
use vstd::prelude::*;

verus! {

/// A rectangle of terminal cells.
#[derive(Clone, Copy, Debug, PartialEq, Eq)]
pub struct Rect {
    pub x: u16,
    pub y: u16,
    pub width: u16,
    pub height: u16,
}

/// The axis along which an area is split.
#[derive(Clone, Copy, Debug, PartialEq, Eq)]
pub enum Direction {
    Horizontal,
    Vertical,
}

/// How one region asks to be sized.
#[derive(Clone, Copy, Debug, PartialEq, Eq)]
pub enum Policy {
    /// Exactly so many cells.
    Fixed(u16),
    /// At most so many cells.
    Max(u16),
    /// At least so many cells.
    Min(u16),
    /// A share of the space, weighted against the other ratios.
    Ratio(u32),
}

/// A sizing request as the solver takes it.
#[derive(Clone, Copy, Debug, PartialEq, Eq)]
pub enum Constraint {
    Ratio(u32, u32),
    Length(u16),
    Max(u16),
    Min(u16),
}

impl Rect {
    /// The rectangle ends within the coordinate space.
    pub open spec fn wf(self) -> bool {
        self.x + self.width <= u16::MAX && self.y + self.height <= u16::MAX
    }

    /// Where the rectangle begins along `axis`.
    pub open spec fn start(self, axis: Direction) -> u16 {
        match axis {
            Direction::Horizontal => self.x,
            Direction::Vertical => self.y,
        }
    }

    /// How far the rectangle reaches along `axis`.
    pub open spec fn extent(self, axis: Direction) -> u16 {
        match axis {
            Direction::Horizontal => self.width,
            Direction::Vertical => self.height,
        }
    }

    /// The part of `self` that begins at `start` and reaches `extent` cells along `axis`;
    /// across the axis it is as `self`.
    pub open spec fn slice(self, axis: Direction, start: u16, extent: u16) -> Rect {
        match axis {
            Direction::Horizontal => Rect { x: start, width: extent, ..self },
            Direction::Vertical => Rect { y: start, height: extent, ..self },
        }
    }

    /// Does `inner` lie within `self`?
    pub open spec fn encloses(self, inner: Rect) -> bool {
        &&& self.x <= inner.x
        &&& inner.x + inner.width <= self.x + self.width
        &&& self.y <= inner.y
        &&& inner.y + inner.height <= self.y + self.height
    }

    /// Does the rectangle end within the coordinate space?
    pub fn is_wf(&self) -> (r: bool)
        ensures
            r == self.wf(),
    {
        self.width <= u16::MAX - self.x && self.height <= u16::MAX - self.y
    }

    fn start_along(&self, axis: Direction) -> (r: u16)
        ensures
            r == self.start(axis),
    {
        match axis {
            Direction::Horizontal => self.x,
            Direction::Vertical => self.y,
        }
    }

    fn extent_along(&self, axis: Direction) -> (r: u16)
        ensures
            r == self.extent(axis),
    {
        match axis {
            Direction::Horizontal => self.width,
            Direction::Vertical => self.height,
        }
    }

    fn slice_along(&self, axis: Direction, start: u16, extent: u16) -> (r: Rect)
        ensures
            r == self.slice(axis, start, extent),
    {
        match axis {
            Direction::Horizontal => Rect { x: start, y: self.y, width: extent, height: self.height },
            Direction::Vertical => Rect { x: self.x, y: start, width: self.width, height: extent },
        }
    }
}

/// The extents of the rectangles along `axis`.
pub open spec fn extents(axis: Direction, rects: Seq<Rect>) -> Seq<nat> {
    Seq::new(rects.len(), |i: int| rects[i].extent(axis) as nat)
}

/// The sum of the first `n` sizes.
pub open spec fn sum_to(sizes: Seq<nat>, n: nat) -> nat
    decreases n,
{
    if n == 0 || n > sizes.len() {
        0
    } else {
        sum_to(sizes, (n - 1) as nat) + sizes[n - 1]
    }
}

/// The sum of all the sizes.
pub open spec fn sum(sizes: Seq<nat>) -> nat {
    sum_to(sizes, sizes.len())
}

/// Is the policy a ratio?
pub open spec fn is_ratio(policy: Policy) -> bool {
    policy is Ratio
}

/// The weight of a ratio; other policies weigh nothing.
pub open spec fn weight(policy: Policy) -> nat {
    match policy {
        Policy::Ratio(w) => w as nat,
        _ => 0,
    }
}

/// The weights of the policies, in order.
pub open spec fn weights(policies: Seq<Policy>) -> Seq<nat> {
    Seq::new(policies.len(), |i: int| weight(policies[i]))
}

/// The sum of the ratio weights.
pub open spec fn ratio_sum(policies: Seq<Policy>) -> nat {
    sum(weights(policies))
}

/// The position of the last of the first `n` policies that is no ratio, or -1 where all
/// of them are ratios.
pub open spec fn last_fixed(policies: Seq<Policy>, n: nat) -> int
    decreases n,
{
    if n == 0 || n > policies.len() {
        -1
    } else if !is_ratio(policies[n - 1]) {
        n - 1
    } else {
        last_fixed(policies, (n - 1) as nat)
    }
}

/// Does region `i` take all the cells that the regions before it leave? It does where no
/// ratio has any weight and it is the last region that is no ratio.
pub open spec fn grows(policies: Seq<Policy>, i: nat) -> bool {
    ratio_sum(policies) == 0 && last_fixed(policies, policies.len()) == i
}

/// The cells that the regions without a ratio take before region `i`.
pub open spec fn kept_offset(total: nat, policies: Seq<Policy>, sizes: Seq<nat>, i: nat) -> nat
    decreases i, 0nat,
{
    if i == 0 {
        0
    } else {
        kept_offset(total, policies, sizes, (i - 1) as nat) + kept_len(
            total,
            policies,
            sizes,
            (i - 1) as nat,
        )
    }
}

/// The cells that region `i` takes of the size proposed for it, if it is no ratio: the
/// proposed size, clipped to what the regions without a ratio before it leave of `total`;
/// all that they leave, if the region grows. A ratio takes none of these.
pub open spec fn kept_len(total: nat, policies: Seq<Policy>, sizes: Seq<nat>, i: nat) -> nat
    decreases i, 1nat,
{
    let used = kept_offset(total, policies, sizes, i);
    let left = if used <= total {
        (total - used) as nat
    } else {
        0
    };
    if i >= policies.len() || i >= sizes.len() || is_ratio(policies[i as int]) {
        0
    } else if grows(policies, i) || sizes[i as int] > left {
        left
    } else {
        sizes[i as int]
    }
}

/// The cells that the regions without a ratio leave for the ratios.
pub open spec fn remaining(total: nat, policies: Seq<Policy>, sizes: Seq<nat>) -> nat {
    let used = kept_offset(total, policies, sizes, policies.len());
    if used <= total {
        (total - used) as nat
    } else {
        0
    }
}

/// The cells of `rest` that the ratios before region `i` take together: their weights
/// over the sum of all the weights, rounded down.
pub open spec fn quota(policies: Seq<Policy>, rest: nat, i: nat) -> nat {
    if ratio_sum(policies) == 0 {
        0
    } else {
        (sum_to(weights(policies), i) * rest) / ratio_sum(policies)
    }
}

/// The cells of `rest` that the ratio of region `i` takes: what the quota grows by at
/// `i`. This is the one rounding rule: the shares are the steps of the rounded-down
/// running total, so that each is its exact share rounded down or up and together they
/// are `rest`.
pub open spec fn share(policies: Seq<Policy>, rest: nat, i: nat) -> nat {
    let before = quota(policies, rest, i);
    let after = quota(policies, rest, i + 1);
    if before <= after {
        (after - before) as nat
    } else {
        0
    }
}

/// Can any region take cells? One can where some ratio has weight or some region is no
/// ratio. Where every region is a ratio without weight, or there is no region, none can.
pub open spec fn fills(policies: Seq<Policy>) -> bool {
    ratio_sum(policies) > 0 || last_fixed(policies, policies.len()) >= 0
}

/// The cells that a ratio region `i` takes when the regions without a ratio leave `rest`:
/// its share of `rest` where some ratio has weight, and none where no ratio has weight.
pub open spec fn ratio_len(policies: Seq<Policy>, rest: nat, i: nat) -> nat {
    if ratio_sum(policies) > 0 {
        share(policies, rest, i)
    } else {
        0
    }
}

/// The cells that region `i` takes when the proposed `sizes` are fitted into `total`.
pub open spec fn fitted_len(total: nat, policies: Seq<Policy>, sizes: Seq<nat>, i: nat) -> nat {
    if i < policies.len() && is_ratio(policies[i as int]) {
        ratio_len(policies, remaining(total, policies, sizes), i)
    } else {
        kept_len(total, policies, sizes, i)
    }
}

/// The proposed sizes fitted into `total`, in order.
pub open spec fn fitted(total: nat, policies: Seq<Policy>, sizes: Seq<nat>) -> Seq<nat> {
    Seq::new(policies.len(), |i: int| fitted_len(total, policies, sizes, i as nat))
}

/// The regions that split `area` along `axis` by the fitted sizes: each begins where the
/// one before it ends, the first at the start of `area`.
pub open spec fn partition(
    area: Rect,
    axis: Direction,
    policies: Seq<Policy>,
    sizes: Seq<nat>,
) -> Seq<Rect> {
    Seq::new(
        policies.len(),
        |i: int|
            area.slice(
                axis,
                (area.start(axis) + sum_to(
                    fitted(area.extent(axis) as nat, policies, sizes),
                    i as nat,
                )) as u16,
                fitted_len(area.extent(axis) as nat, policies, sizes, i as nat) as u16,
            ),
    )
}

/// The sizes of the regions without a ratio; a ratio counts as nothing.
pub open spec fn fixed_lens(policies: Seq<Policy>, lens: Seq<nat>) -> Seq<nat> {
    Seq::new(
        policies.len(),
        |i: int|
            if is_ratio(policies[i]) {
                0
            } else {
                lens[i]
            },
    )
}

/// The cells of `total` that regions of the sizes `lens` leave for the ratios.
pub open spec fn rest_of(policies: Seq<Policy>, total: nat, lens: Seq<nat>) -> nat {
    let used = sum(fixed_lens(policies, lens));
    if used <= total {
        (total - used) as nat
    } else {
        0
    }
}

/// Every ratio region has the size that its weight gives it of the cells that the other
/// regions leave of `total`.
pub open spec fn shares(policies: Seq<Policy>, total: nat, lens: Seq<nat>) -> bool {
    forall|i: int|
        0 <= i < policies.len() && is_ratio(policies[i]) ==> #[trigger] lens[i] == ratio_len(
            policies,
            rest_of(policies, total, lens),
            i as nat,
        )
}

/// A prefix sum never exceeds a longer one.
pub proof fn lemma_sum_to_monotone(sizes: Seq<nat>, i: nat, j: nat)
    requires
        i <= j <= sizes.len(),
    ensures
        sum_to(sizes, i) <= sum_to(sizes, j),
    decreases j,
{
    if i < j {
        lemma_sum_to_monotone(sizes, i, (j - 1) as nat);
    }
}

/// The last region without a ratio is no ratio, and every region after it is one.
pub proof fn lemma_last_fixed(policies: Seq<Policy>, n: nat)
    requires
        n <= policies.len(),
    ensures
        -1 <= last_fixed(policies, n) < n,
        last_fixed(policies, n) >= 0 ==> !is_ratio(policies[last_fixed(policies, n)]),
        forall|j: int| last_fixed(policies, n) < j < n ==> is_ratio(#[trigger] policies[j]),
    decreases n,
{
    if n > 0 {
        lemma_last_fixed(policies, (n - 1) as nat);
    }
}

/// The regions without a ratio never take more than `total`.
pub proof fn lemma_kept_bound(total: nat, policies: Seq<Policy>, sizes: Seq<nat>, i: nat)
    ensures
        kept_offset(total, policies, sizes, i) <= total,
        kept_offset(total, policies, sizes, i) + kept_len(total, policies, sizes, i) <= total,
    decreases i,
{
    if i > 0 {
        lemma_kept_bound(total, policies, sizes, (i - 1) as nat);
    }
}

/// What the regions without a ratio have taken never shrinks.
pub proof fn lemma_kept_monotone(total: nat, policies: Seq<Policy>, sizes: Seq<nat>, i: nat, j: nat)
    requires
        i <= j,
    ensures
        kept_offset(total, policies, sizes, i) <= kept_offset(total, policies, sizes, j),
    decreases j,
{
    if i < j {
        lemma_kept_monotone(total, policies, sizes, i, (j - 1) as nat);
    }
}

/// Where a region grows, the regions without a ratio take all of `total` from there on.
pub proof fn lemma_kept_full(total: nat, policies: Seq<Policy>, sizes: Seq<nat>, i: nat)
    requires
        sizes.len() == policies.len(),
        ratio_sum(policies) == 0,
        0 <= last_fixed(policies, policies.len()) < i <= policies.len(),
    ensures
        kept_offset(total, policies, sizes, i) == total,
    decreases i,
{
    let last = last_fixed(policies, policies.len());
    lemma_last_fixed(policies, policies.len());
    lemma_kept_bound(total, policies, sizes, (i - 1) as nat);
    if i - 1 > last {
        lemma_kept_full(total, policies, sizes, (i - 1) as nat);
        assert(is_ratio(policies[i - 1]));
    } else {
        assert(grows(policies, (i - 1) as nat));
    }
}

/// The quota starts at nothing, never shrinks, and ends at all of `rest`.
pub proof fn lemma_quota(policies: Seq<Policy>, rest: nat, i: nat, j: nat)
    requires
        ratio_sum(policies) > 0,
        i <= j <= policies.len(),
    ensures
        quota(policies, rest, 0) == 0,
        quota(policies, rest, i) <= quota(policies, rest, j),
        quota(policies, rest, j) <= rest,
        quota(policies, rest, policies.len()) == rest,
{
    let d = ratio_sum(policies) as int;
    let w = weights(policies);
    let a = sum_to(w, i) as int;
    let b = sum_to(w, j) as int;
    let r = rest as int;
    lemma_sum_to_monotone(w, i, j);
    lemma_sum_to_monotone(w, j, policies.len());
    assert(a * r <= b * r <= d * r) by (nonlinear_arith)
        requires
            0 <= a <= b <= d,
            0 <= r,
    ;
    vstd::arithmetic::div_mod::lemma_div_is_ordered(a * r, b * r, d);
    vstd::arithmetic::div_mod::lemma_div_is_ordered(b * r, d * r, d);
    vstd::arithmetic::div_mod::lemma_div_multiples_vanish(r, d);
    assert(d * r == r * d) by (nonlinear_arith);
    assert(0 * r == 0) by (nonlinear_arith);
}

/// A share is the exact share of the weight rounded down or up: never less than the
/// rounded-down quotient, at most one more, and the quotient itself where the division
/// leaves no remainder. A ratio without weight takes nothing.
pub proof fn lemma_share_rounds(policies: Seq<Policy>, rest: nat, i: nat)
    requires
        ratio_sum(policies) > 0,
        i < policies.len(),
    ensures
        (weight(policies[i as int]) * rest) / ratio_sum(policies) <= share(policies, rest, i),
        share(policies, rest, i) <= (weight(policies[i as int]) * rest) / ratio_sum(policies) + 1,
        (weight(policies[i as int]) * rest) % ratio_sum(policies) == 0 ==> share(policies, rest, i)
            == (weight(policies[i as int]) * rest) / ratio_sum(policies),
        weight(policies[i as int]) == 0 ==> share(policies, rest, i) == 0,
{
    let d = ratio_sum(policies) as int;
    let w = weight(policies[i as int]) as int;
    let before = sum_to(weights(policies), i) as int;
    let r = rest as int;
    lemma_quota(policies, rest, i, i + 1);
    assert(sum_to(weights(policies), i + 1) == before + w);
    let a = before * r;
    let b = w * r;
    assert((before + w) * r == a + b && 0 <= a && 0 <= b) by (nonlinear_arith)
        requires
            a == before * r,
            b == w * r,
            0 <= before,
            0 <= w,
            0 <= r,
    ;
    vstd::arithmetic::div_mod::lemma_fundamental_div_mod(a, d);
    vstd::arithmetic::div_mod::lemma_fundamental_div_mod(b, d);
    vstd::arithmetic::div_mod::lemma_fundamental_div_mod(a + b, d);
    let qa = a / d;
    let qb = b / d;
    let qs = (a + b) / d;
    assert(0 <= a % d < d && 0 <= b % d < d && 0 <= (a + b) % d < d);
    assert(qa + qb <= qs <= qa + qb + 1 && (b % d == 0 ==> qs == qa + qb)) by (nonlinear_arith)
        requires
            d > 0,
            a == d * qa + a % d,
            b == d * qb + b % d,
            a + b == d * qs + (a + b) % d,
            0 <= a % d < d,
            0 <= b % d < d,
            0 <= (a + b) % d < d,
    ;
    if w == 0 {
        assert(b == 0) by (nonlinear_arith)
            requires
                b == w * r,
                w == 0,
        ;
    }
}

/// The cells that the regions take before region `i`, in closed form.
pub open spec fn fitted_offset(total: nat, policies: Seq<Policy>, sizes: Seq<nat>, i: nat) -> nat {
    if ratio_sum(policies) > 0 {
        kept_offset(total, policies, sizes, i) + quota(
            policies,
            remaining(total, policies, sizes),
            i,
        )
    } else {
        kept_offset(total, policies, sizes, i)
    }
}

/// The sizes before region `i` sum to the closed form of its offset.
pub proof fn lemma_fitted_offset(total: nat, policies: Seq<Policy>, sizes: Seq<nat>, i: nat)
    requires
        sizes.len() == policies.len(),
        i <= policies.len(),
    ensures
        sum_to(fitted(total, policies, sizes), i) == fitted_offset(total, policies, sizes, i),
    decreases i,
{
    let rest = remaining(total, policies, sizes);
    if i > 0 {
        let k = (i - 1) as nat;
        let lens = fitted(total, policies, sizes);
        lemma_fitted_offset(total, policies, sizes, k);
        lemma_last_fixed(policies, policies.len());
        assert(lens[i - 1] == fitted_len(total, policies, sizes, k));
        assert(sum_to(lens, i) == sum_to(lens, k) + lens[i - 1]);
        assert(kept_offset(total, policies, sizes, i) == kept_offset(total, policies, sizes, k)
            + kept_len(total, policies, sizes, k));
        if ratio_sum(policies) > 0 {
            lemma_quota(policies, rest, k, i);
            assert(weights(policies)[i - 1] == weight(policies[i - 1]));
            assert(sum_to(weights(policies), i) == sum_to(weights(policies), k) + weights(
                policies,
            )[i - 1]);
            if is_ratio(policies[k as int]) {
                assert(lens[i - 1] == share(policies, rest, k));
            } else {
                assert(quota(policies, rest, i) == quota(policies, rest, k));
            }
        }
    } else {
        if ratio_sum(policies) > 0 {
            lemma_quota(policies, rest, 0, 0);
        }
    }
}

/// The regions before any region take at most `total`, and a region ends within `total`.
pub proof fn lemma_fitted_bound(total: nat, policies: Seq<Policy>, sizes: Seq<nat>, i: nat)
    requires
        sizes.len() == policies.len(),
        i < policies.len(),
    ensures
        sum_to(fitted(total, policies, sizes), i) + fitted_len(total, policies, sizes, i) <= total,
{
    let n = policies.len();
    let lens = fitted(total, policies, sizes);
    lemma_fitted_offset(total, policies, sizes, i + 1);
    assert(lens[(i + 1) - 1] == fitted_len(total, policies, sizes, i));
    lemma_kept_bound(total, policies, sizes, n);
    lemma_kept_monotone(total, policies, sizes, i + 1, n);
    if ratio_sum(policies) > 0 {
        lemma_quota(policies, remaining(total, policies, sizes), i + 1, i + 1);
    }
}

/// Where a region can take cells, the fitted sizes sum to exactly `total`; where none
/// can, every size is nothing.
pub proof fn lemma_fitted_sum(total: nat, policies: Seq<Policy>, sizes: Seq<nat>)
    requires
        sizes.len() == policies.len(),
    ensures
        fills(policies) ==> sum(fitted(total, policies, sizes)) == total,
        !fills(policies) ==> sum(fitted(total, policies, sizes)) == 0,
{
    let n = policies.len();
    lemma_fitted_offset(total, policies, sizes, n);
    lemma_kept_bound(total, policies, sizes, n);
    lemma_last_fixed(policies, n);
    if ratio_sum(policies) > 0 {
        lemma_quota(policies, remaining(total, policies, sizes), n, n);
    } else if last_fixed(policies, n) >= 0 {
        lemma_kept_full(total, policies, sizes, n);
    } else {
        lemma_kept_none(total, policies, sizes, n);
    }
}

/// Where every region is a ratio, the regions without a ratio take nothing.
pub proof fn lemma_kept_none(total: nat, policies: Seq<Policy>, sizes: Seq<nat>, i: nat)
    requires
        last_fixed(policies, policies.len()) < 0,
        i <= policies.len(),
    ensures
        kept_offset(total, policies, sizes, i) == 0,
    decreases i,
{
    if i > 0 {
        lemma_last_fixed(policies, policies.len());
        lemma_kept_none(total, policies, sizes, (i - 1) as nat);
        assert(is_ratio(policies[i - 1]));
        assert(kept_len(total, policies, sizes, (i - 1) as nat) == 0);
    }
}

/// Among fitted sizes, the regions without a ratio take what they keep of their
/// proposals.
pub proof fn lemma_fitted_fixed(total: nat, policies: Seq<Policy>, sizes: Seq<nat>, i: nat)
    requires
        sizes.len() == policies.len(),
        i <= policies.len(),
    ensures
        sum_to(fixed_lens(policies, fitted(total, policies, sizes)), i) == kept_offset(
            total,
            policies,
            sizes,
            i,
        ),
    decreases i,
{
    if i > 0 {
        let k = (i - 1) as nat;
        let lens = fitted(total, policies, sizes);
        let fixed = fixed_lens(policies, lens);
        lemma_fitted_fixed(total, policies, sizes, k);
        assert(lens[i - 1] == fitted_len(total, policies, sizes, k));
        assert(sum_to(fixed, i) == sum_to(fixed, k) + fixed[i - 1]);
        assert(kept_offset(total, policies, sizes, i) == kept_offset(total, policies, sizes, k)
            + kept_len(total, policies, sizes, k));
    }
}

/// Fitted sizes give every ratio its share.
pub proof fn lemma_fitted_shares(total: nat, policies: Seq<Policy>, sizes: Seq<nat>)
    requires
        sizes.len() == policies.len(),
    ensures
        shares(policies, total, fitted(total, policies, sizes)),
        rest_of(policies, total, fitted(total, policies, sizes)) == remaining(
            total,
            policies,
            sizes,
        ),
{
    lemma_fitted_fixed(total, policies, sizes, policies.len());
}

/// The regions lie side by side along `axis` from the start of `area`: across the axis
/// each is as `area`, the first begins where `area` begins, and each next one begins where
/// the one before it ends.
pub open spec fn lined(area: Rect, axis: Direction, rects: Seq<Rect>) -> bool {
    &&& forall|i: int|
        0 <= i < rects.len() ==> #[trigger] rects[i] == area.slice(
            axis,
            rects[i].start(axis),
            rects[i].extent(axis),
        )
    &&& forall|i: int|
        0 <= i < rects.len() - 1 ==> (#[trigger] rects[i + 1]).start(axis) == rects[i].start(axis)
            + rects[i].extent(axis)
    &&& rects.len() > 0 ==> rects[0].start(axis) == area.start(axis)
}

/// The regions lie side by side along `axis` and fill `area`: they are lined up from its
/// start, and the last ends where `area` ends.
pub open spec fn tiles(area: Rect, axis: Direction, rects: Seq<Rect>) -> bool {
    &&& lined(area, axis, rects)
    &&& rects.len() > 0 ==> rects.last().start(axis) + rects.last().extent(axis) == area.start(
        axis,
    ) + area.extent(axis)
}

/// The regions split `area` along `axis` by the policies: there is one region for each
/// policy, the regions are lined up from the start of the area, every ratio has its share
/// of the cells that the other regions leave, and where any region can take cells the
/// regions fill the area.
pub open spec fn splits(area: Rect, axis: Direction, policies: Seq<Policy>, rects: Seq<Rect>) -> bool {
    &&& rects.len() == policies.len()
    &&& lined(area, axis, rects)
    &&& shares(policies, area.extent(axis) as nat, extents(axis, rects))
    &&& fills(policies) ==> tiles(area, axis, rects)
}

/// A partition splits its area by the policies.
pub proof fn lemma_partition_splits(
    area: Rect,
    axis: Direction,
    policies: Seq<Policy>,
    sizes: Seq<nat>,
)
    requires
        area.wf(),
        sizes.len() == policies.len(),
    ensures
        extents(axis, partition(area, axis, policies, sizes)) == fitted(
            area.extent(axis) as nat,
            policies,
            sizes,
        ),
        splits(area, axis, policies, partition(area, axis, policies, sizes)),
{
    let total = area.extent(axis) as nat;
    let rects = partition(area, axis, policies, sizes);
    let lens = fitted(total, policies, sizes);
    assert forall|i: int| 0 <= i < rects.len() implies rects[i].start(axis) == area.start(axis)
        + sum_to(lens, i as nat) && rects[i].extent(axis) == lens[i] by {
        lemma_fitted_bound(total, policies, sizes, i as nat);
    }
    assert forall|i: int| 0 <= i < rects.len() - 1 implies (#[trigger] rects[i + 1]).start(axis)
        == rects[i].start(axis) + rects[i].extent(axis) by {
        lemma_fitted_bound(total, policies, sizes, i as nat);
        lemma_fitted_bound(total, policies, sizes, (i + 1) as nat);
        assert(lens[i] == fitted_len(total, policies, sizes, i as nat));
        assert(sum_to(lens, (i + 1) as nat) == sum_to(lens, i as nat) + lens[(i + 1) - 1]);
    }
    lemma_fitted_sum(total, policies, sizes);
    lemma_last_fixed(policies, policies.len());
    if fills(policies) {
        let n = policies.len();
        lemma_fitted_bound(total, policies, sizes, (n - 1) as nat);
        assert(sum_to(lens, n) == sum_to(lens, (n - 1) as nat) + lens[n - 1]);
    }
    assert(extents(axis, rects) =~= lens);
    lemma_fitted_shares(total, policies, sizes);
}

/// Regions that are lined up begin at the start of the area plus the extents of the
/// regions before them.
pub proof fn lemma_tiles_starts(area: Rect, axis: Direction, rects: Seq<Rect>, i: nat)
    requires
        lined(area, axis, rects),
        i < rects.len(),
    ensures
        rects[i as int].start(axis) == area.start(axis) + sum_to(extents(axis, rects), i),
    decreases i,
{
    if i > 0 {
        lemma_tiles_starts(area, axis, rects, (i - 1) as nat);
        assert(rects[(i - 1) + 1].start(axis) == rects[i - 1].start(axis) + rects[i - 1].extent(
            axis,
        ));
    }
}

/// The extents of regions that tile an area sum to exactly the extent of the area.
pub proof fn lemma_tiles_sum(area: Rect, axis: Direction, rects: Seq<Rect>)
    requires
        tiles(area, axis, rects),
        rects.len() > 0,
    ensures
        sum(extents(axis, rects)) == area.extent(axis),
{
    lemma_tiles_starts(area, axis, rects, (rects.len() - 1) as nat);
}

/// Each of the regions that tile an area lies within the area.
pub proof fn lemma_tiles_enclosed(area: Rect, axis: Direction, rects: Seq<Rect>, i: int)
    requires
        tiles(area, axis, rects),
        0 <= i < rects.len(),
    ensures
        area.encloses(rects[i]),
        area.wf() ==> rects[i].wf(),
{
    let e = extents(axis, rects);
    lemma_tiles_starts(area, axis, rects, i as nat);
    lemma_tiles_sum(area, axis, rects);
    lemma_sum_to_monotone(e, (i + 1) as nat, rects.len());
    assert(sum_to(e, (i + 1) as nat) == sum_to(e, i as nat) + e[i]);
    assert(rects[i] == area.slice(axis, rects[i].start(axis), rects[i].extent(axis)));
}

/// Sizes that are all nothing sum to nothing.
pub proof fn lemma_sum_to_nothing(sizes: Seq<nat>, n: nat)
    requires
        forall|j: int| 0 <= j < sizes.len() ==> sizes[j] == 0,
    ensures
        sum_to(sizes, n) == 0,
    decreases n,
{
    if n > 0 && n <= sizes.len() {
        lemma_sum_to_nothing(sizes, (n - 1) as nat);
    }
}

/// Each of the regions that split an area lies within the area.
pub proof fn lemma_splits_enclosed(
    area: Rect,
    axis: Direction,
    policies: Seq<Policy>,
    rects: Seq<Rect>,
    i: int,
)
    requires
        splits(area, axis, policies, rects),
        0 <= i < rects.len(),
    ensures
        area.encloses(rects[i]),
        area.wf() ==> rects[i].wf(),
{
    if fills(policies) {
        lemma_tiles_enclosed(area, axis, rects, i);
    } else {
        let lens = extents(axis, rects);
        lemma_last_fixed(policies, policies.len());
        assert forall|j: int| 0 <= j < lens.len() implies lens[j] == 0 by {
            assert(is_ratio(policies[j]));
        }
        lemma_sum_to_nothing(lens, i as nat);
        lemma_tiles_starts(area, axis, rects, i as nat);
        assert(lens[i] == 0);
        assert(rects[i] == area.slice(axis, rects[i].start(axis), rects[i].extent(axis)));
    }
}

/// Where some ratio has weight, every ratio region has its exact share rounded down or
/// up, and a ratio without weight has no cells. Where no ratio has weight, every ratio
/// region has no cells.
pub proof fn lemma_splits_ratio(
    area: Rect,
    axis: Direction,
    policies: Seq<Policy>,
    rects: Seq<Rect>,
    i: int,
)
    requires
        splits(area, axis, policies, rects),
        0 <= i < rects.len(),
        is_ratio(policies[i]),
    ensures
        ({
            let d = ratio_sum(policies);
            let rest = rest_of(policies, area.extent(axis) as nat, extents(axis, rects));
            let exact = weight(policies[i]) * rest;
            let len = rects[i].extent(axis);
            &&& d == 0 ==> len == 0
            &&& weight(policies[i]) == 0 ==> len == 0
            &&& d > 0 ==> exact / d <= len <= exact / d + 1
            &&& d > 0 && exact % d == 0 ==> len == exact / d
        }),
{
    let lens = extents(axis, rects);
    let rest = rest_of(policies, area.extent(axis) as nat, lens);
    assert(lens[i] == ratio_len(policies, rest, i as nat));
    if ratio_sum(policies) > 0 {
        lemma_share_rounds(policies, rest, i as nat);
    }
}

/// What the solver is asked for a policy, given the sum of the ratio weights. A ratio is
/// its weight over that sum; where the sum is zero, so is the weight, and the region asks
/// for no cells.
pub open spec fn constraint_of(policy: Policy, denom: u32) -> Constraint {
    match policy {
        Policy::Fixed(n) => Constraint::Length(n),
        Policy::Max(n) => Constraint::Max(n),
        Policy::Min(n) => Constraint::Min(n),
        Policy::Ratio(w) => if denom == 0 {
            Constraint::Length(0)
        } else {
            Constraint::Ratio(w, denom)
        },
    }
}

/// No ratio divides by zero.
pub open spec fn solvable(constraints: Seq<Constraint>) -> bool {
    forall|i: int|
        0 <= i < constraints.len() ==> match #[trigger] constraints[i] {
            Constraint::Ratio(_, d) => d > 0,
            _ => true,
        }
}

/// Sums the ratio weights.
pub fn denominator(policies: &Vec<Policy>) -> (d: u32)
    requires
        ratio_sum(policies@) <= u32::MAX,
    ensures
        d == ratio_sum(policies@),
{
    let mut d: u32 = 0;
    let mut i: usize = 0;
    while i < policies.len()
        invariant
            i <= policies.len(),
            d == sum_to(weights(policies@), i as nat),
            ratio_sum(policies@) <= u32::MAX,
        decreases policies.len() - i,
    {
        proof {
            lemma_sum_to_monotone(weights(policies@), (i + 1) as nat, policies@.len());
        }
        match policies[i] {
            Policy::Ratio(w) => {
                d = d + w;
            },
            _ => {},
        }
        i += 1;
    }
    d
}

/// Do the ratio weights sum to at most `u32::MAX`?
pub fn ratios_fit(policies: &Vec<Policy>) -> (b: bool)
    ensures
        b == (ratio_sum(policies@) <= u32::MAX),
{
    let mut d: u32 = 0;
    let mut i: usize = 0;
    while i < policies.len()
        invariant
            i <= policies.len(),
            d == sum_to(weights(policies@), i as nat),
        decreases policies.len() - i,
    {
        proof {
            lemma_sum_to_monotone(weights(policies@), (i + 1) as nat, policies@.len());
        }
        match policies[i] {
            Policy::Ratio(w) => {
                if w > u32::MAX - d {
                    return false;
                }
                d = d + w;
            },
            _ => {},
        }
        i += 1;
    }
    true
}

/// Maps a policy to what the solver is asked for it.
pub fn to_constraint(policy: Policy, denom: u32) -> (c: Constraint)
    ensures
        c == constraint_of(policy, denom),
{
    match policy {
        Policy::Fixed(n) => Constraint::Length(n),
        Policy::Max(n) => Constraint::Max(n),
        Policy::Min(n) => Constraint::Min(n),
        Policy::Ratio(w) => if denom == 0 {
            Constraint::Length(0)
        } else {
            Constraint::Ratio(w, denom)
        },
    }
}

/// Calls `tui::layout::Layout::split` on a layout without margin, which hands back one
/// rectangle for each constraint.
///
/// Which cells a rectangle takes is the solver's choice. It weighs the requests against
/// each other over hash maps whose order changes from run to run, so one request need not
/// get one answer, and nothing but the number of rectangles is claimed here. An area that
/// ends outside the coordinate space is left out because the solver's own bounds then
/// contradict each other and the call fails; a ratio over zero is left out because it is
/// not a number.
#[verifier::external_body]
fn split(area: Rect, axis: Direction, constraints: &Vec<Constraint>) -> (chunks: Vec<Rect>)
    requires
        area.wf(),
        solvable(constraints@),
    ensures
        chunks@.len() == constraints@.len(),
{
    let Rect { x, y, width, height } = area;
    let asked: Vec<Asked> = constraints.iter().map(|c| match *c {
        Constraint::Ratio(n, d) => Asked::Ratio(n, d),
        Constraint::Length(n) => Asked::Length(n),
        Constraint::Max(n) => Asked::Max(n),
        Constraint::Min(n) => Asked::Min(n),
    }).collect();
    let direction = match axis {
        Direction::Horizontal => Axis::Horizontal,
        Direction::Vertical => Axis::Vertical,
    };
    let found = Layout::default().direction(direction).constraints(asked).split(Area { x, y, width, height });
    found.iter().map(|&Area { x, y, width, height }| Rect { x, y, width, height }).collect()
}

fn last_without_ratio(policies: &Vec<Policy>) -> (r: Option<usize>)
    ensures
        r is None <==> last_fixed(policies@, policies@.len()) < 0,
        r is Some ==> r->0 == last_fixed(policies@, policies@.len()),
{
    let mut r: Option<usize> = None;
    let mut i: usize = 0;
    while i < policies.len()
        invariant
            i <= policies.len(),
            r is None <==> last_fixed(policies@, i as nat) < 0,
            r is Some ==> r->0 == last_fixed(policies@, i as nat),
        decreases policies.len() - i,
    {
        match policies[i] {
            Policy::Ratio(_) => {},
            _ => {
                r = Some(i);
            },
        }
        i += 1;
    }
    r
}

fn at(index: Option<usize>, i: usize) -> (r: bool)
    ensures
        r == (index == Some(i)),
{
    match index {
        Some(k) => k == i,
        None => false,
    }
}

/// Lays the regions out along `axis` so that they tile `area`, from the sizes that
/// `chunks` propose.
///
/// A region without a ratio keeps its proposed extent as far as the regions without a
/// ratio before it leave room. The ratios divide what those regions leave, by weight and
/// by the rounding rule of [`share`]. Where no ratio has weight, every ratio gets no cells
/// and the last region without a ratio takes the cells that are left; where every region
/// is a ratio without weight, no region takes any cell.
pub fn fit_area(area: Rect, axis: Direction, policies: &Vec<Policy>, chunks: &Vec<Rect>) -> (r:
    Vec<Rect>)
    requires
        area.wf(),
        chunks@.len() == policies@.len(),
        ratio_sum(policies@) <= u32::MAX,
    ensures
        r@ == partition(area, axis, policies@, extents(axis, chunks@)),
{
    let ghost sizes = extents(axis, chunks@);
    let n = policies.len();
    let total: u16 = area.extent_along(axis);
    let denom = denominator(policies);
    let last = last_without_ratio(policies);
    let mut kept: Vec<u16> = Vec::new();
    let mut used: u16 = 0;
    let mut i: usize = 0;
    while i < n
        invariant
            i <= n,
            n == policies.len(),
            chunks@.len() == n,
            sizes == extents(axis, chunks@),
            total == area.extent(axis),
            denom == ratio_sum(policies@),
            last is None <==> last_fixed(policies@, policies@.len()) < 0,
            last is Some ==> last->0 == last_fixed(policies@, policies@.len()),
            kept@.len() == i,
            used == kept_offset(total as nat, policies@, sizes, i as nat),
            used <= total,
            forall|j: int|
                0 <= j < i ==> #[trigger] kept@[j] == kept_len(
                    total as nat,
                    policies@,
                    sizes,
                    j as nat,
                ),
        decreases n - i,
    {
        proof {
            lemma_kept_bound(total as nat, policies@, sizes, i as nat);
        }
        let len: u16 = match policies[i] {
            Policy::Ratio(_) => 0,
            _ => {
                let left: u16 = total - used;
                let want: u16 = chunks[i].extent_along(axis);
                if (denom == 0 && at(last, i)) || want > left {
                    left
                } else {
                    want
                }
            },
        };
        assert(len == kept_len(total as nat, policies@, sizes, i as nat));
        kept.push(len);
        used = used + len;
        i += 1;
    }
    let rest: u16 = total - used;
    assert(rest == remaining(total as nat, policies@, sizes));
    let ghost lens = fitted(total as nat, policies@, sizes);
    let mut out: Vec<Rect> = Vec::new();
    let mut pos: u16 = area.start_along(axis);
    let mut seen: u64 = 0;
    let mut k: usize = 0;
    while k < n
        invariant
            k <= n,
            n == policies.len(),
            area.wf(),
            sizes.len() == n,
            total == area.extent(axis),
            denom == ratio_sum(policies@),
            ratio_sum(policies@) <= u32::MAX,
            rest == remaining(total as nat, policies@, sizes),
            lens == fitted(total as nat, policies@, sizes),
            kept@.len() == n,
            forall|j: int|
                0 <= j < n ==> #[trigger] kept@[j] == kept_len(
                    total as nat,
                    policies@,
                    sizes,
                    j as nat,
                ),
            seen == sum_to(weights(policies@), k as nat),
            pos == area.start(axis) + sum_to(lens, k as nat),
            out@ == partition(area, axis, policies@, sizes).take(k as int),
        decreases n - k,
    {
        proof {
            lemma_fitted_bound(total as nat, policies@, sizes, k as nat);
            lemma_sum_to_monotone(weights(policies@), (k + 1) as nat, n as nat);
            assert(sum_to(weights(policies@), (k + 1) as nat) == seen + weight(policies@[k as int]));
        }
        let len: u16 = match policies[k] {
            Policy::Ratio(w) => {
                if denom > 0 {
                    proof {
                        lemma_quota(policies@, rest as nat, k as nat, (k + 1) as nat);
                        assert((seen + w) * rest <= 0xffff_ffff * 0xffff && seen * rest
                            <= 0xffff_ffff * 0xffff) by (nonlinear_arith)
                            requires
                                0 <= seen,
                                seen + w <= 0xffff_ffff,
                                0 <= w,
                                0 <= rest <= 0xffff,
                        ;
                    }
                    let after: u64 = (seen + w as u64) * (rest as u64) / (denom as u64);
                    let before: u64 = seen * (rest as u64) / (denom as u64);
                    seen = seen + w as u64;
                    (after - before) as u16
                } else {
                    0
                }
            },
            _ => kept[k],
        };
        assert(len == fitted_len(total as nat, policies@, sizes, k as nat));
        assert(lens[k as int] == len);
        out.push(area.slice_along(axis, pos, len));
        assert(out@ =~= partition(area, axis, policies@, sizes).take(k + 1));
        pos = pos + len;
        k += 1;
    }
    assert(out@ =~= partition(area, axis, policies@, sizes));
    out
}

/// Splits `area` along `axis` into one region for each policy, in order.
///
/// The solver of `tui` is asked for `Fixed(n)` as exactly `n` cells, `Max(n)` as at most
/// `n`, `Min(n)` as at least `n`, and a ratio as its weight over the sum of the weights.
/// What it proposes is then fitted into the area by [`fit_area`]: the regions without a
/// ratio keep what the solver proposed as far as there is room, and the ratios divide the
/// cells that those regions leave. The sizes sum to the extent of the area but where no
/// region can take cells: with no region at all, or with none but ratios without weight.
pub fn solve(area: Rect, policies: &Vec<Policy>, axis: Direction) -> (r: Vec<Rect>)
    requires
        area.wf(),
        ratio_sum(policies@) <= u32::MAX,
    ensures
        splits(area, axis, policies@, r@),
        fills(policies@) ==> sum(extents(axis, r@)) == area.extent(axis),
        !fills(policies@) ==> sum(extents(axis, r@)) == 0,
{
    let denom = denominator(policies);
    let mut asked: Vec<Constraint> = Vec::new();
    let mut i: usize = 0;
    while i < policies.len()
        invariant
            i <= policies.len(),
            asked@.len() == i,
            forall|j: int| 0 <= j < i ==> #[trigger] asked@[j] == constraint_of(policies@[j], denom),
        decreases policies.len() - i,
    {
        asked.push(to_constraint(policies[i], denom));
        i += 1;
    }
    let chunks = split(area, axis, &asked);
    let r = fit_area(area, axis, policies, &chunks);
    proof {
        lemma_partition_splits(area, axis, policies@, extents(axis, chunks@));
        lemma_fitted_sum(area.extent(axis) as nat, policies@, extents(axis, chunks@));
    }
    r
}

/// Whatever the policies and the sum of their weights, no ratio handed to the solver has a
/// zero denominator.
pub proof fn lemma_no_division_by_zero(policies: Seq<Policy>, denom: u32)
    ensures
        solvable(Seq::new(policies.len(), |i: int| constraint_of(policies[i], denom))),
{
}

/// A sum of sizes is at least the sum of sizes that are nowhere larger.
pub proof fn lemma_sum_to_le(small: Seq<nat>, large: Seq<nat>, n: nat)
    requires
        small.len() == large.len(),
        forall|j: int| 0 <= j < small.len() ==> small[j] <= large[j],
    ensures
        sum_to(small, n) <= sum_to(large, n),
    decreases n,
{
    if n > 0 && n <= small.len() {
        lemma_sum_to_le(small, large, (n - 1) as nat);
    }
}

/// Where any region can take cells, the regions without a ratio and the cells left for
/// the ratios make up the area: the ratio regions together take exactly what is left.
pub proof fn lemma_splits_sum(area: Rect, axis: Direction, policies: Seq<Policy>, rects: Seq<Rect>)
    requires
        splits(area, axis, policies, rects),
        fills(policies),
    ensures
        sum(extents(axis, rects)) == area.extent(axis),
        sum(extents(axis, rects)) == sum(fixed_lens(policies, extents(axis, rects))) + rest_of(
            policies,
            area.extent(axis) as nat,
            extents(axis, rects),
        ),
{
    let lens = extents(axis, rects);
    lemma_last_fixed(policies, policies.len());
    lemma_tiles_sum(area, axis, rects);
    lemma_sum_to_le(fixed_lens(policies, lens), lens, policies.len());
}

} // verus!
