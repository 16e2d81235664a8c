//! How a row shares out its width: the items keep their natural widths, and
//! what is left of the target width is divided among the gaps between them,
//! so that the row ends exactly on the target.

use vstd::arithmetic::div_mod::{lemma_fundamental_div_mod, lemma_fundamental_div_mod_converse};
use vstd::arithmetic::div_mod::lemma_mod_bound;
use vstd::prelude::*;

verus! {

/// The sum of the widths.
pub open spec fn content_width(widths: Seq<nat>) -> nat
    decreases widths.len(),
{
    if widths.len() == 0 {
        0
    } else {
        content_width(widths.drop_last()) + widths.last()
    }
}

/// The room that the items leave of the target width. It is negative where
/// the items are wider than the target.
pub open spec fn extra_room(target: int, widths: Seq<nat>) -> int {
    target - content_width(widths)
}

/// The gap given to every space between two items: the extra room divided by
/// the number of gaps, rounded down. It is negative where the items are wider
/// than the target: the items then overlap.
pub open spec fn base_gap(target: int, widths: Seq<nat>) -> int {
    extra_room(target, widths) / (widths.len() - 1)
}

/// What the division leaves over. It goes to the last gap.
pub open spec fn remainder(target: int, widths: Seq<nat>) -> int {
    extra_room(target, widths) % (widths.len() - 1)
}

/// The gap that follows item `i`. The last item has none, and a row of fewer
/// than two items has no gaps at all.
pub open spec fn gap_after(target: int, widths: Seq<nat>, i: int) -> int {
    if widths.len() < 2 || i < 0 || i + 1 >= widths.len() {
        0
    } else if i + 2 == widths.len() {
        base_gap(target, widths) + remainder(target, widths)
    } else {
        base_gap(target, widths)
    }
}

/// How far right of the row's origin item `i` starts: the widths of the items
/// before it and the gaps that follow them.
pub open spec fn offset(target: int, widths: Seq<nat>, i: nat) -> int
    decreases i,
{
    if i == 0 || i > widths.len() {
        0
    } else {
        offset(target, widths, (i - 1) as nat) + widths[i - 1] + gap_after(target, widths, i - 1)
    }
}

/// The gaps that follow the first `k` items, added up.
pub open spec fn gaps_before(target: int, widths: Seq<nat>, k: nat) -> int
    decreases k,
{
    if k == 0 {
        0
    } else {
        gaps_before(target, widths, (k - 1) as nat) + gap_after(target, widths, k - 1)
    }
}

/// The widths of the first `i` items, added up.
pub open spec fn width_before(widths: Seq<nat>, i: nat) -> nat {
    content_width(widths.take(i as int))
}

/// The widths of the first `i + 1` items are those of the first `i` and the
/// width of item `i`.
pub proof fn lemma_width_before_step(widths: Seq<nat>, i: nat)
    requires
        i < widths.len(),
    ensures
        width_before(widths, i + 1) == width_before(widths, i) + widths[i as int],
{
    assert(widths.take(i + 1 as int).drop_last() == widths.take(i as int));
}

/// Before the first item lies no width, and before the end of the row lies
/// the width of all the items.
pub proof fn lemma_width_before_ends(widths: Seq<nat>)
    ensures
        width_before(widths, 0) == 0,
        width_before(widths, widths.len()) == content_width(widths),
{
    assert(widths.take(0).len() == 0);
    assert(widths.take(widths.len() as int) == widths);
}

/// Before the last gap every gap is the base gap: item `i` starts after the
/// widths before it and `i` base gaps.
pub proof fn lemma_offset_before_last(target: int, widths: Seq<nat>, i: nat)
    requires
        widths.len() >= 2,
        i + 1 < widths.len(),
    ensures
        offset(target, widths, i) == width_before(widths, i) + i * base_gap(target, widths),
    decreases i,
{
    let base = base_gap(target, widths);
    if i > 0 {
        lemma_offset_before_last(target, widths, (i - 1) as nat);
        lemma_width_before_step(widths, (i - 1) as nat);
        assert(gap_after(target, widths, i - 1) == base);
        assert((i - 1) * base + base == i * base) by (nonlinear_arith);
    } else {
        lemma_width_before_ends(widths);
        assert(0 * base == 0) by (nonlinear_arith);
    }
}

/// Item `i` starts after the widths of the items before it and the gaps that
/// follow them.
pub proof fn lemma_offset_is_widths_and_gaps(target: int, widths: Seq<nat>, i: nat)
    requires
        i <= widths.len(),
    ensures
        offset(target, widths, i) == width_before(widths, i) + gaps_before(target, widths, i),
    decreases i,
{
    if i > 0 {
        lemma_offset_is_widths_and_gaps(target, widths, (i - 1) as nat);
        lemma_width_before_step(widths, (i - 1) as nat);
    } else {
        lemma_width_before_ends(widths);
    }
}

/// A row of two or more items ends exactly on the target: the widths and the
/// gaps add up to it. Every gap is at least the extra room divided by the
/// number of gaps, rounded down; every gap but the last is exactly that, and
/// the last is larger by what the division leaves over, which is less than
/// the number of gaps.
pub proof fn lemma_row_fills_target(target: int, widths: Seq<nat>)
    requires
        widths.len() >= 2,
    ensures
        content_width(widths) + gaps_before(target, widths, (widths.len() - 1) as nat) == target,
        offset(target, widths, (widths.len() - 1) as nat) + widths.last() == target,
        0 <= remainder(target, widths) < widths.len() - 1,
        forall|i: int|
            0 <= i < widths.len() - 1 ==> #[trigger] gap_after(target, widths, i) >= base_gap(
                target,
                widths,
            ),
        forall|i: int|
            0 <= i < widths.len() - 2 ==> #[trigger] gap_after(target, widths, i) == base_gap(
                target,
                widths,
            ),
        gap_after(target, widths, widths.len() - 2) == base_gap(target, widths) + remainder(
            target,
            widths,
        ),
{
    let n = widths.len();
    let count = n - 1;
    let base = base_gap(target, widths);
    let extra = extra_room(target, widths);
    lemma_mod_bound(extra, count);
    lemma_fundamental_div_mod(extra, count);
    lemma_offset_before_last(target, widths, (n - 2) as nat);
    lemma_width_before_step(widths, (n - 2) as nat);
    lemma_width_before_step(widths, (n - 1) as nat);
    lemma_width_before_ends(widths);
    assert(offset(target, widths, (n - 1) as nat) == offset(target, widths, (n - 2) as nat)
        + widths[n - 2] + gap_after(target, widths, n - 2));
    assert((n - 2) * base + base == count * base) by (nonlinear_arith)
        requires
            count == n - 1,
    ;
    lemma_offset_is_widths_and_gaps(target, widths, (n - 1) as nat);
}

/// Divides the extra room of a row of `count` items among its gaps, and
/// returns the base gap and the last gap.
fn spread(target: u32, content: u128, count: usize) -> (gaps: (i128, i128))
    requires
        count >= 2,
        content <= 0xffff_ffff_ffff_ffff_ffff_ffff,
    ensures
        gaps.0 == (target - content) / (count - 1),
        gaps.1 == gaps.0 + (target - content) % (count - 1),
        -0x1_0000_0000_0000_0000_0000_0000 <= gaps.0 <= 0x1_0000_0000,
        -0x1_0000_0000_0000_0000_0000_0000 <= gaps.1 <= 0x2_0000_0000_0000_0000,
{
    let slots: u128 = (count - 1) as u128;
    let ghost extra: int = target - content;
    if content <= target as u128 {
        let room: u128 = target as u128 - content;
        let base = room / slots;
        let left = room % slots;
        ((base as i128), (base + left) as i128)
    } else {
        let lack: u128 = content - target as u128;
        let mut steps = lack / slots;
        let mut left: u128 = 0;
        proof {
            lemma_fundamental_div_mod(lack as int, slots as int);
            lemma_mod_bound(lack as int, slots as int);
        }
        if lack % slots != 0 {
            left = slots - lack % slots;
            steps = steps + 1;
        }
        let base: i128 = -(steps as i128);
        proof {
            assert(extra == (-steps) * slots + left) by (nonlinear_arith)
                requires
                    extra == -lack,
                    lack == slots * (lack / slots) + lack % slots,
                    lack % slots != 0 ==> steps == lack / slots + 1 && left == slots - lack % slots,
                    lack % slots == 0 ==> steps == lack / slots && left == 0,
            ;
            lemma_fundamental_div_mod_converse(extra, slots as int, -steps, left as int);
        }
        (base, base + left as i128)
    }
}

/// Widths as numbers without a bound.
pub open spec fn as_nats(widths: Seq<u32>) -> Seq<nat> {
    Seq::new(widths.len(), |i: int| widths[i] as nat)
}

/// Widths of at most `cap` each add up to at most `cap` times their number,
/// and the first `i` of them to no more than all of them.
pub proof fn lemma_content_bound(widths: Seq<nat>, cap: nat, i: nat)
    requires
        forall|k: int| 0 <= k < widths.len() ==> #[trigger] widths[k] <= cap,
        i <= widths.len(),
    ensures
        content_width(widths) <= widths.len() * cap,
        width_before(widths, i) <= content_width(widths),
    decreases widths.len(),
{
    if widths.len() == 0 {
        assert(widths.take(i as int) == widths);
        assert(0 * cap == 0) by (nonlinear_arith);
    } else {
        let front = widths.drop_last();
        assert forall|k: int| 0 <= k < front.len() implies #[trigger] front[k] <= cap by {
            assert(front[k] == widths[k]);
        }
        assert(widths.last() == widths[widths.len() - 1]);
        if i == widths.len() {
            lemma_content_bound(front, cap, (i - 1) as nat);
            assert(widths.take(i as int) == widths);
        } else {
            lemma_content_bound(front, cap, i);
            assert(front.take(i as int) == widths.take(i as int));
        }
        assert((widths.len() - 1) * cap + cap == widths.len() * cap) by (nonlinear_arith);
    }
}

/// Where the target and every width fit 32 bits, and there are no more than
/// 2^64 items, every item starts within 2^100 of the row's origin.
pub proof fn lemma_offset_bounds(target: int, widths: Seq<nat>, i: nat)
    requires
        0 <= target <= u32::MAX,
        forall|k: int| 0 <= k < widths.len() ==> #[trigger] widths[k] <= u32::MAX,
        widths.len() <= u64::MAX,
        i < widths.len(),
    ensures
        -0x10_0000_0000_0000_0000_0000_0000 <= offset(target, widths, i)
            <= 0x10_0000_0000_0000_0000_0000_0000,
{
    let n = widths.len();
    lemma_content_bound(widths, u32::MAX as nat, i);
    assert(n * (u32::MAX as nat) <= 0xffff_ffff_ffff_ffff * 0xffff_ffff) by (nonlinear_arith)
        requires
            n <= 0xffff_ffff_ffff_ffff,
    ;
    if n < 2 {
        assert(offset(target, widths, 0) == 0);
    } else if i + 1 == n {
        lemma_row_fills_target(target, widths);
        assert(widths.last() == widths[n - 1]);
    } else {
        lemma_offset_before_last(target, widths, i);
        let count = n - 1;
        let base = base_gap(target, widths);
        let extra = extra_room(target, widths);
        lemma_fundamental_div_mod(extra, count);
        lemma_mod_bound(extra, count);
        let rest = extra % count;
        assert(extra == count * base + rest);
        if base >= 0 {
            assert(0 <= i * base <= extra) by (nonlinear_arith)
                requires
                    extra == count * base + rest,
                    0 <= rest,
                    0 <= i < count,
                    base >= 0,
            ;
        } else {
            assert(extra - count <= i * base <= 0) by (nonlinear_arith)
                requires
                    extra == count * base + rest,
                    rest < count,
                    0 <= i < count,
                    base < 0,
            ;
        }
    }
}

/// Where each item of a row starts, to the right of the row's origin, when
/// the row is spread over `target`: see `offset`.
pub fn offsets(target: u32, widths: &Vec<u32>) -> (starts: Vec<i128>)
    ensures
        starts@.len() == widths@.len(),
        forall|i: int|
            0 <= i < widths@.len() ==> #[trigger] starts@[i] == offset(
                target as int,
                as_nats(widths@),
                i as nat,
            ),
        forall|i: int|
            0 <= i < widths@.len() ==> -0x10_0000_0000_0000_0000_0000_0000 <= #[trigger] starts@[i]
                <= 0x10_0000_0000_0000_0000_0000_0000,
{
    let n = widths.len();
    let ghost nats = as_nats(widths@);
    let mut content: u128 = 0;
    let mut k: usize = 0;
    proof {
        lemma_width_before_ends(nats);
    }
    while k < n
        invariant
            k <= n,
            n == widths.len(),
            nats == as_nats(widths@),
            content == width_before(nats, k as nat),
            content <= k * 0xffff_ffff,
        decreases n - k,
    {
        proof {
            lemma_width_before_step(nats, k as nat);
        }
        content = content + widths[k] as u128;
        k = k + 1;
    }
    proof {
        lemma_width_before_ends(nats);
    }
    let (base, last): (i128, i128) = if n >= 2 {
        spread(target, content, n)
    } else {
        (0, 0)
    };
    let mut starts: Vec<i128> = Vec::new();
    let mut cursor: i128 = 0;
    let mut i: usize = 0;
    while i < n
        invariant
            i <= n,
            n == widths.len(),
            nats == as_nats(widths@),
            starts@.len() == i,
            forall|j: int|
                0 <= j < i ==> #[trigger] starts@[j] == offset(target as int, nats, j as nat),
            forall|j: int|
                0 <= j < i ==> -0x10_0000_0000_0000_0000_0000_0000 <= #[trigger] starts@[j]
                    <= 0x10_0000_0000_0000_0000_0000_0000,
            forall|j: int|
                0 <= j < n ==> #[trigger] gap_after(target as int, nats, j) == (if j + 2 == n {
                    last as int
                } else if j + 2 < n {
                    base as int
                } else {
                    0
                }),
            -0x1_0000_0000_0000_0000_0000_0000 <= base <= 0x1_0000_0000,
            -0x1_0000_0000_0000_0000_0000_0000 <= last <= 0x2_0000_0000_0000_0000,
            -0x10_0000_0000_0000_0000_0000_0000 <= cursor <= 0x10_0000_0000_0000_0000_0000_0000,
            i < n ==> cursor == offset(target as int, nats, i as nat),
        decreases n - i,
    {
        starts.push(cursor);
        if n - i > 1 {
            let gap: i128 = if n - i == 2 {
                last
            } else {
                base
            };
            assert(gap == gap_after(target as int, nats, i as int));
            proof {
                lemma_offset_bounds(target as int, nats, (i + 1) as nat);
            }
            cursor = cursor + widths[i] as i128 + gap;
        }
        i = i + 1;
    }
    starts
}

} // verus!
