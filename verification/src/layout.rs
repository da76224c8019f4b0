//! Placing the segments on the bar.
//!
//! All segments of all slots, slot after slot, form one row. The row is as
//! high as its tallest segment. A segment that does not stretch keeps its own
//! width; the segments that stretch share evenly what the others leave of the
//! bar's width, so that the row fills the bar: where that room cannot be cut
//! into even shares of whole pixels, the first stretching segments get one
//! pixel more than the others. The segments stand side by side from the left
//! edge.

use crate::text::{ComputedText, ComputedTextView};
use vstd::prelude::*;

verus! {

/// A row of segments.
pub type Row = Seq<ComputedTextView>;

/// The segments of one slot, as mathematical values.
pub open spec fn slot_view(slot: Seq<ComputedText>) -> Row {
    Seq::new(slot.len(), |j: int| slot[j]@)
}

/// The slots of a bar, as mathematical values.
pub open spec fn slots_view(slots: Seq<Vec<ComputedText>>) -> Seq<Row> {
    Seq::new(slots.len(), |i: int| slot_view(slots[i]@))
}

/// The height of the tallest segment of a row; zero for the empty row.
pub open spec fn max_height(row: Row) -> nat
    decreases row.len(),
{
    if row.len() == 0 {
        0
    } else {
        let rest = max_height(row.drop_last());
        if row.last().height > rest {
            row.last().height
        } else {
            rest
        }
    }
}

/// The widths of the segments that do not stretch, added up.
pub open spec fn used_width(row: Row) -> nat
    decreases row.len(),
{
    if row.len() == 0 {
        0
    } else {
        used_width(row.drop_last()) + if row.last().stretch {
            0
        } else {
            row.last().width
        }
    }
}

/// How many segments of a row stretch.
pub open spec fn stretch_count(row: Row) -> nat
    decreases row.len(),
{
    if row.len() == 0 {
        0
    } else {
        stretch_count(row.drop_last()) + if row.last().stretch {
            1nat
        } else {
            0nat
        }
    }
}

/// What the segments that do not stretch leave of the bar's width; zero where
/// they are wider than the bar.
pub open spec fn remaining_width(row: Row, bar_width: nat) -> nat {
    if bar_width >= used_width(row) {
        (bar_width - used_width(row)) as nat
    } else {
        0
    }
}

/// The width that every stretching segment gets at least: an even share of
/// what is left, rounded down. Where nothing stretches there is nothing to
/// share.
pub open spec fn stretch_width(row: Row, bar_width: nat) -> nat {
    if stretch_count(row) == 0 {
        0
    } else {
        remaining_width(row, bar_width) / stretch_count(row)
    }
}

/// The pixels that are left over when every stretching segment has its even
/// share. There are fewer of them than stretching segments.
pub open spec fn stretch_extra(row: Row, bar_width: nat) -> nat {
    if stretch_count(row) == 0 {
        0
    } else {
        remaining_width(row, bar_width) % stretch_count(row)
    }
}

/// How the room that is left is shared: every stretching segment gets `each`,
/// and the first `extra` of them, in the order of the row, one pixel more.
pub struct Shares {
    pub each: nat,
    pub extra: nat,
}

/// How a row shares what is left of a bar of the given width.
pub open spec fn shares(row: Row, bar_width: nat) -> Shares {
    Shares { each: stretch_width(row, bar_width), extra: stretch_extra(row, bar_width) }
}

/// The share of the stretching segment that has `rank` stretching segments
/// before it.
pub open spec fn share_at(shares: Shares, rank: nat) -> nat {
    if rank < shares.extra {
        shares.each + 1
    } else {
        shares.each
    }
}

/// The width of a segment once it is placed. `rank` says how many stretching
/// segments stand before it.
pub open spec fn placed_width(segment: ComputedTextView, shares: Shares, rank: nat) -> nat {
    if segment.stretch {
        share_at(shares, rank)
    } else {
        segment.width
    }
}

/// The placed widths of a row, added up. `rank` says how many stretching
/// segments stand before the row.
pub open spec fn span(row: Row, shares: Shares, rank: nat) -> nat
    decreases row.len(),
{
    if row.len() == 0 {
        0
    } else {
        span(row.drop_last(), shares, rank) + placed_width(
            row.last(),
            shares,
            rank + stretch_count(row.drop_last()),
        )
    }
}

/// A segment at its place: at `x` on the top edge, as high as the row.
pub open spec fn placed(
    segment: ComputedTextView,
    x: nat,
    shares: Shares,
    rank: nat,
    height: nat,
) -> ComputedTextView {
    ComputedTextView { x, y: 0, width: placed_width(segment, shares, rank), height, ..segment }
}

/// A row placed from `x` on, each segment next to the one before. `rank` says
/// how many stretching segments stand before the row.
pub open spec fn placed_row(row: Row, x: nat, shares: Shares, rank: nat, height: nat) -> Row {
    Seq::new(
        row.len(),
        |j: int|
            placed(
                row[j],
                x + span(row.take(j), shares, rank),
                shares,
                rank + stretch_count(row.take(j)),
                height,
            ),
    )
}

/// A row laid out on a bar of the given width.
pub open spec fn laid_out(row: Row, bar_width: nat) -> Row {
    placed_row(row, 0, shares(row, bar_width), 0, max_height(row))
}

/// Where slot `i` begins in the row of all segments.
pub open spec fn slot_start(slots: Seq<Row>, i: int) -> int {
    slots.take(i).flatten().len() as int
}

/// The slots of a bar after a full layout: the row of all their segments is
/// laid out, and each slot holds its part of that row.
pub open spec fn resolved(slots: Seq<Row>, bar_width: nat) -> Seq<Row> {
    Seq::new(
        slots.len(),
        |i: int|
            laid_out(slots.flatten(), bar_width).subrange(
                slot_start(slots, i),
                slot_start(slots, i) + slots[i].len(),
            ),
    )
}

/// Why a layout could not be made.
#[derive(Clone, Copy, Debug, PartialEq, Eq, Structural)]
pub enum LayoutError {
    /// The segments that do not stretch are together wider than a position
    /// on the bar can say.
    TooWide,
}

/// A prefix with one more element is the prefix with that element pushed.
pub proof fn lemma_take_next<A>(s: Seq<A>, i: int)
    requires
        0 <= i < s.len(),
    ensures
        s.take(i + 1) =~= s.take(i).push(s[i]),
        s.take(i + 1).drop_last() =~= s.take(i),
        s.take(i + 1).last() == s[i],
{
}

/// The measures of two rows in a line are made of the measures of each.
pub proof fn lemma_concat(a: Row, b: Row, shares: Shares, rank: nat)
    ensures
        used_width(a + b) == used_width(a) + used_width(b),
        stretch_count(a + b) == stretch_count(a) + stretch_count(b),
        span(a + b, shares, rank) == span(a, shares, rank) + span(
            b,
            shares,
            rank + stretch_count(a),
        ),
        max_height(a + b) == if max_height(a) >= max_height(b) {
            max_height(a)
        } else {
            max_height(b)
        },
    decreases b.len(),
{
    if b.len() == 0 {
        assert(a + b =~= a);
    } else {
        lemma_concat(a, b.drop_last(), shares, rank);
        assert((a + b).drop_last() =~= a + b.drop_last());
        assert((a + b).last() == b.last());
    }
}

/// A row split anywhere: the measures of the part before the split are no
/// larger than those of the whole.
pub proof fn lemma_prefix(row: Row, k: int, shares: Shares, rank: nat)
    requires
        0 <= k <= row.len(),
    ensures
        used_width(row.take(k)) <= used_width(row),
        stretch_count(row.take(k)) <= stretch_count(row),
        span(row.take(k), shares, rank) <= span(row, shares, rank),
        max_height(row.take(k)) <= max_height(row),
{
    assert(row =~= row.take(k) + row.skip(k));
    lemma_concat(row.take(k), row.skip(k), shares, rank);
}

/// How many of `count` stretching segments get a pixel more than the even
/// share, where `rank` stretching segments stand before the first of them.
pub open spec fn extras(shares: Shares, rank: nat, count: nat) -> nat {
    let upto = if rank + count < shares.extra {
        rank + count
    } else {
        shares.extra
    };
    let from = if rank < shares.extra {
        rank
    } else {
        shares.extra
    };
    (upto - from) as nat
}

/// The width of a placed row is what its fixed segments take, an even share
/// for each segment that stretches, and the pixels that some of them get on
/// top.
pub proof fn lemma_span_parts(row: Row, shares: Shares, rank: nat)
    ensures
        span(row, shares, rank) == used_width(row) + stretch_count(row) * shares.each + extras(
            shares,
            rank,
            stretch_count(row),
        ),
    decreases row.len(),
{
    if row.len() > 0 {
        lemma_span_parts(row.drop_last(), shares, rank);
        let n = stretch_count(row.drop_last());
        if row.last().stretch {
            assert(stretch_count(row) == n + 1);
            assert((n + 1) * shares.each == n * shares.each + shares.each) by (nonlinear_arith);
        } else {
            assert(stretch_count(row) == n);
        }
    } else {
        assert(0 * shares.each == 0) by (nonlinear_arith);
    }
}

/// The shares take all that is left, where anything stretches: fewer pixels
/// are left over than segments stretch, and each of them goes to one segment.
pub proof fn lemma_shares_fill(row: Row, bar_width: nat)
    ensures
        stretch_count(row) > 0 ==> stretch_extra(row, bar_width) < stretch_count(row),
        stretch_count(row) * stretch_width(row, bar_width) + extras(
            shares(row, bar_width),
            0,
            stretch_count(row),
        ) == if stretch_count(row) > 0 {
            remaining_width(row, bar_width)
        } else {
            0
        },
{
    let n = stretch_count(row);
    let r = remaining_width(row, bar_width);
    if n > 0 {
        assert(n * (r / n) + r % n == r && 0 <= r % n < n) by (nonlinear_arith)
            requires
                n > 0,
                r >= 0,
        ;
    } else {
        assert(n * stretch_width(row, bar_width) == 0) by (nonlinear_arith)
            requires
                n == 0,
        ;
    }
}

/// A row laid out fills the bar where something stretches and the fixed
/// segments fit. Else it is as wide as its fixed segments.
pub proof fn lemma_span_bound(row: Row, bar_width: nat)
    ensures
        span(row, shares(row, bar_width), 0) == if stretch_count(row) > 0 && bar_width
            >= used_width(row) {
            bar_width
        } else {
            used_width(row)
        },
{
    lemma_span_parts(row, shares(row, bar_width), 0);
    lemma_shares_fill(row, bar_width);
}

/// The slots up to and with slot `i`, in a row, are the slots before it and
/// then slot `i`.
pub proof fn lemma_flat_next(slots: Seq<Row>, i: int)
    requires
        0 <= i < slots.len(),
    ensures
        slots.take(i + 1).flatten() =~= slots.take(i).flatten() + slots[i],
        slot_start(slots, i + 1) == slot_start(slots, i) + slots[i].len(),
{
    lemma_take_next(slots, i);
    slots.take(i).lemma_flatten_push(slots[i]);
}

/// The slots before slot `i`, in a row, are the beginning of the row of all
/// slots up to `k`.
proof fn lemma_flat_prefix_upto(slots: Seq<Row>, i: int, k: int)
    requires
        0 <= i <= k <= slots.len(),
    ensures
        slot_start(slots, i) <= slot_start(slots, k),
        slots.take(k).flatten().take(slot_start(slots, i)) =~= slots.take(i).flatten(),
    decreases k - i,
{
    if k == i {
    } else {
        lemma_flat_prefix_upto(slots, i, k - 1);
        lemma_flat_next(slots, k - 1);
    }
}

/// Where a slot lies in the row of all segments.
pub proof fn lemma_slot_in_flat(slots: Seq<Row>, i: int)
    requires
        0 <= i < slots.len(),
    ensures
        0 <= slot_start(slots, i),
        slot_start(slots, i) + slots[i].len() <= slots.flatten().len(),
        slots.flatten().take(slot_start(slots, i)) =~= slots.take(i).flatten(),
        slots.flatten().subrange(slot_start(slots, i), slot_start(slots, i) + slots[i].len())
            =~= slots[i],
        slots.flatten().take(slot_start(slots, i + 1)) =~= slots.take(i + 1).flatten(),
        slot_start(slots, i + 1) == slot_start(slots, i) + slots[i].len(),
        slot_start(slots, slots.len() as int) == slots.flatten().len(),
{
    assert(slots.take(slots.len() as int) =~= slots);
    lemma_flat_prefix_upto(slots, i, slots.len() as int);
    lemma_flat_prefix_upto(slots, i + 1, slots.len() as int);
    lemma_flat_next(slots, i);
    let flat = slots.flatten();
    let start = slot_start(slots, i);
    let end = start + slots[i].len();
    assert(flat.take(end) =~= slots.take(i).flatten() + slots[i]);
    assert(flat.subrange(start, end) =~= flat.take(end).skip(start));
}

/// A slot after a full layout is the slot placed from where the slots before
/// it end.
pub proof fn lemma_resolved_slot(slots: Seq<Row>, bar_width: nat, i: int)
    requires
        0 <= i < slots.len(),
    ensures
        resolved(slots, bar_width)[i] =~= placed_row(
            slots[i],
            span(slots.take(i).flatten(), shares(slots.flatten(), bar_width), 0),
            shares(slots.flatten(), bar_width),
            stretch_count(slots.take(i).flatten()),
            max_height(slots.flatten()),
        ),
{
    let flat = slots.flatten();
    let share = shares(flat, bar_width);
    let start = slot_start(slots, i);
    let before = slots.take(i).flatten();
    lemma_slot_in_flat(slots, i);
    let got = resolved(slots, bar_width)[i];
    let want = placed_row(
        slots[i],
        span(before, share, 0),
        share,
        stretch_count(before),
        max_height(flat),
    );
    assert(got.len() == want.len());
    assert forall|j: int| 0 <= j < got.len() implies got[j] == want[j] by {
        assert(flat[start + j] == flat.subrange(start, start + slots[i].len())[j]);
        assert(flat.take(start + j) =~= before + slots[i].take(j));
        lemma_concat(before, slots[i].take(j), share, 0);
    }
}

/// Counting that stops at the largest number a counter can hold.
pub open spec fn capped(n: nat) -> nat {
    if n > u64::MAX {
        u64::MAX as nat
    } else {
        n
    }
}

/// Takes one slot into the measures of the slots before it. `None` says that
/// the fixed widths no longer fit in a `u64`.
fn measure_slot(
    slot: &Vec<ComputedText>,
    height: u64,
    used: u64,
    stretches: u64,
    Ghost(before): Ghost<Row>,
) -> (r: Option<(u64, u64, u64)>)
    requires
        height == max_height(before),
        used == used_width(before),
        stretches == capped(stretch_count(before)),
    ensures
        match r {
            Some((h, u, c)) => {
                &&& h == max_height(before + slot_view(slot@))
                &&& u == used_width(before + slot_view(slot@))
                &&& c == capped(stretch_count(before + slot_view(slot@)))
            },
            None => used_width(before + slot_view(slot@)) > u64::MAX,
        },
{
    let ghost row = slot_view(slot@);
    let mut height = height;
    let mut used = used;
    let mut stretches = stretches;
    let mut j: usize = 0;
    proof {
        assert(before + row.take(0) =~= before);
    }
    while j < slot.len()
        invariant
            j <= slot.len(),
            row == slot_view(slot@),
            height == max_height(before + row.take(j as int)),
            used == used_width(before + row.take(j as int)),
            stretches == capped(stretch_count(before + row.take(j as int))),
        decreases slot.len() - j,
    {
        proof {
            lemma_take_next(row, j as int);
            let seen = before + row.take(j as int);
            let next = before + row.take(j + 1);
            assert(next =~= seen.push(row[j as int]));
            assert(next.drop_last() =~= seen);
            assert(next.last() == row[j as int]);
        }
        if slot[j].height > height {
            height = slot[j].height;
        }
        if slot[j].stretch {
            if stretches < u64::MAX {
                stretches = stretches + 1;
            }
        } else {
            match used.checked_add(slot[j].width) {
                Some(sum) => {
                    used = sum;
                },
                None => {
                    proof {
                        let none = Shares { each: 0, extra: 0 };
                        lemma_prefix(row, j + 1, none, 0);
                        lemma_concat(before, row.take(j + 1), none, 0);
                        lemma_concat(before, row, none, 0);
                    }
                    return None;
                },
            }
        }
        j = j + 1;
    }
    proof {
        assert(row.take(j as int) =~= row);
    }
    Some((height, used, stretches))
}

/// The shares that two numbers stand for.
pub open spec fn shares_of(each: u64, extra: u64) -> Shares {
    Shares { each: each as nat, extra: extra as nat }
}

/// Places the segments of one slot side by side from `x` on and hands back
/// where the slot ends and how many stretching segments have been placed by
/// then. `rank` counts those placed before the slot.
fn place_slot(
    slot: &mut Vec<ComputedText>,
    x: u64,
    rank: u64,
    each: u64,
    extra: u64,
    height: u64,
    Ghost(before): Ghost<nat>,
) -> (end: (u64, u64))
    requires
        each < u64::MAX,
        rank == capped(before),
        x + span(slot_view(old(slot)@), shares_of(each, extra), before) <= u64::MAX,
    ensures
        end.0 == x + span(slot_view(old(slot)@), shares_of(each, extra), before),
        end.1 == capped(before + stretch_count(slot_view(old(slot)@))),
        slot_view(final(slot)@) == placed_row(
            slot_view(old(slot)@),
            x as nat,
            shares_of(each, extra),
            before,
            height as nat,
        ),
{
    let ghost row = slot_view(slot@);
    let ghost share = shares_of(each, extra);
    let ghost want = placed_row(row, x as nat, share, before, height as nat);
    let mut at = x;
    let mut rank = rank;
    let mut j: usize = 0;
    while j < slot.len()
        invariant
            j <= slot.len(),
            slot.len() == row.len(),
            row == slot_view(old(slot)@),
            share == shares_of(each, extra),
            each < u64::MAX,
            want == placed_row(row, x as nat, share, before, height as nat),
            at == x + span(row.take(j as int), share, before),
            rank == capped(before + stretch_count(row.take(j as int))),
            x + span(row, share, before) <= u64::MAX,
            forall|k: int| 0 <= k < j ==> (#[trigger] slot[k])@ == want[k],
            forall|k: int| j <= k < slot.len() ==> (#[trigger] slot[k])@ == row[k],
        decreases slot.len() - j,
    {
        proof {
            lemma_take_next(row, j as int);
            lemma_prefix(row, j + 1, share, before);
        }
        slot[j].x = at;
        slot[j].y = 0;
        slot[j].height = height;
        if slot[j].stretch {
            slot[j].width = if rank < extra {
                each + 1
            } else {
                each
            };
            if rank < u64::MAX {
                rank = rank + 1;
            }
        }
        at = at + slot[j].width;
        j = j + 1;
    }
    proof {
        assert(row.take(j as int) =~= row);
        assert(slot_view(slot@) =~= want);
    }
    (at, rank)
}

/// Lays out all segments of all slots on a bar of the given width: every
/// segment gets the height of the tallest, the stretching segments share what
/// the others leave, and each segment starts where the one before it ends.
/// What is left is shared out to the last pixel: where it cannot be cut into
/// even shares, the first stretching segments are one pixel wider than the
/// others.
///
/// Hands back the height of the row. Where the fixed widths add up to more
/// than a `u64` holds, no position could be given to what follows them:
/// the slots are then left as they were.
pub fn resolve(slots: &mut Vec<Vec<ComputedText>>, bar_width: u16) -> (r: Result<u64, LayoutError>)
    ensures
        r is Ok <==> used_width(slots_view(old(slots)@).flatten()) <= u64::MAX,
        match r {
            Ok(height) => {
                &&& height == max_height(slots_view(old(slots)@).flatten())
                &&& slots_view(final(slots)@) == resolved(slots_view(old(slots)@), bar_width as nat)
            },
            Err(e) => e == LayoutError::TooWide && *final(slots) == *old(slots),
        },
{
    let ghost rows = slots_view(slots@);
    let ghost flat = rows.flatten();
    let mut height: u64 = 0;
    let mut used: u64 = 0;
    let mut stretches: u64 = 0;
    let mut i: usize = 0;
    proof {
        assert(rows.take(0) =~= Seq::<Row>::empty());
    }
    while i < slots.len()
        invariant
            i <= slots.len(),
            *slots == *old(slots),
            rows == slots_view(slots@),
            flat == rows.flatten(),
            height == max_height(rows.take(i as int).flatten()),
            used == used_width(rows.take(i as int).flatten()),
            stretches == capped(stretch_count(rows.take(i as int).flatten())),
        decreases slots.len() - i,
    {
        let ghost before = rows.take(i as int).flatten();
        proof {
            lemma_flat_next(rows, i as int);
            lemma_slot_in_flat(rows, i as int);
        }
        match measure_slot(&slots[i], height, used, stretches, Ghost(before)) {
            Some((h, u, c)) => {
                height = h;
                used = u;
                stretches = c;
            },
            None => {
                proof {
                    lemma_prefix(flat, slot_start(rows, i + 1), Shares { each: 0, extra: 0 }, 0);
                }
                return Err(LayoutError::TooWide);
            },
        }
        i = i + 1;
    }
    proof {
        assert(rows.take(i as int) =~= rows);
    }
    let remaining: u64 = if bar_width as u64 >= used {
        bar_width as u64 - used
    } else {
        0
    };
    let each: u64 = if stretches == 0 {
        0
    } else {
        remaining / stretches
    };
    let extra: u64 = if stretches == 0 {
        0
    } else {
        remaining % stretches
    };
    proof {
        let n = stretch_count(flat);
        if n > u64::MAX {
            // More segments stretch than there are pixels to share: the
            // first of them get one pixel each.
            vstd::arithmetic::div_mod::lemma_basic_div(remaining as int, n as int);
            vstd::arithmetic::div_mod::lemma_basic_div(remaining as int, u64::MAX as int);
            vstd::arithmetic::div_mod::lemma_small_mod(remaining as nat, n);
            vstd::arithmetic::div_mod::lemma_small_mod(remaining as nat, u64::MAX as nat);
        }
        assert(shares_of(each, extra) == shares(flat, bar_width as nat));
        lemma_span_bound(flat, bar_width as nat);
    }
    let mut at: u64 = 0;
    let mut rank: u64 = 0;
    let mut i: usize = 0;
    while i < slots.len()
        invariant
            i <= slots.len(),
            slots.len() == rows.len(),
            rows == slots_view(old(slots)@),
            flat == rows.flatten(),
            each < u64::MAX,
            shares_of(each, extra) == shares(flat, bar_width as nat),
            height == max_height(flat),
            span(flat, shares_of(each, extra), 0) <= u64::MAX,
            at == span(rows.take(i as int).flatten(), shares_of(each, extra), 0),
            rank == capped(stretch_count(rows.take(i as int).flatten())),
            forall|k: int|
                0 <= k < i ==> slot_view((#[trigger] slots[k])@) == resolved(
                    rows,
                    bar_width as nat,
                )[k],
            forall|k: int| i <= k < slots.len() ==> slot_view((#[trigger] slots[k])@) == rows[k],
        decreases slots.len() - i,
    {
        let ghost before = rows.take(i as int).flatten();
        proof {
            lemma_flat_next(rows, i as int);
            lemma_slot_in_flat(rows, i as int);
            lemma_concat(before, rows[i as int], shares_of(each, extra), 0);
            lemma_prefix(flat, slot_start(rows, i + 1), shares_of(each, extra), 0);
            lemma_resolved_slot(rows, bar_width as nat, i as int);
        }
        let end = place_slot(
            &mut slots[i],
            at,
            rank,
            each,
            extra,
            height,
            Ghost(stretch_count(before)),
        );
        at = end.0;
        rank = end.1;
        i = i + 1;
    }
    proof {
        assert(slots_view(slots@) =~= resolved(rows, bar_width as nat));
    }
    Ok(height)
}

/// The widths of a row as they stand, added up.
pub open spec fn total_width(row: Row) -> nat
    decreases row.len(),
{
    if row.len() == 0 {
        0
    } else {
        total_width(row.drop_last()) + row.last().width
    }
}

/// A row in which every segment stands where the segments before it end, on
/// the top edge, and is as high as the tallest of them.
pub open spec fn aligned(row: Row) -> bool {
    forall|k: int|
        0 <= k < row.len() ==> {
            &&& (#[trigger] row[k]).x == total_width(row.take(k))
            &&& row[k].y == 0
            &&& row[k].height == max_height(row)
        }
}

/// Two rows of the same length whose segments agree, one by one, in whether
/// they stretch and, where they do not, in their width.
pub open spec fn same_extent(a: Row, b: Row) -> bool {
    &&& a.len() == b.len()
    &&& forall|k: int|
        0 <= k < a.len() ==> {
            &&& (#[trigger] a[k]).stretch == b[k].stretch
            &&& !a[k].stretch ==> a[k].width == b[k].width
        }
}

/// Two rows of the same length whose segments agree, one by one, in place and
/// size.
pub open spec fn same_geometry(a: Row, b: Row) -> bool {
    &&& a.len() == b.len()
    &&& forall|k: int|
        0 <= k < a.len() ==> {
            &&& (#[trigger] a[k]).x == b[k].x
            &&& a[k].y == b[k].y
            &&& a[k].width == b[k].width
            &&& a[k].height == b[k].height
        }
}

/// Rows of the same extent take the same room and share it alike.
pub proof fn lemma_same_extent(a: Row, b: Row, shares: Shares, rank: nat)
    requires
        same_extent(a, b),
    ensures
        used_width(a) == used_width(b),
        stretch_count(a) == stretch_count(b),
        span(a, shares, rank) == span(b, shares, rank),
    decreases a.len(),
{
    if a.len() > 0 {
        assert(a.last().stretch == b.last().stretch);
        assert(same_extent(a.drop_last(), b.drop_last())) by {
            assert forall|k: int| 0 <= k < a.len() - 1 implies {
                &&& (#[trigger] a.drop_last()[k]).stretch == b.drop_last()[k].stretch
                &&& !a.drop_last()[k].stretch ==> a.drop_last()[k].width == b.drop_last()[k].width
            } by {
                assert(a[k].stretch == b[k].stretch);
            }
        }
        lemma_same_extent(a.drop_last(), b.drop_last(), shares, rank);
    }
}

/// Rows of the same geometry are as wide and as high as each other.
pub proof fn lemma_same_geometry(a: Row, b: Row)
    requires
        same_geometry(a, b),
    ensures
        total_width(a) == total_width(b),
        max_height(a) == max_height(b),
    decreases a.len(),
{
    if a.len() > 0 {
        assert(a.last().x == b.last().x);
        assert(same_geometry(a.drop_last(), b.drop_last())) by {
            assert forall|k: int| 0 <= k < a.len() - 1 implies {
                &&& (#[trigger] a.drop_last()[k]).x == b.drop_last()[k].x
                &&& a.drop_last()[k].y == b.drop_last()[k].y
                &&& a.drop_last()[k].width == b.drop_last()[k].width
                &&& a.drop_last()[k].height == b.drop_last()[k].height
            } by {
                assert(a[k].x == b[k].x);
            }
        }
        lemma_same_geometry(a.drop_last(), b.drop_last());
    }
}

/// The height of a row is that of one of its segments, and no segment is
/// higher.
pub proof fn lemma_max_height(row: Row)
    ensures
        forall|k: int| 0 <= k < row.len() ==> (#[trigger] row[k]).height <= max_height(row),
        row.len() > 0 ==> exists|k: int| 0 <= k < row.len() && (#[trigger] row[k]).height == max_height(row),
    decreases row.len(),
{
    if row.len() > 0 {
        let rest = row.drop_last();
        lemma_max_height(rest);
        assert forall|k: int| 0 <= k < row.len() implies (#[trigger] row[k]).height <= max_height(
            row,
        ) by {
            if k < row.len() - 1 {
                assert(rest[k].height <= max_height(rest));
            }
        }
        if row.last().height > max_height(rest) || rest.len() == 0 {
            assert(row[row.len() - 1].height == max_height(row));
        } else {
            let k = choose|k: int| 0 <= k < rest.len() && (#[trigger] rest[k]).height == max_height(rest);
            assert(row[k].height == max_height(row));
        }
    }
}

/// A row whose segments all have the same height is that high.
pub proof fn lemma_uniform_height(row: Row, height: nat)
    requires
        row.len() > 0,
        forall|k: int| 0 <= k < row.len() ==> (#[trigger] row[k]).height == height,
    ensures
        max_height(row) == height,
{
    lemma_max_height(row);
    let k = choose|k: int| 0 <= k < row.len() && (#[trigger] row[k]).height == max_height(row);
    assert(row[k].height == height);
}

/// A placed row is as wide as its placed widths say, and takes the room and
/// shares it as the row it was made of.
pub proof fn lemma_placed_row(row: Row, x: nat, shares: Shares, rank: nat, height: nat)
    ensures
        same_extent(placed_row(row, x, shares, rank, height), row),
        total_width(placed_row(row, x, shares, rank, height)) == span(row, shares, rank),
        forall|k: int|
            0 <= k <= row.len() ==> total_width(
                #[trigger] placed_row(row, x, shares, rank, height).take(k),
            ) == span(row.take(k), shares, rank),
    decreases row.len(),
{
    let out = placed_row(row, x, shares, rank, height);
    if row.len() > 0 {
        let rest = row.drop_last();
        lemma_placed_row(rest, x, shares, rank, height);
        assert(row.take(row.len() - 1) =~= rest);
        assert(out.drop_last() =~= placed_row(rest, x, shares, rank, height)) by {
            assert forall|j: int| 0 <= j < rest.len() implies out.drop_last()[j] == placed_row(
                rest,
                x,
                shares,
                rank,
                height,
            )[j] by {
                assert(rest.take(j) =~= row.take(j));
            }
        }
        assert forall|k: int| 0 <= k <= row.len() implies total_width(#[trigger] out.take(k))
            == span(row.take(k), shares, rank) by {
            if k < row.len() {
                assert(out.take(k) =~= out.drop_last().take(k));
                assert(row.take(k) =~= rest.take(k));
            } else {
                assert(out.take(k) =~= out);
                assert(row.take(k) =~= row);
            }
        }
    } else {
        assert forall|k: int| 0 <= k <= row.len() implies total_width(#[trigger] out.take(k))
            == span(row.take(k), shares, rank) by {
            assert(out.take(k) =~= out);
            assert(row.take(k) =~= row);
        }
    }
}

/// A row laid out is aligned, and takes the room and shares it as before.
pub proof fn lemma_laid_out(row: Row, bar_width: nat)
    ensures
        same_extent(laid_out(row, bar_width), row),
        aligned(laid_out(row, bar_width)),
        max_height(laid_out(row, bar_width)) == max_height(row),
        total_width(laid_out(row, bar_width)) == span(row, shares(row, bar_width), 0),
{
    let share = shares(row, bar_width);
    let height = max_height(row);
    let out = laid_out(row, bar_width);
    lemma_placed_row(row, 0, share, 0, height);
    if row.len() > 0 {
        lemma_uniform_height(out, height);
    }
    assert forall|k: int| 0 <= k < out.len() implies {
        &&& (#[trigger] out[k]).x == total_width(out.take(k))
        &&& out[k].y == 0
        &&& out[k].height == max_height(out)
    } by {
        assert(total_width(out.take(k)) == span(row.take(k), share, 0));
    }
}

/// Filling the bar: where something stretches and the fixed segments fit, the
/// widths of a row laid out are together the width of the bar.
pub proof fn lemma_fills_bar(row: Row, bar_width: nat)
    requires
        stretch_count(row) > 0,
        bar_width >= used_width(row),
    ensures
        total_width(laid_out(row, bar_width)) == bar_width,
{
    lemma_laid_out(row, bar_width);
    lemma_span_bound(row, bar_width);
}

/// Slots of the same lengths begin at the same places.
pub proof fn lemma_same_shape(a: Seq<Row>, b: Seq<Row>, i: int)
    requires
        a.len() == b.len(),
        forall|k: int| 0 <= k < a.len() ==> (#[trigger] a[k]).len() == b[k].len(),
        0 <= i <= a.len(),
    ensures
        slot_start(a, i) == slot_start(b, i),
    decreases i,
{
    if i > 0 {
        lemma_same_shape(a, b, i - 1);
        lemma_flat_next(a, i - 1);
        lemma_flat_next(b, i - 1);
        assert(a[i - 1].len() == b[i - 1].len());
    } else {
        assert(a.take(0) =~= Seq::<Row>::empty());
        assert(b.take(0) =~= Seq::<Row>::empty());
    }
}

/// A full layout keeps the number of slots and the length of each.
pub proof fn lemma_resolved_shape(slots: Seq<Row>, bar_width: nat)
    ensures
        resolved(slots, bar_width).len() == slots.len(),
        forall|i: int|
            0 <= i < slots.len() ==> (#[trigger] resolved(slots, bar_width)[i]).len()
                == slots[i].len(),
{
    assert forall|i: int| 0 <= i < slots.len() implies (#[trigger] resolved(
        slots,
        bar_width,
    )[i]).len() == slots[i].len() by {
        lemma_slot_in_flat(slots, i);
    }
}

proof fn lemma_resolved_flat_upto(slots: Seq<Row>, bar_width: nat, k: int)
    requires
        0 <= k <= slots.len(),
    ensures
        slot_start(slots, k) <= slots.flatten().len(),
        resolved(slots, bar_width).take(k).flatten() =~= laid_out(slots.flatten(), bar_width).take(
            slot_start(slots, k),
        ),
    decreases k,
{
    let out = resolved(slots, bar_width);
    let line = laid_out(slots.flatten(), bar_width);
    if k == 0 {
        assert(out.take(0) =~= Seq::<Row>::empty());
        assert(slots.take(0) =~= Seq::<Row>::empty());
    } else {
        lemma_resolved_flat_upto(slots, bar_width, k - 1);
        lemma_flat_next(out, k - 1);
        lemma_slot_in_flat(slots, k - 1);
        let start = slot_start(slots, k - 1);
        let end = slot_start(slots, k);
        assert(line.take(end) =~= line.take(start) + line.subrange(start, end));
    }
}

/// The slots after a full layout, in a row, are the row of all segments laid
/// out.
pub proof fn lemma_resolved_flat(slots: Seq<Row>, bar_width: nat)
    ensures
        resolved(slots, bar_width).flatten() == laid_out(slots.flatten(), bar_width),
{
    let out = resolved(slots, bar_width);
    let line = laid_out(slots.flatten(), bar_width);
    lemma_resolved_flat_upto(slots, bar_width, slots.len() as int);
    assert(out.take(slots.len() as int) =~= out);
    assert(slots.take(slots.len() as int) =~= slots);
    assert(line.take(line.len() as int) =~= line);
}

/// Laying out a row that is laid out changes nothing.
pub proof fn lemma_laid_out_twice(row: Row, bar_width: nat)
    ensures
        laid_out(laid_out(row, bar_width), bar_width) == laid_out(row, bar_width),
{
    let once = laid_out(row, bar_width);
    let twice = laid_out(once, bar_width);
    let share = shares(row, bar_width);
    lemma_laid_out(row, bar_width);
    lemma_same_extent(once, row, share, 0);
    assert(shares(once, bar_width) == share);
    assert forall|j: int| 0 <= j < once.len() implies twice[j] == once[j] by {
        assert(same_extent(once.take(j), row.take(j))) by {
            assert forall|k: int| 0 <= k < j implies {
                &&& (#[trigger] once.take(j)[k]).stretch == row.take(j)[k].stretch
                &&& !once.take(j)[k].stretch ==> once.take(j)[k].width == row.take(j)[k].width
            } by {
                assert(once[k].stretch == row[k].stretch);
            }
        }
        lemma_same_extent(once.take(j), row.take(j), share, 0);
    }
    assert(twice =~= once);
}

/// Idempotence of layout: a full layout of slots that have just had one
/// gives the same slots again.
pub proof fn lemma_resolve_idempotent(slots: Seq<Row>, bar_width: nat)
    ensures
        resolved(resolved(slots, bar_width), bar_width) == resolved(slots, bar_width),
{
    let once = resolved(slots, bar_width);
    let twice = resolved(once, bar_width);
    lemma_resolved_flat(slots, bar_width);
    lemma_laid_out_twice(slots.flatten(), bar_width);
    lemma_resolved_shape(slots, bar_width);
    assert forall|i: int| 0 <= i < once.len() implies twice[i] == once[i] by {
        lemma_same_shape(once, slots, i);
    }
    assert(twice =~= once);
}

/// Stretch distribution: after a layout every stretching segment is as wide
/// as an even share of what the fixed segments leave of the bar, rounded
/// down, or one pixel wider: the pixels that even shares leave over go, one
/// each, to the first stretching segments of the row. Where the fixed
/// segments leave nothing, it is zero wide. Every other segment keeps its
/// width. Where something stretches and the fixed segments fit, all widths
/// together are the width of the bar, and the last segment ends where the bar
/// ends.
pub proof fn lemma_stretch_distribution(slots: Seq<Row>, bar_width: nat)
    ensures
        ({
            let before = slots.flatten();
            let after = resolved(slots, bar_width).flatten();
            let used = used_width(before);
            let count = stretch_count(before);
            &&& after.len() == before.len()
            &&& forall|k: int|
                0 <= k < before.len() && (#[trigger] before[k]).stretch ==> {
                    &&& count > 0
                    &&& bar_width >= used ==> after[k].width == (bar_width - used) / (
                    count as int) + if stretch_count(before.take(k)) < (bar_width - used) % (
                    count as int) {
                        1int
                    } else {
                        0int
                    }
                    &&& bar_width >= used ==> (bar_width - used) / (count as int) <= after[k].width
                        <= (bar_width - used) / (count as int) + 1
                    &&& bar_width < used ==> after[k].width == 0
                }
            &&& forall|k: int|
                0 <= k < before.len() && !(#[trigger] before[k]).stretch ==> after[k].width
                    == before[k].width
            &&& count > 0 && bar_width >= used ==> total_width(after) == bar_width
            &&& count > 0 && bar_width >= used ==> after.len() > 0 && after.last().x
                + after.last().width == bar_width
            &&& count == 0 || bar_width < used ==> total_width(after) == used
        }),
{
    let before = slots.flatten();
    let after = resolved(slots, bar_width).flatten();
    let used = used_width(before);
    let count = stretch_count(before);
    let share = shares(before, bar_width);
    lemma_resolved_flat(slots, bar_width);
    lemma_laid_out(before, bar_width);
    lemma_span_bound(before, bar_width);
    assert forall|k: int| 0 <= k < before.len() && (#[trigger] before[k]).stretch implies {
        &&& count > 0
        &&& bar_width >= used ==> after[k].width == (bar_width - used) / (count as int)
            + if stretch_count(before.take(k)) < (bar_width - used) % (count as int) {
            1int
        } else {
            0int
        }
        &&& bar_width >= used ==> (bar_width - used) / (count as int) <= after[k].width <= (
        bar_width - used) / (count as int) + 1
        &&& bar_width < used ==> after[k].width == 0
    } by {
        lemma_prefix(before, k + 1, share, 0);
        lemma_take_next(before, k);
        assert(stretch_count(before.take(k + 1)) >= 1);
        assert(after[k].width == share_at(share, stretch_count(before.take(k))));
        if bar_width < used {
            assert(0nat / count == 0 && 0nat % count == 0) by (nonlinear_arith)
                requires
                    count > 0,
            ;
        }
    }
    if count > 0 && bar_width >= used {
        assert(after.len() > 0);
        let last = after.len() - 1;
        assert(after.take(last) =~= after.drop_last());
        assert(after[last].x == total_width(after.take(last)));
    }
}

/// Contiguity: after a layout the first segment of the bar stands at the left
/// edge, and every other segment starts where the one before it ends. All
/// stand on the top edge.
pub proof fn lemma_contiguous(slots: Seq<Row>, bar_width: nat)
    ensures
        ({
            let after = resolved(slots, bar_width).flatten();
            &&& after.len() > 0 ==> after[0].x == 0
            &&& forall|k: int|
                0 < k < after.len() ==> (#[trigger] after[k]).x == after[k - 1].x + after[k
                    - 1].width
            &&& forall|k: int| 0 <= k < after.len() ==> (#[trigger] after[k]).y == 0
        }),
{
    let after = resolved(slots, bar_width).flatten();
    lemma_resolved_flat(slots, bar_width);
    lemma_laid_out(slots.flatten(), bar_width);
    lemma_aligned_contiguous(after);
}

/// In an aligned row the first segment stands at the left edge and every
/// other segment starts where the one before it ends.
pub proof fn lemma_aligned_contiguous(row: Row)
    requires
        aligned(row),
    ensures
        row.len() > 0 ==> row[0].x == 0,
        forall|k: int| 0 < k < row.len() ==> (#[trigger] row[k]).x == row[k - 1].x + row[k - 1].width,
        forall|k: int| 0 <= k < row.len() ==> (#[trigger] row[k]).y == 0,
{
    if row.len() > 0 {
        assert(row[0].x == total_width(row.take(0)));
    }
    assert forall|k: int| 0 < k < row.len() implies (#[trigger] row[k]).x == row[k - 1].x + row[k
        - 1].width by {
        lemma_take_next(row, k - 1);
        assert(row[k - 1].x == total_width(row.take(k - 1)));
    }
}

/// Height uniformity: after a layout every segment of every slot is as high
/// as the tallest segment was before, and none was higher than that.
pub proof fn lemma_height_uniform(slots: Seq<Row>, bar_width: nat)
    ensures
        forall|i: int, j: int|
            0 <= i < slots.len() && 0 <= j < slots[i].len() ==> {
                &&& (#[trigger] resolved(slots, bar_width)[i][j]).height == max_height(
                    slots.flatten(),
                )
                &&& slots[i][j].height <= max_height(slots.flatten())
            },
        slots.flatten().len() > 0 ==> exists|i: int, j: int|
            0 <= i < slots.len() && 0 <= j < slots[i].len() && (#[trigger] slots[i][j]).height
                == max_height(slots.flatten()),
{
    let flat = slots.flatten();
    lemma_max_height(flat);
    assert forall|i: int, j: int| 0 <= i < slots.len() && 0 <= j < slots[i].len() implies {
        &&& (#[trigger] resolved(slots, bar_width)[i][j]).height == max_height(flat)
        &&& slots[i][j].height <= max_height(flat)
    } by {
        lemma_slot_in_flat(slots, i);
        let start = slot_start(slots, i);
        assert(flat.subrange(start, start + slots[i].len())[j] == flat[start + j]);
    }
    if flat.len() > 0 {
        let k = choose|k: int| 0 <= k < flat.len() && (#[trigger] flat[k]).height == max_height(flat);
        lemma_flat_index(slots, k);
    }
}

/// Every segment of the row of all slots is a segment of one slot.
pub proof fn lemma_flat_index(slots: Seq<Row>, k: int)
    requires
        0 <= k < slots.flatten().len(),
    ensures
        exists|i: int, j: int|
            0 <= i < slots.len() && 0 <= j < slots[i].len() && #[trigger] slots[i][j]
                == slots.flatten()[k],
    decreases slots.len(),
{
    if slots.len() > 0 {
        let last = slots.len() - 1;
        lemma_slot_in_flat(slots, last);
        let start = slot_start(slots, last);
        if k >= start {
            assert(slots.flatten().subrange(start, start + slots[last].len())[k - start]
                == slots.flatten()[k]);
            assert(slots[last][k - start] == slots.flatten()[k]);
        } else {
            let rest = slots.drop_last();
            assert(rest =~= slots.take(last));
            assert(rest.flatten()[k] == slots.flatten().take(start)[k]);
            lemma_flat_index(rest, k);
            let (i, j) = choose|i: int, j: int|
                0 <= i < rest.len() && 0 <= j < rest[i].len() && #[trigger] rest[i][j]
                    == rest.flatten()[k];
            assert(slots[i][j] == slots.flatten()[k]);
        }
    }
}

} // verus!
