//! Deciding what an update of one slot asks to be drawn again.
//!
//! A widget hands in a full new list of segments for its slot. Where nothing
//! that shows has changed, nothing is drawn. Where the new segments take the
//! same room as the old ones, they take over their places and only the slot
//! is drawn. Otherwise the whole bar has to be laid out and drawn again.
//!
//! Lengths are whole pixels: two of them differ by more than a tolerance of
//! less than a pixel exactly when they are not equal.

use crate::layout::{slot_view, Row};
use crate::text::{same_text, ComputedText, ComputedTextView, Text};
use vstd::prelude::*;

verus! {

/// What has to be drawn again after an update.
#[derive(Clone, Copy, Debug, PartialEq, Eq, Structural)]
pub enum Redraw {
    /// Nothing: what is on the screen is still right.
    Nothing,
    /// The segments of the slot that was updated.
    Slot,
    /// Every segment of the bar, after a full layout.
    EntireBar,
}

/// Whether two placed texts show the same thing in the same style: the same
/// attributes, the same characters and the same stretch flag.
pub open spec fn same_content(new: ComputedTextView, old: ComputedTextView) -> bool {
    new.attr == old.attr && new.text == old.text && new.stretch == old.stretch
}

/// Whether a new list of segments shows what the old one shows.
pub open spec fn unchanged(new: Row, old: Row) -> bool {
    &&& new.len() == old.len()
    &&& forall|j: int| 0 <= j < new.len() ==> same_content(#[trigger] new[j], old[j])
}

/// Whether a list of texts that have not been measured shows what the old
/// segments show.
pub open spec fn unchanged_texts(new: Seq<Text>, old: Row) -> bool {
    &&& new.len() == old.len()
    &&& forall|j: int| 0 <= j < new.len() ==> same_text((#[trigger] new[j])@, old[j])
}

/// Whether a segment takes other room than the one it replaces: another
/// height, or, unless it stretches, another width. The width that a
/// stretching segment has by itself plays no part, since its place gives
/// it another.
pub open spec fn resized(new: ComputedTextView, old: ComputedTextView) -> bool {
    (!new.stretch && new.width != old.width) || new.height != old.height
}

/// Whether the new segments of a slot ask for a full layout: there are more
/// or fewer of them than before, or one of them takes other room.
pub open spec fn needs_layout(new: Row, old: Row) -> bool {
    new.len() != old.len() || exists|j: int| 0 <= j < new.len() && resized(#[trigger] new[j], old[j])
}

/// What an update asks to be drawn again.
pub open spec fn decision(new: Row, old: Row) -> Redraw {
    if unchanged(new, old) {
        Redraw::Nothing
    } else if needs_layout(new, old) {
        Redraw::EntireBar
    } else {
        Redraw::Slot
    }
}

/// A new segment in the place of the old one: it takes over where the old
/// one stood and how high it was, and, where it stretches, how wide.
pub open spec fn inherited(new: ComputedTextView, old: ComputedTextView) -> ComputedTextView {
    ComputedTextView {
        x: old.x,
        y: old.y,
        height: old.height,
        width: if new.stretch {
            old.width
        } else {
            new.width
        },
        ..new
    }
}

/// The new segments of a slot, each in the place of the old one.
pub open spec fn inherited_row(new: Row, old: Row) -> Row {
    Seq::new(new.len(), |j: int| inherited(new[j], old[j]))
}

/// What a slot holds after an update.
pub open spec fn updated_slot(new: Row, old: Row) -> Row {
    match decision(new, old) {
        Redraw::Nothing => old,
        Redraw::Slot => inherited_row(new, old),
        Redraw::EntireBar => new,
    }
}

/// Whether freshly produced texts show what the slot already shows. This
/// needs no measuring.
pub fn texts_unchanged(new: &Vec<Text>, previous: &Vec<ComputedText>) -> (r: bool)
    ensures
        r == unchanged_texts(new@, slot_view(previous@)),
{
    if new.len() != previous.len() {
        return false;
    }
    let mut j: usize = 0;
    while j < new.len()
        invariant
            j <= new.len(),
            new.len() == previous.len(),
            forall|k: int| 0 <= k < j ==> same_text((#[trigger] new[k])@, slot_view(previous@)[k]),
        decreases new.len() - j,
    {
        if !(new[j] == previous[j]) {
            assert(!same_text(new@[j as int]@, slot_view(previous@)[j as int]));
            return false;
        }
        j = j + 1;
    }
    true
}

fn is_unchanged(new: &Vec<ComputedText>, previous: &Vec<ComputedText>) -> (r: bool)
    ensures
        r == unchanged(slot_view(new@), slot_view(previous@)),
{
    if new.len() != previous.len() {
        return false;
    }
    let mut j: usize = 0;
    while j < new.len()
        invariant
            j <= new.len(),
            new.len() == previous.len(),
            forall|k: int|
                0 <= k < j ==> same_content(#[trigger] slot_view(new@)[k], slot_view(previous@)[k]),
        decreases new.len() - j,
    {
        let same = new[j].attr == previous[j].attr && new[j].text == previous[j].text && new[j].stretch
            == previous[j].stretch;
        if !same {
            assert(!same_content(slot_view(new@)[j as int], slot_view(previous@)[j as int]));
            return false;
        }
        j = j + 1;
    }
    true
}

fn is_resized(new: &Vec<ComputedText>, previous: &Vec<ComputedText>) -> (r: bool)
    ensures
        r == needs_layout(slot_view(new@), slot_view(previous@)),
{
    if new.len() != previous.len() {
        return true;
    }
    let mut j: usize = 0;
    while j < new.len()
        invariant
            j <= new.len(),
            new.len() == previous.len(),
            forall|k: int|
                0 <= k < j ==> !resized(#[trigger] slot_view(new@)[k], slot_view(previous@)[k]),
        decreases new.len() - j,
    {
        let other_width = !new[j].stretch && new[j].width != previous[j].width;
        if other_width || new[j].height != previous[j].height {
            assert(resized(slot_view(new@)[j as int], slot_view(previous@)[j as int]));
            return true;
        }
        j = j + 1;
    }
    false
}

/// Decides what the new segments of a slot ask to be drawn again. Where only
/// the slot is to be drawn, the new segments take over the places of the previous
/// ones; otherwise they are left as they came.
pub fn diff(new: &mut Vec<ComputedText>, previous: &Vec<ComputedText>) -> (r: Redraw)
    ensures
        r == decision(slot_view(old(new)@), slot_view(previous@)),
        r == Redraw::Slot ==> slot_view(final(new)@) == inherited_row(
            slot_view(old(new)@),
            slot_view(previous@),
        ),
        r != Redraw::Slot ==> slot_view(final(new)@) == slot_view(old(new)@),
{
    if is_unchanged(new, previous) {
        return Redraw::Nothing;
    }
    if is_resized(new, previous) {
        return Redraw::EntireBar;
    }
    let ghost before = slot_view(new@);
    let ghost want = inherited_row(before, slot_view(previous@));
    let mut j: usize = 0;
    while j < new.len()
        invariant
            j <= new.len(),
            new.len() == previous.len(),
            new.len() == before.len(),
            want == inherited_row(before, slot_view(previous@)),
            forall|k: int| 0 <= k < j ==> (#[trigger] new[k])@ == want[k],
            forall|k: int| j <= k < new.len() ==> (#[trigger] new[k])@ == before[k],
        decreases new.len() - j,
    {
        new[j].x = previous[j].x;
        new[j].y = previous[j].y;
        new[j].height = previous[j].height;
        if new[j].stretch {
            new[j].width = previous[j].width;
        }
        j = j + 1;
    }
    assert(slot_view(new@) =~= want);
    Redraw::Slot
}

/// No-op: new segments that show what the old ones show ask for nothing to be
/// drawn, and the slot keeps the old segments, places and sizes with them.
pub proof fn lemma_unchanged_is_noop(new: Row, old: Row)
    requires
        unchanged(new, old),
    ensures
        decision(new, old) == Redraw::Nothing,
        updated_slot(new, old) == old,
{
}

/// A segment that does not stretch and is measured wider or narrower than
/// the one it replaces asks for the whole bar, and so does any segment of
/// another height.
pub proof fn lemma_resized_redraws_bar(new: Row, old: Row, j: int)
    requires
        !unchanged(new, old),
        new.len() == old.len(),
        0 <= j < new.len(),
        (!new[j].stretch && new[j].width != old[j].width) || new[j].height != old[j].height,
    ensures
        decision(new, old) == Redraw::EntireBar,
        updated_slot(new, old) == new,
{
    assert(resized(new[j], old[j]));
}

/// New segments, as many as before, that are each as high as the one they
/// replace and, unless they stretch, as wide, ask for their slot alone:
/// that a stretching segment measures another width by itself asks for no
/// more.
pub proof fn lemma_same_room_redraws_slot(new: Row, old: Row)
    requires
        !unchanged(new, old),
        new.len() == old.len(),
        forall|j: int|
            0 <= j < new.len() ==> (#[trigger] new[j]).height == old[j].height && (new[j].stretch
                || new[j].width == old[j].width),
    ensures
        decision(new, old) == Redraw::Slot,
        updated_slot(new, old) == inherited_row(new, old),
{
    assert forall|j: int| 0 <= j < new.len() implies !resized(#[trigger] new[j], old[j]) by {
        assert(new[j].height == old[j].height);
    }
}

/// Segments that take over the places of the old ones stand exactly where
/// these stood, as wide and as high.
pub proof fn lemma_inherited_geometry(new: Row, old: Row)
    requires
        decision(new, old) == Redraw::Slot,
    ensures
        crate::layout::same_geometry(inherited_row(new, old), old),
{
    let row = inherited_row(new, old);
    assert forall|k: int| 0 <= k < row.len() implies {
        &&& (#[trigger] row[k]).x == old[k].x
        &&& row[k].y == old[k].y
        &&& row[k].width == old[k].width
        &&& row[k].height == old[k].height
    } by {
        assert(!resized(new[k], old[k]));
    }
}

} // verus!
