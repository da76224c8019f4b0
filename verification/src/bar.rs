//! The bar: its slots, its height, and what its window is asked to do.
//!
//! The bar holds one slot for each widget. An update of a slot is compared
//! with what the slot holds; the whole bar is laid out again only where the
//! update asks for it. A new height of the row of segments becomes a new
//! height of the window, which then moves, shows itself and reserves that
//! much of the screen's edge.

use crate::diff::{
    decision, diff, inherited_row, lemma_inherited_geometry, texts_unchanged, unchanged,
    unchanged_texts, Redraw,
};
use crate::layout::{
    aligned, lemma_laid_out, lemma_resolve_idempotent, lemma_resolved_flat, lemma_same_extent,
    lemma_same_geometry, max_height, resolve, resolved, same_geometry, slot_view, slots_view,
    used_width, LayoutError, Row,
};
use crate::text::{ComputedText, Text};
use vstd::prelude::*;
use vstd::seq_lib::lemma_flatten_concat;

verus! {

/// An enum specifying the position of the bar.
#[derive(Clone, Copy, Debug, PartialEq, Eq, Structural)]
pub enum Position {
    /// Position the bar at the top of the screen.
    Top,
    /// Position the bar at the bottom of the screen.
    Bottom,
}

/// A struct specifying the `x` and `y` offset of the bar on the screen.
#[derive(Clone, Copy, Debug, PartialEq, Eq, Structural)]
pub struct Offset {
    pub x: i16,
    pub y: i16,
}

impl Default for Offset {
    fn default() -> (o: Offset)
        ensures
            o == (Offset { x: 0, y: 0 }),
    {
        Offset { x: 0, y: 0 }
    }
}

/// The room that a window reserves along the edges of the screen, and the
/// part of each edge that it reserves it on.
#[derive(Clone, Copy, Debug, PartialEq, Eq, Structural)]
pub struct StrutPartial {
    pub left: u32,
    pub right: u32,
    pub top: u32,
    pub bottom: u32,
    pub left_start_y: u32,
    pub left_end_y: u32,
    pub right_start_y: u32,
    pub right_end_y: u32,
    pub top_start_x: u32,
    pub top_end_x: u32,
    pub bottom_start_x: u32,
    pub bottom_end_x: u32,
}

/// The room that a bar of the given height reserves: its whole height on the
/// edge it is docked to, and nothing on the other three.
pub open spec fn strut_for(position: Position, height: u16) -> StrutPartial {
    StrutPartial {
        left: 0,
        right: 0,
        top: if position == Position::Top {
            height as u32
        } else {
            0
        },
        bottom: if position == Position::Bottom {
            height as u32
        } else {
            0
        },
        left_start_y: 0,
        left_end_y: 0,
        right_start_y: 0,
        right_end_y: 0,
        top_start_x: 0,
        top_end_x: 0,
        bottom_start_x: 0,
        bottom_end_x: 0,
    }
}

/// How far from the top of the screen the window of the bar stands. At the
/// top it stands at the offset; at the bottom it ends, the offset apart, where
/// the screen ends. It never stands above the screen.
pub open spec fn window_y(position: Position, offset_y: i16, screen_height: u16, height: u16)
    -> u32 {
    let y: int = match position {
        Position::Top => offset_y as int,
        Position::Bottom => screen_height - height + offset_y,
    };
    if y < 0 {
        0
    } else {
        y as u32
    }
}

/// The height of the window for a row of the given height: that height, but
/// no less than one pixel and no more than a window can have.
pub open spec fn bar_height(row_height: nat) -> u16 {
    if row_height < 1 {
        1
    } else if row_height > u16::MAX {
        u16::MAX
    } else {
        row_height as u16
    }
}

/// What a new height of the bar asks of its window: to stand at `y`, to be
/// `width` wide and `height` high, to show itself above the other windows,
/// and to reserve `strut`.
#[derive(Clone, Copy, Debug, PartialEq, Eq, Structural)]
pub struct WindowUpdate {
    pub y: u32,
    pub width: u16,
    pub height: u16,
    pub strut: StrutPartial,
}

/// What the caller has to do after the bar has taken an update or an event.
#[derive(Clone, Copy, Debug, PartialEq, Eq, Structural)]
pub struct Update {
    /// What has to be drawn again.
    pub redraw: Redraw,
    /// What the window has to do first, where the bar has a new height.
    pub window: Option<WindowUpdate>,
}

/// What a [`Bar`] holds, as mathematical values.
pub struct BarView {
    pub position: Position,
    pub width: u16,
    pub height: u16,
    pub offset: Offset,
    pub screen_height: u16,
    /// Whether the window has been given a size and shown.
    pub mapped: bool,
    pub slots: Seq<Row>,
}

/// What holds of every bar: its segments stand side by side from the left
/// edge, on the top edge, all as high as the tallest; the window is as high as
/// that row; and a window that has not been shown is one pixel high.
pub open spec fn well_formed(bar: BarView) -> bool {
    &&& aligned(bar.slots.flatten())
    &&& bar.height == bar_height(max_height(bar.slots.flatten()))
    &&& !bar.mapped ==> bar.height == 1
}

/// Whether the segments that do not stretch can be placed at all.
pub open spec fn fits(slots: Seq<Row>) -> bool {
    used_width(slots.flatten()) <= u64::MAX
}

/// What a bar asks of its window when its height becomes `height`: nothing
/// where that is its height already.
pub open spec fn resize(bar: BarView, height: u16) -> Option<WindowUpdate> {
    if bar.height == height {
        None
    } else {
        Some(
            WindowUpdate {
                y: window_y(bar.position, bar.offset.y, bar.screen_height, height),
                width: bar.width,
                height,
                strut: strut_for(bar.position, height),
            },
        )
    }
}

/// The bar after a full layout.
pub open spec fn relaid(bar: BarView) -> BarView {
    let height = bar_height(max_height(bar.slots.flatten()));
    BarView {
        slots: resolved(bar.slots, bar.width as nat),
        height,
        mapped: bar.mapped || bar.height != height,
        ..bar
    }
}

/// The bar with the segments of one slot replaced, before anything else is
/// done about it.
pub open spec fn replaced(bar: BarView, idx: int, new: Row) -> BarView {
    BarView { slots: bar.slots.update(idx, new), ..bar }
}

/// The bar after slot `idx` was updated with `new`.
pub open spec fn updated(bar: BarView, idx: int, new: Row) -> BarView {
    match decision(new, bar.slots[idx]) {
        Redraw::Nothing => bar,
        Redraw::Slot => replaced(bar, idx, inherited_row(new, bar.slots[idx])),
        Redraw::EntireBar => if fits(replaced(bar, idx, new).slots) {
            relaid(replaced(bar, idx, new))
        } else {
            bar
        },
    }
}

/// What the caller is told after slot `idx` was updated with `new`.
pub open spec fn update_outcome(bar: BarView, idx: int, new: Row) -> Result<Update, LayoutError> {
    match decision(new, bar.slots[idx]) {
        Redraw::Nothing => Ok(Update { redraw: Redraw::Nothing, window: None }),
        Redraw::Slot => Ok(Update { redraw: Redraw::Slot, window: None }),
        Redraw::EntireBar => redraw_outcome(replaced(bar, idx, new)),
    }
}

/// What the caller is told after a full layout.
pub open spec fn redraw_outcome(bar: BarView) -> Result<Update, LayoutError> {
    if fits(bar.slots) {
        Ok(Update { redraw: Redraw::EntireBar, window: resize(bar, relaid(bar).height) })
    } else {
        Err(LayoutError::TooWide)
    }
}

/// The code that the display server gives to the event which says that a
/// part of the window has to be drawn again.
pub const EXPOSE: u8 = 12;

/// Whether an event of this type says that the window has to be drawn again.
/// The highest bit of the type only says where the event came from.
pub open spec fn is_expose(response_type: u8) -> bool {
    response_type & 0x7f == EXPOSE
}

/// The bar.
pub struct Bar {
    position: Position,
    width: u16,
    height: u16,
    offset: Offset,
    screen_height: u16,
    mapped: bool,
    contents: Vec<Vec<ComputedText>>,
}

impl View for Bar {
    type V = BarView;

    closed spec fn view(&self) -> BarView {
        BarView {
            position: self.position,
            width: self.width,
            height: self.height,
            offset: self.offset,
            screen_height: self.screen_height,
            mapped: self.mapped,
            slots: slots_view(self.contents@),
        }
    }
}

/// Rows that differ in one part only, which has the same geometry in both,
/// have the same geometry.
proof fn lemma_update_geometry(slots: Seq<Row>, idx: int, row: Row)
    requires
        0 <= idx < slots.len(),
        same_geometry(row, slots[idx]),
    ensures
        same_geometry(slots.update(idx, row).flatten(), slots.flatten()),
{
    let head = slots.take(idx);
    let tail = slots.skip(idx + 1);
    assert(slots =~= head + seq![slots[idx]] + tail);
    assert(slots.update(idx, row) =~= head + seq![row] + tail);
    lemma_flatten_concat(head + seq![slots[idx]], tail);
    lemma_flatten_concat(head, seq![slots[idx]]);
    lemma_flatten_concat(head + seq![row], tail);
    lemma_flatten_concat(head, seq![row]);
    seq![row].lemma_flatten_one_element();
    seq![slots[idx]].lemma_flatten_one_element();
    let a = slots.update(idx, row).flatten();
    let b = slots.flatten();
    assert(a =~= head.flatten() + row + tail.flatten());
    assert(b =~= head.flatten() + slots[idx] + tail.flatten());
    let start = head.flatten().len();
    assert forall|k: int| 0 <= k < a.len() implies {
        &&& (#[trigger] a[k]).x == b[k].x
        &&& a[k].y == b[k].y
        &&& a[k].width == b[k].width
        &&& a[k].height == b[k].height
    } by {
        if start <= k < start + row.len() {
            assert(a[k] == row[k - start]);
            assert(b[k] == slots[idx][k - start]);
            assert(row[k - start].x == slots[idx][k - start].x);
        }
    }
}

/// A row with the geometry of an aligned row is aligned.
proof fn lemma_aligned_geometry(a: Row, b: Row)
    requires
        same_geometry(a, b),
        aligned(b),
    ensures
        aligned(a),
        max_height(a) == max_height(b),
{
    lemma_same_geometry(a, b);
    assert forall|k: int| 0 <= k < a.len() implies {
        &&& (#[trigger] a[k]).x == crate::layout::total_width(a.take(k))
        &&& a[k].y == 0
        &&& a[k].height == max_height(a)
    } by {
        assert(b[k].x == crate::layout::total_width(b.take(k)));
        assert(same_geometry(a.take(k), b.take(k))) by {
            assert forall|m: int| 0 <= m < k implies {
                &&& (#[trigger] a.take(k)[m]).x == b.take(k)[m].x
                &&& a.take(k)[m].y == b.take(k)[m].y
                &&& a.take(k)[m].width == b.take(k)[m].width
                &&& a.take(k)[m].height == b.take(k)[m].height
            } by {
                assert(a[m].x == b[m].x);
            }
        }
        lemma_same_geometry(a.take(k), b.take(k));
    }
}

/// A bar that is laid out is well formed, whatever it held, as long as its
/// window was one pixel high while it was not shown.
proof fn lemma_relaid_well_formed(bar: BarView)
    requires
        !bar.mapped ==> bar.height == 1,
    ensures
        well_formed(relaid(bar)),
{
    lemma_resolved_flat(bar.slots, bar.width as nat);
    lemma_laid_out(bar.slots.flatten(), bar.width as nat);
}

fn clamp_height(row_height: u64) -> (h: u16)
    ensures
        h == bar_height(row_height as nat),
{
    if row_height < 1 {
        1
    } else if row_height > 65535 {
        65535
    } else {
        row_height as u16
    }
}

impl Bar {
    /// Whether the bar is well formed. Every function that makes or changes a
    /// bar leaves it so.
    pub open spec fn wf(&self) -> bool {
        well_formed(self@)
    }

    /// A bar without slots, docked at `position`. It is as wide as `width`
    /// says, or as the screen where `width` is `None`. Its window is one
    /// pixel high and not shown: it gets its height with the first layout
    /// that asks for another.
    pub fn new(
        position: Position,
        width: Option<u16>,
        offset: Offset,
        screen_width: u16,
        screen_height: u16,
    ) -> (bar: Bar)
        ensures
            bar.wf(),
            bar@ == (BarView {
                position,
                width: match width {
                    Some(w) => w,
                    None => screen_width,
                },
                height: 1,
                offset,
                screen_height,
                mapped: false,
                slots: Seq::<Row>::empty(),
            }),
    {
        let width = match width {
            Some(w) => w,
            None => screen_width,
        };
        let bar = Bar {
            position,
            width,
            height: 1,
            offset,
            screen_height,
            mapped: false,
            contents: Vec::new(),
        };
        assert(bar@.slots =~= Seq::<Row>::empty());
        bar
    }

    pub fn position(&self) -> (r: Position)
        ensures
            r == self@.position,
    {
        self.position
    }

    pub fn width(&self) -> (r: u16)
        ensures
            r == self@.width,
    {
        self.width
    }

    pub fn height(&self) -> (r: u16)
        ensures
            r == self@.height,
    {
        self.height
    }

    pub fn offset(&self) -> (r: Offset)
        ensures
            r == self@.offset,
    {
        self.offset
    }

    /// Tells the bar how high its screen is now. A bar at the bottom stands
    /// by that height the next time it gets a new height of its own.
    pub fn set_screen_height(&mut self, screen_height: u16)
        ensures
            final(self)@ == (BarView { screen_height, ..old(self)@ }),
            old(self).wf() ==> final(self).wf(),
    {
        self.screen_height = screen_height;
    }

    /// How high the screen is, as far as the bar knows.
    pub fn screen_height(&self) -> (r: u16)
        ensures
            r == self@.screen_height,
    {
        self.screen_height
    }

    /// Whether the window has been given a size and shown.
    pub fn is_mapped(&self) -> (r: bool)
        ensures
            r == self@.mapped,
    {
        self.mapped
    }

    /// The segments of the bar, slot by slot.
    pub fn contents(&self) -> (r: &Vec<Vec<ComputedText>>)
        ensures
            slots_view(r@) == self@.slots,
    {
        &self.contents
    }

    /// The room that the bar reserves on the screen: its height on the edge it
    /// is docked to, and nothing on the other three.
    pub fn strut_partial(&self) -> (s: StrutPartial)
        ensures
            s == strut_for(self@.position, self@.height),
    {
        let mut strut_partial = StrutPartial {
            left: 0,
            right: 0,
            top: 0,
            bottom: 0,
            left_start_y: 0,
            left_end_y: 0,
            right_start_y: 0,
            right_end_y: 0,
            top_start_x: 0,
            top_end_x: 0,
            bottom_start_x: 0,
            bottom_end_x: 0,
        };
        match self.position {
            Position::Top => strut_partial.top = self.height as u32,
            Position::Bottom => strut_partial.bottom = self.height as u32,
        }
        strut_partial
    }

    /// How far from the top of the screen the window stands.
    pub fn window_y(&self) -> (y: u32)
        ensures
            y == window_y(self@.position, self@.offset.y, self@.screen_height, self@.height),
    {
        let y: i32 = match self.position {
            Position::Top => self.offset.y as i32,
            Position::Bottom => self.screen_height as i32 - self.height as i32
                + self.offset.y as i32,
        };
        if y < 0 {
            0
        } else {
            y as u32
        }
    }

    /// Gives the bar a new height. Where it is another than before, the
    /// window is from now on shown, and the caller is told where it has to
    /// stand and what it has to reserve.
    fn update_bar_height(&mut self, height: u16) -> (r: Option<WindowUpdate>)
        ensures
            r == resize(old(self)@, height),
            final(self)@ == (BarView {
                height,
                mapped: old(self)@.mapped || old(self)@.height != height,
                ..old(self)@
            }),
    {
        if self.height != height {
            self.height = height;
            self.mapped = true;
            Some(
                WindowUpdate {
                    y: self.window_y(),
                    width: self.width,
                    height: self.height,
                    strut: self.strut_partial(),
                },
            )
        } else {
            None
        }
    }

    /// Lays out all segments again and gives the bar the height of their row.
    fn recompute_dimensions(&mut self) -> (r: Result<Option<WindowUpdate>, LayoutError>)
        ensures
            r is Ok <==> fits(old(self)@.slots),
            match r {
                Ok(window) => final(self)@ == relaid(old(self)@) && window == resize(
                    old(self)@,
                    final(self)@.height,
                ),
                Err(e) => e == LayoutError::TooWide && *final(self) == *old(self),
            },
    {
        match resolve(&mut self.contents, self.width) {
            Ok(row_height) => {
                let height = clamp_height(row_height);
                Ok(self.update_bar_height(height))
            },
            Err(e) => Err(e),
        }
    }

    /// Lays out the whole bar again. The caller then draws every segment,
    /// after it has done with the window what the result asks for.
    ///
    /// Where the segments cannot be placed, the bar is left as it was.
    pub fn redraw_entire_bar(&mut self) -> (r: Result<Update, LayoutError>)
        requires
            old(self).wf(),
        ensures
            final(self).wf(),
            r == redraw_outcome(old(self)@),
            final(self)@ == if fits(old(self)@.slots) {
                relaid(old(self)@)
            } else {
                old(self)@
            },
    {
        proof {
            lemma_relaid_well_formed(self@);
        }
        match self.recompute_dimensions() {
            Ok(window) => Ok(Update { redraw: Redraw::EntireBar, window }),
            Err(e) => Err(e),
        }
    }

    /// Takes an event of the display server. An event that says that the
    /// window has to be drawn again has the whole bar laid out and drawn;
    /// any other event is passed over.
    pub fn process_event(&mut self, response_type: u8) -> (r: Result<Update, LayoutError>)
        requires
            old(self).wf(),
        ensures
            final(self).wf(),
            is_expose(response_type) ==> r == redraw_outcome(old(self)@) && final(self)@ == if fits(
                old(self)@.slots,
            ) {
                relaid(old(self)@)
            } else {
                old(self)@
            },
            !is_expose(response_type) ==> r == Ok::<Update, LayoutError>(
                Update { redraw: Redraw::Nothing, window: None },
            ) && final(self)@ == old(self)@,
    {
        let expose = response_type & 0x7f == EXPOSE;
        if expose {
            self.redraw_entire_bar()
        } else {
            Ok(Update { redraw: Redraw::Nothing, window: None })
        }
    }

    /// Whether freshly produced texts show what slot `idx` already shows.
    /// Such texts need not be measured: an update with them would change
    /// nothing.
    pub fn is_unchanged(&self, idx: usize, content: &Vec<Text>) -> (r: bool)
        requires
            idx < self@.slots.len(),
        ensures
            r == unchanged_texts(content@, self@.slots[idx as int]),
    {
        texts_unchanged(content, &self.contents[idx])
    }

    /// Updates an existing widget's content in the bar.
    ///
    /// Segments that show what the slot shows already change nothing.
    /// Segments that take the room of the ones they replace take over their
    /// places, and the slot alone is to be drawn. Otherwise the whole bar is
    /// laid out again; where that cannot be done, the bar is left as it was.
    pub fn update_content(&mut self, idx: usize, content: Vec<ComputedText>) -> (r: Result<
        Update,
        LayoutError,
    >)
        requires
            old(self).wf(),
            idx < old(self)@.slots.len(),
        ensures
            final(self).wf(),
            final(self)@ == updated(old(self)@, idx as int, slot_view(content@)),
            r == update_outcome(old(self)@, idx as int, slot_view(content@)),
    {
        let ghost before = self@;
        let ghost new = slot_view(content@);
        let mut content = content;
        match diff(&mut content, &self.contents[idx]) {
            Redraw::Nothing => Ok(Update { redraw: Redraw::Nothing, window: None }),
            Redraw::Slot => {
                proof {
                    lemma_inherited_geometry(new, before.slots[idx as int]);
                    lemma_update_geometry(before.slots, idx as int, slot_view(content@));
                    lemma_aligned_geometry(
                        before.slots.update(idx as int, slot_view(content@)).flatten(),
                        before.slots.flatten(),
                    );
                }
                self.contents[idx] = content;
                assert(self@.slots =~= before.slots.update(idx as int, inherited_row(new, before.slots[idx as int])));
                Ok(Update { redraw: Redraw::Slot, window: None })
            },
            Redraw::EntireBar => {
                core::mem::swap(&mut self.contents[idx], &mut content);
                assert(self@.slots =~= before.slots.update(idx as int, new));
                assert(self@ == replaced(before, idx as int, new));
                proof {
                    lemma_relaid_well_formed(self@);
                }
                match self.recompute_dimensions() {
                    Ok(window) => Ok(Update { redraw: Redraw::EntireBar, window }),
                    Err(e) => {
                        core::mem::swap(&mut self.contents[idx], &mut content);
                        assert(self.contents@ =~= old(self).contents@);
                        Err(e)
                    },
                }
            },
        }
    }

    /// Adds a new widget's content to the bar, in a slot of its own after the
    /// slots that are there.
    ///
    /// Returns the index of the slot, so that subsequent updates can be made
    /// by calling [`Bar::update_content`], and what has to be drawn. Where the
    /// segments cannot be placed, the bar is left as it was.
    pub fn add_content(&mut self, content: Vec<ComputedText>) -> (r: Result<
        (usize, Update),
        LayoutError,
    >)
        requires
            old(self).wf(),
        ensures
            final(self).wf(),
            ({
                let idx = old(self)@.slots.len() as int;
                let added = BarView { slots: old(self)@.slots.push(Seq::empty()), ..old(self)@ };
                match r {
                    Ok((i, update)) => {
                        &&& i == idx
                        &&& Ok::<Update, LayoutError>(update) == update_outcome(
                            added,
                            idx,
                            slot_view(content@),
                        )
                        &&& final(self)@ == updated(added, idx, slot_view(content@))
                    },
                    Err(e) => {
                        &&& Err::<Update, LayoutError>(e) == update_outcome(
                            added,
                            idx,
                            slot_view(content@),
                        )
                        &&& final(self)@ == old(self)@
                    },
                }
            }),
    {
        let ghost before = self@;
        let idx = self.contents.len();
        self.contents.push(Vec::new());
        proof {
            assert(self@.slots =~~= before.slots.push(Seq::empty()));
            before.slots.lemma_flatten_push(Seq::empty());
            assert(self@.slots.flatten() =~= before.slots.flatten());
        }
        match self.update_content(idx, content) {
            Ok(update) => Ok((idx, update)),
            Err(e) => {
                let ghost added = self@;
                self.contents.pop();
                assert(self@.slots =~~= added.slots.drop_last());
                assert(added.slots.drop_last() =~~= before.slots);
                Err(e)
            },
        }
    }
}

/// What reaches the bar while it runs.
pub enum Event {
    /// An event of the display server, of the given type.
    Xcb { response_type: u8 },
    /// New segments of the widget in slot `idx`, measured.
    Widget { idx: usize, texts: Vec<ComputedText> },
}

/// The bar after it has taken an event.
pub open spec fn handled(bar: BarView, event: Event) -> BarView {
    match event {
        Event::Xcb { response_type } => if is_expose(response_type) && fits(bar.slots) {
            relaid(bar)
        } else {
            bar
        },
        Event::Widget { idx, texts } => updated(bar, idx as int, slot_view(texts@)),
    }
}

/// What the caller is told after the bar has taken an event.
pub open spec fn handle_outcome(bar: BarView, event: Event) -> Result<Update, LayoutError> {
    match event {
        Event::Xcb { response_type } => if is_expose(response_type) {
            redraw_outcome(bar)
        } else {
            Ok(Update { redraw: Redraw::Nothing, window: None })
        },
        Event::Widget { idx, texts } => update_outcome(bar, idx as int, slot_view(texts@)),
    }
}

/// The bar after the first `n` slots have taken their updates, one after the
/// other, and what the caller is told for each of them. `None` stands for
/// a slot without an update. The first update that cannot be placed ends it:
/// the updates before it stay.
pub open spec fn batch(bar: BarView, updates: Seq<Option<Row>>, n: int) -> (BarView, Result<
    Seq<Update>,
    LayoutError,
>)
    decreases n,
{
    if n <= 0 {
        (bar, Ok(Seq::empty()))
    } else {
        let (before, told) = batch(bar, updates, n - 1);
        match told {
            Err(e) => (before, Err(e)),
            Ok(told) => match updates[n - 1] {
                None => (before, Ok(told.push(Update { redraw: Redraw::Nothing, window: None }))),
                Some(row) => match update_outcome(before, n - 1, row) {
                    Ok(update) => (updated(before, n - 1, row), Ok(told.push(update))),
                    Err(e) => (before, Err(e)),
                },
            },
        }
    }
}

/// The updates of a batch as mathematical values.
pub open spec fn batch_view(updates: Seq<Option<Vec<ComputedText>>>) -> Seq<Option<Row>> {
    Seq::new(
        updates.len(),
        |i: int|
            match updates[i] {
                Some(texts) => Some(slot_view(texts@)),
                None => None,
            },
    )
}

/// Slots stay: an update leaves the number of slots as it is.
pub proof fn lemma_updated_len(bar: BarView, idx: int, new: Row)
    requires
        0 <= idx < bar.slots.len(),
    ensures
        updated(bar, idx, new).slots.len() == bar.slots.len(),
{
}

/// Slots stay: a batch of updates leaves the number of slots as it is.
pub proof fn lemma_batch_len(bar: BarView, updates: Seq<Option<Row>>, n: int)
    requires
        n <= bar.slots.len(),
    ensures
        batch(bar, updates, n).0.slots.len() == bar.slots.len(),
    decreases n,
{
    if n > 0 {
        lemma_batch_len(bar, updates, n - 1);
    }
}

impl Bar {
    /// Takes one update for each slot, in the order of the slots: `None`
    /// where a widget has nothing new. Updates beyond the last slot are
    /// passed over. Hands back, slot by slot, what has to be drawn.
    ///
    /// The first update that cannot be placed ends it: the bar keeps the
    /// updates before it.
    pub fn update_widget_contents(&mut self, new_contents: Vec<Option<Vec<ComputedText>>>) -> (r:
        Result<Vec<Update>, LayoutError>)
        requires
            old(self).wf(),
        ensures
            final(self).wf(),
            ({
                let n = if new_contents@.len() <= old(self)@.slots.len() {
                    new_contents@.len() as int
                } else {
                    old(self)@.slots.len() as int
                };
                let (after, told) = batch(old(self)@, batch_view(new_contents@), n);
                &&& final(self)@ == after
                &&& match r {
                    Ok(updates) => told == Ok::<Seq<Update>, LayoutError>(updates@),
                    Err(e) => told == Err::<Seq<Update>, LayoutError>(e),
                }
            }),
    {
        let mut pending = new_contents;
        self.take_updates(&mut pending)
    }

    fn take_updates(&mut self, pending: &mut Vec<Option<Vec<ComputedText>>>) -> (r: Result<
        Vec<Update>,
        LayoutError,
    >)
        requires
            old(self).wf(),
        ensures
            final(self).wf(),
            ({
                let n = if old(pending)@.len() <= old(self)@.slots.len() {
                    old(pending)@.len() as int
                } else {
                    old(self)@.slots.len() as int
                };
                let (after, told) = batch(old(self)@, batch_view(old(pending)@), n);
                &&& final(self)@ == after
                &&& match r {
                    Ok(updates) => told == Ok::<Seq<Update>, LayoutError>(updates@),
                    Err(e) => told == Err::<Seq<Update>, LayoutError>(e),
                }
            }),
    {
        let ghost start = self@;
        let ghost updates = batch_view(pending@);
        let n = if pending.len() <= self.contents.len() {
            pending.len()
        } else {
            self.contents.len()
        };
        let mut told: Vec<Update> = Vec::new();
        let mut i: usize = 0;
        while i < n
            invariant
                i <= n,
                n <= pending.len(),
                n <= self@.slots.len(),
                self@.slots.len() == start.slots.len(),
                start == old(self)@,
                updates == batch_view(old(pending)@),
                n == if old(pending)@.len() <= start.slots.len() {
                    old(pending)@.len() as int
                } else {
                    start.slots.len() as int
                },
                self.wf(),
                pending.len() == updates.len(),
                forall|k: int| i <= k < n ==> batch_view(pending@)[k] == updates[k],
                batch(start, updates, i as int) == (self@, Ok::<Seq<Update>, LayoutError>(told@)),
            decreases n - i,
        {
            proof {
                assert(batch_view(pending@)[i as int] == updates[i as int]);
            }
            match pending[i].take() {
                None => {
                    told.push(Update { redraw: Redraw::Nothing, window: None });
                },
                Some(texts) => match self.update_content(i, texts) {
                    Ok(update) => {
                        told.push(update);
                    },
                    Err(e) => {
                        proof {
                            lemma_batch_ends(start, updates, i + 1, n as int);
                        }
                        return Err(e);
                    },
                },
            }
            i = i + 1;
        }
        Ok(told)
    }

    /// Takes what reaches the bar while it runs: an event of the display
    /// server, or new segments of a widget.
    pub fn handle(&mut self, event: Event) -> (r: Result<Update, LayoutError>)
        requires
            old(self).wf(),
            event matches Event::Widget { idx, .. } ==> idx < old(self)@.slots.len(),
        ensures
            final(self).wf(),
            final(self)@ == handled(old(self)@, event),
            r == handle_outcome(old(self)@, event),
    {
        match event {
            Event::Xcb { response_type } => self.process_event(response_type),
            Event::Widget { idx, texts } => self.update_content(idx, texts),
        }
    }
}

/// A batch that has failed stays failed, and the bar with it.
proof fn lemma_batch_ends(bar: BarView, updates: Seq<Option<Row>>, k: int, n: int)
    requires
        0 <= k <= n,
        batch(bar, updates, k).1 is Err,
    ensures
        batch(bar, updates, n) == batch(bar, updates, k),
    decreases n - k,
{
    if k < n {
        lemma_batch_ends(bar, updates, k, n - 1);
    }
}

/// Idempotence of layout: a bar that has just been laid out is left as it is
/// by another layout, and its window is asked for nothing.
pub proof fn lemma_relaid_twice(bar: BarView)
    requires
        fits(bar.slots),
    ensures
        fits(relaid(bar).slots),
        relaid(relaid(bar)) == relaid(bar),
        redraw_outcome(relaid(bar)) == Ok::<Update, LayoutError>(
            Update { redraw: Redraw::EntireBar, window: None },
        ),
{
    let flat = bar.slots.flatten();
    lemma_resolve_idempotent(bar.slots, bar.width as nat);
    lemma_resolved_flat(bar.slots, bar.width as nat);
    lemma_laid_out(flat, bar.width as nat);
    lemma_same_extent(laid_out_row(bar), flat, crate::layout::shares(flat, bar.width as nat), 0);
}

/// The row of all segments of a bar after a layout.
pub open spec fn laid_out_row(bar: BarView) -> Row {
    crate::layout::laid_out(bar.slots.flatten(), bar.width as nat)
}

/// Filling the bar: after a layout of a bar in which something stretches and
/// whose fixed segments fit, the segments tile the bar: their widths are
/// together the width of the bar, and the last of them ends where the bar
/// ends.
pub proof fn lemma_relaid_fills_bar(bar: BarView)
    requires
        crate::layout::stretch_count(bar.slots.flatten()) > 0,
        bar.width >= used_width(bar.slots.flatten()),
    ensures
        ({
            let row = relaid(bar).slots.flatten();
            &&& crate::layout::total_width(row) == bar.width
            &&& row.len() > 0
            &&& row.last().x + row.last().width == bar.width
        }),
{
    crate::layout::lemma_stretch_distribution(bar.slots, bar.width as nat);
}

/// No-op: an update with segments that show what the slot shows asks for
/// nothing to be drawn and leaves the bar as it is, places and sizes with it.
pub proof fn lemma_update_unchanged(bar: BarView, idx: int, new: Row)
    requires
        0 <= idx < bar.slots.len(),
        unchanged(new, bar.slots[idx]),
    ensures
        updated(bar, idx, new) == bar,
        update_outcome(bar, idx, new) == Ok::<Update, LayoutError>(
            Update { redraw: Redraw::Nothing, window: None },
        ),
{
}

/// Strut matches height: whenever a layout gives the bar another height, the
/// window is told to take that height and to reserve exactly that much on the
/// edge that the bar is docked to, and nothing on the other three edges.
pub proof fn lemma_strut_matches_height(bar: BarView)
    requires
        fits(bar.slots),
        relaid(bar).height != bar.height,
    ensures
        redraw_outcome(bar) is Ok,
        redraw_outcome(bar).unwrap().window is Some,
        ({
            let window = redraw_outcome(bar).unwrap().window.unwrap();
            let height = relaid(bar).height;
            &&& window.height == height
            &&& window.strut.top == if bar.position == Position::Top {
                height as u32
            } else {
                0
            }
            &&& window.strut.bottom == if bar.position == Position::Bottom {
                height as u32
            } else {
                0
            }
            &&& window.strut.left == 0
            &&& window.strut.right == 0
            &&& window.strut == strut_for(relaid(bar).position, relaid(bar).height)
        }),
{
}

/// A well-formed bar is contiguous: its first segment stands at the left
/// edge, every other segment starts where the one before it ends, and all
/// are as high as the tallest of them.
pub proof fn lemma_well_formed_contiguous(bar: BarView)
    requires
        well_formed(bar),
    ensures
        ({
            let row = bar.slots.flatten();
            &&& row.len() > 0 ==> row[0].x == 0
            &&& forall|k: int|
                0 < k < row.len() ==> (#[trigger] row[k]).x == row[k - 1].x + row[k - 1].width
            &&& forall|k: int|
                0 <= k < row.len() ==> (#[trigger] row[k]).y == 0 && row[k].height == max_height(
                    row,
                )
        }),
{
    crate::layout::lemma_aligned_contiguous(bar.slots.flatten());
}

/// One visual type of a screen: how the bits of a pixel make a colour.
#[derive(Clone, Copy, Debug, PartialEq, Eq, Structural)]
pub struct Visualtype {
    pub visual_id: u32,
    pub class: u8,
    pub bits_per_rgb_value: u8,
    pub colormap_entries: u16,
    pub red_mask: u32,
    pub green_mask: u32,
    pub blue_mask: u32,
}

/// The visual types that a screen allows at one depth.
pub struct Depth {
    pub depth: u8,
    pub visuals: Vec<Visualtype>,
}

/// A screen of the display: the visual type of its root window and the
/// depths it allows.
pub struct Screen {
    pub root_visual: u32,
    pub allowed_depths: Vec<Depth>,
}

/// The first visual type of a list that has the given id.
pub open spec fn first_visual(visuals: Seq<Visualtype>, id: u32) -> Option<Visualtype>
    decreases visuals.len(),
{
    if visuals.len() == 0 {
        None
    } else if visuals.first().visual_id == id {
        Some(visuals.first())
    } else {
        first_visual(visuals.drop_first(), id)
    }
}

/// The first visual type with the given id among the depths of a screen, in
/// their order.
pub open spec fn first_in_depths(depths: Seq<Depth>, id: u32) -> Option<Visualtype>
    decreases depths.len(),
{
    if depths.len() == 0 {
        None
    } else {
        match first_visual(depths.first().visuals@, id) {
            Some(visual) => Some(visual),
            None => first_in_depths(depths.drop_first(), id),
        }
    }
}

/// The first visual type with the given id among the screens of a display,
/// in their order.
pub open spec fn first_in_screens(roots: Seq<Screen>, id: u32) -> Option<Visualtype>
    decreases roots.len(),
{
    if roots.len() == 0 {
        None
    } else {
        match first_in_depths(roots.first().allowed_depths@, id) {
            Some(visual) => Some(visual),
            None => first_in_screens(roots.drop_first(), id),
        }
    }
}

fn find_visual(visuals: &Vec<Visualtype>, id: u32) -> (r: Option<Visualtype>)
    ensures
        r == first_visual(visuals@, id),
{
    let mut i: usize = 0;
    proof {
        assert(visuals@.skip(0) =~= visuals@);
    }
    while i < visuals.len()
        invariant
            i <= visuals.len(),
            first_visual(visuals@, id) == first_visual(visuals@.skip(i as int), id),
        decreases visuals.len() - i,
    {
        proof {
            assert(visuals@.skip(i as int).drop_first() =~= visuals@.skip(i + 1));
            assert(visuals@.skip(i as int).first() == visuals@[i as int]);
        }
        if visuals[i].visual_id == id {
            return Some(visuals[i]);
        }
        i = i + 1;
    }
    None
}

fn find_in_depths(depths: &Vec<Depth>, id: u32) -> (r: Option<Visualtype>)
    ensures
        r == first_in_depths(depths@, id),
{
    let mut i: usize = 0;
    proof {
        assert(depths@.skip(0) =~= depths@);
    }
    while i < depths.len()
        invariant
            i <= depths.len(),
            first_in_depths(depths@, id) == first_in_depths(depths@.skip(i as int), id),
        decreases depths.len() - i,
    {
        proof {
            assert(depths@.skip(i as int).drop_first() =~= depths@.skip(i + 1));
            assert(depths@.skip(i as int).first() == depths@[i as int]);
        }
        if let Some(visual) = find_visual(&depths[i].visuals, id) {
            return Some(visual);
        }
        i = i + 1;
    }
    None
}

/// The visual type of the root window of `screen`, looked for among all
/// screens of the display, or `None` where no screen has it.
pub fn find_root_visual_type(roots: &Vec<Screen>, screen: &Screen) -> (r: Option<Visualtype>)
    ensures
        r == first_in_screens(roots@, screen.root_visual),
{
    let id = screen.root_visual;
    let mut i: usize = 0;
    proof {
        assert(roots@.skip(0) =~= roots@);
    }
    while i < roots.len()
        invariant
            i <= roots.len(),
            id == screen.root_visual,
            first_in_screens(roots@, id) == first_in_screens(roots@.skip(i as int), id),
        decreases roots.len() - i,
    {
        proof {
            assert(roots@.skip(i as int).drop_first() =~= roots@.skip(i + 1));
            assert(roots@.skip(i as int).first() == roots@[i as int]);
        }
        if let Some(visual) = find_in_depths(&roots[i].allowed_depths, id) {
            return Some(visual);
        }
        i = i + 1;
    }
    None
}

/// The visual type of the root window of `screen`: the first one with its
/// id among the visual types of all screens of the display, depth by depth.
/// The display has to have such a visual type.
pub fn get_root_visual_type(roots: &Vec<Screen>, screen: &Screen) -> (r: Visualtype)
    requires
        first_in_screens(roots@, screen.root_visual) is Some,
    ensures
        Some(r) == first_in_screens(roots@, screen.root_visual),
        r.visual_id == screen.root_visual,
{
    proof {
        lemma_first_in_screens(roots@, screen.root_visual);
    }
    find_root_visual_type(roots, screen).unwrap()
}

/// A visual type that was found has the id that was looked for.
pub proof fn lemma_first_in_screens(roots: Seq<Screen>, id: u32)
    ensures
        first_in_screens(roots, id) matches Some(visual) ==> visual.visual_id == id,
    decreases roots.len(),
{
    if roots.len() > 0 {
        lemma_first_in_depths(roots.first().allowed_depths@, id);
        lemma_first_in_screens(roots.drop_first(), id);
    }
}

proof fn lemma_first_in_depths(depths: Seq<Depth>, id: u32)
    ensures
        first_in_depths(depths, id) matches Some(visual) ==> visual.visual_id == id,
    decreases depths.len(),
{
    if depths.len() > 0 {
        lemma_first_visual(depths.first().visuals@, id);
        lemma_first_in_depths(depths.drop_first(), id);
    }
}

proof fn lemma_first_visual(visuals: Seq<Visualtype>, id: u32)
    ensures
        first_visual(visuals, id) matches Some(visual) ==> visual.visual_id == id,
    decreases visuals.len(),
{
    if visuals.len() > 0 {
        lemma_first_visual(visuals.drop_first(), id);
    }
}

} // verus!
