//! A window that shows one row of texts.

use crate::layout::{laid_out, resolve, slot_view, used_width, LayoutError};
use crate::text::ComputedText;
use vstd::prelude::*;

verus! {

/// A window as wide as its screen that shows texts side by side.
#[derive(Clone, Copy, Debug, PartialEq, Eq, Structural)]
pub struct Window {
    pub width: u16,
}

impl Window {
    /// A window on a screen of the given width.
    pub fn new(screen_width: u16) -> (r: Window)
        ensures
            r.width == screen_width,
    {
        Window { width: screen_width }
    }

    /// Lays the texts out in one row over the width of the window and hands
    /// them back as they have to be drawn: the texts that stretch share what
    /// the others leave. Texts that cannot be placed give an error.
    pub fn expose(&self, texts: Vec<ComputedText>) -> (r: Result<Vec<ComputedText>, LayoutError>)
        ensures
            r is Ok <==> used_width(slot_view(texts@)) <= u64::MAX,
            match r {
                Ok(placed) => slot_view(placed@) == laid_out(slot_view(texts@), self.width as nat),
                Err(e) => e == LayoutError::TooWide,
            },
    {
        self.render_text_blocks(texts)
    }

    fn render_text_blocks(&self, texts: Vec<ComputedText>) -> (r: Result<
        Vec<ComputedText>,
        LayoutError,
    >)
        ensures
            r is Ok <==> used_width(slot_view(texts@)) <= u64::MAX,
            match r {
                Ok(placed) => slot_view(placed@) == laid_out(slot_view(texts@), self.width as nat),
                Err(e) => e == LayoutError::TooWide,
            },
    {
        let ghost row = slot_view(texts@);
        let mut slots: Vec<Vec<ComputedText>> = Vec::new();
        slots.push(texts);
        let ghost rows = crate::layout::slots_view(slots@);
        proof {
            assert(rows =~= seq![row]);
            rows.lemma_flatten_one_element();
            crate::layout::lemma_resolved_slot(rows, self.width as nat, 0);
            assert(rows.take(0) =~= Seq::empty());
            crate::layout::lemma_resolved_shape(rows, self.width as nat);
        }
        match resolve(&mut slots, self.width) {
            Ok(_) => {
                let placed = slots.pop().unwrap();
                Ok(placed)
            },
            Err(e) => Err(e),
        }
    }
}

} // verus!
