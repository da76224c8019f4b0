//! The widget that shows the workspaces of the window manager.

use crate::strings::owned;
use crate::text::{Attributes, AttributesView, PagerAttributes, Text, TextView};
use vstd::prelude::*;

verus! {

/// What is known of a window: the types it says it has, the most fitting
/// first, and the desktop it is on. `None` stands for what the window manager
/// did not tell.
#[derive(Debug)]
pub struct Window {
    pub window_type: Option<Vec<u32>>,
    pub desktop: Option<u32>,
}

/// Whether a window puts its desktop among those that are not empty: it is
/// a normal window, its desktop is known and is not the current one. Where
/// the current desktop is not known, any desktop counts.
pub open spec fn occupies(window: Window, normal_type: u32, current: Option<u32>) -> bool {
    &&& window.window_type matches Some(types)
    &&& types@.len() > 0
    &&& types@[0] == normal_type
    &&& window.desktop matches Some(desktop)
    &&& current != Some(desktop)
}

/// The desktops of the windows that occupy one, in the order of the windows.
pub open spec fn occupied(windows: Seq<Window>, normal_type: u32, current: Option<u32>) -> Seq<u32>
    decreases windows.len(),
{
    if windows.len() == 0 {
        Seq::empty()
    } else if occupies(windows.last(), normal_type, current) {
        occupied(windows.drop_last(), normal_type, current).push(windows.last().desktop.unwrap())
    } else {
        occupied(windows.drop_last(), normal_type, current)
    }
}

/// The desktops, other than the current one, that hold a normal window.
/// `normal_type` is the type that normal windows have.
pub fn non_empty_desktops(windows: &Vec<Window>, normal_type: u32, current: Option<u32>) -> (r:
    Vec<u32>)
    ensures
        r@ == occupied(windows@, normal_type, current),
{
    let mut desktops: Vec<u32> = Vec::new();
    let mut i: usize = 0;
    proof {
        assert(windows@.take(0) =~= Seq::<Window>::empty());
    }
    while i < windows.len()
        invariant
            i <= windows.len(),
            desktops@ == occupied(windows@.take(i as int), normal_type, current),
        decreases windows.len() - i,
    {
        proof {
            assert(windows@.take(i + 1).drop_last() =~= windows@.take(i as int));
            assert(windows@.take(i + 1).last() == windows@[i as int]);
        }
        let normal = match &windows[i].window_type {
            Some(types) => types.len() > 0 && types[0] == normal_type,
            None => false,
        };
        if normal {
            if let Some(desktop) = windows[i].desktop {
                let other = match current {
                    Some(c) => c != desktop,
                    None => true,
                };
                if other {
                    desktops.push(desktop);
                }
            }
        }
        i = i + 1;
    }
    proof {
        assert(windows@.take(i as int) =~= windows@);
    }
    desktops
}

fn contains(desktops: &Vec<u32>, desktop: u32) -> (r: bool)
    ensures
        r == desktops@.contains(desktop),
{
    let mut i: usize = 0;
    while i < desktops.len()
        invariant
            i <= desktops.len(),
            forall|k: int| 0 <= k < i ==> desktops@[k] != desktop,
        decreases desktops.len() - i,
    {
        if desktops[i] == desktop {
            return true;
        }
        i = i + 1;
    }
    false
}

/// Shows the WM's workspaces/groups.
///
/// This widget can highlight the currently active, inactive and non empty
/// workspaces/groups differently.
pub struct Pager {
    pub active_attr: Attributes,
    pub inactive_attr: Attributes,
    pub non_empty_attr: Attributes,
}

impl Pager {
    ///  Creates a new Pager widget.
    pub fn new(pager_attrs: PagerAttributes) -> (r: Pager)
        ensures
            r.active_attr == pager_attrs.active_attr,
            r.inactive_attr == pager_attrs.inactive_attr,
            r.non_empty_attr == pager_attrs.non_empty_attr,
    {
        Pager {
            active_attr: pager_attrs.active_attr,
            inactive_attr: pager_attrs.inactive_attr,
            non_empty_attr: pager_attrs.non_empty_attr,
        }
    }

    /// The name of desktop `i`: the one it was given, or `?` where the
    /// window manager names fewer desktops than there are.
    pub open spec fn name_of(names: Seq<String>, i: int) -> Seq<char> {
        if i < names.len() {
            names[i]@
        } else {
            "?"@
        }
    }

    /// The attributes for desktop `i`.
    pub open spec fn attr_for(self, i: u32, current: u32, non_empty: Seq<u32>) -> AttributesView {
        if i == current {
            self.active_attr@
        } else if non_empty.contains(i) {
            self.non_empty_attr@
        } else {
            self.inactive_attr@
        }
    }

    /// The text that the widget shows for desktop `i`.
    pub open spec fn shown(self, i: u32, current: u32, names: Seq<String>, non_empty: Seq<u32>)
        -> TextView {
        TextView {
            attr: self.attr_for(i, current, non_empty),
            text: Self::name_of(names, i as int),
            stretch: false,
            markup: true,
        }
    }

    /// The texts for the desktops: one for each of the `number` desktops,
    /// under its name. Names beyond that number are passed over. The
    /// `current` desktop has the active attributes; of the others, those in
    /// `non_empty` have the attributes for desktops that hold windows.
    pub fn on_change(&self, number: u32, current: u32, names: &Vec<String>, non_empty: &Vec<u32>)
        -> (r: Vec<Text>)
        ensures
            r@.len() == number,
            forall|i: int|
                0 <= i < number ==> (#[trigger] r@[i])@ == self.shown(
                    i as u32,
                    current,
                    names@,
                    non_empty@,
                ),
    {
        let mut texts: Vec<Text> = Vec::new();
        let mut i: u32 = 0;
        while i < number
            invariant
                i <= number,
                texts@.len() == i,
                forall|k: int|
                    0 <= k < i ==> (#[trigger] texts@[k])@ == self.shown(
                        k as u32,
                        current,
                        names@,
                        non_empty@,
                    ),
            decreases number - i,
        {
            let name = if (i as usize) < names.len() {
                names[i as usize].clone()
            } else {
                owned("?")
            };
            let attr = if i == current {
                self.active_attr.clone()
            } else if contains(non_empty, i) {
                self.non_empty_attr.clone()
            } else {
                self.inactive_attr.clone()
            };
            texts.push(Text { attr, text: name, stretch: false, markup: true });
            i = i + 1;
        }
        texts
    }
}

} // verus!
