//! The widget that shows the tags of the LeftWM window manager.

use crate::strings::str_eq;
use crate::text::{Attributes, AttributesView, Text, TextView};
use vstd::prelude::*;

verus! {

/// What LeftWM reports of itself.
#[derive(Debug)]
pub struct State {
    pub workspaces: Vec<Workspace>,
}

/// One workspace: the output it is shown on, and its tags.
#[derive(Debug)]
pub struct Workspace {
    pub output: String,
    pub tags: Vec<Tag>,
}

/// One tag of a workspace.
#[derive(Debug)]
pub struct Tag {
    pub name: String,
    pub mine: bool,
    pub visible: bool,
    pub focused: bool,
    pub busy: bool,
}

/// LeftWMAttributes represents the different [`Attributes`] used by the different tag states
pub struct LeftWMAttributes {
    /// The Attributes of the focused tag
    pub focused: Attributes,
    /// The Attributes of the visible tags
    pub visible: Attributes,
    /// The Attributes of the busy tags
    pub busy: Attributes,
    /// The Attributes of the empty tags
    pub empty: Attributes,
}

impl Clone for LeftWMAttributes {
    fn clone(&self) -> (r: LeftWMAttributes)
        ensures
            r.focused@ == self.focused@,
            r.visible@ == self.visible@,
            r.busy@ == self.busy@,
            r.empty@ == self.empty@,
    {
        LeftWMAttributes {
            focused: self.focused.clone(),
            visible: self.visible.clone(),
            busy: self.busy.clone(),
            empty: self.empty.clone(),
        }
    }
}

/// The first workspace that is shown on the given output.
pub open spec fn workspace_on(workspaces: Seq<Workspace>, output: Seq<char>) -> Option<Workspace>
    decreases workspaces.len(),
{
    if workspaces.len() == 0 {
        None
    } else if workspaces.first().output@ == output {
        Some(workspaces.first())
    } else {
        workspace_on(workspaces.drop_first(), output)
    }
}

/// LeftWM widget that shows information about the worksapces and tags
pub struct LeftWM {
    pub output: String,
    pub attrs: LeftWMAttributes,
}

impl LeftWM {
    /// Creates a new [`LeftWM`] widget.
    ///
    /// Arguments
    ///
    /// * `output` - Represents the name of the monitor this widget it attached to
    ///
    /// * `attr` - Represents the [`LeftWMAttributes`] which controls properties like
    /// `Font`, foreground and background color of the different tag's states
    pub fn new(output: String, attrs: LeftWMAttributes) -> (r: LeftWM)
        ensures
            r.output@ == output@,
            r.attrs == attrs,
    {
        LeftWM { output, attrs }
    }

    /// The attributes for a tag: those of the focused tag where it is this
    /// workspace's and focused, else those of a visible tag where it is this
    /// workspace's and visible, else those of a busy tag where it is busy,
    /// and else those of an empty tag.
    pub open spec fn attr_for(self, tag: Tag) -> AttributesView {
        if tag.mine && tag.focused {
            self.attrs.focused@
        } else if tag.mine && tag.visible {
            self.attrs.visible@
        } else if tag.busy {
            self.attrs.busy@
        } else {
            self.attrs.empty@
        }
    }

    /// The text that the widget shows for a tag.
    pub open spec fn shown(self, tag: Tag) -> TextView {
        TextView { attr: self.attr_for(tag), text: tag.name@, stretch: false, markup: true }
    }

    fn tag_text(&self, t: &Tag) -> (r: Text)
        ensures
            r@ == self.shown(*t),
    {
        let attr = if t.mine && t.focused {
            self.attrs.focused.clone()
        } else if t.mine && t.visible {
            self.attrs.visible.clone()
        } else if t.busy {
            self.attrs.busy.clone()
        } else {
            self.attrs.empty.clone()
        };
        Text { attr, text: t.name.clone(), stretch: false, markup: true }
    }

    /// The texts for a state of LeftWM: one for each tag of the first
    /// workspace on the widget's output, in their order, and none where no
    /// workspace is on it.
    pub fn on_change(&self, state: &State) -> (r: Vec<Text>)
        ensures
            match workspace_on(state.workspaces@, self.output@) {
                Some(w) => {
                    &&& r@.len() == w.tags@.len()
                    &&& forall|i: int|
                        0 <= i < r@.len() ==> (#[trigger] r@[i])@ == self.shown(w.tags@[i])
                },
                None => r@.len() == 0,
            },
    {
        let workspaces = &state.workspaces;
        let mut i: usize = 0;
        proof {
            assert(workspaces@.skip(0) =~= workspaces@);
        }
        while i < workspaces.len()
            invariant
                i <= workspaces.len(),
                workspaces == &state.workspaces,
                workspace_on(workspaces@, self.output@) == workspace_on(
                    workspaces@.skip(i as int),
                    self.output@,
                ),
            decreases workspaces.len() - i,
        {
            proof {
                assert(workspaces@.skip(i as int).drop_first() =~= workspaces@.skip(i + 1));
                assert(workspaces@.skip(i as int).first() == workspaces@[i as int]);
            }
            if str_eq(workspaces[i].output.as_str(), self.output.as_str()) {
                let w = &workspaces[i];
                let mut texts: Vec<Text> = Vec::new();
                let mut j: usize = 0;
                while j < w.tags.len()
                    invariant
                        j <= w.tags.len(),
                        texts@.len() == j,
                        forall|k: int|
                            0 <= k < j ==> (#[trigger] texts@[k])@ == self.shown(w.tags@[k]),
                    decreases w.tags.len() - j,
                {
                    texts.push(self.tag_text(&w.tags[j]));
                    j = j + 1;
                }
                return texts;
            }
            i = i + 1;
        }
        Vec::new()
    }
}

} // verus!
