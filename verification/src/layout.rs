//! Keyboard layouts and the manager that tracks the selected one.
//!
//! Discovering the installed layouts and switching the compositor's
//! keymap are I/O and stay with the caller; the selection logic — which
//! layout a name picks — is verified here.

use vstd::prelude::*;

use crate::text::str_eq;

verus! {

/// The mathematical shape of a [`Layout`].
pub struct LayoutView {
    pub name: Seq<char>,
    pub short_description: Option<Seq<char>>,
    pub description: Seq<char>,
}

/// One keyboard layout, as the layout registry describes it.
pub struct Layout {
    name: String,
    short_description: Option<String>,
    description: String,
}

impl View for Layout {
    type V = LayoutView;

    closed spec fn view(&self) -> LayoutView {
        LayoutView {
            name: self.name@,
            short_description: match &self.short_description {
                Some(s) => Some(s@),
                None => None,
            },
            description: self.description@,
        }
    }
}

impl DeepView for Layout {
    type V = LayoutView;

    open spec fn deep_view(&self) -> LayoutView {
        self.view()
    }
}

impl Layout {
    /// A layout from its registry entry.
    pub fn new(name: String, short_description: Option<String>, description: String) -> (r:
        Layout)
        ensures
            r@ == (LayoutView {
                name: name@,
                short_description: short_description.deep_view(),
                description: description@,
            }),
    {
        Layout { name, short_description, description }
    }

    /// The layout's name, the identifier a caller selects it by.
    pub fn name(&self) -> (r: &str)
        ensures
            r@ == self@.name,
    {
        self.name.as_str()
    }

    /// The layout's short description, if the registry has one.
    pub fn short_description(&self) -> (r: Option<&str>)
        ensures
            (match r {
                Some(s) => self@.short_description == Some(s@),
                None => self@.short_description is None,
            }),
    {
        match &self.short_description {
            Some(s) => Some(s.as_str()),
            None => None,
        }
    }

    /// The layout's full description.
    pub fn description(&self) -> (r: &str)
        ensures
            r@ == self@.description,
    {
        self.description.as_str()
    }
}

/// The mathematical shape of a [`LayoutManager`].
pub struct LayoutManagerView {
    pub layouts: Seq<LayoutView>,
    pub current: int,
}

impl LayoutManagerView {
    /// The manager's invariant: while any layouts exist, the selection
    /// points at one of them.
    pub open spec fn wf(self) -> bool {
        self.layouts.len() > 0 ==> 0 <= self.current < self.layouts.len()
    }
}

/// The available keyboard layouts and which one is selected.
pub struct LayoutManager {
    layouts: Vec<Layout>,
    current: usize,
}

impl View for LayoutManager {
    type V = LayoutManagerView;

    closed spec fn view(&self) -> LayoutManagerView {
        LayoutManagerView { layouts: self.layouts.deep_view(), current: self.current as int }
    }
}

impl LayoutManager {
    /// A manager over the discovered layouts, the first one selected.
    pub fn new(layouts: Vec<Layout>) -> (r: LayoutManager)
        ensures
            r@.layouts == layouts.deep_view(),
            r@.current == 0,
            r@.wf(),
    {
        LayoutManager { layouts, current: 0 }
    }

    /// All layouts, in the order given at construction.
    pub fn layouts(&self) -> (r: &Vec<Layout>)
        ensures
            r.deep_view() == self@.layouts,
    {
        &self.layouts
    }

    /// The selected layout.
    pub fn layout(&self) -> (r: &Layout)
        requires
            self@.layouts.len() > 0,
            self@.wf(),
        ensures
            r@ == self@.layouts[self@.current],
    {
        &self.layouts[self.current]
    }

    /// Selects the first layout with the given name.  Returns whether
    /// one exists; without one, the selection is unchanged.
    pub fn set_layout(&mut self, name: &str) -> (r: bool)
        requires
            old(self)@.wf(),
        ensures
            final(self)@.wf(),
            final(self)@.layouts == old(self)@.layouts,
            r == exists|i: int|
                0 <= i < old(self)@.layouts.len() && old(self)@.layouts[i].name == name@,
            r ==> final(self)@.layouts[final(self)@.current].name == name@,
            !r ==> final(self)@.current == old(self)@.current,
    {
        let mut i: usize = 0;
        while i < self.layouts.len()
            invariant
                i <= self.layouts@.len(),
                self@.layouts.len() == self.layouts@.len(),
                forall|j: int| 0 <= j < i ==> self@.layouts[j].name != name@,
                *self == *old(self),
            decreases self.layouts@.len() - i,
        {
            proof {
                assert(self@.layouts[i as int] == self.layouts@[i as int]@);
            }
            if str_eq(self.layouts[i].name(), name) {
                self.current = i;
                return true;
            }
            i = i + 1;
        }
        false
    }
}

} // verus!
