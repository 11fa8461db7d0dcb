//! The hash maps that a scene and some widgets keep, each a `hashbrown`
//! map behind a small set of trusted calls. The keys are ids or strings,
//! whose derived `Eq` and `Hash` compare their text, so every map is
//! described by what it holds, keyed by that text.
use vstd::prelude::*;
use vstd::view::View as _;
use crate::view::{View, ViewId};
use crate::grid::LayoutConstraint;

verus! {

pub open spec fn no_views() -> Map<Seq<char>, View> {
    Map::empty()
}

pub open spec fn no_children() -> Map<Seq<char>, Vec<ViewId>> {
    Map::empty()
}

pub open spec fn no_constraints() -> Map<Seq<char>, LayoutConstraint> {
    Map::empty()
}

pub open spec fn no_panels() -> Map<Seq<char>, ViewId> {
    Map::empty()
}

/// The views of a scene, keyed by their id.
#[verifier::external_body]
pub struct ViewTable {
    map: hashbrown::HashMap<ViewId, View>,
}

/// What a `ViewTable` holds.
pub uninterp spec fn view_entries(t: ViewTable) -> Map<Seq<char>, View>;

impl ViewTable {
    /// `hashbrown::HashMap::new`: an empty map.
    #[verifier::external_body]
    pub(crate) fn new() -> (r: ViewTable)
        ensures
            view_entries(r) == no_views(),
    {
        ViewTable { map: hashbrown::HashMap::new() }
    }

    /// `hashbrown::HashMap::len`: the number of entries.
    #[verifier::external_body]
    pub(crate) fn len(&self) -> (r: usize)
        ensures
            r == view_entries(*self).len(),
    {
        self.map.len()
    }

    /// `hashbrown::HashMap::contains_key`.
    #[verifier::external_body]
    pub(crate) fn contains_key(&self, k: &ViewId) -> (r: bool)
        ensures
            r == view_entries(*self).contains_key(k@),
    {
        self.map.contains_key(k)
    }

    /// `hashbrown::HashMap::get`: the value stored under the key, if any.
    #[verifier::external_body]
    pub(crate) fn get(&self, k: &ViewId) -> (r: Option<&View>)
        ensures
            match r {
                Some(v) => view_entries(*self).contains_key(k@) && *v == view_entries(*self)[k@],
                None => !view_entries(*self).contains_key(k@),
            },
    {
        self.map.get(k)
    }

    /// `hashbrown::HashMap::get_mut`: a mutable reference to the value stored
    /// under the key, if any; what is written through it is what the map then
    /// holds under that key.
    #[verifier::external_body]
    pub(crate) fn get_mut(&mut self, k: &ViewId) -> (r: Option<&mut View>)
        ensures
            match r {
                Some(v) => view_entries(*old(self)).contains_key(k@) && *v == view_entries(*old(self))[k@]
                    && view_entries(*final(self)) == view_entries(*old(self)).insert(k@, *final(v)),
                None => !view_entries(*old(self)).contains_key(k@) && view_entries(*final(self)) == view_entries(
                    *old(self),
                ),
            },
    {
        self.map.get_mut(k)
    }

    /// `hashbrown::HashMap::insert`: stores the value under the key and
    /// hands back the value that was stored there before.
    #[verifier::external_body]
    pub(crate) fn insert(&mut self, k: ViewId, v: View) -> (r: Option<View>)
        ensures
            view_entries(*final(self)) == view_entries(*old(self)).insert(k@, v),
            match r {
                Some(o) => view_entries(*old(self)).contains_key(k@) && o == view_entries(*old(self))[k@],
                None => !view_entries(*old(self)).contains_key(k@),
            },
    {
        self.map.insert(k, v)
    }

    /// `hashbrown::HashMap::remove`: takes the value stored under the key out.
    #[verifier::external_body]
    pub(crate) fn remove(&mut self, k: &ViewId) -> (r: Option<View>)
        ensures
            view_entries(*final(self)) == view_entries(*old(self)).remove(k@),
            match r {
                Some(o) => view_entries(*old(self)).contains_key(k@) && o == view_entries(*old(self))[k@],
                None => !view_entries(*old(self)).contains_key(k@),
            },
    {
        self.map.remove(k)
    }
}

/// The child lists of a scene, keyed by the id of the parent.
#[verifier::external_body]
#[derive(Debug)]
pub struct ChildTable {
    map: hashbrown::HashMap<ViewId, Vec<ViewId>>,
}

/// What a `ChildTable` holds.
pub uninterp spec fn child_entries(t: ChildTable) -> Map<Seq<char>, Vec<ViewId>>;

impl ChildTable {
    /// `hashbrown::HashMap::new`: an empty map.
    #[verifier::external_body]
    pub(crate) fn new() -> (r: ChildTable)
        ensures
            child_entries(r) == no_children(),
    {
        ChildTable { map: hashbrown::HashMap::new() }
    }

    /// `hashbrown::HashMap::contains_key`.
    #[verifier::external_body]
    pub(crate) fn contains_key(&self, k: &ViewId) -> (r: bool)
        ensures
            r == child_entries(*self).contains_key(k@),
    {
        self.map.contains_key(k)
    }

    /// `hashbrown::HashMap::get`: the list stored under the key, if any.
    #[verifier::external_body]
    pub(crate) fn get(&self, k: &ViewId) -> (r: Option<&Vec<ViewId>>)
        ensures
            match r {
                Some(v) => child_entries(*self).contains_key(k@) && *v == child_entries(*self)[k@],
                None => !child_entries(*self).contains_key(k@),
            },
    {
        self.map.get(k)
    }

    /// `hashbrown::HashMap::insert`: stores the list under the key.
    #[verifier::external_body]
    pub(crate) fn insert(&mut self, k: ViewId, v: Vec<ViewId>) -> (r: Option<Vec<ViewId>>)
        ensures
            child_entries(*final(self)) == child_entries(*old(self)).insert(k@, v),
            match r {
                Some(o) => child_entries(*old(self)).contains_key(k@) && o == child_entries(*old(self))[k@],
                None => !child_entries(*old(self)).contains_key(k@),
            },
    {
        self.map.insert(k, v)
    }

    /// `hashbrown::HashMap::remove`: takes the list stored under the key out.
    #[verifier::external_body]
    pub(crate) fn remove(&mut self, k: &ViewId) -> (r: Option<Vec<ViewId>>)
        ensures
            child_entries(*final(self)) == child_entries(*old(self)).remove(k@),
            match r {
                Some(o) => child_entries(*old(self)).contains_key(k@) && o == child_entries(*old(self))[k@],
                None => !child_entries(*old(self)).contains_key(k@),
            },
    {
        self.map.remove(k)
    }
}

/// The cell constraints of a grid, keyed by the id of the placed view.
#[verifier::external_body]
#[derive(Debug)]
pub struct ConstraintTable {
    map: hashbrown::HashMap<ViewId, LayoutConstraint>,
}

/// What a `ConstraintTable` holds.
pub uninterp spec fn constraint_entries(t: ConstraintTable) -> Map<Seq<char>, LayoutConstraint>;

impl ConstraintTable {
    /// `hashbrown::HashMap::new`: an empty map.
    #[verifier::external_body]
    pub fn new() -> (r: ConstraintTable)
        ensures
            constraint_entries(r) == no_constraints(),
    {
        ConstraintTable { map: hashbrown::HashMap::new() }
    }

    /// `hashbrown::HashMap::get`: the constraint stored under the key, if any.
    #[verifier::external_body]
    pub fn get(&self, k: &ViewId) -> (r: Option<&LayoutConstraint>)
        ensures
            match r {
                Some(v) => constraint_entries(*self).contains_key(k@) && *v == constraint_entries(*self)[k@],
                None => !constraint_entries(*self).contains_key(k@),
            },
    {
        self.map.get(k)
    }

    /// `hashbrown::HashMap::insert`: stores the constraint under the key and
    /// hands back the one stored there before.
    #[verifier::external_body]
    pub fn insert(&mut self, k: ViewId, v: LayoutConstraint) -> (r: Option<LayoutConstraint>)
        ensures
            constraint_entries(*final(self)) == constraint_entries(*old(self)).insert(k@, v),
            match r {
                Some(o) => constraint_entries(*old(self)).contains_key(k@) && o == constraint_entries(*old(self))[k@],
                None => !constraint_entries(*old(self)).contains_key(k@),
            },
    {
        self.map.insert(k, v)
    }
}

/// The content panel of each tab of a tabbed panel, keyed by the tab's name.
#[verifier::external_body]
#[derive(Debug)]
pub struct PanelTable {
    map: hashbrown::HashMap<String, ViewId>,
}

/// What a `PanelTable` holds.
pub uninterp spec fn panel_entries(t: PanelTable) -> Map<Seq<char>, ViewId>;

impl PanelTable {
    /// `hashbrown::HashMap::new`: an empty map.
    #[verifier::external_body]
    pub(crate) fn new() -> (r: PanelTable)
        ensures
            panel_entries(r) == no_panels(),
    {
        PanelTable { map: hashbrown::HashMap::new() }
    }

    /// `hashbrown::HashMap::get`: the panel stored under the tab name, if any.
    #[verifier::external_body]
    pub(crate) fn get(&self, k: &String) -> (r: Option<&ViewId>)
        ensures
            match r {
                Some(v) => panel_entries(*self).contains_key(k@) && *v == panel_entries(*self)[k@],
                None => !panel_entries(*self).contains_key(k@),
            },
    {
        self.map.get(k)
    }

    /// `hashbrown::HashMap::insert`: stores the panel under the tab name.
    #[verifier::external_body]
    pub(crate) fn insert(&mut self, k: String, v: ViewId) -> (r: Option<ViewId>)
        ensures
            panel_entries(*final(self)) == panel_entries(*old(self)).insert(k@, v),
            match r {
                Some(o) => panel_entries(*old(self)).contains_key(k@) && o == panel_entries(*old(self))[k@],
                None => !panel_entries(*old(self)).contains_key(k@),
            },
    {
        self.map.insert(k, v)
    }
}

} // verus!
