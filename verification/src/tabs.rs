//! The tab bar: each tab's label, which tab is drawn as active, and which
//! tab a click changes to.
use vstd::prelude::*;

use crate::geometry::{Position, Rect};
use crate::screens::browser::{space_string, spaces};
use crate::text::{str_equals, to_chars};

verus! {

/// `s` centred in a field of `width` characters: the padding split in two,
/// the extra space on the right; `s` alone when it is that wide already.
pub open spec fn centered(s: Seq<char>, width: nat) -> Seq<char> {
    if s.len() >= width {
        s
    } else {
        let pad = (width - s.len()) as nat;
        spaces(pad / 2) + s + spaces((pad + 1) / 2)
    }
}

/// The label of a tab: its name centred in nine columns, with two spaces
/// on each side.
pub open spec fn tab_label_of(name: Seq<char>) -> Seq<char> {
    "  "@ + centered(name, 9) + "  "@
}

/// The label of the tab named `name`.
pub fn tab_label(name: &str) -> (r: String)
    ensures
        r@ == tab_label_of(name@),
{
    let n = to_chars(name).len();
    let mut r = String::from_str("  ");
    if n >= 9 {
        r.append(name);
    } else {
        let pad = 9 - n;
        let left = space_string(pad / 2);
        let right = space_string((pad + 1) / 2);
        r.append(left.as_str());
        r.append(name);
        r.append(right.as_str());
    }
    r.append("  ");
    proof {
        reveal_strlit("  ");
    }
    r
}

/// The first of `areas` that holds `pos`.
pub open spec fn first_area_at(areas: Seq<Rect>, pos: Position, i: int) -> bool {
    &&& 0 <= i < areas.len()
    &&& areas[i].contains_spec(pos)
    &&& forall|j: int| 0 <= j < i ==> !(#[trigger] areas[j]).contains_spec(pos)
}

/// The tab drawn at `pos`, given where each tab was drawn.
pub fn tab_at(areas: &Vec<Rect>, pos: Position) -> (r: Option<usize>)
    ensures
        match r {
            Some(i) => first_area_at(areas@, pos, i as int),
            None => forall|j: int| 0 <= j < areas@.len() ==> !(#[trigger] areas@[j]).contains_spec(pos),
        },
{
    for i in 0..areas.len()
        invariant
            forall|j: int| 0 <= j < i ==> !(#[trigger] areas@[j]).contains_spec(pos),
    {
        if areas[i].contains(pos) {
            return Some(i);
        }
    }
    None
}

/// The tab bar: the names of the tabs, the active one, and where the bar
/// and each tab were last drawn.
pub struct TabsPane {
    pub names: Vec<String>,
    pub active_tab: String,
    pub area: Rect,
    pub tab_areas: Vec<Rect>,
}

impl TabsPane {
    /// A bar for the tabs `names`, the first one active; none when there is
    /// no tab.
    pub fn new(names: Vec<String>) -> (r: Option<TabsPane>)
        ensures
            match r {
                Some(p) => names@.len() > 0 && p.names@ == names@ && p.active_tab@ == names@[0]@ && p.tab_areas@.len() == 0,
                None => names@.len() == 0,
            },
    {
        if names.len() == 0 {
            return None;
        }
        let active_tab = names[0].clone();
        Some(TabsPane { names, active_tab, area: Rect { x: 0, y: 0, width: 0, height: 0 }, tab_areas: Vec::new() })
    }

    /// The labels of the tabs, in order.
    pub fn labels(&self) -> (r: Vec<String>)
        ensures
            r@.len() == self.names@.len(),
            forall|i: int| 0 <= i < r@.len() ==> (#[trigger] r@[i])@ == tab_label_of(self.names@[i]@),
    {
        let mut r: Vec<String> = Vec::new();
        for i in 0..self.names.len()
            invariant
                r@.len() == i,
                forall|j: int| 0 <= j < i ==> (#[trigger] r@[j])@ == tab_label_of(self.names@[j]@),
        {
            r.push(tab_label(self.names[i].as_str()));
        }
        r
    }

    /// The position of the active tab among the names, if it is one.
    pub fn active_index(&self) -> (r: Option<usize>)
        ensures
            match r {
                Some(i) => i < self.names@.len() && self.names@[i as int]@ == self.active_tab@
                    && forall|j: int| 0 <= j < i ==> (#[trigger] self.names@[j])@ != self.active_tab@,
                None => forall|j: int| 0 <= j < self.names@.len() ==> (#[trigger] self.names@[j])@ != self.active_tab@,
            },
    {
        for i in 0..self.names.len()
            invariant
                forall|j: int| 0 <= j < i ==> (#[trigger] self.names@[j])@ != self.active_tab@,
        {
            if str_equals(self.names[i].as_str(), self.active_tab.as_str()) {
                return Some(i);
            }
        }
        None
    }

    /// The tab a click at `pos` changes to: the tab drawn there, unless it is
    /// already active or the click is outside the bar.
    pub fn clicked_tab(&self, pos: Position) -> (r: Option<String>)
        ensures
            !self.area.contains_spec(pos) ==> r is None,
            self.area.contains_spec(pos) ==> match r {
                Some(name) => exists|i: int| #[trigger] first_area_at(self.tab_areas@, pos, i) && i < self.names@.len()
                    && name@ == self.names@[i]@ && name@ != self.active_tab@,
                None => (forall|j: int| 0 <= j < self.tab_areas@.len() ==> !(#[trigger] self.tab_areas@[j]).contains_spec(pos))
                    || exists|i: int| #[trigger] first_area_at(self.tab_areas@, pos, i)
                        && (i >= self.names@.len() || self.names@[i]@ == self.active_tab@),
            },
    {
        if !self.area.contains(pos) {
            return None;
        }
        match tab_at(&self.tab_areas, pos) {
            Some(i) => {
                if i < self.names.len() && !str_equals(self.names[i].as_str(), self.active_tab.as_str()) {
                    Some(self.names[i].clone())
                } else {
                    None
                }
            },
            None => None,
        }
    }
}

} // verus!
