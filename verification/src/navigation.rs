//! The node file manager's folder history: the current folder with the
//! folders to go back and forward to.
use vstd::prelude::*;

use crate::paths::{components, parent, path_components, path_parent, strings_view};
use crate::text::string_from;

verus! {

/// The folder being shown and the history around it.
#[derive(Clone, Debug, PartialEq, Eq)]
pub struct NavHistory {
    pub current: String,
    pub back: Vec<String>,
    pub forward: Vec<String>,
}

pub type NavView = (Seq<char>, Seq<Seq<char>>, Seq<Seq<char>>);

impl NavHistory {
    pub open spec fn view_of(&self) -> NavView {
        (self.current@, strings_view(self.back@), strings_view(self.forward@))
    }
}

/// Two paths name the same place component by component (`PathBuf`'s `==`).
pub open spec fn same_path(a: Seq<char>, b: Seq<char>) -> bool {
    components(a) == components(b)
}

/// Going to the folder `next` (`next_ok`: it exists and is a folder) from a
/// history whose current folder exists when `current_exists`: nothing
/// happens unless `next_ok`; the old folder joins the back list and the
/// forward list empties when the folder changes and the old one exists.
pub open spec fn nav_to(h: NavView, next: Seq<char>, next_ok: bool, current_exists: bool) -> NavView {
    if !next_ok {
        h
    } else if !same_path(h.0, next) && current_exists {
        (next, h.1.push(h.0), seq![])
    } else {
        (next, h.1, h.2)
    }
}

/// Back: the last folder of the back list becomes current, the current one
/// joins the forward list.
pub open spec fn nav_back(h: NavView) -> NavView {
    if h.1.len() == 0 {
        h
    } else {
        (h.1.last(), h.1.drop_last(), h.2.push(h.0))
    }
}

/// Forward: the last folder of the forward list becomes current, the
/// current one joins the back list.
pub open spec fn nav_forward(h: NavView) -> NavView {
    if h.2.len() == 0 {
        h
    } else {
        (h.2.last(), h.1.push(h.0), h.2.drop_last())
    }
}

/// Up to `parent` (which exists when `parent_exists`): the current folder
/// joins the back list and the forward list empties.
pub open spec fn nav_up(h: NavView, parent: Seq<char>, parent_exists: bool) -> NavView {
    if parent_exists {
        (parent, h.1.push(h.0), seq![])
    } else {
        h
    }
}

fn same_path_exec(a: &str, b: &str) -> (r: bool)
    ensures
        r == same_path(a@, b@),
{
    let ca = path_components(a);
    let cb = path_components(b);
    if ca.len() != cb.len() {
        assert(strings_view(ca@).len() != strings_view(cb@).len());
        return false;
    }
    let mut i: usize = 0;
    while i < ca.len()
        invariant
            ca.len() == cb.len(),
            i <= ca.len(),
            strings_view(ca@) == components(a@),
            strings_view(cb@) == components(b@),
            forall|k: int| 0 <= k < i ==> ca@[k]@ == cb@[k]@,
        decreases ca.len() - i,
    {
        let x = crate::text::chars_of(ca[i].as_str());
        let y = crate::text::chars_of(cb[i].as_str());
        if !crate::text::chars_eq(&x, &y) {
            assert(strings_view(ca@)[i as int] != strings_view(cb@)[i as int]);
            return false;
        }
        i = i + 1;
    }
    assert(strings_view(ca@) =~= strings_view(cb@));
    true
}

impl NavHistory {
    /// An empty history at the empty path.
    pub fn new() -> (r: Self)
        ensures
            r.view_of() == (Seq::<char>::empty(), Seq::<Seq<char>>::empty(), Seq::<Seq<char>>::empty()),
    {
        let r = NavHistory { current: String::new(), back: Vec::new(), forward: Vec::new() };
        assert(strings_view(r.back@) =~= Seq::<Seq<char>>::empty());
        r
    }

    /// Go to the folder `next`; `next_ok` says that it exists and is a
    /// folder, `current_exists` that the current folder still exists.
    pub fn navigate_to(&mut self, next: String, next_ok: bool, current_exists: bool)
        ensures
            final(self).view_of() == nav_to(old(self).view_of(), next@, next_ok, current_exists),
    {
        if next_ok {
            if !same_path_exec(self.current.as_str(), next.as_str()) && current_exists {
                let ghost b = strings_view(self.back@);
                let previous = self.current.clone();
                self.back.push(previous);
                assert(strings_view(self.back@) =~= b.push(old(self).current@));
                self.forward = Vec::new();
                assert(strings_view(self.forward@) =~= Seq::<Seq<char>>::empty());
            }
            self.current = next;
        }
    }

    pub fn go_back(&mut self)
        ensures
            final(self).view_of() == nav_back(old(self).view_of()),
    {
        let ghost b = strings_view(self.back@);
        let ghost f = strings_view(self.forward@);
        match self.back.pop() {
            Some(previous) => {
                assert(strings_view(self.back@) =~= b.drop_last());
                let cur = self.current.clone();
                self.forward.push(cur);
                assert(strings_view(self.forward@) =~= f.push(old(self).current@));
                self.current = previous;
            },
            None => {},
        }
    }

    pub fn go_forward(&mut self)
        ensures
            final(self).view_of() == nav_forward(old(self).view_of()),
    {
        let ghost b = strings_view(self.back@);
        let ghost f = strings_view(self.forward@);
        match self.forward.pop() {
            Some(next) => {
                assert(strings_view(self.forward@) =~= f.drop_last());
                let cur = self.current.clone();
                self.back.push(cur);
                assert(strings_view(self.back@) =~= b.push(old(self).current@));
                self.current = next;
            },
            None => {},
        }
    }

    /// Up to `parent`, the parent of the current folder, when it exists.
    pub fn go_up(&mut self, parent: String, parent_exists: bool)
        ensures
            final(self).view_of() == nav_up(old(self).view_of(), parent@, parent_exists),
    {
        if parent_exists {
            let ghost b = strings_view(self.back@);
            let cur = self.current.clone();
            self.back.push(cur);
            assert(strings_view(self.back@) =~= b.push(old(self).current@));
            self.forward = Vec::new();
            assert(strings_view(self.forward@) =~= Seq::<Seq<char>>::empty());
            self.current = parent;
        }
    }

    /// Back at the workspace root, with no history.
    pub fn go_root(&mut self, root: String)
        ensures
            final(self).view_of() == (root@, Seq::<Seq<char>>::empty(), Seq::<Seq<char>>::empty()),
    {
        self.current = root;
        self.back = Vec::new();
        self.forward = Vec::new();
        assert(strings_view(self.back@) =~= Seq::<Seq<char>>::empty());
        assert(strings_view(self.forward@) =~= Seq::<Seq<char>>::empty());
    }
}

/// Whether the manager offers to go up from `current`: it is not the
/// workspace `root` and it has a parent.
pub fn can_go_up(current: &str, root: &str) -> (b: bool)
    ensures
        b == (!same_path(current@, root@) && parent(current@) is Some),
{
    !same_path_exec(current, root) && path_parent(current).is_some()
}

/// Forward undoes back, and back undoes forward.
pub proof fn law_back_forward_undo(h: NavView)
    ensures
        h.1.len() > 0 ==> nav_forward(nav_back(h)) == h,
        h.2.len() > 0 ==> nav_back(nav_forward(h)) == h,
{
    if h.1.len() > 0 {
        assert(h.1.drop_last().push(h.1.last()) =~= h.1);
        assert(h.2.push(h.0).drop_last() =~= h.2);
    }
    if h.2.len() > 0 {
        assert(h.2.drop_last().push(h.2.last()) =~= h.2);
        assert(h.1.push(h.0).drop_last() =~= h.1);
    }
}

/// After moving to another existing folder, back returns to the folder
/// left.
pub proof fn law_back_returns_to_previous(h: NavView, next: Seq<char>)
    requires
        !same_path(h.0, next),
    ensures
        nav_back(nav_to(h, next, true, true)).0 == h.0,
{
}

/// Going to a new folder from one that still exists records the old folder
/// as the one to go back to and leaves nothing to go forward to: Forward
/// after such a move changes nothing, and Back returns to the folder left.
pub proof fn law_navigation_clears_forward(h: NavView, next: Seq<char>)
    requires
        !same_path(h.0, next),
    ensures
        nav_to(h, next, true, true).0 == next,
        nav_to(h, next, true, true).1 == h.1.push(h.0),
        nav_to(h, next, true, true).2.len() == 0,
        nav_forward(nav_to(h, next, true, true)) == nav_to(h, next, true, true),
        nav_back(nav_to(h, next, true, true)) == (h.0, h.1, seq![next]),
{
    assert(h.1.push(h.0).drop_last() =~= h.1);
    assert(Seq::<Seq<char>>::empty().push(next) =~= seq![next]);
}

} // verus!
