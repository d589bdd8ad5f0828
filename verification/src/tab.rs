//! A tab of the explorer: its current directory and its back/forward history.
use vstd::prelude::*;

use crate::paths::{
    is_absolute_path, is_filesystem_root, parent_of, parent_path, path_parts, paths_equal, same_path,
    tab_display_name, tab_label_of,
};
use crate::text::{chars_of, copy_string, string_from_chars};

verus! {

/// A tab with its location history.
pub struct ExplorerTab {
    pub id: u64,
    pub current: String,
    pub back_stack: Vec<String>,
    pub forward_stack: Vec<String>,
}

/// A tab as locations: the current one, the back stack and the forward stack (tops last).
pub struct TabView {
    pub id: u64,
    pub current: Seq<char>,
    pub back: Seq<Seq<char>>,
    pub forward: Seq<Seq<char>>,
}

impl View for ExplorerTab {
    type V = TabView;

    open spec fn view(&self) -> TabView {
        TabView {
            id: self.id,
            current: self.current@,
            back: self.back_stack.deep_view(),
            forward: self.forward_stack.deep_view(),
        }
    }
}

/// Tab after going to `p`: unchanged when `p` is the current location, else the current
/// location goes on the back stack and the forward stack empties.
pub open spec fn navigated(t: TabView, p: Seq<char>) -> TabView {
    if same_path(t.current, p) {
        t
    } else {
        TabView { id: t.id, current: p, back: t.back.push(t.current), forward: Seq::empty() }
    }
}

/// Tab after going back one location (when there is one).
pub open spec fn went_back(t: TabView) -> TabView {
    TabView {
        id: t.id,
        current: t.back.last(),
        back: t.back.drop_last(),
        forward: t.forward.push(t.current),
    }
}

/// Tab after going forward one location (when there is one).
pub open spec fn went_forward(t: TabView) -> TabView {
    TabView {
        id: t.id,
        current: t.forward.last(),
        back: t.back.push(t.current),
        forward: t.forward.drop_last(),
    }
}

impl ExplorerTab {
    /// A tab at `initial` with empty history.
    pub fn new(id: u64, initial: String) -> (r: ExplorerTab)
        ensures
            r@ == (TabView { id, current: initial@, back: Seq::empty(), forward: Seq::empty() }),
    {
        let r = ExplorerTab { id, current: initial, back_stack: Vec::new(), forward_stack: Vec::new() };
        assert(r.back_stack.deep_view() =~= Seq::<Seq<char>>::empty());
        assert(r.forward_stack.deep_view() =~= Seq::<Seq<char>>::empty());
        r
    }

    /// Name shown on the tab, `home` being the user's home directory.
    pub fn label(&self, home: &str) -> (r: String)
        ensures
            r@ == tab_label_of(self@.current, home@),
    {
        tab_display_name(self.current.as_str(), home)
    }

    pub fn can_go_back(&self) -> (r: bool)
        ensures
            r == (self@.back.len() > 0),
    {
        self.back_stack.len() > 0
    }

    pub fn can_go_forward(&self) -> (r: bool)
        ensures
            r == (self@.forward.len() > 0),
    {
        self.forward_stack.len() > 0
    }

    /// Whether the current directory has a parent to go up to.
    pub fn can_go_up(&self) -> (r: bool)
        ensures
            r == !(is_absolute_path(self@.current) && path_parts(self@.current).len() == 0),
    {
        !is_filesystem_root(self.current.as_str())
    }

    /// Goes to `path`: unless it is the current location, the current location is pushed on
    /// the back stack and the forward stack is cleared.
    pub fn navigate(&mut self, path: String)
        ensures
            final(self)@ == navigated(old(self)@, path@),
    {
        if paths_equal(self.current.as_str(), path.as_str()) {
            return;
        }
        let ghost old_back = self.back_stack.deep_view();
        let previous = copy_string(&self.current);
        self.back_stack.push(previous);
        assert(self.back_stack.deep_view() =~= old_back.push(previous@));
        self.forward_stack.clear();
        assert(self.forward_stack.deep_view() =~= Seq::<Seq<char>>::empty());
        self.current = path;
    }

    /// Goes back one location; `false` (and no change) when there is none.
    pub fn go_back(&mut self) -> (r: bool)
        ensures
            r == (old(self)@.back.len() > 0),
            r ==> final(self)@ == went_back(old(self)@),
            !r ==> *final(self) == *old(self),
    {
        if self.back_stack.len() == 0 {
            return false;
        }
        let ghost old_back = self.back_stack.deep_view();
        let ghost old_forward = self.forward_stack.deep_view();
        match self.back_stack.pop() {
            Some(previous) => {
                assert(self.back_stack.deep_view() =~= old_back.drop_last());
                assert(previous@ == old_back.last());
                let here = copy_string(&self.current);
                self.forward_stack.push(here);
                assert(self.forward_stack.deep_view() =~= old_forward.push(here@));
                self.current = previous;
                true
            },
            None => false,
        }
    }

    /// Goes forward one location; `false` (and no change) when there is none.
    pub fn go_forward(&mut self) -> (r: bool)
        ensures
            r == (old(self)@.forward.len() > 0),
            r ==> final(self)@ == went_forward(old(self)@),
            !r ==> *final(self) == *old(self),
    {
        if self.forward_stack.len() == 0 {
            return false;
        }
        let ghost old_back = self.back_stack.deep_view();
        let ghost old_forward = self.forward_stack.deep_view();
        match self.forward_stack.pop() {
            Some(next) => {
                assert(self.forward_stack.deep_view() =~= old_forward.drop_last());
                assert(next@ == old_forward.last());
                let here = copy_string(&self.current);
                self.back_stack.push(here);
                assert(self.back_stack.deep_view() =~= old_back.push(here@));
                self.current = next;
                true
            },
            None => false,
        }
    }

    /// Goes to the parent directory; `false` (and no change) at the root.
    pub fn go_up(&mut self) -> (r: bool)
        ensures
            r == (parent_of(old(self)@.current) is Some),
            r ==> final(self)@ == navigated(old(self)@, parent_of(old(self)@.current)->0),
            !r ==> *final(self) == *old(self),
    {
        match parent_path(self.current.as_str()) {
            Some(parent) => {
                self.navigate(parent);
                true
            },
            None => false,
        }
    }

    /// The current location, for reloading it.
    pub fn refresh_same(&mut self) -> (r: String)
        ensures
            r@ == old(self)@.current,
            final(self)@ == old(self)@,
    {
        copy_string(&self.current)
    }
}

/// Going back and then forward returns a tab to where it was.
pub proof fn law_back_then_forward(t: TabView)
    requires
        t.back.len() > 0,
    ensures
        went_back(t).forward.len() > 0,
        went_forward(went_back(t)) == t,
{
    assert(t.back.drop_last().push(t.back.last()) =~= t.back);
    assert(t.forward.push(t.current).drop_last() =~= t.forward);
}

/// Going forward and then back returns a tab to where it was.
pub proof fn law_forward_then_back(t: TabView)
    requires
        t.forward.len() > 0,
    ensures
        went_forward(t).back.len() > 0,
        went_back(went_forward(t)) == t,
{
    assert(t.forward.drop_last().push(t.forward.last()) =~= t.forward);
    assert(t.back.push(t.current).drop_last() =~= t.back);
}

/// Going back right after moving to a new location returns to the location left, with the
/// earlier back history intact.
pub proof fn law_navigate_then_back(t: TabView, p: Seq<char>)
    requires
        !same_path(t.current, p),
    ensures
        navigated(t, p).back.len() > 0,
        went_back(navigated(t, p)).current == t.current,
        went_back(navigated(t, p)).back == t.back,
        went_back(navigated(t, p)).forward == seq![p],
{
    assert(t.back.push(t.current).drop_last() =~= t.back);
    assert(Seq::<Seq<char>>::empty().push(p) =~= seq![p]);
}

} // verus!
