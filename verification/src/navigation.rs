//! Folder navigation: the current root and the history that "back" returns
//! through. Whether a typed path is a directory, and what the parent of a
//! folder is, are asked of the file system by the caller and handed in.
use vstd::prelude::*;
use crate::text::{str_eq, trim, trim_seq, views};

verus! {

/// The abstract navigation state: the current root and the history stack,
/// most recent last.
pub struct NavState {
    pub root: Seq<char>,
    pub history: Seq<Seq<char>>,
}

/// The current root folder and the folders visited before it.
pub struct Navigation {
    pub root: String,
    pub history: Vec<String>,
}

impl View for Navigation {
    type V = NavState;

    open spec fn view(&self) -> NavState {
        NavState { root: self.root@, history: views(self.history@) }
    }
}

/// Going up to `parent`: the current root is remembered.
pub open spec fn up(s: NavState, parent: Option<Seq<char>>) -> NavState {
    match parent {
        Some(p) => NavState { root: p, history: s.history.push(s.root) },
        None => s,
    }
}

/// Going back: the most recent remembered folder becomes the root.
pub open spec fn back(s: NavState) -> NavState {
    if s.history.len() == 0 {
        s
    } else {
        NavState { root: s.history.last(), history: s.history.drop_last() }
    }
}

/// Opening a folder from the list: the current root is remembered unless it
/// is the folder being opened.
pub open spec fn open(s: NavState, target: Seq<char>) -> NavState {
    if s.root == target {
        NavState { root: target, history: s.history }
    } else {
        NavState { root: target, history: s.history.push(s.root) }
    }
}

/// Going to a typed folder: the current root is remembered unless it is
/// already the most recent entry of the history.
pub open spec fn go_to(s: NavState, target: Seq<char>) -> NavState {
    if s.history.len() > 0 && s.history.last() == s.root {
        NavState { root: target, history: s.history }
    } else {
        NavState { root: target, history: s.history.push(s.root) }
    }
}

/// What a typed path names: the text trimmed, nothing when it is blank.
pub open spec fn typed_target_spec(input: Seq<char>) -> Option<Seq<char>> {
    if trim_seq(input).len() == 0 {
        None
    } else {
        Some(trim_seq(input))
    }
}

/// The folder a typed path names, trimmed; `None` for blank input.
pub fn typed_target(input: &str) -> (r: Option<String>)
    ensures
        match r {
            Some(t) => typed_target_spec(input@) == Some(t@),
            None => typed_target_spec(input@) is None,
        },
{
    let t = trim(input);
    if t.as_str().is_empty() {
        None
    } else {
        Some(t)
    }
}

impl Navigation {
    /// Starts at `root` with an empty history.
    pub fn new(root: String) -> (r: Self)
        ensures
            r@ == (NavState { root: root@, history: Seq::empty() }),
    {
        let r = Navigation { root, history: Vec::new() };
        assert(views(r.history@) =~= Seq::<Seq<char>>::empty());
        r
    }

    /// Whether there is a folder to go back to.
    pub fn can_go_back(&self) -> (r: bool)
        ensures
            r == (self@.history.len() > 0),
    {
        self.history.len() > 0
    }

    /// Goes up to `parent` (the caller's parent of the current root, `None`
    /// at the top of the file system). Returns whether the root changed.
    pub fn go_up(&mut self, parent: Option<String>) -> (moved: bool)
        ensures
            final(self)@ == up(old(self)@, match parent {
                Some(p) => Some(p@),
                None => None,
            }),
            moved == parent is Some,
    {
        match parent {
            Some(p) => {
                let ghost before = views(self.history@);
                let mut current = p;
                std::mem::swap(&mut self.root, &mut current);
                self.history.push(current);
                assert(views(self.history@) =~= before.push(old(self).root@));
                true
            },
            None => false,
        }
    }

    /// Goes back to the most recent remembered folder. Returns whether the
    /// root changed.
    pub fn go_back(&mut self) -> (moved: bool)
        ensures
            final(self)@ == back(old(self)@),
            moved == (old(self)@.history.len() > 0),
    {
        match self.history.pop() {
            Some(prev) => {
                self.root = prev;
                assert(views(self.history@) =~= views(old(self).history@).drop_last());
                true
            },
            None => false,
        }
    }

    /// Opens `target` from the folder list.
    pub fn open_folder(&mut self, target: String)
        ensures
            final(self)@ == open(old(self)@, target@),
    {
        let ghost before = views(self.history@);
        if !str_eq(self.root.as_str(), target.as_str()) {
            let mut current = target;
            std::mem::swap(&mut self.root, &mut current);
            self.history.push(current);
            assert(views(self.history@) =~= before.push(old(self).root@));
        } else {
            self.root = target;
        }
    }

    /// Goes to a typed folder that the caller found to be a directory.
    pub fn go_to(&mut self, target: String)
        ensures
            final(self)@ == go_to(old(self)@, target@),
    {
        let ghost before = views(self.history@);
        let n = self.history.len();
        let remembered = n > 0 && str_eq(self.history[n - 1].as_str(), self.root.as_str());
        if remembered {
            self.root = target;
        } else {
            let mut current = target;
            std::mem::swap(&mut self.root, &mut current);
            self.history.push(current);
            assert(views(self.history@) =~= before.push(old(self).root@));
        }
    }
}

/// Going back after going up to a parent returns to exactly the state
/// before.
pub proof fn lemma_back_undoes_up(s: NavState, parent: Seq<char>)
    ensures
        back(up(s, Some(parent))) == s,
{
    assert(s.history.push(s.root).drop_last() =~= s.history);
}

/// Going back after opening a folder returns to the folder that was open
/// before.
pub proof fn lemma_back_after_open(s: NavState, target: Seq<char>)
    ensures
        s.root != target ==> back(open(s, target)) == s,
        s.root == target ==> back(open(s, target)) == back(s),
{
    assert(s.history.push(s.root).drop_last() =~= s.history);
}

/// Going back after going to a typed folder returns to the folder that was
/// open before.
pub proof fn lemma_back_after_go_to(s: NavState, target: Seq<char>)
    ensures
        back(go_to(s, target)).root == s.root,
{
    assert(s.history.push(s.root).drop_last() =~= s.history);
}

/// The selection after a click on `path`: with ctrl (or the command key)
/// the path is taken out of the selected set if it was in it and added
/// otherwise, and the focused file stays; with shift alone the path becomes
/// the focused file and the set stays; a plain click focuses the path and
/// makes it the only selected one.
pub open spec fn selection_after_click(
    focused: Option<Seq<char>>,
    selected: Seq<Seq<char>>,
    path: Seq<char>,
    ctrl: bool,
    shift: bool,
) -> (Option<Seq<char>>, Seq<Seq<char>>) {
    if ctrl {
        if selected.contains(path) {
            (focused, selected.filter(|s: Seq<char>| s != path))
        } else {
            (focused, selected.push(path))
        }
    } else if shift {
        (Some(path), selected)
    } else {
        (Some(path), seq![path])
    }
}

/// The focused file and the selected files after a click on `path` (see
/// [`selection_after_click`]).
pub fn click_selection(focused: Option<String>, selected: Vec<String>, path: &str, ctrl: bool, shift: bool) -> (r: (
    Option<String>,
    Vec<String>,
))
    ensures
        (match r.0 {
            Some(f) => Some(f@),
            None => None,
        }, views(r.1@)) == selection_after_click(
            match focused {
                Some(f) => Some(f@),
                None => None,
            },
            views(selected@),
            path@,
            ctrl,
            shift,
        ),
{
    if ctrl {
        let ghost sel = views(selected@);
        let mut kept: Vec<String> = Vec::new();
        let mut found = false;
        let mut i: usize = 0;
        while i < selected.len()
            invariant
                i <= selected.len(),
                sel == views(selected@),
                views(kept@) == sel.take(i as int).filter(|s: Seq<char>| s != path@),
                found == sel.take(i as int).contains(path@),
            decreases selected.len() - i,
        {
            assert(sel.take(i + 1) =~= sel.take(i as int).push(sel[i as int]));
            proof {
                sel.take(i as int).lemma_filter_push(sel[i as int], |s: Seq<char>| s != path@);
            }
            if str_eq(selected[i].as_str(), path) {
                found = true;
                assert(sel.take(i + 1).contains(path@)) by {
                    assert(sel.take(i + 1)[i as int] == path@);
                }
            } else {
                assert(sel.take(i + 1).contains(path@) == sel.take(i as int).contains(path@)) by {
                    let t = sel.take(i + 1);
                    if t.contains(path@) {
                        let k = choose|k: int| 0 <= k < t.len() && #[trigger] t[k] == path@;
                        if k < i {
                            assert(sel.take(i as int)[k] == path@);
                        }
                    }
                }
                let ghost before = views(kept@);
                kept.push(selected[i].clone());
                assert(views(kept@) =~= before.push(sel[i as int]));
            }
            i = i + 1;
        }
        assert(sel.take(selected.len() as int) =~= sel);
        if found {
            (focused, kept)
        } else {
            let mut all = selected;
            let ghost before = views(all@);
            all.push(path.to_owned());
            assert(views(all@) =~= before.push(path@));
            (focused, all)
        }
    } else if shift {
        (Some(path.to_owned()), selected)
    } else {
        let mut only: Vec<String> = Vec::new();
        only.push(path.to_owned());
        assert(views(only@) =~= seq![path@]);
        (Some(path.to_owned()), only)
    }
}

} // verus!
