//! The layout of the window: the widths of the side panels, kept within
//! bounds while the user drags them, the view mode, and the sort order
//! chosen by clicking column headers.
use vstd::prelude::*;
use crate::records::{SortBy, SortSetting};

verus! {

/// Narrowest and widest left panel.
pub const LEFT_MIN: u32 = 180;
pub const LEFT_MAX: u32 = 480;

/// Narrowest and widest preview panel.
pub const PREVIEW_MIN: u32 = 240;
pub const PREVIEW_MAX: u32 = 800;

/// `w` raised to `lo`, then lowered to `hi` (`w.max(lo).min(hi)`).
pub open spec fn clamped(w: int, lo: int, hi: int) -> int {
    let up = if w < lo { lo } else { w };
    if up > hi { hi } else { up }
}

/// A stored panel width brought within `lo..=hi`.
pub fn clamp_width(w: u32, lo: u32, hi: u32) -> (r: u32)
    ensures
        r == clamped(w as int, lo as int, hi as int),
{
    let up = if w < lo { lo } else { w };
    if up > hi { hi } else { up }
}

/// The width of the left panel while its right edge is dragged from
/// `start_x` (where the width was `start_width`) to `x_now`.
pub fn left_width_after_drag(start_x: i32, start_width: u32, x_now: i32) -> (r: u32)
    requires
        start_width <= i32::MAX,
        i32::MIN <= x_now - start_x <= i32::MAX,
        i32::MIN <= start_width + (x_now - start_x) <= i32::MAX,
    ensures
        r == clamped(start_width + (x_now - start_x), LEFT_MIN as int, LEFT_MAX as int),
{
    let w: i32 = start_width as i32 + (x_now - start_x);
    let up = if w < LEFT_MIN as i32 { LEFT_MIN as i32 } else { w };
    let r = if up > LEFT_MAX as i32 { LEFT_MAX as i32 } else { up };
    r as u32
}

/// The width of the preview panel while its left edge is dragged from
/// `start_x` (where the width was `start_width`) to `x_now`.
pub fn preview_width_after_drag(start_x: i32, start_width: u32, x_now: i32) -> (r: u32)
    requires
        start_width <= i32::MAX,
        i32::MIN <= start_x - x_now <= i32::MAX,
        i32::MIN <= start_width + (start_x - x_now) <= i32::MAX,
    ensures
        r == clamped(start_width + (start_x - x_now), PREVIEW_MIN as int, PREVIEW_MAX as int),
{
    let w: i32 = start_width as i32 + (start_x - x_now);
    let up = if w < PREVIEW_MIN as i32 { PREVIEW_MIN as i32 } else { w };
    let r = if up > PREVIEW_MAX as i32 { PREVIEW_MAX as i32 } else { up };
    r as u32
}

/// Narrowest and widest preview pane while it is dragged from inside.
pub const PANE_MIN: u32 = 160;
pub const PANE_MAX: u32 = 1600;

/// The width of the preview pane while it is dragged from inside, from
/// `start_x` (where the width was `start_width`) to `x_now`.
pub fn pane_width_after_drag(start_x: i32, start_width: u32, x_now: i32) -> (r: u32)
    requires
        start_width <= i32::MAX,
        i32::MIN <= x_now - start_x <= i32::MAX,
        i32::MIN <= start_width + (x_now - start_x) <= i32::MAX,
    ensures
        r == clamped(start_width + (x_now - start_x), PANE_MIN as int, PANE_MAX as int),
{
    let w: i32 = start_width as i32 + (x_now - start_x);
    let up = if w < PANE_MIN as i32 { PANE_MIN as i32 } else { w };
    let r = if up > PANE_MAX as i32 { PANE_MAX as i32 } else { up };
    r as u32
}

/// How the results are shown.
#[derive(Clone, Copy, PartialEq, Eq, Structural)]
pub enum ViewMode {
    Icons,
    Details,
}

/// The view mode stored in the settings: "icons" for icons, anything else
/// (or nothing) for details.
pub fn view_mode_from_setting(s: &Option<String>) -> (r: ViewMode)
    ensures
        r == (if s is Some && s->0@ == "icons"@ {
            ViewMode::Icons
        } else {
            ViewMode::Details
        }),
{
    match s {
        Some(v) => if crate::text::str_eq(v.as_str(), "icons") {
            ViewMode::Icons
        } else {
            ViewMode::Details
        },
        None => ViewMode::Details,
    }
}

/// The name under which a view mode is stored.
pub fn view_mode_setting(m: ViewMode) -> (r: String)
    ensures
        r@ == (match m {
            ViewMode::Icons => "icons"@,
            ViewMode::Details => "details"@,
        }),
{
    match m {
        ViewMode::Icons => "icons".to_owned(),
        ViewMode::Details => "details".to_owned(),
    }
}

/// The sort after the header of column `col` is clicked: the same column
/// flips direction, another column sorts ascending.
pub open spec fn after_click(s: SortSetting, col: SortBy) -> SortSetting {
    if s.by == col {
        SortSetting { by: col, asc: !s.asc }
    } else {
        SortSetting { by: col, asc: true }
    }
}

impl SortSetting {
    /// The sort used when none is stored: by name, ascending.
    pub fn default_sort() -> (r: Self)
        ensures
            r == (SortSetting { by: SortBy::Name, asc: true }),
    {
        SortSetting { by: SortBy::Name, asc: true }
    }

    /// The sort after the header of column `col` is clicked.
    pub fn clicked(self, col: SortBy) -> (r: Self)
        ensures
            r == after_click(self, col),
    {
        if self.by == col {
            SortSetting { by: col, asc: !self.asc }
        } else {
            SortSetting { by: col, asc: true }
        }
    }
}

/// Which date columns the details view shows, (modified, created): the
/// column sorted by, or the modification date when sorting by anything
/// else.
pub fn date_columns(by: SortBy) -> (r: (bool, bool))
    ensures
        r == (match by {
            SortBy::Modified => (true, false),
            SortBy::Created => (false, true),
            _ => (true, false),
        }),
{
    match by {
        SortBy::Modified => (true, false),
        SortBy::Created => (false, true),
        _ => (true, false),
    }
}

/// The columns of the details view, in order: name (0), category (6)
/// unless grouped by it, path (1), modified (2) and created (3) when shown,
/// size (4) and type (5).
pub open spec fn column_order(grouped: bool, show_path: bool, show_modified: bool, show_created: bool) -> Seq<usize> {
    seq![0usize] + (if grouped { seq![] } else { seq![6usize] }) + (if show_path { seq![1usize] } else { seq![] })
        + (if show_modified { seq![2usize] } else { seq![] }) + (if show_created { seq![3usize] } else { seq![] })
        + seq![4usize, 5usize]
}

pub fn detail_columns(grouped: bool, show_path: bool, show_modified: bool, show_created: bool) -> (r: Vec<usize>)
    ensures
        r@ == column_order(grouped, show_path, show_modified, show_created),
{
    let mut r: Vec<usize> = Vec::new();
    r.push(0);
    if !grouped {
        r.push(6);
    }
    if show_path {
        r.push(1);
    }
    if show_modified {
        r.push(2);
    }
    if show_created {
        r.push(3);
    }
    r.push(4);
    r.push(5);
    assert(r@ =~= column_order(grouped, show_path, show_modified, show_created));
    r
}

/// `root` leads `comps` component by component.
pub open spec fn under(comps: Seq<Seq<char>>, root: Seq<Seq<char>>) -> bool {
    root.len() <= comps.len() && forall|i: int| 0 <= i < root.len() ==> comps[i] == root[i]
}

/// An item needs the path column: it lies outside the shared folder, or
/// in a subfolder of it.
pub open spec fn needs_path(comps: Seq<Seq<char>>, root: Option<Seq<Seq<char>>>) -> bool {
    match root {
        Some(r) => !under(comps, r) || comps.len() >= r.len() + 2,
        None => true,
    }
}

fn leads_exec(comps: &Vec<String>, root: &Vec<String>) -> (r: bool)
    ensures
        r == under(crate::text::views(comps@), crate::text::views(root@)),
{
    if root.len() > comps.len() {
        return false;
    }
    let mut i: usize = 0;
    while i < root.len()
        invariant
            i <= root.len() <= comps.len(),
            forall|j: int| 0 <= j < i ==> comps@[j]@ == root@[j]@,
        decreases root.len() - i,
    {
        if !crate::text::str_eq(comps[i].as_str(), root[i].as_str()) {
            assert(crate::text::views(comps@)[i as int] != crate::text::views(root@)[i as int]);
            return false;
        }
        i = i + 1;
    }
    true
}

/// Whether the details view shows a path column: some item needs it.
pub fn show_path_column(items: &Vec<Vec<String>>, root: &Option<Vec<String>>) -> (r: bool)
    ensures
        r == exists|k: int|
            0 <= k < items@.len() && needs_path(
                crate::text::views(#[trigger] items@[k]@),
                match root {
                    Some(v) => Some(crate::text::views(v@)),
                    None => None,
                },
            ),
{
    let ghost rv = match root {
        Some(v) => Some(crate::text::views(v@)),
        None => None,
    };
    let mut k: usize = 0;
    while k < items.len()
        invariant
            k <= items@.len(),
            rv == (match root {
                Some(v) => Some(crate::text::views(v@)),
                None => None,
            }),
            forall|j: int| 0 <= j < k ==> !needs_path(crate::text::views(#[trigger] items@[j]@), rv),
        decreases items@.len() - k,
    {
        let needs = match root {
            Some(r) => !leads_exec(&items[k], r) || items[k].len() - r.len() >= 2,
            None => true,
        };
        if needs {
            assert(needs_path(crate::text::views(items@[k as int]@), rv));
            return true;
        }
        k = k + 1;
    }
    false
}

/// The folder a details row shows for an item: its parent relative to the
/// shared folder ("." when it lies directly in it), or its full path when
/// it lies outside it or there is no shared folder ("." for an empty one).
/// Relative folders are written with `/` between components.
pub open spec fn relative_parent(comps: Seq<Seq<char>>, root: Option<Seq<Seq<char>>>, abs: Seq<char>) -> Seq<char> {
    let rel = relative_folder(comps, root, abs);
    if rel.len() == 0 {
        seq!['.']
    } else {
        rel
    }
}

/// An item's parent relative to the shared folder, empty when it lies
/// directly in it; its full path when outside it or with no shared folder.
pub open spec fn relative_folder(comps: Seq<Seq<char>>, root: Option<Seq<Seq<char>>>, abs: Seq<char>) -> Seq<char> {
    match root {
        Some(r) => if under(comps, r) {
            let rest = comps.skip(r.len() as int);
            if rest.len() <= 1 {
                Seq::<char>::empty()
            } else {
                crate::text::join_seq(rest.drop_last(), seq!['/'])
            }
        } else {
            abs
        },
        None => abs,
    }
}

/// The folder shown in an item's details row (see [`relative_parent`]).
pub fn relative_parent_text(comps: &Vec<String>, root: &Option<Vec<String>>, abs_path: &str) -> (r: String)
    ensures
        r@ == relative_parent(
            crate::text::views(comps@),
            match root {
                Some(v) => Some(crate::text::views(v@)),
                None => None,
            },
            abs_path@,
        ),
{
    let ghost rv = match root {
        Some(v) => Some(crate::text::views(v@)),
        None => None,
    };
    let rel = match root {
        Some(rt) => {
            if leads_exec(comps, rt) {
                let start = rt.len();
                if comps.len() - start <= 1 {
                    assert(crate::text::views(comps@).skip(start as int).len() <= 1);
                    String::new()
                } else {
                    let mut mid: Vec<String> = Vec::new();
                    let mut i = start;
                    while i < comps.len() - 1
                        invariant
                            start <= i <= comps.len() - 1,
                            crate::text::views(mid@) == crate::text::views(comps@).subrange(start as int, i as int),
                        decreases comps.len() - 1 - i,
                    {
                        let ghost before = crate::text::views(mid@);
                        mid.push(comps[i].clone());
                        assert(crate::text::views(mid@) =~= before.push(comps@[i as int]@));
                        assert(crate::text::views(comps@).subrange(start as int, i + 1) =~= before.push(
                            comps@[i as int]@,
                        ));
                        i = i + 1;
                    }
                    let ghost cv = crate::text::views(comps@);
                    assert(cv.skip(start as int).drop_last() =~= cv.subrange(start as int, cv.len() - 1));
                    proof {
                        reveal_strlit("/");
                        assert("/"@ =~= seq!['/']);
                    }
                    let j = crate::text::join(&mid, "/");
                    assert(j@ == crate::text::join_seq(cv.skip(start as int).drop_last(), seq!['/']));
                    assert(rv == Some(crate::text::views(rt@)));
                    assert(crate::text::views(rt@).len() == start);
                    j
                }
            } else {
                abs_path.to_owned()
            }
        },
        None => abs_path.to_owned(),
    };
    assert(rel@ == relative_folder(crate::text::views(comps@), rv, abs_path@));
    if rel.as_str().is_empty() {
        proof {
            reveal_strlit(".");
        }
        ".".to_owned()
    } else {
        rel
    }
}

/// How many extensions are switched off.
pub open spec fn switched_off(entries: Seq<(String, bool)>) -> nat
    decreases entries.len(),
{
    if entries.len() == 0 {
        0
    } else {
        switched_off(entries.drop_last()) + if entries.last().1 { 0nat } else { 1nat }
    }
}

pub fn disabled_count(entries: &Vec<(String, bool)>) -> (r: usize)
    ensures
        r == switched_off(entries@),
{
    let mut n: usize = 0;
    let mut i: usize = 0;
    while i < entries.len()
        invariant
            i <= entries@.len(),
            n == switched_off(entries@.take(i as int)),
            n <= i,
        decreases entries@.len() - i,
    {
        assert(entries@.take(i + 1).drop_last() =~= entries@.take(i as int));
        if !entries[i].1 {
            n = n + 1;
        }
        i = i + 1;
    }
    assert(entries@.take(entries@.len() as int) =~= entries@);
    n
}

/// Clicking the header of the sorted column twice restores the sort.
pub proof fn lemma_click_twice(s: SortSetting)
    ensures
        after_click(after_click(s, s.by), s.by) == s,
{
}

} // verus!
