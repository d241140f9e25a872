//! The result list: filtering of file records by the active filters, the
//! categories offered in the category filter, and grouping by category.
use vstd::prelude::*;
use crate::metadata::MediaKind;
use crate::order::{compare_strs, lemma_lt_asym, lemma_lt_irreflexive, lemma_lt_total, lemma_lt_trans, seq_lt};
use crate::text::{
    ascii_lower_seq, contains, contains_seq, copy_opt, from_chars, str_eq, to_ascii_lowercase, to_chars, trim, trim_seq, views,
};

verus! {

/// A found file enriched with cached and AI data, as the result views show
/// it. `components` are the components of `path`, as the platform's path
/// rules split it; `category` is the category of the file's cached row.
pub struct FileRecord {
    pub path: String,
    pub components: Vec<String>,
    pub file_name: Option<String>,
    pub extension: Option<String>,
    pub size: Option<u64>,
    pub modified: Option<i64>,
    pub created: Option<i64>,
    pub kind: MediaKind,
    pub thumb_data: Option<String>,
    pub description: Option<String>,
    pub category: Option<String>,
}

pub struct FileRecordView {
    pub path: String,
    pub components: Seq<String>,
    pub file_name: Option<String>,
    pub extension: Option<String>,
    pub size: Option<u64>,
    pub modified: Option<i64>,
    pub created: Option<i64>,
    pub kind: MediaKind,
    pub thumb_data: Option<String>,
    pub description: Option<String>,
    pub category: Option<String>,
}

impl View for FileRecord {
    type V = FileRecordView;

    open spec fn view(&self) -> FileRecordView {
        FileRecordView {
            path: self.path,
            components: self.components@,
            file_name: self.file_name,
            extension: self.extension,
            size: self.size,
            modified: self.modified,
            created: self.created,
            kind: self.kind,
            thumb_data: self.thumb_data,
            description: self.description,
            category: self.category,
        }
    }
}

fn copy_kind(k: &MediaKind) -> (r: MediaKind)
    ensures
        r == *k,
{
    match k {
        MediaKind::Image => MediaKind::Image,
        MediaKind::Video => MediaKind::Video,
        MediaKind::Other => MediaKind::Other,
    }
}

impl FileRecord {
    pub fn duplicate(&self) -> (r: Self)
        ensures
            r@ == self@,
    {
        FileRecord {
            path: self.path.clone(),
            components: crate::text::copy_strings(&self.components),
            file_name: copy_opt(&self.file_name),
            extension: copy_opt(&self.extension),
            size: self.size,
            modified: self.modified,
            created: self.created,
            kind: copy_kind(&self.kind),
            thumb_data: copy_opt(&self.thumb_data),
            description: copy_opt(&self.description),
            category: copy_opt(&self.category),
        }
    }
}

pub open spec fn record_views(v: Seq<FileRecord>) -> Seq<FileRecordView> {
    v.map_values(|r: FileRecord| r@)
}

/// The filters that apply to the result list.
pub struct Filters {
    pub only_with_thumb: bool,
    pub only_with_description: bool,
    pub category_filters: Vec<String>,
    pub category_filter: Option<String>,
}

/// The switch stored for an extension: the first entry for it, if any.
pub open spec fn ext_switch(entries: Seq<(String, bool)>, ext: Seq<char>) -> Option<bool>
    decreases entries.len(),
{
    if entries.len() == 0 {
        None
    } else if entries[0].0@ == ext {
        Some(entries[0].1)
    } else {
        ext_switch(entries.drop_first(), ext)
    }
}

/// `dir` is a leading run of whole components of `comps` (`Path::starts_with`).
pub open spec fn starts_with_components(comps: Seq<Seq<char>>, dir: Seq<Seq<char>>) -> bool {
    dir.len() <= comps.len() && forall|i: int| 0 <= i < dir.len() ==> comps[i] == dir[i]
}

/// The search text lowercased (ASCII).
pub open spec fn needle_of(search: Seq<char>) -> Seq<char> {
    ascii_lower_seq(search)
}

/// A search text that looks like a path does not filter by name.
pub open spec fn pathlike(needle: Seq<char>) -> bool {
    needle.contains('\\') || needle.contains('/') || needle.contains(':')
}

/// Whether a record stays in the result list.
pub open spec fn passes_filters(
    r: FileRecordView,
    f: (bool, bool, Seq<Seq<char>>, Option<Seq<char>>),
    enabled: Seq<(String, bool)>,
    excluded: Seq<Seq<Seq<char>>>,
    search: Seq<char>,
) -> bool {
    let (only_thumb, only_desc, cats, single) = f;
    let needle = needle_of(search);
    &&& !(only_thumb && r.thumb_data is None)
    &&& match r.extension {
        Some(e) => ext_switch(enabled, ascii_lower_seq(e@)) != Some(false),
        None => true,
    }
    &&& forall|k: int| 0 <= k < excluded.len() ==> !starts_with_components(views(r.components), #[trigger] excluded[k])
    &&& (needle.len() == 0 || pathlike(needle) || contains_seq(
        ascii_lower_seq(
            match r.file_name {
                Some(n) => n@,
                None => seq![],
            },
        ),
        needle,
    ))
    &&& !(only_desc && r.description is None)
    &&& if cats.len() > 0 {
        match r.category {
            Some(c) => cats.contains(c@),
            None => false,
        }
    } else {
        match single {
            Some(s) => r.category is Some && r.category->0@ == s,
            None => true,
        }
    }
}

/// When the filters ask for a description, a record without one never
/// stays in the list, whatever the other filters say.
pub proof fn lemma_description_required(
    r: FileRecordView,
    f: (bool, bool, Seq<Seq<char>>, Option<Seq<char>>),
    enabled: Seq<(String, bool)>,
    excluded: Seq<Seq<Seq<char>>>,
    search: Seq<char>,
)
    requires
        f.1,
        r.description is None,
    ensures
        !passes_filters(r, f, enabled, excluded, search),
{
}

/// When the filters ask for a thumbnail, a record without one never stays.
pub proof fn lemma_thumbnail_required(
    r: FileRecordView,
    f: (bool, bool, Seq<Seq<char>>, Option<Seq<char>>),
    enabled: Seq<(String, bool)>,
    excluded: Seq<Seq<Seq<char>>>,
    search: Seq<char>,
)
    requires
        f.0,
        r.thumb_data is None,
    ensures
        !passes_filters(r, f, enabled, excluded, search),
{
}

/// A record whose extension (lowercased) is switched off never stays.
pub proof fn lemma_switched_off_extension_hidden(
    r: FileRecordView,
    f: (bool, bool, Seq<Seq<char>>, Option<Seq<char>>),
    enabled: Seq<(String, bool)>,
    excluded: Seq<Seq<Seq<char>>>,
    search: Seq<char>,
)
    requires
        r.extension is Some,
        ext_switch(enabled, ascii_lower_seq(r.extension->0@)) == Some(false),
    ensures
        !passes_filters(r, f, enabled, excluded, search),
{
}

/// A record inside an excluded folder never stays.
pub proof fn lemma_excluded_folder_hidden(
    r: FileRecordView,
    f: (bool, bool, Seq<Seq<char>>, Option<Seq<char>>),
    enabled: Seq<(String, bool)>,
    excluded: Seq<Seq<Seq<char>>>,
    search: Seq<char>,
    k: int,
)
    requires
        0 <= k < excluded.len(),
        starts_with_components(views(r.components), excluded[k]),
    ensures
        !passes_filters(r, f, enabled, excluded, search),
{
}

/// A name search that does not look like a path keeps only records whose
/// lowercased name contains the lowercased search text.
pub proof fn lemma_name_search_filters(
    r: FileRecordView,
    f: (bool, bool, Seq<Seq<char>>, Option<Seq<char>>),
    enabled: Seq<(String, bool)>,
    excluded: Seq<Seq<Seq<char>>>,
    search: Seq<char>,
)
    requires
        passes_filters(r, f, enabled, excluded, search),
        search.len() > 0,
        !pathlike(ascii_lower_seq(search)),
    ensures
        r.file_name is Some,
        contains_seq(ascii_lower_seq(r.file_name->0@), ascii_lower_seq(search)),
{
    if r.file_name is None {
        assert(ascii_lower_seq(seq![]) =~= Seq::<char>::empty());
        assert(!contains_seq(Seq::<char>::empty(), ascii_lower_seq(search)));
    }
}

/// With a list of categories chosen, only records of one of them stay;
/// with a single category chosen instead, only records of that one.
pub proof fn lemma_category_filters(
    r: FileRecordView,
    f: (bool, bool, Seq<Seq<char>>, Option<Seq<char>>),
    enabled: Seq<(String, bool)>,
    excluded: Seq<Seq<Seq<char>>>,
    search: Seq<char>,
)
    requires
        passes_filters(r, f, enabled, excluded, search),
    ensures
        f.2.len() > 0 ==> r.category is Some && f.2.contains(r.category->0@),
        f.2.len() == 0 && f.3 is Some ==> r.category is Some && r.category->0@ == f.3->0,
{
}

/// With every filter off, no switches, no excluded folders and no search,
/// every record stays.
pub proof fn lemma_no_filters_keep_all(r: FileRecordView)
    ensures
        passes_filters(
            r,
            (false, false, Seq::<Seq<char>>::empty(), None),
            Seq::<(String, bool)>::empty(),
            Seq::<Seq<Seq<char>>>::empty(),
            Seq::<char>::empty(),
        ),
{
    assert(ascii_lower_seq(Seq::<char>::empty()) =~= Seq::<char>::empty());
}

pub open spec fn filters_view(f: &Filters) -> (bool, bool, Seq<Seq<char>>, Option<Seq<char>>) {
    (
        f.only_with_thumb,
        f.only_with_description,
        views(f.category_filters@),
        match f.category_filter {
            Some(s) => Some(s@),
            None => None,
        },
    )
}

/// The records that pass, in order.
pub open spec fn filtered(
    recs: Seq<FileRecordView>,
    f: (bool, bool, Seq<Seq<char>>, Option<Seq<char>>),
    enabled: Seq<(String, bool)>,
    excluded: Seq<Seq<Seq<char>>>,
    search: Seq<char>,
) -> Seq<FileRecordView>
    decreases recs.len(),
{
    if recs.len() == 0 {
        seq![]
    } else if passes_filters(recs.last(), f, enabled, excluded, search) {
        filtered(recs.drop_last(), f, enabled, excluded, search).push(recs.last())
    } else {
        filtered(recs.drop_last(), f, enabled, excluded, search)
    }
}

pub(crate) fn lookup_switch(entries: &Vec<(String, bool)>, ext: &str) -> (r: Option<bool>)
    ensures
        r == ext_switch(entries@, ext@),
{
    let mut i: usize = 0;
    assert(entries@.skip(0) =~= entries@);
    while i < entries.len()
        invariant
            i <= entries.len(),
            ext_switch(entries@, ext@) == ext_switch(entries@.skip(i as int), ext@),
        decreases entries.len() - i,
    {
        assert(entries@.skip(i as int)[0] == entries@[i as int]);
        assert(entries@.skip(i as int).drop_first() =~= entries@.skip(i + 1));
        if str_eq(entries[i].0.as_str(), ext) {
            return Some(entries[i].1);
        }
        i = i + 1;
    }
    None
}

fn starts_with_dir(comps: &Vec<String>, dir: &Vec<String>) -> (r: bool)
    ensures
        r == starts_with_components(views(comps@), views(dir@)),
{
    if dir.len() > comps.len() {
        return false;
    }
    let mut i: usize = 0;
    while i < dir.len()
        invariant
            i <= dir.len() <= comps.len(),
            forall|j: int| 0 <= j < i ==> comps@[j]@ == dir@[j]@,
        decreases dir.len() - i,
    {
        if !str_eq(comps[i].as_str(), dir[i].as_str()) {
            assert(views(comps@)[i as int] != views(dir@)[i as int]);
            return false;
        }
        i = i + 1;
    }
    true
}

fn contains_view(v: &Vec<String>, s: &str) -> (r: bool)
    ensures
        r == views(v@).contains(s@),
{
    let mut i: usize = 0;
    while i < v.len()
        invariant
            i <= v.len(),
            forall|j: int| 0 <= j < i ==> v@[j]@ != s@,
        decreases v.len() - i,
    {
        if str_eq(v[i].as_str(), s) {
            assert(views(v@)[i as int] == s@);
            return true;
        }
        i = i + 1;
    }
    assert forall|j: int| 0 <= j < views(v@).len() implies views(v@)[j] != s@ by {}
    false
}

fn has_char(v: &Vec<char>, c: char) -> (r: bool)
    ensures
        r == v@.contains(c),
{
    let mut i: usize = 0;
    while i < v.len()
        invariant
            i <= v.len(),
            forall|j: int| 0 <= j < i ==> v@[j] != c,
        decreases v.len() - i,
    {
        if v[i] == c {
            return true;
        }
        i = i + 1;
    }
    false
}

/// Whether one record passes the filters.
pub fn record_passes(
    r: &FileRecord,
    f: &Filters,
    ext_enabled: &Vec<(String, bool)>,
    excluded_dirs: &Vec<Vec<String>>,
    search_text: &str,
) -> (b: bool)
    ensures
        b == passes_filters(
            r@,
            filters_view(f),
            ext_enabled@,
            excluded_dirs@.map_values(|d: Vec<String>| views(d@)),
            search_text@,
        ),
{
    let ghost excl = excluded_dirs@.map_values(|d: Vec<String>| views(d@));
    if f.only_with_thumb && r.thumb_data.is_none() {
        return false;
    }
    match &r.extension {
        Some(e) => {
            let lc = to_ascii_lowercase(e.as_str());
            match lookup_switch(ext_enabled, lc.as_str()) {
                Some(flag) => if !flag {
                    return false;
                },
                None => {},
            }
        },
        None => {},
    }
    let mut k: usize = 0;
    while k < excluded_dirs.len()
        invariant
            k <= excluded_dirs.len(),
            excl == excluded_dirs@.map_values(|d: Vec<String>| views(d@)),
            forall|j: int| 0 <= j < k ==> !starts_with_components(views(r.components@), #[trigger] excl[j]),
        decreases excluded_dirs.len() - k,
    {
        if starts_with_dir(&r.components, &excluded_dirs[k]) {
            assert(starts_with_components(views(r.components@), excl[k as int]));
            return false;
        }
        k = k + 1;
    }
    let needle = to_ascii_lowercase(search_text);
    let nv = to_chars(needle.as_str());
    let path_like = has_char(&nv, '\\') || has_char(&nv, '/') || has_char(&nv, ':');
    if nv.len() > 0 && !path_like {
        let name_lc = match &r.file_name {
            Some(n) => to_ascii_lowercase(n.as_str()),
            None => String::new(),
        };
        if !contains(name_lc.as_str(), needle.as_str()) {
            return false;
        }
    }
    if f.only_with_description && r.description.is_none() {
        return false;
    }
    if f.category_filters.len() > 0 {
        match &r.category {
            Some(c) => contains_view(&f.category_filters, c.as_str()),
            None => false,
        }
    } else {
        match &f.category_filter {
            Some(s) => match &r.category {
                Some(c) => str_eq(c.as_str(), s.as_str()),
                None => false,
            },
            None => true,
        }
    }
}

/// The records that pass the filters, in their order.
pub fn filter_records(
    records: &Vec<FileRecord>,
    f: &Filters,
    ext_enabled: &Vec<(String, bool)>,
    excluded_dirs: &Vec<Vec<String>>,
    search_text: &str,
) -> (r: Vec<FileRecord>)
    ensures
        record_views(r@) == filtered(
            record_views(records@),
            filters_view(f),
            ext_enabled@,
            excluded_dirs@.map_values(|d: Vec<String>| views(d@)),
            search_text@,
        ),
{
    let ghost excl = excluded_dirs@.map_values(|d: Vec<String>| views(d@));
    let mut out: Vec<FileRecord> = Vec::new();
    let mut i: usize = 0;
    while i < records.len()
        invariant
            i <= records.len(),
            excl == excluded_dirs@.map_values(|d: Vec<String>| views(d@)),
            record_views(out@) == filtered(
                record_views(records@).take(i as int),
                filters_view(f),
                ext_enabled@,
                excl,
                search_text@,
            ),
        decreases records.len() - i,
    {
        assert(record_views(records@).take(i + 1).drop_last() =~= record_views(records@).take(
            i as int,
        ));
        assert(record_views(records@).take(i + 1).last() == records@[i as int]@);
        if record_passes(&records[i], f, ext_enabled, excluded_dirs, search_text) {
            let ghost before = record_views(out@);
            out.push(records[i].duplicate());
            assert(record_views(out@) =~= before.push(records@[i as int]@));
        }
        i = i + 1;
    }
    assert(record_views(records@).take(records.len() as int) =~= record_views(records@));
    out
}

/// Strictly increasing in string order, hence without repeats.
pub open spec fn strictly_sorted(v: Seq<Seq<char>>) -> bool {
    forall|i: int, j: int| 0 <= i < j < v.len() ==> seq_lt(v[i], v[j])
}

/// Inserts `s` into a strictly sorted list unless it is already there.
pub(crate) fn insert_sorted(v: &mut Vec<String>, s: &String)
    requires
        strictly_sorted(views(old(v)@)),
    ensures
        strictly_sorted(views(final(v)@)),
        forall|x: Seq<char>| views(final(v)@).contains(x) <==> (views(old(v)@).contains(x) || x == s@),
{
    let sv = to_chars(s.as_str());
    let mut i: usize = 0;
    let mut stop = false;
    while i < v.len() && !stop
        invariant
            i <= v.len(),
            v@ == old(v)@,
            sv@ == s@,
            strictly_sorted(views(v@)),
            forall|j: int| 0 <= j < i ==> seq_lt(v@[j]@, s@),
            stop ==> i < v.len() && seq_lt(s@, v@[i as int]@),
        decreases v.len() - i, if stop { 0int } else { 1int },
    {
        let cv = to_chars(v[i].as_str());
        let c = compare_strs(&cv, &sv);
        if c == 0 {
            assert(views(v@)[i as int] == s@);
            return;
        }
        if c == 1 {
            stop = true;
        } else {
            i = i + 1;
        }
    }
    let ghost old_views = views(v@);
    proof {
        assert forall|j: int| i <= j < v.len() implies seq_lt(s@, #[trigger] old_views[j]) by {
            if j > i {
                lemma_lt_trans(s@, old_views[i as int], old_views[j]);
            }
        }
    }
    v.insert(i, s.clone());
    proof {
        let nv = views(v@);
        assert(nv =~= old_views.insert(i as int, s@));
        assert forall|a: int, b: int| 0 <= a < b < nv.len() implies seq_lt(nv[a], nv[b]) by {
            if b < i {
            } else if b == i {
                assert(nv[a] == old_views[a]);
            } else if a < i {
                assert(nv[b] == old_views[b - 1]);
                lemma_lt_trans(nv[a], s@, nv[b]);
            } else if a == i {
                assert(nv[b] == old_views[b - 1]);
            } else {
                assert(nv[a] == old_views[a - 1] && nv[b] == old_views[b - 1]);
            }
        }
        assert forall|x: Seq<char>| nv.contains(x) <==> (old_views.contains(x) || x == s@) by {
            if nv.contains(x) {
                let k = choose|k: int| 0 <= k < nv.len() && nv[k] == x;
                if k < i {
                    assert(old_views[k] == x);
                } else if k > i {
                    assert(old_views[k - 1] == x);
                }
            }
            if old_views.contains(x) {
                let k = choose|k: int| 0 <= k < old_views.len() && old_views[k] == x;
                if k < i {
                    assert(nv[k] == x);
                } else {
                    assert(nv[k + 1] == x);
                }
            }
            if x == s@ {
                assert(nv[i as int] == x);
            }
        }
    }
}

/// Some record has category `c`, and `c` is not empty.
pub open spec fn has_category(recs: Seq<FileRecordView>, c: Seq<char>) -> bool {
    c.len() > 0 && exists|k: int|
        0 <= k < recs.len() && recs[k].category is Some && recs[k].category->0@ == c
}

/// The distinct non-empty categories of the records, in string order.
pub fn categories_available(records: &Vec<FileRecord>) -> (r: Vec<String>)
    ensures
        strictly_sorted(views(r@)),
        forall|c: Seq<char>| views(r@).contains(c) <==> has_category(record_views(records@), c),
{
    let mut r: Vec<String> = Vec::new();
    let mut i: usize = 0;
    while i < records.len()
        invariant
            i <= records.len(),
            strictly_sorted(views(r@)),
            forall|c: Seq<char>|
                views(r@).contains(c) <==> has_category(record_views(records@).take(i as int), c),
        decreases records.len() - i,
    {
        let ghost before = views(r@);
        let ghost recs_i = record_views(records@).take(i as int);
        let ghost recs_n = record_views(records@).take(i + 1);
        assert(recs_n[i as int] == records@[i as int]@);
        match &records[i].category {
            Some(c) => {
                if !c.as_str().is_empty() {
                    insert_sorted(&mut r, c);
                    assert(has_category(recs_n, c@));
                }
            },
            None => {},
        }
        proof {
            assert forall|c: Seq<char>| views(r@).contains(c) <==> has_category(recs_n, c) by {
                if has_category(recs_n, c) {
                    let k = choose|k: int|
                        0 <= k < recs_n.len() && recs_n[k].category is Some
                            && recs_n[k].category->0@ == c;
                    if k < i {
                        assert(recs_i[k] == recs_n[k]);
                        assert(has_category(recs_i, c));
                    }
                }
                if has_category(recs_i, c) {
                    let k = choose|k: int|
                        0 <= k < recs_i.len() && recs_i[k].category is Some
                            && recs_i[k].category->0@ == c;
                    assert(recs_i[k] == recs_n[k]);
                }
                if views(r@).contains(c) && !before.contains(c) {
                    assert(recs_n[i as int] == records@[i as int]@);
                }
            }
        }
        i = i + 1;
    }
    assert(record_views(records@).take(records.len() as int) =~= record_views(records@));
    r
}

/// The group a record falls in: its category, or "Uncategorized".
pub open spec fn group_key(r: FileRecordView) -> Seq<char> {
    match r.category {
        Some(c) => c@,
        None => seq!['U', 'n', 'c', 'a', 't', 'e', 'g', 'o', 'r', 'i', 'z', 'e', 'd'],
    }
}

/// The records of group `k`, in order.
pub open spec fn in_group(recs: Seq<FileRecordView>, k: Seq<char>) -> Seq<FileRecordView>
    decreases recs.len(),
{
    if recs.len() == 0 {
        seq![]
    } else if group_key(recs.last()) == k {
        in_group(recs.drop_last(), k).push(recs.last())
    } else {
        in_group(recs.drop_last(), k)
    }
}

fn group_key_exec(r: &FileRecord) -> (k: String)
    ensures
        k@ == group_key(r@),
{
    match &r.category {
        Some(c) => c.clone(),
        None => {
            proof {
                reveal_strlit("Uncategorized");
                assert("Uncategorized"@ =~= seq![
                    'U', 'n', 'c', 'a', 't', 'e', 'g', 'o', 'r', 'i', 'z', 'e', 'd',
                ]);
            }
            "Uncategorized".to_owned()
        },
    }
}

/// The names of a list of groups.
pub open spec fn group_names(groups: Seq<(String, Vec<FileRecord>)>) -> Seq<Seq<char>> {
    groups.map_values(|g: (String, Vec<FileRecord>)| g.0@)
}

/// The records grouped by category, groups in string order of their keys,
/// records in their original order within each group.
pub fn group_by_category(records: &Vec<FileRecord>) -> (r: Vec<(String, Vec<FileRecord>)>)
    ensures
        strictly_sorted(group_names(r@)),
        forall|k: Seq<char>|
            #[trigger] group_names(r@).contains(k) <==> exists|j: int|
                0 <= j < records@.len() && group_key(records@[j]@) == k,
        forall|g: int|
            0 <= g < r@.len() ==> record_views((#[trigger] r@[g]).1@) == in_group(
                record_views(records@),
                r@[g].0@,
            ),
{
    let mut keys: Vec<String> = Vec::new();
    let mut i: usize = 0;
    while i < records.len()
        invariant
            i <= records.len(),
            strictly_sorted(views(keys@)),
            forall|k: Seq<char>|
                views(keys@).contains(k) <==> exists|j: int|
                    0 <= j < i && group_key(records@[j]@) == k,
        decreases records.len() - i,
    {
        let k = group_key_exec(&records[i]);
        insert_sorted(&mut keys, &k);
        proof {
            assert forall|x: Seq<char>|
                views(keys@).contains(x) <==> exists|j: int|
                    0 <= j < i + 1 && group_key(records@[j]@) == x by {
                if x == k@ {
                    assert(group_key(records@[i as int]@) == x);
                }
                if exists|j: int| 0 <= j < i + 1 && group_key(records@[j]@) == x {
                    let j = choose|j: int| 0 <= j < i + 1 && group_key(records@[j]@) == x;
                    if j < i {
                        assert(exists|j2: int| 0 <= j2 < i && group_key(records@[j2]@) == x);
                    }
                }
            }
        }
        i = i + 1;
    }
    let mut out: Vec<(String, Vec<FileRecord>)> = Vec::new();
    let mut g: usize = 0;
    while g < keys.len()
        invariant
            g <= keys.len(),
            out@.len() == g,
            forall|a: int| 0 <= a < g ==> (#[trigger] out@[a]).0@ == keys@[a]@,
            forall|a: int|
                0 <= a < g ==> record_views((#[trigger] out@[a]).1@) == in_group(
                    record_views(records@),
                    out@[a].0@,
                ),
        decreases keys.len() - g,
    {
        let mut members: Vec<FileRecord> = Vec::new();
        let mut j: usize = 0;
        while j < records.len()
            invariant
                j <= records.len(),
                g < keys.len(),
                record_views(members@) == in_group(record_views(records@).take(j as int), keys@[g as int]@),
            decreases records.len() - j,
        {
            assert(record_views(records@).take(j + 1).drop_last() =~= record_views(records@).take(
                j as int,
            ));
            assert(record_views(records@).take(j + 1).last() == records@[j as int]@);
            let k = group_key_exec(&records[j]);
            if str_eq(k.as_str(), keys[g].as_str()) {
                let ghost before = record_views(members@);
                members.push(records[j].duplicate());
                assert(record_views(members@) =~= before.push(records@[j as int]@));
            }
            j = j + 1;
        }
        assert(record_views(records@).take(records.len() as int) =~= record_views(records@));
        out.push((keys[g].clone(), members));
        g = g + 1;
    }
    assert(group_names(out@) =~= views(keys@));
    out
}

/// The column a result list is sorted by.
#[derive(Clone, Copy, PartialEq, Eq, Structural)]
pub enum SortBy {
    Name,
    Category,
    Modified,
    Created,
    Size,
    Type,
}

/// The sort column and direction.
#[derive(Clone, Copy, PartialEq, Eq, Structural)]
pub struct SortSetting {
    pub by: SortBy,
    pub asc: bool,
}

/// `a` strictly before `b` among optional numbers, absent first.
pub open spec fn opt_lt(a: Option<int>, b: Option<int>) -> bool {
    match (a, b) {
        (None, Some(_)) => true,
        (Some(x), Some(y)) => x < y,
        _ => false,
    }
}

/// A sort key: a text and a number, compared text first.
pub open spec fn key_lt(a: (Seq<char>, Option<int>), b: (Seq<char>, Option<int>)) -> bool {
    seq_lt(a.0, b.0) || (a.0 == b.0 && opt_lt(a.1, b.1))
}

/// The key of a record for a column. Names, categories and extensions
/// are compared lowercased (`str::to_lowercase`), missing ones as empty.
pub open spec fn sort_key(r: FileRecordView, by: SortBy) -> (Seq<char>, Option<int>) {
    let text_of = |o: Option<String>|
        match o {
            Some(s) => crate::display::unicode_lowercase(s@),
            None => crate::display::unicode_lowercase(seq![]),
        };
    match by {
        SortBy::Name => (text_of(r.file_name), None),
        SortBy::Category => (text_of(r.category), None),
        SortBy::Type => (text_of(r.extension), None),
        SortBy::Modified => (seq![], match r.modified {
            Some(t) => Some(t as int),
            None => None,
        }),
        SortBy::Created => (seq![], match r.created {
            Some(t) => Some(t as int),
            None => None,
        }),
        SortBy::Size => (seq![], match r.size {
            Some(t) => Some(t as int),
            None => None,
        }),
    }
}

/// Record `i` comes before record `j` in the sorted list: by key in the
/// chosen direction, ties kept in their original order (a stable sort).
pub open spec fn sorts_before(
    keys: Seq<(Seq<char>, Option<int>)>,
    asc: bool,
    i: int,
    j: int,
) -> bool {
    if asc {
        key_lt(keys[i], keys[j]) || (keys[i] == keys[j] && i < j)
    } else {
        key_lt(keys[j], keys[i]) || (keys[i] == keys[j] && i < j)
    }
}

proof fn lemma_key_total(a: (Seq<char>, Option<int>), b: (Seq<char>, Option<int>))
    ensures
        key_lt(a, b) || key_lt(b, a) || a == b,
        !(key_lt(a, b) && key_lt(b, a)),
        !key_lt(a, a),
{
    lemma_lt_total(a.0, b.0);
    lemma_lt_irreflexive(a.0);
    if seq_lt(a.0, b.0) {
        lemma_lt_asym(a.0, b.0);
    }
    if seq_lt(b.0, a.0) {
        lemma_lt_asym(b.0, a.0);
    }
}

proof fn lemma_key_trans(
    a: (Seq<char>, Option<int>),
    b: (Seq<char>, Option<int>),
    c: (Seq<char>, Option<int>),
)
    requires
        key_lt(a, b),
        key_lt(b, c),
    ensures
        key_lt(a, c),
{
    if seq_lt(a.0, b.0) && seq_lt(b.0, c.0) {
        lemma_lt_trans(a.0, b.0, c.0);
    }
}

/// Sorting by modification time, creation time or size compares just that
/// field of the two records (missing ones first), whatever their other
/// fields hold.
pub proof fn lemma_numeric_columns_compare_their_field(x: FileRecordView, y: FileRecordView)
    ensures
        key_lt(sort_key(x, SortBy::Created), sort_key(y, SortBy::Created)) <==> opt_lt(
            match x.created {
                Some(t) => Some(t as int),
                None => None,
            },
            match y.created {
                Some(t) => Some(t as int),
                None => None,
            },
        ),
        sort_key(x, SortBy::Created) == sort_key(y, SortBy::Created) <==> x.created == y.created,
        key_lt(sort_key(x, SortBy::Modified), sort_key(y, SortBy::Modified)) <==> opt_lt(
            match x.modified {
                Some(t) => Some(t as int),
                None => None,
            },
            match y.modified {
                Some(t) => Some(t as int),
                None => None,
            },
        ),
        sort_key(x, SortBy::Modified) == sort_key(y, SortBy::Modified) <==> x.modified == y.modified,
        key_lt(sort_key(x, SortBy::Size), sort_key(y, SortBy::Size)) <==> opt_lt(
            match x.size {
                Some(t) => Some(t as int),
                None => None,
            },
            match y.size {
                Some(t) => Some(t as int),
                None => None,
            },
        ),
        sort_key(x, SortBy::Size) == sort_key(y, SortBy::Size) <==> x.size == y.size,
{
    lemma_lt_irreflexive(Seq::<char>::empty());
}

/// Sorting by name, category or type compares the lowercased name,
/// category or extension (missing ones as empty) in text order.
pub proof fn lemma_text_columns_compare_their_field(x: FileRecordView, y: FileRecordView)
    ensures
        key_lt(sort_key(x, SortBy::Name), sort_key(y, SortBy::Name)) <==> seq_lt(
            crate::display::unicode_lowercase(match x.file_name { Some(n) => n@, None => seq![] }),
            crate::display::unicode_lowercase(match y.file_name { Some(n) => n@, None => seq![] }),
        ),
        key_lt(sort_key(x, SortBy::Category), sort_key(y, SortBy::Category)) <==> seq_lt(
            crate::display::unicode_lowercase(match x.category { Some(n) => n@, None => seq![] }),
            crate::display::unicode_lowercase(match y.category { Some(n) => n@, None => seq![] }),
        ),
        key_lt(sort_key(x, SortBy::Type), sort_key(y, SortBy::Type)) <==> seq_lt(
            crate::display::unicode_lowercase(match x.extension { Some(n) => n@, None => seq![] }),
            crate::display::unicode_lowercase(match y.extension { Some(n) => n@, None => seq![] }),
        ),
{
}

/// In a list sorted by creation time, records with a creation time come
/// in the order of it: ascending or descending as chosen.
pub proof fn lemma_sorted_by_created(recs: Seq<FileRecord>, order: Seq<usize>, asc: bool)
    requires
        is_permutation(order, recs.len()),
        forall|a: int, b: int|
            0 <= a < b < order.len() ==> sorts_before(
                recs.map_values(|x: FileRecord| sort_key(x@, SortBy::Created)),
                asc,
                order[a] as int,
                order[b] as int,
            ),
    ensures
        forall|a: int, b: int|
            0 <= a < b < order.len() && (#[trigger] recs[order[a] as int]).created is Some && (
            #[trigger] recs[order[b] as int]).created is Some ==> if asc {
                recs[order[a] as int].created->0 <= recs[order[b] as int].created->0
            } else {
                recs[order[a] as int].created->0 >= recs[order[b] as int].created->0
            },
{
    let keys = recs.map_values(|x: FileRecord| sort_key(x@, SortBy::Created));
    assert forall|a: int, b: int|
        0 <= a < b < order.len() && (#[trigger] recs[order[a] as int]).created is Some && (
        #[trigger] recs[order[b] as int]).created is Some implies if asc {
            recs[order[a] as int].created->0 <= recs[order[b] as int].created->0
        } else {
            recs[order[a] as int].created->0 >= recs[order[b] as int].created->0
        } by {
        let i = order[a] as int;
        let j = order[b] as int;
        assert(sorts_before(keys, asc, i, j));
        lemma_numeric_columns_compare_their_field(recs[i]@, recs[j]@);
        assert(keys[i] == sort_key(recs[i]@, SortBy::Created));
        assert(keys[j] == sort_key(recs[j]@, SortBy::Created));
    }
}

fn opt_lt_exec(a: Option<i128>, b: Option<i128>) -> (r: bool)
    ensures
        r == opt_lt(
            match a {
                Some(x) => Some(x as int),
                None => None,
            },
            match b {
                Some(x) => Some(x as int),
                None => None,
            },
        ),
{
    match (a, b) {
        (None, Some(_)) => true,
        (Some(x), Some(y)) => x < y,
        _ => false,
    }
}

pub open spec fn key_of(k: (Vec<char>, Option<i128>)) -> (Seq<char>, Option<int>) {
    (k.0@, match k.1 {
        Some(x) => Some(x as int),
        None => None,
    })
}

fn key_lt_exec(a: &(Vec<char>, Option<i128>), b: &(Vec<char>, Option<i128>)) -> (r: bool)
    ensures
        r == key_lt(key_of(*a), key_of(*b)),
{
    let c = compare_strs(&a.0, &b.0);
    if c == -1 {
        true
    } else if c == 0 {
        opt_lt_exec(a.1, b.1)
    } else {
        proof {
            lemma_lt_asym(b.0@, a.0@);
        }
        false
    }
}

fn text_key(o: &Option<String>) -> (r: Vec<char>)
    ensures
        r@ == (match *o {
            Some(s) => crate::display::unicode_lowercase(s@),
            None => crate::display::unicode_lowercase(seq![]),
        }),
{
    let s = match o {
        Some(s) => crate::display::to_lowercase(s.as_str()),
        None => {
            let e = String::new();
            crate::display::to_lowercase(e.as_str())
        },
    };
    to_chars(s.as_str())
}

fn sort_key_exec(r: &FileRecord, by: &SortBy) -> (k: (Vec<char>, Option<i128>))
    ensures
        key_of(k) == sort_key(r@, *by),
{
    match by {
        SortBy::Name => (text_key(&r.file_name), None),
        SortBy::Category => (text_key(&r.category), None),
        SortBy::Type => (text_key(&r.extension), None),
        SortBy::Modified => {
            let v: Vec<char> = Vec::new();
            assert(v@ =~= Seq::<char>::empty());
            (v, match r.modified {
                Some(t) => Some(t as i128),
                None => None,
            })
        },
        SortBy::Created => {
            let v: Vec<char> = Vec::new();
            assert(v@ =~= Seq::<char>::empty());
            (v, match r.created {
                Some(t) => Some(t as i128),
                None => None,
            })
        },
        SortBy::Size => {
            let v: Vec<char> = Vec::new();
            assert(v@ =~= Seq::<char>::empty());
            (v, match r.size {
                Some(t) => Some(t as i128),
                None => None,
            })
        },
    }
}

/// `p` lists each of `0..n` exactly once.
pub open spec fn is_permutation(p: Seq<usize>, n: nat) -> bool {
    &&& p.len() == n
    &&& forall|a: int| 0 <= a < p.len() ==> p[a] < n
    &&& forall|a: int, b: int| 0 <= a < b < p.len() ==> p[a] != p[b]
}

/// The order in which the records are listed: a permutation of their
/// positions, sorted by [`sorts_before`].
pub fn sorted_order(records: &Vec<FileRecord>, setting: &SortSetting) -> (r: Vec<usize>)
    ensures
        is_permutation(r@, records@.len()),
        forall|a: int, b: int|
            0 <= a < b < r@.len() ==> sorts_before(
                records@.map_values(|x: FileRecord| sort_key(x@, setting.by)),
                setting.asc,
                r@[a] as int,
                r@[b] as int,
            ),
{
    let ghost keys = records@.map_values(|x: FileRecord| sort_key(x@, setting.by));
    let mut ks: Vec<(Vec<char>, Option<i128>)> = Vec::new();
    let mut i: usize = 0;
    while i < records.len()
        invariant
            i <= records.len(),
            keys == records@.map_values(|x: FileRecord| sort_key(x@, setting.by)),
            ks@.len() == i,
            forall|a: int| 0 <= a < i ==> key_of(#[trigger] ks@[a]) == keys[a],
        decreases records.len() - i,
    {
        ks.push(sort_key_exec(&records[i], &setting.by));
        i = i + 1;
    }
    let mut perm: Vec<usize> = Vec::new();
    let mut k: usize = 0;
    while k < records.len()
        invariant
            k <= records.len() == ks@.len(),
            keys == records@.map_values(|x: FileRecord| sort_key(x@, setting.by)),
            forall|a: int| 0 <= a < ks@.len() ==> key_of(#[trigger] ks@[a]) == keys[a],
            is_permutation(perm@, k as nat),
            forall|a: int, b: int|
                0 <= a < b < perm@.len() ==> sorts_before(
                    keys,
                    setting.asc,
                    perm@[a] as int,
                    perm@[b] as int,
                ),
        decreases records.len() - k,
    {
        let mut pos: usize = 0;
        let mut found = false;
        while pos < perm.len() && !found
            invariant
                pos <= perm.len(),
                k < ks@.len(),
                is_permutation(perm@, k as nat),
                forall|a: int| 0 <= a < ks@.len() ==> key_of(#[trigger] ks@[a]) == keys[a],
                forall|a: int| 0 <= a < pos ==> sorts_before(keys, setting.asc, perm@[a] as int, k as int),
                found ==> pos < perm.len() && sorts_before(keys, setting.asc, k as int, perm@[pos as int] as int),
            decreases perm.len() - pos, if found { 0int } else { 1int },
        {
            let p = perm[pos];
            let goes_first = if setting.asc {
                key_lt_exec(&ks[k], &ks[p])
            } else {
                key_lt_exec(&ks[p], &ks[k])
            };
            proof {
                lemma_key_total(keys[k as int], keys[p as int]);
            }
            if goes_first {
                found = true;
            } else {
                pos = pos + 1;
            }
        }
        let ghost old_perm = perm@;
        proof {
            assert forall|j: int| pos <= j < old_perm.len() implies sorts_before(
                keys,
                setting.asc,
                k as int,
                #[trigger] old_perm[j] as int,
            ) by {
                if j > pos {
                    let x = old_perm[pos as int] as int;
                    let y = old_perm[j] as int;
                    assert(sorts_before(keys, setting.asc, x, y));
                    assert(sorts_before(keys, setting.asc, k as int, x));
                    if setting.asc {
                        if key_lt(keys[k as int], keys[x]) && key_lt(keys[x], keys[y]) {
                            lemma_key_trans(keys[k as int], keys[x], keys[y]);
                        }
                    } else {
                        if key_lt(keys[x], keys[k as int]) && key_lt(keys[y], keys[x]) {
                            lemma_key_trans(keys[y], keys[x], keys[k as int]);
                        }
                    }
                    lemma_key_total(keys[k as int], keys[y]);
                }
            }
        }
        perm.insert(pos, k);
        proof {
            let np = perm@;
            assert(np =~= old_perm.insert(pos as int, k));
            assert forall|a: int, b: int| 0 <= a < b < np.len() implies sorts_before(
                keys,
                setting.asc,
                np[a] as int,
                np[b] as int,
            ) by {
                if b < pos {
                } else if b == pos {
                    assert(np[a] == old_perm[a]);
                } else if a < pos {
                    assert(np[a] == old_perm[a] && np[b] == old_perm[b - 1]);
                    let x = old_perm[a] as int;
                    let y = old_perm[b - 1] as int;
                    assert(sorts_before(keys, setting.asc, x, y));
                } else if a == pos {
                    assert(np[b] == old_perm[b - 1]);
                } else {
                    assert(np[a] == old_perm[a - 1] && np[b] == old_perm[b - 1]);
                }
            }
            assert forall|a: int, b: int| 0 <= a < b < np.len() implies np[a] != np[b] by {
                if a < pos && b < pos {
                    assert(np[a] == old_perm[a] && np[b] == old_perm[b]);
                } else if a < pos && b == pos {
                    assert(np[a] == old_perm[a]);
                } else if a < pos {
                    assert(np[a] == old_perm[a] && np[b] == old_perm[b - 1]);
                } else if a == pos {
                    assert(np[b] == old_perm[b - 1]);
                } else {
                    assert(np[a] == old_perm[a - 1] && np[b] == old_perm[b - 1]);
                }
            }
            assert forall|a: int| 0 <= a < np.len() implies np[a] < k + 1 by {
                if a < pos {
                    assert(np[a] == old_perm[a]);
                } else if a > pos {
                    assert(np[a] == old_perm[a - 1]);
                }
            }
        }
        k = k + 1;
    }
    perm
}

/// The first entry for extension `ext`, if any.
fn switch_index(entries: &Vec<(String, bool)>, ext: &str) -> (r: Option<usize>)
    ensures
        match r {
            Some(i) => i < entries@.len() && entries@[i as int].0@ == ext@ && forall|j: int|
                0 <= j < i ==> entries@[j].0@ != ext@,
            None => forall|j: int| 0 <= j < entries@.len() ==> entries@[j].0@ != ext@,
        },
{
    let mut i: usize = 0;
    while i < entries.len()
        invariant
            i <= entries@.len(),
            forall|j: int| 0 <= j < i ==> entries@[j].0@ != ext@,
        decreases entries@.len() - i,
    {
        if str_eq(entries[i].0.as_str(), ext) {
            return Some(i);
        }
        i = i + 1;
    }
    None
}

proof fn lemma_switch_first(entries: Seq<(String, bool)>, x: Seq<char>, i: int)
    requires
        0 <= i < entries.len(),
        entries[i].0@ == x,
        forall|j: int| 0 <= j < i ==> entries[j].0@ != x,
    ensures
        ext_switch(entries, x) == Some(entries[i].1),
    decreases i,
{
    if i > 0 {
        lemma_switch_first(entries.drop_first(), x, i - 1);
    }
}

proof fn lemma_switch_none(entries: Seq<(String, bool)>, x: Seq<char>)
    requires
        forall|j: int| 0 <= j < entries.len() ==> entries[j].0@ != x,
    ensures
        ext_switch(entries, x) is None,
    decreases entries.len(),
{
    if entries.len() > 0 {
        lemma_switch_none(entries.drop_first(), x);
    }
}

proof fn lemma_switch_same(a: Seq<(String, bool)>, b: Seq<(String, bool)>, x: Seq<char>)
    requires
        a.len() == b.len(),
        forall|j: int| 0 <= j < a.len() ==> (a[j].0@ == x <==> b[j].0@ == x),
        forall|j: int| 0 <= j < a.len() && a[j].0@ == x ==> a[j].1 == b[j].1,
    ensures
        ext_switch(a, x) == ext_switch(b, x),
    decreases a.len(),
{
    if a.len() > 0 {
        lemma_switch_same(a.drop_first(), b.drop_first(), x);
    }
}

/// `after` is `before` with the switch of `ext` flipped; an extension
/// without a switch counts as switched on.
pub open spec fn switch_flipped(before: Seq<(String, bool)>, after: Seq<(String, bool)>, ext: Seq<char>) -> bool {
    &&& ext_switch(after, ext) == Some(
        !match ext_switch(before, ext) {
            Some(b) => b,
            None => true,
        },
    )
    &&& forall|x: Seq<char>| x != ext ==> #[trigger] ext_switch(after, x) == ext_switch(before, x)
}

/// Flipping the switch of an extension twice leaves every extension
/// passing the filter exactly as before.
pub proof fn lemma_flip_twice(
    a: Seq<(String, bool)>,
    b: Seq<(String, bool)>,
    c: Seq<(String, bool)>,
    ext: Seq<char>,
)
    requires
        switch_flipped(a, b, ext),
        switch_flipped(b, c, ext),
    ensures
        forall|x: Seq<char>| (#[trigger] ext_switch(c, x) != Some(false)) == (ext_switch(a, x) != Some(false)),
{
    assert forall|x: Seq<char>| (#[trigger] ext_switch(c, x) != Some(false)) == (ext_switch(a, x) != Some(false)) by {
        if x != ext {
            assert(ext_switch(c, x) == ext_switch(b, x));
        }
    }
}

/// Flips the switch of extension `ext`; an extension without a switch
/// counts as switched on, so its first click switches it off.
pub fn toggle_extension(entries: &mut Vec<(String, bool)>, ext: &str)
    ensures
        switch_flipped(old(entries)@, final(entries)@, ext@),
{
    match switch_index(entries, ext) {
        Some(i) => {
            proof {
                lemma_switch_first(entries@, ext@, i as int);
            }
            let cur = entries[i].1;
            let key = entries[i].0.clone();
            entries.set(i, (key, !cur));
            proof {
                lemma_switch_first(entries@, ext@, i as int);
                assert forall|x: Seq<char>| x != ext@ implies #[trigger] ext_switch(entries@, x) == ext_switch(
                    old(entries)@,
                    x,
                ) by {
                    lemma_switch_same(entries@, old(entries)@, x);
                }
            }
        },
        None => {
            proof {
                lemma_switch_none(entries@, ext@);
            }
            entries.push((ext.to_owned(), false));
            proof {
                let n = old(entries)@.len() as int;
                lemma_switch_first(entries@, ext@, n);
                assert forall|x: Seq<char>| x != ext@ implies #[trigger] ext_switch(entries@, x) == ext_switch(
                    old(entries)@,
                    x,
                ) by {
                    crate::scan::lemma_switch_push(old(entries)@, entries@[n], x);
                    assert(entries@ =~= old(entries)@.push(entries@[n]));
                }
            }
        },
    }
}

/// `after` holds the categories of `before` with `name` added, or removed
/// when it was there.
pub open spec fn category_toggled(before: Seq<Seq<char>>, after: Seq<Seq<char>>, name: Seq<char>) -> bool {
    forall|x: Seq<char>|
        #[trigger] after.contains(x) <==> (if before.contains(name) {
            before.contains(x) && x != name
        } else {
            before.contains(x) || x == name
        })
}

/// Toggling a category twice restores the set of category filters.
pub proof fn lemma_toggle_category_twice(
    a: Seq<Seq<char>>,
    b: Seq<Seq<char>>,
    c: Seq<Seq<char>>,
    name: Seq<char>,
)
    requires
        category_toggled(a, b, name),
        category_toggled(b, c, name),
    ensures
        forall|x: Seq<char>| #[trigger] c.contains(x) == a.contains(x),
{
    assert(b.contains(name) == !a.contains(name));
    assert forall|x: Seq<char>| #[trigger] c.contains(x) == a.contains(x) by {
        assert(b.contains(x) == (if a.contains(name) {
            a.contains(x) && x != name
        } else {
            a.contains(x) || x == name
        }));
    }
}

impl Filters {
    /// Adds category `name` to the category filters, or removes it when it
    /// is there; the filters stay sorted, each once.
    pub fn toggle_category(&mut self, name: &str)
        requires
            strictly_sorted(views(old(self).category_filters@)),
        ensures
            strictly_sorted(views(final(self).category_filters@)),
            category_toggled(views(old(self).category_filters@), views(final(self).category_filters@), name@),
            final(self).only_with_thumb == old(self).only_with_thumb,
            final(self).only_with_description == old(self).only_with_description,
            final(self).category_filter == old(self).category_filter,
    {
        let mut i: usize = 0;
        while i < self.category_filters.len() && !str_eq(self.category_filters[i].as_str(), name)
            invariant
                i <= self.category_filters@.len(),
                forall|j: int| 0 <= j < i ==> self.category_filters@[j]@ != name@,
            decreases self.category_filters@.len() - i,
        {
            i = i + 1;
        }
        let ghost old_v = views(self.category_filters@);
        if i < self.category_filters.len() {
            let _ = self.category_filters.remove(i);
            proof {
                let nv = views(self.category_filters@);
                assert(nv =~= old_v.remove(i as int));
                assert(old_v.contains(name@)) by {
                    assert(old_v[i as int] == name@);
                }
                assert forall|a: int, b: int| 0 <= a < b < nv.len() implies seq_lt(nv[a], nv[b]) by {
                    if b < i {
                    } else if a < i {
                        assert(nv[b] == old_v[b + 1]);
                    } else {
                        assert(nv[a] == old_v[a + 1] && nv[b] == old_v[b + 1]);
                    }
                }
                assert forall|x: Seq<char>| #[trigger] nv.contains(x) <==> (old_v.contains(x) && x != name@) by {
                    if nv.contains(x) {
                        let k = choose|k: int| 0 <= k < nv.len() && nv[k] == x;
                        if k < i {
                            assert(old_v[k] == x);
                            assert(seq_lt(old_v[k], old_v[i as int]));
                            lemma_lt_irreflexive(x);
                        } else {
                            assert(old_v[k + 1] == x);
                            assert(seq_lt(old_v[i as int], old_v[k + 1]));
                            lemma_lt_irreflexive(x);
                        }
                    }
                    if old_v.contains(x) && x != name@ {
                        let k = choose|k: int| 0 <= k < old_v.len() && old_v[k] == x;
                        if k < i {
                            assert(nv[k] == x);
                        } else {
                            assert(k != i);
                            assert(nv[k - 1] == x);
                        }
                    }
                }
            }
        } else {
            proof {
                assert(!old_v.contains(name@)) by {
                    if old_v.contains(name@) {
                        let k = choose|k: int| 0 <= k < old_v.len() && old_v[k] == name@;
                        assert(self.category_filters@[k]@ == name@);
                    }
                }
            }
            let n = name.to_owned();
            insert_sorted(&mut self.category_filters, &n);
        }
    }
}

/// The pieces of a text between separators (`str::split`): one more than
/// there are separators, empty pieces included.
pub open spec fn split_pieces(s: Seq<char>, sep: spec_fn(char) -> bool) -> Seq<Seq<char>>
    decreases s.len(),
{
    if s.len() == 0 {
        seq![Seq::<char>::empty()]
    } else {
        let w = split_pieces(s.drop_last(), sep);
        if sep(s.last()) {
            w.push(Seq::<char>::empty())
        } else {
            w.drop_last().push(w.last().push(s.last()))
        }
    }
}

/// The entries a settings text lists: its pieces between separators,
/// each trimmed and passed through `f`, the empty ones left out.
pub open spec fn listed_entries(
    s: Seq<char>,
    sep: spec_fn(char) -> bool,
    f: spec_fn(Seq<char>) -> Seq<char>,
) -> Seq<Seq<char>> {
    split_pieces(s, sep).map_values(|p: Seq<char>| f(trim_seq(p))).filter(|e: Seq<char>| e.len() > 0)
}

/// A line break.
pub open spec fn is_line_break(c: char) -> bool {
    c == '\n'
}

/// A separator between listed extensions: a comma, a space or a semicolon.
pub open spec fn is_ext_separator(c: char) -> bool {
    c == ',' || c == ' ' || c == ';'
}

/// A text left as it is.
pub open spec fn unchanged(s: Seq<char>) -> Seq<char> {
    s
}

proof fn lemma_entries_step(
    s: Seq<char>,
    i: int,
    sep: spec_fn(char) -> bool,
)
    requires
        0 <= i < s.len(),
        sep(s[i]),
    ensures
        split_pieces(s.take(i + 1), sep) == split_pieces(s.take(i), sep).push(Seq::<char>::empty()),
{
    assert(s.take(i + 1).drop_last() =~= s.take(i));
}

fn finish_piece(cur: &Vec<char>, lower: bool) -> (e: String)
    ensures
        e@ == (if lower { ascii_lower_seq(trim_seq(cur@)) } else { unchanged(trim_seq(cur@)) }),
{
    let piece = from_chars(cur);
    let t = trim(piece.as_str());
    if lower {
        to_ascii_lowercase(t.as_str())
    } else {
        t
    }
}

/// Gathers the entries of a settings text (see [`listed_entries`]).
fn gather_entries(input: &str, lines: bool, lower: bool) -> (r: Vec<String>)
    ensures
        views(r@) == listed_entries(
            input@,
            if lines { |c: char| is_line_break(c) } else { |c: char| is_ext_separator(c) },
            if lower { |t: Seq<char>| ascii_lower_seq(t) } else { |t: Seq<char>| unchanged(t) },
        ),
{
    let ghost sep = if lines { |c: char| is_line_break(c) } else { |c: char| is_ext_separator(c) };
    let ghost f = if lower { |t: Seq<char>| ascii_lower_seq(t) } else { |t: Seq<char>| unchanged(t) };
    let ghost keep = |e: Seq<char>| e.len() > 0;
    let ghost g = |p: Seq<char>| f(trim_seq(p));
    let v = to_chars(input);
    let mut out: Vec<String> = Vec::new();
    let mut cur: Vec<char> = Vec::new();
    let mut i: usize = 0;
    proof {
        assert(v@.take(0) =~= Seq::<char>::empty());
    }
    while i < v.len()
        invariant
            v@ == input@,
            i <= v.len(),
            split_pieces(v@.take(i as int), sep).len() >= 1,
            cur@ == split_pieces(v@.take(i as int), sep).last(),
            views(out@) == split_pieces(v@.take(i as int), sep).drop_last().map_values(g).filter(keep),
            sep == (if lines { |c: char| is_line_break(c) } else { |c: char| is_ext_separator(c) }),
            f == (if lower { |t: Seq<char>| ascii_lower_seq(t) } else { |t: Seq<char>| unchanged(t) }),
            g == (|p: Seq<char>| f(trim_seq(p))),
            keep == (|e: Seq<char>| e.len() > 0),
        decreases v.len() - i,
    {
        let ghost w = split_pieces(v@.take(i as int), sep);
        let c = v[i];
        let is_sep = if lines {
            c == '\n'
        } else {
            c == ',' || c == ' ' || c == ';'
        };
        assert(is_sep == sep(c));
        if is_sep {
            let e = finish_piece(&cur, lower);
            assert(e@ == g(cur@));
            let ghost before = views(out@);
            if !e.as_str().is_empty() {
                out.push(e);
                assert(views(out@) =~= before.push(g(cur@)));
            }
            proof {
                let ms = w.drop_last().map_values(g);
                assert(w.map_values(g) =~= ms.push(g(w.last())));
                ms.lemma_filter_push(g(w.last()), keep);
                lemma_entries_step(v@, i as int, sep);
                let w2 = split_pieces(v@.take(i + 1), sep);
                assert(w2.drop_last() =~= w);
                assert(w2.last() =~= Seq::<char>::empty());
                assert(w2.drop_last().map_values(g) =~= w.map_values(g));
            }
            cur = Vec::new();
        } else {
            proof {
                assert(v@.take(i + 1).drop_last() =~= v@.take(i as int));
                assert(v@.take(i + 1).last() == c);
                let w2 = split_pieces(v@.take(i + 1), sep);
                assert(w2 == w.drop_last().push(w.last().push(c)));
                assert(w2.drop_last() =~= w.drop_last());
            }
            cur.push(c);
        }
        i = i + 1;
    }
    let ghost w = split_pieces(v@, sep);
    assert(v@.take(i as int) =~= v@);
    let e = finish_piece(&cur, lower);
    assert(e@ == g(cur@));
    let ghost before = views(out@);
    if !e.as_str().is_empty() {
        out.push(e);
        assert(views(out@) =~= before.push(g(cur@)));
    }
    proof {
        let ms = w.drop_last().map_values(g);
        assert(w.map_values(g) =~= ms.push(g(w.last())));
        ms.lemma_filter_push(g(w.last()), keep);
    }
    out
}

/// The folders excluded from a recursive scan, from the settings text that
/// lists them: one per line, trimmed, blank lines left out.
pub fn parse_excluded_dirs(input: &str) -> (r: Vec<String>)
    ensures
        views(r@) == listed_entries(input@, |c: char| is_line_break(c), |t: Seq<char>| unchanged(t)),
{
    gather_entries(input, true, false)
}

/// The extensions excluded from a recursive scan, from the settings text
/// that lists them: separated by commas, spaces or semicolons, trimmed and
/// lowercased (ASCII), empty ones left out.
pub fn parse_excluded_exts(input: &str) -> (r: Vec<String>)
    ensures
        views(r@) == listed_entries(input@, |c: char| is_ext_separator(c), |t: Seq<char>| ascii_lower_seq(t)),
{
    gather_entries(input, false, true)
}

} // verus!
