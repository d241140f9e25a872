//! The in-memory state of the AI search engine: the indexed metadata
//! records (looked up by path, first match wins), the document id recorded
//! for each path in the semantic table, and the guard against indexing the
//! same path twice at once. The database, the models and the background
//! workers around it live with the caller.
use vstd::prelude::*;
use crate::keyed::KeyedList;
use crate::metadata::{
    apply_vision, description_needs_generation, description_too_short, lacks_description,
    lacks_description_exec, metadata_from_row, row_as_metadata, with_vision, FileMetadata,
    FileMetadataView, Thumbnail, ThumbnailView, VisionDescription,
};
use crate::text::{copy_opt, copy_strings, str_eq};

verus! {

/// Where the last `/`-separated segment of `s` starts: just after its
/// last `/`, or 0.
pub open spec fn segment_start(s: Seq<char>) -> int
    decreases s.len(),
{
    if s.len() == 0 {
        0
    } else if s.last() == '/' {
        s.len() as int
    } else {
        segment_start(s.drop_last())
    }
}

/// The final component of a path, as `std::path::Path::file_name` gives it
/// on Unix (trailing `/` and `.` components are passed over), or the empty
/// text when there is none (the root, an empty path, or a path ending in
/// `..`).
pub open spec fn file_name_of(s: Seq<char>) -> Seq<char>
    decreases s.len(),
{
    if s.len() == 0 {
        Seq::empty()
    } else if s.last() == '/' {
        file_name_of(s.drop_last())
    } else {
        let seg = s.subrange(segment_start(s), s.len() as int);
        if seg == seq!['.'] {
            file_name_of(s.drop_last())
        } else if seg == seq!['.', '.'] {
            Seq::empty()
        } else {
            seg
        }
    }
}

proof fn lemma_segment_start_at(s: Seq<char>, start: int)
    requires
        0 <= start <= s.len(),
        start == 0 || s[start - 1] == '/',
        forall|k: int| start <= k < s.len() ==> s[k] != '/',
    ensures
        segment_start(s) == start,
    decreases s.len(),
{
    if s.len() > start {
        assert(s.drop_last().len() == s.len() - 1);
        lemma_segment_start_at(s.drop_last(), start);
    }
}

/// The final component of a path (see [`file_name_of`]).
pub fn path_file_name(path: &str) -> (r: String)
    ensures
        r@ == file_name_of(path@),
{
    let v = crate::text::to_chars(path);
    let mut end: usize = v.len();
    assert(v@.take(end as int) =~= v@);
    loop
        invariant
            v@ == path@,
            end <= v.len(),
            file_name_of(v@) == file_name_of(v@.take(end as int)),
        decreases end,
    {
        if end == 0 {
            assert(v@.take(0) =~= Seq::<char>::empty());
            return String::new();
        }
        if v[end - 1] == '/' {
            assert(v@.take(end as int).drop_last() =~= v@.take(end - 1));
            end = end - 1;
        } else {
            let ghost t = v@.take(end as int);
            let mut start: usize = end - 1;
            while start > 0 && v[start - 1] != '/'
                invariant
                    start < end <= v.len(),
                    t == v@.take(end as int),
                    forall|k: int| start <= k < end ==> v@[k] != '/',
                decreases start,
            {
                start = start - 1;
            }
            proof {
                lemma_segment_start_at(t, start as int);
            }
            let seg_len = end - start;
            if seg_len == 1 && v[start] == '.' {
                assert(t.subrange(start as int, end as int) =~= seq!['.']);
                assert(t.drop_last() =~= v@.take(start as int));
                end = start;
            } else if seg_len == 2 && v[start] == '.' && v[start + 1] == '.' {
                assert(t.subrange(start as int, end as int) =~= seq!['.', '.']);
                return String::new();
            } else {
                let r = crate::text::from_char_range(&v, start, end);
                assert(t.subrange(start as int, end as int) =~= v@.subrange(start as int, end as int));
                proof {
                    if t.subrange(start as int, end as int) == seq!['.'] {
                        assert(t.subrange(start as int, end as int)[0] == v@[start as int]);
                    }
                    if t.subrange(start as int, end as int) == seq!['.', '.'] {
                        assert(t.subrange(start as int, end as int)[0] == v@[start as int]);
                        assert(t.subrange(start as int, end as int)[1] == v@[start + 1]);
                    }
                }
                return r;
            }
        }
    }
}

/// Index of the first record at or after `i` whose path is `path`.
pub open spec fn position_from(files: Seq<FileMetadataView>, path: Seq<char>, i: nat) -> Option<
    int,
>
    decreases files.len() - i,
{
    if i >= files.len() {
        None
    } else if files[i as int].path@ == path {
        Some(i as int)
    } else {
        position_from(files, path, i + 1)
    }
}

/// Index of the first record whose path is `path`.
pub open spec fn position(files: Seq<FileMetadataView>, path: Seq<char>) -> Option<int> {
    position_from(files, path, 0)
}

/// The first record whose path is `path` (what a lookup by path returns).
pub open spec fn lookup(files: Seq<FileMetadataView>, path: Seq<char>) -> Option<
    FileMetadataView,
> {
    match position(files, path) {
        Some(i) => Some(files[i]),
        None => None,
    }
}

/// The records after storing `m`: it replaces the first record with its
/// path, or is appended when there is none.
pub open spec fn upsert(files: Seq<FileMetadataView>, m: FileMetadataView) -> Seq<
    FileMetadataView,
> {
    match position(files, m.path@) {
        Some(i) => files.update(i, m),
        None => files.push(m),
    }
}

/// The records after removing the first one with path `path`.
pub open spec fn remove_path(files: Seq<FileMetadataView>, path: Seq<char>) -> Seq<
    FileMetadataView,
> {
    match position(files, path) {
        Some(i) => files.remove(i),
        None => files,
    }
}

/// No path occurs twice.
pub open spec fn paths_distinct(files: Seq<FileMetadataView>) -> bool {
    forall|i: int, j: int|
        0 <= i < files.len() && 0 <= j < files.len() && i != j ==> files[i].path@ != files[j].path@
}

/// Number of images whose description is missing or too short.
pub open spec fn count_lacking(files: Seq<FileMetadataView>) -> nat
    decreases files.len(),
{
    if files.len() == 0 {
        0
    } else {
        count_lacking(files.drop_last()) + if lacks_description(files.last()) {
            1nat
        } else {
            0nat
        }
    }
}

/// Paths, in order, of the records that satisfy `p`.
pub open spec fn paths_where(files: Seq<FileMetadataView>, p: spec_fn(FileMetadataView) -> bool) -> Seq<
    String,
>
    decreases files.len(),
{
    if files.len() == 0 {
        seq![]
    } else if p(files.last()) {
        paths_where(files.drop_last(), p).push(files.last().path)
    } else {
        paths_where(files.drop_last(), p)
    }
}

pub proof fn lemma_position_some(files: Seq<FileMetadataView>, path: Seq<char>, k: nat)
    ensures
        match position_from(files, path, k) {
            Some(i) => k <= i < files.len() && files[i].path@ == path && forall|j: int|
                k <= j < i ==> files[j].path@ != path,
            None => forall|j: int| k <= j < files.len() ==> files[j].path@ != path,
        },
    decreases files.len() - k,
{
    if k < files.len() && files[k as int].path@ != path {
        lemma_position_some(files, path, k + 1);
    }
}

pub proof fn lemma_position_is(files: Seq<FileMetadataView>, path: Seq<char>, k: nat, i: int)
    requires
        k <= i < files.len(),
        files[i].path@ == path,
        forall|j: int| k <= j < i ==> files[j].path@ != path,
    ensures
        position_from(files, path, k) == Some(i),
    decreases i - k,
{
    if k < i {
        lemma_position_is(files, path, k + 1, i);
    }
}

pub proof fn lemma_position_none(files: Seq<FileMetadataView>, path: Seq<char>, k: nat)
    requires
        forall|j: int| k <= j < files.len() ==> files[j].path@ != path,
    ensures
        position_from(files, path, k) is None,
    decreases files.len() - k,
{
    if k < files.len() {
        lemma_position_none(files, path, k + 1);
    }
}

/// Two record sequences that agree, index by index, on which records have
/// path `q` find the same first index for `q`.
proof fn lemma_position_same(a: Seq<FileMetadataView>, b: Seq<FileMetadataView>, q: Seq<char>)
    requires
        forall|j: int| 0 <= j < a.len() && a[j].path@ == q ==> j < b.len() && b[j].path@ == q,
        forall|j: int| 0 <= j < b.len() && b[j].path@ == q ==> j < a.len() && a[j].path@ == q,
    ensures
        position(a, q) == position(b, q),
{
    lemma_position_some(a, q, 0);
    lemma_position_some(b, q, 0);
    match position(a, q) {
        Some(i) => {
            lemma_position_is(b, q, 0, i);
        },
        None => {
            match position(b, q) {
                Some(i) => {},
                None => {},
            }
        },
    }
}

/// Storing a record and then looking its path up gives the record back.
pub proof fn lemma_lookup_after_upsert(files: Seq<FileMetadataView>, m: FileMetadataView)
    ensures
        lookup(upsert(files, m), m.path@) == Some(m),
{
    let p = m.path@;
    lemma_position_some(files, p, 0);
    match position(files, p) {
        Some(i) => {
            let f = files.update(i, m);
            lemma_position_is(f, p, 0, i);
        },
        None => {
            let f = files.push(m);
            lemma_position_is(f, p, 0, files.len() as int);
        },
    }
}

/// Storing a record leaves every lookup of another path as it was.
pub proof fn lemma_lookup_other_after_upsert(
    files: Seq<FileMetadataView>,
    m: FileMetadataView,
    q: Seq<char>,
)
    requires
        q != m.path@,
    ensures
        lookup(upsert(files, m), q) == lookup(files, q),
{
    let f = upsert(files, m);
    lemma_position_some(files, m.path@, 0);
    match position(files, m.path@) {
        Some(i) => {
            assert forall|j: int| 0 <= j < f.len() && f[j].path@ == q implies j < files.len()
                && files[j].path@ == q by {
                if j == i {
                } else {
                    assert(f[j] == files[j]);
                }
            }
            lemma_position_same(files, f, q);
            lemma_position_some(files, q, 0);
        },
        None => {
            assert forall|j: int| 0 <= j < f.len() && f[j].path@ == q implies j < files.len()
                && files[j].path@ == q by {
                if j < files.len() {
                    assert(f[j] == files[j]);
                }
            }
            lemma_position_same(files, f, q);
            lemma_position_some(files, q, 0);
        },
    }
}

/// When no path occurs twice, a removed path is no longer found.
pub proof fn lemma_lookup_after_remove(files: Seq<FileMetadataView>, p: Seq<char>)
    requires
        paths_distinct(files),
    ensures
        lookup(remove_path(files, p), p) is None,
{
    lemma_position_some(files, p, 0);
    match position(files, p) {
        Some(i) => {
            let f = files.remove(i);
            assert forall|j: int| 0 <= j < f.len() implies f[j].path@ != p by {
                if j < i {
                    assert(f[j] == files[j]);
                } else {
                    assert(f[j] == files[j + 1]);
                }
            }
            lemma_position_none(f, p, 0);
        },
        None => {
            lemma_position_none(files, p, 0);
        },
    }
}

/// The count of images lacking a description is the number of paths that
/// enrichment schedules.
pub proof fn lemma_count_matches_targets(files: Seq<FileMetadataView>)
    ensures
        count_lacking(files) == paths_where(files, |m: FileMetadataView| lacks_description(m)).len(),
    decreases files.len(),
{
    if files.len() > 0 {
        lemma_count_matches_targets(files.drop_last());
    }
}

pub open spec fn views_of(v: Seq<FileMetadata>) -> Seq<FileMetadataView> {
    v.map_values(|m: FileMetadata| m@)
}

/// The explorer's index of files and their AI metadata.
pub struct AISearchEngine {
    files: Vec<FileMetadata>,
    path_to_id: KeyedList<String>,
    indexing_in_progress: KeyedList<usize>,
}

impl AISearchEngine {
    /// The indexed records, in insertion order.
    pub closed spec fn files(&self) -> Seq<FileMetadataView> {
        views_of(self.files@)
    }

    /// The semantic-table document id recorded for each path.
    pub closed spec fn doc_ids(&self) -> Map<Seq<char>, String> {
        self.path_to_id.view()
    }

    /// Paths whose indexing is under way, with how many duplicate requests
    /// arrived meanwhile (counting the first).
    pub closed spec fn in_progress(&self) -> Map<Seq<char>, usize> {
        self.indexing_in_progress.view()
    }

    /// An engine with nothing indexed.
    pub fn new() -> (r: Self)
        ensures
            r.files() == Seq::<FileMetadataView>::empty(),
            r.doc_ids() == Map::<Seq<char>, String>::empty(),
            r.in_progress() == Map::<Seq<char>, usize>::empty(),
    {
        let r = AISearchEngine {
            files: Vec::new(),
            path_to_id: KeyedList::new(),
            indexing_in_progress: KeyedList::new(),
        };
        assert(r.files() =~= Seq::<FileMetadataView>::empty());
        r
    }

    fn find_index(&self, path: &str) -> (r: Option<usize>)
        ensures
            match r {
                Some(i) => i < self.files.len() && self.files()[i as int].path@ == path@
                    && position(self.files(), path@) == Some(i as int),
                None => position(self.files(), path@) is None,
            },
    {
        let mut i: usize = 0;
        while i < self.files.len()
            invariant
                i <= self.files.len(),
                forall|j: int| 0 <= j < i ==> self.files()[j].path@ != path@,
            decreases self.files.len() - i,
        {
            if str_eq(self.files[i].path.as_str(), path) {
                proof {
                    lemma_position_is(self.files(), path@, 0, i as int);
                }
                return Some(i);
            }
            i = i + 1;
        }
        proof {
            lemma_position_none(self.files(), path@, 0);
        }
        None
    }

    /// Adds the cached rows as records, in order, and returns how many were
    /// added. Rows are appended as they come, without looking for their paths.
    pub fn load_cached(&mut self, rows: Vec<Thumbnail>) -> (r: usize)
        ensures
            r == rows.len(),
            final(self).files() == old(self).files() + rows@.map_values(
                |t: Thumbnail| row_as_metadata(t@),
            ),
            final(self).doc_ids() == old(self).doc_ids(),
            final(self).in_progress() == old(self).in_progress(),
    {
        let mut i: usize = 0;
        while i < rows.len()
            invariant
                i <= rows.len(),
                self.files() == old(self).files() + rows@.map_values(
                    |t: Thumbnail| row_as_metadata(t@),
                ).take(i as int),
                self.doc_ids() == old(self).doc_ids(),
                self.in_progress() == old(self).in_progress(),
            decreases rows.len() - i,
        {
            let m = metadata_from_row(&rows[i]);
            let ghost before = self.files();
            self.files.push(m);
            assert(self.files() =~= before.push(m@));
            assert(rows@.map_values(|t: Thumbnail| row_as_metadata(t@)).take(i + 1)
                =~= rows@.map_values(|t: Thumbnail| row_as_metadata(t@)).take(i as int).push(
                row_as_metadata(rows@[i as int]@),
            ));
            i = i + 1;
        }
        assert(rows@.map_values(|t: Thumbnail| row_as_metadata(t@)).take(rows.len() as int)
            =~= rows@.map_values(|t: Thumbnail| row_as_metadata(t@)));
        rows.len()
    }

    /// The paths of all records, in order.
    pub fn list_indexed_paths(&self) -> (r: Vec<String>)
        ensures
            r@ == self.files().map_values(|m: FileMetadataView| m.path),
    {
        let mut r: Vec<String> = Vec::new();
        let mut i: usize = 0;
        while i < self.files.len()
            invariant
                i <= self.files.len(),
                r@ == self.files().map_values(|m: FileMetadataView| m.path).take(i as int),
            decreases self.files.len() - i,
        {
            r.push(self.files[i].path.clone());
            assert(self.files().map_values(|m: FileMetadataView| m.path).take(i + 1)
                =~= self.files().map_values(|m: FileMetadataView| m.path).take(i as int).push(
                self.files()[i as int].path,
            ));
            i = i + 1;
        }
        assert(self.files().map_values(|m: FileMetadataView| m.path).take(self.files.len() as int)
            =~= self.files().map_values(|m: FileMetadataView| m.path));
        r
    }

    /// Copies of all records, in order.
    pub fn get_all_files(&self) -> (r: Vec<FileMetadata>)
        ensures
            views_of(r@) == self.files(),
    {
        let mut r: Vec<FileMetadata> = Vec::new();
        let mut i: usize = 0;
        while i < self.files.len()
            invariant
                i <= self.files.len(),
                views_of(r@) == self.files().take(i as int),
            decreases self.files.len() - i,
        {
            let ghost before = r@;
            r.push(self.files[i].duplicate());
            assert(views_of(r@) =~= views_of(before).push(self.files()[i as int]));
            assert(self.files().take(i + 1) =~= self.files().take(i as int).push(
                self.files()[i as int],
            ));
            i = i + 1;
        }
        assert(self.files().take(self.files.len() as int) =~= self.files());
        r
    }

    /// A copy of the first record with the given path.
    pub fn get_file_metadata(&self, path: &str) -> (r: Option<FileMetadata>)
        ensures
            match r {
                Some(m) => lookup(self.files(), path@) == Some(m@),
                None => lookup(self.files(), path@) is None,
            },
    {
        match self.find_index(path) {
            Some(i) => Some(self.files[i].duplicate()),
            None => None,
        }
    }

    /// For each record, in order: its path, description, tags and segments.
    pub fn get_ai_metadata(&self) -> (r: Vec<(String, Option<String>, Vec<String>, Option<Vec<String>>)>)
        ensures
            r.len() == self.files().len(),
            forall|i: int|
                0 <= i < r.len() ==> {
                    &&& (#[trigger] r@[i]).0 == self.files()[i].path
                    &&& r@[i].1 == self.files()[i].description
                    &&& r@[i].2@ == self.files()[i].tags
                    &&& crate::metadata::opt_vec_view(r@[i].3) == self.files()[i].segments
                },
    {
        let mut r: Vec<(String, Option<String>, Vec<String>, Option<Vec<String>>)> = Vec::new();
        let mut i: usize = 0;
        while i < self.files.len()
            invariant
                i <= self.files.len(),
                r.len() == i,
                forall|k: int|
                    0 <= k < i ==> {
                        &&& (#[trigger] r@[k]).0 == self.files()[k].path
                        &&& r@[k].1 == self.files()[k].description
                        &&& r@[k].2@ == self.files()[k].tags
                        &&& crate::metadata::opt_vec_view(r@[k].3) == self.files()[k].segments
                    },
            decreases self.files.len() - i,
        {
            let f = &self.files[i];
            r.push(
                (
                    f.path.clone(),
                    copy_opt(&f.description),
                    copy_strings(&f.tags),
                    crate::metadata::copy_opt_strings(&f.segments),
                ),
            );
            i = i + 1;
        }
        r
    }

    /// How many images have a missing or too short description.
    pub fn count_missing_descriptions(&self) -> (r: usize)
        ensures
            r == count_lacking(self.files()),
    {
        let mut n: usize = 0;
        let mut i: usize = 0;
        while i < self.files.len()
            invariant
                i <= self.files.len(),
                n == count_lacking(self.files().take(i as int)),
                n <= i,
            decreases self.files.len() - i,
        {
            assert(self.files().take(i + 1).drop_last() =~= self.files().take(i as int));
            if lacks_description_exec(&self.files[i]) {
                n = n + 1;
            }
            i = i + 1;
        }
        assert(self.files().take(self.files.len() as int) =~= self.files());
        n
    }

    /// The paths of the images whose description is missing or too short, in
    /// order (what description enrichment schedules).
    pub fn enrichment_targets(&self) -> (r: Vec<String>)
        ensures
            r@ == paths_where(self.files(), |m: FileMetadataView| lacks_description(m)),
    {
        let mut r: Vec<String> = Vec::new();
        let mut i: usize = 0;
        while i < self.files.len()
            invariant
                i <= self.files.len(),
                r@ == paths_where(
                    self.files().take(i as int),
                    |m: FileMetadataView| lacks_description(m),
                ),
            decreases self.files.len() - i,
        {
            assert(self.files().take(i + 1).drop_last() =~= self.files().take(i as int));
            if lacks_description_exec(&self.files[i]) {
                r.push(self.files[i].path.clone());
            }
            i = i + 1;
        }
        assert(self.files().take(self.files.len() as int) =~= self.files());
        r
    }

    /// The paths of the records that have no semantic embedding yet, in
    /// order (what semantic generation over the whole index targets).
    pub fn semantic_targets(&self) -> (r: Vec<String>)
        ensures
            r@ == paths_where(self.files(), |m: FileMetadataView| m.embedding is None),
    {
        let mut r: Vec<String> = Vec::new();
        let mut i: usize = 0;
        while i < self.files.len()
            invariant
                i <= self.files.len(),
                r@ == paths_where(
                    self.files().take(i as int),
                    |m: FileMetadataView| m.embedding is None,
                ),
            decreases self.files.len() - i,
        {
            assert(self.files().take(i + 1).drop_last() =~= self.files().take(i as int));
            if self.files[i].embedding.is_none() {
                r.push(self.files[i].path.clone());
            }
            i = i + 1;
        }
        assert(self.files().take(self.files.len() as int) =~= self.files());
        r
    }

    /// The paths of the images that have no CLIP embedding yet, in order
    /// (what CLIP generation over the whole index targets).
    pub fn clip_targets(&self) -> (r: Vec<String>)
        ensures
            r@ == paths_where(
                self.files(),
                |m: FileMetadataView| m.file_type@ == seq!['i', 'm', 'a', 'g', 'e'] && m.clip_embedding is None,
            ),
    {
        let mut r: Vec<String> = Vec::new();
        let mut i: usize = 0;
        while i < self.files.len()
            invariant
                i <= self.files.len(),
                r@ == paths_where(
                    self.files().take(i as int),
                    |m: FileMetadataView| m.file_type@ == seq!['i', 'm', 'a', 'g', 'e'] && m.clip_embedding is None,
                ),
            decreases self.files.len() - i,
        {
            assert(self.files().take(i + 1).drop_last() =~= self.files().take(i as int));
            if crate::metadata::is_image_type(self.files[i].file_type.as_str()) && self.files[i].clip_embedding.is_none() {
                r.push(self.files[i].path.clone());
            }
            i = i + 1;
        }
        assert(self.files().take(self.files.len() as int) =~= self.files());
        r
    }

    /// The records to embed for the semantic table among `paths`: for each
    /// path, in order, its indexed record when it has no embedding yet.
    pub fn semantic_candidates(&self, paths: &Vec<String>) -> (r: Vec<FileMetadata>)
        ensures
            views_of(r@) == paths@.filter(|p: String| lookup(self.files(), p@) is Some && lookup(
                self.files(),
                p@,
            )->0.embedding is None).map_values(|p: String| lookup(self.files(), p@)->0),
    {
        let mut r: Vec<FileMetadata> = Vec::new();
        let mut i: usize = 0;
        while i < paths.len()
            invariant
                i <= paths@.len(),
                views_of(r@) == paths@.take(i as int).filter(|p: String| lookup(self.files(), p@) is Some && lookup(
                    self.files(),
                    p@,
                )->0.embedding is None).map_values(|p: String| lookup(self.files(), p@)->0),
            decreases paths@.len() - i,
        {
            proof {
                reveal_with_fuel(Seq::<_>::filter, 1);
                assert(paths@.take(i + 1).drop_last() =~= paths@.take(i as int));
            }
            match self.get_file_metadata(paths[i].as_str()) {
                Some(m) => {
                    if m.embedding.is_none() {
                        let ghost before = views_of(r@);
                        r.push(m);
                        assert(views_of(r@) =~= before.push(lookup(self.files(), paths@[i as int]@)->0));
                    }
                },
                None => {},
            }
            i = i + 1;
        }
        assert(paths@.take(paths@.len() as int) =~= paths@);
        r
    }

    /// Stores a record: it replaces the first record with the same path, or
    /// is appended.
    pub fn store_file(&mut self, meta: FileMetadata)
        ensures
            final(self).files() == upsert(old(self).files(), meta@),
            final(self).doc_ids() == old(self).doc_ids(),
            final(self).in_progress() == old(self).in_progress(),
    {
        match self.find_index(meta.path.as_str()) {
            Some(i) => {
                let ghost mv = meta@;
                self.files.set(i, meta);
                assert(self.files() =~= old(self).files().update(i as int, mv));
            },
            None => {
                let ghost mv = meta@;
                self.files.push(meta);
                assert(self.files() =~= old(self).files().push(mv));
            },
        }
    }

    /// The description already held for `path` when it is long enough to
    /// keep and `force` is not set.
    pub fn reusable_description(&self, path: &str, force: bool) -> (r: Option<String>)
        ensures
            r == (if !force && lookup(self.files(), path@) is Some && !description_too_short(
                lookup(self.files(), path@)->0.description,
            ) {
                lookup(self.files(), path@)->0.description
            } else {
                None
            }),
    {
        if force {
            return None;
        }
        match self.find_index(path) {
            Some(i) => {
                if description_needs_generation(&self.files[i].description) {
                    None
                } else {
                    copy_opt(&self.files[i].description)
                }
            },
            None => None,
        }
    }

    /// Sets the description of the first record with `path`; when there is
    /// none, appends a placeholder record of type "other" holding only the
    /// path, the final component of the path as its file name, and the
    /// description.
    pub fn set_file_description(&mut self, path: &str, desc: &str)
        ensures
            lookup(final(self).files(), path@) is Some,
            lookup(final(self).files(), path@)->0.description is Some,
            lookup(final(self).files(), path@)->0.description->0@ == desc@,
            match position(old(self).files(), path@) {
                Some(i) => {
                    &&& final(self).files().len() == old(self).files().len()
                    &&& forall|j: int|
                        0 <= j < old(self).files().len() && j != i ==> final(self).files()[j]
                            == old(self).files()[j]
                    &&& final(self).files()[i] == FileMetadataView {
                        description: final(self).files()[i].description,
                        ..old(self).files()[i]
                    }
                },
                None => {
                    &&& final(self).files().drop_last() == old(self).files()
                    &&& final(self).files().len() == old(self).files().len() + 1
                    &&& final(self).files().last().id is None
                    &&& final(self).files().last().path@ == path@
                    &&& final(self).files().last().filename@ == file_name_of(path@)
                    &&& final(self).files().last().file_type@ == seq!['o', 't', 'h', 'e', 'r']
                    &&& final(self).files().last().size == 0
                    &&& final(self).files().last().tags.len() == 0
                    &&& final(self).files().last().thumb_b64 is None
                    &&& final(self).files().last().thumbnail_path is None
                    &&& final(self).files().last().hash is None
                    &&& final(self).files().last().caption is None
                    &&& final(self).files().last().category is None
                    &&& final(self).files().last().embedding is None
                },
            },
            final(self).doc_ids() == old(self).doc_ids(),
            final(self).in_progress() == old(self).in_progress(),
    {
        let ghost old_files = self.files();
        match self.find_index(path) {
            Some(i) => {
                let mut files: Vec<FileMetadata> = Vec::new();
                std::mem::swap(&mut files, &mut self.files);
                let mut m = files.remove(i);
                m.description = Some(desc.to_owned());
                let ghost mv = m@;
                files.insert(i, m);
                std::mem::swap(&mut files, &mut self.files);
                assert(self.files() =~= old_files.update(i as int, mv));
                proof {
                    lemma_position_some(old_files, path@, 0);
                    lemma_position_is(self.files(), path@, 0, i as int);
                }
            },
            None => {
                let mut other = String::new();
                crate::text::push_char(&mut other, 'o');
                crate::text::push_char(&mut other, 't');
                crate::text::push_char(&mut other, 'h');
                crate::text::push_char(&mut other, 'e');
                crate::text::push_char(&mut other, 'r');
                let m = FileMetadata {
                    id: None,
                    path: path.to_owned(),
                    filename: path_file_name(path),
                    file_type: other,
                    size: 0,
                    modified: None,
                    created: None,
                    thumbnail_path: None,
                    thumb_b64: None,
                    hash: None,
                    description: Some(desc.to_owned()),
                    caption: None,
                    tags: Vec::new(),
                    category: None,
                    text_content: None,
                    embedding: None,
                    clip_embedding: None,
                    segments: None,
                };
                let ghost mv = m@;
                self.files.push(m);
                assert(self.files() =~= old_files.push(mv));
                assert(self.files().drop_last() =~= old_files);
                assert(mv.file_type@ =~= seq!['o', 't', 'h', 'e', 'r']);
                proof {
                    lemma_position_some(old_files, path@, 0);
                    lemma_position_is(self.files(), path@, 0, old_files.len() as int);
                }
            },
        }
    }

    /// Applies a model answer to the first record with `path`; returns
    /// whether there was one.
    pub fn apply_vision_description(&mut self, path: &str, vd: &VisionDescription) -> (r: bool)
        ensures
            r == (position(old(self).files(), path@) is Some),
            match position(old(self).files(), path@) {
                Some(i) => final(self).files() == old(self).files().update(
                    i,
                    with_vision(old(self).files()[i], vd@),
                ),
                None => final(self).files() == old(self).files(),
            },
            final(self).doc_ids() == old(self).doc_ids(),
            final(self).in_progress() == old(self).in_progress(),
    {
        match self.find_index(path) {
            Some(i) => {
                let mut files: Vec<FileMetadata> = Vec::new();
                std::mem::swap(&mut files, &mut self.files);
                let mut m = files.remove(i);
                apply_vision(&mut m, vd);
                let ghost mv = m@;
                files.insert(i, m);
                std::mem::swap(&mut files, &mut self.files);
                assert(self.files() =~= old(self).files().update(i as int, mv));
                true
            },
            None => false,
        }
    }

    /// Forgets `path`: drops its document id and its first record; returns
    /// the document id so that the caller can delete the document.
    pub fn remove_file(&mut self, path: &str) -> (r: Option<String>)
        ensures
            final(self).files() == remove_path(old(self).files(), path@),
            final(self).doc_ids() == old(self).doc_ids().remove(path@),
            r == (if old(self).doc_ids().contains_key(path@) {
                Some(old(self).doc_ids()[path@])
            } else {
                None
            }),
            final(self).in_progress() == old(self).in_progress(),
    {
        let id = self.path_to_id.remove(path);
        match self.find_index(path) {
            Some(i) => {
                let mut files: Vec<FileMetadata> = Vec::new();
                std::mem::swap(&mut files, &mut self.files);
                let _m = files.remove(i);
                std::mem::swap(&mut files, &mut self.files);
                assert(self.files() =~= old(self).files().remove(i as int));
            },
            None => {},
        }
        id
    }

    /// The record to index again when `path` is re-indexed by force: the
    /// indexed record with its description cleared, so that a fresh one is
    /// generated; an error when the path was never indexed.
    pub fn force_reindex_metadata(&self, path: &str) -> (r: Result<FileMetadata, String>)
        ensures
            match r {
                Ok(m) => lookup(self.files(), path@) is Some && m@ == FileMetadataView {
                    description: None,
                    ..lookup(self.files(), path@)->0
                },
                Err(e) => lookup(self.files(), path@) is None && e@ == "File not previously indexed"@,
            },
    {
        match self.get_file_metadata(path) {
            Some(existing) => {
                let mut m = existing;
                m.description = None;
                Ok(m)
            },
            None => Err("File not previously indexed".to_owned()),
        }
    }

    /// Records the semantic-table document id of `path`.
    pub fn record_document_id(&mut self, path: String, id: String)
        ensures
            final(self).doc_ids() == old(self).doc_ids().insert(path@, id),
            final(self).files() == old(self).files(),
            final(self).in_progress() == old(self).in_progress(),
    {
        self.path_to_id.insert(path, id);
    }

    /// The document id recorded for `path`.
    pub fn document_id(&self, path: &str) -> (r: Option<String>)
        ensures
            r == (if self.doc_ids().contains_key(path@) {
                Some(self.doc_ids()[path@])
            } else {
                None
            }),
    {
        match self.path_to_id.get(path) {
            Some(id) => Some(id.clone()),
            None => None,
        }
    }

    /// Marks `path` as being indexed. Returns false, and counts one more
    /// duplicate request (the count saturates), when it already is.
    pub fn begin_indexing(&mut self, path: &str) -> (r: bool)
        ensures
            r == !old(self).in_progress().contains_key(path@),
            final(self).in_progress() == (if r {
                old(self).in_progress().insert(path@, 1)
            } else {
                old(self).in_progress().insert(
                    path@,
                    if old(self).in_progress()[path@] == usize::MAX {
                        usize::MAX
                    } else {
                        (old(self).in_progress()[path@] + 1) as usize
                    },
                )
            }),
            final(self).files() == old(self).files(),
            final(self).doc_ids() == old(self).doc_ids(),
    {
        let cur: Option<usize> = match self.indexing_in_progress.get(path) {
            Some(c) => Some(*c),
            None => None,
        };
        match cur {
            Some(c) => {
                let next = if c == usize::MAX {
                    c
                } else {
                    c + 1
                };
                self.indexing_in_progress.insert(path.to_owned(), next);
                false
            },
            None => {
                self.indexing_in_progress.insert(path.to_owned(), 1);
                true
            },
        }
    }

    /// Clears the indexing mark of `path`.
    pub fn finish_indexing(&mut self, path: &str)
        ensures
            final(self).in_progress() == old(self).in_progress().remove(path@),
            final(self).files() == old(self).files(),
            final(self).doc_ids() == old(self).doc_ids(),
    {
        let _ = self.indexing_in_progress.remove(path);
    }
}

/// Whether indexing may skip a file: not forced, already indexed with the
/// same known content hash, and either described already or not an image.
pub open spec fn skip_reindex(
    force: bool,
    existing: Option<FileMetadataView>,
    new_hash: Option<String>,
    file_type: Seq<char>,
) -> bool {
    &&& !force
    &&& existing is Some
    &&& existing->0.hash is Some
    &&& new_hash is Some
    &&& existing->0.hash->0@ == new_hash->0@
    &&& (existing->0.description is Some || file_type != seq!['i', 'm', 'a', 'g', 'e'])
}

pub fn should_skip_reindex(
    force: bool,
    existing: &Option<FileMetadata>,
    new_hash: &Option<String>,
    file_type: &str,
) -> (r: bool)
    ensures
        r == skip_reindex(
            force,
            match existing {
                Some(m) => Some(m@),
                None => None,
            },
            *new_hash,
            file_type@,
        ),
{
    if force {
        return false;
    }
    match existing {
        None => false,
        Some(e) => {
            let same = match &e.hash {
                Some(a) => match new_hash {
                    Some(b) => str_eq(a.as_str(), b.as_str()),
                    None => false,
                },
                None => false,
            };
            if !same {
                return false;
            }
            if e.description.is_some() {
                true
            } else {
                !crate::metadata::is_image_type(file_type)
            }
        },
    }
}

} // verus!
