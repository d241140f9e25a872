//! The explorer's cache of thumbnail rows keyed by path: rows completed
//! from the AI index at start-up, rows that pre-populate the result list,
//! and the listings shown by the debug view.
use vstd::prelude::*;
use vstd::utf8::encode_utf8;
use crate::keyed::KeyedList;
use crate::metadata::{
    copy_opt_u32s, kind_of_file_type, kind_of_name, FileMetadata, FileMetadataView, FoundFile,
    Thumbnail, ThumbnailView,
};
use crate::order::{compare_strs, lemma_lt_asym, lemma_lt_irreflexive, lemma_lt_total, lemma_lt_trans, seq_lt};
use crate::records::is_permutation;
use crate::text::{copy_opt, copy_strings, starts_with, starts_with_seq, to_chars};

verus! {

/// `a` if present, else `b` (`Option::or`).
pub open spec fn or_else(a: Option<String>, b: Option<String>) -> Option<String> {
    if a is Some { a } else { b }
}

/// A cached row completed from an indexed record: each missing field of
/// the row (hash, thumbnail, category, description, caption, an empty tag
/// list) takes the record's value.
pub open spec fn completed_row(row: ThumbnailView, f: FileMetadataView) -> ThumbnailView {
    ThumbnailView {
        hash: if row.hash is None { f.hash } else { row.hash },
        thumbnail_b64: if row.thumbnail_b64 is None {
            or_else(f.thumb_b64, f.thumbnail_path)
        } else {
            row.thumbnail_b64
        },
        category: if row.category is None { f.category } else { row.category },
        description: if row.description is None { f.description } else { row.description },
        caption: if row.caption is None { f.caption } else { row.caption },
        tags: if row.tags.len() == 0 && f.tags.len() > 0 { f.tags } else { row.tags },
        ..row
    }
}

/// Completing a cached row from the indexed record fills in what the row
/// lacks and keeps what it has: a row without a category, description,
/// caption, hash or thumbnail takes the record's (the thumbnail data, else
/// the thumbnail path); a row without tags takes the record's when it has
/// some; every field the row already holds, and its identity (path, file
/// name, type, size, times, embedding), stays.
pub proof fn lemma_completion_fills_only_gaps(row: ThumbnailView, f: FileMetadataView)
    ensures
        row.category is None ==> completed_row(row, f).category == f.category,
        row.category is Some ==> completed_row(row, f).category == row.category,
        row.description is None ==> completed_row(row, f).description == f.description,
        row.description is Some ==> completed_row(row, f).description == row.description,
        row.caption is None ==> completed_row(row, f).caption == f.caption,
        row.caption is Some ==> completed_row(row, f).caption == row.caption,
        row.hash is None ==> completed_row(row, f).hash == f.hash,
        row.hash is Some ==> completed_row(row, f).hash == row.hash,
        row.thumbnail_b64 is None && f.thumb_b64 is Some ==> completed_row(row, f).thumbnail_b64 == f.thumb_b64,
        row.thumbnail_b64 is None && f.thumb_b64 is None ==> completed_row(row, f).thumbnail_b64
            == f.thumbnail_path,
        row.thumbnail_b64 is Some ==> completed_row(row, f).thumbnail_b64 == row.thumbnail_b64,
        row.tags.len() == 0 && f.tags.len() > 0 ==> completed_row(row, f).tags == f.tags,
        row.tags.len() > 0 || f.tags.len() == 0 ==> completed_row(row, f).tags == row.tags,
        completed_row(row, f).path == row.path,
        completed_row(row, f).filename == row.filename,
        completed_row(row, f).file_type == row.file_type,
        completed_row(row, f).size == row.size,
        completed_row(row, f).db_created == row.db_created,
        completed_row(row, f).modified == row.modified,
        completed_row(row, f).embedding == row.embedding,
{
}

/// A row made for an indexed record that had none carries the record's
/// path, name, type, size, texts, tags, category, embedding and hash, its
/// thumbnail data (else its thumbnail path), and is dated `now`.
pub proof fn lemma_new_row_copies_record(f: FileMetadataView, now: i64)
    ensures
        row_of(f, now).path == f.path,
        row_of(f, now).filename == f.filename,
        row_of(f, now).file_type == f.file_type,
        row_of(f, now).size == f.size,
        row_of(f, now).description == f.description,
        row_of(f, now).caption == f.caption,
        row_of(f, now).tags == f.tags,
        row_of(f, now).category == f.category,
        row_of(f, now).embedding == f.embedding,
        row_of(f, now).hash == f.hash,
        f.thumb_b64 is Some ==> row_of(f, now).thumbnail_b64 == f.thumb_b64,
        f.thumb_b64 is None ==> row_of(f, now).thumbnail_b64 == f.thumbnail_path,
        row_of(f, now).db_created == now,
        row_of(f, now).modified == Some(now),
{
}

/// The row made for an indexed record that has none, at time `now`.
pub open spec fn row_of(f: FileMetadataView, now: i64) -> ThumbnailView {
    ThumbnailView {
        db_created: now,
        path: f.path,
        filename: f.filename,
        file_type: f.file_type,
        size: f.size,
        description: f.description,
        caption: f.caption,
        tags: f.tags,
        category: f.category,
        embedding: f.embedding,
        thumbnail_b64: or_else(f.thumb_b64, f.thumbnail_path),
        modified: Some(now),
        hash: f.hash,
    }
}

pub fn complete_cached_row(row: &mut Thumbnail, f: &FileMetadata)
    ensures
        final(row)@ == completed_row(old(row)@, f@),
{
    if row.hash.is_none() {
        row.hash = copy_opt(&f.hash);
    }
    if row.thumbnail_b64.is_none() {
        row.thumbnail_b64 = if f.thumb_b64.is_some() {
            copy_opt(&f.thumb_b64)
        } else {
            copy_opt(&f.thumbnail_path)
        };
    }
    if row.category.is_none() {
        row.category = copy_opt(&f.category);
    }
    if row.description.is_none() {
        row.description = copy_opt(&f.description);
    }
    if row.caption.is_none() {
        row.caption = copy_opt(&f.caption);
    }
    if row.tags.len() == 0 && f.tags.len() > 0 {
        row.tags = copy_strings(&f.tags);
    }
}

pub fn row_from_metadata(f: &FileMetadata, now: i64) -> (r: Thumbnail)
    ensures
        r@ == row_of(f@, now),
{
    Thumbnail {
        db_created: now,
        path: f.path.clone(),
        filename: f.filename.clone(),
        file_type: f.file_type.clone(),
        size: f.size,
        description: copy_opt(&f.description),
        caption: copy_opt(&f.caption),
        tags: copy_strings(&f.tags),
        category: copy_opt(&f.category),
        embedding: copy_opt_u32s(&f.embedding),
        thumbnail_b64: if f.thumb_b64.is_some() {
            copy_opt(&f.thumb_b64)
        } else {
            copy_opt(&f.thumbnail_path)
        },
        modified: Some(now),
        hash: copy_opt(&f.hash),
    }
}

/// The cache after the indexed records `files` were folded into it in
/// order: a cached row is completed, a missing one is made.
pub open spec fn cache_with(
    cache: Map<Seq<char>, ThumbnailView>,
    files: Seq<FileMetadataView>,
    now: i64,
) -> Map<Seq<char>, ThumbnailView>
    decreases files.len(),
{
    if files.len() == 0 {
        cache
    } else {
        let f = files.last();
        let c = cache_with(cache, files.drop_last(), now);
        if c.contains_key(f.path@) {
            c.insert(f.path@, completed_row(c[f.path@], f))
        } else {
            c.insert(f.path@, row_of(f, now))
        }
    }
}

/// The views of the values of a cache.
pub open spec fn row_views(m: Map<Seq<char>, Thumbnail>) -> Map<Seq<char>, ThumbnailView> {
    m.map_values(|t: Thumbnail| t@)
}

/// Folds the indexed records into the cache of rows.
pub fn fill_cache_from_index(cache: &mut KeyedList<Thumbnail>, files: &Vec<FileMetadata>, now: i64)
    ensures
        row_views(final(cache)@) == cache_with(
            row_views(old(cache)@),
            files@.map_values(|f: FileMetadata| f@),
            now,
        ),
{
    let ghost fv = files@.map_values(|f: FileMetadata| f@);
    let mut i: usize = 0;
    while i < files.len()
        invariant
            i <= files@.len(),
            fv == files@.map_values(|f: FileMetadata| f@),
            row_views(cache@) == cache_with(row_views(old(cache)@), fv.take(i as int), now),
        decreases files@.len() - i,
    {
        let f = &files[i];
        let ghost before = row_views(cache@);
        assert(fv.take(i + 1).drop_last() =~= fv.take(i as int));
        assert(fv.take(i + 1).last() == f@);
        let existing = cache.remove(f.path.as_str());
        match existing {
            Some(row) => {
                let mut r = row;
                complete_cached_row(&mut r, f);
                let ghost rv = r@;
                cache.insert(f.path.clone(), r);
                assert(row_views(cache@) =~= before.insert(f.path@, rv));
            },
            None => {
                let r = row_from_metadata(f, now);
                let ghost rv = r@;
                cache.insert(f.path.clone(), r);
                assert(row_views(cache@) =~= before.insert(f.path@, rv));
            },
        }
        i = i + 1;
    }
    assert(fv.take(files@.len() as int) =~= fv);
}

/// The found file that a cached row stands for before the folder is
/// scanned: its size known, its times not, its kind from the stored type,
/// its thumbnail the cached one.
pub open spec fn preloaded(row: ThumbnailView) -> FoundFile {
    FoundFile {
        path: row.path,
        file_name: row.filename,
        size: Some(row.size),
        modified: None,
        created: None,
        kind: kind_of_name(row.file_type@),
        thumb_data: row.thumbnail_b64,
    }
}

/// The rows whose path starts with `root` (as text), in order.
pub open spec fn rows_under(rows: Seq<Thumbnail>, root: Seq<char>) -> Seq<Thumbnail> {
    rows.filter(|t: Thumbnail| starts_with_seq(t.path@, root))
}

/// The found files that pre-populate the results for folder `root`: one
/// for each cached row whose path starts with `root`, in order. Whether the
/// path still names a file is for the caller to check.
pub fn preload_candidates(rows: &Vec<Thumbnail>, root: &str) -> (r: Vec<FoundFile>)
    ensures
        r@ == rows_under(rows@, root@).map_values(|t: Thumbnail| preloaded(t@)),
{
    let mut r: Vec<FoundFile> = Vec::new();
    let mut i: usize = 0;
    while i < rows.len()
        invariant
            i <= rows@.len(),
            r@ == rows_under(rows@.take(i as int), root@).map_values(|t: Thumbnail| preloaded(t@)),
        decreases rows@.len() - i,
    {
        let t = &rows[i];
        proof {
            reveal_with_fuel(Seq::<_>::filter, 1);
            assert(rows@.take(i + 1).drop_last() =~= rows@.take(i as int));
        }
        if starts_with(t.path.as_str(), root) {
            let ghost before = r@;
            r.push(FoundFile {
                path: t.path.clone(),
                file_name: t.filename.clone(),
                size: Some(t.size),
                modified: None,
                created: None,
                kind: kind_of_file_type(t.file_type.as_str()),
                thumb_data: copy_opt(&t.thumbnail_b64),
            });
            assert(r@ =~= before.push(preloaded(t@)));
        }
        i = i + 1;
    }
    assert(rows@.take(rows@.len() as int) =~= rows@);
    r
}

/// In a stable sort by path, row `i` comes before row `j`.
pub open spec fn path_before(rows: Seq<Thumbnail>, i: int, j: int) -> bool {
    seq_lt(rows[i].path@, rows[j].path@) || (rows[i].path@ == rows[j].path@ && i < j)
}

/// The rows sorted by path (equal paths keep their order), at most
/// `limit` of them: the debug listing of the cache.
pub fn rows_by_path(rows: &Vec<Thumbnail>, limit: usize) -> (r: Vec<Thumbnail>)
    ensures
        r@.len() == (if rows@.len() < limit { rows@.len() } else { limit as nat }),
        exists|order: Seq<usize>|
            #![trigger is_permutation(order, rows@.len())]
            is_permutation(order, rows@.len()) && (forall|a: int, b: int|
                0 <= a < b < order.len() ==> path_before(rows@, order[a] as int, order[b] as int)) && (forall|a: int|
                0 <= a < r@.len() ==> (#[trigger] r@[a])@ == rows@[order[a] as int]@),
{
    let mut keys: Vec<Vec<char>> = Vec::new();
    let mut i: usize = 0;
    while i < rows.len()
        invariant
            i <= rows@.len(),
            keys@.len() == i,
            forall|a: int| 0 <= a < i ==> (#[trigger] keys@[a])@ == rows@[a].path@,
        decreases rows@.len() - i,
    {
        keys.push(to_chars(rows[i].path.as_str()));
        i = i + 1;
    }
    let mut order: Vec<usize> = Vec::new();
    let mut k: usize = 0;
    while k < rows.len()
        invariant
            k <= rows@.len() == keys@.len(),
            forall|a: int| 0 <= a < keys@.len() ==> (#[trigger] keys@[a])@ == rows@[a].path@,
            is_permutation(order@, k as nat),
            forall|a: int, b: int|
                0 <= a < b < order@.len() ==> path_before(rows@, order@[a] as int, order@[b] as int),
        decreases rows@.len() - k,
    {
        let mut pos: usize = 0;
        let mut found = false;
        while pos < order.len() && !found
            invariant
                pos <= order@.len(),
                k < keys@.len() == rows@.len(),
                forall|a: int| 0 <= a < keys@.len() ==> (#[trigger] keys@[a])@ == rows@[a].path@,
                is_permutation(order@, k as nat),
                forall|a: int| 0 <= a < pos ==> path_before(rows@, order@[a] as int, k as int),
                found ==> pos < order@.len() && path_before(rows@, k as int, order@[pos as int] as int),
            decreases order@.len() - pos, if found { 0int } else { 1int },
        {
            let p = order[pos];
            let c = compare_strs(&keys[k], &keys[p]);
            proof {
                lemma_lt_total(rows@[k as int].path@, rows@[p as int].path@);
                if seq_lt(rows@[k as int].path@, rows@[p as int].path@) {
                    lemma_lt_asym(rows@[k as int].path@, rows@[p as int].path@);
                }
            }
            if c == -1 {
                found = true;
            } else {
                pos = pos + 1;
            }
        }
        let ghost old_order = order@;
        proof {
            assert forall|j: int| pos <= j < old_order.len() implies path_before(
                rows@,
                k as int,
                #[trigger] old_order[j] as int,
            ) by {
                if j > pos {
                    let x = old_order[pos as int] as int;
                    let y = old_order[j] as int;
                    assert(path_before(rows@, x, y));
                    assert(path_before(rows@, k as int, x));
                    let pk = rows@[k as int].path@;
                    let px = rows@[x].path@;
                    let py = rows@[y].path@;
                    lemma_lt_irreflexive(pk);
                    if seq_lt(pk, px) && seq_lt(px, py) {
                        lemma_lt_trans(pk, px, py);
                    }
                }
            }
        }
        order.insert(pos, k);
        proof {
            let np = order@;
            assert(np =~= old_order.insert(pos as int, k));
            assert forall|a: int, b: int| 0 <= a < b < np.len() implies path_before(
                rows@,
                np[a] as int,
                np[b] as int,
            ) && np[a] != np[b] by {
                if b < pos {
                    assert(np[a] == old_order[a] && np[b] == old_order[b]);
                } else if b == pos {
                    assert(np[a] == old_order[a]);
                } else if a < pos {
                    assert(np[a] == old_order[a] && np[b] == old_order[b - 1]);
                } else if a == pos {
                    assert(np[b] == old_order[b - 1]);
                } else {
                    assert(np[a] == old_order[a - 1] && np[b] == old_order[b - 1]);
                }
            }
            assert forall|a: int| 0 <= a < np.len() implies np[a] < k + 1 by {
                if a < pos {
                    assert(np[a] == old_order[a]);
                } else if a > pos {
                    assert(np[a] == old_order[a - 1]);
                }
            }
        }
        k = k + 1;
    }
    let n = if rows.len() < limit {
        rows.len()
    } else {
        limit
    };
    let mut r: Vec<Thumbnail> = Vec::new();
    let mut c: usize = 0;
    while c < n
        invariant
            c <= n <= rows@.len(),
            is_permutation(order@, rows@.len()),
            r@.len() == c,
            forall|a: int| 0 <= a < c ==> (#[trigger] r@[a])@ == rows@[order@[a] as int]@,
        decreases n - c,
    {
        r.push(rows[order[c]].duplicate());
        c = c + 1;
    }
    assert(is_permutation(order@, rows@.len()));
    r
}

/// A line of the debug listing of the semantic table.
pub struct DebugDocumentSnippet {
    pub id: String,
    pub title: Option<String>,
    pub preview: String,
    pub len: usize,
}

/// Number of characters a snippet previews.
pub const SNIPPET_CHARS: usize = 160;

/// The snippet of a document: no id, its title, the first 160 characters
/// of its body, and the body's length in bytes.
pub fn document_snippet(title: String, body: &str) -> (r: DebugDocumentSnippet)
    ensures
        r.id@.len() == 0,
        r.title == Some(title),
        r.preview@ == body@.take(if body@.len() < SNIPPET_CHARS { body@.len() as int } else { SNIPPET_CHARS as int }),
        r.len == encode_utf8(body@).len() as usize,
{
    let v = to_chars(body);
    let n = if v.len() < SNIPPET_CHARS {
        v.len()
    } else {
        SNIPPET_CHARS
    };
    let preview = crate::text::from_char_range(&v, 0, n);
    DebugDocumentSnippet { id: String::new(), title: Some(title), preview, len: body.len() }
}

} // verus!
