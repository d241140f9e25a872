//! Background thumbnails: which listed files get a thumbnail job, and how
//! a finished thumbnail enters the cache of rows.
use vstd::prelude::*;
use crate::keyed::KeyedList;
use crate::metadata::{FoundFile, Thumbnail, ThumbnailView};
use crate::scan::{extension_of, item_ext};
use crate::text::{ascii_lower_seq, copy_opt, str_eq, to_ascii_lowercase, views};

verus! {

/// A thumbnail job: the file and whether it is an image or a video.
pub struct ThumbJob {
    pub path: String,
    pub is_image: bool,
    pub is_video: bool,
}

/// Jobs scheduled in one pass stop once this many are exceeded.
pub const JOBS_PER_PASS: usize = 500;

/// A listed file gets a job: it has no thumbnail, its cached row has none,
/// and its extension is an image or video one.
pub open spec fn wants_thumb(
    f: FoundFile,
    cache: Map<Seq<char>, Thumbnail>,
    image_exts: Seq<Seq<char>>,
    video_exts: Seq<Seq<char>>,
) -> bool {
    &&& f.thumb_data is None
    &&& !(cache.contains_key(f.path@) && cache[f.path@].thumbnail_b64 is Some)
    &&& item_ext(f) is Some
    &&& (image_exts.contains(item_ext(f)->0) || video_exts.contains(item_ext(f)->0))
}

/// The jobs of one pass over `items`, in order: every file that wants a
/// thumbnail, until more than [`JOBS_PER_PASS`] jobs are scheduled.
pub open spec fn jobs_for(
    items: Seq<FoundFile>,
    cache: Map<Seq<char>, Thumbnail>,
    image_exts: Seq<Seq<char>>,
    video_exts: Seq<Seq<char>>,
) -> Seq<FoundFile>
    decreases items.len(),
{
    if items.len() == 0 {
        seq![]
    } else {
        let prev = jobs_for(items.drop_last(), cache, image_exts, video_exts);
        if prev.len() <= JOBS_PER_PASS && wants_thumb(items.last(), cache, image_exts, video_exts) {
            prev.push(items.last())
        } else {
            prev
        }
    }
}

proof fn lemma_jobs_grow(
    items: Seq<FoundFile>,
    cache: Map<Seq<char>, Thumbnail>,
    image_exts: Seq<Seq<char>>,
    video_exts: Seq<Seq<char>>,
)
    ensures
        jobs_for(items, cache, image_exts, video_exts).len() <= JOBS_PER_PASS + 1,
    decreases items.len(),
{
    if items.len() > 0 {
        lemma_jobs_grow(items.drop_last(), cache, image_exts, video_exts);
    }
}

fn contains_view(v: &Vec<String>, s: &str) -> (r: bool)
    ensures
        r == views(v@).contains(s@),
{
    let mut i: usize = 0;
    while i < v.len()
        invariant
            i <= v.len(),
            forall|j: int| 0 <= j < i ==> v@[j]@ != s@,
        decreases v.len() - i,
    {
        if str_eq(v[i].as_str(), s) {
            assert(views(v@)[i as int] == s@);
            return true;
        }
        i = i + 1;
    }
    assert forall|j: int| 0 <= j < views(v@).len() implies views(v@)[j] != s@ by {}
    false
}

/// The thumbnail jobs of one pass over the listed files.
pub fn thumbnail_jobs(
    items: &Vec<FoundFile>,
    cache: &KeyedList<Thumbnail>,
    image_exts: &Vec<String>,
    video_exts: &Vec<String>,
) -> (r: Vec<ThumbJob>)
    ensures
        r@.len() == jobs_for(items@, cache@, views(image_exts@), views(video_exts@)).len(),
        forall|a: int|
            0 <= a < r@.len() ==> {
                let f = jobs_for(items@, cache@, views(image_exts@), views(video_exts@))[a];
                &&& (#[trigger] r@[a]).path == f.path
                &&& r@[a].is_image == views(image_exts@).contains(item_ext(f)->0)
                &&& r@[a].is_video == views(video_exts@).contains(item_ext(f)->0)
            },
{
    let ghost ie = views(image_exts@);
    let ghost ve = views(video_exts@);
    let mut r: Vec<ThumbJob> = Vec::new();
    let mut i: usize = 0;
    while i < items.len()
        invariant
            i <= items@.len(),
            ie == views(image_exts@),
            ve == views(video_exts@),
            r@.len() == jobs_for(items@.take(i as int), cache@, ie, ve).len(),
            forall|a: int|
                0 <= a < r@.len() ==> {
                    let f = jobs_for(items@.take(i as int), cache@, ie, ve)[a];
                    &&& (#[trigger] r@[a]).path == f.path
                    &&& r@[a].is_image == ie.contains(item_ext(f)->0)
                    &&& r@[a].is_video == ve.contains(item_ext(f)->0)
                },
        decreases items@.len() - i,
    {
        let ghost prev = jobs_for(items@.take(i as int), cache@, ie, ve);
        assert(items@.take(i + 1).drop_last() =~= items@.take(i as int));
        assert(items@.take(i + 1).last() == items@[i as int]);
        proof {
            lemma_jobs_grow(items@.take(i as int), cache@, ie, ve);
        }
        if r.len() <= JOBS_PER_PASS {
            let f = &items[i];
            let cached_thumb = match cache.get(f.path.as_str()) {
                Some(row) => row.thumbnail_b64.is_some(),
                None => false,
            };
            if f.thumb_data.is_none() && !cached_thumb {
                match extension_of(f.file_name.as_str()) {
                    Some(e) => {
                        let ext = to_ascii_lowercase(e.as_str());
                        assert(item_ext(*f) == Some(ext@));
                        let is_img = contains_view(image_exts, ext.as_str());
                        let is_vid = contains_view(video_exts, ext.as_str());
                        if is_img || is_vid {
                            r.push(ThumbJob { path: f.path.clone(), is_image: is_img, is_video: is_vid });
                            proof {
                                let now = jobs_for(items@.take(i + 1), cache@, ie, ve);
                                assert(now =~= prev.push(*f));
                                assert forall|a: int| 0 <= a < r@.len() implies {
                                    let g = now[a];
                                    &&& (#[trigger] r@[a]).path == g.path
                                    &&& r@[a].is_image == ie.contains(item_ext(g)->0)
                                    &&& r@[a].is_video == ve.contains(item_ext(g)->0)
                                } by {
                                    if a < prev.len() {
                                        assert(now[a] == prev[a]);
                                    }
                                }
                            }
                        }
                    },
                    None => {},
                }
            }
        }
        i = i + 1;
    }
    assert(items@.take(items@.len() as int) =~= items@);
    r
}

/// Enters a finished thumbnail into the cache of rows: a row without a
/// thumbnail takes it; a file without a row gets a placeholder row of type
/// "other", size 0, made and modified at `now`, holding the thumbnail.
pub fn apply_thumbnail_result(
    cache: &mut KeyedList<Thumbnail>,
    path: String,
    file_name: String,
    thumb: String,
    now: i64,
)
    ensures
        final(cache)@.remove(path@) == old(cache)@.remove(path@),
        final(cache)@.contains_key(path@),
        old(cache)@.contains_key(path@) ==> final(cache)@[path@]@ == (if old(cache)@[path@].thumbnail_b64 is None {
            ThumbnailView { thumbnail_b64: Some(thumb), ..old(cache)@[path@]@ }
        } else {
            old(cache)@[path@]@
        }),
        !old(cache)@.contains_key(path@) ==> {
            let row = final(cache)@[path@];
            &&& row.db_created == now
            &&& row.path == path
            &&& row.filename == file_name
            &&& row.file_type@ == "other"@
            &&& row.size == 0
            &&& row.description is None
            &&& row.caption is None
            &&& row.tags@.len() == 0
            &&& row.category is None
            &&& row.embedding is None
            &&& row.thumbnail_b64 == Some(thumb)
            &&& row.modified == Some(now)
            &&& row.hash is None
        },
{
    let ghost p = path@;
    let existing = cache.remove(path.as_str());
    match existing {
        Some(row) => {
            let mut r = row;
            if r.thumbnail_b64.is_none() {
                r.thumbnail_b64 = Some(thumb);
            }
            cache.insert(path, r);
        },
        None => {
            let key = path.clone();
            let r = Thumbnail {
                db_created: now,
                path,
                filename: file_name,
                file_type: "other".to_owned(),
                size: 0,
                description: None,
                caption: None,
                tags: Vec::new(),
                category: None,
                embedding: None,
                thumbnail_b64: Some(thumb),
                modified: Some(now),
                hash: None,
            };
            cache.insert(key, r);
        },
    }
    assert(cache@.remove(p) =~= old(cache)@.remove(p));
}

} // verus!
