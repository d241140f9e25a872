//! The per-file metadata record that the explorer indexes, the structured
//! answer of the vision model, and the cached thumbnail row persisted in the
//! database, with the conversions and merges between them.
use vstd::prelude::*;
use vstd::utf8::encode_utf8;
use crate::text::{
    blank, copy_opt, copy_strings, is_blank, push_char, starts_with, starts_with_seq, str_eq, trim,
    trim_seq, utf8_len_below,
};

verus! {

/// Metadata of one indexed file.
///
/// Times are seconds since the Unix epoch. Embeddings are carried as the
/// IEEE-754 bit patterns of their `f32` components: the library moves them
/// around but never computes with them.
pub struct FileMetadata {
    pub id: Option<String>,
    pub path: String,
    pub filename: String,
    pub file_type: String,
    pub size: u64,
    pub modified: Option<i64>,
    pub created: Option<i64>,
    pub thumbnail_path: Option<String>,
    pub thumb_b64: Option<String>,
    pub hash: Option<String>,
    pub description: Option<String>,
    pub caption: Option<String>,
    pub tags: Vec<String>,
    pub category: Option<String>,
    pub text_content: Option<String>,
    pub embedding: Option<Vec<u32>>,
    pub clip_embedding: Option<Vec<u32>>,
    pub segments: Option<Vec<String>>,
}

/// The structured answer that the vision model is asked for.
pub struct VisionDescription {
    pub description: String,
    pub caption: String,
    pub tags: Vec<String>,
    pub category: String,
}

/// A cached thumbnail/metadata row as persisted in the `thumbnails` table.
pub struct Thumbnail {
    pub db_created: i64,
    pub path: String,
    pub filename: String,
    pub file_type: String,
    pub size: u64,
    pub description: Option<String>,
    pub caption: Option<String>,
    pub tags: Vec<String>,
    pub category: Option<String>,
    pub embedding: Option<Vec<u32>>,
    pub thumbnail_b64: Option<String>,
    pub modified: Option<i64>,
    pub hash: Option<String>,
}

/// The abstract value of a metadata record: vectors seen as sequences.
pub struct FileMetadataView {
    pub id: Option<String>,
    pub path: String,
    pub filename: String,
    pub file_type: String,
    pub size: u64,
    pub modified: Option<i64>,
    pub created: Option<i64>,
    pub thumbnail_path: Option<String>,
    pub thumb_b64: Option<String>,
    pub hash: Option<String>,
    pub description: Option<String>,
    pub caption: Option<String>,
    pub tags: Seq<String>,
    pub category: Option<String>,
    pub text_content: Option<String>,
    pub embedding: Option<Seq<u32>>,
    pub clip_embedding: Option<Seq<u32>>,
    pub segments: Option<Seq<String>>,
}

pub open spec fn opt_vec_view<T>(o: Option<Vec<T>>) -> Option<Seq<T>> {
    match o {
        Some(v) => Some(v@),
        None => None,
    }
}

impl View for FileMetadata {
    type V = FileMetadataView;

    open spec fn view(&self) -> FileMetadataView {
        FileMetadataView {
            id: self.id,
            path: self.path,
            filename: self.filename,
            file_type: self.file_type,
            size: self.size,
            modified: self.modified,
            created: self.created,
            thumbnail_path: self.thumbnail_path,
            thumb_b64: self.thumb_b64,
            hash: self.hash,
            description: self.description,
            caption: self.caption,
            tags: self.tags@,
            category: self.category,
            text_content: self.text_content,
            embedding: opt_vec_view(self.embedding),
            clip_embedding: opt_vec_view(self.clip_embedding),
            segments: opt_vec_view(self.segments),
        }
    }
}

/// The abstract value of a model answer.
pub struct VisionDescriptionView {
    pub description: String,
    pub caption: String,
    pub tags: Seq<String>,
    pub category: String,
}

impl View for VisionDescription {
    type V = VisionDescriptionView;

    open spec fn view(&self) -> VisionDescriptionView {
        VisionDescriptionView {
            description: self.description,
            caption: self.caption,
            tags: self.tags@,
            category: self.category,
        }
    }
}

/// The abstract value of a cached row.
pub struct ThumbnailView {
    pub db_created: i64,
    pub path: String,
    pub filename: String,
    pub file_type: String,
    pub size: u64,
    pub description: Option<String>,
    pub caption: Option<String>,
    pub tags: Seq<String>,
    pub category: Option<String>,
    pub embedding: Option<Seq<u32>>,
    pub thumbnail_b64: Option<String>,
    pub modified: Option<i64>,
    pub hash: Option<String>,
}

impl View for Thumbnail {
    type V = ThumbnailView;

    open spec fn view(&self) -> ThumbnailView {
        ThumbnailView {
            db_created: self.db_created,
            path: self.path,
            filename: self.filename,
            file_type: self.file_type,
            size: self.size,
            description: self.description,
            caption: self.caption,
            tags: self.tags@,
            category: self.category,
            embedding: opt_vec_view(self.embedding),
            thumbnail_b64: self.thumbnail_b64,
            modified: self.modified,
            hash: self.hash,
        }
    }
}

pub fn copy_u32s(v: &Vec<u32>) -> (r: Vec<u32>)
    ensures
        r@ == v@,
{
    let mut r: Vec<u32> = Vec::new();
    let mut i: usize = 0;
    while i < v.len()
        invariant
            i <= v.len(),
            r@ == v@.take(i as int),
        decreases v.len() - i,
    {
        r.push(v[i]);
        assert(v@.take(i + 1) =~= v@.take(i as int).push(v@[i as int]));
        i = i + 1;
    }
    assert(v@.take(v.len() as int) =~= v@);
    r
}

pub fn copy_opt_u32s(o: &Option<Vec<u32>>) -> (r: Option<Vec<u32>>)
    ensures
        opt_vec_view(r) == opt_vec_view(*o),
{
    match o {
        Some(v) => Some(copy_u32s(v)),
        None => None,
    }
}

pub fn copy_opt_strings(o: &Option<Vec<String>>) -> (r: Option<Vec<String>>)
    ensures
        opt_vec_view(r) == opt_vec_view(*o),
{
    match o {
        Some(v) => Some(copy_strings(v)),
        None => None,
    }
}

impl FileMetadata {
    /// A field-for-field copy.
    pub fn duplicate(&self) -> (r: Self)
        ensures
            r@ == self@,
    {
        FileMetadata {
            id: copy_opt(&self.id),
            path: self.path.clone(),
            filename: self.filename.clone(),
            file_type: self.file_type.clone(),
            size: self.size,
            modified: self.modified,
            created: self.created,
            thumbnail_path: copy_opt(&self.thumbnail_path),
            thumb_b64: copy_opt(&self.thumb_b64),
            hash: copy_opt(&self.hash),
            description: copy_opt(&self.description),
            caption: copy_opt(&self.caption),
            tags: copy_strings(&self.tags),
            category: copy_opt(&self.category),
            text_content: copy_opt(&self.text_content),
            embedding: copy_opt_u32s(&self.embedding),
            clip_embedding: copy_opt_u32s(&self.clip_embedding),
            segments: copy_opt_strings(&self.segments),
        }
    }
}

impl VisionDescription {
    pub fn duplicate(&self) -> (r: Self)
        ensures
            r@ == self@,
    {
        VisionDescription {
            description: self.description.clone(),
            caption: self.caption.clone(),
            tags: copy_strings(&self.tags),
            category: self.category.clone(),
        }
    }
}

impl Thumbnail {
    pub fn duplicate(&self) -> (r: Self)
        ensures
            r@ == self@,
    {
        Thumbnail {
            db_created: self.db_created,
            path: self.path.clone(),
            filename: self.filename.clone(),
            file_type: self.file_type.clone(),
            size: self.size,
            description: copy_opt(&self.description),
            caption: copy_opt(&self.caption),
            tags: copy_strings(&self.tags),
            category: copy_opt(&self.category),
            embedding: copy_opt_u32s(&self.embedding),
            thumbnail_b64: copy_opt(&self.thumbnail_b64),
            modified: self.modified,
            hash: copy_opt(&self.hash),
        }
    }
}

/// The prefix that marks an inline (base64 data URL) thumbnail.
pub open spec fn data_image_prefix() -> Seq<char> {
    seq!['d', 'a', 't', 'a', ':', 'i', 'm', 'a', 'g', 'e']
}

/// Whether a stored thumbnail string is an inline data URL.
pub open spec fn is_data_url(s: Seq<char>) -> bool {
    starts_with_seq(s, data_image_prefix())
}

pub fn data_image_prefix_string() -> (r: String)
    ensures
        r@ == data_image_prefix(),
{
    let mut r = String::new();
    push_char(&mut r, 'd');
    push_char(&mut r, 'a');
    push_char(&mut r, 't');
    push_char(&mut r, 'a');
    push_char(&mut r, ':');
    push_char(&mut r, 'i');
    push_char(&mut r, 'm');
    push_char(&mut r, 'a');
    push_char(&mut r, 'g');
    push_char(&mut r, 'e');
    assert(r@ =~= data_image_prefix());
    r
}

pub fn is_data_url_str(s: &str) -> (r: bool)
    ensures
        r == is_data_url(s@),
{
    let p = data_image_prefix_string();
    starts_with(s, p.as_str())
}

/// The file type of image files.
pub open spec fn image_type() -> Seq<char> {
    seq!['i', 'm', 'a', 'g', 'e']
}

pub fn is_image_type(t: &str) -> (r: bool)
    ensures
        r == (t@ == image_type()),
{
    let mut p = String::new();
    push_char(&mut p, 'i');
    push_char(&mut p, 'm');
    push_char(&mut p, 'a');
    push_char(&mut p, 'g');
    push_char(&mut p, 'e');
    assert(p@ =~= image_type());
    str_eq(t, p.as_str())
}

/// A description is missing or too short to be useful: absent, or fewer
/// than 12 UTF-8 bytes once surrounding whitespace is trimmed.
pub open spec fn description_too_short(d: Option<String>) -> bool {
    match d {
        None => true,
        Some(s) => encode_utf8(trim_seq(s@)).len() < 12,
    }
}

pub fn description_needs_generation(d: &Option<String>) -> (r: bool)
    ensures
        r == description_too_short(*d),
{
    match d {
        None => true,
        Some(s) => {
            let t = trim(s.as_str());
            utf8_len_below(t.as_str(), 12)
        },
    }
}

/// An image whose description is missing or too short.
pub open spec fn lacks_description(m: FileMetadataView) -> bool {
    m.file_type@ == image_type() && description_too_short(m.description)
}

pub fn lacks_description_exec(m: &FileMetadata) -> (r: bool)
    ensures
        r == lacks_description(m@),
{
    is_image_type(m.file_type.as_str()) && description_needs_generation(&m.description)
}

/// The category stored for a model answer: none when the answer's
/// category is blank.
pub open spec fn stored_category(vd: VisionDescriptionView) -> Option<String> {
    if is_blank(vd.category@) { None } else { Some(vd.category) }
}

pub fn stored_category_exec(vd: &VisionDescription) -> (r: Option<String>)
    ensures
        r == stored_category(vd@),
{
    if blank(vd.category.as_str()) {
        None
    } else {
        Some(vd.category.clone())
    }
}

/// The record after a model answer has been applied to it.
pub open spec fn with_vision(m: FileMetadataView, vd: VisionDescriptionView) -> FileMetadataView {
    FileMetadataView {
        description: Some(vd.description),
        caption: Some(vd.caption),
        tags: vd.tags,
        category: stored_category(vd),
        ..m
    }
}

pub fn apply_vision(m: &mut FileMetadata, vd: &VisionDescription)
    ensures
        final(m)@ == with_vision(old(m)@, vd@),
{
    m.description = Some(vd.description.clone());
    m.caption = Some(vd.caption.clone());
    m.tags = copy_strings(&vd.tags);
    m.category = stored_category_exec(vd);
}

/// The record after indexing applied a model answer to it: like
/// [`with_vision`], except that a blank category in the answer leaves the
/// record's category as it was.
pub open spec fn with_indexed_vision(m: FileMetadataView, vd: VisionDescriptionView) -> FileMetadataView {
    FileMetadataView {
        description: Some(vd.description),
        caption: Some(vd.caption),
        tags: vd.tags,
        category: if is_blank(vd.category@) {
            m.category
        } else {
            Some(vd.category)
        },
        ..m
    }
}

pub fn apply_indexed_vision(m: &mut FileMetadata, vd: &VisionDescription)
    ensures
        final(m)@ == with_indexed_vision(old(m)@, vd@),
{
    m.description = Some(vd.description.clone());
    m.caption = Some(vd.caption.clone());
    m.tags = copy_strings(&vd.tags);
    if !blank(vd.category.as_str()) {
        m.category = Some(vd.category.clone());
    }
}

/// Two records agree on everything a model answer does not touch.
pub open spec fn same_apart_from_answer(a: FileMetadataView, b: FileMetadataView) -> bool {
    &&& a.id == b.id
    &&& a.path == b.path
    &&& a.filename == b.filename
    &&& a.file_type == b.file_type
    &&& a.size == b.size
    &&& a.modified == b.modified
    &&& a.created == b.created
    &&& a.thumbnail_path == b.thumbnail_path
    &&& a.thumb_b64 == b.thumb_b64
    &&& a.hash == b.hash
    &&& a.text_content == b.text_content
    &&& a.embedding == b.embedding
    &&& a.clip_embedding == b.clip_embedding
    &&& a.segments == b.segments
}

/// Indexing that applies a model answer gives the record the answer's
/// description, caption and tags, takes the answer's category unless it is
/// blank (then the record keeps its own), and leaves the rest of the record
/// as it was.
pub proof fn lemma_indexing_takes_the_answer(m: FileMetadataView, vd: VisionDescriptionView)
    ensures
        with_indexed_vision(m, vd).description == Some(vd.description),
        with_indexed_vision(m, vd).caption == Some(vd.caption),
        with_indexed_vision(m, vd).tags == vd.tags,
        !is_blank(vd.category@) ==> with_indexed_vision(m, vd).category == Some(vd.category),
        is_blank(vd.category@) ==> with_indexed_vision(m, vd).category == m.category,
        same_apart_from_answer(with_indexed_vision(m, vd), m),
{
}

/// Applying a model answer to a stored record gives it the answer's
/// description, caption and tags, the answer's category or none when that
/// is blank, and leaves the rest of the record as it was.
pub proof fn lemma_answer_replaces_description(m: FileMetadataView, vd: VisionDescriptionView)
    ensures
        with_vision(m, vd).description == Some(vd.description),
        with_vision(m, vd).caption == Some(vd.caption),
        with_vision(m, vd).tags == vd.tags,
        !is_blank(vd.category@) ==> with_vision(m, vd).category == Some(vd.category),
        is_blank(vd.category@) ==> with_vision(m, vd).category is None,
        same_apart_from_answer(with_vision(m, vd), m),
{
}

/// The kind name stored as `file_type` for each media kind.
#[derive(Clone, Copy)]
pub enum MediaKind {
    Image,
    Video,
    Other,
}

pub open spec fn kind_name(k: MediaKind) -> Seq<char> {
    match k {
        MediaKind::Image => seq!['i', 'm', 'a', 'g', 'e'],
        MediaKind::Video => seq!['v', 'i', 'd', 'e', 'o'],
        MediaKind::Other => seq!['o', 't', 'h', 'e', 'r'],
    }
}

pub fn kind_name_string(k: &MediaKind) -> (r: String)
    ensures
        r@ == kind_name(*k),
{
    let mut r = String::new();
    match k {
        MediaKind::Image => {
            push_char(&mut r, 'i');
            push_char(&mut r, 'm');
            push_char(&mut r, 'a');
            push_char(&mut r, 'g');
            push_char(&mut r, 'e');
        },
        MediaKind::Video => {
            push_char(&mut r, 'v');
            push_char(&mut r, 'i');
            push_char(&mut r, 'd');
            push_char(&mut r, 'e');
            push_char(&mut r, 'o');
        },
        MediaKind::Other => {
            push_char(&mut r, 'o');
            push_char(&mut r, 't');
            push_char(&mut r, 'h');
            push_char(&mut r, 'e');
            push_char(&mut r, 'r');
        },
    }
    assert(r@ =~= kind_name(*k));
    r
}

/// The media kind named by a stored `file_type`: anything but "image" and
/// "video" is `Other`.
pub open spec fn kind_of_name(t: Seq<char>) -> MediaKind {
    if t == kind_name(MediaKind::Image) {
        MediaKind::Image
    } else if t == kind_name(MediaKind::Video) {
        MediaKind::Video
    } else {
        MediaKind::Other
    }
}

pub fn kind_of_file_type(t: &str) -> (r: MediaKind)
    ensures
        r == kind_of_name(t@),
{
    let img = kind_name_string(&MediaKind::Image);
    let vid = kind_name_string(&MediaKind::Video);
    if str_eq(t, img.as_str()) {
        MediaKind::Image
    } else if str_eq(t, vid.as_str()) {
        MediaKind::Video
    } else {
        MediaKind::Other
    }
}

/// The media kind of a file by its extension (compared in ASCII
/// lowercase): an image or video extension of the given lists, else other.
pub open spec fn kind_for_ext(ext: Option<Seq<char>>, image_exts: Seq<Seq<char>>, video_exts: Seq<Seq<char>>) -> MediaKind {
    match ext {
        Some(e) => if image_exts.contains(crate::text::ascii_lower_seq(e)) {
            MediaKind::Image
        } else if video_exts.contains(crate::text::ascii_lower_seq(e)) {
            MediaKind::Video
        } else {
            MediaKind::Other
        },
        None => MediaKind::Other,
    }
}

fn listed(v: &Vec<String>, s: &str) -> (r: bool)
    ensures
        r == crate::text::views(v@).contains(s@),
{
    let mut i: usize = 0;
    while i < v.len()
        invariant
            i <= v.len(),
            forall|j: int| 0 <= j < i ==> v@[j]@ != s@,
        decreases v.len() - i,
    {
        if str_eq(v[i].as_str(), s) {
            assert(crate::text::views(v@)[i as int] == s@);
            return true;
        }
        i = i + 1;
    }
    assert forall|j: int| 0 <= j < crate::text::views(v@).len() implies crate::text::views(v@)[j] != s@ by {}
    false
}

pub fn kind_for_extension(ext: Option<&str>, image_exts: &Vec<String>, video_exts: &Vec<String>) -> (r: MediaKind)
    ensures
        r == kind_for_ext(
            match ext {
                Some(e) => Some(e@),
                None => None,
            },
            crate::text::views(image_exts@),
            crate::text::views(video_exts@),
        ),
{
    match ext {
        Some(e) => {
            let lower = crate::text::to_ascii_lowercase(e);
            if listed(image_exts, lower.as_str()) {
                MediaKind::Image
            } else if listed(video_exts, lower.as_str()) {
                MediaKind::Video
            } else {
                MediaKind::Other
            }
        },
        None => MediaKind::Other,
    }
}

/// A file found by a directory scan, as the scanner reports it.
pub struct FoundFile {
    pub path: String,
    pub file_name: String,
    pub size: Option<u64>,
    pub modified: Option<i64>,
    pub created: Option<i64>,
    pub kind: MediaKind,
    pub thumb_data: Option<String>,
}

impl FoundFile {
    /// A field-for-field copy.
    pub fn duplicate(&self) -> (r: Self)
        ensures
            r == *self,
    {
        FoundFile {
            path: self.path.clone(),
            file_name: self.file_name.clone(),
            size: self.size,
            modified: self.modified,
            created: self.created,
            kind: self.kind,
            thumb_data: copy_opt(&self.thumb_data),
        }
    }
}

/// The metadata record made for a freshly found file: nothing generated
/// yet, the scan's inline thumbnail kept as `thumb_b64`, an unknown size
/// recorded as 0.
pub fn found_file_to_metadata(f: &FoundFile) -> (r: FileMetadata)
    ensures
        r.id is None,
        r.path == f.path,
        r.filename == f.file_name,
        r.file_type@ == kind_name(f.kind),
        r.size == (match f.size {
            Some(s) => s,
            None => 0,
        }),
        r.modified == f.modified,
        r.created == f.created,
        r.thumbnail_path is None,
        r.thumb_b64 == f.thumb_data,
        r.hash is None,
        r.description is None,
        r.caption is None,
        r.tags@.len() == 0,
        r.category is None,
        r.text_content is None,
        r.embedding is None,
        r.clip_embedding is None,
        r.segments is None,
{
    FileMetadata {
        id: None,
        path: f.path.clone(),
        filename: f.file_name.clone(),
        file_type: kind_name_string(&f.kind),
        size: match f.size {
            Some(s) => s,
            None => 0,
        },
        modified: f.modified,
        created: f.created,
        thumbnail_path: None,
        thumb_b64: copy_opt(&f.thumb_data),
        hash: None,
        description: None,
        caption: None,
        tags: Vec::new(),
        category: None,
        text_content: None,
        embedding: None,
        clip_embedding: None,
        segments: None,
    }
}

/// How a stored thumbnail string is split when a cached row is loaded:
/// `(thumbnail_path, thumb_b64)`. An inline data URL becomes `thumb_b64`;
/// anything else is taken for an on-disk path.
pub open spec fn split_thumbnail(t: Option<String>) -> (Option<String>, Option<String>) {
    match t {
        Some(s) => if is_data_url(s@) {
            (None, Some(s))
        } else {
            (Some(s), None)
        },
        None => (None, None),
    }
}

pub fn split_thumbnail_exec(t: &Option<String>) -> (r: (Option<String>, Option<String>))
    ensures
        r == split_thumbnail(*t),
{
    match t {
        Some(s) => if is_data_url_str(s.as_str()) {
            (None, Some(s.clone()))
        } else {
            (Some(s.clone()), None)
        },
        None => (None, None),
    }
}

/// The record restored from a cached row: the row's modification time
/// doubles as creation time; no document id, text or segments.
pub open spec fn row_as_metadata(t: ThumbnailView) -> FileMetadataView {
    FileMetadataView {
        id: None,
        path: t.path,
        filename: t.filename,
        file_type: t.file_type,
        size: t.size,
        modified: t.modified,
        created: t.modified,
        thumbnail_path: split_thumbnail(t.thumbnail_b64).0,
        thumb_b64: split_thumbnail(t.thumbnail_b64).1,
        hash: t.hash,
        description: t.description,
        caption: t.caption,
        tags: t.tags,
        category: t.category,
        text_content: None,
        embedding: t.embedding,
        clip_embedding: None,
        segments: None,
    }
}

pub fn metadata_from_row(t: &Thumbnail) -> (r: FileMetadata)
    ensures
        r@ == row_as_metadata(t@),
{
    let (tp, tb) = split_thumbnail_exec(&t.thumbnail_b64);
    FileMetadata {
        id: None,
        path: t.path.clone(),
        filename: t.filename.clone(),
        file_type: t.file_type.clone(),
        size: t.size,
        modified: t.modified,
        created: t.modified,
        thumbnail_path: tp,
        thumb_b64: tb,
        hash: copy_opt(&t.hash),
        description: copy_opt(&t.description),
        caption: copy_opt(&t.caption),
        tags: copy_strings(&t.tags),
        category: copy_opt(&t.category),
        text_content: None,
        embedding: copy_opt_u32s(&t.embedding),
        clip_embedding: None,
        segments: None,
    }
}

/// A text field of new metadata replaces the stored one only when it holds
/// more than whitespace.
pub open spec fn prefer_text(new: Option<String>, old: Option<String>) -> Option<String> {
    match new {
        Some(s) => if is_blank(s@) {
            old
        } else {
            Some(s)
        },
        None => old,
    }
}

fn prefer_text_exec(new: &Option<String>, old: Option<String>) -> (r: Option<String>)
    ensures
        r == prefer_text(*new, old),
{
    match new {
        Some(s) => if blank(s.as_str()) {
            old
        } else {
            Some(s.clone())
        },
        None => old,
    }
}

/// The row written back for `m`: starting from the stored row (or, when
/// there is none, a fresh row made from `m` at time `now`), every AI field
/// takes the new value when it is present and non-empty and keeps the stored
/// one otherwise. `thumb` is the thumbnail already chosen for `m`.
pub open spec fn merged_row(
    existing: Option<ThumbnailView>,
    m: FileMetadataView,
    thumb: Option<String>,
    now: i64,
) -> ThumbnailView {
    let base = match existing {
        Some(e) => e,
        None => ThumbnailView {
            db_created: now,
            path: m.path,
            filename: m.filename,
            file_type: m.file_type,
            size: m.size,
            description: None,
            caption: None,
            tags: Seq::empty(),
            category: None,
            embedding: None,
            thumbnail_b64: None,
            modified: m.modified,
            hash: m.hash,
        },
    };
    ThumbnailView {
        description: prefer_text(m.description, base.description),
        caption: prefer_text(m.caption, base.caption),
        tags: if m.tags.len() > 0 { m.tags } else { base.tags },
        category: prefer_text(m.category, base.category),
        embedding: match m.embedding {
            Some(e) => if e.len() > 0 { Some(e) } else { base.embedding },
            None => base.embedding,
        },
        thumbnail_b64: if thumb is Some { thumb } else { base.thumbnail_b64 },
        modified: if m.modified is Some { m.modified } else { base.modified },
        hash: match m.hash {
            Some(h) => if h@.len() > 0 { Some(h) } else { base.hash },
            None => base.hash,
        },
        ..base
    }
}

pub fn merge_thumbnail_row(
    existing: Option<Thumbnail>,
    m: &FileMetadata,
    thumb: Option<String>,
    now: i64,
) -> (r: Thumbnail)
    ensures
        r@ == merged_row(
            match existing {
                Some(e) => Some(e@),
                None => None,
            },
            m@,
            thumb,
            now,
        ),
{
    let mut base = match existing {
        Some(e) => e,
        None => Thumbnail {
            db_created: now,
            path: m.path.clone(),
            filename: m.filename.clone(),
            file_type: m.file_type.clone(),
            size: m.size,
            description: None,
            caption: None,
            tags: Vec::new(),
            category: None,
            embedding: None,
            thumbnail_b64: None,
            modified: m.modified,
            hash: copy_opt(&m.hash),
        },
    };
    base.description = prefer_text_exec(&m.description, base.description);
    base.caption = prefer_text_exec(&m.caption, base.caption);
    if m.tags.len() > 0 {
        base.tags = copy_strings(&m.tags);
    }
    base.category = prefer_text_exec(&m.category, base.category);
    match &m.embedding {
        Some(e) => if e.len() > 0 {
            base.embedding = Some(copy_u32s(e));
        },
        None => {},
    }
    if thumb.is_some() {
        base.thumbnail_b64 = thumb;
    }
    if m.modified.is_some() {
        base.modified = m.modified;
    }
    match &m.hash {
        Some(h) => if !h.as_str().is_empty() {
            base.hash = Some(h.clone());
        },
        None => {},
    }
    base
}

/// Merging the same metadata twice gives the row that merging it once gives.
pub proof fn lemma_merge_idempotent(
    existing: Option<ThumbnailView>,
    m: FileMetadataView,
    thumb: Option<String>,
    now: i64,
)
    ensures
        merged_row(Some(merged_row(existing, m, thumb, now)), m, thumb, now) == merged_row(
            existing,
            m,
            thumb,
            now,
        ),
{
}

} // verus!
