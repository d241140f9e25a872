//! The placeholder images produced for a text prompt: their pixels and the
//! metadata record under which they are indexed.
use vstd::prelude::*;
use crate::metadata::FileMetadata;

verus! {

/// Width and height of a placeholder image.
pub const PLACEHOLDER_SIDE: u32 = 512;

/// The colour of pixel `(x, y)` of a placeholder: red grows with `x`,
/// green with `y` (each `coordinate / 512 * 255`, truncated), blue is
/// 128 and the pixel is opaque.
pub open spec fn gradient(x: int, y: int) -> (u8, u8, u8, u8) {
    ((x * 255 / 512) as u8, (y * 255 / 512) as u8, 128u8, 255u8)
}

/// The RGBA value of pixel `(x, y)` of a placeholder image.
pub fn gradient_pixel(x: u32, y: u32) -> (r: [u8; 4])
    requires
        x < PLACEHOLDER_SIDE,
        y < PLACEHOLDER_SIDE,
    ensures
        (r[0], r[1], r[2], r[3]) == gradient(x as int, y as int),
        r[0] as int == x * 255 / 512,
        r[1] as int == y * 255 / 512,
{
    assert(x * 255 / 512 < 256) by (nonlinear_arith)
        requires
            x < 512,
    ;
    assert(y * 255 / 512 < 256) by (nonlinear_arith)
        requires
            y < 512,
    ;
    let red = (x * 255 / 512) as u8;
    let green = (y * 255 / 512) as u8;
    [red, green, 128u8, 255u8]
}

/// The metadata of a placeholder image generated for `prompt`: an image
/// whose description and caption quote the prompt, tagged and categorised
/// "generated", modified and created `now`.
pub fn placeholder_metadata(
    path: String,
    filename: String,
    size: u64,
    now: i64,
    hash: Option<String>,
    prompt: &str,
) -> (r: FileMetadata)
    ensures
        r@.id is None,
        r@.path == path,
        r@.filename == filename,
        r@.file_type@ == "image"@,
        r@.size == size,
        r@.modified == Some(now),
        r@.created == Some(now),
        r@.thumbnail_path is None,
        r@.thumb_b64 is None,
        r@.hash == hash,
        r@.description is Some,
        r@.description->0@ == "Placeholder generated for prompt: "@ + prompt@,
        r@.caption is Some,
        r@.caption->0@ == "generated image: "@ + prompt@,
        r@.tags.len() == 1,
        r@.tags[0]@ == "generated"@,
        r@.category is Some,
        r@.category->0@ == "generated"@,
        r@.text_content is None,
        r@.embedding is None,
        r@.clip_embedding is None,
        r@.segments is None,
{
    let mut description = "Placeholder generated for prompt: ".to_owned();
    description.append(prompt);
    let mut caption = "generated image: ".to_owned();
    caption.append(prompt);
    let mut tags: Vec<String> = Vec::new();
    tags.push("generated".to_owned());
    FileMetadata {
        id: None,
        path,
        filename,
        file_type: "image".to_owned(),
        size,
        modified: Some(now),
        created: Some(now),
        thumbnail_path: None,
        thumb_b64: None,
        hash,
        description: Some(description),
        caption: Some(caption),
        tags,
        category: Some("generated".to_owned()),
        text_content: None,
        embedding: None,
        clip_embedding: None,
        segments: None,
    }
}

} // verus!
