//! Content hashes and inline thumbnails: the BLAKE3 hash that tells when a
//! file changed, and the base64 data URLs under which thumbnails are kept.
//! Reading the files is left to the caller, which hands over their bytes.
use vstd::prelude::*;
use base64::Engine;
use crate::metadata::{is_data_url, is_data_url_str, FileMetadata, FileMetadataView};
use crate::text::{copy_opt, trim, trim_seq};

verus! {

/// Lower-case hex of the BLAKE3 hash of some bytes.
pub uninterp spec fn blake3_hex(bytes: Seq<u8>) -> Seq<char>;

/// The symbol of a 6-bit value in the standard base64 alphabet
/// (`A`-`Z`, `a`-`z`, `0`-`9`, `+`, `/`).
pub open spec fn base64_symbol(v: int) -> char {
    if v < 26 {
        ('A' as int + v) as char
    } else if v < 52 {
        ('a' as int + (v - 26)) as char
    } else if v < 62 {
        ('0' as int + (v - 52)) as char
    } else if v == 62 {
        '+'
    } else {
        '/'
    }
}

/// Standard base64 encoding of some bytes (RFC 4648, with `=` padding):
/// each group of three bytes becomes four symbols; a last group of one or
/// two bytes becomes two or three symbols followed by `=` up to four.
pub open spec fn base64_standard(b: Seq<u8>) -> Seq<char>
    decreases b.len(),
{
    if b.len() == 0 {
        Seq::empty()
    } else if b.len() == 1 {
        seq![base64_symbol((b[0] as int) / 4), base64_symbol(((b[0] as int) % 4) * 16), '=', '=']
    } else if b.len() == 2 {
        seq![
            base64_symbol((b[0] as int) / 4),
            base64_symbol(((b[0] as int) % 4) * 16 + (b[1] as int) / 16),
            base64_symbol(((b[1] as int) % 16) * 4),
            '=',
        ]
    } else {
        seq![
            base64_symbol((b[0] as int) / 4),
            base64_symbol(((b[0] as int) % 4) * 16 + (b[1] as int) / 16),
            base64_symbol(((b[1] as int) % 16) * 4 + (b[2] as int) / 64),
            base64_symbol((b[2] as int) % 64),
        ] + base64_standard(b.subrange(3, b.len() as int))
    }
}

/// Hashes bytes with BLAKE3.
/// Calls `blake3::hash` and renders the digest with `Hash::to_hex`; the
/// contract names the result, a function of the bytes alone.
#[verifier::external_body]
fn blake3_hex_exec(bytes: &[u8]) -> (r: String)
    ensures
        r@ == blake3_hex(bytes@),
{
    blake3::hash(bytes).to_hex().to_string()
}

/// Encodes bytes as standard base64.
/// Calls `base64::Engine::encode` on `base64::engine::general_purpose::STANDARD`
/// (the standard alphabet, with padding); the contract states that encoding.
#[verifier::external_body]
fn base64_exec(bytes: &[u8]) -> (r: String)
    ensures
        r@ == base64_standard(bytes@),
{
    base64::engine::general_purpose::STANDARD.encode(bytes)
}

/// The content hash recorded for a file with these bytes.
pub fn compute_file_hash(bytes: &[u8]) -> (r: String)
    ensures
        r@ == blake3_hex(bytes@),
{
    blake3_hex_exec(bytes)
}

/// `data:image/png;base64,`
pub open spec fn png_data_url_prefix() -> Seq<char> {
    seq![
        'd',
        'a',
        't',
        'a',
        ':',
        'i',
        'm',
        'a',
        'g',
        'e',
        '/',
        'p',
        'n',
        'g',
        ';',
        'b',
        'a',
        's',
        'e',
        '6',
        '4',
        ',',
    ]
}

/// The PNG data URL of some image bytes.
pub fn png_data_url(bytes: &[u8]) -> (r: String)
    ensures
        r@ == png_data_url_prefix() + base64_standard(bytes@),
{
    proof {
        reveal_strlit("data:image/png;base64,");
        assert("data:image/png;base64,"@ =~= png_data_url_prefix());
    }
    let mut r = "data:image/png;base64,".to_owned();
    let b = base64_exec(bytes);
    r.append(b.as_str());
    r
}

/// The on-disk thumbnail that indexing would inline: the record's
/// thumbnail path, when its `thumb_b64` is not already a data URL and the
/// path is not one either.
pub open spec fn thumbnail_to_inline(m: FileMetadataView) -> Option<String> {
    let has_inline = match m.thumb_b64 {
        Some(t) => is_data_url(t@),
        None => false,
    };
    if has_inline {
        None
    } else {
        match m.thumbnail_path {
            Some(tp) => if is_data_url(tp@) {
                None
            } else {
                Some(tp)
            },
            None => None,
        }
    }
}

pub fn thumbnail_file_to_read(m: &FileMetadata) -> (r: Option<String>)
    ensures
        r == thumbnail_to_inline(m@),
{
    let has_inline = match &m.thumb_b64 {
        Some(t) => is_data_url_str(t.as_str()),
        None => false,
    };
    if has_inline {
        return None;
    }
    match &m.thumbnail_path {
        Some(tp) => if is_data_url_str(tp.as_str()) {
            None
        } else {
            Some(tp.clone())
        },
        None => None,
    }
}

/// The thumbnail fields after indexing normalised them. When `thumb_b64`
/// is not a data URL: an on-disk thumbnail whose bytes could be read becomes
/// a PNG data URL, and a data URL misfiled as the thumbnail path moves to
/// `thumb_b64` if that is empty. `file_bytes` is what reading the file of
/// [`thumbnail_file_to_read`] gave, if anything.
pub open spec fn normalized_thumb(m: FileMetadataView, file_bytes: Option<Seq<u8>>) -> Option<
    Seq<char>,
> {
    let has_inline = match m.thumb_b64 {
        Some(t) => is_data_url(t@),
        None => false,
    };
    let current = match m.thumb_b64 {
        Some(t) => Some(t@),
        None => None,
    };
    if has_inline {
        current
    } else {
        match m.thumbnail_path {
            Some(tp) => if !is_data_url(tp@) {
                match file_bytes {
                    Some(b) => Some(png_data_url_prefix() + base64_standard(b)),
                    None => current,
                }
            } else if m.thumb_b64 is None {
                Some(tp@)
            } else {
                current
            },
            None => current,
        }
    }
}

pub fn normalize_thumbnail(m: &mut FileMetadata, file_bytes: Option<Vec<u8>>)
    ensures
        final(m)@ == (crate::metadata::FileMetadataView {
            thumb_b64: final(m)@.thumb_b64,
            ..old(m)@
        }),
        match final(m).thumb_b64 {
            Some(t) => normalized_thumb(old(m)@, match file_bytes {
                Some(b) => Some(b@),
                None => None,
            }) == Some(t@),
            None => normalized_thumb(old(m)@, match file_bytes {
                Some(b) => Some(b@),
                None => None,
            }) is None,
        },
{
    let has_inline = match &m.thumb_b64 {
        Some(t) => is_data_url_str(t.as_str()),
        None => false,
    };
    if has_inline {
        return ;
    }
    let tp = copy_opt(&m.thumbnail_path);
    match tp {
        Some(tp) => {
            if !is_data_url_str(tp.as_str()) {
                match file_bytes {
                    Some(b) => {
                        m.thumb_b64 = Some(png_data_url(b.as_slice()));
                    },
                    None => {},
                }
            } else if m.thumb_b64.is_none() {
                m.thumb_b64 = Some(tp);
            }
        },
        None => {},
    }
}

/// The thumbnail written to the cache row: `thumb_b64` trimmed when
/// present; else a thumbnail path that is a data URL; else the base64 (no
/// data URL prefix) of the thumbnail file's bytes when they could be read.
pub open spec fn cached_thumb(m: FileMetadataView, file_bytes: Option<Seq<u8>>) -> Option<
    Seq<char>,
> {
    match m.thumb_b64 {
        Some(t) => Some(trim_seq(t@)),
        None => match m.thumbnail_path {
            Some(tp) => if is_data_url(tp@) {
                Some(tp@)
            } else {
                match file_bytes {
                    Some(b) => Some(base64_standard(b)),
                    None => None,
                }
            },
            None => None,
        },
    }
}

pub fn choose_cached_thumbnail(m: &FileMetadata, file_bytes: Option<Vec<u8>>) -> (r: Option<
    String,
>)
    ensures
        match r {
            Some(t) => cached_thumb(m@, match file_bytes {
                Some(b) => Some(b@),
                None => None,
            }) == Some(t@),
            None => cached_thumb(m@, match file_bytes {
                Some(b) => Some(b@),
                None => None,
            }) is None,
        },
{
    match &m.thumb_b64 {
        Some(t) => Some(trim(t.as_str())),
        None => match &m.thumbnail_path {
            Some(tp) => if is_data_url_str(tp.as_str()) {
                Some(tp.clone())
            } else {
                match file_bytes {
                    Some(b) => Some(base64_exec(b.as_slice())),
                    None => None,
                }
            },
            None => None,
        },
    }
}

} // verus!
