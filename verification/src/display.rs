//! Text shown or written by the explorer: shortened file names, the scan
//! status line, CSV export rows, file names of generated images, and the
//! decision of which rows bulk description generation works on.
use vstd::prelude::*;
use vstd::utf8::encode_utf8;
use crate::metadata::{kind_name, kind_name_string, MediaKind};
use crate::text::{
    ascii_lower_seq, decimal_seq, is_ws, is_whitespace, join, join_seq, push_char, str_eq,
    to_ascii_lowercase, to_chars, u64_to_decimal, views,
};

verus! {

proof fn lemma_encode_concat(x: Seq<char>, y: Seq<char>)
    ensures
        encode_utf8(x + y) == encode_utf8(x) + encode_utf8(y),
    decreases x.len(),
{
    if x.len() > 0 {
        assert((x + y).drop_first() =~= x.drop_first() + y);
        assert((x + y)[0] == x[0]);
        lemma_encode_concat(x.drop_first(), y);
        assert(encode_utf8(x + y) =~= encode_utf8(x) + encode_utf8(y));
    } else {
        assert(x + y =~= y);
        assert(encode_utf8(x) =~= Seq::<u8>::empty());
    }
}

/// The UTF-8 bytes of a name shortened to at most `max` bytes by keeping
/// its start and end around `...` (or, for `max` up to 3, its first `max`
/// bytes).
pub open spec fn shortened(b: Seq<u8>, max: nat) -> Seq<u8> {
    if b.len() <= max {
        b
    } else if max <= 3 {
        b.subrange(0, max as int)
    } else {
        let keep = (max - 3) as nat;
        let front = keep / 2;
        let back = (keep - front) as nat;
        b.subrange(0, front as int) + seq![46u8, 46u8, 46u8] + b.subrange(
            b.len() - back,
            b.len() as int,
        )
    }
}

/// The byte offsets at which [`shorten_middle`] cuts `s`.
pub open spec fn cut_points(len: nat, max: nat) -> (int, int) {
    let keep = (max - 3) as nat;
    let front = keep / 2;
    let back = (keep - front) as nat;
    (front as int, len - back)
}

/// Shortens a name to at most `max` bytes, keeping its start and end.
/// The cuts must fall on character boundaries.
pub fn shorten_middle(s: &str, max: usize) -> (r: String)
    requires
        encode_utf8(s@).len() > max ==> (if max <= 3 {
            vstd::utf8::is_char_boundary(encode_utf8(s@), max as int)
        } else {
            vstd::utf8::is_char_boundary(
                encode_utf8(s@),
                cut_points(encode_utf8(s@).len(), max as nat).0,
            ) && vstd::utf8::is_char_boundary(
                encode_utf8(s@),
                cut_points(encode_utf8(s@).len(), max as nat).1,
            )
        }),
    ensures
        encode_utf8(r@) == shortened(encode_utf8(s@), max as nat),
{
    let bytes = s.as_bytes();
    let len = bytes.len();
    if len <= max {
        return s.to_owned();
    }
    if max <= 3 {
        let (a, _) = s.split_at(max);
        return a.to_owned();
    }
    let keep = max - 3;
    let front = keep / 2;
    let back = keep - front;
    let (a, _) = s.split_at(front);
    let (_, c) = s.split_at(len - back);
    proof {
        reveal_strlit("...");
        assert("..."@ =~= seq!['.', '.', '.']);
        assert(encode_utf8(seq!['.', '.', '.']) =~= seq![46u8, 46u8, 46u8]) by {
            assert(('.' as u32) == 46u32);
            assert((46u32 & 0x7Fu32) as u8 == 46u8) by (bit_vector);
            assert(vstd::utf8::encode_scalar(46u32) =~= seq![46u8]);
            let d = seq!['.', '.', '.'];
            let e1 = d.drop_first();
            let e2 = e1.drop_first();
            let e3 = e2.drop_first();
            assert(e3 =~= Seq::<char>::empty());
            assert(encode_utf8(e3) =~= Seq::<u8>::empty());
            assert(e2[0] == '.' && e1[0] == '.' && d[0] == '.');
            assert(encode_utf8(e2) =~= vstd::utf8::encode_scalar(46u32) + encode_utf8(e3));
            assert(encode_utf8(e2) =~= seq![46u8]);
            assert(encode_utf8(e1) =~= vstd::utf8::encode_scalar(46u32) + encode_utf8(e2));
            assert(encode_utf8(d) =~= vstd::utf8::encode_scalar(46u32) + encode_utf8(e1));
        }
    }
    let mut r = a.to_owned();
    r.append("...");
    r.append(c);
    proof {
        lemma_encode_concat(a@, seq!['.', '.', '.']);
        lemma_encode_concat(a@ + seq!['.', '.', '.'], c@);
    }
    r
}

/// The status line under an empty result list.
pub open spec fn scan_status(
    scanning: bool,
    progress: Option<(usize, usize)>,
    recursive: bool,
    only_subdirs: bool,
) -> Seq<char> {
    let verb = if recursive {
        seq!['D', 'e', 'e', 'p', ' ', 's', 'c', 'a', 'n', 'n', 'i', 'n', 'g']
    } else {
        seq!['S', 'c', 'a', 'n', 'n', 'i', 'n', 'g']
    };
    if scanning {
        match progress {
            Some((s, t)) => if t > 0 {
                verb + seq!['.', '.', '.', ' '] + decimal_seq(s as nat) + seq![' ', '/', ' ']
                    + decimal_seq(t as nat)
            } else {
                verb + seq!['.', '.', '.', ' '] + decimal_seq(s as nat)
            },
            None => verb + seq!['.', '.', '.'],
        }
    } else if only_subdirs {
        seq![]
    } else {
        seq![
            'N',
            'o',
            ' ',
            'r',
            'e',
            's',
            'u',
            'l',
            't',
            's',
            ' ',
            '-',
            ' ',
            'a',
            'd',
            'j',
            'u',
            's',
            't',
            ' ',
            'f',
            'i',
            'l',
            't',
            'e',
            'r',
            's',
            '.',
        ]
    }
}

pub fn scan_status_text(
    scanning: bool,
    progress: Option<(usize, usize)>,
    recursive: bool,
    only_subdirs: bool,
) -> (r: String)
    ensures
        r@ == scan_status(scanning, progress, recursive, only_subdirs),
{
    proof {
        reveal_strlit("Deep scanning");
        reveal_strlit("Scanning");
        reveal_strlit("... ");
        reveal_strlit(" / ");
        reveal_strlit("...");
        reveal_strlit("No results - adjust filters.");
        assert("Deep scanning"@ =~= seq![
            'D', 'e', 'e', 'p', ' ', 's', 'c', 'a', 'n', 'n', 'i', 'n', 'g',
        ]);
        assert("Scanning"@ =~= seq!['S', 'c', 'a', 'n', 'n', 'i', 'n', 'g']);
        assert("... "@ =~= seq!['.', '.', '.', ' ']);
        assert(" / "@ =~= seq![' ', '/', ' ']);
        assert("..."@ =~= seq!['.', '.', '.']);
        assert("No results - adjust filters."@ =~= seq![
            'N', 'o', ' ', 'r', 'e', 's', 'u', 'l', 't', 's', ' ', '-', ' ', 'a', 'd', 'j', 'u',
            's', 't', ' ', 'f', 'i', 'l', 't', 'e', 'r', 's', '.',
        ]);
    }
    if scanning {
        let mut r = if recursive {
            "Deep scanning".to_owned()
        } else {
            "Scanning".to_owned()
        };
        match progress {
            Some((s, t)) => {
                r.append("... ");
                let ss = u64_to_decimal(s as u64);
                r.append(ss.as_str());
                if t > 0 {
                    r.append(" / ");
                    let ts = u64_to_decimal(t as u64);
                    r.append(ts.as_str());
                }
            },
            None => {
                r.append("...");
            },
        }
        r
    } else if only_subdirs {
        String::new()
    } else {
        "No results - adjust filters.".to_owned()
    }
}

/// The progress shown by the overlay: the scanned count capped at the
/// total when the total is known.
pub open spec fn shown_progress(p: Option<(usize, usize)>) -> Option<(usize, usize)> {
    match p {
        Some((s, t)) => if t > 0 && s > t {
            Some((t, t))
        } else {
            Some((s, t))
        },
        None => None,
    }
}

pub fn overlay_progress(p: Option<(usize, usize)>) -> (r: Option<(usize, usize)>)
    ensures
        r == shown_progress(p),
{
    match p {
        Some((s, t)) => if t > 0 && s > t {
            Some((t, t))
        } else {
            Some((s, t))
        },
        None => None,
    }
}

/// The badge of the progress overlay: "Idle" when a finished scan found no
/// media, "Done" when it found some, "Deep" or "Shallow" while scanning.
pub open spec fn overlay_badge_text(scanning: bool, recursive: bool, found: usize) -> Seq<char> {
    if !scanning && found == 0 {
        "Idle"@
    } else if !scanning {
        "Done"@
    } else if recursive {
        "Deep"@
    } else {
        "Shallow"@
    }
}

pub fn overlay_badge(scanning: bool, recursive: bool, found: usize) -> (r: String)
    ensures
        r@ == overlay_badge_text(scanning, recursive, found),
{
    if !scanning && found == 0 {
        "Idle".to_owned()
    } else if !scanning {
        "Done".to_owned()
    } else if recursive {
        "Deep".to_owned()
    } else {
        "Shallow".to_owned()
    }
}

/// The text `humansize` gives for a byte count in decimal units (kB, MB).
pub uninterp spec fn decimal_size(bytes: u64) -> Seq<char>;

/// Formats a byte count with `humansize::format_size` and the `DECIMAL`
/// options; the contract names the result, a function of the count alone.
#[verifier::external_body]
fn format_size_decimal(bytes: u64) -> (r: String)
    ensures
        r@ == decimal_size(bytes),
{
    humansize::format_size(bytes, humansize::DECIMAL)
}

/// The size shown in the details view: the decimal size, or "-" when it
/// is unknown.
pub fn size_text(size: Option<u64>) -> (r: String)
    ensures
        r@ == (match size {
            Some(n) => decimal_size(n),
            None => "-"@,
        }),
{
    match size {
        Some(n) => format_size_decimal(n),
        None => "-".to_owned(),
    }
}

/// The fields of one CSV export row: path, kind, modified, created, size
/// in bytes (0 when unknown). The two times come already formatted.
pub fn csv_record(
    path: &str,
    kind: &MediaKind,
    modified: &str,
    created: &str,
    size: Option<u64>,
) -> (r: Vec<String>)
    ensures
        r@.len() == 5,
        r@[0]@ == path@,
        r@[1]@ == kind_name(*kind),
        r@[2]@ == modified@,
        r@[3]@ == created@,
        r@[4]@ == decimal_seq(
            match size {
                Some(s) => s as nat,
                None => 0,
            },
        ),
{
    let mut r: Vec<String> = Vec::new();
    r.push(path.to_owned());
    r.push(kind_name_string(kind));
    r.push(modified.to_owned());
    r.push(created.to_owned());
    let n = match size {
        Some(s) => s,
        None => 0,
    };
    r.push(u64_to_decimal(n));
    r
}

/// The header row of the CSV export.
pub fn csv_header() -> (r: Vec<String>)
    ensures
        r@.len() == 5,
        r@[0]@ == seq!['p', 'a', 't', 'h'],
        r@[1]@ == seq!['k', 'i', 'n', 'd'],
        r@[2]@ == seq!['m', 'o', 'd', 'i', 'f', 'i', 'e', 'd'],
        r@[3]@ == seq!['c', 'r', 'e', 'a', 't', 'e', 'd'],
        r@[4]@ == seq!['s', 'i', 'z', 'e', '_', 'b', 'y', 't', 'e', 's'],
{
    proof {
        reveal_strlit("path");
        reveal_strlit("kind");
        reveal_strlit("modified");
        reveal_strlit("created");
        reveal_strlit("size_bytes");
        assert("path"@ =~= seq!['p', 'a', 't', 'h']);
        assert("kind"@ =~= seq!['k', 'i', 'n', 'd']);
        assert("modified"@ =~= seq!['m', 'o', 'd', 'i', 'f', 'i', 'e', 'd']);
        assert("created"@ =~= seq!['c', 'r', 'e', 'a', 't', 'e', 'd']);
        assert("size_bytes"@ =~= seq!['s', 'i', 'z', 'e', '_', 'b', 'y', 't', 'e', 's']);
    }
    let mut r: Vec<String> = Vec::new();
    r.push("path".to_owned());
    r.push("kind".to_owned());
    r.push("modified".to_owned());
    r.push("created".to_owned());
    r.push("size_bytes".to_owned());
    r
}

/// Whether bulk generation describes a row: not when the row already has
/// a description and overwriting is off, and only for image extensions
/// (compared in ASCII lowercase; a missing extension counts as empty).
pub open spec fn bulk_describes(
    overwrite: bool,
    has_description: bool,
    extension: Option<Seq<char>>,
    image_exts: Seq<Seq<char>>,
) -> bool {
    &&& (overwrite || !has_description)
    &&& image_exts.contains(
        match extension {
            Some(e) => ascii_lower_seq(e),
            None => seq![],
        },
    )
}

pub fn bulk_should_describe(
    overwrite: bool,
    has_description: bool,
    extension: Option<&str>,
    image_exts: &Vec<String>,
) -> (r: bool)
    ensures
        r == bulk_describes(
            overwrite,
            has_description,
            match extension {
                Some(e) => Some(e@),
                None => None,
            },
            views(image_exts@),
        ),
{
    if !overwrite && has_description {
        return false;
    }
    let ext = match extension {
        Some(e) => to_ascii_lowercase(e),
        None => String::new(),
    };
    let mut i: usize = 0;
    while i < image_exts.len()
        invariant
            i <= image_exts.len(),
            overwrite || !has_description,
            ext@ == (match extension {
                Some(e) => ascii_lower_seq(e@),
                None => Seq::<char>::empty(),
            }),
            forall|j: int| 0 <= j < i ==> image_exts@[j]@ != ext@,
        decreases image_exts.len() - i,
    {
        if str_eq(image_exts[i].as_str(), ext.as_str()) {
            assert(views(image_exts@)[i as int] == ext@);
            assert(views(image_exts@).contains(ext@));
            return true;
        }
        i = i + 1;
    }
    assert forall|j: int| 0 <= j < views(image_exts@).len() implies views(image_exts@)[j] != ext@ by {}
    false
}

/// Whether `char::is_alphanumeric` holds of a character.
pub uninterp spec fn is_alphanumeric_char(c: char) -> bool;

/// `str::to_lowercase` (full Unicode lowercase mapping).
pub uninterp spec fn unicode_lowercase(s: Seq<char>) -> Seq<char>;

/// Tests a character with `char::is_alphanumeric`; the contract names the
/// result, a function of the character alone.
#[verifier::external_body]
fn is_alphanumeric(c: char) -> (r: bool)
    ensures
        r == is_alphanumeric_char(c),
{
    c.is_alphanumeric()
}

/// Lowercases a string with `str::to_lowercase`; the contract names the
/// result, a function of the string alone.
#[verifier::external_body]
pub(crate) fn to_lowercase(s: &str) -> (r: String)
    ensures
        r@ == unicode_lowercase(s@),
{
    s.to_lowercase()
}

/// The characters of a prompt kept for a file name: alphanumerics and
/// spaces.
pub open spec fn slug_chars(s: Seq<char>) -> Seq<char> {
    s.filter(|c: char| is_alphanumeric_char(c) || c == ' ')
}

/// The whitespace-separated words of a text (`str::split_whitespace`).
pub open spec fn words(s: Seq<char>) -> Seq<Seq<char>>
    decreases s.len(),
{
    if s.len() == 0 {
        seq![]
    } else {
        let w = words(s.drop_last());
        let c = s.last();
        if is_ws(c) {
            w
        } else if s.len() >= 2 && !is_ws(s[s.len() - 2]) {
            w.drop_last().push(w.last().push(c))
        } else {
            w.push(seq![c])
        }
    }
}

fn split_words(v: &Vec<char>) -> (r: Vec<Vec<char>>)
    ensures
        r@.map_values(|w: Vec<char>| w@) == words(v@),
{
    let mut r: Vec<Vec<char>> = Vec::new();
    let mut cur: Vec<char> = Vec::new();
    let mut in_word = false;
    let mut i: usize = 0;
    while i < v.len()
        invariant
            i <= v.len(),
            in_word == (i > 0 && !is_ws(v@[i - 1])),
            in_word ==> words(v@.take(i as int)).len() > 0
                && words(v@.take(i as int)).last() == cur@
                && r@.map_values(|w: Vec<char>| w@) == words(v@.take(i as int)).drop_last(),
            !in_word ==> r@.map_values(|w: Vec<char>| w@) == words(v@.take(i as int)),
        decreases v.len() - i,
    {
        let c = v[i];
        let ghost t = v@.take(i + 1);
        assert(t.drop_last() =~= v@.take(i as int));
        assert(t.last() == c);
        if is_whitespace(c) {
            if in_word {
                let ghost before = r@.map_values(|w: Vec<char>| w@);
                let mut done: Vec<char> = Vec::new();
                std::mem::swap(&mut done, &mut cur);
                r.push(done);
                assert(r@.map_values(|w: Vec<char>| w@) =~= before.push(
                    words(v@.take(i as int)).last(),
                ));
                assert(words(v@.take(i as int)) =~= words(v@.take(i as int)).drop_last().push(
                    words(v@.take(i as int)).last(),
                ));
            }
            in_word = false;
        } else {
            if in_word {
                assert(t[t.len() - 2] == v@[i - 1]);
                cur.push(c);
            } else {
                if i > 0 {
                    assert(t[t.len() - 2] == v@[i - 1]);
                }
                cur = Vec::new();
                cur.push(c);
                assert(cur@ =~= seq![c]);
            }
            in_word = true;
            assert(words(t).last() == cur@);
            assert(r@.map_values(|w: Vec<char>| w@) =~= words(t).drop_last());
        }
        i = i + 1;
    }
    assert(v@.take(v.len() as int) =~= v@);
    if in_word {
        let ghost before = r@.map_values(|w: Vec<char>| w@);
        r.push(cur);
        assert(r@.map_values(|w: Vec<char>| w@) =~= before.push(words(v@).last()));
        assert(words(v@) =~= words(v@).drop_last().push(words(v@).last()));
    }
    r
}

/// The file name slug of a prompt: its first six words of alphanumerics,
/// joined by `_`, lowercased.
pub open spec fn prompt_slug(prompt: Seq<char>) -> Seq<char> {
    let ws = words(slug_chars(prompt));
    unicode_lowercase(
        join_seq(ws.take(if ws.len() < 6 { ws.len() as int } else { 6 }), seq!['_']),
    )
}

/// The file name of a generated image: `{slug}_{timestamp}.png`, or
/// `gen_{timestamp}.png` when the prompt gives no slug.
pub open spec fn generated_name(prompt: Seq<char>, timestamp: Seq<char>) -> Seq<char> {
    if prompt_slug(prompt).len() == 0 {
        seq!['g', 'e', 'n', '_'] + timestamp + seq!['.', 'p', 'n', 'g']
    } else {
        prompt_slug(prompt) + seq!['_'] + timestamp + seq!['.', 'p', 'n', 'g']
    }
}

pub fn generated_image_filename(prompt: &str, timestamp: &str) -> (r: String)
    ensures
        r@ == generated_name(prompt@, timestamp@),
{
    let v = to_chars(prompt);
    let mut kept: Vec<char> = Vec::new();
    let mut i: usize = 0;
    while i < v.len()
        invariant
            i <= v.len(),
            v@ == prompt@,
            kept@ == slug_chars(prompt@.take(i as int)),
        decreases v.len() - i,
    {
        let c = v[i];
        proof {
            reveal_with_fuel(Seq::<_>::filter, 1);
            assert(prompt@.take(i + 1).drop_last() =~= prompt@.take(i as int));
        }
        if is_alphanumeric(c) || c == ' ' {
            kept.push(c);
        }
        i = i + 1;
    }
    assert(prompt@.take(v.len() as int) =~= prompt@);
    let ws = split_words(&kept);
    let n = if ws.len() < 6 {
        ws.len()
    } else {
        6
    };
    let mut parts: Vec<String> = Vec::new();
    let mut k: usize = 0;
    while k < n
        invariant
            k <= n <= ws.len(),
            ws@.map_values(|w: Vec<char>| w@) == words(kept@),
            views(parts@) == words(kept@).take(k as int),
        decreases n - k,
    {
        let ghost before = views(parts@);
        parts.push(crate::text::from_chars(&ws[k]));
        assert(views(parts@) =~= before.push(ws@[k as int]@));
        assert(words(kept@).take(k + 1) =~= words(kept@).take(k as int).push(words(kept@)[k as int]));
        k = k + 1;
    }
    let mut us = String::new();
    push_char(&mut us, '_');
    let joined = join(&parts, us.as_str());
    let slug = to_lowercase(joined.as_str());
    proof {
        reveal_strlit("gen_");
        reveal_strlit(".png");
        assert("gen_"@ =~= seq!['g', 'e', 'n', '_']);
        assert(".png"@ =~= seq!['.', 'p', 'n', 'g']);
    }
    let mut r = String::new();
    if slug.as_str().is_empty() {
        r.append("gen_");
    } else {
        r.append(slug.as_str());
        r.append(us.as_str());
    }
    r.append(timestamp);
    r.append(".png");
    r
}

} // verus!
