//! Reading the output of the vision model: the JSON object it was asked
//! for, a description that is still being streamed, the fallback answer
//! when no JSON comes back, and the text synthesised from CLIP zero-shot
//! labels. Also the prompt and file name helpers around generation.
use vstd::prelude::*;
use crate::metadata::{
    description_needs_generation, description_too_short, FileMetadata, FileMetadataView,
    VisionDescription, VisionDescriptionView,
};
use crate::text::{
    ascii_lower_seq, contains_seq, is_blank, is_ws, is_whitespace, join, join_seq, lower_char,
    occurs_at, push_char, to_chars, trim, trim_seq, trim_start_seq, views,
};

verus! {

#[verifier::external_type_specification]
#[verifier::external_body]
pub struct ExJsonValue(serde_json::Value);

/// The JSON value that `serde_json` parses from a text, if the text is JSON.
pub uninterp spec fn json_value_of(text: Seq<char>) -> Option<serde_json::Value>;

/// Parses a JSON text.
/// Calls `serde_json::from_str::<serde_json::Value>`; the contract only
/// names its outcome, which depends on the text alone.
#[verifier::external_body]
fn parse_json_value(text: &str) -> (r: Option<serde_json::Value>)
    ensures
        r == json_value_of(text@),
{
    serde_json::from_str::<serde_json::Value>(text).ok()
}

/// Index of the first occurrence of `c`.
pub open spec fn first_index_of(s: Seq<char>, c: char, i: int) -> bool {
    0 <= i < s.len() && s[i] == c && forall|j: int| 0 <= j < i ==> s[j] != c
}

/// Index of the last occurrence of `c`.
pub open spec fn last_index_of(s: Seq<char>, c: char, i: int) -> bool {
    0 <= i < s.len() && s[i] == c && forall|j: int| i < j < s.len() ==> s[j] != c
}

/// The text from the first `{` to the last `}`, both included, when both
/// occur and the brace comes first.
pub open spec fn json_span(s: Seq<char>) -> Option<Seq<char>> {
    if exists|a: int, b: int| first_index_of(s, '{', a) && last_index_of(s, '}', b) && a < b {
        let (a, b) = choose|a: int, b: int|
            first_index_of(s, '{', a) && last_index_of(s, '}', b) && a < b;
        Some(s.subrange(a, b + 1))
    } else {
        None
    }
}

/// The JSON object embedded in the model output: the span from the first
/// `{` to the last `}` parsed as JSON.
pub fn extract_json_vision(raw: &str) -> (r: Option<serde_json::Value>)
    ensures
        r == match json_span(raw@) {
            Some(t) => json_value_of(t),
            None => None,
        },
{
    let v = to_chars(raw);
    let mut a: usize = 0;
    while a < v.len() && v[a] != '{'
        invariant
            a <= v.len(),
            forall|j: int| 0 <= j < a ==> v@[j] != '{',
        decreases v.len() - a,
    {
        a = a + 1;
    }
    if a == v.len() {
        assert(v@ == raw@);
        assert(!exists|x: int, y: int|
            first_index_of(raw@, '{', x) && last_index_of(raw@, '}', y) && x < y);
        return None;
    }
    let mut b: usize = v.len();
    while b > 0 && v[b - 1] != '}'
        invariant
            b <= v.len(),
            forall|j: int| b <= j < v.len() ==> v@[j] != '}',
        decreases b,
    {
        b = b - 1;
    }
    assert(v@ == raw@);
    if b == 0 || b - 1 <= a {
        assert forall|x: int, y: int|
            first_index_of(raw@, '{', x) && last_index_of(raw@, '}', y) implies !(x < y) by {
            assert(x == a as int);
            if b == 0 {
                assert(raw@[y] == '}');
            } else {
                assert(y == b - 1);
            }
        }
        return None;
    }
    proof {
        assert(first_index_of(raw@, '{', a as int));
        assert(last_index_of(raw@, '}', (b - 1) as int));
        let (x, y) = choose|x: int, y: int|
            first_index_of(raw@, '{', x) && last_index_of(raw@, '}', y) && x < y;
        assert(x == a as int);
        assert(y == b - 1);
    }
    let slice = crate::text::from_char_range(&v, a, b);
    parse_json_value(slice.as_str())
}

/// The text before the first `.` (all of it when there is none).
pub open spec fn before_first_period(s: Seq<char>) -> Seq<char> {
    if exists|i: int| first_index_of(s, '.', i) {
        s.subrange(0, choose|i: int| first_index_of(s, '.', i))
    } else {
        s
    }
}

/// The answer used when the model output holds no usable JSON: the whole
/// output trimmed as description, its text up to the first period trimmed
/// as caption, no tags, category "general".
pub fn fallback_vision_description(raw: &str) -> (r: VisionDescription)
    ensures
        r.description@ == trim_seq(raw@),
        r.caption@ == trim_seq(before_first_period(raw@)),
        r.tags@.len() == 0,
        r.category@ == seq!['g', 'e', 'n', 'e', 'r', 'a', 'l'],
{
    let v = to_chars(raw);
    let mut i: usize = 0;
    while i < v.len() && v[i] != '.'
        invariant
            i <= v.len(),
            forall|j: int| 0 <= j < i ==> v@[j] != '.',
        decreases v.len() - i,
    {
        i = i + 1;
    }
    assert(v@ == raw@);
    if i < v.len() {
        assert(first_index_of(raw@, '.', i as int));
        assert(before_first_period(raw@) =~= raw@.subrange(0, i as int)) by {
            let k = choose|k: int| first_index_of(raw@, '.', k);
            assert(k == i as int);
        }
    } else {
        assert(!exists|k: int| first_index_of(raw@, '.', k));
        assert(v@.subrange(0, i as int) =~= raw@);
    }
    let head = crate::text::from_char_range(&v, 0, i);
    proof {
        reveal_strlit("general");
        assert("general"@ =~= seq!['g', 'e', 'n', 'e', 'r', 'a', 'l']);
    }
    VisionDescription {
        description: trim(raw),
        caption: trim(head.as_str()),
        tags: Vec::new(),
        category: "general".to_owned(),
    }
}

/// The JSON key `"description"` (with its quotes).
pub open spec fn description_key() -> Seq<char> {
    seq!['"', 'd', 'e', 's', 'c', 'r', 'i', 'p', 't', 'i', 'o', 'n', '"']
}

/// The first index at which `needle` occurs in `s`.
pub open spec fn first_occurrence(s: Seq<char>, needle: Seq<char>) -> Option<int> {
    if contains_seq(s, needle) {
        Some(
            choose|i: int|
                occurs_at(s, needle, i) && forall|j: int| 0 <= j < i ==> !occurs_at(s, needle, j),
        )
    } else {
        None
    }
}

/// The characters of a JSON string body read so far: backslash escapes
/// keep the escaped character; returns the text and whether the closing
/// quote was reached.
pub open spec fn string_body(s: Seq<char>, escaped: bool) -> (Seq<char>, bool)
    decreases s.len(),
{
    if s.len() == 0 {
        (seq![], false)
    } else if escaped {
        let (rest, closed) = string_body(s.drop_first(), false);
        (seq![s[0]] + rest, closed)
    } else if s[0] == '\\' {
        string_body(s.drop_first(), true)
    } else if s[0] == '"' {
        (seq![], true)
    } else {
        let (rest, closed) = string_body(s.drop_first(), false);
        (seq![s[0]] + rest, closed)
    }
}

/// The value of the `"description"` key of a JSON object that may still be
/// arriving: found through an ASCII case-insensitive search for the quoted
/// key, then a colon and an opening quote, whitespace allowed around the
/// colon. The complete value once its closing quote has arrived; before
/// that, what has arrived if it is not empty.
pub open spec fn partial_description(stream: Seq<char>) -> Option<Seq<char>> {
    match first_occurrence(ascii_lower_seq(stream), description_key()) {
        None => None,
        Some(kp) => {
            let a = trim_start_seq(stream.subrange(kp + 13, stream.len() as int));
            if a.len() == 0 || a[0] != ':' {
                None
            } else {
                let b = trim_start_seq(a.drop_first());
                if b.len() == 0 || b[0] != '"' {
                    None
                } else {
                    let (d, closed) = string_body(b.drop_first(), false);
                    if closed {
                        Some(d)
                    } else if d.len() == 0 {
                        None
                    } else {
                        Some(d)
                    }
                }
            }
        },
    }
}

proof fn lemma_skip_ws(s: Seq<char>, i: int, j: int)
    requires
        0 <= i <= j <= s.len(),
        forall|k: int| i <= k < j ==> is_ws(s[k]),
        j == s.len() || !is_ws(s[j]),
    ensures
        trim_start_seq(s.subrange(i, s.len() as int)) == s.subrange(j, s.len() as int),
    decreases j - i,
{
    if i < j {
        assert(s.subrange(i, s.len() as int).drop_first() =~= s.subrange(i + 1, s.len() as int));
        lemma_skip_ws(s, i + 1, j);
    } else if j < s.len() {
        assert(s.subrange(j, s.len() as int)[0] == s[j]);
    }
}

fn skip_ws_from(v: &Vec<char>, i: usize) -> (r: usize)
    requires
        i <= v.len(),
    ensures
        i <= r <= v.len(),
        trim_start_seq(v@.subrange(i as int, v.len() as int)) == v@.subrange(
            r as int,
            v.len() as int,
        ),
{
    let mut j = i;
    while j < v.len() && is_whitespace(v[j])
        invariant
            i <= j <= v.len(),
            forall|k: int| i <= k < j ==> is_ws(v@[k]),
        decreases v.len() - j,
    {
        j = j + 1;
    }
    proof {
        lemma_skip_ws(v@, i as int, j as int);
    }
    j
}

/// Reads a JSON string body from `v[i..]`.
fn read_string_body(v: &Vec<char>, i: usize) -> (r: (Vec<char>, bool))
    requires
        i <= v.len(),
    ensures
        (r.0@, r.1) == string_body(v@.subrange(i as int, v.len() as int), false),
{
    let mut out: Vec<char> = Vec::new();
    let mut j = i;
    let mut escaped = false;
    loop
        invariant
            i <= j <= v.len(),
            string_body(v@.subrange(i as int, v.len() as int), false) == ({
                let (rest, closed) = string_body(v@.subrange(j as int, v.len() as int), escaped);
                (out@ + rest, closed)
            }),
        decreases v.len() - j,
    {
        let ghost s = v@.subrange(j as int, v.len() as int);
        if j == v.len() {
            return (out, false);
        }
        assert(s.drop_first() =~= v@.subrange(j + 1, v.len() as int));
        assert(s[0] == v@[j as int]);
        let c = v[j];
        if escaped {
            out.push(c);
            escaped = false;
        } else if c == '\\' {
            escaped = true;
        } else if c == '"' {
            return (out, true);
        } else {
            out.push(c);
        }
        proof {
            assert forall|x: Seq<char>, y: Seq<char>| x.push(c) + y =~= x + (seq![c] + y) by {}
        }
        j = j + 1;
    }
}

/// The value of the `"description"` key in a possibly incomplete JSON
/// stream, as the preview shows it while the model is still writing.
pub fn extract_partial_description(stream: &str) -> (r: Option<String>)
    ensures
        match r {
            Some(d) => partial_description(stream@) == Some(d@),
            None => partial_description(stream@) is None,
        },
{
    let v = to_chars(stream);
    let mut lower: Vec<char> = Vec::new();
    let mut i: usize = 0;
    while i < v.len()
        invariant
            i <= v.len(),
            lower@ == ascii_lower_seq(v@).take(i as int),
        decreases v.len() - i,
    {
        lower.push(lower_char(v[i]));
        assert(ascii_lower_seq(v@).take(i + 1) =~= ascii_lower_seq(v@).take(i as int).push(
            crate::text::ascii_lower(v@[i as int]),
        ));
        i = i + 1;
    }
    assert(lower@ =~= ascii_lower_seq(stream@));
    let key: Vec<char> = vec!['"', 'd', 'e', 's', 'c', 'r', 'i', 'p', 't', 'i', 'o', 'n', '"'];
    assert(key@ =~= description_key());
    let kp = match crate::text::find_chars(&lower, &key) {
        None => {
            return None;
        },
        Some(kp) => kp,
    };
    proof {
        let k2 = choose|k: int|
            occurs_at(ascii_lower_seq(stream@), description_key(), k) && forall|j: int|
                0 <= j < k ==> !occurs_at(ascii_lower_seq(stream@), description_key(), j);
        assert(k2 == kp as int);
    }
    let after = kp + 13;
    let a = skip_ws_from(&v, after);
    if a == v.len() || v[a] != ':' {
        return None;
    }
    let ghost aseq = v@.subrange(a as int, v.len() as int);
    assert(aseq.drop_first() =~= v@.subrange(a + 1, v.len() as int));
    let b = skip_ws_from(&v, a + 1);
    if b == v.len() || v[b] != '"' {
        return None;
    }
    let ghost bseq = v@.subrange(b as int, v.len() as int);
    assert(bseq.drop_first() =~= v@.subrange(b + 1, v.len() as int));
    let (body, closed) = read_string_body(&v, b + 1);
    if closed {
        Some(crate::text::from_chars(&body))
    } else if body.len() == 0 {
        None
    } else {
        Some(crate::text::from_chars(&body))
    }
}

/// Adds the zero-shot labels to a tag list that has fewer than two tags,
/// skipping labels already present; longer lists are left alone.
pub open spec fn merged_tags(existing: Seq<Seq<char>>, labels: Seq<Seq<char>>) -> Seq<Seq<char>>
    decreases labels.len(),
{
    if existing.len() >= 2 {
        existing
    } else {
        add_missing(existing, labels)
    }
}

/// `existing` followed by the labels not already in it (nor earlier among
/// the labels), in order.
pub open spec fn add_missing(existing: Seq<Seq<char>>, labels: Seq<Seq<char>>) -> Seq<Seq<char>>
    decreases labels.len(),
{
    if labels.len() == 0 {
        existing
    } else {
        let prev = add_missing(existing, labels.drop_last());
        if prev.contains(labels.last()) {
            prev
        } else {
            prev.push(labels.last())
        }
    }
}

fn contains_string(v: &Vec<String>, s: &String) -> (r: bool)
    ensures
        r == views(v@).contains(s@),
{
    let mut i: usize = 0;
    while i < v.len()
        invariant
            i <= v.len(),
            forall|j: int| 0 <= j < i ==> v@[j]@ != s@,
        decreases v.len() - i,
    {
        if v[i] == *s {
            assert(views(v@)[i as int] == s@);
            return true;
        }
        i = i + 1;
    }
    assert forall|j: int| 0 <= j < views(v@).len() implies views(v@)[j] != s@ by {}
    false
}

/// Merges CLIP zero-shot labels into a record's tags.
pub fn merge_zero_shot_tags(tags: &mut Vec<String>, labels: &Vec<String>)
    ensures
        views(final(tags)@) == merged_tags(views(old(tags)@), views(labels@)),
{
    if tags.len() >= 2 {
        return;
    }
    let mut i: usize = 0;
    while i < labels.len()
        invariant
            i <= labels.len(),
            views(tags@) == add_missing(views(old(tags)@), views(labels@).take(i as int)),
        decreases labels.len() - i,
    {
        assert(views(labels@).take(i + 1).drop_last() =~= views(labels@).take(i as int));
        if !contains_string(tags, &labels[i]) {
            let ghost before = views(tags@);
            tags.push(labels[i].clone());
            assert(views(tags@) =~= before.push(labels@[i as int]@));
        }
        i = i + 1;
    }
    assert(views(labels@).take(labels.len() as int) =~= views(labels@));
}

/// The short description made from CLIP results when a record has no
/// usable description: the non-blank category and the first five tags.
pub open spec fn clip_description(category: Option<String>, tags: Seq<Seq<char>>) -> Seq<char> {
    let listed = join_seq(tags.take(if tags.len() < 5 { tags.len() as int } else { 5 }), seq![',', ' ']);
    let cat = match category {
        Some(c) => if is_blank(c@) {
            None
        } else {
            Some(c@)
        },
        None => None,
    };
    match cat {
        Some(c) => if tags.len() > 0 {
            c + seq![' ', '\u{2013}', ' ', 't', 'a', 'g', 's', ':', ' '] + listed + seq!['.']
        } else {
            c + seq![' ', 'i', 'm', 'a', 'g', 'e', '.']
        },
        None => if tags.len() > 0 {
            seq!['I', 'm', 'a', 'g', 'e', ' ', 'w', 'i', 't', 'h', ' ', 't', 'a', 'g', 's', ':', ' ']
                + listed + seq!['.']
        } else {
            seq![
                'I',
                'm',
                'a',
                'g',
                'e',
                ' ',
                '(',
                'C',
                'L',
                'I',
                'P',
                ' ',
                'e',
                'm',
                'b',
                'e',
                'd',
                'd',
                'i',
                'n',
                'g',
                ' ',
                'g',
                'e',
                'n',
                'e',
                'r',
                'a',
                't',
                'e',
                'd',
                ')',
                '.',
            ]
        },
    }
}

pub fn synthesize_clip_description(category: &Option<String>, tags: &Vec<String>) -> (r: String)
    ensures
        r@ == clip_description(*category, views(tags@)),
{
    let n = if tags.len() < 5 {
        tags.len()
    } else {
        5
    };
    let mut first: Vec<String> = Vec::new();
    let mut i: usize = 0;
    while i < n
        invariant
            i <= n <= tags.len(),
            views(first@) == views(tags@).take(i as int),
        decreases n - i,
    {
        let ghost before = views(first@);
        first.push(tags[i].clone());
        assert(views(first@) =~= before.push(tags@[i as int]@));
        assert(views(tags@).take(i + 1) =~= views(tags@).take(i as int).push(tags@[i as int]@));
        i = i + 1;
    }
    proof {
        reveal_strlit(", ");
        reveal_strlit(" \u{2013} tags: ");
        reveal_strlit(" image.");
        reveal_strlit("Image with tags: ");
        reveal_strlit("Image (CLIP embedding generated).");
        reveal_strlit(".");
        assert(", "@ =~= seq![',', ' ']);
        assert(" \u{2013} tags: "@ =~= seq![' ', '\u{2013}', ' ', 't', 'a', 'g', 's', ':', ' ']);
        assert(" image."@ =~= seq![' ', 'i', 'm', 'a', 'g', 'e', '.']);
        assert("Image with tags: "@ =~= seq![
            'I', 'm', 'a', 'g', 'e', ' ', 'w', 'i', 't', 'h', ' ', 't', 'a', 'g', 's', ':', ' ',
        ]);
        assert("."@ =~= seq!['.']);
        assert("Image (CLIP embedding generated)."@ =~= seq![
            'I', 'm', 'a', 'g', 'e', ' ', '(', 'C', 'L', 'I', 'P', ' ', 'e', 'm', 'b', 'e', 'd',
            'd', 'i', 'n', 'g', ' ', 'g', 'e', 'n', 'e', 'r', 'a', 't', 'e', 'd', ')', '.',
        ]);
    }
    let listed = join(&first, ", ");
    let cat: Option<&String> = match category {
        Some(c) => if crate::text::blank(c.as_str()) {
            None
        } else {
            Some(c)
        },
        None => None,
    };
    let mut r = String::new();
    match cat {
        Some(c) => {
            r.append(c.as_str());
            if tags.len() > 0 {
                r.append(" \u{2013} tags: ");
                r.append(listed.as_str());
                r.append(".");
            } else {
                r.append(" image.");
            }
        },
        None => {
            if tags.len() > 0 {
                r.append("Image with tags: ");
                r.append(listed.as_str());
                r.append(".");
            } else {
                r.append("Image (CLIP embedding generated).");
            }
        },
    }
    assert(r@ =~= clip_description(*category, views(tags@)));
    r
}

/// The request sent with an image to the general vision model.
pub open spec fn vision_request() -> Seq<char> {
    "Analyze this image, and please include a list of one-word tags, along with a category of the image."@
}

pub fn vision_request_text() -> (r: String)
    ensures
        r@ == vision_request(),
{
    "Analyze this image, and please include a list of one-word tags, along with a category of the image.".to_owned()
}

/// The error text of a chat template that cannot join an image part and a
/// text part of one message.
pub open spec fn multipart_template_error() -> Seq<char> {
    "tried to use + operator on unsupported types string and sequence"@
}

/// Whether a model error says that its chat template rejected an image and
/// a text in one message, so that the prompt is to be flattened into text.
pub fn needs_flattened_prompt(error_text: &str) -> (r: bool)
    ensures
        r == contains_seq(error_text@, multipart_template_error()),
{
    crate::text::contains(error_text, "tried to use + operator on unsupported types string and sequence")
}

/// The single text message that carries the image as a data URL followed
/// by the user's request.
pub open spec fn flattened_prompt(data_url: Seq<char>, request: Seq<char>) -> Seq<char> {
    "You are an image analyst. The user has supplied an image as a base64 data URL below.\n\nIMAGE_DATA_URL:\n"@
        + data_url + "User request: "@ + request + "\n"@
}

pub fn flattened_vision_prompt(data_url: &str, request: &str) -> (r: String)
    ensures
        r@ == flattened_prompt(data_url@, request@),
{
    let mut r = "You are an image analyst. The user has supplied an image as a base64 data URL below.\n\nIMAGE_DATA_URL:\n".to_owned();
    r.append(data_url);
    r.append("User request: ");
    r.append(request);
    r.append("\n");
    r
}

/// Applies a computed CLIP embedding to a record: the embedding is kept,
/// the zero-shot `labels` complete a tag list shorter than two, the
/// zero-shot `category` fills a missing category, and, when `synthesize`
/// is set and the record's description is missing or too short, a
/// description is made from the resulting category and tags.
pub fn apply_clip_result(
    m: &mut FileMetadata,
    embedding: Vec<u32>,
    labels: &Vec<String>,
    category: Option<String>,
    synthesize: bool,
)
    ensures
        final(m)@ == (FileMetadataView {
            clip_embedding: final(m)@.clip_embedding,
            tags: final(m)@.tags,
            category: final(m)@.category,
            description: final(m)@.description,
            ..old(m)@
        }),
        final(m)@.clip_embedding == Some(embedding@),
        views(final(m)@.tags) == merged_tags(views(old(m)@.tags), views(labels@)),
        final(m)@.category == (if old(m)@.category is None {
            category
        } else {
            old(m)@.category
        }),
        if synthesize && description_too_short(old(m)@.description) {
            &&& final(m)@.description is Some
            &&& final(m)@.description->0@ == clip_description(final(m)@.category, views(final(m)@.tags))
        } else {
            final(m)@.description == old(m)@.description
        },
{
    m.clip_embedding = Some(embedding);
    merge_zero_shot_tags(&mut m.tags, labels);
    if m.category.is_none() {
        m.category = category;
    }
    if synthesize && description_needs_generation(&m.description) {
        let d = synthesize_clip_description(&m.category, &m.tags);
        m.description = Some(d);
    }
}

} // verus!
