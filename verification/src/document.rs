//! The text document stored in the semantic index for each file: a block
//! of `KEY:value` header lines (machine and AI data) followed by the
//! searchable body, and the recovery of the file path from a search hit.
use vstd::prelude::*;
use crate::metadata::{FileMetadata, FileMetadataView};
use crate::text::{
    decimal_seq, join, join_seq, push_char, replace_char, replace_char_seq, to_chars, trim, trim_seq,
    u64_to_decimal, views,
};

verus! {

/// The optional text as a list of at most one part.
pub open spec fn opt_part(o: Option<String>) -> Seq<Seq<char>> {
    match o {
        Some(s) => seq![s@],
        None => seq![],
    }
}

/// The parts of the searchable text, in order: file name, description,
/// caption, extracted text, segments, tags.
pub open spec fn searchable_parts(m: FileMetadataView) -> Seq<Seq<char>> {
    seq![m.filename@] + opt_part(m.description) + opt_part(m.caption) + opt_part(m.text_content)
        + match m.segments {
        Some(s) => views(s),
        None => seq![],
    } + views(m.tags)
}

/// The searchable text of a record: its parts joined by single spaces.
pub open spec fn searchable_text(m: FileMetadataView) -> Seq<char> {
    join_seq(searchable_parts(m), seq![' '])
}

/// `p` stands in the space-separated text `r` at `i` as a whole part:
/// the text there is `p`, with a space or the start of `r` before it and a
/// space or the end of `r` after it.
pub open spec fn is_part_at(r: Seq<char>, p: Seq<char>, i: int) -> bool {
    &&& 0 <= i
    &&& i + p.len() <= r.len()
    &&& r.subrange(i, i + p.len()) == p
    &&& (i == 0 || r[i - 1] == ' ')
    &&& (i + p.len() == r.len() || r[i + p.len()] == ' ')
}

/// `p` stands somewhere in `r` as a whole space-separated part.
pub open spec fn has_part(r: Seq<char>, p: Seq<char>) -> bool {
    exists|i: int| #[trigger] is_part_at(r, p, i)
}

/// Where part `k` starts in the parts joined by spaces.
pub open spec fn part_offset(parts: Seq<Seq<char>>, k: int) -> int {
    if k == 0 {
        0
    } else {
        join_seq(parts.take(k), seq![' ']).len() + 1int
    }
}

proof fn lemma_join_part(parts: Seq<Seq<char>>, k: int)
    requires
        0 <= k < parts.len(),
    ensures
        is_part_at(join_seq(parts, seq![' ']), parts[k], part_offset(parts, k)),
    decreases parts.len(),
{
    let r = join_seq(parts, seq![' ']);
    if parts.len() == 1 {
        assert(r == parts[0]);
        assert(r.subrange(0, r.len() as int) =~= r);
    } else {
        let front = parts.drop_last();
        let j = join_seq(front, seq![' ']);
        assert(r == j + seq![' '] + parts.last());
        if k == parts.len() - 1 {
            assert(parts.take(k) =~= front);
            let i: int = j.len() + 1int;
            assert(r.subrange(i, i + parts[k].len()) =~= parts.last());
            assert(r[i - 1] == ' ');
        } else {
            lemma_join_part(front, k);
            assert(front.take(k) =~= parts.take(k));
            assert(front[k] == parts[k]);
            let i = part_offset(parts, k);
            assert(r.subrange(i, i + parts[k].len()) =~= j.subrange(i, i + parts[k].len()));
            if i > 0 {
                assert(r[i - 1] == j[i - 1]);
            }
            if i + parts[k].len() < j.len() {
                assert(r[i + parts[k].len()] == j[i + parts[k].len()]);
            }
        }
    }
}

proof fn lemma_offsets_increase(parts: Seq<Seq<char>>, a: int, b: int)
    requires
        0 <= a < b < parts.len(),
    ensures
        part_offset(parts, a) < part_offset(parts, b),
    decreases b - a,
{
    if b - 1 > a {
        lemma_offsets_increase(parts, a, b - 1);
    }
    let c = b - 1;
    if c >= 1 {
        let t = parts.take(b);
        assert(t.drop_last() =~= parts.take(c));
        assert(join_seq(t, seq![' ']) == join_seq(parts.take(c), seq![' ']) + seq![' '] + t.last());
    }
}

/// The searchable text holds each of the record's texts as a whole
/// space-separated part: the file name first, then its description,
/// caption and extracted text in that order.
#[verifier::spinoff_prover]
pub proof fn lemma_searchable_text_holds_each_field(m: FileMetadataView)
    ensures
        is_part_at(searchable_text(m), m.filename@, 0),
        m.description is Some ==> exists|i: int| #[trigger] is_part_at(searchable_text(m), m.description->0@, i),
        m.caption is Some ==> exists|i: int|
            #[trigger] is_part_at(searchable_text(m), m.caption->0@, i) && (m.description is Some ==> exists|j: int|
                j < i && #[trigger] is_part_at(searchable_text(m), m.description->0@, j)),
        m.text_content is Some ==> exists|i: int|
            #[trigger] is_part_at(searchable_text(m), m.text_content->0@, i) && (m.caption is Some ==> exists|j: int|
                j < i && #[trigger] is_part_at(searchable_text(m), m.caption->0@, j)) && (m.description is Some
                ==> exists|j: int| j < i && #[trigger] is_part_at(searchable_text(m), m.description->0@, j)),
{
    let parts = searchable_parts(m);
    let nd = opt_part(m.description).len() as int;
    let nc = opt_part(m.caption).len() as int;
    let st = searchable_text(m);
    assert(parts[0] == m.filename@);
    lemma_join_part(parts, 0);
    let od = part_offset(parts, 1);
    let oc = part_offset(parts, 1 + nd);
    let ot = part_offset(parts, 1 + nd + nc);
    if m.description is Some {
        assert(parts[1] == m.description->0@);
        lemma_join_part(parts, 1);
        assert(is_part_at(st, m.description->0@, od));
    }
    if m.caption is Some {
        assert(parts[1 + nd] == m.caption->0@);
        lemma_join_part(parts, 1 + nd);
        assert(is_part_at(st, m.caption->0@, oc));
        if m.description is Some {
            lemma_offsets_increase(parts, 1, 1 + nd);
            assert(od < oc);
        }
    }
    if m.text_content is Some {
        let k = 1 + nd + nc;
        assert(parts[k] == m.text_content->0@);
        lemma_join_part(parts, k);
        assert(is_part_at(st, m.text_content->0@, ot));
        if m.caption is Some {
            lemma_offsets_increase(parts, 1 + nd, k);
            assert(oc < ot);
        }
        if m.description is Some {
            lemma_offsets_increase(parts, 1, k);
            assert(od < ot);
        }
    }
}

/// The searchable text also holds every segment and every tag of the
/// record as a whole space-separated part.
#[verifier::spinoff_prover]
pub proof fn lemma_searchable_text_holds_tags_and_segments(m: FileMetadataView)
    ensures
        forall|k: int| 0 <= k < m.tags.len() ==> has_part(searchable_text(m), #[trigger] m.tags[k]@),
        m.segments is Some ==> forall|k: int|
            0 <= k < m.segments->0.len() ==> has_part(searchable_text(m), #[trigger] m.segments->0[k]@),
{
    let parts = searchable_parts(m);
    let nd = opt_part(m.description).len() as int;
    let nc = opt_part(m.caption).len() as int;
    let nt = opt_part(m.text_content).len() as int;
    let segs = match m.segments {
        Some(s) => views(s),
        None => seq![],
    };
    let r = searchable_text(m);
    let base = 1 + nd + nc + nt + segs.len();
    assert forall|k: int| 0 <= k < m.tags.len() implies has_part(searchable_text(m), #[trigger] m.tags[k]@) by {
        assert(parts[base + k] == m.tags[k]@);
        lemma_join_part(parts, base + k);
        assert(is_part_at(r, m.tags[k]@, part_offset(parts, base + k)));
    }
    if m.segments is Some {
        assert forall|k: int| 0 <= k < m.segments->0.len() implies has_part(
            searchable_text(m),
            #[trigger] m.segments->0[k]@,
        ) by {
            assert(parts[1 + nd + nc + nt + k] == m.segments->0[k]@);
            lemma_join_part(parts, 1 + nd + nc + nt + k);
            assert(is_part_at(r, m.segments->0[k]@, part_offset(parts, 1 + nd + nc + nt + k)));
        }
    }
}

fn push_opt(parts: &mut Vec<String>, o: &Option<String>)
    ensures
        views(final(parts)@) == views(old(parts)@) + opt_part(*o),
{
    let ghost before = views(parts@);
    match o {
        Some(s) => {
            parts.push(s.clone());
            assert(views(parts@) =~= before + opt_part(*o));
        },
        None => {
            assert(views(parts@) =~= before + opt_part(*o));
        },
    }
}

fn push_all(parts: &mut Vec<String>, v: &Vec<String>)
    ensures
        views(final(parts)@) == views(old(parts)@) + views(v@),
{
    let ghost before = views(parts@);
    let mut i: usize = 0;
    while i < v.len()
        invariant
            i <= v.len(),
            views(parts@) == before + views(v@).take(i as int),
        decreases v.len() - i,
    {
        let ghost b2 = views(parts@);
        parts.push(v[i].clone());
        assert(views(parts@) =~= b2.push(v@[i as int]@));
        assert(views(v@).take(i + 1) =~= views(v@).take(i as int).push(v@[i as int]@));
        i = i + 1;
    }
    assert(views(v@).take(v.len() as int) =~= views(v@));
}

/// The searchable text of a record.
pub fn get_searchable_text(m: &FileMetadata) -> (r: String)
    ensures
        r@ == searchable_text(m@),
{
    let mut parts: Vec<String> = Vec::new();
    parts.push(m.filename.clone());
    assert(views(parts@) =~= seq![m.filename@]);
    push_opt(&mut parts, &m.description);
    push_opt(&mut parts, &m.caption);
    push_opt(&mut parts, &m.text_content);
    match &m.segments {
        Some(s) => push_all(&mut parts, s),
        None => {},
    }
    push_all(&mut parts, &m.tags);
    let mut sep = String::new();
    push_char(&mut sep, ' ');
    assert(views(parts@) =~= searchable_parts(m@));
    join(&parts, sep.as_str())
}

pub open spec fn key_file_path() -> Seq<char> {
    seq!['F', 'I', 'L', 'E', '_', 'P', 'A', 'T', 'H', ':']
}

/// A header line `key` + `value` + newline.
pub open spec fn header_line(key: Seq<char>, value: Seq<char>) -> Seq<char> {
    key + value + seq!['\n']
}

/// An optional text with line breaks turned into spaces; empty when absent.
pub open spec fn flat_text(o: Option<String>) -> Seq<char> {
    match o {
        Some(s) => replace_char_seq(s@, '\n', ' '),
        None => seq![],
    }
}

/// The header block of the document of a record.
pub open spec fn document_header(m: FileMetadataView) -> Seq<char> {
    header_line(key_file_path(), m.path@)
    + header_line(seq!['H', 'A', 'S', 'H', ':'], match m.hash {
        Some(h) => h@,
        None => seq![],
    })
    + header_line(seq!['F', 'I', 'L', 'E', '_', 'T', 'Y', 'P', 'E', ':'], m.file_type@)
    + header_line(seq!['F', 'I', 'L', 'E', '_', 'S', 'I', 'Z', 'E', ':'], decimal_seq(m.size as nat))
    + header_line(seq!['C', 'A', 'T', 'E', 'G', 'O', 'R', 'Y', ':'], flat_text(m.category))
    + header_line(seq!['C', 'A', 'P', 'T', 'I', 'O', 'N', ':'], flat_text(m.caption))
    + header_line(seq!['T', 'A', 'G', 'S', ':'], join_seq(views(m.tags), seq!['|']))
    + header_line(seq!['S', 'E', 'G', 'M', 'E', 'N', 'T', 'S', ':'], match m.segments {
        Some(s) => join_seq(views(s), seq!['|']),
        None => seq![],
    })
    + header_line(seq!['D', 'E', 'S', 'C', 'R', 'I', 'P', 'T', 'I', 'O', 'N', ':'], flat_text(m.description))
    + header_line(seq!['O', 'C', 'R', ':'], flat_text(m.text_content))
}

/// The full document of a record: header, an empty line, searchable text.
pub open spec fn document_body(m: FileMetadataView) -> Seq<char> {
    document_header(m) + seq!['\n'] + searchable_text(m)
}

fn append_chars(s: &mut String, cs: &[char])
    ensures
        final(s)@ == old(s)@ + cs@,
{
    let mut i: usize = 0;
    while i < cs.len()
        invariant
            i <= cs.len(),
            s@ == old(s)@ + cs@.take(i as int),
        decreases cs.len() - i,
    {
        push_char(s, cs[i]);
        assert(cs@.take(i + 1) =~= cs@.take(i as int).push(cs@[i as int]));
        i = i + 1;
    }
    assert(cs@.take(cs.len() as int) =~= cs@);
}

fn append_line(s: &mut String, key: &[char], value: &str)
    ensures
        final(s)@ == old(s)@ + header_line(key@, value@),
{
    append_chars(s, key);
    s.append(value);
    push_char(s, '\n');
    assert(s@ =~= old(s)@ + header_line(key@, value@));
}

fn flat_text_exec(o: &Option<String>) -> (r: String)
    ensures
        r@ == flat_text(*o),
{
    match o {
        Some(t) => replace_char(t.as_str(), '\n', ' '),
        None => String::new(),
    }
}

/// The document stored for a record in the semantic index, or `None` when
/// its searchable text is empty (such records are not stored).
pub fn semantic_document(m: &FileMetadata) -> (r: Option<String>)
    ensures
        match r {
            Some(d) => searchable_text(m@).len() > 0 && d@ == document_body(m@),
            None => searchable_text(m@).len() == 0,
        },
{
    let searchable = get_searchable_text(m);
    if searchable.as_str().is_empty() {
        return None;
    }
    let mut bar = String::new();
    push_char(&mut bar, '|');
    let mut d = String::new();
    append_line(&mut d, &['F', 'I', 'L', 'E', '_', 'P', 'A', 'T', 'H', ':'], m.path.as_str());
    let hash = match &m.hash {
        Some(h) => h.clone(),
        None => String::new(),
    };
    append_line(&mut d, &['H', 'A', 'S', 'H', ':'], hash.as_str());
    append_line(&mut d, &['F', 'I', 'L', 'E', '_', 'T', 'Y', 'P', 'E', ':'], m.file_type.as_str());
    let size = u64_to_decimal(m.size);
    append_line(&mut d, &['F', 'I', 'L', 'E', '_', 'S', 'I', 'Z', 'E', ':'], size.as_str());
    let cat = flat_text_exec(&m.category);
    append_line(&mut d, &['C', 'A', 'T', 'E', 'G', 'O', 'R', 'Y', ':'], cat.as_str());
    let cap = flat_text_exec(&m.caption);
    append_line(&mut d, &['C', 'A', 'P', 'T', 'I', 'O', 'N', ':'], cap.as_str());
    let tags = join(&m.tags, bar.as_str());
    append_line(&mut d, &['T', 'A', 'G', 'S', ':'], tags.as_str());
    let segs = match &m.segments {
        Some(s) => join(s, bar.as_str()),
        None => String::new(),
    };
    append_line(&mut d, &['S', 'E', 'G', 'M', 'E', 'N', 'T', 'S', ':'], segs.as_str());
    let desc = flat_text_exec(&m.description);
    append_line(
        &mut d,
        &['D', 'E', 'S', 'C', 'R', 'I', 'P', 'T', 'I', 'O', 'N', ':'],
        desc.as_str(),
    );
    let ocr = flat_text_exec(&m.text_content);
    append_line(&mut d, &['O', 'C', 'R', ':'], ocr.as_str());
    assert(d@ =~= document_header(m@));
    push_char(&mut d, '\n');
    d.append(searchable.as_str());
    assert(d@ =~= document_body(m@));
    Some(d)
}

/// Index of the first line feed in `s`, or its length when there is none.
pub open spec fn newline_index(s: Seq<char>) -> nat
    decreases s.len(),
{
    if s.len() == 0 {
        0
    } else if s[0] == '\n' {
        0
    } else {
        1 + newline_index(s.drop_first())
    }
}

/// The first line of `s` as `str::lines` yields it: up to the first line
/// feed, without a carriage return that precedes that line feed.
pub open spec fn first_line(s: Seq<char>) -> Seq<char> {
    let k = newline_index(s) as int;
    if k < s.len() && k > 0 && s[k - 1] == '\r' {
        s.subrange(0, k - 1)
    } else {
        s.subrange(0, k)
    }
}

/// What follows the first line and its line feed.
pub open spec fn after_first_line(s: Seq<char>) -> Seq<char> {
    let k = newline_index(s) as int;
    if k < s.len() {
        s.subrange(k + 1, s.len() as int)
    } else {
        seq![]
    }
}

/// The trimmed value of the first `FILE_PATH:` line among the first
/// `budget` lines of `s`.
pub open spec fn file_path_in(s: Seq<char>, budget: nat) -> Option<Seq<char>>
    decreases budget,
{
    if budget == 0 || s.len() == 0 {
        None
    } else if crate::text::starts_with_seq(first_line(s), key_file_path()) {
        Some(trim_seq(first_line(s).subrange(10, first_line(s).len() as int)))
    } else {
        file_path_in(after_first_line(s), (budget - 1) as nat)
    }
}

/// The file path that a stored document names: the trimmed value of the
/// first `FILE_PATH:` line among its first ten lines.
pub open spec fn document_file_path(text: Seq<char>) -> Option<Seq<char>> {
    file_path_in(text, 10)
}

proof fn lemma_newline_index(s: Seq<char>, k: int)
    requires
        0 <= k <= s.len(),
        forall|j: int| 0 <= j < k ==> s[j] != '\n',
        k == s.len() || s[k] == '\n',
    ensures
        newline_index(s) == k,
    decreases k,
{
    if k > 0 {
        lemma_newline_index(s.drop_first(), k - 1);
    }
}

/// Recovers the file path from the text of a search hit.
pub fn parse_file_path(text: &str) -> (r: Option<String>)
    ensures
        match r {
            Some(p) => document_file_path(text@) == Some(p@),
            None => document_file_path(text@) is None,
        },
{
    let v = to_chars(text);
    let key: Vec<char> = vec!['F', 'I', 'L', 'E', '_', 'P', 'A', 'T', 'H', ':'];
    assert(key@ =~= key_file_path());
    let key_s = crate::text::from_chars(&key);
    let mut pos: usize = 0;
    let mut budget: usize = 10;
    assert(v@.subrange(0, v.len() as int) =~= text@);
    while budget > 0 && pos < v.len()
        invariant
            pos <= v.len(),
            budget <= 10,
            v@ == text@,
            key_s@ == key_file_path(),
            document_file_path(text@) == file_path_in(
                v@.subrange(pos as int, v.len() as int),
                budget as nat,
            ),
        decreases budget,
    {
        let ghost s = v@.subrange(pos as int, v.len() as int);
        let mut k: usize = pos;
        while k < v.len() && v[k] != '\n'
            invariant
                pos <= k <= v.len(),
                forall|j: int| pos <= j < k ==> v@[j] != '\n',
            decreases v.len() - k,
        {
            k = k + 1;
        }
        proof {
            lemma_newline_index(s, (k - pos) as int);
        }
        let end = if k < v.len() && k > pos && v[k - 1] == '\r' {
            k - 1
        } else {
            k
        };
        let ghost line = first_line(s);
        assert(line =~= v@.subrange(pos as int, end as int));
        if end - pos >= 10 && crate::text::starts_with(
            crate::text::from_char_range(&v, pos, end).as_str(),
            key_s.as_str(),
        ) {
            let rest = crate::text::from_char_range(&v, pos + 10, end);
            assert(rest@ =~= line.subrange(10, line.len() as int));
            return Some(trim(rest.as_str()));
        }
        assert(!crate::text::starts_with_seq(line, key_file_path()));
        if k < v.len() {
            assert(after_first_line(s) =~= v@.subrange(k + 1, v.len() as int));
            pos = k + 1;
        } else {
            assert(after_first_line(s) =~= v@.subrange(v.len() as int, v.len() as int));
            pos = v.len();
        }
        budget = budget - 1;
    }
    None
}

/// A document stored for a record names that record's file path again,
/// trimmed, whenever the path holds no line feed.
pub proof fn lemma_document_names_its_path(m: FileMetadataView)
    requires
        forall|j: int| 0 <= j < m.path@.len() ==> m.path@[j] != '\n',
    ensures
        document_file_path(document_body(m)) == Some(trim_seq(m.path@)),
{
    let p = m.path@;
    let s = document_body(m);
    let key = key_file_path();
    let k = 10 + p.len();
    let line1 = header_line(key, p);
    assert(s =~= line1 + (s.subrange(line1.len() as int, s.len() as int)));
    assert forall|j: int| 0 <= j < k implies s[j] != '\n' by {
        if j < 10 {
            assert(s[j] == key[j]);
        } else {
            assert(s[j] == p[j - 10]);
        }
    }
    assert(s[k as int] == '\n');
    lemma_newline_index(s, k as int);
    if p.len() > 0 && p.last() == '\r' {
        assert(first_line(s) =~= key + p.drop_last());
        assert(first_line(s).subrange(10, first_line(s).len() as int) =~= p.drop_last());
        crate::text::lemma_trim_drop_last_ws(p);
    } else {
        assert(first_line(s) =~= key + p);
        assert(first_line(s).subrange(10, first_line(s).len() as int) =~= p);
    }
    assert(first_line(s).subrange(0, 10) =~= key);
}

} // verus!
