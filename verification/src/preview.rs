//! The preview pane: the description shown for the selected file (cut at
//! 250 characters unless expanded, the streamed one first while the model
//! writes), the folder all results share, and the instruction sent when a
//! description is regenerated.
use vstd::prelude::*;
use vstd::utf8::encode_utf8;
use crate::text::{is_blank, str_eq, to_chars, trim_seq};
use crate::vision::{extract_json_vision, extract_partial_description, json_span, json_value_of, partial_description};

verus! {

/// Characters shown of a long description before it is expanded.
pub const DESCRIPTION_PREVIEW_CHARS: usize = 250;

/// What the pane shows of a description.
pub struct AiDisplayState {
    pub display: String,
    pub long: bool,
    pub streaming: bool,
    pub has_text: bool,
}

/// The shown text of description `full`: when it is longer than 250 bytes
/// and not expanded, its first 250 characters and an ellipsis.
pub open spec fn shown_description(full: Seq<char>, expanded: bool) -> Seq<char> {
    if !expanded && encode_utf8(full).len() > DESCRIPTION_PREVIEW_CHARS {
        full.take(if full.len() < DESCRIPTION_PREVIEW_CHARS { full.len() as int } else { DESCRIPTION_PREVIEW_CHARS as int })
            + seq!['\u{2026}']
    } else {
        full
    }
}

fn utf8_len_exceeds(s: &str, limit: usize) -> (r: bool)
    requires
        limit < usize::MAX,
    ensures
        r == (encode_utf8(s@).len() > limit),
{
    !crate::text::utf8_len_below(s, limit + 1)
}

/// The description display for the selected file: the text being streamed
/// if there is one, else the stored description; nothing without either.
pub fn description_display(
    interim: &Option<String>,
    stored: &Option<String>,
    expanded: bool,
) -> (r: Option<AiDisplayState>)
    ensures
        match r {
            Some(d) => {
                let full = if interim is Some { interim->0@ } else { stored->0@ };
                &&& (interim is Some || stored is Some)
                &&& d.display@ == shown_description(full, expanded)
                &&& d.long == (encode_utf8(full).len() > DESCRIPTION_PREVIEW_CHARS)
                &&& d.streaming == interim is Some
                &&& d.has_text
            },
            None => interim is None && stored is None,
        },
{
    let full: &String = match interim {
        Some(t) => t,
        None => match stored {
            Some(t) => t,
            None => {
                return None;
            },
        },
    };
    let long = utf8_len_exceeds(full.as_str(), DESCRIPTION_PREVIEW_CHARS);
    let display = if !expanded && long {
        let v = to_chars(full.as_str());
        let n = if v.len() < DESCRIPTION_PREVIEW_CHARS {
            v.len()
        } else {
            DESCRIPTION_PREVIEW_CHARS
        };
        let mut d = crate::text::from_char_range(&v, 0, n);
        crate::text::push_char(&mut d, '\u{2026}');
        proof {
            assert(v@.subrange(0, n as int) =~= full@.take(n as int));
        }
        d
    } else {
        full.clone()
    };
    Some(AiDisplayState { display, long, streaming: interim.is_some(), has_text: true })
}

/// Length of the longest common prefix of `a` and `b`.
pub open spec fn common_len(a: Seq<Seq<char>>, b: Seq<Seq<char>>) -> nat
    decreases a.len(),
{
    if a.len() == 0 || b.len() == 0 || a[0] != b[0] {
        0
    } else {
        1 + common_len(a.subrange(1, a.len() as int), b.subrange(1, b.len() as int))
    }
}

/// The components shared by the first `n` paths, folded from the first.
pub open spec fn shared_components(paths: Seq<Seq<Seq<char>>>, n: int) -> Seq<Seq<char>>
    decreases n,
{
    if n <= 1 {
        if paths.len() == 0 {
            seq![]
        } else {
            paths[0]
        }
    } else {
        let c = shared_components(paths, n - 1);
        c.take(common_len(c, paths[n - 1]) as int)
    }
}

proof fn lemma_common_len(a: Seq<Seq<char>>, b: Seq<Seq<char>>)
    ensures
        common_len(a, b) <= a.len(),
        common_len(a, b) <= b.len(),
        forall|i: int| 0 <= i < common_len(a, b) ==> a[i] == b[i],
        common_len(a, b) < a.len() && common_len(a, b) < b.len() ==> a[common_len(a, b) as int]
            != b[common_len(a, b) as int],
    decreases a.len(),
{
    if !(a.len() == 0 || b.len() == 0 || a[0] != b[0]) {
        let a1 = a.subrange(1, a.len() as int);
        let b1 = b.subrange(1, b.len() as int);
        lemma_common_len(a1, b1);
        assert forall|i: int| 0 <= i < common_len(a, b) implies a[i] == b[i] by {
            if i > 0 {
                assert(a[i] == a1[i - 1] && b[i] == b1[i - 1]);
            }
        }
    }
}

/// `p` begins with the components `c`.
pub open spec fn leads(c: Seq<Seq<char>>, p: Seq<Seq<char>>) -> bool {
    c.len() <= p.len() && forall|i: int| 0 <= i < c.len() ==> c[i] == p[i]
}

/// The shared components lead every path they were folded from.
pub proof fn lemma_shared_leads_all(paths: Seq<Seq<Seq<char>>>, n: int)
    requires
        1 <= n <= paths.len(),
    ensures
        forall|k: int| 0 <= k < n ==> leads(shared_components(paths, n), #[trigger] paths[k]),
    decreases n,
{
    if n > 1 {
        lemma_shared_leads_all(paths, n - 1);
        let c = shared_components(paths, n - 1);
        lemma_common_len(c, paths[n - 1]);
        let r = shared_components(paths, n);
        assert forall|k: int| 0 <= k < n implies leads(r, #[trigger] paths[k]) by {
            if k < n - 1 {
                assert(leads(c, paths[k]));
            }
        }
    }
}

/// The components of the folder that all paths (given by their
/// components) lie in: their longest common leading run; none when there
/// are no paths or the run is empty.
pub fn common_root(paths: &Vec<Vec<String>>) -> (r: Option<Vec<String>>)
    ensures
        match r {
            Some(c) => paths@.len() > 0 && crate::text::views(c@) == shared_components(
                paths@.map_values(|p: Vec<String>| crate::text::views(p@)),
                paths@.len() as int,
            ) && c@.len() > 0,
            None => paths@.len() == 0 || shared_components(
                paths@.map_values(|p: Vec<String>| crate::text::views(p@)),
                paths@.len() as int,
            ).len() == 0,
        },
{
    let ghost ps = paths@.map_values(|p: Vec<String>| crate::text::views(p@));
    if paths.len() == 0 {
        return None;
    }
    let mut comps: Vec<String> = crate::text::copy_strings(&paths[0]);
    let mut i: usize = 1;
    while i < paths.len()
        invariant
            1 <= i <= paths@.len(),
            ps == paths@.map_values(|p: Vec<String>| crate::text::views(p@)),
            crate::text::views(comps@) == shared_components(ps, i as int),
        decreases paths@.len() - i,
    {
        let other = &paths[i];
        let mut keep: usize = 0;
        let ghost c = crate::text::views(comps@);
        let ghost o = ps[i as int];
        proof {
            lemma_common_len(c, o);
        }
        while keep < comps.len() && keep < other.len() && str_eq(comps[keep].as_str(), other[keep].as_str())
            invariant
                keep <= comps@.len(),
                keep <= other@.len(),
                c == crate::text::views(comps@),
                o == crate::text::views(other@),
                keep <= common_len(c, o),
                common_len(c, o) <= c.len(),
                common_len(c, o) <= o.len(),
                forall|j: int| 0 <= j < common_len(c, o) ==> c[j] == o[j],
                common_len(c, o) < c.len() && common_len(c, o) < o.len() ==> c[common_len(c, o) as int]
                    != o[common_len(c, o) as int],
            decreases comps@.len() - keep,
        {
            keep = keep + 1;
        }
        assert(keep == common_len(c, o)) by {
            if keep < common_len(c, o) {
                assert(c[keep as int] == o[keep as int]);
            }
        }
        comps.truncate(keep);
        assert(crate::text::views(comps@) =~= c.take(keep as int));
        i = i + 1;
    }
    if comps.len() == 0 {
        None
    } else {
        Some(comps)
    }
}

/// Whether the path of the selection, relative to the shared folder, is
/// worth showing: it names a subfolder.
pub fn shows_subfolder(rel: &str) -> (r: bool)
    ensures
        r == (rel@.contains('/') || rel@.contains('\\')),
{
    let v = to_chars(rel);
    let mut i: usize = 0;
    while i < v.len()
        invariant
            i <= v@.len(),
            v@ == rel@,
            forall|j: int| 0 <= j < i ==> v@[j] != '/' && v@[j] != '\\',
        decreases v@.len() - i,
    {
        if v[i] == '/' || v[i] == '\\' {
            return true;
        }
        i = i + 1;
    }
    false
}

/// The instruction sent with an image when its description is
/// regenerated: the user's template, or the built-in one when the
/// template is blank.
pub open spec fn regenerate_instruction(template: Seq<char>) -> Seq<char> {
    if is_blank(template) {
        "Analyze the supplied image and return ONLY JSON with keys: description, caption, tags (array), category."@
    } else {
        template
    }
}

pub fn instruction_for(template: &str) -> (r: String)
    ensures
        r@ == regenerate_instruction(template@),
{
    if crate::text::blank(template) {
        "Analyze the supplied image and return ONLY JSON with keys: description, caption, tags (array), category.".to_owned()
    } else {
        template.to_owned()
    }
}

/// A description being streamed: the text received so far, and whether a
/// complete answer was already taken from it.
pub struct DescriptionStream {
    pub text: String,
    pub applied: bool,
}

/// What the pane does after a fragment arrived: show `interim`, and, the
/// first time the text holds a JSON answer, apply `answer`.
pub struct StreamStep {
    pub interim: String,
    pub answer: Option<serde_json::Value>,
}

impl DescriptionStream {
    pub fn new() -> (r: Self)
        ensures
            r.text@.len() == 0,
            !r.applied,
    {
        DescriptionStream { text: String::new(), applied: false }
    }

    /// Takes in the next fragment of the stream. The interim text is the
    /// description read so far (empty before one appears); the JSON value
    /// found in the text is handed out until an answer has been applied.
    pub fn push_fragment(&mut self, fragment: &str) -> (r: StreamStep)
        ensures
            final(self).text@ == old(self).text@ + fragment@,
            final(self).applied == old(self).applied,
            r.interim@ == (match partial_description(final(self).text@) {
                Some(d) => d,
                None => Seq::<char>::empty(),
            }),
            r.answer == (if old(self).applied {
                None
            } else {
                match json_span(final(self).text@) {
                    Some(t) => json_value_of(t),
                    None => None,
                }
            }),
    {
        self.text.append(fragment);
        let interim = match extract_partial_description(self.text.as_str()) {
            Some(d) => d,
            None => String::new(),
        };
        let answer = if self.applied {
            None
        } else {
            extract_json_vision(self.text.as_str())
        };
        StreamStep { interim, answer }
    }

    /// Records that an answer from the stream was applied, so that no
    /// other is.
    pub fn mark_applied(&mut self)
        ensures
            final(self).applied,
            final(self).text == old(self).text,
    {
        self.applied = true;
    }
}

} // verus!
