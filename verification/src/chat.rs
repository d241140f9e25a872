//! What the local captioning chat model takes from a conversation: the
//! image of the most recent user message that carries one, and the user's
//! instruction text gathered on the way back to it.
use vstd::prelude::*;
use crate::text::{blank, is_blank, trim, trim_seq};

verus! {

/// Who wrote a chat message.
pub enum Role {
    System,
    User,
    Model,
}

/// One part of a chat message.
pub enum Chunk {
    Text(String),
    /// An image given by its bytes.
    ImageBytes(Vec<u8>),
    /// An image given by a URL.
    ImageUrl(String),
}

/// A chat message: its author and its parts, in order.
pub struct Message {
    pub role: Role,
    pub chunks: Vec<Chunk>,
}

/// What the captioning worker is asked to do: describe `image` following
/// `instruction`.
pub struct ImageRequest {
    pub image: Vec<u8>,
    pub instruction: String,
}

/// Why a conversation cannot be answered by the captioning model.
#[derive(Debug, PartialEq, Eq, Structural)]
pub enum RequestError {
    /// The latest image is only given by URL, which is not downloaded.
    UrlNotSupported,
    /// No user message carries an image, for a free description.
    NoImage,
    /// No user message carries image bytes, for a structured answer.
    NoImageBytes,
}

/// The message reported for a refused request.
pub open spec fn request_error_message(e: RequestError) -> Seq<char> {
    match e {
        RequestError::UrlNotSupported => "URL media sources not yet supported for JoyCaption (need download)."@,
        RequestError::NoImage => "No image media chunk with bytes found in user messages"@,
        RequestError::NoImageBytes => "No image bytes provided"@,
    }
}

impl RequestError {
    /// The message reported for this refusal.
    pub fn message(&self) -> (r: String)
        ensures
            r@ == request_error_message(*self),
    {
        proof {
            reveal_strlit("URL media sources not yet supported for JoyCaption (need download).");
            reveal_strlit("No image media chunk with bytes found in user messages");
            reveal_strlit("No image bytes provided");
        }
        match self {
            RequestError::UrlNotSupported => "URL media sources not yet supported for JoyCaption (need download).".to_owned(),
            RequestError::NoImage => "No image media chunk with bytes found in user messages".to_owned(),
            RequestError::NoImageBytes => "No image bytes provided".to_owned(),
        }
    }
}

/// The chat model handle of the local captioning model.
pub struct JoyCaptionChatModel;

/// A chat with the captioning model: every message added to it, in order,
/// with the model's answers.
pub struct JoyCaptionChatSession {
    pub messages: Vec<Message>,
}

impl JoyCaptionChatSession {
    /// A chat with no messages yet.
    pub fn new() -> (r: Self)
        ensures
            r.messages@.len() == 0,
    {
        JoyCaptionChatSession { messages: Vec::new() }
    }
}

/// The state of the backwards scan: image found, text gathered, URL seen.
pub type Scan = (Option<Seq<u8>>, Seq<char>, bool);

/// `acc` with the text `t` appended on a line of its own.
pub open spec fn add_line(acc: Seq<char>, t: Seq<char>) -> Seq<char> {
    if acc.len() == 0 {
        t
    } else {
        acc + seq!['\n'] + t
    }
}

/// Scans the parts of one message in order, from the state `(acc, url)`:
/// non-empty texts are gathered, a URL image is noted, and the scan stops
/// at the first image given by bytes.
pub open spec fn scan_chunks(chunks: Seq<Chunk>, acc: Seq<char>, url: bool) -> Scan
    decreases chunks.len(),
{
    if chunks.len() == 0 {
        (None, acc, url)
    } else {
        match chunks[0] {
            Chunk::Text(t) => scan_chunks(
                chunks.subrange(1, chunks.len() as int),
                if t@.len() == 0 {
                    acc
                } else {
                    add_line(acc, t@)
                },
                url,
            ),
            Chunk::ImageBytes(b) => (Some(b@), acc, url),
            Chunk::ImageUrl(_) => scan_chunks(chunks.subrange(1, chunks.len() as int), acc, true),
        }
    }
}

/// Scans the user messages among the first `n`, latest first, until one
/// carries an image given by bytes.
pub open spec fn scan_messages(msgs: Seq<Message>, n: int, acc: Seq<char>, url: bool) -> Scan
    decreases n,
{
    if n <= 0 || n > msgs.len() {
        (None, acc, url)
    } else if msgs[n - 1].role is User {
        let s = scan_chunks(msgs[n - 1].chunks@, acc, url);
        if s.0 is Some {
            s
        } else {
            scan_messages(msgs, n - 1, s.1, s.2)
        }
    } else {
        scan_messages(msgs, n - 1, acc, url)
    }
}

/// The scan of a whole conversation.
pub open spec fn scan_conversation(msgs: Seq<Message>) -> Scan {
    scan_messages(msgs, msgs.len() as int, seq![], false)
}

/// The instruction used when the user gave none for a free description.
pub open spec fn describe_default() -> Seq<char> {
    "Describe the image in detail."@
}

/// The instruction used when the user gave none for a structured answer.
pub open spec fn json_default() -> Seq<char> {
    "Return ONLY a JSON object for the image."@
}

/// The line that introduces the schema of a structured answer.
pub open spec fn schema_intro() -> Seq<char> {
    "\nJSON Schema (match exactly, no extra keys or text):\n"@
}

/// The request for a free description of the conversation's latest image.
pub open spec fn describe_request(msgs: Seq<Message>) -> Result<(Seq<u8>, Seq<char>), RequestError> {
    let s = scan_conversation(msgs);
    match s.0 {
        Some(b) => Ok((b, if is_blank(s.1) {
            describe_default()
        } else {
            s.1
        })),
        None => if s.2 {
            Err(RequestError::UrlNotSupported)
        } else {
            Err(RequestError::NoImage)
        },
    }
}

/// The request for a structured answer that must match `schema`.
pub open spec fn structured_request(msgs: Seq<Message>, schema: Seq<char>) -> Result<
    (Seq<u8>, Seq<char>),
    RequestError,
> {
    let s = scan_conversation(msgs);
    match s.0 {
        Some(b) => Ok((b, trim_seq(if is_blank(s.1) {
            json_default()
        } else {
            s.1
        }) + schema_intro() + schema)),
        None => Err(RequestError::NoImageBytes),
    }
}

fn copy_bytes(v: &Vec<u8>) -> (r: Vec<u8>)
    ensures
        r@ == v@,
{
    let mut r: Vec<u8> = Vec::new();
    let mut i: usize = 0;
    while i < v.len()
        invariant
            i <= v.len(),
            r@ == v@.take(i as int),
        decreases v.len() - i,
    {
        r.push(v[i]);
        assert(v@.take(i + 1) =~= v@.take(i as int).push(v@[i as int]));
        i = i + 1;
    }
    assert(v@.take(v.len() as int) =~= v@);
    r
}

/// Runs the scan over the parts of one message from the state `(acc, url)`.
fn scan_message_chunks(chunks: &Vec<Chunk>, acc: &mut String, url: &mut bool) -> (image: Option<Vec<u8>>)
    ensures
        scan_chunks(chunks@, old(acc)@, *old(url)) == (match image {
            Some(b) => Some(b@),
            None => None,
        }, final(acc)@, *final(url)),
{
    let mut c: usize = 0;
    assert(chunks@.subrange(0, chunks@.len() as int) =~= chunks@);
    while c < chunks.len()
        invariant
            c <= chunks@.len(),
            scan_chunks(chunks@, old(acc)@, *old(url)) == scan_chunks(
                chunks@.subrange(c as int, chunks@.len() as int),
                acc@,
                *url,
            ),
        decreases chunks@.len() - c,
    {
        let ghost rest = chunks@.subrange(c as int, chunks@.len() as int);
        assert(rest[0] == chunks@[c as int]);
        assert(rest.subrange(1, rest.len() as int) =~= chunks@.subrange(c + 1, chunks@.len() as int));
        let ghost acc0 = acc@;
        match &chunks[c] {
            Chunk::Text(t) => {
                if !t.as_str().is_empty() {
                    if !acc.as_str().is_empty() {
                        proof {
                            reveal_strlit("\n");
                        }
                        acc.append("\n");
                        assert(acc@ == acc0 + seq!['\n']);
                    }
                    acc.append(t.as_str());
                    assert(acc@ == add_line(acc0, t@));
                }
            },
            Chunk::ImageBytes(b) => {
                return Some(copy_bytes(b));
            },
            Chunk::ImageUrl(_) => {
                *url = true;
            },
        }
        c = c + 1;
    }
    assert(chunks@.subrange(c as int, chunks@.len() as int).len() == 0);
    None
}

/// Runs the scan over a conversation.
fn scan_all(msgs: &Vec<Message>) -> (r: (Option<Vec<u8>>, String, bool))
    ensures
        scan_conversation(msgs@) == (match r.0 {
            Some(b) => Some(b@),
            None => None,
        }, r.1@, r.2),
{
    let mut acc = String::new();
    let mut url = false;
    let mut n = msgs.len();
    while n > 0
        invariant
            n <= msgs@.len(),
            scan_conversation(msgs@) == scan_messages(msgs@, n as int, acc@, url),
        decreases n,
    {
        let m = &msgs[n - 1];
        match m.role {
            Role::User => {
                let image = scan_message_chunks(&m.chunks, &mut acc, &mut url);
                if image.is_some() {
                    return (image, acc, url);
                }
            },
            _ => {},
        }
        n = n - 1;
    }
    (None, acc, url)
}

impl JoyCaptionChatModel {
    pub fn new() -> (r: Self) {
        JoyCaptionChatModel
    }

    /// A new chat with this model.
    pub fn new_chat_session(&self) -> (r: JoyCaptionChatSession)
        ensures
            r.messages@.len() == 0,
    {
        JoyCaptionChatSession::new()
    }

    /// Adds `messages` to the chat's history (whether or not they can be
    /// answered) and returns the request for a free description of them,
    /// as [`Self::describe_request`].
    pub fn add_messages(&self, session: &mut JoyCaptionChatSession, messages: Vec<Message>) -> (r:
        Result<ImageRequest, RequestError>)
        ensures
            final(session).messages@ == old(session).messages@ + messages@,
            match r {
                Ok(q) => describe_request(messages@) == Ok::<(Seq<u8>, Seq<char>), RequestError>(
                    (q.image@, q.instruction@),
                ),
                Err(e) => describe_request(messages@) == Err::<(Seq<u8>, Seq<char>), RequestError>(e),
            },
    {
        let r = self.describe_request(&messages);
        let mut messages = messages;
        session.messages.append(&mut messages);
        r
    }

    /// Adds `messages` to the chat's history (whether or not they can be
    /// answered) and returns the request for a structured answer matching
    /// `schema`, as [`Self::structured_request`].
    pub fn add_structured_messages(
        &self,
        session: &mut JoyCaptionChatSession,
        messages: Vec<Message>,
        schema: &str,
    ) -> (r: Result<ImageRequest, RequestError>)
        ensures
            final(session).messages@ == old(session).messages@ + messages@,
            match r {
                Ok(q) => structured_request(messages@, schema@) == Ok::<
                    (Seq<u8>, Seq<char>),
                    RequestError,
                >((q.image@, q.instruction@)),
                Err(e) => structured_request(messages@, schema@) == Err::<
                    (Seq<u8>, Seq<char>),
                    RequestError,
                >(e),
            },
    {
        let r = self.structured_request(&messages, schema);
        let mut messages = messages;
        session.messages.append(&mut messages);
        r
    }

    /// Records the model's answer at the end of the chat's history.
    pub fn record_answer(&self, session: &mut JoyCaptionChatSession, text: String)
        ensures
            final(session).messages@.len() == old(session).messages@.len() + 1,
            final(session).messages@.drop_last() == old(session).messages@,
            final(session).messages@.last().role == Role::Model,
            final(session).messages@.last().chunks@ == seq![Chunk::Text(text)],
    {
        let mut chunks: Vec<Chunk> = Vec::new();
        chunks.push(Chunk::Text(text));
        session.messages.push(Message { role: Role::Model, chunks });
        assert(session.messages@.drop_last() =~= old(session).messages@);
    }

    /// The request for a free description: the image of the latest user
    /// message that carries one by bytes, and the non-empty user texts met
    /// on the way back to it (latest message first, each on its own line),
    /// or a default instruction when they are blank. An image given only by
    /// URL is refused.
    pub fn describe_request(&self, messages: &Vec<Message>) -> (r: Result<ImageRequest, RequestError>)
        ensures
            match r {
                Ok(q) => describe_request(messages@) == Ok::<(Seq<u8>, Seq<char>), RequestError>(
                    (q.image@, q.instruction@),
                ),
                Err(e) => describe_request(messages@) == Err::<(Seq<u8>, Seq<char>), RequestError>(e),
            },
    {
        let (image, text, url) = scan_all(messages);
        match image {
            Some(b) => {
                let instruction = if blank(text.as_str()) {
                    proof {
                        reveal_strlit("Describe the image in detail.");
                    }
                    "Describe the image in detail.".to_owned()
                } else {
                    text
                };
                Ok(ImageRequest { image: b, instruction })
            },
            None => if url {
                Err(RequestError::UrlNotSupported)
            } else {
                Err(RequestError::NoImage)
            },
        }
    }

    /// The request for a structured answer: as [`Self::describe_request`],
    /// with its own default instruction, trimmed and followed by the schema
    /// the answer must match. Images given by URL are passed over.
    pub fn structured_request(&self, messages: &Vec<Message>, schema: &str) -> (r: Result<
        ImageRequest,
        RequestError,
    >)
        ensures
            match r {
                Ok(q) => structured_request(messages@, schema@) == Ok::<
                    (Seq<u8>, Seq<char>),
                    RequestError,
                >((q.image@, q.instruction@)),
                Err(e) => structured_request(messages@, schema@) == Err::<
                    (Seq<u8>, Seq<char>),
                    RequestError,
                >(e),
            },
    {
        let (image, text, _url) = scan_all(messages);
        match image {
            Some(b) => {
                let base = if blank(text.as_str()) {
                    proof {
                        reveal_strlit("Return ONLY a JSON object for the image.");
                    }
                    "Return ONLY a JSON object for the image.".to_owned()
                } else {
                    text
                };
                let mut instruction = trim(base.as_str());
                proof {
                    reveal_strlit("\nJSON Schema (match exactly, no extra keys or text):\n");
                }
                instruction.append("\nJSON Schema (match exactly, no extra keys or text):\n");
                instruction.append(schema);
                Ok(ImageRequest { image: b, instruction })
            },
            None => Err(RequestError::NoImageBytes),
        }
    }
}

/// The user turn that puts the image before the prompt: an image token on
/// a line of its own, then the prompt.
pub fn image_query(prompt: &str) -> (r: String)
    ensures
        r@ == "<image>\n"@ + prompt@,
{
    let mut r = "<image>\n".to_owned();
    r.append(prompt);
    r
}

/// The instruction the captioning model describes a file with on its own.
pub fn describe_instruction() -> (r: String)
    ensures
        r@ == "Analyze the image and produce concise JSON with keys: description (detailed multi-sentence), caption (short), tags (array of lowercase single-word nouns), category (single general category). Return ONLY JSON."@,
{
    "Analyze the image and produce concise JSON with keys: description (detailed multi-sentence), caption (short), tags (array of lowercase single-word nouns), category (single general category). Return ONLY JSON.".to_owned()
}

/// The instruction sent with an image when the explorer asks the
/// captioning model for a description through a chat.
pub fn chat_instruction() -> (r: String)
    ensures
        r@ == "Analyze the supplied image and return JSON with keys: description, caption, tags (array), category."@,
{
    "Analyze the supplied image and return JSON with keys: description, caption, tags (array), category.".to_owned()
}

} // verus!
