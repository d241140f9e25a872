use file_explorer::chat::{Chunk, JoyCaptionChatModel, JoyCaptionChatSession, Message, RequestError, Role};

fn user(chunks: Vec<Chunk>) -> Message {
    Message { role: Role::User, chunks }
}

#[test]
fn latest_image_and_texts_on_the_way() {
    let model = JoyCaptionChatModel::new();
    let msgs = vec![
        user(vec![Chunk::Text("old".into()), Chunk::ImageBytes(vec![1, 2])]),
        Message { role: Role::Model, chunks: vec![Chunk::Text("answer".into())] },
        user(vec![Chunk::Text("first".into()), Chunk::Text("".into()), Chunk::Text("second".into())]),
    ];
    let q = model.describe_request(&msgs).unwrap();
    assert_eq!(q.image, vec![1, 2]);
    assert_eq!(q.instruction, "first\nsecond\nold");
}

#[test]
fn default_instruction_and_errors() {
    let model = JoyCaptionChatModel::new();
    let q = model.describe_request(&vec![user(vec![Chunk::ImageBytes(vec![9])])]).unwrap();
    assert_eq!(q.instruction, "Describe the image in detail.");
    let url_only = vec![user(vec![Chunk::ImageUrl("http://x/y.png".into())])];
    assert!(matches!(model.describe_request(&url_only), Err(RequestError::UrlNotSupported)));
    assert!(matches!(model.describe_request(&vec![]), Err(RequestError::NoImage)));
    assert!(matches!(model.structured_request(&url_only, "{}"), Err(RequestError::NoImageBytes)));
}

#[test]
fn structured_request_appends_schema() {
    let model = JoyCaptionChatModel::new();
    let msgs = vec![user(vec![Chunk::Text("  describe it  ".into()), Chunk::ImageBytes(vec![3])])];
    let q = model.structured_request(&msgs, "{\"type\":\"object\"}").unwrap();
    assert_eq!(q.instruction, "describe it\nJSON Schema (match exactly, no extra keys or text):\n{\"type\":\"object\"}");
    let bare = model.structured_request(&vec![user(vec![Chunk::ImageBytes(vec![3])])], "S").unwrap();
    assert_eq!(bare.instruction, "Return ONLY a JSON object for the image.\nJSON Schema (match exactly, no extra keys or text):\nS");
}

#[test]
fn refusal_messages() {
    assert_eq!(RequestError::NoImageBytes.message(), "No image bytes provided");
    assert_eq!(RequestError::NoImage.message(), "No image media chunk with bytes found in user messages");
    assert_eq!(
        RequestError::UrlNotSupported.message(),
        "URL media sources not yet supported for JoyCaption (need download)."
    );
}

#[test]
fn session_keeps_messages_even_when_refused() {
    let model = JoyCaptionChatModel::new();
    let mut session = model.new_chat_session();
    assert!(session.messages.is_empty());
    let r = model.add_structured_messages(&mut session, vec![user(vec![Chunk::Text("hi".into())])], "{}");
    assert!(matches!(r, Err(RequestError::NoImageBytes)));
    assert_eq!(session.messages.len(), 1);
    let q = model.add_messages(&mut session, vec![user(vec![Chunk::ImageBytes(vec![1, 2])])]).unwrap();
    assert_eq!(q.image, vec![1, 2]);
    assert_eq!(session.messages.len(), 2);
    model.record_answer(&mut session, "a cat".to_string());
    assert_eq!(session.messages.len(), 3);
    assert!(matches!(session.messages[2].role, Role::Model));
    assert!(matches!(&session.messages[2].chunks[..], [Chunk::Text(t)] if t == "a cat"));
    let fresh = JoyCaptionChatSession::new();
    assert!(fresh.messages.is_empty());
}
