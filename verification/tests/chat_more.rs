use file_explorer::chat::{chat_instruction, describe_instruction, image_query};
use file_explorer::metadata::{kind_for_extension, MediaKind};

#[test]
fn prompts() {
    assert_eq!(image_query("Describe"), "<image>\nDescribe");
    assert!(describe_instruction().ends_with("Return ONLY JSON."));
    assert!(chat_instruction().starts_with("Analyze the supplied image"));
}

#[test]
fn kinds_by_extension() {
    let img = vec!["png".to_string()];
    let vid = vec!["mp4".to_string()];
    assert!(matches!(kind_for_extension(Some("PNG"), &img, &vid), MediaKind::Image));
    assert!(matches!(kind_for_extension(Some("mp4"), &img, &vid), MediaKind::Video));
    assert!(matches!(kind_for_extension(Some("txt"), &img, &vid), MediaKind::Other));
    assert!(matches!(kind_for_extension(None, &img, &vid), MediaKind::Other));
}
