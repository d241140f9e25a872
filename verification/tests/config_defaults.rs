use file_explorer::config::{
    default_bos_token_id, default_eos_token_id, default_image_token_index, default_model_type,
    default_mm_patch_merge_type, HFGenerationConfig, HFLLaVAVisionConfig,
};

#[test]
fn generation_defaults() {
    let g = HFGenerationConfig::with_defaults();
    assert_eq!(g.bos_token_id, 1);
    assert_eq!(g.eos_token_id, 2);
    assert_eq!(g.max_length, 4096);
    assert_eq!(g.pad_token_id, 0);
    assert_eq!(default_bos_token_id(), 1);
    assert_eq!(default_eos_token_id(), 2);
}

#[test]
fn vision_defaults() {
    let v = HFLLaVAVisionConfig::with_defaults();
    assert_eq!(v.hidden_size, 1024);
    assert_eq!(v.image_size, 336);
    assert_eq!(v.model_type, "clip_vision_model");
    assert_eq!(v.patch_size, 14);
    assert_eq!(default_image_token_index(), -200);
    assert_eq!(default_model_type(), "llava");
    assert_eq!(default_mm_patch_merge_type(), "flat");
}
