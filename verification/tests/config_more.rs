use file_explorer::config::{
    default_crop_size, scalarize_id, usize_or_seq_value, HFLLaVAConfig,
    HFLLaVATextConfig, HFLLaVAVisionConfig, IdField, UsizeOrVec, Activation,
};

fn hf() -> HFLLaVAConfig {
    let mut v = HFLLaVAVisionConfig::with_defaults();
    v.projection_dim = 768;
    HFLLaVAConfig {
        architectures: vec!["LlavaForConditionalGeneration".into()],
        ignore_index: -100,
        image_grid_pinpoints: vec![(336, 672)],
        image_token_index: 32000,
        model_type: "llava".into(),
        projector_hidden_act: "gelu".into(),
        text_config: HFLLaVATextConfig {
            architectures: vec![],
            hidden_size: 4096,
            intermediate_size: 11008,
            max_length: 4096,
            max_position_embeddings: 4096,
            model_type: "llama".into(),
            num_attention_heads: 32,
            num_hidden_layers: 32,
            num_key_value_heads: 32,
            pad_token_id: 0,
            rms_norm_eps_bits: 0,
            rope_theta_bits: 0,
            torch_dtype: "float16".into(),
            use_cache: true,
            vocab_size: 32064,
        },
        torch_dtype: "float16".into(),
        use_image_newline_parameter: false,
        vision_config: v,
        vision_feature_layer: -2,
        vision_feature_select_strategy: "default".into(),
        vocab_size: 32064,
    }
}

#[test]
fn clip_projection_forced_to_hidden_size() {
    let c = hf().to_clip_vision_config();
    assert_eq!(c.projection_dim, 1024);
    assert_eq!(c.embed_dim, 1024);
    assert_eq!(c.num_channels, 3);
    assert_eq!(c.patch_size, 14);
    assert_eq!(c.activation, Activation::QuickGelu);
}

#[test]
fn projector_and_feature_names() {
    assert_eq!(HFLLaVAConfig::map_projector_type("gelu"), "mlp2x_gelu");
    assert_eq!(HFLLaVAConfig::map_projector_type("relu"), "relu");
    assert_eq!(HFLLaVAConfig::map_select_feature("default"), "patch");
    assert_eq!(HFLLaVAConfig::map_select_feature("full"), "cls_patch");
}

#[test]
fn token_ids_from_numbers_or_arrays() {
    assert!(matches!(usize_or_seq_value(UsizeOrVec::U(7)), Ok(7)));
    assert!(matches!(usize_or_seq_value(UsizeOrVec::V(vec![5, 6])), Ok(5)));
    match usize_or_seq_value(UsizeOrVec::V(vec![])) {
        Err(e) => assert_eq!(e.message(), "empty array for token id"),
        Ok(_) => panic!("an empty array has no token id"),
    }
    assert!(matches!(scalarize_id(Some(IdField::Array(Some(9))), 1), (IdField::Int(9), 9)));
    assert!(matches!(scalarize_id(None, 4), (IdField::Int(4), 4)));
    assert!(matches!(scalarize_id(Some(IdField::Other), 4), (IdField::Other, 4)));
}

#[test]
fn crop_size_default() {
    assert_eq!(default_crop_size(), vec![("height".to_string(), 384), ("width".to_string(), 384)]);
}
