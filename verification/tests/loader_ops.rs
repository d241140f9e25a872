use file_explorer::loader::{
    effective_dtype, preprocessor_fill, root_fill, settle_model_config, ConfigError, SizeFill, SizeShape,
    TensorDType,
};
use serde_json::Value;

#[test]
fn root_defaults_filled() {
    let f = root_fill(false, true, false, false);
    assert_eq!(f.torch_dtype.as_deref(), Some("bfloat16"));
    assert_eq!(f.ignore_index, None);
    assert!(f.empty_pinpoints);
    assert_eq!(f.use_image_newline_parameter, Some(false));
    let g = root_fill(true, false, true, true);
    assert_eq!(g.torch_dtype, None);
    assert_eq!(g.ignore_index, Some(-100));
}

#[test]
fn preprocessor_edits() {
    let f = preprocessor_fill(true, false, true, SizeShape::Object { has_shortest_edge: false, height: Some(336) });
    assert!(f.move_image_aspect_ratio && f.insert_crop_size && !f.insert_do_center_crop);
    assert!(f.size == SizeFill::AddShortestEdge(336));
    assert!(preprocessor_fill(false, true, false, SizeShape::Missing).size == SizeFill::Create);
    assert!(preprocessor_fill(false, true, false, SizeShape::NotObject).size == SizeFill::Keep);
    assert!(preprocessor_fill(false, true, false, SizeShape::Object { has_shortest_edge: false, height: None }).size == SizeFill::AddShortestEdge(384));
}

#[test]
fn dtype_choice() {
    assert!(effective_dtype("float16", false) == (TensorDType::F16, false));
    assert!(effective_dtype("bfloat16", true) == (TensorDType::F32, true));
    assert!(effective_dtype("float32", true) == (TensorDType::F32, false));
    assert!(effective_dtype("int8", false) == (TensorDType::F32, false));
}

#[test]
fn token_ids_settled_from_root_and_generation() {
    let cfg = br#"{"bos_token_id": 1, "text_config": {"hidden_size": 8}}"#;
    let gen = br#"{"eos_token_id": [2, 3]}"#.to_vec();
    let s = settle_model_config(cfg, Some(gen), None, None).unwrap();
    let c = &s.config;
    assert_eq!(c["bos_token_id"], Value::from(1));
    assert_eq!(c["eos_token_id"], Value::from(2));
    assert_eq!(c["pad_token_id"], Value::from(2));
    assert_eq!(c["vocab_size"], Value::from(128256));
    assert_eq!(c["text_config"]["bos_token_id"], Value::from(1));
    assert_eq!(c["text_config"]["hidden_size"], Value::from(8));
    assert_eq!(c["torch_dtype"], Value::from("bfloat16"));
    assert_eq!(c["ignore_index"], Value::from(-100));
    assert_eq!(c["image_grid_pinpoints"], Value::from(Vec::<i64>::new()));
    assert_eq!(c["use_image_newline_parameter"], Value::from(false));
    let g = &s.generation;
    assert_eq!(g["bos_token_id"], Value::from(128000));
    assert_eq!(g["eos_token_id"], Value::from(2));
    assert_eq!(g["pad_token_id"], Value::from(2));
}

#[test]
fn text_section_ids_win_and_odd_ids_are_kept() {
    let cfg = br#"{"eos_token_id": 7, "text_config": {"bos_token_id": [], "pad_token_id": "x"}, "vocab_size": 32000, "torch_dtype": "float16"}"#;
    let s = settle_model_config(cfg, None, None, None).unwrap();
    let c = &s.config;
    assert_eq!(c["bos_token_id"], Value::from(128000));
    assert_eq!(c["eos_token_id"], Value::from(7));
    assert_eq!(c["pad_token_id"], Value::from("x"));
    assert_eq!(c["vocab_size"], Value::from(32000));
    assert_eq!(c["torch_dtype"], Value::from("float16"));
    let g = &s.generation;
    assert_eq!(g["bos_token_id"], Value::from(128000));
    assert_eq!(g["eos_token_id"], Value::from(128001));
    assert_eq!(g["pad_token_id"], Value::from(128001));
}

#[test]
fn preprocessor_normalised() {
    let pre = br#"{"image_aspect_ratio": "pad", "size": {"height": 336}, "image_mean": [0.5]}"#.to_vec();
    let s = settle_model_config(b"{}", None, Some(pre), None).unwrap();
    let p = &s.preprocessor;
    assert_eq!(p["aspect_ratio_setting"], Value::from("pad"));
    assert!(p.get("image_aspect_ratio").is_none());
    assert_eq!(p["crop_size"]["height"], Value::from(384));
    assert_eq!(p["crop_size"]["width"], Value::from(384));
    assert_eq!(p["do_center_crop"], Value::from(false));
    assert_eq!(p["size"]["shortest_edge"], Value::from(336));
    assert_eq!(p["size"]["height"], Value::from(336));
    assert_eq!(p["image_mean"][0], Value::from(0.5));
    let fallback = br#"{"do_center_crop": true}"#.to_vec();
    let s2 = settle_model_config(b"{}", None, Some(b"not json".to_vec()), Some(fallback)).unwrap();
    let q = &s2.preprocessor;
    assert_eq!(q["aspect_ratio_setting"], Value::from("square"));
    assert_eq!(q["do_center_crop"], Value::from(true));
    assert_eq!(q["size"]["shortest_edge"], Value::from(384));
}

#[test]
fn unusable_configs_refused() {
    assert!(matches!(settle_model_config(b"{", None, None, None), Err(ConfigError::Unparsable)));
    assert!(matches!(settle_model_config(b"[1]", None, None, None), Err(ConfigError::NotObject)));
    assert!(matches!(
        settle_model_config(br#"{"text_config": 3}"#, None, None, None),
        Err(ConfigError::TextConfigNotObject)
    ));
    assert_eq!(ConfigError::NotObject.message(), "config.json must be an object");
}
