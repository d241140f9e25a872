//! The normalisation the captioning model's loader applies to its JSON
//! configuration before reading it: what it fills in, renames or collapses,
//! decided from what the files hold, and the tensor type it computes in.
use vstd::prelude::*;
use crate::config::{default_aspect_ratio_setting, first_present, scalarized, scalarize_id, IdField};
use crate::json::{
    json_array_test, json_as_i64, json_bool, json_clone, json_element, json_empty_object,
    json_from_bool, json_from_i64, json_from_i64s, json_from_str, json_get, json_get_element,
    json_i64, json_int, json_ints, json_is_array, json_is_number, json_is_object, json_member,
    json_number_test, json_object_test, json_of_bytes, json_set, json_take, json_text,
    parse_json_bytes,
};
use serde_json::Value;

verus! {

/// What the config root gains where it has nothing: `torch_dtype`
/// "bfloat16", `ignore_index` -100 (the cross-entropy default), empty
/// `image_grid_pinpoints`, `use_image_newline_parameter` false.
pub struct RootFill {
    pub torch_dtype: Option<String>,
    pub ignore_index: Option<i64>,
    pub empty_pinpoints: bool,
    pub use_image_newline_parameter: Option<bool>,
}

pub fn root_fill(
    has_torch_dtype: bool,
    has_ignore_index: bool,
    has_pinpoints: bool,
    has_newline_parameter: bool,
) -> (r: RootFill)
    ensures
        has_torch_dtype <==> r.torch_dtype is None,
        !has_torch_dtype ==> r.torch_dtype->0@ == "bfloat16"@,
        r.ignore_index == (if has_ignore_index { None } else { Some(-100i64) }),
        r.empty_pinpoints == !has_pinpoints,
        r.use_image_newline_parameter == (if has_newline_parameter { None } else { Some(false) }),
{
    RootFill {
        torch_dtype: if has_torch_dtype { None } else { Some("bfloat16".to_owned()) },
        ignore_index: if has_ignore_index { None } else { Some(-100) },
        empty_pinpoints: !has_pinpoints,
        use_image_newline_parameter: if has_newline_parameter { None } else { Some(false) },
    }
}

/// The shape of the preprocessor config's `size` entry.
pub enum SizeShape {
    Missing,
    NotObject,
    Object { has_shortest_edge: bool, height: Option<i64> },
}

/// What happens to the `size` entry: left alone, given a `shortest_edge`,
/// or created as `{ "shortest_edge": 384 }`.
#[derive(PartialEq, Eq, Structural)]
pub enum SizeFill {
    Keep,
    AddShortestEdge(i64),
    Create,
}

/// The edits to a preprocessor config that is a JSON object:
/// `aspect_ratio_setting` takes the value moved out of `image_aspect_ratio`
/// when there is one and "square" otherwise; `crop_size` 384 by 384 and
/// `do_center_crop` false are added when missing; a `size` object without
/// `shortest_edge` gets one equal to its integer `height` (else 384), and a
/// missing `size` is created.
pub struct PreprocessorFill {
    pub move_image_aspect_ratio: bool,
    pub insert_crop_size: bool,
    pub insert_do_center_crop: bool,
    pub size: SizeFill,
}

pub fn preprocessor_fill(
    has_image_aspect_ratio: bool,
    has_crop_size: bool,
    has_do_center_crop: bool,
    size: SizeShape,
) -> (r: PreprocessorFill)
    ensures
        r.move_image_aspect_ratio == has_image_aspect_ratio,
        r.insert_crop_size == !has_crop_size,
        r.insert_do_center_crop == !has_do_center_crop,
        r.size == (match size {
            SizeShape::Missing => SizeFill::Create,
            SizeShape::NotObject => SizeFill::Keep,
            SizeShape::Object { has_shortest_edge, height } => if has_shortest_edge {
                SizeFill::Keep
            } else {
                SizeFill::AddShortestEdge(
                    match height {
                        Some(h) => h,
                        None => 384,
                    },
                )
            },
        }),
{
    let size_fill = match size {
        SizeShape::Missing => SizeFill::Create,
        SizeShape::NotObject => SizeFill::Keep,
        SizeShape::Object { has_shortest_edge, height } => if has_shortest_edge {
            SizeFill::Keep
        } else {
            SizeFill::AddShortestEdge(
                match height {
                    Some(h) => h,
                    None => 384,
                },
            )
        },
    };
    PreprocessorFill {
        move_image_aspect_ratio: has_image_aspect_ratio,
        insert_crop_size: !has_crop_size,
        insert_do_center_crop: !has_do_center_crop,
        size: size_fill,
    }
}

/// The tensor element types the model runs in.
#[derive(PartialEq, Eq, Structural)]
pub enum TensorDType {
    F16,
    BF16,
    F32,
}

/// The element type for a configured `torch_dtype`: "float16" and
/// "bfloat16" as named, anything else 32-bit; half precision falls back to
/// 32-bit on a CPU.
pub open spec fn dtype_for(torch_dtype: Seq<char>, is_cpu: bool) -> TensorDType {
    if is_cpu {
        TensorDType::F32
    } else if torch_dtype == "float16"@ {
        TensorDType::F16
    } else if torch_dtype == "bfloat16"@ {
        TensorDType::BF16
    } else {
        TensorDType::F32
    }
}

/// The element type to compute in, and whether the configured half
/// precision was given up (the loader then records "float32").
pub fn effective_dtype(torch_dtype: &str, is_cpu: bool) -> (r: (TensorDType, bool))
    ensures
        r.0 == dtype_for(torch_dtype@, is_cpu),
        r.1 == (is_cpu && (torch_dtype@ == "float16"@ || torch_dtype@ == "bfloat16"@)),
{
    let requested = if crate::text::str_eq(torch_dtype, "float16") {
        TensorDType::F16
    } else if crate::text::str_eq(torch_dtype, "bfloat16") {
        TensorDType::BF16
    } else {
        TensorDType::F32
    };
    if is_cpu {
        let fell_back = match requested {
            TensorDType::F32 => false,
            _ => true,
        };
        (TensorDType::F32, fell_back)
    } else {
        (requested, false)
    }
}

/// How the loader reads a token-id value.
pub open spec fn id_field_of(v: Value) -> IdField {
    if json_is_number(v) {
        match json_i64(v) {
            Some(n) => IdField::Int(n),
            None => IdField::OtherNumber,
        }
    } else if json_is_array(v) {
        IdField::Array(
            match json_element(v, 0) {
                Some(x) => json_i64(x),
                None => None,
            },
        )
    } else {
        IdField::Other
    }
}

fn read_id_field(v: &Value) -> (r: IdField)
    ensures
        r == id_field_of(*v),
{
    if json_number_test(v) {
        match json_as_i64(v) {
            Some(n) => IdField::Int(n),
            None => IdField::OtherNumber,
        }
    } else if json_array_test(v) {
        match json_get_element(v, 0) {
            Some(x) => IdField::Array(json_as_i64(&x)),
            None => IdField::Array(None),
        }
    } else {
        IdField::Other
    }
}

/// A token id collapsed to one number: the value written back (the number,
/// or the value itself when it is neither a number nor an array) and the
/// id used; a missing id becomes the default.
pub open spec fn collapsed_id(src: Option<Value>, default: i64) -> (Value, i64) {
    match src {
        None => (json_int(default), default),
        Some(v) => {
            let s = scalarized(Some(id_field_of(v)), default);
            (
                match s.0 {
                    IdField::Int(n) => json_int(n),
                    _ => v,
                },
                s.1,
            )
        },
    }
}

fn collapse_id(src: Option<Value>, default: i64) -> (r: (Value, i64))
    ensures
        r == collapsed_id(src, default),
{
    match src {
        None => (json_from_i64(default), default),
        Some(v) => {
            let f = read_id_field(&v);
            let (g, n) = scalarize_id(Some(f), default);
            match g {
                IdField::Int(m) => (json_from_i64(m), n),
                _ => (v, n),
            }
        },
    }
}

/// The member `key` of a value that may be missing.
pub open spec fn opt_member(o: Option<Value>, key: Seq<char>) -> Option<Value> {
    match o {
        Some(v) => json_member(v, key),
        None => None,
    }
}

fn opt_get(o: &Option<Value>, key: &str) -> (r: Option<Value>)
    ensures
        r == opt_member(*o, key@),
{
    match o {
        Some(v) => json_get(v, key),
        None => None,
    }
}

fn first_value(a: Option<Value>, b: Option<Value>, c: Option<Value>) -> (r: Option<Value>)
    ensures
        r == first_present(a, b, c),
{
    if a.is_some() {
        a
    } else if b.is_some() {
        b
    } else {
        c
    }
}

/// A member kept when present and set to `d` otherwise.
pub open spec fn filled(cur: Option<Value>, d: Value) -> Option<Value> {
    if cur is Some {
        cur
    } else {
        Some(d)
    }
}

/// The ids the loader first writes into the config root: each the root's
/// own, else the generation config's, else 1 for BOS and 2 for EOS; PAD
/// defaults to that EOS value.
pub open spec fn injected_ids(cfg: Value, gen: Option<Value>) -> (Option<Value>, Option<Value>, Option<Value>) {
    let b = first_present(json_member(cfg, "bos_token_id"@), opt_member(gen, "bos_token_id"@), Some(json_int(1)));
    let e = first_present(json_member(cfg, "eos_token_id"@), opt_member(gen, "eos_token_id"@), Some(json_int(2)));
    let p = first_present(json_member(cfg, "pad_token_id"@), opt_member(gen, "pad_token_id"@), e);
    (b, e, p)
}

/// The BOS, EOS and PAD values and the vocabulary size written into the
/// config: each id taken from the text section, else from the root as
/// [`injected_ids`] filled it, and collapsed (BOS defaulting to 128000,
/// EOS to 128001, the Llama-3 ids, PAD to the EOS id); the vocabulary size
/// is the text section's, else the root's, else 128256.
pub open spec fn settled_ids(cfg: Value, gen: Option<Value>) -> (Value, Value, Value, Value) {
    let tc = json_member(cfg, "text_config"@);
    let inj = injected_ids(cfg, gen);
    let b = collapsed_id(first_present(opt_member(tc, "bos_token_id"@), inj.0, None), 128000);
    let e = collapsed_id(first_present(opt_member(tc, "eos_token_id"@), inj.1, None), 128001);
    let p = collapsed_id(first_present(opt_member(tc, "pad_token_id"@), inj.2, None), e.1);
    let v = match first_present(opt_member(tc, "vocab_size"@), json_member(cfg, "vocab_size"@), None) {
        Some(x) => x,
        None => json_int(128256),
    };
    (b.0, e.0, p.0, v)
}

/// `s` is the text section `tc` (or an empty one) with the ids and the
/// vocabulary size written into it.
pub open spec fn section_settled(tc: Option<Value>, s: Value, ids: (Value, Value, Value, Value)) -> bool {
    &&& json_is_object(s)
    &&& json_member(s, "bos_token_id"@) == Some(ids.0)
    &&& json_member(s, "eos_token_id"@) == Some(ids.1)
    &&& json_member(s, "pad_token_id"@) == Some(ids.2)
    &&& json_member(s, "vocab_size"@) == Some(ids.3)
    &&& forall|k: Seq<char>|
        k != "bos_token_id"@ && k != "eos_token_id"@ && k != "pad_token_id"@ && k != "vocab_size"@
            ==> #[trigger] json_member(s, k) == opt_member(tc, k)
}

/// Whether a key of the config root is one the loader writes.
pub open spec fn written_root_key(k: Seq<char>) -> bool {
    ||| k == "bos_token_id"@
    ||| k == "eos_token_id"@
    ||| k == "pad_token_id"@
    ||| k == "vocab_size"@
    ||| k == "text_config"@
    ||| k == "torch_dtype"@
    ||| k == "ignore_index"@
    ||| k == "image_grid_pinpoints"@
    ||| k == "use_image_newline_parameter"@
}

/// The config root after the loader's normalisation: ids and vocabulary
/// size written into the root and the text section, `torch_dtype`
/// "bfloat16", `ignore_index` -100 (the cross-entropy default), empty
/// `image_grid_pinpoints` and `use_image_newline_parameter` false where
/// missing; every other member as it was.
pub open spec fn config_settled(cfg: Value, gen: Option<Value>, out: Value) -> bool {
    let ids = settled_ids(cfg, gen);
    &&& json_is_object(out)
    &&& json_member(out, "bos_token_id"@) == Some(ids.0)
    &&& json_member(out, "eos_token_id"@) == Some(ids.1)
    &&& json_member(out, "pad_token_id"@) == Some(ids.2)
    &&& json_member(out, "vocab_size"@) == Some(ids.3)
    &&& json_member(out, "text_config"@) is Some
    &&& section_settled(json_member(cfg, "text_config"@), json_member(out, "text_config"@)->0, ids)
    &&& json_member(out, "torch_dtype"@) == filled(json_member(cfg, "torch_dtype"@), json_text("bfloat16"@))
    &&& json_member(out, "ignore_index"@) == filled(json_member(cfg, "ignore_index"@), json_int(-100i64))
    &&& json_member(out, "image_grid_pinpoints"@) == filled(
        json_member(cfg, "image_grid_pinpoints"@),
        json_ints(Seq::empty()),
    )
    &&& json_member(out, "use_image_newline_parameter"@) == filled(
        json_member(cfg, "use_image_newline_parameter"@),
        json_bool(false),
    )
    &&& forall|k: Seq<char>| !written_root_key(k) ==> #[trigger] json_member(out, k) == json_member(cfg, k)
}

/// Why a model configuration cannot be settled.
#[derive(Debug, PartialEq, Eq, Structural)]
pub enum ConfigError {
    /// `config.json` does not hold JSON.
    Unparsable,
    /// `config.json` is not a JSON object.
    NotObject,
    /// Its `text_config` is there but not an object.
    TextConfigNotObject,
}

impl ConfigError {
    /// The message reported for this refusal.
    pub fn message(&self) -> (r: String)
        ensures
            r@ == (match *self {
                ConfigError::Unparsable => "parse config.json failed"@,
                ConfigError::NotObject => "config.json must be an object"@,
                ConfigError::TextConfigNotObject => "text_config must be an object"@,
            }),
    {
        match self {
            ConfigError::Unparsable => "parse config.json failed".to_owned(),
            ConfigError::NotObject => "config.json must be an object".to_owned(),
            ConfigError::TextConfigNotObject => "text_config must be an object".to_owned(),
        }
    }
}

/// The refusal for a parsed `config.json`, if any.
pub open spec fn config_refusal(cfg: Option<Value>) -> Option<ConfigError> {
    match cfg {
        None => Some(ConfigError::Unparsable),
        Some(c) => if !json_is_object(c) {
            Some(ConfigError::NotObject)
        } else if json_member(c, "text_config"@) is Some && !json_is_object(json_member(c, "text_config"@)->0) {
            Some(ConfigError::TextConfigNotObject)
        } else {
            None
        },
    }
}

/// The keys the loader writes into a config are distinct.
proof fn lemma_root_keys_distinct()
    ensures
        "bos_token_id"@ != "eos_token_id"@,
        "bos_token_id"@ != "pad_token_id"@,
        "bos_token_id"@ != "vocab_size"@,
        "bos_token_id"@ != "text_config"@,
        "bos_token_id"@ != "torch_dtype"@,
        "bos_token_id"@ != "ignore_index"@,
        "bos_token_id"@ != "image_grid_pinpoints"@,
        "bos_token_id"@ != "use_image_newline_parameter"@,
        "eos_token_id"@ != "pad_token_id"@,
        "eos_token_id"@ != "vocab_size"@,
        "eos_token_id"@ != "text_config"@,
        "eos_token_id"@ != "torch_dtype"@,
        "eos_token_id"@ != "ignore_index"@,
        "eos_token_id"@ != "image_grid_pinpoints"@,
        "eos_token_id"@ != "use_image_newline_parameter"@,
        "pad_token_id"@ != "vocab_size"@,
        "pad_token_id"@ != "text_config"@,
        "pad_token_id"@ != "torch_dtype"@,
        "pad_token_id"@ != "ignore_index"@,
        "pad_token_id"@ != "image_grid_pinpoints"@,
        "pad_token_id"@ != "use_image_newline_parameter"@,
        "vocab_size"@ != "text_config"@,
        "vocab_size"@ != "torch_dtype"@,
        "vocab_size"@ != "ignore_index"@,
        "vocab_size"@ != "image_grid_pinpoints"@,
        "vocab_size"@ != "use_image_newline_parameter"@,
        "text_config"@ != "torch_dtype"@,
        "text_config"@ != "ignore_index"@,
        "text_config"@ != "image_grid_pinpoints"@,
        "text_config"@ != "use_image_newline_parameter"@,
        "torch_dtype"@ != "ignore_index"@,
        "torch_dtype"@ != "image_grid_pinpoints"@,
        "torch_dtype"@ != "use_image_newline_parameter"@,
        "ignore_index"@ != "image_grid_pinpoints"@,
        "ignore_index"@ != "use_image_newline_parameter"@,
        "image_grid_pinpoints"@ != "use_image_newline_parameter"@,
{
    reveal_strlit("bos_token_id");
    reveal_strlit("eos_token_id");
    reveal_strlit("pad_token_id");
    reveal_strlit("vocab_size");
    reveal_strlit("text_config");
    reveal_strlit("torch_dtype");
    reveal_strlit("ignore_index");
    reveal_strlit("image_grid_pinpoints");
    reveal_strlit("use_image_newline_parameter");
    assert("bos_token_id"@[0] != "eos_token_id"@[0]);
    assert("bos_token_id"@[0] != "pad_token_id"@[0]);
    assert("bos_token_id"@.len() != "vocab_size"@.len());
    assert("bos_token_id"@.len() != "text_config"@.len());
    assert("bos_token_id"@.len() != "torch_dtype"@.len());
    assert("bos_token_id"@[0] != "ignore_index"@[0]);
    assert("bos_token_id"@.len() != "image_grid_pinpoints"@.len());
    assert("bos_token_id"@.len() != "use_image_newline_parameter"@.len());
    assert("eos_token_id"@[0] != "pad_token_id"@[0]);
    assert("eos_token_id"@.len() != "vocab_size"@.len());
    assert("eos_token_id"@.len() != "text_config"@.len());
    assert("eos_token_id"@.len() != "torch_dtype"@.len());
    assert("eos_token_id"@[0] != "ignore_index"@[0]);
    assert("eos_token_id"@.len() != "image_grid_pinpoints"@.len());
    assert("eos_token_id"@.len() != "use_image_newline_parameter"@.len());
    assert("pad_token_id"@.len() != "vocab_size"@.len());
    assert("pad_token_id"@.len() != "text_config"@.len());
    assert("pad_token_id"@.len() != "torch_dtype"@.len());
    assert("pad_token_id"@[0] != "ignore_index"@[0]);
    assert("pad_token_id"@.len() != "image_grid_pinpoints"@.len());
    assert("pad_token_id"@.len() != "use_image_newline_parameter"@.len());
    assert("vocab_size"@.len() != "text_config"@.len());
    assert("vocab_size"@.len() != "torch_dtype"@.len());
    assert("vocab_size"@.len() != "ignore_index"@.len());
    assert("vocab_size"@.len() != "image_grid_pinpoints"@.len());
    assert("vocab_size"@.len() != "use_image_newline_parameter"@.len());
    assert("text_config"@[1] != "torch_dtype"@[1]);
    assert("text_config"@.len() != "ignore_index"@.len());
    assert("text_config"@.len() != "image_grid_pinpoints"@.len());
    assert("text_config"@.len() != "use_image_newline_parameter"@.len());
    assert("torch_dtype"@.len() != "ignore_index"@.len());
    assert("torch_dtype"@.len() != "image_grid_pinpoints"@.len());
    assert("torch_dtype"@.len() != "use_image_newline_parameter"@.len());
    assert("ignore_index"@.len() != "image_grid_pinpoints"@.len());
    assert("ignore_index"@.len() != "use_image_newline_parameter"@.len());
    assert("image_grid_pinpoints"@.len() != "use_image_newline_parameter"@.len());
}

/// The keys the loader writes into a preprocessor config are distinct.
proof fn lemma_preprocessor_keys_distinct()
    ensures
        "image_aspect_ratio"@ != "aspect_ratio_setting"@,
        "image_aspect_ratio"@ != "crop_size"@,
        "image_aspect_ratio"@ != "do_center_crop"@,
        "image_aspect_ratio"@ != "size"@,
        "aspect_ratio_setting"@ != "crop_size"@,
        "aspect_ratio_setting"@ != "do_center_crop"@,
        "aspect_ratio_setting"@ != "size"@,
        "crop_size"@ != "do_center_crop"@,
        "crop_size"@ != "size"@,
        "do_center_crop"@ != "size"@,
{
    reveal_strlit("image_aspect_ratio");
    reveal_strlit("aspect_ratio_setting");
    reveal_strlit("crop_size");
    reveal_strlit("do_center_crop");
    reveal_strlit("size");
    assert("image_aspect_ratio"@.len() != "aspect_ratio_setting"@.len());
    assert("image_aspect_ratio"@.len() != "crop_size"@.len());
    assert("image_aspect_ratio"@.len() != "do_center_crop"@.len());
    assert("image_aspect_ratio"@.len() != "size"@.len());
    assert("aspect_ratio_setting"@.len() != "crop_size"@.len());
    assert("aspect_ratio_setting"@.len() != "do_center_crop"@.len());
    assert("aspect_ratio_setting"@.len() != "size"@.len());
    assert("crop_size"@.len() != "do_center_crop"@.len());
    assert("crop_size"@.len() != "size"@.len());
    assert("do_center_crop"@.len() != "size"@.len());
}

/// The keys of the `size` and `crop_size` entries are distinct.
proof fn lemma_size_keys_distinct()
    ensures
        "shortest_edge"@ != "height"@,
        "shortest_edge"@ != "width"@,
        "height"@ != "width"@,
{
    reveal_strlit("shortest_edge");
    reveal_strlit("height");
    reveal_strlit("width");
    assert("shortest_edge"@.len() != "height"@.len());
    assert("shortest_edge"@.len() != "width"@.len());
    assert("height"@.len() != "width"@.len());
}

fn settle_section(tc: Option<Value>, ids: (Value, Value, Value, Value)) -> (r: Option<Value>)
    ensures
        r is Some <==> (tc is None || json_is_object(tc->0)),
        r is Some ==> section_settled(tc, r->0, ids),
{
    let mut s = match tc {
        Some(t) => {
            if !json_object_test(&t) {
                return None;
            }
            t
        },
        None => json_empty_object(),
    };
    let ghost s0 = s;
    let ghost tc0 = tc;
    assert(forall|k: Seq<char>| #[trigger] json_member(s0, k) == opt_member(tc0, k));
    let (b, e, p, v) = ids;
    proof {
        lemma_root_keys_distinct();
    }
    json_set(&mut s, "vocab_size", v);
    let ghost s1 = s;
    json_set(&mut s, "bos_token_id", b);
    let ghost s2 = s;
    json_set(&mut s, "eos_token_id", e);
    let ghost s3 = s;
    json_set(&mut s, "pad_token_id", p);
    assert(json_member(s, "vocab_size"@) == json_member(s3, "vocab_size"@));
    assert(json_member(s3, "vocab_size"@) == json_member(s2, "vocab_size"@));
    assert(json_member(s2, "vocab_size"@) == json_member(s1, "vocab_size"@));
    assert(json_member(s, "bos_token_id"@) == json_member(s3, "bos_token_id"@));
    assert(json_member(s3, "bos_token_id"@) == json_member(s2, "bos_token_id"@));
    assert(json_member(s, "eos_token_id"@) == json_member(s3, "eos_token_id"@));
    assert forall|k: Seq<char>|
        k != "bos_token_id"@ && k != "eos_token_id"@ && k != "pad_token_id"@ && k != "vocab_size"@
            implies #[trigger] json_member(s, k) == opt_member(tc0, k) by {
        assert(json_member(s, k) == json_member(s3, k));
        assert(json_member(s3, k) == json_member(s2, k));
        assert(json_member(s2, k) == json_member(s1, k));
        assert(json_member(s1, k) == json_member(s0, k));
    }
    Some(s)
}

fn settle_config(cfg: Value, gen: &Option<Value>) -> (r: Result<Value, ConfigError>)
    ensures
        match r {
            Ok(out) => config_refusal(Some(cfg)) is None && config_settled(cfg, *gen, out),
            Err(e) => config_refusal(Some(cfg)) == Some(e),
        },
{
    if !json_object_test(&cfg) {
        return Err(ConfigError::NotObject);
    }
    let ghost ids = settled_ids(cfg, *gen);
    let root_bos = first_value(json_get(&cfg, "bos_token_id"), opt_get(gen, "bos_token_id"), Some(json_from_i64(1)));
    let root_eos = first_value(json_get(&cfg, "eos_token_id"), opt_get(gen, "eos_token_id"), Some(json_from_i64(2)));
    let root_eos_again = first_value(json_get(&cfg, "eos_token_id"), opt_get(gen, "eos_token_id"), Some(json_from_i64(2)));
    let root_pad = first_value(json_get(&cfg, "pad_token_id"), opt_get(gen, "pad_token_id"), root_eos_again);
    let tc = json_get(&cfg, "text_config");
    let bos = collapse_id(first_value(opt_get(&tc, "bos_token_id"), root_bos, None), 128000);
    let eos = collapse_id(first_value(opt_get(&tc, "eos_token_id"), root_eos, None), 128001);
    let pad = collapse_id(first_value(opt_get(&tc, "pad_token_id"), root_pad, None), eos.1);
    let vocab = match first_value(opt_get(&tc, "vocab_size"), json_get(&cfg, "vocab_size"), None) {
        Some(x) => x,
        None => json_from_i64(128256),
    };
    assert(ids == (bos.0, eos.0, pad.0, vocab));
    let section = match settle_section(
        tc,
        (json_clone(&bos.0), json_clone(&eos.0), json_clone(&pad.0), json_clone(&vocab)),
    ) {
        Some(s) => s,
        None => {
            return Err(ConfigError::TextConfigNotObject);
        },
    };
    let fill = root_fill(
        json_get(&cfg, "torch_dtype").is_some(),
        json_get(&cfg, "ignore_index").is_some(),
        json_get(&cfg, "image_grid_pinpoints").is_some(),
        json_get(&cfg, "use_image_newline_parameter").is_some(),
    );
    proof {
        lemma_root_keys_distinct();
    }
    let mut out = cfg;
    let ghost o0 = out;
    json_set(&mut out, "text_config", section);
    let ghost o1 = out;
    json_set(&mut out, "vocab_size", vocab);
    let ghost o2 = out;
    json_set(&mut out, "bos_token_id", bos.0);
    let ghost o3 = out;
    json_set(&mut out, "eos_token_id", eos.0);
    let ghost o4 = out;
    json_set(&mut out, "pad_token_id", pad.0);
    let ghost o5 = out;
    assert(json_member(o5, "text_config"@) == json_member(o1, "text_config"@));
    assert(json_member(o5, "vocab_size"@) == json_member(o2, "vocab_size"@));
    assert(json_member(o5, "bos_token_id"@) == json_member(o3, "bos_token_id"@));
    assert(json_member(o5, "eos_token_id"@) == json_member(o4, "eos_token_id"@));
    match fill.torch_dtype {
        Some(d) => {
            proof {
                reveal_strlit("bfloat16");
            }
            json_set(&mut out, "torch_dtype", json_from_str(d.as_str()));
        },
        None => {},
    }
    let ghost o6 = out;
    match fill.ignore_index {
        Some(n) => {
            json_set(&mut out, "ignore_index", json_from_i64(n));
        },
        None => {},
    }
    let ghost o7 = out;
    if fill.empty_pinpoints {
        let empty: Vec<i64> = Vec::new();
        json_set(&mut out, "image_grid_pinpoints", json_from_i64s(empty));
    }
    let ghost o8 = out;
    match fill.use_image_newline_parameter {
        Some(b) => {
            json_set(&mut out, "use_image_newline_parameter", json_from_bool(b));
        },
        None => {},
    }
    assert forall|k: Seq<char>| !written_root_key(k) implies #[trigger] json_member(out, k) == json_member(cfg, k) by {
        assert(json_member(out, k) == json_member(o8, k));
        assert(json_member(o8, k) == json_member(o7, k));
        assert(json_member(o7, k) == json_member(o6, k));
        assert(json_member(o6, k) == json_member(o5, k));
        assert(json_member(o5, k) == json_member(o4, k));
        assert(json_member(o4, k) == json_member(o3, k));
        assert(json_member(o3, k) == json_member(o2, k));
        assert(json_member(o2, k) == json_member(o1, k));
        assert(json_member(o1, k) == json_member(o0, k));
    }
    assert(json_member(out, "text_config"@) == json_member(o5, "text_config"@));
    assert(json_member(out, "vocab_size"@) == json_member(o5, "vocab_size"@));
    assert(json_member(out, "bos_token_id"@) == json_member(o5, "bos_token_id"@));
    assert(json_member(out, "eos_token_id"@) == json_member(o5, "eos_token_id"@));
    assert(json_member(out, "pad_token_id"@) == json_member(o5, "pad_token_id"@));
    assert(json_member(out, "torch_dtype"@) == json_member(o6, "torch_dtype"@));
    assert(json_member(out, "ignore_index"@) == json_member(o7, "ignore_index"@));
    assert(json_member(out, "image_grid_pinpoints"@) == json_member(o8, "image_grid_pinpoints"@));
    Ok(out)
}

/// The generation config after normalisation: without one, an object of
/// BOS 128000, EOS 128001 and PAD 128001; one that is no object is kept;
/// otherwise BOS and EOS collapsed (defaulting to 128000 and 128001), PAD
/// kept when present and else set to that EOS, every other member as it
/// was.
pub open spec fn generation_settled(gen: Option<Value>, out: Value) -> bool {
    match gen {
        None => {
            &&& json_is_object(out)
            &&& json_member(out, "bos_token_id"@) == Some(json_int(128000))
            &&& json_member(out, "eos_token_id"@) == Some(json_int(128001))
            &&& json_member(out, "pad_token_id"@) == Some(json_int(128001))
            &&& forall|k: Seq<char>|
                k != "bos_token_id"@ && k != "eos_token_id"@ && k != "pad_token_id"@
                    ==> #[trigger] json_member(out, k) is None
        },
        Some(g) => if !json_is_object(g) {
            out == g
        } else {
            let e = collapsed_id(json_member(g, "eos_token_id"@), 128001).0;
            &&& json_is_object(out)
            &&& json_member(out, "bos_token_id"@) == Some(collapsed_id(json_member(g, "bos_token_id"@), 128000).0)
            &&& json_member(out, "eos_token_id"@) == Some(e)
            &&& json_member(out, "pad_token_id"@) == filled(json_member(g, "pad_token_id"@), e)
            &&& forall|k: Seq<char>|
                k != "bos_token_id"@ && k != "eos_token_id"@ && k != "pad_token_id"@
                    ==> #[trigger] json_member(out, k) == json_member(g, k)
        },
    }
}

fn settle_generation(gen: Option<Value>) -> (r: Value)
    ensures
        generation_settled(gen, r),
{
    proof {
        lemma_root_keys_distinct();
    }
    match gen {
        None => {
            let mut o = json_empty_object();
            let ghost o0 = o;
            json_set(&mut o, "bos_token_id", json_from_i64(128000));
            let ghost o1 = o;
            json_set(&mut o, "eos_token_id", json_from_i64(128001));
            let ghost o2 = o;
            json_set(&mut o, "pad_token_id", json_from_i64(128001));
            assert(json_member(o, "bos_token_id"@) == json_member(o1, "bos_token_id"@));
            assert(json_member(o, "eos_token_id"@) == json_member(o2, "eos_token_id"@));
            assert forall|k: Seq<char>|
                k != "bos_token_id"@ && k != "eos_token_id"@ && k != "pad_token_id"@
                    implies #[trigger] json_member(o, k) is None by {
                assert(json_member(o, k) == json_member(o2, k));
                assert(json_member(o2, k) == json_member(o1, k));
                assert(json_member(o1, k) == json_member(o0, k));
            }
            o
        },
        Some(g) => {
            if !json_object_test(&g) {
                return g;
            }
            let b = collapse_id(json_get(&g, "bos_token_id"), 128000).0;
            let e = collapse_id(json_get(&g, "eos_token_id"), 128001).0;
            let pad_present = json_get(&g, "pad_token_id").is_some();
            let ghost g0 = g;
            let mut o = g;
            json_set(&mut o, "bos_token_id", b);
            let ghost o1 = o;
            let e2 = json_clone(&e);
            json_set(&mut o, "eos_token_id", e);
            let ghost o2 = o;
            if !pad_present {
                json_set(&mut o, "pad_token_id", e2);
            }
            assert(json_member(o, "bos_token_id"@) == json_member(o1, "bos_token_id"@));
            assert(json_member(o, "eos_token_id"@) == json_member(o2, "eos_token_id"@));
            assert(json_member(o2, "pad_token_id"@) == json_member(o1, "pad_token_id"@));
            assert(json_member(o1, "pad_token_id"@) == json_member(g0, "pad_token_id"@));
            assert forall|k: Seq<char>|
                k != "bos_token_id"@ && k != "eos_token_id"@ && k != "pad_token_id"@
                    implies #[trigger] json_member(o, k) == json_member(g0, k) by {
                assert(json_member(o, k) == json_member(o2, k));
                assert(json_member(o2, k) == json_member(o1, k));
                assert(json_member(o1, k) == json_member(g0, k));
            }
            o
        },
    }
}

/// The `shortest_edge` a `size` object without one is given: its integer
/// `height`, else 384.
pub open spec fn size_edge(s: Value) -> i64 {
    match json_member(s, "height"@) {
        Some(h) => match json_i64(h) {
            Some(n) => n,
            None => 384,
        },
        None => 384,
    }
}

/// `o` is the object `base` (none: empty) with `shortest_edge` set to `e`.
pub open spec fn with_shortest_edge(base: Option<Value>, o: Value, e: i64) -> bool {
    &&& json_is_object(o)
    &&& json_member(o, "shortest_edge"@) == Some(json_int(e))
    &&& forall|k: Seq<char>| k != "shortest_edge"@ ==> #[trigger] json_member(o, k) == opt_member(base, k)
}

/// `c` is the default `crop_size`: 384 by 384.
pub open spec fn default_crop(c: Value) -> bool {
    &&& json_is_object(c)
    &&& json_member(c, "height"@) == Some(json_int(384))
    &&& json_member(c, "width"@) == Some(json_int(384))
    &&& forall|k: Seq<char>| k != "height"@ && k != "width"@ ==> #[trigger] json_member(c, k) is None
}

/// Whether a key of the preprocessor config is one the loader edits.
pub open spec fn written_preprocessor_key(k: Seq<char>) -> bool {
    ||| k == "image_aspect_ratio"@
    ||| k == "aspect_ratio_setting"@
    ||| k == "crop_size"@
    ||| k == "do_center_crop"@
    ||| k == "size"@
}

/// The preprocessor config after normalisation (none read: an empty one;
/// one that is no object is kept): `image_aspect_ratio` moved to
/// `aspect_ratio_setting`, which is "square" without it; `crop_size` 384 by
/// 384 and `do_center_crop` false where missing; a `size` object without
/// `shortest_edge` given one (its integer `height`, else 384), a missing
/// `size` created as `{ "shortest_edge": 384 }`; every other member as it
/// was.
pub open spec fn preprocessor_settled(pre: Option<Value>, out: Value) -> bool {
    if pre is Some && !json_is_object(pre->0) {
        out == pre->0
    } else {
        &&& json_is_object(out)
        &&& json_member(out, "aspect_ratio_setting"@) == filled(
            opt_member(pre, "image_aspect_ratio"@),
            json_text("square"@),
        )
        &&& json_member(out, "image_aspect_ratio"@) is None
        &&& if opt_member(pre, "crop_size"@) is Some {
            json_member(out, "crop_size"@) == opt_member(pre, "crop_size"@)
        } else {
            json_member(out, "crop_size"@) is Some && default_crop(json_member(out, "crop_size"@)->0)
        }
        &&& json_member(out, "do_center_crop"@) == filled(opt_member(pre, "do_center_crop"@), json_bool(false))
        &&& match opt_member(pre, "size"@) {
            None => json_member(out, "size"@) is Some && with_shortest_edge(
                None,
                json_member(out, "size"@)->0,
                384,
            ),
            Some(sz) => if json_is_object(sz) && json_member(sz, "shortest_edge"@) is None {
                json_member(out, "size"@) is Some && with_shortest_edge(
                    Some(sz),
                    json_member(out, "size"@)->0,
                    size_edge(sz),
                )
            } else {
                json_member(out, "size"@) == Some(sz)
            },
        }
        &&& forall|k: Seq<char>|
            !written_preprocessor_key(k) ==> #[trigger] json_member(out, k) == opt_member(pre, k)
    }
}

fn edge_object(base: Value, e: i64) -> (r: Value)
    requires
        json_is_object(base),
    ensures
        with_shortest_edge(Some(base), r, e),
{
    let mut o = base;
    json_set(&mut o, "shortest_edge", json_from_i64(e));
    o
}

fn settle_preprocessor(pre: Option<Value>) -> (r: Value)
    ensures
        preprocessor_settled(pre, r),
{
    let ghost pre0 = pre;
    let p = match pre {
        Some(v) => v,
        None => json_empty_object(),
    };
    if !json_object_test(&p) {
        return p;
    }
    assert(forall|k: Seq<char>| #[trigger] json_member(p, k) == opt_member(pre0, k));
    let shape = match json_get(&p, "size") {
        None => SizeShape::Missing,
        Some(sz) => if json_object_test(&sz) {
            let height = match json_get(&sz, "height") {
                Some(h) => json_as_i64(&h),
                None => None,
            };
            SizeShape::Object { has_shortest_edge: json_get(&sz, "shortest_edge").is_some(), height }
        } else {
            SizeShape::NotObject
        },
    };
    let fill = preprocessor_fill(
        json_get(&p, "image_aspect_ratio").is_some(),
        json_get(&p, "crop_size").is_some(),
        json_get(&p, "do_center_crop").is_some(),
        shape,
    );
    proof {
        lemma_preprocessor_keys_distinct();
        lemma_size_keys_distinct();
    }
    let ghost o0 = p;
    let mut o = p;
    let aspect = json_take(&mut o, "image_aspect_ratio");
    let ghost o1 = o;
    let a = match aspect {
        Some(a) => a,
        None => {
            let square = default_aspect_ratio_setting();
            proof {
                reveal_strlit("square");
                assert(square@ == "square"@);
            }
            json_from_str(square.as_str())
        },
    };
    json_set(&mut o, "aspect_ratio_setting", a);
    let ghost o2 = o;
    if fill.insert_crop_size {
        let mut c = json_empty_object();
        let ghost c0 = c;
        json_set(&mut c, "height", json_from_i64(384));
        let ghost c1 = c;
        json_set(&mut c, "width", json_from_i64(384));
        assert(json_member(c, "height"@) == json_member(c1, "height"@));
        assert forall|k: Seq<char>| k != "height"@ && k != "width"@ implies #[trigger] json_member(c, k) is None by {
            assert(json_member(c, k) == json_member(c1, k));
            assert(json_member(c1, k) == json_member(c0, k));
        }
        json_set(&mut o, "crop_size", c);
    }
    let ghost o3 = o;
    if fill.insert_do_center_crop {
        json_set(&mut o, "do_center_crop", json_from_bool(false));
    }
    let ghost o4 = o;
    match fill.size {
        SizeFill::Keep => {},
        SizeFill::AddShortestEdge(h) => {
            match json_get(&o, "size") {
                Some(sz) => {
                    let edged = edge_object(sz, h);
                    json_set(&mut o, "size", edged);
                },
                None => {},
            }
        },
        SizeFill::Create => {
            let empty = json_empty_object();
            let ghost em = empty;
            let edged = edge_object(empty, 384);
            assert forall|k: Seq<char>| k != "shortest_edge"@ implies #[trigger] json_member(edged, k) == opt_member(
                None,
                k,
            ) by {
                assert(json_member(edged, k) == opt_member(Some(em), k));
            }
            json_set(&mut o, "size", edged);
        },
    }
    assert(json_member(o4, "size"@) == json_member(o0, "size"@));
    assert(json_member(o, "aspect_ratio_setting"@) == json_member(o2, "aspect_ratio_setting"@));
    assert(json_member(o, "image_aspect_ratio"@) == json_member(o1, "image_aspect_ratio"@));
    assert(json_member(o, "crop_size"@) == json_member(o3, "crop_size"@));
    assert(json_member(o3, "crop_size"@) == json_member(o0, "crop_size"@) || fill.insert_crop_size);
    assert(json_member(o, "do_center_crop"@) == json_member(o4, "do_center_crop"@));
    assert forall|k: Seq<char>| !written_preprocessor_key(k) implies #[trigger] json_member(o, k) == opt_member(
        pre0,
        k,
    ) by {
        assert(json_member(o, k) == json_member(o4, k));
        assert(json_member(o4, k) == json_member(o3, k));
        assert(json_member(o3, k) == json_member(o2, k));
        assert(json_member(o2, k) == json_member(o1, k));
        assert(json_member(o1, k) == json_member(o0, k));
    }
    assert(json_is_object(o));
    assert(json_member(o, "aspect_ratio_setting"@) == json_member(o4, "aspect_ratio_setting"@));
    assert(json_member(o4, "aspect_ratio_setting"@) == json_member(o3, "aspect_ratio_setting"@));
    assert(json_member(o3, "aspect_ratio_setting"@) == json_member(o2, "aspect_ratio_setting"@));
    assert(json_member(o, "aspect_ratio_setting"@) == filled(
        opt_member(pre0, "image_aspect_ratio"@),
        json_text("square"@),
    ));
    assert(json_member(o, "image_aspect_ratio"@) is None);
    assert(if opt_member(pre0, "crop_size"@) is Some {
        json_member(o, "crop_size"@) == opt_member(pre0, "crop_size"@)
    } else {
        json_member(o, "crop_size"@) is Some && default_crop(json_member(o, "crop_size"@)->0)
    });
    assert(json_member(o, "do_center_crop"@) == filled(opt_member(pre0, "do_center_crop"@), json_bool(false)));
    o
}

/// The three configuration values of a model folder after normalisation,
/// ready to be read into the configuration types.
pub struct SettledConfig {
    pub config: Value,
    pub generation: Value,
    pub preprocessor: Value,
}

/// The JSON value parsed from the bytes of a file that may be missing.
pub open spec fn parsed_file(bytes: Option<Vec<u8>>) -> Option<Value> {
    match bytes {
        Some(b) => json_of_bytes(b@),
        None => None,
    }
}

/// The preprocessor config read: `preprocessor_config.json` when it holds
/// JSON, else `processor_config.json`.
pub open spec fn preprocessor_source(preprocessor: Option<Vec<u8>>, processor: Option<Vec<u8>>) -> Option<Value> {
    if parsed_file(preprocessor) is Some {
        parsed_file(preprocessor)
    } else {
        parsed_file(processor)
    }
}

fn parse_file(bytes: &Option<Vec<u8>>) -> (r: Option<Value>)
    ensures
        r == parsed_file(*bytes),
{
    match bytes {
        Some(b) => parse_json_bytes(b.as_slice()),
        None => None,
    }
}

/// Settles a model folder's configuration from the bytes of its files
/// (`config.json`, and `generation_config.json`, `preprocessor_config.json`
/// and `processor_config.json` where they could be read): the config as
/// [`config_settled`] describes, the generation config as
/// [`generation_settled`], the preprocessor config as
/// [`preprocessor_settled`]. Refused, as [`config_refusal`] says, when
/// `config.json` is no JSON object or its `text_config` is no object.
pub fn settle_model_config(
    config: &[u8],
    generation: Option<Vec<u8>>,
    preprocessor: Option<Vec<u8>>,
    processor: Option<Vec<u8>>,
) -> (r: Result<SettledConfig, ConfigError>)
    ensures
        match r {
            Ok(s) => {
                &&& config_refusal(json_of_bytes(config@)) is None
                &&& config_settled(json_of_bytes(config@)->0, parsed_file(generation), s.config)
                &&& generation_settled(parsed_file(generation), s.generation)
                &&& preprocessor_settled(preprocessor_source(preprocessor, processor), s.preprocessor)
            },
            Err(e) => config_refusal(json_of_bytes(config@)) == Some(e),
        },
{
    let cfg = match parse_json_bytes(config) {
        Some(c) => c,
        None => {
            return Err(ConfigError::Unparsable);
        },
    };
    let gen = parse_file(&generation);
    let settled = match settle_config(cfg, &gen) {
        Ok(c) => c,
        Err(e) => {
            return Err(e);
        },
    };
    let pre = match parse_file(&preprocessor) {
        Some(v) => Some(v),
        None => parse_file(&processor),
    };
    Ok(SettledConfig {
        config: settled,
        generation: settle_generation(gen),
        preprocessor: settle_preprocessor(pre),
    })
}

} // verus!
