//! Configuration of the local LLaVA-style captioning model: the defaults
//! used when a Hugging Face config file leaves a field out, the conversion
//! of the Hugging Face layout into the LLaVA layout, and the normalisation
//! of token ids that some files give as arrays.
//!
//! Fields that hold `f32` values are carried as their IEEE-754 bit patterns
//! (`*_bits`); the conversions copy them without computing on them.
use vstd::prelude::*;
use crate::text::copy_strings;

verus! {

pub fn default_image_token_index() -> (r: isize)
    ensures
        r == -200,
{
    -200
}

pub fn default_mm_patch_merge_type() -> (r: String)
    ensures
        r@ == seq!['f', 'l', 'a', 't'],
{
    proof {
        reveal_strlit("flat");
    }
    "flat".to_owned()
}

pub fn default_image_aspect_ratio() -> (r: String)
    ensures
        r@ == seq!['s', 'q', 'u', 'a', 'r', 'e'],
{
    proof {
        reveal_strlit("square");
    }
    "square".to_owned()
}

pub fn default_num_hidden_layers() -> (r: usize)
    ensures
        r == 32,
{
    32
}

pub fn default_use_cache() -> (r: bool)
    ensures
        r,
{
    true
}

pub fn default_hidden_size() -> (r: usize)
    ensures
        r == 4096,
{
    4096
}

pub fn default_intermediate_size() -> (r: usize)
    ensures
        r == 11008,
{
    11008
}

pub fn default_max_length() -> (r: usize)
    ensures
        r == 4096,
{
    4096
}

pub fn default_num_attention_heads() -> (r: usize)
    ensures
        r == 32,
{
    32
}

pub fn default_num_key_value_heads() -> (r: usize)
    ensures
        r == 32,
{
    32
}

pub fn default_max_position_embeddings() -> (r: usize)
    ensures
        r == 4096,
{
    4096
}

pub fn default_model_type() -> (r: String)
    ensures
        r@ == seq!['l', 'l', 'a', 'v', 'a'],
{
    proof {
        reveal_strlit("llava");
    }
    "llava".to_owned()
}

pub fn default_pad_token_id() -> (r: usize)
    ensures
        r == 0,
{
    0
}

pub fn default_torch_dtype() -> (r: String)
    ensures
        r@ == seq!['f', 'l', 'o', 'a', 't', '1', '6'],
{
    proof {
        reveal_strlit("float16");
    }
    "float16".to_owned()
}

pub fn default_vocab_size() -> (r: usize)
    ensures
        r == 32000,
{
    32000
}

pub fn default_vision_hidden_size() -> (r: usize)
    ensures
        r == 1024,
{
    1024
}

pub fn default_vision_image_size() -> (r: usize)
    ensures
        r == 336,
{
    336
}

pub fn default_vision_intermediate_size() -> (r: usize)
    ensures
        r == 4096,
{
    4096
}

pub fn default_vision_model_type() -> (r: String)
    ensures
        r@ == seq![
            'c',
            'l',
            'i',
            'p',
            '_',
            'v',
            'i',
            's',
            'i',
            'o',
            'n',
            '_',
            'm',
            'o',
            'd',
            'e',
            'l',
        ],
{
    proof {
        reveal_strlit("clip_vision_model");
    }
    "clip_vision_model".to_owned()
}

pub fn default_vision_num_attention_heads() -> (r: usize)
    ensures
        r == 16,
{
    16
}

pub fn default_vision_num_hidden_layers() -> (r: usize)
    ensures
        r == 24,
{
    24
}

pub fn default_vision_patch_size() -> (r: usize)
    ensures
        r == 14,
{
    14
}

pub fn default_vision_projection_dim() -> (r: usize)
    ensures
        r == 1024,
{
    1024
}

pub fn default_ignore_index() -> (r: isize)
    ensures
        r == -1,
{
    -1
}

pub fn default_projector_hidden_act() -> (r: String)
    ensures
        r@ == seq!['g', 'e', 'l', 'u'],
{
    proof {
        reveal_strlit("gelu");
    }
    "gelu".to_owned()
}

pub fn default_vision_feature_layer() -> (r: isize)
    ensures
        r == -2,
{
    -2
}

pub fn default_vision_feature_select_strategy() -> (r: String)
    ensures
        r@ == seq!['d', 'e', 'f', 'a', 'u', 'l', 't'],
{
    proof {
        reveal_strlit("default");
    }
    "default".to_owned()
}

pub fn default_bos_token_id() -> (r: usize)
    ensures
        r == 1,
{
    1
}

pub fn default_eos_token_id() -> (r: usize)
    ensures
        r == 2,
{
    2
}

pub fn default_aspect_ratio_setting() -> (r: String)
    ensures
        r@ == seq!['s', 'q', 'u', 'a', 'r', 'e'],
{
    proof {
        reveal_strlit("square");
    }
    "square".to_owned()
}

/// The default crop size, as `(key, value)` entries: height and width 384.
pub fn default_crop_size() -> (r: Vec<(String, usize)>)
    ensures
        r@.len() == 2,
        r@[0].0@ == seq!['h', 'e', 'i', 'g', 'h', 't'],
        r@[0].1 == 384,
        r@[1].0@ == seq!['w', 'i', 'd', 't', 'h'],
        r@[1].1 == 384,
{
    proof {
        reveal_strlit("height");
        reveal_strlit("width");
    }
    let mut m: Vec<(String, usize)> = Vec::new();
    m.push(("height".to_owned(), 384));
    m.push(("width".to_owned(), 384));
    m
}

pub fn default_true() -> (r: bool)
    ensures
        r,
{
    true
}

pub fn default_resample() -> (r: u32)
    ensures
        r == 3,
{
    3
}

/// The vision tower section of a Hugging Face LLaVA config.
pub struct HFLLaVAVisionConfig {
    pub hidden_size: usize,
    pub image_size: usize,
    pub intermediate_size: usize,
    pub model_type: String,
    pub num_attention_heads: usize,
    pub num_hidden_layers: usize,
    pub patch_size: usize,
    pub projection_dim: usize,
    pub vocab_size: usize,
}

impl HFLLaVAVisionConfig {
    /// The section with every field at its default.
    pub fn with_defaults() -> (r: Self)
        ensures
            r.hidden_size == 1024,
            r.image_size == 336,
            r.intermediate_size == 4096,
            r.model_type@ == seq![
                'c',
                'l',
                'i',
                'p',
                '_',
                'v',
                'i',
                's',
                'i',
                'o',
                'n',
                '_',
                'm',
                'o',
                'd',
                'e',
                'l',
            ],
            r.num_attention_heads == 16,
            r.num_hidden_layers == 24,
            r.patch_size == 14,
            r.projection_dim == 1024,
            r.vocab_size == 32000,
    {
        HFLLaVAVisionConfig {
            hidden_size: default_vision_hidden_size(),
            image_size: default_vision_image_size(),
            intermediate_size: default_vision_intermediate_size(),
            model_type: default_vision_model_type(),
            num_attention_heads: default_vision_num_attention_heads(),
            num_hidden_layers: default_vision_num_hidden_layers(),
            patch_size: default_vision_patch_size(),
            projection_dim: default_vision_projection_dim(),
            vocab_size: default_vocab_size(),
        }
    }
}

/// The token ids and length limit of a Hugging Face generation config.
pub struct HFGenerationConfig {
    pub bos_token_id: usize,
    pub eos_token_id: usize,
    pub max_length: usize,
    pub pad_token_id: usize,
}

impl HFGenerationConfig {
    /// The config with every field at its default.
    pub fn with_defaults() -> (r: Self)
        ensures
            r.bos_token_id == 1,
            r.eos_token_id == 2,
            r.max_length == 4096,
            r.pad_token_id == 0,
    {
        HFGenerationConfig {
            bos_token_id: default_bos_token_id(),
            eos_token_id: default_eos_token_id(),
            max_length: default_max_length(),
            pad_token_id: default_pad_token_id(),
        }
    }
}

/// The text model section of a Hugging Face LLaVA config.
pub struct HFLLaVATextConfig {
    pub architectures: Vec<String>,
    pub hidden_size: usize,
    pub intermediate_size: usize,
    pub max_length: usize,
    pub max_position_embeddings: usize,
    pub model_type: String,
    pub num_attention_heads: usize,
    pub num_hidden_layers: usize,
    pub num_key_value_heads: usize,
    pub pad_token_id: usize,
    pub rms_norm_eps_bits: u32,
    pub rope_theta_bits: u32,
    pub torch_dtype: String,
    pub use_cache: bool,
    pub vocab_size: usize,
}

/// A Hugging Face LLaVA config (`config.json`).
pub struct HFLLaVAConfig {
    pub architectures: Vec<String>,
    pub ignore_index: isize,
    pub image_grid_pinpoints: Vec<(u32, u32)>,
    pub image_token_index: isize,
    pub model_type: String,
    pub projector_hidden_act: String,
    pub text_config: HFLLaVATextConfig,
    pub torch_dtype: String,
    pub use_image_newline_parameter: bool,
    pub vision_config: HFLLaVAVisionConfig,
    pub vision_feature_layer: isize,
    pub vision_feature_select_strategy: String,
    pub vocab_size: usize,
}

/// A Hugging Face preprocessor config. Maps are kept as `(key, value)`
/// entries.
pub struct HFPreProcessorConfig {
    pub aspect_ratio_setting: String,
    pub crop_size: Vec<(String, usize)>,
    pub do_center_crop: bool,
    pub do_convert_rgb: bool,
    pub do_normalize: bool,
    pub do_rescale: bool,
    pub do_resize: bool,
    pub image_mean_bits: Vec<u32>,
    pub image_std_bits: Vec<u32>,
    pub resample: u32,
    pub rescale_factor_bits: u32,
    pub size_bits: Vec<(String, u32)>,
}

/// The original LLaVA config layout that the model loader reads.
pub struct LLaVAConfig {
    pub name_or_path: String,
    pub architectures: Vec<String>,
    pub bos_token_id: usize,
    pub eos_token_id: usize,
    pub hidden_size: usize,
    pub image_aspect_ratio: String,
    pub image_crop_resolution: usize,
    pub image_grid_pinpoints: Vec<(u32, u32)>,
    pub image_split_resolution: usize,
    pub intermediate_size: usize,
    pub max_position_embeddings: usize,
    pub mm_hidden_size: usize,
    pub mm_patch_merge_type: String,
    pub mm_projector_type: String,
    pub mm_use_im_start_end: bool,
    pub mm_vision_select_feature: String,
    pub mm_vision_select_layer: isize,
    pub mm_vision_tower: Option<String>,
    pub model_type: String,
    pub num_attention_heads: usize,
    pub num_hidden_layers: usize,
    pub num_key_value_heads: usize,
    pub pad_token_id: usize,
    pub rms_norm_eps_bits: u32,
    pub rope_theta_bits: u32,
    pub tokenizer_model_max_length: Option<usize>,
    pub torch_dtype: String,
    pub use_cache: bool,
    pub vocab_size: usize,
    pub image_token_index: isize,
}

/// The activation function of the CLIP vision tower's layers.
#[derive(Clone, Copy, Debug, PartialEq, Eq, Structural)]
pub enum Activation {
    QuickGelu,
}

/// The dimensions and activation of the CLIP vision tower built from a
/// config.
pub struct ClipVisionParams {
    pub embed_dim: usize,
    pub activation: Activation,
    pub intermediate_size: usize,
    pub num_hidden_layers: usize,
    pub num_attention_heads: usize,
    pub projection_dim: usize,
    pub num_channels: usize,
    pub image_size: usize,
    pub patch_size: usize,
}

/// The projector type named by a projector activation.
pub open spec fn projector_type_of(s: Seq<char>) -> Seq<char> {
    if s == seq!['g', 'e', 'l', 'u'] {
        seq!['m', 'l', 'p', '2', 'x', '_', 'g', 'e', 'l', 'u']
    } else {
        s
    }
}

/// The feature selection named by a selection strategy.
pub open spec fn select_feature_of(s: Seq<char>) -> Seq<char> {
    if s == seq!['d', 'e', 'f', 'a', 'u', 'l', 't'] {
        seq!['p', 'a', 't', 'c', 'h']
    } else {
        seq!['c', 'l', 's', '_', 'p', 'a', 't', 'c', 'h']
    }
}

fn copy_pinpoints(v: &Vec<(u32, u32)>) -> (r: Vec<(u32, u32)>)
    ensures
        r@ == v@,
{
    let mut r: Vec<(u32, u32)> = Vec::new();
    let mut i: usize = 0;
    while i < v.len()
        invariant
            i <= v.len(),
            r@ == v@.take(i as int),
        decreases v.len() - i,
    {
        r.push(v[i]);
        assert(v@.take(i + 1) =~= v@.take(i as int).push(v@[i as int]));
        i = i + 1;
    }
    assert(v@.take(v.len() as int) =~= v@);
    r
}

impl HFLLaVAConfig {
    pub fn map_projector_type(s: &str) -> (r: String)
        ensures
            r@ == projector_type_of(s@),
    {
        proof {
            reveal_strlit("gelu");
            reveal_strlit("mlp2x_gelu");
            assert("gelu"@ =~= seq!['g', 'e', 'l', 'u']);
            assert("mlp2x_gelu"@ =~= seq!['m', 'l', 'p', '2', 'x', '_', 'g', 'e', 'l', 'u']);
        }
        if crate::text::str_eq(s, "gelu") {
            "mlp2x_gelu".to_owned()
        } else {
            s.to_owned()
        }
    }

    pub fn map_select_feature(s: &str) -> (r: String)
        ensures
            r@ == select_feature_of(s@),
    {
        proof {
            reveal_strlit("default");
            reveal_strlit("patch");
            reveal_strlit("cls_patch");
            assert("default"@ =~= seq!['d', 'e', 'f', 'a', 'u', 'l', 't']);
            assert("patch"@ =~= seq!['p', 'a', 't', 'c', 'h']);
            assert("cls_patch"@ =~= seq!['c', 'l', 's', '_', 'p', 'a', 't', 'c', 'h']);
        }
        if crate::text::str_eq(s, "default") {
            "patch".to_owned()
        } else {
            "cls_patch".to_owned()
        }
    }

    /// The CLIP vision tower dimensions. The projection dimension is forced
    /// to the hidden size, which some checkpoints require.
    pub fn to_clip_vision_config(&self) -> (r: ClipVisionParams)
        ensures
            r.embed_dim == self.vision_config.hidden_size,
            r.activation == Activation::QuickGelu,
            r.intermediate_size == self.vision_config.intermediate_size,
            r.num_hidden_layers == self.vision_config.num_hidden_layers,
            r.num_attention_heads == self.vision_config.num_attention_heads,
            r.projection_dim == self.vision_config.hidden_size,
            r.num_channels == 3,
            r.image_size == self.vision_config.image_size,
            r.patch_size == self.vision_config.patch_size,
    {
        let projection_dim = if self.vision_config.projection_dim
            != self.vision_config.hidden_size {
            self.vision_config.hidden_size
        } else {
            self.vision_config.projection_dim
        };
        ClipVisionParams {
            embed_dim: self.vision_config.hidden_size,
            activation: Activation::QuickGelu,
            intermediate_size: self.vision_config.intermediate_size,
            num_hidden_layers: self.vision_config.num_hidden_layers,
            num_attention_heads: self.vision_config.num_attention_heads,
            projection_dim,
            num_channels: 3,
            image_size: self.vision_config.image_size,
            patch_size: self.vision_config.patch_size,
        }
    }

    /// The LLaVA layout of this config, under the given model name, with
    /// the token ids of the generation config and the aspect-ratio setting
    /// of the preprocessor config.
    pub fn to_llava_config(
        &self,
        name: &str,
        generation_config: &HFGenerationConfig,
        preprocessor_config: &HFPreProcessorConfig,
    ) -> (r: LLaVAConfig)
        ensures
            r.name_or_path@ == name@,
            r.architectures@ == self.architectures@,
            r.bos_token_id == generation_config.bos_token_id,
            r.eos_token_id == generation_config.eos_token_id,
            r.hidden_size == self.text_config.hidden_size,
            r.image_aspect_ratio == preprocessor_config.aspect_ratio_setting,
            r.image_crop_resolution == 224,
            r.image_grid_pinpoints@ == self.image_grid_pinpoints@,
            r.image_split_resolution == 224,
            r.intermediate_size == self.text_config.intermediate_size,
            r.max_position_embeddings == self.text_config.max_position_embeddings,
            r.mm_hidden_size == self.vision_config.hidden_size,
            r.mm_patch_merge_type@ == seq![
                's',
                'p',
                'a',
                't',
                'i',
                'a',
                'l',
                '_',
                'u',
                'n',
                'p',
                'a',
                'd',
            ],
            r.mm_projector_type@ == projector_type_of(self.projector_hidden_act@),
            !r.mm_use_im_start_end,
            r.mm_vision_select_feature@ == select_feature_of(
                self.vision_feature_select_strategy@,
            ),
            r.mm_vision_select_layer == self.vision_feature_layer,
            r.mm_vision_tower is None,
            r.model_type == self.model_type,
            r.num_attention_heads == self.text_config.num_attention_heads,
            r.num_hidden_layers == self.text_config.num_hidden_layers,
            r.num_key_value_heads == self.text_config.num_key_value_heads,
            r.pad_token_id == self.text_config.pad_token_id,
            r.rms_norm_eps_bits == self.text_config.rms_norm_eps_bits,
            r.rope_theta_bits == self.text_config.rope_theta_bits,
            r.tokenizer_model_max_length == Some(4096usize),
            r.torch_dtype == self.torch_dtype,
            r.use_cache == self.text_config.use_cache,
            r.vocab_size == self.vocab_size,
            r.image_token_index == self.image_token_index,
    {
        proof {
            reveal_strlit("spatial_unpad");
        }
        LLaVAConfig {
            name_or_path: name.to_owned(),
            architectures: copy_strings(&self.architectures),
            bos_token_id: generation_config.bos_token_id,
            eos_token_id: generation_config.eos_token_id,
            hidden_size: self.text_config.hidden_size,
            image_aspect_ratio: preprocessor_config.aspect_ratio_setting.clone(),
            image_crop_resolution: 224,
            image_grid_pinpoints: copy_pinpoints(&self.image_grid_pinpoints),
            image_split_resolution: 224,
            intermediate_size: self.text_config.intermediate_size,
            max_position_embeddings: self.text_config.max_position_embeddings,
            mm_hidden_size: self.vision_config.hidden_size,
            mm_patch_merge_type: "spatial_unpad".to_owned(),
            mm_projector_type: Self::map_projector_type(self.projector_hidden_act.as_str()),
            mm_use_im_start_end: false,
            mm_vision_select_feature: Self::map_select_feature(
                self.vision_feature_select_strategy.as_str(),
            ),
            mm_vision_select_layer: self.vision_feature_layer,
            mm_vision_tower: None,
            model_type: self.model_type.clone(),
            num_attention_heads: self.text_config.num_attention_heads,
            num_hidden_layers: self.text_config.num_hidden_layers,
            num_key_value_heads: self.text_config.num_key_value_heads,
            pad_token_id: self.text_config.pad_token_id,
            rms_norm_eps_bits: self.text_config.rms_norm_eps_bits,
            rope_theta_bits: self.text_config.rope_theta_bits,
            tokenizer_model_max_length: Some(4096),
            torch_dtype: self.torch_dtype.clone(),
            use_cache: self.text_config.use_cache,
            vocab_size: self.vocab_size,
            image_token_index: self.image_token_index,
        }
    }
}

/// A token id as a config file may give it: a number or an array of
/// numbers.
pub enum UsizeOrVec {
    U(usize),
    V(Vec<usize>),
}

/// An array of token ids was empty.
pub struct EmptyTokenIdArray;

impl EmptyTokenIdArray {
    /// The message reported for an empty array of token ids.
    pub fn message(&self) -> (r: String)
        ensures
            r@ == "empty array for token id"@,
    {
        "empty array for token id".to_owned()
    }
}

/// The token id given by a number or an array: the number itself, or the
/// first element of a non-empty array (any further ids are ignored).
pub fn usize_or_seq_value(v: UsizeOrVec) -> (r: Result<usize, EmptyTokenIdArray>)
    ensures
        match v {
            UsizeOrVec::U(u) => r == Ok::<usize, EmptyTokenIdArray>(u),
            UsizeOrVec::V(vec) => if vec@.len() == 0 {
                r is Err
            } else {
                r == Ok::<usize, EmptyTokenIdArray>(vec@[0])
            },
        },
{
    match v {
        UsizeOrVec::U(u) => Ok(u),
        UsizeOrVec::V(vec) => {
            if vec.len() == 0 {
                Err(EmptyTokenIdArray)
            } else {
                Ok(vec[0])
            }
        },
    }
}

/// What a JSON config holds under a token-id key, as far as the loader
/// looks at it.
#[derive(Clone, Copy)]
pub enum IdField {
    /// A number that fits an `i64`.
    Int(i64),
    /// A number that does not fit an `i64`.
    OtherNumber,
    /// An array, with its first element when that is an `i64` number.
    Array(Option<i64>),
    /// Any other JSON value, left as it is.
    Other,
}

/// A token id collapsed to a single number: the value to write back and
/// the numeric id to use. Numbers and arrays become that number (the
/// default when it is not an `i64`); another value is kept and the default
/// used; a missing key becomes the default.
pub open spec fn scalarized(f: Option<IdField>, default: i64) -> (IdField, i64) {
    match f {
        Some(IdField::Int(n)) => (IdField::Int(n), n),
        Some(IdField::OtherNumber) => (IdField::Int(default), default),
        Some(IdField::Array(Some(n))) => (IdField::Int(n), n),
        Some(IdField::Array(None)) => (IdField::Int(default), default),
        Some(IdField::Other) => (IdField::Other, default),
        None => (IdField::Int(default), default),
    }
}

pub fn scalarize_id(f: Option<IdField>, default: i64) -> (r: (IdField, i64))
    ensures
        r == scalarized(f, default),
{
    match f {
        Some(IdField::Int(n)) => (IdField::Int(n), n),
        Some(IdField::OtherNumber) => (IdField::Int(default), default),
        Some(IdField::Array(Some(n))) => (IdField::Int(n), n),
        Some(IdField::Array(None)) => (IdField::Int(default), default),
        Some(IdField::Other) => (IdField::Other, default),
        None => (IdField::Int(default), default),
    }
}

/// The first of three sources that has a value.
pub open spec fn first_present<T>(a: Option<T>, b: Option<T>, c: Option<T>) -> Option<T> {
    if a is Some {
        a
    } else if b is Some {
        b
    } else {
        c
    }
}

/// The model name the captioning model's converted config is recorded
/// under.
pub fn joycaption_model_id() -> (r: String)
    ensures
        r@ == "fancyfeast/llama-joycaption-beta-one-hf-llava"@,
{
    "fancyfeast/llama-joycaption-beta-one-hf-llava".to_owned()
}

} // verus!
