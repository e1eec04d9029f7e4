//! Model taxonomy: the base architectures, model kinds, variants and
//! formats that the model manager understands, each with its wire name.
use vstd::prelude::*;

verus! {
/// Base architecture a model belongs to.
#[derive(Debug, Clone, Copy, PartialEq, Eq, Hash)]
pub enum BaseModelType {
    Any,
    StableDiffusion1,
    StableDiffusion2,
    StableDiffusion3,
    StableDiffusionXL,
    StableDiffusionXLRefiner,
    Flux,
    Flux2,
    CogView4,
    ZImage,
    Unknown,
}
impl BaseModelType {
    /// The wire name (as used in configuration files and the database).
    pub open spec fn name(self) -> Seq<char> {
        match self {
            BaseModelType::Any => seq!['a', 'n', 'y'],
            BaseModelType::StableDiffusion1 => seq!['s', 'd', '-', '1'],
            BaseModelType::StableDiffusion2 => seq!['s', 'd', '-', '2'],
            BaseModelType::StableDiffusion3 => seq!['s', 'd', '-', '3'],
            BaseModelType::StableDiffusionXL => seq!['s', 'd', 'x', 'l'],
            BaseModelType::StableDiffusionXLRefiner => seq!['s', 'd', 'x', 'l', '-', 'r', 'e', 'f', 'i', 'n', 'e', 'r'],
            BaseModelType::Flux => seq!['f', 'l', 'u', 'x'],
            BaseModelType::Flux2 => seq!['f', 'l', 'u', 'x', '2'],
            BaseModelType::CogView4 => seq!['c', 'o', 'g', 'v', 'i', 'e', 'w', '4'],
            BaseModelType::ZImage => seq!['z', '-', 'i', 'm', 'a', 'g', 'e'],
            BaseModelType::Unknown => seq!['u', 'n', 'k', 'n', 'o', 'w', 'n'],
        }
    }

    pub fn as_str(&self) -> (s: &'static str)
        ensures
            s@ == self.name(),
    {
        match self {
            BaseModelType::Any => {
                proof {
                    reveal_strlit("any");
                }
                "any"
            },
            BaseModelType::StableDiffusion1 => {
                proof {
                    reveal_strlit("sd-1");
                }
                "sd-1"
            },
            BaseModelType::StableDiffusion2 => {
                proof {
                    reveal_strlit("sd-2");
                }
                "sd-2"
            },
            BaseModelType::StableDiffusion3 => {
                proof {
                    reveal_strlit("sd-3");
                }
                "sd-3"
            },
            BaseModelType::StableDiffusionXL => {
                proof {
                    reveal_strlit("sdxl");
                }
                "sdxl"
            },
            BaseModelType::StableDiffusionXLRefiner => {
                proof {
                    reveal_strlit("sdxl-refiner");
                }
                "sdxl-refiner"
            },
            BaseModelType::Flux => {
                proof {
                    reveal_strlit("flux");
                }
                "flux"
            },
            BaseModelType::Flux2 => {
                proof {
                    reveal_strlit("flux2");
                }
                "flux2"
            },
            BaseModelType::CogView4 => {
                proof {
                    reveal_strlit("cogview4");
                }
                "cogview4"
            },
            BaseModelType::ZImage => {
                proof {
                    reveal_strlit("z-image");
                }
                "z-image"
            },
            BaseModelType::Unknown => {
                proof {
                    reveal_strlit("unknown");
                }
                "unknown"
            },
        }
    }
}

/// Distinct BaseModelType values have distinct wire names, so the name identifies the value.
pub proof fn lemma_base_model_type_names_distinct(a: BaseModelType, b: BaseModelType)
    requires
        a != b,
    ensures
        a.name() != b.name(),
{
    if a.name() == b.name() {
        assert(a.name().len() == b.name().len());
    }
}

/// Kind of model (main model, VAE, LoRA, encoder, ...).
#[derive(Debug, Clone, Copy, PartialEq, Eq, Hash)]
pub enum ModelType {
    ONNX,
    Main,
    VAE,
    LoRA,
    ControlLoRa,
    ControlNet,
    TextualInversion,
    IPAdapter,
    CLIPVision,
    CLIPEmbed,
    T2IAdapter,
    T5Encoder,
    Qwen3Encoder,
    SpandrelImageToImage,
    SigLIP,
    FluxRedux,
    LlavaOnevision,
    Unknown,
}
impl ModelType {
    /// The wire name (as used in configuration files and the database).
    pub open spec fn name(self) -> Seq<char> {
        match self {
            ModelType::ONNX => seq!['o', 'n', 'n', 'x'],
            ModelType::Main => seq!['m', 'a', 'i', 'n'],
            ModelType::VAE => seq!['v', 'a', 'e'],
            ModelType::LoRA => seq!['l', 'o', 'r', 'a'],
            ModelType::ControlLoRa => seq!['c', 'o', 'n', 't', 'r', 'o', 'l', '_', 'l', 'o', 'r', 'a'],
            ModelType::ControlNet => seq!['c', 'o', 'n', 't', 'r', 'o', 'l', 'n', 'e', 't'],
            ModelType::TextualInversion => seq!['e', 'm', 'b', 'e', 'd', 'd', 'i', 'n', 'g'],
            ModelType::IPAdapter => seq!['i', 'p', '_', 'a', 'd', 'a', 'p', 't', 'e', 'r'],
            ModelType::CLIPVision => seq!['c', 'l', 'i', 'p', '_', 'v', 'i', 's', 'i', 'o', 'n'],
            ModelType::CLIPEmbed => seq!['c', 'l', 'i', 'p', '_', 'e', 'm', 'b', 'e', 'd'],
            ModelType::T2IAdapter => seq!['t', '2', 'i', '_', 'a', 'd', 'a', 'p', 't', 'e', 'r'],
            ModelType::T5Encoder => seq!['t', '5', '_', 'e', 'n', 'c', 'o', 'd', 'e', 'r'],
            ModelType::Qwen3Encoder => seq!['q', 'w', 'e', 'n', '3', '_', 'e', 'n', 'c', 'o', 'd', 'e', 'r'],
            ModelType::SpandrelImageToImage => seq!['s', 'p', 'a', 'n', 'd', 'r', 'e', 'l', '_', 'i', 'm', 'a', 'g', 'e', '_', 't', 'o', '_', 'i', 'm', 'a', 'g', 'e'],
            ModelType::SigLIP => seq!['s', 'i', 'g', 'l', 'i', 'p'],
            ModelType::FluxRedux => seq!['f', 'l', 'u', 'x', '_', 'r', 'e', 'd', 'u', 'x'],
            ModelType::LlavaOnevision => seq!['l', 'l', 'a', 'v', 'a', '_', 'o', 'n', 'e', 'v', 'i', 's', 'i', 'o', 'n'],
            ModelType::Unknown => seq!['u', 'n', 'k', 'n', 'o', 'w', 'n'],
        }
    }

    pub fn as_str(&self) -> (s: &'static str)
        ensures
            s@ == self.name(),
    {
        match self {
            ModelType::ONNX => {
                proof {
                    reveal_strlit("onnx");
                }
                "onnx"
            },
            ModelType::Main => {
                proof {
                    reveal_strlit("main");
                }
                "main"
            },
            ModelType::VAE => {
                proof {
                    reveal_strlit("vae");
                }
                "vae"
            },
            ModelType::LoRA => {
                proof {
                    reveal_strlit("lora");
                }
                "lora"
            },
            ModelType::ControlLoRa => {
                proof {
                    reveal_strlit("control_lora");
                }
                "control_lora"
            },
            ModelType::ControlNet => {
                proof {
                    reveal_strlit("controlnet");
                }
                "controlnet"
            },
            ModelType::TextualInversion => {
                proof {
                    reveal_strlit("embedding");
                }
                "embedding"
            },
            ModelType::IPAdapter => {
                proof {
                    reveal_strlit("ip_adapter");
                }
                "ip_adapter"
            },
            ModelType::CLIPVision => {
                proof {
                    reveal_strlit("clip_vision");
                }
                "clip_vision"
            },
            ModelType::CLIPEmbed => {
                proof {
                    reveal_strlit("clip_embed");
                }
                "clip_embed"
            },
            ModelType::T2IAdapter => {
                proof {
                    reveal_strlit("t2i_adapter");
                }
                "t2i_adapter"
            },
            ModelType::T5Encoder => {
                proof {
                    reveal_strlit("t5_encoder");
                }
                "t5_encoder"
            },
            ModelType::Qwen3Encoder => {
                proof {
                    reveal_strlit("qwen3_encoder");
                }
                "qwen3_encoder"
            },
            ModelType::SpandrelImageToImage => {
                proof {
                    reveal_strlit("spandrel_image_to_image");
                }
                "spandrel_image_to_image"
            },
            ModelType::SigLIP => {
                proof {
                    reveal_strlit("siglip");
                }
                "siglip"
            },
            ModelType::FluxRedux => {
                proof {
                    reveal_strlit("flux_redux");
                }
                "flux_redux"
            },
            ModelType::LlavaOnevision => {
                proof {
                    reveal_strlit("llava_onevision");
                }
                "llava_onevision"
            },
            ModelType::Unknown => {
                proof {
                    reveal_strlit("unknown");
                }
                "unknown"
            },
        }
    }
}

/// Distinct ModelType values have distinct wire names, so the name identifies the value.
pub proof fn lemma_model_type_names_distinct(a: ModelType, b: ModelType)
    requires
        a != b,
    ensures
        a.name() != b.name(),
{
    if a.name() == b.name() {
        assert(a.name().len() == b.name().len());
    }
}

/// Component of a multi-part (diffusers-style) model.
#[derive(Debug, Clone, Copy, PartialEq, Eq, Hash)]
pub enum SubModelType {
    UNet,
    Transformer,
    TextEncoder,
    TextEncoder2,
    TextEncoder3,
    Tokenizer,
    Tokenizer2,
    Tokenizer3,
    VAE,
    VAEDecoder,
    VAEEncoder,
    Scheduler,
    SafetyChecker,
}
impl SubModelType {
    /// The wire name (as used in configuration files and the database).
    pub open spec fn name(self) -> Seq<char> {
        match self {
            SubModelType::UNet => seq!['u', 'n', 'e', 't'],
            SubModelType::Transformer => seq!['t', 'r', 'a', 'n', 's', 'f', 'o', 'r', 'm', 'e', 'r'],
            SubModelType::TextEncoder => seq!['t', 'e', 'x', 't', '_', 'e', 'n', 'c', 'o', 'd', 'e', 'r'],
            SubModelType::TextEncoder2 => seq!['t', 'e', 'x', 't', '_', 'e', 'n', 'c', 'o', 'd', 'e', 'r', '_', '2'],
            SubModelType::TextEncoder3 => seq!['t', 'e', 'x', 't', '_', 'e', 'n', 'c', 'o', 'd', 'e', 'r', '_', '3'],
            SubModelType::Tokenizer => seq!['t', 'o', 'k', 'e', 'n', 'i', 'z', 'e', 'r'],
            SubModelType::Tokenizer2 => seq!['t', 'o', 'k', 'e', 'n', 'i', 'z', 'e', 'r', '_', '2'],
            SubModelType::Tokenizer3 => seq!['t', 'o', 'k', 'e', 'n', 'i', 'z', 'e', 'r', '_', '3'],
            SubModelType::VAE => seq!['v', 'a', 'e'],
            SubModelType::VAEDecoder => seq!['v', 'a', 'e', '_', 'd', 'e', 'c', 'o', 'd', 'e', 'r'],
            SubModelType::VAEEncoder => seq!['v', 'a', 'e', '_', 'e', 'n', 'c', 'o', 'd', 'e', 'r'],
            SubModelType::Scheduler => seq!['s', 'c', 'h', 'e', 'd', 'u', 'l', 'e', 'r'],
            SubModelType::SafetyChecker => seq!['s', 'a', 'f', 'e', 't', 'y', '_', 'c', 'h', 'e', 'c', 'k', 'e', 'r'],
        }
    }

    pub fn as_str(&self) -> (s: &'static str)
        ensures
            s@ == self.name(),
    {
        match self {
            SubModelType::UNet => {
                proof {
                    reveal_strlit("unet");
                }
                "unet"
            },
            SubModelType::Transformer => {
                proof {
                    reveal_strlit("transformer");
                }
                "transformer"
            },
            SubModelType::TextEncoder => {
                proof {
                    reveal_strlit("text_encoder");
                }
                "text_encoder"
            },
            SubModelType::TextEncoder2 => {
                proof {
                    reveal_strlit("text_encoder_2");
                }
                "text_encoder_2"
            },
            SubModelType::TextEncoder3 => {
                proof {
                    reveal_strlit("text_encoder_3");
                }
                "text_encoder_3"
            },
            SubModelType::Tokenizer => {
                proof {
                    reveal_strlit("tokenizer");
                }
                "tokenizer"
            },
            SubModelType::Tokenizer2 => {
                proof {
                    reveal_strlit("tokenizer_2");
                }
                "tokenizer_2"
            },
            SubModelType::Tokenizer3 => {
                proof {
                    reveal_strlit("tokenizer_3");
                }
                "tokenizer_3"
            },
            SubModelType::VAE => {
                proof {
                    reveal_strlit("vae");
                }
                "vae"
            },
            SubModelType::VAEDecoder => {
                proof {
                    reveal_strlit("vae_decoder");
                }
                "vae_decoder"
            },
            SubModelType::VAEEncoder => {
                proof {
                    reveal_strlit("vae_encoder");
                }
                "vae_encoder"
            },
            SubModelType::Scheduler => {
                proof {
                    reveal_strlit("scheduler");
                }
                "scheduler"
            },
            SubModelType::SafetyChecker => {
                proof {
                    reveal_strlit("safety_checker");
                }
                "safety_checker"
            },
        }
    }
}

/// Distinct SubModelType values have distinct wire names, so the name identifies the value.
pub proof fn lemma_sub_model_type_names_distinct(a: SubModelType, b: SubModelType)
    requires
        a != b,
    ensures
        a.name() != b.name(),
{
    if a.name() == b.name() {
        assert(a.name().len() == b.name().len());
    }
}

/// Size variant of a CLIP encoder.
#[derive(Debug, Clone, Copy, PartialEq, Eq, Hash)]
pub enum ClipVariantType {
    L,
    G,
}
impl ClipVariantType {
    /// The wire name (as used in configuration files and the database).
    pub open spec fn name(self) -> Seq<char> {
        match self {
            ClipVariantType::L => seq!['l', 'a', 'r', 'g', 'e'],
            ClipVariantType::G => seq!['g', 'i', 'g', 'a', 'n', 't', 'i', 'c'],
        }
    }

    pub fn as_str(&self) -> (s: &'static str)
        ensures
            s@ == self.name(),
    {
        match self {
            ClipVariantType::L => {
                proof {
                    reveal_strlit("large");
                }
                "large"
            },
            ClipVariantType::G => {
                proof {
                    reveal_strlit("gigantic");
                }
                "gigantic"
            },
        }
    }
}

/// Distinct ClipVariantType values have distinct wire names, so the name identifies the value.
pub proof fn lemma_clip_variant_type_names_distinct(a: ClipVariantType, b: ClipVariantType)
    requires
        a != b,
    ensures
        a.name() != b.name(),
{
    if a.name() == b.name() {
        assert(a.name().len() == b.name().len());
    }
}

/// Variant of a main model.
#[derive(Debug, Clone, Copy, PartialEq, Eq, Hash)]
pub enum ModelVariantType {
    Normal,
    Inpaint,
    Depth,
}
impl ModelVariantType {
    /// The wire name (as used in configuration files and the database).
    pub open spec fn name(self) -> Seq<char> {
        match self {
            ModelVariantType::Normal => seq!['n', 'o', 'r', 'm', 'a', 'l'],
            ModelVariantType::Inpaint => seq!['i', 'n', 'p', 'a', 'i', 'n', 't'],
            ModelVariantType::Depth => seq!['d', 'e', 'p', 't', 'h'],
        }
    }

    pub fn as_str(&self) -> (s: &'static str)
        ensures
            s@ == self.name(),
    {
        match self {
            ModelVariantType::Normal => {
                proof {
                    reveal_strlit("normal");
                }
                "normal"
            },
            ModelVariantType::Inpaint => {
                proof {
                    reveal_strlit("inpaint");
                }
                "inpaint"
            },
            ModelVariantType::Depth => {
                proof {
                    reveal_strlit("depth");
                }
                "depth"
            },
        }
    }
}

/// Distinct ModelVariantType values have distinct wire names, so the name identifies the value.
pub proof fn lemma_model_variant_type_names_distinct(a: ModelVariantType, b: ModelVariantType)
    requires
        a != b,
    ensures
        a.name() != b.name(),
{
    if a.name() == b.name() {
        assert(a.name().len() == b.name().len());
    }
}

/// Variant of a FLUX model.
#[derive(Debug, Clone, Copy, PartialEq, Eq, Hash)]
pub enum FluxVariantType {
    Schnell,
    Dev,
    DevFill,
}
impl FluxVariantType {
    /// The wire name (as used in configuration files and the database).
    pub open spec fn name(self) -> Seq<char> {
        match self {
            FluxVariantType::Schnell => seq!['s', 'c', 'h', 'n', 'e', 'l', 'l'],
            FluxVariantType::Dev => seq!['d', 'e', 'v'],
            FluxVariantType::DevFill => seq!['d', 'e', 'v', '_', 'f', 'i', 'l', 'l'],
        }
    }

    pub fn as_str(&self) -> (s: &'static str)
        ensures
            s@ == self.name(),
    {
        match self {
            FluxVariantType::Schnell => {
                proof {
                    reveal_strlit("schnell");
                }
                "schnell"
            },
            FluxVariantType::Dev => {
                proof {
                    reveal_strlit("dev");
                }
                "dev"
            },
            FluxVariantType::DevFill => {
                proof {
                    reveal_strlit("dev_fill");
                }
                "dev_fill"
            },
        }
    }
}

/// Distinct FluxVariantType values have distinct wire names, so the name identifies the value.
pub proof fn lemma_flux_variant_type_names_distinct(a: FluxVariantType, b: FluxVariantType)
    requires
        a != b,
    ensures
        a.name() != b.name(),
{
    if a.name() == b.name() {
        assert(a.name().len() == b.name().len());
    }
}

/// Variant of a FLUX.2 model.
#[derive(Debug, Clone, Copy, PartialEq, Eq, Hash)]
pub enum Flux2VariantType {
    Klein4B,
    Klein9B,
    Klein9BBase,
}
impl Flux2VariantType {
    /// The wire name (as used in configuration files and the database).
    pub open spec fn name(self) -> Seq<char> {
        match self {
            Flux2VariantType::Klein4B => seq!['k', 'l', 'e', 'i', 'n', '_', '4', 'b'],
            Flux2VariantType::Klein9B => seq!['k', 'l', 'e', 'i', 'n', '_', '9', 'b'],
            Flux2VariantType::Klein9BBase => seq!['k', 'l', 'e', 'i', 'n', '_', '9', 'b', '_', 'b', 'a', 's', 'e'],
        }
    }

    pub fn as_str(&self) -> (s: &'static str)
        ensures
            s@ == self.name(),
    {
        match self {
            Flux2VariantType::Klein4B => {
                proof {
                    reveal_strlit("klein_4b");
                }
                "klein_4b"
            },
            Flux2VariantType::Klein9B => {
                proof {
                    reveal_strlit("klein_9b");
                }
                "klein_9b"
            },
            Flux2VariantType::Klein9BBase => {
                proof {
                    reveal_strlit("klein_9b_base");
                }
                "klein_9b_base"
            },
        }
    }
}

/// Distinct Flux2VariantType values have distinct wire names, so the name identifies the value.
pub proof fn lemma_flux2_variant_type_names_distinct(a: Flux2VariantType, b: Flux2VariantType)
    requires
        a != b,
    ensures
        a.name() != b.name(),
{
    if a.name() == b.name() {
        assert(a.name().len() == b.name().len());
    }
}

/// Variant of a Qwen3 text encoder.
#[derive(Debug, Clone, Copy, PartialEq, Eq, Hash)]
pub enum Qwen3VariantType {
    Qwen3_4B,
    Qwen3_8B,
}
impl Qwen3VariantType {
    /// The wire name (as used in configuration files and the database).
    pub open spec fn name(self) -> Seq<char> {
        match self {
            Qwen3VariantType::Qwen3_4B => seq!['q', 'w', 'e', 'n', '3', '_', '4', 'b'],
            Qwen3VariantType::Qwen3_8B => seq!['q', 'w', 'e', 'n', '3', '_', '8', 'b'],
        }
    }

    pub fn as_str(&self) -> (s: &'static str)
        ensures
            s@ == self.name(),
    {
        match self {
            Qwen3VariantType::Qwen3_4B => {
                proof {
                    reveal_strlit("qwen3_4b");
                }
                "qwen3_4b"
            },
            Qwen3VariantType::Qwen3_8B => {
                proof {
                    reveal_strlit("qwen3_8b");
                }
                "qwen3_8b"
            },
        }
    }
}

/// Distinct Qwen3VariantType values have distinct wire names, so the name identifies the value.
pub proof fn lemma_qwen3_variant_type_names_distinct(a: Qwen3VariantType, b: Qwen3VariantType)
    requires
        a != b,
    ensures
        a.name() != b.name(),
{
    if a.name() == b.name() {
        assert(a.name().len() == b.name().len());
    }
}

/// On-disk format of a model.
#[derive(Debug, Clone, Copy, PartialEq, Eq, Hash)]
pub enum ModelFormat {
    OMI,
    Diffusers,
    Checkpoint,
    LyCORIS,
    ONNX,
    Olive,
    EmbeddingFile,
    EmbeddingFolder,
    InvokeAI,
    T5Encoder,
    Qwen3Encoder,
    BnbQuantizedLlmInt8b,
    BnbQuantizednf4b,
    GGUFQuantized,
    Unknown,
}
impl ModelFormat {
    /// The wire name (as used in configuration files and the database).
    pub open spec fn name(self) -> Seq<char> {
        match self {
            ModelFormat::OMI => seq!['o', 'm', 'i'],
            ModelFormat::Diffusers => seq!['d', 'i', 'f', 'f', 'u', 's', 'e', 'r', 's'],
            ModelFormat::Checkpoint => seq!['c', 'h', 'e', 'c', 'k', 'p', 'o', 'i', 'n', 't'],
            ModelFormat::LyCORIS => seq!['l', 'y', 'c', 'o', 'r', 'i', 's'],
            ModelFormat::ONNX => seq!['o', 'n', 'n', 'x'],
            ModelFormat::Olive => seq!['o', 'l', 'i', 'v', 'e'],
            ModelFormat::EmbeddingFile => seq!['e', 'm', 'b', 'e', 'd', 'd', 'i', 'n', 'g', '_', 'f', 'i', 'l', 'e'],
            ModelFormat::EmbeddingFolder => seq!['e', 'm', 'b', 'e', 'd', 'd', 'i', 'n', 'g', '_', 'f', 'o', 'l', 'd', 'e', 'r'],
            ModelFormat::InvokeAI => seq!['i', 'n', 'v', 'o', 'k', 'e', 'a', 'i'],
            ModelFormat::T5Encoder => seq!['t', '5', '_', 'e', 'n', 'c', 'o', 'd', 'e', 'r'],
            ModelFormat::Qwen3Encoder => seq!['q', 'w', 'e', 'n', '3', '_', 'e', 'n', 'c', 'o', 'd', 'e', 'r'],
            ModelFormat::BnbQuantizedLlmInt8b => seq!['b', 'n', 'b', '_', 'q', 'u', 'a', 'n', 't', 'i', 'z', 'e', 'd', '_', 'i', 'n', 't', '8', 'b'],
            ModelFormat::BnbQuantizednf4b => seq!['b', 'n', 'b', '_', 'q', 'u', 'a', 'n', 't', 'i', 'z', 'e', 'd', '_', 'n', 'f', '4', 'b'],
            ModelFormat::GGUFQuantized => seq!['g', 'g', 'u', 'f', '_', 'q', 'u', 'a', 'n', 't', 'i', 'z', 'e', 'd'],
            ModelFormat::Unknown => seq!['u', 'n', 'k', 'n', 'o', 'w', 'n'],
        }
    }

    pub fn as_str(&self) -> (s: &'static str)
        ensures
            s@ == self.name(),
    {
        match self {
            ModelFormat::OMI => {
                proof {
                    reveal_strlit("omi");
                }
                "omi"
            },
            ModelFormat::Diffusers => {
                proof {
                    reveal_strlit("diffusers");
                }
                "diffusers"
            },
            ModelFormat::Checkpoint => {
                proof {
                    reveal_strlit("checkpoint");
                }
                "checkpoint"
            },
            ModelFormat::LyCORIS => {
                proof {
                    reveal_strlit("lycoris");
                }
                "lycoris"
            },
            ModelFormat::ONNX => {
                proof {
                    reveal_strlit("onnx");
                }
                "onnx"
            },
            ModelFormat::Olive => {
                proof {
                    reveal_strlit("olive");
                }
                "olive"
            },
            ModelFormat::EmbeddingFile => {
                proof {
                    reveal_strlit("embedding_file");
                }
                "embedding_file"
            },
            ModelFormat::EmbeddingFolder => {
                proof {
                    reveal_strlit("embedding_folder");
                }
                "embedding_folder"
            },
            ModelFormat::InvokeAI => {
                proof {
                    reveal_strlit("invokeai");
                }
                "invokeai"
            },
            ModelFormat::T5Encoder => {
                proof {
                    reveal_strlit("t5_encoder");
                }
                "t5_encoder"
            },
            ModelFormat::Qwen3Encoder => {
                proof {
                    reveal_strlit("qwen3_encoder");
                }
                "qwen3_encoder"
            },
            ModelFormat::BnbQuantizedLlmInt8b => {
                proof {
                    reveal_strlit("bnb_quantized_int8b");
                }
                "bnb_quantized_int8b"
            },
            ModelFormat::BnbQuantizednf4b => {
                proof {
                    reveal_strlit("bnb_quantized_nf4b");
                }
                "bnb_quantized_nf4b"
            },
            ModelFormat::GGUFQuantized => {
                proof {
                    reveal_strlit("gguf_quantized");
                }
                "gguf_quantized"
            },
            ModelFormat::Unknown => {
                proof {
                    reveal_strlit("unknown");
                }
                "unknown"
            },
        }
    }
}

/// Distinct ModelFormat values have distinct wire names, so the name identifies the value.
pub proof fn lemma_model_format_names_distinct(a: ModelFormat, b: ModelFormat)
    requires
        a != b,
    ensures
        a.name() != b.name(),
{
    if a.name() == b.name() {
        assert(a.name().len() == b.name().len());
    }
}

/// Prediction target of a diffusion scheduler.
#[derive(Debug, Clone, Copy, PartialEq, Eq, Hash)]
pub enum SchedulerPredictionType {
    Epsilon,
    VPrediction,
    Sample,
}
impl SchedulerPredictionType {
    /// The wire name (as used in configuration files and the database).
    pub open spec fn name(self) -> Seq<char> {
        match self {
            SchedulerPredictionType::Epsilon => seq!['e', 'p', 's', 'i', 'l', 'o', 'n'],
            SchedulerPredictionType::VPrediction => seq!['v', '_', 'p', 'r', 'e', 'd', 'i', 'c', 't', 'i', 'o', 'n'],
            SchedulerPredictionType::Sample => seq!['s', 'a', 'm', 'p', 'l', 'e'],
        }
    }

    pub fn as_str(&self) -> (s: &'static str)
        ensures
            s@ == self.name(),
    {
        match self {
            SchedulerPredictionType::Epsilon => {
                proof {
                    reveal_strlit("epsilon");
                }
                "epsilon"
            },
            SchedulerPredictionType::VPrediction => {
                proof {
                    reveal_strlit("v_prediction");
                }
                "v_prediction"
            },
            SchedulerPredictionType::Sample => {
                proof {
                    reveal_strlit("sample");
                }
                "sample"
            },
        }
    }
}

/// Distinct SchedulerPredictionType values have distinct wire names, so the name identifies the value.
pub proof fn lemma_scheduler_prediction_type_names_distinct(a: SchedulerPredictionType, b: SchedulerPredictionType)
    requires
        a != b,
    ensures
        a.name() != b.name(),
{
    if a.name() == b.name() {
        assert(a.name().len() == b.name().len());
    }
}

/// Weight variant of a Hugging Face style repository (the default variant has the empty name).
#[derive(Debug, Clone, Copy, PartialEq, Eq, Hash)]
pub enum ModelRepoVariant {
    Default,
    FP16,
    FP32,
    ONNX,
    OpenVINO,
    Flax,
}
impl ModelRepoVariant {
    /// The wire name (as used in configuration files and the database).
    pub open spec fn name(self) -> Seq<char> {
        match self {
            ModelRepoVariant::Default => Seq::<char>::empty(),
            ModelRepoVariant::FP16 => seq!['f', 'p', '1', '6'],
            ModelRepoVariant::FP32 => seq!['f', 'p', '3', '2'],
            ModelRepoVariant::ONNX => seq!['o', 'n', 'n', 'x'],
            ModelRepoVariant::OpenVINO => seq!['o', 'p', 'e', 'n', 'v', 'i', 'n', 'o'],
            ModelRepoVariant::Flax => seq!['f', 'l', 'a', 'x'],
        }
    }

    pub fn as_str(&self) -> (s: &'static str)
        ensures
            s@ == self.name(),
    {
        match self {
            ModelRepoVariant::Default => {
                proof {
                    reveal_strlit("");
                }
                ""
            },
            ModelRepoVariant::FP16 => {
                proof {
                    reveal_strlit("fp16");
                }
                "fp16"
            },
            ModelRepoVariant::FP32 => {
                proof {
                    reveal_strlit("fp32");
                }
                "fp32"
            },
            ModelRepoVariant::ONNX => {
                proof {
                    reveal_strlit("onnx");
                }
                "onnx"
            },
            ModelRepoVariant::OpenVINO => {
                proof {
                    reveal_strlit("openvino");
                }
                "openvino"
            },
            ModelRepoVariant::Flax => {
                proof {
                    reveal_strlit("flax");
                }
                "flax"
            },
        }
    }
}

/// Distinct ModelRepoVariant values have distinct wire names, so the name identifies the value.
pub proof fn lemma_model_repo_variant_names_distinct(a: ModelRepoVariant, b: ModelRepoVariant)
    requires
        a != b,
    ensures
        a.name() != b.name(),
{
    if a.name() == b.name() {
        assert(a.name().len() == b.name().len());
    }
}

/// Where a model was installed from.
#[derive(Debug, Clone, Copy, PartialEq, Eq, Hash)]
pub enum ModelSourceType {
    Path,
    Url,
    HFRepoID,
}
impl ModelSourceType {
    /// The wire name (as used in configuration files and the database).
    pub open spec fn name(self) -> Seq<char> {
        match self {
            ModelSourceType::Path => seq!['p', 'a', 't', 'h'],
            ModelSourceType::Url => seq!['u', 'r', 'l'],
            ModelSourceType::HFRepoID => seq!['h', 'f', '_', 'r', 'e', 'p', 'o', '_', 'i', 'd'],
        }
    }

    pub fn as_str(&self) -> (s: &'static str)
        ensures
            s@ == self.name(),
    {
        match self {
            ModelSourceType::Path => {
                proof {
                    reveal_strlit("path");
                }
                "path"
            },
            ModelSourceType::Url => {
                proof {
                    reveal_strlit("url");
                }
                "url"
            },
            ModelSourceType::HFRepoID => {
                proof {
                    reveal_strlit("hf_repo_id");
                }
                "hf_repo_id"
            },
        }
    }
}

/// Distinct ModelSourceType values have distinct wire names, so the name identifies the value.
pub proof fn lemma_model_source_type_names_distinct(a: ModelSourceType, b: ModelSourceType)
    requires
        a != b,
    ensures
        a.name() != b.name(),
{
    if a.name() == b.name() {
        assert(a.name().len() == b.name().len());
    }
}

/// Layout of a FLUX LoRA checkpoint.
#[derive(Debug, Clone, Copy, PartialEq, Eq, Hash)]
pub enum FluxLoRAFormat {
    Diffusers,
    Kohya,
    OneTrainer,
    Control,
    AIToolkit,
    XLabs,
}
impl FluxLoRAFormat {
    /// The wire name (as used in configuration files and the database).
    pub open spec fn name(self) -> Seq<char> {
        match self {
            FluxLoRAFormat::Diffusers => seq!['f', 'l', 'u', 'x', '.', 'd', 'i', 'f', 'f', 'u', 's', 'e', 'r', 's'],
            FluxLoRAFormat::Kohya => seq!['f', 'l', 'u', 'x', '.', 'k', 'o', 'h', 'y', 'a'],
            FluxLoRAFormat::OneTrainer => seq!['f', 'l', 'u', 'x', '.', 'o', 'n', 'e', 't', 'r', 'a', 'i', 'n', 'e', 'r'],
            FluxLoRAFormat::Control => seq!['f', 'l', 'u', 'x', '.', 'c', 'o', 'n', 't', 'r', 'o', 'l'],
            FluxLoRAFormat::AIToolkit => seq!['f', 'l', 'u', 'x', '.', 'a', 'i', 't', 'o', 'o', 'l', 'k', 'i', 't'],
            FluxLoRAFormat::XLabs => seq!['f', 'l', 'u', 'x', '.', 'x', 'l', 'a', 'b', 's'],
        }
    }

    pub fn as_str(&self) -> (s: &'static str)
        ensures
            s@ == self.name(),
    {
        match self {
            FluxLoRAFormat::Diffusers => {
                proof {
                    reveal_strlit("flux.diffusers");
                }
                "flux.diffusers"
            },
            FluxLoRAFormat::Kohya => {
                proof {
                    reveal_strlit("flux.kohya");
                }
                "flux.kohya"
            },
            FluxLoRAFormat::OneTrainer => {
                proof {
                    reveal_strlit("flux.onetrainer");
                }
                "flux.onetrainer"
            },
            FluxLoRAFormat::Control => {
                proof {
                    reveal_strlit("flux.control");
                }
                "flux.control"
            },
            FluxLoRAFormat::AIToolkit => {
                proof {
                    reveal_strlit("flux.aitoolkit");
                }
                "flux.aitoolkit"
            },
            FluxLoRAFormat::XLabs => {
                proof {
                    reveal_strlit("flux.xlabs");
                }
                "flux.xlabs"
            },
        }
    }
}

/// Distinct FluxLoRAFormat values have distinct wire names, so the name identifies the value.
pub proof fn lemma_flux_lora_format_names_distinct(a: FluxLoRAFormat, b: FluxLoRAFormat)
    requires
        a != b,
    ensures
        a.name() != b.name(),
{
    if a.name() == b.name() {
        assert(a.name().len() == b.name().len());
    }
}

/// A variant of any model family.
#[derive(Debug, Clone, Copy, PartialEq, Eq, Hash)]
pub enum AnyVariant {
    Model(ModelVariantType),
    Clip(ClipVariantType),
    Flux(FluxVariantType),
    Flux2(Flux2VariantType),
    Qwen3(Qwen3VariantType),
}

impl AnyVariant {
    /// The wire name of the wrapped variant.
    pub open spec fn name(self) -> Seq<char> {
        match self {
            AnyVariant::Model(v) => v.name(),
            AnyVariant::Clip(v) => v.name(),
            AnyVariant::Flux(v) => v.name(),
            AnyVariant::Flux2(v) => v.name(),
            AnyVariant::Qwen3(v) => v.name(),
        }
    }

    /// The text form of the variant: the wire name of the wrapped value.
    pub fn as_str(&self) -> (s: &'static str)
        ensures
            s@ == self.name(),
    {
        match self {
            AnyVariant::Model(v) => v.as_str(),
            AnyVariant::Clip(v) => v.as_str(),
            AnyVariant::Flux(v) => v.as_str(),
            AnyVariant::Flux2(v) => v.as_str(),
            AnyVariant::Qwen3(v) => v.as_str(),
        }
    }
}

impl From<ModelVariantType> for AnyVariant {
    fn from(value: ModelVariantType) -> (r: Self) {
        AnyVariant::Model(value)
    }
}

impl vstd::std_specs::convert::FromSpecImpl<ModelVariantType> for AnyVariant {
    open spec fn obeys_from_spec() -> bool {
        true
    }

    open spec fn from_spec(v: ModelVariantType) -> Self {
        AnyVariant::Model(v)
    }
}

impl From<ClipVariantType> for AnyVariant {
    fn from(value: ClipVariantType) -> (r: Self) {
        AnyVariant::Clip(value)
    }
}

impl vstd::std_specs::convert::FromSpecImpl<ClipVariantType> for AnyVariant {
    open spec fn obeys_from_spec() -> bool {
        true
    }

    open spec fn from_spec(v: ClipVariantType) -> Self {
        AnyVariant::Clip(v)
    }
}

impl From<FluxVariantType> for AnyVariant {
    fn from(value: FluxVariantType) -> (r: Self) {
        AnyVariant::Flux(value)
    }
}

impl vstd::std_specs::convert::FromSpecImpl<FluxVariantType> for AnyVariant {
    open spec fn obeys_from_spec() -> bool {
        true
    }

    open spec fn from_spec(v: FluxVariantType) -> Self {
        AnyVariant::Flux(v)
    }
}

impl From<Flux2VariantType> for AnyVariant {
    fn from(value: Flux2VariantType) -> (r: Self) {
        AnyVariant::Flux2(value)
    }
}

impl vstd::std_specs::convert::FromSpecImpl<Flux2VariantType> for AnyVariant {
    open spec fn obeys_from_spec() -> bool {
        true
    }

    open spec fn from_spec(v: Flux2VariantType) -> Self {
        AnyVariant::Flux2(v)
    }
}

impl From<Qwen3VariantType> for AnyVariant {
    fn from(value: Qwen3VariantType) -> (r: Self) {
        AnyVariant::Qwen3(value)
    }
}

impl vstd::std_specs::convert::FromSpecImpl<Qwen3VariantType> for AnyVariant {
    open spec fn obeys_from_spec() -> bool {
        true
    }

    open spec fn from_spec(v: Qwen3VariantType) -> Self {
        AnyVariant::Qwen3(v)
    }
}

impl Default for BaseModelType {
    fn default() -> (r: Self)
        ensures
            r == BaseModelType::Any,
    {
        BaseModelType::Any
    }
}


impl BaseModelType {
    /// The text form (as `Display` writes it): the name.
    pub fn to_string(&self) -> (s: String)
        ensures
            s@ == self.name(),
    {
        self.as_str().to_owned()
    }
}

impl ModelType {
    /// The text form (as `Display` writes it): the name.
    pub fn to_string(&self) -> (s: String)
        ensures
            s@ == self.name(),
    {
        self.as_str().to_owned()
    }
}

impl SubModelType {
    /// The text form (as `Display` writes it): the name.
    pub fn to_string(&self) -> (s: String)
        ensures
            s@ == self.name(),
    {
        self.as_str().to_owned()
    }
}

impl ClipVariantType {
    /// The text form (as `Display` writes it): the name.
    pub fn to_string(&self) -> (s: String)
        ensures
            s@ == self.name(),
    {
        self.as_str().to_owned()
    }
}

impl ModelVariantType {
    /// The text form (as `Display` writes it): the name.
    pub fn to_string(&self) -> (s: String)
        ensures
            s@ == self.name(),
    {
        self.as_str().to_owned()
    }
}

impl FluxVariantType {
    /// The text form (as `Display` writes it): the name.
    pub fn to_string(&self) -> (s: String)
        ensures
            s@ == self.name(),
    {
        self.as_str().to_owned()
    }
}

impl Flux2VariantType {
    /// The text form (as `Display` writes it): the name.
    pub fn to_string(&self) -> (s: String)
        ensures
            s@ == self.name(),
    {
        self.as_str().to_owned()
    }
}

impl Qwen3VariantType {
    /// The text form (as `Display` writes it): the name.
    pub fn to_string(&self) -> (s: String)
        ensures
            s@ == self.name(),
    {
        self.as_str().to_owned()
    }
}

impl ModelFormat {
    /// The text form (as `Display` writes it): the name.
    pub fn to_string(&self) -> (s: String)
        ensures
            s@ == self.name(),
    {
        self.as_str().to_owned()
    }
}

impl SchedulerPredictionType {
    /// The text form (as `Display` writes it): the name.
    pub fn to_string(&self) -> (s: String)
        ensures
            s@ == self.name(),
    {
        self.as_str().to_owned()
    }
}

impl ModelRepoVariant {
    /// The text form (as `Display` writes it): the name.
    pub fn to_string(&self) -> (s: String)
        ensures
            s@ == self.name(),
    {
        self.as_str().to_owned()
    }
}

impl ModelSourceType {
    /// The text form (as `Display` writes it): the name.
    pub fn to_string(&self) -> (s: String)
        ensures
            s@ == self.name(),
    {
        self.as_str().to_owned()
    }
}

impl FluxLoRAFormat {
    /// The text form (as `Display` writes it): the name.
    pub fn to_string(&self) -> (s: String)
        ensures
            s@ == self.name(),
    {
        self.as_str().to_owned()
    }
}

impl AnyVariant {
    /// The text form (as `Display` writes it): the name.
    pub fn to_string(&self) -> (s: String)
        ensures
            s@ == self.name(),
    {
        self.as_str().to_owned()
    }
}

/// The wire name of each BaseModelType variant, variant by variant.
pub proof fn lemma_base_model_type_wire_names()
    ensures
        BaseModelType::Any.name() == "any"@,
        BaseModelType::StableDiffusion1.name() == "sd-1"@,
        BaseModelType::StableDiffusion2.name() == "sd-2"@,
        BaseModelType::StableDiffusion3.name() == "sd-3"@,
        BaseModelType::StableDiffusionXL.name() == "sdxl"@,
        BaseModelType::StableDiffusionXLRefiner.name() == "sdxl-refiner"@,
        BaseModelType::Flux.name() == "flux"@,
        BaseModelType::Flux2.name() == "flux2"@,
        BaseModelType::CogView4.name() == "cogview4"@,
        BaseModelType::ZImage.name() == "z-image"@,
        BaseModelType::Unknown.name() == "unknown"@,
{
    reveal_strlit("any");
    reveal_strlit("sd-1");
    reveal_strlit("sd-2");
    reveal_strlit("sd-3");
    reveal_strlit("sdxl");
    reveal_strlit("sdxl-refiner");
    reveal_strlit("flux");
    reveal_strlit("flux2");
    reveal_strlit("cogview4");
    reveal_strlit("z-image");
    reveal_strlit("unknown");
}

/// The wire name of each ModelType variant, variant by variant.
pub proof fn lemma_model_type_wire_names()
    ensures
        ModelType::ONNX.name() == "onnx"@,
        ModelType::Main.name() == "main"@,
        ModelType::VAE.name() == "vae"@,
        ModelType::LoRA.name() == "lora"@,
        ModelType::ControlLoRa.name() == "control_lora"@,
        ModelType::ControlNet.name() == "controlnet"@,
        ModelType::TextualInversion.name() == "embedding"@,
        ModelType::IPAdapter.name() == "ip_adapter"@,
        ModelType::CLIPVision.name() == "clip_vision"@,
        ModelType::CLIPEmbed.name() == "clip_embed"@,
        ModelType::T2IAdapter.name() == "t2i_adapter"@,
        ModelType::T5Encoder.name() == "t5_encoder"@,
        ModelType::Qwen3Encoder.name() == "qwen3_encoder"@,
        ModelType::SpandrelImageToImage.name() == "spandrel_image_to_image"@,
        ModelType::SigLIP.name() == "siglip"@,
        ModelType::FluxRedux.name() == "flux_redux"@,
        ModelType::LlavaOnevision.name() == "llava_onevision"@,
        ModelType::Unknown.name() == "unknown"@,
{
    reveal_strlit("onnx");
    reveal_strlit("main");
    reveal_strlit("vae");
    reveal_strlit("lora");
    reveal_strlit("control_lora");
    reveal_strlit("controlnet");
    reveal_strlit("embedding");
    reveal_strlit("ip_adapter");
    reveal_strlit("clip_vision");
    reveal_strlit("clip_embed");
    reveal_strlit("t2i_adapter");
    reveal_strlit("t5_encoder");
    reveal_strlit("qwen3_encoder");
    reveal_strlit("spandrel_image_to_image");
    reveal_strlit("siglip");
    reveal_strlit("flux_redux");
    reveal_strlit("llava_onevision");
    reveal_strlit("unknown");
}

/// The wire name of each SubModelType variant, variant by variant.
pub proof fn lemma_sub_model_type_wire_names()
    ensures
        SubModelType::UNet.name() == "unet"@,
        SubModelType::Transformer.name() == "transformer"@,
        SubModelType::TextEncoder.name() == "text_encoder"@,
        SubModelType::TextEncoder2.name() == "text_encoder_2"@,
        SubModelType::TextEncoder3.name() == "text_encoder_3"@,
        SubModelType::Tokenizer.name() == "tokenizer"@,
        SubModelType::Tokenizer2.name() == "tokenizer_2"@,
        SubModelType::Tokenizer3.name() == "tokenizer_3"@,
        SubModelType::VAE.name() == "vae"@,
        SubModelType::VAEDecoder.name() == "vae_decoder"@,
        SubModelType::VAEEncoder.name() == "vae_encoder"@,
        SubModelType::Scheduler.name() == "scheduler"@,
        SubModelType::SafetyChecker.name() == "safety_checker"@,
{
    reveal_strlit("unet");
    reveal_strlit("transformer");
    reveal_strlit("text_encoder");
    reveal_strlit("text_encoder_2");
    reveal_strlit("text_encoder_3");
    reveal_strlit("tokenizer");
    reveal_strlit("tokenizer_2");
    reveal_strlit("tokenizer_3");
    reveal_strlit("vae");
    reveal_strlit("vae_decoder");
    reveal_strlit("vae_encoder");
    reveal_strlit("scheduler");
    reveal_strlit("safety_checker");
}

/// The wire name of each ClipVariantType variant, variant by variant.
pub proof fn lemma_clip_variant_type_wire_names()
    ensures
        ClipVariantType::L.name() == "large"@,
        ClipVariantType::G.name() == "gigantic"@,
{
    reveal_strlit("large");
    reveal_strlit("gigantic");
}

/// The wire name of each ModelVariantType variant, variant by variant.
pub proof fn lemma_model_variant_type_wire_names()
    ensures
        ModelVariantType::Normal.name() == "normal"@,
        ModelVariantType::Inpaint.name() == "inpaint"@,
        ModelVariantType::Depth.name() == "depth"@,
{
    reveal_strlit("normal");
    reveal_strlit("inpaint");
    reveal_strlit("depth");
}

/// The wire name of each FluxVariantType variant, variant by variant.
pub proof fn lemma_flux_variant_type_wire_names()
    ensures
        FluxVariantType::Schnell.name() == "schnell"@,
        FluxVariantType::Dev.name() == "dev"@,
        FluxVariantType::DevFill.name() == "dev_fill"@,
{
    reveal_strlit("schnell");
    reveal_strlit("dev");
    reveal_strlit("dev_fill");
}

/// The wire name of each Flux2VariantType variant, variant by variant.
pub proof fn lemma_flux2_variant_type_wire_names()
    ensures
        Flux2VariantType::Klein4B.name() == "klein_4b"@,
        Flux2VariantType::Klein9B.name() == "klein_9b"@,
        Flux2VariantType::Klein9BBase.name() == "klein_9b_base"@,
{
    reveal_strlit("klein_4b");
    reveal_strlit("klein_9b");
    reveal_strlit("klein_9b_base");
}

/// The wire name of each Qwen3VariantType variant, variant by variant.
pub proof fn lemma_qwen3_variant_type_wire_names()
    ensures
        Qwen3VariantType::Qwen3_4B.name() == "qwen3_4b"@,
        Qwen3VariantType::Qwen3_8B.name() == "qwen3_8b"@,
{
    reveal_strlit("qwen3_4b");
    reveal_strlit("qwen3_8b");
}

/// The wire name of each ModelFormat variant, variant by variant.
pub proof fn lemma_model_format_wire_names()
    ensures
        ModelFormat::OMI.name() == "omi"@,
        ModelFormat::Diffusers.name() == "diffusers"@,
        ModelFormat::Checkpoint.name() == "checkpoint"@,
        ModelFormat::LyCORIS.name() == "lycoris"@,
        ModelFormat::ONNX.name() == "onnx"@,
        ModelFormat::Olive.name() == "olive"@,
        ModelFormat::EmbeddingFile.name() == "embedding_file"@,
        ModelFormat::EmbeddingFolder.name() == "embedding_folder"@,
        ModelFormat::InvokeAI.name() == "invokeai"@,
        ModelFormat::T5Encoder.name() == "t5_encoder"@,
        ModelFormat::Qwen3Encoder.name() == "qwen3_encoder"@,
        ModelFormat::BnbQuantizedLlmInt8b.name() == "bnb_quantized_int8b"@,
        ModelFormat::BnbQuantizednf4b.name() == "bnb_quantized_nf4b"@,
        ModelFormat::GGUFQuantized.name() == "gguf_quantized"@,
        ModelFormat::Unknown.name() == "unknown"@,
{
    reveal_strlit("omi");
    reveal_strlit("diffusers");
    reveal_strlit("checkpoint");
    reveal_strlit("lycoris");
    reveal_strlit("onnx");
    reveal_strlit("olive");
    reveal_strlit("embedding_file");
    reveal_strlit("embedding_folder");
    reveal_strlit("invokeai");
    reveal_strlit("t5_encoder");
    reveal_strlit("qwen3_encoder");
    reveal_strlit("bnb_quantized_int8b");
    reveal_strlit("bnb_quantized_nf4b");
    reveal_strlit("gguf_quantized");
    reveal_strlit("unknown");
}

/// The wire name of each SchedulerPredictionType variant, variant by variant.
pub proof fn lemma_scheduler_prediction_type_wire_names()
    ensures
        SchedulerPredictionType::Epsilon.name() == "epsilon"@,
        SchedulerPredictionType::VPrediction.name() == "v_prediction"@,
        SchedulerPredictionType::Sample.name() == "sample"@,
{
    reveal_strlit("epsilon");
    reveal_strlit("v_prediction");
    reveal_strlit("sample");
}

/// The wire name of each ModelRepoVariant variant, variant by variant.
pub proof fn lemma_model_repo_variant_wire_names()
    ensures
        ModelRepoVariant::Default.name() == ""@,
        ModelRepoVariant::FP16.name() == "fp16"@,
        ModelRepoVariant::FP32.name() == "fp32"@,
        ModelRepoVariant::ONNX.name() == "onnx"@,
        ModelRepoVariant::OpenVINO.name() == "openvino"@,
        ModelRepoVariant::Flax.name() == "flax"@,
{
    reveal_strlit("");
    reveal_strlit("fp16");
    reveal_strlit("fp32");
    reveal_strlit("onnx");
    reveal_strlit("openvino");
    reveal_strlit("flax");
}

/// The wire name of each ModelSourceType variant, variant by variant.
pub proof fn lemma_model_source_type_wire_names()
    ensures
        ModelSourceType::Path.name() == "path"@,
        ModelSourceType::Url.name() == "url"@,
        ModelSourceType::HFRepoID.name() == "hf_repo_id"@,
{
    reveal_strlit("path");
    reveal_strlit("url");
    reveal_strlit("hf_repo_id");
}

/// The wire name of each FluxLoRAFormat variant, variant by variant.
pub proof fn lemma_flux_lora_format_wire_names()
    ensures
        FluxLoRAFormat::Diffusers.name() == "flux.diffusers"@,
        FluxLoRAFormat::Kohya.name() == "flux.kohya"@,
        FluxLoRAFormat::OneTrainer.name() == "flux.onetrainer"@,
        FluxLoRAFormat::Control.name() == "flux.control"@,
        FluxLoRAFormat::AIToolkit.name() == "flux.aitoolkit"@,
        FluxLoRAFormat::XLabs.name() == "flux.xlabs"@,
{
    reveal_strlit("flux.diffusers");
    reveal_strlit("flux.kohya");
    reveal_strlit("flux.onetrainer");
    reveal_strlit("flux.control");
    reveal_strlit("flux.aitoolkit");
    reveal_strlit("flux.xlabs");
}

} // verus!
