use vstd::prelude::*;

verus! {

/// The model variant a session runs: the llama 2 family, code llama, the
/// mistral pair, and the prover variant.
#[derive(Clone, Debug, Copy, PartialEq, Eq, Structural)]
pub enum Which {
    L7b,
    L13b,
    L70b,
    L7bChat,
    L13bChat,
    L70bChat,
    L7bCode,
    L13bCode,
    L34bCode,
    Mistral7b,
    Mistral7bInstruct,
    RiftSolver,
}

/// Whether a variant belongs to the mistral family.
pub open spec fn is_mistral_spec(w: Which) -> bool {
    w is Mistral7b || w is Mistral7bInstruct
}

impl Which {
    /// The mistral family takes the instruction-delimiter chat framing and
    /// its own tokenizer repository; every other variant does not.
    pub fn is_mistral(&self) -> (r: bool)
        ensures
            r == is_mistral_spec(*self),
    {
        match self {
            Self::L7b
            | Self::L13b
            | Self::L70b
            | Self::L7bChat
            | Self::L13bChat
            | Self::L70bChat
            | Self::L7bCode
            | Self::L13bCode
            | Self::L34bCode
            | Self::RiftSolver => false,
            Self::Mistral7b | Self::Mistral7bInstruct => true,
        }
    }

    /// The remote repository a variant's tokenizer is provisioned from when
    /// no local tokenizer file is configured.
    pub fn tokenizer_repo(&self) -> (r: &'static str)
        ensures
            is_mistral_spec(*self) ==> r@ == "mistralai/Mistral-7B-v0.1"@,
            !is_mistral_spec(*self) ==> r@ == "hf-internal-testing/llama-tokenizer"@,
    {
        if self.is_mistral() {
            "mistralai/Mistral-7B-v0.1"
        } else {
            "hf-internal-testing/llama-tokenizer"
        }
    }

    /// The remote repository and file name a variant's quantized weights are
    /// provisioned from when no local model file is configured: a static
    /// lookup table owned by model provisioning, not by the generation loop.
    pub fn model_source(&self) -> (r: (&'static str, &'static str))
        ensures
            r == model_source_spec(*self),
    {
        match self {
            Self::L7b => ("TheBloke/Llama-2-7B-GGML", "llama-2-7b.ggmlv3.q4_0.bin"),
            Self::L13b => ("TheBloke/Llama-2-13B-GGML", "llama-2-13b.ggmlv3.q4_0.bin"),
            Self::L70b => ("TheBloke/Llama-2-70B-GGML", "llama-2-70b.ggmlv3.q4_0.bin"),
            Self::L7bChat => ("TheBloke/Llama-2-7B-Chat-GGML", "llama-2-7b-chat.ggmlv3.q4_0.bin"),
            Self::L13bChat => (
                "TheBloke/Llama-2-13B-Chat-GGML",
                "llama-2-13b-chat.ggmlv3.q4_0.bin",
            ),
            Self::L70bChat => (
                "TheBloke/Llama-2-70B-Chat-GGML",
                "llama-2-70b-chat.ggmlv3.q4_0.bin",
            ),
            Self::L7bCode => ("TheBloke/CodeLlama-7B-GGUF", "codellama-7b.Q8_0.gguf"),
            Self::L13bCode => ("TheBloke/CodeLlama-13B-GGUF", "codellama-13b.Q8_0.gguf"),
            Self::L34bCode => ("TheBloke/CodeLlama-34B-GGUF", "codellama-34b.Q8_0.gguf"),
            Self::Mistral7b => ("TheBloke/Mistral-7B-v0.1-GGUF", "mistral-7b-v0.1.Q4_K_S.gguf"),
            Self::Mistral7bInstruct => (
                "TheBloke/Mistral-7B-Instruct-v0.1-GGUF",
                "mistral-7b-instruct-v0.1.Q4_K_S.gguf",
            ),
            Self::RiftSolver => ("morph-labs/morph-prover-v0-7b-gguf", "gguf-model-Q8_0.gguf"),
        }
    }

    /// The grouped-query attention factor assumed when a ggml file carries
    /// none: 8 for the 70B and mistral variants, 1 for the rest.
    pub fn default_gqa(&self) -> (r: usize)
        ensures
            r == 8 <==> (*self is L70b || *self is L70bChat || *self is Mistral7b || *self
                is Mistral7bInstruct),
            r == 1 || r == 8,
    {
        match self {
            Self::L7b
            | Self::L13b
            | Self::L7bChat
            | Self::L13bChat
            | Self::L7bCode
            | Self::L13bCode
            | Self::L34bCode
            | Self::RiftSolver => 1,
            Self::Mistral7b | Self::Mistral7bInstruct | Self::L70b | Self::L70bChat => 8,
        }
    }
}

/// The provisioning table as a function of the variant.
pub open spec fn model_source_spec(w: Which) -> (&'static str, &'static str) {
    match w {
        Which::L7b => ("TheBloke/Llama-2-7B-GGML", "llama-2-7b.ggmlv3.q4_0.bin"),
        Which::L13b => ("TheBloke/Llama-2-13B-GGML", "llama-2-13b.ggmlv3.q4_0.bin"),
        Which::L70b => ("TheBloke/Llama-2-70B-GGML", "llama-2-70b.ggmlv3.q4_0.bin"),
        Which::L7bChat => ("TheBloke/Llama-2-7B-Chat-GGML", "llama-2-7b-chat.ggmlv3.q4_0.bin"),
        Which::L13bChat => ("TheBloke/Llama-2-13B-Chat-GGML", "llama-2-13b-chat.ggmlv3.q4_0.bin"),
        Which::L70bChat => ("TheBloke/Llama-2-70B-Chat-GGML", "llama-2-70b-chat.ggmlv3.q4_0.bin"),
        Which::L7bCode => ("TheBloke/CodeLlama-7B-GGUF", "codellama-7b.Q8_0.gguf"),
        Which::L13bCode => ("TheBloke/CodeLlama-13B-GGUF", "codellama-13b.Q8_0.gguf"),
        Which::L34bCode => ("TheBloke/CodeLlama-34B-GGUF", "codellama-34b.Q8_0.gguf"),
        Which::Mistral7b => ("TheBloke/Mistral-7B-v0.1-GGUF", "mistral-7b-v0.1.Q4_K_S.gguf"),
        Which::Mistral7bInstruct => (
            "TheBloke/Mistral-7B-Instruct-v0.1-GGUF",
            "mistral-7b-instruct-v0.1.Q4_K_S.gguf",
        ),
        Which::RiftSolver => ("morph-labs/morph-prover-v0-7b-gguf", "gguf-model-Q8_0.gguf"),
    }
}

} // verus!
