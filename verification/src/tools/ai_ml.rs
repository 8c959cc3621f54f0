//! AI and ML tool settings: image generation, vision, OCR and
//! retrieval-augmented generation.
//!
//! Each struct holds the plain configuration a tool runs with; the
//! side-effecting call it configures is made by the embedding program.

use vstd::prelude::*;
use vstd::string::StringExecFns;

verus! {

/// Settings for the Dalle Tool integration. The operation itself
/// talks to an outside service and runs outside the verified core.
#[derive(Debug)]
pub struct DalleTool {
    pub api_key: Option<String>,
    pub model: String,
    pub size: String,
    pub quality: String,
}

impl DalleTool {
    /// Create the settings with their defaults.
    pub fn new() -> (r: Self)
        ensures
            r.api_key is None,
            r.model@ == "dall-e-3"@,
            r.size@ == "1024x1024"@,
            r.quality@ == "standard"@,
    {
        DalleTool {
            api_key: Option::None,
            model: String::from_str("dall-e-3"),
            size: String::from_str("1024x1024"),
            quality: String::from_str("standard"),
        }
    }

    /// Set the api key.
    pub fn with_api_key(self, key: String) -> (r: Self)
        ensures
            r == (Self { api_key: Option::Some(key), ..self }),
    {
        Self { api_key: Option::Some(key), ..self }
    }

    /// Set the model.
    pub fn with_model(self, model: String) -> (r: Self)
        ensures
            r == (Self { model: model, ..self }),
    {
        Self { model: model, ..self }
    }

    /// Set the size.
    pub fn with_size(self, size: String) -> (r: Self)
        ensures
            r == (Self { size: size, ..self }),
    {
        Self { size: size, ..self }
    }

    /// Set the quality.
    pub fn with_quality(self, quality: String) -> (r: Self)
        ensures
            r == (Self { quality: quality, ..self }),
    {
        Self { quality: quality, ..self }
    }
}

impl Default for DalleTool {
    fn default() -> (r: Self)
        ensures
            r.api_key is None,
            r.model@ == "dall-e-3"@,
            r.size@ == "1024x1024"@,
            r.quality@ == "standard"@,
    {
        Self::new()
    }
}

/// Settings for the Vision Tool integration. The operation itself
/// talks to an outside service and runs outside the verified core.
#[derive(Debug)]
pub struct VisionTool {
    pub api_key: Option<String>,
    pub model: String,
}

impl VisionTool {
    /// Create the settings with their defaults.
    pub fn new() -> (r: Self)
        ensures
            r.api_key is None,
            r.model@ == "gpt-4o"@,
    {
        VisionTool {
            api_key: Option::None,
            model: String::from_str("gpt-4o"),
        }
    }

    /// Set the api key.
    pub fn with_api_key(self, key: String) -> (r: Self)
        ensures
            r == (Self { api_key: Option::Some(key), ..self }),
    {
        Self { api_key: Option::Some(key), ..self }
    }

    /// Set the model.
    pub fn with_model(self, model: String) -> (r: Self)
        ensures
            r == (Self { model: model, ..self }),
    {
        Self { model: model, ..self }
    }
}

impl Default for VisionTool {
    fn default() -> (r: Self)
        ensures
            r.api_key is None,
            r.model@ == "gpt-4o"@,
    {
        Self::new()
    }
}

/// Settings for the Ocr Tool integration. The operation itself
/// talks to an outside service and runs outside the verified core.
#[derive(Debug)]
pub struct OcrTool {
    pub engine: String,
    pub languages: Vec<String>,
}

impl OcrTool {
    /// Create the settings with their defaults.
    pub fn new() -> (r: Self)
        ensures
            r.engine@ == "tesseract"@,
            r.languages.deep_view() =~= seq!["eng"@],
    {
        let mut languages: Vec<String> = Vec::new();
        languages.push(String::from_str("eng"));
        OcrTool {
            engine: String::from_str("tesseract"),
            languages,
        }
    }

    /// Set the engine.
    pub fn with_engine(self, engine: String) -> (r: Self)
        ensures
            r == (Self { engine: engine, ..self }),
    {
        Self { engine: engine, ..self }
    }

    /// Set the languages.
    pub fn with_languages(self, langs: Vec<String>) -> (r: Self)
        ensures
            r == (Self { languages: langs, ..self }),
    {
        Self { languages: langs, ..self }
    }
}

impl Default for OcrTool {
    fn default() -> (r: Self)
        ensures
            r.engine@ == "tesseract"@,
            r.languages.deep_view() =~= seq!["eng"@],
    {
        Self::new()
    }
}

/// Settings for the Ai Mind Tool integration. The operation itself
/// talks to an outside service and runs outside the verified core.
#[derive(Debug)]
pub struct AiMindTool {
    pub api_endpoint: Option<String>,
    pub api_key: Option<String>,
    pub mind_name: Option<String>,
}

impl AiMindTool {
    /// Create the settings with their defaults.
    pub fn new() -> (r: Self)
        ensures
            r.api_endpoint is None,
            r.api_key is None,
            r.mind_name is None,
    {
        AiMindTool {
            api_endpoint: Option::None,
            api_key: Option::None,
            mind_name: Option::None,
        }
    }

    /// Set the api endpoint.
    pub fn with_api_endpoint(self, endpoint: String) -> (r: Self)
        ensures
            r == (Self { api_endpoint: Option::Some(endpoint), ..self }),
    {
        Self { api_endpoint: Option::Some(endpoint), ..self }
    }

    /// Set the api key.
    pub fn with_api_key(self, key: String) -> (r: Self)
        ensures
            r == (Self { api_key: Option::Some(key), ..self }),
    {
        Self { api_key: Option::Some(key), ..self }
    }

    /// Set the mind name.
    pub fn with_mind_name(self, name: String) -> (r: Self)
        ensures
            r == (Self { mind_name: Option::Some(name), ..self }),
    {
        Self { mind_name: Option::Some(name), ..self }
    }
}

impl Default for AiMindTool {
    fn default() -> (r: Self)
        ensures
            r.api_endpoint is None,
            r.api_key is None,
            r.mind_name is None,
    {
        Self::new()
    }
}

/// Settings for the Rag Tool integration. The operation itself
/// talks to an outside service and runs outside the verified core.
#[derive(Debug)]
pub struct RagTool {
    pub embedding_model: Option<String>,
    pub top_k: usize,
    pub data_source: Option<String>,
}

impl RagTool {
    /// Create the settings with their defaults.
    pub fn new() -> (r: Self)
        ensures
            r.embedding_model is None,
            r.top_k == 5,
            r.data_source is None,
    {
        RagTool {
            embedding_model: Option::None,
            top_k: 5,
            data_source: Option::None,
        }
    }

    /// Set the embedding model.
    pub fn with_embedding_model(self, model: String) -> (r: Self)
        ensures
            r == (Self { embedding_model: Option::Some(model), ..self }),
    {
        Self { embedding_model: Option::Some(model), ..self }
    }

    /// Set the top k.
    pub fn with_top_k(self, k: usize) -> (r: Self)
        ensures
            r == (Self { top_k: k, ..self }),
    {
        Self { top_k: k, ..self }
    }

    /// Set the data source.
    pub fn with_data_source(self, source: String) -> (r: Self)
        ensures
            r == (Self { data_source: Option::Some(source), ..self }),
    {
        Self { data_source: Option::Some(source), ..self }
    }
}

impl Default for RagTool {
    fn default() -> (r: Self)
        ensures
            r.embedding_model is None,
            r.top_k == 5,
            r.data_source is None,
    {
        Self::new()
    }
}

/// Settings for the Llama Index Tool integration. The operation itself
/// talks to an outside service and runs outside the verified core.
#[derive(Debug)]
pub struct LlamaIndexTool {
    pub tool_name: String,
    pub tool_description: String,
}

impl LlamaIndexTool {
    /// Create the settings with their defaults.
    pub fn new(tool_name: String, tool_description: String) -> (r: Self)
        ensures
            r.tool_name == tool_name,
            r.tool_description == tool_description,
    {
        LlamaIndexTool {
            tool_name: tool_name,
            tool_description: tool_description,
        }
    }
}

} // verus!
