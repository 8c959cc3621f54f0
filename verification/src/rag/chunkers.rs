//! Text chunker settings: strategies for splitting documents into
//! smaller segments.

use vstd::prelude::*;
use vstd::string::StringExecFns;
use crate::rag::base::{Document, Chunk, RagError, BaseLoader, BaseChunker};

verus! {

/// Settings for the Default Chunker integration. The operation itself
/// talks to an outside service and runs outside the verified core.
#[derive(Debug)]
pub struct DefaultChunker {
    pub chunk_size: usize,
    pub chunk_overlap: usize,
}

impl DefaultChunker {
    /// Create the settings with their defaults.
    pub fn new() -> (r: Self)
        ensures
            r.chunk_size == 1000,
            r.chunk_overlap == 200,
    {
        DefaultChunker {
            chunk_size: 1000,
            chunk_overlap: 200,
        }
    }

    /// Set the chunk size.
    pub fn with_chunk_size(self, size: usize) -> (r: Self)
        ensures
            r == (Self { chunk_size: size, ..self }),
    {
        Self { chunk_size: size, ..self }
    }

    /// Set the chunk overlap.
    pub fn with_chunk_overlap(self, overlap: usize) -> (r: Self)
        ensures
            r == (Self { chunk_overlap: overlap, ..self }),
    {
        Self { chunk_overlap: overlap, ..self }
    }
}

impl Default for DefaultChunker {
    fn default() -> (r: Self)
        ensures
            r.chunk_size == 1000,
            r.chunk_overlap == 200,
    {
        Self::new()
    }
}

impl BaseChunker for DefaultChunker {
    fn chunk(&self, document: &Document) -> Result<Vec<Chunk>, RagError> {
        let _ = document;
        Result::Err(RagError::Unsupported(String::from_str(
            "DefaultChunker needs a text-splitting backend that this build does not carry")))
    }

    fn chunker_name(&self) -> (r: &'static str)
        ensures
            r@ == "DefaultChunker"@,
    {
        "DefaultChunker"
    }
}

/// Settings for the Text Chunker integration. The operation itself
/// talks to an outside service and runs outside the verified core.
#[derive(Debug)]
pub struct TextChunker {
    pub chunk_size: usize,
    pub chunk_overlap: usize,
    pub separator: String,
}

impl TextChunker {
    /// Create the settings with their defaults.
    pub fn new() -> (r: Self)
        ensures
            r.chunk_size == 1000,
            r.chunk_overlap == 200,
            r.separator@ == "\n\n"@,
    {
        TextChunker {
            chunk_size: 1000,
            chunk_overlap: 200,
            separator: String::from_str("\n\n"),
        }
    }

    /// Set the chunk size.
    pub fn with_chunk_size(self, size: usize) -> (r: Self)
        ensures
            r == (Self { chunk_size: size, ..self }),
    {
        Self { chunk_size: size, ..self }
    }

    /// Set the chunk overlap.
    pub fn with_chunk_overlap(self, overlap: usize) -> (r: Self)
        ensures
            r == (Self { chunk_overlap: overlap, ..self }),
    {
        Self { chunk_overlap: overlap, ..self }
    }

    /// Set the separator.
    pub fn with_separator(self, sep: String) -> (r: Self)
        ensures
            r == (Self { separator: sep, ..self }),
    {
        Self { separator: sep, ..self }
    }
}

impl Default for TextChunker {
    fn default() -> (r: Self)
        ensures
            r.chunk_size == 1000,
            r.chunk_overlap == 200,
            r.separator@ == "\n\n"@,
    {
        Self::new()
    }
}

impl BaseChunker for TextChunker {
    fn chunk(&self, document: &Document) -> Result<Vec<Chunk>, RagError> {
        let _ = document;
        Result::Err(RagError::Unsupported(String::from_str(
            "TextChunker needs a text-splitting backend that this build does not carry")))
    }

    fn chunker_name(&self) -> (r: &'static str)
        ensures
            r@ == "TextChunker"@,
    {
        "TextChunker"
    }
}

/// Settings for the Structured Chunker integration. The operation itself
/// talks to an outside service and runs outside the verified core.
#[derive(Debug)]
pub struct StructuredChunker {
    pub max_elements: usize,
}

impl StructuredChunker {
    /// Create the settings with their defaults.
    pub fn new() -> (r: Self)
        ensures
            r.max_elements == 50,
    {
        StructuredChunker {
            max_elements: 50,
        }
    }

    /// Set the max elements.
    pub fn with_max_elements(self, n: usize) -> (r: Self)
        ensures
            r == (Self { max_elements: n, ..self }),
    {
        Self { max_elements: n, ..self }
    }
}

impl Default for StructuredChunker {
    fn default() -> (r: Self)
        ensures
            r.max_elements == 50,
    {
        Self::new()
    }
}

impl BaseChunker for StructuredChunker {
    fn chunk(&self, document: &Document) -> Result<Vec<Chunk>, RagError> {
        let _ = document;
        Result::Err(RagError::Unsupported(String::from_str(
            "StructuredChunker needs a text-splitting backend that this build does not carry")))
    }

    fn chunker_name(&self) -> (r: &'static str)
        ensures
            r@ == "StructuredChunker"@,
    {
        "StructuredChunker"
    }
}

/// Settings for the Web Chunker integration. The operation itself
/// talks to an outside service and runs outside the verified core.
#[derive(Debug)]
pub struct WebChunker {
    pub chunk_size: usize,
    pub strip_html: bool,
}

impl WebChunker {
    /// Create the settings with their defaults.
    pub fn new() -> (r: Self)
        ensures
            r.chunk_size == 1000,
            r.strip_html,
    {
        WebChunker {
            chunk_size: 1000,
            strip_html: true,
        }
    }

    /// Set the chunk size.
    pub fn with_chunk_size(self, size: usize) -> (r: Self)
        ensures
            r == (Self { chunk_size: size, ..self }),
    {
        Self { chunk_size: size, ..self }
    }

    /// Set the strip html.
    pub fn with_strip_html(self, strip: bool) -> (r: Self)
        ensures
            r == (Self { strip_html: strip, ..self }),
    {
        Self { strip_html: strip, ..self }
    }
}

impl Default for WebChunker {
    fn default() -> (r: Self)
        ensures
            r.chunk_size == 1000,
            r.strip_html,
    {
        Self::new()
    }
}

impl BaseChunker for WebChunker {
    fn chunk(&self, document: &Document) -> Result<Vec<Chunk>, RagError> {
        let _ = document;
        Result::Err(RagError::Unsupported(String::from_str(
            "WebChunker needs a text-splitting backend that this build does not carry")))
    }

    fn chunker_name(&self) -> (r: &'static str)
        ensures
            r@ == "WebChunker"@,
    {
        "WebChunker"
    }
}

} // verus!
