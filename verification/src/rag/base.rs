//! Core types and traits of the retrieval pipeline: documents, chunks,
//! and the loader and chunker interfaces that concrete backends implement.

use vstd::prelude::*;
use vstd::string::StringExecFns;
use crate::entry::{MetaValue, MetaValueView, without_key, string_eq};

verus! {

/// A single document loaded from a data source.
#[derive(Debug)]
pub struct Document {
    /// The text content of the document.
    pub content: String,
    /// Metadata about the document: source, page number, and the like.
    pub metadata: Vec<(String, MetaValue)>,
}

impl Document {
    /// Create a document with the given content and no metadata.
    pub fn new(content: String) -> (r: Self)
        ensures
            r.content == content,
            r.metadata.deep_view() =~= Seq::<(Seq<char>, MetaValueView)>::empty(),
    {
        Document { content, metadata: Vec::new() }
    }

    /// Add a metadata pair; an existing pair under the same key is replaced.
    pub fn with_metadata(self, key: String, value: MetaValue) -> (r: Self)
        ensures
            r.content == self.content,
            r.metadata.deep_view() == without_key(self.metadata.deep_view(),
                key@).push((key@, value@)),
    {
        let mut kept: Vec<(String, MetaValue)> = Vec::new();
        let n = self.metadata.len();
        let mut i: usize = 0;
        while i < n
            invariant
                i <= n,
                n == self.metadata@.len(),
                kept.deep_view() =~~= without_key(
                    self.metadata.deep_view().take(i as int), key@),
            decreases n - i,
        {
            proof {
                reveal(Seq::filter);
                assert(self.metadata.deep_view().take(i + 1).drop_last()
                    =~= self.metadata.deep_view().take(i as int));
                assert(self.metadata.deep_view().take(i + 1).last()
                    == self.metadata@[i as int].deep_view());
            }
            let pair = &self.metadata[i];
            if !string_eq(&pair.0, &key) {
                let k2 = pair.0.clone();
                let v2 = pair.1.clone();
                proof {
                    assert(k2@ == self.metadata@[i as int].0@);
                    assert(v2@ == self.metadata@[i as int].1@);
                }
                kept.push((k2, v2));
                proof {
                    assert(kept@.last().deep_view()
                        == self.metadata@[i as int].deep_view());
                }
            }
            i = i + 1;
        }
        proof {
            assert(self.metadata.deep_view().take(n as int)
                =~= self.metadata.deep_view());
        }
        kept.push((key, value));
        let r = Document { content: self.content, metadata: kept };
        proof {
            assert(r.metadata.deep_view() =~~= without_key(
                self.metadata.deep_view(), key@).push((key@, value@)));
        }
        r
    }
}

/// A chunk of text produced by splitting a document.
#[derive(Debug)]
pub struct Chunk {
    /// The text content of the chunk.
    pub content: String,
    /// Metadata inherited from the source document.
    pub metadata: Vec<(String, MetaValue)>,
    /// Index of this chunk within the source document.
    pub index: usize,
}

/// An error of the retrieval pipeline.
#[derive(Debug)]
pub enum RagError {
    /// The requested backend is not part of this build.
    Unsupported(String),
}

impl RagError {
    /// A human-readable description of the error.
    pub fn message(&self) -> (r: String)
        ensures
            self matches RagError::Unsupported(s) ==> r@ == s@,
    {
        match self {
            RagError::Unsupported(s) => s.clone(),
        }
    }
}

/// Loads documents from a data source.
pub trait BaseLoader {
    /// Load documents from the configured source.
    fn load(&self) -> Result<Vec<Document>, RagError>;

    /// The loader's name.
    fn loader_name(&self) -> &'static str;
}

/// Splits documents into smaller chunks.
pub trait BaseChunker {
    /// Split a document into chunks.
    fn chunk(&self, document: &Document) -> Result<Vec<Chunk>, RagError>;

    /// The chunker's name.
    fn chunker_name(&self) -> &'static str;
}

} // verus!
