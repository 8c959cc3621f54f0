//! Cloud storage tool settings.
//!
//! Each struct holds the plain configuration a tool runs with; the
//! side-effecting call it configures is made by the embedding program.

use vstd::prelude::*;
use vstd::string::StringExecFns;

verus! {

/// Settings for the S3 Reader Tool integration. The operation itself
/// talks to an outside service and runs outside the verified core.
#[derive(Debug)]
pub struct S3ReaderTool {
    pub region: Option<String>,
    pub bucket: Option<String>,
    pub access_key_id: Option<String>,
    pub secret_access_key: Option<String>,
}

impl S3ReaderTool {
    /// Create the settings with their defaults.
    pub fn new() -> (r: Self)
        ensures
            r.region is None,
            r.bucket is None,
            r.access_key_id is None,
            r.secret_access_key is None,
    {
        S3ReaderTool {
            region: Option::None,
            bucket: Option::None,
            access_key_id: Option::None,
            secret_access_key: Option::None,
        }
    }

    /// Set the region.
    pub fn with_region(self, region: String) -> (r: Self)
        ensures
            r == (Self { region: Option::Some(region), ..self }),
    {
        Self { region: Option::Some(region), ..self }
    }

    /// Set the bucket.
    pub fn with_bucket(self, bucket: String) -> (r: Self)
        ensures
            r == (Self { bucket: Option::Some(bucket), ..self }),
    {
        Self { bucket: Option::Some(bucket), ..self }
    }

    /// Set the access key id.
    pub fn with_access_key_id(self, key: String) -> (r: Self)
        ensures
            r == (Self { access_key_id: Option::Some(key), ..self }),
    {
        Self { access_key_id: Option::Some(key), ..self }
    }

    /// Set the secret access key.
    pub fn with_secret_access_key(self, key: String) -> (r: Self)
        ensures
            r == (Self { secret_access_key: Option::Some(key), ..self }),
    {
        Self { secret_access_key: Option::Some(key), ..self }
    }
}

impl Default for S3ReaderTool {
    fn default() -> (r: Self)
        ensures
            r.region is None,
            r.bucket is None,
            r.access_key_id is None,
            r.secret_access_key is None,
    {
        Self::new()
    }
}

/// Settings for the S3 Writer Tool integration. The operation itself
/// talks to an outside service and runs outside the verified core.
#[derive(Debug)]
pub struct S3WriterTool {
    pub region: Option<String>,
    pub bucket: Option<String>,
    pub access_key_id: Option<String>,
    pub secret_access_key: Option<String>,
}

impl S3WriterTool {
    /// Create the settings with their defaults.
    pub fn new() -> (r: Self)
        ensures
            r.region is None,
            r.bucket is None,
            r.access_key_id is None,
            r.secret_access_key is None,
    {
        S3WriterTool {
            region: Option::None,
            bucket: Option::None,
            access_key_id: Option::None,
            secret_access_key: Option::None,
        }
    }

    /// Set the region.
    pub fn with_region(self, region: String) -> (r: Self)
        ensures
            r == (Self { region: Option::Some(region), ..self }),
    {
        Self { region: Option::Some(region), ..self }
    }

    /// Set the bucket.
    pub fn with_bucket(self, bucket: String) -> (r: Self)
        ensures
            r == (Self { bucket: Option::Some(bucket), ..self }),
    {
        Self { bucket: Option::Some(bucket), ..self }
    }

    /// Set the access key id.
    pub fn with_access_key_id(self, key: String) -> (r: Self)
        ensures
            r == (Self { access_key_id: Option::Some(key), ..self }),
    {
        Self { access_key_id: Option::Some(key), ..self }
    }

    /// Set the secret access key.
    pub fn with_secret_access_key(self, key: String) -> (r: Self)
        ensures
            r == (Self { secret_access_key: Option::Some(key), ..self }),
    {
        Self { secret_access_key: Option::Some(key), ..self }
    }
}

impl Default for S3WriterTool {
    fn default() -> (r: Self)
        ensures
            r.region is None,
            r.bucket is None,
            r.access_key_id is None,
            r.secret_access_key is None,
    {
        Self::new()
    }
}

/// Settings for the Bedrock Invoke Agent Tool integration. The operation itself
/// talks to an outside service and runs outside the verified core.
#[derive(Debug)]
pub struct BedrockInvokeAgentTool {
    pub region: Option<String>,
    pub agent_id: String,
    pub agent_alias_id: String,
}

impl BedrockInvokeAgentTool {
    /// Create the settings with their defaults.
    pub fn new(agent_id: String, agent_alias_id: String) -> (r: Self)
        ensures
            r.region is None,
            r.agent_id == agent_id,
            r.agent_alias_id == agent_alias_id,
    {
        BedrockInvokeAgentTool {
            region: Option::None,
            agent_id: agent_id,
            agent_alias_id: agent_alias_id,
        }
    }

    /// Set the region.
    pub fn with_region(self, region: String) -> (r: Self)
        ensures
            r == (Self { region: Option::Some(region), ..self }),
    {
        Self { region: Option::Some(region), ..self }
    }
}

/// Settings for the Bedrock Kb Retriever Tool integration. The operation itself
/// talks to an outside service and runs outside the verified core.
#[derive(Debug)]
pub struct BedrockKbRetrieverTool {
    pub region: Option<String>,
    pub knowledge_base_id: String,
    pub top_k: usize,
}

impl BedrockKbRetrieverTool {
    /// Create the settings with their defaults.
    pub fn new(knowledge_base_id: String) -> (r: Self)
        ensures
            r.region is None,
            r.knowledge_base_id == knowledge_base_id,
            r.top_k == 5,
    {
        BedrockKbRetrieverTool {
            region: Option::None,
            knowledge_base_id: knowledge_base_id,
            top_k: 5,
        }
    }
    /// Set the region.
    pub fn with_region(self, region: String) -> (r: Self)
        ensures
            r == (Self { region: Option::Some(region), ..self }),
    {
        Self { region: Option::Some(region), ..self }
    }

    /// Set the top k.
    pub fn with_top_k(self, k: usize) -> (r: Self)
        ensures
            r == (Self { top_k: k, ..self }),
    {
        Self { top_k: k, ..self }
    }

}

} // verus!
