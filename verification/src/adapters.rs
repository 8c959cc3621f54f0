//! Adapters that bridge the tool system to external platforms:
//! protocol servers, enterprise action frameworks and vector-backed
//! retrieval pipelines. Only their plain settings live here.

use vstd::prelude::*;
use vstd::string::StringExecFns;

verus! {

/// Settings for the Mcp Server Adapter integration. The operation itself
/// talks to an outside service and runs outside the verified core.
#[derive(Debug)]
pub struct McpServerAdapter {
    pub server_name: String,
    pub description: Option<String>,
}

impl McpServerAdapter {
    /// Create the settings with their defaults.
    pub fn new(server_name: String) -> (r: Self)
        ensures
            r.server_name == server_name,
            r.description is None,
    {
        McpServerAdapter {
            server_name: server_name,
            description: Option::None,
        }
    }

    /// Set the description.
    pub fn with_description(self, description: String) -> (r: Self)
        ensures
            r == (Self { description: Option::Some(description), ..self }),
    {
        Self { description: Option::Some(description), ..self }
    }
}

impl McpServerAdapter {
    /// The adapter's configured server name.
    pub fn name(&self) -> (r: &str)
        ensures
            r@ == self.server_name@,
    {
        self.server_name.as_str()
    }

    /// The adapter's configured description, if one was set.
    pub fn description(&self) -> (r: Option<&str>)
        ensures
            match r {
                Option::Some(d) => self.description is Some
                    && d@ == self.description.unwrap()@,
                Option::None => self.description is None,
            },
    {
        match &self.description {
            Option::Some(d) => Option::Some(d.as_str()),
            Option::None => Option::None,
        }
    }
}

/// Settings for the Enterprise Action Tool integration. The operation itself
/// talks to an outside service and runs outside the verified core.
#[derive(Debug)]
pub struct EnterpriseActionTool {
    pub action_name: String,
    pub api_endpoint: Option<String>,
    pub api_key: Option<String>,
}

impl EnterpriseActionTool {
    /// Create the settings with their defaults.
    pub fn new(action_name: String) -> (r: Self)
        ensures
            r.action_name == action_name,
            r.api_endpoint is None,
            r.api_key is None,
    {
        EnterpriseActionTool {
            action_name: action_name,
            api_endpoint: Option::None,
            api_key: Option::None,
        }
    }

    /// Set the api endpoint.
    pub fn with_api_endpoint(self, endpoint: String) -> (r: Self)
        ensures
            r == (Self { api_endpoint: Option::Some(endpoint), ..self }),
    {
        Self { api_endpoint: Option::Some(endpoint), ..self }
    }

    /// Set the api key.
    pub fn with_api_key(self, key: String) -> (r: Self)
        ensures
            r == (Self { api_key: Option::Some(key), ..self }),
    {
        Self { api_key: Option::Some(key), ..self }
    }

    /// The tool's name.
    pub fn name(&self) -> (r: &'static str)
        ensures
            r@ == "EnterpriseActionTool"@,
    {
        "EnterpriseActionTool"
    }

    /// What the tool does.
    pub fn description(&self) -> (r: &'static str)
        ensures
            r@ == "Execute enterprise workflow actions through external service integrations"@,
    {
        "Execute enterprise workflow actions through external service integrations"
    }
}

/// Settings for the Zapier Action Tool integration. The operation itself
/// talks to an outside service and runs outside the verified core.
#[derive(Debug)]
pub struct ZapierActionTool {
    pub api_key: Option<String>,
    pub action_id: Option<String>,
}

impl ZapierActionTool {
    /// Create the settings with their defaults.
    pub fn new() -> (r: Self)
        ensures
            r.api_key is None,
            r.action_id is None,
    {
        ZapierActionTool {
            api_key: Option::None,
            action_id: Option::None,
        }
    }

    /// Set the api key.
    pub fn with_api_key(self, key: String) -> (r: Self)
        ensures
            r == (Self { api_key: Option::Some(key), ..self }),
    {
        Self { api_key: Option::Some(key), ..self }
    }

    /// Set the action id.
    pub fn with_action_id(self, id: String) -> (r: Self)
        ensures
            r == (Self { action_id: Option::Some(id), ..self }),
    {
        Self { action_id: Option::Some(id), ..self }
    }

    /// The tool's name.
    pub fn name(&self) -> (r: &'static str)
        ensures
            r@ == "ZapierActionTool"@,
    {
        "ZapierActionTool"
    }

    /// What the tool does.
    pub fn description(&self) -> (r: &'static str)
        ensures
            r@ == "Execute Zapier actions via the Natural Language Actions API"@,
    {
        "Execute Zapier actions via the Natural Language Actions API"
    }
}

impl Default for ZapierActionTool {
    fn default() -> (r: Self)
        ensures
            r.api_key is None,
            r.action_id is None,
    {
        Self::new()
    }
}

/// Settings for the Rag Adapter integration. The operation itself
/// talks to an outside service and runs outside the verified core.
#[derive(Debug)]
pub struct RagAdapter {
    pub pipeline_name: String,
    pub embedding_model: Option<String>,
    pub top_k: usize,
}

impl RagAdapter {
    /// Create the settings with their defaults.
    pub fn new(pipeline_name: String) -> (r: Self)
        ensures
            r.pipeline_name == pipeline_name,
            r.embedding_model is None,
            r.top_k == 5,
    {
        RagAdapter {
            pipeline_name: pipeline_name,
            embedding_model: Option::None,
            top_k: 5,
        }
    }

    /// Set the embedding model.
    pub fn with_embedding_model(self, model: String) -> (r: Self)
        ensures
            r == (Self { embedding_model: Option::Some(model), ..self }),
    {
        Self { embedding_model: Option::Some(model), ..self }
    }

    /// Set the top k.
    pub fn with_top_k(self, k: usize) -> (r: Self)
        ensures
            r == (Self { top_k: k, ..self }),
    {
        Self { top_k: k, ..self }
    }

    /// The tool's name.
    pub fn name(&self) -> (r: &'static str)
        ensures
            r@ == "RagAdapter"@,
    {
        "RagAdapter"
    }

    /// What the tool does.
    pub fn description(&self) -> (r: &'static str)
        ensures
            r@ == "Connect retrieval pipelines for retrieval-augmented generation"@,
    {
        "Connect retrieval pipelines for retrieval-augmented generation"
    }
}

/// Settings for the Lance Db Adapter integration. The operation itself
/// talks to an outside service and runs outside the verified core.
#[derive(Debug)]
pub struct LanceDbAdapter {
    pub db_path: String,
    pub table_name: Option<String>,
    pub top_k: usize,
}

impl LanceDbAdapter {
    /// Create the settings with their defaults.
    pub fn new(db_path: String) -> (r: Self)
        ensures
            r.db_path == db_path,
            r.table_name is None,
            r.top_k == 5,
    {
        LanceDbAdapter {
            db_path: db_path,
            table_name: Option::None,
            top_k: 5,
        }
    }

    /// Set the table name.
    pub fn with_table_name(self, table: String) -> (r: Self)
        ensures
            r == (Self { table_name: Option::Some(table), ..self }),
    {
        Self { table_name: Option::Some(table), ..self }
    }

    /// Set the number of results to return.
    pub fn with_top_k(self, k: usize) -> (r: Self)
        ensures
            r == (Self { top_k: k, ..self }),
    {
        Self { top_k: k, ..self }
    }

    /// The tool's name.
    pub fn name(&self) -> (r: &'static str)
        ensures
            r@ == "LanceDbAdapter"@,
    {
        "LanceDbAdapter"
    }

    /// What the tool does.
    pub fn description(&self) -> (r: &'static str)
        ensures
            r@ == "Vector search and storage via LanceDB"@,
    {
        "Vector search and storage via LanceDB"
    }
}

} // verus!
