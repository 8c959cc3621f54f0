//! Workflow automation tool settings.
//!
//! Each struct holds the plain configuration a tool runs with; the
//! side-effecting call it configures is made by the embedding program.

use vstd::prelude::*;
use vstd::string::StringExecFns;

verus! {

/// Settings for the Composio Tool integration. The operation itself
/// talks to an outside service and runs outside the verified core.
#[derive(Debug)]
pub struct ComposioTool {
    pub api_key: Option<String>,
    pub action: Option<String>,
    pub app_name: Option<String>,
}

impl ComposioTool {
    /// Create the settings with their defaults.
    pub fn new() -> (r: Self)
        ensures
            r.api_key is None,
            r.action is None,
            r.app_name is None,
    {
        ComposioTool {
            api_key: Option::None,
            action: Option::None,
            app_name: Option::None,
        }
    }

    /// Set the api key.
    pub fn with_api_key(self, key: String) -> (r: Self)
        ensures
            r == (Self { api_key: Option::Some(key), ..self }),
    {
        Self { api_key: Option::Some(key), ..self }
    }

    /// Set the action.
    pub fn with_action(self, action: String) -> (r: Self)
        ensures
            r == (Self { action: Option::Some(action), ..self }),
    {
        Self { action: Option::Some(action), ..self }
    }

    /// Set the app name.
    pub fn with_app_name(self, app: String) -> (r: Self)
        ensures
            r == (Self { app_name: Option::Some(app), ..self }),
    {
        Self { app_name: Option::Some(app), ..self }
    }
}

impl Default for ComposioTool {
    fn default() -> (r: Self)
        ensures
            r.api_key is None,
            r.action is None,
            r.app_name is None,
    {
        Self::new()
    }
}

/// Settings for the Apify Actors Tool integration. The operation itself
/// talks to an outside service and runs outside the verified core.
#[derive(Debug)]
pub struct ApifyActorsTool {
    pub api_token: Option<String>,
    pub actor_id: Option<String>,
}

impl ApifyActorsTool {
    /// Create the settings with their defaults.
    pub fn new() -> (r: Self)
        ensures
            r.api_token is None,
            r.actor_id is None,
    {
        ApifyActorsTool {
            api_token: Option::None,
            actor_id: Option::None,
        }
    }

    /// Set the api token.
    pub fn with_api_token(self, token: String) -> (r: Self)
        ensures
            r == (Self { api_token: Option::Some(token), ..self }),
    {
        Self { api_token: Option::Some(token), ..self }
    }

    /// Set the actor id.
    pub fn with_actor_id(self, id: String) -> (r: Self)
        ensures
            r == (Self { actor_id: Option::Some(id), ..self }),
    {
        Self { actor_id: Option::Some(id), ..self }
    }
}

impl Default for ApifyActorsTool {
    fn default() -> (r: Self)
        ensures
            r.api_token is None,
            r.actor_id is None,
    {
        Self::new()
    }
}

/// Settings for the Zapier Action Tools integration. The operation itself
/// talks to an outside service and runs outside the verified core.
#[derive(Debug)]
pub struct ZapierActionTools {
    pub api_key: Option<String>,
    pub allowed_actions: Vec<String>,
}

impl ZapierActionTools {
    /// Create the settings with their defaults.
    pub fn new() -> (r: Self)
        ensures
            r.api_key is None,
            r.allowed_actions.deep_view() =~= Seq::<Seq<char>>::empty(),
    {
        ZapierActionTools {
            api_key: Option::None,
            allowed_actions: Vec::new(),
        }
    }

    /// Set the api key.
    pub fn with_api_key(self, key: String) -> (r: Self)
        ensures
            r == (Self { api_key: Option::Some(key), ..self }),
    {
        Self { api_key: Option::Some(key), ..self }
    }

    /// Set the allowed actions.
    pub fn with_allowed_actions(self, actions: Vec<String>) -> (r: Self)
        ensures
            r == (Self { allowed_actions: actions, ..self }),
    {
        Self { allowed_actions: actions, ..self }
    }
}

impl Default for ZapierActionTools {
    fn default() -> (r: Self)
        ensures
            r.api_key is None,
            r.allowed_actions.deep_view() =~= Seq::<Seq<char>>::empty(),
    {
        Self::new()
    }
}

/// Settings for the Generate Crewai Automation Tool integration. The operation itself
/// talks to an outside service and runs outside the verified core.
#[derive(Debug)]
pub struct GenerateCrewaiAutomationTool {
    pub output_format: String,
}

impl GenerateCrewaiAutomationTool {
    /// Create the settings with their defaults.
    pub fn new() -> (r: Self)
        ensures
            r.output_format@ == "yaml"@,
    {
        GenerateCrewaiAutomationTool {
            output_format: String::from_str("yaml"),
        }
    }

    /// Set the output format.
    pub fn with_output_format(self, format: String) -> (r: Self)
        ensures
            r == (Self { output_format: format, ..self }),
    {
        Self { output_format: format, ..self }
    }
}

impl Default for GenerateCrewaiAutomationTool {
    fn default() -> (r: Self)
        ensures
            r.output_format@ == "yaml"@,
    {
        Self::new()
    }
}

/// Settings for the Invoke Crewai Automation Tool integration. The operation itself
/// talks to an outside service and runs outside the verified core.
#[derive(Debug)]
pub struct InvokeCrewaiAutomationTool {
    pub config_path: Option<String>,
}

impl InvokeCrewaiAutomationTool {
    /// Create the settings with their defaults.
    pub fn new() -> (r: Self)
        ensures
            r.config_path is None,
    {
        InvokeCrewaiAutomationTool {
            config_path: Option::None,
        }
    }

    /// Set the config path.
    pub fn with_config_path(self, path: String) -> (r: Self)
        ensures
            r == (Self { config_path: Option::Some(path), ..self }),
    {
        Self { config_path: Option::Some(path), ..self }
    }
}

impl Default for InvokeCrewaiAutomationTool {
    fn default() -> (r: Self)
        ensures
            r.config_path is None,
    {
        Self::new()
    }
}

/// Settings for the Merge Agent Handler Tool integration. The operation itself
/// talks to an outside service and runs outside the verified core.
#[derive(Debug)]
pub struct MergeAgentHandlerTool {
    pub merge_strategy: String,
}

impl MergeAgentHandlerTool {
    /// Create the settings with their defaults.
    pub fn new() -> (r: Self)
        ensures
            r.merge_strategy@ == "concat"@,
    {
        MergeAgentHandlerTool {
            merge_strategy: String::from_str("concat"),
        }
    }

    /// Set the merge strategy.
    pub fn with_merge_strategy(self, strategy: String) -> (r: Self)
        ensures
            r == (Self { merge_strategy: strategy, ..self }),
    {
        Self { merge_strategy: strategy, ..self }
    }
}

impl Default for MergeAgentHandlerTool {
    fn default() -> (r: Self)
        ensures
            r.merge_strategy@ == "concat"@,
    {
        Self::new()
    }
}

} // verus!
