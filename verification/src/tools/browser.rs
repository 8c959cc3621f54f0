//! Browser automation tool settings.
//!
//! Each struct holds the plain configuration a tool runs with; the
//! side-effecting call it configures is made by the embedding program.

use vstd::prelude::*;
use vstd::string::StringExecFns;

verus! {

/// Settings for the Browserbase Load Tool integration. The operation itself
/// talks to an outside service and runs outside the verified core.
#[derive(Debug)]
pub struct BrowserbaseLoadTool {
    pub api_key: Option<String>,
    pub project_id: Option<String>,
    pub text_only: bool,
}

impl BrowserbaseLoadTool {
    /// Create the settings with their defaults.
    pub fn new() -> (r: Self)
        ensures
            r.api_key is None,
            r.project_id is None,
            !r.text_only,
    {
        BrowserbaseLoadTool {
            api_key: Option::None,
            project_id: Option::None,
            text_only: false,
        }
    }

    /// Set the api key.
    pub fn with_api_key(self, key: String) -> (r: Self)
        ensures
            r == (Self { api_key: Option::Some(key), ..self }),
    {
        Self { api_key: Option::Some(key), ..self }
    }

    /// Set the project id.
    pub fn with_project_id(self, id: String) -> (r: Self)
        ensures
            r == (Self { project_id: Option::Some(id), ..self }),
    {
        Self { project_id: Option::Some(id), ..self }
    }

    /// Set the text only.
    pub fn with_text_only(self, text_only: bool) -> (r: Self)
        ensures
            r == (Self { text_only: text_only, ..self }),
    {
        Self { text_only: text_only, ..self }
    }
}

impl Default for BrowserbaseLoadTool {
    fn default() -> (r: Self)
        ensures
            r.api_key is None,
            r.project_id is None,
            !r.text_only,
    {
        Self::new()
    }
}

/// Settings for the Hyperbrowser Load Tool integration. The operation itself
/// talks to an outside service and runs outside the verified core.
#[derive(Debug)]
pub struct HyperbrowserLoadTool {
    pub api_key: Option<String>,
    pub timeout: u64,
}

impl HyperbrowserLoadTool {
    /// Create the settings with their defaults.
    pub fn new() -> (r: Self)
        ensures
            r.api_key is None,
            r.timeout == 30,
    {
        HyperbrowserLoadTool {
            api_key: Option::None,
            timeout: 30,
        }
    }

    /// Set the api key.
    pub fn with_api_key(self, key: String) -> (r: Self)
        ensures
            r == (Self { api_key: Option::Some(key), ..self }),
    {
        Self { api_key: Option::Some(key), ..self }
    }

    /// Set the timeout.
    pub fn with_timeout(self, timeout: u64) -> (r: Self)
        ensures
            r == (Self { timeout: timeout, ..self }),
    {
        Self { timeout: timeout, ..self }
    }
}

impl Default for HyperbrowserLoadTool {
    fn default() -> (r: Self)
        ensures
            r.api_key is None,
            r.timeout == 30,
    {
        Self::new()
    }
}

/// Settings for the Stagehand Tool integration. The operation itself
/// talks to an outside service and runs outside the verified core.
#[derive(Debug)]
pub struct StagehandTool {
    pub api_key: Option<String>,
    pub headless: bool,
}

impl StagehandTool {
    /// Create the settings with their defaults.
    pub fn new() -> (r: Self)
        ensures
            r.api_key is None,
            r.headless,
    {
        StagehandTool {
            api_key: Option::None,
            headless: true,
        }
    }

    /// Set the api key.
    pub fn with_api_key(self, key: String) -> (r: Self)
        ensures
            r == (Self { api_key: Option::Some(key), ..self }),
    {
        Self { api_key: Option::Some(key), ..self }
    }

    /// Set the headless.
    pub fn with_headless(self, headless: bool) -> (r: Self)
        ensures
            r == (Self { headless: headless, ..self }),
    {
        Self { headless: headless, ..self }
    }
}

impl Default for StagehandTool {
    fn default() -> (r: Self)
        ensures
            r.api_key is None,
            r.headless,
    {
        Self::new()
    }
}

/// Settings for the Multi On Tool integration. The operation itself
/// talks to an outside service and runs outside the verified core.
#[derive(Debug)]
pub struct MultiOnTool {
    pub api_key: Option<String>,
    pub local: bool,
}

impl MultiOnTool {
    /// Create the settings with their defaults.
    pub fn new() -> (r: Self)
        ensures
            r.api_key is None,
            !r.local,
    {
        MultiOnTool {
            api_key: Option::None,
            local: false,
        }
    }

    /// Set the api key.
    pub fn with_api_key(self, key: String) -> (r: Self)
        ensures
            r == (Self { api_key: Option::Some(key), ..self }),
    {
        Self { api_key: Option::Some(key), ..self }
    }

    /// Set the local.
    pub fn with_local(self, local: bool) -> (r: Self)
        ensures
            r == (Self { local: local, ..self }),
    {
        Self { local: local, ..self }
    }
}

impl Default for MultiOnTool {
    fn default() -> (r: Self)
        ensures
            r.api_key is None,
            !r.local,
    {
        Self::new()
    }
}

} // verus!
