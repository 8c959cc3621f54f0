//! Search tool settings: web search engines, document search, and
//! data-source search.
//!
//! Each struct holds the plain configuration a tool runs with; the
//! side-effecting call it configures is made by the embedding program.

use vstd::prelude::*;
use vstd::string::StringExecFns;

verus! {

/// Settings for the Brave Search Tool integration. The operation itself
/// talks to an outside service and runs outside the verified core.
#[derive(Debug)]
pub struct BraveSearchTool {
    pub api_key: Option<String>,
    pub max_results: usize,
    pub country: Option<String>,
}

impl BraveSearchTool {
    /// Create the settings with their defaults.
    pub fn new() -> (r: Self)
        ensures
            r.api_key is None,
            r.max_results == 10,
            r.country is None,
    {
        BraveSearchTool {
            api_key: Option::None,
            max_results: 10,
            country: Option::None,
        }
    }

    /// Set the api key.
    pub fn with_api_key(self, key: String) -> (r: Self)
        ensures
            r == (Self { api_key: Option::Some(key), ..self }),
    {
        Self { api_key: Option::Some(key), ..self }
    }

    /// Set the max results.
    pub fn with_max_results(self, n: usize) -> (r: Self)
        ensures
            r == (Self { max_results: n, ..self }),
    {
        Self { max_results: n, ..self }
    }

    /// Set the country.
    pub fn with_country(self, country: String) -> (r: Self)
        ensures
            r == (Self { country: Option::Some(country), ..self }),
    {
        Self { country: Option::Some(country), ..self }
    }
}

impl Default for BraveSearchTool {
    fn default() -> (r: Self)
        ensures
            r.api_key is None,
            r.max_results == 10,
            r.country is None,
    {
        Self::new()
    }
}

/// Settings for the Serper Dev Tool integration. The operation itself
/// talks to an outside service and runs outside the verified core.
#[derive(Debug)]
pub struct SerperDevTool {
    pub api_key: Option<String>,
    pub search_type: String,
    pub max_results: usize,
    pub country: Option<String>,
    pub language: Option<String>,
}

impl SerperDevTool {
    /// Create the settings with their defaults.
    pub fn new() -> (r: Self)
        ensures
            r.api_key is None,
            r.search_type@ == "search"@,
            r.max_results == 10,
            r.country is None,
            r.language is None,
    {
        SerperDevTool {
            api_key: Option::None,
            search_type: String::from_str("search"),
            max_results: 10,
            country: Option::None,
            language: Option::None,
        }
    }

    /// Set the api key.
    pub fn with_api_key(self, key: String) -> (r: Self)
        ensures
            r == (Self { api_key: Option::Some(key), ..self }),
    {
        Self { api_key: Option::Some(key), ..self }
    }

    /// Set the search type.
    pub fn with_search_type(self, search_type: String) -> (r: Self)
        ensures
            r == (Self { search_type: search_type, ..self }),
    {
        Self { search_type: search_type, ..self }
    }

    /// Set the max results.
    pub fn with_max_results(self, n: usize) -> (r: Self)
        ensures
            r == (Self { max_results: n, ..self }),
    {
        Self { max_results: n, ..self }
    }

    /// Set the country.
    pub fn with_country(self, country: String) -> (r: Self)
        ensures
            r == (Self { country: Option::Some(country), ..self }),
    {
        Self { country: Option::Some(country), ..self }
    }

    /// Set the language.
    pub fn with_language(self, lang: String) -> (r: Self)
        ensures
            r == (Self { language: Option::Some(lang), ..self }),
    {
        Self { language: Option::Some(lang), ..self }
    }

    /// The API endpoint the configured search type selects; unknown types
    /// fall back to plain web search.
    pub fn endpoint(&self) -> (r: &'static str)
        ensures
            self.search_type@ == "news"@ ==> r@ == "https://google.serper.dev/news"@,
            self.search_type@ == "images"@
                ==> r@ == "https://google.serper.dev/images"@,
            self.search_type@ == "places"@
                ==> r@ == "https://google.serper.dev/places"@,
            self.search_type@ != "news"@ && self.search_type@ != "images"@
                && self.search_type@ != "places"@
                ==> r@ == "https://google.serper.dev/search"@,
    {
        proof {
            reveal_strlit("news");
            reveal_strlit("images");
            reveal_strlit("places");
            assert("news"@.len() == 4);
            assert("images"@.len() == 6);
            assert("places"@.len() == 6);
            assert("images"@[0] == 'i');
            assert("places"@[0] == 'p');
            assert("news"@ != "images"@);
            assert("news"@ != "places"@);
            assert("images"@ != "places"@);
        }
        if crate::config::str_eq(self.search_type.as_str(), "news") {
            "https://google.serper.dev/news"
        } else if crate::config::str_eq(self.search_type.as_str(), "images") {
            "https://google.serper.dev/images"
        } else if crate::config::str_eq(self.search_type.as_str(), "places") {
            "https://google.serper.dev/places"
        } else {
            "https://google.serper.dev/search"
        }
    }
}

impl Default for SerperDevTool {
    fn default() -> (r: Self)
        ensures
            r.api_key is None,
            r.search_type@ == "search"@,
            r.max_results == 10,
            r.country is None,
            r.language is None,
    {
        Self::new()
    }
}

/// Settings for the Tavily Search Tool integration. The operation itself
/// talks to an outside service and runs outside the verified core.
#[derive(Debug)]
pub struct TavilySearchTool {
    pub api_key: Option<String>,
    pub search_depth: String,
    pub max_results: usize,
}

impl TavilySearchTool {
    /// Create the settings with their defaults.
    pub fn new() -> (r: Self)
        ensures
            r.api_key is None,
            r.search_depth@ == "basic"@,
            r.max_results == 10,
    {
        TavilySearchTool {
            api_key: Option::None,
            search_depth: String::from_str("basic"),
            max_results: 10,
        }
    }

    /// Set the api key.
    pub fn with_api_key(self, key: String) -> (r: Self)
        ensures
            r == (Self { api_key: Option::Some(key), ..self }),
    {
        Self { api_key: Option::Some(key), ..self }
    }

    /// Set the search depth.
    pub fn with_search_depth(self, depth: String) -> (r: Self)
        ensures
            r == (Self { search_depth: depth, ..self }),
    {
        Self { search_depth: depth, ..self }
    }

    /// Set the max results.
    pub fn with_max_results(self, n: usize) -> (r: Self)
        ensures
            r == (Self { max_results: n, ..self }),
    {
        Self { max_results: n, ..self }
    }
}

impl Default for TavilySearchTool {
    fn default() -> (r: Self)
        ensures
            r.api_key is None,
            r.search_depth@ == "basic"@,
            r.max_results == 10,
    {
        Self::new()
    }
}

/// Settings for the Exa Search Tool integration. The operation itself
/// talks to an outside service and runs outside the verified core.
#[derive(Debug)]
pub struct ExaSearchTool {
    pub api_key: Option<String>,
    pub max_results: usize,
    pub include_contents: bool,
}

impl ExaSearchTool {
    /// Create the settings with their defaults.
    pub fn new() -> (r: Self)
        ensures
            r.api_key is None,
            r.max_results == 10,
            r.include_contents,
    {
        ExaSearchTool {
            api_key: Option::None,
            max_results: 10,
            include_contents: true,
        }
    }

    /// Set the api key.
    pub fn with_api_key(self, key: String) -> (r: Self)
        ensures
            r == (Self { api_key: Option::Some(key), ..self }),
    {
        Self { api_key: Option::Some(key), ..self }
    }

    /// Set the max results.
    pub fn with_max_results(self, n: usize) -> (r: Self)
        ensures
            r == (Self { max_results: n, ..self }),
    {
        Self { max_results: n, ..self }
    }

    /// Set the include contents.
    pub fn with_include_contents(self, enabled: bool) -> (r: Self)
        ensures
            r == (Self { include_contents: enabled, ..self }),
    {
        Self { include_contents: enabled, ..self }
    }
}

impl Default for ExaSearchTool {
    fn default() -> (r: Self)
        ensures
            r.api_key is None,
            r.max_results == 10,
            r.include_contents,
    {
        Self::new()
    }
}

/// Settings for the Arxiv Paper Tool integration. The operation itself
/// talks to an outside service and runs outside the verified core.
#[derive(Debug)]
pub struct ArxivPaperTool {
    pub max_results: usize,
    pub sort_by: String,
}

impl ArxivPaperTool {
    /// Create the settings with their defaults.
    pub fn new() -> (r: Self)
        ensures
            r.max_results == 5,
            r.sort_by@ == "relevance"@,
    {
        ArxivPaperTool {
            max_results: 5,
            sort_by: String::from_str("relevance"),
        }
    }

    /// Set the max results.
    pub fn with_max_results(self, n: usize) -> (r: Self)
        ensures
            r == (Self { max_results: n, ..self }),
    {
        Self { max_results: n, ..self }
    }

    /// Set the sort by.
    pub fn with_sort_by(self, sort: String) -> (r: Self)
        ensures
            r == (Self { sort_by: sort, ..self }),
    {
        Self { sort_by: sort, ..self }
    }
}

impl Default for ArxivPaperTool {
    fn default() -> (r: Self)
        ensures
            r.max_results == 5,
            r.sort_by@ == "relevance"@,
    {
        Self::new()
    }
}

/// Settings for the Csv Search Tool integration. The operation itself
/// talks to an outside service and runs outside the verified core.
#[derive(Debug)]
pub struct CsvSearchTool {
    pub file_path: Option<String>,
}

impl CsvSearchTool {
    /// Create the settings with their defaults.
    pub fn new() -> (r: Self)
        ensures
            r.file_path is None,
    {
        CsvSearchTool {
            file_path: Option::None,
        }
    }

    /// Set the file path.
    pub fn with_file_path(self, path: String) -> (r: Self)
        ensures
            r == (Self { file_path: Option::Some(path), ..self }),
    {
        Self { file_path: Option::Some(path), ..self }
    }
}

impl Default for CsvSearchTool {
    fn default() -> (r: Self)
        ensures
            r.file_path is None,
    {
        Self::new()
    }
}

/// Settings for the Code Docs Search Tool integration. The operation itself
/// talks to an outside service and runs outside the verified core.
#[derive(Debug)]
pub struct CodeDocsSearchTool {
    pub docs_url: Option<String>,
}

impl CodeDocsSearchTool {
    /// Create the settings with their defaults.
    pub fn new() -> (r: Self)
        ensures
            r.docs_url is None,
    {
        CodeDocsSearchTool {
            docs_url: Option::None,
        }
    }

    /// Set the docs url.
    pub fn with_docs_url(self, url: String) -> (r: Self)
        ensures
            r == (Self { docs_url: Option::Some(url), ..self }),
    {
        Self { docs_url: Option::Some(url), ..self }
    }
}

impl Default for CodeDocsSearchTool {
    fn default() -> (r: Self)
        ensures
            r.docs_url is None,
    {
        Self::new()
    }
}

/// Settings for the Directory Search Tool integration. The operation itself
/// talks to an outside service and runs outside the verified core.
#[derive(Debug)]
pub struct DirectorySearchTool {
    pub directory: Option<String>,
}

impl DirectorySearchTool {
    /// Create the settings with their defaults.
    pub fn new() -> (r: Self)
        ensures
            r.directory is None,
    {
        DirectorySearchTool {
            directory: Option::None,
        }
    }

    /// Set the directory.
    pub fn with_directory(self, dir: String) -> (r: Self)
        ensures
            r == (Self { directory: Option::Some(dir), ..self }),
    {
        Self { directory: Option::Some(dir), ..self }
    }
}

impl Default for DirectorySearchTool {
    fn default() -> (r: Self)
        ensures
            r.directory is None,
    {
        Self::new()
    }
}

/// Settings for the Docx Search Tool integration. The operation itself
/// talks to an outside service and runs outside the verified core.
#[derive(Debug)]
pub struct DocxSearchTool {
    pub file_path: Option<String>,
}

impl DocxSearchTool {
    /// Create the settings with their defaults.
    pub fn new() -> (r: Self)
        ensures
            r.file_path is None,
    {
        DocxSearchTool {
            file_path: Option::None,
        }
    }

    /// Set the file path.
    pub fn with_file_path(self, path: String) -> (r: Self)
        ensures
            r == (Self { file_path: Option::Some(path), ..self }),
    {
        Self { file_path: Option::Some(path), ..self }
    }
}

impl Default for DocxSearchTool {
    fn default() -> (r: Self)
        ensures
            r.file_path is None,
    {
        Self::new()
    }
}

/// Settings for the Github Search Tool integration. The operation itself
/// talks to an outside service and runs outside the verified core.
#[derive(Debug)]
pub struct GithubSearchTool {
    pub github_token: Option<String>,
    pub repository: Option<String>,
    pub content_types: Vec<String>,
}

impl GithubSearchTool {
    /// Create the settings with their defaults.
    pub fn new() -> (r: Self)
        ensures
            r.github_token is None,
            r.repository is None,
            r.content_types.deep_view() =~= seq!["code"@],
    {
        let mut content_types: Vec<String> = Vec::new();
        content_types.push(String::from_str("code"));
        GithubSearchTool {
            github_token: Option::None,
            repository: Option::None,
            content_types,
        }
    }

    /// Set the github token.
    pub fn with_github_token(self, token: String) -> (r: Self)
        ensures
            r == (Self { github_token: Option::Some(token), ..self }),
    {
        Self { github_token: Option::Some(token), ..self }
    }

    /// Set the repository.
    pub fn with_repository(self, repo: String) -> (r: Self)
        ensures
            r == (Self { repository: Option::Some(repo), ..self }),
    {
        Self { repository: Option::Some(repo), ..self }
    }

    /// Set the content types.
    pub fn with_content_types(self, types: Vec<String>) -> (r: Self)
        ensures
            r == (Self { content_types: types, ..self }),
    {
        Self { content_types: types, ..self }
    }
}

impl Default for GithubSearchTool {
    fn default() -> (r: Self)
        ensures
            r.github_token is None,
            r.repository is None,
            r.content_types.deep_view() =~= seq!["code"@],
    {
        Self::new()
    }
}

/// Settings for the Json Search Tool integration. The operation itself
/// talks to an outside service and runs outside the verified core.
#[derive(Debug)]
pub struct JsonSearchTool {
    pub file_path: Option<String>,
}

impl JsonSearchTool {
    /// Create the settings with their defaults.
    pub fn new() -> (r: Self)
        ensures
            r.file_path is None,
    {
        JsonSearchTool {
            file_path: Option::None,
        }
    }

    /// Set the file path.
    pub fn with_file_path(self, path: String) -> (r: Self)
        ensures
            r == (Self { file_path: Option::Some(path), ..self }),
    {
        Self { file_path: Option::Some(path), ..self }
    }
}

impl Default for JsonSearchTool {
    fn default() -> (r: Self)
        ensures
            r.file_path is None,
    {
        Self::new()
    }
}

/// Settings for the Mdx Search Tool integration. The operation itself
/// talks to an outside service and runs outside the verified core.
#[derive(Debug)]
pub struct MdxSearchTool {
    pub file_path: Option<String>,
}

impl MdxSearchTool {
    /// Create the settings with their defaults.
    pub fn new() -> (r: Self)
        ensures
            r.file_path is None,
    {
        MdxSearchTool {
            file_path: Option::None,
        }
    }

    /// Set the file path.
    pub fn with_file_path(self, path: String) -> (r: Self)
        ensures
            r == (Self { file_path: Option::Some(path), ..self }),
    {
        Self { file_path: Option::Some(path), ..self }
    }
}

impl Default for MdxSearchTool {
    fn default() -> (r: Self)
        ensures
            r.file_path is None,
    {
        Self::new()
    }
}

/// Settings for the Pdf Search Tool integration. The operation itself
/// talks to an outside service and runs outside the verified core.
#[derive(Debug)]
pub struct PdfSearchTool {
    pub file_path: Option<String>,
}

impl PdfSearchTool {
    /// Create the settings with their defaults.
    pub fn new() -> (r: Self)
        ensures
            r.file_path is None,
    {
        PdfSearchTool {
            file_path: Option::None,
        }
    }

    /// Set the file path.
    pub fn with_file_path(self, path: String) -> (r: Self)
        ensures
            r == (Self { file_path: Option::Some(path), ..self }),
    {
        Self { file_path: Option::Some(path), ..self }
    }
}

impl Default for PdfSearchTool {
    fn default() -> (r: Self)
        ensures
            r.file_path is None,
    {
        Self::new()
    }
}

/// Settings for the Txt Search Tool integration. The operation itself
/// talks to an outside service and runs outside the verified core.
#[derive(Debug)]
pub struct TxtSearchTool {
    pub file_path: Option<String>,
}

impl TxtSearchTool {
    /// Create the settings with their defaults.
    pub fn new() -> (r: Self)
        ensures
            r.file_path is None,
    {
        TxtSearchTool {
            file_path: Option::None,
        }
    }

    /// Set the file path.
    pub fn with_file_path(self, path: String) -> (r: Self)
        ensures
            r == (Self { file_path: Option::Some(path), ..self }),
    {
        Self { file_path: Option::Some(path), ..self }
    }
}

impl Default for TxtSearchTool {
    fn default() -> (r: Self)
        ensures
            r.file_path is None,
    {
        Self::new()
    }
}

/// Settings for the Xml Search Tool integration. The operation itself
/// talks to an outside service and runs outside the verified core.
#[derive(Debug)]
pub struct XmlSearchTool {
    pub file_path: Option<String>,
}

impl XmlSearchTool {
    /// Create the settings with their defaults.
    pub fn new() -> (r: Self)
        ensures
            r.file_path is None,
    {
        XmlSearchTool {
            file_path: Option::None,
        }
    }

    /// Set the file path.
    pub fn with_file_path(self, path: String) -> (r: Self)
        ensures
            r == (Self { file_path: Option::Some(path), ..self }),
    {
        Self { file_path: Option::Some(path), ..self }
    }
}

impl Default for XmlSearchTool {
    fn default() -> (r: Self)
        ensures
            r.file_path is None,
    {
        Self::new()
    }
}

/// Settings for the Website Search Tool integration. The operation itself
/// talks to an outside service and runs outside the verified core.
#[derive(Debug)]
pub struct WebsiteSearchTool {
    pub website_url: Option<String>,
}

impl WebsiteSearchTool {
    /// Create the settings with their defaults.
    pub fn new() -> (r: Self)
        ensures
            r.website_url is None,
    {
        WebsiteSearchTool {
            website_url: Option::None,
        }
    }

    /// Set the website url.
    pub fn with_website_url(self, url: String) -> (r: Self)
        ensures
            r == (Self { website_url: Option::Some(url), ..self }),
    {
        Self { website_url: Option::Some(url), ..self }
    }
}

impl Default for WebsiteSearchTool {
    fn default() -> (r: Self)
        ensures
            r.website_url is None,
    {
        Self::new()
    }
}

/// Settings for the Youtube Channel Search Tool integration. The operation itself
/// talks to an outside service and runs outside the verified core.
#[derive(Debug)]
pub struct YoutubeChannelSearchTool {
    pub channel: Option<String>,
}

impl YoutubeChannelSearchTool {
    /// Create the settings with their defaults.
    pub fn new() -> (r: Self)
        ensures
            r.channel is None,
    {
        YoutubeChannelSearchTool {
            channel: Option::None,
        }
    }

    /// Set the channel.
    pub fn with_channel(self, channel: String) -> (r: Self)
        ensures
            r == (Self { channel: Option::Some(channel), ..self }),
    {
        Self { channel: Option::Some(channel), ..self }
    }
}

impl Default for YoutubeChannelSearchTool {
    fn default() -> (r: Self)
        ensures
            r.channel is None,
    {
        Self::new()
    }
}

/// Settings for the Youtube Video Search Tool integration. The operation itself
/// talks to an outside service and runs outside the verified core.
#[derive(Debug)]
pub struct YoutubeVideoSearchTool {
    pub video_url: Option<String>,
}

impl YoutubeVideoSearchTool {
    /// Create the settings with their defaults.
    pub fn new() -> (r: Self)
        ensures
            r.video_url is None,
    {
        YoutubeVideoSearchTool {
            video_url: Option::None,
        }
    }

    /// Set the video url.
    pub fn with_video_url(self, url: String) -> (r: Self)
        ensures
            r == (Self { video_url: Option::Some(url), ..self }),
    {
        Self { video_url: Option::Some(url), ..self }
    }
}

impl Default for YoutubeVideoSearchTool {
    fn default() -> (r: Self)
        ensures
            r.video_url is None,
    {
        Self::new()
    }
}

/// Settings for the My Sql Search Tool integration. The operation itself
/// talks to an outside service and runs outside the verified core.
#[derive(Debug)]
pub struct MySqlSearchTool {
    pub connection_string: Option<String>,
    pub database: Option<String>,
}

impl MySqlSearchTool {
    /// Create the settings with their defaults.
    pub fn new() -> (r: Self)
        ensures
            r.connection_string is None,
            r.database is None,
    {
        MySqlSearchTool {
            connection_string: Option::None,
            database: Option::None,
        }
    }

    /// Set the connection string.
    pub fn with_connection_string(self, conn: String) -> (r: Self)
        ensures
            r == (Self { connection_string: Option::Some(conn), ..self }),
    {
        Self { connection_string: Option::Some(conn), ..self }
    }

    /// Set the database.
    pub fn with_database(self, db: String) -> (r: Self)
        ensures
            r == (Self { database: Option::Some(db), ..self }),
    {
        Self { database: Option::Some(db), ..self }
    }
}

impl Default for MySqlSearchTool {
    fn default() -> (r: Self)
        ensures
            r.connection_string is None,
            r.database is None,
    {
        Self::new()
    }
}

/// Settings for the Linkup Search Tool integration. The operation itself
/// talks to an outside service and runs outside the verified core.
#[derive(Debug)]
pub struct LinkupSearchTool {
    pub api_key: Option<String>,
    pub max_results: usize,
}

impl LinkupSearchTool {
    /// Create the settings with their defaults.
    pub fn new() -> (r: Self)
        ensures
            r.api_key is None,
            r.max_results == 10,
    {
        LinkupSearchTool {
            api_key: Option::None,
            max_results: 10,
        }
    }

    /// Set the api key.
    pub fn with_api_key(self, key: String) -> (r: Self)
        ensures
            r == (Self { api_key: Option::Some(key), ..self }),
    {
        Self { api_key: Option::Some(key), ..self }
    }

    /// Set the max results.
    pub fn with_max_results(self, n: usize) -> (r: Self)
        ensures
            r == (Self { max_results: n, ..self }),
    {
        Self { max_results: n, ..self }
    }
}

impl Default for LinkupSearchTool {
    fn default() -> (r: Self)
        ensures
            r.api_key is None,
            r.max_results == 10,
    {
        Self::new()
    }
}

/// Settings for the Parallel Search Tool integration. The operation itself
/// talks to an outside service and runs outside the verified core.
#[derive(Debug)]
pub struct ParallelSearchTool {
    pub max_concurrency: usize,
}

impl ParallelSearchTool {
    /// Create the settings with their defaults.
    pub fn new() -> (r: Self)
        ensures
            r.max_concurrency == 5,
    {
        ParallelSearchTool {
            max_concurrency: 5,
        }
    }

    /// Set the max concurrency.
    pub fn with_max_concurrency(self, n: usize) -> (r: Self)
        ensures
            r == (Self { max_concurrency: n, ..self }),
    {
        Self { max_concurrency: n, ..self }
    }
}

impl Default for ParallelSearchTool {
    fn default() -> (r: Self)
        ensures
            r.max_concurrency == 5,
    {
        Self::new()
    }
}

} // verus!
