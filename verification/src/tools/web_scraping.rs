//! Web scraping tool settings: website content extraction, crawling
//! and element scraping.
//!
//! Each struct holds the plain configuration a tool runs with; the
//! side-effecting call it configures is made by the embedding program.

use vstd::prelude::*;
use vstd::string::StringExecFns;

verus! {

/// Settings for the Scrape Website Tool integration. The operation itself
/// talks to an outside service and runs outside the verified core.
#[derive(Debug)]
pub struct ScrapeWebsiteTool {
    pub website_url: Option<String>,
}

impl ScrapeWebsiteTool {
    /// Create the settings with their defaults.
    pub fn new() -> (r: Self)
        ensures
            r.website_url is None,
    {
        ScrapeWebsiteTool {
            website_url: Option::None,
        }
    }

    /// Set the website url.
    pub fn with_website_url(self, url: String) -> (r: Self)
        ensures
            r == (Self { website_url: Option::Some(url), ..self }),
    {
        Self { website_url: Option::Some(url), ..self }
    }
}

impl Default for ScrapeWebsiteTool {
    fn default() -> (r: Self)
        ensures
            r.website_url is None,
    {
        Self::new()
    }
}

/// Settings for the Scrape Element From Website Tool integration. The operation itself
/// talks to an outside service and runs outside the verified core.
#[derive(Debug)]
pub struct ScrapeElementFromWebsiteTool {
    pub website_url: Option<String>,
    pub css_selector: Option<String>,
}

impl ScrapeElementFromWebsiteTool {
    /// Create the settings with their defaults.
    pub fn new() -> (r: Self)
        ensures
            r.website_url is None,
            r.css_selector is None,
    {
        ScrapeElementFromWebsiteTool {
            website_url: Option::None,
            css_selector: Option::None,
        }
    }

    /// Set the website url.
    pub fn with_website_url(self, url: String) -> (r: Self)
        ensures
            r == (Self { website_url: Option::Some(url), ..self }),
    {
        Self { website_url: Option::Some(url), ..self }
    }

    /// Set the css selector.
    pub fn with_css_selector(self, selector: String) -> (r: Self)
        ensures
            r == (Self { css_selector: Option::Some(selector), ..self }),
    {
        Self { css_selector: Option::Some(selector), ..self }
    }
}

impl Default for ScrapeElementFromWebsiteTool {
    fn default() -> (r: Self)
        ensures
            r.website_url is None,
            r.css_selector is None,
    {
        Self::new()
    }
}

/// Settings for the Firecrawl Crawl Website Tool integration. The operation itself
/// talks to an outside service and runs outside the verified core.
#[derive(Debug)]
pub struct FirecrawlCrawlWebsiteTool {
    pub api_key: Option<String>,
    pub url: Option<String>,
    pub max_pages: usize,
}

impl FirecrawlCrawlWebsiteTool {
    /// Create the settings with their defaults.
    pub fn new() -> (r: Self)
        ensures
            r.api_key is None,
            r.url is None,
            r.max_pages == 100,
    {
        FirecrawlCrawlWebsiteTool {
            api_key: Option::None,
            url: Option::None,
            max_pages: 100,
        }
    }

    /// Set the api key.
    pub fn with_api_key(self, key: String) -> (r: Self)
        ensures
            r == (Self { api_key: Option::Some(key), ..self }),
    {
        Self { api_key: Option::Some(key), ..self }
    }

    /// Set the url.
    pub fn with_url(self, url: String) -> (r: Self)
        ensures
            r == (Self { url: Option::Some(url), ..self }),
    {
        Self { url: Option::Some(url), ..self }
    }

    /// Set the max pages.
    pub fn with_max_pages(self, n: usize) -> (r: Self)
        ensures
            r == (Self { max_pages: n, ..self }),
    {
        Self { max_pages: n, ..self }
    }
}

impl Default for FirecrawlCrawlWebsiteTool {
    fn default() -> (r: Self)
        ensures
            r.api_key is None,
            r.url is None,
            r.max_pages == 100,
    {
        Self::new()
    }
}

/// Settings for the Firecrawl Scrape Website Tool integration. The operation itself
/// talks to an outside service and runs outside the verified core.
#[derive(Debug)]
pub struct FirecrawlScrapeWebsiteTool {
    pub api_key: Option<String>,
    pub url: Option<String>,
}

impl FirecrawlScrapeWebsiteTool {
    /// Create the settings with their defaults.
    pub fn new() -> (r: Self)
        ensures
            r.api_key is None,
            r.url is None,
    {
        FirecrawlScrapeWebsiteTool {
            api_key: Option::None,
            url: Option::None,
        }
    }

    /// Set the api key.
    pub fn with_api_key(self, key: String) -> (r: Self)
        ensures
            r == (Self { api_key: Option::Some(key), ..self }),
    {
        Self { api_key: Option::Some(key), ..self }
    }

    /// Set the url.
    pub fn with_url(self, url: String) -> (r: Self)
        ensures
            r == (Self { url: Option::Some(url), ..self }),
    {
        Self { url: Option::Some(url), ..self }
    }
}

impl Default for FirecrawlScrapeWebsiteTool {
    fn default() -> (r: Self)
        ensures
            r.api_key is None,
            r.url is None,
    {
        Self::new()
    }
}

/// Settings for the Firecrawl Search Tool integration. The operation itself
/// talks to an outside service and runs outside the verified core.
#[derive(Debug)]
pub struct FirecrawlSearchTool {
    pub api_key: Option<String>,
    pub max_results: usize,
}

impl FirecrawlSearchTool {
    /// Create the settings with their defaults.
    pub fn new() -> (r: Self)
        ensures
            r.api_key is None,
            r.max_results == 10,
    {
        FirecrawlSearchTool {
            api_key: Option::None,
            max_results: 10,
        }
    }

    /// Set the api key.
    pub fn with_api_key(self, key: String) -> (r: Self)
        ensures
            r == (Self { api_key: Option::Some(key), ..self }),
    {
        Self { api_key: Option::Some(key), ..self }
    }

    /// Set the max results.
    pub fn with_max_results(self, n: usize) -> (r: Self)
        ensures
            r == (Self { max_results: n, ..self }),
    {
        Self { max_results: n, ..self }
    }
}

impl Default for FirecrawlSearchTool {
    fn default() -> (r: Self)
        ensures
            r.api_key is None,
            r.max_results == 10,
    {
        Self::new()
    }
}

/// Settings for the Jina Scrape Website Tool integration. The operation itself
/// talks to an outside service and runs outside the verified core.
#[derive(Debug)]
pub struct JinaScrapeWebsiteTool {
    pub url: Option<String>,
}

impl JinaScrapeWebsiteTool {
    /// Create the settings with their defaults.
    pub fn new() -> (r: Self)
        ensures
            r.url is None,
    {
        JinaScrapeWebsiteTool {
            url: Option::None,
        }
    }

    /// Set the url.
    pub fn with_url(self, url: String) -> (r: Self)
        ensures
            r == (Self { url: Option::Some(url), ..self }),
    {
        Self { url: Option::Some(url), ..self }
    }
}

impl Default for JinaScrapeWebsiteTool {
    fn default() -> (r: Self)
        ensures
            r.url is None,
    {
        Self::new()
    }
}

/// Settings for the Selenium Scraping Tool integration. The operation itself
/// talks to an outside service and runs outside the verified core.
#[derive(Debug)]
pub struct SeleniumScrapingTool {
    pub website_url: Option<String>,
    pub css_selector: Option<String>,
    pub wait_timeout: u64,
}

impl SeleniumScrapingTool {
    /// Create the settings with their defaults.
    pub fn new() -> (r: Self)
        ensures
            r.website_url is None,
            r.css_selector is None,
            r.wait_timeout == 10,
    {
        SeleniumScrapingTool {
            website_url: Option::None,
            css_selector: Option::None,
            wait_timeout: 10,
        }
    }

    /// Set the website url.
    pub fn with_website_url(self, url: String) -> (r: Self)
        ensures
            r == (Self { website_url: Option::Some(url), ..self }),
    {
        Self { website_url: Option::Some(url), ..self }
    }

    /// Set the css selector.
    pub fn with_css_selector(self, selector: String) -> (r: Self)
        ensures
            r == (Self { css_selector: Option::Some(selector), ..self }),
    {
        Self { css_selector: Option::Some(selector), ..self }
    }

    /// Set the wait timeout.
    pub fn with_wait_timeout(self, timeout: u64) -> (r: Self)
        ensures
            r == (Self { wait_timeout: timeout, ..self }),
    {
        Self { wait_timeout: timeout, ..self }
    }
}

impl Default for SeleniumScrapingTool {
    fn default() -> (r: Self)
        ensures
            r.website_url is None,
            r.css_selector is None,
            r.wait_timeout == 10,
    {
        Self::new()
    }
}

/// Settings for the Scrapfly Scrape Website Tool integration. The operation itself
/// talks to an outside service and runs outside the verified core.
#[derive(Debug)]
pub struct ScrapflyScrapeWebsiteTool {
    pub api_key: Option<String>,
    pub url: Option<String>,
    pub anti_scraping: bool,
}

impl ScrapflyScrapeWebsiteTool {
    /// Create the settings with their defaults.
    pub fn new() -> (r: Self)
        ensures
            r.api_key is None,
            r.url is None,
            r.anti_scraping,
    {
        ScrapflyScrapeWebsiteTool {
            api_key: Option::None,
            url: Option::None,
            anti_scraping: true,
        }
    }

    /// Set the api key.
    pub fn with_api_key(self, key: String) -> (r: Self)
        ensures
            r == (Self { api_key: Option::Some(key), ..self }),
    {
        Self { api_key: Option::Some(key), ..self }
    }

    /// Set the url.
    pub fn with_url(self, url: String) -> (r: Self)
        ensures
            r == (Self { url: Option::Some(url), ..self }),
    {
        Self { url: Option::Some(url), ..self }
    }

    /// Set the anti scraping.
    pub fn with_anti_scraping(self, enabled: bool) -> (r: Self)
        ensures
            r == (Self { anti_scraping: enabled, ..self }),
    {
        Self { anti_scraping: enabled, ..self }
    }
}

impl Default for ScrapflyScrapeWebsiteTool {
    fn default() -> (r: Self)
        ensures
            r.api_key is None,
            r.url is None,
            r.anti_scraping,
    {
        Self::new()
    }
}

/// Settings for the Scrapegraph Scrape Tool integration. The operation itself
/// talks to an outside service and runs outside the verified core.
#[derive(Debug)]
pub struct ScrapegraphScrapeTool {
    pub api_key: Option<String>,
    pub url: Option<String>,
}

impl ScrapegraphScrapeTool {
    /// Create the settings with their defaults.
    pub fn new() -> (r: Self)
        ensures
            r.api_key is None,
            r.url is None,
    {
        ScrapegraphScrapeTool {
            api_key: Option::None,
            url: Option::None,
        }
    }

    /// Set the api key.
    pub fn with_api_key(self, key: String) -> (r: Self)
        ensures
            r == (Self { api_key: Option::Some(key), ..self }),
    {
        Self { api_key: Option::Some(key), ..self }
    }

    /// Set the url.
    pub fn with_url(self, url: String) -> (r: Self)
        ensures
            r == (Self { url: Option::Some(url), ..self }),
    {
        Self { url: Option::Some(url), ..self }
    }
}

impl Default for ScrapegraphScrapeTool {
    fn default() -> (r: Self)
        ensures
            r.api_key is None,
            r.url is None,
    {
        Self::new()
    }
}

/// Settings for the Serper Scrape Website Tool integration. The operation itself
/// talks to an outside service and runs outside the verified core.
#[derive(Debug)]
pub struct SerperScrapeWebsiteTool {
    pub api_key: Option<String>,
    pub url: Option<String>,
}

impl SerperScrapeWebsiteTool {
    /// Create the settings with their defaults.
    pub fn new() -> (r: Self)
        ensures
            r.api_key is None,
            r.url is None,
    {
        SerperScrapeWebsiteTool {
            api_key: Option::None,
            url: Option::None,
        }
    }

    /// Set the api key.
    pub fn with_api_key(self, key: String) -> (r: Self)
        ensures
            r == (Self { api_key: Option::Some(key), ..self }),
    {
        Self { api_key: Option::Some(key), ..self }
    }

    /// Set the url.
    pub fn with_url(self, url: String) -> (r: Self)
        ensures
            r == (Self { url: Option::Some(url), ..self }),
    {
        Self { url: Option::Some(url), ..self }
    }
}

impl Default for SerperScrapeWebsiteTool {
    fn default() -> (r: Self)
        ensures
            r.api_key is None,
            r.url is None,
    {
        Self::new()
    }
}

/// Settings for the Spider Tool integration. The operation itself
/// talks to an outside service and runs outside the verified core.
#[derive(Debug)]
pub struct SpiderTool {
    pub api_key: Option<String>,
    pub url: Option<String>,
    pub max_depth: usize,
}

impl SpiderTool {
    /// Create the settings with their defaults.
    pub fn new() -> (r: Self)
        ensures
            r.api_key is None,
            r.url is None,
            r.max_depth == 3,
    {
        SpiderTool {
            api_key: Option::None,
            url: Option::None,
            max_depth: 3,
        }
    }

    /// Set the api key.
    pub fn with_api_key(self, key: String) -> (r: Self)
        ensures
            r == (Self { api_key: Option::Some(key), ..self }),
    {
        Self { api_key: Option::Some(key), ..self }
    }

    /// Set the url.
    pub fn with_url(self, url: String) -> (r: Self)
        ensures
            r == (Self { url: Option::Some(url), ..self }),
    {
        Self { url: Option::Some(url), ..self }
    }

    /// Set the max depth.
    pub fn with_max_depth(self, depth: usize) -> (r: Self)
        ensures
            r == (Self { max_depth: depth, ..self }),
    {
        Self { max_depth: depth, ..self }
    }
}

impl Default for SpiderTool {
    fn default() -> (r: Self)
        ensures
            r.api_key is None,
            r.url is None,
            r.max_depth == 3,
    {
        Self::new()
    }
}

} // verus!
