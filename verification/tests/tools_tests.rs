//! Tool, adapter and retrieval-pipeline settings.

use blackboard::adapters::{McpServerAdapter, EnterpriseActionTool, ZapierActionTool,
    RagAdapter, LanceDbAdapter};
use blackboard::entry::MetaValue;
use blackboard::rag::base::{BaseChunker, BaseLoader, Document, RagError};
use blackboard::rag::chunkers::{DefaultChunker, TextChunker, StructuredChunker,
    WebChunker};
use blackboard::rag::loaders::{CsvLoader, GithubLoader, TextLoader, DirectoryLoader};
use blackboard::tools::ai_ml::{DalleTool, OcrTool};
use blackboard::tools::automation::{ComposioTool, MergeAgentHandlerTool};
use blackboard::tools::browser::{BrowserbaseLoadTool, StagehandTool};
use blackboard::tools::cloud_storage::{S3ReaderTool, BedrockKbRetrieverTool};
use blackboard::tools::database::{QdrantVectorSearchTool, MongoDbVectorSearchTool,
    SnowflakeSearchTool};
use blackboard::tools::file_ops::{FileReadTool, FileWriterTool, FileCompressorTool};
use blackboard::tools::search::{BraveSearchTool, SerperDevTool, ExaSearchTool,
    GithubSearchTool};
use blackboard::tools::web_scraping::{ScrapeWebsiteTool, SeleniumScrapingTool,
    SpiderTool};
use blackboard::transports::TransportType;

#[test]
fn search_tool_builders() {
    let brave = BraveSearchTool::new()
        .with_api_key("test-key".to_string())
        .with_max_results(25)
        .with_country("de".to_string());
    assert_eq!(brave.api_key.as_deref(), Some("test-key"));
    assert_eq!(brave.max_results, 25);
    assert_eq!(brave.country.as_deref(), Some("de"));

    let serper = SerperDevTool::new();
    assert_eq!(serper.search_type, "search");
    assert_eq!(serper.max_results, 10);
    assert!(serper.api_key.is_none());
    let serper = serper.with_search_type("news".to_string()).with_language(
        "en".to_string());
    assert_eq!(serper.search_type, "news");
    assert_eq!(serper.language.as_deref(), Some("en"));
    assert_eq!(serper.endpoint(), "https://google.serper.dev/news");
    assert_eq!(
        SerperDevTool::new().endpoint(),
        "https://google.serper.dev/search"
    );

    let exa = ExaSearchTool::new();
    assert!(exa.include_contents);
    let exa = exa.with_include_contents(false);
    assert!(!exa.include_contents);

    let gh = GithubSearchTool::new();
    assert_eq!(gh.content_types, vec!["code".to_string()]);
    let gh = gh.with_content_types(vec!["issues".to_string(), "pulls".to_string()]);
    assert_eq!(gh.content_types.len(), 2);
}

#[test]
fn scraping_and_database_builders() {
    let scrape = ScrapeWebsiteTool::new().with_website_url(
        "https://example.test".to_string());
    assert_eq!(scrape.website_url.as_deref(), Some("https://example.test"));

    let selenium = SeleniumScrapingTool::new();
    assert_eq!(selenium.wait_timeout, 10);
    let selenium = selenium.with_wait_timeout(30);
    assert_eq!(selenium.wait_timeout, 30);

    let spider = SpiderTool::new();
    assert_eq!(spider.max_depth, 3);

    let qdrant = QdrantVectorSearchTool::new("facts".to_string());
    assert_eq!(qdrant.collection_name, "facts");
    assert_eq!(qdrant.top_k, 5);
    let qdrant = qdrant.with_top_k(9);
    assert_eq!(qdrant.top_k, 9);

    let mongo = MongoDbVectorSearchTool::new("db".to_string(), "coll".to_string());
    assert_eq!(mongo.database, "db");
    assert_eq!(mongo.collection, "coll");
    assert_eq!(mongo.index_name, "vector_index");

    let snow = SnowflakeSearchTool::new()
        .with_account("acct".to_string())
        .with_warehouse("wh".to_string());
    assert_eq!(snow.account.as_deref(), Some("acct"));
    assert_eq!(snow.warehouse.as_deref(), Some("wh"));
}

#[test]
fn file_ai_automation_builders() {
    let read = FileReadTool::new().with_file_path("notes.txt".to_string());
    assert_eq!(read.file_path.as_deref(), Some("notes.txt"));

    let write = FileWriterTool::new();
    assert!(!write.overwrite);
    let write = write.with_overwrite(true).with_directory("out".to_string());
    assert!(write.overwrite);
    assert_eq!(write.directory.as_deref(), Some("out"));

    let zipper = FileCompressorTool::new();
    assert_eq!(zipper.format, "zip");

    let dalle = DalleTool::new();
    assert_eq!(dalle.model, "dall-e-3");
    assert_eq!(dalle.size, "1024x1024");
    assert_eq!(dalle.quality, "standard");

    let ocr = OcrTool::new();
    assert_eq!(ocr.engine, "tesseract");
    assert_eq!(ocr.languages, vec!["eng".to_string()]);

    let composio = ComposioTool::new().with_app_name("github".to_string());
    assert_eq!(composio.app_name.as_deref(), Some("github"));

    let merge = MergeAgentHandlerTool::new();
    assert_eq!(merge.merge_strategy, "concat");
}

#[test]
fn cloud_and_browser_builders() {
    let s3 = S3ReaderTool::new().with_region("eu-central-1".to_string())
        .with_bucket("artifacts".to_string());
    assert_eq!(s3.region.as_deref(), Some("eu-central-1"));
    assert_eq!(s3.bucket.as_deref(), Some("artifacts"));

    let kb = BedrockKbRetrieverTool::new("kb-17".to_string());
    assert_eq!(kb.knowledge_base_id, "kb-17");
    assert_eq!(kb.top_k, 5);

    let browser = BrowserbaseLoadTool::new();
    assert!(!browser.text_only);
    let browser = browser.with_text_only(true);
    assert!(browser.text_only);

    let stage = StagehandTool::new();
    assert!(stage.headless);
}

#[test]
fn adapters_expose_names_and_descriptions() {
    let mcp = McpServerAdapter::new("board-server".to_string())
        .with_description("exposes tools".to_string());
    assert_eq!(mcp.name(), "board-server");
    assert_eq!(mcp.description(), Some("exposes tools"));

    let action = EnterpriseActionTool::new("approve-invoice".to_string());
    assert_eq!(action.action_name, "approve-invoice");
    assert_eq!(action.name(), "EnterpriseActionTool");
    assert!(!action.description().is_empty());

    let zap = ZapierActionTool::new().with_action_id("z-1".to_string());
    assert_eq!(zap.action_id.as_deref(), Some("z-1"));
    assert_eq!(zap.name(), "ZapierActionTool");

    let rag = RagAdapter::new("docs".to_string()).with_top_k(3);
    assert_eq!(rag.pipeline_name, "docs");
    assert_eq!(rag.top_k, 3);

    let lancedb = LanceDbAdapter::new("./tables".to_string())
        .with_table_name("entries".to_string());
    assert_eq!(lancedb.db_path, "./tables");
    assert_eq!(lancedb.table_name.as_deref(), Some("entries"));
}

#[test]
fn chunkers_report_unsupported_backends() {
    let doc = Document::new("a body of text".to_string())
        .with_metadata("source".to_string(), MetaValue::Text("unit".to_string()));
    assert_eq!(doc.metadata.len(), 1);
    let chunkers: Vec<(Box<dyn BaseChunker>, &str)> = vec![
        (Box::new(DefaultChunker::new()), "DefaultChunker"),
        (Box::new(TextChunker::new()), "TextChunker"),
        (Box::new(StructuredChunker::new()), "StructuredChunker"),
        (Box::new(WebChunker::new()), "WebChunker"),
    ];
    for (chunker, name) in chunkers {
        assert_eq!(chunker.chunker_name(), name);
        match chunker.chunk(&doc) {
            Err(RagError::Unsupported(_)) => {}
            _ => panic!("chunking without a backend must fail"),
        }
    }
    let default = DefaultChunker::new();
    assert_eq!(default.chunk_size, 1000);
    assert_eq!(default.chunk_overlap, 200);
    let text = TextChunker::new();
    assert_eq!(text.separator, "\n\n");
}

#[test]
fn loaders_report_unsupported_backends() {
    let csv = CsvLoader::new("data.csv".to_string());
    assert_eq!(csv.file_path, "data.csv");
    assert_eq!(csv.loader_name(), "CsvLoader");
    match csv.load() {
        Err(RagError::Unsupported(_)) => {}
        _ => panic!("loading without a backend must fail"),
    }
    let gh = GithubLoader::new("owner/repo".to_string());
    assert_eq!(gh.branch, "main");
    let gh = gh.with_branch("dev".to_string());
    assert_eq!(gh.branch, "dev");
    let text = TextLoader::new("a.txt".to_string());
    assert_eq!(text.encoding, "utf-8");
    let dir = DirectoryLoader::new("./docs".to_string());
    assert!(dir.recursive);
    let dir = dir.with_recursive(false);
    assert!(!dir.recursive);
}

#[test]
fn transport_names() {
    assert_eq!(TransportType::Stdio.as_str(), "stdio");
    assert_eq!(TransportType::Http.as_str(), "http");
    assert_eq!(TransportType::StreamableHttp.as_str(), "streamable-http");
    assert_eq!(TransportType::Sse.as_str(), "sse");
}
