//! Document loader settings: sources documents are read from.

use vstd::prelude::*;
use vstd::string::StringExecFns;
use crate::rag::base::{Document, Chunk, RagError, BaseLoader, BaseChunker};

verus! {

/// Settings for the Csv Loader integration. The operation itself
/// talks to an outside service and runs outside the verified core.
#[derive(Debug)]
pub struct CsvLoader {
    pub file_path: String,
    pub content_column: Option<String>,
}

impl CsvLoader {
    /// Create the settings with their defaults.
    pub fn new(file_path: String) -> (r: Self)
        ensures
            r.file_path == file_path,
            r.content_column is None,
    {
        CsvLoader {
            file_path: file_path,
            content_column: Option::None,
        }
    }

    /// Set the content column.
    pub fn with_content_column(self, column: String) -> (r: Self)
        ensures
            r == (Self { content_column: Option::Some(column), ..self }),
    {
        Self { content_column: Option::Some(column), ..self }
    }
}

impl BaseLoader for CsvLoader {
    fn load(&self) -> Result<Vec<Document>, RagError> {
        Result::Err(RagError::Unsupported(String::from_str(
            "CsvLoader needs a document backend that this build does not carry")))
    }

    fn loader_name(&self) -> (r: &'static str)
        ensures
            r@ == "CsvLoader"@,
    {
        "CsvLoader"
    }
}

/// Settings for the Json Loader integration. The operation itself
/// talks to an outside service and runs outside the verified core.
#[derive(Debug)]
pub struct JsonLoader {
    pub file_path: String,
    pub content_path: Option<String>,
}

impl JsonLoader {
    /// Create the settings with their defaults.
    pub fn new(file_path: String) -> (r: Self)
        ensures
            r.file_path == file_path,
            r.content_path is None,
    {
        JsonLoader {
            file_path: file_path,
            content_path: Option::None,
        }
    }

    /// Set the content path.
    pub fn with_content_path(self, path: String) -> (r: Self)
        ensures
            r == (Self { content_path: Option::Some(path), ..self }),
    {
        Self { content_path: Option::Some(path), ..self }
    }
}

impl BaseLoader for JsonLoader {
    fn load(&self) -> Result<Vec<Document>, RagError> {
        Result::Err(RagError::Unsupported(String::from_str(
            "JsonLoader needs a document backend that this build does not carry")))
    }

    fn loader_name(&self) -> (r: &'static str)
        ensures
            r@ == "JsonLoader"@,
    {
        "JsonLoader"
    }
}

/// Settings for the Pdf Loader integration. The operation itself
/// talks to an outside service and runs outside the verified core.
#[derive(Debug)]
pub struct PdfLoader {
    pub file_path: String,
    pub split_by_page: bool,
}

impl PdfLoader {
    /// Create the settings with their defaults.
    pub fn new(file_path: String) -> (r: Self)
        ensures
            r.file_path == file_path,
            r.split_by_page,
    {
        PdfLoader {
            file_path: file_path,
            split_by_page: true,
        }
    }

    /// Set the split by page.
    pub fn with_split_by_page(self, split: bool) -> (r: Self)
        ensures
            r == (Self { split_by_page: split, ..self }),
    {
        Self { split_by_page: split, ..self }
    }
}

impl BaseLoader for PdfLoader {
    fn load(&self) -> Result<Vec<Document>, RagError> {
        Result::Err(RagError::Unsupported(String::from_str(
            "PdfLoader needs a document backend that this build does not carry")))
    }

    fn loader_name(&self) -> (r: &'static str)
        ensures
            r@ == "PdfLoader"@,
    {
        "PdfLoader"
    }
}

/// Settings for the Text Loader integration. The operation itself
/// talks to an outside service and runs outside the verified core.
#[derive(Debug)]
pub struct TextLoader {
    pub file_path: String,
    pub encoding: String,
}

impl TextLoader {
    /// Create the settings with their defaults.
    pub fn new(file_path: String) -> (r: Self)
        ensures
            r.file_path == file_path,
            r.encoding@ == "utf-8"@,
    {
        TextLoader {
            file_path: file_path,
            encoding: String::from_str("utf-8"),
        }
    }

    /// Set the encoding.
    pub fn with_encoding(self, encoding: String) -> (r: Self)
        ensures
            r == (Self { encoding: encoding, ..self }),
    {
        Self { encoding: encoding, ..self }
    }
}

impl BaseLoader for TextLoader {
    fn load(&self) -> Result<Vec<Document>, RagError> {
        Result::Err(RagError::Unsupported(String::from_str(
            "TextLoader needs a document backend that this build does not carry")))
    }

    fn loader_name(&self) -> (r: &'static str)
        ensures
            r@ == "TextLoader"@,
    {
        "TextLoader"
    }
}

/// Settings for the Webpage Loader integration. The operation itself
/// talks to an outside service and runs outside the verified core.
#[derive(Debug)]
pub struct WebpageLoader {
    pub url: String,
    pub extract_main_content: bool,
}

impl WebpageLoader {
    /// Create the settings with their defaults.
    pub fn new(url: String) -> (r: Self)
        ensures
            r.url == url,
            r.extract_main_content,
    {
        WebpageLoader {
            url: url,
            extract_main_content: true,
        }
    }

    /// Set the extract main content.
    pub fn with_extract_main_content(self, extract: bool) -> (r: Self)
        ensures
            r == (Self { extract_main_content: extract, ..self }),
    {
        Self { extract_main_content: extract, ..self }
    }
}

impl BaseLoader for WebpageLoader {
    fn load(&self) -> Result<Vec<Document>, RagError> {
        Result::Err(RagError::Unsupported(String::from_str(
            "WebpageLoader needs a document backend that this build does not carry")))
    }

    fn loader_name(&self) -> (r: &'static str)
        ensures
            r@ == "WebpageLoader"@,
    {
        "WebpageLoader"
    }
}

/// Settings for the Directory Loader integration. The operation itself
/// talks to an outside service and runs outside the verified core.
#[derive(Debug)]
pub struct DirectoryLoader {
    pub directory: String,
    pub extensions: Vec<String>,
    pub recursive: bool,
}

impl DirectoryLoader {
    /// Create the settings with their defaults.
    pub fn new(directory: String) -> (r: Self)
        ensures
            r.directory == directory,
            r.extensions.deep_view() =~= Seq::<Seq<char>>::empty(),
            r.recursive,
    {
        DirectoryLoader {
            directory: directory,
            extensions: Vec::new(),
            recursive: true,
        }
    }

    /// Set the extensions.
    pub fn with_extensions(self, exts: Vec<String>) -> (r: Self)
        ensures
            r == (Self { extensions: exts, ..self }),
    {
        Self { extensions: exts, ..self }
    }

    /// Set the recursive.
    pub fn with_recursive(self, recursive: bool) -> (r: Self)
        ensures
            r == (Self { recursive: recursive, ..self }),
    {
        Self { recursive: recursive, ..self }
    }
}

impl BaseLoader for DirectoryLoader {
    fn load(&self) -> Result<Vec<Document>, RagError> {
        Result::Err(RagError::Unsupported(String::from_str(
            "DirectoryLoader needs a document backend that this build does not carry")))
    }

    fn loader_name(&self) -> (r: &'static str)
        ensures
            r@ == "DirectoryLoader"@,
    {
        "DirectoryLoader"
    }
}

/// Settings for the Docx Loader integration. The operation itself
/// talks to an outside service and runs outside the verified core.
#[derive(Debug)]
pub struct DocxLoader {
    pub file_path: String,
}

impl DocxLoader {
    /// Create the settings with their defaults.
    pub fn new(file_path: String) -> (r: Self)
        ensures
            r.file_path == file_path,
    {
        DocxLoader {
            file_path: file_path,
        }
    }
}

impl BaseLoader for DocxLoader {
    fn load(&self) -> Result<Vec<Document>, RagError> {
        Result::Err(RagError::Unsupported(String::from_str(
            "DocxLoader needs a document backend that this build does not carry")))
    }

    fn loader_name(&self) -> (r: &'static str)
        ensures
            r@ == "DocxLoader"@,
    {
        "DocxLoader"
    }
}

/// Settings for the Xml Loader integration. The operation itself
/// talks to an outside service and runs outside the verified core.
#[derive(Debug)]
pub struct XmlLoader {
    pub file_path: String,
    pub content_xpath: Option<String>,
}

impl XmlLoader {
    /// Create the settings with their defaults.
    pub fn new(file_path: String) -> (r: Self)
        ensures
            r.file_path == file_path,
            r.content_xpath is None,
    {
        XmlLoader {
            file_path: file_path,
            content_xpath: Option::None,
        }
    }

    /// Set the content xpath.
    pub fn with_content_xpath(self, xpath: String) -> (r: Self)
        ensures
            r == (Self { content_xpath: Option::Some(xpath), ..self }),
    {
        Self { content_xpath: Option::Some(xpath), ..self }
    }
}

impl BaseLoader for XmlLoader {
    fn load(&self) -> Result<Vec<Document>, RagError> {
        Result::Err(RagError::Unsupported(String::from_str(
            "XmlLoader needs a document backend that this build does not carry")))
    }

    fn loader_name(&self) -> (r: &'static str)
        ensures
            r@ == "XmlLoader"@,
    {
        "XmlLoader"
    }
}

/// Settings for the Github Loader integration. The operation itself
/// talks to an outside service and runs outside the verified core.
#[derive(Debug)]
pub struct GithubLoader {
    pub repository: String,
    pub github_token: Option<String>,
    pub branch: String,
    pub extensions: Vec<String>,
}

impl GithubLoader {
    /// Create the settings with their defaults.
    pub fn new(repository: String) -> (r: Self)
        ensures
            r.repository == repository,
            r.github_token is None,
            r.branch@ == "main"@,
            r.extensions.deep_view() =~= Seq::<Seq<char>>::empty(),
    {
        GithubLoader {
            repository: repository,
            github_token: Option::None,
            branch: String::from_str("main"),
            extensions: Vec::new(),
        }
    }

    /// Set the github token.
    pub fn with_github_token(self, token: String) -> (r: Self)
        ensures
            r == (Self { github_token: Option::Some(token), ..self }),
    {
        Self { github_token: Option::Some(token), ..self }
    }

    /// Set the branch.
    pub fn with_branch(self, branch: String) -> (r: Self)
        ensures
            r == (Self { branch: branch, ..self }),
    {
        Self { branch: branch, ..self }
    }

    /// Set the extensions.
    pub fn with_extensions(self, exts: Vec<String>) -> (r: Self)
        ensures
            r == (Self { extensions: exts, ..self }),
    {
        Self { extensions: exts, ..self }
    }
}

impl BaseLoader for GithubLoader {
    fn load(&self) -> Result<Vec<Document>, RagError> {
        Result::Err(RagError::Unsupported(String::from_str(
            "GithubLoader needs a document backend that this build does not carry")))
    }

    fn loader_name(&self) -> (r: &'static str)
        ensures
            r@ == "GithubLoader"@,
    {
        "GithubLoader"
    }
}

/// Settings for the Youtube Video Loader integration. The operation itself
/// talks to an outside service and runs outside the verified core.
#[derive(Debug)]
pub struct YoutubeVideoLoader {
    pub video_url: String,
    pub language: String,
}

impl YoutubeVideoLoader {
    /// Create the settings with their defaults.
    pub fn new(video_url: String) -> (r: Self)
        ensures
            r.video_url == video_url,
            r.language@ == "en"@,
    {
        YoutubeVideoLoader {
            video_url: video_url,
            language: String::from_str("en"),
        }
    }

    /// Set the language.
    pub fn with_language(self, lang: String) -> (r: Self)
        ensures
            r == (Self { language: lang, ..self }),
    {
        Self { language: lang, ..self }
    }
}

impl BaseLoader for YoutubeVideoLoader {
    fn load(&self) -> Result<Vec<Document>, RagError> {
        Result::Err(RagError::Unsupported(String::from_str(
            "YoutubeVideoLoader needs a document backend that this build does not carry")))
    }

    fn loader_name(&self) -> (r: &'static str)
        ensures
            r@ == "YoutubeVideoLoader"@,
    {
        "YoutubeVideoLoader"
    }
}

} // verus!
