//! File operation tool settings: reading, writing, compressing and
//! listing files.
//!
//! Each struct holds the plain configuration a tool runs with; the
//! side-effecting call it configures is made by the embedding program.

use vstd::prelude::*;
use vstd::string::StringExecFns;

verus! {

/// Settings for the File Read Tool integration. The operation itself
/// talks to an outside service and runs outside the verified core.
#[derive(Debug)]
pub struct FileReadTool {
    pub file_path: Option<String>,
}

impl FileReadTool {
    /// Create the settings with their defaults.
    pub fn new() -> (r: Self)
        ensures
            r.file_path is None,
    {
        FileReadTool {
            file_path: Option::None,
        }
    }

    /// Set the file path.
    pub fn with_file_path(self, path: String) -> (r: Self)
        ensures
            r == (Self { file_path: Option::Some(path), ..self }),
    {
        Self { file_path: Option::Some(path), ..self }
    }
}

impl Default for FileReadTool {
    fn default() -> (r: Self)
        ensures
            r.file_path is None,
    {
        Self::new()
    }
}

/// Settings for the File Writer Tool integration. The operation itself
/// talks to an outside service and runs outside the verified core.
#[derive(Debug)]
pub struct FileWriterTool {
    pub directory: Option<String>,
    pub filename: Option<String>,
    pub overwrite: bool,
}

impl FileWriterTool {
    /// Create the settings with their defaults.
    pub fn new() -> (r: Self)
        ensures
            r.directory is None,
            r.filename is None,
            !r.overwrite,
    {
        FileWriterTool {
            directory: Option::None,
            filename: Option::None,
            overwrite: false,
        }
    }

    /// Set the directory.
    pub fn with_directory(self, dir: String) -> (r: Self)
        ensures
            r == (Self { directory: Option::Some(dir), ..self }),
    {
        Self { directory: Option::Some(dir), ..self }
    }

    /// Set the filename.
    pub fn with_filename(self, name: String) -> (r: Self)
        ensures
            r == (Self { filename: Option::Some(name), ..self }),
    {
        Self { filename: Option::Some(name), ..self }
    }

    /// Set the overwrite.
    pub fn with_overwrite(self, overwrite: bool) -> (r: Self)
        ensures
            r == (Self { overwrite: overwrite, ..self }),
    {
        Self { overwrite: overwrite, ..self }
    }
}

impl Default for FileWriterTool {
    fn default() -> (r: Self)
        ensures
            r.directory is None,
            r.filename is None,
            !r.overwrite,
    {
        Self::new()
    }
}

/// Settings for the File Compressor Tool integration. The operation itself
/// talks to an outside service and runs outside the verified core.
#[derive(Debug)]
pub struct FileCompressorTool {
    pub format: String,
    pub output_path: Option<String>,
}

impl FileCompressorTool {
    /// Create the settings with their defaults.
    pub fn new() -> (r: Self)
        ensures
            r.format@ == "zip"@,
            r.output_path is None,
    {
        FileCompressorTool {
            format: String::from_str("zip"),
            output_path: Option::None,
        }
    }

    /// Set the format.
    pub fn with_format(self, format: String) -> (r: Self)
        ensures
            r == (Self { format: format, ..self }),
    {
        Self { format: format, ..self }
    }

    /// Set the output path.
    pub fn with_output_path(self, path: String) -> (r: Self)
        ensures
            r == (Self { output_path: Option::Some(path), ..self }),
    {
        Self { output_path: Option::Some(path), ..self }
    }
}

impl Default for FileCompressorTool {
    fn default() -> (r: Self)
        ensures
            r.format@ == "zip"@,
            r.output_path is None,
    {
        Self::new()
    }
}

/// Settings for the Directory Read Tool integration. The operation itself
/// talks to an outside service and runs outside the verified core.
#[derive(Debug)]
pub struct DirectoryReadTool {
    pub directory: Option<String>,
}

impl DirectoryReadTool {
    /// Create the settings with their defaults.
    pub fn new() -> (r: Self)
        ensures
            r.directory is None,
    {
        DirectoryReadTool {
            directory: Option::None,
        }
    }

    /// Set the directory.
    pub fn with_directory(self, dir: String) -> (r: Self)
        ensures
            r == (Self { directory: Option::Some(dir), ..self }),
    {
        Self { directory: Option::Some(dir), ..self }
    }
}

impl Default for DirectoryReadTool {
    fn default() -> (r: Self)
        ensures
            r.directory is None,
    {
        Self::new()
    }
}

} // verus!
