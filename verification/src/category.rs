//! Sorting of files into broad categories by their extension.

use vstd::prelude::*;
use vstd::string::*;
use crate::text::{lowercase_of, str_eq, to_lowercase};

verus! {

/// The kinds of media files.
#[derive(Debug, Clone, Copy, PartialEq, Eq, Structural)]
pub enum MediaType {
    Image,
    Video,
    Audio,
}

/// The broad category of a file.
#[derive(Debug, PartialEq, Eq)]
pub enum FileCategory {
    /// Source code in `language`.
    Source { language: String },
    /// Build artifacts and libraries.
    Build,
    /// Configuration written in `format`.
    Config { format: String },
    /// Documentation.
    Documentation,
    /// Images, video and audio.
    Media { media_type: MediaType },
    /// Data stored in `format`.
    Data { format: String },
    /// Compressed archives.
    Archive,
    /// Shell scripts.
    Executable,
    /// Anything else.
    Unknown,
}

/// Mathematical value of a [`FileCategory`].
pub enum FileCategoryView {
    Source { language: Seq<char> },
    Build,
    Config { format: Seq<char> },
    Documentation,
    Media { media_type: MediaType },
    Data { format: Seq<char> },
    Archive,
    Executable,
    Unknown,
}

impl View for FileCategory {
    type V = FileCategoryView;

    open spec fn view(&self) -> FileCategoryView {
        match *self {
            FileCategory::Source { language } => FileCategoryView::Source { language: language@ },
            FileCategory::Build => FileCategoryView::Build,
            FileCategory::Config { format } => FileCategoryView::Config { format: format@ },
            FileCategory::Documentation => FileCategoryView::Documentation,
            FileCategory::Media { media_type } => FileCategoryView::Media { media_type },
            FileCategory::Data { format } => FileCategoryView::Data { format: format@ },
            FileCategory::Archive => FileCategoryView::Archive,
            FileCategory::Executable => FileCategoryView::Executable,
            FileCategory::Unknown => FileCategoryView::Unknown,
        }
    }
}

/// The category of a file with the lower-case extension `ext`.
pub open spec fn category_of(ext: Seq<char>) -> FileCategoryView {
    if ext == "rs"@ {
        FileCategoryView::Source { language: "rust"@ }
    } else if ext == "go"@ {
        FileCategoryView::Source { language: "go"@ }
    } else if ext == "py"@ {
        FileCategoryView::Source { language: "python"@ }
    } else if ext == "js"@ || ext == "jsx"@ || ext == "ts"@ || ext == "tsx"@ {
        FileCategoryView::Source { language: "javascript"@ }
    } else if ext == "java"@ {
        FileCategoryView::Source { language: "java"@ }
    } else if ext == "c"@ || ext == "h"@ {
        FileCategoryView::Source { language: "c"@ }
    } else if ext == "cpp"@ || ext == "cc"@ || ext == "cxx"@ || ext == "hpp"@ {
        FileCategoryView::Source { language: "cpp"@ }
    } else if ext == "rb"@ {
        FileCategoryView::Source { language: "ruby"@ }
    } else if ext == "php"@ {
        FileCategoryView::Source { language: "php"@ }
    } else if ext == "swift"@ {
        FileCategoryView::Source { language: "swift"@ }
    } else if ext == "kt"@ || ext == "kts"@ {
        FileCategoryView::Source { language: "kotlin"@ }
    } else if ext == "o"@ || ext == "so"@ || ext == "dylib"@ || ext == "dll"@ || ext == "a"@ || ext == "lib"@ {
        FileCategoryView::Build
    } else if ext == "toml"@ {
        FileCategoryView::Config { format: "toml"@ }
    } else if ext == "yaml"@ || ext == "yml"@ {
        FileCategoryView::Config { format: "yaml"@ }
    } else if ext == "json"@ {
        FileCategoryView::Config { format: "json"@ }
    } else if ext == "ini"@ || ext == "conf"@ || ext == "cfg"@ {
        FileCategoryView::Config { format: "ini"@ }
    } else if ext == "md"@ || ext == "markdown"@ {
        FileCategoryView::Documentation
    } else if ext == "txt"@ || ext == "rst"@ || ext == "adoc"@ {
        FileCategoryView::Documentation
    } else if ext == "pdf"@ || ext == "tex"@ {
        FileCategoryView::Documentation
    } else if ext == "png"@ || ext == "jpg"@ || ext == "jpeg"@ || ext == "gif"@ || ext == "bmp"@ || ext == "webp"@ || ext == "svg"@ || ext == "ico"@ {
        FileCategoryView::Media { media_type: MediaType::Image }
    } else if ext == "mp4"@ || ext == "mkv"@ || ext == "avi"@ || ext == "mov"@ || ext == "wmv"@ || ext == "flv"@ || ext == "webm"@ {
        FileCategoryView::Media { media_type: MediaType::Video }
    } else if ext == "mp3"@ || ext == "wav"@ || ext == "flac"@ || ext == "aac"@ || ext == "ogg"@ || ext == "m4a"@ || ext == "wma"@ {
        FileCategoryView::Media { media_type: MediaType::Audio }
    } else if ext == "csv"@ || ext == "tsv"@ {
        FileCategoryView::Data { format: "csv"@ }
    } else if ext == "xml"@ {
        FileCategoryView::Data { format: "xml"@ }
    } else if ext == "db"@ || ext == "sqlite"@ || ext == "sqlite3"@ {
        FileCategoryView::Data { format: "sqlite"@ }
    } else if ext == "parquet"@ {
        FileCategoryView::Data { format: "parquet"@ }
    } else if ext == "zip"@ || ext == "tar"@ || ext == "gz"@ || ext == "bz2"@ || ext == "xz"@ || ext == "7z"@ || ext == "rar"@ {
        FileCategoryView::Archive
    } else if ext == "sh"@ || ext == "bash"@ || ext == "zsh"@ || ext == "fish"@ {
        FileCategoryView::Executable
    } else {
        FileCategoryView::Unknown
    }
}

impl FileCategory {
    /// The category of a file with exactly this lower-case extension.
    pub fn from_lowercase(ext: &str) -> (r: FileCategory)
        ensures
            r@ == category_of(ext@),
    {
        if str_eq(ext, "rs") {
            FileCategory::Source { language: String::from_str("rust") }
        } else if str_eq(ext, "go") {
            FileCategory::Source { language: String::from_str("go") }
        } else if str_eq(ext, "py") {
            FileCategory::Source { language: String::from_str("python") }
        } else if str_eq(ext, "js") || str_eq(ext, "jsx") || str_eq(ext, "ts") || str_eq(ext, "tsx") {
            FileCategory::Source { language: String::from_str("javascript") }
        } else if str_eq(ext, "java") {
            FileCategory::Source { language: String::from_str("java") }
        } else if str_eq(ext, "c") || str_eq(ext, "h") {
            FileCategory::Source { language: String::from_str("c") }
        } else if str_eq(ext, "cpp") || str_eq(ext, "cc") || str_eq(ext, "cxx") || str_eq(ext, "hpp") {
            FileCategory::Source { language: String::from_str("cpp") }
        } else if str_eq(ext, "rb") {
            FileCategory::Source { language: String::from_str("ruby") }
        } else if str_eq(ext, "php") {
            FileCategory::Source { language: String::from_str("php") }
        } else if str_eq(ext, "swift") {
            FileCategory::Source { language: String::from_str("swift") }
        } else if str_eq(ext, "kt") || str_eq(ext, "kts") {
            FileCategory::Source { language: String::from_str("kotlin") }
        } else if str_eq(ext, "o") || str_eq(ext, "so") || str_eq(ext, "dylib") || str_eq(ext, "dll") || str_eq(ext, "a") || str_eq(ext, "lib") {
            FileCategory::Build
        } else if str_eq(ext, "toml") {
            FileCategory::Config { format: String::from_str("toml") }
        } else if str_eq(ext, "yaml") || str_eq(ext, "yml") {
            FileCategory::Config { format: String::from_str("yaml") }
        } else if str_eq(ext, "json") {
            FileCategory::Config { format: String::from_str("json") }
        } else if str_eq(ext, "ini") || str_eq(ext, "conf") || str_eq(ext, "cfg") {
            FileCategory::Config { format: String::from_str("ini") }
        } else if str_eq(ext, "md") || str_eq(ext, "markdown") {
            FileCategory::Documentation
        } else if str_eq(ext, "txt") || str_eq(ext, "rst") || str_eq(ext, "adoc") {
            FileCategory::Documentation
        } else if str_eq(ext, "pdf") || str_eq(ext, "tex") {
            FileCategory::Documentation
        } else if str_eq(ext, "png") || str_eq(ext, "jpg") || str_eq(ext, "jpeg") || str_eq(ext, "gif") || str_eq(ext, "bmp") || str_eq(ext, "webp") || str_eq(ext, "svg") || str_eq(ext, "ico") {
            FileCategory::Media { media_type: MediaType::Image }
        } else if str_eq(ext, "mp4") || str_eq(ext, "mkv") || str_eq(ext, "avi") || str_eq(ext, "mov") || str_eq(ext, "wmv") || str_eq(ext, "flv") || str_eq(ext, "webm") {
            FileCategory::Media { media_type: MediaType::Video }
        } else if str_eq(ext, "mp3") || str_eq(ext, "wav") || str_eq(ext, "flac") || str_eq(ext, "aac") || str_eq(ext, "ogg") || str_eq(ext, "m4a") || str_eq(ext, "wma") {
            FileCategory::Media { media_type: MediaType::Audio }
        } else if str_eq(ext, "csv") || str_eq(ext, "tsv") {
            FileCategory::Data { format: String::from_str("csv") }
        } else if str_eq(ext, "xml") {
            FileCategory::Data { format: String::from_str("xml") }
        } else if str_eq(ext, "db") || str_eq(ext, "sqlite") || str_eq(ext, "sqlite3") {
            FileCategory::Data { format: String::from_str("sqlite") }
        } else if str_eq(ext, "parquet") {
            FileCategory::Data { format: String::from_str("parquet") }
        } else if str_eq(ext, "zip") || str_eq(ext, "tar") || str_eq(ext, "gz") || str_eq(ext, "bz2") || str_eq(ext, "xz") || str_eq(ext, "7z") || str_eq(ext, "rar") {
            FileCategory::Archive
        } else if str_eq(ext, "sh") || str_eq(ext, "bash") || str_eq(ext, "zsh") || str_eq(ext, "fish") {
            FileCategory::Executable
        } else {
            FileCategory::Unknown
        }
    }

    /// The category of a file with this extension, whatever the case of its
    /// letters.
    pub fn from_extension(ext: &str) -> (r: FileCategory)
        ensures
            r@ == category_of(lowercase_of(ext@)),
    {
        let lower = to_lowercase(ext);
        FileCategory::from_lowercase(lower.as_str())
    }
}

} // verus!
