use vstd::prelude::*;
use crate::emit::{decimal, decimal_text};

verus! {

/// Everything that makes one generation fail. No partial output is produced.
#[derive(Debug)]
pub enum GenerateError {
    DirectoryNotFound { dir: String, cause: String },
    FileNotFoundForLanguage { dir: String, lang: String },
    UnreadableFile { file: String, cause: String },
    MalformedJson { file: String, cause: String },
    ArrayContainsObject { key: String, index: usize },
    ArrayRootContainsNonObject { index: usize },
    MissingExtension { file: String },
    UnsupportedExtension { file: String, extension: String },
    InvalidIdentifier { name: String },
    DuplicateIdentifier { name: String },
}

/// The abstract view of a `GenerateError`, with texts as character sequences.
pub enum ErrorModel {
    DirectoryNotFound { dir: Seq<char>, cause: Seq<char> },
    FileNotFoundForLanguage { dir: Seq<char>, lang: Seq<char> },
    UnreadableFile { file: Seq<char>, cause: Seq<char> },
    MalformedJson { file: Seq<char>, cause: Seq<char> },
    ArrayContainsObject { key: Seq<char>, index: nat },
    ArrayRootContainsNonObject { index: nat },
    MissingExtension { file: Seq<char> },
    UnsupportedExtension { file: Seq<char>, extension: Seq<char> },
    InvalidIdentifier { name: Seq<char> },
    DuplicateIdentifier { name: Seq<char> },
}

impl View for GenerateError {
    type V = ErrorModel;

    open spec fn view(&self) -> ErrorModel {
        match self {
            GenerateError::DirectoryNotFound { dir, cause } => ErrorModel::DirectoryNotFound {
                dir: dir@,
                cause: cause@,
            },
            GenerateError::FileNotFoundForLanguage { dir, lang } =>
                ErrorModel::FileNotFoundForLanguage { dir: dir@, lang: lang@ },
            GenerateError::UnreadableFile { file, cause } => ErrorModel::UnreadableFile {
                file: file@,
                cause: cause@,
            },
            GenerateError::MalformedJson { file, cause } => ErrorModel::MalformedJson {
                file: file@,
                cause: cause@,
            },
            GenerateError::ArrayContainsObject { key, index } => ErrorModel::ArrayContainsObject {
                key: key@,
                index: *index as nat,
            },
            GenerateError::ArrayRootContainsNonObject { index } =>
                ErrorModel::ArrayRootContainsNonObject { index: *index as nat },
            GenerateError::MissingExtension { file } => ErrorModel::MissingExtension {
                file: file@,
            },
            GenerateError::UnsupportedExtension { file, extension } =>
                ErrorModel::UnsupportedExtension { file: file@, extension: extension@ },
            GenerateError::InvalidIdentifier { name } => ErrorModel::InvalidIdentifier {
                name: name@,
            },
            GenerateError::DuplicateIdentifier { name } => ErrorModel::DuplicateIdentifier {
                name: name@,
            },
        }
    }
}

/// What went wrong, in words.
pub open spec fn description(e: ErrorModel) -> Seq<char> {
    match e {
        ErrorModel::DirectoryNotFound { dir, cause } => "cannot read directory "@ + dir + ": "@
            + cause,
        ErrorModel::FileNotFoundForLanguage { dir, lang } => "no file for language "@ + lang
            + " in directory "@ + dir,
        ErrorModel::UnreadableFile { file, cause } => "cannot read file "@ + file + ": "@ + cause,
        ErrorModel::MalformedJson { file, cause } => "cannot parse "@ + file + ": "@ + cause,
        ErrorModel::ArrayContainsObject { key, index } => "array "@ + key
            + " holds an object at index "@ + decimal(index),
        ErrorModel::ArrayRootContainsNonObject { index } =>
            "root array holds a value that is not an object at index "@ + decimal(index),
        ErrorModel::MissingExtension { file } => "file "@ + file + " has no extension"@,
        ErrorModel::UnsupportedExtension { file, extension } => "file "@ + file
            + " has an unsupported extension: "@ + extension,
        ErrorModel::InvalidIdentifier { name } => "key "@ + name + " is not a valid identifier"@,
        ErrorModel::DuplicateIdentifier { name } => "identifier "@ + name
            + " is declared twice in one namespace"@,
    }
}

/// The one diagnostic line of a failed generation from the file `source`.
pub open spec fn diagnostic_text(source: Seq<char>, e: ErrorModel) -> Seq<char> {
    "[anylang:ERROR] "@ + source + ": "@ + description(e)
}

impl GenerateError {
    /// Describes the error in words.
    pub fn message(&self) -> (r: String)
        ensures
            r@ == description(self@),
    {
        let mut out = String::new();
        match self {
            GenerateError::DirectoryNotFound { dir, cause } => {
                out.append("cannot read directory ");
                out.append(dir.as_str());
                out.append(": ");
                out.append(cause.as_str());
            },
            GenerateError::FileNotFoundForLanguage { dir, lang } => {
                out.append("no file for language ");
                out.append(lang.as_str());
                out.append(" in directory ");
                out.append(dir.as_str());
            },
            GenerateError::UnreadableFile { file, cause } => {
                out.append("cannot read file ");
                out.append(file.as_str());
                out.append(": ");
                out.append(cause.as_str());
            },
            GenerateError::MalformedJson { file, cause } => {
                out.append("cannot parse ");
                out.append(file.as_str());
                out.append(": ");
                out.append(cause.as_str());
            },
            GenerateError::ArrayContainsObject { key, index } => {
                out.append("array ");
                out.append(key.as_str());
                out.append(" holds an object at index ");
                let d = decimal_text(*index);
                out.append(d.as_str());
            },
            GenerateError::ArrayRootContainsNonObject { index } => {
                out.append("root array holds a value that is not an object at index ");
                let d = decimal_text(*index);
                out.append(d.as_str());
            },
            GenerateError::MissingExtension { file } => {
                out.append("file ");
                out.append(file.as_str());
                out.append(" has no extension");
            },
            GenerateError::UnsupportedExtension { file, extension } => {
                out.append("file ");
                out.append(file.as_str());
                out.append(" has an unsupported extension: ");
                out.append(extension.as_str());
            },
            GenerateError::InvalidIdentifier { name } => {
                out.append("key ");
                out.append(name.as_str());
                out.append(" is not a valid identifier");
            },
            GenerateError::DuplicateIdentifier { name } => {
                out.append("identifier ");
                out.append(name.as_str());
                out.append(" is declared twice in one namespace");
            },
        }
        assert(out@ =~= description(self@));
        out
    }

    /// The diagnostic line for this error, tagged with the file it came from.
    pub fn diagnostic(&self, source: &str) -> (r: String)
        ensures
            r@ == diagnostic_text(source@, self@),
    {
        let mut out = "[anylang:ERROR] ".to_owned();
        out.append(source);
        out.append(": ");
        let m = self.message();
        out.append(m.as_str());
        assert(out@ =~= diagnostic_text(source@, self@));
        out
    }
}

} // verus!
