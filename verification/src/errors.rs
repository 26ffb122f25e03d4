//! The error taxonomy of the stash, and the mapping from error to optional
//! numeric diagnostic code.
//!
//! User-input errors (bad key, ambiguous source, oversized content, missing
//! or colliding keys) carry no code. Environment and I/O failures carry a
//! stable code so that reports can name the exact failure branch. I/O error
//! causes are carried as plain strings.

use vstd::prelude::*;

verus! {

/// Everything that can go wrong while pushing content.
#[derive(Debug, PartialEq, Eq)]
pub enum PushError {
    /// The key does not match the naming contract.
    IncorrectKeyProvided,
    /// Overwrites were forbidden and the key is already present.
    KeyAlreadyExists,
    /// More than one of {inline data, file path, clipboard} was given.
    MultipleInputSourcesProvided,
    CouldntOpenFile(String),
    CouldntReadFile(String),
    CouldntReadFromStdin(String),
    CouldntAccessSystemClipboard(String),
    CouldntReadFromSystemClipboard(String),
    /// The resolved content exceeds the size ceiling; carries the actual length.
    ContentTooLarge(usize),
    CouldntWriteToFile(String),
    CouldntEchoContent(String),
}

/// Everything that can go wrong while getting content.
#[derive(Debug, PartialEq, Eq)]
pub enum GetError {
    /// No item is stored under the requested key.
    KeyDoesntExist,
    CouldntRemoveFile(String),
    CouldntOpenFile(String),
    CouldntReadFile(String),
    CouldntAccessSystemClipboard(String),
    CouldntWriteToSystemClipboard(String),
}

/// Everything that can go wrong while listing keys.
#[derive(Debug, PartialEq, Eq)]
pub enum ListError {
    ReadFilesInDataDir(String),
    GetFileFromDataDir(String),
    GetFileStem(String),
}

/// Everything that can go wrong while deleting items.
#[derive(Debug, PartialEq, Eq)]
pub enum DeleteError {
    /// Some requested keys are absent; carries exactly those keys. Nothing
    /// was deleted.
    KeysDontExist(Vec<String>),
    /// Removal failed for some keys; carries the failed keys and the causes.
    CouldntRemoveFiles(Vec<String>, Vec<String>),
}

/// Everything that can go wrong while emptying the stash.
#[derive(Debug, PartialEq, Eq)]
pub enum EmptyError {
    ReadFromDataDir(String),
    ReadFromStdin(String),
    DeleteDataDir(String),
}

/// The top-level error: one variant per failing stage of an invocation.
#[derive(Debug, PartialEq, Eq)]
pub enum AppError {
    /// The platform user-data directory could not be determined.
    GetDataDir,
    /// The override environment variable holds an unusable value.
    DataDirEnvVarInvalid(String),
    CreateDataDir(String),
    EmptyStash(EmptyError),
    GetContent(GetError),
    ListContent(ListError),
    PushContent(PushError),
    DeleteContent(DeleteError),
}

impl AppError {
    /// The diagnostic code owed to each error: `None` for expected,
    /// user-facing conditions, a stable number for failure branches that
    /// point at something broken in the environment.
    pub open spec fn spec_code(&self) -> Option<u16> {
        match self {
            AppError::GetDataDir => None,
            AppError::DataDirEnvVarInvalid(_) => None,
            AppError::CreateDataDir(_) => Some(101u16),
            AppError::EmptyStash(e) => match e {
                EmptyError::ReadFromDataDir(_) => Some(200u16),
                EmptyError::ReadFromStdin(_) => Some(201u16),
                EmptyError::DeleteDataDir(_) => Some(203u16),
            },
            AppError::GetContent(e) => match e {
                GetError::KeyDoesntExist => None,
                GetError::CouldntRemoveFile(_) => Some(300u16),
                GetError::CouldntOpenFile(_) => Some(301u16),
                GetError::CouldntReadFile(_) => Some(302u16),
                GetError::CouldntAccessSystemClipboard(_) => Some(303u16),
                GetError::CouldntWriteToSystemClipboard(_) => Some(304u16),
            },
            AppError::ListContent(e) => match e {
                ListError::ReadFilesInDataDir(_) => Some(400u16),
                ListError::GetFileFromDataDir(_) => Some(401u16),
                ListError::GetFileStem(_) => Some(402u16),
            },
            AppError::PushContent(e) => match e {
                PushError::IncorrectKeyProvided => None,
                PushError::KeyAlreadyExists => None,
                PushError::MultipleInputSourcesProvided => None,
                PushError::CouldntOpenFile(_) => Some(500u16),
                PushError::CouldntReadFile(_) => Some(501u16),
                PushError::CouldntReadFromStdin(_) => Some(502u16),
                PushError::CouldntAccessSystemClipboard(_) => Some(503u16),
                PushError::CouldntReadFromSystemClipboard(_) => Some(504u16),
                PushError::ContentTooLarge(_) => None,
                PushError::CouldntWriteToFile(_) => Some(505u16),
                PushError::CouldntEchoContent(_) => Some(506u16),
            },
            AppError::DeleteContent(e) => match e {
                DeleteError::KeysDontExist(_) => None,
                DeleteError::CouldntRemoveFiles(_, _) => Some(600u16),
            },
        }
    }

    /// Maps this error to its optional diagnostic code.
    pub fn code(&self) -> (c: Option<u16>)
        ensures
            c == self.spec_code(),
    {
        match self {
            AppError::GetDataDir => None,
            AppError::DataDirEnvVarInvalid(_) => None,
            AppError::CreateDataDir(_) => Some(101),
            AppError::EmptyStash(e) => match e {
                EmptyError::ReadFromDataDir(_) => Some(200),
                EmptyError::ReadFromStdin(_) => Some(201),
                EmptyError::DeleteDataDir(_) => Some(203),
            },
            AppError::GetContent(e) => match e {
                GetError::KeyDoesntExist => None,
                GetError::CouldntRemoveFile(_) => Some(300),
                GetError::CouldntOpenFile(_) => Some(301),
                GetError::CouldntReadFile(_) => Some(302),
                GetError::CouldntAccessSystemClipboard(_) => Some(303),
                GetError::CouldntWriteToSystemClipboard(_) => Some(304),
            },
            AppError::ListContent(e) => match e {
                ListError::ReadFilesInDataDir(_) => Some(400),
                ListError::GetFileFromDataDir(_) => Some(401),
                ListError::GetFileStem(_) => Some(402),
            },
            AppError::PushContent(e) => match e {
                PushError::IncorrectKeyProvided => None,
                PushError::KeyAlreadyExists => None,
                PushError::MultipleInputSourcesProvided => None,
                PushError::CouldntOpenFile(_) => Some(500),
                PushError::CouldntReadFile(_) => Some(501),
                PushError::CouldntReadFromStdin(_) => Some(502),
                PushError::CouldntAccessSystemClipboard(_) => Some(503),
                PushError::CouldntReadFromSystemClipboard(_) => Some(504),
                PushError::ContentTooLarge(_) => None,
                PushError::CouldntWriteToFile(_) => Some(505),
                PushError::CouldntEchoContent(_) => Some(506),
            },
            AppError::DeleteContent(e) => match e {
                DeleteError::KeysDontExist(_) => None,
                DeleteError::CouldntRemoveFiles(_, _) => Some(600),
            },
        }
    }
}

} // verus!
