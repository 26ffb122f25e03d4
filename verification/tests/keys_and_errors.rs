use tash::AppError;
use tash::DeleteError;
use tash::EmptyError;
use tash::EnvVarLookup;
use tash::GetError;
use tash::ListError;
use tash::PushError;
use tash::StashRoot;

#[test]
fn keys_at_the_length_bounds() {
    let thirty = "a".repeat(30);
    assert!(tash::validate_key(&thirty));
    let thirty_one = "a".repeat(31);
    assert!(!tash::validate_key(&thirty_one));
    assert!(!tash::validate_key(""));
    assert!(tash::validate_key("a"));
}

#[test]
fn keys_of_the_allowed_characters() {
    for key in ["abc", "a-b", "a_b", "0129", "z9_-", "non-existent-key"] {
        assert!(tash::validate_key(key), "{key} should be valid");
    }
    for key in ["a.b", "a b", "A", "a/b", "ab!", "\u{e9}t\u{e9}", "a\n"] {
        assert!(!tash::validate_key(key), "{key} should be invalid");
    }
}

#[test]
fn key_order_is_lexicographic() {
    assert!(tash::str_lex_lt("key-a", "key-b"));
    assert!(!tash::str_lex_lt("key-b", "key-a"));
    assert!(tash::str_lex_lt("key", "key-a"));
    assert!(!tash::str_lex_lt("key", "key"));
    assert!(tash::str_lex_lt("0", "9"));
    assert!(tash::str_lex_lt("9", "_"));
    assert!(tash::str_lex_lt("_", "a"));
    assert!(tash::str_lex_lt("-", "0"));
}

#[test]
fn confirmation_takes_the_exact_token_only() {
    assert!(tash::confirmation_given("yes"));
    assert!(tash::confirmation_given("  yes  "));
    assert!(tash::confirmation_given("\tyes\r\n"));
    assert!(!tash::confirmation_given("Yes"));
    assert!(!tash::confirmation_given("yes!"));
    assert!(!tash::confirmation_given("y es"));
    assert!(!tash::confirmation_given(""));
    assert!(!tash::confirmation_given("   "));
}

#[test]
fn stash_root_prefers_the_override_variable() {
    let r = tash::resolve_stash_root(
        EnvVarLookup::Present("/tmp/stash-root".to_string()),
        Some("/home/user/.local/share".to_string()),
    );
    assert_eq!(r.unwrap(), StashRoot::FromEnvVar("/tmp/stash-root".to_string()));
}

#[test]
fn stash_root_falls_back_to_the_platform_directory() {
    let r = tash::resolve_stash_root(
        EnvVarLookup::Absent,
        Some("/home/user/.local/share".to_string()),
    );
    assert_eq!(
        r.unwrap(),
        StashRoot::UnderDataDir("/home/user/.local/share".to_string())
    );
    assert_eq!(tash::stash_dir_name(), "tash");
}

#[test]
fn stash_root_fails_without_variable_and_platform_directory() {
    let r = tash::resolve_stash_root(EnvVarLookup::Absent, None);
    assert_eq!(r.unwrap_err(), AppError::GetDataDir);
}

#[test]
fn stash_root_rejects_a_non_unicode_variable() {
    let r = tash::resolve_stash_root(EnvVarLookup::NotUnicode, None);
    assert!(matches!(r.unwrap_err(), AppError::DataDirEnvVarInvalid(_)));
}

#[test]
fn user_facing_errors_carry_no_diagnostic_code() {
    assert_eq!(AppError::GetDataDir.code(), None);
    assert_eq!(
        AppError::DataDirEnvVarInvalid("bad".to_string()).code(),
        None
    );
    assert_eq!(
        AppError::GetContent(GetError::KeyDoesntExist).code(),
        None
    );
    assert_eq!(
        AppError::PushContent(PushError::IncorrectKeyProvided).code(),
        None
    );
    assert_eq!(
        AppError::PushContent(PushError::KeyAlreadyExists).code(),
        None
    );
    assert_eq!(
        AppError::PushContent(PushError::MultipleInputSourcesProvided).code(),
        None
    );
    assert_eq!(
        AppError::PushContent(PushError::ContentTooLarge(99)).code(),
        None
    );
    assert_eq!(
        AppError::DeleteContent(DeleteError::KeysDontExist(vec![])).code(),
        None
    );
}

#[test]
fn environment_and_io_errors_carry_their_stable_code() {
    let m = || "cause".to_string();
    assert_eq!(AppError::CreateDataDir(m()).code(), Some(101));
    assert_eq!(AppError::EmptyStash(EmptyError::ReadFromDataDir(m())).code(), Some(200));
    assert_eq!(AppError::EmptyStash(EmptyError::ReadFromStdin(m())).code(), Some(201));
    assert_eq!(AppError::EmptyStash(EmptyError::DeleteDataDir(m())).code(), Some(203));
    assert_eq!(AppError::GetContent(GetError::CouldntRemoveFile(m())).code(), Some(300));
    assert_eq!(AppError::GetContent(GetError::CouldntOpenFile(m())).code(), Some(301));
    assert_eq!(AppError::GetContent(GetError::CouldntReadFile(m())).code(), Some(302));
    assert_eq!(
        AppError::GetContent(GetError::CouldntAccessSystemClipboard(m())).code(),
        Some(303)
    );
    assert_eq!(
        AppError::GetContent(GetError::CouldntWriteToSystemClipboard(m())).code(),
        Some(304)
    );
    assert_eq!(AppError::ListContent(ListError::ReadFilesInDataDir(m())).code(), Some(400));
    assert_eq!(AppError::ListContent(ListError::GetFileFromDataDir(m())).code(), Some(401));
    assert_eq!(AppError::ListContent(ListError::GetFileStem(m())).code(), Some(402));
    assert_eq!(AppError::PushContent(PushError::CouldntOpenFile(m())).code(), Some(500));
    assert_eq!(AppError::PushContent(PushError::CouldntReadFile(m())).code(), Some(501));
    assert_eq!(AppError::PushContent(PushError::CouldntReadFromStdin(m())).code(), Some(502));
    assert_eq!(
        AppError::PushContent(PushError::CouldntAccessSystemClipboard(m())).code(),
        Some(503)
    );
    assert_eq!(
        AppError::PushContent(PushError::CouldntReadFromSystemClipboard(m())).code(),
        Some(504)
    );
    assert_eq!(AppError::PushContent(PushError::CouldntWriteToFile(m())).code(), Some(505));
    assert_eq!(AppError::PushContent(PushError::CouldntEchoContent(m())).code(), Some(506));
    assert_eq!(
        AppError::DeleteContent(DeleteError::CouldntRemoveFiles(vec![], vec![])).code(),
        Some(600)
    );
}
