use tash::ContentSource;
use tash::DeleteError;
use tash::EmptyOutcome;
use tash::GetError;
use tash::PushError;
use tash::Stash;

const SAMPLE: &[u8] = b"A sample file for tash.\n\nContent goes here.\n";

fn stash_with(keys: &[&str]) -> Stash {
    let mut stash = Stash::new();
    for key in keys {
        let r = stash.push_content(key, SAMPLE.to_vec(), false);
        assert!(r.is_ok(), "push command should've been executed");
    }
    stash
}

#[test]
fn cli_pushing_content_from_flag_works() {
    let mut stash = Stash::new();
    let source = tash::resolve_input_source(true, false, false).unwrap();
    assert_eq!(source, ContentSource::Data);
    let content = "content goes here".as_bytes().to_vec();
    let r = stash.push_content("key", content, false);
    assert!(r.is_ok());
}

#[test]
fn cli_pushing_content_from_local_file_works() {
    let mut stash = Stash::new();
    let source = tash::resolve_input_source(false, true, false).unwrap();
    assert_eq!(source, ContentSource::FilePath);
    let r = stash.push_content("key", SAMPLE.to_vec(), false);
    assert!(r.is_ok());
}

#[test]
fn cli_pushing_and_echoing_content_works() {
    let mut stash = Stash::new();
    let content = "content goes here".as_bytes().to_vec();
    let r = stash.push_content("key", content, false);
    assert!(r.is_ok());
    let echoed = stash.get_content("key", false, false, false).unwrap().unwrap();
    assert_eq!(String::from_utf8(echoed).unwrap(), "content goes here");
}

#[test]
fn cli_listing_from_an_empty_stash_works() {
    let stash = Stash::new();
    let keys = stash.list_content();
    assert!(keys.is_empty());
}

#[test]
fn cli_getting_content_works() {
    let mut stash = stash_with(&["key"]);
    let got = stash.get_content("key", false, false, false).unwrap().unwrap();
    assert_eq!(got, SAMPLE.to_vec());
}

#[test]
fn cli_getting_content_and_popping_works() {
    let mut stash = stash_with(&["key"]);
    let got = stash.get_content("key", false, false, true).unwrap().unwrap();
    assert_eq!(got, SAMPLE.to_vec());
    let again = stash.get_content("key", false, false, false);
    assert_eq!(again.unwrap_err(), GetError::KeyDoesntExist);
}

#[test]
fn cli_listing_content_works() {
    let stash = stash_with(&["key-b", "key-c", "key-a"]);
    let keys = stash.list_content();
    assert_eq!(keys, vec!["key-a", "key-b", "key-c"]);
}

#[test]
fn cli_deleting_content_items_works() {
    let mut stash = stash_with(&["key-b", "key-c", "key-a"]);
    let keys = vec!["key-a".to_string(), "key-b".to_string()];
    let r = stash.delete_content_items(&keys);
    assert!(r.is_ok());
    assert_eq!(stash.list_content(), vec!["key-c"]);
}

#[test]
fn cli_emptying_stash_works() {
    let mut stash = stash_with(&["key-b", "key-c", "key-a"]);
    let outcome = stash.empty_stash(true, None);
    assert_eq!(outcome, EmptyOutcome::Deleted(3));
    assert!(stash.list_content().is_empty());
}

#[test]
fn cli_fails_if_key_doesnt_conform_to_regex() {
    let incorrect_keys = vec![
        "incorrect key",
        "inco!!rectkey",
        "incorrect.key",
        "  ",
        "INCORRECTKEY",
        "incorrect,key",
    ];
    for incorrect_key in incorrect_keys {
        let mut stash = Stash::new();
        let r = stash.push_content(incorrect_key, SAMPLE.to_vec(), false);
        assert_eq!(r.unwrap_err(), PushError::IncorrectKeyProvided);
    }
}

#[test]
fn cli_fails_if_key_doesnt_exist() {
    let mut stash = Stash::new();
    let r = stash.get_content("non-existent-key", false, false, false);
    assert_eq!(r.unwrap_err(), GetError::KeyDoesntExist);
}

#[test]
fn cli_fails_if_content_overwrites_are_not_desired() {
    let mut stash = Stash::new();
    let content = "content goes here".as_bytes().to_vec();
    let r = stash.push_content("key", content.clone(), false);
    assert!(r.is_ok(), "push command should've been executed");
    let r2 = stash.push_content("key", content, true);
    assert_eq!(r2.unwrap_err(), PushError::KeyAlreadyExists);
}

#[test]
fn cli_deletion_fails_if_one_or_more_keys_dont_exist() {
    let mut stash = stash_with(&["key-b", "key-c", "key-a"]);
    let keys = vec!["non-existent-key".to_string(), "key-b".to_string()];
    let r = stash.delete_content_items(&keys);
    assert_eq!(
        r.unwrap_err(),
        DeleteError::KeysDontExist(vec!["non-existent-key".to_string()])
    );
    assert!(stash.contains_key("key-b"));
}
