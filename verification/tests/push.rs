use tash::ContentSource;
use tash::PushError;
use tash::Stash;

const SAMPLE: &[u8] = b"A sample file for tash.\n\nContent goes here.\n";

#[test]
fn push_pushing_content_from_flag_works() {
    let mut stash = Stash::new();
    let source = tash::resolve_input_source(true, false, false).unwrap();
    assert_eq!(source, ContentSource::Data);
    let content = "content goes here".as_bytes().to_vec();
    let r = stash.push_content("key", content, false);
    assert_eq!(r.unwrap(), "content goes here".len());
}

#[test]
fn push_pushing_content_from_local_file_works() {
    let mut stash = Stash::new();
    let source = tash::resolve_input_source(false, true, false).unwrap();
    assert_eq!(source, ContentSource::FilePath);
    let r = stash.push_content("key", SAMPLE.to_vec(), false);
    assert_eq!(r.unwrap(), SAMPLE.len());
}

#[test]
fn push_pushing_and_echoing_content_works() {
    let mut stash = Stash::new();
    let content = "content goes here".as_bytes().to_vec();
    let r = stash.push_content("key", content, false);
    assert!(r.is_ok());
    let echoed = stash.get_content("key", false, false, false).unwrap().unwrap();
    assert_eq!(String::from_utf8(echoed).unwrap(), "content goes here");
}

#[test]
fn push_fails_if_key_doesnt_conform_to_regex() {
    let incorrect_keys = vec![
        "incorrect key",
        "inco!!rectkey",
        "incorrect.key",
        "  ",
        "INCORRECTKEY",
        "incorrect,key",
    ];
    for incorrect_key in incorrect_keys {
        let mut stash = Stash::new();
        assert!(!tash::validate_key(incorrect_key));
        let r = stash.push_content(incorrect_key, SAMPLE.to_vec(), false);
        assert_eq!(r.unwrap_err(), PushError::IncorrectKeyProvided);
    }
}

#[test]
fn push_fails_if_content_overwrites_are_not_desired() {
    let mut stash = Stash::new();
    let content = "content goes here".as_bytes().to_vec();
    let r = stash.push_content("key", content.clone(), false);
    assert!(r.is_ok(), "push command should've been executed");
    let r2 = stash.push_content("key", content, true);
    assert_eq!(r2.unwrap_err(), PushError::KeyAlreadyExists);
}
