use tash::GetError;
use tash::Stash;

const SAMPLE: &[u8] = b"A sample file for tash.\n\nContent goes here.\n";

#[test]
fn get_getting_content_works() {
    let mut stash = Stash::new();
    let r = stash.push_content("key", SAMPLE.to_vec(), false);
    assert!(r.is_ok(), "push command should've been executed");
    let got = stash.get_content("key", false, false, false).unwrap().unwrap();
    assert_eq!(got, SAMPLE.to_vec());
}

#[test]
fn get_getting_content_and_popping_works() {
    let mut stash = Stash::new();
    let r = stash.push_content("key", SAMPLE.to_vec(), false);
    assert!(r.is_ok(), "push command should've been executed");
    let got = stash.get_content("key", false, false, true).unwrap().unwrap();
    assert_eq!(got, SAMPLE.to_vec());
    let again = stash.get_content("key", false, false, false);
    assert_eq!(again.unwrap_err(), GetError::KeyDoesntExist);
}

#[test]
fn get_fails_if_key_doesnt_exist() {
    let mut stash = Stash::new();
    let r = stash.get_content("non-existent-key", false, false, false);
    assert_eq!(r.unwrap_err(), GetError::KeyDoesntExist);
}
