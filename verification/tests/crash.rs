use rust_fuzzer::crash::FATAL_SIGNAL;
use rust_fuzzer::crash::Outcome;
use rust_fuzzer::crash::classify;
use rust_fuzzer::crash::crash_artifact_name;

#[test]
fn only_the_fatal_signal_is_a_crash() {
    assert!(classify(&Outcome::Signaled(FATAL_SIGNAL)));
    assert!(classify(&Outcome::Signaled(11)));
    assert!(!classify(&Outcome::Exited(0)));
    assert!(!classify(&Outcome::Exited(1)));
    assert!(!classify(&Outcome::Exited(11)));
    assert!(!classify(&Outcome::Exited(139)));
    assert!(!classify(&Outcome::Signaled(6)));
    assert!(!classify(&Outcome::Signaled(9)));
}

#[test]
fn artifact_name_of_the_empty_input() {
    let name = crash_artifact_name(&Vec::new());
    let expected = b"crash_e3b0c44298fc1c149afbf4c8996fb92427ae41e4649b934ca495991b7852b855";
    assert_eq!(name, expected.to_vec());
}

#[test]
fn artifact_name_of_hello() {
    let name = crash_artifact_name(&b"hello".to_vec());
    let expected = b"crash_2cf24dba5fb0a30e26e83b2ac5b9e29e1b161e5c1fa7425e73043362938b9824";
    assert_eq!(name, expected.to_vec());
}

#[test]
fn artifact_name_shape() {
    let name = crash_artifact_name(&b"anything".to_vec());
    assert_eq!(name.len(), 6 + 64);
    assert!(name.starts_with(b"crash_"));
    assert!(name[6..].iter().all(|b| b.is_ascii_hexdigit()));
}

#[test]
fn identical_inputs_share_one_artifact() {
    let first = crash_artifact_name(&b"boom".to_vec());
    let second = crash_artifact_name(&b"boom".to_vec());
    assert_eq!(first, second);

    // Create-if-absent persistence keyed by the name stores the input once.
    let mut store: Vec<Vec<u8>> = Vec::new();
    for name in [first, second] {
        if !store.contains(&name) {
            store.push(name);
        }
    }
    assert_eq!(store.len(), 1);
}

#[test]
fn different_inputs_get_different_names() {
    let a = crash_artifact_name(&b"a".to_vec());
    let b = crash_artifact_name(&b"b".to_vec());
    assert_ne!(a, b);
}
