use fischy::process::{bytes_equal, check_running, name_in_list};

#[test]
fn byte_equality() {
    assert!(bytes_equal(b"sober", b"sober"));
    assert!(!bytes_equal(b"sober", b"sobe"));
    assert!(!bytes_equal(b"sober", b"sobex"));
    assert!(bytes_equal(b"", b""));
}

#[test]
fn name_lookup() {
    let names = vec![b"init".to_vec(), b"sober".to_vec(), b"bash".to_vec()];
    assert!(name_in_list(&names, b"sober"));
    assert!(!name_in_list(&names, b"sobe"));
    assert!(!name_in_list(&Vec::new(), b"sober"));
}

#[test]
fn absent_process_is_not_running() {
    assert!(!check_running("no-such-process-0f3c9a"));
}
