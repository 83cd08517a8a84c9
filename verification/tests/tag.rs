use shell_sessions::tag::session_of;

#[test]
fn tagged_info_string_names_its_session() {
    assert_eq!(session_of("bash,demo"), Some(String::from("demo")));
}

#[test]
fn shell_block_without_a_name_is_not_tagged() {
    assert_eq!(session_of("bash"), None);
}

#[test]
fn other_languages_are_not_tagged() {
    assert_eq!(session_of("rust"), None);
    assert_eq!(session_of("sh,demo"), None);
    assert_eq!(session_of("Bash,demo"), None);
    assert_eq!(session_of(" bash,demo"), None);
    assert_eq!(session_of("bash ,demo"), None);
    assert_eq!(session_of(""), None);
    assert_eq!(session_of(","), None);
}

#[test]
fn name_is_everything_after_the_first_comma() {
    assert_eq!(session_of("bash,a,b"), Some(String::from("a,b")));
    assert_eq!(session_of("bash,my session"), Some(String::from("my session")));
    assert_eq!(session_of("bash,"), Some(String::new()));
    assert_eq!(session_of("bash,d\u{e9}mo"), Some(String::from("d\u{e9}mo")));
}
