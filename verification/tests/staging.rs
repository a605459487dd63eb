use ai_server::staging::{fresh_staged_name, request_line};

#[test]
fn staged_name_has_stem_and_extension() {
    let name = fresh_staged_name();
    assert_eq!(name.len(), 41);
    assert!(name.ends_with(".webm"));
    let stem = &name[..36];
    for c in stem.chars() {
        assert!(
            c == '-' || c.is_ascii_hexdigit() && !c.is_ascii_uppercase(),
            "unexpected stem character {:?} in {}",
            c,
            name
        );
    }
}

#[test]
fn staged_name_is_a_single_line_and_a_local_path() {
    let name = fresh_staged_name();
    assert!(!name.contains('\n'));
    assert!(!name.contains('/'));
}

#[test]
fn staged_names_are_fresh_per_call() {
    let a = fresh_staged_name();
    let b = fresh_staged_name();
    assert_ne!(a, b);
}

#[test]
fn request_line_is_the_name_plus_one_terminator() {
    assert_eq!(request_line("abc.webm"), "abc.webm\n");
    assert_eq!(request_line(""), "\n");
}
