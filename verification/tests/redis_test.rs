use typst_collab::mem_redis::get_phantom_token;

#[test]
fn test_get_phantom_token() {
    let id = "test".to_string();

    assert_eq!(get_phantom_token(&id), "phantom_test");
}

#[test]
fn phantom_token_of_empty_id_is_the_prefix() {
    assert_eq!(get_phantom_token(&String::new()), "phantom_");
}

#[test]
fn phantom_tokens_keep_the_id_after_the_prefix() {
    let token = get_phantom_token(&"doc/main.typ".to_string());
    assert_eq!(token.strip_prefix("phantom_"), Some("doc/main.typ"));
}
