use imagine_gif::parse_query::parse_gif_path;

#[test]
fn should_return_base_case() {
    let result = parse_gif_path("/base.gif");
    assert_eq!(result.file_name, "base");
    assert_eq!(result.text, "base");
    assert_eq!(result.bucket_path, "base.gif");
}

#[test]
fn test_parse_query() {
    let result = parse_gif_path("/hello world test.png");
    assert_eq!(result.file_name, "hello_world_test");
    assert_eq!(result.text, "HELLO WORLD TEST");
    assert_eq!(result.bucket_path, "generated/hello_world_test.gif");
}

#[test]
fn test_parse_query_with_long_string() {
    let result = parse_gif_path("/this is a very long string that should be truncated.png");
    assert_eq!(result.file_name.len(), 30);
    assert_eq!(result.file_name, "this_is_a_very_long_string_tha");
}

#[test]
fn test_parse_query_with_extra_spaces() {
    let result = parse_gif_path("/  hello   world  .png");
    assert_eq!(result.file_name, "hello___world");
    assert_eq!(result.text, "HELLO   WORLD");
}

#[test]
fn test_correctly_handles_empty() {
    let result = parse_gif_path("/  .gif");
    assert_eq!(result.file_name, "");
    assert_eq!(result.text, "");
    assert_eq!(result.bucket_path, "generated/.gif");
}

#[test]
fn test_handles_emoji() {
    let result = parse_gif_path("/\u{1F600}.gif");
    assert_eq!(result.file_name, "\u{1F600}");
    assert_eq!(result.text, "\u{1F600}");
    assert_eq!(result.bucket_path, "generated/\u{1F600}.gif");
}

#[test]
fn test_handles_mixed_emoji_and_text() {
    let result = parse_gif_path("/hello \u{1F600} world.gif");
    assert_eq!(result.file_name, "hello_\u{1F600}_world");
    assert_eq!(result.text, "HELLO \u{1F600} WORLD");
    assert_eq!(result.bucket_path, "generated/hello_\u{1F600}_world.gif");
}
