use ironclaw::discord::truncate::truncate_message;

#[test]
fn test_truncate_message() {
    let short = "Hello world";
    assert_eq!(truncate_message(short), short);

    let long = "a".repeat(2005);
    let truncated = truncate_message(&long);
    assert_eq!(truncated.len(), 2006); // 1990 + 16 chars suffix
    assert!(truncated.ends_with("\n... (truncated)"));

    // Test with multibyte characters (Euro sign is 3 bytes)
    // 1000 chars * 3 bytes = 3000 bytes
    let multi = "€".repeat(1000);
    let truncated_multi = truncate_message(&multi);

    // 1990 bytes limit. 1990 / 3 = 663 with remainder 1.
    // Should truncate at 663 chars (1989 bytes).
    // Suffix is 16 bytes. Total: 1989 + 16 = 2005 bytes.
    assert!(truncated_multi.len() <= 2006);
    assert!(truncated_multi.len() >= 2006 - 4); // Allow for max utf8 char width variance
    assert!(truncated_multi.ends_with("\n... (truncated)"));

    let content_part = &truncated_multi[..truncated_multi.len() - 16];
    assert!(content_part.chars().all(|c| c == '€'));
}

#[test]
fn message_of_exactly_the_limit_is_kept() {
    let exact = "b".repeat(2000);
    assert_eq!(truncate_message(&exact), exact);
    let over = "b".repeat(2001);
    assert_eq!(
        truncate_message(&over),
        format!("{}\n... (truncated)", "b".repeat(1990))
    );
}

#[test]
fn the_limit_counts_bytes() {
    // 1001 characters of two bytes each.
    let wide = "é".repeat(1001);
    assert_eq!(
        truncate_message(&wide),
        format!("{}\n... (truncated)", "é".repeat(995))
    );
}

#[test]
fn a_character_is_never_cut() {
    // 1989 bytes, then a character of four bytes across the limit.
    let text = format!("{}{}", "x".repeat(1989), "🤔".repeat(10));
    assert_eq!(
        truncate_message(&text),
        format!("{}\n... (truncated)", "x".repeat(1989))
    );
    assert_eq!(truncate_message(""), "");
}
