use authd_registry::digits::format_u64;
use authd_registry::helpers::{
    chop_trailing_char, clean_user_input, get_secret_key, parse_tx_id, stdin_wait_message,
    xorname_to_hex, SecretKeyStep, XorName,
};
use authd_registry::params::Params;
use authd_registry::table::{gen_processed_files_table, ProcessedFile};

#[test]
fn parse_tx_id_accepts_decimal_numbers() {
    assert_eq!(parse_tx_id("0"), Ok(0));
    assert_eq!(parse_tx_id("42"), Ok(42));
    assert_eq!(parse_tx_id("+42"), Ok(42));
    assert_eq!(parse_tx_id("18446744073709551615"), Ok(u64::MAX));
}

#[test]
fn parse_tx_id_rejects_bad_input() {
    let suffix = ". A valid TX Id is a number between 0 and 2^64";
    assert_eq!(
        parse_tx_id(""),
        Err(format!("cannot parse integer from empty string{}", suffix))
    );
    assert_eq!(
        parse_tx_id("abc"),
        Err(format!("invalid digit found in string{}", suffix))
    );
    assert_eq!(
        parse_tx_id("-1"),
        Err(format!("invalid digit found in string{}", suffix))
    );
    assert_eq!(
        parse_tx_id("+"),
        Err(format!("invalid digit found in string{}", suffix))
    );
    assert_eq!(
        parse_tx_id("12x"),
        Err(format!("invalid digit found in string{}", suffix))
    );
    assert_eq!(
        parse_tx_id("18446744073709551616"),
        Err(format!("number too large to fit in target type{}", suffix))
    );
}

#[test]
fn format_u64_renders_decimal() {
    assert_eq!(format_u64(0), "0");
    assert_eq!(format_u64(7), "7");
    assert_eq!(format_u64(105), "105");
    assert_eq!(format_u64(u64::MAX), "18446744073709551615");
}

#[test]
fn rendering_parses_back() {
    for n in [0u64, 1, 9, 10, 99, 12345, u64::MAX] {
        assert_eq!(parse_tx_id(&format_u64(n)), Ok(n));
    }
}

#[test]
fn params_debug_text_names_the_value() {
    assert_eq!(Params::Null.debug_text(), "Null");
    assert_eq!(Params::Bool(true).debug_text(), "Bool(true)");
    assert_eq!(Params::Bool(false).debug_text(), "Bool(false)");
    assert_eq!(Params::Number(42).debug_text(), "Number(42)");
    assert_eq!(
        Params::Text("http://x".to_string()).debug_text(),
        "String(\"http://x\")"
    );
    assert_eq!(
        Params::Other("Array [Null]".to_string()).debug_text(),
        "Array [Null]"
    );
}

#[test]
fn xorname_to_hex_two_digits_per_byte() {
    let zero = XorName([0u8; 32]);
    assert_eq!(xorname_to_hex(&zero), "0".repeat(64));

    let mut bytes = [0u8; 32];
    bytes[0] = 0x12;
    bytes[1] = 0xab;
    bytes[31] = 0xff;
    let hex = xorname_to_hex(&XorName(bytes));
    assert_eq!(hex.len(), 64);
    assert!(hex.starts_with("12ab"));
    assert!(hex.ends_with("ff"));
}

#[test]
fn get_secret_key_passes_supplied_key_through() {
    let r = get_secret_key("safe://xorurl", Some("mysecret".to_string()), "the key");
    assert_eq!(r, SecretKeyStep::Key("mysecret".to_string()));
}

#[test]
fn get_secret_key_prompts_when_key_is_missing() {
    let r = get_secret_key("", None, "the new key");
    assert_eq!(
        r,
        SecretKeyStep::Prompt("Enter secret key corresponding to the new key: ".to_string())
    );

    let r = get_secret_key("safe://xorurl", Some(String::new()), "the key");
    assert_eq!(
        r,
        SecretKeyStep::Prompt(
            "Enter secret key corresponding to public key at \"safe://xorurl\": ".to_string()
        )
    );
}

#[test]
fn clean_user_input_strips_newlines_and_rejects_empty() {
    assert_eq!(clean_user_input("hello\n", "Invalid input"), Ok("hello".to_string()));
    assert_eq!(clean_user_input("hello\r\n", "Invalid input"), Ok("hello".to_string()));
    assert_eq!(clean_user_input("hello", "Invalid input"), Ok("hello".to_string()));
    assert_eq!(
        clean_user_input("\n", "Invalid input"),
        Err("Invalid input".to_string())
    );
    assert_eq!(
        clean_user_input("", "Invalid input"),
        Err("Invalid input".to_string())
    );
}

#[test]
fn stdin_helpers() {
    assert_eq!(stdin_wait_message(Some("reading...")), "reading...");
    assert_eq!(
        stdin_wait_message(None),
        "...awaiting data from STDIN stream..."
    );
    assert_eq!(chop_trailing_char("target\n"), "target");
}

#[test]
fn processed_files_table_counts_and_renders() {
    let files = vec![
        ProcessedFile {
            name: "a.txt".to_string(),
            change: "+".to_string(),
            link: "safe://a".to_string(),
        },
        ProcessedFile {
            name: "b.txt".to_string(),
            change: "E".to_string(),
            link: "safe://b".to_string(),
        },
        ProcessedFile {
            name: "c.txt".to_string(),
            change: "*".to_string(),
            link: "safe://c".to_string(),
        },
    ];

    let (table, success) = gen_processed_files_table(&files, true);
    assert_eq!(success, 2);
    let rendered = table.to_string();
    assert!(rendered.contains("a.txt"));
    assert!(rendered.contains("safe://a"));
    assert!(rendered.contains("+"));
    assert!(rendered.contains("E"));
    assert!(rendered.contains("c.txt"));

    let (table, success) = gen_processed_files_table(&files, false);
    assert_eq!(success, 2);
    let rendered = table.to_string();
    assert!(rendered.contains("b.txt"));
    assert!(!rendered.contains('+'));

    let (table, success) = gen_processed_files_table(&Vec::new(), true);
    assert_eq!(success, 0);
    assert!(table.is_empty());
}

#[test]
fn processed_files_table_splits_cell_text_into_lines() {
    let files = vec![ProcessedFile {
        name: "first\nsecond".to_string(),
        change: "+".to_string(),
        link: "safe://multi".to_string(),
    }];
    let (table, success) = gen_processed_files_table(&files, true);
    assert_eq!(success, 1);
    assert_eq!(table.len(), 1);
    let rendered = table.to_string();
    assert!(rendered.contains("first"));
    assert!(rendered.contains("second"));
    assert!(!rendered.contains("first\nsecond "));
}
