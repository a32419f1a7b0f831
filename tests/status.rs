use giadd::{
    char_utf8_len, has_help_flag, marshal_statuses_into_paths, split_whitespace, status_rest,
    status_to_path, white_space,
};

#[test]
fn turns_statuses_into_paths() {
    let statuses = vec![
        " M src/main.rs".to_string(),
        "?? wow".to_string(),
        "CM src/wow.rs -> src/lib.rs".to_string(),
    ];

    let results = marshal_statuses_into_paths(statuses);

    assert_eq!(
        results,
        Ok(vec![
            ":/src/main.rs".to_string(),
            ":/wow".to_string(),
            ":/src/lib.rs".to_string(),
        ])
    )
}

#[test]
fn returns_error_if_status_is_malformed() {
    let statuses = vec![
        " M src/main.rs".to_string(),
        "?? wow".to_string(),
        "CM src/wow.rs ->".to_string(),
    ];

    let error = marshal_statuses_into_paths(statuses);

    assert_eq!(error, Err("Failed to parse status"))
}

#[test]
fn empty_status_list_gives_no_paths() {
    assert_eq!(marshal_statuses_into_paths(vec![]), Ok(vec![]));
}

#[test]
fn status_path_keeps_inner_spaces_without_arrow() {
    assert_eq!(
        status_to_path(&"?? a b".to_string()),
        Some(":/a b".to_string())
    );
}

#[test]
fn rename_takes_third_word_across_runs_of_white_space() {
    assert_eq!(
        status_to_path(&"R  old.rs\t->   new.rs  ".to_string()),
        Some(":/new.rs".to_string())
    );
}

#[test]
fn arrow_without_target_is_none() {
    assert_eq!(status_to_path(&"R  a ->".to_string()), None);
}

#[test]
fn words_are_split_on_unicode_white_space() {
    let w = split_whitespace("  one\u{3000}two\u{85}three  ");
    assert_eq!(w, vec!["one".to_string(), "two".to_string(), "three".to_string()]);
    assert_eq!(split_whitespace("   "), Vec::<String>::new());
    assert_eq!(split_whitespace(""), Vec::<String>::new());
}

#[test]
fn white_space_agrees_with_std() {
    for u in 0u32..0x3100 {
        if let Some(c) = char::from_u32(u) {
            assert_eq!(white_space(c), c.is_whitespace(), "code point {:x}", u);
        }
    }
}

#[test]
fn help_flag_is_found_in_either_form() {
    assert!(has_help_flag(&vec!["giadd".to_string(), "--help".to_string()]));
    assert!(has_help_flag(&vec!["giadd".to_string(), "-h".to_string()]));
    assert!(!has_help_flag(&vec!["giadd".to_string(), "-help".to_string()]));
    assert!(!has_help_flag(&vec![]));
}

#[test]
fn status_code_is_three_bytes_not_three_characters() {
    assert_eq!(
        marshal_statuses_into_paths(vec!["\u{e9} x".to_string()]),
        Ok(vec![":/x".to_string()])
    );
    assert_eq!(
        marshal_statuses_into_paths(vec!["\u{e9} ->".to_string()]),
        Err("Failed to parse status")
    );
    assert_eq!(status_to_path(&"\u{e9}a".to_string()), Some(":/".to_string()));
}

#[test]
fn status_rest_needs_a_character_boundary_at_byte_three() {
    assert_eq!(status_rest("ab\u{20ac}x"), None);
    assert_eq!(status_rest("ab"), None);
    assert_eq!(status_rest("abc"), Some(""));
    assert_eq!(status_rest("?? wow"), Some("wow"));
}

#[test]
fn utf8_lengths_agree_with_std() {
    for c in ['a', '\u{7f}', '\u{80}', '\u{e9}', '\u{7ff}', '\u{800}', '\u{20ac}', '\u{ffff}', '\u{10000}', '\u{10ffff}'] {
        assert_eq!(char_utf8_len(c), c.len_utf8());
    }
}
