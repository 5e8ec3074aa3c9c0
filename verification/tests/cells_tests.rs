use rich_rust::cells::{cell_len, cell_len_uncached, cell_positions, cell_to_byte_index, chop_cells, get_character_cell_size, has_wide_chars, set_cell_size};


#[test]
fn test_ascii_width() {
    assert_eq!(cell_len("hello"), 5);
    assert_eq!(cell_len("Hello, World!"), 13);
}

#[test]
fn test_character_width() {
    assert_eq!(get_character_cell_size('a'), 1);
    assert_eq!(get_character_cell_size(' '), 1);
}

#[test]
fn test_cjk_width() {
    assert_eq!(cell_len("日本語"), 6); // 3 characters * 2 cells
    assert_eq!(cell_len("中文"), 4); // 2 characters * 2 cells
}

#[test]
fn test_mixed_width() {
    assert_eq!(cell_len("Hello日本"), 9); // 5 + 2*2
}

#[test]
fn test_set_cell_size_pad() {
    let result = set_cell_size("hi", 5);
    assert_eq!(result, "hi   ");
    assert_eq!(cell_len(&result), 5);
}

#[test]
fn test_set_cell_size_truncate() {
    let result = set_cell_size("hello world", 5);
    assert_eq!(result, "hello");
    assert_eq!(cell_len(&result), 5);
}

#[test]
fn test_set_cell_size_exact() {
    let result = set_cell_size("hello", 5);
    assert_eq!(result, "hello");
}

#[test]
fn test_chop_cells() {
    let (left, right) = chop_cells("hello world", 5);
    assert_eq!(left, "hello");
    assert_eq!(right, " world");
}

#[test]
fn test_chop_cells_cjk() {
    let (left, right) = chop_cells("日本語", 3);
    assert_eq!(cell_len(left), 2);
    assert_eq!(left, "日");
    assert_eq!(right, "本語");
}

#[test]
fn test_cell_positions() {
    let positions = cell_positions("aあb");
    assert_eq!(positions[0], (0, 0)); // 'a' at byte 0, cell 0
    assert_eq!(positions[1], (1, 1)); // 'あ' at byte 1, cell 1
    assert_eq!(positions[2], (4, 3)); // 'b' at byte 4, cell 3 (あ is 3 bytes, 2 cells)
}

#[test]
fn test_has_wide_chars() {
    assert!(!has_wide_chars("hello"));
    assert!(has_wide_chars("hello日本"));
    assert!(has_wide_chars("日本語"));
}

#[test]
fn test_control_characters() {
    assert_eq!(get_character_cell_size('\0'), 0);
    assert_eq!(get_character_cell_size('\x1b'), 0); // ESC
}


#[test]
fn test_spec_basic_width_concept() {
    for c in ' '..='~' {
        assert_eq!(
            get_character_cell_size(c),
            1,
            "ASCII '{c}' should be 1 cell"
        );
    }

    let cjk_chars = ['日', '本', '語', '中', '文', '한', '국', '어'];
    for c in cjk_chars {
        assert_eq!(get_character_cell_size(c), 2, "CJK '{c}' should be 2 cells");
    }

    assert_eq!(get_character_cell_size('\x00'), 0); // NULL
    assert_eq!(get_character_cell_size('\x01'), 0); // SOH
    assert_eq!(get_character_cell_size('\x1f'), 0); // US
}

#[test]
fn test_spec_cell_width_ranges() {
    assert_eq!(get_character_cell_size('\u{0300}'), 0); // Combining grave accent
    assert_eq!(get_character_cell_size('\u{0301}'), 0); // Combining acute accent

    assert_eq!(get_character_cell_size('\u{1100}'), 2); // Hangul Choseong Kiyeok

    assert_eq!(get_character_cell_size('\u{3000}'), 2); // Ideographic space

    assert_eq!(get_character_cell_size('\u{4E00}'), 2); // CJK character "one"
    assert_eq!(get_character_cell_size('\u{9FCC}'), 2); // Another CJK character
}

#[test]
fn test_spec_ascii_fast_path() {
    assert_eq!(get_character_cell_size(' '), 1); // 0x20
    assert_eq!(get_character_cell_size('~'), 1); // 0x7E
    assert_eq!(get_character_cell_size('A'), 1);
    assert_eq!(get_character_cell_size('z'), 1);
    assert_eq!(get_character_cell_size('0'), 1);
    assert_eq!(get_character_cell_size('!'), 1);

    assert_eq!(get_character_cell_size('\u{00A0}'), 1); // Non-breaking space
    assert_eq!(get_character_cell_size('é'), 1); // e with acute
    assert_eq!(get_character_cell_size('ñ'), 1); // n with tilde
}

#[test]
fn test_spec_cell_len_algorithm() {
    assert_eq!(cell_len("hello"), 5);
    assert_eq!(cell_len(""), 0);

    assert_eq!(cell_len("日本語"), 6); // 3 chars * 2 cells
    assert_eq!(cell_len("中文测试"), 8); // 4 chars * 2 cells

    assert_eq!(cell_len("Hello日本"), 9); // 5 + 2*2
    assert_eq!(cell_len("a中b"), 4); // 1 + 2 + 1

}

#[test]
fn test_spec_set_cell_size_operations() {
    assert_eq!(set_cell_size("hello", 5), "hello");

    let padded = set_cell_size("hi", 5);
    assert_eq!(padded, "hi   ");
    assert_eq!(cell_len(&padded), 5);

    let truncated = set_cell_size("hello world", 5);
    assert_eq!(truncated, "hello");
    assert_eq!(cell_len(&truncated), 5);

    let cjk_trunc = set_cell_size("日本語", 5);
    assert_eq!(cell_len(&cjk_trunc), 5);
    assert!(cjk_trunc.starts_with("日本"));

    let mixed = set_cell_size("Hello日本", 7);
    assert_eq!(cell_len(&mixed), 7);
}

#[test]
fn test_spec_chop_cells_operations() {
    let (left, right) = chop_cells("hello world", 5);
    assert_eq!(left, "hello");
    assert_eq!(right, " world");

    let (left, right) = chop_cells("日本語", 3);
    assert_eq!(left, "日"); // 2 cells, next would be 4
    assert_eq!(right, "本語");
    assert_eq!(cell_len(left), 2);

    let (left, right) = chop_cells("日本語", 4);
    assert_eq!(left, "日本"); // Exactly 4 cells
    assert_eq!(right, "語");

    let (left, right) = chop_cells("hello", 0);
    assert_eq!(left, "");
    assert_eq!(right, "hello");
}

#[test]
fn test_spec_cell_positions_mapping() {
    let pos = cell_positions("abc");
    assert_eq!(pos, vec![(0, 0), (1, 1), (2, 2)]);

    let pos = cell_positions("a日b");
    assert_eq!(pos[0], (0, 0)); // 'a' at byte 0, cell 0
    assert_eq!(pos[1], (1, 1)); // '日' at byte 1, cell 1
    assert_eq!(pos[2], (4, 3)); // 'b' at byte 4 (日 is 3 bytes), cell 3 (日 is 2 cells)
}

#[test]
fn test_spec_cell_to_byte_index() {
    assert_eq!(cell_to_byte_index("hello", 0), Some(0));
    assert_eq!(cell_to_byte_index("hello", 3), Some(3));
    assert_eq!(cell_to_byte_index("hello", 5), Some(5));
    assert_eq!(cell_to_byte_index("hello", 10), None);

    let s = "a日b";
    assert_eq!(cell_to_byte_index(s, 0), Some(0)); // 'a'
    assert_eq!(cell_to_byte_index(s, 1), Some(1)); // '日' starts
    assert_eq!(cell_to_byte_index(s, 3), Some(4)); // 'b'
}

#[test]
fn test_spec_has_wide_chars() {
    assert!(!has_wide_chars("hello world"));
    assert!(!has_wide_chars("Hello, World! 123"));
    assert!(!has_wide_chars(""));

    assert!(has_wide_chars("日"));
    assert!(has_wide_chars("Hello日本"));
    assert!(has_wide_chars("a中b文c"));
}

#[test]
fn test_spec_empty_string_handling() {
    assert_eq!(cell_len(""), 0);
    assert_eq!(set_cell_size("", 5), "     ");
    let (left, right) = chop_cells("", 5);
    assert_eq!(left, "");
    assert_eq!(right, "");
    assert!(cell_positions("").is_empty());
}

#[test]
fn test_spec_fullwidth_punctuation() {
    assert_eq!(get_character_cell_size('！'), 2); // Full-width exclamation
    assert_eq!(get_character_cell_size('Ａ'), 2); // Full-width A
    assert_eq!(cell_len("！Ａ"), 4);
}

#[test]
fn test_cell_len_caching() {
    let short = "hello";
    assert_eq!(cell_len(short), 5);
    assert_eq!(cell_len(short), 5); // Same result

    let long = "Hello, this is a longer string for testing";
    let width1 = cell_len(long);
    let width2 = cell_len(long); // Should hit cache
    assert_eq!(width1, width2);
    assert_eq!(width1, 42);

    assert_eq!(cell_len_uncached(long), 42);

    let cjk_long = "日本語テスト文字列";
    let cjk_width = cell_len(cjk_long);
    assert_eq!(cjk_width, 18); // 9 chars * 2 cells
    assert_eq!(cell_len(cjk_long), cjk_width); // Cache hit
}
