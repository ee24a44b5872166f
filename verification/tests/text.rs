use kubetui::text::wrap;

#[test]
fn wrap_only_newline() {
    let text = vec!["hoge".to_string(), "".to_string(), "hoge".to_string()];

    assert_eq!(
        wrap(&text, 100),
        vec!["hoge".to_string(), "".to_string(), "hoge".to_string()]
    );
}

#[test]
fn wrap_unwrap() {
    let text = vec!["aaaaaaaaaaaaaaaaaaaaaaaaaaaaaaa".to_string()];

    assert_eq!(
        wrap(&text, 100),
        vec!["aaaaaaaaaaaaaaaaaaaaaaaaaaaaaaa".to_string()]
    );
}

#[test]
fn wrap_short() {
    let text = vec!["aaaaaaaaaaaaaaa".to_string()];

    assert_eq!(
        wrap(&text, 10),
        vec!["aaaaaaaaaa".to_string(), "aaaaa".to_string()]
    );
}

#[test]
fn wrap_too_long_0() {
    let text = vec!["aaaaaaaaaaaaaa".to_string()];

    assert_eq!(
        wrap(&text, 5),
        vec!["aaaaa".to_string(), "aaaaa".to_string(), "aaaa".to_string(),]
    );
}

#[test]
fn wrap_too_long_1() {
    let text = vec!["123456789\n123456789\n123456789\n123456789\n123456789\n123456789\n123456789\n123456789\n".to_string()];

    assert_eq!(
        wrap(&text, 12),
        vec![
            "123456789".to_string(),
            "123456789".to_string(),
            "123456789".to_string(),
            "123456789".to_string(),
            "123456789".to_string(),
            "123456789".to_string(),
            "123456789".to_string(),
            "123456789".to_string(),
        ]
    );
}

#[test]
fn wrap_width_zero_counts_as_one() {
    assert_eq!(
        wrap(&vec!["abc".to_string()], 0),
        vec!["a".to_string(), "b".to_string(), "c".to_string()]
    );
    assert_eq!(wrap(&vec!["abc".to_string()], 0), wrap(&vec!["abc".to_string()], 1));
}

#[test]
fn wrap_empty_item_is_one_empty_line() {
    assert_eq!(wrap(&vec!["".to_string()], 7), vec!["".to_string()]);
    assert_eq!(wrap(&vec![], 7), Vec::<String>::new());
}

#[test]
fn wrap_keeps_wide_characters_whole() {
    assert_eq!(
        wrap(&vec!["｢wds｣ℹあいう".to_string()], 4),
        vec!["｢wds".to_string(), "｣ℹあい".to_string(), "う".to_string()]
    );
}

#[test]
fn wrap_does_not_count_or_cut_sequences() {
    let text = vec!["\x1b[31mab\x1b[1;32mcd\x1b[0mef".to_string()];
    let wrapped = wrap(&text, 3);
    assert_eq!(
        wrapped,
        vec!["\x1b[31mab\x1b[1;32mc".to_string(), "d\x1b[0mef".to_string()]
    );
}

#[test]
fn wrap_bound_on_visible_characters() {
    let text = vec![
        "\x1b[31mab\x1b[1;32mcd\x1b[0mefgh\x1b[38;5;1mijkl".to_string(),
        "plain text of some length\r\nand a second line".to_string(),
        "\x1b[31m\x1b[0m".to_string(),
    ];
    for width in 1..12usize {
        let wrapped = wrap(&text, width);
        assert!(wrapped.len() >= text.len());
        for line in wrapped.iter() {
            let mut visible = 0;
            let mut open = false;
            for c in line.chars() {
                if c == '\x1b' {
                    open = true;
                } else if open && c == 'm' {
                    open = false;
                } else if !open {
                    visible += 1;
                }
            }
            assert!(visible <= width);
        }
    }
}

#[test]
fn wrap_splits_at_line_breaks() {
    assert_eq!(
        wrap(&vec!["a\r\nb\n\nc\r".to_string(), "\n".to_string()], 9),
        vec![
            "a".to_string(),
            "b".to_string(),
            "".to_string(),
            "c\r".to_string(),
            "".to_string()
        ]
    );
}

#[test]
fn wrap_keeps_a_line_that_shows_nothing() {
    assert_eq!(
        wrap(&vec!["\x1b[31m\x1b[0m".to_string()], 2),
        vec!["\x1b[31m\x1b[0m".to_string()]
    );
    assert_eq!(
        wrap(&vec!["\x1b[31maaaaa\x1b[0m".to_string()], 5),
        vec!["\x1b[31maaaaa".to_string()]
    );
}

#[test]
fn wrap_fifteen_characters_at_ten() {
    assert_eq!(
        wrap(&vec!["aaaaaaaaaaaaaaa".to_string()], 10),
        vec!["aaaaaaaaaa".to_string(), "aaaaa".to_string()]
    );
}
