use kubetui::ansi::{tokenize, AnsiEscapeSequence, Text, TextParser};

#[test]
fn empty() {
    assert_eq!("".ansi_parse().next(), None);
}

#[test]
fn text_only() {
    assert_eq!(
        "text".ansi_parse().next(),
        Some(Text::new("text", AnsiEscapeSequence::Chars))
    );
}

#[test]
fn escape_only() {
    assert_eq!(
        "\x1b".ansi_parse().next(),
        Some(Text::new("\x1b", AnsiEscapeSequence::Escape))
    );
}

#[test]
fn escape_cursor_up() {
    assert_eq!(
        "\x1b[1A".ansi_parse().next(),
        Some(Text::new("\x1b[1A", AnsiEscapeSequence::CursorUp(1)))
    );
}

#[test]
fn escape_cursor_up_and_cursor_down() {
    let mut iter = "\x1b[1A\x1b[1B".ansi_parse();
    assert_eq!(
        iter.next(),
        Some(Text::new("\x1b[1A", AnsiEscapeSequence::CursorUp(1)))
    );
    assert_eq!(
        iter.next(),
        Some(Text::new("\x1b[1B", AnsiEscapeSequence::CursorDown(1)))
    );
}

#[test]
fn escape_color() {
    assert_eq!(
        "\x1b[1;2;3;4m".ansi_parse().next(),
        Some(Text::new(
            "\x1b[1;2;3;4m",
            AnsiEscapeSequence::SelectGraphicRendition(vec![1, 2, 3, 4])
        ))
    );
}

#[test]
fn text_and_cursor_up() {
    let mut iter = "text\x1b[1A".ansi_parse();
    assert_eq!(iter.next(), Some(Text::new("text", AnsiEscapeSequence::Chars)));
    assert_eq!(
        iter.next(),
        Some(Text::new("\x1b[1A", AnsiEscapeSequence::CursorUp(1)))
    );
}

#[test]
fn cursor_up_and_text() {
    let mut iter = "\x1b[1Atext".ansi_parse();
    assert_eq!(
        iter.next(),
        Some(Text::new("\x1b[1A", AnsiEscapeSequence::CursorUp(1)))
    );
    assert_eq!(iter.next(), Some(Text::new("text", AnsiEscapeSequence::Chars)));
}

#[test]
fn text_and_cursor_up_and_text() {
    let mut iter = "text\x1b[1Atext".ansi_parse();
    assert_eq!(iter.next(), Some(Text::new("text", AnsiEscapeSequence::Chars)));
    assert_eq!(
        iter.next(),
        Some(Text::new("\x1b[1A", AnsiEscapeSequence::CursorUp(1)))
    );
    assert_eq!(iter.next(), Some(Text::new("text", AnsiEscapeSequence::Chars)));
}

#[test]
fn cursor_up_text_and_cursor_down() {
    let mut iter = "\x1b[1Atext\x1b[1B".ansi_parse();
    assert_eq!(
        iter.next(),
        Some(Text::new("\x1b[1A", AnsiEscapeSequence::CursorUp(1)))
    );
    assert_eq!(iter.next(), Some(Text::new("text", AnsiEscapeSequence::Chars)));
    assert_eq!(
        iter.next(),
        Some(Text::new("\x1b[1B", AnsiEscapeSequence::CursorDown(1)))
    );
}

#[test]
fn tokens_put_together_are_the_text() {
    let inputs = [
        "",
        "plain",
        "\x1b",
        "\x1b\x1b[",
        "a\x1b[31mb\x1b[0mc",
        "\x1b[999999999999mtext",
        "ℹ \x1b[38;2;1;2;3m｢wds｣\x1b[?25l\x1b[=7h\x1b[xyz",
    ];
    for input in inputs {
        let joined: String = tokenize(input).iter().map(|t| t.chars()).collect();
        assert_eq!(joined, input);
        assert!(tokenize(input).iter().all(|t| !t.chars().is_empty()));
    }
}

fn one(input: &str) -> AnsiEscapeSequence {
    let tokens = tokenize(input);
    assert_eq!(tokens.len(), 1, "{:?}", tokens);
    assert_eq!(tokens[0].chars(), input);
    tokens[0].ty().clone()
}

#[test]
fn every_known_sequence() {
    assert_eq!(one("\x1b[3A"), AnsiEscapeSequence::CursorUp(3));
    assert_eq!(one("\x1b[B"), AnsiEscapeSequence::CursorDown(1));
    assert_eq!(one("\x1b[12C"), AnsiEscapeSequence::CursorForward(12));
    assert_eq!(one("\x1b[D"), AnsiEscapeSequence::CursorBack(1));
    assert_eq!(one("\x1b[2E"), AnsiEscapeSequence::CursorNextLine(2));
    assert_eq!(one("\x1b[2F"), AnsiEscapeSequence::CursorPreviousLine(2));
    assert_eq!(one("\x1b[80G"), AnsiEscapeSequence::CursorHorizontalAbs(80));
    assert_eq!(one("\x1b[5;7H"), AnsiEscapeSequence::CursorPos(5, 7));
    assert_eq!(one("\x1b[H"), AnsiEscapeSequence::CursorPos(1, 1));
    assert_eq!(one("\x1b[;7H"), AnsiEscapeSequence::CursorPos(1, 7));
    assert_eq!(one("\x1b[5H"), AnsiEscapeSequence::CursorPos(5, 1));
    assert_eq!(one("\x1b[2J"), AnsiEscapeSequence::EraseDisplay(2));
    assert_eq!(one("\x1b[J"), AnsiEscapeSequence::EraseDisplay(1));
    assert_eq!(one("\x1b[K"), AnsiEscapeSequence::EraseLine(1));
    assert_eq!(one("\x1b[4S"), AnsiEscapeSequence::ScrollUp(4));
    assert_eq!(one("\x1b[T"), AnsiEscapeSequence::ScrollDown(1));
    assert_eq!(one("\x1b[3;4f"), AnsiEscapeSequence::HorizontalVerticalPos(3, 4));
    assert_eq!(one("\x1b[m"), AnsiEscapeSequence::SelectGraphicRendition(vec![0]));
    assert_eq!(one("\x1b[1;;3m"), AnsiEscapeSequence::SelectGraphicRendition(vec![1, 0, 3]));
    assert_eq!(one("\x1b[38;2;255;0;007m"), AnsiEscapeSequence::SelectGraphicRendition(vec![38, 2, 255, 0, 7]));
    assert_eq!(one("\x1b[5i"), AnsiEscapeSequence::AuxPortOn);
    assert_eq!(one("\x1b[4i"), AnsiEscapeSequence::AuxPortOff);
    assert_eq!(one("\x1b[6n"), AnsiEscapeSequence::DeviceStatusReport);
    assert_eq!(one("\x1b[s"), AnsiEscapeSequence::SaveCurrentCursorPos);
    assert_eq!(one("\x1b[u"), AnsiEscapeSequence::RestoreSavedCursorPos);
    assert_eq!(one("\x1b[?25h"), AnsiEscapeSequence::CursorShow);
    assert_eq!(one("\x1b[?25l"), AnsiEscapeSequence::CursorHide);
    assert_eq!(one("\x1b[=19h"), AnsiEscapeSequence::SetMode(19));
    assert_eq!(one("\x1b[=7l"), AnsiEscapeSequence::ResetMode(7));
    assert_eq!(one("\x1b[65535A"), AnsiEscapeSequence::CursorUp(65535));
}

#[test]
fn what_is_no_sequence_gives_a_bare_escape() {
    for input in [
        "\x1b[65536A",
        "\x1b[256m",
        "\x1b[1;2A",
        "\x1b[1;2;3H",
        "\x1b[3i",
        "\x1b[1s",
        "\x1b[?24h",
        "\x1b[=h",
        "\x1b[=256h",
        "\x1b[1z",
        "\x1b[12",
        "\x1b[",
        "\x1bA",
        "\x1b[?25",
        "\x1b[99999999999999999999999999m",
    ] {
        let mut iter = input.ansi_parse();
        assert_eq!(
            iter.next(),
            Some(Text::new("\x1b", AnsiEscapeSequence::Escape)),
            "{:?}",
            input
        );
        if input.len() > 1 {
            assert_eq!(
                iter.next(),
                Some(Text::new(&input[1..], AnsiEscapeSequence::Chars)),
                "{:?}",
                input
            );
        }
        assert_eq!(iter.next(), None);
        assert!(iter.is_done());
    }
}

#[test]
fn tokens_of_a_string_value() {
    let owned = String::from("a\x1b[0mあ");
    let mut iter = owned.ansi_parse();
    assert_eq!(iter.next(), Some(Text::new("a", AnsiEscapeSequence::Chars)));
    assert_eq!(
        iter.next(),
        Some(Text::new("\x1b[0m", AnsiEscapeSequence::SelectGraphicRendition(vec![0])))
    );
    assert_eq!(iter.next(), Some(Text::new("あ", AnsiEscapeSequence::Chars)));
    assert_eq!(iter.next(), None);
    assert_eq!(iter.next(), None);
}

#[test]
fn parse_gives_kind_and_length() {
    assert_eq!(
        kubetui::ansi::parse("\x1b[1;33mrest"),
        Some((AnsiEscapeSequence::SelectGraphicRendition(vec![1, 33]), 7))
    );
    assert_eq!(kubetui::ansi::parse("rest"), None);
    assert_eq!(kubetui::ansi::parse(""), None);
}
