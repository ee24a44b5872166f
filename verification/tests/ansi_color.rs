use kubetui::ansi_color::{ansi_to_style, apply_sgr, color_3_4bit, Sgr};
use kubetui::style::{Color, Modifier, Style};

#[test]
fn color_3_4bit_fg() {
    assert_eq!(
        color_3_4bit(Style::default(), 35),
        Style::default().fg(Color::Magenta)
    );
}

#[test]
fn color_3_4bit_fg_bright() {
    assert_eq!(
        color_3_4bit(Style::default(), 95),
        Style::default().fg(Color::LightMagenta)
    );
}

#[test]
fn color_3_4bit_bg() {
    assert_eq!(
        color_3_4bit(Style::default(), 45),
        Style::default().bg(Color::Magenta)
    );
}

#[test]
fn color_3_4bit_bg_bright() {
    assert_eq!(
        color_3_4bit(Style::default(), 105),
        Style::default().bg(Color::LightMagenta)
    );
}

#[test]
fn color_3_4bit_bold() {
    assert_eq!(
        color_3_4bit(Style::default(), 1),
        Style::default().add_modifier(Modifier::Bold)
    );
}

#[test]
fn ansi_to_style_color_3_4bit_default() {
    assert_eq!(ansi_to_style(vec![0]), Style::default());
}

#[test]
fn ansi_to_style_color_8bit_fg() {
    assert_eq!(
        ansi_to_style(vec![38, 5, 100]),
        Style::default().fg(Color::Indexed(100))
    );
}

#[test]
fn ansi_to_style_color_8bit_bg() {
    assert_eq!(
        ansi_to_style(vec![48, 5, 100]),
        Style::default().bg(Color::Indexed(100))
    );
}

#[test]
fn ansi_to_style_color_8bit_fg_bold() {
    assert_eq!(
        ansi_to_style(vec![1, 38, 5, 100]),
        Style::default()
            .fg(Color::Indexed(100))
            .add_modifier(Modifier::Bold)
    );
    assert_eq!(
        ansi_to_style(vec![38, 5, 100, 1]),
        Style::default()
            .fg(Color::Indexed(100))
            .add_modifier(Modifier::Bold)
    );
}

#[test]
fn ansi_to_style_color_24bit_fg() {
    assert_eq!(
        ansi_to_style(vec![38, 2, 10, 10, 10]),
        Style::default().fg(Color::Rgb(10, 10, 10))
    );
}

#[test]
fn ansi_to_style_color_24bit_bg() {
    assert_eq!(
        ansi_to_style(vec![48, 2, 10, 10, 10]),
        Style::default().bg(Color::Rgb(10, 10, 10))
    );
}

#[test]
fn ansi_to_style_color_24bit_bold() {
    assert_eq!(
        ansi_to_style(vec![1, 38, 2, 10, 10, 10]),
        Style::default()
            .fg(Color::Rgb(10, 10, 10))
            .add_modifier(Modifier::Bold)
    );
    assert_eq!(
        ansi_to_style(vec![38, 2, 10, 10, 10, 1]),
        Style::default()
            .fg(Color::Rgb(10, 10, 10))
            .add_modifier(Modifier::Bold)
    );
}

#[test]
fn color_3_4bit_panic() {
    assert_eq!(color_3_4bit(Style::default(), 108), Style::default())
}

#[test]
fn sgr_fold_in_one_go_and_in_parts() {
    let whole = ansi_to_style(vec![1, 38, 5, 100]);
    let parts = apply_sgr(apply_sgr(Style::default(), &vec![1]), &vec![38, 5, 100]);
    assert_eq!(whole, parts);
    assert_eq!(
        whole,
        Style::default()
            .add_modifier(Modifier::Bold)
            .fg(Color::Indexed(100))
    );
}

#[test]
fn sgr_reset_after_any_style() {
    let styled = ansi_to_style(vec![1, 3, 4, 31, 48, 2, 1, 2, 3]);
    assert_ne!(styled, Style::default());
    assert_eq!(apply_sgr(styled, &vec![0]), Style::default());
}

#[test]
fn sgr_clears_only_what_a_code_names() {
    let styled = ansi_to_style(vec![1, 2, 3, 4, 5, 6, 7, 8, 9, 31, 41]);
    assert_eq!(apply_sgr(styled, &vec![39]).fg, Color::Reset);
    assert_eq!(apply_sgr(styled, &vec![39]).bg, Color::Red);
    assert_eq!(apply_sgr(styled, &vec![49]).bg, Color::Reset);
    assert_eq!(apply_sgr(styled, &vec![49]).fg, Color::Red);
    let plain = apply_sgr(styled, &vec![22, 23, 24, 25, 27, 29]);
    assert!(!plain.bold && !plain.dim && !plain.italic && !plain.underlined);
    assert!(!plain.slow_blink && !plain.rapid_blink && !plain.reversed && !plain.crossed_out);
    assert!(plain.hidden);
}

#[test]
fn sgr_unknown_code_changes_nothing() {
    let styled = ansi_to_style(vec![1, 33]);
    for code in [10u8, 20, 21, 26, 28, 50, 60, 98, 108, 200, 255] {
        assert_eq!(apply_sgr(styled, &vec![code]), styled);
    }
}

#[test]
fn sgr_missing_components_count_as_zero() {
    assert_eq!(
        ansi_to_style(vec![38, 2, 7]),
        Style::default().fg(Color::Rgb(7, 0, 0))
    );
    assert_eq!(
        ansi_to_style(vec![48, 5]),
        Style::default().bg(Color::Indexed(0))
    );
    assert_eq!(ansi_to_style(vec![38]), Style::default());
    assert_eq!(ansi_to_style(vec![38, 9, 1]), Style::default().add_modifier(Modifier::Bold));
}

#[test]
fn sgr_into_style() {
    let style: Style = Sgr::new(vec![4, 92]).into();
    assert_eq!(
        style,
        Style::default()
            .add_modifier(Modifier::Underlined)
            .fg(Color::LightGreen)
    );
    assert_eq!(Sgr::from(vec![4, 92]).style(), style);
}
