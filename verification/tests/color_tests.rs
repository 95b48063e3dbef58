use trusty_ipc::color::{Color, Palette, Style, Styled};

#[test]
fn palette_sets_off_only_in_the_alternate_form_with_colours() {
    let plain = Palette::plain();
    assert_eq!(plain.description, Style { fg: None, bold: false });
    assert_eq!(plain.var, Style { fg: None, bold: false });
    assert_eq!(plain.expected, Style { fg: None, bold: false });
    assert_eq!(Palette::new(false, true), plain);
    assert_eq!(Palette::new(true, false), plain);
    assert_eq!(Palette::new(false, false), plain);
    let bright = Palette::new(true, true);
    assert_eq!(bright.description, Style { fg: Some(Color::Blue), bold: true });
    assert_eq!(bright.var, Style { fg: Some(Color::Red), bold: true });
    assert_eq!(bright.expected, Style { fg: Some(Color::Green), bold: true });
}

#[test]
fn styled_text_is_wrapped_in_escape_sequences() {
    let palette = Palette::new(true, true);
    assert_eq!(
        palette.description("x".to_string()).render(true),
        "\u{1b}[0m\u{1b}[1m\u{1b}[34mx\u{1b}[0m"
    );
    assert_eq!(palette.var("var".to_string()).render(true), "\u{1b}[0m\u{1b}[1m\u{1b}[31mvar\u{1b}[0m");
    assert_eq!(
        palette.expected("\u{e9}".to_string()).render(true),
        "\u{1b}[0m\u{1b}[1m\u{1b}[32m\u{e9}\u{1b}[0m"
    );
    assert_eq!(palette.expected("as it is".to_string()).render(false), "as it is");
}

#[test]
fn plain_style_still_ends_all_styles() {
    let styled = Styled::new("x".to_string(), Style { fg: None, bold: false });
    assert_eq!(styled.render(true), "\u{1b}[0mx\u{1b}[0m");
    assert_eq!(styled.render(false), "x");
    let bold = Styled::new("".to_string(), Style { fg: None, bold: true });
    assert_eq!(bold.render(true), "\u{1b}[0m\u{1b}[1m\u{1b}[0m");
    let green = Styled::new("g".to_string(), Style { fg: Some(Color::Green), bold: false });
    assert_eq!(green.render(true), "\u{1b}[0m\u{1b}[32mg\u{1b}[0m");
}
