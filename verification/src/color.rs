//! Styles for the parts of a message that describes a failed expectation,
//! and their rendering for a terminal.

use std::io::Write;
use termcolor::WriteColor;
use vstd::prelude::*;

verus! {

/// A colour of the text.
#[derive(Clone, Copy, Debug, PartialEq, Eq, Structural)]
pub enum Color {
    Blue,
    Red,
    Green,
}

/// How a piece of text is set off.
#[derive(Clone, Copy, Debug, PartialEq, Eq, Structural)]
pub struct Style {
    pub fg: Option<Color>,
    pub bold: bool,
}

/// The styles of the three parts of a message: the description of what
/// was expected, the name of a value, and the expected value.
#[derive(Clone, Copy, Debug, PartialEq, Eq, Structural)]
pub struct Palette {
    pub description: Style,
    pub var: Style,
    pub expected: Style,
}

/// A piece of text with its style.
#[derive(Debug)]
pub struct Styled {
    display: String,
    style: Style,
}

/// The style that sets nothing off.
pub open spec fn plain_style() -> Style {
    Style { fg: None, bold: false }
}

/// The escape sequence that ends all styles.
pub open spec fn reset_code() -> Seq<char> {
    seq!['\u{1b}', '[', '0', 'm']
}

/// The escape sequence that makes text bold.
pub open spec fn bold_code() -> Seq<char> {
    seq!['\u{1b}', '[', '1', 'm']
}

/// The escape sequence that gives text a colour.
pub open spec fn color_code(color: Color) -> Seq<char> {
    seq![
        '\u{1b}',
        '[',
        '3',
        match color {
            Color::Blue => '4',
            Color::Red => '1',
            Color::Green => '2',
        },
        'm',
    ]
}

/// The text in the style, for a terminal that reads ANSI escape
/// sequences: all styles are ended, the style is set, the text follows,
/// and all styles are ended again.
pub open spec fn ansi(style: Style, text: Seq<char>) -> Seq<char> {
    reset_code() + if style.bold {
        bold_code()
    } else {
        Seq::empty()
    } + match style.fg {
        Some(color) => color_code(color),
        None => Seq::empty(),
    } + text + reset_code()
}

/// The text in the style, as escape sequences around the text.
///
/// Builds a `termcolor::ColorSpec` with the colour and the weight of the
/// style, and writes to a `termcolor::Buffer::ansi()` what `set_color`,
/// the text and `reset` put there. The claim is what the source of
/// `termcolor` shows for a specification that is otherwise the default
/// one: `ESC[0m`, then `ESC[1m` if bold, then `ESC[3Xm` for the colour,
/// then the text, then `ESC[0m`.
#[verifier::external_body]
fn render_ansi(style: &Style, text: &str) -> (r: String)
    ensures
        r@ == ansi(*style, text@),
{
    let fg = match style.fg {
        None => None,
        Some(Color::Blue) => Some(termcolor::Color::Blue),
        Some(Color::Red) => Some(termcolor::Color::Red),
        Some(Color::Green) => Some(termcolor::Color::Green),
    };
    let mut spec = termcolor::ColorSpec::new();
    spec.set_fg(fg).set_bold(style.bold);
    let mut buf = termcolor::Buffer::ansi();
    buf.set_color(&spec).unwrap();
    write!(&mut buf, "{}", text).unwrap();
    buf.reset().unwrap();
    String::from_utf8(buf.into_inner()).unwrap()
}

impl Palette {
    /// The palette of a message: with `alternate`, and if colours are
    /// available at all, the description is bold blue, the name of a value
    /// bold red and the expected value bold green; otherwise nothing is set
    /// off.
    pub fn new(alternate: bool, color: bool) -> (r: Self)
        ensures
            r == if alternate && color {
                Palette {
                    description: Style { fg: Some(Color::Blue), bold: true },
                    var: Style { fg: Some(Color::Red), bold: true },
                    expected: Style { fg: Some(Color::Green), bold: true },
                }
            } else {
                Palette {
                    description: plain_style(),
                    var: plain_style(),
                    expected: plain_style(),
                }
            },
    {
        if alternate && color {
            Palette {
                description: Style { fg: Some(Color::Blue), bold: true },
                var: Style { fg: Some(Color::Red), bold: true },
                expected: Style { fg: Some(Color::Green), bold: true },
            }
        } else {
            Self::plain()
        }
    }

    /// The palette that sets nothing off.
    pub fn plain() -> (r: Self)
        ensures
            r == (Palette {
                description: plain_style(),
                var: plain_style(),
                expected: plain_style(),
            }),
    {
        Palette {
            description: Style { fg: None, bold: false },
            var: Style { fg: None, bold: false },
            expected: Style { fg: None, bold: false },
        }
    }

    /// The text as a description.
    pub fn description(&self, display: String) -> (r: Styled)
        ensures
            r.text() == display@,
            r.style() == self.description,
    {
        Styled::new(display, self.description)
    }

    /// The text as the name of a value.
    pub fn var(&self, display: String) -> (r: Styled)
        ensures
            r.text() == display@,
            r.style() == self.var,
    {
        Styled::new(display, self.var)
    }

    /// The text as an expected value.
    pub fn expected(&self, display: String) -> (r: Styled)
        ensures
            r.text() == display@,
            r.style() == self.expected,
    {
        Styled::new(display, self.expected)
    }
}

impl Styled {
    /// The text.
    pub closed spec fn text(&self) -> Seq<char> {
        self.display@
    }

    /// The style.
    pub closed spec fn style(&self) -> Style {
        self.style
    }

    /// A piece of text with its style.
    pub fn new(display: String, style: Style) -> (r: Self)
        ensures
            r.text() == display@,
            r.style() == style,
    {
        Styled { display, style }
    }

    /// The text as it is written: in the alternate form with the escape
    /// sequences of its style around it, otherwise as it is.
    pub fn render(&self, alternate: bool) -> (r: String)
        ensures
            r@ == if alternate {
                ansi(self.style(), self.text())
            } else {
                self.text()
            },
    {
        if alternate {
            render_ansi(&self.style, self.display.as_str())
        } else {
            self.display.clone()
        }
    }
}

} // verus!
