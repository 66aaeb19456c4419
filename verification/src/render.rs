//! The render description: what a tick asks the terminal to draw.

use vstd::prelude::*;
use vstd::string::*;

verus! {

/// The colors that the game draws with.
#[derive(Clone, Copy, Debug, PartialEq, Eq, Structural)]
pub enum Color {
    Yellow,
    Green,
    Brown,
    CornflowerBlue,
    MediumBlue,
    DarkBlue,
    MidnightBlue,
    SlateBlue,
}

/// One instruction for the terminal.
#[derive(Clone, Debug, PartialEq, Eq)]
pub enum DrawCommand {
    /// Clear the screen.
    Clear,
    /// Clear the screen and fill it with a background color.
    ClearBackground { color: Color },
    /// Draw one character at a grid cell.
    SetGlyph { column: i32, row: i32, foreground: Color, background: Color, glyph: char },
    /// Print a text starting at a grid cell.
    Print { column: i32, row: i32, text: String },
    /// Print a text centered in a row.
    PrintCentered { row: i32, text: String },
    /// Ask the terminal to end the program.
    RequestQuit,
}

/// The mathematical content of a `DrawCommand`.
pub enum DrawCommandView {
    Clear,
    ClearBackground { color: Color },
    SetGlyph { column: int, row: int, foreground: Color, background: Color, glyph: char },
    Print { column: int, row: int, text: Seq<char> },
    PrintCentered { row: int, text: Seq<char> },
    RequestQuit,
}

impl View for DrawCommand {
    type V = DrawCommandView;

    open spec fn view(&self) -> DrawCommandView {
        match *self {
            DrawCommand::Clear => DrawCommandView::Clear,
            DrawCommand::ClearBackground { color } => DrawCommandView::ClearBackground { color },
            DrawCommand::SetGlyph { column, row, foreground, background, glyph } => {
                DrawCommandView::SetGlyph {
                    column: column as int,
                    row: row as int,
                    foreground,
                    background,
                    glyph,
                }
            },
            DrawCommand::Print { column, row, text } => DrawCommandView::Print {
                column: column as int,
                row: row as int,
                text: text@,
            },
            DrawCommand::PrintCentered { row, text } => DrawCommandView::PrintCentered {
                row: row as int,
                text: text@,
            },
            DrawCommand::RequestQuit => DrawCommandView::RequestQuit,
        }
    }
}

/// The content of a list of draw commands, in order.
pub open spec fn frame_view(frame: Seq<DrawCommand>) -> Seq<DrawCommandView> {
    frame.map_values(|command: DrawCommand| command@)
}

/// The character of a decimal digit.
pub open spec fn digit_char(digit: nat) -> char {
    if digit == 0 {
        '0'
    } else if digit == 1 {
        '1'
    } else if digit == 2 {
        '2'
    } else if digit == 3 {
        '3'
    } else if digit == 4 {
        '4'
    } else if digit == 5 {
        '5'
    } else if digit == 6 {
        '6'
    } else if digit == 7 {
        '7'
    } else if digit == 8 {
        '8'
    } else {
        '9'
    }
}

/// The decimal numeral of `n`, without leading zeros.
pub open spec fn decimal_text(n: nat) -> Seq<char>
    decreases n,
{
    if n < 10 {
        seq![digit_char(n)]
    } else {
        decimal_text(n / 10).push(digit_char(n % 10))
    }
}

/// The one-character text of a decimal digit.
fn digit_text(digit: u64) -> (text: &'static str)
    requires
        digit < 10,
    ensures
        text@ == seq![digit_char(digit as nat)],
{
    proof {
        reveal_strlit("0");
        reveal_strlit("1");
        reveal_strlit("2");
        reveal_strlit("3");
        reveal_strlit("4");
        reveal_strlit("5");
        reveal_strlit("6");
        reveal_strlit("7");
        reveal_strlit("8");
        reveal_strlit("9");
    }
    let text = if digit == 0 {
        "0"
    } else if digit == 1 {
        "1"
    } else if digit == 2 {
        "2"
    } else if digit == 3 {
        "3"
    } else if digit == 4 {
        "4"
    } else if digit == 5 {
        "5"
    } else if digit == 6 {
        "6"
    } else if digit == 7 {
        "7"
    } else if digit == 8 {
        "8"
    } else {
        "9"
    };
    assert(text@ =~= seq![digit_char(digit as nat)]);
    text
}

/// Writes `n` as a decimal numeral.
pub fn decimal(n: u64) -> (text: String)
    ensures
        text@ == decimal_text(n as nat),
    decreases n,
{
    if n < 10 {
        String::from_str(digit_text(n))
    } else {
        let mut text = decimal(n / 10);
        text.append(digit_text(n % 10));
        assert(text@ =~= decimal_text((n / 10) as nat).push(digit_char((n % 10) as nat)));
        text
    }
}

/// A label followed by a number and a closing text, as one string.
pub fn labelled(label: &str, n: u64, closing: &str) -> (text: String)
    ensures
        text@ == label@ + decimal_text(n as nat) + closing@,
{
    let mut text = String::from_str(label);
    let number = decimal(n);
    text.append(number.as_str());
    text.append(closing);
    text
}

} // verus!
