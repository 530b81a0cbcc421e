use vstd::prelude::*;
use crate::token::Token;

verus! {

/// Whether an error was found before execution (scanning or parsing) or
/// while evaluating.
#[derive(Clone, Copy, PartialEq, Eq, Structural, Debug)]
pub enum ErrorKind {
    Static,
    Runtime,
}

/// A reported error: the 1-based source line it is anchored at, its
/// message, and whether it is static or runtime.
#[derive(Clone, Debug)]
pub struct LoxError {
    pub line: usize,
    pub message: String,
    pub kind: ErrorKind,
}

/// Ghost image of a `LoxError`.
pub ghost struct ErrorView {
    pub line: nat,
    pub message: Seq<char>,
    pub kind: ErrorKind,
}

impl View for LoxError {
    type V = ErrorView;

    open spec fn view(&self) -> ErrorView {
        ErrorView { line: self.line as nat, message: self.message@, kind: self.kind }
    }
}

/// The decimal digits of `n`, most significant first.
pub open spec fn spec_decimal(n: nat) -> Seq<char>
    decreases n,
{
    let digit = seq![spec_digit_char((n % 10) as nat)];
    if n < 10 {
        digit
    } else {
        spec_decimal((n / 10) as nat) + digit
    }
}

/// The character for one decimal digit.
pub open spec fn spec_digit_char(d: nat) -> char {
    if d == 0 {
        '0'
    } else if d == 1 {
        '1'
    } else if d == 2 {
        '2'
    } else if d == 3 {
        '3'
    } else if d == 4 {
        '4'
    } else if d == 5 {
        '5'
    } else if d == 6 {
        '6'
    } else if d == 7 {
        '7'
    } else if d == 8 {
        '8'
    } else {
        '9'
    }
}

fn digit_str(d: usize) -> (s: &'static str)
    requires
        d < 10,
    ensures
        s@ == seq![spec_digit_char(d as nat)],
{
    proof {
        reveal_strlit("0");
        reveal_strlit("1");
        reveal_strlit("2");
        reveal_strlit("3");
        reveal_strlit("4");
        reveal_strlit("5");
        reveal_strlit("6");
        reveal_strlit("7");
        reveal_strlit("8");
        reveal_strlit("9");
    }
    let s = match d {
        0 => "0",
        1 => "1",
        2 => "2",
        3 => "3",
        4 => "4",
        5 => "5",
        6 => "6",
        7 => "7",
        8 => "8",
        _ => "9",
    };
    proof {
        assert(s@ =~= seq![spec_digit_char(d as nat)]);
    }
    s
}

/// Renders `n` in decimal.
pub fn decimal_text(n: usize) -> (s: String)
    ensures
        s@ == spec_decimal(n as nat),
    decreases n,
{
    if n < 10 {
        let mut s = String::new();
        s.append(digit_str(n));
        proof {
            assert(s@ =~= spec_decimal(n as nat));
        }
        s
    } else {
        let mut s = decimal_text(n / 10);
        s.append(digit_str(n % 10));
        proof {
            assert(s@ =~= spec_decimal(n as nat));
        }
        s
    }
}

/// The rendered form of an error, as it is written to the error channel:
/// `[line N] Error: message`, with runtime errors additionally marked.
pub open spec fn spec_error_text(e: ErrorView) -> Seq<char> {
    match e.kind {
        ErrorKind::Static => "[line "@ + spec_decimal(e.line) + "] Error: "@ + e.message,
        ErrorKind::Runtime => "[line "@ + spec_decimal(e.line) + "] Runtime Error: "@ + e.message,
    }
}

impl LoxError {
    /// A static (scan- or parse-time) error.
    pub fn new(line: usize, message: String) -> (e: LoxError)
        ensures
            e@ == (ErrorView { line: line as nat, message: message@, kind: ErrorKind::Static }),
    {
        LoxError { line, message, kind: ErrorKind::Static }
    }

    /// A runtime error anchored at the line of the token it originated from.
    pub fn runtime(token: Token, message: String) -> (e: LoxError)
        ensures
            e@ == (ErrorView { line: token@.line, message: message@, kind: ErrorKind::Runtime }),
    {
        LoxError { line: token.line, message, kind: ErrorKind::Runtime }
    }

    /// The text form of this error, `[line N] Error: message`, with
    /// runtime errors additionally marked as such.
    pub fn display_text(&self) -> (s: String)
        ensures
            s@ == spec_error_text(self@),
    {
        let mut s = String::new();
        s.append("[line ");
        let line = decimal_text(self.line);
        s.append(line.as_str());
        match self.kind {
            ErrorKind::Static => {
                s.append("] Error: ");
            },
            ErrorKind::Runtime => {
                s.append("] Runtime Error: ");
            },
        }
        s.append(self.message.as_str());
        s
    }
}

} // verus!
