//! Failures of classification and of parsing, each tied to a file and a line.
use vstd::prelude::*;

verus! {

#[derive(Debug)]
pub enum Error {
    /// A failure that belongs to no file position, such as a line that fits no pattern.
    Misc(String),
    /// File name, line number (from 1) and a description of what was expected.
    ParseError(String, usize, String),
    /// A line source failed; the text is its own description.
    IO(String),
}

pub ghost enum ErrorV {
    Misc(Seq<char>),
    Parse(Seq<char>, nat, Seq<char>),
    IO(Seq<char>),
}

impl View for Error {
    type V = ErrorV;

    open spec fn view(&self) -> ErrorV {
        match self {
            Error::Misc(m) => ErrorV::Misc(m@),
            Error::ParseError(f, n, m) => ErrorV::Parse(f@, *n as nat, m@),
            Error::IO(m) => ErrorV::IO(m@),
        }
    }
}

impl Error {
    pub fn from_str(msg: &str) -> (r: Error)
        ensures
            r@ == ErrorV::Misc(msg@),
    {
        Error::Misc(msg.to_owned())
    }

    pub fn parse_error(filename: &str, lineno: usize, msg: &str) -> (r: Error)
        ensures
            r@ == ErrorV::Parse(filename@, lineno as nat, msg@),
    {
        Error::ParseError(filename.to_owned(), lineno, msg.to_owned())
    }
}

pub open spec fn digit(d: nat) -> char {
    if d == 0 {
        '0'
    } else if d == 1 {
        '1'
    } else if d == 2 {
        '2'
    } else if d == 3 {
        '3'
    } else if d == 4 {
        '4'
    } else if d == 5 {
        '5'
    } else if d == 6 {
        '6'
    } else if d == 7 {
        '7'
    } else if d == 8 {
        '8'
    } else {
        '9'
    }
}

/// The decimal digits of `n`, most significant first.
pub open spec fn decimal(n: nat) -> Seq<char>
    decreases n,
{
    if n < 10 {
        seq![digit(n)]
    } else {
        decimal(n / 10) + seq![digit(n % 10)]
    }
}

/// The text a user sees for an error.
pub open spec fn message_of(e: ErrorV) -> Seq<char> {
    match e {
        ErrorV::Misc(m) => "Misc error: "@ + m,
        ErrorV::Parse(f, n, m) => f + ": "@ + decimal(n) + ": parse error: "@ + m,
        ErrorV::IO(m) => m,
    }
}

fn digit_str(d: usize) -> (r: &'static str)
    requires
        d < 10,
    ensures
        r@ == seq![digit(d as nat)],
{
    proof {
        reveal_strlit("0");
        reveal_strlit("1");
        reveal_strlit("2");
        reveal_strlit("3");
        reveal_strlit("4");
        reveal_strlit("5");
        reveal_strlit("6");
        reveal_strlit("7");
        reveal_strlit("8");
        reveal_strlit("9");
    }
    let r = if d == 0 {
        "0"
    } else if d == 1 {
        "1"
    } else if d == 2 {
        "2"
    } else if d == 3 {
        "3"
    } else if d == 4 {
        "4"
    } else if d == 5 {
        "5"
    } else if d == 6 {
        "6"
    } else if d == 7 {
        "7"
    } else if d == 8 {
        "8"
    } else {
        "9"
    };
    assert(r@ =~= seq![digit(d as nat)]);
    r
}

fn decimal_exec(n: usize) -> (r: String)
    ensures
        r@ == decimal(n as nat),
    decreases n,
{
    if n < 10 {
        digit_str(n).to_owned()
    } else {
        let mut s = decimal_exec(n / 10);
        s.append(digit_str(n % 10));
        s
    }
}

impl Error {
    /// The text a user sees: `file: line: parse error: what`, for example.
    pub fn message(&self) -> (r: String)
        ensures
            r@ == message_of(self@),
    {
        match self {
            Error::Misc(m) => {
                let mut s = "Misc error: ".to_owned();
                s.append(m.as_str());
                s
            },
            Error::ParseError(f, n, m) => {
                let mut s = f.clone();
                s.append(": ");
                s.append(decimal_exec(*n).as_str());
                s.append(": parse error: ");
                s.append(m.as_str());
                s
            },
            Error::IO(m) => m.clone(),
        }
    }
}

} // verus!
