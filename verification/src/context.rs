//! Error messages: where something failed, and why.
use vstd::prelude::*;
use vstd::string::*;

verus! {

/// The message of failure `e` in the context `text`.
pub open spec fn in_context(text: Seq<char>, e: Seq<char>) -> Seq<char> {
    text + ": "@ + e
}

/// Whether `r` is the success of `from`, or its failure in the context `text`.
pub open spec fn contextual<T>(
    from: Result<T, Seq<char>>,
    text: Seq<char>,
    r: Result<T, String>,
) -> bool {
    match from {
        Ok(v) => r == Ok::<T, String>(v),
        Err(e) => r matches Err(s) && s@ == in_context(text, e),
    }
}

/// Results whose error can be put in context.
pub trait Errorize<T>: Sized {
    /// The result, with the text of its error.
    spec fn told(self) -> Result<T, Seq<char>>;

    /// The result, with `text` put before the text of its error.
    fn context(self, text: &str) -> (r: Result<T, String>)
        ensures
            contextual(self.told(), text@, r),
    ;
}

fn message(text: &str, e: &str) -> (r: String)
    ensures
        r@ == in_context(text@, e@),
{
    let mut out = text.to_owned();
    out.append(": ");
    out.append(e);
    out
}

impl<T> Errorize<T> for Result<T, &str> {
    open spec fn told(self) -> Result<T, Seq<char>> {
        match self {
            Ok(v) => Ok(v),
            Err(e) => Err(e@),
        }
    }

    fn context(self, text: &str) -> (r: Result<T, String>) {
        match self {
            Ok(v) => Ok(v),
            Err(e) => Err(message(text, e)),
        }
    }
}

impl<T> Errorize<T> for Result<T, String> {
    open spec fn told(self) -> Result<T, Seq<char>> {
        match self {
            Ok(v) => Ok(v),
            Err(e) => Err(e@),
        }
    }

    fn context(self, text: &str) -> (r: Result<T, String>) {
        match self {
            Ok(v) => Ok(v),
            Err(e) => Err(message(text, e.as_str())),
        }
    }
}

// ---------------------------------------------------------------------------
// Numbers in messages
// ---------------------------------------------------------------------------

/// The character of a decimal digit.
pub open spec fn digit(d: nat) -> char {
    (48 + d) as char
}

/// `n` in decimal, without leading zeros.
pub open spec fn decimal(n: nat) -> Seq<char>
    decreases n,
{
    if n < 10 {
        seq![digit(n)]
    } else {
        decimal(n / 10).push(digit(n % 10))
    }
}

fn digit_text(d: u32) -> (r: &'static str)
    requires
        d < 10,
    ensures
        r@ == seq![digit(d as nat)],
{
    let r = match d {
        0 => "0",
        1 => "1",
        2 => "2",
        3 => "3",
        4 => "4",
        5 => "5",
        6 => "6",
        7 => "7",
        8 => "8",
        _ => "9",
    };
    proof {
        reveal_strlit("0");
        reveal_strlit("1");
        reveal_strlit("2");
        reveal_strlit("3");
        reveal_strlit("4");
        reveal_strlit("5");
        reveal_strlit("6");
        reveal_strlit("7");
        reveal_strlit("8");
        reveal_strlit("9");
    }
    assert(r@ =~= seq![digit(d as nat)]);
    r
}

/// `n` in decimal, without leading zeros.
pub fn decimal_text(n: u32) -> (r: String)
    ensures
        r@ == decimal(n as nat),
    decreases n,
{
    if n < 10 {
        digit_text(n).to_owned()
    } else {
        let mut out = decimal_text(n / 10);
        out.append(digit_text(n % 10));
        assert(out@ =~= decimal(n as nat));
        out
    }
}

} // verus!
