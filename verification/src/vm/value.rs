//! The values the machine computes with, their equality and their text.

use vstd::prelude::*;

verus! {

/// A machine value: an integer, a boolean or a piece of text. The machine
/// never converts between the three.
#[derive(Debug)]
pub enum Value {
    Int(i32),
    Bool(bool),
    String(String),
}

/// The mathematical content of a [`Value`]: text is a sequence of characters.
pub enum ValueView {
    Int(i32),
    Bool(bool),
    String(Seq<char>),
}

impl View for Value {
    type V = ValueView;

    open spec fn view(&self) -> ValueView {
        match *self {
            Value::Int(i) => ValueView::Int(i),
            Value::Bool(b) => ValueView::Bool(b),
            Value::String(s) => ValueView::String(s@),
        }
    }
}

/// The character that writes the digit `d`, for `0 <= d <= 9`.
pub open spec fn digit_char(d: int) -> char {
    ('0' as int + d) as char
}

/// The decimal digits of `n`, most significant first, without leading zeros.
pub open spec fn decimal_digits(n: nat) -> Seq<char>
    decreases n,
{
    if n < 10 {
        seq![digit_char(n as int)]
    } else {
        decimal_digits(n / 10).push(digit_char((n % 10) as int))
    }
}

/// The decimal text of `i`: a minus sign for a negative number, then the
/// digits of its magnitude.
pub open spec fn decimal_text(i: int) -> Seq<char> {
    if i < 0 {
        seq!['-'] + decimal_digits((-i) as nat)
    } else {
        decimal_digits(i as nat)
    }
}

impl ValueView {
    /// The text that printing the value emits.
    pub open spec fn text(self) -> Seq<char> {
        match self {
            ValueView::Int(i) => decimal_text(i as int),
            ValueView::Bool(b) => if b {
                seq!['t', 'r', 'u', 'e']
            } else {
                seq!['f', 'a', 'l', 's', 'e']
            },
            ValueView::String(s) => s,
        }
    }
}

impl Clone for Value {
    fn clone(&self) -> (r: Self)
        ensures
            r == *self,
    {
        match self {
            Value::Int(i) => Value::Int(*i),
            Value::Bool(b) => Value::Bool(*b),
            Value::String(s) => Value::String(s.clone()),
        }
    }
}

impl PartialEq for Value {
    fn eq(&self, other: &Self) -> (r: bool) {
        match (self, other) {
            (Value::Int(a), Value::Int(b)) => *a == *b,
            (Value::Bool(a), Value::Bool(b)) => *a == *b,
            (Value::String(a), Value::String(b)) => *a == *b,
            _ => false,
        }
    }
}

/// Two values are equal when they are of the same variant and hold the same
/// content; values of different variants are never equal.
impl vstd::std_specs::cmp::PartialEqSpecImpl for Value {
    open spec fn obeys_eq_spec() -> bool {
        true
    }

    open spec fn eq_spec(&self, other: &Self) -> bool {
        self@ == other@
    }
}

/// Appends the decimal digits of `n` to `out`.
fn push_decimal_digits(out: &mut String, n: u32)
    ensures
        final(out)@ == old(out)@ + decimal_digits(n as nat),
    decreases n,
{
    if n >= 10 {
        push_decimal_digits(out, n / 10);
    }
    out.push((48u8 + (n % 10) as u8) as char);
}

impl Value {
    /// The text that printing the value emits: decimal for an integer, `true`
    /// or `false` for a boolean, the text itself for text.
    pub fn to_string(&self) -> (r: String)
        ensures
            r@ == self@.text(),
    {
        match self {
            Value::Int(i) => {
                let mut out = String::new();
                let magnitude: u32 = if *i < 0 {
                    out.push('-');
                    (-(*i as i64)) as u32
                } else {
                    *i as u32
                };
                push_decimal_digits(&mut out, magnitude);
                out
            },
            Value::Bool(b) => {
                proof {
                    reveal_strlit("true");
                    reveal_strlit("false");
                }
                if *b {
                    "true".to_owned()
                } else {
                    "false".to_owned()
                }
            },
            Value::String(s) => s.clone(),
        }
    }
}

} // verus!
