//! The error reported when an input holds a token an algorithm does not know.
use vstd::prelude::*;

verus! {

#[derive(Debug, Clone, PartialEq, Eq)]
pub struct UnknownTokenError {
    pub token: String,
    /// 0-based position in the tokenized sequence.
    pub position: usize,
    /// Which input this occurred in (e.g. "x" or "y").
    pub input_name: &'static str,
    /// Human-readable context for where the token was expected.
    pub context: &'static str,
}

/// The decimal digit of a number below ten.
pub open spec fn digit_char(d: nat) -> char {
    ((d + 48) as u8) as char
}

/// The decimal representation of a number, without leading zeros.
pub open spec fn decimal(n: nat) -> Seq<char>
    decreases n,
{
    if n < 10 { seq![digit_char(n)] } else { decimal(n / 10).push(digit_char(n % 10)) }
}

/// Appends the decimal representation of `n`.
pub fn push_decimal(out: &mut Vec<char>, n: usize)
    ensures final(out)@ == old(out)@ + decimal(n as nat),
    decreases n,
{
    if n >= 10 {
        push_decimal(out, n / 10);
    }
    let d: u8 = (n % 10) as u8;
    out.push((d + 48) as char);
    proof {
        if n >= 10 {
            assert(decimal(n as nat) == decimal((n / 10) as nat).push(digit_char((n % 10) as nat)));
        }
    }
}

fn push_str(out: &mut Vec<char>, s: &str)
    ensures final(out)@ == old(out)@ + s@,
{
    let mut i: usize = 0;
    let cs = crate::text::chars_of(s);
    let ghost start = out@;
    while i < cs.len()
        invariant
            i <= cs.len(),
            cs@ == s@,
            out@ == start + cs@.take(i as int),
        decreases cs.len() - i,
    {
        out.push(cs[i]);
        assert(cs@.take(i as int + 1) =~= cs@.take(i as int).push(cs@[i as int]));
        i += 1;
    }
    assert(cs@.take(cs.len() as int) =~= cs@);
}

impl UnknownTokenError {
    /// The text of the error message.
    pub open spec fn message_spec(&self) -> Seq<char> {
        "Unknown token '"@ + self.token@ + "' at position "@ + decimal(self.position as nat) + " in "@
            + self.input_name@ + " (not found in "@ + self.context@ + ")"@
    }

    /// The error message: which token, where, and where it was looked up.
    pub fn message(&self) -> (r: String)
        ensures r@ == self.message_spec(),
    {
        let mut out: Vec<char> = Vec::new();
        push_str(&mut out, "Unknown token '");
        push_str(&mut out, self.token.as_str());
        push_str(&mut out, "' at position ");
        push_decimal(&mut out, self.position);
        push_str(&mut out, " in ");
        push_str(&mut out, self.input_name);
        push_str(&mut out, " (not found in ");
        push_str(&mut out, self.context);
        push_str(&mut out, ")");
        crate::text::string_from_chars(&out)
    }
}

} // verus!
