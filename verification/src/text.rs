//! Text as the interfaces carry it: comparison, decimal numbers and the
//! optional `0x` in front of hexadecimal data.

use vstd::prelude::*;
use vstd::string::StringExecFns;

verus! {

/// Whether two pieces of text are the same.
pub fn same_text(a: &str, b: &str) -> (eq: bool)
    ensures
        eq == (a@ == b@),
{
    let x = String::from_str(a);
    let y = String::from_str(b);
    x == y
}

/// The decimal digits of `n`, most significant first, without leading zeros.
pub open spec fn decimal_text(n: nat) -> Seq<char>
    decreases n,
{
    if n < 10 {
        seq![(48 + n) as u8 as char]
    } else {
        decimal_text(n / 10).push((48 + n % 10) as u8 as char)
    }
}

/// The text of one decimal digit.
fn digit(d: u64) -> (text: &'static str)
    requires
        d < 10,
    ensures
        text@ == seq![(48 + d) as u8 as char],
{
    proof {
        reveal_strlit("0");
        reveal_strlit("1");
        reveal_strlit("2");
        reveal_strlit("3");
        reveal_strlit("4");
        reveal_strlit("5");
        reveal_strlit("6");
        reveal_strlit("7");
        reveal_strlit("8");
        reveal_strlit("9");
    }
    let text = if d == 0 {
        "0"
    } else if d == 1 {
        "1"
    } else if d == 2 {
        "2"
    } else if d == 3 {
        "3"
    } else if d == 4 {
        "4"
    } else if d == 5 {
        "5"
    } else if d == 6 {
        "6"
    } else if d == 7 {
        "7"
    } else if d == 8 {
        "8"
    } else {
        "9"
    };
    assert(text@ =~= seq![(48 + d) as u8 as char]);
    text
}

/// Writes `n` in decimal.
pub fn decimal_string(n: u64) -> (text: String)
    ensures
        text@ == decimal_text(n as nat),
    decreases n,
{
    if n < 10 {
        String::from_str(digit(n))
    } else {
        let mut text = decimal_string(n / 10);
        text.append(digit(n % 10));
        text
    }
}

/// `s` without every `0x` that it starts with.
pub open spec fn without_0x(s: Seq<char>) -> Seq<char>
    decreases s.len(),
{
    if s.len() >= 2 && s[0] == '0' && s[1] == 'x' {
        without_0x(s.subrange(2, s.len() as int))
    } else {
        s
    }
}

/// Removes from the front of `s` every `0x` that it starts with.
pub fn strip_0x(s: &str) -> (rest: &str)
    ensures
        rest@ == without_0x(s@),
{
    let mut rest = s;
    let mut len = rest.unicode_len();
    while len >= 2 && rest.get_char(0) == '0' && rest.get_char(1) == 'x'
        invariant
            len == rest@.len(),
            without_0x(rest@) == without_0x(s@),
        decreases len,
    {
        rest = rest.substring_char(2, len);
        len = len - 2;
    }
    rest
}

/// `s` from the character at `start` on; nothing if `s` is shorter.
pub open spec fn rest_from(s: Seq<char>, start: int) -> Seq<char> {
    if 0 <= start <= s.len() {
        s.subrange(start, s.len() as int)
    } else {
        Seq::empty()
    }
}

} // verus!
