//! Characters and strings: what the buffers of the entry lines are made of.

use vstd::prelude::*;
use vstd::string::*;

verus! {

/// `String::push` appends the character to the end of the string.
pub assume_specification[ String::push ](s: &mut String, c: char)
    ensures
        final(s)@ == old(s)@.push(c),
;

/// `String::pop` takes the last character off the string and returns it;
/// from an empty string it takes nothing and returns `None`.
pub assume_specification[ String::pop ](s: &mut String) -> (r: Option<char>)
    ensures
        match r {
            Some(c) => old(s)@.len() > 0 && c == old(s)@.last() && final(s)@ == old(s)@.drop_last(),
            None => old(s)@.len() == 0 && final(s)@ == old(s)@,
        },
;

/// The characters of a string, one by one.
pub fn chars_of(s: &str) -> (v: Vec<char>)
    ensures
        v@ == s@,
{
    let n = s.unicode_len();
    let mut v: Vec<char> = Vec::new();
    let mut i: usize = 0;
    while i < n
        invariant
            i <= n,
            n == s@.len(),
            v@ == s@.subrange(0, i as int),
        decreases n - i,
    {
        v.push(s.get_char(i));
        i = i + 1;
        assert(v@ =~= s@.subrange(0, i as int));
    }
    assert(v@ =~= s@);
    v
}

/// `t` is the one character `a`.
pub open spec fn is1(t: Seq<char>, a: char) -> bool {
    t.len() == 1 && t[0] == a
}

/// `t` is the two characters `a`, `b`.
pub open spec fn is2(t: Seq<char>, a: char, b: char) -> bool {
    t.len() == 2 && t[0] == a && t[1] == b
}

/// A visible character of ASCII: a letter, a digit or a punctuation mark.
pub open spec fn is_graphic(c: char) -> bool {
    '!' <= c && c <= '~'
}

/// Whether `c` is a letter, a digit or a punctuation mark of ASCII.
pub fn graphic(c: char) -> (r: bool)
    ensures
        r == is_graphic(c),
{
    '!' <= c && c <= '~'
}

/// The digit that stands for `d`, a number below ten.
pub open spec fn digit_text(d: nat) -> Seq<char> {
    if d == 0 {
        seq!['0']
    } else if d == 1 {
        seq!['1']
    } else if d == 2 {
        seq!['2']
    } else if d == 3 {
        seq!['3']
    } else if d == 4 {
        seq!['4']
    } else if d == 5 {
        seq!['5']
    } else if d == 6 {
        seq!['6']
    } else if d == 7 {
        seq!['7']
    } else if d == 8 {
        seq!['8']
    } else {
        seq!['9']
    }
}

/// A number written in decimal digits.
pub open spec fn decimal_text(n: nat) -> Seq<char>
    decreases n,
{
    if n < 10 {
        digit_text(n)
    } else {
        decimal_text(n / 10) + digit_text(n % 10)
    }
}

fn digit(d: usize) -> (s: &'static str)
    requires
        d < 10,
    ensures
        s@ == digit_text(d as nat),
{
    proof {
        reveal_strlit("0");
        reveal_strlit("1");
        reveal_strlit("2");
        reveal_strlit("3");
        reveal_strlit("4");
        reveal_strlit("5");
        reveal_strlit("6");
        reveal_strlit("7");
        reveal_strlit("8");
        reveal_strlit("9");
    }
    let s = if d == 0 {
        "0"
    } else if d == 1 {
        "1"
    } else if d == 2 {
        "2"
    } else if d == 3 {
        "3"
    } else if d == 4 {
        "4"
    } else if d == 5 {
        "5"
    } else if d == 6 {
        "6"
    } else if d == 7 {
        "7"
    } else if d == 8 {
        "8"
    } else {
        "9"
    };
    assert(s@ =~= digit_text(d as nat));
    s
}

/// Writes a number in decimal digits.
pub fn decimal(n: usize) -> (s: String)
    ensures
        s@ == decimal_text(n as nat),
    decreases n,
{
    if n < 10 {
        String::from_str(digit(n))
    } else {
        let mut s = decimal(n / 10);
        s.append(digit(n % 10));
        s
    }
}

} // verus!
