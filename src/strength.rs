//! Heuristic strength rating of a password.

use vstd::prelude::*;

verus! {

/// True for the nine symbol characters `!#$%&()*+` that generated
/// passwords draw their symbols from.
pub open spec fn is_symbol_char(c: char) -> bool {
    c == '!' || c == '#' || c == '$' || c == '%' || c == '&' || c == '(' || c == ')' || c == '*'
        || c == '+'
}

/// ASCII lowercase letter.
pub open spec fn is_lower_char(c: char) -> bool {
    'a' <= c && c <= 'z'
}

/// ASCII uppercase letter.
pub open spec fn is_upper_char(c: char) -> bool {
    'A' <= c && c <= 'Z'
}

/// ASCII decimal digit.
pub open spec fn is_digit_char(c: char) -> bool {
    '0' <= c && c <= '9'
}

/// Length criterion: the password has at least ten characters.
pub open spec fn long_enough(s: Seq<char>) -> bool {
    s.len() >= 10
}

pub open spec fn has_upper(s: Seq<char>) -> bool {
    exists|i: int| 0 <= i < s.len() && is_upper_char(#[trigger] s[i])
}

pub open spec fn has_lower(s: Seq<char>) -> bool {
    exists|i: int| 0 <= i < s.len() && is_lower_char(#[trigger] s[i])
}

pub open spec fn has_digit(s: Seq<char>) -> bool {
    exists|i: int| 0 <= i < s.len() && is_digit_char(#[trigger] s[i])
}

pub open spec fn has_symbol(s: Seq<char>) -> bool {
    exists|i: int| 0 <= i < s.len() && is_symbol_char(#[trigger] s[i])
}

/// One for a met criterion, zero otherwise.
pub open spec fn count_of(b: bool) -> nat {
    if b {
        1
    } else {
        0
    }
}

/// How many of the five independent criteria the password meets.
pub open spec fn criteria_met(s: Seq<char>) -> nat {
    count_of(long_enough(s)) + count_of(has_upper(s)) + count_of(has_lower(s)) + count_of(
        has_digit(s),
    ) + count_of(has_symbol(s))
}

/// The four ranked strength ratings.
#[derive(Clone, Copy, Debug, PartialEq, Eq, Structural)]
pub enum Strength {
    Strong,
    Moderate,
    Weak,
    DoNotUse,
}

/// The rating for a number of met criteria: first match wins.
pub open spec fn strength_for(n: nat) -> Strength {
    if n == 5 {
        Strength::Strong
    } else if n >= 4 {
        Strength::Moderate
    } else if n >= 3 {
        Strength::Weak
    } else {
        Strength::DoNotUse
    }
}

/// The rating of a password.
pub open spec fn strength_of(s: Seq<char>) -> Strength {
    strength_for(criteria_met(s))
}

/// The text shown for each rating.
pub open spec fn label_of(st: Strength) -> Seq<char> {
    match st {
        Strength::Strong => "Strong"@,
        Strength::Moderate => "Moderate"@,
        Strength::Weak => "Weak"@,
        Strength::DoNotUse => "Do not use!!!!"@,
    }
}

impl Strength {
    /// The text shown for this rating.
    pub fn label(&self) -> (r: &'static str)
        ensures
            r@ == label_of(*self),
    {
        match self {
            Strength::Strong => "Strong",
            Strength::Moderate => "Moderate",
            Strength::Weak => "Weak",
            Strength::DoNotUse => "Do not use!!!!",
        }
    }
}

/// Whether `c` is one of the nine symbol characters.
pub fn is_symbol(c: char) -> (r: bool)
    ensures
        r == is_symbol_char(c),
{
    c == '!' || c == '#' || c == '$' || c == '%' || c == '&' || c == '(' || c == ')' || c == '*'
        || c == '+'
}

/// Rates a password by how many of the five criteria it meets.
pub fn score_strength(password: &str) -> (r: Strength)
    ensures
        r == strength_of(password@),
{
    let n = password.unicode_len();
    let mut upper = false;
    let mut lower = false;
    let mut digit = false;
    let mut symbol = false;
    let mut i: usize = 0;
    while i < n
        invariant
            n == password@.len(),
            i <= n,
            upper == exists|j: int| 0 <= j < i && is_upper_char(#[trigger] password@[j]),
            lower == exists|j: int| 0 <= j < i && is_lower_char(#[trigger] password@[j]),
            digit == exists|j: int| 0 <= j < i && is_digit_char(#[trigger] password@[j]),
            symbol == exists|j: int| 0 <= j < i && is_symbol_char(#[trigger] password@[j]),
        decreases n - i,
    {
        let c = password.get_char(i);
        if 'A' <= c && c <= 'Z' {
            upper = true;
        }
        if 'a' <= c && c <= 'z' {
            lower = true;
        }
        if '0' <= c && c <= '9' {
            digit = true;
        }
        if is_symbol(c) {
            symbol = true;
        }
        i = i + 1;
    }
    let long = n >= 10;
    let met: usize = (if long { 1usize } else { 0 }) + (if upper { 1usize } else { 0 }) + (if lower {
        1usize
    } else {
        0
    }) + (if digit { 1usize } else { 0 }) + (if symbol { 1usize } else { 0 });
    assert(long == long_enough(password@));
    assert(upper == has_upper(password@));
    assert(lower == has_lower(password@));
    assert(digit == has_digit(password@));
    assert(symbol == has_symbol(password@));
    assert(met == criteria_met(password@));
    if met == 5 {
        Strength::Strong
    } else if met >= 4 {
        Strength::Moderate
    } else if met >= 3 {
        Strength::Weak
    } else {
        Strength::DoNotUse
    }
}

/// The label of the password's strength rating.
pub fn check_password_strength(password: &str) -> (r: &'static str)
    ensures
        r@ == label_of(strength_of(password@)),
{
    score_strength(password).label()
}

} // verus!
