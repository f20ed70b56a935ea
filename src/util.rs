use vstd::prelude::*;

use std::convert::Infallible;

use crate::outside::{ascii_string, choose_byte, sample_byte_range};

verus! {

/// Length of a generated display name.
pub const NAME_LENGTH: usize = 9;

/// Distinct letters a generated name is made of.
pub const NAME_LETTERS: usize = 4;

/// Takes the value out of a `Result` that cannot be an error.
pub fn unwrap_infallible<T>(result: Result<T, Infallible>) -> (r: T)
    ensures
        result is Ok ==> r == result->Ok_0,
{
    match result {
        Ok(value) => value,
    }
}

/// Whether a name is of the generated shape: nine upper-case ASCII letters.
pub open spec fn is_generated_name(s: Seq<char>) -> bool {
    s.len() == NAME_LENGTH && forall|i: int| 0 <= i < s.len() ==> 'A' <= #[trigger] s[i] <= 'Z'
}

/// Whether `b` is an upper-case ASCII letter.
pub open spec fn is_upper(b: u8) -> bool {
    65 <= b <= 90
}

/// The display name spelled by `picks`: given when there are nine picks,
/// every letter is upper-case and every pick is one of the letters.
pub fn spell_name(letters: &Vec<u8>, picks: &Vec<u8>) -> (r: Option<String>)
    ensures
        r is Some <==> picks@.len() == NAME_LENGTH && (forall|i: int|
            0 <= i < letters@.len() ==> is_upper(#[trigger] letters@[i])) && (forall|i: int|
            0 <= i < picks@.len() ==> letters@.contains(#[trigger] picks@[i])),
        r is Some ==> r->0@ == Seq::new(picks@.len(), |i: int| picks@[i] as char),
{
    if picks.len() != NAME_LENGTH {
        return None;
    }
    let mut i: usize = 0;
    while i < letters.len()
        invariant
            i <= letters@.len(),
            forall|k: int| 0 <= k < i ==> is_upper(#[trigger] letters@[k]),
        decreases letters@.len() - i,
    {
        if !(65 <= letters[i] && letters[i] <= 90) {
            return None;
        }
        i = i + 1;
    }
    let mut bytes: Vec<u8> = Vec::new();
    let mut j: usize = 0;
    while j < picks.len()
        invariant
            j <= picks@.len(),
            forall|k: int| 0 <= k < letters@.len() ==> is_upper(#[trigger] letters@[k]),
            forall|k: int| 0 <= k < j ==> letters@.contains(#[trigger] picks@[k]),
            bytes@ == picks@.take(j as int),
        decreases picks@.len() - j,
    {
        let mut found = false;
        let mut k: usize = 0;
        while k < letters.len()
            invariant
                k <= letters@.len(),
                j < picks@.len(),
                found <==> exists|m: int| 0 <= m < k && letters@[m] == picks@[j as int],
            decreases letters@.len() - k,
        {
            if letters[k] == picks[j] {
                found = true;
            }
            k = k + 1;
        }
        if !found {
            assert(!letters@.contains(picks@[j as int]));
            return None;
        }
        bytes.push(picks[j]);
        j = j + 1;
        assert(bytes@ =~= picks@.take(j as int));
    }
    assert(bytes@ =~= picks@);
    assert forall|k: int| 0 <= k < bytes@.len() implies #[trigger] bytes@[k] < 128 by {
        assert(letters@.contains(picks@[k]));
        let m = choose|m: int| 0 <= m < letters@.len() && letters@[m] == picks@[k];
        assert(is_upper(letters@[m]));
    }
    Some(ascii_string(bytes))
}

/// A random display name: four letters are drawn, and each of the nine
/// characters is one of them.
pub fn generate_name() -> (r: String)
    ensures
        is_generated_name(r@),
        exists|letters: Seq<char>|
            letters.len() <= NAME_LETTERS && forall|i: int|
                0 <= i < r@.len() ==> letters.contains(#[trigger] r@[i]),
{
    let letters = sample_byte_range(65, 90, NAME_LETTERS);
    let mut picks: Vec<u8> = Vec::new();
    while picks.len() < NAME_LENGTH
        invariant
            picks@.len() <= NAME_LENGTH,
            letters@.len() == NAME_LETTERS,
            forall|i: int| 0 <= i < picks@.len() ==> letters@.contains(#[trigger] picks@[i]),
        decreases NAME_LENGTH - picks@.len(),
    {
        let letter = match choose_byte(letters.as_slice()) {
            Some(b) => b,
            None => 65u8,
        };
        let ghost before = picks@;
        picks.push(letter);
        assert(picks@ == before.push(letter));
    }
    assert forall|i: int| 0 <= i < letters@.len() implies is_upper(#[trigger] letters@[i]) by {}
    let name = match spell_name(&letters, &picks) {
        Some(name) => name,
        None => String::new(),
    };
    assert forall|i: int| 0 <= i < name@.len() implies 'A' <= #[trigger] name@[i] <= 'Z' by {
        let m = choose|m: int| 0 <= m < letters@.len() && letters@[m] == picks@[i];
        assert(is_upper(letters@[m]));
    }
    let ghost chars = letters@.map_values(|b: u8| b as char);
    assert forall|i: int| 0 <= i < name@.len() implies chars.contains(#[trigger] name@[i]) by {
        let j = choose|j: int| 0 <= j < letters@.len() && letters@[j] == picks@[i];
        assert(chars[j] == name@[i]);
    }
    assert(chars.len() <= NAME_LETTERS);
    name
}

/// The arrow that a log line shows for the direction of a message.
#[derive(Clone, Copy, Debug, PartialEq, Eq, Structural)]
pub enum DirectionArrow {
    RTL,
    LTR,
    ErrorLTR,
    ErrorRTL,
    NoConnection,
    Redirect,
}

impl DirectionArrow {
    pub open spec fn spec_str(self) -> Seq<char> {
        match self {
            DirectionArrow::RTL => "<-"@,
            DirectionArrow::LTR => "->"@,
            DirectionArrow::ErrorLTR => "-x"@,
            DirectionArrow::ErrorRTL => "x-"@,
            DirectionArrow::NoConnection => "--"@,
            DirectionArrow::Redirect => "-v"@,
        }
    }

    /// The two characters of the arrow.
    pub fn as_str(&self) -> (r: &'static str)
        ensures
            r@ == self.spec_str(),
    {
        match self {
            DirectionArrow::RTL => "<-",
            DirectionArrow::LTR => "->",
            DirectionArrow::ErrorLTR => "-x",
            DirectionArrow::ErrorRTL => "x-",
            DirectionArrow::NoConnection => "--",
            DirectionArrow::Redirect => "-v",
        }
    }

    /// The arrow for an HTTP response of status `code`: server errors point
    /// back, client errors forward, redirects down, the rest forward.
    pub fn from_status_code(code: u16) -> (r: Self)
        ensures
            code >= 500 ==> r == DirectionArrow::ErrorRTL,
            400 <= code < 500 ==> r == DirectionArrow::ErrorLTR,
            300 <= code < 400 ==> r == DirectionArrow::Redirect,
            code < 300 ==> r == DirectionArrow::LTR,
    {
        if code >= 500 {
            DirectionArrow::ErrorRTL
        } else if code >= 400 {
            DirectionArrow::ErrorLTR
        } else if code >= 300 {
            DirectionArrow::Redirect
        } else {
            DirectionArrow::LTR
        }
    }
}

} // verus!
