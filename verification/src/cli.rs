//! Arguments on the command line.
use crate::text;
use vstd::prelude::*;
use vstd::string::*;

verus! {

/// What can be parsed from text.
pub trait FromText: Sized {
    /// What a value says.
    type Model;

    /// What this value says.
    spec fn said(&self) -> Self::Model;

    /// What the value of a text says, if the text has one.
    spec fn meaning(text: Seq<char>) -> Option<Self::Model>;

    /// Parses a text.
    fn from_text(text: &str) -> (r: Option<Self>)
        ensures
            match r {
                Some(v) => Self::meaning(text@) == Some(v.said()),
                None => Self::meaning(text@) is None,
            },
    ;
}

impl FromText for u16 {
    type Model = nat;

    open spec fn said(&self) -> nat {
        *self as nat
    }

    open spec fn meaning(text: Seq<char>) -> Option<nat> {
        text::unsigned_value(text, 0xFFFF)
    }

    fn from_text(text: &str) -> (r: Option<u16>) {
        match text::parse_unsigned(text, 0xFFFF) {
            Some(n) => Some(n as u16),
            None => None,
        }
    }
}

impl FromText for String {
    type Model = Seq<char>;

    open spec fn said(&self) -> Seq<char> {
        self@
    }

    open spec fn meaning(text: Seq<char>) -> Option<Seq<char>> {
        Some(text)
    }

    fn from_text(text: &str) -> (r: Option<String>) {
        Some(text.to_owned())
    }
}

/// Why a pair could not be parsed.
#[derive(Debug, Clone, PartialEq, Eq)]
pub enum KeyValError {
    /// There is no colon; the message says so.
    NoColon(String),
    /// What precedes the colon has no value.
    InvalidKey,
    /// What follows the colon has no value.
    InvalidValue,
}

/// The place of the first colon, or the length of the text.
pub open spec fn colon(s: Seq<char>) -> int
    decreases s.len(),
{
    if s.len() == 0 {
        0
    } else if s[0] == ':' {
        0
    } else {
        1 + colon(s.drop_first())
    }
}

proof fn colon_is_first(s: Seq<char>)
    ensures
        0 <= colon(s) <= s.len(),
        colon(s) < s.len() ==> s[colon(s)] == ':',
        forall|i: int| 0 <= i < colon(s) ==> s[i] != ':',
    decreases s.len(),
{
    if s.len() > 0 && s[0] != ':' {
        let t = s.drop_first();
        colon_is_first(t);
        assert forall|i: int| 0 <= i < colon(s) implies s[i] != ':' by {
            if i > 0 {
                assert(t[i - 1] == s[i]);
            }
        }
    }
}

/// Parses a pair of the form `KEY:VAL`, split at the first colon.
pub fn parse_key_val<T: FromText, U: FromText>(s: &str) -> (r: Result<(T, U), KeyValError>)
    ensures
        ({
            let at = colon(s@);
            if at == s@.len() {
                r matches Err(KeyValError::NoColon(message)) && message@
                    == "invalid KEY:VAL: no `:` found in `"@ + s@ + "`"@
            } else {
                let key = T::meaning(s@.subrange(0, at));
                let val = U::meaning(s@.subrange(at + 1, s@.len() as int));
                match r {
                    Ok((k, v)) => key == Some(k.said()) && val == Some(v.said()),
                    Err(KeyValError::InvalidKey) => key is None,
                    Err(KeyValError::InvalidValue) => key is Some && val is None,
                    Err(KeyValError::NoColon(_)) => false,
                }
            }
        }),
{
    let n: usize = s.unicode_len();
    let mut at: usize = 0;
    proof {
        colon_is_first(s@);
    }
    while at < n && s.get_char(at) != ':'
        invariant
            at <= n,
            n == s@.len(),
            forall|i: int| 0 <= i < at ==> s@[i] != ':',
        decreases n - at,
    {
        at = at + 1;
    }
    assert(at == colon(s@));
    if at == n {
        return Err(
            KeyValError::NoColon(
                "invalid KEY:VAL: no `:` found in `".to_owned().concat(s).concat("`"),
            ),
        );
    }
    let key = match T::from_text(s.substring_char(0, at)) {
        Some(key) => key,
        None => return Err(KeyValError::InvalidKey),
    };
    match U::from_text(s.substring_char(at + 1, n)) {
        Some(val) => Ok((key, val)),
        None => Err(KeyValError::InvalidValue),
    }
}

} // verus!
