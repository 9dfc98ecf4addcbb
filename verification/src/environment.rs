//! The environments a secret is scoped to, with their names and parser.
use vstd::prelude::*;

use crate::text::{ascii_lowercase, lowered_range_equals, trim, trim_bounds};

verus! {

/// The environment a secret belongs to.
#[derive(Debug, Clone, Copy, PartialEq, Eq, Structural)]
pub enum Environment {
    Dev,
    Prod,
    Staging,
}

/// The error of parsing an environment name; it carries the message shown
/// to the user.
#[derive(Debug, Clone, PartialEq, Eq)]
pub struct EnvironmentParseError(String);

/// The lower-case name of an environment.
pub open spec fn env_name(e: Environment) -> Seq<char> {
    match e {
        Environment::Dev => seq!['d', 'e', 'v'],
        Environment::Prod => seq!['p', 'r', 'o', 'd'],
        Environment::Staging => seq!['s', 't', 'a', 'g', 'i', 'n', 'g'],
    }
}

/// What parsing `s` gives: the environment whose name equals `s` once
/// surrounding whitespace is removed and ASCII letters are folded to lower
/// case, or nothing.
pub open spec fn parse_env_spec(s: Seq<char>) -> Option<Environment> {
    let t = ascii_lowercase(trim(s));
    if t == env_name(Environment::Dev) {
        Some(Environment::Dev)
    } else if t == env_name(Environment::Prod) {
        Some(Environment::Prod)
    } else if t == env_name(Environment::Staging) {
        Some(Environment::Staging)
    } else {
        None
    }
}

/// The message of every environment parse error.
pub open spec fn env_parse_message() -> Seq<char> {
    "Environment must be one of: dev, prod, staging"@
}

impl Environment {
    /// The environment's name, as stored and displayed.
    pub fn as_str(self) -> (r: &'static str)
        ensures
            r@ == env_name(self),
    {
        match self {
            Environment::Dev => {
                proof {
                    reveal_strlit("dev");
                }
                "dev"
            },
            Environment::Prod => {
                proof {
                    reveal_strlit("prod");
                }
                "prod"
            },
            Environment::Staging => {
                proof {
                    reveal_strlit("staging");
                }
                "staging"
            },
        }
    }

    /// The environment's name, as displayed.
    pub fn to_string(&self) -> (r: String)
        ensures
            r@ == env_name(*self),
    {
        self.as_str().to_owned()
    }

    /// Parses an environment name; surrounding whitespace and the case of
    /// ASCII letters are ignored.
    pub fn parse(value: &str) -> (r: Result<Environment, EnvironmentParseError>)
        ensures
            match r {
                Ok(e) => parse_env_spec(value@) == Some(e),
                Err(err) => parse_env_spec(value@) is None && err.message() == env_parse_message(),
            },
    {
        let (start, end) = trim_bounds(value);
        if lowered_range_equals(value, start, end, &vec!['d', 'e', 'v']) {
            Ok(Environment::Dev)
        } else if lowered_range_equals(value, start, end, &vec!['p', 'r', 'o', 'd']) {
            Ok(Environment::Prod)
        } else if lowered_range_equals(
            value,
            start,
            end,
            &vec!['s', 't', 'a', 'g', 'i', 'n', 'g'],
        ) {
            Ok(Environment::Staging)
        } else {
            Err(EnvironmentParseError(String::from_str("Environment must be one of: dev, prod, staging")))
        }
    }
}

impl EnvironmentParseError {
    /// The message carried by the error.
    pub closed spec fn message(&self) -> Seq<char> {
        self.0@
    }

    /// The message of the error, as displayed.
    pub fn to_string(&self) -> (r: String)
        ensures
            r@ == self.message(),
    {
        self.0.clone()
    }
}

impl std::str::FromStr for Environment {
    type Err = EnvironmentParseError;

    fn from_str(value: &str) -> (r: Result<Environment, EnvironmentParseError>)
        ensures
            match r {
                Ok(e) => parse_env_spec(value@) == Some(e),
                Err(err) => parse_env_spec(value@) is None && err.message() == env_parse_message(),
            },
    {
        Environment::parse(value)
    }
}

} // verus!

verus! {

/// An environment's name parses back to the environment.
pub proof fn lemma_name_parses_back(e: Environment)
    ensures
        parse_env_spec(env_name(e)) == Some(e),
{
    let n = env_name(e);
    assert(crate::text::trim_start(n) == n);
    assert(crate::text::trim_end(n) == n);
    assert(ascii_lowercase(trim(n)) =~= n);
}

/// Distinct environments have distinct names.
pub proof fn lemma_names_distinct(a: Environment, b: Environment)
    ensures
        env_name(a) == env_name(b) ==> a == b,
{
    if env_name(a) == env_name(b) {
        assert(env_name(a).len() == env_name(b).len());
    }
}

} // verus!

verus! {

/// Whitespace around a name does not change what it parses to.
pub proof fn lemma_parse_ignores_surrounding_whitespace(s: Seq<char>)
    ensures
        parse_env_spec(trim(s)) == parse_env_spec(s),
{
    crate::text::lemma_trim_idempotent(s);
}

/// The case of ASCII letters does not change what a name parses to.
pub proof fn lemma_parse_ignores_ascii_case(s: Seq<char>)
    ensures
        parse_env_spec(ascii_lowercase(s)) == parse_env_spec(s),
{
    crate::text::lemma_lowercase_trim_commute(s);
    crate::text::lemma_lowercase_idempotent(trim(s));
}

} // verus!

verus! {

/// `s` spells `name` with any of its lower-case ASCII letters written in
/// upper case.
pub open spec fn is_case_variant(s: Seq<char>, name: Seq<char>) -> bool {
    &&& s.len() == name.len()
    &&& forall|i: int|
        0 <= i < s.len() ==> (s[i] == name[i] || ('a' <= name[i] <= 'z' && s[i] as u32 + 32
            == name[i] as u32))
}

/// Every spelling of an environment's name in upper, lower or mixed ASCII
/// case parses to that environment.
pub proof fn lemma_case_variants_parse(e: Environment, s: Seq<char>)
    requires
        is_case_variant(s, env_name(e)),
    ensures
        parse_env_spec(s) == Some(e),
{
    let n = env_name(e);
    assert(!crate::text::is_ws(s[0]));
    assert(crate::text::trim_start(s) == s);
    assert(!crate::text::is_ws(s.last()));
    assert(crate::text::trim_end(s) == s);
    assert forall|i: int| 0 <= i < s.len() implies crate::text::ascii_lower(s[i]) == n[i] by {
        crate::text::lemma_ascii_lower_folds_letters(s[i]);
    }
    assert(ascii_lowercase(trim(s)) =~= n);
}

} // verus!
