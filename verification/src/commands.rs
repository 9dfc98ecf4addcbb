//! The command line of the `harbor` tool, and the decisions its commands
//! take on the values they are given.
use vstd::prelude::*;

use crate::environment::{parse_env_spec, EnvironmentParseError, Environment};
use crate::text::{trim, trim_bounds};

verus! {

/// The parsed command line.
pub struct Cli {
    /// `-v`, `--version`: print the version.
    pub version: bool,
    pub command: Option<Commands>,
}

/// The commands of the tool.
pub enum Commands {
    /// Run a command with the secrets of an environment in its variables.
    Inject { environment: Option<String>, after: Vec<String> },
    /// Open a shell with the secrets of an environment in its variables.
    Shell { environment: Option<String>, shell: Option<String>, command: Option<String> },
    /// Set secrets from `KEY=VALUE` assignments (also called `add`).
    SetSecrets { environment: Option<String>, vars: Vec<String> },
    /// Delete secrets by key.
    Delete { environment: Option<String>, keys: Vec<String> },
    /// Print one secret.
    Show { environment: Option<String>, key: String },
    /// Write `.harbor.toml` for a chosen project.
    Setup {},
    /// List the secret names of the project.
    List {},
    /// Manage projects.
    Project { command: ProjectCommands },
}

/// The project commands.
pub enum ProjectCommands {
    List {},
    Create {},
    Delete { name: String },
}

impl Commands {
    /// Whether the command works on the project named in `.harbor.toml`:
    /// every command but `setup` and `project`.
    pub fn requires_config(&self) -> (r: bool)
        ensures
            r == !(self is Setup || self is Project),
    {
        match self {
            Commands::Inject { .. } => true,
            Commands::Show { .. } => true,
            Commands::SetSecrets { .. } => true,
            Commands::Delete { .. } => true,
            Commands::Shell { .. } => true,
            Commands::List { .. } => true,
            Commands::Setup { .. } => false,
            Commands::Project { .. } => false,
        }
    }
}

/// The environment a command works in: the one named on the command line,
/// else the project's default.
pub fn resolve_environment(flag: Option<&str>, default_env: Environment) -> (r: Result<
    Environment,
    EnvironmentParseError,
>)
    ensures
        match flag {
            None => r == Ok::<Environment, EnvironmentParseError>(default_env),
            Some(s) => match r {
                Ok(e) => parse_env_spec(s@) == Some(e),
                Err(_) => parse_env_spec(s@) is None,
            },
        },
{
    match flag {
        None => Ok(default_env),
        Some(s) => Environment::parse(s),
    }
}

/// The keys named on the command line, trimmed, blank ones dropped.
pub open spec fn cleaned_keys(keys: Seq<Seq<char>>) -> Seq<Seq<char>>
    decreases keys.len(),
{
    if keys.len() == 0 {
        seq![]
    } else {
        let rest = cleaned_keys(keys.drop_last());
        if trim(keys.last()).len() == 0 {
            rest
        } else {
            rest.push(trim(keys.last()))
        }
    }
}

pub open spec fn strings_view(v: Seq<String>) -> Seq<Seq<char>> {
    v.map_values(|s: String| s@)
}

/// The secret keys to delete: each given key trimmed, blank ones dropped.
pub fn clean_secret_keys(keys: &[String]) -> (r: Vec<String>)
    ensures
        strings_view(r@) == cleaned_keys(strings_view(keys@)),
        strings_view(r@) == strings_view(keys@).filter(|k: Seq<char>| trim(k).len() > 0).map_values(
            |k: Seq<char>| trim(k),
        ),
{
    let ghost items = strings_view(keys@);
    let mut cleaned: Vec<String> = Vec::new();
    let mut i: usize = 0;
    assert(items.take(0) =~= Seq::<Seq<char>>::empty());
    assert(strings_view(cleaned@) =~= Seq::<Seq<char>>::empty());
    while i < keys.len()
        invariant
            i <= keys@.len(),
            items == strings_view(keys@),
            strings_view(cleaned@) == cleaned_keys(items.take(i as int)),
        decreases keys@.len() - i,
    {
        assert(items.take(i + 1).drop_last() =~= items.take(i as int));
        let key = keys[i].as_str();
        assert(items.take(i + 1).last() == key@);
        let (start, end) = trim_bounds(key);
        if start < end {
            let ghost before = cleaned@;
            cleaned.push(key.substring_char(start, end).to_owned());
            assert(strings_view(cleaned@) =~= strings_view(before).push(trim(key@)));
        }
        i = i + 1;
    }
    assert(items.take(keys@.len() as int) =~= items);
    proof {
        lemma_cleaned_keys_are_nonblank_keys_trimmed(items);
    }
    cleaned
}

/// The position of the first secret named `key`, if any.
pub fn find_secret(secrets: &[(String, Vec<u8>, Vec<u8>)], key: &String) -> (r: Option<usize>)
    ensures
        match r {
            Some(i) => i < secrets@.len() && secrets@[i as int].0@ == key@ && forall|j: int|
                0 <= j < i ==> secrets@[j].0@ != key@,
            None => forall|j: int| 0 <= j < secrets@.len() ==> secrets@[j].0@ != key@,
        },
{
    let mut i: usize = 0;
    while i < secrets.len()
        invariant
            i <= secrets@.len(),
            forall|j: int| 0 <= j < i ==> secrets@[j].0@ != key@,
        decreases secrets@.len() - i,
    {
        if secrets[i].0 == *key {
            return Some(i);
        }
        i = i + 1;
    }
    None
}

/// Whether an answer to a yes/no question confirms: it is `y` in either
/// case.
pub fn is_confirmed(answer: &str) -> (r: bool)
    ensures
        r == (answer@ == seq!['y'] || answer@ == seq!['Y']),
{
    if answer.unicode_len() != 1 {
        return false;
    }
    let c = answer.get_char(0);
    let r = c == 'y' || c == 'Y';
    assert(r ==> (answer@ =~= seq!['y'] || answer@ =~= seq!['Y']));
    r
}

/// The shell to open: the one asked for, else the user's shell, else
/// `/bin/sh`.
pub fn resolve_shell(flag: Option<String>, env_shell: Option<String>) -> (r: String)
    ensures
        match flag {
            Some(s) => r@ == s@,
            None => match env_shell {
                Some(s) => r@ == s@,
                None => r@ == "/bin/sh"@,
            },
        },
{
    match flag {
        Some(s) => s,
        None => match env_shell {
            Some(s) => s,
            None => String::from_str("/bin/sh"),
        },
    }
}

/// The verb reported after writing a secret.
pub fn set_verb(existed: bool) -> (r: &'static str)
    ensures
        r@ == (if existed {
            "Updated"@
        } else {
            "Set"@
        }),
{
    if existed {
        "Updated"
    } else {
        "Set"
    }
}

} // verus!

verus! {

/// Every cleaned key is non-blank and has no surrounding whitespace.
pub proof fn lemma_cleaned_keys_trimmed(keys: Seq<Seq<char>>)
    ensures
        forall|j: int|
            0 <= j < cleaned_keys(keys).len() ==> {
                &&& (#[trigger] cleaned_keys(keys)[j]).len() > 0
                &&& trim(cleaned_keys(keys)[j]) == cleaned_keys(keys)[j]
            },
    decreases keys.len(),
{
    if keys.len() > 0 {
        let front = cleaned_keys(keys.drop_last());
        lemma_cleaned_keys_trimmed(keys.drop_last());
        crate::text::lemma_trim_idempotent(keys.last());
        assert forall|j: int| 0 <= j < front.len() implies cleaned_keys(keys)[j] == front[j] by {}
    }
}

/// Cleaning keys that are already clean changes nothing.
pub proof fn lemma_clean_idempotent(keys: Seq<Seq<char>>)
    ensures
        cleaned_keys(cleaned_keys(keys)) == cleaned_keys(keys),
    decreases keys.len(),
{
    if keys.len() > 0 {
        let front = cleaned_keys(keys.drop_last());
        lemma_clean_idempotent(keys.drop_last());
        if trim(keys.last()).len() > 0 {
            let c = front.push(trim(keys.last()));
            assert(c.drop_last() =~= front);
            crate::text::lemma_trim_idempotent(keys.last());
        }
    }
}

} // verus!

verus! {

/// The cleaned keys are exactly the given keys that are not blank, in
/// order, each trimmed.
pub proof fn lemma_cleaned_keys_are_nonblank_keys_trimmed(keys: Seq<Seq<char>>)
    ensures
        cleaned_keys(keys) == keys.filter(|k: Seq<char>| trim(k).len() > 0).map_values(
            |k: Seq<char>| trim(k),
        ),
    decreases keys.len(),
{
    reveal_with_fuel(Seq::<Seq<char>>::filter, 1);
    let p = |k: Seq<char>| trim(k).len() > 0;
    let f = |k: Seq<char>| trim(k);
    if keys.len() == 0 {
        assert(keys.filter(p).map_values(f) =~= Seq::<Seq<char>>::empty());
    } else {
        lemma_cleaned_keys_are_nonblank_keys_trimmed(keys.drop_last());
        let front = keys.drop_last().filter(p);
        if p(keys.last()) {
            assert(front.push(keys.last()).map_values(f) =~= front.map_values(f).push(
                trim(keys.last()),
            ));
        }
    }
}

/// No key that is given and not blank is lost: its trimmed form is among
/// the cleaned keys.
pub proof fn lemma_cleaned_keys_keep_every_key(keys: Seq<Seq<char>>, i: int)
    requires
        0 <= i < keys.len(),
        trim(keys[i]).len() > 0,
    ensures
        cleaned_keys(keys).contains(trim(keys[i])),
    decreases keys.len(),
{
    if i == keys.len() - 1 {
        let c = cleaned_keys(keys);
        assert(c[c.len() - 1] == trim(keys[i]));
    } else {
        assert(keys.drop_last()[i] == keys[i]);
        lemma_cleaned_keys_keep_every_key(keys.drop_last(), i);
        let front = cleaned_keys(keys.drop_last());
        let j = choose|j: int| 0 <= j < front.len() && front[j] == trim(keys[i]);
        assert(cleaned_keys(keys)[j] == trim(keys[i]));
    }
}

} // verus!
