//! References to variables of the environment in a text.

use crate::pattern::{captures, compile, pattern_of, regex_captures, ENV_REFERENCE};
use crate::substitution::{fill, filled, Replacements};
use regex::Regex;
use vstd::hash_map::StringHashMap;
use vstd::prelude::*;
use vstd::string::StringExecFns;

verus! {

/// The variables of an environment, each with its value.
pub struct Environment {
    vars: StringHashMap<String>,
}

impl View for Environment {
    type V = Map<Seq<char>, Seq<char>>;

    closed spec fn view(&self) -> Map<Seq<char>, Seq<char>> {
        self.vars@.map_values(|value: String| value@)
    }
}

impl Environment {
    /// An environment without variables.
    pub fn new() -> (environment: Environment)
        ensures
            environment@ == Map::<Seq<char>, Seq<char>>::empty(),
    {
        let environment = Environment { vars: StringHashMap::new() };
        assert(environment@ =~= Map::<Seq<char>, Seq<char>>::empty());
        environment
    }

    /// Sets the variable `key` to `value`.
    pub fn insert(&mut self, key: &str, value: &str)
        ensures
            final(self)@ == old(self)@.insert(key@, value@),
    {
        self.vars.insert(key.to_owned(), value.to_owned());
        assert(self@ =~= old(self)@.insert(key@, value@));
    }

    /// The value of the variable `key`, if it is set.
    pub fn get(&self, key: &str) -> (r: Option<&String>)
        ensures
            match r {
                Some(value) => self@.contains_key(key@) && value@ == self@[key@],
                None => !self@.contains_key(key@),
            },
    {
        self.vars.get(key)
    }
}

impl Replacements for Environment {
    open spec fn texts(&self) -> Map<Seq<char>, Seq<char>> {
        self@
    }

    fn replacement(&self, identifier: &str) -> (r: Option<String>) {
        match self.get(identifier) {
            Some(value) => Some(value.clone()),
            None => None,
        }
    }
}

/// A text refers to a variable that the environment does not hold.
#[derive(Debug)]
pub struct EnvError {
    /// The name of the variable.
    pub key: String,
}

impl EnvError {
    /// The words of the error.
    pub open spec fn spec_message(self) -> Seq<char> {
        "failed to get value of "@ + self.key@ + " environment variable"@
    }

    /// Says which variable is missing.
    pub fn message(&self) -> (text: String)
        ensures
            text@ == self.spec_message(),
    {
        let mut text = String::from_str("failed to get value of ");
        text.append(self.key.as_str());
        text.append(" environment variable");
        text
    }
}

/// Finds the references to variables of the environment in texts.
pub struct EnvReferences {
    re: Regex,
}

impl EnvReferences {
    #[verifier::type_invariant]
    spec fn finds_references(self) -> bool {
        pattern_of(self.re) == ENV_REFERENCE@
    }

    /// A finder of references of the form `${NAME}`.
    pub fn new() -> (references: EnvReferences)
        ensures
            references.pattern() == ENV_REFERENCE@,
    {
        EnvReferences { re: compile(ENV_REFERENCE) }
    }

    /// The expression that the finder searches texts for.
    pub closed spec fn pattern(self) -> Seq<char> {
        pattern_of(self.re)
    }

    /// Replaces each reference in `source` by the value that `environment` holds for
    /// the variable, and copies the rest. Fails at the first reference, from the left,
    /// to a variable that the environment does not hold.
    pub fn replace(&self, source: &str, environment: &Environment) -> (r: Result<String, EnvError>)
        ensures
            match r {
                Ok(text) => filled(
                    source@,
                    regex_captures(ENV_REFERENCE@, source@),
                    environment@,
                ) == Ok::<Seq<char>, Seq<char>>(text@),
                Err(e) => filled(
                    source@,
                    regex_captures(ENV_REFERENCE@, source@),
                    environment@,
                ) == Err::<Seq<char>, Seq<char>>(e.key@),
            },
    {
        proof {
            use_type_invariant(self);
        }
        let found = captures(&self.re, source);
        match fill(source, &found, environment) {
            Ok(text) => Ok(text),
            Err(key) => Err(EnvError { key }),
        }
    }
}

/// Replaces each reference of the form `${NAME}` in `source` by the value that
/// `environment` holds for `NAME`, and copies the rest. Fails at the first reference,
/// from the left, to a variable that the environment does not hold.
pub fn replace_env_vars(source: &str, environment: &Environment) -> (r: Result<String, EnvError>)
    ensures
        match r {
            Ok(text) => filled(source@, regex_captures(ENV_REFERENCE@, source@), environment@)
                == Ok::<Seq<char>, Seq<char>>(text@),
            Err(e) => filled(source@, regex_captures(ENV_REFERENCE@, source@), environment@)
                == Err::<Seq<char>, Seq<char>>(e.key@),
        },
{
    let references = EnvReferences::new();
    references.replace(source, environment)
}

} // verus!
