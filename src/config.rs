//! The search configuration, taken from the command line and from the names
//! of the environment variables that are set.
use vstd::prelude::*;

verus! {

/// What to search for, where, and whether case matters.
pub struct Config {
    pub search: String,
    pub filename: String,
    pub case_sensitive: bool,
}

/// Why a configuration could not be made.
#[derive(Debug, PartialEq, Eq, Structural)]
pub enum ConfigError {
    /// The command line holds fewer than a pattern and a filename.
    InsufficientArguments,
}

impl ConfigError {
    /// The sentence that reports this error.
    pub fn message(&self) -> (r: &'static str)
        ensures
            r@ == "Not enough arguments"@,
    {
        match self {
            ConfigError::InsufficientArguments => "Not enough arguments",
        }
    }
}

/// The environment variable whose presence turns case sensitivity off.
pub open spec fn case_insensitive_name() -> Seq<char> {
    "CASE_INSENSITIVE"@
}

/// Whether some name in `names` is the case-insensitivity switch.
pub open spec fn switches_case_off(names: Seq<String>) -> bool {
    exists|i: int| 0 <= i < names.len() && #[trigger] names[i]@ == case_insensitive_name()
}

impl Config {
    /// Builds the configuration from the command line `args` (the program
    /// name, then the pattern and the filename) and the names of the set
    /// environment variables.
    pub fn new(args: &[String], env_names: &[String]) -> (r: Result<Config, ConfigError>)
        ensures
            r is Err <==> args@.len() < 3,
            r is Err ==> r->Err_0 == ConfigError::InsufficientArguments,
            r is Ok ==> r->Ok_0.search@ == args@[1]@,
            r is Ok ==> r->Ok_0.filename@ == args@[2]@,
            r is Ok ==> r->Ok_0.case_sensitive == !switches_case_off(env_names@),
    {
        if args.len() < 3 {
            return Err(ConfigError::InsufficientArguments);
        }
        let search = args[1].clone();
        let filename = args[2].clone();
        let switch = "CASE_INSENSITIVE".to_owned();
        let mut case_sensitive = true;
        let mut i: usize = 0;
        while i < env_names.len()
            invariant
                i <= env_names@.len(),
                switch@ == case_insensitive_name(),
                case_sensitive == !(exists|j: int|
                    0 <= j < i && #[trigger] env_names@[j]@ == case_insensitive_name()),
            decreases env_names@.len() - i,
        {
            if env_names[i] == switch {
                case_sensitive = false;
            }
            i = i + 1;
        }
        Ok(Config { search, filename, case_sensitive })
    }
}

} // verus!
