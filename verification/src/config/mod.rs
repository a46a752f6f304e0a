//! What the library is configured with: the supervisor, its mounts and
//! default limits, and the languages it can run.

use vstd::prelude::*;
use crate::text::{concat3, str_eq};
use crate::types::{MountConfig, ResourceLimits};

pub mod language;

pub use language::{
    default_sandbox_path, CompileConfig, FileExtension, Language, RunConfig,
    DEFAULT_SANDBOX_PATH,
};

verus! {

/// Why a configuration is refused.
#[derive(Debug)]
pub enum ConfigError {
    /// A file extension holds `/` or `.`.
    InvalidFileExtChars,
    /// The configuration file could not be read.
    ReadFile { path: String, source: String },
    /// The configuration file could not be parsed.
    Parse(String),
    /// No language has the given id.
    LanguageNotFound(String),
    /// A language lacks something that every language needs.
    Invalid(String),
}

/// The library's configuration.
#[derive(Debug, Clone)]
pub struct Config {
    /// Path of the supervisor; `isolate`, looked up on the host, where none
    /// is given.
    pub isolate_path: Option<String>,
    /// Whether memory is bounded through control groups instead of address
    /// space.
    pub cgroup: bool,
    /// Root of the supervisor's control group.
    pub cg_root: String,
    /// Mounts added to every run, compilation included.
    pub sandbox_mounts: Vec<MountConfig>,
    /// Limits that apply where neither language nor caller says otherwise.
    pub default_limits: ResourceLimits,
    /// The languages by id. Where an id occurs twice, the later entry counts.
    pub languages: Vec<(String, Language)>,
}

/// Where the supervisor's control group is rooted unless configured.
pub fn default_cg_root() -> (s: String)
    ensures
        s@ == "/sys/fs/cgroup/isolate"@,
{
    "/sys/fs/cgroup/isolate".to_owned()
}

/// Position of the last language with id `id`, or -1.
pub open spec fn language_index(languages: Seq<(String, Language)>, id: Seq<char>) -> int
    decreases languages.len(),
{
    if languages.len() == 0 {
        -1
    } else if languages.last().0@ == id {
        languages.len() - 1
    } else {
        language_index(languages.drop_last(), id)
    }
}

pub proof fn lemma_language_index_is(languages: Seq<(String, Language)>, id: Seq<char>, n: int)
    requires
        -1 <= n < languages.len(),
        n >= 0 ==> languages[n].0@ == id,
        forall|j: int| n < j < languages.len() ==> (#[trigger] languages[j]).0@ != id,
    ensures
        language_index(languages, id) == n,
    decreases languages.len(),
{
    if languages.len() > 0 && n < languages.len() - 1 {
        let t = languages.drop_last();
        assert forall|j: int| n < j < t.len() implies (#[trigger] t[j]).0@ != id by {
            assert(t[j] == languages[j]);
        }
        if n >= 0 {
            assert(t[n] == languages[n]);
        }
        lemma_language_index_is(t, id, n);
    }
}

/// What is wrong with the language `id`, if anything: the first of an empty
/// name, an empty extension, an empty run command, an empty compile command.
pub open spec fn language_fault(id: Seq<char>, language: Language) -> Option<Seq<char>> {
    if language.name@.len() == 0 {
        Some("language '"@ + id + "' has empty name"@)
    } else if language.extension@.len() == 0 {
        Some("language '"@ + id + "' has empty extension"@)
    } else if language.run.command@.len() == 0 {
        Some("language '"@ + id + "' has empty run command"@)
    } else if language.compile is Some && language.compile->0.command@.len() == 0 {
        Some("language '"@ + id + "' has empty compile command"@)
    } else {
        None
    }
}

/// Position of the first language with a fault, or `languages.len()`.
pub open spec fn first_faulty(languages: Seq<(String, Language)>) -> int
    decreases languages.len(),
{
    if languages.len() == 0 || language_fault(languages[0].0@, languages[0].1) is Some {
        0
    } else {
        1 + first_faulty(languages.drop_first())
    }
}

pub proof fn lemma_first_faulty_is(languages: Seq<(String, Language)>, n: int)
    requires
        0 <= n <= languages.len(),
        forall|j: int|
            0 <= j < n ==> language_fault((#[trigger] languages[j]).0@, languages[j].1) is None,
        n < languages.len() ==> language_fault(languages[n].0@, languages[n].1) is Some,
    ensures
        first_faulty(languages) == n,
    decreases n,
{
    if n > 0 {
        let t = languages.drop_first();
        assert forall|j: int| 0 <= j < n - 1 implies language_fault(
            (#[trigger] t[j]).0@,
            t[j].1,
        ) is None by {
            assert(t[j] == languages[j + 1]);
        }
        lemma_first_faulty_is(t, n - 1);
    }
}

fn fault_of(id: &str, language: &Language) -> (r: Option<String>)
    ensures
        crate::types::opt_text(r) == language_fault(id@, *language),
{
    if language.name.as_str().is_empty() {
        return Some(concat3("language '", id, "' has empty name"));
    }
    if language.extension.is_empty() {
        return Some(concat3("language '", id, "' has empty extension"));
    }
    if language.run.command.len() == 0 {
        return Some(concat3("language '", id, "' has empty run command"));
    }
    match &language.compile {
        Some(compile) => {
            if compile.command.len() == 0 {
                return Some(concat3("language '", id, "' has empty compile command"));
            }
        },
        None => {},
    }
    None
}

impl Config {
    /// A configuration with no languages: the supervisor found on the
    /// host, no control groups, no mounts, the standard limits.
    pub fn empty() -> (c: Self)
        ensures
            c.isolate_path is None,
            !c.cgroup,
            c.cg_root@ == "/sys/fs/cgroup/isolate"@,
            c.sandbox_mounts@.len() == 0,
            c.default_limits == ResourceLimits::standard(),
            c.languages@.len() == 0,
    {
        Config {
            isolate_path: None,
            cgroup: false,
            cg_root: default_cg_root(),
            sandbox_mounts: Vec::new(),
            default_limits: ResourceLimits::new(),
            languages: Vec::new(),
        }
    }

    /// The language with id `id`.
    pub fn get_language(&self, id: &str) -> (r: Result<&Language, ConfigError>)
        ensures
            ({
                let i = language_index(self.languages@, id@);
                match r {
                    Ok(language) => i >= 0 && *language == self.languages@[i].1,
                    Err(e) => {
                        &&& i == -1
                        &&& e matches ConfigError::LanguageNotFound(name)
                        &&& name@ == id@
                    },
                }
            }),
    {
        let mut i: usize = self.languages.len();
        while i > 0 && !str_eq(self.languages[i - 1].0.as_str(), id)
            invariant
                i <= self.languages.len(),
                forall|j: int|
                    i <= j < self.languages@.len() ==> (#[trigger] self.languages@[j]).0@ != id@,
            decreases i,
        {
            i -= 1;
        }
        proof {
            lemma_language_index_is(self.languages@, id@, i - 1);
        }
        if i > 0 {
            Ok(&self.languages[i - 1].1)
        } else {
            Err(ConfigError::LanguageNotFound(id.to_owned()))
        }
    }

    /// Whether some language has id `id`.
    pub fn has_language(&self, id: &str) -> (b: bool)
        ensures
            b == (language_index(self.languages@, id@) >= 0),
    {
        self.get_language(id).is_ok()
    }

    /// The supervisor's path: the configured one, else `isolate`.
    pub fn isolate_binary(&self) -> (p: String)
        ensures
            p@ == (match self.isolate_path {
                Some(path) => path@,
                None => "isolate"@,
            }),
    {
        match &self.isolate_path {
            Some(path) => path.clone(),
            None => "isolate".to_owned(),
        }
    }

    /// The default limits, overridden by `overrides` where given.
    pub fn effective_limits(&self, overrides: Option<&ResourceLimits>) -> (r: ResourceLimits)
        ensures
            r == self.default_limits.merged_opt(
                match overrides {
                    Some(l) => Some(*l),
                    None => None,
                },
            ),
    {
        self.default_limits.with_layer(overrides)
    }

    /// Checks that every language has a name, an extension, a run command
    /// and, where it is compiled, a compile command. The error names the
    /// first language that lacks one, and what it lacks.
    pub fn validate(&self) -> (r: Result<(), ConfigError>)
        ensures
            ({
                let bad = first_faulty(self.languages@);
                match r {
                    Ok(_) => bad == self.languages@.len(),
                    Err(e) => {
                        &&& 0 <= bad < self.languages@.len()
                        &&& e matches ConfigError::Invalid(message)
                        &&& Some(message@) == language_fault(
                            self.languages@[bad].0@,
                            self.languages@[bad].1,
                        )
                    },
                }
            }),
    {
        let mut i: usize = 0;
        while i < self.languages.len()
            invariant
                i <= self.languages.len(),
                forall|j: int|
                    0 <= j < i ==> language_fault(
                        (#[trigger] self.languages@[j]).0@,
                        self.languages@[j].1,
                    ) is None,
            decreases self.languages.len() - i,
        {
            match fault_of(self.languages[i].0.as_str(), &self.languages[i].1) {
                Some(message) => {
                    proof {
                        lemma_first_faulty_is(self.languages@, i as int);
                    }
                    return Err(ConfigError::Invalid(message));
                },
                None => {},
            }
            i += 1;
        }
        proof {
            lemma_first_faulty_is(self.languages@, i as int);
        }
        Ok(())
    }
}

} // verus!
