//! A language: how its programs are named, compiled and run.

use vstd::prelude::*;
use crate::config::ConfigError;
use crate::text::{concat2, push_text, replace_all, str_replace, texts, to_chars};
use crate::types::{MountConfig, ResourceLimits};

verus! {

/// The search path inside the sandbox unless a language sets its own.
pub const DEFAULT_SANDBOX_PATH: &'static str = "/usr/bin:/bin";

/// The search path inside the sandbox unless a language sets its own.
pub fn default_sandbox_path() -> (s: String)
    ensures
        s@ == "/usr/bin:/bin"@,
{
    "/usr/bin:/bin".to_owned()
}

/// A file extension without its dot, such as `cpp`.
#[derive(Debug)]
pub struct FileExtension(String);

impl View for FileExtension {
    type V = Seq<char>;

    closed spec fn view(&self) -> Seq<char> {
        self.0@
    }
}

impl Clone for FileExtension {
    fn clone(&self) -> (r: Self)
        ensures
            r@ == self@,
    {
        proof {
            use_type_invariant(self);
        }
        FileExtension(self.0.clone())
    }
}

impl FileExtension {
    /// An extension holds neither `/` nor `.`.
    pub open spec fn acceptable(s: Seq<char>) -> bool {
        forall|i: int| 0 <= i < s.len() ==> #[trigger] s[i] != '/' && s[i] != '.'
    }

    #[verifier::type_invariant]
    spec fn well_formed(self) -> bool {
        Self::acceptable(self.0@)
    }

    /// The extension `extension`, unless it holds `/` or `.`.
    pub fn new(extension: &str) -> (r: Result<Self, ConfigError>)
        ensures
            match r {
                Ok(e) => Self::acceptable(extension@) && e@ == extension@,
                Err(e) => !Self::acceptable(extension@) && e is InvalidFileExtChars,
            },
    {
        let v = to_chars(extension);
        let mut i: usize = 0;
        while i < v.len()
            invariant
                i <= v.len(),
                v@ == extension@,
                forall|j: int| 0 <= j < i ==> #[trigger] v@[j] != '/' && v@[j] != '.',
            decreases v.len() - i,
        {
            if v[i] == '/' || v[i] == '.' {
                assert(extension@[i as int] == '/' || extension@[i as int] == '.');
                return Err(ConfigError::InvalidFileExtChars);
            }
            i += 1;
        }
        Ok(FileExtension(extension.to_owned()))
    }

    /// Whether the extension has no characters.
    pub fn is_empty(&self) -> (b: bool)
        ensures
            b == (self@.len() == 0),
    {
        self.0.as_str().is_empty()
    }

    /// The extension as text. It holds neither `/` nor `.`.
    pub fn as_str(&self) -> (s: &str)
        ensures
            s@ == self@,
            Self::acceptable(s@),
    {
        proof {
            use_type_invariant(self);
        }
        self.0.as_str()
    }

    /// The extension as an owned string.
    pub fn to_string(&self) -> (s: String)
        ensures
            s@ == self@,
    {
        self.0.clone()
    }
}

/// How programs of a language are compiled.
#[derive(Debug, Clone)]
pub struct CompileConfig {
    /// Command with the placeholders `{source}`, `{output}` and `{binary}`.
    pub command: Vec<String>,
    /// Name of the source file in the box, such as `main.cpp`.
    pub source_name: String,
    /// Name of the file that compilation produces, such as `main`.
    pub output_name: String,
    /// Environment variables for the compiler.
    pub env: Vec<(String, String)>,
    /// Limits for compilation, laid over the compile defaults.
    pub limits: Option<ResourceLimits>,
}

/// How programs of a language are run.
#[derive(Debug, Clone)]
pub struct RunConfig {
    /// Command with the placeholders `{source}`, `{output}` and `{binary}`.
    pub command: Vec<String>,
    /// Environment variables for the program.
    pub env: Vec<(String, String)>,
    /// Mounts for the program, after the global ones.
    pub mounts: Vec<MountConfig>,
    /// The search path inside the sandbox.
    pub path: String,
    /// Limits for runs, laid over the configured defaults.
    pub limits: Option<ResourceLimits>,
}

/// A programming language.
#[derive(Debug, Clone)]
pub struct Language {
    /// Name for people, such as `C++ 17 (GCC)`.
    pub name: String,
    /// Extension of source files.
    pub extension: FileExtension,
    /// How to compile; `None` for an interpreted language.
    pub compile: Option<CompileConfig>,
    /// How to run.
    pub run: RunConfig,
}

/// `arg` with `{source}` replaced by `source`, then `{output}` by `binary`,
/// then `{binary}` by `binary`.
pub open spec fn expand_arg(arg: Seq<char>, source: Seq<char>, binary: Seq<char>) -> Seq<char> {
    replace_all(
        replace_all(replace_all(arg, "{source}"@, source), "{output}"@, binary),
        "{binary}"@,
        binary,
    )
}

/// Every argument of `command` expanded.
pub open spec fn expand_args(command: Seq<Seq<char>>, source: Seq<char>, binary: Seq<char>) -> Seq<
    Seq<char>,
> {
    Seq::new(command.len(), |i: int| expand_arg(command[i], source, binary))
}

impl Language {
    /// The name under which a program's source lies in the box: the
    /// configured one where the language is compiled, else `main.` and the
    /// extension.
    pub open spec fn source_file(&self) -> Seq<char> {
        match self.compile {
            Some(compile) => compile.source_name@,
            None => "main."@ + self.extension@,
        }
    }

    /// Whether programs are compiled before they run.
    pub fn is_compiled(&self) -> (b: bool)
        ensures
            b == self.compile is Some,
    {
        self.compile.is_some()
    }

    /// The name under which a program's source lies in the box.
    pub fn source_name(&self) -> (s: String)
        ensures
            s@ == self.source_file(),
    {
        match &self.compile {
            Some(compile) => compile.source_name.clone(),
            None => concat2("main.", self.extension.as_str()),
        }
    }

    /// Fills the placeholders of a command template.
    pub fn expand_command(command: &[String], source: &str, binary: &str) -> (r: Vec<String>)
        ensures
            texts(r@) == expand_args(texts(command@), source@, binary@),
    {
        proof {
            reveal_strlit("{source}");
            reveal_strlit("{output}");
            reveal_strlit("{binary}");
        }
        let mut r: Vec<String> = Vec::new();
        let mut i: usize = 0;
        assert(texts(r@) =~= expand_args(texts(command@), source@, binary@).take(0));
        while i < command.len()
            invariant
                i <= command.len(),
                "{source}"@.len() > 0,
                "{output}"@.len() > 0,
                "{binary}"@.len() > 0,
                texts(r@) == expand_args(texts(command@), source@, binary@).take(i as int),
            decreases command.len() - i,
        {
            let a = str_replace(command[i].as_str(), "{source}", source);
            let b = str_replace(a.as_str(), "{output}", binary);
            let c = str_replace(b.as_str(), "{binary}", binary);
            push_text(&mut r, c);
            assert(texts(r@) =~= expand_args(texts(command@), source@, binary@).take(i + 1));
            i += 1;
        }
        assert(expand_args(texts(command@), source@, binary@).take(command.len() as int)
            =~= expand_args(texts(command@), source@, binary@));
        r
    }
}

} // verus!
