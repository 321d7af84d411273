//! The configuration of the playground: where it listens and which
//! languages it runs.

use crate::template::{is_valid_template, valid_template};
use vstd::prelude::*;

verus! {

/// How to compile and run one language.
#[derive(Debug, Clone, PartialEq)]
pub struct CodeLanguage {
    /// The language name, e.g. `c`, `cpp`, `rust`; a request names its
    /// language by it.
    pub name: String,
    /// The compile command, e.g. `gcc {sourceFile} -o {targetFile}`; absent
    /// for an interpreted language.
    pub compile: Option<String>,
    /// The execute command, e.g. `{targetFile}`, or `python3 {targetFile}`
    /// for an interpreted language.
    pub execute: String,
    /// The file extension of the language.
    pub extension: String,
}

/// The model of a [`CodeLanguage`].
pub struct CodeLanguageView {
    pub name: Seq<char>,
    pub compile: Option<Seq<char>>,
    pub execute: Seq<char>,
    pub extension: Seq<char>,
}

impl View for CodeLanguage {
    type V = CodeLanguageView;

    open spec fn view(&self) -> CodeLanguageView {
        CodeLanguageView {
            name: self.name@,
            compile: match self.compile {
                Some(c) => Some(c@),
                None => None,
            },
            execute: self.execute@,
            extension: self.extension@,
        }
    }
}

/// Whether the command templates of a language are well formed.
pub open spec fn valid_language(language: CodeLanguageView) -> bool {
    valid_template(language.execute) && match language.compile {
        Some(c) => valid_template(c),
        None => true,
    }
}

impl CodeLanguage {
    /// Checks the command templates of the language, as a configuration is
    /// loaded.
    pub fn is_valid(&self) -> (r: bool)
        ensures
            r == valid_language(self@),
    {
        let compile_ok = match &self.compile {
            Some(c) => is_valid_template(c.as_str()),
            None => true,
        };
        compile_ok && is_valid_template(self.execute.as_str())
    }
}

impl Default for CodeLanguage {
    /// The language `c`, compiled with `gcc`.
    fn default() -> (language: CodeLanguage)
        ensures
            language@ == (CodeLanguageView {
                name: "c"@,
                compile: Some("gcc {flags} {sourceFile} -o {targetFile}"@),
                execute: "{targetFile}"@,
                extension: "c"@,
            }),
    {
        CodeLanguage {
            compile: Some("gcc {flags} {sourceFile} -o {targetFile}".to_string()),
            execute: "{targetFile}".to_string(),
            name: "c".to_string(),
            extension: "c".to_string(),
        }
    }
}

/// The code execution configuration.
#[derive(Debug, Clone, PartialEq)]
pub struct ExecutorConfig {
    /// The time budget of each stage, in seconds.
    pub timeout: u64,
    /// The languages that can be asked for.
    pub languages: Vec<CodeLanguage>,
}

/// The model of an [`ExecutorConfig`].
pub struct ExecutorConfigView {
    pub timeout: u64,
    pub languages: Seq<CodeLanguageView>,
}

impl View for ExecutorConfig {
    type V = ExecutorConfigView;

    open spec fn view(&self) -> ExecutorConfigView {
        ExecutorConfigView {
            timeout: self.timeout,
            languages: Seq::new(self.languages@.len(), |i: int| self.languages@[i]@),
        }
    }
}

/// The first language of the list that goes by `name`.
pub open spec fn lookup(languages: Seq<CodeLanguageView>, name: Seq<char>) -> Option<
    CodeLanguageView,
>
    decreases languages.len(),
{
    if languages.len() == 0 {
        None
    } else if languages[0].name == name {
        Some(languages[0])
    } else {
        lookup(languages.skip(1), name)
    }
}

/// `lookup` finds a language exactly where one of that name is listed, and
/// then the first one.
pub proof fn lemma_lookup(languages: Seq<CodeLanguageView>, name: Seq<char>)
    ensures
        lookup(languages, name) is None <==> forall|i: int|
            0 <= i < languages.len() ==> (#[trigger] languages[i]).name != name,
        lookup(languages, name) matches Some(found) ==> exists|i: int|
            0 <= i < languages.len() && #[trigger] languages[i] == found && found.name == name
                && forall|j: int| 0 <= j < i ==> (#[trigger] languages[j]).name != name,
    decreases languages.len(),
{
    if languages.len() != 0 && languages[0].name != name {
        let rest = languages.skip(1);
        lemma_lookup(rest, name);
        assert forall|i: int| 0 <= i < rest.len() implies rest[i] == languages[i + 1] by {}
        if lookup(rest, name) is None {
            assert forall|i: int| 0 <= i < languages.len() implies (
            #[trigger] languages[i]).name != name by {
                if i > 0 {
                    assert(rest[i - 1] == languages[i]);
                }
            }
        } else {
            let found = lookup(rest, name)->0;
            let i = choose|i: int|
                0 <= i < rest.len() && #[trigger] rest[i] == found && found.name == name
                    && forall|j: int| 0 <= j < i ==> (#[trigger] rest[j]).name != name;
            assert(languages[i + 1] == found);
            assert forall|j: int| 0 <= j < i + 1 implies (#[trigger] languages[j]).name != name by {
                if j > 0 {
                    assert(rest[j - 1] == languages[j]);
                }
            }
        }
    } else if languages.len() != 0 {
        assert(languages[0] == lookup(languages, name)->0);
    }
}

impl ExecutorConfig {
    /// The language that a request asks for by `name`: the first of that
    /// name in the list.
    pub fn find(&self, name: &str) -> (found: Option<&CodeLanguage>)
        ensures
            match found {
                Some(language) => lookup(self@.languages, name@) == Some(language@),
                None => lookup(self@.languages, name@) is None,
            },
    {
        let ghost all = self@.languages;
        let wanted = name.to_string();
        let mut i: usize = 0;
        assert(all.skip(0) =~= all);
        while i < self.languages.len()
            invariant
                all == self@.languages,
                wanted@ == name@,
                i <= self.languages.len(),
                lookup(all, name@) == lookup(all.skip(i as int), name@),
            decreases self.languages.len() - i,
        {
            let language = &self.languages[i];
            assert(all.skip(i as int)[0] == language@);
            if language.name == wanted {
                return Some(language);
            }
            assert(all.skip(i as int).skip(1) =~= all.skip(i + 1));
            i += 1;
        }
        None
    }

    /// Whether every language of the list has well-formed templates.
    pub fn is_valid(&self) -> (r: bool)
        ensures
            r == forall|i: int|
                0 <= i < self@.languages.len() ==> valid_language(#[trigger] self@.languages[i]),
    {
        let mut i: usize = 0;
        while i < self.languages.len()
            invariant
                i <= self.languages.len(),
                forall|k: int| 0 <= k < i ==> valid_language(#[trigger] self@.languages[k]),
            decreases self.languages.len() - i,
        {
            if !self.languages[i].is_valid() {
                assert(!valid_language(self@.languages[i as int]));
                return false;
            }
            i += 1;
        }
        true
    }
}

impl Default for ExecutorConfig {
    /// A budget of 5000 and no language.
    fn default() -> (config: ExecutorConfig)
        ensures
            config@ == (ExecutorConfigView { timeout: 5000, languages: Seq::empty() }),
    {
        let config = ExecutorConfig { timeout: 5000, languages: Vec::new() };
        assert(config@.languages =~= Seq::empty());
        config
    }
}

/// The networking configuration.
#[derive(Debug, Clone, PartialEq)]
pub struct NetworkConfig {
    /// The IPv4 address to run the server on, as its four octets.
    pub ip: [u8; 4],
    /// The port to listen on.
    pub port: u16,
    /// Timeout in seconds for the requests.
    pub timeout: u16,
    /// Origins to allow incoming requests from.
    pub origins: Vec<String>,
}

impl Default for NetworkConfig {
    /// The loopback address, port 4242, ten seconds, one origin.
    fn default() -> (config: NetworkConfig)
        ensures
            config.ip@ == seq![127u8, 0u8, 0u8, 1u8],
            config.port == 4242,
            config.timeout == 10,
            config.origins.deep_view() == seq![".codam.nl"@],
    {
        let mut origins: Vec<String> = Vec::new();
        origins.push(".codam.nl".to_string());
        let config = NetworkConfig { ip: [127, 0, 0, 1], port: 4242, timeout: 10, origins };
        assert(config.ip@ =~= seq![127u8, 0u8, 0u8, 1u8]);
        assert(config.origins.deep_view() =~= seq![".codam.nl"@]);
        config
    }
}

/// The overall configuration of the playground.
#[derive(Debug, Clone, PartialEq)]
pub struct Config {
    /// The networking configuration.
    pub network: NetworkConfig,
    /// The code execution configuration.
    pub executor: ExecutorConfig,
}

} // verus!
