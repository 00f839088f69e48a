//! The configuration that the pipeline consumes: process-wide properties and
//! the ordered rule list, as written and as compiled.
use regex::Regex;
use vstd::prelude::*;

verus! {

/// The compiled regular expression of the `regex` crate, opaque to the
/// verifier.
#[verifier::external_type_specification]
#[verifier::external_body]
pub struct ExRegex(regex::Regex);

/// The error with which the `regex` crate rejects a pattern, opaque to the
/// verifier.
#[verifier::external_type_specification]
#[verifier::external_body]
pub struct ExRegexError(regex::Error);

/// The texts in which a compiled expression finds a match: what
/// `Regex::is_match` answers for each text.
pub uninterp spec fn regex_language(re: Regex) -> Set<Seq<char>>;

/// What `Regex::new` makes of a pattern: the texts that the compiled
/// expression matches, or nothing where the pattern is rejected.
pub uninterp spec fn pattern_language(pattern: Seq<char>) -> Option<Set<Seq<char>>>;

/// `Regex::new` compiles a pattern with the crate's default options. It
/// takes every pattern: one that is no valid expression, or whose compiled
/// form would exceed the default size limit, is an error. Whether it
/// succeeds, and which texts the compiled expression then matches, depends on
/// the pattern alone; the contract gives both a name and claims no more.
pub assume_specification[ Regex::new ](re: &str) -> (compiled: Result<Regex, regex::Error>)
    ensures
        match compiled {
            Ok(regex) => pattern_language(re@) == Some(regex_language(regex)),
            Err(_) => pattern_language(re@) is None,
        },
;

/// `Regex::is_match` says whether the expression matches anywhere in the
/// text. It searches from the start of the text, which is in range for every
/// text; its answer depends on the expression and the text alone.
pub assume_specification[ Regex::is_match ](re: &Regex, haystack: &str) -> (found: bool)
    ensures
        found == regex_language(*re).contains(haystack@),
;

/// Process-wide settings, fixed at startup.
#[derive(Debug, PartialEq, Eq)]
pub struct CoreProperties {
    pub source_dir: String,
    pub log: bool,
    pub dry_run: bool,
}

/// A rule as written: a pattern and the directory that matching files go to.
#[derive(Debug, PartialEq, Eq)]
pub struct MatchingRule {
    pub pattern: String,
    pub target: String,
}

/// The configuration as written, before its patterns are compiled.
#[derive(Debug, PartialEq, Eq)]
pub struct FileConfig {
    pub config: CoreProperties,
    pub rules: Vec<MatchingRule>,
}

/// A rule with its pattern compiled.
#[derive(Debug)]
pub struct MatchingRegexRule {
    pub regex: Regex,
    pub target: String,
}

/// The configuration that the pipeline runs on: the properties, and the
/// rules in the order in which they were written, compiled.
#[derive(Debug)]
pub struct Config {
    pub config: CoreProperties,
    pub rules: Vec<MatchingRegexRule>,
}

/// Why a configuration is turned down.
#[derive(Clone, Copy, Debug, PartialEq, Eq)]
pub enum ConfigError {
    /// The source directory is missing or is no directory.
    SourceNotADirectory,
    /// The pattern of the rule at `index` does not compile.
    InvalidPattern { index: usize },
}

/// Whether the pattern compiles.
pub open spec fn pattern_is_valid(pattern: Seq<char>) -> bool {
    pattern_language(pattern) is Some
}

impl MatchingRegexRule {
    /// Whether the rule's expression matches somewhere in `file_name`.
    pub open spec fn matches(&self, file_name: Seq<char>) -> bool {
        regex_language(self.regex).contains(file_name)
    }

    /// Whether this is `rule` with its pattern compiled.
    pub open spec fn compiles(&self, rule: &MatchingRule) -> bool {
        &&& self.target@ == rule.target@
        &&& pattern_language(rule.pattern@) == Some(regex_language(self.regex))
    }

    /// Compiles a rule whose pattern is known to be valid.
    pub fn new(rule: &MatchingRule) -> (compiled: Self)
        requires
            pattern_is_valid(rule.pattern@),
        ensures
            compiled.compiles(rule),
    {
        let target = rule.target.clone();
        match Regex::new(rule.pattern.as_str()) {
            Ok(regex) => MatchingRegexRule { regex, target },
            Err(_) => unreached(),
        }
    }

    /// Compiles a rule, or returns nothing where its pattern is rejected.
    pub fn try_new(rule: &MatchingRule) -> (compiled: Option<Self>)
        ensures
            compiled is Some <==> pattern_is_valid(rule.pattern@),
            compiled matches Some(c) ==> c.compiles(rule),
    {
        match Regex::new(rule.pattern.as_str()) {
            Ok(_) => Some(Self::new(rule)),
            Err(_) => None,
        }
    }
}

/// Whether rule `i` is the first whose pattern does not compile.
pub open spec fn is_first_invalid(rules: Seq<MatchingRule>, i: int) -> bool {
    &&& 0 <= i < rules.len()
    &&& !pattern_is_valid(rules[i].pattern@)
    &&& forall|j: int| 0 <= j < i ==> pattern_is_valid((#[trigger] rules[j]).pattern@)
}

/// Whether `compiled` holds the rules of `written`, one for one and in the
/// same order, each compiled.
pub open spec fn compiled_in_order(
    compiled: Seq<MatchingRegexRule>,
    written: Seq<MatchingRule>,
) -> bool {
    &&& compiled.len() == written.len()
    &&& forall|i: int| 0 <= i < written.len() ==> (#[trigger] compiled[i]).compiles(&written[i])
}

impl Config {
    /// Builds the configuration from what the configuration file holds.
    /// `file_config` is the file as it was parsed, and `source_is_dir` says
    /// whether the source directory that it names was found to be a
    /// directory. That is looked at first; then the rules are compiled in
    /// their order, and the first pattern that does not compile is reported.
    pub fn from_file(file_config: FileConfig, source_is_dir: bool) -> (built: Result<
        Config,
        ConfigError,
    >)
        ensures
            match built {
                Ok(config) => {
                    &&& source_is_dir
                    &&& config.config == file_config.config
                    &&& compiled_in_order(config.rules@, file_config.rules@)
                },
                Err(ConfigError::SourceNotADirectory) => !source_is_dir,
                Err(ConfigError::InvalidPattern { index }) => source_is_dir && is_first_invalid(
                    file_config.rules@,
                    index as int,
                ),
            },
    {
        if !source_is_dir {
            return Err(ConfigError::SourceNotADirectory);
        }
        let mut rules: Vec<MatchingRegexRule> = Vec::new();
        let mut i: usize = 0;
        while i < file_config.rules.len()
            invariant
                source_is_dir,
                i <= file_config.rules.len(),
                compiled_in_order(rules@, file_config.rules@.take(i as int)),
            decreases file_config.rules.len() - i,
        {
            match MatchingRegexRule::try_new(&file_config.rules[i]) {
                Some(rule) => rules.push(rule),
                None => {
                    assert forall|j: int| 0 <= j < i implies pattern_is_valid(
                        (#[trigger] file_config.rules@[j]).pattern@,
                    ) by {
                        assert(rules@[j].compiles(&file_config.rules@.take(i as int)[j]));
                    }
                    return Err(ConfigError::InvalidPattern { index: i });
                },
            }
            i = i + 1;
        }
        Ok(Config { config: file_config.config, rules })
    }
}

} // verus!
