//! The settings of a language.

use vstd::prelude::*;

verus! {

/// A regular expression of `regex`: an opaque value.
#[verifier::external_type_specification]
#[verifier::external_body]
pub struct ExRegex(regex::Regex);

/// The pattern that a `regex::Regex` was made of.
pub uninterp spec fn regex_pattern(expression: regex::Regex) -> Seq<char>;

/// What `regex::Regex::new` says against a pattern on a machine whose pointers have some number
/// of bits; nothing where it accepts the pattern.
pub uninterp spec fn regex_fault(pattern: Seq<char>, pointer_bits: u32) -> Option<Seq<char>>;

/// Calls `regex::Regex::new`, which makes a regular expression of a pattern, or says in words
/// what is wrong with the pattern. Either depends on the pattern, and on the width of pointers:
/// a pattern is refused that takes too many bytes.
#[verifier::external_body]
fn new_regex(pattern: &str) -> (expression: Result<regex::Regex, String>)
    ensures
        match expression {
            Ok(expression) => regex_fault(pattern@, usize::BITS) is None && regex_pattern(expression)
                == pattern@,
            Err(message) => regex_fault(pattern@, usize::BITS) == Some(message@),
        },
{
    regex::Regex::new(pattern).map_err(|error| error.to_string())
}

/// A pattern that is no regular expression.
#[derive(Debug, PartialEq, Eq)]
pub struct InvalidPattern {
    pub message: String,
}

/// The regular expression that a setting holds, if it holds one.
pub fn deserialize_regex(source: Option<&str>) -> (expression: Result<
    Option<regex::Regex>,
    InvalidPattern,
>)
    ensures
        match source {
            None => expression matches Ok(None),
            Some(source) => match expression {
                Ok(Some(expression)) => regex_fault(source@, usize::BITS) is None && regex_pattern(expression)
                    == source@,
                Ok(None) => false,
                Err(error) => regex_fault(source@, usize::BITS) == Some(error.message@),
            },
        },
{
    match source {
        Some(source) => match new_regex(source) {
            Ok(expression) => Ok(Some(expression)),
            Err(message) => Err(InvalidPattern { message }),
        },
        None => Ok(None),
    }
}

/// Two texts that belong together.
#[derive(Debug, PartialEq, Eq)]
pub struct BracketPair {
    pub start: String,
    pub end: String,
    /// Whether the end is inserted when the start is typed.
    pub close: bool,
    /// Whether a line break between the two makes a line of its own.
    pub newline: bool,
}

impl Clone for BracketPair {
    fn clone(&self) -> (copy: BracketPair)
        ensures
            copy == *self,
    {
        BracketPair {
            start: self.start.clone(),
            end: self.end.clone(),
            close: self.close,
            newline: self.newline,
        }
    }
}

impl Default for BracketPair {
    fn default() -> (pair: BracketPair)
        ensures
            pair.start@ == Seq::<char>::empty(),
            pair.end@ == Seq::<char>::empty(),
            !pair.close,
            !pair.newline,
    {
        BracketPair { start: String::new(), end: String::new(), close: false, newline: false }
    }
}

/// The settings of a language.
pub struct LanguageConfig {
    pub name: String,
    pub path_suffixes: Vec<String>,
    pub brackets: Vec<BracketPair>,
    pub auto_indent_using_last_non_empty_line: bool,
    pub increase_indent_pattern: Option<regex::Regex>,
    pub decrease_indent_pattern: Option<regex::Regex>,
    pub autoclose_before: String,
    pub line_comment: Option<String>,
    pub block_comment: Option<(String, String)>,
}

/// Whether to indent by the last line that is not empty, where the settings do not say.
pub fn auto_indent_using_last_non_empty_line_default() -> (auto_indent: bool)
    ensures
        auto_indent,
{
    true
}

/// Whether `config` says nothing but the name of a language.
pub open spec fn is_default_config(config: LanguageConfig, name: Seq<char>) -> bool {
    &&& config.name@ == name
    &&& config.path_suffixes@.len() == 0
    &&& config.brackets@.len() == 0
    &&& config.auto_indent_using_last_non_empty_line
    &&& config.increase_indent_pattern is None
    &&& config.decrease_indent_pattern is None
    &&& config.autoclose_before@ == Seq::<char>::empty()
    &&& config.line_comment is None
    &&& config.block_comment is None
}

impl Default for LanguageConfig {
    fn default() -> (config: LanguageConfig)
        ensures
            is_default_config(config, Seq::empty()),
    {
        LanguageConfig {
            name: String::new(),
            path_suffixes: Vec::new(),
            brackets: Vec::new(),
            auto_indent_using_last_non_empty_line: auto_indent_using_last_non_empty_line_default(),
            increase_indent_pattern: None,
            decrease_indent_pattern: None,
            autoclose_before: String::new(),
            line_comment: None,
            block_comment: None,
        }
    }
}

} // verus!
