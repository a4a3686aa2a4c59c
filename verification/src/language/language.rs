//! A language: its settings, its grammar, and what is known of its server.

use std::ops::Range;

use vstd::prelude::*;
use vstd::utf8::is_ascii_chars;

use crate::language::adapter::CachedLspAdapter;
use crate::language::config::{is_default_config, BracketPair, LanguageConfig};
use crate::language::grammar::{is_themed, BracketConfig, Grammar, GrammarIds, IndentConfig};
use crate::language::grammar::{is_compatible, law_every_capture_is_themed, InjectionConfig};
use crate::language::grammar::{OutlineConfig, ParseRefusal};
use crate::language::highlight::{chunks_len, highlight_runs, is_highlighted, runs_of};
use crate::language::highlight::{law_every_highlighted_chunk_gets_one_run, HighlightChunk};
use crate::language::highlight::HighlightId;
use crate::language::query::{capture_index, capture_names, comes_of, compile_query, meaning};
use crate::language::query::{get_capture_indices, injected_languages, query_content, slice_texts};
use crate::language::query::{capture_indices, injected_language, law_the_last_capture_counts};
use crate::language::query::{optional_text, QueryContent, QueryError, QueryFault};
use crate::strings::{contains_char, is_white_space, white_space};

verus! {

/// A language.
pub struct Language {
    pub config: LanguageConfig,
    pub grammar: Option<Grammar>,
    pub adapter: Option<CachedLspAdapter>,
}

/// Whether `outcome` is what the source of a query means for the grammar of a language: what it is
/// made into in some locale, which does not matter where all of the source is ASCII.
pub open spec fn means(
    language: Language,
    source: Seq<char>,
    outcome: Result<QueryContent, QueryFault>,
) -> bool {
    let ts_language = language.grammar->0.ts_language;
    &&& comes_of(outcome, ts_language, source)
    &&& is_ascii_chars(source) ==> outcome == meaning(ts_language, source)
}

/// Whether `changed` differs from `language` in its grammar only.
pub open spec fn same_but_grammar(changed: Language, language: Language) -> bool {
    &&& changed.config == language.config
    &&& changed.adapter == language.adapter
    &&& changed.grammar is Some
}

/// Whether `changed` is `language` with a query for highlights.
pub open spec fn has_highlights(changed: Language, language: Language, content: QueryContent) -> bool {
    &&& same_but_grammar(changed, language)
    &&& changed.grammar->0.highlights_query matches Some(query)
    &&& query_content(query) == content
    &&& changed.grammar->0 == (Grammar {
        highlights_query: changed.grammar->0.highlights_query,
        ..language.grammar->0
    })
}

/// Whether `changed` is `language` with a query for brackets, if the query captures what it has to;
/// otherwise with the one that it had.
pub open spec fn has_brackets(changed: Language, language: Language, content: QueryContent) -> bool {
    &&& same_but_grammar(changed, language)
    &&& changed.grammar->0 == (Grammar {
        brackets_config: changed.grammar->0.brackets_config,
        ..language.grammar->0
    })
    &&& match (
        capture_index(content.captures, "open"@),
        capture_index(content.captures, "close"@),
    ) {
        (Some(open), Some(close)) => {
            &&& changed.grammar->0.brackets_config matches Some(config)
            &&& query_content(config.query) == content
            &&& config.open_capture_ix == open
            &&& config.close_capture_ix == close
        },
        _ => changed.grammar->0.brackets_config == language.grammar->0.brackets_config,
    }
}

/// Whether `changed` is `language` with a query for what is indented, if the query captures what it
/// has to; otherwise with the one that it had.
pub open spec fn has_indents(changed: Language, language: Language, content: QueryContent) -> bool {
    &&& same_but_grammar(changed, language)
    &&& changed.grammar->0 == (Grammar {
        indents_config: changed.grammar->0.indents_config,
        ..language.grammar->0
    })
    &&& match capture_index(content.captures, "indent"@) {
        Some(indent) => {
            &&& changed.grammar->0.indents_config matches Some(config)
            &&& query_content(config.query) == content
            &&& config.indent_capture_ix == indent
            &&& config.start_capture_ix == capture_index(
                content.captures,
                "start"@,
            )
            &&& config.end_capture_ix == capture_index(content.captures, "end"@)
        },
        None => changed.grammar->0.indents_config == language.grammar->0.indents_config,
    }
}

/// Whether `changed` is `language` with a query for the outline of a text, if the query captures
/// what it has to; otherwise with the one that it had.
pub open spec fn has_outline(changed: Language, language: Language, content: QueryContent) -> bool {
    &&& same_but_grammar(changed, language)
    &&& changed.grammar->0 == (Grammar {
        outline_config: changed.grammar->0.outline_config,
        ..language.grammar->0
    })
    &&& match (
        capture_index(content.captures, "item"@),
        capture_index(content.captures, "name"@),
    ) {
        (Some(item), Some(name)) => {
            &&& changed.grammar->0.outline_config matches Some(config)
            &&& query_content(config.query) == content
            &&& config.item_capture_ix == item
            &&& config.name_capture_ix == name
            &&& config.context_capture_ix == capture_index(
                content.captures,
                "context"@,
            )
        },
        _ => changed.grammar->0.outline_config == language.grammar->0.outline_config,
    }
}

/// Whether `changed` is `language` with a query for text in other languages, if the query captures
/// what it has to; otherwise with the one that it had.
pub open spec fn has_injection(changed: Language, language: Language, content: QueryContent) -> bool {
    &&& same_but_grammar(changed, language)
    &&& changed.grammar->0 == (Grammar {
        injection_config: changed.grammar->0.injection_config,
        ..language.grammar->0
    })
    &&& match capture_index(content.captures, "content"@) {
        Some(captured) => {
            &&& changed.grammar->0.injection_config matches Some(config)
            &&& query_content(config.query) == content
            &&& config.content_capture_ix == captured
            &&& config.language_capture_ix == capture_index(
                content.captures,
                "language"@,
            )
            &&& config.names_languages()
        },
        None => changed.grammar->0.injection_config
            == language.grammar->0.injection_config,
    }
}

impl Language {
    /// A language with some settings, and with the grammar that it has, if it has one.
    pub fn new(
        config: LanguageConfig,
        ts_language: Option<tree_sitter::Language>,
        ids: &mut GrammarIds,
    ) -> (language: Language)
        ensures
            language.config == config,
            language.adapter is None,
            match ts_language {
                Some(ts_language) => {
                    &&& language.grammar matches Some(grammar)
                    &&& grammar.id == old(ids).upcoming()
                    &&& grammar.ts_language == ts_language
                    &&& grammar.highlights_query is None
                    &&& grammar.brackets_config is None
                    &&& grammar.indents_config is None
                    &&& grammar.outline_config is None
                    &&& grammar.injection_config is None
                    &&& grammar.highlight_map.all() == Seq::<HighlightId>::empty()
                    &&& final(ids).upcoming() == (if old(ids).upcoming() == usize::MAX {
                        0
                    } else {
                        (old(ids).upcoming() + 1) as usize
                    })
                },
                None => language.grammar is None && *final(ids) == *old(ids),
            },
    {
        let grammar: Option<Grammar> = match ts_language {
            Some(ts_language) => Some(Grammar::new(ts_language, ids.next())),
            None => None,
        };
        Language { config, grammar, adapter: None }
    }

    /// The language of text without a grammar.
    pub fn plain_text() -> (language: Language)
        ensures
            is_default_config(language.config, "Plain Text"@),
            language.grammar is None,
            language.adapter is None,
    {
        let mut config: LanguageConfig = LanguageConfig::default();
        config.name = "Plain Text".to_string();
        Language { config, grammar: None, adapter: None }
    }

    /// What is known of the server of the language.
    pub fn lsp_adapter(&self) -> (adapter: Option<&CachedLspAdapter>)
        ensures
            match adapter {
                Some(adapter) => self.adapter == Some(*adapter),
                None => self.adapter is None,
            },
    {
        self.adapter.as_ref()
    }

    /// The query that a source gives for the grammar of the language.
    fn compile(&self, source: &str) -> (query: Result<tree_sitter::Query, QueryError>)
        requires
            self.grammar is Some,
        ensures
            match query {
                Ok(query) => means(*self, source@, Ok(query_content(query))),
                Err(error) => means(*self, source@, Err(error@)),
            },
    {
        match &self.grammar {
            Some(grammar) => compile_query(grammar.ts_language, source),
            None => vstd::pervasive::unreached(),
        }
    }

    /// The same language with the query for highlights that a source gives.
    pub fn with_highlights_query(self, source: &str) -> (language: Result<Language, QueryError>)
        requires
            self.grammar is Some,
        ensures
            match language {
                Ok(language) => exists|content: QueryContent| #[trigger]
                    has_highlights(language, self, content) && means(self, source@, Ok(content)),
                Err(error) => means(self, source@, Err(error@)),
            },
    {
        match self.compile(source) {
            Ok(query) => Ok(self.with_highlights(query)),
            Err(error) => Err(error),
        }
    }

    /// The same language with a query for highlights.
    pub fn with_highlights(self, query: tree_sitter::Query) -> (language: Language)
        requires
            self.grammar is Some,
        ensures
            has_highlights(language, self, query_content(query)),
            language.grammar->0.highlights_query == Some(query),
    {
        match self.grammar {
            Some(grammar) => {
                let mut grammar: Grammar = grammar;
                grammar.highlights_query = Some(query);
                Language { config: self.config, grammar: Some(grammar), adapter: self.adapter }
            },
            None => vstd::pervasive::unreached(),
        }
    }

    /// The same language with the query that a source gives for brackets, if the query captures
    /// both what opens and what closes; otherwise with the one that it had.
    pub fn with_brackets_query(self, source: &str) -> (language: Result<Language, QueryError>)
        requires
            self.grammar is Some,
        ensures
            match language {
                Ok(language) => exists|content: QueryContent| #[trigger]
                    has_brackets(language, self, content) && means(self, source@, Ok(content)),
                Err(error) => means(self, source@, Err(error@)),
            },
    {
        match self.compile(source) {
            Ok(query) => Ok(self.with_brackets(query)),
            Err(error) => Err(error),
        }
    }

    /// The same language with a query for brackets, if the query captures both what opens and
    /// what closes; otherwise with the one that it had.
    pub fn with_brackets(self, query: tree_sitter::Query) -> (language: Language)
        requires
            self.grammar is Some,
        ensures
            has_brackets(language, self, query_content(query)),
    {
        match self.grammar {
            Some(grammar) => {
                let mut grammar: Grammar = grammar;
                let indices: Vec<Option<u32>> = wanted_captures(&query, &["open", "close"]);
                proof {
                    reveal_strlit("open");
                    reveal_strlit("close");
                    assert("open"@[0] != "close"@[0]);
                }
                if let (Some(open_capture_ix), Some(close_capture_ix)) = (
                    indices[0],
                    indices[1],
                ) {
                    grammar.brackets_config = Some(
                        BracketConfig { query, open_capture_ix, close_capture_ix },
                    );
                }
                Language { config: self.config, grammar: Some(grammar), adapter: self.adapter }
            },
            None => vstd::pervasive::unreached(),
        }
    }

    /// The same language with the query that a source gives for what is indented, if the query
    /// captures that; otherwise with the one that it had.
    pub fn with_indents_query(self, source: &str) -> (language: Result<Language, QueryError>)
        requires
            self.grammar is Some,
        ensures
            match language {
                Ok(language) => exists|content: QueryContent| #[trigger]
                    has_indents(language, self, content) && means(self, source@, Ok(content)),
                Err(error) => means(self, source@, Err(error@)),
            },
    {
        match self.compile(source) {
            Ok(query) => Ok(self.with_indents(query)),
            Err(error) => Err(error),
        }
    }

    /// The same language with a query for what is indented, if the query captures that;
    /// otherwise with the one that it had.
    pub fn with_indents(self, query: tree_sitter::Query) -> (language: Language)
        requires
            self.grammar is Some,
        ensures
            has_indents(language, self, query_content(query)),
    {
        match self.grammar {
            Some(grammar) => {
                let mut grammar: Grammar = grammar;
                let indices: Vec<Option<u32>> = wanted_captures(
                    &query,
                    &["indent", "start", "end"],
                );
                proof {
                    reveal_strlit("indent");
                    reveal_strlit("start");
                    reveal_strlit("end");
                    assert("indent"@[0] != "start"@[0]);
                    assert("indent"@[0] != "end"@[0]);
                    assert("start"@[0] != "end"@[0]);
                }
                if let Some(indent_capture_ix) = indices[0] {
                    grammar.indents_config = Some(
                        IndentConfig {
                            query,
                            indent_capture_ix,
                            start_capture_ix: indices[1],
                            end_capture_ix: indices[2],
                        },
                    );
                }
                Language { config: self.config, grammar: Some(grammar), adapter: self.adapter }
            },
            None => vstd::pervasive::unreached(),
        }
    }

    /// The same language with the query that a source gives for the outline of a text, if the query
    /// captures both items and their names; otherwise with the one that it had.
    pub fn with_outline_query(self, source: &str) -> (language: Result<Language, QueryError>)
        requires
            self.grammar is Some,
        ensures
            match language {
                Ok(language) => exists|content: QueryContent| #[trigger]
                    has_outline(language, self, content) && means(self, source@, Ok(content)),
                Err(error) => means(self, source@, Err(error@)),
            },
    {
        match self.compile(source) {
            Ok(query) => Ok(self.with_outline(query)),
            Err(error) => Err(error),
        }
    }

    /// The same language with a query for the outline of a text, if the query captures both
    /// items and their names; otherwise with the one that it had.
    pub fn with_outline(self, query: tree_sitter::Query) -> (language: Language)
        requires
            self.grammar is Some,
        ensures
            has_outline(language, self, query_content(query)),
    {
        match self.grammar {
            Some(grammar) => {
                let mut grammar: Grammar = grammar;
                let indices: Vec<Option<u32>> = wanted_captures(
                    &query,
                    &["item", "name", "context"],
                );
                proof {
                    reveal_strlit("item");
                    reveal_strlit("name");
                    reveal_strlit("context");
                    assert("item"@[0] != "name"@[0]);
                    assert("item"@[0] != "context"@[0]);
                    assert("name"@[0] != "context"@[0]);
                }
                if let (Some(item_capture_ix), Some(name_capture_ix)) = (
                    indices[0],
                    indices[1],
                ) {
                    grammar.outline_config = Some(
                        OutlineConfig {
                            query,
                            item_capture_ix,
                            name_capture_ix,
                            context_capture_ix: indices[2],
                        },
                    );
                }
                Language { config: self.config, grammar: Some(grammar), adapter: self.adapter }
            },
            None => vstd::pervasive::unreached(),
        }
    }

    /// The same language with the query that a source gives for text in other languages, if the
    /// query captures that text; otherwise with the one that it had. The language of what a pattern
    /// matches is the one that the properties of the pattern give.
    pub fn with_injection_query(self, source: &str) -> (language: Result<Language, QueryError>)
        requires
            self.grammar is Some,
        ensures
            match language {
                Ok(language) => exists|content: QueryContent| #[trigger]
                    has_injection(language, self, content) && means(self, source@, Ok(content)),
                Err(error) => means(self, source@, Err(error@)),
            },
    {
        match self.compile(source) {
            Ok(query) => Ok(self.with_injection(query)),
            Err(error) => Err(error),
        }
    }

    /// The same language with a query for text in other languages, if the query captures that
    /// text; otherwise with the one that it had. The language of what a pattern matches is the
    /// one that the properties of the pattern give.
    pub fn with_injection(self, query: tree_sitter::Query) -> (language: Language)
        requires
            self.grammar is Some,
        ensures
            has_injection(language, self, query_content(query)),
    {
        match self.grammar {
            Some(grammar) => {
                let mut grammar: Grammar = grammar;
                let indices: Vec<Option<u32>> = wanted_captures(
                    &query,
                    &["language", "content"],
                );
                proof {
                    reveal_strlit("language");
                    reveal_strlit("content");
                    assert("language"@[0] != "content"@[0]);
                }
                let languages_by_pattern_ix: Vec<Option<String>> = injected_languages(
                    &query,
                );
                if let Some(content_capture_ix) = indices[1] {
                    grammar.injection_config = Some(
                        InjectionConfig {
                            query,
                            content_capture_ix,
                            language_capture_ix: indices[0],
                            languages_by_pattern_ix,
                        },
                    );
                }
                Language { config: self.config, grammar: Some(grammar), adapter: self.adapter }
            },
            None => vstd::pervasive::unreached(),
        }
    }

    /// The same language with a server.
    pub fn with_lsp_adapter(self, lsp_adapter: CachedLspAdapter) -> (language: Language)
        ensures
            language == (Language { adapter: Some(lsp_adapter), ..self }),
    {
        Language { config: self.config, grammar: self.grammar, adapter: Some(lsp_adapter) }
    }

    /// The name of the language.
    pub fn name(&self) -> (name: &str)
        ensures
            name@ == self.config.name@,
    {
        self.config.name.as_str()
    }

    /// What a comment up to the end of the line begins with.
    pub fn line_comment_prefix(&self) -> (prefix: Option<&String>)
        ensures
            match prefix {
                Some(prefix) => self.config.line_comment == Some(*prefix),
                None => self.config.line_comment is None,
            },
    {
        self.config.line_comment.as_ref()
    }

    /// Between what a comment over many lines stands.
    pub fn block_comment_delimiters(&self) -> (delimiters: Option<(&String, &String)>)
        ensures
            match delimiters {
                Some((start, end)) => self.config.block_comment == Some((*start, *end)),
                None => self.config.block_comment is None,
            },
    {
        match &self.config.block_comment {
            Some((start, end)) => Some((start, end)),
            None => None,
        }
    }

    /// The sources of diagnostics for which the server reads files from disk; none without a
    /// server.
    pub fn disk_based_diagnostic_sources(&self) -> (sources: &[String])
        ensures
            sources@ == (match self.adapter {
                Some(adapter) => adapter.disk_based_diagnostic_sources@,
                None => Seq::empty(),
            }),
    {
        match &self.adapter {
            Some(adapter) => adapter.disk_based_diagnostic_sources.as_slice(),
            None => &[],
        }
    }

    /// By what the server shows that it reads files from disk.
    pub fn disk_based_diagnostics_progress_token(&self) -> (token: Option<&String>)
        ensures
            match token {
                Some(token) => self.adapter matches Some(adapter)
                    && adapter.disk_based_diagnostics_progress_token == Some(*token),
                None => match self.adapter {
                    Some(adapter) => adapter.disk_based_diagnostics_progress_token is None,
                    None => true,
                },
            },
    {
        match &self.adapter {
            Some(adapter) => adapter.disk_based_diagnostics_progress_token.as_ref(),
            None => None,
        }
    }

    /// Whether `runs` are the highlighted stretches of the chunks that `chunks_in` finds in a
    /// range of a text, given its syntax tree; none without a grammar.
    pub open spec fn are_runs_in<
        C: Fn(&tree_sitter::Tree, &Grammar, &[u8], Range<usize>) -> Vec<HighlightChunk>,
    >(
        self,
        runs: Seq<(Range<usize>, HighlightId)>,
        text: &[u8],
        range: Range<usize>,
        chunks_in: C,
    ) -> bool {
        match self.grammar {
            Some(grammar) => exists|tree: tree_sitter::Tree, chunks: Vec<HighlightChunk>|
                #![trigger chunks_in.ensures((&tree, &grammar, text, range), chunks)]
                grammar.is_tree_of(tree, text@, None) && chunks_in.ensures(
                    (&tree, &grammar, text, range),
                    chunks,
                ) && runs == runs_of(chunks@),
            None => runs == Seq::<(Range<usize>, HighlightId)>::empty(),
        }
    }

    /// Whether `chunks_in` can be asked for the chunks of a range of a text, and finds no more
    /// than can be counted.
    pub open spec fn can_highlight<
        C: Fn(&tree_sitter::Tree, &Grammar, &[u8], Range<usize>) -> Vec<HighlightChunk>,
    >(self, text: &[u8], range: Range<usize>, chunks_in: C) -> bool {
        self.grammar matches Some(grammar) ==> {
            &&& forall|tree: tree_sitter::Tree|
                chunks_in.requires((&tree, &grammar, text, range))
            &&& forall|tree: tree_sitter::Tree, chunks: Vec<HighlightChunk>|
                chunks_in.ensures((&tree, &grammar, text, range), chunks) ==> chunks_len(chunks@)
                    <= usize::MAX
        }
    }

    /// Where what is highlighted in a range of a text stands, and how; nothing without a
    /// grammar. The text is parsed, and `chunks_in` finds the chunks of the range in the tree
    /// with the highlights query of the grammar.
    pub fn highlight_text<
        C: Fn(&tree_sitter::Tree, &Grammar, &[u8], Range<usize>) -> Vec<HighlightChunk>,
    >(&self, text: &[u8], range: Range<usize>, chunks_in: &C) -> (runs: Vec<
        (Range<usize>, HighlightId),
    >)
        requires
            text@.len() < u32::MAX,
            self.grammar matches Some(grammar) ==> is_compatible(grammar.ts_language),
            self.can_highlight(text, range, *chunks_in),
        ensures
            self.are_runs_in(runs@, text, range, *chunks_in),
    {
        match self.try_highlight_text(text, range, chunks_in) {
            Ok(runs) => runs,
            Err(_) => vstd::pervasive::unreached(),
        }
    }

    /// Where what is highlighted in a range of a text stands, and how, unless the parser cannot
    /// use the grammar.
    pub fn try_highlight_text<
        C: Fn(&tree_sitter::Tree, &Grammar, &[u8], Range<usize>) -> Vec<HighlightChunk>,
    >(&self, text: &[u8], range: Range<usize>, chunks_in: &C) -> (runs: Result<
        Vec<(Range<usize>, HighlightId)>,
        ParseRefusal,
    >)
        requires
            text@.len() < u32::MAX,
            self.can_highlight(text, range, *chunks_in),
        ensures
            match runs {
                Ok(runs) => {
                    &&& self.grammar matches Some(grammar) ==> is_compatible(grammar.ts_language)
                    &&& self.are_runs_in(runs@, text, range, *chunks_in)
                },
                Err(refusal) => {
                    &&& refusal == ParseRefusal::IncompatibleGrammar
                    &&& self.grammar matches Some(grammar)
                    &&& !is_compatible(grammar.ts_language)
                },
            },
    {
        match &self.grammar {
            Some(grammar) => match grammar.try_parse_text(text, None) {
                Ok(tree) => {
                    let chunks: Vec<HighlightChunk> = chunks_in(&tree, grammar, text, range);
                    Ok(highlight_runs(chunks.as_slice()))
                },
                Err(refusal) => Err(refusal),
            },
            None => Ok(Vec::new()),
        }
    }

    /// The brackets of the language.
    pub fn brackets(&self) -> (brackets: &[BracketPair])
        ensures
            brackets@ == self.config.brackets@,
    {
        self.config.brackets.as_slice()
    }

    /// How the paths of texts in the language end.
    pub fn path_suffixes(&self) -> (suffixes: &[String])
        ensures
            suffixes@ == self.config.path_suffixes@,
    {
        self.config.path_suffixes.as_slice()
    }

    /// Whether brackets are closed before a character: before white space, and before what the
    /// settings say.
    pub fn should_autoclose_before(&self, c: char) -> (closed: bool)
        ensures
            closed == (white_space(c) || self.config.autoclose_before@.contains(c)),
    {
        is_white_space(c) || contains_char(self.config.autoclose_before.as_str(), c)
    }

    /// Highlights what each capture of the highlights query matches as `theme` says of its
    /// name.
    pub fn set_theme<T: Fn(&String) -> HighlightId>(&mut self, theme: &T)
        requires
            forall|name: &String| theme.requires((name,)),
        ensures
            is_themed_language(*final(self), *old(self), *theme),
    {
        if let Some(grammar) = &mut self.grammar {
            grammar.set_theme(theme);
        }
    }

    /// The grammar of the language.
    pub fn grammar(&self) -> (grammar: Option<&Grammar>)
        ensures
            match grammar {
                Some(grammar) => self.grammar == Some(*grammar),
                None => self.grammar is None,
            },
    {
        self.grammar.as_ref()
    }
}

/// Whether `changed` is `language`, highlighted as `theme` says.
pub open spec fn is_themed_language<T: Fn(&String) -> HighlightId>(
    changed: Language,
    language: Language,
    theme: T,
) -> bool {
    &&& changed.config == language.config
    &&& changed.adapter == language.adapter
    &&& match language.grammar {
        Some(grammar) => {
            &&& changed.grammar matches Some(themed)
            &&& themed == (Grammar { highlight_map: themed.highlight_map, ..grammar })
            &&& grammar.highlights_query is None ==> themed.highlight_map == grammar.highlight_map
            &&& grammar.highlights_query matches Some(query) ==> is_themed(
                query_content(query).captures,
                themed.highlight_map.all(),
                theme,
            )
        },
        None => changed.grammar is None,
    }
}

/// The place of the capture of a query with each of some wanted names.
fn wanted_captures(query: &tree_sitter::Query, wanted: &[&str]) -> (indices: Vec<Option<u32>>)
    ensures
        indices@ == capture_indices(query_content(*query).captures, slice_texts(wanted@)),
{
    get_capture_indices(capture_names(query), wanted)
}

/// Whether `place` is that of the last capture with a name, or there is none and so no such capture.
pub open spec fn is_place_of(
    place: Option<u32>,
    captures: Seq<Seq<char>>,
    name: Seq<char>,
) -> bool {
    match place {
        Some(place) => {
            &&& place < captures.len()
            &&& captures[place as int] == name
            &&& forall|later: int|
                place < later < captures.len() ==> #[trigger] captures[later] != name
        },
        None => !captures.contains(name),
    }
}

/// A query for highlights replaces the one that the grammar had, and changes nothing else.
pub proof fn law_a_highlights_query_is_kept(
    changed: Language,
    language: Language,
    content: QueryContent,
)
    requires
        language.grammar is Some,
        has_highlights(changed, language, content),
    ensures
        changed.config == language.config,
        changed.adapter == language.adapter,
        changed.grammar matches Some(grammar) && {
            let before = language.grammar->0;
            &&& grammar.highlights_query matches Some(query) && query_content(query) == content
            &&& grammar.id == before.id
            &&& grammar.ts_language == before.ts_language
            &&& grammar.brackets_config == before.brackets_config
            &&& grammar.indents_config == before.indents_config
            &&& grammar.outline_config == before.outline_config
            &&& grammar.injection_config == before.injection_config
            &&& grammar.highlight_map == before.highlight_map
        },
{
}

/// A query for brackets is kept exactly if it captures what opens and what closes, together with the
/// places of these captures; nothing else changes.
pub proof fn law_a_brackets_query_is_kept(
    changed: Language,
    language: Language,
    content: QueryContent,
)
    requires
        language.grammar is Some,
        content.captures.len() <= u32::MAX,
        has_brackets(changed, language, content),
    ensures
        changed.config == language.config,
        changed.adapter == language.adapter,
        changed.grammar matches Some(grammar) && {
            let before = language.grammar->0;
            &&& content.captures.contains("open"@) && content.captures.contains("close"@) ==> (
            grammar.brackets_config matches Some(config) && query_content(config.query) == content
                && is_place_of(Some(config.open_capture_ix), content.captures, "open"@)
                && is_place_of(Some(config.close_capture_ix), content.captures, "close"@))
            &&& !(content.captures.contains("open"@) && content.captures.contains("close"@))
                ==> grammar.brackets_config == before.brackets_config
            &&& grammar.id == before.id
            &&& grammar.ts_language == before.ts_language
            &&& grammar.highlights_query == before.highlights_query
            &&& grammar.indents_config == before.indents_config
            &&& grammar.outline_config == before.outline_config
            &&& grammar.injection_config == before.injection_config
            &&& grammar.highlight_map == before.highlight_map
        },
{
    law_the_last_capture_counts(content.captures, "open"@);
    law_the_last_capture_counts(content.captures, "close"@);
}

/// A query for what is indented is kept exactly if it captures that, together with the places of what
/// it captures; nothing else changes.
pub proof fn law_an_indents_query_is_kept(
    changed: Language,
    language: Language,
    content: QueryContent,
)
    requires
        language.grammar is Some,
        content.captures.len() <= u32::MAX,
        has_indents(changed, language, content),
    ensures
        changed.config == language.config,
        changed.adapter == language.adapter,
        changed.grammar matches Some(grammar) && {
            let before = language.grammar->0;
            &&& content.captures.contains("indent"@) ==> (
            grammar.indents_config matches Some(config) && query_content(config.query) == content
                && is_place_of(Some(config.indent_capture_ix), content.captures, "indent"@)
                && is_place_of(config.start_capture_ix, content.captures, "start"@) && is_place_of(
                config.end_capture_ix,
                content.captures,
                "end"@,
            ))
            &&& !content.captures.contains("indent"@) ==> grammar.indents_config
                == before.indents_config
            &&& grammar.id == before.id
            &&& grammar.ts_language == before.ts_language
            &&& grammar.highlights_query == before.highlights_query
            &&& grammar.brackets_config == before.brackets_config
            &&& grammar.outline_config == before.outline_config
            &&& grammar.injection_config == before.injection_config
            &&& grammar.highlight_map == before.highlight_map
        },
{
    law_the_last_capture_counts(content.captures, "indent"@);
    law_the_last_capture_counts(content.captures, "start"@);
    law_the_last_capture_counts(content.captures, "end"@);
}

/// A query for the outline of a text is kept exactly if it captures items and their names, together
/// with the places of what it captures; nothing else changes.
pub proof fn law_an_outline_query_is_kept(
    changed: Language,
    language: Language,
    content: QueryContent,
)
    requires
        language.grammar is Some,
        content.captures.len() <= u32::MAX,
        has_outline(changed, language, content),
    ensures
        changed.config == language.config,
        changed.adapter == language.adapter,
        changed.grammar matches Some(grammar) && {
            let before = language.grammar->0;
            &&& content.captures.contains("item"@) && content.captures.contains("name"@) ==> (
            grammar.outline_config matches Some(config) && query_content(config.query) == content
                && is_place_of(Some(config.item_capture_ix), content.captures, "item"@)
                && is_place_of(Some(config.name_capture_ix), content.captures, "name"@)
                && is_place_of(config.context_capture_ix, content.captures, "context"@))
            &&& !(content.captures.contains("item"@) && content.captures.contains("name"@))
                ==> grammar.outline_config == before.outline_config
            &&& grammar.id == before.id
            &&& grammar.ts_language == before.ts_language
            &&& grammar.highlights_query == before.highlights_query
            &&& grammar.brackets_config == before.brackets_config
            &&& grammar.indents_config == before.indents_config
            &&& grammar.injection_config == before.injection_config
            &&& grammar.highlight_map == before.highlight_map
        },
{
    law_the_last_capture_counts(content.captures, "item"@);
    law_the_last_capture_counts(content.captures, "name"@);
    law_the_last_capture_counts(content.captures, "context"@);
}

/// A query for text in other languages is kept exactly if it captures that text, together with the
/// places of what it captures, and with the language that the properties of each of its patterns
/// give; nothing else changes.
pub proof fn law_an_injection_query_is_kept(
    changed: Language,
    language: Language,
    content: QueryContent,
)
    requires
        language.grammar is Some,
        content.captures.len() <= u32::MAX,
        has_injection(changed, language, content),
    ensures
        changed.config == language.config,
        changed.adapter == language.adapter,
        changed.grammar matches Some(grammar) && {
            let before = language.grammar->0;
            &&& content.captures.contains("content"@) ==> (
            grammar.injection_config matches Some(config) && query_content(config.query) == content
                && is_place_of(Some(config.content_capture_ix), content.captures, "content"@)
                && is_place_of(config.language_capture_ix, content.captures, "language"@)
                && config.languages_by_pattern_ix@.len() == content.settings.len() && forall|
                index: int,
            |
                0 <= index < content.settings.len() ==> optional_text(
                    #[trigger] config.languages_by_pattern_ix@[index],
                ) == injected_language(content.settings[index]))
            &&& !content.captures.contains("content"@) ==> grammar.injection_config
                == before.injection_config
            &&& grammar.id == before.id
            &&& grammar.ts_language == before.ts_language
            &&& grammar.highlights_query == before.highlights_query
            &&& grammar.brackets_config == before.brackets_config
            &&& grammar.indents_config == before.indents_config
            &&& grammar.outline_config == before.outline_config
            &&& grammar.highlight_map == before.highlight_map
        },
{
    law_the_last_capture_counts(content.captures, "content"@);
    law_the_last_capture_counts(content.captures, "language"@);
}

/// A theme changes how the captures of the highlights query are highlighted, each as it says of the
/// name of that capture, and nothing else; without such a query, or a grammar, it changes nothing.
pub proof fn law_a_theme_changes_only_highlights<T: Fn(&String) -> HighlightId>(
    changed: Language,
    language: Language,
    theme: T,
    index: int,
)
    requires
        is_themed_language(changed, language, theme),
        0 <= index,
    ensures
        changed.config == language.config,
        changed.adapter == language.adapter,
        language.grammar is None ==> changed.grammar is None,
        language.grammar matches Some(before) ==> (changed.grammar matches Some(grammar) && {
            &&& grammar.id == before.id
            &&& grammar.ts_language == before.ts_language
            &&& grammar.highlights_query == before.highlights_query
            &&& grammar.brackets_config == before.brackets_config
            &&& grammar.indents_config == before.indents_config
            &&& grammar.outline_config == before.outline_config
            &&& grammar.injection_config == before.injection_config
            &&& before.highlights_query is None ==> grammar.highlight_map == before.highlight_map
            &&& before.highlights_query matches Some(query) ==> {
                let captures = query_content(query).captures;
                &&& grammar.highlight_map.all().len() == captures.len()
                &&& index < captures.len() ==> exists|name: &String|
                    name@ == captures[index] && #[trigger] theme.ensures(
                        (name,),
                        grammar.highlight_map.all()[index],
                    )
            }
        }),
{
    if let Some(before) = language.grammar {
        if let Some(query) = before.highlights_query {
            let captures = query_content(query).captures;
            if index < captures.len() {
                law_every_capture_is_themed(
                    captures,
                    changed.grammar->0.highlight_map.all(),
                    theme,
                    index,
                );
            }
        }
    }
}

/// The highlighted stretches of a text are those of chunks that were found in a range of it by its own
/// syntax tree: one for each chunk that is highlighted. Without a grammar nothing is highlighted.
pub proof fn law_highlights_come_from_the_syntax_tree<
    C: Fn(&tree_sitter::Tree, &Grammar, &[u8], Range<usize>) -> Vec<HighlightChunk>,
>(
    language: Language,
    runs: Seq<(Range<usize>, HighlightId)>,
    text: &[u8],
    range: Range<usize>,
    chunks_in: C,
)
    requires
        language.are_runs_in(runs, text, range, chunks_in),
        language.can_highlight(text, range, chunks_in),
    ensures
        language.grammar is None ==> runs.len() == 0,
        language.grammar matches Some(grammar) ==> exists|
            tree: tree_sitter::Tree,
            chunks: Vec<HighlightChunk>,
        |
            #![trigger chunks_in.ensures((&tree, &grammar, text, range), chunks)]
            grammar.is_tree_of(tree, text@, None) && chunks_in.ensures(
                (&tree, &grammar, text, range),
                chunks,
            ) && runs.len() == chunks@.filter(|chunk: HighlightChunk| is_highlighted(chunk)).len(),
{
    if let Some(grammar) = language.grammar {
        let (tree, chunks) = choose|tree: tree_sitter::Tree, chunks: Vec<HighlightChunk>|
            #![trigger chunks_in.ensures((&tree, &grammar, text, range), chunks)]
            grammar.is_tree_of(tree, text@, None) && chunks_in.ensures(
                (&tree, &grammar, text, range),
                chunks,
            ) && runs == runs_of(chunks@);
        law_every_highlighted_chunk_gets_one_run(chunks@);
    }
}

} // verus!
