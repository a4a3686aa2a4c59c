//! Grammars, and the queries that go with them.

use vstd::prelude::*;

use crate::language::highlight::{id_at, HighlightId, HighlightMap};
use crate::language::query::{capture_index_for_name, capture_names, query_content, texts};
use crate::language::query::{injected_language, optional_text};

verus! {

/// A parser of `tree-sitter`: an opaque value.
#[verifier::external_type_specification]
#[verifier::external_body]
pub struct ExParser(tree_sitter::Parser);

/// A syntax tree of `tree-sitter`: an opaque value.
#[verifier::external_type_specification]
#[verifier::external_body]
pub struct ExTree(tree_sitter::Tree);

/// What a parser does: the grammar that it parses by, and whether it is free to parse all of a text
/// from its start: nothing stops it before the end, no ranges of the text are left out, and no parse
/// was begun that is still to be ended.
pub struct ParserState {
    pub language: Option<tree_sitter::Language>,
    pub unrestricted: bool,
}

/// What a `tree_sitter::Parser` does.
pub uninterp spec fn parser_state(parser: tree_sitter::Parser) -> ParserState;

/// The version of the rules by which a `tree_sitter::Language` was generated.
pub uninterp spec fn grammar_version(language: tree_sitter::Language) -> nat;

/// The oldest version of a grammar that the parser can use.
pub const MIN_GRAMMAR_VERSION: usize = 13;

/// The newest version of a grammar that the parser can use.
pub const MAX_GRAMMAR_VERSION: usize = 14;

/// Whether the parser can use a grammar.
pub open spec fn is_compatible(language: tree_sitter::Language) -> bool {
    MIN_GRAMMAR_VERSION <= grammar_version(language) <= MAX_GRAMMAR_VERSION
}

/// The grammar by which a `tree_sitter::Tree` was made, which `tree_sitter::Tree::language`
/// returns.
pub uninterp spec fn tree_grammar(tree: tree_sitter::Tree) -> tree_sitter::Language;

/// The syntax tree that `tree_sitter::Parser::parse` makes of all of a text, given an earlier tree
/// by the same grammar, in a locale. A grammar can ask the C library which characters are letters,
/// white space or the upper and lower case of one another, and the locale says so.
pub uninterp spec fn syntax_tree(
    language: tree_sitter::Language,
    text: Seq<u8>,
    old_tree: Option<tree_sitter::Tree>,
    locale: Seq<u8>,
) -> tree_sitter::Tree;

/// The earlier tree that is given, if one is.
pub open spec fn earlier_tree(old_tree: Option<&tree_sitter::Tree>) -> Option<tree_sitter::Tree> {
    match old_tree {
        Some(old_tree) => Some(*old_tree),
        None => None,
    }
}

/// Whether an earlier tree, if one is given, was made by a grammar.
pub open spec fn stems_from(
    old_tree: Option<&tree_sitter::Tree>,
    language: tree_sitter::Language,
) -> bool {
    old_tree matches Some(tree) ==> tree_grammar(*tree) == language
}

/// Calls `tree_sitter::Tree::language`, which returns the grammar by which a tree was made.
#[verifier::external_body]
fn language_of(tree: &tree_sitter::Tree) -> (language: tree_sitter::Language)
    ensures
        language == tree_grammar(*tree),
{
    tree.language()
}

/// Compares two values of `tree_sitter::Language` with `==`, which tells whether they are the
/// same grammar.
#[verifier::external_body]
fn is_same_language(left: &tree_sitter::Language, right: &tree_sitter::Language) -> (same: bool)
    ensures
        same == (*left == *right),
{
    left == right
}

/// Calls `tree_sitter::Parser::new`, which makes a parser without a grammar, without limits, and
/// with nothing begun.
#[verifier::external_body]
fn new_parser() -> (parser: tree_sitter::Parser)
    ensures
        parser_state(parser) == (ParserState { language: None, unrestricted: true }),
{
    tree_sitter::Parser::new()
}

/// Calls `tree_sitter::Parser::set_language`, which makes a parser parse by a grammar if the
/// version of the grammar is one of those between its constants
/// `MIN_COMPATIBLE_LANGUAGE_VERSION` and `LANGUAGE_VERSION`. A parser that is unrestricted stays so.
#[verifier::external_body]
fn set_language(parser: &mut tree_sitter::Parser, language: tree_sitter::Language) -> (accepted: bool)
    ensures
        accepted == (MIN_GRAMMAR_VERSION <= grammar_version(language) <= MAX_GRAMMAR_VERSION),
        parser_state(*final(parser)).language == (if accepted {
            Some(language)
        } else {
            parser_state(*old(parser)).language
        }),
        parser_state(*old(parser)).unrestricted ==> parser_state(*final(parser)).unrestricted,
{
    parser.set_language(language).is_ok()
}

/// Calls `tree_sitter::Parser::parse`, which makes a syntax tree of a text. It makes none only
/// where there is no grammar or something stops it. The tree of an unrestricted parser depends on
/// the grammar, the text, the earlier tree and the locale alone. Not stated: what the locale is, as
/// that is up to the machine, and what tree another parser makes. The parser takes parts of the
/// earlier tree over unseen, which therefore has to stem from the same grammar.
#[verifier::external_body]
fn parse(
    parser: &mut tree_sitter::Parser,
    text: &[u8],
    old_tree: Option<&tree_sitter::Tree>,
) -> (tree: Option<tree_sitter::Tree>)
    requires
        text@.len() < u32::MAX,
        parser_state(*old(parser)).language matches Some(language) ==> stems_from(
            old_tree,
            language,
        ),
    ensures
        parser_state(*old(parser)).unrestricted && parser_state(*old(parser)).language is Some
            ==> tree is Some,
        tree matches Some(tree) ==> parser_state(*old(parser)).language == Some(tree_grammar(tree)),
        parser_state(*old(parser)).unrestricted ==> (tree matches Some(tree) ==> exists|
            locale: Seq<u8>,
        |
            tree == #[trigger] syntax_tree(
                tree_grammar(tree),
                text@,
                earlier_tree(old_tree),
                locale,
            )),
{
    parser.parse(text, old_tree)
}

/// A query for brackets.
pub struct BracketConfig {
    pub query: tree_sitter::Query,
    pub open_capture_ix: u32,
    pub close_capture_ix: u32,
}

/// A query for what is indented.
pub struct IndentConfig {
    pub query: tree_sitter::Query,
    pub indent_capture_ix: u32,
    pub start_capture_ix: Option<u32>,
    pub end_capture_ix: Option<u32>,
}

/// A query for the outline of a text.
pub struct OutlineConfig {
    pub query: tree_sitter::Query,
    pub item_capture_ix: u32,
    pub name_capture_ix: u32,
    pub context_capture_ix: Option<u32>,
}

/// A query for text in other languages.
pub struct InjectionConfig {
    pub query: tree_sitter::Query,
    pub content_capture_ix: u32,
    pub language_capture_ix: Option<u32>,
    pub languages_by_pattern_ix: Vec<Option<String>>,
}

impl InjectionConfig {
    /// Whether the language of each pattern is the one that its properties give.
    pub open spec fn names_languages(self) -> bool {
        &&& self.languages_by_pattern_ix@.len() == query_content(self.query).settings.len()
        &&& forall|index: int|
            0 <= index < self.languages_by_pattern_ix@.len() ==> optional_text(
                #[trigger] self.languages_by_pattern_ix@[index],
            ) == injected_language(query_content(self.query).settings[index])
    }
}

/// A grammar, and the queries that go with it.
pub struct Grammar {
    pub id: usize,
    pub ts_language: tree_sitter::Language,
    pub highlights_query: Option<tree_sitter::Query>,
    pub brackets_config: Option<BracketConfig>,
    pub indents_config: Option<IndentConfig>,
    pub outline_config: Option<OutlineConfig>,
    pub injection_config: Option<InjectionConfig>,
    pub highlight_map: HighlightMap,
}

/// Why a text cannot be parsed.
#[derive(Clone, Copy, Debug, PartialEq, Eq, Structural)]
pub enum ParseRefusal {
    /// The parser cannot use the grammar.
    IncompatibleGrammar,
    /// The earlier tree was made by another grammar.
    ForeignTree,
}

/// Gives each grammar a number of its own.
#[derive(Debug)]
pub struct GrammarIds {
    next: usize,
}

impl GrammarIds {
    /// The number that is given next.
    pub closed spec fn upcoming(self) -> usize {
        self.next
    }

    /// Begins to give numbers from zero on.
    pub fn new() -> (ids: GrammarIds)
        ensures
            ids.upcoming() == 0,
    {
        GrammarIds { next: 0 }
    }

    /// Gives the next number. After the last there is comes zero again.
    pub fn next(&mut self) -> (id: usize)
        ensures
            id == old(self).upcoming(),
            final(self).upcoming() == (if old(self).upcoming() == usize::MAX {
                0
            } else {
                (old(self).upcoming() + 1) as usize
            }),
    {
        let id: usize = self.next;
        self.next = if id == usize::MAX {
            0
        } else {
            id + 1
        };
        id
    }
}

impl Grammar {
    /// A grammar without queries.
    pub fn new(ts_language: tree_sitter::Language, id: usize) -> (grammar: Grammar)
        ensures
            grammar.id == id,
            grammar.ts_language == ts_language,
            grammar.highlights_query is None,
            grammar.brackets_config is None,
            grammar.indents_config is None,
            grammar.outline_config is None,
            grammar.injection_config is None,
            grammar.highlight_map.all() == Seq::<HighlightId>::empty(),
    {
        Grammar {
            id,
            ts_language,
            highlights_query: None,
            brackets_config: None,
            indents_config: None,
            outline_config: None,
            injection_config: None,
            highlight_map: HighlightMap::none(),
        }
    }

    /// The number of this grammar.
    pub fn id(&self) -> (id: usize)
        ensures
            id == self.id,
    {
        self.id
    }

    /// Whether `tree` is the syntax tree of a text by this grammar in some locale, given an earlier
    /// tree.
    pub open spec fn is_tree_of(
        self,
        tree: tree_sitter::Tree,
        text: Seq<u8>,
        old_tree: Option<&tree_sitter::Tree>,
    ) -> bool {
        &&& tree_grammar(tree) == self.ts_language
        &&& exists|locale: Seq<u8>|
            tree == #[trigger] syntax_tree(
                self.ts_language,
                text,
                earlier_tree(old_tree),
                locale,
            )
    }

    /// The syntax tree of a text, by a grammar that the parser can use.
    pub fn parse_text(&self, text: &[u8], old_tree: Option<&tree_sitter::Tree>) -> (tree:
        tree_sitter::Tree)
        requires
            is_compatible(self.ts_language),
            stems_from(old_tree, self.ts_language),
            text@.len() < u32::MAX,
        ensures
            self.is_tree_of(tree, text@, old_tree),
    {
        match self.try_parse_text(text, old_tree) {
            Ok(tree) => tree,
            Err(_) => vstd::pervasive::unreached(),
        }
    }

    /// The syntax tree of a text, unless the parser cannot use the grammar, or the earlier tree
    /// was made by another one.
    pub fn try_parse_text(&self, text: &[u8], old_tree: Option<&tree_sitter::Tree>) -> (tree: Result<
        tree_sitter::Tree,
        ParseRefusal,
    >)
        requires
            text@.len() < u32::MAX,
        ensures
            match tree {
                Ok(tree) => {
                    &&& is_compatible(self.ts_language)
                    &&& stems_from(old_tree, self.ts_language)
                    &&& self.is_tree_of(tree, text@, old_tree)
                },
                Err(ParseRefusal::IncompatibleGrammar) => !is_compatible(self.ts_language),
                Err(ParseRefusal::ForeignTree) => is_compatible(self.ts_language) && !stems_from(
                    old_tree,
                    self.ts_language,
                ),
            },
    {
        let mut parser: tree_sitter::Parser = new_parser();
        if !set_language(&mut parser, self.ts_language) {
            return Err(ParseRefusal::IncompatibleGrammar);
        }
        if let Some(tree) = old_tree {
            let language: tree_sitter::Language = language_of(tree);
            if !is_same_language(&language, &self.ts_language) {
                return Err(ParseRefusal::ForeignTree);
            }
        }
        match parse(&mut parser, text, old_tree) {
            Some(tree) => Ok(tree),
            None => vstd::pervasive::unreached(),
        }
    }

    /// How what each capture of the highlights query matches is highlighted.
    pub fn highlight_map(&self) -> (map: HighlightMap)
        ensures
            map.all() == self.highlight_map.all(),
    {
        self.highlight_map.duplicate()
    }

    /// How what the capture with a name matches is highlighted; nothing where no query for
    /// highlights has such a capture.
    pub fn highlight_id_for_name(&self, name: &str) -> (id: Option<HighlightId>)
        ensures
            id == (match self.highlights_query {
                Some(query) => if query_content(query).captures.contains(name@) {
                    Some(
                        id_at(
                            self.highlight_map.all(),
                            (query_content(query).captures.index_of_first(name@)->0 as u32) as int,
                        ),
                    )
                } else {
                    None
                },
                None => None,
            }),
    {
        match &self.highlights_query {
            Some(query) => match capture_index_for_name(query, name) {
                Some(capture_id) => Some(self.highlight_map.get(capture_id)),
                None => None,
            },
            None => None,
        }
    }

    /// Highlights what each capture of the highlights query matches as `theme` says of its
    /// name.
    pub fn set_theme<T: Fn(&String) -> HighlightId>(&mut self, theme: &T)
        requires
            forall|name: &String| theme.requires((name,)),
        ensures
            *final(self) == (Grammar { highlight_map: final(self).highlight_map, ..*old(self) }),
            old(self).highlights_query is None ==> final(self).highlight_map == old(self).highlight_map,
            old(self).highlights_query matches Some(query) ==> is_themed(
                query_content(query).captures,
                final(self).highlight_map.all(),
                *theme,
            ),
    {
        if let Some(query) = &self.highlights_query {
            let names: &[String] = capture_names(query);
            self.highlight_map = HighlightMap::new(names, theme);
            assert forall|index: int| 0 <= index < names@.len() implies says(
                *theme,
                query_content(*query).captures[index],
                #[trigger] self.highlight_map.all()[index],
            ) by {
                assert(texts(names@)[index] == names@[index]@);
            }
        }
    }
}

/// Whether `theme` says of a name that it is highlighted as `id`.
pub open spec fn says<T: Fn(&String) -> HighlightId>(theme: T, name: Seq<char>, id: HighlightId) -> bool {
    exists|string: &String| string@ == name && #[trigger] theme.ensures((string,), id)
}

/// Whether each capture is highlighted as `theme` says of its name.
pub open spec fn is_themed<T: Fn(&String) -> HighlightId>(
    captures: Seq<Seq<char>>,
    ids: Seq<HighlightId>,
    theme: T,
) -> bool {
    &&& ids.len() == captures.len()
    &&& forall|index: int|
        0 <= index < captures.len() ==> says(theme, captures[index], #[trigger] ids[index])
}

/// The parser can use grammars of the two newest versions, and no others.
pub proof fn law_two_versions_can_be_used(language: tree_sitter::Language)
    ensures
        is_compatible(language) <==> grammar_version(language) == 13 || grammar_version(language)
            == 14,
{
}

/// Every capture is highlighted as the theme says of its name, and no other highlight is there.
pub proof fn law_every_capture_is_themed<T: Fn(&String) -> HighlightId>(
    captures: Seq<Seq<char>>,
    ids: Seq<HighlightId>,
    theme: T,
    index: int,
)
    requires
        is_themed(captures, ids, theme),
        0 <= index < captures.len(),
    ensures
        ids.len() == captures.len(),
        exists|name: &String|
            name@ == captures[index] && #[trigger] theme.ensures((name,), ids[index]),
{
    assert(says(theme, captures[index], ids[index]));
}

} // verus!
