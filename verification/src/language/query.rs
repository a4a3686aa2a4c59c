//! Queries that find things in syntax trees.

use vstd::prelude::*;
use vstd::string::*;
use vstd::utf8::{encode_utf8, is_ascii_chars};

use tree_sitter::Language as TsLanguage;

use crate::strings::same_text;

verus! {

/// A grammar of `tree-sitter`: an opaque value.
#[verifier::external_type_specification]
#[verifier::external_body]
pub struct ExLanguage(TsLanguage);

/// A query of `tree-sitter`: an opaque value.
#[verifier::external_type_specification]
#[verifier::external_body]
pub struct ExQuery(tree_sitter::Query);

/// A property that a query sets for a pattern.
pub struct Setting {
    pub key: Seq<char>,
    pub value: Option<Seq<char>>,
}

/// What a query holds: the names of its captures, and for each of its patterns the properties
/// that are set for it.
pub struct QueryContent {
    pub captures: Seq<Seq<char>>,
    pub settings: Seq<Seq<Setting>>,
}

/// In what respect the source of a query is wrong.
#[derive(Clone, Copy, Debug, PartialEq, Eq, Structural)]
pub enum FaultKind {
    Syntax,
    NodeType,
    Field,
    Capture,
    Predicate,
    Structure,
    Language,
}

/// What is wrong with the source of a query.
pub struct QueryFault {
    pub row: usize,
    pub column: usize,
    pub offset: usize,
    pub kind: FaultKind,
    pub message: Seq<char>,
}

/// What is wrong with the source of a query.
#[derive(Debug, PartialEq, Eq)]
pub struct QueryError {
    pub row: usize,
    pub column: usize,
    pub offset: usize,
    pub kind: FaultKind,
    pub message: String,
}

impl View for QueryError {
    type V = QueryFault;

    open spec fn view(&self) -> QueryFault {
        QueryFault {
            row: self.row,
            column: self.column,
            offset: self.offset,
            kind: self.kind,
            message: self.message@,
        }
    }
}

/// What a `tree_sitter::Query` holds.
pub uninterp spec fn query_content(query: tree_sitter::Query) -> QueryContent;

/// What the query holds that `tree_sitter::Query::new` makes of a source in a locale, on a machine
/// whose pointers have some number of bits, or what is wrong with that source. The locale says
/// which characters beyond ASCII are white space or part of a name; the empty one stands for that
/// of C.
pub uninterp spec fn compiled_query(
    language: tree_sitter::Language,
    source: Seq<char>,
    pointer_bits: u32,
    locale: Seq<u8>,
) -> Result<QueryContent, QueryFault>;

/// What came of making a query: what it holds, or what is wrong with its source.
pub open spec fn outcome_of(query: Result<tree_sitter::Query, QueryError>) -> Result<
    QueryContent,
    QueryFault,
> {
    match query {
        Ok(query) => Ok(query_content(query)),
        Err(error) => Err(error@),
    }
}

/// What a source of ASCII characters is made into, in whatever locale.
pub open spec fn ascii_query(language: tree_sitter::Language, source: Seq<char>) -> Result<
    QueryContent,
    QueryFault,
> {
    compiled_query(language, source, usize::BITS, Seq::empty())
}

/// Whether a character can be part of a name in a source. All that is not ASCII counts as such.
pub open spec fn is_name_char(c: char) -> bool {
    ||| '0' <= c <= '9'
    ||| 'A' <= c <= 'Z'
    ||| 'a' <= c <= 'z'
    ||| c == '_'
    ||| c == '-'
    ||| c >= '\u{80}'
}

/// Whether a source ends in what can be part of a name.
pub open spec fn ends_in_a_name(source: Seq<char>) -> bool {
    source.len() > 0 && is_name_char(source.last())
}

/// Whether the only fault of a source is that it ends too early: with a line break behind it,
/// it is found wrong behind that line break.
pub open spec fn ends_too_early(language: tree_sitter::Language, source: Seq<char>) -> bool {
    ascii_query(language, source.push('\n')) matches Err(fault) && fault.offset > encode_utf8(
        source,
    ).len()
}

/// Calls `tree_sitter::Query::new`. The query, or what is wrong with the source, depends on the
/// grammar, on the source, on the locale, and on the width of pointers: a source can hold regular
/// expressions, which are refused if they take too many bytes. Where all of the source is ASCII the
/// locale does not matter. Not stated: what the locale is, as that is up to the machine. The call
/// would panic on a source that ends in a name that the grammar does not have; one that only ends
/// too early has no such name.
#[verifier::external_body]
fn new_query(language: tree_sitter::Language, source: &str) -> (query: Result<
    tree_sitter::Query,
    QueryError,
>)
    requires
        !ends_in_a_name(source@) || (is_ascii_chars(source@) && ends_too_early(language, source@)),
    ensures
        exists|locale: Seq<u8>|
            outcome_of(query) == #[trigger] compiled_query(
                language,
                source@,
                usize::BITS,
                locale,
            ),
        is_ascii_chars(source@) ==> outcome_of(query) == compiled_query(
            language,
            source@,
            usize::BITS,
            Seq::empty(),
        ),
{
    tree_sitter::Query::new(language, source).map_err(|error| QueryError {
        row: error.row,
        column: error.column,
        offset: error.offset,
        kind: match error.kind {
            tree_sitter::QueryErrorKind::Syntax => FaultKind::Syntax,
            tree_sitter::QueryErrorKind::NodeType => FaultKind::NodeType,
            tree_sitter::QueryErrorKind::Field => FaultKind::Field,
            tree_sitter::QueryErrorKind::Capture => FaultKind::Capture,
            tree_sitter::QueryErrorKind::Predicate => FaultKind::Predicate,
            tree_sitter::QueryErrorKind::Structure => FaultKind::Structure,
            tree_sitter::QueryErrorKind::Language => FaultKind::Language,
        },
        message: error.message,
    })
}

/// Calls `tree_sitter::Query::capture_names`, which returns the names of the captures.
#[verifier::external_body]
pub(crate) fn capture_names(query: &tree_sitter::Query) -> (names: &[String])
    ensures
        texts(names@) == query_content(*query).captures,
{
    query.capture_names()
}

/// Calls `tree_sitter::Query::pattern_count`, which returns the number of patterns.
#[verifier::external_body]
fn pattern_count(query: &tree_sitter::Query) -> (count: usize)
    ensures
        count == query_content(*query).settings.len(),
{
    query.pattern_count()
}

/// Calls `tree_sitter::Query::property_settings`, which returns the properties that are set
/// for a pattern, and panics where there is no such pattern. Each is taken apart into its key
/// and its value.
#[verifier::external_body]
fn property_settings(query: &tree_sitter::Query, pattern: usize) -> (settings: Vec<
    (String, Option<String>),
>)
    requires
        pattern < query_content(*query).settings.len(),
    ensures
        settings_view(settings@) == query_content(*query).settings[pattern as int],
{
    let settings = query.property_settings(pattern).iter();
    settings.map(|it| (it.key.to_string(), it.value.as_ref().map(|text| text.to_string()))).collect()
}

/// Calls `tree_sitter::Query::capture_index_for_name`, which returns the place of the first
/// capture with a name.
#[verifier::external_body]
pub(crate) fn capture_index_for_name(query: &tree_sitter::Query, name: &str) -> (index: Option<u32>)
    ensures
        index == (if query_content(*query).captures.contains(name@) {
            Some(query_content(*query).captures.index_of_first(name@)->0 as u32)
        } else {
            None
        }),
{
    query.capture_index_for_name(name)
}

/// The texts of some strings.
pub open spec fn texts(strings: Seq<String>) -> Seq<Seq<char>> {
    Seq::new(strings.len(), |index: int| strings[index]@)
}

/// The properties in some pairs of a key and a value.
pub open spec fn settings_view(pairs: Seq<(String, Option<String>)>) -> Seq<Setting> {
    Seq::new(
        pairs.len(),
        |index: int|
            Setting {
                key: pairs[index].0@,
                value: match pairs[index].1 {
                    Some(value) => Some(value@),
                    None => None,
                },
            },
    )
}

/// What a source of ASCII characters means for a grammar. A source that ends in a name is taken with a line break
/// behind it, which means the same, unless it ends too early.
pub open spec fn meaning(language: tree_sitter::Language, source: Seq<char>) -> Result<
    QueryContent,
    QueryFault,
> {
    if ends_in_a_name(source) && !ends_too_early(language, source) {
        ascii_query(language, source.push('\n'))
    } else {
        ascii_query(language, source)
    }
}

/// Whether `outcome` is what a source is made into in some locale. A source that ends in a name can
/// be taken with a line break behind it.
pub open spec fn comes_of(
    outcome: Result<QueryContent, QueryFault>,
    language: tree_sitter::Language,
    source: Seq<char>,
) -> bool {
    ||| exists|locale: Seq<u8>|
        outcome == #[trigger] compiled_query(language, source, usize::BITS, locale)
    ||| {
        &&& ends_in_a_name(source)
        &&& exists|locale: Seq<u8>|
            outcome == #[trigger] compiled_query(
                language,
                source.push('\n'),
                usize::BITS,
                locale,
            )
    }
}

/// Makes a query of a source. Where the source ends too early and is not all ASCII, the fault is
/// said to lie behind a line break at its end.
pub fn compile_query(language: tree_sitter::Language, source: &str) -> (query: Result<
    tree_sitter::Query,
    QueryError,
>)
    ensures
        comes_of(outcome_of(query), language, source@),
        is_ascii_chars(source@) ==> outcome_of(query) == meaning(language, source@),
{
    let count: usize = source.unicode_len();
    if count == 0 {
        return new_query(language, source);
    }
    let last: char = source.get_char(count - 1);
    let in_a_name: bool = ('0' <= last && last <= '9') || ('A' <= last && last <= 'Z') || ('a'
        <= last && last <= 'z') || last == '_' || last == '-' || last >= '\u{80}';
    if !in_a_name {
        return new_query(language, source);
    }
    let mut longer: String = source.to_string();
    longer.append("\n");
    proof {
        reveal_strlit("\n");
        assert(longer@ =~= source@.push('\n'));
    }
    match new_query(language, longer.as_str()) {
        Ok(query) => Ok(query),
        Err(error) => if source.is_ascii() && error.offset > source.as_bytes().len() {
            new_query(language, source)
        } else {
            Err(error)
        },
    }
}

/// The place of the last capture with a name.
pub open spec fn capture_index(names: Seq<Seq<char>>, wanted: Seq<char>) -> Option<u32>
    decreases names.len(),
{
    if names.len() == 0 {
        None
    } else if names.last() == wanted {
        Some((names.len() - 1) as u32)
    } else {
        capture_index(names.drop_last(), wanted)
    }
}

/// The place of the capture with each of some wanted names. A name that is wanted twice counts
/// where it is wanted first.
pub open spec fn capture_indices(names: Seq<Seq<char>>, wanted: Seq<Seq<char>>) -> Seq<
    Option<u32>,
> {
    Seq::new(
        wanted.len(),
        |index: int|
            if exists|earlier: int| 0 <= earlier < index && #[trigger] wanted[earlier] == wanted[index] {
                None
            } else {
                capture_index(names, wanted[index])
            },
    )
}

/// The texts of some string slices.
pub open spec fn slice_texts(strings: Seq<&str>) -> Seq<Seq<char>> {
    Seq::new(strings.len(), |index: int| strings[index]@)
}

/// Whether `wanted[index]` is wanted before.
fn is_wanted_before(wanted: &[&str], index: usize) -> (found: bool)
    requires
        index < wanted@.len(),
    ensures
        found == (exists|earlier: int|
            0 <= earlier < index && #[trigger] slice_texts(wanted@)[earlier] == slice_texts(
                wanted@,
            )[index as int]),
{
    let mut earlier: usize = 0;
    while earlier < index
        invariant
            index < wanted@.len(),
            earlier <= index,
            forall|at: int|
                0 <= at < earlier ==> #[trigger] slice_texts(wanted@)[at] != slice_texts(
                    wanted@,
                )[index as int],
        decreases index - earlier,
    {
        if same_text(wanted[earlier], wanted[index]) {
            assert(slice_texts(wanted@)[earlier as int] == slice_texts(wanted@)[index as int]);
            return true;
        }
        earlier += 1;
    }
    false
}

/// The place of the last capture with a name.
fn find_capture(names: &[String], wanted: &str) -> (index: Option<u32>)
    ensures
        index == capture_index(texts(names@), wanted@),
{
    let ghost all = texts(names@);
    let mut count: usize = names.len();
    assert(all.take(count as int) =~= all);
    while count > 0
        invariant
            all == texts(names@),
            count <= names@.len(),
            capture_index(all, wanted@) == capture_index(all.take(count as int), wanted@),
        decreases count,
    {
        assert(all.take(count as int).drop_last() =~= all.take(count - 1));
        if same_text(names[count - 1].as_str(), wanted) {
            return Some(
                #[verifier::truncate]
                ((count - 1) as u32),
            );
        }
        count -= 1;
    }
    None
}

/// The place of the capture with each of some wanted names.
pub fn get_capture_indices(names: &[String], wanted: &[&str]) -> (indices: Vec<Option<u32>>)
    ensures
        indices@ == capture_indices(texts(names@), slice_texts(wanted@)),
{
    let ghost all = capture_indices(texts(names@), slice_texts(wanted@));
    let mut indices: Vec<Option<u32>> = Vec::new();
    let mut index: usize = 0;
    while index < wanted.len()
        invariant
            index <= wanted@.len(),
            all == capture_indices(texts(names@), slice_texts(wanted@)),
            indices@ == all.take(index as int),
        decreases wanted@.len() - index,
    {
        let found: Option<u32> = if is_wanted_before(wanted, index) {
            None
        } else {
            find_capture(names, wanted[index])
        };
        indices.push(found);
        assert(all[index as int] == found);
        index += 1;
        assert(indices@ =~= all.take(index as int));
    }
    assert(all.take(index as int) =~= all);
    indices
}

/// The language that some properties give: the value of the first that is called `language` and
/// has a value.
pub open spec fn injected_language(settings: Seq<Setting>) -> Option<Seq<char>>
    decreases settings.len(),
{
    if settings.len() == 0 {
        None
    } else if settings.first().key == "language"@ && settings.first().value is Some {
        settings.first().value
    } else {
        injected_language(settings.skip(1))
    }
}

/// The text of an optional string.
pub open spec fn optional_text(text: Option<String>) -> Option<Seq<char>> {
    match text {
        Some(text) => Some(text@),
        None => None,
    }
}

/// The language that some properties give.
pub fn find_injected_language(pairs: &[(String, Option<String>)]) -> (language: Option<String>)
    ensures
        optional_text(language) == injected_language(settings_view(pairs@)),
{
    let ghost all = settings_view(pairs@);
    let mut index: usize = 0;
    assert(all.skip(0) =~= all);
    while index < pairs.len()
        invariant
            index <= pairs@.len(),
            all == settings_view(pairs@),
            injected_language(all) == injected_language(all.skip(index as int)),
        decreases pairs@.len() - index,
    {
        assert(all.skip(index as int).skip(1) =~= all.skip(index + 1));
        assert(all.skip(index as int).first() == all[index as int]);
        if same_text(pairs[index].0.as_str(), "language") {
            if let Some(value) = &pairs[index].1 {
                return Some(value.clone());
            }
        }
        index += 1;
    }
    None
}

/// The language that the properties of each pattern of a query give.
pub(crate) fn injected_languages(query: &tree_sitter::Query) -> (languages: Vec<Option<String>>)
    ensures
        languages@.len() == query_content(*query).settings.len(),
        forall|index: int|
            0 <= index < languages@.len() ==> optional_text(#[trigger] languages@[index])
                == injected_language(query_content(*query).settings[index]),
{
    let count: usize = pattern_count(query);
    let mut languages: Vec<Option<String>> = Vec::new();
    while languages.len() < count
        invariant
            count == query_content(*query).settings.len(),
            languages@.len() <= count,
            forall|index: int|
                0 <= index < languages@.len() ==> optional_text(#[trigger] languages@[index])
                    == injected_language(query_content(*query).settings[index]),
        decreases count - languages@.len(),
    {
        let settings: Vec<(String, Option<String>)> = property_settings(query, languages.len());
        languages.push(find_injected_language(settings.as_slice()));
    }
    languages
}

/// The place of a capture is the last one with its name, and there is one exactly if the name occurs.
pub proof fn law_the_last_capture_counts(names: Seq<Seq<char>>, wanted: Seq<char>)
    requires
        names.len() <= u32::MAX,
    ensures
        capture_index(names, wanted) matches Some(index) ==> index < names.len()
            && names[index as int] == wanted && forall|later: int|
            index < later < names.len() ==> #[trigger] names[later] != wanted,
        (capture_index(names, wanted) is Some) == names.contains(wanted),
    decreases names.len(),
{
    if names.len() > 0 {
        let rest = names.drop_last();
        law_the_last_capture_counts(rest, wanted);
        if names.last() == wanted {
            assert(names[names.len() - 1] == wanted);
        } else {
            if rest.contains(wanted) {
                let at = choose|at: int| 0 <= at < rest.len() && rest[at] == wanted;
                assert(names[at] == wanted);
            }
            if names.contains(wanted) {
                let at = choose|at: int| 0 <= at < names.len() && names[at] == wanted;
                assert(rest[at] == wanted);
            }
            if capture_index(names, wanted) is Some {
                let index = capture_index(names, wanted)->0;
                assert forall|later: int| index < later < names.len() implies #[trigger] names[later]
                    != wanted by {
                    if later < rest.len() {
                        assert(rest[later] == names[later]);
                    }
                }
            }
        }
    }
}

/// Every wanted name gets a place of its own in the result, in order: the last capture with that
/// name, if there is one; a name that is wanted again gets none there.
pub proof fn law_every_wanted_name_is_looked_up(
    names: Seq<Seq<char>>,
    wanted: Seq<Seq<char>>,
    index: int,
)
    requires
        names.len() <= u32::MAX,
        0 <= index < wanted.len(),
    ensures
        capture_indices(names, wanted).len() == wanted.len(),
        wanted.take(index).contains(wanted[index]) ==> capture_indices(names, wanted)[index] is None,
        !wanted.take(index).contains(wanted[index]) ==> {
            let found = capture_indices(names, wanted)[index];
            &&& (found is Some) == names.contains(wanted[index])
            &&& found matches Some(place) ==> place < names.len() && names[place as int]
                == wanted[index] && forall|later: int|
                place < later < names.len() ==> #[trigger] names[later] != wanted[index]
        },
{
    law_the_last_capture_counts(names, wanted[index]);
    let before = wanted.take(index);
    if before.contains(wanted[index]) {
        let earlier = choose|earlier: int|
            0 <= earlier < before.len() && before[earlier] == wanted[index];
        assert(wanted[earlier] == wanted[index]);
    } else {
        assert forall|earlier: int| 0 <= earlier < index implies #[trigger] wanted[earlier]
            != wanted[index] by {
            assert(before[earlier] == wanted[earlier]);
        }
    }
}

/// The language that some properties give is the value of the first of them that is called `language`
/// and has a value; without such a property they give none.
pub proof fn law_the_first_language_counts(settings: Seq<Setting>, index: int)
    requires
        0 <= index <= settings.len(),
        forall|earlier: int|
            0 <= earlier < index ==> (#[trigger] settings[earlier]).key != "language"@
                || settings[earlier].value is None,
    ensures
        index == settings.len() ==> injected_language(settings) is None,
        index < settings.len() && settings[index].key == "language"@ && settings[index].value is Some
            ==> injected_language(settings) == settings[index].value,
    decreases settings.len(),
{
    if index > 0 {
        let rest = settings.skip(1);
        assert(settings.first() == settings[0]);
        assert forall|earlier: int| 0 <= earlier < index - 1 implies (
        #[trigger] rest[earlier]).key != "language"@ || rest[earlier].value is None by {
            assert(rest[earlier] == settings[earlier + 1]);
        }
        law_the_first_language_counts(rest, index - 1);
        if index < settings.len() {
            assert(rest[index - 1] == settings[index]);
        }
    }
}

} // verus!
