//! All languages that are known.

use vstd::prelude::*;
use vstd::utf8::encode_utf8;

use crate::language::adapter::{CachedLspAdapter, LanguageServerName};
use crate::language::config::is_default_config;
use crate::language::highlight::HighlightId;
use crate::language::language::{is_themed_language, Language};
use crate::language::paths::{ends_in, extension, file_name, find_extension, find_file_name, is_suffix};
use crate::strings::same_text;

verus! {

/// The number of news of language servers that wait for whoever wants them.
pub const STATUS_CAPACITY: usize = 16;

/// What a text is in lower case.
pub uninterp spec fn lowercase(text: Seq<char>) -> Seq<char>;

/// Calls `str::to_lowercase`, which returns a text in lower case by the rules of Unicode, which
/// depend on the text alone.
#[verifier::external_body]
fn to_lowercase(text: &str) -> (lower: String)
    ensures
        lower@ == lowercase(text@),
{
    text.to_lowercase()
}

/// How a language server is started.
#[derive(Debug, PartialEq, Eq)]
pub enum ServerStart {
    /// A stand-in is used.
    Fake,
    /// It cannot be, as there is no directory for its program. This is written to the log.
    NoDownloadDirectory,
    /// It cannot be, as the language has none.
    NoServer,
    /// Its program has to be found for the first time, in a directory below `download_dir`, and
    /// to be started with some arguments.
    FindAndStart { name: LanguageServerName, server_args: Vec<String>, download_dir: Vec<u8> },
    /// Its program is being looked for, or was found, and has to be started with some
    /// arguments.
    AwaitAndStart { name: LanguageServerName, server_args: Vec<String> },
}

/// Whether `start` is how the server of a language is started, where `known` are the servers
/// whose programs are being looked for, or were found.
pub open spec fn is_start(
    start: ServerStart,
    has_fake: bool,
    download_dir: Option<Seq<u8>>,
    adapter: Option<CachedLspAdapter>,
    known: Seq<Seq<char>>,
) -> bool {
    match (has_fake, download_dir, adapter) {
        (true, _, _) => start is Fake,
        (false, None, _) => start is NoDownloadDirectory,
        (false, Some(_), None) => start is NoServer,
        (false, Some(dir), Some(adapter)) => if known.contains(adapter.name.0@) {
            &&& start matches ServerStart::AwaitAndStart { name, server_args }
            &&& name == adapter.name
            &&& server_args@ == adapter.server_args@
        } else {
            &&& start matches ServerStart::FindAndStart { name, server_args, download_dir }
            &&& name == adapter.name
            &&& server_args@ == adapter.server_args@
            &&& download_dir@ == dir
        },
    }
}

/// The servers whose programs are being looked for, or were found, after the server of a
/// language was started.
pub open spec fn known_after_start(
    has_fake: bool,
    download_dir: Option<Seq<u8>>,
    adapter: Option<CachedLspAdapter>,
    known: Seq<Seq<char>>,
) -> Seq<Seq<char>> {
    match (has_fake, download_dir, adapter) {
        (false, Some(_), Some(adapter)) => if known.contains(adapter.name.0@) {
            known
        } else {
            known.push(adapter.name.0@)
        },
        _ => known,
    }
}

/// The same texts.
fn copied(texts: &Vec<String>) -> (copies: Vec<String>)
    ensures
        copies@ == texts@,
{
    let mut copies: Vec<String> = Vec::new();
    while copies.len() < texts.len()
        invariant
            copies@ == texts@.take(copies@.len() as int),
            copies@.len() <= texts@.len(),
        decreases texts@.len() - copies@.len(),
    {
        let ghost done = copies@;
        copies.push(texts[copies.len()].clone());
        assert(copies@ =~= texts@.take(done.len() as int + 1));
    }
    copies
}

/// All languages that are known. A theme tells how what a capture matches is highlighted.
pub struct LanguageRegistry<T> {
    languages: Vec<Language>,
    language_server_download_dir: Option<Vec<u8>>,
    lsp_binary_names: Vec<LanguageServerName>,
    changes: u64,
    theme: Option<T>,
}

/// The names of some language servers.
pub open spec fn server_names(names: Seq<LanguageServerName>) -> Seq<Seq<char>> {
    Seq::new(names.len(), |index: int| names[index].0@)
}

/// Whether a language goes by a name, in whatever case.
pub open spec fn goes_by(language: Language, name: Seq<char>) -> bool {
    lowercase(language.config.name@) == lowercase(name)
}

/// Whether a path is that of a text in a language.
pub open spec fn has_path(language: Language, path: Seq<u8>) -> bool {
    exists|index: int|
        0 <= index < language.config.path_suffixes@.len() && ends_in(
            path,
            encode_utf8((#[trigger] language.config.path_suffixes@[index])@),
        )
}

impl<T> LanguageRegistry<T> {
    /// The languages, in the order in which they were added.
    pub closed spec fn all(self) -> Seq<Language> {
        self.languages@
    }

    /// Where the programs of language servers are kept.
    pub closed spec fn download_dir(self) -> Option<Seq<u8>> {
        match self.language_server_download_dir {
            Some(download_dir) => Some(download_dir@),
            None => None,
        }
    }

    /// The language servers whose programs are being looked for, or were found.
    pub closed spec fn known_binaries(self) -> Seq<Seq<char>> {
        server_names(self.lsp_binary_names@)
    }

    /// How often languages were added, as far as it can be counted.
    pub closed spec fn version(self) -> u64 {
        self.changes
    }

    /// How captures are highlighted.
    pub closed spec fn current_theme(self) -> Option<T> {
        self.theme
    }

    /// Without languages.
    pub fn new() -> (registry: LanguageRegistry<T>)
        ensures
            registry.all() == Seq::<Language>::empty(),
            registry.download_dir() is None,
            registry.known_binaries() == Seq::<Seq<char>>::empty(),
            registry.version() == 0,
            registry.current_theme() is None,
    {
        let registry = LanguageRegistry {
            languages: Vec::new(),
            language_server_download_dir: None,
            lsp_binary_names: Vec::new(),
            changes: 0,
            theme: None,
        };
        assert(registry.known_binaries() =~= Seq::<Seq<char>>::empty());
        registry
    }

    /// A number that changes whenever a language is added.
    pub fn subscribe(&self) -> (version: u64)
        ensures
            version == self.version(),
    {
        self.changes
    }

    /// Says where the programs of language servers are kept.
    pub fn set_language_server_download_dir(&mut self, path: Vec<u8>)
        ensures
            final(self).download_dir() == Some(path@),
            final(self).all() == old(self).all(),
            final(self).known_binaries() == old(self).known_binaries(),
            final(self).version() == old(self).version(),
            final(self).current_theme() == old(self).current_theme(),
    {
        self.language_server_download_dir = Some(path);
    }

    /// The first language that goes by a name, in whatever case.
    pub fn get_language(&self, name: &str) -> (language: Option<&Language>)
        ensures
            match language {
                Some(language) => exists|index: int|
                    {
                        &&& 0 <= index < self.all().len()
                        &&& #[trigger] self.all()[index] == *language
                        &&& goes_by(*language, name@)
                        &&& forall|earlier: int|
                            0 <= earlier < index ==> !goes_by(#[trigger] self.all()[earlier], name@)
                    },
                None => forall|index: int|
                    0 <= index < self.all().len() ==> !goes_by(#[trigger] self.all()[index], name@),
            },
    {
        let wanted: String = to_lowercase(name);
        let mut index: usize = 0;
        while index < self.languages.len()
            invariant
                index <= self.languages@.len(),
                wanted@ == lowercase(name@),
                forall|earlier: int|
                    0 <= earlier < index ==> !goes_by(#[trigger] self.all()[earlier], name@),
            decreases self.languages@.len() - index,
        {
            let language: &Language = &self.languages[index];
            let lower: String = to_lowercase(language.name());
            if same_text(lower.as_str(), wanted.as_str()) {
                assert(self.all()[index as int] == *language);
                return Some(language);
            }
            index += 1;
        }
        None
    }

    /// The languages, in the order in which they were added.
    pub fn to_vec(&self) -> (languages: Vec<&Language>)
        ensures
            languages@.len() == self.all().len(),
            forall|index: int|
                0 <= index < languages@.len() ==> *(#[trigger] languages@[index])
                    == self.all()[index],
    {
        let mut languages: Vec<&Language> = Vec::new();
        let mut index: usize = 0;
        while index < self.languages.len()
            invariant
                index <= self.languages@.len(),
                languages@.len() == index,
                forall|at: int|
                    0 <= at < index ==> *(#[trigger] languages@[at]) == self.all()[at],
            decreases self.languages@.len() - index,
        {
            languages.push(&self.languages[index]);
            index += 1;
        }
        languages
    }

    /// The names of the languages, in the order in which they were added.
    pub fn language_names(&self) -> (names: Vec<String>)
        ensures
            names@.len() == self.all().len(),
            forall|index: int|
                0 <= index < names@.len() ==> (#[trigger] names@[index])@
                    == self.all()[index].config.name@,
    {
        let mut names: Vec<String> = Vec::new();
        let mut index: usize = 0;
        while index < self.languages.len()
            invariant
                index <= self.languages@.len(),
                names@.len() == index,
                forall|at: int|
                    0 <= at < index ==> (#[trigger] names@[at])@ == self.all()[at].config.name@,
            decreases self.languages@.len() - index,
        {
            names.push(self.languages[index].name().to_string());
            index += 1;
        }
        names
    }

    /// The first language in which the text at a path is: one of its suffixes is the extension
    /// of the path, or the name of the file.
    pub fn select_language(&self, path: &[u8]) -> (language: Option<&Language>)
        ensures
            match language {
                Some(language) => exists|index: int|
                    {
                        &&& 0 <= index < self.all().len()
                        &&& #[trigger] self.all()[index] == *language
                        &&& has_path(*language, path@)
                        &&& forall|earlier: int|
                            0 <= earlier < index ==> !has_path(
                                #[trigger] self.all()[earlier],
                                path@,
                            )
                    },
                None => forall|index: int|
                    0 <= index < self.all().len() ==> !has_path(#[trigger] self.all()[index], path@),
            },
    {
        let name: Option<Vec<u8>> = find_file_name(path);
        let suffix: Option<Vec<u8>> = match &name {
            Some(name) => find_extension(name.as_slice()),
            None => None,
        };
        let mut index: usize = 0;
        while index < self.languages.len()
            invariant
                index <= self.languages@.len(),
                match name {
                    Some(name) => file_name(path@) == Some(name@),
                    None => file_name(path@) is None,
                },
                match suffix {
                    Some(suffix) => extension(path@) == Some(suffix@),
                    None => extension(path@) is None,
                },
                forall|earlier: int|
                    0 <= earlier < index ==> !has_path(#[trigger] self.all()[earlier], path@),
            decreases self.languages@.len() - index,
        {
            let language: &Language = &self.languages[index];
            let mut at: usize = 0;
            while at < language.config.path_suffixes.len()
                invariant
                    index < self.languages@.len(),
                    *language == self.all()[index as int],
                    at <= language.config.path_suffixes@.len(),
                    match name {
                        Some(name) => file_name(path@) == Some(name@),
                        None => file_name(path@) is None,
                    },
                    match suffix {
                        Some(suffix) => extension(path@) == Some(suffix@),
                        None => extension(path@) is None,
                    },
                    forall|earlier: int|
                        0 <= earlier < index ==> !has_path(#[trigger] self.all()[earlier], path@),
                    forall|earlier: int|
                        0 <= earlier < at ==> !ends_in(
                            path@,
                            encode_utf8((#[trigger] language.config.path_suffixes@[earlier])@),
                        ),
                decreases language.config.path_suffixes@.len() - at,
            {
                if is_suffix(
                    &suffix,
                    &name,
                    language.config.path_suffixes[at].as_str().as_bytes(),
                ) {
                    assert(ends_in(
                        path@,
                        encode_utf8(language.config.path_suffixes@[at as int]@),
                    ));
                    assert(has_path(*language, path@));
                    return Some(language);
                }
                at += 1;
            }
            assert(!has_path(self.all()[index as int], path@));
            index += 1;
        }
        None
    }

    /// How the server of a language is started. Its program is looked for only once, whoever
    /// asks for it.
    pub fn start_language_server(&mut self, language: &Language, has_fake: bool) -> (start:
        ServerStart)
        ensures
            final(self).all() == old(self).all(),
            final(self).download_dir() == old(self).download_dir(),
            final(self).version() == old(self).version(),
            final(self).current_theme() == old(self).current_theme(),
            is_start(
                start,
                has_fake,
                old(self).download_dir(),
                language.adapter,
                old(self).known_binaries(),
            ),
            final(self).known_binaries() == known_after_start(
                has_fake,
                old(self).download_dir(),
                language.adapter,
                old(self).known_binaries(),
            ),
    {
        if has_fake {
            return ServerStart::Fake;
        }
        let download_dir: Vec<u8> = match &self.language_server_download_dir {
            Some(download_dir) => {
                let copy: Vec<u8> = download_dir.clone();
                assert(copy@ =~= download_dir@);
                copy
            },
            None => {
                return ServerStart::NoDownloadDirectory;
            },
        };
        match &language.adapter {
            None => ServerStart::NoServer,
            Some(adapter) => {
                let name: LanguageServerName = adapter.name.clone();
                let server_args: Vec<String> = copied(&adapter.server_args);
                let mut index: usize = 0;
                while index < self.lsp_binary_names.len()
                    invariant
                        *self == *old(self),
                        !has_fake,
                        self.download_dir() == Some(download_dir@),
                        language.adapter == Some(*adapter),
                        name == adapter.name,
                        server_args@ == adapter.server_args@,
                        index <= self.lsp_binary_names@.len(),
                        forall|at: int|
                            0 <= at < index ==> #[trigger] self.known_binaries()[at]
                                != adapter.name.0@,
                    decreases self.lsp_binary_names@.len() - index,
                {
                    if self.lsp_binary_names[index].is(&adapter.name) {
                        assert(self.known_binaries()[index as int] == adapter.name.0@);
                        return ServerStart::AwaitAndStart { name, server_args };
                    }
                    index += 1;
                }
                self.lsp_binary_names.push(adapter.name.clone());
                assert(self.known_binaries() =~= old(self).known_binaries().push(adapter.name.0@));
                ServerStart::FindAndStart { name, server_args, download_dir }
            },
        }
    }
}

impl<T: Fn(&String) -> HighlightId> LanguageRegistry<T> {
    /// Adds a language, highlighted as the theme says if there is one, and lets whoever waits
    /// for new languages know.
    pub fn add(&mut self, language: Language)
        requires
            old(self).current_theme() matches Some(theme) ==> forall|name: &String|
                theme.requires((name,)),
        ensures
            final(self).all().len() == old(self).all().len() + 1,
            final(self).all().drop_last() == old(self).all(),
            match old(self).current_theme() {
                Some(theme) => is_themed_language(final(self).all().last(), language, theme),
                None => final(self).all().last() == language,
            },
            final(self).version() != old(self).version(),
            final(self).download_dir() == old(self).download_dir(),
            final(self).known_binaries() == old(self).known_binaries(),
            final(self).current_theme() == old(self).current_theme(),
    {
        let mut language: Language = language;
        if let Some(theme) = &self.theme {
            language.set_theme(theme);
        }
        self.languages.push(language);
        self.changes = if self.changes == u64::MAX {
            0
        } else {
            self.changes + 1
        };
        assert(self.languages@.drop_last() =~= old(self).languages@);
    }

    /// Highlights all languages, and those that are added later, as `theme` says.
    pub fn set_theme(&mut self, theme: T)
        requires
            forall|name: &String| theme.requires((name,)),
        ensures
            final(self).current_theme() == Some(theme),
            final(self).all().len() == old(self).all().len(),
            forall|index: int|
                0 <= index < final(self).all().len() ==> is_themed_language(
                    #[trigger] final(self).all()[index],
                    old(self).all()[index],
                    theme,
                ),
            final(self).version() == old(self).version(),
            final(self).download_dir() == old(self).download_dir(),
            final(self).known_binaries() == old(self).known_binaries(),
    {
        let mut index: usize = 0;
        while index < self.languages.len()
            invariant
                forall|name: &String| theme.requires((name,)),
                self.languages@.len() == old(self).languages@.len(),
                index <= self.languages@.len(),
                self.lsp_binary_names == old(self).lsp_binary_names,
                self.changes == old(self).changes,
                self.language_server_download_dir == old(self).language_server_download_dir,
                forall|at: int|
                    0 <= at < index ==> is_themed_language(
                        #[trigger] self.languages@[at],
                        old(self).languages@[at],
                        theme,
                    ),
                forall|at: int|
                    index <= at < self.languages@.len() ==> #[trigger] self.languages@[at] == old(self).languages@[at],
            decreases self.languages@.len() - index,
        {
            self.languages[index].set_theme(&theme);
            index += 1;
        }
        self.theme = Some(theme);
    }
}

/// The program of a language server is looked for once: after a first start, every later start
/// of a server of that name waits for the program that is being looked for, whatever was started
/// in between.
pub proof fn law_program_is_looked_for_once(
    download_dir: Option<Seq<u8>>,
    adapter: CachedLspAdapter,
    known: Seq<Seq<char>>,
    later_known: Seq<Seq<char>>,
    later_start: ServerStart,
)
    requires
        download_dir is Some,
        forall|name: Seq<char>| #[trigger]
            known_after_start(false, download_dir, Some(adapter), known).contains(name)
                ==> later_known.contains(name),
        is_start(later_start, false, download_dir, Some(adapter), later_known),
    ensures
        later_start is AwaitAndStart,
        known_after_start(false, download_dir, Some(adapter), later_known) == later_known,
{
    let first = known_after_start(false, download_dir, Some(adapter), known);
    if !known.contains(adapter.name.0@) {
        assert(first[known.len() as int] == adapter.name.0@);
    }
    assert(first.contains(adapter.name.0@));
}

/// A server whose program is being looked for, or was found, stays known whatever is started.
pub proof fn law_programs_stay_known(
    has_fake: bool,
    download_dir: Option<Seq<u8>>,
    adapter: Option<CachedLspAdapter>,
    known: Seq<Seq<char>>,
    name: Seq<char>,
)
    requires
        known.contains(name),
    ensures
        known_after_start(has_fake, download_dir, adapter, known).contains(name),
{
    let at = choose|at: int| 0 <= at < known.len() && known[at] == name;
    assert(known_after_start(has_fake, download_dir, adapter, known)[at] == name);
}

/// A language with a server gets it started whenever there is a directory for its program and no
/// stand-in is used, under its own name and with its own arguments; its program is looked for, in
/// that directory, exactly if it is not known yet. A stand-in is used whenever there is one.
pub proof fn law_servers_start_as_their_adapters_say(
    start: ServerStart,
    has_fake: bool,
    download_dir: Option<Seq<u8>>,
    adapter: Option<CachedLspAdapter>,
    known: Seq<Seq<char>>,
)
    requires
        is_start(start, has_fake, download_dir, adapter, known),
    ensures
        (start is Fake) == has_fake,
        (start is NoDownloadDirectory) == (!has_fake && download_dir is None),
        (start is NoServer) == (!has_fake && download_dir is Some && adapter is None),
        start matches ServerStart::FindAndStart { name, server_args, download_dir: dir }
            ==> adapter is Some && name == adapter->0.name && server_args@
            == adapter->0.server_args@ && Some(dir@) == download_dir && !known.contains(name.0@),
        start matches ServerStart::AwaitAndStart { name, server_args } ==> adapter is Some && name
            == adapter->0.name && server_args@ == adapter->0.server_args@ && known.contains(name.0@),
{
}

/// Starting a server makes known the one that it starts, and no other.
pub proof fn law_started_servers_become_known(
    has_fake: bool,
    download_dir: Option<Seq<u8>>,
    adapter: Option<CachedLspAdapter>,
    known: Seq<Seq<char>>,
    name: Seq<char>,
)
    ensures
        known_after_start(has_fake, download_dir, adapter, known).contains(name) == (known.contains(
            name,
        ) || (!has_fake && download_dir is Some && adapter is Some && adapter->0.name.0@ == name)),
{
    let after = known_after_start(has_fake, download_dir, adapter, known);
    if known.contains(name) {
        law_programs_stay_known(has_fake, download_dir, adapter, known, name);
    } else if after.contains(name) {
        let at = choose|at: int| 0 <= at < after.len() && after[at] == name;
        if at < known.len() {
            assert(known[at] == name);
        }
    } else if !has_fake && download_dir is Some && adapter is Some && !known.contains(
        adapter->0.name.0@,
    ) {
        assert(after[known.len() as int] == adapter->0.name.0@);
    }
}

/// Any of its suffixes makes a path one of a language: a name as a whole, or an extension.
pub proof fn law_every_suffix_counts(language: Language, path: Seq<u8>, index: int)
    requires
        0 <= index < language.config.path_suffixes@.len(),
    ensures
        file_name(path) == Some(encode_utf8(language.config.path_suffixes@[index]@)) || extension(
            path,
        ) == Some(encode_utf8(language.config.path_suffixes@[index]@)) ==> has_path(language, path),
        file_name(path) is None ==> !has_path(language, path),
{
    if ends_in(path, encode_utf8(language.config.path_suffixes@[index]@)) {
        let suffix = language.config.path_suffixes@[index];
        assert(has_path(language, path));
    }
}

/// A language goes by its own name, and by whatever is that name in another case; no language goes by
/// two names that differ in lower case.
pub proof fn law_case_does_not_matter(language: Language, name: Seq<char>, other: Seq<char>)
    ensures
        goes_by(language, language.config.name@),
        goes_by(language, name) && goes_by(language, other) ==> lowercase(name) == lowercase(other),
        lowercase(name) == lowercase(other) ==> goes_by(language, name) == goes_by(language, other),
{
}

/// No path is that of a text in a language whose settings say nothing but its name, which closes no
/// brackets, has no comments and indents by the last line that is not empty.
pub proof fn law_default_settings_claim_no_path(language: Language, name: Seq<char>, path: Seq<u8>)
    requires
        is_default_config(language.config, name),
    ensures
        !has_path(language, path),
        goes_by(language, name),
        language.config.brackets@ =~= Seq::empty(),
        language.config.autoclose_before@ =~= Seq::empty(),
        language.config.line_comment is None,
        language.config.block_comment is None,
        language.config.auto_indent_using_last_non_empty_line,
        language.config.increase_indent_pattern is None,
        language.config.decrease_indent_pattern is None,
{
}

} // verus!
