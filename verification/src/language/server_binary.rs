//! How the program of a language server is found, and what is told of it meanwhile.

use vstd::prelude::*;

verus! {

/// What the user is told while the program of a language server is looked for.
#[derive(Debug, PartialEq, Eq)]
pub enum LanguageServerBinaryStatus {
    CheckingForUpdate,
    Downloading,
    Downloaded,
    Cached,
    Failed { error: String },
}

impl Clone for LanguageServerBinaryStatus {
    fn clone(&self) -> (copy: LanguageServerBinaryStatus)
        ensures
            copy == *self,
    {
        match self {
            LanguageServerBinaryStatus::CheckingForUpdate => {
                LanguageServerBinaryStatus::CheckingForUpdate
            },
            LanguageServerBinaryStatus::Downloading => LanguageServerBinaryStatus::Downloading,
            LanguageServerBinaryStatus::Downloaded => LanguageServerBinaryStatus::Downloaded,
            LanguageServerBinaryStatus::Cached => LanguageServerBinaryStatus::Cached,
            LanguageServerBinaryStatus::Failed { error } => LanguageServerBinaryStatus::Failed {
                error: error.clone(),
            },
        }
    }
}

/// How far the search for the program of a language server has come.
#[derive(Debug, PartialEq, Eq)]
pub enum BinarySearch {
    /// The directory for it has to be made.
    CreateDirectory,
    /// The user has to be told that there may be a newer version.
    AnnounceCheck,
    /// The newest version has to be found out.
    FetchVersion,
    /// The user has to be told that it is being fetched.
    AnnounceDownload,
    /// The program has to be fetched.
    FetchBinary,
    /// The user has to be told that it was fetched.
    AnnounceDownloaded { path: Vec<u8> },
    /// It could not be fetched, and one fetched earlier has to be looked for.
    LookInCache { error: String },
    /// The user has to be told that one fetched earlier is used.
    AnnounceCached { path: Vec<u8> },
    /// The user has to be told that there is none.
    AnnounceFailure { error: String },
    /// This is the program.
    Found { path: Vec<u8> },
    /// There is no program.
    Failed { error: String },
}

/// What the search waits for.
#[derive(Debug, PartialEq, Eq)]
pub enum BinaryEvent {
    /// What was to be done is done.
    Done,
    /// The program was fetched, or one fetched earlier was found.
    Path { path: Vec<u8> },
    /// No program fetched earlier was found.
    NotCached,
    /// What was to be done failed.
    Error { error: String },
}

/// What the user has to be told, where the search waits for that.
pub open spec fn announcement(state: BinarySearch) -> Option<LanguageServerBinaryStatus> {
    match state {
        BinarySearch::AnnounceCheck => Some(LanguageServerBinaryStatus::CheckingForUpdate),
        BinarySearch::AnnounceDownload => Some(LanguageServerBinaryStatus::Downloading),
        BinarySearch::AnnounceDownloaded { .. } => Some(LanguageServerBinaryStatus::Downloaded),
        BinarySearch::AnnounceCached { .. } => Some(LanguageServerBinaryStatus::Cached),
        BinarySearch::AnnounceFailure { error } => Some(
            LanguageServerBinaryStatus::Failed { error },
        ),
        _ => None,
    }
}

/// How the search goes on after an event. One that it does not wait for changes nothing.
pub open spec fn search_next(state: BinarySearch, event: BinaryEvent) -> BinarySearch {
    match (state, event) {
        // Without a directory, or when it cannot even be said that a program was found, the
        // search is over.
        (BinarySearch::CreateDirectory, BinaryEvent::Error { error }) => BinarySearch::Failed {
            error,
        },
        (BinarySearch::AnnounceCached { .. }, BinaryEvent::Error { error }) => {
            BinarySearch::Failed { error }
        },
        (BinarySearch::AnnounceFailure { .. }, BinaryEvent::Error { error }) => {
            BinarySearch::Failed { error }
        },
        // Any other failure leads to what was fetched earlier.
        (BinarySearch::AnnounceCheck, BinaryEvent::Error { error }) => BinarySearch::LookInCache {
            error,
        },
        (BinarySearch::FetchVersion, BinaryEvent::Error { error }) => BinarySearch::LookInCache {
            error,
        },
        (BinarySearch::AnnounceDownload, BinaryEvent::Error { error }) => {
            BinarySearch::LookInCache { error }
        },
        (BinarySearch::FetchBinary, BinaryEvent::Error { error }) => BinarySearch::LookInCache {
            error,
        },
        (BinarySearch::AnnounceDownloaded { .. }, BinaryEvent::Error { error }) => {
            BinarySearch::LookInCache { error }
        },
        // Where all goes well, one thing follows the other.
        (BinarySearch::CreateDirectory, BinaryEvent::Done) => BinarySearch::AnnounceCheck,
        (BinarySearch::AnnounceCheck, BinaryEvent::Done) => BinarySearch::FetchVersion,
        (BinarySearch::FetchVersion, BinaryEvent::Done) => BinarySearch::AnnounceDownload,
        (BinarySearch::AnnounceDownload, BinaryEvent::Done) => BinarySearch::FetchBinary,
        (BinarySearch::FetchBinary, BinaryEvent::Path { path }) => {
            BinarySearch::AnnounceDownloaded { path }
        },
        (BinarySearch::AnnounceDownloaded { path }, BinaryEvent::Done) => BinarySearch::Found {
            path,
        },
        (BinarySearch::LookInCache { .. }, BinaryEvent::Path { path }) => {
            BinarySearch::AnnounceCached { path }
        },
        (BinarySearch::LookInCache { error }, BinaryEvent::NotCached) => {
            BinarySearch::AnnounceFailure { error }
        },
        (BinarySearch::AnnounceCached { path }, BinaryEvent::Done) => BinarySearch::Found { path },
        (BinarySearch::AnnounceFailure { error }, BinaryEvent::Done) => BinarySearch::Failed {
            error,
        },
        (state, _) => state,
    }
}

impl BinarySearch {
    /// Where to begin.
    pub fn begin(directory_exists: bool) -> (state: BinarySearch)
        ensures
            state == (if directory_exists {
                BinarySearch::AnnounceCheck
            } else {
                BinarySearch::CreateDirectory
            }),
    {
        if directory_exists {
            BinarySearch::AnnounceCheck
        } else {
            BinarySearch::CreateDirectory
        }
    }

    /// What the user has to be told, where the search waits for that.
    pub fn status(&self) -> (status: Option<LanguageServerBinaryStatus>)
        ensures
            status == announcement(*self),
    {
        match self {
            BinarySearch::AnnounceCheck => Some(LanguageServerBinaryStatus::CheckingForUpdate),
            BinarySearch::AnnounceDownload => Some(LanguageServerBinaryStatus::Downloading),
            BinarySearch::AnnounceDownloaded { path: _ } => Some(
                LanguageServerBinaryStatus::Downloaded,
            ),
            BinarySearch::AnnounceCached { path: _ } => Some(LanguageServerBinaryStatus::Cached),
            BinarySearch::AnnounceFailure { error } => Some(
                LanguageServerBinaryStatus::Failed { error: error.clone() },
            ),
            _ => None,
        }
    }

    /// How the search goes on after an event.
    pub fn advance(self, event: BinaryEvent) -> (next: BinarySearch)
        ensures
            next == search_next(self, event),
    {
        match event {
            BinaryEvent::Error { error } => match self {
                BinarySearch::CreateDirectory => BinarySearch::Failed { error },
                BinarySearch::AnnounceCached { path: _ } => BinarySearch::Failed { error },
                BinarySearch::AnnounceFailure { error: _ } => BinarySearch::Failed { error },
                BinarySearch::AnnounceCheck => BinarySearch::LookInCache { error },
                BinarySearch::FetchVersion => BinarySearch::LookInCache { error },
                BinarySearch::AnnounceDownload => BinarySearch::LookInCache { error },
                BinarySearch::FetchBinary => BinarySearch::LookInCache { error },
                BinarySearch::AnnounceDownloaded { path: _ } => BinarySearch::LookInCache { error },
                state => state,
            },
            BinaryEvent::Done => match self {
                BinarySearch::CreateDirectory => BinarySearch::AnnounceCheck,
                BinarySearch::AnnounceCheck => BinarySearch::FetchVersion,
                BinarySearch::FetchVersion => BinarySearch::AnnounceDownload,
                BinarySearch::AnnounceDownload => BinarySearch::FetchBinary,
                BinarySearch::AnnounceDownloaded { path } => BinarySearch::Found { path },
                BinarySearch::AnnounceCached { path } => BinarySearch::Found { path },
                BinarySearch::AnnounceFailure { error } => BinarySearch::Failed { error },
                state => state,
            },
            BinaryEvent::Path { path } => match self {
                BinarySearch::FetchBinary => BinarySearch::AnnounceDownloaded { path },
                BinarySearch::LookInCache { error: _ } => BinarySearch::AnnounceCached { path },
                state => state,
            },
            BinaryEvent::NotCached => match self {
                BinarySearch::LookInCache { error } => BinarySearch::AnnounceFailure { error },
                state => state,
            },
        }
    }
}

/// The state of a search after some events.
pub open spec fn search_after(begin: BinarySearch, events: Seq<BinaryEvent>) -> BinarySearch
    decreases events.len(),
{
    if events.len() == 0 {
        begin
    } else {
        search_next(search_after(begin, events.drop_last()), events.last())
    }
}

/// Where all goes well, the user is told of the check, of the download and of its end, in this
/// order, and the program that was fetched is the one that is found.
pub proof fn law_search_that_goes_well(path: Vec<u8>)
    ensures
        ({
            let checked = search_next(BinarySearch::AnnounceCheck, BinaryEvent::Done);
            let downloading = search_next(checked, BinaryEvent::Done);
            let fetch = search_next(downloading, BinaryEvent::Done);
            let told = search_next(fetch, BinaryEvent::Path { path });
            &&& announcement(BinarySearch::AnnounceCheck)
                == Some(LanguageServerBinaryStatus::CheckingForUpdate)
            &&& announcement(checked) is None
            &&& announcement(downloading) == Some(LanguageServerBinaryStatus::Downloading)
            &&& announcement(fetch) is None
            &&& fetch == BinarySearch::FetchBinary
            &&& announcement(told) == Some(LanguageServerBinaryStatus::Downloaded)
            &&& search_next(told, BinaryEvent::Done) == (BinarySearch::Found { path })
        }),
{
}

/// Whatever fails between the check for a newer version and the end of the download, a program
/// that was fetched earlier is used if there is one, and otherwise the failure is what the
/// search ends with and what the user is told.
pub proof fn law_failed_download_falls_back(state: BinarySearch, error: String, path: Vec<u8>)
    requires
        state is AnnounceCheck || state is FetchVersion || state is AnnounceDownload
            || state is FetchBinary || state is AnnounceDownloaded,
    ensures
        ({
            let failed = search_next(state, BinaryEvent::Error { error });
            let cached = search_next(failed, BinaryEvent::Path { path });
            let missing = search_next(failed, BinaryEvent::NotCached);
            &&& announcement(cached) == Some(LanguageServerBinaryStatus::Cached)
            &&& search_next(cached, BinaryEvent::Done) == (BinarySearch::Found { path })
            &&& announcement(missing) == Some(LanguageServerBinaryStatus::Failed { error })
            &&& search_next(missing, BinaryEvent::Done) == (BinarySearch::Failed { error })
        }),
{
}

/// A search that is over stays as it is.
pub proof fn law_finished_search_stays(state: BinarySearch, events: Seq<BinaryEvent>)
    requires
        state is Found || state is Failed,
    ensures
        search_after(state, events) == state,
    decreases events.len(),
{
    if events.len() > 0 {
        law_finished_search_stays(state, events.drop_last());
    }
}

/// Without a directory for the program nothing is looked for: the search ends with what went wrong
/// when the directory was made, and once it is made the search goes on as if it had been there.
pub proof fn law_the_directory_comes_first(error: String)
    ensures
        search_next(BinarySearch::CreateDirectory, BinaryEvent::Error { error })
            == (BinarySearch::Failed { error }),
        search_next(BinarySearch::CreateDirectory, BinaryEvent::Done)
            == BinarySearch::AnnounceCheck,
        announcement(BinarySearch::CreateDirectory) is None,
{
}

/// A program is found only if it was fetched, or found among those fetched earlier, and it is that
/// very program.
pub proof fn law_what_is_found_was_fetched(
    begin: BinarySearch,
    events: Seq<BinaryEvent>,
    path: Vec<u8>,
)
    requires
        begin is CreateDirectory || begin is AnnounceCheck,
        search_after(begin, events) == (BinarySearch::Found { path }) || search_after(begin, events)
            == (BinarySearch::AnnounceDownloaded { path }) || search_after(begin, events)
            == (BinarySearch::AnnounceCached { path }),
    ensures
        events.contains(BinaryEvent::Path { path }),
    decreases events.len(),
{
    if events.len() > 0 {
        let rest = events.drop_last();
        let before = search_after(begin, rest);
        if before == (BinarySearch::Found { path }) || before == (BinarySearch::AnnounceDownloaded {
            path,
        }) || before == (BinarySearch::AnnounceCached { path }) {
            law_what_is_found_was_fetched(begin, rest, path);
            let at = choose|at: int|
                0 <= at < rest.len() && rest[at] == (BinaryEvent::Path { path });
            assert(events[at] == (BinaryEvent::Path { path }));
        } else {
            assert(events[events.len() - 1] == (BinaryEvent::Path { path }));
        }
    }
}

} // verus!
