//! A walk as a mathematical state machine: what is pending, what the walk
//! asks for next, and how an answer changes it.

use vstd::prelude::*;
use crate::entry::{classify_spec, EntryModel, ListingModel};
use crate::json::{text_member, Json};
use crate::file::{join, FileModel};

verus! {

/// How often a raw download is attempted before the walk gives up: once, and
/// up to three more times.
pub const MAX_ATTEMPTS: u32 = 4;

/// Why a walk failed.
pub enum ErrorModel {
    Transport { url: Seq<char> },
    NotADirectory { path: Seq<char>, body: Seq<u8> },
    RetryExhausted { url: Seq<char>, attempts: nat },
    Write { path: Seq<char> },
}

/// What stays the same throughout one walk.
#[verifier::ext_equal]
pub struct Settings {
    /// The listing address of the repository root; a path is appended to it.
    pub listing_base: Seq<char>,
    /// The credential sent with listing requests, if any.
    pub authorization: Option<Seq<char>>,
    /// Whether subdirectories are walked.
    pub recurse: bool,
    /// Where fetched files are written as they arrive, if anywhere.
    pub destination: Option<Seq<char>>,
}

/// One unit of pending work.
pub enum TaskModel {
    /// List the directory at `path`.
    List { path: Seq<char> },
    /// Download the file `name` from `url`; `attempt` counts from one.
    Get { name: Seq<char>, url: Seq<char>, attempt: nat },
    /// Write `content` to `path`.
    Put { path: Seq<char>, content: Seq<u8> },
}

/// What a walk asks its driver to do.
pub enum ActionModel {
    List { url: Seq<char>, authorization: Option<Seq<char>> },
    Download { url: Seq<char>, attempt: nat },
    Write { path: Seq<char>, content: Seq<u8> },
    Stop,
}

/// What the driver reports back.
pub enum EventModel {
    Listed(ListingModel),
    ListFailed,
    Fetched(Seq<u8>),
    FetchFailed,
    Written,
    WriteFailed,
}

#[verifier::ext_equal]
pub struct WalkModel {
    pub settings: Settings,
    /// Pending work, the next task first.
    pub agenda: Seq<TaskModel>,
    /// The files fetched so far, in the order of discovery.
    pub files: Seq<FileModel>,
    pub failure: Option<ErrorModel>,
}

/// The work that one entry of the listing of `path` calls for.
pub open spec fn task_of(path: Seq<char>, entry: EntryModel, recurse: bool) -> Seq<TaskModel> {
    match entry {
        EntryModel::File { name, download_reference } => seq![
            TaskModel::Get { name: join(path, name), url: download_reference, attempt: 1 },
        ],
        EntryModel::Directory { name } => if recurse {
            seq![TaskModel::List { path: join(path, name) }]
        } else {
            Seq::empty()
        },
        EntryModel::Unknown => Seq::empty(),
    }
}

/// The work that the listing of `path` calls for, in the order of the listing.
pub open spec fn tasks_of(path: Seq<char>, entries: Seq<EntryModel>, recurse: bool) -> Seq<
    TaskModel,
>
    decreases entries.len(),
{
    if entries.len() == 0 {
        Seq::empty()
    } else {
        task_of(path, entries[0], recurse) + tasks_of(path, entries.skip(1), recurse)
    }
}

/// The listing address of the root of `repo` of `user`.
pub open spec fn listing_base(user: Seq<char>, repo: Seq<char>) -> Seq<char> {
    "https://api.github.com/repos/"@ + user + "/"@ + repo + "/contents/"@
}

/// The raw-content address of `file` on the main branch of `repo` of `user`.
pub open spec fn raw_url(user: Seq<char>, repo: Seq<char>, file: Seq<char>) -> Seq<char> {
    "https://raw.githubusercontent.com/"@ + user + "/"@ + repo + "/main/"@ + file
}

/// The credential for `token`: none for the empty token.
pub open spec fn bearer(token: Seq<char>) -> Option<Seq<char>> {
    if token.len() == 0 {
        None
    } else {
        Some("Bearer "@ + token)
    }
}

/// The texts of `items`.
pub open spec fn texts(items: Seq<&str>) -> Seq<Seq<char>> {
    items.map_values(|t: &str| t@)
}

/// One listing per root, in the order given.
pub open spec fn list_tasks(paths: Seq<Seq<char>>) -> Seq<TaskModel> {
    paths.map_values(|path: Seq<char>| TaskModel::List { path })
}

/// One download per file, in the order given, each named as given.
pub open spec fn get_tasks(user: Seq<char>, repo: Seq<char>, files: Seq<Seq<char>>) -> Seq<
    TaskModel,
> {
    files.map_values(
        |file: Seq<char>| TaskModel::Get { name: file, url: raw_url(user, repo, file), attempt: 1 },
    )
}

/// A walk at its start: `agenda` is pending, nothing is fetched.
pub open spec fn fresh(settings: Settings, agenda: Seq<TaskModel>) -> WalkModel {
    WalkModel { settings, agenda, files: Seq::empty(), failure: None }
}

impl WalkModel {
    /// A walk that has failed with `error`: nothing is pending, and nothing
    /// of what was fetched is kept.
    pub open spec fn failed(self, error: ErrorModel) -> WalkModel {
        WalkModel {
            settings: self.settings,
            agenda: Seq::empty(),
            files: Seq::empty(),
            failure: Some(error),
        }
    }

    /// Whether the walk has come to its end.
    pub open spec fn settled(self) -> bool {
        self.agenda.len() == 0
    }

    /// What a settled walk returns.
    pub open spec fn result(self) -> Result<Seq<FileModel>, ErrorModel> {
        match self.failure {
            Some(error) => Err(error),
            None => Ok(self.files),
        }
    }

    /// What the walk asks for next.
    pub open spec fn action(self) -> ActionModel {
        if self.agenda.len() == 0 {
            ActionModel::Stop
        } else {
            match self.agenda[0] {
                TaskModel::List { path } => ActionModel::List {
                    url: self.settings.listing_base + path,
                    authorization: self.settings.authorization,
                },
                TaskModel::Get { name, url, attempt } => ActionModel::Download { url, attempt },
                TaskModel::Put { path, content } => ActionModel::Write { path, content },
            }
        }
    }

    /// The walk after `event`. An event that does not answer what the walk
    /// asked for changes nothing.
    pub open spec fn step(self, event: EventModel) -> WalkModel {
        if self.agenda.len() == 0 {
            self
        } else {
            let rest = self.agenda.skip(1);
            match (self.agenda[0], event) {
                (TaskModel::List { path }, EventModel::Listed(ListingModel::Entries(entries))) => {
                    WalkModel {
                        agenda: tasks_of(path, entries, self.settings.recurse) + rest,
                        ..self
                    }
                },
                (
                    TaskModel::List { path },
                    EventModel::Listed(ListingModel::NotADirectory { body }),
                ) => self.failed(ErrorModel::NotADirectory { path, body }),
                (TaskModel::List { path }, EventModel::ListFailed) => self.failed(
                    ErrorModel::Transport { url: self.settings.listing_base + path },
                ),
                (TaskModel::Get { name, url, attempt }, EventModel::Fetched(content)) => {
                    let file = FileModel { name, content };
                    match self.settings.destination {
                        Some(destination) => WalkModel {
                            agenda: seq![
                                TaskModel::Put { path: join(destination, name), content },
                            ] + rest,
                            files: self.files.push(file),
                            ..self
                        },
                        None => WalkModel { agenda: rest, files: self.files.push(file), ..self },
                    }
                },
                (TaskModel::Get { name, url, attempt }, EventModel::FetchFailed) => {
                    if attempt < MAX_ATTEMPTS {
                        WalkModel {
                            agenda: seq![TaskModel::Get { name, url, attempt: attempt + 1 }] + rest,
                            ..self
                        }
                    } else {
                        self.failed(ErrorModel::RetryExhausted { url, attempts: attempt })
                    }
                },
                (TaskModel::Put { path, content }, EventModel::Written) => WalkModel {
                    agenda: rest,
                    ..self
                },
                (TaskModel::Put { path, content }, EventModel::WriteFailed) => self.failed(
                    ErrorModel::Write { path },
                ),
                _ => self,
            }
        }
    }
}

/// A listing response that is no array ends the walk at once: it has failed
/// with that response, and nothing of what was fetched is kept.
pub proof fn listing_that_is_no_array_fails(walk: WalkModel, path: Seq<char>, body: Seq<u8>)
    requires
        walk.agenda.len() > 0,
        walk.agenda[0] == (TaskModel::List { path }),
    ensures
        ({
            let end = walk.step(EventModel::Listed(ListingModel::NotADirectory { body }));
            &&& end.settled()
            &&& end.result() == Err::<Seq<FileModel>, ErrorModel>(
                ErrorModel::NotADirectory { path, body },
            )
            &&& end.files.len() == 0
        }),
{
}

/// A file descriptor without a download reference stands for no file: the
/// entry is unknown, and calls for no work.
pub proof fn file_without_reference_is_passed_over(
    descriptor: Json,
    path: Seq<char>,
    recurse: bool,
)
    requires
        text_member(descriptor, "type"@) == Some("file"@),
        text_member(descriptor, "download_url"@) is None,
    ensures
        classify_spec(descriptor) == EntryModel::Unknown,
        task_of(path, classify_spec(descriptor), recurse) == Seq::<TaskModel>::empty(),
{
}

} // verus!
