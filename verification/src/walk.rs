//! The walk that a driver runs: it holds what is pending and what was
//! fetched, names the next request, and takes the answer.

use vstd::prelude::*;
use crate::entry::{entries_view, DirectoryEntry, Listing};
use crate::file::{copy_bytes, files_view, join_path, FileModel, Files, GhfcFile};
use crate::model::{
    bearer, fresh, get_tasks, list_tasks, listing_base, raw_url, tasks_of, texts, ActionModel,
    ErrorModel, EventModel, Settings, TaskModel, WalkModel, MAX_ATTEMPTS,
};

verus! {

/// Why a walk failed. Every failure ends the whole walk.
#[derive(Debug, PartialEq, Eq)]
pub enum WalkError {
    /// A listing request failed before any response arrived.
    Transport { url: String },
    /// The listing of `path` is not a JSON array; `body` is the response.
    NotADirectory { path: String, body: Vec<u8> },
    /// The download from `url` failed on each of `attempts` attempts.
    RetryExhausted { url: String, attempts: u32 },
    /// The file at `path` could not be written.
    Write { path: String },
}

impl View for WalkError {
    type V = ErrorModel;

    open spec fn view(&self) -> ErrorModel {
        match self {
            WalkError::Transport { url } => ErrorModel::Transport { url: url@ },
            WalkError::NotADirectory { path, body } => ErrorModel::NotADirectory {
                path: path@,
                body: body@,
            },
            WalkError::RetryExhausted { url, attempts } => ErrorModel::RetryExhausted {
                url: url@,
                attempts: *attempts as nat,
            },
            WalkError::Write { path } => ErrorModel::Write { path: path@ },
        }
    }
}

/// What the driver is to do next.
#[derive(Debug, PartialEq, Eq)]
pub enum Action {
    /// Request the listing at `url`, with the credential if there is one.
    List { url: String, authorization: Option<String> },
    /// Request the raw bytes at `url`. `attempt` counts from one.
    Download { url: String, attempt: u32 },
    /// Create the directories above `path` and write `content` there.
    Write { path: String, content: Vec<u8> },
    /// Nothing: the walk has come to its end.
    Stop,
}

/// What the driver reports back.
#[derive(Debug, PartialEq, Eq)]
pub enum Event {
    /// The listing request was answered.
    Listed(Listing),
    /// The listing request failed before any response arrived.
    ListFailed,
    /// The download gave these bytes.
    Fetched(Vec<u8>),
    /// The download failed before its body had arrived.
    FetchFailed,
    /// The file was written.
    Written,
    /// The file could not be written.
    WriteFailed,
}

pub open spec fn text_view(text: Option<String>) -> Option<Seq<char>> {
    match text {
        Some(t) => Some(t@),
        None => None,
    }
}

impl View for Action {
    type V = ActionModel;

    open spec fn view(&self) -> ActionModel {
        match self {
            Action::List { url, authorization } => ActionModel::List {
                url: url@,
                authorization: text_view(*authorization),
            },
            Action::Download { url, attempt } => ActionModel::Download {
                url: url@,
                attempt: *attempt as nat,
            },
            Action::Write { path, content } => ActionModel::Write { path: path@, content: content@ },
            Action::Stop => ActionModel::Stop,
        }
    }
}

impl View for Event {
    type V = EventModel;

    open spec fn view(&self) -> EventModel {
        match self {
            Event::Listed(listing) => EventModel::Listed(listing@),
            Event::ListFailed => EventModel::ListFailed,
            Event::Fetched(content) => EventModel::Fetched(content@),
            Event::FetchFailed => EventModel::FetchFailed,
            Event::Written => EventModel::Written,
            Event::WriteFailed => EventModel::WriteFailed,
        }
    }
}

pub open spec fn result_view(result: Result<Files, WalkError>) -> Result<
    Seq<FileModel>,
    ErrorModel,
> {
    match result {
        Ok(files) => Ok(files@),
        Err(error) => Err(error@),
    }
}

enum Task {
    List { path: String },
    Get { name: String, url: String, attempt: u32 },
    Put { path: String, content: Vec<u8> },
}

impl View for Task {
    type V = TaskModel;

    closed spec fn view(&self) -> TaskModel {
        match self {
            Task::List { path } => TaskModel::List { path: path@ },
            Task::Get { name, url, attempt } => TaskModel::Get {
                name: name@,
                url: url@,
                attempt: *attempt as nat,
            },
            Task::Put { path, content } => TaskModel::Put { path: path@, content: content@ },
        }
    }
}

/// The agenda that a stack of tasks stands for: the top of the stack is the
/// next task.
spec fn agenda_of(stack: Seq<Task>) -> Seq<TaskModel> {
    Seq::new(stack.len(), |i: int| stack[stack.len() - 1 - i]@)
}

proof fn agenda_of_push(stack: Seq<Task>, task: Task)
    ensures
        agenda_of(stack.push(task)) == seq![task@] + agenda_of(stack),
{
}

proof fn agenda_of_pop(stack: Seq<Task>)
    requires
        stack.len() > 0,
    ensures
        agenda_of(stack).len() > 0,
        agenda_of(stack)[0] == stack.last()@,
        agenda_of(stack.drop_last()) == agenda_of(stack).skip(1),
{
}

/// A walk in progress.
pub struct Walk {
    listing_base: String,
    authorization: Option<String>,
    recurse: bool,
    destination: Option<String>,
    stack: Vec<Task>,
    files: Vec<GhfcFile>,
    failure: Option<WalkError>,
}

impl View for Walk {
    type V = WalkModel;

    closed spec fn view(&self) -> WalkModel {
        WalkModel {
            settings: Settings {
                listing_base: self.listing_base@,
                authorization: text_view(self.authorization),
                recurse: self.recurse,
                destination: text_view(self.destination),
            },
            agenda: agenda_of(self.stack@),
            files: files_view(self.files@),
            failure: match self.failure {
                Some(error) => Some(error@),
                None => None,
            },
        }
    }
}

/// Puts the work that the listing of `path` calls for on top of the stack, the
/// first entry's work topmost.
fn push_tasks(stack: &mut Vec<Task>, path: &str, entries: Vec<DirectoryEntry>, recurse: bool)
    ensures
        agenda_of(final(stack)@) == tasks_of(path@, entries_view(entries@), recurse) + agenda_of(
            old(stack)@,
        ),
{
    let ghost all = entries_view(entries@);
    let ghost below = agenda_of(stack@);
    let mut entries = entries;
    while entries.len() > 0
        invariant
            entries.len() <= all.len(),
            entries_view(entries@) == all.take(entries.len() as int),
            agenda_of(stack@) == tasks_of(path@, all.skip(entries.len() as int), recurse) + below,
        decreases entries.len(),
    {
        let ghost before = entries@;
        let ghost k = entries.len() as int;
        let ghost pending = stack@;
        let entry = entries.pop().unwrap();
        proof {
            assert(entry@ == entries_view(before)[k - 1]);
            assert(all.skip(k - 1).skip(1) =~= all.skip(k));
        }
        match entry {
            DirectoryEntry::File { name, download_reference } => {
                let task = Task::Get {
                    name: join_path(path, name.as_str()),
                    url: download_reference,
                    attempt: 1,
                };
                proof {
                    agenda_of_push(pending, task);
                }
                stack.push(task);
            },
            DirectoryEntry::Directory { name } => {
                if recurse {
                    let task = Task::List { path: join_path(path, name.as_str()) };
                    proof {
                        agenda_of_push(pending, task);
                    }
                    stack.push(task);
                }
            },
            DirectoryEntry::Unknown => {},
        }
    }
    assert(all.skip(0) =~= all);
}

fn copy_text(text: &Option<String>) -> (r: Option<String>)
    ensures
        text_view(r) == text_view(*text),
{
    match text {
        Some(t) => Some(t.clone()),
        None => None,
    }
}

impl Walk {
    /// Whether the walk has come to its end.
    pub fn is_settled(&self) -> (r: bool)
        ensures
            r == self@.settled(),
    {
        self.stack.len() == 0
    }

    /// What the driver is to do next.
    pub fn action(&self) -> (a: Action)
        ensures
            a@ == self@.action(),
    {
        let n = self.stack.len();
        if n == 0 {
            return Action::Stop;
        }
        proof {
            agenda_of_pop(self.stack@);
        }
        match &self.stack[n - 1] {
            Task::List { path } => {
                let mut url = self.listing_base.clone();
                url.append(path.as_str());
                Action::List { url, authorization: copy_text(&self.authorization) }
            },
            Task::Get { name, url, attempt } => Action::Download {
                url: url.clone(),
                attempt: *attempt,
            },
            Task::Put { path, content } => Action::Write {
                path: path.clone(),
                content: copy_bytes(content),
            },
        }
    }

    fn fail(&mut self, error: WalkError)
        ensures
            final(self)@ == old(self)@.failed(error@),
    {
        self.stack = Vec::new();
        self.files = Vec::new();
        self.failure = Some(error);
    }

    /// Takes the answer to the pending request. An event that does not answer
    /// what the walk asked for changes nothing.
    pub fn step(&mut self, event: Event)
        ensures
            final(self)@ == old(self)@.step(event@),
    {
        let ghost before = self.stack@;
        let task = match self.stack.pop() {
            Some(t) => t,
            None => {
                return ;
            },
        };
        proof {
            agenda_of_pop(before);
        }
        match task {
            Task::List { path } => match event {
                Event::Listed(Listing::Entries(entries)) => {
                    push_tasks(&mut self.stack, path.as_str(), entries, self.recurse);
                },
                Event::Listed(Listing::NotADirectory { body }) => {
                    self.fail(WalkError::NotADirectory { path, body });
                },
                Event::ListFailed => {
                    let mut url = self.listing_base.clone();
                    url.append(path.as_str());
                    self.fail(WalkError::Transport { url });
                },
                _ => {
                    self.stack.push(Task::List { path });
                },
            },
            Task::Get { name, url, attempt } => match event {
                Event::Fetched(content) => {
                    if let Some(destination) = &self.destination {
                        let put = Task::Put {
                            path: join_path(destination.as_str(), name.as_str()),
                            content: copy_bytes(&content),
                        };
                        proof {
                            agenda_of_push(self.stack@, put);
                        }
                        self.stack.push(put);
                    }
                    self.files.push(GhfcFile { name, content });
                },
                Event::FetchFailed => {
                    if attempt < MAX_ATTEMPTS {
                        let again = Task::Get { name, url, attempt: attempt + 1 };
                        proof {
                            agenda_of_push(self.stack@, again);
                        }
                        self.stack.push(again);
                    } else {
                        self.fail(WalkError::RetryExhausted { url, attempts: attempt });
                    }
                },
                _ => {
                    self.stack.push(Task::Get { name, url, attempt });
                },
            },
            Task::Put { path, content } => match event {
                Event::Written => {},
                Event::WriteFailed => {
                    self.fail(WalkError::Write { path });
                },
                _ => {
                    self.stack.push(Task::Put { path, content });
                },
            },
        }
    }

    /// What a settled walk returns: all files in the order of discovery, or
    /// the first failure. `None` while work is pending.
    pub fn finish(self) -> (r: Option<Result<Files, WalkError>>)
        ensures
            match r {
                Some(result) => self@.settled() && result_view(result) == self@.result(),
                None => !self@.settled(),
            },
    {
        if self.stack.len() != 0 {
            return None;
        }
        match self.failure {
            Some(error) => Some(Err(error)),
            None => Some(Ok(Files(self.files))),
        }
    }
}

/// The client signature that every request carries.
pub const USER_AGENT: &'static str = "gh-file-curler";

fn make_listing_base(user: &str, repo: &str) -> (r: String)
    ensures
        r@ == listing_base(user@, repo@),
{
    let mut r = String::from_str("https://api.github.com/repos/");
    r.append(user);
    r.append("/");
    r.append(repo);
    r.append("/contents/");
    r
}

fn make_raw_url(user: &str, repo: &str, file: &str) -> (r: String)
    ensures
        r@ == raw_url(user@, repo@, file@),
{
    let mut r = String::from_str("https://raw.githubusercontent.com/");
    r.append(user);
    r.append("/");
    r.append(repo);
    r.append("/main/");
    r.append(file);
    r
}

fn make_bearer(token: &str) -> (r: Option<String>)
    ensures
        text_view(r) == bearer(token@),
{
    if token.is_empty() {
        None
    } else {
        let mut r = String::from_str("Bearer ");
        r.append(token);
        Some(r)
    }
}

fn start_walk(
    user: &str,
    repo: &str,
    speedrun: Option<&str>,
    paths: Vec<&str>,
    recurse: bool,
    token: &str,
) -> (w: Walk)
    ensures
        w@ == fresh(
            Settings {
                listing_base: listing_base(user@, repo@),
                authorization: bearer(token@),
                recurse,
                destination: match speedrun {
                    Some(out) => Some(out@),
                    None => None,
                },
            },
            list_tasks(texts(paths@)),
        ),
{
    let mut stack: Vec<Task> = Vec::new();
    let mut i: usize = paths.len();
    while i > 0
        invariant
            i <= paths.len(),
            agenda_of(stack@) == list_tasks(texts(paths@)).skip(i as int),
        decreases i,
    {
        i -= 1;
        let task = Task::List { path: String::from_str(paths[i]) };
        proof {
            agenda_of_push(stack@, task);
        }
        stack.push(task);
    }
    let destination = match speedrun {
        Some(out) => Some(String::from_str(out)),
        None => None,
    };
    let files: Vec<GhfcFile> = Vec::new();
    Walk {
        listing_base: make_listing_base(user, repo),
        authorization: make_bearer(token),
        recurse,
        destination,
        stack,
        files,
        failure: None,
    }
}

/// Starts a walk of the directories `paths` of `repo` of `user`, in the order
/// given. The empty path is the root of the repository. With `recurse`,
/// subdirectories are walked too. The empty `token` means no credential.
pub fn fetch_dir(user: &str, repo: &str, paths: Vec<&str>, recurse: bool, token: &str) -> (w: Walk)
    ensures
        w@ == fresh(
            Settings {
                listing_base: listing_base(user@, repo@),
                authorization: bearer(token@),
                recurse,
                destination: None,
            },
            list_tasks(texts(paths@)),
        ),
{
    start_walk(user, repo, None, paths, recurse, token)
}

/// Starts a walk like that of [`fetch_dir`] which has every file written
/// below `out` as soon as it is fetched.
pub fn speedrun(
    user: &str,
    repo: &str,
    out: &str,
    paths: Vec<&str>,
    recurse: bool,
    token: &str,
) -> (w: Walk)
    ensures
        w@ == fresh(
            Settings {
                listing_base: listing_base(user@, repo@),
                authorization: bearer(token@),
                recurse,
                destination: Some(out@),
            },
            list_tasks(texts(paths@)),
        ),
{
    start_walk(user, repo, Some(out), paths, recurse, token)
}

/// Starts the retrieval of `files` of `repo` of `user` by their paths, in the
/// order given, from the main branch.
pub fn fetch(user: &str, repo: &str, files: Vec<&str>) -> (w: Walk)
    ensures
        w@ == fresh(
            Settings {
                listing_base: listing_base(user@, repo@),
                authorization: None,
                recurse: false,
                destination: None,
            },
            get_tasks(user@, repo@, texts(files@)),
        ),
{
    let mut stack: Vec<Task> = Vec::new();
    let mut i: usize = files.len();
    while i > 0
        invariant
            i <= files.len(),
            agenda_of(stack@) == get_tasks(user@, repo@, texts(files@)).skip(i as int),
        decreases i,
    {
        i -= 1;
        let task = Task::Get {
            name: String::from_str(files[i]),
            url: make_raw_url(user, repo, files[i]),
            attempt: 1,
        };
        proof {
            agenda_of_push(stack@, task);
        }
        stack.push(task);
    }
    let fetched: Vec<GhfcFile> = Vec::new();
    Walk {
        listing_base: make_listing_base(user, repo),
        authorization: None,
        recurse: false,
        destination: None,
        stack,
        files: fetched,
        failure: None,
    }
}

} // verus!
