//! What a walk comes to when a driver runs it against a remote service: the
//! files of the remote tree in depth-first order, or the first failure.

use vstd::prelude::*;
use crate::entry::{EntryModel, ListingModel};
use crate::file::{join, writes_of, FileModel, WriteModel};
use crate::model::{
    fresh, get_tasks, raw_url, tasks_of, ActionModel, ErrorModel, EventModel, Settings, TaskModel,
    WalkModel, MAX_ATTEMPTS,
};

verus! {

/// A remote service and a disk, as far as a walk can tell them apart.
pub struct Remote {
    /// The answer to a listing request, by address. `None`: no response.
    pub listing: spec_fn(Seq<char>) -> Option<ListingModel>,
    /// The answer to a download, by address and attempt. `None`: no response.
    pub blob: spec_fn(Seq<char>, nat) -> Option<Seq<u8>>,
    /// Whether the disk takes these bytes at this path.
    pub disk: spec_fn(Seq<char>, Seq<u8>) -> bool,
}

/// What the driver reports after it has done what the walk asked for.
pub open spec fn reply(remote: Remote, action: ActionModel) -> EventModel {
    match action {
        ActionModel::List { url, authorization } => match (remote.listing)(url) {
            Some(listing) => EventModel::Listed(listing),
            None => EventModel::ListFailed,
        },
        ActionModel::Download { url, attempt } => match (remote.blob)(url, attempt) {
            Some(content) => EventModel::Fetched(content),
            None => EventModel::FetchFailed,
        },
        ActionModel::Write { path, content } => if (remote.disk)(path, content) {
            EventModel::Written
        } else {
            EventModel::WriteFailed
        },
        ActionModel::Stop => EventModel::Written,
    }
}

/// A walk under way, with the writes that the driver has carried out.
#[verifier::ext_equal]
pub struct Run {
    pub walk: WalkModel,
    pub written: Seq<WriteModel>,
}

/// One turn of the driver: it does what the walk asks and reports back.
pub open spec fn advance(run: Run, remote: Remote) -> Run {
    let action = run.walk.action();
    let event = reply(remote, action);
    Run {
        walk: run.walk.step(event),
        written: match (action, event) {
            (ActionModel::Write { path, content }, EventModel::Written) => run.written.push(
                WriteModel { path, content },
            ),
            _ => run.written,
        },
    }
}

/// `turns` turns of the driver.
pub open spec fn run_for(run: Run, remote: Remote, turns: nat) -> Run
    decreases turns,
{
    if turns == 0 {
        run
    } else {
        run_for(advance(run, remote), remote, (turns - 1) as nat)
    }
}

/// What a walk, or a part of one, comes to.
#[verifier::ext_equal]
pub enum Outcome {
    /// These files, in this order.
    Files(Seq<FileModel>),
    /// This failure.
    Failure(ErrorModel),
    /// Directories nest deeper than the depth that was allowed for.
    TooDeep,
}

/// First `first`, then `second`: the files of both, or whatever is met first
/// that is not files.
pub open spec fn then(first: Outcome, second: Outcome) -> Outcome {
    match first {
        Outcome::Files(a) => match second {
            Outcome::Files(b) => Outcome::Files(a + b),
            other => other,
        },
        other => other,
    }
}

/// The bytes that a download from `url` gives when `attempt` is the next
/// attempt: those of the first attempt that is answered, up to the last
/// attempt allowed.
pub open spec fn download(remote: Remote, url: Seq<char>, attempt: nat) -> Result<
    Seq<u8>,
    ErrorModel,
>
    decreases MAX_ATTEMPTS - attempt,
{
    match (remote.blob)(url, attempt) {
        Some(content) => Ok(content),
        None => if attempt < MAX_ATTEMPTS {
            download(remote, url, attempt + 1)
        } else {
            Err(ErrorModel::RetryExhausted { url, attempts: attempt })
        },
    }
}

/// What a fetched file comes to: itself, once it is written where the walk
/// writes its files, if it does.
pub open spec fn stored(settings: Settings, remote: Remote, file: FileModel) -> Outcome {
    match settings.destination {
        Some(destination) => if (remote.disk)(join(destination, file.name), file.content) {
            Outcome::Files(seq![file])
        } else {
            Outcome::Failure(ErrorModel::Write { path: join(destination, file.name) })
        },
        None => Outcome::Files(seq![file]),
    }
}

/// What one task comes to. A listing takes one level of `depth`; the work
/// that it calls for has the rest.
pub open spec fn task_outcome(
    settings: Settings,
    remote: Remote,
    task: TaskModel,
    depth: nat,
) -> Outcome
    decreases depth, 0nat,
{
    match task {
        TaskModel::List { path } => if depth == 0 {
            Outcome::TooDeep
        } else {
            match (remote.listing)(settings.listing_base + path) {
                Some(ListingModel::Entries(entries)) => agenda_outcome(
                    settings,
                    remote,
                    tasks_of(path, entries, settings.recurse),
                    (depth - 1) as nat,
                ),
                Some(ListingModel::NotADirectory { body }) => Outcome::Failure(
                    ErrorModel::NotADirectory { path, body },
                ),
                None => Outcome::Failure(
                    ErrorModel::Transport { url: settings.listing_base + path },
                ),
            }
        },
        TaskModel::Get { name, url, attempt } => match download(remote, url, attempt) {
            Ok(content) => stored(settings, remote, FileModel { name, content }),
            Err(error) => Outcome::Failure(error),
        },
        TaskModel::Put { path, content } => if (remote.disk)(path, content) {
            Outcome::Files(Seq::empty())
        } else {
            Outcome::Failure(ErrorModel::Write { path })
        },
    }
}

/// What the tasks of an agenda come to, one after the other.
pub open spec fn agenda_outcome(
    settings: Settings,
    remote: Remote,
    agenda: Seq<TaskModel>,
    depth: nat,
) -> Outcome
    decreases depth, agenda.len(),
{
    if agenda.len() == 0 {
        Outcome::Files(Seq::empty())
    } else {
        then(
            task_outcome(settings, remote, agenda[0], depth),
            agenda_outcome(settings, remote, agenda.skip(1), depth),
        )
    }
}

/// Whether an agenda holds no write. A walk starts with such an agenda.
pub open spec fn no_writes(agenda: Seq<TaskModel>) -> bool {
    forall|i: int| 0 <= i < agenda.len() ==> !(#[trigger] agenda[i] is Put)
}

/// The writes that a walk with these settings makes for `files`.
pub open spec fn writes_for(settings: Settings, files: Seq<FileModel>) -> Seq<WriteModel> {
    match settings.destination {
        Some(destination) => writes_of(files, destination),
        None => Seq::empty(),
    }
}

/// Whether `end` is what `start` becomes once its first `count` tasks have
/// come to `outcome`: with files, they are fetched and written and the tasks
/// are done; with a failure, the walk has failed with it.
pub open spec fn carried(start: Run, count: nat, outcome: Outcome, end: Run) -> bool {
    match outcome {
        Outcome::Files(files) => end == Run {
            walk: WalkModel {
                agenda: start.walk.agenda.skip(count as int),
                files: start.walk.files + files,
                ..start.walk
            },
            written: start.written + writes_for(start.walk.settings, files),
        },
        Outcome::Failure(error) => end.walk == start.walk.failed(error),
        Outcome::TooDeep => true,
    }
}

proof fn run_for_add(run: Run, remote: Remote, a: nat, b: nat)
    ensures
        run_for(run, remote, a + b) == run_for(run_for(run, remote, a), remote, b),
    decreases a,
{
    if a > 0 {
        run_for_add(advance(run, remote), remote, (a - 1) as nat, b);
        assert(((a + b) - 1) as nat == (a - 1) as nat + b);
    }
}

proof fn run_for_one(run: Run, remote: Remote)
    ensures
        run_for(run, remote, 1) == advance(run, remote),
{
    assert(run_for(advance(run, remote), remote, 0) == advance(run, remote));
}

proof fn tasks_of_no_writes(path: Seq<char>, entries: Seq<EntryModel>, recurse: bool)
    ensures
        no_writes(tasks_of(path, entries, recurse)),
    decreases entries.len(),
{
    if entries.len() > 0 {
        tasks_of_no_writes(path, entries.skip(1), recurse);
    }
}

proof fn writes_for_add(settings: Settings, a: Seq<FileModel>, b: Seq<FileModel>)
    ensures
        writes_for(settings, a + b) == writes_for(settings, a) + writes_for(settings, b),
{
    assert(writes_for(settings, a + b) =~= writes_for(settings, a) + writes_for(settings, b));
}

/// A download runs to its end: the driver tries until an attempt is answered
/// or the last one has failed, and writes the file where the walk wants it.
proof fn get_runs(run: Run, remote: Remote) -> (turns: nat)
    requires
        run.walk.agenda.len() > 0,
        run.walk.agenda[0] is Get,
    ensures
        carried(
            run,
            1,
            task_outcome(run.walk.settings, remote, run.walk.agenda[0], 0),
            run_for(run, remote, turns),
        ),
    decreases MAX_ATTEMPTS - run.walk.agenda[0]->Get_attempt,
{
    let walk = run.walk;
    let settings = walk.settings;
    let name = walk.agenda[0]->Get_name;
    let url = walk.agenda[0]->Get_url;
    let attempt = walk.agenda[0]->Get_attempt;
    let next = advance(run, remote);
    run_for_one(run, remote);
    match (remote.blob)(url, attempt) {
        Some(content) => {
            let file = FileModel { name, content };
            match settings.destination {
                Some(destination) => {
                    let last = advance(next, remote);
                    run_for_one(next, remote);
                    run_for_add(run, remote, 1, 1);
                    assert(next.walk.agenda[0] == TaskModel::Put {
                        path: join(destination, name),
                        content,
                    });
                    if (remote.disk)(join(destination, name), content) {
                        assert(last.walk.agenda =~= walk.agenda.skip(1));
                        assert(last.walk.files =~= walk.files + seq![file]);
                        assert(last.written =~= run.written + writes_for(settings, seq![file]));
                    }
                    2
                },
                None => {
                    assert(next.walk.agenda =~= walk.agenda.skip(1));
                    assert(next.walk.files =~= walk.files + seq![file]);
                    assert(next.written =~= run.written + writes_for(settings, seq![file]));
                    1
                },
            }
        },
        None => {
            if attempt < MAX_ATTEMPTS {
                assert(next.walk.agenda[0] == TaskModel::Get { name, url, attempt: attempt + 1 });
                let more = get_runs(next, remote);
                run_for_add(run, remote, 1, more);
                assert(next.walk.agenda.skip(1) =~= walk.agenda.skip(1));
                1 + more
            } else {
                1
            }
        },
    }
}

/// The first task of an agenda runs to its end.
proof fn task_runs(run: Run, remote: Remote, depth: nat) -> (turns: nat)
    requires
        run.walk.agenda.len() > 0,
        !(run.walk.agenda[0] is Put),
        task_outcome(run.walk.settings, remote, run.walk.agenda[0], depth) != Outcome::TooDeep,
    ensures
        carried(
            run,
            1,
            task_outcome(run.walk.settings, remote, run.walk.agenda[0], depth),
            run_for(run, remote, turns),
        ),
    decreases depth, 0nat,
{
    let walk = run.walk;
    let settings = walk.settings;
    match walk.agenda[0] {
        TaskModel::List { path } => {
            let next = advance(run, remote);
            run_for_one(run, remote);
            match (remote.listing)(settings.listing_base + path) {
                Some(ListingModel::Entries(entries)) => {
                    let tasks = tasks_of(path, entries, settings.recurse);
                    tasks_of_no_writes(path, entries, settings.recurse);
                    assert(next.walk.agenda.take(tasks.len() as int) =~= tasks);
                    let more = agenda_runs(next, remote, tasks.len(), (depth - 1) as nat);
                    run_for_add(run, remote, 1, more);
                    assert(next.walk.agenda.skip(tasks.len() as int) =~= walk.agenda.skip(1));
                    1 + more
                },
                _ => 1,
            }
        },
        TaskModel::Get { name, url, attempt } => get_runs(run, remote),
        TaskModel::Put { path, content } => 0,
    }
}

/// The first `count` tasks of an agenda run to their end, one after the other.
proof fn agenda_runs(run: Run, remote: Remote, count: nat, depth: nat) -> (turns: nat)
    requires
        count <= run.walk.agenda.len(),
        no_writes(run.walk.agenda.take(count as int)),
        agenda_outcome(run.walk.settings, remote, run.walk.agenda.take(count as int), depth)
            != Outcome::TooDeep,
    ensures
        carried(
            run,
            count,
            agenda_outcome(run.walk.settings, remote, run.walk.agenda.take(count as int), depth),
            run_for(run, remote, turns),
        ),
    decreases depth, count,
{
    let walk = run.walk;
    let settings = walk.settings;
    let prefix = walk.agenda.take(count as int);
    if count == 0 {
        assert(walk.agenda.skip(0) =~= walk.agenda);
        assert(walk.files + Seq::<FileModel>::empty() =~= walk.files);
        assert(run.written + writes_for(settings, Seq::<FileModel>::empty()) =~= run.written);
        0
    } else {
        assert(prefix[0] == walk.agenda[0]);
        assert(prefix.skip(1) =~= walk.agenda.skip(1).take(count - 1));
        let first = task_outcome(settings, remote, walk.agenda[0], depth);
        let head = task_runs(run, remote, depth);
        let mid = run_for(run, remote, head);
        match first {
            Outcome::Files(a) => {
                assert(mid.walk.agenda.take(count - 1) == prefix.skip(1));
                assert(no_writes(prefix.skip(1))) by {
                    assert forall|i: int| 0 <= i < prefix.skip(1).len() implies !(
                    #[trigger] prefix.skip(1)[i] is Put) by {
                        assert(prefix.skip(1)[i] == prefix[i + 1]);
                    }
                }
                let rest = agenda_outcome(settings, remote, prefix.skip(1), depth);
                let tail = agenda_runs(mid, remote, (count - 1) as nat, depth);
                run_for_add(run, remote, head, tail);
                let end = run_for(run, remote, head + tail);
                match rest {
                    Outcome::Files(b) => {
                        writes_for_add(settings, a, b);
                        assert(end.walk.agenda =~= walk.agenda.skip(count as int));
                        assert(end.walk.files =~= walk.files + (a + b));
                        assert(end.written =~= run.written + writes_for(settings, a + b));
                    },
                    _ => {},
                }
                head + tail
            },
            _ => head,
        }
    }
}

pub(crate) proof fn then_after_nothing(b: Outcome)
    ensures
        then(Outcome::Files(Seq::empty()), b) == b,
{
    if let Outcome::Files(files) = b {
        assert(Seq::<FileModel>::empty() + files =~= files);
    }
}

pub(crate) proof fn then_nothing(a: Seq<FileModel>)
    ensures
        then(Outcome::Files(a), Outcome::Files(Seq::empty())) == Outcome::Files(a),
{
    assert(a + Seq::<FileModel>::empty() =~= a);
}

proof fn then_then(a: Outcome, b: Outcome, c: Outcome)
    ensures
        then(then(a, b), c) == then(a, then(b, c)),
{
    match (a, b, c) {
        (Outcome::Files(x), Outcome::Files(y), Outcome::Files(z)) => {
            assert((x + y) + z =~= x + (y + z));
        },
        _ => {},
    }
}

/// The outcome of two agendas, one after the other.
pub(crate) proof fn agenda_outcome_add(
    settings: Settings,
    remote: Remote,
    a: Seq<TaskModel>,
    b: Seq<TaskModel>,
    depth: nat,
)
    ensures
        agenda_outcome(settings, remote, a + b, depth) == then(
            agenda_outcome(settings, remote, a, depth),
            agenda_outcome(settings, remote, b, depth),
        ),
    decreases a.len(),
{
    if a.len() == 0 {
        assert(a + b =~= b);
        then_after_nothing(agenda_outcome(settings, remote, b, depth));
    } else {
        assert((a + b).skip(1) =~= a.skip(1) + b);
        agenda_outcome_add(settings, remote, a.skip(1), b, depth);
        then_then(
            task_outcome(settings, remote, a[0], depth),
            agenda_outcome(settings, remote, a.skip(1), depth),
            agenda_outcome(settings, remote, b, depth),
        );
    }
}

pub(crate) proof fn single_outcome(settings: Settings, remote: Remote, task: TaskModel, depth: nat)
    ensures
        agenda_outcome(settings, remote, seq![task], depth) == then(
            task_outcome(settings, remote, task, depth),
            Outcome::Files(Seq::empty()),
        ),
{
    assert(seq![task].skip(1) =~= Seq::<TaskModel>::empty());
    assert(seq![task][0] == task);
    assert(agenda_outcome(settings, remote, Seq::<TaskModel>::empty(), depth) == Outcome::Files(
        Seq::empty(),
    ));
}

/// A walk that a driver runs against a remote comes to its end, and ends as
/// the remote tree says: with the files that its agenda comes to, each of them
/// written where the walk writes its files, or with the first failure.
pub proof fn walk_settles(settings: Settings, agenda: Seq<TaskModel>, remote: Remote, depth: nat) -> (turns: nat)
    requires
        no_writes(agenda),
        agenda_outcome(settings, remote, agenda, depth) != Outcome::TooDeep,
    ensures
        ({
            let start = Run { walk: fresh(settings, agenda), written: Seq::empty() };
            let end = run_for(start, remote, turns);
            &&& end.walk.settled()
            &&& match agenda_outcome(settings, remote, agenda, depth) {
                Outcome::Files(files) => end.walk.result() == Ok::<Seq<FileModel>, ErrorModel>(files)
                    && end.written == writes_for(settings, files),
                Outcome::Failure(error) => end.walk.result() == Err::<Seq<FileModel>, ErrorModel>(
                    error,
                ),
                Outcome::TooDeep => true,
            }
        }),
{
    let start = Run { walk: fresh(settings, agenda), written: Seq::empty() };
    assert(agenda.take(agenda.len() as int) =~= agenda);
    let turns = agenda_runs(start, remote, agenda.len(), depth);
    let end = run_for(start, remote, turns);
    match agenda_outcome(settings, remote, agenda, depth) {
        Outcome::Files(files) => {
            assert(end.walk.files =~= files);
            assert(end.written =~= writes_for(settings, files));
        },
        _ => {},
    }
    turns
}

/// The files with these names and these bytes, in their order.
pub open spec fn named_files(names: Seq<Seq<char>>, contents: Seq<Seq<u8>>) -> Seq<FileModel> {
    Seq::new(names.len(), |i: int| FileModel { name: names[i], content: contents[i] })
}

proof fn get_tasks_outcome(
    settings: Settings,
    remote: Remote,
    user: Seq<char>,
    repo: Seq<char>,
    files: Seq<Seq<char>>,
    contents: Seq<Seq<u8>>,
)
    requires
        settings.destination is None,
        contents.len() == files.len(),
        forall|i: int|
            0 <= i < files.len() ==> download(remote, raw_url(user, repo, #[trigger] files[i]), 1)
                == Ok::<Seq<u8>, ErrorModel>(contents[i]),
    ensures
        agenda_outcome(settings, remote, get_tasks(user, repo, files), 0) == Outcome::Files(
            named_files(files, contents),
        ),
    decreases files.len(),
{
    let agenda = get_tasks(user, repo, files);
    if files.len() == 0 {
        assert(named_files(files, contents) =~= Seq::<FileModel>::empty());
    } else {
        let first = FileModel { name: files[0], content: contents[0] };
        assert(agenda.skip(1) =~= get_tasks(user, repo, files.skip(1)));
        assert forall|i: int| 0 <= i < files.skip(1).len() implies download(
            remote,
            raw_url(user, repo, #[trigger] files.skip(1)[i]),
            1,
        ) == Ok::<Seq<u8>, ErrorModel>(contents.skip(1)[i]) by {
            assert(files.skip(1)[i] == files[i + 1]);
        }
        get_tasks_outcome(settings, remote, user, repo, files.skip(1), contents.skip(1));
        assert(task_outcome(settings, remote, agenda[0], 0) == Outcome::Files(seq![first]));
        assert(seq![first] + named_files(files.skip(1), contents.skip(1)) =~= named_files(
            files,
            contents,
        ));
    }
}

/// A retrieval by paths returns one file for each path, named as the path
/// was given and holding what its download gave, in the order of the paths.
pub proof fn fetch_returns_named_files(
    settings: Settings,
    remote: Remote,
    user: Seq<char>,
    repo: Seq<char>,
    files: Seq<Seq<char>>,
    contents: Seq<Seq<u8>>,
) -> (turns: nat)
    requires
        settings.destination is None,
        contents.len() == files.len(),
        forall|i: int|
            0 <= i < files.len() ==> download(remote, raw_url(user, repo, #[trigger] files[i]), 1)
                == Ok::<Seq<u8>, ErrorModel>(contents[i]),
    ensures
        ({
            let start = Run {
                walk: fresh(settings, get_tasks(user, repo, files)),
                written: Seq::empty(),
            };
            let end = run_for(start, remote, turns);
            &&& end.walk.settled()
            &&& end.walk.result() == Ok::<Seq<FileModel>, ErrorModel>(named_files(files, contents))
        }),
{
    get_tasks_outcome(settings, remote, user, repo, files, contents);
    walk_settles(settings, get_tasks(user, repo, files), remote, 0)
}

/// A settled walk asks for nothing more, and stays as it is however long the
/// driver goes on.
pub proof fn settled_walk_stays(run: Run, remote: Remote, turns: nat)
    requires
        run.walk.settled(),
    ensures
        run.walk.action() == ActionModel::Stop,
        run_for(run, remote, turns) == run,
    decreases turns,
{
    if turns > 0 {
        assert(advance(run, remote) == run);
        settled_walk_stays(run, remote, (turns - 1) as nat);
    }
}

proof fn download_hit(remote: Remote, url: Seq<char>, from: nat, answered: nat, content: Seq<u8>)
    requires
        from <= answered <= MAX_ATTEMPTS,
        (remote.blob)(url, answered) == Some(content),
        forall|k: nat| from <= k < answered ==> (#[trigger] (remote.blob)(url, k)) is None,
    ensures
        download(remote, url, from) == Ok::<Seq<u8>, ErrorModel>(content),
    decreases answered - from,
{
    if from < answered {
        assert((remote.blob)(url, from) is None);
        download_hit(remote, url, from + 1, answered, content);
    }
}

proof fn download_miss(remote: Remote, url: Seq<char>, from: nat)
    requires
        from <= MAX_ATTEMPTS,
        forall|k: nat| from <= k <= MAX_ATTEMPTS ==> (#[trigger] (remote.blob)(url, k)) is None,
    ensures
        download(remote, url, from) == Err::<Seq<u8>, ErrorModel>(
            ErrorModel::RetryExhausted { url, attempts: MAX_ATTEMPTS as nat },
        ),
    decreases MAX_ATTEMPTS - from,
{
    assert((remote.blob)(url, from) is None);
    if from < MAX_ATTEMPTS {
        download_miss(remote, url, from + 1);
    }
}

/// A download gives the bytes of the first attempt that is answered, where
/// that is one of the attempts allowed: the attempts before it are made again.
pub proof fn download_takes_first_answer(
    remote: Remote,
    url: Seq<char>,
    answered: nat,
    content: Seq<u8>,
)
    requires
        1 <= answered <= MAX_ATTEMPTS,
        (remote.blob)(url, answered) == Some(content),
        forall|k: nat| 1 <= k < answered ==> (#[trigger] (remote.blob)(url, k)) is None,
    ensures
        download(remote, url, 1) == Ok::<Seq<u8>, ErrorModel>(content),
{
    download_hit(remote, url, 1, answered, content);
}

/// A download of which every attempt allowed goes unanswered fails, and the
/// failure names the address and the number of attempts.
pub proof fn download_gives_up(remote: Remote, url: Seq<char>)
    requires
        forall|k: nat| 1 <= k <= MAX_ATTEMPTS ==> (#[trigger] (remote.blob)(url, k)) is None,
    ensures
        download(remote, url, 1) == Err::<Seq<u8>, ErrorModel>(
            ErrorModel::RetryExhausted { url, attempts: MAX_ATTEMPTS as nat },
        ),
{
    download_miss(remote, url, 1);
}

} // verus!
