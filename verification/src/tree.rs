//! Remote directory trees, and the files that a walk of one returns.

use vstd::prelude::*;
use crate::entry::{EntryModel, ListingModel};
use crate::file::{join, FileModel};
use crate::model::{fresh, list_tasks, task_of, tasks_of, ErrorModel, Settings, TaskModel};
use crate::outcome::{
    agenda_outcome, agenda_outcome_add, download, run_for, single_outcome, task_outcome,
    then_after_nothing, then_nothing, walk_settles, writes_for, Outcome, Remote, Run,
};

verus! {

/// What a remote directory holds under one name.
pub enum Node {
    /// A file with these bytes behind its download reference.
    File { name: Seq<char>, download_reference: Seq<char>, content: Seq<u8> },
    /// A subdirectory and what is in it.
    Directory { name: Seq<char>, children: Seq<Node> },
    /// An entry that is neither.
    Other,
}

/// A directory of the remote: its path from the root of the repository, and
/// what is in it.
pub struct Tree {
    pub path: Seq<char>,
    pub children: Seq<Node>,
}

/// The entry under which a listing shows a node.
pub open spec fn entry_of(node: Node) -> EntryModel {
    match node {
        Node::File { name, download_reference, content } => EntryModel::File {
            name,
            download_reference,
        },
        Node::Directory { name, children } => EntryModel::Directory { name },
        Node::Other => EntryModel::Unknown,
    }
}

/// The files of the directory at `path` that holds `children`, in depth-first
/// pre-order: each file where its entry stands in the listing, and, with
/// `recurse`, the files of each subdirectory where its entry stands. A file
/// is named by the path of its directory, one separator, and its own name.
pub open spec fn preorder(path: Seq<char>, children: Seq<Node>, recurse: bool) -> Seq<FileModel>
    decreases children, 1nat,
{
    if children.len() == 0 {
        Seq::empty()
    } else {
        node_files(path, children[0], recurse) + preorder(path, children.skip(1), recurse)
    }
}

/// The files that one node of the directory at `path` contributes.
pub open spec fn node_files(path: Seq<char>, node: Node, recurse: bool) -> Seq<FileModel>
    decreases node, 0nat,
{
    match node {
        Node::File { name, download_reference, content } => seq![
            FileModel { name: join(path, name), content },
        ],
        Node::Directory { name, children } => if recurse {
            preorder(join(path, name), children, recurse)
        } else {
            Seq::empty()
        },
        Node::Other => Seq::empty(),
    }
}

/// The files of several directories, one directory after the other.
pub open spec fn forest_files(trees: Seq<Tree>, recurse: bool) -> Seq<FileModel>
    decreases trees.len(),
{
    if trees.len() == 0 {
        Seq::empty()
    } else {
        preorder(trees[0].path, trees[0].children, recurse) + forest_files(trees.skip(1), recurse)
    }
}

/// The paths of several directories.
pub open spec fn roots_of(trees: Seq<Tree>) -> Seq<Seq<char>> {
    trees.map_values(|t: Tree| t.path)
}

/// Whether the remote holds `children` at `path`, as far as a walk with these
/// settings looks: the listing of `path` shows them in their order, and each
/// of them is there.
pub open spec fn serves(
    settings: Settings,
    remote: Remote,
    path: Seq<char>,
    children: Seq<Node>,
) -> bool
    decreases children, 1nat,
{
    &&& (remote.listing)(settings.listing_base + path) == Some(
        ListingModel::Entries(children.map_values(|n: Node| entry_of(n))),
    )
    &&& forall|i: int|
        0 <= i < children.len() ==> served(settings, remote, path, #[trigger] children[i])
}

/// Whether one node of the directory at `path` is there: a file can be
/// downloaded within the attempts allowed, and can be written where the walk
/// writes its files; a subdirectory, where the walk enters it, holds its
/// children.
pub open spec fn served(settings: Settings, remote: Remote, path: Seq<char>, node: Node) -> bool
    decreases node, 0nat,
{
    match node {
        Node::File { name, download_reference, content } => {
            &&& download(remote, download_reference, 1) == Ok::<Seq<u8>, ErrorModel>(content)
            &&& match settings.destination {
                Some(destination) => (remote.disk)(join(destination, join(path, name)), content),
                None => true,
            }
        },
        Node::Directory { name, children } => settings.recurse ==> serves(
            settings,
            remote,
            join(path, name),
            children,
        ),
        Node::Other => true,
    }
}

/// How many directories below a listing a walk passes through at most, one
/// inside the other.
spec fn levels(children: Seq<Node>, recurse: bool) -> nat
    decreases children, 1nat,
{
    if children.len() == 0 {
        0
    } else {
        let first = node_levels(children[0], recurse);
        let rest = levels(children.skip(1), recurse);
        if first >= rest {
            first
        } else {
            rest
        }
    }
}

spec fn node_levels(node: Node, recurse: bool) -> nat
    decreases node, 0nat,
{
    match node {
        Node::Directory { name, children } => if recurse {
            1 + levels(children, recurse)
        } else {
            0
        },
        _ => 0,
    }
}

spec fn forest_levels(trees: Seq<Tree>, recurse: bool) -> nat
    decreases trees.len(),
{
    if trees.len() == 0 {
        0
    } else {
        let first = levels(trees[0].children, recurse);
        let rest = forest_levels(trees.skip(1), recurse);
        if first >= rest {
            first
        } else {
            rest
        }
    }
}

/// The listing of a directory that the remote holds comes to the files of
/// what it holds.
proof fn tree_outcome(
    settings: Settings,
    remote: Remote,
    path: Seq<char>,
    children: Seq<Node>,
    depth: nat,
)
    requires
        serves(settings, remote, path, children),
        depth > levels(children, settings.recurse),
    ensures
        task_outcome(settings, remote, TaskModel::List { path }, depth) == Outcome::Files(
            preorder(path, children, settings.recurse),
        ),
    decreases children, 2nat,
{
    children_outcome(settings, remote, path, children, (depth - 1) as nat);
}

proof fn children_outcome(
    settings: Settings,
    remote: Remote,
    path: Seq<char>,
    children: Seq<Node>,
    depth: nat,
)
    requires
        forall|i: int|
            0 <= i < children.len() ==> served(settings, remote, path, #[trigger] children[i]),
        depth >= levels(children, settings.recurse),
    ensures
        agenda_outcome(
            settings,
            remote,
            tasks_of(path, children.map_values(|n: Node| entry_of(n)), settings.recurse),
            depth,
        ) == Outcome::Files(preorder(path, children, settings.recurse)),
    decreases children, 1nat,
{
    let recurse = settings.recurse;
    let entries = children.map_values(|n: Node| entry_of(n));
    if children.len() == 0 {
        assert(tasks_of(path, entries, recurse) =~= Seq::<TaskModel>::empty());
    } else {
        let first = children[0];
        let rest = children.skip(1);
        let work = task_of(path, entries[0], recurse);
        assert(levels(children, recurse) >= node_levels(first, recurse));
        assert(levels(children, recurse) >= levels(rest, recurse));
        assert(tasks_of(path, entries, recurse) == work + tasks_of(
            path,
            entries.skip(1),
            recurse,
        ));
        assert(preorder(path, children, recurse) == node_files(path, first, recurse) + preorder(
            path,
            rest,
            recurse,
        ));
        assert(entries.skip(1) =~= rest.map_values(|n: Node| entry_of(n)));
        assert(served(settings, remote, path, first));
        assert forall|i: int| 0 <= i < rest.len() implies served(
            settings,
            remote,
            path,
            #[trigger] rest[i],
        ) by {
            assert(rest[i] == children[i + 1]);
        }
        children_outcome(settings, remote, path, rest, depth);
        agenda_outcome_add(settings, remote, work, tasks_of(path, entries.skip(1), recurse), depth);
        match first {
            Node::File { name, download_reference, content } => {
                single_outcome(settings, remote, work[0], depth);
                assert(work =~= seq![work[0]]);
                then_nothing(seq![FileModel { name: join(path, name), content }]);
            },
            Node::Directory { name, children: inner } => {
                if recurse {
                    assert(node_levels(first, recurse) == 1 + levels(inner, recurse));
                    tree_outcome(settings, remote, join(path, name), inner, depth);
                    single_outcome(settings, remote, work[0], depth);
                    assert(work =~= seq![work[0]]);
                    then_nothing(preorder(join(path, name), inner, recurse));
                }
            },
            Node::Other => {},
        }
        if work.len() == 0 {
            then_after_nothing(Outcome::Files(preorder(path, rest, recurse)));
        }
    }
}

proof fn forest_outcome(settings: Settings, remote: Remote, trees: Seq<Tree>, depth: nat)
    requires
        forall|i: int|
            0 <= i < trees.len() ==> serves(
                settings,
                remote,
                (#[trigger] trees[i]).path,
                trees[i].children,
            ),
        depth > forest_levels(trees, settings.recurse),
    ensures
        agenda_outcome(settings, remote, list_tasks(roots_of(trees)), depth) == Outcome::Files(
            forest_files(trees, settings.recurse),
        ),
    decreases trees.len(),
{
    let agenda = list_tasks(roots_of(trees));
    if trees.len() > 0 {
        let rest = trees.skip(1);
        assert(agenda.skip(1) =~= list_tasks(roots_of(rest)));
        assert(agenda[0] == TaskModel::List { path: trees[0].path });
        assert forall|i: int| 0 <= i < rest.len() implies serves(
            settings,
            remote,
            (#[trigger] rest[i]).path,
            rest[i].children,
        ) by {
            assert(rest[i] == trees[i + 1]);
        }
        forest_outcome(settings, remote, rest, depth);
        tree_outcome(settings, remote, trees[0].path, trees[0].children, depth);
    }
}

/// A walk of directories that the remote holds returns their files in
/// depth-first pre-order, one root after the other, and has written each of
/// them below its destination, if it has one. Without `recurse` these are the
/// files that stand in the roots themselves.
pub proof fn walk_returns_tree_files(settings: Settings, remote: Remote, trees: Seq<Tree>) -> (turns:
    nat)
    requires
        forall|i: int|
            0 <= i < trees.len() ==> serves(
                settings,
                remote,
                (#[trigger] trees[i]).path,
                trees[i].children,
            ),
    ensures
        ({
            let start = Run {
                walk: fresh(settings, list_tasks(roots_of(trees))),
                written: Seq::empty(),
            };
            let end = run_for(start, remote, turns);
            let files = forest_files(trees, settings.recurse);
            &&& end.walk.settled()
            &&& end.walk.result() == Ok::<Seq<FileModel>, ErrorModel>(files)
            &&& end.written == writes_for(settings, files)
        }),
{
    let depth = forest_levels(trees, settings.recurse) + 1;
    forest_outcome(settings, remote, trees, depth);
    walk_settles(settings, list_tasks(roots_of(trees)), remote, depth)
}

/// Where a root is no directory, the walk fails with what the remote answered
/// for it, and returns nothing: not the files of the roots before it, which it
/// has fetched, and nothing of the roots after it, which it never asks for.
pub proof fn walk_fails_at_root_that_is_no_directory(
    settings: Settings,
    remote: Remote,
    before: Seq<Tree>,
    path: Seq<char>,
    body: Seq<u8>,
    after: Seq<Seq<char>>,
) -> (turns: nat)
    requires
        forall|i: int|
            0 <= i < before.len() ==> serves(
                settings,
                remote,
                (#[trigger] before[i]).path,
                before[i].children,
            ),
        (remote.listing)(settings.listing_base + path) == Some(
            ListingModel::NotADirectory { body },
        ),
    ensures
        ({
            let roots = roots_of(before) + seq![path] + after;
            let start = Run { walk: fresh(settings, list_tasks(roots)), written: Seq::empty() };
            let end = run_for(start, remote, turns);
            &&& end.walk.settled()
            &&& end.walk.result() == Err::<Seq<FileModel>, ErrorModel>(
                ErrorModel::NotADirectory { path, body },
            )
        }),
{
    let depth = forest_levels(before, settings.recurse) + 1;
    let roots = roots_of(before) + seq![path] + after;
    let done = list_tasks(roots_of(before));
    let rest = seq![TaskModel::List { path }] + list_tasks(after);
    assert(list_tasks(roots) =~= done + rest);
    assert(rest.skip(1) =~= list_tasks(after));
    forest_outcome(settings, remote, before, depth);
    agenda_outcome_add(settings, remote, done, rest, depth);
    assert(rest[0] == TaskModel::List { path });
    assert(task_outcome(settings, remote, rest[0], depth) == Outcome::Failure(
        ErrorModel::NotADirectory { path, body },
    ));
    walk_settles(settings, list_tasks(roots), remote, depth)
}

/// The files that stand in the directory at `path` itself.
pub open spec fn direct_files(path: Seq<char>, children: Seq<Node>) -> Seq<FileModel>
    decreases children.len(),
{
    if children.len() == 0 {
        Seq::empty()
    } else {
        let first = match children[0] {
            Node::File { name, download_reference, content } => seq![
                FileModel { name: join(path, name), content },
            ],
            _ => Seq::empty(),
        };
        first + direct_files(path, children.skip(1))
    }
}

/// Without `recurse` a directory gives the files that stand in it, and
/// nothing of any subdirectory.
pub proof fn flat_walk_keeps_to_the_directory(path: Seq<char>, children: Seq<Node>)
    ensures
        preorder(path, children, false) == direct_files(path, children),
    decreases children.len(),
{
    if children.len() > 0 {
        flat_walk_keeps_to_the_directory(path, children.skip(1));
        assert(preorder(path, children, false) == node_files(path, children[0], false) + preorder(
            path,
            children.skip(1),
            false,
        ));
    }
}

/// Whether the directory at `path` holds, in its directory `dir`, at whatever
/// depth, a file `name` with these bytes.
pub open spec fn holds(
    path: Seq<char>,
    children: Seq<Node>,
    recurse: bool,
    dir: Seq<char>,
    name: Seq<char>,
    content: Seq<u8>,
) -> bool
    decreases children, 1nat,
{
    exists|i: int|
        0 <= i < children.len() && node_holds(path, #[trigger] children[i], recurse, dir, name, content)
}

pub open spec fn node_holds(
    path: Seq<char>,
    node: Node,
    recurse: bool,
    dir: Seq<char>,
    name: Seq<char>,
    content: Seq<u8>,
) -> bool
    decreases node, 0nat,
{
    match node {
        Node::File { name: own, download_reference, content: bytes } => dir == path && own == name
            && bytes == content,
        Node::Directory { name: sub, children } => recurse && holds(
            join(path, sub),
            children,
            recurse,
            dir,
            name,
            content,
        ),
        Node::Other => false,
    }
}

/// Every file that a walk returns stands somewhere in the tree, and is named
/// by the path of the directory in which it stands, one separator, and its own
/// name, however deep that directory lies.
pub proof fn file_is_named_by_its_place(
    path: Seq<char>,
    children: Seq<Node>,
    recurse: bool,
    k: int,
) -> (place: (Seq<char>, Seq<char>))
    requires
        0 <= k < preorder(path, children, recurse).len(),
    ensures
        holds(path, children, recurse, place.0, place.1, preorder(path, children, recurse)[k].content),
        preorder(path, children, recurse)[k].name == place.0 + seq!['/'] + place.1,
    decreases children, 1nat,
{
    let first = node_files(path, children[0], recurse);
    let rest = children.skip(1);
    let file = preorder(path, children, recurse)[k];
    if k < first.len() {
        assert(file == first[k]);
        match children[0] {
            Node::File { name, download_reference, content } => {
                assert(node_holds(path, children[0], recurse, path, name, file.content));
                (path, name)
            },
            Node::Directory { name, children: inner } => {
                let place = file_is_named_by_its_place(join(path, name), inner, recurse, k);
                assert(node_holds(path, children[0], recurse, place.0, place.1, file.content));
                place
            },
            Node::Other => (path, path),
        }
    } else {
        assert(file == preorder(path, rest, recurse)[k - first.len()]);
        let place = file_is_named_by_its_place(path, rest, recurse, k - first.len());
        let i = choose|i: int|
            0 <= i < rest.len() && node_holds(
                path,
                #[trigger] rest[i],
                recurse,
                place.0,
                place.1,
                file.content,
            );
        assert(rest[i] == children[i + 1]);
        assert(node_holds(path, children[i + 1], recurse, place.0, place.1, file.content));
        place
    }
}

} // verus!
