//! Fetched files, collections of them, and where a file goes on disk.

use vstd::prelude::*;

verus! {

/// One remote file: its path relative to the walk root, and its bytes.
#[derive(Debug, Clone)]
pub struct GhfcFile {
    pub name: String,
    pub content: Vec<u8>,
}

/// Fetched files in the order in which they were discovered.
#[derive(Clone)]
pub struct Files(pub Vec<GhfcFile>);

/// A file to be written: the complete target path and the bytes.
#[derive(Debug, PartialEq, Eq)]
pub struct PlannedWrite {
    pub path: String,
    pub content: Vec<u8>,
}

/// What a fetched file is: its name and its bytes.
pub struct FileModel {
    pub name: Seq<char>,
    pub content: Seq<u8>,
}

/// What a planned write is: its target path and its bytes.
pub struct WriteModel {
    pub path: Seq<char>,
    pub content: Seq<u8>,
}

impl View for GhfcFile {
    type V = FileModel;

    open spec fn view(&self) -> FileModel {
        FileModel { name: self.name@, content: self.content@ }
    }
}

impl View for Files {
    type V = Seq<FileModel>;

    open spec fn view(&self) -> Seq<FileModel> {
        files_view(self.0@)
    }
}

impl View for PlannedWrite {
    type V = WriteModel;

    open spec fn view(&self) -> WriteModel {
        WriteModel { path: self.path@, content: self.content@ }
    }
}

pub open spec fn files_view(files: Seq<GhfcFile>) -> Seq<FileModel> {
    files.map_values(|f: GhfcFile| f@)
}

pub open spec fn writes_view(writes: Seq<PlannedWrite>) -> Seq<WriteModel> {
    writes.map_values(|w: PlannedWrite| w@)
}

/// Two path segments joined by exactly one separator, with no normalisation.
pub open spec fn join(dir: Seq<char>, name: Seq<char>) -> Seq<char> {
    dir + seq!['/'] + name
}

/// Where `file` goes below `destination`, and what is written there.
pub open spec fn write_of(file: FileModel, destination: Seq<char>) -> WriteModel {
    WriteModel { path: join(destination, file.name), content: file.content }
}

/// The writes that put `files` below `destination`, one per file, in order.
pub open spec fn writes_of(files: Seq<FileModel>, destination: Seq<char>) -> Seq<WriteModel> {
    files.map_values(|f: FileModel| write_of(f, destination))
}

/// The body that the raw-content endpoint sends for a missing file:
/// the ASCII text `404: Not Found`.
pub open spec fn not_found_body() -> Seq<u8> {
    seq![52u8, 48u8, 52u8, 58u8, 32u8, 78u8, 111u8, 116u8, 32u8, 70u8, 111u8, 117u8, 110u8, 100u8]
}

/// `dir`, one separator, `name`.
pub fn join_path(dir: &str, name: &str) -> (r: String)
    ensures
        r@ == join(dir@, name@),
{
    let mut r = String::from_str(dir);
    r.append("/");
    r.append(name);
    proof {
        reveal_strlit("/");
    }
    r
}

/// A copy of `bytes`.
pub fn copy_bytes(bytes: &Vec<u8>) -> (r: Vec<u8>)
    ensures
        r@ == bytes@,
{
    let r = bytes.clone();
    assert(r@ =~= bytes@);
    r
}

/// Whether `content` is exactly the body sent for a missing file.
pub fn is_not_found(content: &Vec<u8>) -> (r: bool)
    ensures
        r == (content@ == not_found_body()),
{
    let marker: [u8; 14] = [52, 48, 52, 58, 32, 78, 111, 116, 32, 70, 111, 117, 110, 100];
    if content.len() != 14 {
        return false;
    }
    let mut i: usize = 0;
    while i < 14
        invariant
            i <= 14,
            content.len() == 14,
            marker@ == not_found_body(),
            forall|k: int| 0 <= k < i ==> content@[k] == not_found_body()[k],
        decreases 14 - i,
    {
        if content[i] != marker[i] {
            return false;
        }
        i += 1;
    }
    assert(content@ =~= not_found_body());
    true
}

impl GhfcFile {
    /// Plans the write of this file below `path`: the target is `path`, one
    /// separator, and the file's name; the bytes are the file's own.
    pub fn write_to(self, path: &str) -> (w: PlannedWrite)
        ensures
            w@ == write_of(self@, path@),
    {
        let target = join_path(path, self.name.as_str());
        PlannedWrite { path: target, content: self.content }
    }
}

impl Files {
    /// Plans the writes of all files below `path`, in the order of the
    /// collection.
    pub fn write_to(self, path: &str) -> (ws: Vec<PlannedWrite>)
        ensures
            writes_view(ws@) == writes_of(self@, path@),
    {
        let ghost all = self@;
        let mut ws: Vec<PlannedWrite> = Vec::new();
        for file in files: self.0.into_iter()
            invariant
                files_view(files.seq()) == all,
                ws.len() == files.index(),
                forall|k: int| 0 <= k < ws.len() ==> (#[trigger] ws@[k])@ == write_of(all[k], path@),
        {
            ws.push(file.write_to(path));
        }
        ws
    }
}

/// The bytes of the first file of a finished fetch, unless the fetch failed or
/// the remote answered that the file does not exist.
pub fn wrapped_first<E>(f: Result<Files, E>) -> (r: Option<Vec<u8>>)
    requires
        f matches Ok(files) ==> files.0.len() > 0,
    ensures
        match f {
            Ok(files) => if files@[0].content == not_found_body() {
                r is None
            } else {
                r matches Some(bytes) && bytes@ == files@[0].content
            },
            Err(_) => r is None,
        },
{
    match f {
        Ok(files) => {
            let mut list = files.0;
            let first = list.swap_remove(0);
            if is_not_found(&first.content) {
                None
            } else {
                Some(first.content)
            }
        },
        Err(_) => None,
    }
}

} // verus!
