//! Directory listings: what one entry descriptor stands for, and what a
//! listing response holds.

use vstd::prelude::*;
use crate::json::{json_of, json_text, parse, string_member, text_member, Json};

verus! {

/// One entry of a directory listing, as far as a walk cares.
#[derive(Debug, PartialEq, Eq)]
pub enum DirectoryEntry {
    /// A file that can be downloaded from `download_reference`.
    File { name: String, download_reference: String },
    /// A subdirectory.
    Directory { name: String },
    /// Anything else. A walk passes over it.
    Unknown,
}

/// What an entry is: its kind, and the texts that go with it.
pub enum EntryModel {
    File { name: Seq<char>, download_reference: Seq<char> },
    Directory { name: Seq<char> },
    Unknown,
}

impl View for DirectoryEntry {
    type V = EntryModel;

    open spec fn view(&self) -> EntryModel {
        match self {
            DirectoryEntry::File { name, download_reference } => EntryModel::File {
                name: name@,
                download_reference: download_reference@,
            },
            DirectoryEntry::Directory { name } => EntryModel::Directory { name: name@ },
            DirectoryEntry::Unknown => EntryModel::Unknown,
        }
    }
}

/// What the listing endpoint answered for a path.
#[derive(Debug, PartialEq, Eq)]
pub enum Listing {
    /// The path is a directory with these entries, in the order received.
    Entries(Vec<DirectoryEntry>),
    /// The response is not a JSON array: the path is a file, or it does not
    /// exist. `body` is the response as received.
    NotADirectory { body: Vec<u8> },
}

/// What a listing response is: the entries in their order, or a body that
/// is no listing.
pub enum ListingModel {
    Entries(Seq<EntryModel>),
    NotADirectory { body: Seq<u8> },
}

pub open spec fn entries_view(entries: Seq<DirectoryEntry>) -> Seq<EntryModel> {
    entries.map_values(|e: DirectoryEntry| e@)
}

impl View for Listing {
    type V = ListingModel;

    open spec fn view(&self) -> ListingModel {
        match self {
            Listing::Entries(entries) => ListingModel::Entries(entries_view(entries@)),
            Listing::NotADirectory { body } => ListingModel::NotADirectory { body: body@ },
        }
    }
}

/// The entry that a descriptor stands for. A descriptor of type `file` needs
/// a name and a download reference, one of type `dir` a name. A descriptor
/// that lacks what its type needs, or has another type or none, is unknown.
pub open spec fn classify_spec(descriptor: Json) -> EntryModel {
    match text_member(descriptor, "type"@) {
        Some(kind) => if kind == "file"@ {
            match (text_member(descriptor, "name"@), text_member(descriptor, "download_url"@)) {
                (Some(name), Some(download_reference)) => EntryModel::File {
                    name,
                    download_reference,
                },
                _ => EntryModel::Unknown,
            }
        } else if kind == "dir"@ {
            match text_member(descriptor, "name"@) {
                Some(name) => EntryModel::Directory { name },
                None => EntryModel::Unknown,
            }
        } else {
            EntryModel::Unknown
        },
        None => EntryModel::Unknown,
    }
}

/// What a listing response holds, given its body and the document that the
/// body was read as, if it could be read.
pub open spec fn listing_spec(body: Seq<u8>, document: Option<Json>) -> ListingModel {
    match document {
        Some(Json::Array(descriptors)) => ListingModel::Entries(
            descriptors.map_values(|d: Json| classify_spec(d)),
        ),
        _ => ListingModel::NotADirectory { body },
    }
}

fn text_is(text: &String, literal: &str) -> (r: bool)
    ensures
        r == (text@ == literal@),
{
    let other = String::from_str(literal);
    *text == other
}

/// Interprets one entry descriptor of a listing.
pub fn classify(json_entry: &serde_json::Value) -> (e: DirectoryEntry)
    ensures
        e@ == classify_spec(json_of(*json_entry)),
{
    match string_member(json_entry, "type") {
        Some(kind) => {
            if text_is(&kind, "file") {
                match string_member(json_entry, "name") {
                    Some(name) => match string_member(json_entry, "download_url") {
                        Some(download_reference) => DirectoryEntry::File { name, download_reference },
                        None => DirectoryEntry::Unknown,
                    },
                    None => DirectoryEntry::Unknown,
                }
            } else if text_is(&kind, "dir") {
                match string_member(json_entry, "name") {
                    Some(name) => DirectoryEntry::Directory { name },
                    None => DirectoryEntry::Unknown,
                }
            } else {
                DirectoryEntry::Unknown
            }
        },
        None => DirectoryEntry::Unknown,
    }
}

/// Interprets a listing response of which `document` is what its body was read
/// as: the classified entries where the document is an array, and otherwise
/// the body itself, to be reported.
pub fn listing_from(document: Option<serde_json::Value>, body: Vec<u8>) -> (l: Listing)
    ensures
        l@ == listing_spec(
            body@,
            match document {
                Some(v) => Some(json_of(v)),
                None => None,
            },
        ),
{
    let value = match document {
        Some(v) => v,
        None => {
            return Listing::NotADirectory { body };
        },
    };
    let descriptors = match value.as_array() {
        Some(a) => a,
        None => {
            return Listing::NotADirectory { body };
        },
    };
    let mut entries: Vec<DirectoryEntry> = Vec::new();
    let mut i: usize = 0;
    while i < descriptors.len()
        invariant
            i <= descriptors.len(),
            entries.len() == i,
            forall|k: int|
                0 <= k < i ==> (#[trigger] entries@[k])@ == classify_spec(json_of(descriptors@[k])),
        decreases descriptors.len() - i,
    {
        let e = classify(&descriptors[i]);
        entries.push(e);
        i += 1;
    }
    assert(entries_view(entries@) =~= descriptors@.map_values(
        |v: serde_json::Value| json_of(v),
    ).map_values(|d: Json| classify_spec(d)));
    Listing::Entries(entries)
}

/// Reads the body of a listing response.
pub fn decode_listing(body: Vec<u8>) -> (l: Listing)
    ensures
        l@ == listing_spec(body@, json_text(body@)),
{
    let document = parse(body.as_slice());
    listing_from(document, body)
}

/// A response whose body reads as a JSON object, or does not read as JSON, is
/// no listing: it is reported as it was received.
pub proof fn object_is_no_listing(body: Seq<u8>, members: Map<Seq<char>, Json>)
    ensures
        listing_spec(body, Some(Json::Object(members))) == (ListingModel::NotADirectory { body }),
        listing_spec(body, None) == (ListingModel::NotADirectory { body }),
{
}

} // verus!
