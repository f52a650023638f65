use crate::classify::{File, FileView};
use crate::path::{extract_filename, final_segment};
use crate::provenance::{decode, decoded, origin_of, origin_url, PropertyList, PropertyListView};
use vstd::pervasive::unreached;
use vstd::prelude::*;

verus! {

/// What was created.
#[derive(Debug, Clone, Copy, PartialEq, Eq, Structural)]
pub enum CreateKind {
    Any,
    File,
    Folder,
    Other,
}

/// What of a file was changed.
#[derive(Debug, Clone, Copy, PartialEq, Eq, Structural)]
pub enum ModifyKind {
    Any,
    /// The content of the file.
    Data,
    Metadata,
    Name,
    Other,
}

/// The kind of a change that the file system reports.
#[derive(Debug, Clone, Copy, PartialEq, Eq, Structural)]
pub enum EventKind {
    Any,
    Access,
    Create(CreateKind),
    Modify(ModifyKind),
    Remove,
    Other,
}

/// One change that the file system reports: its kind and the first path it
/// is about, where there is one that is text.
#[derive(Debug)]
pub struct Notification {
    pub kind: EventKind,
    pub path: Option<String>,
}

/// What reading the origin attribute of a file gave.
#[derive(Debug)]
pub enum Attribute {
    Present(Vec<u8>),
    Absent,
    Unreadable,
}

/// Why a change was dropped.
#[derive(Debug, Clone, Copy, PartialEq, Eq, Structural)]
pub enum NormalizeError {
    /// The change names no path that is text.
    InvalidPath,
    /// The origin attribute could not be read.
    AttributeUnreadable,
    /// The origin attribute holds no property list, or one that holds more
    /// or nests deeper than is decoded.
    DecodeFailed,
}

/// A change, made into a candidate file or set aside.
#[derive(Debug)]
pub enum Normalized {
    Candidate(File),
    Ignored,
}

/// A normalized change with its candidate as plain text.
pub enum NormalizedView {
    Candidate(FileView),
    Ignored,
}

impl View for Normalized {
    type V = NormalizedView;

    open spec fn view(&self) -> NormalizedView {
        match self {
            Normalized::Candidate(file) => NormalizedView::Candidate(file@),
            Normalized::Ignored => NormalizedView::Ignored,
        }
    }
}

/// Whether a change of this kind can bring a new file: a file was created, or
/// the content of a file was modified, or a file was modified and no more is
/// known.
pub open spec fn relevant(kind: EventKind) -> bool {
    ||| kind == EventKind::Create(CreateKind::File)
    ||| kind == EventKind::Modify(ModifyKind::Data)
    ||| kind == EventKind::Modify(ModifyKind::Any)
}

/// The candidate that the file at `path` makes with a decoded attribute:
/// one named by the final segment of the path, where the attribute records an
/// origin.
pub open spec fn candidate_of(path: Seq<char>, list: PropertyListView) -> NormalizedView {
    match origin_of(list) {
        Some(url) => NormalizedView::Candidate(
            FileView { name: final_segment(path), url, path },
        ),
        None => NormalizedView::Ignored,
    }
}

/// What becomes of a change, given what reading the attribute of its path gave.
pub open spec fn normalized(event: Notification, attribute: Attribute) -> Result<
    NormalizedView,
    NormalizeError,
> {
    if !relevant(event.kind) {
        Ok(NormalizedView::Ignored)
    } else {
        match event.path {
            None => Err(NormalizeError::InvalidPath),
            Some(path) => match attribute {
                Attribute::Unreadable => Err(NormalizeError::AttributeUnreadable),
                Attribute::Absent => Ok(NormalizedView::Ignored),
                Attribute::Present(bytes) => match decoded(bytes@) {
                    Err(_) => Err(NormalizeError::DecodeFailed),
                    Ok(list) => Ok(candidate_of(path@, list)),
                },
            },
        }
    }
}

/// Whether a change of this kind can bring a new file.
pub fn is_relevant(kind: EventKind) -> (r: bool)
    ensures
        r == relevant(kind),
{
    match kind {
        EventKind::Create(CreateKind::File) => true,
        EventKind::Modify(ModifyKind::Data) => true,
        EventKind::Modify(ModifyKind::Any) => true,
        _ => false,
    }
}

/// The path whose origin attribute is to be read for `event`: none for a
/// change that is set aside whatever the attribute holds.
pub fn attribute_path(event: &Notification) -> (r: Result<Option<&String>, NormalizeError>)
    ensures
        r == (if !relevant(event.kind) {
            Ok::<Option<&String>, NormalizeError>(None)
        } else {
            match &event.path {
                Some(path) => Ok(Some(path)),
                None => Err(NormalizeError::InvalidPath),
            }
        }),
{
    if !is_relevant(event.kind) {
        return Ok(None);
    }
    match &event.path {
        Some(path) => Ok(Some(path)),
        None => Err(NormalizeError::InvalidPath),
    }
}

/// The candidate that the file at `path` makes with a decoded attribute.
pub fn candidate_from(path: &str, list: &PropertyList) -> (r: Normalized)
    ensures
        r@ == candidate_of(path@, list@),
{
    match origin_url(list) {
        Some(url) => {
            let name = match extract_filename(path) {
                Some(name) => name.to_owned(),
                None => unreached(),
            };
            Normalized::Candidate(File { name, url, path: path.to_owned() })
        },
        None => Normalized::Ignored,
    }
}

/// What becomes of a change, given what reading the attribute of its path
/// gave: a candidate file, nothing, or the reason why it is dropped.
pub fn parse_event(event: &Notification, attribute: &Attribute) -> (r: Result<
    Normalized,
    NormalizeError,
>)
    ensures
        match r {
            Ok(n) => normalized(*event, *attribute) == Ok::<NormalizedView, NormalizeError>(n@),
            Err(e) => normalized(*event, *attribute) == Err::<NormalizedView, NormalizeError>(e),
        },
{
    match attribute_path(event) {
        Err(e) => Err(e),
        Ok(None) => Ok(Normalized::Ignored),
        Ok(Some(path)) => match attribute {
            Attribute::Unreadable => Err(NormalizeError::AttributeUnreadable),
            Attribute::Absent => Ok(Normalized::Ignored),
            Attribute::Present(bytes) => match decode(bytes.as_slice()) {
                Err(_) => Err(NormalizeError::DecodeFailed),
                Ok(list) => Ok(candidate_from(path.as_str(), &list)),
            },
        },
    }
}

} // verus!
