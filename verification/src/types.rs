//! The records, the request payloads and the error type.

use vstd::prelude::*;

verus! {

/// A field of a request that validation can reject.
#[derive(Clone, Copy, Debug, PartialEq, Eq, Structural)]
pub enum Field {
    FileName,
    MimeType,
    Title,
    ReleaseDate,
    Singer,
    Genre,
    Duration,
    Name,
}

impl Field {
    /// The field's name as requests spell it.
    pub open spec fn spec_name(self) -> Seq<char> {
        match self {
            Field::FileName => "file_name"@,
            Field::MimeType => "mime_type"@,
            Field::Title => "title"@,
            Field::ReleaseDate => "release_date"@,
            Field::Singer => "singer"@,
            Field::Genre => "genre"@,
            Field::Duration => "duration"@,
            Field::Name => "name"@,
        }
    }

    /// The field's name as requests spell it.
    pub fn name(&self) -> (r: &'static str)
        ensures
            r@ == self.spec_name(),
    {
        match self {
            Field::FileName => "file_name",
            Field::MimeType => "mime_type",
            Field::Title => "title",
            Field::ReleaseDate => "release_date",
            Field::Singer => "singer",
            Field::Genre => "genre",
            Field::Duration => "duration",
            Field::Name => "name",
        }
    }
}

/// Why an operation did not succeed.
#[derive(Clone, Copy, Debug, PartialEq, Eq, Structural)]
pub enum Error {
    /// No record is stored under the key.
    NotFound,
    /// The request breaks a rule on `field`, the first one that does.
    ValidationFailure { field: Field },
    /// The caller is not the record's owner.
    Unauthorized,
    /// Every identifier has been handed out.
    CounterExhausted,
    /// The backing memory cannot take what was to be written.
    StoreFull,
    /// The bytes stored under the key are no record.
    DecodeCorruption,
    /// The record's encoding is longer than a store entry may be.
    RecordTooLarge,
    /// The region was handed out before: a region serves one structure.
    RegionInUse,
}

/// A stored song.
#[derive(Clone, Debug, Default, PartialEq, Eq)]
pub struct Song {
    pub id: u64,
    pub file_name: String,
    pub mime_type: String,
    pub title: String,
    pub singer: String,
    pub genre: String,
    pub duration: u64,
    pub release_date: String,
    pub updated_at: Option<u64>,
    pub owner: Option<Vec<u8>>,
}

/// What a `Song` holds, as mathematical values.
pub ghost struct SongView {
    pub id: u64,
    pub file_name: Seq<char>,
    pub mime_type: Seq<char>,
    pub title: Seq<char>,
    pub singer: Seq<char>,
    pub genre: Seq<char>,
    pub duration: u64,
    pub release_date: Seq<char>,
    pub updated_at: Option<u64>,
    pub owner: Option<Seq<u8>>,
}

/// The view of an optional byte string.
pub open spec fn bytes_view(o: Option<Vec<u8>>) -> Option<Seq<u8>> {
    match o {
        Some(v) => Some(v@),
        None => None,
    }
}

/// The view of an optional text.
pub open spec fn text_view(o: Option<String>) -> Option<Seq<char>> {
    match o {
        Some(s) => Some(s@),
        None => None,
    }
}

impl View for Song {
    type V = SongView;

    open spec fn view(&self) -> SongView {
        SongView {
            id: self.id,
            file_name: self.file_name@,
            mime_type: self.mime_type@,
            title: self.title@,
            singer: self.singer@,
            genre: self.genre@,
            duration: self.duration,
            release_date: self.release_date@,
            updated_at: self.updated_at,
            owner: bytes_view(self.owner),
        }
    }
}

impl SongView {
    /// Every text is non-empty and the duration is positive: what holds of
    /// each song that a store is given.
    pub open spec fn valid(self) -> bool {
        &&& self.file_name.len() > 0
        &&& self.mime_type.len() > 0
        &&& self.title.len() > 0
        &&& self.singer.len() > 0
        &&& self.genre.len() > 0
        &&& self.release_date.len() > 0
        &&& self.duration > 0
    }
}

/// The fields of a song that a caller chooses: a request to create a song or
/// to replace one wholly.
#[derive(Clone, Debug, Default, PartialEq, Eq)]
pub struct SongPayload {
    pub file_name: String,
    pub mime_type: String,
    pub title: String,
    pub singer: String,
    pub genre: String,
    pub duration: u64,
    pub release_date: String,
}

/// What a `SongPayload` holds, as mathematical values.
pub ghost struct SongPayloadView {
    pub file_name: Seq<char>,
    pub mime_type: Seq<char>,
    pub title: Seq<char>,
    pub singer: Seq<char>,
    pub genre: Seq<char>,
    pub duration: u64,
    pub release_date: Seq<char>,
}

impl View for SongPayload {
    type V = SongPayloadView;

    open spec fn view(&self) -> SongPayloadView {
        SongPayloadView {
            file_name: self.file_name@,
            mime_type: self.mime_type@,
            title: self.title@,
            singer: self.singer@,
            genre: self.genre@,
            duration: self.duration,
            release_date: self.release_date@,
        }
    }
}

impl SongPayloadView {
    /// Every text is non-empty and the duration is positive.
    pub open spec fn valid(self) -> bool {
        &&& self.file_name.len() > 0
        &&& self.mime_type.len() > 0
        &&& self.title.len() > 0
        &&& self.singer.len() > 0
        &&& self.genre.len() > 0
        &&& self.release_date.len() > 0
        &&& self.duration > 0
    }
}

/// A change to some fields of a song: a field that is `None` stays as it is.
#[derive(Clone, Debug, Default, PartialEq, Eq)]
pub struct SongUpdate {
    pub file_name: Option<String>,
    pub mime_type: Option<String>,
    pub title: Option<String>,
    pub singer: Option<String>,
    pub genre: Option<String>,
    pub duration: Option<u64>,
    pub release_date: Option<String>,
}

/// What a `SongUpdate` holds, as mathematical values.
pub ghost struct SongUpdateView {
    pub file_name: Option<Seq<char>>,
    pub mime_type: Option<Seq<char>>,
    pub title: Option<Seq<char>>,
    pub singer: Option<Seq<char>>,
    pub genre: Option<Seq<char>>,
    pub duration: Option<u64>,
    pub release_date: Option<Seq<char>>,
}

impl View for SongUpdate {
    type V = SongUpdateView;

    open spec fn view(&self) -> SongUpdateView {
        SongUpdateView {
            file_name: text_view(self.file_name),
            mime_type: text_view(self.mime_type),
            title: text_view(self.title),
            singer: text_view(self.singer),
            genre: text_view(self.genre),
            duration: self.duration,
            release_date: text_view(self.release_date),
        }
    }
}

impl SongUpdateView {
    /// Every text that is present is non-empty, and the duration, if
    /// present, is positive.
    pub open spec fn valid(self) -> bool {
        &&& self.file_name matches Some(s) ==> s.len() > 0
        &&& self.mime_type matches Some(s) ==> s.len() > 0
        &&& self.title matches Some(s) ==> s.len() > 0
        &&& self.singer matches Some(s) ==> s.len() > 0
        &&& self.genre matches Some(s) ==> s.len() > 0
        &&& self.release_date matches Some(s) ==> s.len() > 0
        &&& self.duration matches Some(d) ==> d > 0
    }
}

/// A stored singer.
#[derive(Clone, Debug, Default, PartialEq, Eq)]
pub struct Singer {
    pub id: u64,
    pub name: String,
    pub updated_at: Option<u64>,
}

/// What a `Singer` holds, as mathematical values.
pub ghost struct SingerView {
    pub id: u64,
    pub name: Seq<char>,
    pub updated_at: Option<u64>,
}

impl View for Singer {
    type V = SingerView;

    open spec fn view(&self) -> SingerView {
        SingerView { id: self.id, name: self.name@, updated_at: self.updated_at }
    }
}

impl SingerView {
    /// The name is non-empty.
    pub open spec fn valid(self) -> bool {
        self.name.len() > 0
    }
}

/// A request to create a singer or to rename one.
#[derive(Clone, Debug, Default, PartialEq, Eq)]
pub struct SingerPayload {
    pub name: String,
}

} // verus!
