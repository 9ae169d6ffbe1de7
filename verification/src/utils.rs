//! Validation of requests.

use vstd::prelude::*;
use crate::types::{
    Error, Field, SingerPayload, SongPayload, SongPayloadView, SongUpdate, SongUpdateView,
};

verus! {

/// The first field of a payload that breaks a rule: an empty text, looked for
/// in the order file name, MIME type, title, release date, singer, genre, or
/// else a duration of zero.
pub open spec fn first_invalid_field(p: SongPayloadView) -> Option<Field> {
    if p.file_name.len() == 0 {
        Some(Field::FileName)
    } else if p.mime_type.len() == 0 {
        Some(Field::MimeType)
    } else if p.title.len() == 0 {
        Some(Field::Title)
    } else if p.release_date.len() == 0 {
        Some(Field::ReleaseDate)
    } else if p.singer.len() == 0 {
        Some(Field::Singer)
    } else if p.genre.len() == 0 {
        Some(Field::Genre)
    } else if p.duration == 0 {
        Some(Field::Duration)
    } else {
        None
    }
}

/// Whether a text that a change may carry is present and empty.
pub open spec fn present_and_empty(o: Option<Seq<char>>) -> bool {
    o matches Some(s) && s.len() == 0
}

/// The first field of a change that is present and breaks a rule, in the
/// order in which `first_invalid_field` looks.
pub open spec fn first_invalid_change(u: SongUpdateView) -> Option<Field> {
    if present_and_empty(u.file_name) {
        Some(Field::FileName)
    } else if present_and_empty(u.mime_type) {
        Some(Field::MimeType)
    } else if present_and_empty(u.title) {
        Some(Field::Title)
    } else if present_and_empty(u.release_date) {
        Some(Field::ReleaseDate)
    } else if present_and_empty(u.singer) {
        Some(Field::Singer)
    } else if present_and_empty(u.genre) {
        Some(Field::Genre)
    } else if u.duration == Some(0u64) {
        Some(Field::Duration)
    } else {
        None
    }
}

/// What validation answers when `bad` is the first field that breaks a rule.
pub open spec fn verdict(bad: Option<Field>) -> Result<(), Error> {
    match bad {
        Some(field) => Err(Error::ValidationFailure { field }),
        None => Ok(()),
    }
}

/// Accepts a payload whose texts are all non-empty and whose duration is
/// positive, and names the first offending field of any other.
pub fn validate_song_payload(song: &SongPayload) -> (r: Result<(), Error>)
    ensures
        r == verdict(first_invalid_field(song@)),
{
    if song.file_name.as_str().is_empty() {
        return Err(Error::ValidationFailure { field: Field::FileName });
    }
    if song.mime_type.as_str().is_empty() {
        return Err(Error::ValidationFailure { field: Field::MimeType });
    }
    if song.title.as_str().is_empty() {
        return Err(Error::ValidationFailure { field: Field::Title });
    }
    if song.release_date.as_str().is_empty() {
        return Err(Error::ValidationFailure { field: Field::ReleaseDate });
    }
    if song.singer.as_str().is_empty() {
        return Err(Error::ValidationFailure { field: Field::Singer });
    }
    if song.genre.as_str().is_empty() {
        return Err(Error::ValidationFailure { field: Field::Genre });
    }
    if song.duration == 0 {
        return Err(Error::ValidationFailure { field: Field::Duration });
    }
    Ok(())
}

/// Whether an optional text is present and empty.
fn is_present_and_empty(o: &Option<String>) -> (r: bool)
    ensures
        r == present_and_empty(crate::types::text_view(*o)),
{
    match o {
        Some(s) => s.as_str().is_empty(),
        None => false,
    }
}

/// Accepts a change in which every text that is present is non-empty and the
/// duration, if present, is positive, and names the first offending field of
/// any other.
pub fn validate_song_update(change: &SongUpdate) -> (r: Result<(), Error>)
    ensures
        r == verdict(first_invalid_change(change@)),
{
    if is_present_and_empty(&change.file_name) {
        return Err(Error::ValidationFailure { field: Field::FileName });
    }
    if is_present_and_empty(&change.mime_type) {
        return Err(Error::ValidationFailure { field: Field::MimeType });
    }
    if is_present_and_empty(&change.title) {
        return Err(Error::ValidationFailure { field: Field::Title });
    }
    if is_present_and_empty(&change.release_date) {
        return Err(Error::ValidationFailure { field: Field::ReleaseDate });
    }
    if is_present_and_empty(&change.singer) {
        return Err(Error::ValidationFailure { field: Field::Singer });
    }
    if is_present_and_empty(&change.genre) {
        return Err(Error::ValidationFailure { field: Field::Genre });
    }
    match change.duration {
        Some(d) => {
            if d == 0 {
                return Err(Error::ValidationFailure { field: Field::Duration });
            }
        },
        None => {},
    }
    Ok(())
}

/// The field of a singer's payload that breaks a rule: the name, where it is
/// empty.
pub open spec fn first_invalid_name(name: Seq<char>) -> Option<Field> {
    if name.len() == 0 {
        Some(Field::Name)
    } else {
        None
    }
}

/// Accepts a singer's payload whose name is non-empty.
pub fn validate_singer_payload(singer: &SingerPayload) -> (r: Result<(), Error>)
    ensures
        r == verdict(first_invalid_name(singer.name@)),
{
    if singer.name.as_str().is_empty() {
        return Err(Error::ValidationFailure { field: Field::Name });
    }
    Ok(())
}

} // verus!
