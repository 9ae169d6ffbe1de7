use song_manage::types::{Error, Field, SingerPayload, SongPayload, SongUpdate};
use song_manage::utils::{validate_singer_payload, validate_song_payload, validate_song_update};

fn payload() -> SongPayload {
    SongPayload {
        file_name: "a.mp3".to_string(),
        mime_type: "audio/mpeg".to_string(),
        title: "T".to_string(),
        singer: "S".to_string(),
        genre: "pop".to_string(),
        duration: 120,
        release_date: "2024-01-01".to_string(),
    }
}

fn nothing() -> SongUpdate {
    SongUpdate {
        file_name: None,
        mime_type: None,
        title: None,
        singer: None,
        genre: None,
        duration: None,
        release_date: None,
    }
}

fn failure(field: Field) -> Result<(), Error> {
    Err(Error::ValidationFailure { field })
}

#[test]
fn valid_payload_is_accepted() {
    assert_eq!(validate_song_payload(&payload()), Ok(()));
}

#[test]
fn each_empty_field_is_named() {
    let mut p = payload();
    p.file_name = String::new();
    assert_eq!(validate_song_payload(&p), failure(Field::FileName));
    let mut p = payload();
    p.mime_type = String::new();
    assert_eq!(validate_song_payload(&p), failure(Field::MimeType));
    let mut p = payload();
    p.title = String::new();
    assert_eq!(validate_song_payload(&p), failure(Field::Title));
    let mut p = payload();
    p.release_date = String::new();
    assert_eq!(validate_song_payload(&p), failure(Field::ReleaseDate));
    let mut p = payload();
    p.singer = String::new();
    assert_eq!(validate_song_payload(&p), failure(Field::Singer));
    let mut p = payload();
    p.genre = String::new();
    assert_eq!(validate_song_payload(&p), failure(Field::Genre));
    let mut p = payload();
    p.duration = 0;
    assert_eq!(validate_song_payload(&p), failure(Field::Duration));
}

#[test]
fn the_first_offending_field_is_named() {
    let mut p = payload();
    p.duration = 0;
    p.genre = String::new();
    assert_eq!(validate_song_payload(&p), failure(Field::Genre));
    p.singer = String::new();
    assert_eq!(validate_song_payload(&p), failure(Field::Singer));
    p.release_date = String::new();
    assert_eq!(validate_song_payload(&p), failure(Field::ReleaseDate));
    p.title = String::new();
    assert_eq!(validate_song_payload(&p), failure(Field::Title));
    p.mime_type = String::new();
    assert_eq!(validate_song_payload(&p), failure(Field::MimeType));
    p.file_name = String::new();
    assert_eq!(validate_song_payload(&p), failure(Field::FileName));
}

#[test]
fn empty_change_is_accepted() {
    assert_eq!(validate_song_update(&nothing()), Ok(()));
}

#[test]
fn change_with_values_is_accepted() {
    let mut u = nothing();
    u.title = Some("New".to_string());
    u.duration = Some(1);
    assert_eq!(validate_song_update(&u), Ok(()));
}

#[test]
fn each_empty_change_is_named() {
    let mut u = nothing();
    u.file_name = Some(String::new());
    assert_eq!(validate_song_update(&u), failure(Field::FileName));
    let mut u = nothing();
    u.mime_type = Some(String::new());
    assert_eq!(validate_song_update(&u), failure(Field::MimeType));
    let mut u = nothing();
    u.title = Some(String::new());
    assert_eq!(validate_song_update(&u), failure(Field::Title));
    let mut u = nothing();
    u.release_date = Some(String::new());
    assert_eq!(validate_song_update(&u), failure(Field::ReleaseDate));
    let mut u = nothing();
    u.singer = Some(String::new());
    assert_eq!(validate_song_update(&u), failure(Field::Singer));
    let mut u = nothing();
    u.genre = Some(String::new());
    assert_eq!(validate_song_update(&u), failure(Field::Genre));
    let mut u = nothing();
    u.duration = Some(0);
    assert_eq!(validate_song_update(&u), failure(Field::Duration));
}

#[test]
fn the_first_offending_change_is_named() {
    let mut u = nothing();
    u.duration = Some(0);
    u.title = Some(String::new());
    assert_eq!(validate_song_update(&u), failure(Field::Title));
}

#[test]
fn singer_name_must_not_be_empty() {
    assert_eq!(validate_singer_payload(&SingerPayload { name: "n".to_string() }), Ok(()));
    assert_eq!(validate_singer_payload(&SingerPayload { name: String::new() }), failure(Field::Name));
}

#[test]
fn field_names() {
    assert_eq!(Field::FileName.name(), "file_name");
    assert_eq!(Field::MimeType.name(), "mime_type");
    assert_eq!(Field::Title.name(), "title");
    assert_eq!(Field::ReleaseDate.name(), "release_date");
    assert_eq!(Field::Singer.name(), "singer");
    assert_eq!(Field::Genre.name(), "genre");
    assert_eq!(Field::Duration.name(), "duration");
    assert_eq!(Field::Name.name(), "name");
}
