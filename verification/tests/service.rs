use song_manage::counter::Counter;
use song_manage::memory::{Region, RegionManager};
use song_manage::service::{Service, COUNTER_REGION, SINGER_REGION, SONG_REGION};
use song_manage::store::{do_insert, do_insert_singer, OrderedStore};
use song_manage::types::{Error, Field, Singer, SingerPayload, Song, SongPayload, SongUpdate};

const ALICE: &[u8] = &[1, 2, 3];
const BOB: &[u8] = &[4, 5];

fn payload() -> SongPayload {
    SongPayload {
        file_name: "a.mp3".to_string(),
        mime_type: "audio/mpeg".to_string(),
        title: "T".to_string(),
        singer: "S".to_string(),
        genre: "pop".to_string(),
        duration: 120,
        release_date: "2024-01-01".to_string(),
    }
}

fn titled(title: &str) -> SongPayload {
    let mut p = payload();
    p.title = title.to_string();
    p
}

fn nothing() -> SongUpdate {
    SongUpdate {
        file_name: None,
        mime_type: None,
        title: None,
        singer: None,
        genre: None,
        duration: None,
        release_date: None,
    }
}

fn fresh(ownership: bool) -> Service {
    Service::install(ownership).unwrap()
}

fn expected_song(id: u64, now: u64, owner: Option<Vec<u8>>) -> Song {
    Song {
        id,
        file_name: "a.mp3".to_string(),
        mime_type: "audio/mpeg".to_string(),
        title: "T".to_string(),
        singer: "S".to_string(),
        genre: "pop".to_string(),
        duration: 120,
        release_date: "2024-01-01".to_string(),
        updated_at: Some(now),
        owner,
    }
}

#[test]
fn end_to_end() {
    let mut service = fresh(false);
    let created = service.upload_song(payload(), ALICE, 1000).unwrap();
    assert_eq!(created.id, 1);
    assert_eq!(created, expected_song(1, 1000, None));

    let mut change = nothing();
    change.duration = Some(0);
    assert_eq!(
        service.patch_song(1, change, ALICE, 2000),
        Err(Error::ValidationFailure { field: Field::Duration })
    );
    assert_eq!(service.get_song(1).unwrap().duration, 120);
    assert_eq!(service.get_song(1), Ok(expected_song(1, 1000, None)));

    assert_eq!(service.delete_song(1, ALICE), Ok(expected_song(1, 1000, None)));
    assert_eq!(service.get_song(1), Err(Error::NotFound));
    assert_eq!(service.get_all_songs(), Vec::new());
}

#[test]
fn list_of_an_empty_store_is_empty() {
    let service = fresh(false);
    assert_eq!(service.get_all_songs(), Vec::new());
    assert_eq!(service.get_all_singers(), Vec::new());
}

#[test]
fn ids_grow_by_one() {
    let mut service = fresh(false);
    for expected in 1..=20u64 {
        let song = service.upload_song(payload(), ALICE, expected).unwrap();
        assert_eq!(song.id, expected);
    }
}

#[test]
fn songs_and_singers_share_the_counter() {
    let mut service = fresh(false);
    assert_eq!(service.upload_song(payload(), ALICE, 1).unwrap().id, 1);
    assert_eq!(service.add_singer(SingerPayload { name: "n".to_string() }, 1).unwrap().id, 2);
    assert_eq!(service.upload_song(payload(), ALICE, 1).unwrap().id, 3);
    assert_eq!(service.get_song(2), Err(Error::NotFound));
    assert_eq!(service.get_singer(1), Err(Error::NotFound));
}

#[test]
fn ids_are_not_reused_after_delete() {
    let mut service = fresh(false);
    assert_eq!(service.upload_song(payload(), ALICE, 1).unwrap().id, 1);
    assert_eq!(service.upload_song(payload(), ALICE, 1).unwrap().id, 2);
    service.delete_song(2, ALICE).unwrap();
    assert_eq!(service.upload_song(payload(), ALICE, 1).unwrap().id, 3);
}


#[test]
fn reload_keeps_the_state() {
    let mut service = fresh(true);
    let song = service.upload_song(payload(), ALICE, 1).unwrap();
    let singer = service.add_singer(SingerPayload { name: "n".to_string() }, 2).unwrap();
    let mut service = service.reload().unwrap();
    assert_eq!(service.get_all_songs(), vec![Ok(song)]);
    assert_eq!(service.get_all_singers(), vec![Ok(singer)]);
    assert_eq!(service.upload_song(payload(), BOB, 3).unwrap().id, 3);
    assert_eq!(service.delete_song(1, BOB), Err(Error::Unauthorized));
}

#[test]
fn delete_twice() {
    let mut service = fresh(false);
    let song = service.upload_song(payload(), ALICE, 5).unwrap();
    assert_eq!(service.delete_song(song.id, ALICE), Ok(song.clone()));
    assert_eq!(service.delete_song(song.id, ALICE), Err(Error::NotFound));
}

#[test]
fn delete_of_an_absent_song() {
    let mut service = fresh(false);
    assert_eq!(service.delete_song(7, ALICE), Err(Error::NotFound));
}

#[test]
fn get_of_an_absent_record() {
    let service = fresh(false);
    assert_eq!(service.get_song(0), Err(Error::NotFound));
    assert_eq!(service.get_singer(0), Err(Error::NotFound));
}

#[test]
fn invalid_create_changes_nothing() {
    let mut service = fresh(false);
    service.upload_song(payload(), ALICE, 1).unwrap();
    let mut bad = payload();
    bad.genre = String::new();
    assert_eq!(
        service.upload_song(bad, ALICE, 2),
        Err(Error::ValidationFailure { field: Field::Genre })
    );
    let mut bad = payload();
    bad.duration = 0;
    assert_eq!(
        service.upload_song(bad, ALICE, 2),
        Err(Error::ValidationFailure { field: Field::Duration })
    );
    assert_eq!(service.get_all_songs(), vec![Ok(expected_song(1, 1, None))]);
    assert_eq!(service.upload_song(payload(), ALICE, 3).unwrap().id, 2);
}

#[test]
fn invalid_update_changes_nothing() {
    let mut service = fresh(false);
    service.upload_song(payload(), ALICE, 1).unwrap();
    let mut bad = payload();
    bad.file_name = String::new();
    bad.title = "other".to_string();
    assert_eq!(
        service.update_song(1, bad, ALICE, 2),
        Err(Error::ValidationFailure { field: Field::FileName })
    );
    assert_eq!(service.get_song(1), Ok(expected_song(1, 1, None)));
}

#[test]
fn invalid_update_of_an_absent_song_is_a_validation_failure() {
    let mut service = fresh(false);
    let mut bad = payload();
    bad.duration = 0;
    assert_eq!(
        service.update_song(9, bad, ALICE, 2),
        Err(Error::ValidationFailure { field: Field::Duration })
    );
}

#[test]
fn update_replaces_every_field() {
    let mut service = fresh(true);
    service.upload_song(payload(), ALICE, 1).unwrap();
    let new = SongPayload {
        file_name: "b.ogg".to_string(),
        mime_type: "audio/ogg".to_string(),
        title: "U".to_string(),
        singer: "R".to_string(),
        genre: "rock".to_string(),
        duration: 61,
        release_date: "2025-02-02".to_string(),
    };
    let expected = Song {
        id: 1,
        file_name: "b.ogg".to_string(),
        mime_type: "audio/ogg".to_string(),
        title: "U".to_string(),
        singer: "R".to_string(),
        genre: "rock".to_string(),
        duration: 61,
        release_date: "2025-02-02".to_string(),
        updated_at: Some(99),
        owner: Some(ALICE.to_vec()),
    };
    assert_eq!(service.update_song(1, new, ALICE, 99), Ok(expected.clone()));
    assert_eq!(service.get_song(1), Ok(expected));
}

#[test]
fn update_of_an_absent_song() {
    let mut service = fresh(false);
    assert_eq!(service.update_song(3, payload(), ALICE, 1), Err(Error::NotFound));
    assert_eq!(service.patch_song(3, nothing(), ALICE, 1), Err(Error::NotFound));
    assert_eq!(service.get_all_songs(), Vec::new());
}

#[test]
fn patch_changes_only_what_it_holds() {
    let mut service = fresh(false);
    service.upload_song(payload(), ALICE, 1).unwrap();
    let mut change = nothing();
    change.title = Some("New".to_string());
    change.duration = Some(5);
    let mut expected = expected_song(1, 50, None);
    expected.title = "New".to_string();
    expected.duration = 5;
    assert_eq!(service.patch_song(1, change, ALICE, 50), Ok(expected.clone()));
    assert_eq!(service.get_song(1), Ok(expected));
}

#[test]
fn empty_patch_stamps_the_time() {
    let mut service = fresh(false);
    service.upload_song(payload(), ALICE, 1).unwrap();
    assert_eq!(service.patch_song(1, nothing(), ALICE, 77), Ok(expected_song(1, 77, None)));
}

#[test]
fn single_field_updates() {
    let mut service = fresh(false);
    service.upload_song(payload(), ALICE, 1).unwrap();
    let mut expected = expected_song(1, 2, None);
    expected.file_name = "f".to_string();
    assert_eq!(service.update_song_file_name(1, "f".to_string(), ALICE, 2), Ok(expected.clone()));
    expected.mime_type = "m".to_string();
    expected.updated_at = Some(3);
    assert_eq!(service.update_song_mime_type(1, "m".to_string(), ALICE, 3), Ok(expected.clone()));
    expected.title = "t".to_string();
    expected.updated_at = Some(4);
    assert_eq!(service.update_song_title(1, "t".to_string(), ALICE, 4), Ok(expected.clone()));
    expected.genre = "g".to_string();
    expected.updated_at = Some(5);
    assert_eq!(service.update_song_genre(1, "g".to_string(), ALICE, 5), Ok(expected.clone()));
    expected.singer = "s".to_string();
    expected.updated_at = Some(6);
    assert_eq!(service.update_song_singer(1, "s".to_string(), ALICE, 6), Ok(expected.clone()));
    expected.duration = 9;
    expected.updated_at = Some(7);
    assert_eq!(service.update_song_duration(1, 9, ALICE, 7), Ok(expected.clone()));
    expected.release_date = "r".to_string();
    expected.updated_at = Some(8);
    assert_eq!(
        service.update_song_release_date(1, "r".to_string(), ALICE, 8),
        Ok(expected.clone())
    );
    assert_eq!(service.get_song(1), Ok(expected));
}

#[test]
fn single_field_updates_reject_empty_values() {
    let mut service = fresh(false);
    service.upload_song(payload(), ALICE, 1).unwrap();
    let failure = |field| Err(Error::ValidationFailure { field });
    assert_eq!(service.update_song_file_name(1, String::new(), ALICE, 2), failure(Field::FileName));
    assert_eq!(service.update_song_mime_type(1, String::new(), ALICE, 2), failure(Field::MimeType));
    assert_eq!(service.update_song_title(1, String::new(), ALICE, 2), failure(Field::Title));
    assert_eq!(service.update_song_genre(1, String::new(), ALICE, 2), failure(Field::Genre));
    assert_eq!(service.update_song_singer(1, String::new(), ALICE, 2), failure(Field::Singer));
    assert_eq!(service.update_song_duration(1, 0, ALICE, 2), failure(Field::Duration));
    assert_eq!(
        service.update_song_release_date(1, String::new(), ALICE, 2),
        failure(Field::ReleaseDate)
    );
    assert_eq!(service.get_song(1), Ok(expected_song(1, 1, None)));
    assert_eq!(service.update_song_title(8, "t".to_string(), ALICE, 2), Err(Error::NotFound));
}

#[test]
fn owner_is_stamped_when_ownership_is_on() {
    let mut service = fresh(true);
    let song = service.upload_song(payload(), ALICE, 1).unwrap();
    assert_eq!(song.owner, Some(ALICE.to_vec()));
    assert_eq!(service.get_song(1), Ok(expected_song(1, 1, Some(ALICE.to_vec()))));
}

#[test]
fn owner_is_not_stamped_when_ownership_is_off() {
    let mut service = fresh(false);
    assert_eq!(service.upload_song(payload(), ALICE, 1).unwrap().owner, None);
}

#[test]
fn stranger_is_refused() {
    let mut service = fresh(true);
    service.upload_song(payload(), ALICE, 1).unwrap();
    let stored = expected_song(1, 1, Some(ALICE.to_vec()));

    assert_eq!(service.update_song(1, titled("theirs"), BOB, 2), Err(Error::Unauthorized));
    assert_eq!(service.get_song(1), Ok(stored.clone()));

    let mut change = nothing();
    change.title = Some("theirs".to_string());
    assert_eq!(service.patch_song(1, change, BOB, 2), Err(Error::Unauthorized));
    assert_eq!(service.update_song_duration(1, 3, BOB, 2), Err(Error::Unauthorized));
    assert_eq!(service.get_song(1), Ok(stored.clone()));

    assert_eq!(service.delete_song(1, BOB), Err(Error::Unauthorized));
    assert_eq!(service.get_song(1), Ok(stored.clone()));

    assert_eq!(service.delete_song(1, &[1, 2]), Err(Error::Unauthorized));
    assert_eq!(service.delete_song(1, &[1, 2, 4]), Err(Error::Unauthorized));
    assert_eq!(service.delete_song(1, &[]), Err(Error::Unauthorized));
    assert_eq!(service.delete_song(1, ALICE), Ok(stored));
}

#[test]
fn owner_may_change_and_stays_owner() {
    let mut service = fresh(true);
    service.upload_song(payload(), ALICE, 1).unwrap();
    let updated = service.update_song(1, titled("mine"), ALICE, 2).unwrap();
    assert_eq!(updated.owner, Some(ALICE.to_vec()));
    assert_eq!(updated.title, "mine");
    assert_eq!(service.delete_song(1, BOB), Err(Error::Unauthorized));
}



#[test]
fn song_that_does_not_fit_is_refused_and_takes_no_id() {
    let mut service = fresh(false);
    assert_eq!(
        service.upload_song(titled(&"x".repeat(2000)), ALICE, 1),
        Err(Error::RecordTooLarge)
    );
    assert_eq!(service.get_all_songs(), Vec::new());
    assert_eq!(service.upload_song(payload(), ALICE, 1).unwrap().id, 1);
    assert_eq!(
        service.update_song(1, titled(&"x".repeat(2000)), ALICE, 2),
        Err(Error::RecordTooLarge)
    );
    assert_eq!(
        service.update_song_title(1, "x".repeat(2000), ALICE, 2),
        Err(Error::RecordTooLarge)
    );
    assert_eq!(service.get_song(1), Ok(expected_song(1, 1, None)));
}


#[test]
fn list_is_in_ascending_order_of_the_ids() {
    let mut service = fresh(false);
    for i in 1..=300u64 {
        service.upload_song(titled(&format!("song {}", i)), ALICE, i).unwrap();
    }
    for id in [7u64, 150, 300, 1] {
        service.delete_song(id, ALICE).unwrap();
    }
    service.update_song_title(200, "changed".to_string(), ALICE, 0).unwrap();
    let songs = service.get_all_songs();
    assert_eq!(songs.len(), 296);
    let ids: Vec<u64> = songs.iter().map(|song| song.as_ref().unwrap().id).collect();
    let expected: Vec<u64> = (1..=300u64).filter(|id| ![7, 150, 300, 1].contains(id)).collect();
    assert_eq!(ids, expected);
    assert_eq!(songs[0].as_ref().unwrap().title, "song 2");
    assert_eq!(songs[196].as_ref().unwrap().id, 200);
    assert_eq!(songs[196].as_ref().unwrap().title, "changed");
    assert_eq!(service.get_all_songs(), songs);
}



#[test]
fn singers() {
    let mut service = fresh(false);
    let first = service.add_singer(SingerPayload { name: "Ann".to_string() }, 10).unwrap();
    assert_eq!(first, Singer { id: 1, name: "Ann".to_string(), updated_at: Some(10) });
    let second = service.add_singer(SingerPayload { name: "Ben".to_string() }, 11).unwrap();
    assert_eq!(second.id, 2);
    assert_eq!(service.get_singer(1), Ok(first.clone()));
    let renamed = service.update_singer(1, SingerPayload { name: "Anna".to_string() }, 12);
    let expected = Singer { id: 1, name: "Anna".to_string(), updated_at: Some(12) };
    assert_eq!(renamed, Ok(expected.clone()));
    assert_eq!(service.get_all_singers(), vec![Ok(expected), Ok(second)]);
    assert_eq!(service.get_all_songs(), Vec::new());
}

#[test]
fn singer_failures() {
    let mut service = fresh(false);
    let failure = Err(Error::ValidationFailure { field: Field::Name });
    assert_eq!(service.add_singer(SingerPayload { name: String::new() }, 1), failure);
    assert_eq!(service.update_singer(1, SingerPayload { name: String::new() }, 1), failure);
    assert_eq!(
        service.update_singer(1, SingerPayload { name: "n".to_string() }, 1),
        Err(Error::NotFound)
    );
    assert_eq!(
        service.add_singer(SingerPayload { name: "n".repeat(2000) }, 1),
        Err(Error::RecordTooLarge)
    );
    assert_eq!(service.add_singer(SingerPayload { name: "n".to_string() }, 1).unwrap().id, 1);
    assert_eq!(
        service.update_singer(1, SingerPayload { name: "n".repeat(2000) }, 2),
        Err(Error::RecordTooLarge)
    );
    assert_eq!(service.get_singer(1).unwrap().name, "n");
}




#[test]
fn installed_service_is_empty_and_starts_at_one() {
    let mut service = Service::install(true).unwrap();
    assert_eq!(service.get_all_songs(), Vec::new());
    assert_eq!(service.get_all_singers(), Vec::new());
    assert_eq!(service.get_song(0), Err(Error::NotFound));
    assert_eq!(service.get_song(1), Err(Error::NotFound));
    assert_eq!(service.upload_song(payload(), ALICE, 1).unwrap().id, 1);
    assert_eq!((COUNTER_REGION, SONG_REGION, SINGER_REGION), (0, 1, 2));
}

#[test]
fn opened_service_on_a_new_memory_is_as_installed() {
    let mut service = Service::open(false).unwrap();
    assert_eq!(service.get_all_songs(), Vec::new());
    assert_eq!(service.add_singer(SingerPayload { name: "n".to_string() }, 1).unwrap().id, 1);
    assert_eq!(service.upload_song(payload(), ALICE, 1).unwrap().id, 2);
}

#[test]
fn two_services_do_not_share_a_memory() {
    let mut first = Service::install(false).unwrap();
    let mut second = Service::install(false).unwrap();
    assert_eq!(first.upload_song(titled("first"), ALICE, 1).unwrap().id, 1);
    assert_eq!(first.upload_song(titled("also first"), ALICE, 1).unwrap().id, 2);
    assert_eq!(second.get_all_songs(), Vec::new());
    assert_eq!(second.upload_song(titled("second"), ALICE, 1).unwrap().id, 1);
    assert_eq!(first.get_song(1).unwrap().title, "first");
    assert_eq!(second.get_song(1).unwrap().title, "second");
}

#[test]
fn ids_grow_across_a_restart() {
    let mut service = fresh(false);
    assert_eq!(service.upload_song(titled("one"), ALICE, 1).unwrap().id, 1);
    assert_eq!(service.upload_song(titled("two"), ALICE, 2).unwrap().id, 2);
    service.delete_song(2, ALICE).unwrap();

    let mut service = service.reload().unwrap();
    assert_eq!(service.get_song(1).unwrap().title, "one");
    assert_eq!(service.get_song(2), Err(Error::NotFound));
    assert_eq!(service.upload_song(titled("three"), ALICE, 3).unwrap().id, 3);

    let mut service = service.reload().unwrap().reload().unwrap();
    let titles: Vec<String> =
        service.get_all_songs().into_iter().map(|song| song.unwrap().title).collect();
    assert_eq!(titles, vec!["one", "three"]);
    assert_eq!(service.add_singer(SingerPayload { name: "n".to_string() }, 4).unwrap().id, 4);
}

#[test]
fn a_valid_create_succeeds_again_and_again() {
    let mut service = fresh(true);
    for expected in 1..=50u64 {
        assert_eq!(service.upload_song(payload(), ALICE, 1).unwrap().id, 2 * expected - 1);
        let singer = service.add_singer(SingerPayload { name: "n".to_string() }, 1).unwrap();
        assert_eq!(singer.id, 2 * expected);
    }
    assert_eq!(service.get_all_songs().len(), 50);
    assert_eq!(service.get_all_singers().len(), 50);
}

fn three_regions() -> (Region, Region, Region) {
    let mut manager = RegionManager::open().unwrap();
    (
        manager.open_region(COUNTER_REGION).unwrap(),
        manager.open_region(SONG_REGION).unwrap(),
        manager.open_region(SINGER_REGION).unwrap(),
    )
}

fn counted(region: Region, times: u64) -> Region {
    let mut counter = Counter::open(region).unwrap();
    for _ in 0..times {
        counter.allocate().unwrap();
    }
    counter.close()
}

#[test]
fn service_over_empty_regions() {
    let (counter, songs, singers) = three_regions();
    let mut service = Service::over(counter, songs, singers, true, true).unwrap();
    assert_eq!(service.get_all_songs(), Vec::new());
    assert_eq!(service.upload_song(payload(), ALICE, 1).unwrap().id, 1);
    assert_eq!(service.delete_song(1, BOB), Err(Error::Unauthorized));
}

#[test]
fn service_over_regions_that_hold_records() {
    let (counter, songs, singers) = three_regions();
    let counter = counted(counter, 7);
    let mut song_store = OrderedStore::open(songs).unwrap();
    do_insert(&mut song_store, &expected_song(3, 30, None)).unwrap();
    do_insert(&mut song_store, &expected_song(7, 70, Some(ALICE.to_vec()))).unwrap();
    song_store.insert(5, &vec![1, 2, 3]).unwrap();
    let mut singer_store = OrderedStore::open(singers).unwrap();
    let singer = Singer { id: 4, name: "n".to_string(), updated_at: None };
    do_insert_singer(&mut singer_store, &singer).unwrap();

    let found = Service::over(counter, song_store.close(), singer_store.close(), false, false);
    let mut service = found.unwrap();
    assert_eq!(
        service.get_all_songs(),
        vec![
            Ok(expected_song(3, 30, None)),
            Err(Error::DecodeCorruption),
            Ok(expected_song(7, 70, Some(ALICE.to_vec()))),
        ]
    );
    assert_eq!(service.get_song(5), Err(Error::DecodeCorruption));
    assert_eq!(service.update_song(5, payload(), ALICE, 9), Err(Error::DecodeCorruption));
    assert_eq!(service.delete_song(5, ALICE), Err(Error::DecodeCorruption));
    assert_eq!(service.get_all_singers(), vec![Ok(singer)]);
    assert_eq!(service.delete_song(7, BOB), Ok(expected_song(7, 70, Some(ALICE.to_vec()))));
    assert_eq!(service.upload_song(payload(), ALICE, 1).unwrap().id, 8);
}

#[test]
fn ownership_is_held_against_what_is_found() {
    let (counter, songs, singers) = three_regions();
    let counter = counted(counter, 2);
    let mut song_store = OrderedStore::open(songs).unwrap();
    do_insert(&mut song_store, &expected_song(1, 1, None)).unwrap();
    do_insert(&mut song_store, &expected_song(2, 1, Some(ALICE.to_vec()))).unwrap();
    let mut service = Service::over(counter, song_store.close(), singers, true, false).unwrap();
    assert_eq!(service.delete_song(1, ALICE), Err(Error::Unauthorized));
    assert_eq!(service.delete_song(2, BOB), Err(Error::Unauthorized));
    assert_eq!(service.delete_song(2, ALICE), Ok(expected_song(2, 1, Some(ALICE.to_vec()))));
    assert_eq!(service.get_song(1), Ok(expected_song(1, 1, None)));
}

#[test]
fn regions_that_hold_something_are_in_use_for_an_installation() {
    let (counter, songs, singers) = three_regions();
    let counter = counted(counter, 0);
    assert!(matches!(Service::over(counter, songs, singers, false, true), Err(Error::RegionInUse)));

    let (counter, songs, singers) = three_regions();
    let songs = OrderedStore::open(songs).unwrap().close();
    assert!(matches!(Service::over(counter, songs, singers, false, true), Err(Error::RegionInUse)));

    let (counter, songs, singers) = three_regions();
    let singers = OrderedStore::open(singers).unwrap().close();
    assert!(matches!(Service::over(counter, songs, singers, false, true), Err(Error::RegionInUse)));

    let (counter, songs, singers) = three_regions();
    let singers = OrderedStore::open(singers).unwrap().close();
    assert!(Service::over(counter, songs, singers, false, false).is_ok());
}

#[test]
fn regions_that_hold_another_structure_are_corrupt() {
    let (counter, songs, singers) = three_regions();
    let songs = counted(songs, 1);
    assert!(matches!(
        Service::over(counter, songs, singers, false, false),
        Err(Error::DecodeCorruption)
    ));

    let (counter, songs, singers) = three_regions();
    let counter = OrderedStore::open(counter).unwrap().close();
    assert!(matches!(
        Service::over(counter, songs, singers, false, false),
        Err(Error::DecodeCorruption)
    ));

    let (counter, songs, singers) = three_regions();
    let singers = counted(singers, 1);
    assert!(matches!(
        Service::over(counter, songs, singers, false, false),
        Err(Error::DecodeCorruption)
    ));
}

#[test]
fn key_beyond_the_counter_is_corrupt() {
    let (counter, songs, singers) = three_regions();
    let counter = counted(counter, 4);
    let mut song_store = OrderedStore::open(songs).unwrap();
    do_insert(&mut song_store, &expected_song(5, 1, None)).unwrap();
    assert!(matches!(
        Service::over(counter, song_store.close(), singers, false, false),
        Err(Error::DecodeCorruption)
    ));

    let (counter, songs, singers) = three_regions();
    let counter = counted(counter, 4);
    let mut singer_store = OrderedStore::open(singers).unwrap();
    singer_store.insert(u64::MAX, &vec![0]).unwrap();
    assert!(matches!(
        Service::over(counter, songs, singer_store.close(), false, false),
        Err(Error::DecodeCorruption)
    ));

    let (counter, songs, singers) = three_regions();
    let mut song_store = OrderedStore::open(songs).unwrap();
    do_insert(&mut song_store, &expected_song(1, 1, None)).unwrap();
    assert!(matches!(
        Service::over(counter, song_store.close(), singers, false, false),
        Err(Error::DecodeCorruption)
    ));

    let (counter, songs, singers) = three_regions();
    let counter = counted(counter, 5);
    let mut song_store = OrderedStore::open(songs).unwrap();
    do_insert(&mut song_store, &expected_song(5, 1, None)).unwrap();
    let mut service =
        Service::over(counter, song_store.close(), singers, false, false).unwrap();
    assert_eq!(service.upload_song(payload(), ALICE, 2).unwrap().id, 6);
    assert_eq!(service.get_song(5), Ok(expected_song(5, 1, None)));
}

#[test]
fn key_zero_is_within_a_new_counter() {
    let (counter, songs, singers) = three_regions();
    let mut song_store = OrderedStore::open(songs).unwrap();
    do_insert(&mut song_store, &expected_song(0, 1, None)).unwrap();
    let mut service =
        Service::over(counter, song_store.close(), singers, false, false).unwrap();
    assert_eq!(service.get_song(0), Ok(expected_song(0, 1, None)));
    assert_eq!(service.upload_song(payload(), ALICE, 2).unwrap().id, 1);
}
