//! What holds of the service whatever the requests: laws over the functions
//! that say what each operation does.

use vstd::prelude::*;
use crate::codec::{
    lemma_singer_round_trip, lemma_song_round_trip, singer_bytes, song_bytes, MAX_SIZE,
};
use crate::service::{
    add_singer_spec, blank, created, delete_song_spec, first_owner, fresh, keys_issued, no_change,
    patch_song_spec,
    patched, replaced, update_singer_spec, update_song_spec, upload_song_spec, ServiceView,
};
use crate::store::{stored_singer, stored_song};
use crate::types::{Error, SingerView, SongPayloadView, SongUpdateView, SongView};
use crate::utils::{first_invalid_change, first_invalid_field};

verus! {

/// Whether two states keep their structures in the same regions and agree
/// on whether songs have owners.
pub open spec fn same_layout(a: ServiceView, b: ServiceView) -> bool {
    &&& a.counter_region == b.counter_region
    &&& a.song_region == b.song_region
    &&& a.singer_region == b.singer_region
    &&& a.ownership == b.ownership
    &&& a.laid_out() == b.laid_out()
}

/// What is read under `k` is no song or a valid one.
pub open spec fn valid_under(m: Map<u64, Seq<u8>>, k: u64) -> bool {
    stored_song(m, k) matches Ok(v) ==> v.valid()
}

/// Every song that can be read is valid: its texts are non-empty and its
/// duration is positive.
pub open spec fn songs_valid(s: ServiceView) -> bool {
    forall|k: u64| #[trigger] valid_under(s.songs, k)
}

/// Validation accepts a payload exactly when every text is non-empty and
/// the duration is positive.
pub proof fn lemma_payload_accepted_iff_valid(p: SongPayloadView)
    ensures
        first_invalid_field(p) is None <==> p.valid(),
{
}

/// Validation accepts a change exactly when every text that is present is
/// non-empty and the duration, if present, is positive.
pub proof fn lemma_change_accepted_iff_valid(u: SongUpdateView)
    ensures
        first_invalid_change(u) is None <==> u.valid(),
{
}

/// A song that was created is read back as it was returned, under its id.
pub proof fn lemma_created_song_is_read_back(
    s: ServiceView,
    p: SongPayloadView,
    caller: Seq<u8>,
    now: u64,
)
    requires
        upload_song_spec(s, p, caller, now).1 is Ok,
    ensures
        ({
            let (after, answer) = upload_song_spec(s, p, caller, now);
            stored_song(after.songs, answer->Ok_0.id) == answer
        }),
{
    let (after, answer) = upload_song_spec(s, p, caller, now);
    lemma_song_round_trip(answer->Ok_0);
}

/// A song that was replaced or changed is read back as it was returned.
pub proof fn lemma_updated_song_is_read_back(
    s: ServiceView,
    id: u64,
    p: SongPayloadView,
    u: SongUpdateView,
    caller: Seq<u8>,
    now: u64,
)
    ensures
        update_song_spec(s, id, p, caller, now).1 is Ok ==> stored_song(
            update_song_spec(s, id, p, caller, now).0.songs,
            id,
        ) == update_song_spec(s, id, p, caller, now).1,
        patch_song_spec(s, id, u, caller, now).1 is Ok ==> stored_song(
            patch_song_spec(s, id, u, caller, now).0.songs,
            id,
        ) == patch_song_spec(s, id, u, caller, now).1,
{
    if update_song_spec(s, id, p, caller, now).1 is Ok {
        lemma_song_round_trip(replaced(stored_song(s.songs, id)->Ok_0, p, now));
    }
    if patch_song_spec(s, id, u, caller, now).1 is Ok {
        lemma_song_round_trip(patched(stored_song(s.songs, id)->Ok_0, u, now));
    }
}

/// A singer that was created or renamed is read back as it was returned.
pub proof fn lemma_singer_is_read_back(s: ServiceView, id: u64, name: Seq<char>, now: u64)
    ensures
        add_singer_spec(s, name, now).1 matches Ok(singer) ==> stored_singer(
            add_singer_spec(s, name, now).0.singers,
            singer.id,
        ) == Ok::<SingerView, Error>(singer),
        update_singer_spec(s, id, name, now).1 matches Ok(singer) ==> stored_singer(
            update_singer_spec(s, id, name, now).0.singers,
            id,
        ) == Ok::<SingerView, Error>(singer),
{
    if let Ok(singer) = add_singer_spec(s, name, now).1 {
        lemma_singer_round_trip(singer);
    }
    if let Ok(singer) = update_singer_spec(s, id, name, now).1 {
        lemma_singer_round_trip(singer);
    }
}

/// A record that is created gets the identifier that follows the counter,
/// and the counter moves to it.
pub proof fn lemma_created_id_follows_counter(
    s: ServiceView,
    p: SongPayloadView,
    caller: Seq<u8>,
    name: Seq<char>,
    now: u64,
)
    ensures
        upload_song_spec(s, p, caller, now).1 matches Ok(song) ==> song.id == s.counter + 1
            && upload_song_spec(s, p, caller, now).0.counter == song.id,
        add_singer_spec(s, name, now).1 matches Ok(singer) ==> singer.id == s.counter + 1
            && add_singer_spec(s, name, now).0.counter == singer.id,
{
}

/// No operation moves the counter back, and only creating a record moves it
/// at all.
pub proof fn lemma_counter_never_falls(
    s: ServiceView,
    id: u64,
    p: SongPayloadView,
    u: SongUpdateView,
    caller: Seq<u8>,
    name: Seq<char>,
    now: u64,
)
    ensures
        upload_song_spec(s, p, caller, now).0.counter >= s.counter,
        add_singer_spec(s, name, now).0.counter >= s.counter,
        update_song_spec(s, id, p, caller, now).0.counter == s.counter,
        patch_song_spec(s, id, u, caller, now).0.counter == s.counter,
        delete_song_spec(s, id, caller).0.counter == s.counter,
        update_singer_spec(s, id, name, now).0.counter == s.counter,
{
}

/// Identifiers grow strictly: a song created in any state that the service
/// reaches after another was created, that is a state whose counter has not
/// moved back, has the greater id. So no id is handed out twice.
pub proof fn lemma_ids_strictly_increase(
    s1: ServiceView,
    first: SongPayloadView,
    caller1: Seq<u8>,
    now1: u64,
    s2: ServiceView,
    second: SongPayloadView,
    caller2: Seq<u8>,
    now2: u64,
)
    requires
        upload_song_spec(s1, first, caller1, now1).1 is Ok,
        upload_song_spec(s2, second, caller2, now2).1 is Ok,
        s2.counter >= upload_song_spec(s1, first, caller1, now1).0.counter,
    ensures
        upload_song_spec(s2, second, caller2, now2).1->Ok_0.id > upload_song_spec(
            s1,
            first,
            caller1,
            now1,
        ).1->Ok_0.id,
{
}

/// Where every stored key was handed out, a record that is created takes
/// the place of no other, and every stored key was handed out afterwards
/// too, whatever the operation.
pub proof fn lemma_keys_stay_issued(
    s: ServiceView,
    id: u64,
    p: SongPayloadView,
    u: SongUpdateView,
    caller: Seq<u8>,
    name: Seq<char>,
    now: u64,
)
    requires
        keys_issued(s),
    ensures
        upload_song_spec(s, p, caller, now).1 matches Ok(song) ==> !s.songs.contains_key(song.id),
        add_singer_spec(s, name, now).1 matches Ok(singer) ==> !s.singers.contains_key(
            singer.id,
        ),
        keys_issued(upload_song_spec(s, p, caller, now).0),
        keys_issued(add_singer_spec(s, name, now).0),
        keys_issued(update_song_spec(s, id, p, caller, now).0),
        keys_issued(patch_song_spec(s, id, u, caller, now).0),
        keys_issued(delete_song_spec(s, id, caller).0),
        keys_issued(update_singer_spec(s, id, name, now).0),
{
}

/// Deleting a song twice gives the song once, then `NotFound`, and the
/// second attempt changes nothing.
pub proof fn lemma_delete_twice(s: ServiceView, id: u64, caller: Seq<u8>)
    requires
        delete_song_spec(s, id, caller).1 is Ok,
    ensures
        delete_song_spec(delete_song_spec(s, id, caller).0, id, caller) == (
            delete_song_spec(s, id, caller).0,
            Err::<SongView, Error>(Error::NotFound),
        ),
        stored_song(delete_song_spec(s, id, caller).0.songs, id) == Err::<SongView, Error>(
            Error::NotFound,
        ),
{
}

/// A payload with an empty text or a duration of zero is rejected with
/// `ValidationFailure`, by creating and by replacing, and the state stays
/// as it was: every song is read as before.
pub proof fn lemma_invalid_payload_rejected(
    s: ServiceView,
    id: u64,
    p: SongPayloadView,
    caller: Seq<u8>,
    now: u64,
)
    requires
        !p.valid(),
    ensures
        first_invalid_field(p) is Some,
        upload_song_spec(s, p, caller, now) == (
            s,
            Err::<SongView, Error>(
                Error::ValidationFailure { field: first_invalid_field(p)->Some_0 },
            ),
        ),
        update_song_spec(s, id, p, caller, now) == (
            s,
            Err::<SongView, Error>(
                Error::ValidationFailure { field: first_invalid_field(p)->Some_0 },
            ),
        ),
{
}

/// A change that holds an empty text or a duration of zero is rejected with
/// `ValidationFailure`, and the state stays as it was.
pub proof fn lemma_invalid_change_rejected(
    s: ServiceView,
    id: u64,
    u: SongUpdateView,
    caller: Seq<u8>,
    now: u64,
)
    requires
        !u.valid(),
    ensures
        first_invalid_change(u) is Some,
        patch_song_spec(s, id, u, caller, now) == (
            s,
            Err::<SongView, Error>(
                Error::ValidationFailure { field: first_invalid_change(u)->Some_0 },
            ),
        ),
{
}

/// A singer's payload with an empty name is rejected with
/// `ValidationFailure`, and the state stays as it was.
pub proof fn lemma_invalid_name_rejected(s: ServiceView, id: u64, name: Seq<char>, now: u64)
    requires
        name.len() == 0,
    ensures
        add_singer_spec(s, name, now).0 == s,
        add_singer_spec(s, name, now).1 is Err,
        update_singer_spec(s, id, name, now).0 == s,
        update_singer_spec(s, id, name, now).1 is Err,
{
}

/// Where songs have owners, a caller that is not the owner of a stored song
/// can neither replace nor change nor delete it: a valid request is
/// answered `Unauthorized`, and the state stays as it was.
pub proof fn lemma_stranger_refused(
    s: ServiceView,
    id: u64,
    p: SongPayloadView,
    u: SongUpdateView,
    caller: Seq<u8>,
    now: u64,
)
    requires
        s.ownership,
        stored_song(s.songs, id) matches Ok(song) && song.owner != Some(caller),
    ensures
        p.valid() ==> update_song_spec(s, id, p, caller, now) == (
            s,
            Err::<SongView, Error>(Error::Unauthorized),
        ),
        u.valid() ==> patch_song_spec(s, id, u, caller, now) == (
            s,
            Err::<SongView, Error>(Error::Unauthorized),
        ),
        delete_song_spec(s, id, caller) == (s, Err::<SongView, Error>(Error::Unauthorized)),
{
}

/// An operation that fails leaves the state as it was.
pub proof fn lemma_failure_changes_nothing(
    s: ServiceView,
    id: u64,
    p: SongPayloadView,
    u: SongUpdateView,
    caller: Seq<u8>,
    name: Seq<char>,
    now: u64,
)
    ensures
        upload_song_spec(s, p, caller, now).1 is Err ==> upload_song_spec(s, p, caller, now).0
            == s,
        update_song_spec(s, id, p, caller, now).1 is Err ==> update_song_spec(
            s,
            id,
            p,
            caller,
            now,
        ).0 == s,
        patch_song_spec(s, id, u, caller, now).1 is Err ==> patch_song_spec(
            s,
            id,
            u,
            caller,
            now,
        ).0 == s,
        delete_song_spec(s, id, caller).1 is Err ==> delete_song_spec(s, id, caller).0 == s,
        add_singer_spec(s, name, now).1 is Err ==> add_singer_spec(s, name, now).0 == s,
        update_singer_spec(s, id, name, now).1 is Err ==> update_singer_spec(s, id, name, now).0
            == s,
{
}

/// An owner is set when a song is created and stays: where songs have
/// owners, a new song belongs to the caller, and neither replacing nor
/// changing a song gives it another owner or another id.
pub proof fn lemma_owner_is_kept(
    s: ServiceView,
    id: u64,
    p: SongPayloadView,
    u: SongUpdateView,
    caller: Seq<u8>,
    now: u64,
)
    ensures
        upload_song_spec(s, p, caller, now).1 matches Ok(song) ==> song.owner == if s.ownership {
            Some(caller)
        } else {
            None::<Seq<u8>>
        },
        update_song_spec(s, id, p, caller, now).1 matches Ok(song) ==> song.id == id && song.owner
            == stored_song(s.songs, id)->Ok_0.owner,
        patch_song_spec(s, id, u, caller, now).1 matches Ok(song) ==> song.id == id && song.owner
            == stored_song(s.songs, id)->Ok_0.owner,
{
}

/// Storing a valid song that fits keeps every readable song valid.
pub proof fn lemma_put_keeps_valid(m: Map<u64, Seq<u8>>, id: u64, song: SongView)
    requires
        forall|k: u64| #[trigger] valid_under(m, k),
        song.valid(),
        song_bytes(song).len() <= MAX_SIZE,
    ensures
        forall|k: u64| #[trigger] valid_under(m.insert(id, song_bytes(song)), k),
{
    lemma_song_round_trip(song);
    let after = m.insert(id, song_bytes(song));
    assert forall|k: u64| #[trigger] valid_under(after, k) by {
        if k != id {
            assert(valid_under(m, k));
        }
    }
}

/// Taking a song out keeps every readable song valid.
pub proof fn lemma_remove_keeps_valid(m: Map<u64, Seq<u8>>, id: u64)
    requires
        forall|k: u64| #[trigger] valid_under(m, k),
    ensures
        forall|k: u64| #[trigger] valid_under(m.remove(id), k),
{
    let after = m.remove(id);
    assert forall|k: u64| #[trigger] valid_under(after, k) by {
        if k != id {
            assert(valid_under(m, k));
        }
    }
}

/// Where every song that can be read is valid, that is so after every
/// operation: no song that is partly valid is ever stored.
pub proof fn lemma_songs_stay_valid(
    s: ServiceView,
    id: u64,
    p: SongPayloadView,
    u: SongUpdateView,
    caller: Seq<u8>,
    now: u64,
)
    requires
        songs_valid(s),
    ensures
        songs_valid(upload_song_spec(s, p, caller, now).0),
        songs_valid(update_song_spec(s, id, p, caller, now).0),
        songs_valid(patch_song_spec(s, id, u, caller, now).0),
        songs_valid(delete_song_spec(s, id, caller).0),
{
    if let Ok(song) = upload_song_spec(s, p, caller, now).1 {
        lemma_put_keeps_valid(s.songs, song.id, song);
    }
    if let Ok(song) = update_song_spec(s, id, p, caller, now).1 {
        lemma_put_keeps_valid(s.songs, id, song);
    }
    if let Ok(song) = patch_song_spec(s, id, u, caller, now).1 {
        assert(valid_under(s.songs, id));
        lemma_put_keeps_valid(s.songs, id, song);
    }
    if delete_song_spec(s, id, caller).1 is Ok {
        lemma_remove_keeps_valid(s.songs, id);
    }
}

/// An operation on one song leaves every other song as it was.
pub proof fn lemma_other_songs_untouched(
    s: ServiceView,
    id: u64,
    other: u64,
    p: SongPayloadView,
    u: SongUpdateView,
    caller: Seq<u8>,
    now: u64,
)
    requires
        other != id,
    ensures
        stored_song(update_song_spec(s, id, p, caller, now).0.songs, other) == stored_song(
            s.songs,
            other,
        ),
        stored_song(patch_song_spec(s, id, u, caller, now).0.songs, other) == stored_song(
            s.songs,
            other,
        ),
        stored_song(delete_song_spec(s, id, caller).0.songs, other) == stored_song(
            s.songs,
            other,
        ),
{
}

/// No operation moves a structure to another region or changes whether
/// songs have owners: a service that is laid out as `Service::open` lays it
/// out stays so.
pub proof fn lemma_layout_is_kept(
    s: ServiceView,
    id: u64,
    p: SongPayloadView,
    u: SongUpdateView,
    caller: Seq<u8>,
    name: Seq<char>,
    now: u64,
)
    ensures
        same_layout(s, upload_song_spec(s, p, caller, now).0),
        same_layout(s, update_song_spec(s, id, p, caller, now).0),
        same_layout(s, patch_song_spec(s, id, u, caller, now).0),
        same_layout(s, delete_song_spec(s, id, caller).0),
        same_layout(s, add_singer_spec(s, name, now).0),
        same_layout(s, update_singer_spec(s, id, name, now).0),
{
}

/// A request that changes the state of a service, or a restart.
pub ghost enum Request {
    Upload { payload: SongPayloadView, caller: Seq<u8>, now: u64 },
    Update { id: u64, payload: SongPayloadView, caller: Seq<u8>, now: u64 },
    Patch { id: u64, change: SongUpdateView, caller: Seq<u8>, now: u64 },
    Delete { id: u64, caller: Seq<u8> },
    AddSinger { name: Seq<char>, now: u64 },
    UpdateSinger { id: u64, name: Seq<char>, now: u64 },
    Restart,
}

/// The state that follows a request. A restart, like a read, leaves the
/// state as it is.
pub open spec fn step(s: ServiceView, q: Request) -> ServiceView {
    match q {
        Request::Upload { payload, caller, now } => upload_song_spec(s, payload, caller, now).0,
        Request::Update { id, payload, caller, now } => update_song_spec(
            s,
            id,
            payload,
            caller,
            now,
        ).0,
        Request::Patch { id, change, caller, now } => patch_song_spec(s, id, change, caller, now).0,
        Request::Delete { id, caller } => delete_song_spec(s, id, caller).0,
        Request::AddSinger { name, now } => add_singer_spec(s, name, now).0,
        Request::UpdateSinger { id, name, now } => update_singer_spec(s, id, name, now).0,
        Request::Restart => s,
    }
}

/// The state that follows a sequence of requests, one after the other.
pub open spec fn run(s: ServiceView, requests: Seq<Request>) -> ServiceView
    decreases requests.len(),
{
    if requests.len() == 0 {
        s
    } else {
        step(run(s, requests.drop_last()), requests.last())
    }
}

/// Whatever the requests, the counter does not move back, the layout
/// stays, and keys that were all handed out are all handed out afterwards.
pub proof fn lemma_run_keeps_order(s: ServiceView, requests: Seq<Request>)
    ensures
        run(s, requests).counter >= s.counter,
        same_layout(s, run(s, requests)),
        keys_issued(s) ==> keys_issued(run(s, requests)),
    decreases requests.len(),
{
    if requests.len() > 0 {
        lemma_run_keeps_order(s, requests.drop_last());
        let before = run(s, requests.drop_last());
        match requests.last() {
            Request::Upload { payload, caller, now } => {
                if keys_issued(before) {
                    lemma_keys_stay_issued(before, 0, payload, no_change(), caller, seq![], now);
                }
            },
            Request::Update { id, payload, caller, now } => {
                if keys_issued(before) {
                    lemma_keys_stay_issued(before, id, payload, no_change(), caller, seq![], now);
                }
            },
            Request::Patch { id, change, caller, now } => {
                if keys_issued(before) {
                    lemma_keys_stay_issued(before, id, blank(), change, caller, seq![], now);
                }
            },
            Request::Delete { id, caller } => {
                if keys_issued(before) {
                    lemma_keys_stay_issued(before, id, blank(), no_change(), caller, seq![], 0);
                }
            },
            Request::AddSinger { name, now } => {
                if keys_issued(before) {
                    lemma_keys_stay_issued(before, 0, blank(), no_change(), seq![], name, now);
                }
            },
            Request::UpdateSinger { id, name, now } => {
                if keys_issued(before) {
                    lemma_keys_stay_issued(before, id, blank(), no_change(), seq![], name, now);
                }
            },
            Request::Restart => {},
        }
    }
}

/// Identifiers grow strictly over any sequence of requests: where a song
/// was created, and any requests and restarts followed, a song or a singer
/// that is created then has a greater id. So no id is handed out twice,
/// and the id of a deleted record is not given to another.
pub proof fn lemma_ids_grow_over_any_requests(
    s: ServiceView,
    first: SongPayloadView,
    caller1: Seq<u8>,
    now1: u64,
    requests: Seq<Request>,
    second: SongPayloadView,
    caller2: Seq<u8>,
    name: Seq<char>,
    now2: u64,
)
    requires
        upload_song_spec(s, first, caller1, now1).1 is Ok,
    ensures
        ({
            let created = upload_song_spec(s, first, caller1, now1);
            let later = run(created.0, requests);
            &&& upload_song_spec(later, second, caller2, now2).1 matches Ok(song) ==> song.id
                > created.1->Ok_0.id
            &&& add_singer_spec(later, name, now2).1 matches Ok(singer) ==> singer.id
                > created.1->Ok_0.id
        }),
{
    lemma_run_keeps_order(upload_song_spec(s, first, caller1, now1).0, requests);
}

/// A valid payload that fits creates a song whenever the identifiers have
/// not run out, and the song is stored under an id that no record had:
/// creation does not fail for any other reason.
pub proof fn lemma_valid_create_succeeds(s: ServiceView, p: SongPayloadView, caller: Seq<u8>, now: u64)
    requires
        p.valid(),
        s.counter < u64::MAX,
        song_bytes(created((s.counter + 1) as u64, p, first_owner(s.ownership, caller), now)).len()
            <= MAX_SIZE,
    ensures
        upload_song_spec(s, p, caller, now).1 matches Ok(song) && song.id == s.counter + 1,
        keys_issued(s) ==> !s.songs.contains_key((s.counter + 1) as u64),
{
}

/// A singer with a name that fits is created whenever the identifiers
/// have not run out, under an id that no record had, and the songs stay as
/// they were.
pub proof fn lemma_valid_singer_create_succeeds(s: ServiceView, name: Seq<char>, now: u64)
    requires
        name.len() > 0,
        s.counter < u64::MAX,
        singer_bytes(SingerView { id: (s.counter + 1) as u64, name, updated_at: Some(now) }).len()
            <= MAX_SIZE,
    ensures
        add_singer_spec(s, name, now).1 matches Ok(singer) && singer.id == s.counter + 1,
        add_singer_spec(s, name, now).0.songs == s.songs,
        keys_issued(s) ==> !s.singers.contains_key((s.counter + 1) as u64)
            && !s.songs.contains_key((s.counter + 1) as u64),
{
}

/// An installed service is in order: it holds no key that was not handed
/// out and no song that is not valid. With `lemma_run_keeps_order` and
/// `lemma_songs_stay_valid`, that is so after any requests.
pub proof fn lemma_fresh_is_in_order(ownership: bool)
    ensures
        keys_issued(fresh(ownership)),
        songs_valid(fresh(ownership)),
        fresh(ownership).laid_out(),
        stored_song(fresh(ownership).songs, 1) == Err::<SongView, Error>(Error::NotFound),
{
}

/// The first song that is created on an installed service has the id 1 and
/// the payload's fields, is owned as the service says, and is read back.
pub proof fn lemma_first_song(ownership: bool, p: SongPayloadView, caller: Seq<u8>, now: u64)
    requires
        p.valid(),
        song_bytes(created(1, p, first_owner(ownership, caller), now)).len() <= MAX_SIZE,
    ensures
        ({
            let (after, answer) = upload_song_spec(fresh(ownership), p, caller, now);
            &&& answer == Ok::<SongView, Error>(created(1, p, first_owner(ownership, caller), now))
            &&& stored_song(after.songs, 1) == answer
            &&& after.counter == 1
        }),
{
    lemma_song_round_trip(created(1, p, first_owner(ownership, caller), now));
}

} // verus!
