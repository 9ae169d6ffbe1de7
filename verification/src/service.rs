//! The record service: creating, reading, changing and deleting songs and
//! singers.
//!
//! A service owns its memory, its counter and its two stores: it makes them
//! when it is installed or opened, and nothing else reaches them. What each
//! operation does is a function of the service's state, the request, the
//! caller and the time: the functions `upload_song_spec`,
//! `update_song_spec`, `patch_song_spec` and the others below give the state
//! that follows and the answer. A request is validated first, then the
//! record is looked up, then the caller is held against the record's owner.
//! An operation that fails leaves the state as it was.

use vstd::prelude::*;
use vstd::slice::slice_to_vec;
use crate::codec::{singer_bytes, song_bytes, MAX_SIZE};
use crate::counter::{following, held_counter, next_id, takes_counter, Counter, FIRST};
use crate::laws::lemma_keys_stay_issued;
use crate::memory::{region_bytes, region_id, same_bytes, Region, RegionManager};
use crate::store::{
    _get_singer, _get_song, do_insert, do_insert_singer, lists_singers, lists_songs,
    opened_contents, read_all_singers, read_all_songs, singer_result, song_result, stored_singer,
    stored_song, takes_map, OrderedStore,
};
use crate::types::{
    bytes_view, text_view, Error, Singer, SingerPayload, SingerView, Song, SongPayload,
    SongPayloadView, SongUpdate, SongUpdateView, SongView,
};
use crate::utils::{
    first_invalid_change, first_invalid_field, first_invalid_name, validate_singer_payload,
    validate_song_payload, validate_song_update,
};

verus! {

/// The region that holds the counter.
pub const COUNTER_REGION: u8 = 0;

/// The region that holds the songs.
pub const SONG_REGION: u8 = 1;

/// The region that holds the singers.
pub const SINGER_REGION: u8 = 2;

/// The record service over one memory: the counter, the store of the songs
/// and the store of the singers, each in its region, and whether songs have
/// owners.
pub struct Service {
    counter: Counter,
    songs: OrderedStore,
    singers: OrderedStore,
    ownership: bool,
}

/// The state of a service.
pub ghost struct ServiceView {
    /// The last identifier handed out.
    pub counter: u64,
    /// The bytes of each stored song, by key.
    pub songs: Map<u64, Seq<u8>>,
    /// The bytes of each stored singer, by key.
    pub singers: Map<u64, Seq<u8>>,
    /// Whether a song belongs to the caller that created it.
    pub ownership: bool,
    /// The region that the counter is kept in.
    pub counter_region: u8,
    /// The region that the songs are kept in.
    pub song_region: u8,
    /// The region that the singers are kept in.
    pub singer_region: u8,
}

impl ServiceView {
    /// The layout in which `Service::open` keeps a service: the counter in
    /// `COUNTER_REGION`, the songs in `SONG_REGION`, the singers in
    /// `SINGER_REGION`.
    pub open spec fn laid_out(self) -> bool {
        &&& self.counter_region == COUNTER_REGION
        &&& self.song_region == SONG_REGION
        &&& self.singer_region == SINGER_REGION
    }
}

impl View for Service {
    type V = ServiceView;

    closed spec fn view(&self) -> ServiceView {
        ServiceView {
            counter: self.counter.value(),
            songs: self.songs.contents(),
            singers: self.singers.contents(),
            ownership: self.ownership,
            counter_region: self.counter.region(),
            song_region: self.songs.region(),
            singer_region: self.singers.region(),
        }
    }
}

/// The state of a service that was installed on an empty memory: the
/// counter at 0 and no records, in the layout of `laid_out`.
pub open spec fn fresh(ownership: bool) -> ServiceView {
    ServiceView {
        counter: 0,
        songs: Map::empty(),
        singers: Map::empty(),
        ownership,
        counter_region: COUNTER_REGION,
        song_region: SONG_REGION,
        singer_region: SINGER_REGION,
    }
}

/// Every key of a stored record is an identifier that was handed out: none
/// is beyond the counter. A service is always so, and so a record that is
/// created never takes the place of another.
pub open spec fn keys_issued(s: ServiceView) -> bool {
    &&& forall|k: u64| #[trigger] s.songs.contains_key(k) ==> k <= s.counter
    &&& forall|k: u64| #[trigger] s.singers.contains_key(k) ==> k <= s.counter
}

/// The number of the counter that is opened on a region: `FIRST` on an
/// empty region, and else the number that the region holds.
pub open spec fn found_counter(region: Region) -> u64 {
    if region_bytes(region).len() == 0 {
        FIRST
    } else {
        held_counter(region_bytes(region))
    }
}

/// The state of the service that is opened on three regions.
pub open spec fn found_state(counter: Region, songs: Region, singers: Region, ownership: bool) -> ServiceView {
    ServiceView {
        counter: found_counter(counter),
        songs: opened_contents(songs),
        singers: opened_contents(singers),
        ownership,
        counter_region: region_id(counter),
        song_region: region_id(songs),
        singer_region: region_id(singers),
    }
}

/// Why no service is opened on three regions, if there is a reason in what
/// they hold. With `fresh_only`, a region that holds anything is in use.
/// A region that holds something else than the structure that belongs
/// there is corrupt, and so is a store with a key beyond the counter.
pub open spec fn refusal(counter: Region, songs: Region, singers: Region, fresh_only: bool) -> Option<Error> {
    if fresh_only && !(region_bytes(counter).len() == 0 && region_bytes(songs).len() == 0
        && region_bytes(singers).len() == 0) {
        Some(Error::RegionInUse)
    } else if !(takes_counter(region_bytes(counter)) && takes_map(region_bytes(songs))
        && takes_map(region_bytes(singers))) {
        Some(Error::DecodeCorruption)
    } else if !keys_issued(found_state(counter, songs, singers, true)) {
        Some(Error::DecodeCorruption)
    } else {
        None
    }
}

/// The owner that a new song gets.
pub open spec fn first_owner(ownership: bool, caller: Seq<u8>) -> Option<Seq<u8>> {
    if ownership {
        Some(caller)
    } else {
        None
    }
}

/// Whether `caller` may change or delete the song.
pub open spec fn may_change(ownership: bool, song: SongView, caller: Seq<u8>) -> bool {
    ownership ==> song.owner == Some(caller)
}

/// The song that a payload creates.
pub open spec fn created(id: u64, p: SongPayloadView, owner: Option<Seq<u8>>, now: u64) -> SongView {
    SongView {
        id,
        file_name: p.file_name,
        mime_type: p.mime_type,
        title: p.title,
        singer: p.singer,
        genre: p.genre,
        duration: p.duration,
        release_date: p.release_date,
        updated_at: Some(now),
        owner,
    }
}

/// The song that a payload makes of `before`: id and owner stay.
pub open spec fn replaced(before: SongView, p: SongPayloadView, now: u64) -> SongView {
    created(before.id, p, before.owner, now)
}

/// The text that a change leaves in a field.
pub open spec fn changed_text(change: Option<Seq<char>>, before: Seq<char>) -> Seq<char> {
    match change {
        Some(s) => s,
        None => before,
    }
}

/// The song that a change makes of `before`: id and owner stay, and so does
/// every field that the change does not hold.
pub open spec fn patched(before: SongView, u: SongUpdateView, now: u64) -> SongView {
    SongView {
        id: before.id,
        file_name: changed_text(u.file_name, before.file_name),
        mime_type: changed_text(u.mime_type, before.mime_type),
        title: changed_text(u.title, before.title),
        singer: changed_text(u.singer, before.singer),
        genre: changed_text(u.genre, before.genre),
        duration: match u.duration {
            Some(d) => d,
            None => before.duration,
        },
        release_date: changed_text(u.release_date, before.release_date),
        updated_at: Some(now),
        owner: before.owner,
    }
}

/// The payload that holds nothing.
pub open spec fn blank() -> SongPayloadView {
    SongPayloadView {
        file_name: seq![],
        mime_type: seq![],
        title: seq![],
        singer: seq![],
        genre: seq![],
        duration: 0,
        release_date: seq![],
    }
}

/// The change that holds nothing.
pub open spec fn no_change() -> SongUpdateView {
    SongUpdateView {
        file_name: None,
        mime_type: None,
        title: None,
        singer: None,
        genre: None,
        duration: None,
        release_date: None,
    }
}

/// Creating a song. The payload is validated; the next identifier must
/// exist; the song must fit in a store entry. Then the counter moves to the
/// song's id and the song is stored under it.
pub open spec fn upload_song_spec(s: ServiceView, p: SongPayloadView, caller: Seq<u8>, now: u64) -> (
    ServiceView,
    Result<SongView, Error>,
) {
    match first_invalid_field(p) {
        Some(field) => (s, Err(Error::ValidationFailure { field })),
        None => match next_id(s.counter) {
            None => (s, Err(Error::CounterExhausted)),
            Some(id) => {
                let song = created(id, p, first_owner(s.ownership, caller), now);
                if song_bytes(song).len() > MAX_SIZE {
                    (s, Err(Error::RecordTooLarge))
                } else {
                    (
                        ServiceView {
                            counter: id,
                            songs: s.songs.insert(id, song_bytes(song)),
                            ..s
                        },
                        Ok(song),
                    )
                }
            },
        },
    }
}

/// Storing `song` in place of the one under `id`, where the caller may and
/// the song fits.
pub open spec fn put_song_spec(s: ServiceView, id: u64, before: SongView, song: SongView, caller: Seq<u8>) -> (
    ServiceView,
    Result<SongView, Error>,
) {
    if !may_change(s.ownership, before, caller) {
        (s, Err(Error::Unauthorized))
    } else if song_bytes(song).len() > MAX_SIZE {
        (s, Err(Error::RecordTooLarge))
    } else {
        (ServiceView { songs: s.songs.insert(id, song_bytes(song)), ..s }, Ok(song))
    }
}

/// Replacing a song wholly.
pub open spec fn update_song_spec(
    s: ServiceView,
    id: u64,
    p: SongPayloadView,
    caller: Seq<u8>,
    now: u64,
) -> (ServiceView, Result<SongView, Error>) {
    match first_invalid_field(p) {
        Some(field) => (s, Err(Error::ValidationFailure { field })),
        None => match stored_song(s.songs, id) {
            Err(e) => (s, Err(e)),
            Ok(before) => put_song_spec(s, id, before, replaced(before, p, now), caller),
        },
    }
}

/// Changing some fields of a song.
pub open spec fn patch_song_spec(
    s: ServiceView,
    id: u64,
    u: SongUpdateView,
    caller: Seq<u8>,
    now: u64,
) -> (ServiceView, Result<SongView, Error>) {
    match first_invalid_change(u) {
        Some(field) => (s, Err(Error::ValidationFailure { field })),
        None => match stored_song(s.songs, id) {
            Err(e) => (s, Err(e)),
            Ok(before) => put_song_spec(s, id, before, patched(before, u, now), caller),
        },
    }
}

/// Deleting a song.
pub open spec fn delete_song_spec(s: ServiceView, id: u64, caller: Seq<u8>) -> (
    ServiceView,
    Result<SongView, Error>,
) {
    match stored_song(s.songs, id) {
        Err(e) => (s, Err(e)),
        Ok(before) => if may_change(s.ownership, before, caller) {
            (ServiceView { songs: s.songs.remove(id), ..s }, Ok(before))
        } else {
            (s, Err(Error::Unauthorized))
        },
    }
}

/// Creating a singer. The name is validated; the next identifier must
/// exist; the singer must fit in a store entry. Then the counter moves to
/// the singer's id and the singer is stored under it.
pub open spec fn add_singer_spec(s: ServiceView, name: Seq<char>, now: u64) -> (
    ServiceView,
    Result<SingerView, Error>,
) {
    match first_invalid_name(name) {
        Some(field) => (s, Err(Error::ValidationFailure { field })),
        None => match next_id(s.counter) {
            None => (s, Err(Error::CounterExhausted)),
            Some(id) => {
                let singer = SingerView { id, name, updated_at: Some(now) };
                if singer_bytes(singer).len() > MAX_SIZE {
                    (s, Err(Error::RecordTooLarge))
                } else {
                    (
                        ServiceView {
                            counter: id,
                            singers: s.singers.insert(id, singer_bytes(singer)),
                            ..s
                        },
                        Ok(singer),
                    )
                }
            },
        },
    }
}

/// Renaming a singer.
pub open spec fn update_singer_spec(s: ServiceView, id: u64, name: Seq<char>, now: u64) -> (
    ServiceView,
    Result<SingerView, Error>,
) {
    match first_invalid_name(name) {
        Some(field) => (s, Err(Error::ValidationFailure { field })),
        None => match stored_singer(s.singers, id) {
            Err(e) => (s, Err(e)),
            Ok(before) => {
                let singer = SingerView { id: before.id, name, updated_at: Some(now) };
                if singer_bytes(singer).len() > MAX_SIZE {
                    (s, Err(Error::RecordTooLarge))
                } else {
                    (
                        ServiceView { singers: s.singers.insert(id, singer_bytes(singer)), ..s },
                        Ok(singer),
                    )
                }
            },
        },
    }
}

/// Whether `owner` is there and is `caller`.
pub fn owned_by(owner: &Option<Vec<u8>>, caller: &[u8]) -> (r: bool)
    ensures
        r == (bytes_view(*owner) == Some(caller@)),
{
    match owner {
        None => false,
        Some(bytes) => same_bytes(bytes.as_slice(), caller),
    }
}

/// The text that a change leaves in a field.
fn change_text(change: Option<String>, before: String) -> (r: String)
    ensures
        r@ == changed_text(text_view(change), before@),
{
    match change {
        Some(s) => s,
        None => before,
    }
}

/// The change that holds nothing.
fn unchanged() -> (r: SongUpdate)
    ensures
        r@ == no_change(),
{
    SongUpdate {
        file_name: None,
        mime_type: None,
        title: None,
        singer: None,
        genre: None,
        duration: None,
        release_date: None,
    }
}

impl Service {
    /// Opens the service on three regions: the counter on the first, the
    /// songs on the second, the singers on the third. `refusal` says which
    /// regions are refused, before anything is written to them. On regions
    /// that are not refused the service is opened, in the state
    /// `found_state`; only where the counter's region is empty may the
    /// memory refuse the new counter its first page, which is `StoreFull`.
    pub fn over(counter: Region, songs: Region, singers: Region, ownership: bool, fresh_only: bool)
        -> (r: Result<Service, Error>)
        ensures
            match r {
                Ok(service) => {
                    &&& refusal(counter, songs, singers, fresh_only) is None
                    &&& service@ == found_state(counter, songs, singers, ownership)
                    &&& keys_issued(service@)
                },
                Err(e) => match refusal(counter, songs, singers, fresh_only) {
                    Some(reason) => e == reason,
                    None => e == Error::StoreFull && region_bytes(counter).len() == 0,
                },
            },
    {
        let new_counter = counter.is_empty();
        if fresh_only && !(new_counter && songs.is_empty() && singers.is_empty()) {
            return Err(Error::RegionInUse);
        }
        if !(Counter::fits(&counter) && OrderedStore::fits(&songs) && OrderedStore::fits(&singers)) {
            return Err(Error::DecodeCorruption);
        }
        let ghost found = found_state(counter, songs, singers, true);
        let song_store = match OrderedStore::open(songs) {
            Ok(store) => store,
            Err(e) => { return Err(e); },
        };
        let singer_store = match OrderedStore::open(singers) {
            Ok(store) => store,
            Err(e) => { return Err(e); },
        };
        assert(song_store.contents() == found.songs && singer_store.contents() == found.singers);
        if new_counter {
            let in_order = song_store.keys_within(FIRST) && singer_store.keys_within(FIRST);
            assert(in_order == keys_issued(found));
            if !in_order {
                return Err(Error::DecodeCorruption);
            }
        }
        let cell = match Counter::open(counter) {
            Ok(cell) => cell,
            Err(e) => { return Err(e); },
        };
        let limit = cell.current();
        assert(limit == found.counter);
        let in_order = song_store.keys_within(limit) && singer_store.keys_within(limit);
        assert(in_order == keys_issued(found));
        if !in_order {
            return Err(Error::DecodeCorruption);
        }
        Ok(Service { counter: cell, songs: song_store, singers: singer_store, ownership })
    }

    /// Makes the memory, divides it, and opens the service on the regions
    /// `COUNTER_REGION`, `SONG_REGION` and `SINGER_REGION`, as `over` does.
    fn start(ownership: bool, fresh_only: bool) -> (r: Result<Service, Error>)
        ensures
            match r {
                Ok(service) => {
                    &&& service@.ownership == ownership
                    &&& service@.laid_out()
                    &&& keys_issued(service@)
                    &&& fresh_only ==> service@ == fresh(ownership)
                },
                Err(e) => {
                    &&& e == Error::DecodeCorruption || e == Error::StoreFull || e
                        == Error::RegionInUse
                    &&& e == Error::RegionInUse ==> fresh_only
                },
            },
    {
        let mut manager = match RegionManager::open() {
            Ok(manager) => manager,
            Err(e) => { return Err(e); },
        };
        let counter = match manager.open_region(COUNTER_REGION) {
            Ok(region) => region,
            Err(e) => { return Err(e); },
        };
        let songs = match manager.open_region(SONG_REGION) {
            Ok(region) => region,
            Err(e) => { return Err(e); },
        };
        let singers = match manager.open_region(SINGER_REGION) {
            Ok(region) => region,
            Err(e) => { return Err(e); },
        };
        Service::over(counter, songs, singers, ownership, fresh_only)
    }

    /// Installs the service on a memory that it makes, which must hold
    /// nothing yet: the counter in region `COUNTER_REGION`, at `FIRST`, and
    /// the songs in `SONG_REGION` and the singers in `SINGER_REGION`, both
    /// without records. What the memory holds decides, as `over` and
    /// `RegionManager::over` say: a memory that holds something in one of
    /// these regions is refused with `RegionInUse`, one that holds anything
    /// but a division into regions with `DecodeCorruption`; `StoreFull`
    /// says that the memory could not give the counter its first page.
    pub fn install(ownership: bool) -> (r: Result<Service, Error>)
        ensures
            match r {
                Ok(service) => service@ == fresh(ownership),
                Err(e) => e == Error::DecodeCorruption || e == Error::StoreFull || e
                    == Error::RegionInUse,
            },
    {
        Service::start(ownership, true)
    }

    /// Opens the service on a memory that it makes: the counter in region
    /// `COUNTER_REGION`, the songs in `SONG_REGION`, the singers in
    /// `SINGER_REGION`. What the memory held is found again, as `over` and
    /// `RegionManager::over` say; a memory that held nothing gives the
    /// service that `install` gives. A region that holds something else
    /// than the structure that belongs there, or a key beyond the counter,
    /// is refused with `DecodeCorruption`; `StoreFull` says that the memory
    /// could not give a new counter its first page.
    pub fn open(ownership: bool) -> (r: Result<Service, Error>)
        ensures
            match r {
                Ok(service) => {
                    &&& service@.ownership == ownership
                    &&& service@.laid_out()
                    &&& keys_issued(service@)
                },
                Err(e) => e == Error::DecodeCorruption || e == Error::StoreFull,
            },
    {
        Service::start(ownership, false)
    }

    /// Reads the counter and the stores again from the bytes that they
    /// wrote, as a restart does: the state is the same, the regions too.
    pub fn reload(self) -> (r: Result<Service, Error>)
        ensures
            r matches Ok(service) && service@ == self@,
    {
        let Service { counter, songs, singers, ownership } = self;
        let counter = match counter.reload() {
            Ok(counter) => counter,
            Err(_) => unreached(),
        };
        let songs = songs.reload();
        let singers = singers.reload();
        Ok(Service { counter, songs, singers, ownership })
    }

    /// Creates a song: `upload_song_spec` gives the state that follows and
    /// the answer.
    pub fn upload_song(&mut self, payload: SongPayload, caller: &[u8], now: u64) -> (r: Result<
        Song,
        Error,
    >)
        ensures
            keys_issued(old(self)@) ==> keys_issued(final(self)@),
            r matches Ok(song) ==> keys_issued(old(self)@) ==> !old(self)@.songs.contains_key(
                song.id,
            ),
            (final(self)@, song_result(r)) == upload_song_spec(
                old(self)@,
                payload@,
                caller@,
                now,
            ),
    {
        proof {
            if keys_issued(self@) {
                lemma_keys_stay_issued(self@, 0, payload@, no_change(), caller@, seq![], now);
            }
        }
        match validate_song_payload(&payload) {
            Ok(_) => {},
            Err(e) => { return Err(e); },
        }
        let id = match following(self.counter.current()) {
            Ok(id) => id,
            Err(e) => { return Err(e); },
        };
        let owner = if self.ownership {
            Some(slice_to_vec(caller))
        } else {
            None
        };
        let song = Song {
            id,
            file_name: payload.file_name,
            mime_type: payload.mime_type,
            title: payload.title,
            singer: payload.singer,
            genre: payload.genre,
            duration: payload.duration,
            release_date: payload.release_date,
            updated_at: Some(now),
            owner,
        };
        let bytes = match song.to_bytes() {
            Ok(bytes) => bytes,
            Err(e) => { return Err(e); },
        };
        match self.counter.allocate() {
            Ok(_) => {},
            Err(e) => { return Err(e); },
        }
        match self.songs.insert(song.id, &bytes) {
            Ok(_) => Ok(song),
            Err(e) => Err(e),
        }
    }

    /// Replaces a song wholly: `update_song_spec` gives the state that
    /// follows and the answer.
    pub fn update_song(&mut self, id: u64, payload: SongPayload, caller: &[u8], now: u64) -> (r:
        Result<Song, Error>)
        ensures
            keys_issued(old(self)@) ==> keys_issued(final(self)@),
            (final(self)@, song_result(r)) == update_song_spec(
                old(self)@,
                id,
                payload@,
                caller@,
                now,
            ),
    {
        proof {
            if keys_issued(self@) {
                lemma_keys_stay_issued(self@, id, payload@, no_change(), caller@, seq![], now);
            }
        }
        match validate_song_payload(&payload) {
            Ok(_) => {},
            Err(e) => { return Err(e); },
        }
        let before = match _get_song(&self.songs, &id) {
            Ok(song) => song,
            Err(e) => { return Err(e); },
        };
        if self.ownership && !owned_by(&before.owner, caller) {
            return Err(Error::Unauthorized);
        }
        let song = Song {
            id: before.id,
            file_name: payload.file_name,
            mime_type: payload.mime_type,
            title: payload.title,
            singer: payload.singer,
            genre: payload.genre,
            duration: payload.duration,
            release_date: payload.release_date,
            updated_at: Some(now),
            owner: before.owner,
        };
        match do_insert(&mut self.songs, &song) {
            Ok(_) => Ok(song),
            Err(e) => Err(e),
        }
    }

    /// Changes the fields of a song that `change` holds: `patch_song_spec`
    /// gives the state that follows and the answer.
    pub fn patch_song(&mut self, id: u64, change: SongUpdate, caller: &[u8], now: u64) -> (r:
        Result<Song, Error>)
        ensures
            keys_issued(old(self)@) ==> keys_issued(final(self)@),
            (final(self)@, song_result(r)) == patch_song_spec(
                old(self)@,
                id,
                change@,
                caller@,
                now,
            ),
    {
        proof {
            if keys_issued(self@) {
                lemma_keys_stay_issued(self@, id, blank(), change@, caller@, seq![], now);
            }
        }
        match validate_song_update(&change) {
            Ok(_) => {},
            Err(e) => { return Err(e); },
        }
        let before = match _get_song(&self.songs, &id) {
            Ok(song) => song,
            Err(e) => { return Err(e); },
        };
        if self.ownership && !owned_by(&before.owner, caller) {
            return Err(Error::Unauthorized);
        }
        let song = Song {
            id: before.id,
            file_name: change_text(change.file_name, before.file_name),
            mime_type: change_text(change.mime_type, before.mime_type),
            title: change_text(change.title, before.title),
            singer: change_text(change.singer, before.singer),
            genre: change_text(change.genre, before.genre),
            duration: match change.duration {
                Some(d) => d,
                None => before.duration,
            },
            release_date: change_text(change.release_date, before.release_date),
            updated_at: Some(now),
            owner: before.owner,
        };
        match do_insert(&mut self.songs, &song) {
            Ok(_) => Ok(song),
            Err(e) => Err(e),
        }
    }

    /// Changes a song's file name, as `patch_song` does with a change that
    /// holds only that.
    pub fn update_song_file_name(&mut self, id: u64, file_name: String, caller: &[u8], now: u64)
        -> (r: Result<Song, Error>)
        ensures
            keys_issued(old(self)@) ==> keys_issued(final(self)@),
            (final(self)@, song_result(r)) == patch_song_spec(
                old(self)@,
                id,
                SongUpdateView { file_name: Some(file_name@), ..no_change() },
                caller@,
                now,
            ),
    {
        let mut change = unchanged();
        change.file_name = Some(file_name);
        self.patch_song(id, change, caller, now)
    }

    /// Changes a song's MIME type, as `patch_song` does with a change that
    /// holds only that.
    pub fn update_song_mime_type(&mut self, id: u64, mime_type: String, caller: &[u8], now: u64)
        -> (r: Result<Song, Error>)
        ensures
            keys_issued(old(self)@) ==> keys_issued(final(self)@),
            (final(self)@, song_result(r)) == patch_song_spec(
                old(self)@,
                id,
                SongUpdateView { mime_type: Some(mime_type@), ..no_change() },
                caller@,
                now,
            ),
    {
        let mut change = unchanged();
        change.mime_type = Some(mime_type);
        self.patch_song(id, change, caller, now)
    }

    /// Changes a song's title, as `patch_song` does with a change that
    /// holds only that.
    pub fn update_song_title(&mut self, id: u64, title: String, caller: &[u8], now: u64) -> (r:
        Result<Song, Error>)
        ensures
            keys_issued(old(self)@) ==> keys_issued(final(self)@),
            (final(self)@, song_result(r)) == patch_song_spec(
                old(self)@,
                id,
                SongUpdateView { title: Some(title@), ..no_change() },
                caller@,
                now,
            ),
    {
        let mut change = unchanged();
        change.title = Some(title);
        self.patch_song(id, change, caller, now)
    }

    /// Changes a song's genre, as `patch_song` does with a change that
    /// holds only that.
    pub fn update_song_genre(&mut self, id: u64, genre: String, caller: &[u8], now: u64) -> (r:
        Result<Song, Error>)
        ensures
            keys_issued(old(self)@) ==> keys_issued(final(self)@),
            (final(self)@, song_result(r)) == patch_song_spec(
                old(self)@,
                id,
                SongUpdateView { genre: Some(genre@), ..no_change() },
                caller@,
                now,
            ),
    {
        let mut change = unchanged();
        change.genre = Some(genre);
        self.patch_song(id, change, caller, now)
    }

    /// Changes a song's singer, as `patch_song` does with a change that
    /// holds only that.
    pub fn update_song_singer(&mut self, id: u64, singer: String, caller: &[u8], now: u64) -> (r:
        Result<Song, Error>)
        ensures
            keys_issued(old(self)@) ==> keys_issued(final(self)@),
            (final(self)@, song_result(r)) == patch_song_spec(
                old(self)@,
                id,
                SongUpdateView { singer: Some(singer@), ..no_change() },
                caller@,
                now,
            ),
    {
        let mut change = unchanged();
        change.singer = Some(singer);
        self.patch_song(id, change, caller, now)
    }

    /// Changes a song's duration, as `patch_song` does with a change that
    /// holds only that.
    pub fn update_song_duration(&mut self, id: u64, duration: u64, caller: &[u8], now: u64) -> (r:
        Result<Song, Error>)
        ensures
            keys_issued(old(self)@) ==> keys_issued(final(self)@),
            (final(self)@, song_result(r)) == patch_song_spec(
                old(self)@,
                id,
                SongUpdateView { duration: Some(duration), ..no_change() },
                caller@,
                now,
            ),
    {
        let mut change = unchanged();
        change.duration = Some(duration);
        self.patch_song(id, change, caller, now)
    }

    /// Changes a song's release date, as `patch_song` does with a change
    /// that holds only that.
    pub fn update_song_release_date(
        &mut self,
        id: u64,
        release_date: String,
        caller: &[u8],
        now: u64,
    ) -> (r: Result<Song, Error>)
        ensures
            keys_issued(old(self)@) ==> keys_issued(final(self)@),
            (final(self)@, song_result(r)) == patch_song_spec(
                old(self)@,
                id,
                SongUpdateView { release_date: Some(release_date@), ..no_change() },
                caller@,
                now,
            ),
    {
        let mut change = unchanged();
        change.release_date = Some(release_date);
        self.patch_song(id, change, caller, now)
    }

    /// Deletes a song and returns it: `delete_song_spec` gives the state
    /// that follows and the answer.
    pub fn delete_song(&mut self, id: u64, caller: &[u8]) -> (r: Result<Song, Error>)
        ensures
            keys_issued(old(self)@) ==> keys_issued(final(self)@),
            (final(self)@, song_result(r)) == delete_song_spec(old(self)@, id, caller@),
    {
        proof {
            if keys_issued(self@) {
                lemma_keys_stay_issued(self@, id, blank(), no_change(), caller@, seq![], 0);
            }
        }
        let before = match _get_song(&self.songs, &id) {
            Ok(song) => song,
            Err(e) => { return Err(e); },
        };
        if self.ownership && !owned_by(&before.owner, caller) {
            return Err(Error::Unauthorized);
        }
        let _ = self.songs.remove(id);
        Ok(before)
    }

    /// The song stored under `id`: `NotFound` where there is none,
    /// `DecodeCorruption` where what is stored there is corrupt.
    pub fn get_song(&self, id: u64) -> (r: Result<Song, Error>)
        ensures
            song_result(r) == stored_song(self@.songs, id),
    {
        _get_song(&self.songs, &id)
    }

    /// What reading each stored song gives, in ascending order of the keys:
    /// the song, or `DecodeCorruption` for an entry that is corrupt. A store
    /// without songs gives an empty list.
    pub fn get_all_songs(&self) -> (r: Vec<Result<Song, Error>>)
        ensures
            lists_songs(r@, self@.songs),
    {
        read_all_songs(&self.songs)
    }

    /// Creates a singer: `add_singer_spec` gives the state that follows and
    /// the answer.
    pub fn add_singer(&mut self, payload: SingerPayload, now: u64) -> (r: Result<Singer, Error>)
        ensures
            keys_issued(old(self)@) ==> keys_issued(final(self)@),
            r matches Ok(singer) ==> keys_issued(old(self)@) ==> !old(self)@.singers.contains_key(
                singer.id,
            ),
            (final(self)@, singer_result(r)) == add_singer_spec(old(self)@, payload.name@, now),
    {
        proof {
            if keys_issued(self@) {
                lemma_keys_stay_issued(self@, 0, blank(), no_change(), seq![], payload.name@, now);
            }
        }
        match validate_singer_payload(&payload) {
            Ok(_) => {},
            Err(e) => { return Err(e); },
        }
        let id = match following(self.counter.current()) {
            Ok(id) => id,
            Err(e) => { return Err(e); },
        };
        let singer = Singer { id, name: payload.name, updated_at: Some(now) };
        let bytes = match singer.to_bytes() {
            Ok(bytes) => bytes,
            Err(e) => { return Err(e); },
        };
        match self.counter.allocate() {
            Ok(_) => {},
            Err(e) => { return Err(e); },
        }
        match self.singers.insert(singer.id, &bytes) {
            Ok(_) => Ok(singer),
            Err(e) => Err(e),
        }
    }

    /// Renames a singer: `update_singer_spec` gives the state that follows
    /// and the answer.
    pub fn update_singer(&mut self, id: u64, payload: SingerPayload, now: u64) -> (r: Result<
        Singer,
        Error,
    >)
        ensures
            keys_issued(old(self)@) ==> keys_issued(final(self)@),
            (final(self)@, singer_result(r)) == update_singer_spec(
                old(self)@,
                id,
                payload.name@,
                now,
            ),
    {
        proof {
            if keys_issued(self@) {
                lemma_keys_stay_issued(self@, id, blank(), no_change(), seq![], payload.name@, now);
            }
        }
        match validate_singer_payload(&payload) {
            Ok(_) => {},
            Err(e) => { return Err(e); },
        }
        let before = match _get_singer(&self.singers, &id) {
            Ok(singer) => singer,
            Err(e) => { return Err(e); },
        };
        let singer = Singer { id: before.id, name: payload.name, updated_at: Some(now) };
        match do_insert_singer(&mut self.singers, &singer) {
            Ok(_) => Ok(singer),
            Err(e) => Err(e),
        }
    }

    /// The singer stored under `id`: `NotFound` where there is none,
    /// `DecodeCorruption` where what is stored there is corrupt.
    pub fn get_singer(&self, id: u64) -> (r: Result<Singer, Error>)
        ensures
            singer_result(r) == stored_singer(self@.singers, id),
    {
        _get_singer(&self.singers, &id)
    }

    /// What reading each stored singer gives, in ascending order of the
    /// keys: the singer, or `DecodeCorruption` for an entry that is corrupt.
    /// A store without singers gives an empty list.
    pub fn get_all_singers(&self) -> (r: Vec<Result<Singer, Error>>)
        ensures
            lists_singers(r@, self@.singers),
    {
        read_all_singers(&self.singers)
    }
}

} // verus!
