//! The ordered stores: durable maps from a record's key to its bytes.
//!
//! A store is a B-tree in a region of its own. The region begins with the
//! tree's header, the letters BTR, the version of the layout and the
//! greatest sizes of a key and of a value, and holds the header of the
//! tree's allocator, the letters BTA and its version, from byte 52 on.

use vstd::prelude::*;
use vstd::slice::slice_subrange;
use ic_stable_structures::memory_manager::VirtualMemory;
use ic_stable_structures::storable::Blob;
use ic_stable_structures::{DefaultMemoryImpl, StableBTreeMap};
use crate::codec::{singer_bytes, singer_of_bytes, song_bytes, song_of_bytes, MAX_SIZE};
use crate::memory::{region_bytes, region_id, same_bytes, Region};
use crate::types::{Error, Singer, SingerView, Song, SongView};

verus! {

/// A map from keys to byte strings of at most `MAX_SIZE` bytes, kept in a
/// region of its own and ordered by key: a `StableBTreeMap` from `u64` to
/// `Blob<1024>`. Every change is written to the region before the call that
/// makes it returns.
#[verifier::external_body]
pub struct OrderedStore {
    inner: StableBTreeMap<u64, Blob<1024>, VirtualMemory<DefaultMemoryImpl>>,
}

/// What a store holds.
pub uninterp spec fn store_contents(s: OrderedStore) -> Map<u64, Seq<u8>>;

/// The number of the region that a store is kept in.
pub uninterp spec fn store_region(s: OrderedStore) -> u8;

/// Whether `entries` lists what `m` holds, each key once, in ascending order
/// of the keys.
pub open spec fn is_listing(entries: Seq<(u64, Vec<u8>)>, m: Map<u64, Seq<u8>>) -> bool {
    &&& forall|i: int, j: int|
        0 <= i < j < entries.len() ==> (#[trigger] entries[i]).0 < (#[trigger] entries[j]).0
    &&& forall|i: int|
        0 <= i < entries.len() ==> m.contains_key((#[trigger] entries[i]).0) && m[entries[i].0]
            == entries[i].1@
    &&& forall|k: u64| #[trigger]
        m.contains_key(k) ==> exists|i: int| 0 <= i < entries.len() && (#[trigger] entries[i]).0 == k
}

/// The map that the store in a region holds, for a region that holds one.
pub uninterp spec fn region_map(r: Region) -> Map<u64, Seq<u8>>;

/// The first bytes of a region that holds a store: the letters BTR, the
/// version 1, the greatest size of a key, 8, and of a value, 1024, each in
/// four bytes, least significant first.
pub open spec fn map_header() -> Seq<u8> {
    seq![0x42u8, 0x54u8, 0x52u8, 1u8, 8u8, 0u8, 0u8, 0u8, 0u8, 4u8, 0u8, 0u8]
}

/// The first bytes of the allocator of a store: the letters BTA and the
/// version 1.
pub open spec fn allocator_header() -> Seq<u8> {
    seq![0x42u8, 0x54u8, 0x41u8, 1u8]
}

/// Whether a region holds a store.
pub open spec fn holds_map(bytes: Seq<u8>) -> bool {
    &&& bytes.len() >= 56
    &&& bytes.subrange(0, 12) == map_header()
    &&& bytes.subrange(52, 56) == allocator_header()
}

/// Whether a store can be opened on a region: it is empty or holds a store.
pub open spec fn takes_map(bytes: Seq<u8>) -> bool {
    bytes.len() == 0 || holds_map(bytes)
}

/// What a store that is opened on a region holds: nothing on an empty
/// region, and else the map that the region holds.
pub open spec fn opened_contents(region: Region) -> Map<u64, Seq<u8>> {
    if region_bytes(region).len() == 0 {
        Map::empty()
    } else {
        region_map(region)
    }
}

/// `StableBTreeMap::init`: the map that the region holds, or a new, empty
/// one on an empty region. The map keeps the memory that it is given, so
/// the store is in that region. On any other region the call writes over
/// what is there, or panics on a header of another version or of other
/// sizes: `requires` leaves those out. The call panics where an empty
/// region cannot grow to take the new map.
#[verifier::external_body]
fn map_init(region: Region) -> (r: OrderedStore)
    requires
        takes_map(region_bytes(region)),
    ensures
        store_region(r) == region_id(region),
        store_contents(r) == opened_contents(region),
{
    OrderedStore { inner: StableBTreeMap::init(region.inner) }
}

/// `StableBTreeMap::into_memory`: the region that the store was kept in,
/// which holds the store as it was last written.
#[verifier::external_body]
fn map_into_memory(s: OrderedStore) -> (r: Region)
    ensures
        region_id(r) == store_region(s),
        holds_map(region_bytes(r)),
        region_map(r) == store_contents(s),
{
    Region { inner: s.inner.into_memory() }
}

/// `StableBTreeMap::get`: the bytes under `key`, if there are any.
#[verifier::external_body]
fn map_get(s: &OrderedStore, key: u64) -> (r: Option<Vec<u8>>)
    ensures
        r is Some <==> store_contents(*s).contains_key(key),
        r matches Some(found) ==> found@ == store_contents(*s)[key],
{
    s.inner.get(&key).map(|blob| blob.as_slice().to_vec())
}

/// `StableBTreeMap::insert`: puts `value` under `key` and returns the bytes
/// that were there before, if there were any. `Blob<1024>` takes no more
/// than 1024 bytes, so `requires` leaves out a longer value. The store
/// stays in its region. The call panics where the memory cannot grow.
#[verifier::external_body]
fn map_insert(s: &mut OrderedStore, key: u64, value: &Vec<u8>) -> (r: Option<Vec<u8>>)
    requires
        value@.len() <= MAX_SIZE,
    ensures
        store_contents(*final(s)) == store_contents(*old(s)).insert(key, value@),
        store_region(*final(s)) == store_region(*old(s)),
        r is Some <==> store_contents(*old(s)).contains_key(key),
        r matches Some(before) ==> before@ == store_contents(*old(s))[key],
{
    let blob = Blob::<1024>::try_from(value.as_slice()).unwrap();
    s.inner.insert(key, blob).map(|before| before.as_slice().to_vec())
}

/// `StableBTreeMap::remove`: takes out what is under `key` and returns it,
/// if there was anything. The store stays in its region.
#[verifier::external_body]
fn map_remove(s: &mut OrderedStore, key: u64) -> (r: Option<Vec<u8>>)
    ensures
        store_contents(*final(s)) == store_contents(*old(s)).remove(key),
        store_region(*final(s)) == store_region(*old(s)),
        r is Some <==> store_contents(*old(s)).contains_key(key),
        r matches Some(before) ==> before@ == store_contents(*old(s))[key],
{
    s.inner.remove(&key).map(|before| before.as_slice().to_vec())
}

/// Whether `top` is a key of `m` and no key of `m` is greater.
pub open spec fn is_greatest_key(m: Map<u64, Seq<u8>>, top: u64) -> bool {
    &&& m.contains_key(top)
    &&& forall|k: u64| #[trigger] m.contains_key(k) ==> k <= top
}

/// Whether `m` holds no key.
pub open spec fn holds_nothing(m: Map<u64, Seq<u8>>) -> bool {
    forall|k: u64| !#[trigger] m.contains_key(k)
}

/// `StableBTreeMap::last_key_value`: the greatest key of the map, and none
/// where the map holds nothing.
#[verifier::external_body]
fn map_last_key(s: &OrderedStore) -> (r: Option<u64>)
    ensures
        r matches Some(top) ==> is_greatest_key(store_contents(*s), top),
        r is None ==> holds_nothing(store_contents(*s)),
{
    s.inner.last_key_value().map(|entry| entry.0)
}

/// `StableBTreeMap::iter`, collected: every entry, sorted by key.
#[verifier::external_body]
fn map_entries(s: &OrderedStore) -> (r: Vec<(u64, Vec<u8>)>)
    ensures
        is_listing(r@, store_contents(*s)),
{
    s.inner.iter().map(|(key, blob)| (key, blob.as_slice().to_vec())).collect()
}

impl OrderedStore {
    /// What the store holds: the bytes under each key.
    pub open spec fn contents(&self) -> Map<u64, Seq<u8>> {
        store_contents(*self)
    }

    /// The number of the region that the store is kept in.
    pub open spec fn region(&self) -> u8 {
        store_region(*self)
    }

    /// Whether a store can be opened on the region: it is empty or holds a
    /// store.
    pub fn fits(region: &Region) -> (r: bool)
        ensures
            r == takes_map(region_bytes(*region)),
    {
        match region.head(56) {
            None => true,
            Some(head) => {
                let tree: Vec<u8> = vec![
                    0x42u8,
                    0x54u8,
                    0x52u8,
                    1u8,
                    8u8,
                    0u8,
                    0u8,
                    0u8,
                    0u8,
                    4u8,
                    0u8,
                    0u8,
                ];
                let allocator: Vec<u8> = vec![0x42u8, 0x54u8, 0x41u8, 1u8];
                let found_tree = slice_subrange(head.as_slice(), 0, 12);
                let found_allocator = slice_subrange(head.as_slice(), 52, 56);
                proof {
                    let held = region_bytes(*region);
                    assert(found_tree@ =~= held.subrange(0, 12));
                    assert(found_allocator@ =~= held.subrange(52, 56));
                }
                same_bytes(found_tree, tree.as_slice()) && same_bytes(
                    found_allocator,
                    allocator.as_slice(),
                )
            },
        }
    }

    /// Opens the store that `region` holds, with what it holds, or a new,
    /// empty store on an empty region: the store is then kept in that
    /// region. A region that holds anything else is refused with
    /// `DecodeCorruption`, and nothing is written to it.
    pub fn open(region: Region) -> (r: Result<OrderedStore, Error>)
        ensures
            match r {
                Ok(store) => {
                    &&& takes_map(region_bytes(region))
                    &&& store.region() == region_id(region)
                    &&& store.contents() == opened_contents(region)
                },
                Err(e) => !takes_map(region_bytes(region)) && e == Error::DecodeCorruption,
            },
    {
        if OrderedStore::fits(&region) {
            Ok(map_init(region))
        } else {
            Err(Error::DecodeCorruption)
        }
    }

    /// The greatest key that the store holds, if it holds any.
    pub fn greatest_key(&self) -> (r: Option<u64>)
        ensures
            match r {
                Some(top) => is_greatest_key(self.contents(), top),
                None => holds_nothing(self.contents()),
            },
    {
        map_last_key(self)
    }

    /// Whether no key of the store is greater than `limit`.
    pub fn keys_within(&self, limit: u64) -> (r: bool)
        ensures
            r == (forall|k: u64| #[trigger] self.contents().contains_key(k) ==> k <= limit),
    {
        match self.greatest_key() {
            Some(top) => top <= limit,
            None => true,
        }
    }

    /// Gives the store up for its region, which holds the store as it was
    /// last written.
    pub fn close(self) -> (r: Region)
        ensures
            region_id(r) == self.region(),
            holds_map(region_bytes(r)),
            region_map(r) == self.contents(),
    {
        map_into_memory(self)
    }

    /// Reads the store again from the bytes that it wrote, as a restart
    /// does: the contents are the same, and the store is in the region it
    /// was in.
    pub fn reload(self) -> (r: OrderedStore)
        ensures
            r.contents() == self.contents(),
            r.region() == self.region(),
    {
        match OrderedStore::open(self.close()) {
            Ok(store) => store,
            Err(_) => unreached(),
        }
    }

    /// The bytes under `key`, if there are any.
    pub fn get(&self, key: u64) -> (r: Option<Vec<u8>>)
        ensures
            r is Some <==> self.contents().contains_key(key),
            r matches Some(found) ==> found@ == self.contents()[key],
    {
        map_get(self, key)
    }

    /// Puts `value` under `key` and returns the bytes that were there
    /// before, if there were any. A value of more than `MAX_SIZE` bytes is
    /// refused with `RecordTooLarge`, and the store stays as it was.
    pub fn insert(&mut self, key: u64, value: &Vec<u8>) -> (r: Result<Option<Vec<u8>>, Error>)
        ensures
            final(self).region() == old(self).region(),
            match r {
                Ok(before) => {
                    &&& value@.len() <= MAX_SIZE
                    &&& final(self).contents() == old(self).contents().insert(key, value@)
                    &&& before is Some <==> old(self).contents().contains_key(key)
                    &&& before matches Some(b) ==> b@ == old(self).contents()[key]
                },
                Err(e) => {
                    &&& value@.len() > MAX_SIZE
                    &&& e == Error::RecordTooLarge
                    &&& final(self).contents() == old(self).contents()
                },
            },
    {
        if value.len() > MAX_SIZE {
            return Err(Error::RecordTooLarge);
        }
        Ok(map_insert(self, key, value))
    }

    /// Takes out what is under `key` and returns it, if there was anything.
    pub fn remove(&mut self, key: u64) -> (r: Option<Vec<u8>>)
        ensures
            final(self).contents() == old(self).contents().remove(key),
            final(self).region() == old(self).region(),
            r is Some <==> old(self).contents().contains_key(key),
            r matches Some(before) ==> before@ == old(self).contents()[key],
    {
        map_remove(self, key)
    }

    /// Every entry, in ascending order of the keys. Each call starts anew.
    pub fn iterate(&self) -> (r: Vec<(u64, Vec<u8>)>)
        ensures
            is_listing(r@, self.contents()),
    {
        map_entries(self)
    }
}

/// The view of a song or an error.
pub open spec fn song_result(r: Result<Song, Error>) -> Result<SongView, Error> {
    match r {
        Ok(song) => Ok(song@),
        Err(e) => Err(e),
    }
}

/// The view of a singer or an error.
pub open spec fn singer_result(r: Result<Singer, Error>) -> Result<SingerView, Error> {
    match r {
        Ok(singer) => Ok(singer@),
        Err(e) => Err(e),
    }
}

/// The song that `b`, stored under `key`, stands for. Bytes that are the
/// encoding of no song, or of a song with another id, are corrupt.
pub open spec fn song_under(key: u64, b: Seq<u8>) -> Result<SongView, Error> {
    match song_of_bytes(b) {
        Some(v) => if v.id == key {
            Ok(v)
        } else {
            Err(Error::DecodeCorruption)
        },
        None => Err(Error::DecodeCorruption),
    }
}

/// The singer that `b`, stored under `key`, stands for. Bytes that are the
/// encoding of no singer, or of a singer with another id, are corrupt.
pub open spec fn singer_under(key: u64, b: Seq<u8>) -> Result<SingerView, Error> {
    match singer_of_bytes(b) {
        Some(v) => if v.id == key {
            Ok(v)
        } else {
            Err(Error::DecodeCorruption)
        },
        None => Err(Error::DecodeCorruption),
    }
}

/// The song that is read under `id`: `NotFound` where nothing is stored
/// there, `DecodeCorruption` where what is stored is corrupt.
pub open spec fn stored_song(m: Map<u64, Seq<u8>>, id: u64) -> Result<SongView, Error> {
    if m.contains_key(id) {
        song_under(id, m[id])
    } else {
        Err(Error::NotFound)
    }
}

/// The singer that is read under `id`: `NotFound` where nothing is stored
/// there, `DecodeCorruption` where what is stored is corrupt.
pub open spec fn stored_singer(m: Map<u64, Seq<u8>>, id: u64) -> Result<SingerView, Error> {
    if m.contains_key(id) {
        singer_under(id, m[id])
    } else {
        Err(Error::NotFound)
    }
}

/// Decodes the song stored under `key`.
pub fn read_song(key: u64, bytes: &[u8]) -> (r: Result<Song, Error>)
    ensures
        song_result(r) == song_under(key, bytes@),
{
    match Song::from_bytes(bytes) {
        Ok(song) => if song.id == key {
            Ok(song)
        } else {
            Err(Error::DecodeCorruption)
        },
        Err(e) => Err(e),
    }
}

/// Decodes the singer stored under `key`.
pub fn read_singer(key: u64, bytes: &[u8]) -> (r: Result<Singer, Error>)
    ensures
        singer_result(r) == singer_under(key, bytes@),
{
    match Singer::from_bytes(bytes) {
        Ok(singer) => if singer.id == key {
            Ok(singer)
        } else {
            Err(Error::DecodeCorruption)
        },
        Err(e) => Err(e),
    }
}

/// Stores a song under its id, in place of what was there. A song whose
/// encoding is longer than `MAX_SIZE` is refused with `RecordTooLarge`, and
/// the store stays as it was.
pub fn do_insert(store: &mut OrderedStore, song: &Song) -> (r: Result<(), Error>)
    ensures
        final(store).region() == old(store).region(),
        match r {
            Ok(_) => {
                &&& song_bytes(song@).len() <= MAX_SIZE
                &&& final(store).contents() == old(store).contents().insert(
                    song.id,
                    song_bytes(song@),
                )
            },
            Err(e) => {
                &&& song_bytes(song@).len() > MAX_SIZE
                &&& e == Error::RecordTooLarge
                &&& final(store).contents() == old(store).contents()
            },
        },
{
    match song.to_bytes() {
        Ok(bytes) => {
            let _ = map_insert(store, song.id, &bytes);
            Ok(())
        },
        Err(e) => Err(e),
    }
}

/// Stores a singer under its id, in place of what was there. A singer whose
/// encoding is longer than `MAX_SIZE` is refused with `RecordTooLarge`, and
/// the store stays as it was.
pub fn do_insert_singer(store: &mut OrderedStore, singer: &Singer) -> (r: Result<(), Error>)
    ensures
        final(store).region() == old(store).region(),
        match r {
            Ok(_) => {
                &&& singer_bytes(singer@).len() <= MAX_SIZE
                &&& final(store).contents() == old(store).contents().insert(
                    singer.id,
                    singer_bytes(singer@),
                )
            },
            Err(e) => {
                &&& singer_bytes(singer@).len() > MAX_SIZE
                &&& e == Error::RecordTooLarge
                &&& final(store).contents() == old(store).contents()
            },
        },
{
    match singer.to_bytes() {
        Ok(bytes) => {
            let _ = map_insert(store, singer.id, &bytes);
            Ok(())
        },
        Err(e) => Err(e),
    }
}

/// The song stored under `id`: `NotFound` where there is none,
/// `DecodeCorruption` where what is stored there is corrupt.
pub fn _get_song(store: &OrderedStore, id: &u64) -> (r: Result<Song, Error>)
    ensures
        song_result(r) == stored_song(store.contents(), *id),
{
    match map_get(store, *id) {
        Some(bytes) => read_song(*id, bytes.as_slice()),
        None => Err(Error::NotFound),
    }
}

/// The singer stored under `id`: `NotFound` where there is none,
/// `DecodeCorruption` where what is stored there is corrupt.
pub fn _get_singer(store: &OrderedStore, id: &u64) -> (r: Result<Singer, Error>)
    ensures
        singer_result(r) == stored_singer(store.contents(), *id),
{
    match map_get(store, *id) {
        Some(bytes) => read_singer(*id, bytes.as_slice()),
        None => Err(Error::NotFound),
    }
}

/// Whether `keys` lists the keys of `m`, each once, in ascending order.
pub open spec fn lists_keys(keys: Seq<u64>, m: Map<u64, Seq<u8>>) -> bool {
    &&& forall|i: int, j: int| 0 <= i < j < keys.len() ==> #[trigger] keys[i] < #[trigger] keys[j]
    &&& forall|i: int| 0 <= i < keys.len() ==> m.contains_key(#[trigger] keys[i])
    &&& forall|k: u64| #[trigger]
        m.contains_key(k) ==> exists|i: int| 0 <= i < keys.len() && #[trigger] keys[i] == k
}

/// Whether `found` is what reading every song of `m` gives, in ascending
/// order of the keys.
pub open spec fn lists_songs(found: Seq<Result<Song, Error>>, m: Map<u64, Seq<u8>>) -> bool {
    exists|keys: Seq<u64>|
        {
            &&& lists_keys(keys, m)
            &&& found.len() == keys.len()
            &&& forall|i: int|
                0 <= i < found.len() ==> song_result(#[trigger] found[i]) == stored_song(
                    m,
                    keys[i],
                )
        }
}

/// Whether `found` is what reading every singer of `m` gives, in ascending
/// order of the keys.
pub open spec fn lists_singers(found: Seq<Result<Singer, Error>>, m: Map<u64, Seq<u8>>) -> bool {
    exists|keys: Seq<u64>|
        {
            &&& lists_keys(keys, m)
            &&& found.len() == keys.len()
            &&& forall|i: int|
                0 <= i < found.len() ==> singer_result(#[trigger] found[i]) == stored_singer(
                    m,
                    keys[i],
                )
        }
}

/// The keys of a listing are the keys of what it lists, in ascending order.
pub proof fn lemma_listing_keys(entries: Seq<(u64, Vec<u8>)>, m: Map<u64, Seq<u8>>)
    requires
        is_listing(entries, m),
    ensures
        lists_keys(Seq::new(entries.len(), |i: int| entries[i].0), m),
{
    let keys = Seq::new(entries.len(), |i: int| entries[i].0);
    assert forall|k: u64| #[trigger] m.contains_key(k) implies exists|i: int|
        0 <= i < keys.len() && #[trigger] keys[i] == k by {
        let i = choose|i: int| 0 <= i < entries.len() && (#[trigger] entries[i]).0 == k;
        assert(keys[i] == k);
    }
}

/// What reading each song of a store gives, in ascending order of the keys:
/// the song, or `DecodeCorruption` for an entry that is corrupt. A store
/// without entries gives an empty list.
pub fn read_all_songs(store: &OrderedStore) -> (r: Vec<Result<Song, Error>>)
    ensures
        lists_songs(r@, store.contents()),
{
    let entries = map_entries(store);
    let ghost m = store.contents();
    let mut found: Vec<Result<Song, Error>> = Vec::new();
    let mut i: usize = 0;
    while i < entries.len()
        invariant
            i <= entries@.len(),
            found@.len() == i,
            is_listing(entries@, m),
            forall|j: int|
                0 <= j < i ==> song_result(#[trigger] found@[j]) == stored_song(m, entries@[j].0),
        decreases entries@.len() - i,
    {
        let key = entries[i].0;
        let song = read_song(key, entries[i].1.as_slice());
        proof {
            let entry = entries@[i as int];
            assert(m.contains_key(entry.0) && m[entry.0] == entry.1@);
        }
        found.push(song);
        i += 1;
    }
    proof {
        lemma_listing_keys(entries@, m);
        let keys = Seq::new(entries@.len(), |j: int| entries@[j].0);
        assert(forall|j: int|
            0 <= j < found@.len() ==> song_result(#[trigger] found@[j]) == stored_song(m, keys[j]));
        assert(lists_keys(keys, m) && found@.len() == keys.len());
        assert(lists_songs(found@, m));
    }
    found
}

/// What reading each singer of a store gives, in ascending order of the
/// keys: the singer, or `DecodeCorruption` for an entry that is corrupt. A
/// store without entries gives an empty list.
pub fn read_all_singers(store: &OrderedStore) -> (r: Vec<Result<Singer, Error>>)
    ensures
        lists_singers(r@, store.contents()),
{
    let entries = map_entries(store);
    let ghost m = store.contents();
    let mut found: Vec<Result<Singer, Error>> = Vec::new();
    let mut i: usize = 0;
    while i < entries.len()
        invariant
            i <= entries@.len(),
            found@.len() == i,
            is_listing(entries@, m),
            forall|j: int|
                0 <= j < i ==> singer_result(#[trigger] found@[j]) == stored_singer(
                    m,
                    entries@[j].0,
                ),
        decreases entries@.len() - i,
    {
        let key = entries[i].0;
        let singer = read_singer(key, entries[i].1.as_slice());
        proof {
            let entry = entries@[i as int];
            assert(m.contains_key(entry.0) && m[entry.0] == entry.1@);
        }
        found.push(singer);
        i += 1;
    }
    proof {
        lemma_listing_keys(entries@, m);
        let keys = Seq::new(entries@.len(), |j: int| entries@[j].0);
        assert(forall|j: int|
            0 <= j < found@.len() ==> singer_result(#[trigger] found@[j]) == stored_singer(
                m,
                keys[j],
            ));
        assert(lists_keys(keys, m) && found@.len() == keys.len());
        assert(lists_singers(found@, m));
    }
    found
}

} // verus!
