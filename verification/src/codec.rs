//! The persisted form of the records: a bounded sequence of bytes.
//!
//! A record is written as a version byte followed by its fields, each in a
//! frame that says where it ends: integers as eight bytes, least significant
//! first; a time stamp behind a byte that says whether it is there; a text
//! as its UTF-8 bytes behind their number in two bytes. The owner, which not
//! every record has, comes last: bytes that end after the fields before it
//! stand for a record without one.

use vstd::prelude::*;
use vstd::bytes::{
    lemma_auto_spec_u16_to_from_le_bytes, lemma_auto_spec_u64_to_from_le_bytes,
    spec_u16_from_le_bytes, spec_u16_to_le_bytes, spec_u64_from_le_bytes, spec_u64_to_le_bytes,
    u16_from_le_bytes, u16_to_le_bytes, u64_from_le_bytes, u64_to_le_bytes,
};
use vstd::slice::{slice_subrange, slice_to_vec};
use vstd::utf8::{
    decode_utf8, decode_utf8_encode_utf8, encode_utf8, encode_utf8_decode_utf8,
    encode_utf8_valid_utf8, valid_utf8,
};
use crate::types::{Error, Singer, SingerView, Song, SongView};

verus! {

/// The most bytes that a record may take in its store.
pub const MAX_SIZE: usize = 1024;

/// The first byte of every record: the version of the layout.
pub const LAYOUT_VERSION: u8 = 1;

/// The frame of an integer.
pub open spec fn frame_u64(x: u64) -> Seq<u8> {
    spec_u64_to_le_bytes(x)
}

/// The frame of a time stamp that may be missing.
pub open spec fn frame_stamp(t: Option<u64>) -> Seq<u8> {
    match t {
        None => seq![0u8],
        Some(x) => seq![1u8] + frame_u64(x),
    }
}

/// The frame of a byte string of fewer than 65536 bytes.
pub open spec fn frame_bytes(raw: Seq<u8>) -> Seq<u8> {
    spec_u16_to_le_bytes(raw.len() as u16) + raw
}

/// The frame of a text.
pub open spec fn frame_text(s: Seq<char>) -> Seq<u8> {
    frame_bytes(encode_utf8(s))
}

/// The frame of an owner, which ends the record.
pub open spec fn frame_owner(o: Option<Seq<u8>>) -> Seq<u8> {
    match o {
        None => Seq::empty(),
        Some(raw) => seq![1u8] + frame_bytes(raw),
    }
}

/// The integer framed at the start of `b`, and what follows it.
pub open spec fn read_u64(b: Seq<u8>) -> Option<(u64, Seq<u8>)> {
    if b.len() >= 8 {
        Some((spec_u64_from_le_bytes(b.take(8)), b.skip(8)))
    } else {
        None
    }
}

/// The time stamp framed at the start of `b`, and what follows it.
pub open spec fn read_stamp(b: Seq<u8>) -> Option<(Option<u64>, Seq<u8>)> {
    if b.len() >= 1 && b[0] == 0 {
        Some((None, b.skip(1)))
    } else if b.len() >= 1 && b[0] == 1 {
        match read_u64(b.skip(1)) {
            Some((x, rest)) => Some((Some(x), rest)),
            None => None,
        }
    } else {
        None
    }
}

/// The byte string framed at the start of `b`, and what follows it.
pub open spec fn read_bytes(b: Seq<u8>) -> Option<(Seq<u8>, Seq<u8>)> {
    if b.len() >= 2 {
        let n = spec_u16_from_le_bytes(b.take(2)) as int;
        if b.len() >= 2 + n {
            Some((b.subrange(2, 2 + n), b.skip(2 + n)))
        } else {
            None
        }
    } else {
        None
    }
}

/// The text framed at the start of `b`, and what follows it.
pub open spec fn read_text(b: Seq<u8>) -> Option<(Seq<char>, Seq<u8>)> {
    match read_bytes(b) {
        Some((raw, rest)) => if valid_utf8(raw) {
            Some((decode_utf8(raw), rest))
        } else {
            None
        },
        None => None,
    }
}

/// The owner that `b` frames, where `b` is all that is left of a record.
pub open spec fn read_owner(b: Seq<u8>) -> Option<Option<Seq<u8>>> {
    if b.len() == 0 {
        Some(None)
    } else if b[0] == 1 {
        match read_bytes(b.skip(1)) {
            Some((raw, rest)) => if rest.len() == 0 {
                Some(Some(raw))
            } else {
                None
            },
            None => None,
        }
    } else {
        None
    }
}

/// Reading a framed integer gives it back, with what stood behind it.
pub proof fn lemma_read_u64(x: u64, tail: Seq<u8>)
    ensures
        frame_u64(x).len() == 8,
        read_u64(frame_u64(x) + tail) == Some((x, tail)),
{
    lemma_auto_spec_u64_to_from_le_bytes();
    let b = frame_u64(x) + tail;
    assert(b.take(8) =~= frame_u64(x));
    assert(b.skip(8) =~= tail);
}

/// Where an integer can be read, the bytes begin with its frame.
pub proof fn lemma_read_u64_framed(b: Seq<u8>)
    requires
        read_u64(b) is Some,
    ensures
        b == frame_u64(read_u64(b).unwrap().0) + read_u64(b).unwrap().1,
{
    lemma_auto_spec_u64_to_from_le_bytes();
    assert(b.take(8).len() == 8);
    assert(spec_u64_to_le_bytes(spec_u64_from_le_bytes(b.take(8))) == b.take(8));
    assert(b =~= b.take(8) + b.skip(8));
}

/// Reading a framed time stamp gives it back, with what stood behind it.
pub proof fn lemma_read_stamp(t: Option<u64>, tail: Seq<u8>)
    ensures
        read_stamp(frame_stamp(t) + tail) == Some((t, tail)),
{
    let b = frame_stamp(t) + tail;
    match t {
        None => {
            assert(b[0] == 0);
            assert(b.skip(1) =~= tail);
        },
        Some(x) => {
            lemma_read_u64(x, tail);
            assert(b[0] == 1);
            assert(b.skip(1) =~= frame_u64(x) + tail);
        },
    }
}

/// Where a time stamp can be read, the bytes begin with its frame.
pub proof fn lemma_read_stamp_framed(b: Seq<u8>)
    requires
        read_stamp(b) is Some,
    ensures
        b == frame_stamp(read_stamp(b).unwrap().0) + read_stamp(b).unwrap().1,
{
    if b[0] == 0 {
        assert(b =~= seq![0u8] + b.skip(1));
    } else {
        lemma_read_u64_framed(b.skip(1));
        let (x, rest) = read_u64(b.skip(1)).unwrap();
        assert(b =~= seq![1u8] + b.skip(1));
        assert(seq![1u8] + (frame_u64(x) + rest) =~= (seq![1u8] + frame_u64(x)) + rest);
    }
}

/// Reading a framed byte string gives it back, with what stood behind it.
pub proof fn lemma_read_bytes(raw: Seq<u8>, tail: Seq<u8>)
    requires
        raw.len() <= 0xffff,
    ensures
        frame_bytes(raw).len() == 2 + raw.len(),
        read_bytes(frame_bytes(raw) + tail) == Some((raw, tail)),
{
    lemma_auto_spec_u16_to_from_le_bytes();
    let head = spec_u16_to_le_bytes(raw.len() as u16);
    let b = frame_bytes(raw) + tail;
    assert(b.take(2) =~= head);
    let end = 2 + raw.len() as int;
    assert(b.subrange(2, end) =~= raw);
    assert(b.skip(end) =~= tail);
}

/// Where a byte string can be read, the bytes begin with its frame.
pub proof fn lemma_read_bytes_framed(b: Seq<u8>)
    requires
        read_bytes(b) is Some,
    ensures
        read_bytes(b).unwrap().0.len() <= 0xffff,
        b == frame_bytes(read_bytes(b).unwrap().0) + read_bytes(b).unwrap().1,
{
    lemma_auto_spec_u16_to_from_le_bytes();
    let n = spec_u16_from_le_bytes(b.take(2));
    let (raw, rest) = read_bytes(b).unwrap();
    assert(b.take(2).len() == 2);
    assert(spec_u16_to_le_bytes(n) == b.take(2));
    assert(raw.len() == n);
    assert(b =~= (b.take(2) + raw) + rest);
}

/// Reading a framed text gives it back, with what stood behind it.
pub proof fn lemma_read_text(s: Seq<char>, tail: Seq<u8>)
    requires
        encode_utf8(s).len() <= 0xffff,
    ensures
        frame_text(s).len() == 2 + encode_utf8(s).len(),
        read_text(frame_text(s) + tail) == Some((s, tail)),
{
    lemma_read_bytes(encode_utf8(s), tail);
    encode_utf8_valid_utf8(s);
    encode_utf8_decode_utf8(s);
}

/// Where a text can be read, the bytes begin with its frame.
pub proof fn lemma_read_text_framed(b: Seq<u8>)
    requires
        read_text(b) is Some,
    ensures
        encode_utf8(read_text(b).unwrap().0).len() <= 0xffff,
        b == frame_text(read_text(b).unwrap().0) + read_text(b).unwrap().1,
{
    lemma_read_bytes_framed(b);
    decode_utf8_encode_utf8(read_bytes(b).unwrap().0);
}

/// Reading a framed owner gives it back.
pub proof fn lemma_read_owner(o: Option<Seq<u8>>)
    requires
        o matches Some(raw) ==> raw.len() <= 0xffff,
    ensures
        read_owner(frame_owner(o)) == Some(o),
{
    match o {
        None => {},
        Some(raw) => {
            lemma_read_bytes(raw, Seq::empty());
            let b = frame_owner(o);
            assert(b[0] == 1);
            assert(b.skip(1) =~= frame_bytes(raw) + Seq::<u8>::empty());
        },
    }
}

/// Where an owner can be read, the bytes are its frame.
pub proof fn lemma_read_owner_framed(b: Seq<u8>)
    requires
        read_owner(b) is Some,
    ensures
        b == frame_owner(read_owner(b).unwrap()),
{
    if b.len() == 0 {
        assert(b =~= Seq::<u8>::empty());
    } else {
        lemma_read_bytes_framed(b.skip(1));
        let (raw, rest) = read_bytes(b.skip(1)).unwrap();
        assert(rest =~= Seq::<u8>::empty());
        assert(b =~= seq![1u8] + b.skip(1));
        assert(frame_bytes(raw) + rest =~= frame_bytes(raw));
    }
}

/// Joining byte strings does not depend on how they are grouped.
pub proof fn lemma_append_assoc(a: Seq<u8>, b: Seq<u8>, c: Seq<u8>)
    ensures
        (a + b) + c == a + (b + c),
{
    assert((a + b) + c =~= a + (b + c));
}

/// The frames of three texts, one behind the other.
pub open spec fn frame_texts(t: (Seq<char>, Seq<char>, Seq<char>)) -> Seq<u8> {
    frame_text(t.0) + (frame_text(t.1) + frame_text(t.2))
}

/// The three texts framed at the start of `b`, and what follows them.
pub open spec fn read_texts(b: Seq<u8>) -> Option<((Seq<char>, Seq<char>, Seq<char>), Seq<u8>)> {
    match read_text(b) {
        Some((first, b1)) => match read_text(b1) {
            Some((second, b2)) => match read_text(b2) {
                Some((third, rest)) => Some(((first, second, third), rest)),
                None => None,
            },
            None => None,
        },
        None => None,
    }
}

/// Reading three framed texts gives them back, with what stood behind them.
pub proof fn lemma_read_texts(t: (Seq<char>, Seq<char>, Seq<char>), tail: Seq<u8>)
    requires
        encode_utf8(t.0).len() <= 0xffff,
        encode_utf8(t.1).len() <= 0xffff,
        encode_utf8(t.2).len() <= 0xffff,
    ensures
        frame_texts(t).len() == 6 + encode_utf8(t.0).len() + encode_utf8(t.1).len() + encode_utf8(
            t.2,
        ).len(),
        read_texts(frame_texts(t) + tail) == Some((t, tail)),
{
    let tail2 = frame_text(t.2) + tail;
    let tail1 = frame_text(t.1) + tail2;
    lemma_read_text(t.0, tail1);
    lemma_read_text(t.1, tail2);
    lemma_read_text(t.2, tail);
    assert(frame_texts(t) + tail =~= frame_text(t.0) + tail1);
}

/// Where three texts can be read, the bytes begin with their frames.
pub proof fn lemma_read_texts_framed(b: Seq<u8>)
    requires
        read_texts(b) is Some,
    ensures
        encode_utf8(read_texts(b).unwrap().0.0).len() <= 0xffff,
        encode_utf8(read_texts(b).unwrap().0.1).len() <= 0xffff,
        encode_utf8(read_texts(b).unwrap().0.2).len() <= 0xffff,
        b == frame_texts(read_texts(b).unwrap().0) + read_texts(b).unwrap().1,
{
    let (t, rest) = read_texts(b).unwrap();
    let b1 = read_text(b).unwrap().1;
    let b2 = read_text(b1).unwrap().1;
    lemma_read_text_framed(b);
    lemma_read_text_framed(b1);
    lemma_read_text_framed(b2);
    assert(frame_text(t.0) + (frame_text(t.1) + (frame_text(t.2) + rest)) =~= frame_texts(t)
        + rest);
}

/// The persisted form of a song.
pub open spec fn song_bytes(v: SongView) -> Seq<u8> {
    seq![LAYOUT_VERSION] + (frame_u64(v.id) + (frame_u64(v.duration) + (frame_stamp(v.updated_at)
        + (frame_texts((v.file_name, v.mime_type, v.title)) + (frame_texts(
        (v.singer, v.genre, v.release_date),
    ) + frame_owner(v.owner))))))
}

/// The song that `b` is the persisted form of, if it is one of any:
/// `lemma_song_round_trip` and `lemma_song_bytes_unique` show that this is
/// the inverse of `song_bytes` on the songs that fit in `MAX_SIZE` bytes.
pub open spec fn song_of_bytes(b: Seq<u8>) -> Option<SongView> {
    if b.len() > MAX_SIZE || b.len() == 0 || b[0] != LAYOUT_VERSION {
        None
    } else {
        match read_u64(b.skip(1)) {
            Some((id, b1)) => match read_u64(b1) {
                Some((duration, b2)) => match read_stamp(b2) {
                    Some((updated_at, b3)) => match read_texts(b3) {
                        Some((head, b4)) => match read_texts(b4) {
                            Some((tail, b5)) => match read_owner(b5) {
                                Some(owner) => Some(
                                    SongView {
                                        id,
                                        file_name: head.0,
                                        mime_type: head.1,
                                        title: head.2,
                                        singer: tail.0,
                                        genre: tail.1,
                                        duration,
                                        release_date: tail.2,
                                        updated_at,
                                        owner,
                                    },
                                ),
                                None => None,
                            },
                            None => None,
                        },
                        None => None,
                    },
                    None => None,
                },
                None => None,
            },
            None => None,
        }
    }
}

/// The number of bytes that a song takes.
pub open spec fn song_size(v: SongView) -> nat {
    let texts = encode_utf8(v.file_name).len() + encode_utf8(v.mime_type).len() + encode_utf8(
        v.title,
    ).len() + encode_utf8(v.singer).len() + encode_utf8(v.genre).len() + encode_utf8(
        v.release_date,
    ).len();
    let stamp: nat = if v.updated_at is Some {
        9
    } else {
        1
    };
    let owner: nat = match v.owner {
        Some(raw) => 3 + raw.len(),
        None => 0,
    };
    29 + stamp + texts + owner
}

/// `song_size` is the length of `song_bytes`.
pub proof fn lemma_song_size(v: SongView)
    ensures
        song_bytes(v).len() == song_size(v),
{
    lemma_auto_spec_u64_to_from_le_bytes();
    lemma_auto_spec_u16_to_from_le_bytes();
}

/// Decoding what a song was encoded to gives the song back, for every song
/// that fits in `MAX_SIZE` bytes.
pub proof fn lemma_song_round_trip(v: SongView)
    requires
        song_bytes(v).len() <= MAX_SIZE,
    ensures
        song_of_bytes(song_bytes(v)) == Some(v),
{
    lemma_song_size(v);
    let head = (v.file_name, v.mime_type, v.title);
    let tail = (v.singer, v.genre, v.release_date);
    let b5 = frame_owner(v.owner);
    let b4 = frame_texts(tail) + b5;
    let b3 = frame_texts(head) + b4;
    let b2 = frame_stamp(v.updated_at) + b3;
    let b1 = frame_u64(v.duration) + b2;
    let b0 = frame_u64(v.id) + b1;
    let b = song_bytes(v);
    assert(b[0] == LAYOUT_VERSION);
    assert(b.skip(1) =~= b0);
    lemma_read_u64(v.id, b1);
    lemma_read_u64(v.duration, b2);
    lemma_read_stamp(v.updated_at, b3);
    lemma_read_texts(head, b4);
    lemma_read_texts(tail, b5);
    lemma_read_owner(v.owner);
}

/// Only a song's own encoding decodes to it: where `b` decodes to `v`, `b`
/// is `song_bytes(v)` and is no longer than `MAX_SIZE`.
pub proof fn lemma_song_bytes_unique(b: Seq<u8>, v: SongView)
    requires
        song_of_bytes(b) == Some(v),
    ensures
        song_bytes(v) == b,
        b.len() <= MAX_SIZE,
{
    let b0 = b.skip(1);
    let b1 = read_u64(b0).unwrap().1;
    let b2 = read_u64(b1).unwrap().1;
    let b3 = read_stamp(b2).unwrap().1;
    let b4 = read_texts(b3).unwrap().1;
    let b5 = read_texts(b4).unwrap().1;
    lemma_read_u64_framed(b0);
    lemma_read_u64_framed(b1);
    lemma_read_stamp_framed(b2);
    lemma_read_texts_framed(b3);
    lemma_read_texts_framed(b4);
    lemma_read_owner_framed(b5);
    assert(b =~= seq![LAYOUT_VERSION] + b0);
}

/// The owner is the last thing in a song's bytes: before it stand the bytes
/// of the same song without an owner, which are what was written of a song
/// before songs had owners, and which decode to the song without one.
pub proof fn lemma_owner_comes_last(v: SongView)
    requires
        song_bytes(v).len() <= MAX_SIZE,
    ensures
        song_bytes(v) == song_bytes(SongView { owner: None, ..v }) + frame_owner(v.owner),
        song_of_bytes(song_bytes(SongView { owner: None, ..v })) == Some(
            SongView { owner: None, ..v },
        ),
{
    let bare = SongView { owner: None, ..v };
    assert(song_bytes(v) =~= song_bytes(bare) + frame_owner(v.owner));
    lemma_song_round_trip(bare);
}

/// The persisted form of a singer.
pub open spec fn singer_bytes(v: SingerView) -> Seq<u8> {
    seq![LAYOUT_VERSION] + (frame_u64(v.id) + (frame_stamp(v.updated_at) + frame_text(v.name)))
}

/// The singer that `b` is the persisted form of, if it is one of any: the
/// inverse of `singer_bytes` on the singers that fit in `MAX_SIZE` bytes.
pub open spec fn singer_of_bytes(b: Seq<u8>) -> Option<SingerView> {
    if b.len() > MAX_SIZE || b.len() == 0 || b[0] != LAYOUT_VERSION {
        None
    } else {
        match read_u64(b.skip(1)) {
            Some((id, b1)) => match read_stamp(b1) {
                Some((updated_at, b2)) => match read_text(b2) {
                    Some((name, rest)) => if rest.len() == 0 {
                        Some(SingerView { id, name, updated_at })
                    } else {
                        None
                    },
                    None => None,
                },
                None => None,
            },
            None => None,
        }
    }
}

/// Decoding what a singer was encoded to gives the singer back, for every
/// singer that fits in `MAX_SIZE` bytes.
pub proof fn lemma_singer_round_trip(v: SingerView)
    requires
        singer_bytes(v).len() <= MAX_SIZE,
    ensures
        singer_of_bytes(singer_bytes(v)) == Some(v),
{
    lemma_auto_spec_u64_to_from_le_bytes();
    lemma_auto_spec_u16_to_from_le_bytes();
    let b2 = frame_text(v.name) + Seq::<u8>::empty();
    let b1 = frame_stamp(v.updated_at) + b2;
    let b0 = frame_u64(v.id) + b1;
    let b = singer_bytes(v);
    assert(b2 =~= frame_text(v.name));
    assert(b[0] == LAYOUT_VERSION);
    assert(b.skip(1) =~= b0);
    lemma_read_u64(v.id, b1);
    lemma_read_stamp(v.updated_at, b2);
    lemma_read_text(v.name, Seq::empty());
}

/// Only a singer's own encoding decodes to it.
pub proof fn lemma_singer_bytes_unique(b: Seq<u8>, v: SingerView)
    requires
        singer_of_bytes(b) == Some(v),
    ensures
        singer_bytes(v) == b,
        b.len() <= MAX_SIZE,
{
    let b0 = b.skip(1);
    let b1 = read_u64(b0).unwrap().1;
    let b2 = read_stamp(b1).unwrap().1;
    let rest = read_text(b2).unwrap().1;
    lemma_read_u64_framed(b0);
    lemma_read_stamp_framed(b1);
    lemma_read_text_framed(b2);
    assert(rest =~= Seq::<u8>::empty());
    assert(frame_text(v.name) + rest =~= frame_text(v.name));
    assert(b =~= seq![LAYOUT_VERSION] + b0);
}

/// `String::from_utf8`: the text that the bytes are the UTF-8 form of, and
/// none where they are the form of no text.
#[verifier::external_body]
fn text_from_utf8(raw: Vec<u8>) -> (r: Option<String>)
    ensures
        r is Some <==> valid_utf8(raw@),
        r matches Some(s) ==> encode_utf8(s@) == raw@,
{
    String::from_utf8(raw).ok()
}

/// Appends the frame of an integer.
fn put_u64(out: &mut Vec<u8>, x: u64)
    ensures
        final(out)@ == old(out)@ + frame_u64(x),
        final(out)@.len() == old(out)@.len() + 8,
{
    let mut piece = u64_to_le_bytes(x);
    out.append(&mut piece);
}

/// Appends the frame of a time stamp.
fn put_stamp(out: &mut Vec<u8>, t: Option<u64>)
    ensures
        final(out)@ == old(out)@ + frame_stamp(t),
        final(out)@.len() == old(out)@.len() + if t is Some {
            9int
        } else {
            1int
        },
{
    match t {
        None => {
            out.push(0u8);
            assert(out@ =~= old(out)@ + frame_stamp(t));
        },
        Some(x) => {
            out.push(1u8);
            put_u64(out, x);
            assert(out@ =~= old(out)@ + frame_stamp(t));
        },
    }
}

/// Appends the frame of a byte string, unless `out` would then be longer
/// than `MAX_SIZE`.
fn put_bytes(out: &mut Vec<u8>, raw: &[u8]) -> (fits: bool)
    requires
        old(out)@.len() <= MAX_SIZE,
    ensures
        fits == (old(out)@.len() + 2 + raw@.len() <= MAX_SIZE),
        fits ==> final(out)@ == old(out)@ + frame_bytes(raw@),
        fits ==> final(out)@.len() == old(out)@.len() + 2 + raw@.len(),
        !fits ==> final(out)@ == old(out)@,
{
    let room: usize = MAX_SIZE - out.len();
    if room < 2 || raw.len() > room - 2 {
        return false;
    }
    let mut head = u16_to_le_bytes(raw.len() as u16);
    let mut body = slice_to_vec(raw);
    out.append(&mut head);
    out.append(&mut body);
    assert(out@ =~= old(out)@ + frame_bytes(raw@));
    true
}

/// Appends the frame of a text, unless `out` would then be longer than
/// `MAX_SIZE`.
fn put_text(out: &mut Vec<u8>, s: &String) -> (fits: bool)
    requires
        old(out)@.len() <= MAX_SIZE,
    ensures
        fits == (old(out)@.len() + 2 + encode_utf8(s@).len() <= MAX_SIZE),
        fits ==> final(out)@ == old(out)@ + frame_text(s@),
        fits ==> final(out)@.len() == old(out)@.len() + 2 + encode_utf8(s@).len(),
        !fits ==> final(out)@ == old(out)@,
{
    put_bytes(out, s.as_str().as_bytes())
}

/// Appends the frames of three texts, unless `out` would then be longer than
/// `MAX_SIZE`; `out` is then left with the frames that did fit.
fn put_texts(out: &mut Vec<u8>, first: &String, second: &String, third: &String) -> (fits: bool)
    requires
        old(out)@.len() <= MAX_SIZE,
    ensures
        fits == (old(out)@.len() + 6 + encode_utf8(first@).len() + encode_utf8(second@).len()
            + encode_utf8(third@).len() <= MAX_SIZE),
        fits ==> final(out)@ == old(out)@ + frame_texts((first@, second@, third@)),
        fits ==> final(out)@.len() == old(out)@.len() + 6 + encode_utf8(first@).len()
            + encode_utf8(second@).len() + encode_utf8(third@).len(),
{
    if !put_text(out, first) {
        return false;
    }
    if !put_text(out, second) {
        return false;
    }
    if !put_text(out, third) {
        return false;
    }
    proof {
        lemma_append_assoc(old(out)@ + frame_text(first@), frame_text(second@), frame_text(third@));
        lemma_append_assoc(
            old(out)@,
            frame_text(first@),
            frame_text(second@) + frame_text(third@),
        );
    }
    true
}

/// Appends the frame of an owner, unless `out` would then be longer than
/// `MAX_SIZE`.
fn put_owner(out: &mut Vec<u8>, owner: &Option<Vec<u8>>) -> (fits: bool)
    requires
        old(out)@.len() <= MAX_SIZE,
    ensures
        fits == (old(out)@.len() + frame_owner(crate::types::bytes_view(*owner)).len()
            <= MAX_SIZE),
        fits ==> final(out)@ == old(out)@ + frame_owner(crate::types::bytes_view(*owner)),
{
    proof {
        lemma_auto_spec_u16_to_from_le_bytes();
    }
    match owner {
        None => {
            assert(out@ =~= old(out)@ + Seq::<u8>::empty());
            true
        },
        Some(raw) => {
            if out.len() >= MAX_SIZE {
                return false;
            }
            out.push(1u8);
            if !put_bytes(out, raw.as_slice()) {
                return false;
            }
            assert(out@ =~= old(out)@ + (seq![1u8] + frame_bytes(raw@)));
            true
        },
    }
}

/// Reads the integer framed at `pos`.
fn take_u64(b: &[u8], pos: usize) -> (r: Option<(u64, usize)>)
    requires
        pos <= b@.len(),
    ensures
        match r {
            Some((x, next)) => pos <= next <= b@.len() && read_u64(b@.skip(pos as int)) == Some(
                (x, b@.skip(next as int)),
            ),
            None => read_u64(b@.skip(pos as int)) is None,
        },
{
    if b.len() - pos < 8 {
        return None;
    }
    let x = u64_from_le_bytes(slice_subrange(b, pos, pos + 8));
    proof {
        let from = b@.skip(pos as int);
        assert(from.take(8) =~= b@.subrange(pos as int, pos + 8));
        assert(from.skip(8) =~= b@.skip(pos + 8));
    }
    Some((x, pos + 8))
}

/// Reads the time stamp framed at `pos`.
fn take_stamp(b: &[u8], pos: usize) -> (r: Option<(Option<u64>, usize)>)
    requires
        pos <= b@.len(),
    ensures
        match r {
            Some((t, next)) => pos <= next <= b@.len() && read_stamp(b@.skip(pos as int)) == Some(
                (t, b@.skip(next as int)),
            ),
            None => read_stamp(b@.skip(pos as int)) is None,
        },
{
    if b.len() - pos < 1 {
        return None;
    }
    let tag = b[pos];
    proof {
        let from = b@.skip(pos as int);
        assert(from[0] == tag);
        assert(from.skip(1) =~= b@.skip(pos + 1));
    }
    if tag == 0 {
        Some((None, pos + 1))
    } else if tag == 1 {
        match take_u64(b, pos + 1) {
            Some((x, next)) => Some((Some(x), next)),
            None => None,
        }
    } else {
        None
    }
}

/// Reads the byte string framed at `pos`.
fn take_bytes(b: &[u8], pos: usize) -> (r: Option<(Vec<u8>, usize)>)
    requires
        pos <= b@.len(),
    ensures
        match r {
            Some((raw, next)) => pos <= next <= b@.len() && read_bytes(b@.skip(pos as int))
                == Some((raw@, b@.skip(next as int))),
            None => read_bytes(b@.skip(pos as int)) is None,
        },
{
    if b.len() - pos < 2 {
        return None;
    }
    let n = u16_from_le_bytes(slice_subrange(b, pos, pos + 2)) as usize;
    proof {
        let from = b@.skip(pos as int);
        assert(from.take(2) =~= b@.subrange(pos as int, pos + 2));
    }
    if b.len() - pos - 2 < n {
        return None;
    }
    let raw = slice_to_vec(slice_subrange(b, pos + 2, pos + 2 + n));
    proof {
        let from = b@.skip(pos as int);
        assert(from.subrange(2, 2 + n) =~= b@.subrange(pos + 2, pos + 2 + n));
        assert(from.skip(2 + n) =~= b@.skip(pos + 2 + n));
    }
    Some((raw, pos + 2 + n))
}

/// Reads the text framed at `pos`.
fn take_text(b: &[u8], pos: usize) -> (r: Option<(String, usize)>)
    requires
        pos <= b@.len(),
    ensures
        match r {
            Some((s, next)) => pos <= next <= b@.len() && read_text(b@.skip(pos as int)) == Some(
                (s@, b@.skip(next as int)),
            ),
            None => read_text(b@.skip(pos as int)) is None,
        },
{
    match take_bytes(b, pos) {
        Some((raw, next)) => {
            match text_from_utf8(raw) {
                Some(s) => {
                    proof {
                        encode_utf8_decode_utf8(s@);
                    }
                    Some((s, next))
                },
                None => None,
            }
        },
        None => None,
    }
}

/// Reads the three texts framed at `pos`.
fn take_texts(b: &[u8], pos: usize) -> (r: Option<((String, String, String), usize)>)
    requires
        pos <= b@.len(),
    ensures
        match r {
            Some((t, next)) => pos <= next <= b@.len() && read_texts(b@.skip(pos as int)) == Some(
                ((t.0@, t.1@, t.2@), b@.skip(next as int)),
            ),
            None => read_texts(b@.skip(pos as int)) is None,
        },
{
    let (first, pos1) = match take_text(b, pos) {
        Some(found) => found,
        None => { return None; },
    };
    let (second, pos2) = match take_text(b, pos1) {
        Some(found) => found,
        None => { return None; },
    };
    let (third, pos3) = match take_text(b, pos2) {
        Some(found) => found,
        None => { return None; },
    };
    Some(((first, second, third), pos3))
}

/// Reads the owner framed by all that stands from `pos` on.
fn take_owner(b: &[u8], pos: usize) -> (r: Option<Option<Vec<u8>>>)
    requires
        pos <= b@.len(),
    ensures
        match r {
            Some(o) => read_owner(b@.skip(pos as int)) == Some(crate::types::bytes_view(o)),
            None => read_owner(b@.skip(pos as int)) is None,
        },
{
    if pos == b.len() {
        return Some(None);
    }
    let tag = b[pos];
    proof {
        let from = b@.skip(pos as int);
        assert(from[0] == tag);
        assert(from.skip(1) =~= b@.skip(pos + 1));
    }
    if tag != 1 {
        return None;
    }
    match take_bytes(b, pos + 1) {
        Some((raw, next)) => {
            if next == b.len() {
                Some(Some(raw))
            } else {
                None
            }
        },
        None => None,
    }
}

impl Song {
    /// Encodes the song, or refuses one whose encoding would be longer than
    /// `MAX_SIZE`.
    pub fn to_bytes(&self) -> (r: Result<Vec<u8>, Error>)
        ensures
            match r {
                Ok(b) => b@ == song_bytes(self@) && b@.len() <= MAX_SIZE,
                Err(e) => e == Error::RecordTooLarge && song_bytes(self@).len() > MAX_SIZE,
            },
    {
        proof {
            lemma_song_size(self@);
            lemma_auto_spec_u16_to_from_le_bytes();
        }
        let ghost head = (self.file_name@, self.mime_type@, self.title@);
        let ghost tail = (self.singer@, self.genre@, self.release_date@);
        let ghost owner = frame_owner(self@.owner);
        let mut out: Vec<u8> = Vec::new();
        out.push(LAYOUT_VERSION);
        assert(out@ =~= seq![LAYOUT_VERSION]);
        put_u64(&mut out, self.id);
        put_u64(&mut out, self.duration);
        put_stamp(&mut out, self.updated_at);
        let ghost numbers = out@;
        if !put_texts(&mut out, &self.file_name, &self.mime_type, &self.title) {
            return Err(Error::RecordTooLarge);
        }
        if !put_texts(&mut out, &self.singer, &self.genre, &self.release_date) {
            return Err(Error::RecordTooLarge);
        }
        if !put_owner(&mut out, &self.owner) {
            return Err(Error::RecordTooLarge);
        }
        proof {
            let r4 = frame_texts(tail) + owner;
            let r3 = frame_texts(head) + r4;
            let r2 = frame_stamp(self.updated_at) + r3;
            let r1 = frame_u64(self.duration) + r2;
            let l0 = seq![LAYOUT_VERSION];
            let l1 = l0 + frame_u64(self.id);
            let l2 = l1 + frame_u64(self.duration);
            lemma_append_assoc(l0, frame_u64(self.id), r1);
            lemma_append_assoc(l1, frame_u64(self.duration), r2);
            lemma_append_assoc(l2, frame_stamp(self.updated_at), r3);
            lemma_append_assoc(numbers, frame_texts(head), r4);
            lemma_append_assoc(numbers + frame_texts(head), frame_texts(tail), owner);
        }
        Ok(out)
    }

    /// Decodes a song, or reports bytes that are the encoding of none.
    pub fn from_bytes(bytes: &[u8]) -> (r: Result<Song, Error>)
        ensures
            match r {
                Ok(song) => song_of_bytes(bytes@) == Some(song@),
                Err(e) => e == Error::DecodeCorruption && song_of_bytes(bytes@) is None,
            },
    {
        if bytes.len() > MAX_SIZE || bytes.len() == 0 || bytes[0] != LAYOUT_VERSION {
            return Err(Error::DecodeCorruption);
        }
        let (id, pos1) = match take_u64(bytes, 1) {
            Some(found) => found,
            None => { return Err(Error::DecodeCorruption); },
        };
        let (duration, pos2) = match take_u64(bytes, pos1) {
            Some(found) => found,
            None => { return Err(Error::DecodeCorruption); },
        };
        let (updated_at, pos3) = match take_stamp(bytes, pos2) {
            Some(found) => found,
            None => { return Err(Error::DecodeCorruption); },
        };
        let (head, pos4) = match take_texts(bytes, pos3) {
            Some(found) => found,
            None => { return Err(Error::DecodeCorruption); },
        };
        let (tail, pos5) = match take_texts(bytes, pos4) {
            Some(found) => found,
            None => { return Err(Error::DecodeCorruption); },
        };
        let owner = match take_owner(bytes, pos5) {
            Some(found) => found,
            None => { return Err(Error::DecodeCorruption); },
        };
        Ok(
            Song {
                id,
                file_name: head.0,
                mime_type: head.1,
                title: head.2,
                singer: tail.0,
                genre: tail.1,
                duration,
                release_date: tail.2,
                updated_at,
                owner,
            },
        )
    }
}

impl Singer {
    /// Encodes the singer, or refuses one whose encoding would be longer
    /// than `MAX_SIZE`.
    pub fn to_bytes(&self) -> (r: Result<Vec<u8>, Error>)
        ensures
            match r {
                Ok(b) => b@ == singer_bytes(self@) && b@.len() <= MAX_SIZE,
                Err(e) => e == Error::RecordTooLarge && singer_bytes(self@).len() > MAX_SIZE,
            },
    {
        proof {
            lemma_auto_spec_u64_to_from_le_bytes();
            lemma_auto_spec_u16_to_from_le_bytes();
        }
        let mut out: Vec<u8> = Vec::new();
        out.push(LAYOUT_VERSION);
        put_u64(&mut out, self.id);
        put_stamp(&mut out, self.updated_at);
        if !put_text(&mut out, &self.name) {
            return Err(Error::RecordTooLarge);
        }
        assert(out@ =~= singer_bytes(self@));
        Ok(out)
    }

    /// Decodes a singer, or reports bytes that are the encoding of none.
    pub fn from_bytes(bytes: &[u8]) -> (r: Result<Singer, Error>)
        ensures
            match r {
                Ok(singer) => singer_of_bytes(bytes@) == Some(singer@),
                Err(e) => e == Error::DecodeCorruption && singer_of_bytes(bytes@) is None,
            },
    {
        if bytes.len() > MAX_SIZE || bytes.len() == 0 || bytes[0] != LAYOUT_VERSION {
            return Err(Error::DecodeCorruption);
        }
        let (id, pos1) = match take_u64(bytes, 1) {
            Some(found) => found,
            None => { return Err(Error::DecodeCorruption); },
        };
        let (updated_at, pos2) = match take_stamp(bytes, pos1) {
            Some(found) => found,
            None => { return Err(Error::DecodeCorruption); },
        };
        let (name, pos3) = match take_text(bytes, pos2) {
            Some(found) => found,
            None => { return Err(Error::DecodeCorruption); },
        };
        if pos3 != bytes.len() {
            return Err(Error::DecodeCorruption);
        }
        Ok(Singer { id, name, updated_at })
    }
}

} // verus!
