//! Tag patches and how one is applied to an audio file's tag (through the
//! `lofty` crate).

use vstd::prelude::*;
use lofty::tag::{Accessor, ItemKey};
use crate::models::opt_view;
use crate::numbers::decimal;

verus! {

/// Partial set of tag fields to apply to a file and/or DB row. `None` means
/// "leave as-is" -- this is shared by per-track edits and the bulk-edit
/// panel's shared-field patch, so every field is independently optional.
#[derive(Debug, Clone)]
pub struct TagPatch {
    pub title: Option<String>,
    pub artist: Option<String>,
    pub album: Option<String>,
    pub album_artist: Option<String>,
    pub year: Option<i64>,
    pub genre: Option<String>,
    pub track_number: Option<i64>,
    pub disc_number: Option<i64>,
}

impl TagPatch {
    /// The patch that changes nothing.
    pub fn empty() -> (p: TagPatch)
        ensures
            p.title is None,
            p.artist is None,
            p.album is None,
            p.album_artist is None,
            p.year is None,
            p.genre is None,
            p.track_number is None,
            p.disc_number is None,
    {
        TagPatch {
            title: None,
            artist: None,
            album: None,
            album_artist: None,
            year: None,
            genre: None,
            track_number: None,
            disc_number: None,
        }
    }
}

/// Whether a patch changes any album-level field (album, album artist,
/// year, genre), which then also has to be written to the album row.
pub open spec fn touches_album(p: TagPatch) -> bool {
    p.album is Some || p.album_artist is Some || p.year is Some || p.genre is Some
}

/// Executable `touches_album`.
pub fn patch_touches_album(p: &TagPatch) -> (r: bool)
    ensures
        r == touches_album(*p),
{
    p.album.is_some() || p.album_artist.is_some() || p.year.is_some() || p.genre.is_some()
}

/// The part of a patch that concerns the track row alone: its album,
/// album artist, year and genre left out.
pub open spec fn track_part(p: TagPatch) -> TagPatch {
    TagPatch { album: None, album_artist: None, year: None, genre: None, ..p }
}

/// A patch touches the album row exactly when it holds more than its track
/// part, that is, when it sets the album, album artist, year or genre; a
/// patch that sets only the genre touches it, and the track part of any
/// patch never does.
pub proof fn law_touches_album(p: TagPatch)
    ensures
        touches_album(p) <==> p != track_part(p),
        !touches_album(track_part(p)),
        p.genre is Some ==> touches_album(p),
        p.album is Some ==> touches_album(p),
        p.album_artist is Some ==> touches_album(p),
        p.year is Some ==> touches_album(p),
{
    if !touches_album(p) {
        assert(p == track_part(p));
    }
}

/// `lofty::tag::Tag`, a format-independent tag.
#[verifier::external_type_specification]
#[verifier::external_body]
pub struct ExTag(lofty::tag::Tag);

/// The text items of a `lofty` tag that this library reads and writes, by
/// item code (`TITLE`, `ARTIST`, ...): the code maps to the text that
/// `Tag::get_string` returns for its item key, and is absent when that is `None`.
pub uninterp spec fn tag_texts(tag: lofty::tag::Tag) -> Map<u8, Seq<char>>;

/// The item codes a `lofty` tag can hold: those whose `ItemKey` has a
/// mapping for the tag's `TagType` (the test `Tag::insert` makes before it
/// inserts). It depends on the type the tag was made with alone.
pub uninterp spec fn supported_items(tag: lofty::tag::Tag) -> Set<u8>;

/// Whether `ItemKey::Year` has a key of its own for the tag's `TagType`
/// (`ItemKey::map_key(tag_type, false)` is `Some`), which decides where
/// `Accessor::set_year` writes a year. It depends on the tag's type alone.
pub uninterp spec fn year_has_own_item(tag: lofty::tag::Tag) -> bool;

pub const TITLE: u8 = 0;

pub const ARTIST: u8 = 1;

pub const ALBUM: u8 = 2;

pub const ALBUM_ARTIST: u8 = 3;

pub const GENRE: u8 = 4;

pub const YEAR: u8 = 5;

pub const RECORDING_DATE: u8 = 6;

pub const TRACK_NUMBER: u8 = 7;

pub const DISC_NUMBER: u8 = 8;

/// The item codes.
pub open spec fn item_code(k: u8) -> bool {
    0 <= k <= 8
}

/// After inserting text for item `code`: the item now holds `text` when the
/// tag's format supports the item, and nothing changed otherwise; every
/// other item is as before.
pub open spec fn inserted(before: Map<u8, Seq<char>>, after: Map<u8, Seq<char>>, supported: Set<u8>, code: u8, text: Seq<char>) -> bool {
    if supported.contains(code) {
        after == before.insert(code, text)
    } else {
        after == before
    }
}

/// `Accessor::set_title` on a `lofty` tag: inserts a `TrackTitle` text
/// item replacing any existing one, when the tag's format supports it.
#[verifier::external_body]
fn set_title(tag: &mut lofty::tag::Tag, value: String)
    ensures
        inserted(tag_texts(*old(tag)), tag_texts(*final(tag)), supported_items(*old(tag)), TITLE, value@),
        supported_items(*final(tag)) == supported_items(*old(tag)),
        year_has_own_item(*final(tag)) == year_has_own_item(*old(tag)),
{
    tag.set_title(value);
}

/// `Accessor::set_artist`: the same for the `TrackArtist` item.
#[verifier::external_body]
fn set_artist(tag: &mut lofty::tag::Tag, value: String)
    ensures
        inserted(tag_texts(*old(tag)), tag_texts(*final(tag)), supported_items(*old(tag)), ARTIST, value@),
        supported_items(*final(tag)) == supported_items(*old(tag)),
        year_has_own_item(*final(tag)) == year_has_own_item(*old(tag)),
{
    tag.set_artist(value);
}

/// `Accessor::set_album`: the same for the `AlbumTitle` item.
#[verifier::external_body]
fn set_album(tag: &mut lofty::tag::Tag, value: String)
    ensures
        inserted(tag_texts(*old(tag)), tag_texts(*final(tag)), supported_items(*old(tag)), ALBUM, value@),
        supported_items(*final(tag)) == supported_items(*old(tag)),
        year_has_own_item(*final(tag)) == year_has_own_item(*old(tag)),
{
    tag.set_album(value);
}

/// `Accessor::set_genre`: the same for the `Genre` item.
#[verifier::external_body]
fn set_genre(tag: &mut lofty::tag::Tag, value: String)
    ensures
        inserted(tag_texts(*old(tag)), tag_texts(*final(tag)), supported_items(*old(tag)), GENRE, value@),
        supported_items(*final(tag)) == supported_items(*old(tag)),
        year_has_own_item(*final(tag)) == year_has_own_item(*old(tag)),
{
    tag.set_genre(value);
}

/// `Tag::insert_text(ItemKey::AlbumArtist, ..)`: inserts the item
/// (replacing any existing one) and returns `true` when the tag's format
/// supports it; otherwise returns `false` and the tag is unchanged.
#[verifier::external_body]
fn insert_album_artist(tag: &mut lofty::tag::Tag, value: String) -> (r: bool)
    ensures
        r == supported_items(*old(tag)).contains(ALBUM_ARTIST),
        supported_items(*final(tag)) == supported_items(*old(tag)),
        year_has_own_item(*final(tag)) == year_has_own_item(*old(tag)),
        r ==> tag_texts(*final(tag)) == tag_texts(*old(tag)).insert(ALBUM_ARTIST, value@),
        !r ==> tag_texts(*final(tag)) == tag_texts(*old(tag)),
{
    tag.insert_text(ItemKey::AlbumArtist, value)
}

/// `Accessor::set_track`: inserts the number's decimal text as the
/// `TrackNumber` item, when the tag's format supports it.
#[verifier::external_body]
fn set_track(tag: &mut lofty::tag::Tag, value: u32)
    ensures
        inserted(tag_texts(*old(tag)), tag_texts(*final(tag)), supported_items(*old(tag)), TRACK_NUMBER, decimal(value as int)),
        supported_items(*final(tag)) == supported_items(*old(tag)),
        year_has_own_item(*final(tag)) == year_has_own_item(*old(tag)),
{
    tag.set_track(value);
}

/// `Accessor::set_disk`: the same for the `DiscNumber` item.
#[verifier::external_body]
fn set_disk(tag: &mut lofty::tag::Tag, value: u32)
    ensures
        inserted(tag_texts(*old(tag)), tag_texts(*final(tag)), supported_items(*old(tag)), DISC_NUMBER, decimal(value as int)),
        supported_items(*final(tag)) == supported_items(*old(tag)),
        year_has_own_item(*final(tag)) == year_has_own_item(*old(tag)),
{
    tag.set_disk(value);
}

/// Whether `Accessor::set_year` can run on a tag: when the tag has a
/// recording date of four bytes or more, `set_year` splits it after its
/// fourth byte, which must then end a character.
pub open spec fn year_settable(texts: Map<u8, Seq<char>>) -> bool {
    texts.contains_key(RECORDING_DATE) ==> {
        let b = vstd::utf8::encode_utf8(texts[RECORDING_DATE]);
        b.len() < 4 || vstd::utf8::is_char_boundary(b, 4)
    }
}

/// The text after the first four bytes of a recording date.
pub open spec fn date_rest(date: Seq<char>) -> Seq<char> {
    vstd::utf8::decode_utf8(vstd::utf8::encode_utf8(date).skip(4))
}

/// A tag's items after `Accessor::set_year(value)`: a recording date of
/// four bytes or more gets the year in place of its first four bytes;
/// otherwise the year item is set when the tag's type has its own year
/// item, and the recording date is set to the year when it has not. An
/// item the tag's format does not support is left as it was.
pub open spec fn year_applied(before: Map<u8, Seq<char>>, supported: Set<u8>, own_year: bool, value: u32) -> Map<u8, Seq<char>> {
    let d = decimal(value as int);
    let (code, text) = if before.contains_key(RECORDING_DATE) && vstd::utf8::encode_utf8(
        before[RECORDING_DATE],
    ).len() >= 4 {
        (RECORDING_DATE, d + date_rest(before[RECORDING_DATE]))
    } else if own_year {
        (YEAR, d)
    } else {
        (RECORDING_DATE, d)
    };
    if supported.contains(code) {
        before.insert(code, text)
    } else {
        before
    }
}

/// Writing a year changes no item but the year and the recording date.
proof fn lemma_year_applied_frame(before: Map<u8, Seq<char>>, supported: Set<u8>, own_year: bool, value: u32)
    ensures
        forall|k: u8|
            k != YEAR && k != RECORDING_DATE ==> #[trigger] same_at(
                before,
                year_applied(before, supported, own_year, value),
                k,
            ),
{
    reveal(year_applied);
}

/// What a year write gives for the year and recording date depends only on
/// those two items.
proof fn lemma_year_applied_agrees(a: Map<u8, Seq<char>>, b: Map<u8, Seq<char>>, supported: Set<u8>, own_year: bool, value: u32)
    requires
        same_at(a, b, YEAR),
        same_at(a, b, RECORDING_DATE),
    ensures
        same_at(year_applied(a, supported, own_year, value), year_applied(b, supported, own_year, value), YEAR),
        same_at(
            year_applied(a, supported, own_year, value),
            year_applied(b, supported, own_year, value),
            RECORDING_DATE,
        ),
{
    reveal(year_applied);
}

/// `Accessor::set_year`: when the tag's recording date is four bytes or
/// longer, inserts the year's digits followed by the date's text after its
/// fourth byte as the recording date; otherwise inserts the year's digits
/// as the year item when `ItemKey::Year` maps for the tag's type, and as
/// the recording date when it does not. Each insert happens only where the
/// tag's format supports the item.
#[verifier::external_body]
fn set_year(tag: &mut lofty::tag::Tag, value: u32)
    requires
        year_settable(tag_texts(*old(tag))),
    ensures
        tag_texts(*final(tag)) == year_applied(
            tag_texts(*old(tag)),
            supported_items(*old(tag)),
            year_has_own_item(*old(tag)),
            value,
        ),
        supported_items(*final(tag)) == supported_items(*old(tag)),
        year_has_own_item(*final(tag)) == year_has_own_item(*old(tag)),
{
    tag.set_year(value);
}


/// Item `k` holds the same text (or is absent) in both maps.
pub open spec fn same_at(before: Map<u8, Seq<char>>, after: Map<u8, Seq<char>>, k: u8) -> bool {
    after.contains_key(k) == before.contains_key(k) && after[k] == before[k]
}

/// The item codes a step may change: `code` when the step writes it.
pub open spec fn touched_by(writes: bool, code: u8) -> Set<u8> {
    if writes {
        set![code]
    } else {
        Set::empty()
    }
}

/// Two item maps agree on every item but those in `codes`.
pub open spec fn agree_except(a: Map<u8, Seq<char>>, b: Map<u8, Seq<char>>, codes: Set<u8>) -> bool {
    forall|k: u8| !codes.contains(k) ==> #[trigger] same_at(a, b, k)
}

proof fn lemma_agree_refl(a: Map<u8, Seq<char>>)
    ensures
        agree_except(a, a, Set::empty()),
{
}

proof fn lemma_agree_trans(a: Map<u8, Seq<char>>, b: Map<u8, Seq<char>>, c: Map<u8, Seq<char>>, s1: Set<u8>, s2: Set<u8>)
    requires
        agree_except(a, b, s1),
        agree_except(b, c, s2),
    ensures
        agree_except(a, c, s1 + s2),
{
    assert forall|k: u8| !(s1 + s2).contains(k) implies #[trigger] same_at(a, c, k) by {
        assert(same_at(a, b, k));
        assert(same_at(b, c, k));
    }
}

/// One patch field's step: it writes the field's item when the field is
/// `Some` (as far as the format supports it) and changes nothing else.
proof fn lemma_field_step(before: Map<u8, Seq<char>>, after: Map<u8, Seq<char>>, supported: Set<u8>, code: u8, value: Option<Seq<char>>)
    requires
        match value {
            Some(v) => inserted(before, after, supported, code, v),
            None => after == before,
        },
    ensures
        field_applied(before, after, supported, code, value),
        agree_except(before, after, touched_by(value is Some, code)),
{
}

/// A field written at one step and left alone by the steps before and
/// after it ends up as that step wrote it.
proof fn lemma_field_carried(
    t0: Map<u8, Seq<char>>,
    tj: Map<u8, Seq<char>>,
    tk: Map<u8, Seq<char>>,
    tn: Map<u8, Seq<char>>,
    supported: Set<u8>,
    code: u8,
    value: Option<Seq<char>>,
    earlier: Set<u8>,
    later: Set<u8>,
)
    requires
        field_applied(tj, tk, supported, code, value),
        agree_except(t0, tj, earlier),
        agree_except(tk, tn, later),
        !earlier.contains(code),
        !later.contains(code),
    ensures
        field_applied(t0, tn, supported, code, value),
{
    assert(same_at(t0, tj, code));
    assert(same_at(tk, tn, code));
}

/// How one item of a tag relates before and after a patch field was applied:
/// set to the field's text when the field is `Some` and the tag's format
/// supports the item, untouched otherwise.
pub open spec fn field_applied(before: Map<u8, Seq<char>>, after: Map<u8, Seq<char>>, supported: Set<u8>, code: u8, value: Option<Seq<char>>) -> bool {
    match value {
        Some(v) => if supported.contains(code) {
            after.contains_key(code) && after[code] == v
        } else {
            same_at(before, after, code)
        },
        None => same_at(before, after, code),
    }
}

/// The text a numeric patch field is written as: its value cast to `u32`.
pub open spec fn number_text(n: Option<i64>) -> Option<Seq<char>> {
    match n {
        Some(v) => Some(decimal((v as u32) as int)),
        None => None,
    }
}

/// What applying `patch` does to a tag's items: each item the patch names
/// ends up holding the patch's text where the tag's format supports that
/// item, and as it was otherwise; items the patch leaves `None` are
/// untouched (the year and recording date included when the patch has no
/// year).
pub open spec fn patch_applied(before: Map<u8, Seq<char>>, after: Map<u8, Seq<char>>, supported: Set<u8>, own_year: bool, patch: TagPatch) -> bool {
    &&& field_applied(before, after, supported, TITLE, opt_view(patch.title))
    &&& field_applied(before, after, supported, ARTIST, opt_view(patch.artist))
    &&& field_applied(before, after, supported, ALBUM, opt_view(patch.album))
    &&& field_applied(before, after, supported, ALBUM_ARTIST, opt_view(patch.album_artist))
    &&& field_applied(before, after, supported, GENRE, opt_view(patch.genre))
    &&& field_applied(before, after, supported, TRACK_NUMBER, number_text(patch.track_number))
    &&& field_applied(before, after, supported, DISC_NUMBER, number_text(patch.disc_number))
    &&& (patch.year is None ==> same_at(before, after, YEAR) && same_at(before, after, RECORDING_DATE))
    &&& (patch.year matches Some(y) ==> {
        let w = year_applied(before, supported, own_year, y as u32);
        same_at(w, after, YEAR) && same_at(w, after, RECORDING_DATE)
    })
}

/// The patch that names no field.
pub open spec fn patch_is_empty(patch: TagPatch) -> bool {
    patch.title is None && patch.artist is None && patch.album is None && patch.album_artist is None
        && patch.year is None && patch.genre is None && patch.track_number is None
        && patch.disc_number is None
}

/// Applies every `Some` field of `patch` to a tag: title, artist, album,
/// album artist, genre, year, track number, disc number. Each such item the
/// tag's format supports then holds the patch's text; an empty patch leaves
/// every item as it was. This is the tag in memory: what a file saved from
/// it reads back as is up to `lofty`'s tag writers and readers.
pub fn apply_patch_to_tag(tag: &mut lofty::tag::Tag, patch: &TagPatch)
    requires
        patch.year is Some ==> year_settable(tag_texts(*old(tag))),
    ensures
        patch_applied(
            tag_texts(*old(tag)),
            tag_texts(*final(tag)),
            supported_items(*old(tag)),
            year_has_own_item(*old(tag)),
            *patch,
        ),
        supported_items(*final(tag)) == supported_items(*old(tag)),
        year_has_own_item(*final(tag)) == year_has_own_item(*old(tag)),
        patch_is_empty(*patch) ==> forall|k: u8|
            item_code(k) ==> #[trigger] same_at(tag_texts(*old(tag)), tag_texts(*final(tag)), k),
{
    let ghost t0 = tag_texts(*tag);
    let ghost s = supported_items(*tag);
    if let Some(v) = &patch.title {
        set_title(tag, v.clone());
    }
    let ghost t1 = tag_texts(*tag);
    proof { lemma_field_step(t0, t1, s, TITLE, opt_view(patch.title)); }
    if let Some(v) = &patch.artist {
        set_artist(tag, v.clone());
    }
    let ghost t2 = tag_texts(*tag);
    proof { lemma_field_step(t1, t2, s, ARTIST, opt_view(patch.artist)); }
    if let Some(v) = &patch.album {
        set_album(tag, v.clone());
    }
    let ghost t3 = tag_texts(*tag);
    proof { lemma_field_step(t2, t3, s, ALBUM, opt_view(patch.album)); }
    if let Some(v) = &patch.album_artist {
        let _ = insert_album_artist(tag, v.clone());
    }
    let ghost t4 = tag_texts(*tag);
    proof { lemma_field_step(t3, t4, s, ALBUM_ARTIST, opt_view(patch.album_artist)); }
    if let Some(v) = &patch.genre {
        set_genre(tag, v.clone());
    }
    let ghost t5 = tag_texts(*tag);
    let ghost before_year = touched_by(patch.title is Some, TITLE) + touched_by(patch.artist is Some, ARTIST)
        + touched_by(patch.album is Some, ALBUM) + touched_by(patch.album_artist is Some, ALBUM_ARTIST)
        + touched_by(patch.genre is Some, GENRE);
    proof {
        lemma_field_step(t4, t5, s, GENRE, opt_view(patch.genre));
        lemma_agree_trans(t0, t1, t2, touched_by(patch.title is Some, TITLE), touched_by(patch.artist is Some, ARTIST));
        lemma_agree_trans(t0, t2, t3, touched_by(patch.title is Some, TITLE) + touched_by(patch.artist is Some, ARTIST), touched_by(patch.album is Some, ALBUM));
        lemma_agree_trans(t0, t3, t4, touched_by(patch.title is Some, TITLE) + touched_by(patch.artist is Some, ARTIST) + touched_by(patch.album is Some, ALBUM), touched_by(patch.album_artist is Some, ALBUM_ARTIST));
        lemma_agree_trans(t0, t4, t5, touched_by(patch.title is Some, TITLE) + touched_by(patch.artist is Some, ARTIST) + touched_by(patch.album is Some, ALBUM) + touched_by(patch.album_artist is Some, ALBUM_ARTIST), touched_by(patch.genre is Some, GENRE));
        assert(same_at(t0, t5, YEAR) && same_at(t0, t5, RECORDING_DATE));
    }
    if let Some(v) = patch.year {
        set_year(tag, #[verifier::truncate] (v as u32));
        proof {
            lemma_year_applied_frame(t5, s, year_has_own_item(*tag), v as u32);
            lemma_year_applied_agrees(t0, t5, s, year_has_own_item(*tag), v as u32);
        }
    }
    let ghost t6 = tag_texts(*tag);
    let ghost year_codes = if patch.year is Some { set![YEAR, RECORDING_DATE] } else { Set::<u8>::empty() };
    proof {
        assert(agree_except(t5, t6, year_codes));
    }
    if let Some(v) = patch.track_number {
        set_track(tag, #[verifier::truncate] (v as u32));
    }
    let ghost t7 = tag_texts(*tag);
    proof { lemma_field_step(t6, t7, s, TRACK_NUMBER, number_text(patch.track_number)); }
    if let Some(v) = patch.disc_number {
        set_disk(tag, #[verifier::truncate] (v as u32));
    }
    let ghost t8 = tag_texts(*tag);
    proof {
        let tt = touched_by(patch.title is Some, TITLE);
        let ta = touched_by(patch.artist is Some, ARTIST);
        let tb = touched_by(patch.album is Some, ALBUM);
        let tc = touched_by(patch.album_artist is Some, ALBUM_ARTIST);
        let tg = touched_by(patch.genre is Some, GENRE);
        let tn = touched_by(patch.track_number is Some, TRACK_NUMBER);
        let td = touched_by(patch.disc_number is Some, DISC_NUMBER);
        lemma_field_step(t7, t8, s, DISC_NUMBER, number_text(patch.disc_number));
        // what later steps may touch, from each point to the end
        lemma_agree_trans(t6, t7, t8, tn, td);
        lemma_agree_trans(t5, t6, t8, year_codes, tn + td);
        lemma_agree_trans(t4, t5, t8, tg, year_codes + (tn + td));
        lemma_agree_trans(t3, t4, t8, tc, tg + (year_codes + (tn + td)));
        lemma_agree_trans(t2, t3, t8, tb, tc + (tg + (year_codes + (tn + td))));
        lemma_agree_trans(t1, t2, t8, ta, tb + (tc + (tg + (year_codes + (tn + td)))));
        lemma_agree_trans(t0, t1, t8, tt, ta + (tb + (tc + (tg + (year_codes + (tn + td))))));
        // each field as written at its own step and left alone before and after it
        lemma_agree_refl(t0);
        lemma_field_carried(t0, t0, t1, t8, s, TITLE, opt_view(patch.title), Set::empty(), ta + (tb + (tc + (tg + (year_codes + (tn + td))))));
        lemma_field_carried(t0, t1, t2, t8, s, ARTIST, opt_view(patch.artist), tt, tb + (tc + (tg + (year_codes + (tn + td)))));
        lemma_field_carried(t0, t2, t3, t8, s, ALBUM, opt_view(patch.album), tt + ta, tc + (tg + (year_codes + (tn + td))));
        lemma_field_carried(t0, t3, t4, t8, s, ALBUM_ARTIST, opt_view(patch.album_artist), tt + ta + tb, tg + (year_codes + (tn + td)));
        lemma_field_carried(t0, t4, t5, t8, s, GENRE, opt_view(patch.genre), tt + ta + tb + tc, year_codes + (tn + td));
        lemma_agree_trans(t0, t5, t6, before_year, year_codes);
        lemma_field_carried(t0, t6, t7, t8, s, TRACK_NUMBER, number_text(patch.track_number), before_year + year_codes, td);
        lemma_agree_trans(t0, t6, t7, before_year + year_codes, tn);
        lemma_agree_refl(t8);
        lemma_field_carried(t0, t7, t8, t8, s, DISC_NUMBER, number_text(patch.disc_number), before_year + year_codes + tn, Set::empty());
        assert(same_at(t6, t8, YEAR) && same_at(t6, t8, RECORDING_DATE));
    }
}

/// `Tag::get_string(&ItemKey::RecordingDate)`: the tag's recording-date
/// text, as `tag_texts` records it under `RECORDING_DATE`.
#[verifier::external_body]
fn recording_date(tag: &lofty::tag::Tag) -> (r: Option<String>)
    ensures
        match r {
            Some(s) => tag_texts(*tag).contains_key(RECORDING_DATE) && tag_texts(*tag)[RECORDING_DATE] == s@,
            None => !tag_texts(*tag).contains_key(RECORDING_DATE),
        },
{
    match tag.get_string(&ItemKey::RecordingDate) {
        Some(s) => Some(s.to_string()),
        None => None,
    }
}

/// Whether a year can be written over a recording date `date`: the date is
/// shorter than four bytes, or its fourth byte ends a character.
pub fn year_fits_date(date: &str) -> (r: bool)
    ensures
        r == (vstd::utf8::encode_utf8(date@).len() < 4 || vstd::utf8::is_char_boundary(
            vstd::utf8::encode_utf8(date@),
            4,
        )),
{
    let bytes = date.as_bytes();
    bytes.len() < 4 || date.is_char_boundary(4)
}

/// Applies `patch` to a tag when its year (if any) can be written: returns
/// `false`, leaving the tag as it was, when the patch has a year and the
/// tag's recording date cannot take one.
pub fn apply_patch_checked(tag: &mut lofty::tag::Tag, patch: &TagPatch) -> (r: bool)
    ensures
        r == (patch.year is None || year_settable(tag_texts(*old(tag)))),
        r ==> patch_applied(
            tag_texts(*old(tag)),
            tag_texts(*final(tag)),
            supported_items(*old(tag)),
            year_has_own_item(*old(tag)),
            *patch,
        ),
        !r ==> *final(tag) == *old(tag),
{
    if patch.year.is_some() {
        match recording_date(tag) {
            Some(d) => {
                if !year_fits_date(d.as_str()) {
                    return false;
                }
            },
            None => {},
        }
    }
    apply_patch_to_tag(tag, patch);
    true
}

} // verus!
