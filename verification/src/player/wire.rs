//! The lines that the player and the engine exchange: one JSON object to a line.
use vstd::prelude::*;

use super::protocol::{
    Command, Event, Item, PlaybackState, Queue, QueueChange, RepeatMode, Tokens,
};
use crate::double::{as_double, capped, round, rounded, through_double};
use crate::json::{
    self, every, field, field_in, fits, fitting, list_text, quoted, text_in, truth_in, Json, Number,
};
use crate::music::types::{seen, seen_opt};
use crate::text;

verus! {

/// What an item says.
#[verifier::ext_equal]
pub struct ItemView {
    pub occurrence_id: Seq<char>,
    pub id: Option<Seq<char>>,
    pub catalog_id: Option<Seq<char>>,
    pub title: Seq<char>,
    pub artist: Seq<char>,
    pub album: Seq<char>,
    pub duration_ms: u64,
    pub track_number: u32,
    pub artwork_template: Option<Seq<char>>,
}

impl View for Item {
    type V = ItemView;

    open spec fn view(&self) -> ItemView {
        ItemView {
            occurrence_id: self.occurrence_id@,
            id: text::opt_view(self.id),
            catalog_id: text::opt_view(self.catalog_id),
            title: self.title@,
            artist: self.artist@,
            album: self.album@,
            duration_ms: self.duration_ms,
            track_number: self.track_number,
            artwork_template: text::opt_view(self.artwork_template),
        }
    }
}

/// What a queue says.
#[verifier::ext_equal]
pub struct QueueView {
    pub reason: QueueChange,
    pub position: i64,
    pub items: Seq<ItemView>,
}

impl View for Queue {
    type V = QueueView;

    open spec fn view(&self) -> QueueView {
        QueueView { reason: self.reason, position: self.position, items: seen(self.items@) }
    }
}

/// What credentials say.
#[verifier::ext_equal]
pub struct TokensView {
    pub developer_token: Seq<char>,
    pub music_user_token: Option<Seq<char>>,
    pub storefront: Seq<char>,
    pub authorized: bool,
}

impl View for Tokens {
    type V = TokensView;

    open spec fn view(&self) -> TokensView {
        TokensView {
            developer_token: self.developer_token@,
            music_user_token: text::opt_view(self.music_user_token),
            storefront: self.storefront@,
            authorized: self.authorized,
        }
    }
}

/// The name of one of several things: a text, or an object with nothing under
/// that name and no other.
pub open spec fn name_in(v: Option<Json>) -> Option<Seq<char>> {
    match v {
        Some(Json::Text(s)) => Some(s@),
        Some(Json::Object(m)) => if m@.len() == 1 && is_nothing(m@[0].1) {
            Some(m@[0].0@)
        } else {
            None
        },
        _ => None,
    }
}

/// Whether a value says nothing: null, or an object without members.
pub open spec fn is_nothing(v: Json) -> bool {
    match v {
        Json::Null => true,
        Json::Object(m) => m@.len() == 0,
        _ => false,
    }
}

fn name_of(v: Option<&Json>) -> (r: Option<&str>)
    ensures
        match r {
            Some(s) => name_in(json::held(v)) == Some(s@),
            None => name_in(json::held(v)) is None,
        },
{
    match v {
        Some(Json::Text(s)) => Some(s.as_str()),
        Some(Json::Object(m)) => if m.len() == 1 {
            let nothing = match &m[0].1 {
                Json::Null => true,
                Json::Object(inner) => inner.len() == 0,
                _ => false,
            };
            if nothing {
                Some(m[0].0.as_str())
            } else {
                None
            }
        } else {
            None
        },
        _ => None,
    }
}

/// The text under `key`.
pub open spec fn text_at(v: Json, i: int, key: Seq<char>) -> Option<Seq<char>> {
    text_in(field_in(v, i, key))
}

fn read_text(v: &Json, i: usize, key: &str) -> (r: Option<String>)
    ensures
        text::opt_view(r) == text_at(*v, i as int, key@),
{
    match json::text_of(field(v, i, key)) {
        Some(s) => Some(s.to_owned()),
        None => None,
    }
}

/// The text under `key`; an empty one where there is no such member.
pub open spec fn text_or_at(v: Json, i: int, key: Seq<char>) -> Option<Seq<char>> {
    match field_in(v, i, key) {
        None => Some(Seq::empty()),
        found => text_in(found),
    }
}

fn read_text_or(v: &Json, i: usize, key: &str) -> (r: Option<String>)
    ensures
        text::opt_view(r) == text_or_at(*v, i as int, key@),
{
    if field(v, i, key).is_none() {
        return Some(String::new());
    }
    read_text(v, i, key)
}

/// The text under `key`, if any: there may be no such member, or it may be null.
pub open spec fn maybe_text_at(v: Json, i: int, key: Seq<char>) -> Option<Option<Seq<char>>> {
    match field_in(v, i, key) {
        None => Some(None),
        Some(Json::Null) => Some(None),
        Some(Json::Text(s)) => Some(Some(s@)),
        Some(_) => None,
    }
}

fn read_maybe_text(v: &Json, i: usize, key: &str) -> (r: Option<Option<String>>)
    ensures
        match r {
            Some(s) => maybe_text_at(*v, i as int, key@) == Some(text::opt_view(s)),
            None => maybe_text_at(*v, i as int, key@) is None,
        },
{
    match field(v, i, key) {
        None => Some(None),
        Some(Json::Null) => Some(None),
        Some(Json::Text(s)) => Some(Some(s.clone())),
        Some(_) => None,
    }
}

/// The truth under `key`.
pub open spec fn flag_at(v: Json, i: int, key: Seq<char>) -> Option<bool> {
    truth_in(field_in(v, i, key))
}

fn read_flag(v: &Json, i: usize, key: &str) -> (r: Option<bool>)
    ensures
        r == flag_at(*v, i as int, key@),
{
    json::truth_of(field(v, i, key))
}

/// The truth under `key`; no where there is no such member.
pub open spec fn flag_or_at(v: Json, i: int, key: Seq<char>) -> Option<bool> {
    match field_in(v, i, key) {
        None => Some(false),
        found => truth_in(found),
    }
}

fn read_flag_or(v: &Json, i: usize, key: &str) -> (r: Option<bool>)
    ensures
        r == flag_or_at(*v, i as int, key@),
{
    if field(v, i, key).is_none() {
        return Some(false);
    }
    read_flag(v, i, key)
}

/// The whole number that a value is, whichever its sign.
pub open spec fn integer_in(v: Option<Json>) -> Option<int> {
    match v {
        Some(Json::Number(Number::Whole(n))) => Some(n as int),
        Some(Json::Number(Number::Below(n))) => Some(n as int),
        _ => None,
    }
}

/// The number of 64 bits under `key`.
pub open spec fn whole_at(v: Json, i: int, key: Seq<char>) -> Option<u64> {
    match integer_in(field_in(v, i, key)) {
        Some(n) if 0 <= n <= u64::MAX => Some(n as u64),
        _ => None,
    }
}

fn read_whole(v: &Json, i: usize, key: &str) -> (r: Option<u64>)
    ensures
        r == whole_at(*v, i as int, key@),
{
    match field(v, i, key) {
        Some(Json::Number(Number::Whole(n))) => Some(*n),
        Some(Json::Number(Number::Below(n))) => if *n >= 0 {
            Some(*n as u64)
        } else {
            None
        },
        _ => None,
    }
}

/// The number of 32 bits under `key`.
pub open spec fn small_at(v: Json, i: int, key: Seq<char>) -> Option<u32> {
    match integer_in(field_in(v, i, key)) {
        Some(n) if 0 <= n <= u32::MAX => Some(n as u32),
        _ => None,
    }
}

fn read_small(v: &Json, i: usize, key: &str) -> (r: Option<u32>)
    ensures
        r == small_at(*v, i as int, key@),
{
    match read_whole(v, i, key) {
        Some(n) => if n <= u32::MAX as u64 {
            Some(n as u32)
        } else {
            None
        },
        None => None,
    }
}

/// The number of 32 bits under `key`; zero where there is no such member.
pub open spec fn small_or_at(v: Json, i: int, key: Seq<char>) -> Option<u32> {
    match field_in(v, i, key) {
        None => Some(0),
        Some(_) => small_at(v, i, key),
    }
}

fn read_small_or(v: &Json, i: usize, key: &str) -> (r: Option<u32>)
    ensures
        r == small_or_at(*v, i as int, key@),
{
    if field(v, i, key).is_none() {
        return Some(0);
    }
    read_small(v, i, key)
}

/// The signed number of 32 bits under `key`; zero where there is no such member.
pub open spec fn signed_or_at(v: Json, i: int, key: Seq<char>) -> Option<i32> {
    match field_in(v, i, key) {
        None => Some(0),
        found => match integer_in(found) {
            Some(n) if i32::MIN <= n <= i32::MAX => Some(n as i32),
            _ => None,
        },
    }
}

fn read_signed_or(v: &Json, i: usize, key: &str) -> (r: Option<i32>)
    ensures
        r == signed_or_at(*v, i as int, key@),
{
    match field(v, i, key) {
        None => Some(0),
        Some(Json::Number(Number::Whole(n))) => if *n <= i32::MAX as u64 {
            Some(*n as i32)
        } else {
            None
        },
        Some(Json::Number(Number::Below(n))) => if i32::MIN as i64 <= *n && *n <= i32::MAX as i64 {
            Some(*n as i32)
        } else {
            None
        },
        Some(_) => None,
    }
}

/// The queue position; minus one where there is none.
pub open spec fn place_in(found: Option<Json>) -> Option<i64> {
    match found {
        None => Some(-1i64),
        found => match integer_in(found) {
            Some(n) if i64::MIN <= n <= i64::MAX => Some(n as i64),
            _ => None,
        },
    }
}

fn read_place(found: Option<&Json>) -> (r: Option<i64>)
    ensures
        r == place_in(json::held(found)),
{
    match found {
        None => Some(Queue::no_position()),
        Some(Json::Number(Number::Whole(n))) => if *n <= i64::MAX as u64 {
            Some(*n as i64)
        } else {
            None
        },
        Some(Json::Number(Number::Below(n))) => Some(*n),
        Some(_) => None,
    }
}

/// The milliseconds that a value is.
///
/// The engine uses numbers below zero to say that it has none, so those are
/// zero; and a fraction is rounded. Every number is read as a double first.
pub open spec fn ms_in(v: Option<Json>) -> Option<u64> {
    match v {
        Some(Json::Number(Number::Whole(n))) => Some(capped(as_double(n as int))),
        Some(Json::Number(Number::Below(_))) => Some(0),
        Some(Json::Number(Number::Other(bits))) => Some(rounded(bits)),
        _ => None,
    }
}

/// The milliseconds under `key`.
pub open spec fn ms_at(v: Json, i: int, key: Seq<char>) -> Option<u64> {
    ms_in(field_in(v, i, key))
}

fn read_ms(v: &Json, i: usize, key: &str) -> (r: Option<u64>)
    ensures
        r == ms_at(*v, i as int, key@),
{
    match field(v, i, key) {
        Some(Json::Number(Number::Whole(n))) => Some(through_double(*n)),
        Some(Json::Number(Number::Below(_))) => Some(0),
        Some(Json::Number(Number::Other(bits))) => Some(round(*bits)),
        _ => None,
    }
}

/// The milliseconds under `key`; none where there is no such member.
pub open spec fn ms_or_at(v: Json, i: int, key: Seq<char>) -> Option<u64> {
    match field_in(v, i, key) {
        None => Some(0),
        found => ms_in(found),
    }
}

fn read_ms_or(v: &Json, i: usize, key: &str) -> (r: Option<u64>)
    ensures
        r == ms_or_at(*v, i as int, key@),
{
    if field(v, i, key).is_none() {
        return Some(0);
    }
    read_ms(v, i, key)
}

/// A number of milliseconds is never a reason to drop a line: any number is
/// read, and one below zero is none.
pub proof fn every_number_is_milliseconds(n: Number)
    ensures
        ms_in(Some(Json::Number(n))) is Some,
        n is Below ==> ms_in(Some(Json::Number(n))) == Some(0u64),
        n matches Number::Whole(w) ==> (w < 0x20_0000_0000_0000 ==> ms_in(Some(Json::Number(n)))
            == Some(w)),
{
    if let Number::Whole(w) = n {
        if w < 0x20_0000_0000_0000 {
            assert(as_double(w as int) == w);
        }
    }
}

/// The mode of this name.
pub open spec fn mode_named(s: Seq<char>) -> Option<RepeatMode> {
    if s == "none"@ {
        Some(RepeatMode::Off)
    } else if s == "one"@ {
        Some(RepeatMode::One)
    } else if s == "all"@ {
        Some(RepeatMode::All)
    } else {
        None
    }
}

/// The repeat mode under `key`; off where there is no such member.
pub open spec fn repeat_or_at(v: Json, i: int, key: Seq<char>) -> Option<RepeatMode> {
    match field_in(v, i, key) {
        None => Some(RepeatMode::Off),
        found => match name_in(found) {
            Some(s) => mode_named(s),
            None => None,
        },
    }
}

fn read_repeat_or(v: &Json, i: usize, key: &str) -> (r: Option<RepeatMode>)
    ensures
        r == repeat_or_at(*v, i as int, key@),
{
    let found = field(v, i, key);
    if found.is_none() {
        return Some(RepeatMode::Off);
    }
    match name_of(found) {
        Some(s) => {
            if text::same(s, "none") {
                Some(RepeatMode::Off)
            } else if text::same(s, "one") {
                Some(RepeatMode::One)
            } else if text::same(s, "all") {
                Some(RepeatMode::All)
            } else {
                None
            }
        },
        None => None,
    }
}

/// The playback state of this name. A name that is not known is read too, so
/// that a state the engine learns later drops no line.
pub open spec fn state_named(s: Seq<char>) -> PlaybackState {
    if s == "none"@ {
        PlaybackState::Idle
    } else if s == "loading"@ {
        PlaybackState::Loading
    } else if s == "playing"@ {
        PlaybackState::Playing
    } else if s == "paused"@ {
        PlaybackState::Paused
    } else if s == "stopped"@ {
        PlaybackState::Stopped
    } else if s == "ended"@ {
        PlaybackState::Ended
    } else if s == "seeking"@ {
        PlaybackState::Seeking
    } else if s == "waiting"@ {
        PlaybackState::Waiting
    } else if s == "stalled"@ {
        PlaybackState::Stalled
    } else if s == "completed"@ {
        PlaybackState::Completed
    } else {
        PlaybackState::Unknown
    }
}

/// The playback state under `key`.
pub open spec fn state_at(v: Json, i: int, key: Seq<char>) -> Option<PlaybackState> {
    match name_in(field_in(v, i, key)) {
        Some(s) => Some(state_named(s)),
        None => None,
    }
}

fn read_state(v: &Json, i: usize, key: &str) -> (r: Option<PlaybackState>)
    ensures
        r == state_at(*v, i as int, key@),
{
    let s = match name_of(field(v, i, key)) {
        Some(s) => s,
        None => return None,
    };
    Some(
        if text::same(s, "none") {
            PlaybackState::Idle
        } else if text::same(s, "loading") {
            PlaybackState::Loading
        } else if text::same(s, "playing") {
            PlaybackState::Playing
        } else if text::same(s, "paused") {
            PlaybackState::Paused
        } else if text::same(s, "stopped") {
            PlaybackState::Stopped
        } else if text::same(s, "ended") {
            PlaybackState::Ended
        } else if text::same(s, "seeking") {
            PlaybackState::Seeking
        } else if text::same(s, "waiting") {
            PlaybackState::Waiting
        } else if text::same(s, "stalled") {
            PlaybackState::Stalled
        } else if text::same(s, "completed") {
            PlaybackState::Completed
        } else {
            PlaybackState::Unknown
        },
    )
}

/// What a value says of a track.
pub open spec fn item_in(v: Json) -> Option<ItemView> {
    match (
        fits(v, 0, 9, 9),
        text_or_at(v, 0, "occurrenceId"@),
        maybe_text_at(v, 1, "id"@),
        maybe_text_at(v, 2, "catalogId"@),
        text_or_at(v, 3, "title"@),
        text_or_at(v, 4, "artist"@),
        text_or_at(v, 5, "album"@),
        ms_or_at(v, 6, "durationMs"@),
        small_or_at(v, 7, "trackNumber"@),
        maybe_text_at(v, 8, "artworkTemplate"@),
    ) {
        (
            true,
            Some(occurrence_id),
            Some(id),
            Some(catalog_id),
            Some(title),
            Some(artist),
            Some(album),
            Some(duration_ms),
            Some(track_number),
            Some(artwork_template),
        ) => Some(
            ItemView {
                occurrence_id,
                id,
                catalog_id,
                title,
                artist,
                album,
                duration_ms,
                track_number,
                artwork_template,
            },
        ),
        _ => None,
    }
}

/// The track that a value describes.
pub fn read_item(v: &Json) -> (r: Option<Item>)
    ensures
        seen_opt(r) == item_in(*v),
{
    if !fitting(v, 0, 9, 9) {
        return None;
    }
    match (
        read_text_or(v, 0, "occurrenceId"),
        read_maybe_text(v, 1, "id"),
        read_maybe_text(v, 2, "catalogId"),
        read_text_or(v, 3, "title"),
        read_text_or(v, 4, "artist"),
        read_text_or(v, 5, "album"),
        read_ms_or(v, 6, "durationMs"),
        read_small_or(v, 7, "trackNumber"),
        read_maybe_text(v, 8, "artworkTemplate"),
    ) {
        (
            Some(occurrence_id),
            Some(id),
            Some(catalog_id),
            Some(title),
            Some(artist),
            Some(album),
            Some(duration_ms),
            Some(track_number),
            Some(artwork_template),
        ) => Some(
            Item {
                occurrence_id,
                id,
                catalog_id,
                title,
                artist,
                album,
                duration_ms,
                track_number,
                artwork_template,
            },
        ),
        _ => None,
    }
}

/// Why a queue was reported; only the cursor moved where nothing says.
pub open spec fn reason_in(found: Option<Json>) -> Option<QueueChange> {
    match found {
        None => Some(QueueChange::Position),
        _ => match name_in(found) {
            Some(s) => if s == "items"@ {
                Some(QueueChange::Items)
            } else if s == "position"@ {
                Some(QueueChange::Position)
            } else {
                None
            },
            None => None,
        },
    }
}

fn read_reason(found: Option<&Json>) -> (r: Option<QueueChange>)
    ensures
        r == reason_in(json::held(found)),
{
    if found.is_none() {
        return Some(QueueChange::Position);
    }
    match name_of(found) {
        Some(s) => {
            if text::same(s, "items") {
                Some(QueueChange::Items)
            } else if text::same(s, "position") {
                Some(QueueChange::Position)
            } else {
                None
            }
        },
        None => None,
    }
}

/// The tracks of a queue; none where nothing lists them.
pub open spec fn tracks_in(found: Option<Json>) -> Option<Seq<ItemView>> {
    match found {
        None => Some(Seq::empty()),
        Some(Json::List(l)) => every(l@, |j: Json| item_in(j)),
        Some(_) => None,
    }
}

fn read_items(found: Option<&Json>) -> (r: Option<Vec<Item>>)
    ensures
        match r {
            Some(l) => tracks_in(json::held(found)) == Some(seen(l@)),
            None => tracks_in(json::held(found)) is None,
        },
{
    match found {
        None => {
            let none: Vec<Item> = Vec::new();
            assert(seen(none@) =~= Seq::<ItemView>::empty());
            Some(none)
        },
        Some(Json::List(l)) => {
            let item = |j: &Json| -> (o: Option<Item>)
                ensures
                    seen_opt(o) == item_in(*j),
                { read_item(j) };
            json::every_item(l, item, Ghost(|j: Json| item_in(j)))
        },
        Some(_) => None,
    }
}

/// What a value says of a queue, its parts listed from place `from` on where
/// they are listed.
pub open spec fn queue_in(v: Json, from: int) -> Option<QueueView> {
    match (
        fits(v, from, 0, 3),
        reason_in(field_in(v, from, "reason"@)),
        place_in(field_in(v, from + 1, "position"@)),
        tracks_in(field_in(v, from + 2, "items"@)),
    ) {
        (true, Some(reason), Some(position), Some(items)) => Some(
            QueueView { reason, position, items },
        ),
        _ => None,
    }
}

/// The queue that a value describes.
pub fn read_queue(v: &Json) -> (r: Option<Queue>)
    ensures
        seen_opt(r) == queue_in(*v, 0),
{
    read_queue_from(v, 0)
}

fn read_queue_from(v: &Json, from: usize) -> (r: Option<Queue>)
    requires
        from <= 1,
    ensures
        seen_opt(r) == queue_in(*v, from as int),
{
    if !fitting(v, from, 0, 3) {
        return None;
    }
    match (
        read_reason(field(v, from, "reason")),
        read_place(field(v, from + 1, "position")),
        read_items(field(v, from + 2, "items")),
    ) {
        (Some(reason), Some(position), Some(items)) => Some(Queue { reason, position, items }),
        _ => None,
    }
}

fn read_queue_event(v: &Json) -> (r: Option<Event>)
    ensures
        seen_opt(r) == match queue_in(*v, 1) {
            Some(q) => Some(EventView::Queue(q)),
            None => None,
        },
{
    match read_queue_from(v, 1) {
        Some(q) => Some(Event::Queue(q)),
        None => None,
    }
}

/// What a report of a new song says: the song, unless there is none, and the
/// queue.
pub open spec fn now_playing_in(v: Json) -> Option<EventView> {
    if fits(v, 1, 2, 2) {
        let item = match field_in(v, 1, "item"@) {
            None => Some(None),
            Some(Json::Null) => Some(None),
            Some(j) => match item_in(j) {
                Some(i) => Some(Some(i)),
                None => None,
            },
        };
        let queue = match field_in(v, 2, "queue"@) {
            Some(j) => queue_in(j, 0),
            None => None,
        };
        match (item, queue) {
            (Some(item), Some(queue)) => Some(EventView::NowPlaying { item, queue }),
            _ => None,
        }
    } else {
        None
    }
}

fn read_now_playing(v: &Json) -> (r: Option<Event>)
    ensures
        seen_opt(r) == now_playing_in(*v),
{
    if !fitting(v, 1, 2, 2) {
        return None;
    }
    let item = match field(v, 1, "item") {
        None => None,
        Some(Json::Null) => None,
        Some(j) => match read_item(j) {
            Some(i) => Some(i),
            None => return None,
        },
    };
    let queue = match field(v, 2, "queue") {
        Some(j) => match read_queue(j) {
            Some(q) => q,
            None => return None,
        },
        None => return None,
    };
    Some(Event::NowPlaying { item, queue })
}

/// What a report of credentials says.
pub open spec fn tokens_in(v: Json) -> Option<TokensView> {
    if fits(v, 1, 2, 4) {
        let storefront = match field_in(v, 3, "storefront"@) {
            None => Some("us"@),
            found => text_in(found),
        };
        match (
            text_at(v, 1, "developerToken"@),
            maybe_text_at(v, 2, "musicUserToken"@),
            storefront,
            flag_or_at(v, 4, "authorized"@),
        ) {
            (Some(developer_token), Some(music_user_token), Some(storefront), Some(authorized)) => Some(
                TokensView { developer_token, music_user_token, storefront, authorized },
            ),
            _ => None,
        }
    } else {
        None
    }
}

fn read_tokens_event(v: &Json) -> (r: Option<Event>)
    ensures
        seen_opt(r) == match tokens_in(*v) {
            Some(t) => Some(EventView::Tokens(t)),
            None => None,
        },
{
    if !fitting(v, 1, 2, 4) {
        return None;
    }
    let storefront = if field(v, 3, "storefront").is_none() {
        Some(Tokens::default_storefront())
    } else {
        read_text(v, 3, "storefront")
    };
    match (
        read_text(v, 1, "developerToken"),
        read_maybe_text(v, 2, "musicUserToken"),
        storefront,
        read_flag_or(v, 4, "authorized"),
    ) {
        (Some(developer_token), Some(music_user_token), Some(storefront), Some(authorized)) => Some(
            Event::Tokens(Tokens { developer_token, music_user_token, storefront, authorized }),
        ),
        _ => None,
    }
}

/// What a report of a volume says: nothing but that it is one.
pub open spec fn volume_in(v: Json) -> Option<EventView> {
    if fits(v, 1, 1, 1) {
        if field_in(v, 1, "volume"@) matches Some(Json::Number(_)) {
            Some(EventView::Volume)
        } else {
            None
        }
    } else {
        None
    }
}

fn read_volume(v: &Json) -> (r: Option<Event>)
    ensures
        seen_opt(r) == volume_in(*v),
{
    if !fitting(v, 1, 1, 1) {
        return None;
    }
    match field(v, 1, "volume") {
        Some(Json::Number(_)) => Some(Event::Volume),
        _ => None,
    }
}

/// What an event says.
#[allow(inconsistent_fields)]
pub enum EventView {
    Ready { debug: bool },
    WidevineReady,
    HookBoot { ready_state: Seq<char>, href: Seq<char> },
    HookReady { authorized: bool, version: Seq<char>, trigger: Seq<char> },
    HookFailed { detail: Seq<char> },
    Modes { shuffle: bool, repeat: RepeatMode },
    HookWarning { detail: Seq<char> },
    Volume,
    Tokens(TokensView),
    PlaybackState { state: PlaybackState },
    NowPlaying { item: Option<ItemView>, queue: QueueView },
    Position { position_ms: u64, duration_ms: u64 },
    Queue(QueueView),
    Authorization { authorized: bool },
    WindowHidden,
    LibraryWrite { kind: Seq<char>, id: Seq<char>, ok: bool, detail: Seq<char> },
    SignedOut,
    Ack { id: u64 },
    CmdRecv { cmd: Seq<char> },
    CmdQueued { cmd: Seq<char>, depth: u32 },
    CmdDone { cmd: Seq<char>, state: i32, queue_len: i32 },
    Error { code: Seq<char>, detail: Seq<char> },
}

impl View for Event {
    type V = EventView;

    open spec fn view(&self) -> EventView {
        match *self {
            Event::Ready { debug } => EventView::Ready { debug },
            Event::WidevineReady => EventView::WidevineReady,
            Event::HookBoot { ready_state, href } => EventView::HookBoot { ready_state: ready_state@, href: href@ },
            Event::HookReady { authorized, version, trigger } => EventView::HookReady { authorized, version: version@, trigger: trigger@ },
            Event::HookFailed { detail } => EventView::HookFailed { detail: detail@ },
            Event::Modes { shuffle, repeat } => EventView::Modes { shuffle, repeat },
            Event::HookWarning { detail } => EventView::HookWarning { detail: detail@ },
            Event::Volume => EventView::Volume,
            Event::Tokens(t) => EventView::Tokens(t@),
            Event::PlaybackState { state } => EventView::PlaybackState { state },
            Event::NowPlaying { item, queue } => EventView::NowPlaying {
                item: seen_opt(item),
                queue: queue@,
            },
            Event::Position { position_ms, duration_ms } => EventView::Position { position_ms, duration_ms },
            Event::Queue(q) => EventView::Queue(q@),
            Event::Authorization { authorized } => EventView::Authorization { authorized },
            Event::WindowHidden => EventView::WindowHidden,
            Event::LibraryWrite { kind, id, ok, detail } => EventView::LibraryWrite { kind: kind@, id: id@, ok, detail: detail@ },
            Event::SignedOut => EventView::SignedOut,
            Event::Ack { id } => EventView::Ack { id },
            Event::CmdRecv { cmd } => EventView::CmdRecv { cmd: cmd@ },
            Event::CmdQueued { cmd, depth } => EventView::CmdQueued { cmd: cmd@, depth },
            Event::CmdDone { cmd, state, queue_len } => EventView::CmdDone { cmd: cmd@, state, queue_len },
            Event::Error { code, detail } => EventView::Error { code: code@, detail: detail@ },
        }
    }
}

/// What a report of the kind `ready` says.
pub open spec fn ready_in(v: Json) -> Option<EventView> {
    if fits(v, 1, 1, 1) {
        match flag_at(v, 1, "debug"@) {
            Some(debug) => Some(EventView::Ready { debug }),
            None => None,
        }
    } else {
        None
    }
}

fn read_ready(v: &Json) -> (r: Option<Event>)
    ensures
        seen_opt(r) == ready_in(*v),
{
    if !fitting(v, 1, 1, 1) {
        return None;
    }
    let debug = match read_flag(v, 1, "debug") {
        Some(debug) => debug,
        None => return None,
    };
    Some(Event::Ready { debug })
}

/// What a report of the kind `hook-boot` says.
pub open spec fn hook_boot_in(v: Json) -> Option<EventView> {
    if fits(v, 1, 0, 2) {
        match (text_or_at(v, 1, "ready_state"@), text_or_at(v, 2, "href"@)) {
            (Some(ready_state), Some(href)) => Some(EventView::HookBoot { ready_state, href }),
            _ => None,
        }
    } else {
        None
    }
}

fn read_hook_boot(v: &Json) -> (r: Option<Event>)
    ensures
        seen_opt(r) == hook_boot_in(*v),
{
    if !fitting(v, 1, 0, 2) {
        return None;
    }
    let ready_state = match read_text_or(v, 1, "ready_state") {
        Some(ready_state) => ready_state,
        None => return None,
    };
    let href = match read_text_or(v, 2, "href") {
        Some(href) => href,
        None => return None,
    };
    Some(Event::HookBoot { ready_state, href })
}

/// What a report of the kind `hook-ready` says.
pub open spec fn hook_ready_in(v: Json) -> Option<EventView> {
    if fits(v, 1, 2, 3) {
        match (flag_at(v, 1, "authorized"@), text_at(v, 2, "version"@), text_or_at(v, 3, "trigger"@)) {
            (Some(authorized), Some(version), Some(trigger)) => Some(EventView::HookReady { authorized, version, trigger }),
            _ => None,
        }
    } else {
        None
    }
}

fn read_hook_ready(v: &Json) -> (r: Option<Event>)
    ensures
        seen_opt(r) == hook_ready_in(*v),
{
    if !fitting(v, 1, 2, 3) {
        return None;
    }
    let authorized = match read_flag(v, 1, "authorized") {
        Some(authorized) => authorized,
        None => return None,
    };
    let version = match read_text(v, 2, "version") {
        Some(version) => version,
        None => return None,
    };
    let trigger = match read_text_or(v, 3, "trigger") {
        Some(trigger) => trigger,
        None => return None,
    };
    Some(Event::HookReady { authorized, version, trigger })
}

/// What a report of the kind `hook-failed` says.
pub open spec fn hook_failed_in(v: Json) -> Option<EventView> {
    if fits(v, 1, 1, 1) {
        match text_at(v, 1, "detail"@) {
            Some(detail) => Some(EventView::HookFailed { detail }),
            None => None,
        }
    } else {
        None
    }
}

fn read_hook_failed(v: &Json) -> (r: Option<Event>)
    ensures
        seen_opt(r) == hook_failed_in(*v),
{
    if !fitting(v, 1, 1, 1) {
        return None;
    }
    let detail = match read_text(v, 1, "detail") {
        Some(detail) => detail,
        None => return None,
    };
    Some(Event::HookFailed { detail })
}

/// What a report of the kind `modes` says.
pub open spec fn modes_in(v: Json) -> Option<EventView> {
    if fits(v, 1, 0, 2) {
        match (flag_or_at(v, 1, "shuffle"@), repeat_or_at(v, 2, "repeat"@)) {
            (Some(shuffle), Some(repeat)) => Some(EventView::Modes { shuffle, repeat }),
            _ => None,
        }
    } else {
        None
    }
}

fn read_modes(v: &Json) -> (r: Option<Event>)
    ensures
        seen_opt(r) == modes_in(*v),
{
    if !fitting(v, 1, 0, 2) {
        return None;
    }
    let shuffle = match read_flag_or(v, 1, "shuffle") {
        Some(shuffle) => shuffle,
        None => return None,
    };
    let repeat = match read_repeat_or(v, 2, "repeat") {
        Some(repeat) => repeat,
        None => return None,
    };
    Some(Event::Modes { shuffle, repeat })
}

/// What a report of the kind `hook-warning` says.
pub open spec fn hook_warning_in(v: Json) -> Option<EventView> {
    if fits(v, 1, 1, 1) {
        match text_at(v, 1, "detail"@) {
            Some(detail) => Some(EventView::HookWarning { detail }),
            None => None,
        }
    } else {
        None
    }
}

fn read_hook_warning(v: &Json) -> (r: Option<Event>)
    ensures
        seen_opt(r) == hook_warning_in(*v),
{
    if !fitting(v, 1, 1, 1) {
        return None;
    }
    let detail = match read_text(v, 1, "detail") {
        Some(detail) => detail,
        None => return None,
    };
    Some(Event::HookWarning { detail })
}

/// What a report of the kind `playbackState` says.
pub open spec fn playback_state_in(v: Json) -> Option<EventView> {
    if fits(v, 1, 1, 1) {
        match state_at(v, 1, "state"@) {
            Some(state) => Some(EventView::PlaybackState { state }),
            None => None,
        }
    } else {
        None
    }
}

fn read_playback_state(v: &Json) -> (r: Option<Event>)
    ensures
        seen_opt(r) == playback_state_in(*v),
{
    if !fitting(v, 1, 1, 1) {
        return None;
    }
    let state = match read_state(v, 1, "state") {
        Some(state) => state,
        None => return None,
    };
    Some(Event::PlaybackState { state })
}

/// What a report of the kind `position` says.
pub open spec fn position_in(v: Json) -> Option<EventView> {
    if fits(v, 1, 2, 2) {
        match (ms_at(v, 1, "positionMs"@), ms_at(v, 2, "durationMs"@)) {
            (Some(position_ms), Some(duration_ms)) => Some(EventView::Position { position_ms, duration_ms }),
            _ => None,
        }
    } else {
        None
    }
}

fn read_position(v: &Json) -> (r: Option<Event>)
    ensures
        seen_opt(r) == position_in(*v),
{
    if !fitting(v, 1, 2, 2) {
        return None;
    }
    let position_ms = match read_ms(v, 1, "positionMs") {
        Some(position_ms) => position_ms,
        None => return None,
    };
    let duration_ms = match read_ms(v, 2, "durationMs") {
        Some(duration_ms) => duration_ms,
        None => return None,
    };
    Some(Event::Position { position_ms, duration_ms })
}

/// What a report of the kind `authorization` says.
pub open spec fn authorization_in(v: Json) -> Option<EventView> {
    if fits(v, 1, 1, 1) {
        match flag_at(v, 1, "authorized"@) {
            Some(authorized) => Some(EventView::Authorization { authorized }),
            None => None,
        }
    } else {
        None
    }
}

fn read_authorization(v: &Json) -> (r: Option<Event>)
    ensures
        seen_opt(r) == authorization_in(*v),
{
    if !fitting(v, 1, 1, 1) {
        return None;
    }
    let authorized = match read_flag(v, 1, "authorized") {
        Some(authorized) => authorized,
        None => return None,
    };
    Some(Event::Authorization { authorized })
}

/// What a report of the kind `library-write` says.
pub open spec fn library_write_in(v: Json) -> Option<EventView> {
    if fits(v, 1, 3, 4) {
        match (text_at(v, 1, "kind"@), text_at(v, 2, "id"@), flag_at(v, 3, "ok"@), text_or_at(v, 4, "detail"@)) {
            (Some(kind), Some(id), Some(ok), Some(detail)) => Some(EventView::LibraryWrite { kind, id, ok, detail }),
            _ => None,
        }
    } else {
        None
    }
}

fn read_library_write(v: &Json) -> (r: Option<Event>)
    ensures
        seen_opt(r) == library_write_in(*v),
{
    if !fitting(v, 1, 3, 4) {
        return None;
    }
    let kind = match read_text(v, 1, "kind") {
        Some(kind) => kind,
        None => return None,
    };
    let id = match read_text(v, 2, "id") {
        Some(id) => id,
        None => return None,
    };
    let ok = match read_flag(v, 3, "ok") {
        Some(ok) => ok,
        None => return None,
    };
    let detail = match read_text_or(v, 4, "detail") {
        Some(detail) => detail,
        None => return None,
    };
    Some(Event::LibraryWrite { kind, id, ok, detail })
}

/// What a report of the kind `ack` says.
pub open spec fn ack_in(v: Json) -> Option<EventView> {
    if fits(v, 1, 1, 1) {
        match whole_at(v, 1, "id"@) {
            Some(id) => Some(EventView::Ack { id }),
            None => None,
        }
    } else {
        None
    }
}

fn read_ack(v: &Json) -> (r: Option<Event>)
    ensures
        seen_opt(r) == ack_in(*v),
{
    if !fitting(v, 1, 1, 1) {
        return None;
    }
    let id = match read_whole(v, 1, "id") {
        Some(id) => id,
        None => return None,
    };
    Some(Event::Ack { id })
}

/// What a report of the kind `cmd-recv` says.
pub open spec fn cmd_recv_in(v: Json) -> Option<EventView> {
    if fits(v, 1, 1, 1) {
        match text_at(v, 1, "cmd"@) {
            Some(cmd) => Some(EventView::CmdRecv { cmd }),
            None => None,
        }
    } else {
        None
    }
}

fn read_cmd_recv(v: &Json) -> (r: Option<Event>)
    ensures
        seen_opt(r) == cmd_recv_in(*v),
{
    if !fitting(v, 1, 1, 1) {
        return None;
    }
    let cmd = match read_text(v, 1, "cmd") {
        Some(cmd) => cmd,
        None => return None,
    };
    Some(Event::CmdRecv { cmd })
}

/// What a report of the kind `cmd-queued` says.
pub open spec fn cmd_queued_in(v: Json) -> Option<EventView> {
    if fits(v, 1, 2, 2) {
        match (text_at(v, 1, "cmd"@), small_at(v, 2, "depth"@)) {
            (Some(cmd), Some(depth)) => Some(EventView::CmdQueued { cmd, depth }),
            _ => None,
        }
    } else {
        None
    }
}

fn read_cmd_queued(v: &Json) -> (r: Option<Event>)
    ensures
        seen_opt(r) == cmd_queued_in(*v),
{
    if !fitting(v, 1, 2, 2) {
        return None;
    }
    let cmd = match read_text(v, 1, "cmd") {
        Some(cmd) => cmd,
        None => return None,
    };
    let depth = match read_small(v, 2, "depth") {
        Some(depth) => depth,
        None => return None,
    };
    Some(Event::CmdQueued { cmd, depth })
}

/// What a report of the kind `cmd-done` says.
pub open spec fn cmd_done_in(v: Json) -> Option<EventView> {
    if fits(v, 1, 1, 3) {
        match (text_at(v, 1, "cmd"@), signed_or_at(v, 2, "state"@), signed_or_at(v, 3, "queueLen"@)) {
            (Some(cmd), Some(state), Some(queue_len)) => Some(EventView::CmdDone { cmd, state, queue_len }),
            _ => None,
        }
    } else {
        None
    }
}

fn read_cmd_done(v: &Json) -> (r: Option<Event>)
    ensures
        seen_opt(r) == cmd_done_in(*v),
{
    if !fitting(v, 1, 1, 3) {
        return None;
    }
    let cmd = match read_text(v, 1, "cmd") {
        Some(cmd) => cmd,
        None => return None,
    };
    let state = match read_signed_or(v, 2, "state") {
        Some(state) => state,
        None => return None,
    };
    let queue_len = match read_signed_or(v, 3, "queueLen") {
        Some(queue_len) => queue_len,
        None => return None,
    };
    Some(Event::CmdDone { cmd, state, queue_len })
}

/// What a report of the kind `error` says.
pub open spec fn error_in(v: Json) -> Option<EventView> {
    if fits(v, 1, 2, 2) {
        match (text_at(v, 1, "code"@), text_at(v, 2, "detail"@)) {
            (Some(code), Some(detail)) => Some(EventView::Error { code, detail }),
            _ => None,
        }
    } else {
        None
    }
}

fn read_error(v: &Json) -> (r: Option<Event>)
    ensures
        seen_opt(r) == error_in(*v),
{
    if !fitting(v, 1, 2, 2) {
        return None;
    }
    let code = match read_text(v, 1, "code") {
        Some(code) => code,
        None => return None,
    };
    let detail = match read_text(v, 2, "detail") {
        Some(detail) => detail,
        None => return None,
    };
    Some(Event::Error { code, detail })
}

/// A report that has no parts.
pub open spec fn bare(v: Json, event: EventView) -> Option<EventView> {
    if fits(v, 1, 0, 0) {
        Some(event)
    } else {
        None
    }
}

fn read_bare(v: &Json, event: Event) -> (r: Option<Event>)
    ensures
        seen_opt(r) == bare(*v, event@),
{
    if fitting(v, 1, 0, 0) {
        Some(event)
    } else {
        None
    }
}

/// What a report of this kind says.
pub open spec fn of_kind(kind: Seq<char>, v: Json) -> Option<EventView> {
    if kind == "ready"@ {
        ready_in(v)
    } else if kind == "widevine-ready"@ {
        bare(v, EventView::WidevineReady)
    } else if kind == "hook-boot"@ {
        hook_boot_in(v)
    } else if kind == "hook-ready"@ {
        hook_ready_in(v)
    } else if kind == "hook-failed"@ {
        hook_failed_in(v)
    } else if kind == "modes"@ {
        modes_in(v)
    } else if kind == "hook-warning"@ {
        hook_warning_in(v)
    } else if kind == "volume"@ {
        volume_in(v)
    } else if kind == "tokens"@ {
        match tokens_in(v) {
            Some(t) => Some(EventView::Tokens(t)),
            None => None,
        }
    } else if kind == "playbackState"@ {
        playback_state_in(v)
    } else if kind == "nowPlaying"@ {
        now_playing_in(v)
    } else if kind == "position"@ {
        position_in(v)
    } else if kind == "queue"@ {
        match queue_in(v, 1) {
            Some(q) => Some(EventView::Queue(q)),
            None => None,
        }
    } else if kind == "authorization"@ {
        authorization_in(v)
    } else if kind == "window-hidden"@ {
        bare(v, EventView::WindowHidden)
    } else if kind == "library-write"@ {
        library_write_in(v)
    } else if kind == "signed-out"@ {
        bare(v, EventView::SignedOut)
    } else if kind == "ack"@ {
        ack_in(v)
    } else if kind == "cmd-recv"@ {
        cmd_recv_in(v)
    } else if kind == "cmd-queued"@ {
        cmd_queued_in(v)
    } else if kind == "cmd-done"@ {
        cmd_done_in(v)
    } else if kind == "error"@ {
        error_in(v)
    } else {
        None
    }
}

/// What a value says that the engine reports: an object that names its kind
/// under `event` and holds what that kind needs, or a list of the kind and
/// then those parts.
pub open spec fn event_in(v: Json) -> Option<EventView> {
    match text_in(field_in(v, 0, "event"@)) {
        Some(kind) => of_kind(kind, v),
        None => None,
    }
}

fn read_kind(kind: &str, v: &Json) -> (r: Option<Event>)
    ensures
        seen_opt(r) == of_kind(kind@, *v),
{
    if text::same(kind, "ready") {
        read_ready(v)
    } else if text::same(kind, "widevine-ready") {
        read_bare(v, Event::WidevineReady)
    } else if text::same(kind, "hook-boot") {
        read_hook_boot(v)
    } else if text::same(kind, "hook-ready") {
        read_hook_ready(v)
    } else if text::same(kind, "hook-failed") {
        read_hook_failed(v)
    } else if text::same(kind, "modes") {
        read_modes(v)
    } else if text::same(kind, "hook-warning") {
        read_hook_warning(v)
    } else if text::same(kind, "volume") {
        read_volume(v)
    } else if text::same(kind, "tokens") {
        read_tokens_event(v)
    } else if text::same(kind, "playbackState") {
        read_playback_state(v)
    } else if text::same(kind, "nowPlaying") {
        read_now_playing(v)
    } else if text::same(kind, "position") {
        read_position(v)
    } else if text::same(kind, "queue") {
        read_queue_event(v)
    } else if text::same(kind, "authorization") {
        read_authorization(v)
    } else if text::same(kind, "window-hidden") {
        read_bare(v, Event::WindowHidden)
    } else if text::same(kind, "library-write") {
        read_library_write(v)
    } else if text::same(kind, "signed-out") {
        read_bare(v, Event::SignedOut)
    } else if text::same(kind, "ack") {
        read_ack(v)
    } else if text::same(kind, "cmd-recv") {
        read_cmd_recv(v)
    } else if text::same(kind, "cmd-queued") {
        read_cmd_queued(v)
    } else if text::same(kind, "cmd-done") {
        read_cmd_done(v)
    } else if text::same(kind, "error") {
        read_error(v)
    } else {
        None
    }
}

/// The event that a value reports.
pub fn read_event(v: &Json) -> (r: Option<Event>)
    ensures
        seen_opt(r) == event_in(*v),
{
    match json::text_of(field(v, 0, "event")) {
        Some(kind) => read_kind(kind, v),
        None => None,
    }
}

/// What a line of the engine says, if it is JSON and reports anything.
pub open spec fn heard_in(line: Seq<char>) -> Option<EventView> {
    match json::parsed(line) {
        Some(v) => event_in(v),
        None => None,
    }
}

/// The event that a line of the engine reports. The line is read as JSON first,
/// so of a name that occurs twice in an object the last value counts.
pub fn event_from(line: &str) -> (r: Option<Event>)
    ensures
        seen_opt(r) == heard_in(line@),
{
    match json::read(line) {
        Some(v) => read_event(&v),
        None => None,
    }
}

/// What arrives from the engine.
pub enum Incoming {
    Event(Event),
    /// A line that reports nothing this version knows.
    Unparsed(String),
    /// The process ended, and how. Always the last to arrive.
    Died(String),
}

/// What a line of the engine is: nothing where it is blank.
pub fn incoming(line: &str) -> (r: Option<Incoming>)
    ensures
        if text::trimmed(line@).len() == 0 {
            r is None
        } else {
            match heard_in(line@) {
                Some(e) => r matches Some(Incoming::Event(got)) && got@ == e,
                None => r matches Some(Incoming::Unparsed(got)) && got@ == line@,
            }
        },
{
    if text::is_blank(line) {
        return None;
    }
    match event_from(line) {
        Some(e) => Some(Incoming::Event(e)),
        None => Some(Incoming::Unparsed(line.to_owned())),
    }
}

/// A queue that does not say why it was reported was not edited.
pub proof fn no_reason_is_no_edit(v: Json, from: int)
    requires
        queue_in(v, from) is Some,
        field_in(v, from, "reason"@) is None,
    ensures
        queue_in(v, from)->0.reason is Position,
{
}

/// A truth in JSON.
pub open spec fn flag_text(b: bool) -> Seq<char> {
    if b {
        "true"@
    } else {
        "false"@
    }
}

fn write_flag(b: bool) -> (r: &'static str)
    ensures
        r@ == flag_text(b),
{
    if b {
        "true"
    } else {
        "false"
    }
}

/// The name of a mode.
pub open spec fn mode_name(mode: RepeatMode) -> Seq<char> {
    match mode {
        RepeatMode::Off => "none"@,
        RepeatMode::One => "one"@,
        RepeatMode::All => "all"@,
    }
}

/// A mode is read back from its name.
pub proof fn a_mode_is_read_back(mode: RepeatMode)
    ensures
        mode_named(mode_name(mode)) == Some(mode),
{
    reveal_strlit("none");
    reveal_strlit("one");
    reveal_strlit("all");
    assert("none"@.len() == 4);
    assert("one"@.len() == 3);
    assert("all"@.len() == 3);
    assert("all"@[0] != "one"@[0]);
}

/// What a command tells besides its name: the members that follow it.
pub open spec fn members(c: Command) -> Seq<char> {
    match c {
        Command::SetQueue { songs, start_position, start_playing, start_time_ms } => {
            ",\"songs\":"@ + list_text(text::views(songs@)) + ",\"startPosition\":"@ + text::decimal(
                start_position as nat,
            ) + ",\"startPlaying\":"@ + flag_text(start_playing) + ",\"startTimeMs\":"@
                + text::decimal(start_time_ms as nat)
        },
        Command::ChangeToIndex { index } => ",\"index\":"@ + text::decimal(index as nat),
        Command::MoveInQueue { from, to } => {
            ",\"from\":"@ + text::decimal(from as nat) + ",\"to\":"@ + text::decimal(to as nat)
        },
        Command::SyncQueuePosition { index } => ",\"index\":"@ + text::decimal(index as nat),
        Command::PlayNext { songs } => ",\"songs\":"@ + list_text(text::views(songs@)),
        Command::PlayLater { songs } => ",\"songs\":"@ + list_text(text::views(songs@)),
        Command::RemoveFromQueue { index } => ",\"index\":"@ + text::decimal(index as nat),
        Command::Seek { position_ms } => ",\"positionMs\":"@ + text::decimal(position_ms as nat),
        Command::SetShuffle { shuffle } => ",\"shuffle\":"@ + flag_text(shuffle),
        Command::SetRepeat { mode } => ",\"mode\":\""@ + mode_name(mode) + "\""@,
        Command::RemoveFromLibrary { id } => ",\"id\":"@ + quoted(id@),
        Command::Unfavorite { id } => ",\"id\":"@ + quoted(id@),
        _ => Seq::empty(),
    }
}

/// A command as the engine is told it: an object with the name under `cmd`.
pub open spec fn command_text(c: Command) -> Seq<char> {
    "{\"cmd\":\""@ + c.spec_name() + "\""@ + members(c) + "}"@
}

fn numbered(key: &str, n: u64) -> (r: String)
    ensures
        r@ == key@ + text::decimal(n as nat),
{
    let mut out = key.to_owned();
    out.append(text::number(n).as_str());
    out
}

fn write_members(c: &Command) -> (r: String)
    ensures
        r@ == members(*c),
{
    match c {
        Command::SetQueue { songs, start_position, start_playing, start_time_ms } => {
            let mut out = ",\"songs\":".to_owned();
            out.append(json::write_list(songs).as_str());
            out.append(",\"startPosition\":");
            out.append(text::number(*start_position as u64).as_str());
            out.append(",\"startPlaying\":");
            out.append(write_flag(*start_playing));
            out.append(",\"startTimeMs\":");
            out.append(text::number(*start_time_ms).as_str());
            out
        },
        Command::ChangeToIndex { index } => numbered(",\"index\":", *index as u64),
        Command::MoveInQueue { from, to } => {
            let mut out = numbered(",\"from\":", *from as u64);
            out.append(",\"to\":");
            out.append(text::number(*to as u64).as_str());
            out
        },
        Command::SyncQueuePosition { index } => numbered(",\"index\":", *index as u64),
        Command::PlayNext { songs } => {
            let mut out = ",\"songs\":".to_owned();
            out.append(json::write_list(songs).as_str());
            out
        },
        Command::PlayLater { songs } => {
            let mut out = ",\"songs\":".to_owned();
            out.append(json::write_list(songs).as_str());
            out
        },
        Command::RemoveFromQueue { index } => numbered(",\"index\":", *index as u64),
        Command::Seek { position_ms } => numbered(",\"positionMs\":", *position_ms),
        Command::SetShuffle { shuffle } => {
            let mut out = ",\"shuffle\":".to_owned();
            out.append(write_flag(*shuffle));
            out
        },
        Command::SetRepeat { mode } => {
            let mut out = ",\"mode\":\"".to_owned();
            out.append(
                match mode {
                    RepeatMode::Off => "none",
                    RepeatMode::One => "one",
                    RepeatMode::All => "all",
                },
            );
            out.append("\"");
            out
        },
        Command::RemoveFromLibrary { id } => {
            let mut out = ",\"id\":".to_owned();
            out.append(json::quote(id.as_str()).as_str());
            out
        },
        Command::Unfavorite { id } => {
            let mut out = ",\"id\":".to_owned();
            out.append(json::quote(id.as_str()).as_str());
            out
        },
        _ => String::new(),
    }
}

/// A command as the engine is told it, without the line end.
pub fn line_of(c: &Command) -> (r: String)
    ensures
        r@ == command_text(*c),
{
    let mut out = "{\"cmd\":\"".to_owned();
    out.append(c.name());
    out.append("\"");
    out.append(write_members(c).as_str());
    out.append("}");
    out
}

/// Whether nothing in a text ends a line, or is another control character.
pub open spec fn on_one_line(s: Seq<char>) -> bool {
    forall|i: int| 0 <= i < s.len() ==> #[trigger] s[i] >= ' '
}

proof fn joined_on_one_line(parts: Seq<Seq<char>>)
    requires
        forall|i: int| 0 <= i < parts.len() ==> on_one_line(#[trigger] parts[i]),
    ensures
        on_one_line(text::joined(parts, ","@)),
    decreases parts.len(),
{
    if parts.len() > 1 {
        reveal_strlit(",");
        joined_on_one_line(parts.drop_last());
    }
}

proof fn numbers_on_one_line(n: nat)
    ensures
        on_one_line(text::decimal(n)),
{
    text::decimal_nonempty(n);
}

proof fn songs_on_one_line(songs: Seq<Seq<char>>)
    ensures
        on_one_line(list_text(songs)),
{
    let parts = songs.map_values(|t: Seq<char>| quoted(t));
    assert forall|i: int| 0 <= i < parts.len() implies on_one_line(#[trigger] parts[i]) by {
        json::a_quoted_text_is_one_line(songs[i]);
    }
    joined_on_one_line(parts);
    reveal_strlit("[");
    reveal_strlit("]");
}

proof fn names_on_one_line(c: Command)
    ensures
        on_one_line(c.spec_name()),
{
    reveal_strlit("setQueue");
    reveal_strlit("play");
    reveal_strlit("pause");
    reveal_strlit("playPause");
    reveal_strlit("next");
    reveal_strlit("previous");
    reveal_strlit("changeToIndex");
    reveal_strlit("moveInQueue");
    reveal_strlit("syncQueuePosition");
    reveal_strlit("playNext");
    reveal_strlit("playLater");
    reveal_strlit("removeFromQueue");
    reveal_strlit("clearQueue");
    reveal_strlit("seek");
    reveal_strlit("setShuffle");
    reveal_strlit("setRepeat");
    reveal_strlit("refreshTokens");
    reveal_strlit("showLogin");
    reveal_strlit("authorize");
    reveal_strlit("removeFromLibrary");
    reveal_strlit("unfavorite");
    reveal_strlit("signOut");
    reveal_strlit("quit");
    reveal_strlit("hide");
}

proof fn members_on_one_line(c: Command)
    ensures
        on_one_line(members(c)),
{
    reveal_strlit(",\"songs\":");
    reveal_strlit(",\"startPosition\":");
    reveal_strlit(",\"startPlaying\":");
    reveal_strlit(",\"startTimeMs\":");
    reveal_strlit(",\"index\":");
    reveal_strlit(",\"from\":");
    reveal_strlit(",\"to\":");
    reveal_strlit(",\"positionMs\":");
    reveal_strlit(",\"shuffle\":");
    reveal_strlit(",\"mode\":\"");
    reveal_strlit(",\"id\":");
    reveal_strlit("\"");
    reveal_strlit("true");
    reveal_strlit("false");
    reveal_strlit("none");
    reveal_strlit("one");
    reveal_strlit("all");
    match c {
        Command::SetQueue { songs, start_position, start_playing, start_time_ms } => {
            songs_on_one_line(text::views(songs@));
            numbers_on_one_line(start_position as nat);
            numbers_on_one_line(start_time_ms as nat);
        },
        Command::ChangeToIndex { index } => numbers_on_one_line(index as nat),
        Command::MoveInQueue { from, to } => {
            numbers_on_one_line(from as nat);
            numbers_on_one_line(to as nat);
        },
        Command::SyncQueuePosition { index } => numbers_on_one_line(index as nat),
        Command::PlayNext { songs } => songs_on_one_line(text::views(songs@)),
        Command::PlayLater { songs } => songs_on_one_line(text::views(songs@)),
        Command::RemoveFromQueue { index } => numbers_on_one_line(index as nat),
        Command::Seek { position_ms } => numbers_on_one_line(position_ms as nat),
        Command::RemoveFromLibrary { id } => json::a_quoted_text_is_one_line(id@),
        Command::Unfavorite { id } => json::a_quoted_text_is_one_line(id@),
        _ => {},
    }
}

/// Whatever a command tells, it takes one line: no song's id can end it early.
pub proof fn a_command_is_one_line(c: Command)
    ensures
        on_one_line(command_text(c)),
{
    reveal_strlit("{\"cmd\":\"");
    reveal_strlit("\"");
    reveal_strlit("}");
    names_on_one_line(c);
    members_on_one_line(c);
}

proof fn the_kinds()
    ensures
        "ready"@.len() == 5 && "ready"@[0] == 'r',
        "widevine-ready"@.len() == 14 && "widevine-ready"@[0] == 'w',
        "hook-boot"@.len() == 9 && "hook-boot"@[0] == 'h',
        "hook-ready"@.len() == 10 && "hook-ready"@[0] == 'h',
        "hook-failed"@.len() == 11 && "hook-failed"@[0] == 'h',
        "modes"@.len() == 5 && "modes"@[0] == 'm',
        "hook-warning"@.len() == 12 && "hook-warning"@[0] == 'h',
        "volume"@.len() == 6 && "volume"@[0] == 'v',
        "tokens"@.len() == 6 && "tokens"@[0] == 't',
        "playbackState"@.len() == 13 && "playbackState"@[0] == 'p',
        "nowPlaying"@.len() == 10 && "nowPlaying"@[0] == 'n',
        "position"@.len() == 8 && "position"@[0] == 'p',
        "queue"@.len() == 5 && "queue"@[0] == 'q',
        "authorization"@.len() == 13 && "authorization"@[0] == 'a',
        "window-hidden"@.len() == 13 && "window-hidden"@[0] == 'w',
        "library-write"@.len() == 13 && "library-write"@[0] == 'l',
        "signed-out"@.len() == 10 && "signed-out"@[0] == 's',
        "ack"@.len() == 3 && "ack"@[0] == 'a',
        "cmd-recv"@.len() == 8 && "cmd-recv"@[0] == 'c',
        "cmd-queued"@.len() == 10 && "cmd-queued"@[0] == 'c',
        "cmd-done"@.len() == 8 && "cmd-done"@[0] == 'c',
        "error"@.len() == 5 && "error"@[0] == 'e',
        "cmd-recv"@[4] == 'r',
        "cmd-done"@[4] == 'd',
        "hook-ready"@[5] == 'r',
{
    reveal_strlit("ready");
    reveal_strlit("widevine-ready");
    reveal_strlit("hook-boot");
    reveal_strlit("hook-ready");
    reveal_strlit("hook-failed");
    reveal_strlit("modes");
    reveal_strlit("hook-warning");
    reveal_strlit("volume");
    reveal_strlit("tokens");
    reveal_strlit("playbackState");
    reveal_strlit("nowPlaying");
    reveal_strlit("position");
    reveal_strlit("queue");
    reveal_strlit("authorization");
    reveal_strlit("window-hidden");
    reveal_strlit("library-write");
    reveal_strlit("signed-out");
    reveal_strlit("ack");
    reveal_strlit("cmd-recv");
    reveal_strlit("cmd-queued");
    reveal_strlit("cmd-done");
    reveal_strlit("error");
}

/// A report of a position says where and how long, each in its own place.
pub proof fn a_position_is_read(v: Json, at: u64, of: u64)
    requires
        v is Object,
        json::says(v, "event"@, "position"@),
        json::in_object(v, "positionMs"@) == Some(Json::Number(Number::Whole(at))),
        json::in_object(v, "durationMs"@) == Some(Json::Number(Number::Whole(of))),
        at < 0x20_0000_0000_0000,
        of < 0x20_0000_0000_0000,
    ensures
        event_in(v) == Some(EventView::Position { position_ms: at, duration_ms: of }),
{
    the_kinds();
    every_number_is_milliseconds(Number::Whole(at));
    every_number_is_milliseconds(Number::Whole(of));
}

/// A report of the playback state says the state by its name; a name that is
/// not known is a state all the same.
pub proof fn a_state_is_read(v: Json, name: Seq<char>)
    requires
        v is Object,
        json::says(v, "event"@, "playbackState"@),
        json::says(v, "state"@, name),
    ensures
        event_in(v) matches Some(EventView::PlaybackState { state }) && {
            &&& name == "none"@ ==> state is Idle
            &&& name == "loading"@ ==> state is Loading
            &&& name == "playing"@ ==> state is Playing
            &&& name == "paused"@ ==> state is Paused
            &&& name == "stopped"@ ==> state is Stopped
            &&& name == "ended"@ ==> state is Ended
            &&& name == "seeking"@ ==> state is Seeking
            &&& name == "waiting"@ ==> state is Waiting
            &&& name == "stalled"@ ==> state is Stalled
            &&& name == "completed"@ ==> state is Completed
        },
{
    the_kinds();
    reveal_strlit("none");
    reveal_strlit("loading");
    reveal_strlit("playing");
    reveal_strlit("paused");
    reveal_strlit("stopped");
    reveal_strlit("ended");
    reveal_strlit("seeking");
    reveal_strlit("waiting");
    reveal_strlit("stalled");
    reveal_strlit("completed");
    assert("none"@.len() == 4 && "ended"@.len() == 5 && "paused"@.len() == 6 && "completed"@.len()
        == 9);
    assert("loading"@[0] == 'l' && "playing"@[0] == 'p' && "stopped"@[0] == 's' && "seeking"@[0]
        == 's' && "waiting"@[0] == 'w' && "stalled"@[0] == 's');
    assert("stopped"@[2] == 'o' && "seeking"@[2] == 'e' && "stalled"@[2] == 'a');
}

/// A report of the modes says shuffle and repeat; what it leaves out is off.
pub proof fn the_modes_are_read(v: Json, shuffle: bool, mode: RepeatMode)
    requires
        v is Object,
        json::says(v, "event"@, "modes"@),
    ensures
        json::in_object(v, "shuffle"@) == Some(Json::Bool(shuffle)) && json::says(
            v,
            "repeat"@,
            mode_name(mode),
        ) ==> event_in(v) == Some(EventView::Modes { shuffle, repeat: mode }),
        json::in_object(v, "shuffle"@) is None && json::in_object(v, "repeat"@) is None
            ==> event_in(v) == Some(EventView::Modes { shuffle: false, repeat: RepeatMode::Off }),
{
    the_kinds();
    a_mode_is_read_back(mode);
}

/// A track says what its members say, each under its own name.
pub proof fn a_track_is_read(
    v: Json,
    occurrence: Seq<char>,
    id: Seq<char>,
    catalog: Seq<char>,
    title: Seq<char>,
    artist: Seq<char>,
    album: Seq<char>,
    ms: u64,
    n: u64,
    art: Seq<char>,
)
    requires
        v is Object,
        json::says(v, "occurrenceId"@, occurrence),
        json::says(v, "id"@, id),
        json::says(v, "catalogId"@, catalog),
        json::says(v, "title"@, title),
        json::says(v, "artist"@, artist),
        json::says(v, "album"@, album),
        json::in_object(v, "durationMs"@) == Some(Json::Number(Number::Whole(ms))),
        ms < 0x20_0000_0000_0000,
        json::in_object(v, "trackNumber"@) == Some(Json::Number(Number::Whole(n))),
        n <= u32::MAX,
        json::says(v, "artworkTemplate"@, art),
    ensures
        item_in(v) matches Some(item) && {
            &&& item.occurrence_id == occurrence
            &&& item.id == Some(id)
            &&& item.catalog_id == Some(catalog)
            &&& item.title == title
            &&& item.artist == artist
            &&& item.album == album
            &&& item.duration_ms == ms
            &&& item.track_number == n
            &&& item.artwork_template == Some(art)
        },
{
    every_number_is_milliseconds(Number::Whole(ms));
}

/// A track that says nothing of itself is read too, with nothing known of it.
pub proof fn a_track_that_says_nothing_is_read(m: Vec<(String, Json)>)
    requires
        m@.len() == 0,
    ensures
        item_in(Json::Object(m)) matches Some(item) && item.id is None && item.catalog_id is None
            && item.title.len() == 0 && item.artist.len() == 0 && item.album.len() == 0
            && item.duration_ms == 0 && item.track_number == 0 && item.artwork_template is None,
{
}

/// A queue says why it was reported, where it stands, and its tracks in their
/// order.
pub proof fn a_queue_is_read(v: Json, l: Vec<Json>, at: u64, why: Seq<char>, i: int)
    requires
        v is Object,
        json::in_object(v, "items"@) == Some(Json::List(l)),
        json::in_object(v, "position"@) == Some(Json::Number(Number::Whole(at))),
        at <= i64::MAX,
        json::says(v, "reason"@, why),
        0 <= i < l@.len(),
    ensures
        why == "items"@ ==> (queue_in(v, 0) matches Some(q) ==> q.reason is Items),
        why == "position"@ ==> (queue_in(v, 0) matches Some(q) ==> q.reason is Position),
        queue_in(v, 0) matches Some(q) ==> q.position == at && q.items.len() == l@.len() && Some(
            q.items[i],
        ) == item_in(l@[i]),
        (forall|j: int| 0 <= j < l@.len() ==> item_in(#[trigger] l@[j]) is Some) && (why
            == "items"@ || why == "position"@) ==> queue_in(v, 0) is Some,
        item_in(l@[i]) is None ==> queue_in(v, 0) is None,
        json::says(v, "event"@, "queue"@) ==> event_in(v) == match queue_in(v, 1) {
            Some(q) => Some(EventView::Queue(q)),
            None => None,
        },
        queue_in(v, 1) == queue_in(v, 0),
{
    the_kinds();
    json::every_is_whole(l@, |j: Json| item_in(j));
    reveal_strlit("items");
    assert("items"@.len() == 5);
}

/// A report of a new song says the song and the queue, or that there is no song.
pub proof fn a_new_song_is_read(v: Json, item: Json, queue: Json)
    requires
        v is Object,
        json::says(v, "event"@, "nowPlaying"@),
        json::in_object(v, "queue"@) == Some(queue),
        queue_in(queue, 0) is Some,
    ensures
        json::in_object(v, "item"@) == Some(item) && !(item is Null) && item_in(item) is Some
            ==> event_in(v) == Some(
            EventView::NowPlaying { item: item_in(item), queue: queue_in(queue, 0)->0 },
        ),
        json::in_object(v, "item"@) is None || json::in_object(v, "item"@) == Some(Json::Null)
            ==> event_in(v) == Some(
            EventView::NowPlaying { item: None, queue: queue_in(queue, 0)->0 },
        ),
{
    the_kinds();
}

/// A report of credentials says the two tokens, the storefront, which is the
/// American where none is named, and whether somebody is signed in.
pub proof fn credentials_are_read(
    v: Json,
    developer: Seq<char>,
    user: Seq<char>,
    storefront: Seq<char>,
    authorized: bool,
)
    requires
        v is Object,
        json::says(v, "event"@, "tokens"@),
        json::says(v, "developerToken"@, developer),
        json::in_object(v, "authorized"@) == Some(Json::Bool(authorized)),
    ensures
        json::says(v, "musicUserToken"@, user) && json::says(v, "storefront"@, storefront)
            ==> event_in(v) == Some(
            EventView::Tokens(
                TokensView {
                    developer_token: developer,
                    music_user_token: Some(user),
                    storefront,
                    authorized,
                },
            ),
        ),
        json::in_object(v, "musicUserToken"@) is None && json::in_object(v, "storefront"@) is None
            ==> event_in(v) == Some(
            EventView::Tokens(
                TokensView {
                    developer_token: developer,
                    music_user_token: None,
                    storefront: "us"@,
                    authorized,
                },
            ),
        ),
{
    the_kinds();
}

/// The other reports say what their members say.
pub proof fn a_report_says_what_its_members_say(
    v: Json,
    a: Seq<char>,
    b: Seq<char>,
    c: Seq<char>,
    yes: bool,
    n: u64,
)
    requires
        v is Object,
    ensures
        json::says(v, "event"@, "library-write"@) && json::says(v, "kind"@, a) && json::says(
            v,
            "id"@,
            b,
        ) && json::in_object(v, "ok"@) == Some(Json::Bool(yes)) && json::says(v, "detail"@, c)
            ==> event_in(v) == Some(
            EventView::LibraryWrite { kind: a, id: b, ok: yes, detail: c },
        ),
        json::says(v, "event"@, "error"@) && json::says(v, "code"@, a) && json::says(
            v,
            "detail"@,
            b,
        ) ==> event_in(v) == Some(EventView::Error { code: a, detail: b }),
        json::says(v, "event"@, "authorization"@) && json::in_object(v, "authorized"@) == Some(
            Json::Bool(yes),
        ) ==> event_in(v) == Some(EventView::Authorization { authorized: yes }),
        json::says(v, "event"@, "ack"@) && json::in_object(v, "id"@) == Some(
            Json::Number(Number::Whole(n)),
        ) ==> event_in(v) == Some(EventView::Ack { id: n }),
        json::says(v, "event"@, "hook-ready"@) && json::in_object(v, "authorized"@) == Some(
            Json::Bool(yes),
        ) && json::says(v, "version"@, a) && json::says(v, "trigger"@, b) ==> event_in(v) == Some(
            EventView::HookReady { authorized: yes, version: a, trigger: b },
        ),
        json::says(v, "event"@, "hook-failed"@) && json::says(v, "detail"@, a) ==> event_in(v)
            == Some(EventView::HookFailed { detail: a }),
        json::says(v, "event"@, "hook-warning"@) && json::says(v, "detail"@, a) ==> event_in(v)
            == Some(EventView::HookWarning { detail: a }),
        json::says(v, "event"@, "signed-out"@) ==> event_in(v) == Some(EventView::SignedOut),
        json::says(v, "event"@, "window-hidden"@) ==> event_in(v) == Some(EventView::WindowHidden),
        json::says(v, "event"@, "widevine-ready"@) ==> event_in(v) == Some(
            EventView::WidevineReady,
        ),
        json::says(v, "event"@, "ready"@) && json::in_object(v, "debug"@) == Some(Json::Bool(yes))
            ==> event_in(v) == Some(EventView::Ready { debug: yes }),
        json::says(v, "event"@, "hook-boot"@) && json::says(v, "ready_state"@, a) && json::says(
            v,
            "href"@,
            b,
        ) ==> event_in(v) == Some(EventView::HookBoot { ready_state: a, href: b }),
        json::says(v, "event"@, "cmd-recv"@) && json::says(v, "cmd"@, a) ==> event_in(v) == Some(
            EventView::CmdRecv { cmd: a },
        ),
        json::says(v, "event"@, "cmd-queued"@) && json::says(v, "cmd"@, a) && json::in_object(
            v,
            "depth"@,
        ) == Some(Json::Number(Number::Whole(n))) && n <= u32::MAX ==> event_in(v) == Some(
            EventView::CmdQueued { cmd: a, depth: n as u32 },
        ),
        !(json::in_object(v, "event"@) matches Some(Json::Text(_))) ==> event_in(v) is None,
{
    the_kinds();
}

/// A command tells its parts, each under its own name.
pub proof fn a_command_tells_its_parts(c: Command)
    ensures
        c matches Command::MoveInQueue { from, to } ==> members(c) == ",\"from\":"@ + text::decimal(
            from as nat,
        ) + ",\"to\":"@ + text::decimal(to as nat),
        c matches Command::Seek { position_ms } ==> members(c) == ",\"positionMs\":"@
            + text::decimal(position_ms as nat),
        c matches Command::SetShuffle { shuffle } ==> members(c) == ",\"shuffle\":"@ + if shuffle {
            "true"@
        } else {
            "false"@
        },
        c matches Command::ChangeToIndex { index } ==> members(c) == ",\"index\":"@
            + text::decimal(index as nat),
        c matches Command::RemoveFromQueue { index } ==> members(c) == ",\"index\":"@
            + text::decimal(index as nat),
        c matches Command::PlayNext { songs } ==> members(c) == ",\"songs\":"@ + list_text(
            text::views(songs@),
        ),
        c matches Command::PlayLater { songs } ==> members(c) == ",\"songs\":"@ + list_text(
            text::views(songs@),
        ),
        c is Play || c is Pause || c is PlayPause || c is Next || c is Previous || c is ClearQueue
            || c is Quit || c is Hide ==> members(c).len() == 0,
{
}

/// What a track, a queue, credentials and a report say is what they hold.
pub proof fn what_is_read_says_what_it_holds(i: Item, q: Queue, t: Tokens, e: Event)
    ensures
        i@.occurrence_id == i.occurrence_id@ && i@.title == i.title@ && i@.artist == i.artist@
            && i@.album == i.album@,
        i@.duration_ms == i.duration_ms && i@.track_number == i.track_number,
        i@.id == text::opt_view(i.id) && i@.catalog_id == text::opt_view(i.catalog_id),
        q@.reason == q.reason && q@.position == q.position && q@.items.len() == q.items@.len(),
        forall|k: int| 0 <= k < q.items@.len() ==> #[trigger] q@.items[k] == q.items@[k]@,
        t@.developer_token == t.developer_token@ && t@.storefront == t.storefront@
            && t@.authorized == t.authorized,
        t@.music_user_token == text::opt_view(t.music_user_token),
        e matches Event::Position { position_ms, duration_ms } ==> e@ == (EventView::Position {
            position_ms,
            duration_ms,
        }),
        e matches Event::PlaybackState { state } ==> e@ == (EventView::PlaybackState { state }),
        e matches Event::Modes { shuffle, repeat } ==> e@ == (EventView::Modes { shuffle, repeat }),
        e matches Event::Error { code, detail } ==> e@ == (EventView::Error {
            code: code@,
            detail: detail@,
        }),
        e matches Event::LibraryWrite { kind, id, ok, detail } ==> e@ == (EventView::LibraryWrite {
            kind: kind@,
            id: id@,
            ok,
            detail: detail@,
        }),
{
}

/// A line is what its JSON says, and nothing where it is none.
pub proof fn a_line_says_what_its_value_says(line: Seq<char>, v: Json)
    ensures
        json::parsed(line) == Some(v) ==> heard_in(line) == event_in(v),
        json::parsed(line) is None ==> heard_in(line) is None,
{
}

} // verus!
