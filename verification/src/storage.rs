//! The favorites store: favorited session identifiers with the time each was
//! favorited, and the view that joins them to the session log.

use crate::clock::{format_utc, now_millis, stamp_text, utc_text, DATE_FORMAT};
use crate::error::Error;
use crate::parser::{record_line, record_views, SessionRecord, SessionRecordView};
use crate::text::{decimal, decimal_text};
use crate::tomldoc::{
    integer_entries, lists_entries, member, parse, toml_document, toml_integers, toml_member,
};
use std::path::PathBuf;
use vstd::prelude::*;
use vstd::string::*;

verus! {

/// A session that the user marked.
#[derive(Debug, Clone, PartialEq, Eq)]
pub struct FavoriteSession {
    /// The favorited session identifier.
    pub session_id: String,
    /// When the session was favorited, in milliseconds since the Unix epoch.
    pub favorited_at: i64,
}

/// What a favorite holds, as plain values.
pub struct FavoriteView {
    pub session_id: Seq<char>,
    pub favorited_at: i64,
}

impl View for FavoriteSession {
    type V = FavoriteView;

    open spec fn view(&self) -> FavoriteView {
        FavoriteView { session_id: self.session_id@, favorited_at: self.favorited_at }
    }
}

/// The line that shows a favorite: a star, the session identifier and, in
/// parentheses, the date.
pub open spec fn favorite_line(date: Seq<char>, favorite: FavoriteView) -> Seq<char> {
    "⭐ "@ + favorite.session_id + " ("@ + date + ")"@
}

impl FavoriteSession {
    /// Makes a favorite of the two values.
    #[inline]
    pub fn new(session_id: String, favorited_at: i64) -> (r: Self)
        ensures
            r.session_id == session_id,
            r.favorited_at == favorited_at,
    {
        Self { session_id, favorited_at }
    }

    /// The favorite as one line of text, dated in UTC by the time it was
    /// favorited. A time that no calendar date stands for is shown as the
    /// current time.
    pub fn to_string(&self) -> (r: String)
        ensures
            match utc_text(self.favorited_at, DATE_FORMAT@) {
                Some(date) => r@ == favorite_line(date, self@),
                None => exists|date: Seq<char>| r@ == favorite_line(date, self@),
            },
    {
        let date = stamp_text(self.favorited_at);
        let mut line = String::from_str("⭐ ");
        line.append(self.session_id.as_str());
        line.append(" (");
        line.append(date.as_str());
        line.append(")");
        assert(line@ == favorite_line(date@, self@));
        line
    }
}

/// A favorite together with the newest record of its session.
#[derive(Debug, Clone, PartialEq, Eq)]
pub struct FavoriteWithDetails {
    /// The favorited session identifier.
    pub session_id: String,
    /// When the session was favorited, in milliseconds.
    pub favorited_at: i64,
    /// Content of the session's newest record.
    pub display: String,
    /// Project path of the session's newest record.
    pub project: String,
    /// Timestamp of the session's newest record, in milliseconds.
    pub session_timestamp: i64,
}

/// What an enriched favorite holds, as plain values.
pub struct FavoriteDetailsView {
    pub session_id: Seq<char>,
    pub favorited_at: i64,
    pub display: Seq<char>,
    pub project: Seq<char>,
    pub session_timestamp: i64,
}

impl View for FavoriteWithDetails {
    type V = FavoriteDetailsView;

    open spec fn view(&self) -> FavoriteDetailsView {
        FavoriteDetailsView {
            session_id: self.session_id@,
            favorited_at: self.favorited_at,
            display: self.display@,
            project: self.project@,
            session_timestamp: self.session_timestamp,
        }
    }
}

impl FavoriteDetailsView {
    /// The record that an enriched favorite is shown as.
    pub open spec fn as_record(self) -> SessionRecordView {
        SessionRecordView {
            display: self.display,
            timestamp: self.session_timestamp,
            project: self.project,
            session_id: self.session_id,
        }
    }
}

impl FavoriteWithDetails {
    /// Makes an enriched favorite of the five values.
    #[inline]
    pub fn new(
        session_id: String,
        favorited_at: i64,
        display: String,
        project: String,
        session_timestamp: i64,
    ) -> (r: Self)
        ensures
            r.session_id == session_id,
            r.favorited_at == favorited_at,
            r.display == display,
            r.project == project,
            r.session_timestamp == session_timestamp,
    {
        Self { session_id, favorited_at, display, project, session_timestamp }
    }

    /// The enriched favorite as one line of text, laid out as a record is
    /// and dated by the session's timestamp. Where no calendar date stands
    /// for that, the date is that of the time it was favorited, and failing
    /// that too, the current time.
    pub fn to_string(&self) -> (r: String)
        ensures
            match utc_text(self.session_timestamp, DATE_FORMAT@) {
                Some(date) => r@ == record_line(date, self@.as_record()),
                None => match utc_text(self.favorited_at, DATE_FORMAT@) {
                    Some(date) => r@ == record_line(date, self@.as_record()),
                    None => exists|date: Seq<char>| r@ == record_line(date, self@.as_record()),
                },
            },
    {
        let mut line = match format_utc(self.session_timestamp, DATE_FORMAT) {
            Some(date) => date,
            None => stamp_text(self.favorited_at),
        };
        let ghost date = line@;
        line.append(" ");
        line.append(self.project.as_str());
        line.append(" > ");
        line.append(self.display.as_str());
        line.append("  [");
        line.append(self.session_id.as_str());
        line.append("]");
        assert(line@ == record_line(date, self@.as_record()));
        line
    }
}

/// Whether no two of `entries` share a session identifier.
pub open spec fn distinct_ids(entries: Seq<FavoriteSession>) -> bool {
    forall|i: int, j: int|
        0 <= i < j < entries.len() ==> (#[trigger] entries[i]).session_id@
            != (#[trigger] entries[j]).session_id@
}

/// Whether `entries` lists `favorites`: every favorited session once, with
/// the time it was favorited.
pub open spec fn lists_favorites(
    entries: Seq<FavoriteSession>,
    favorites: Map<Seq<char>, i64>,
) -> bool {
    &&& distinct_ids(entries)
    &&& forall|i: int|
        0 <= i < entries.len() ==> favorites.contains_key((#[trigger] entries[i]).session_id@)
            && favorites[entries[i].session_id@] == entries[i].favorited_at
    &&& forall|id: Seq<char>| #[trigger]
        favorites.contains_key(id) ==> exists|i: int|
            0 <= i < entries.len() && (#[trigger] entries[i]).session_id@ == id
}

/// Whether `entries` run from the most recently favorited to the least.
pub open spec fn newest_favorite_first(entries: Seq<FavoriteSession>) -> bool {
    forall|i: int, j: int|
        0 <= i < j < entries.len() ==> (#[trigger] entries[i]).favorited_at
            >= (#[trigger] entries[j]).favorited_at
}

/// The mapping that `entries` spell out, from session identifier to the
/// time it was favorited.
pub open spec fn entries_map(entries: Seq<FavoriteSession>) -> Map<Seq<char>, i64> {
    Map::new(
        |id: Seq<char>|
            exists|i: int| 0 <= i < entries.len() && (#[trigger] entries[i]).session_id@ == id,
        |id: Seq<char>|
            entries[choose|i: int|
                0 <= i < entries.len() && (#[trigger] entries[i]).session_id@ == id].favorited_at,
    )
}

/// Entries with distinct identifiers list the mapping they spell out.
pub proof fn lemma_entries_list_their_map(entries: Seq<FavoriteSession>)
    requires
        distinct_ids(entries),
    ensures
        lists_favorites(entries, entries_map(entries)),
{
    let favorites = entries_map(entries);
    assert forall|i: int| 0 <= i < entries.len() implies favorites.contains_key(
        (#[trigger] entries[i]).session_id@,
    ) && favorites[entries[i].session_id@] == entries[i].favorited_at by {
        let id = entries[i].session_id@;
        let j = choose|j: int| 0 <= j < entries.len() && (#[trigger] entries[j]).session_id@ == id;
        assert(i == j);
    }
}

/// A mapping has one listing only, up to order: entries that list
/// `favorites` spell out `favorites`.
pub proof fn lemma_listing_spells_map(entries: Seq<FavoriteSession>, favorites: Map<Seq<char>, i64>)
    requires
        lists_favorites(entries, favorites),
    ensures
        entries_map(entries) == favorites,
{
    lemma_entries_list_their_map(entries);
    let spelled = entries_map(entries);
    assert forall|id: Seq<char>| spelled.contains_key(id) == favorites.contains_key(id) by {
        if spelled.contains_key(id) {
            let i = choose|i: int|
                0 <= i < entries.len() && (#[trigger] entries[i]).session_id@ == id;
            assert(favorites.contains_key(entries[i].session_id@));
        }
    }
    assert forall|id: Seq<char>| spelled.contains_key(id) implies spelled[id] == favorites[id] by {
        let i = choose|i: int| 0 <= i < entries.len() && (#[trigger] entries[i]).session_id@ == id;
        assert(favorites[entries[i].session_id@] == entries[i].favorited_at);
    }
    assert(spelled =~= favorites);
}

/// Giving an entry a new time gives its session that time in the mapping.
proof fn lemma_entry_replaced(before: Seq<FavoriteSession>, i: int, entry: FavoriteSession)
    requires
        distinct_ids(before),
        0 <= i < before.len(),
        entry.session_id@ == before[i].session_id@,
    ensures
        distinct_ids(before.update(i, entry)),
        entries_map(before.update(i, entry)) == entries_map(before).insert(
            entry.session_id@,
            entry.favorited_at,
        ),
{
    let after = before.update(i, entry);
    assert forall|a: int, b: int| 0 <= a < b < after.len() implies (#[trigger] after[a]).session_id@
        != (#[trigger] after[b]).session_id@ by {
        assert(after[a].session_id@ == before[a].session_id@);
        assert(after[b].session_id@ == before[b].session_id@);
    }
    lemma_entries_list_their_map(before);
    lemma_entries_list_their_map(after);
    let old_map = entries_map(before);
    let new_map = entries_map(after);
    let expected = old_map.insert(entry.session_id@, entry.favorited_at);
    assert forall|id: Seq<char>| new_map.contains_key(id) == expected.contains_key(id) by {
        if new_map.contains_key(id) {
            let j = choose|j: int| 0 <= j < after.len() && (#[trigger] after[j]).session_id@ == id;
            assert(before[j].session_id@ == id);
        }
        if expected.contains_key(id) {
            if id == entry.session_id@ {
                assert(after[i].session_id@ == id);
            } else {
                let j = choose|j: int|
                    0 <= j < before.len() && (#[trigger] before[j]).session_id@ == id;
                assert(after[j].session_id@ == id);
            }
        }
    }
    assert forall|id: Seq<char>| new_map.contains_key(id) implies new_map[id] == expected[id] by {
        let j = choose|j: int| 0 <= j < after.len() && (#[trigger] after[j]).session_id@ == id;
        assert(new_map[after[j].session_id@] == after[j].favorited_at);
        if j != i {
            assert(after[j] == before[j]);
            assert(old_map[before[j].session_id@] == before[j].favorited_at);
        }
    }
    assert(new_map =~= expected);
}

/// Adding an entry for a session that has none adds the session to the
/// mapping.
proof fn lemma_entry_added(before: Seq<FavoriteSession>, entry: FavoriteSession)
    requires
        distinct_ids(before),
        !entries_map(before).contains_key(entry.session_id@),
    ensures
        distinct_ids(before.push(entry)),
        entries_map(before.push(entry)) == entries_map(before).insert(
            entry.session_id@,
            entry.favorited_at,
        ),
{
    let after = before.push(entry);
    assert forall|a: int, b: int| 0 <= a < b < after.len() implies (#[trigger] after[a]).session_id@
        != (#[trigger] after[b]).session_id@ by {
        assert(after[a] == before[a]);
        if b < before.len() {
            assert(after[b] == before[b]);
        }
    }
    lemma_entries_list_their_map(before);
    lemma_entries_list_their_map(after);
    let old_map = entries_map(before);
    let new_map = entries_map(after);
    let expected = old_map.insert(entry.session_id@, entry.favorited_at);
    assert forall|id: Seq<char>| new_map.contains_key(id) == expected.contains_key(id) by {
        if new_map.contains_key(id) {
            let j = choose|j: int| 0 <= j < after.len() && (#[trigger] after[j]).session_id@ == id;
            if j < before.len() {
                assert(before[j].session_id@ == id);
            }
        }
        if expected.contains_key(id) {
            if id == entry.session_id@ {
                assert(after[before.len() as int].session_id@ == id);
            } else {
                let j = choose|j: int|
                    0 <= j < before.len() && (#[trigger] before[j]).session_id@ == id;
                assert(after[j].session_id@ == id);
            }
        }
    }
    assert forall|id: Seq<char>| new_map.contains_key(id) implies new_map[id] == expected[id] by {
        let j = choose|j: int| 0 <= j < after.len() && (#[trigger] after[j]).session_id@ == id;
        assert(new_map[after[j].session_id@] == after[j].favorited_at);
        if j < before.len() {
            assert(after[j] == before[j]);
            assert(old_map[before[j].session_id@] == before[j].favorited_at);
        }
    }
    assert(new_map =~= expected);
}

/// Taking an entry out takes its session out of the mapping.
proof fn lemma_entry_removed(before: Seq<FavoriteSession>, i: int)
    requires
        distinct_ids(before),
        0 <= i < before.len(),
    ensures
        distinct_ids(before.remove(i)),
        entries_map(before.remove(i)) == entries_map(before).remove(before[i].session_id@),
{
    let after = before.remove(i);
    before.remove_ensures(i);
    assert forall|a: int, b: int| 0 <= a < b < after.len() implies (#[trigger] after[a]).session_id@
        != (#[trigger] after[b]).session_id@ by {
        let a0 = if a < i { a } else { a + 1 };
        let b0 = if b < i { b } else { b + 1 };
        assert(after[a] == before[a0]);
        assert(after[b] == before[b0]);
    }
    lemma_entries_list_their_map(before);
    lemma_entries_list_their_map(after);
    let old_map = entries_map(before);
    let new_map = entries_map(after);
    let gone = before[i].session_id@;
    let expected = old_map.remove(gone);
    assert forall|id: Seq<char>| new_map.contains_key(id) == expected.contains_key(id) by {
        if new_map.contains_key(id) {
            let j = choose|j: int| 0 <= j < after.len() && (#[trigger] after[j]).session_id@ == id;
            let j0 = if j < i { j } else { j + 1 };
            assert(after[j] == before[j0]);
            assert(before[j0].session_id@ == id);
            if j0 < i {
                assert(before[j0].session_id@ != before[i].session_id@);
            } else {
                assert(before[i].session_id@ != before[j0].session_id@);
            }
        }
        if expected.contains_key(id) {
            let j0 = choose|j: int|
                0 <= j < before.len() && (#[trigger] before[j]).session_id@ == id;
            let j = if j0 < i { j0 } else { j0 - 1 };
            assert(after[j] == before[j0]);
            assert(after[j].session_id@ == id);
        }
    }
    assert forall|id: Seq<char>| new_map.contains_key(id) implies new_map[id] == expected[id] by {
        let j = choose|j: int| 0 <= j < after.len() && (#[trigger] after[j]).session_id@ == id;
        let j0 = if j < i { j } else { j + 1 };
        assert(after[j] == before[j0]);
        assert(new_map[after[j].session_id@] == after[j].favorited_at);
        assert(old_map[before[j0].session_id@] == before[j0].favorited_at);
    }
    assert(new_map =~= expected);
}

/// Whether `i` is the place of the newest record of session `id` among the
/// first `n` of `records`: no record of the session is newer, and of those
/// with the same timestamp it is the first.
pub open spec fn is_latest_within(
    records: Seq<SessionRecordView>,
    n: int,
    id: Seq<char>,
    i: int,
) -> bool {
    &&& 0 <= i < n <= records.len()
    &&& records[i].session_id == id
    &&& forall|j: int|
        0 <= j < n && (#[trigger] records[j]).session_id == id ==> records[j].timestamp
            <= records[i].timestamp
    &&& forall|j: int|
        0 <= j < i && (#[trigger] records[j]).session_id == id ==> records[j].timestamp
            < records[i].timestamp
}

/// Whether `i` is the place of the newest record of session `id`.
pub open spec fn is_latest(records: Seq<SessionRecordView>, id: Seq<char>, i: int) -> bool {
    is_latest_within(records, records.len() as int, id, i)
}

/// The newest record of session `id`, if the log holds one at all.
pub open spec fn latest_record(records: Seq<SessionRecordView>, id: Seq<char>) -> Option<
    SessionRecordView,
> {
    if exists|i: int| is_latest(records, id, i) {
        Some(records[choose|i: int| is_latest(records, id, i)])
    } else {
        None
    }
}

/// The display text of a favorite whose session the log does not hold.
pub open spec fn missing_session_text() -> Seq<char> {
    "(session not found in history)"@
}

/// A favorite joined to the log: with the content, project and timestamp of
/// the newest record of its session, or, where the log holds none, with the
/// placeholder text, no project and the time it was favorited.
pub open spec fn enriched(
    favorite: FavoriteView,
    records: Seq<SessionRecordView>,
) -> FavoriteDetailsView {
    match latest_record(records, favorite.session_id) {
        Some(record) => FavoriteDetailsView {
            session_id: favorite.session_id,
            favorited_at: favorite.favorited_at,
            display: record.display,
            project: record.project,
            session_timestamp: record.timestamp,
        },
        None => FavoriteDetailsView {
            session_id: favorite.session_id,
            favorited_at: favorite.favorited_at,
            display: missing_session_text(),
            project: Seq::empty(),
            session_timestamp: favorite.favorited_at,
        },
    }
}

/// Whether `items` lists `favorites` joined to `records`: every favorited
/// session once, enriched.
pub open spec fn lists_details(
    items: Seq<FavoriteWithDetails>,
    favorites: Map<Seq<char>, i64>,
    records: Seq<SessionRecordView>,
) -> bool {
    &&& forall|i: int, j: int|
        0 <= i < j < items.len() ==> (#[trigger] items[i]).session_id@
            != (#[trigger] items[j]).session_id@
    &&& forall|i: int|
        0 <= i < items.len() ==> favorites.contains_key((#[trigger] items[i]).session_id@)
            && items[i]@ == enriched(
            FavoriteView {
                session_id: items[i].session_id@,
                favorited_at: favorites[items[i].session_id@],
            },
            records,
        )
    &&& forall|id: Seq<char>| #[trigger]
        favorites.contains_key(id) ==> exists|i: int|
            0 <= i < items.len() && (#[trigger] items[i]).session_id@ == id
}

/// Whether `items` run from the most recently favorited to the least.
pub open spec fn newest_details_first(items: Seq<FavoriteWithDetails>) -> bool {
    forall|i: int, j: int|
        0 <= i < j < items.len() ==> (#[trigger] items[i]).favorited_at
            >= (#[trigger] items[j]).favorited_at
}

/// At most one place is that of the newest record of a session.
pub proof fn lemma_latest_is_unique(
    records: Seq<SessionRecordView>,
    n: int,
    id: Seq<char>,
    i: int,
    j: int,
)
    requires
        is_latest_within(records, n, id, i),
        is_latest_within(records, n, id, j),
    ensures
        i == j,
{
    if i < j {
        assert(records[i].timestamp < records[j].timestamp);
        assert(records[j].timestamp <= records[i].timestamp);
    } else if j < i {
        assert(records[j].timestamp < records[i].timestamp);
        assert(records[i].timestamp <= records[j].timestamp);
    }
}

/// Where some record among the first `n` belongs to session `id`, one of
/// them is its newest.
pub proof fn lemma_latest_exists(records: Seq<SessionRecordView>, n: int, id: Seq<char>)
    requires
        0 <= n <= records.len(),
        exists|j: int| 0 <= j < n && (#[trigger] records[j]).session_id == id,
    ensures
        exists|i: int| is_latest_within(records, n, id, i),
    decreases n,
{
    let last = n - 1;
    if exists|j: int| 0 <= j < last && (#[trigger] records[j]).session_id == id {
        lemma_latest_exists(records, last, id);
        let before = choose|i: int| is_latest_within(records, last, id, i);
        if records[last].session_id == id && records[last].timestamp > records[before].timestamp {
            assert(is_latest_within(records, n, id, last));
        } else {
            assert(is_latest_within(records, n, id, before));
        }
    } else {
        let j = choose|j: int| 0 <= j < n && (#[trigger] records[j]).session_id == id;
        assert(j == last);
        assert(is_latest_within(records, n, id, last));
    }
}

/// Puts `entry` into `sorted` behind every entry that is as recent or more
/// recent, and before the rest.
fn insert_by_time(sorted: &mut Vec<FavoriteSession>, entry: FavoriteSession) -> (place: usize)
    requires
        newest_favorite_first(old(sorted)@),
    ensures
        place <= old(sorted).len(),
        final(sorted)@ == old(sorted)@.insert(place as int, entry),
        newest_favorite_first(final(sorted)@),
{
    let mut place: usize = 0;
    while place < sorted.len() && sorted[place].favorited_at >= entry.favorited_at
        invariant
            place <= sorted.len(),
            forall|k: int| 0 <= k < place ==> (#[trigger] sorted[k]).favorited_at >= entry.favorited_at,
        decreases sorted.len() - place,
    {
        place += 1;
    }
    let ghost before = sorted@;
    sorted.insert(place, entry);
    proof {
        before.insert_ensures(place as int, entry);
        assert forall|a: int, b: int| 0 <= a < b < sorted.len() implies (#[trigger] sorted[a]).favorited_at
            >= (#[trigger] sorted[b]).favorited_at by {
            if b < place {
                assert(sorted[a] == before[a] && sorted[b] == before[b]);
            } else if b == place {
                assert(sorted[a] == before[a]);
            } else if a < place {
                assert(sorted[a] == before[a] && sorted[b] == before[b - 1]);
            } else if a == place {
                assert(sorted[b] == before[b - 1]);
                assert(before[place as int].favorited_at >= before[b - 1].favorited_at || place == b - 1);
            } else {
                assert(sorted[a] == before[a - 1] && sorted[b] == before[b - 1]);
            }
        }
    }
    place
}

/// Entries that are `source` in another order list what `source` lists.
proof fn lemma_rearranged_listing(
    source: Seq<FavoriteSession>,
    sorted: Seq<FavoriteSession>,
    origin: Seq<int>,
)
    requires
        distinct_ids(source),
        sorted.len() == source.len(),
        origin.len() == source.len(),
        forall|k: int|
            0 <= k < sorted.len() ==> 0 <= #[trigger] origin[k] < source.len() && sorted[k]@
                == source[origin[k]]@,
        forall|a: int, b: int|
            0 <= a < b < origin.len() ==> #[trigger] origin[a] != #[trigger] origin[b],
        forall|j: int| 0 <= j < source.len() ==> #[trigger] origin.contains(j),
    ensures
        lists_favorites(sorted, entries_map(source)),
{
    lemma_entries_list_their_map(source);
    let favorites = entries_map(source);
    assert forall|a: int, b: int| 0 <= a < b < sorted.len() implies (#[trigger] sorted[a]).session_id@
        != (#[trigger] sorted[b]).session_id@ by {
        assert(sorted[a]@ == source[origin[a]]@);
        assert(sorted[b]@ == source[origin[b]]@);
        if origin[a] < origin[b] {
            assert(source[origin[a]].session_id@ != source[origin[b]].session_id@);
        } else {
            assert(source[origin[b]].session_id@ != source[origin[a]].session_id@);
        }
    }
    assert forall|k: int| 0 <= k < sorted.len() implies favorites.contains_key(
        (#[trigger] sorted[k]).session_id@,
    ) && favorites[sorted[k].session_id@] == sorted[k].favorited_at by {
        assert(sorted[k]@ == source[origin[k]]@);
        assert(favorites.contains_key(source[origin[k]].session_id@));
    }
    assert forall|id: Seq<char>| #[trigger] favorites.contains_key(id) implies exists|k: int|
        0 <= k < sorted.len() && (#[trigger] sorted[k]).session_id@ == id by {
        let j = choose|j: int| 0 <= j < source.len() && (#[trigger] source[j]).session_id@ == id;
        assert(origin.contains(j));
        let k = choose|k: int| 0 <= k < origin.len() && #[trigger] origin[k] == j;
        assert(sorted[k]@ == source[origin[k]]@);
        assert(sorted[k].session_id@ == id);
    }
}

/// The place of the newest record of session `session_id` in `records`.
fn find_latest(records: &Vec<SessionRecord>, session_id: &String) -> (r: Option<usize>)
    ensures
        match r {
            Some(i) => is_latest(record_views(records@), session_id@, i as int),
            None => forall|j: int|
                0 <= j < records.len() ==> (#[trigger] records[j]).session_id@ != session_id@,
        },
{
    let ghost views = record_views(records@);
    let mut best: Option<usize> = None;
    let mut i: usize = 0;
    while i < records.len()
        invariant
            i <= records.len(),
            views == record_views(records@),
            match best {
                Some(b) => is_latest_within(views, i as int, session_id@, b as int),
                None => forall|j: int|
                    0 <= j < i ==> (#[trigger] records[j]).session_id@ != session_id@,
            },
        decreases records.len() - i,
    {
        assert(views[i as int] == records[i as int]@);
        if records[i].session_id == *session_id {
            match best {
                Some(b) => {
                    assert(views[b as int] == records[b as int]@);
                    if records[i].timestamp > records[b].timestamp {
                        best = Some(i);
                    }
                },
                None => {
                    assert forall|j: int| 0 <= j < i implies (#[trigger] views[j]).session_id
                        != session_id@ by {
                        assert(views[j] == records[j]@);
                    }
                    best = Some(i);
                },
            }
        }
        i += 1;
    }
    best
}

/// The members of `entries` that are integers, with their numbers.
pub open spec fn integers_among(entries: Map<Seq<char>, Option<i64>>) -> Map<Seq<char>, i64> {
    Map::new(
        |key: Seq<char>| entries.contains_key(key) && entries[key] is Some,
        |key: Seq<char>| entries[key].unwrap(),
    )
}

/// The favorites that the text of a favorites file holds: the integer
/// members of its table `sessions`. A document without that table, or in
/// which `sessions` is no table, holds none; members that are no integers
/// are passed over. `None` where the text is not TOML.
pub open spec fn saved_favorites(text: Seq<char>) -> Option<Map<Seq<char>, i64>> {
    match toml_document(text) {
        None => None,
        Some(doc) => Some(
            match toml_member(doc, "sessions"@) {
                None => Map::empty(),
                Some(section) => match toml_integers(section) {
                    None => Map::empty(),
                    Some(entries) => integers_among(entries),
                },
            },
        ),
    }
}

/// The line of the favorites file that holds one favorite.
pub open spec fn saved_line(favorite: FavoriteView) -> Seq<char> {
    "\""@ + favorite.session_id + "\" = "@ + decimal(favorite.favorited_at as int) + "\n"@
}

/// The lines of the favorites file that hold `entries`, in their order.
pub open spec fn saved_lines(entries: Seq<FavoriteSession>) -> Seq<char>
    decreases entries.len(),
{
    if entries.len() == 0 {
        Seq::empty()
    } else {
        saved_lines(entries.drop_last()) + saved_line(entries.last()@)
    }
}

/// The text of a favorites file that holds `entries`: the header of the
/// table `sessions`, then one line for each entry.
pub open spec fn saved_text(entries: Seq<FavoriteSession>) -> Seq<char> {
    "[sessions]\n"@ + saved_lines(entries)
}

/// Writes `entries` as the text of a favorites file, in their order.
pub fn render_favorites(entries: &Vec<FavoriteSession>) -> (r: String)
    ensures
        r@ == saved_text(entries@),
{
    let mut content = String::from_str("[sessions]\n");
    let mut i: usize = 0;
    while i < entries.len()
        invariant
            i <= entries.len(),
            content@ == saved_text(entries@.take(i as int)),
        decreases entries.len() - i,
    {
        let ghost before = content@;
        let number = decimal_text(entries[i].favorited_at);
        content.append("\"");
        content.append(entries[i].session_id.as_str());
        content.append("\" = ");
        content.append(number.as_str());
        content.append("\n");
        proof {
            let seen = entries@.take(i as int);
            let next = entries@.take(i + 1);
            assert(next.drop_last() == seen);
            assert(next.last() == entries[i as int]);
            assert(content@ == before + saved_line(entries[i as int]@));
            assert(saved_lines(next) == saved_lines(seen) + saved_line(entries[i as int]@));
        }
        i += 1;
    }
    assert(entries@.take(entries.len() as int) == entries@);
    content
}

/// Reads the favorites out of the text of a favorites file.
pub fn load_favorites(content: &str) -> (r: Result<Vec<FavoriteSession>, Error>)
    ensures
        match saved_favorites(content@) {
            Some(favorites) => r matches Ok(entries) && lists_favorites(entries@, favorites),
            None => r matches Err(Error::TomlParse(_)),
        },
{
    let doc = match parse(content) {
        Ok(doc) => doc,
        Err(detail) => { return Err(Error::TomlParse(detail)); },
    };
    let mut favorites: Vec<FavoriteSession> = Vec::new();
    let section = match member(&doc, "sessions") {
        Some(section) => section,
        None => { return Ok(favorites); },
    };
    let items = match integer_entries(section) {
        Some(items) => items,
        None => { return Ok(favorites); },
    };
    let ghost entries = toml_integers(*section).unwrap();
    let ghost mut origin: Seq<int> = Seq::empty();
    let mut i: usize = 0;
    while i < items.len()
        invariant
            i <= items.len(),
            lists_entries(items@, entries),
            origin.len() == favorites.len(),
            forall|k: int|
                0 <= k < favorites.len() ==> 0 <= #[trigger] origin[k] < i && items[origin[k]].0@
                    == favorites[k].session_id@ && items[origin[k]].1 == Some(
                    favorites[k].favorited_at,
                ),
            forall|a: int, b: int|
                0 <= a < b < origin.len() ==> #[trigger] origin[a] < #[trigger] origin[b],
            forall|j: int|
                0 <= j < i && (#[trigger] items[j]).1 is Some ==> origin.contains(j),
        decreases items.len() - i,
    {
        let ghost origin_before = origin;
        match items[i].1 {
            Some(timestamp) => {
                favorites.push(FavoriteSession::new(items[i].0.clone(), timestamp));
                proof {
                    origin = origin_before.push(i as int);
                    assert forall|j: int| 0 <= j < i + 1 && (#[trigger] items[j]).1
                        is Some implies origin.contains(j) by {
                        if j == i {
                            assert(origin[origin_before.len() as int] == j);
                        } else {
                            assert(origin_before.contains(j));
                            let k = choose|k: int|
                                0 <= k < origin_before.len() && #[trigger] origin_before[k] == j;
                            assert(origin[k] == j);
                        }
                    }
                }
            },
            None => {},
        }
        i += 1;
    }
    proof {
        let wanted = integers_among(entries);
        assert forall|a: int, b: int| 0 <= a < b < favorites.len() implies (
        #[trigger] favorites[a]).session_id@ != (#[trigger] favorites[b]).session_id@ by {
            assert(origin[a] < origin[b]);
            assert(items[origin[a]].0@ != items[origin[b]].0@);
        }
        assert forall|k: int| 0 <= k < favorites.len() implies wanted.contains_key(
            (#[trigger] favorites[k]).session_id@,
        ) && wanted[favorites[k].session_id@] == favorites[k].favorited_at by {
            assert(entries.contains_key(items[origin[k]].0@));
        }
        assert forall|id: Seq<char>| #[trigger] wanted.contains_key(id) implies exists|k: int|
            0 <= k < favorites.len() && (#[trigger] favorites[k]).session_id@ == id by {
            assert(entries.contains_key(id));
            let j = choose|j: int| 0 <= j < items.len() && (#[trigger] items[j]).0@ == id;
            assert(entries[items[j].0@] == items[j].1);
            assert(origin.contains(j));
            let k = choose|k: int| 0 <= k < origin.len() && #[trigger] origin[k] == j;
            assert(favorites[k].session_id@ == id);
        }
    }
    Ok(favorites)
}

/// The favorites of one user: an owned mapping from session identifier to
/// the time it was favorited, with the places it is kept at.
#[derive(Debug)]
pub struct Storage {
    data_dir: PathBuf,
    favorites_file: PathBuf,
    favorites: Vec<FavoriteSession>,
}

impl View for Storage {
    type V = Map<Seq<char>, i64>;

    closed spec fn view(&self) -> Map<Seq<char>, i64> {
        entries_map(self.favorites@)
    }
}

impl Clone for Storage {
    /// A store of its own with the same places and the same favorites.
    fn clone(&self) -> (r: Self)
        ensures
            r@ == self@,
            r.directory() == self.directory(),
            r.file() == self.file(),
    {
        proof {
            use_type_invariant(self);
        }
        let mut favorites: Vec<FavoriteSession> = Vec::new();
        let mut i: usize = 0;
        while i < self.favorites.len()
            invariant
                i <= self.favorites.len(),
                favorites.len() == i,
                forall|j: int| 0 <= j < i ==> (#[trigger] favorites[j])@ == self.favorites[j]@,
            decreases self.favorites.len() - i,
        {
            favorites.push(
                FavoriteSession::new(
                    self.favorites[i].session_id.clone(),
                    self.favorites[i].favorited_at,
                ),
            );
            i += 1;
        }
        proof {
            assert forall|a: int, b: int| 0 <= a < b < favorites.len() implies (
            #[trigger] favorites[a]).session_id@ != (#[trigger] favorites[b]).session_id@ by {
                assert(favorites[a]@ == self.favorites[a]@);
                assert(favorites[b]@ == self.favorites[b]@);
            }
            lemma_entries_list_their_map(self.favorites@);
            assert(lists_favorites(favorites@, entries_map(self.favorites@))) by {
                assert forall|k: int| 0 <= k < favorites.len() implies entries_map(
                    self.favorites@,
                ).contains_key((#[trigger] favorites[k]).session_id@) && entries_map(
                    self.favorites@,
                )[favorites[k].session_id@] == favorites[k].favorited_at by {
                    assert(favorites[k]@ == self.favorites[k]@);
                    assert(entries_map(self.favorites@).contains_key(
                        self.favorites[k].session_id@,
                    ));
                }
                assert forall|id: Seq<char>| #[trigger]
                    entries_map(self.favorites@).contains_key(id) implies exists|k: int|
                    0 <= k < favorites.len() && (#[trigger] favorites[k]).session_id@ == id by {
                    let k = choose|k: int|
                        0 <= k < self.favorites.len() && (#[trigger] self.favorites[k]).session_id@
                            == id;
                    assert(favorites[k]@ == self.favorites[k]@);
                }
            }
            lemma_listing_spells_map(favorites@, entries_map(self.favorites@));
        }
        Storage {
            data_dir: self.data_dir.clone(),
            favorites_file: self.favorites_file.clone(),
            favorites,
        }
    }
}

impl Storage {
    #[verifier::type_invariant]
    spec fn well_formed(self) -> bool {
        distinct_ids(self.favorites@)
    }

    /// The data directory that the store was opened with.
    pub closed spec fn directory(self) -> PathBuf {
        self.data_dir
    }

    /// The file that the favorites are kept in.
    pub closed spec fn file(self) -> PathBuf {
        self.favorites_file
    }

    /// Opens a store kept under `data_dir` in the file `favorites_file`.
    /// `saved` is the text of that file where it exists: the store then
    /// holds the favorites written there.
    pub fn new(data_dir: PathBuf, favorites_file: PathBuf, saved: Option<&str>) -> (r: Result<
        Storage,
        Error,
    >)
        ensures
            match saved {
                None => r matches Ok(store) && store@ == Map::<Seq<char>, i64>::empty()
                    && store.directory() == data_dir && store.file() == favorites_file,
                Some(text) => match saved_favorites(text@) {
                    Some(favorites) => r matches Ok(store) && store@ == favorites
                        && store.directory() == data_dir && store.file() == favorites_file,
                    None => r matches Err(Error::TomlParse(_)),
                },
            },
    {
        let favorites = match saved {
            Some(text) => match load_favorites(text) {
                Ok(entries) => {
                    proof {
                        lemma_listing_spells_map(entries@, saved_favorites(text@).unwrap());
                    }
                    entries
                },
                Err(fault) => { return Err(fault); },
            },
            None => {
                let entries: Vec<FavoriteSession> = Vec::new();
                assert(entries_map(entries@) =~= Map::<Seq<char>, i64>::empty());
                entries
            },
        };
        Ok(Storage { data_dir, favorites_file, favorites })
    }

    /// The text to keep in the favorites file: the favorites, the most
    /// recently favorited first.
    pub fn favorites_text(&self) -> (r: String)
        ensures
            exists|listing: Seq<FavoriteSession>|
                lists_favorites(listing, self@) && newest_favorite_first(listing) && r@
                    == saved_text(listing),
    {
        let listing = self.list_favorites();
        render_favorites(&listing)
    }

    /// Hands out the entries and leaves the store empty, for the caller to
    /// put them back once they are changed.
    fn take_entries(&mut self) -> (r: Vec<FavoriteSession>)
        ensures
            r == old(self).favorites,
            final(self).favorites@.len() == 0,
            final(self).data_dir == old(self).data_dir,
            final(self).favorites_file == old(self).favorites_file,
    {
        let mut entries: Vec<FavoriteSession> = Vec::new();
        std::mem::swap(&mut self.favorites, &mut entries);
        entries
    }

    /// The place of `session_id` among the entries.
    fn position(&self, session_id: &str) -> (r: Option<usize>)
        ensures
            match r {
                Some(i) => i < self.favorites.len() && self.favorites[i as int].session_id@
                    == session_id@,
                None => !self@.contains_key(session_id@),
            },
            r is Some <==> self@.contains_key(session_id@),
    {
        let probe = String::from_str(session_id);
        let mut i: usize = 0;
        while i < self.favorites.len()
            invariant
                i <= self.favorites.len(),
                probe@ == session_id@,
                forall|j: int| 0 <= j < i ==> (#[trigger] self.favorites[j]).session_id@ != probe@,
            decreases self.favorites.len() - i,
        {
            if self.favorites[i].session_id == probe {
                return Some(i);
            }
            i += 1;
        }
        None
    }

    /// Whether the session is among the favorites.
    pub fn is_favorited(&self, session_id: &str) -> (b: bool)
        ensures
            b == self@.contains_key(session_id@),
    {
        self.position(session_id).is_some()
    }

    /// The data directory.
    pub fn data_dir(&self) -> (r: &PathBuf)
        ensures
            *r == self.directory(),
    {
        &self.data_dir
    }

    /// The file that holds the favorites.
    pub fn favorites_file(&self) -> (r: &PathBuf)
        ensures
            *r == self.file(),
    {
        &self.favorites_file
    }

    /// The favorites, the most recently favorited first.
    pub fn list_favorites(&self) -> (r: Vec<FavoriteSession>)
        ensures
            lists_favorites(r@, self@),
            newest_favorite_first(r@),
    {
        proof {
            use_type_invariant(self);
        }
        let mut sorted: Vec<FavoriteSession> = Vec::new();
        let ghost mut origin: Seq<int> = Seq::empty();
        let mut i: usize = 0;
        while i < self.favorites.len()
            invariant
                i <= self.favorites.len(),
                sorted.len() == i,
                origin.len() == i,
                newest_favorite_first(sorted@),
                forall|k: int|
                    0 <= k < i ==> 0 <= #[trigger] origin[k] < i && sorted[k]@
                        == self.favorites[origin[k]]@,
                forall|a: int, b: int|
                    0 <= a < b < i ==> #[trigger] origin[a] != #[trigger] origin[b],
                forall|j: int| 0 <= j < i ==> #[trigger] origin.contains(j),
            decreases self.favorites.len() - i,
        {
            let entry = FavoriteSession::new(
                self.favorites[i].session_id.clone(),
                self.favorites[i].favorited_at,
            );
            let ghost sorted_before = sorted@;
            let ghost origin_before = origin;
            let place = insert_by_time(&mut sorted, entry);
            proof {
                origin = origin_before.insert(place as int, i as int);
                sorted_before.insert_ensures(place as int, entry);
                origin_before.insert_ensures(place as int, i as int);
                assert forall|k: int| 0 <= k < i + 1 implies 0 <= #[trigger] origin[k] < i + 1
                    && sorted[k]@ == self.favorites[origin[k]]@ by {
                    if k < place {
                        assert(origin[k] == origin_before[k]);
                        assert(sorted[k] == sorted_before[k]);
                    } else if k > place {
                        assert(origin[k] == origin_before[k - 1]);
                        assert(sorted[k] == sorted_before[k - 1]);
                    }
                }
                assert forall|a: int, b: int| 0 <= a < b < i + 1 implies #[trigger] origin[a]
                    != #[trigger] origin[b] by {
                    let a0 = if a < place { a } else { a - 1 };
                    let b0 = if b < place { b } else { b - 1 };
                    if a != place {
                        assert(origin[a] == origin_before[a0]);
                    }
                    if b != place {
                        assert(origin[b] == origin_before[b0]);
                    }
                }
                assert forall|j: int| 0 <= j < i + 1 implies #[trigger] origin.contains(j) by {
                    if j == i {
                        assert(origin[place as int] == j);
                    } else {
                        assert(origin_before.contains(j));
                        let k0 = choose|k: int|
                            0 <= k < origin_before.len() && #[trigger] origin_before[k] == j;
                        let k = if k0 < place { k0 } else { k0 + 1 };
                        assert(origin[k] == origin_before[k0]);
                    }
                }
            }
            i += 1;
        }
        proof {
            lemma_rearranged_listing(self.favorites@, sorted@, origin);
        }
        sorted
    }

    /// The favorites, the most recently favorited first, each joined to the
    /// newest record of its session in `records`. A favorite whose session
    /// the log does not hold is kept, with a placeholder for its content.
    pub fn list_favorites_with_details(&self, records: &Vec<SessionRecord>) -> (r: Vec<
        FavoriteWithDetails,
    >)
        ensures
            lists_details(r@, self@, record_views(records@)),
            newest_details_first(r@),
    {
        let favorites = self.list_favorites();
        let ghost views = record_views(records@);
        let mut details: Vec<FavoriteWithDetails> = Vec::new();
        let mut k: usize = 0;
        while k < favorites.len()
            invariant
                k <= favorites.len(),
                details.len() == k,
                views == record_views(records@),
                forall|m: int|
                    0 <= m < k ==> (#[trigger] details[m])@ == enriched(favorites[m]@, views),
            decreases favorites.len() - k,
        {
            let favorite = &favorites[k];
            let item = match find_latest(records, &favorite.session_id) {
                Some(i) => {
                    proof {
                        let chosen = choose|j: int| is_latest(views, favorite.session_id@, j);
                        lemma_latest_is_unique(
                            views,
                            views.len() as int,
                            favorite.session_id@,
                            i as int,
                            chosen,
                        );
                        assert(views[i as int] == records[i as int]@);
                    }
                    FavoriteWithDetails::new(
                        favorite.session_id.clone(),
                        favorite.favorited_at,
                        records[i].display.clone(),
                        records[i].project.clone(),
                        records[i].timestamp,
                    )
                },
                None => {
                    proof {
                        assert forall|j: int| !is_latest(views, favorite.session_id@, j) by {
                            if 0 <= j < views.len() {
                                assert(views[j] == records[j]@);
                            }
                        }
                    }
                    FavoriteWithDetails::new(
                        favorite.session_id.clone(),
                        favorite.favorited_at,
                        String::from_str("(session not found in history)"),
                        String::new(),
                        favorite.favorited_at,
                    )
                },
            };
            details.push(item);
            k += 1;
        }
        proof {
            assert forall|m: int| 0 <= m < details.len() implies (#[trigger] details[m]).session_id@
                == favorites[m].session_id@ && details[m].favorited_at
                == favorites[m].favorited_at by {
                assert(details[m]@ == enriched(favorites[m]@, views));
            }
            assert forall|id: Seq<char>| #[trigger] self@.contains_key(id) implies exists|i: int|
                0 <= i < details.len() && (#[trigger] details[i]).session_id@ == id by {
                let i = choose|i: int|
                    0 <= i < favorites.len() && (#[trigger] favorites[i]).session_id@ == id;
                assert(details[i].session_id@ == id);
            }
            assert forall|i: int| 0 <= i < details.len() implies self@.contains_key(
                (#[trigger] details[i]).session_id@,
            ) && details[i]@ == enriched(
                FavoriteView {
                    session_id: details[i].session_id@,
                    favorited_at: self@[details[i].session_id@],
                },
                views,
            ) by {
                assert(self@.contains_key(favorites[i].session_id@));
            }
        }
        details
    }

    /// Marks the session as favorited at the instant `now`. A session that
    /// is a favorite already stays one and gets the new instant. An empty
    /// identifier is refused and changes nothing.
    pub fn add_favorite_at(&mut self, session_id: &str, now: i64) -> (r: Result<(), Error>)
        ensures
            final(self).directory() == old(self).directory(),
            final(self).file() == old(self).file(),
            session_id@.len() == 0 ==> (r matches Err(Error::InvalidSessionId(detail)) && detail@
                == "session_id cannot be empty"@) && final(self)@ == old(self)@,
            session_id@.len() > 0 ==> r is Ok && final(self)@ == old(self)@.insert(
                session_id@,
                now,
            ),
    {
        if session_id.is_empty() {
            return Err(Error::InvalidSessionId(String::from_str("session_id cannot be empty")));
        }
        proof {
            use_type_invariant(&*self);
        }
        let ghost before = self.favorites@;
        let entry = FavoriteSession::new(String::from_str(session_id), now);
        let found = self.position(session_id);
        let mut entries = self.take_entries();
        match found {
            Some(i) => {
                entries.set(i, entry);
            },
            None => {
                entries.push(entry);
            },
        }
        proof {
            match found {
                Some(i) => lemma_entry_replaced(before, i as int, entry),
                None => lemma_entry_added(before, entry),
            }
        }
        self.favorites = entries;
        Ok(())
    }

    /// Marks the session as favorited now, by the system clock. A session
    /// that is a favorite already stays one and gets the new instant. An
    /// empty identifier is refused and changes nothing.
    pub fn add_favorite(&mut self, session_id: &str) -> (r: Result<(), Error>)
        ensures
            final(self).directory() == old(self).directory(),
            final(self).file() == old(self).file(),
            session_id@.len() == 0 ==> (r matches Err(Error::InvalidSessionId(detail)) && detail@
                == "session_id cannot be empty"@) && final(self)@ == old(self)@,
            session_id@.len() > 0 ==> r is Ok && exists|now: i64|
                final(self)@ == old(self)@.insert(session_id@, now),
    {
        if session_id.is_empty() {
            return Err(Error::InvalidSessionId(String::from_str("session_id cannot be empty")));
        }
        let now = now_millis();
        self.add_favorite_at(session_id, now)
    }

    /// Takes the session out of the favorites. A session that is no
    /// favorite is reported and nothing changes.
    pub fn remove_favorite(&mut self, session_id: &str) -> (r: Result<(), Error>)
        ensures
            final(self).directory() == old(self).directory(),
            final(self).file() == old(self).file(),
            old(self)@.contains_key(session_id@) ==> r is Ok && final(self)@ == old(self)@.remove(
                session_id@,
            ),
            !old(self)@.contains_key(session_id@) ==> (r matches Err(Error::SessionNotFound(id))
                && id@ == session_id@) && final(self)@ == old(self)@,
    {
        proof {
            use_type_invariant(&*self);
        }
        let ghost before = self.favorites@;
        match self.position(session_id) {
            Some(i) => {
                let mut entries = self.take_entries();
                entries.remove(i);
                proof {
                    lemma_entry_removed(before, i as int);
                }
                self.favorites = entries;
                Ok(())
            },
            None => Err(Error::SessionNotFound(String::from_str(session_id))),
        }
    }
}

/// Adding a session that is no favorite and removing it at once leaves the
/// favorites as they were; where there were none, the listing is empty
/// again.
pub proof fn add_then_remove_restores(favorites: Map<Seq<char>, i64>, id: Seq<char>, now: i64)
    requires
        !favorites.contains_key(id),
    ensures
        favorites.insert(id, now).remove(id) == favorites,
        favorites == Map::<Seq<char>, i64>::empty() ==> forall|listing: Seq<FavoriteSession>| #[trigger]
            lists_favorites(listing, favorites.insert(id, now).remove(id)) ==> listing.len() == 0,
{
    assert(favorites.insert(id, now).remove(id) =~= favorites);
    if favorites == Map::<Seq<char>, i64>::empty() {
        assert forall|listing: Seq<FavoriteSession>| #[trigger]
            lists_favorites(listing, favorites) implies listing.len() == 0 by {
            if listing.len() > 0 {
                assert(favorites.contains_key(listing[0].session_id@));
            }
        }
    }
}

/// Adding a session twice is adding it once with the later time: the
/// mapping is the same, and every listing of it holds the session once,
/// with that time.
pub proof fn add_twice_keeps_one_entry(
    favorites: Map<Seq<char>, i64>,
    id: Seq<char>,
    first: i64,
    second: i64,
    listing: Seq<FavoriteSession>,
)
    requires
        lists_favorites(listing, favorites.insert(id, first).insert(id, second)),
    ensures
        favorites.insert(id, first).insert(id, second) == favorites.insert(id, second),
        exists|i: int|
            0 <= i < listing.len() && (#[trigger] listing[i]).session_id@ == id
                && listing[i].favorited_at == second,
        forall|i: int, j: int|
            0 <= i < listing.len() && 0 <= j < listing.len() && (#[trigger] listing[i]).session_id@
                == id && (#[trigger] listing[j]).session_id@ == id ==> i == j,
{
    let twice = favorites.insert(id, first).insert(id, second);
    assert(twice =~= favorites.insert(id, second));
    assert(twice.contains_key(id));
    let i = choose|i: int| 0 <= i < listing.len() && (#[trigger] listing[i]).session_id@ == id;
    assert(twice[listing[i].session_id@] == listing[i].favorited_at);
    assert forall|a: int, b: int|
        0 <= a < listing.len() && 0 <= b < listing.len() && (#[trigger] listing[a]).session_id@
            == id && (#[trigger] listing[b]).session_id@ == id implies a == b by {
        if a < b {
            assert(listing[a].session_id@ != listing[b].session_id@);
        } else if b < a {
            assert(listing[b].session_id@ != listing[a].session_id@);
        }
    }
}

/// The newest record of a session is one of its records, and none of its
/// records has a greater timestamp; there is one as soon as the log holds
/// a record of the session, and none otherwise.
pub proof fn latest_record_is_newest(records: Seq<SessionRecordView>, id: Seq<char>)
    ensures
        match latest_record(records, id) {
            Some(record) => record.session_id == id && records.contains(record) && forall|j: int|
                0 <= j < records.len() && (#[trigger] records[j]).session_id == id
                    ==> records[j].timestamp <= record.timestamp,
            None => forall|j: int|
                0 <= j < records.len() ==> (#[trigger] records[j]).session_id != id,
        },
{
    if exists|j: int| 0 <= j < records.len() && (#[trigger] records[j]).session_id == id {
        lemma_latest_exists(records, records.len() as int, id);
        let found = choose|i: int| is_latest_within(records, records.len() as int, id, i);
        assert(is_latest(records, id, found));
        let i = choose|i: int| is_latest(records, id, i);
        assert(records[i] == latest_record(records, id).unwrap());
    } else {
        assert forall|i: int| !is_latest(records, id, i) by {
            if 0 <= i < records.len() && records[i].session_id == id {
                assert(false);
            }
        }
    }
}

/// A favorite whose session the log does not hold is shown with the
/// placeholder text, no project and the time it was favorited; one whose
/// session the log holds is shown with the newest record of the session.
pub proof fn enriched_follows_the_log(favorite: FavoriteView, records: Seq<SessionRecordView>)
    ensures
        (forall|j: int|
            0 <= j < records.len() ==> (#[trigger] records[j]).session_id != favorite.session_id)
            ==> enriched(favorite, records).display == missing_session_text() && enriched(
            favorite,
            records,
        ).project.len() == 0 && enriched(favorite, records).session_timestamp
            == favorite.favorited_at,
        forall|j: int|
            0 <= j < records.len() && (#[trigger] records[j]).session_id == favorite.session_id
                ==> records[j].timestamp <= enriched(favorite, records).session_timestamp,
{
    latest_record_is_newest(records, favorite.session_id);
}

} // verus!
