//! The timetable: entries read from a JSON document, put in order of their
//! start and rendered as one card.

use crate::calendar::{
    format_utc, lemma_two_hours_later, minute_of_day, utc_clock, utc_formatted, CLOCK_PATTERN,
    DATE_PATTERN,
};
use crate::json::{json_document, FormatError, Json};
use crate::message::{field_views, Card, CardView, Field, FieldView};
use vstd::prelude::*;

verus! {

/// What stands in for a name, a teacher or a room that the document does not
/// give as a string.
pub const UNKNOWN: &'static str = "Inconnu";

/// By how much the displayed times run ahead of UTC: two hours.
pub const DISPLAY_OFFSET_MILLIS: i64 = 7_200_000;

/// The title of the timetable card.
pub const AGENDA_TITLE: &'static str = "📅 Cours pour la semaine";

/// The accent colour of the timetable card.
pub const AGENDA_COLOUR: u32 = 0x7289DA;

/// The footer of the timetable card.
pub const AGENDA_FOOTER: &'static str = "Mis à jour le";

/// One course of the timetable. `start` and `end` are instants in
/// milliseconds since the Unix epoch.
#[derive(Clone, Debug, PartialEq, Eq)]
pub struct TimetableEntry {
    pub name: String,
    pub teacher: String,
    pub room: String,
    pub start: i64,
    pub end: i64,
}

/// The model of a [`TimetableEntry`].
pub struct EntryView {
    pub name: Seq<char>,
    pub teacher: Seq<char>,
    pub room: Seq<char>,
    pub start: i64,
    pub end: i64,
}

impl View for TimetableEntry {
    type V = EntryView;

    open spec fn view(&self) -> EntryView {
        EntryView {
            name: self.name@,
            teacher: self.teacher@,
            room: self.room@,
            start: self.start,
            end: self.end,
        }
    }
}

/// The models of a sequence of entries, in order.
pub open spec fn entry_views(entries: Seq<TimetableEntry>) -> Seq<EntryView> {
    Seq::new(entries.len(), |i: int| entries[i]@)
}

/// A text of the document, or `UNKNOWN` where the document has none.
pub open spec fn text_or_unknown(text: Option<Seq<char>>) -> Seq<char> {
    match text {
        Some(t) => t,
        None => UNKNOWN@,
    }
}

/// An instant of the document, or the epoch where the document has none.
pub open spec fn instant_or_epoch(instant: Option<i64>) -> i64 {
    match instant {
        Some(at) => at,
        None => 0,
    }
}

/// The entry that one element of the `result` array stands for: `name`, the
/// `teacher` of `discipline`, the `name` of the first of `rooms`,
/// `start_date` and `end_date`, each with its default where the element does
/// not hold it in the expected type.
pub open spec fn entry_of(json: Json) -> EntryView {
    EntryView {
        name: text_or_unknown(json.member("name"@).text()),
        teacher: text_or_unknown(json.member("discipline"@).member("teacher"@).text()),
        room: text_or_unknown(json.member("rooms"@).element(0).member("name"@).text()),
        start: instant_or_epoch(json.member("start_date"@).integer()),
        end: instant_or_epoch(json.member("end_date"@).integer()),
    }
}

/// The entries of a document: those of the array under `result`, in the
/// order of the document; `None` where `result` is no array.
pub open spec fn entries_of(document: Json) -> Option<Seq<EntryView>> {
    match document.member("result"@).items() {
        Some(items) => Some(Seq::new(items.len(), |i: int| entry_of(items[i]))),
        None => None,
    }
}

/// Whether the entry at position `a` is shown before the one at position
/// `b`: it starts earlier, or at the same instant and stands earlier in the
/// document.
pub open spec fn comes_before(entries: Seq<EntryView>, a: int, b: int) -> bool {
    entries[a].start < entries[b].start || (entries[a].start == entries[b].start && a < b)
}

/// Whether `order` lists positions of `entries`, as many as there are
/// entries, each shown before all that follow it.
pub open spec fn is_schedule(entries: Seq<EntryView>, order: Seq<int>) -> bool {
    &&& order.len() == entries.len()
    &&& forall|i: int| 0 <= i < order.len() ==> 0 <= #[trigger] order[i] < entries.len()
    &&& forall|i: int, j: int|
        0 <= i < j < order.len() ==> comes_before(entries, #[trigger] order[i], #[trigger] order[j])
}

/// The positions of `entries` in the order in which they are shown:
/// ascending by start, entries of equal start in the order of the document.
pub open spec fn schedule(entries: Seq<EntryView>) -> Seq<int> {
    choose|order: Seq<int>| is_schedule(entries, order)
}

/// The positions that a vector of indices holds.
pub open spec fn positions(order: Seq<usize>) -> Seq<int> {
    Seq::new(order.len(), |i: int| order[i] as int)
}

/// The time of day shown for an instant: that of UTC two hours later, as
/// `HH:MM`. `None` where the later instant lies outside the calendar.
pub open spec fn display_time(millis: i64) -> Option<Seq<char>> {
    if millis + DISPLAY_OFFSET_MILLIS <= i64::MAX && utc_formatted(
        (millis + DISPLAY_OFFSET_MILLIS) as i64,
        CLOCK_PATTERN@,
    ) is Some {
        Some(utc_clock(millis + DISPLAY_OFFSET_MILLIS))
    } else {
        None
    }
}

/// The label of a field: the date and the name of the course.
pub open spec fn field_label(date: Seq<char>, name: Seq<char>) -> Seq<char> {
    "📅 "@ + date + " - 📚 "@ + name
}

/// The value of a field: the teacher, the time range and the room.
pub open spec fn field_value(
    teacher: Seq<char>,
    from: Seq<char>,
    to: Seq<char>,
    room: Seq<char>,
) -> Seq<char> {
    "👨‍🏫 Enseignant: **"@ + teacher + "**\n⏰ Heure: **"@ + from + " - "@ + to
        + "**\n🚪 Salle: **"@ + room + "**\n\n"@
}

/// The field that shows an entry: the UTC date of its start, and its start
/// and end as displayed times. `None` where the calendar cannot hold one of
/// the three instants.
pub open spec fn field_of(entry: EntryView) -> Option<FieldView> {
    match (
        utc_formatted(entry.start, DATE_PATTERN@),
        display_time(entry.start),
        display_time(entry.end),
    ) {
        (Some(date), Some(from), Some(to)) => Some(
            FieldView {
                label: field_label(date, entry.name),
                value: field_value(entry.teacher, from, to, entry.room),
                inline: false,
            },
        ),
        _ => None,
    }
}

/// Whether every entry can be shown.
pub open spec fn all_render(entries: Seq<EntryView>) -> bool {
    forall|i: int| 0 <= i < entries.len() ==> field_of(#[trigger] entries[i]) is Some
}

/// The fields of the timetable card: one for each entry, in the order of the
/// schedule.
pub open spec fn agenda_fields(entries: Seq<EntryView>) -> Seq<FieldView> {
    Seq::new(entries.len(), |i: int| field_of(entries[schedule(entries)[i]]).unwrap())
}

/// The timetable card for `entries`, rendered at `rendered_at`.
pub open spec fn agenda_card(entries: Seq<EntryView>, rendered_at: Seq<char>) -> CardView {
    CardView {
        title: AGENDA_TITLE@,
        description: None,
        fields: agenda_fields(entries),
        colour: Some(AGENDA_COLOUR),
        url: None,
        image: None,
        footer: Some(AGENDA_FOOTER@),
        timestamp: Some(rendered_at),
    }
}

/// What rendering a list of entries gives: the card, or an error where an
/// entry cannot be shown.
pub open spec fn rendering_of(entries: Seq<EntryView>, rendered_at: Seq<char>) -> Result<
    CardView,
    FormatError,
> {
    if all_render(entries) {
        Ok(agenda_card(entries, rendered_at))
    } else {
        Err(FormatError::InstantOutOfRange)
    }
}

/// What rendering a document gives: no card where `result` is no array, else
/// the rendering of its entries.
pub open spec fn rendering(document: Json, rendered_at: Seq<char>) -> Result<
    Option<CardView>,
    FormatError,
> {
    match entries_of(document) {
        None => Ok(None),
        Some(entries) => match rendering_of(entries, rendered_at) {
            Ok(card) => Ok(Some(card)),
            Err(error) => Err(error),
        },
    }
}

/// The model of what a rendering function returns.
pub open spec fn rendered_view(rendered: Result<Option<Card>, FormatError>) -> Result<
    Option<CardView>,
    FormatError,
> {
    match rendered {
        Ok(Some(card)) => Ok(Some(card@)),
        Ok(None) => Ok(None),
        Err(error) => Err(error),
    }
}

/// The string under `json`, or `UNKNOWN`.
fn owned_text(json: &Json) -> (text: String)
    ensures
        text@ == text_or_unknown(json.text()),
{
    match json.as_text() {
        Some(t) => t.to_owned(),
        None => UNKNOWN.to_owned(),
    }
}

/// The integer under `json`, or zero.
fn instant(json: &Json) -> (at: i64)
    ensures
        at == instant_or_epoch(json.integer()),
{
    match json.as_integer() {
        Some(at) => at,
        None => 0,
    }
}

impl TimetableEntry {
    /// Reads one element of the `result` array.
    pub fn from_json(json: &Json) -> (entry: TimetableEntry)
        ensures
            entry@ == entry_of(*json),
    {
        TimetableEntry {
            name: owned_text(json.get("name")),
            teacher: owned_text(json.get("discipline").get("teacher")),
            room: owned_text(json.get("rooms").at(0).get("name")),
            start: instant(json.get("start_date")),
            end: instant(json.get("end_date")),
        }
    }
}

/// Reads the entries of a document.
pub fn read_entries(document: &Json) -> (entries: Option<Vec<TimetableEntry>>)
    ensures
        match entries {
            Some(list) => entries_of(*document) == Some(entry_views(list@)),
            None => entries_of(*document) is None,
        },
{
    match document.get("result").as_items() {
        Some(items) => {
            let mut list: Vec<TimetableEntry> = Vec::new();
            let mut i: usize = 0;
            while i < items.len()
                invariant
                    i <= items.len(),
                    list.len() == i,
                    forall|k: int| 0 <= k < i ==> (#[trigger] list@[k])@ == entry_of(items@[k]),
                decreases items.len() - i,
            {
                list.push(TimetableEntry::from_json(&items[i]));
                i = i + 1;
            }
            assert(entry_views(list@) =~= Seq::new(items@.len(), |k: int| entry_of(items@[k])));
            Some(list)
        },
        None => None,
    }
}

/// The positions of `entries` in the order in which they are shown.
pub fn schedule_order(entries: &Vec<TimetableEntry>) -> (order: Vec<usize>)
    ensures
        is_schedule(entry_views(entries@), positions(order@)),
        positions(order@) == schedule(entry_views(entries@)),
{
    let ghost views = entry_views(entries@);
    let mut order: Vec<usize> = Vec::new();
    let mut next: usize = 0;
    while next < entries.len()
        invariant
            next <= entries.len(),
            views == entry_views(entries@),
            is_schedule(views.take(next as int), positions(order@)),
            forall|k: int| 0 <= k < order.len() ==> order@[k] < next,
        decreases entries.len() - next,
    {
        let key: i64 = entries[next].start;
        let mut place: usize = order.len();
        while place > 0 && entries[order[place - 1]].start > key
            invariant
                next < entries.len(),
                views == entry_views(entries@),
                is_schedule(views.take(next as int), positions(order@)),
                key == views[next as int].start,
                place <= order.len(),
                forall|k: int| 0 <= k < order.len() ==> order@[k] < next,
                place == order.len() || views[order@[place as int] as int].start > key,
            decreases place,
        {
            assert(positions(order@)[place - 1] == order@[place - 1]);
            place = place - 1;
        }
        proof {
            let longer = views.take(next + 1);
            assert(longer.drop_last() =~= views.take(next as int));
            if place > 0 {
                assert(positions(order@)[place - 1] == order@[place - 1]);
            }
            if place < order.len() {
                assert(positions(order@)[place as int] == order@[place as int]);
            }
            lemma_schedule_insert(longer, positions(order@), place as int);
            assert(positions(order@.insert(place as int, next)) =~= positions(order@).insert(
                place as int,
                next as int,
            ));
        }
        order.insert(place, next);
        assert forall|k: int| 0 <= k < order.len() implies order@[k] < next + 1 by {
            assert(positions(order@)[k] == order@[k]);
        }
        next = next + 1;
    }
    proof {
        assert(views.take(entries.len() as int) =~= views);
        lemma_schedule_unique(views, positions(order@), schedule(views));
    }
    order
}

/// Renders one entry as a field.
pub fn render_field(entry: &TimetableEntry) -> (field: Result<Field, FormatError>)
    ensures
        match field {
            Ok(shown) => field_of(entry@) == Some(shown@),
            Err(error) => error == FormatError::InstantOutOfRange && field_of(entry@) is None,
        },
{
    let date = match format_utc(entry.start, DATE_PATTERN) {
        Some(text) => text,
        None => { return Err(FormatError::InstantOutOfRange); },
    };
    let from = match clock_text(entry.start) {
        Some(text) => text,
        None => { return Err(FormatError::InstantOutOfRange); },
    };
    let to = match clock_text(entry.end) {
        Some(text) => text,
        None => { return Err(FormatError::InstantOutOfRange); },
    };
    let mut label = "📅 ".to_owned();
    label.append(date.as_str());
    label.append(" - 📚 ");
    label.append(entry.name.as_str());
    let mut value = "👨‍🏫 Enseignant: **".to_owned();
    value.append(entry.teacher.as_str());
    value.append("**\n⏰ Heure: **");
    value.append(from.as_str());
    value.append(" - ");
    value.append(to.as_str());
    value.append("**\n🚪 Salle: **");
    value.append(entry.room.as_str());
    value.append("**\n\n");
    Ok(Field { label, value, inline: false })
}

/// The displayed time of day of an instant.
fn clock_text(millis: i64) -> (text: Option<String>)
    ensures
        match text {
            Some(shown) => display_time(millis) == Some(shown@),
            None => display_time(millis) is None,
        },
{
    match millis.checked_add(DISPLAY_OFFSET_MILLIS) {
        Some(shifted) => format_utc(shifted, CLOCK_PATTERN),
        None => None,
    }
}

/// Renders the timetable of a document as a card that carries `rendered_at`
/// as its timestamp.
///
/// A document without an array under `result` gives no card. An entry that
/// starts or ends outside the calendar fails the whole rendering.
pub fn render_document(document: &Json, rendered_at: &str) -> (rendered: Result<
    Option<Card>,
    FormatError,
>)
    ensures
        rendered_view(rendered) == rendering(*document, rendered_at@),
{
    let entries = match read_entries(document) {
        Some(list) => list,
        None => { return Ok(None); },
    };
    let ghost views = entry_views(entries@);
    let order = schedule_order(&entries);
    let mut fields: Vec<Field> = Vec::new();
    let mut i: usize = 0;
    while i < order.len()
        invariant
            i <= order.len(),
            views == entry_views(entries@),
            entries_of(*document) == Some(views),
            positions(order@) == schedule(views),
            is_schedule(views, schedule(views)),
            fields.len() == i,
            forall|k: int|
                0 <= k < i ==> field_of(views[schedule(views)[k]]) == Some(
                    (#[trigger] fields@[k])@,
                ),
        decreases order.len() - i,
    {
        assert(positions(order@)[i as int] == order@[i as int]);
        match render_field(&entries[order[i]]) {
            Ok(field) => {
                fields.push(field);
            },
            Err(error) => {
                assert(views[order@[i as int] as int] == entries@[order@[i as int] as int]@);
                assert(field_of(views[order@[i as int] as int]) is None);
                return Err(error);
            },
        }
        i = i + 1;
    }
    proof {
        assert(field_views(fields@) =~= agenda_fields(views));
        assert forall|k: int| 0 <= k < views.len() implies field_of(#[trigger] views[k])
            is Some by {
            lemma_schedule_covers(views, schedule(views), k);
            let at = choose|at: int| 0 <= at < views.len() && schedule(views)[at] == k;
            assert(field_of(views[schedule(views)[at]]) == Some(fields@[at]@));
        }
    }
    Ok(
        Some(
            Card {
                title: AGENDA_TITLE.to_owned(),
                description: None,
                fields,
                colour: Some(AGENDA_COLOUR),
                url: None,
                image: None,
                footer: Some(AGENDA_FOOTER.to_owned()),
                timestamp: Some(rendered_at.to_owned()),
            },
        ),
    )
}

/// Reads a timetable from JSON text and renders it as a card that carries
/// `rendered_at` as its timestamp.
pub fn render_agenda(text: &str, rendered_at: &str) -> (rendered: Result<
    Option<Card>,
    FormatError,
>)
    ensures
        rendered_view(rendered) == match json_document(text@) {
            Some(document) => rendering(document, rendered_at@),
            None => Err(FormatError::Malformed),
        },
{
    match Json::parse(text) {
        Ok(document) => render_document(&document, rendered_at),
        Err(error) => Err(error),
    }
}

/// A schedule of all entries but the last becomes a schedule of all of them
/// when the position of the last is put in at `place`: behind an entry that
/// starts no later, before one that starts later.
proof fn lemma_schedule_insert(entries: Seq<EntryView>, before: Seq<int>, place: int)
    requires
        entries.len() > 0,
        is_schedule(entries.drop_last(), before),
        0 <= place <= before.len(),
        place == 0 || entries[before[place - 1]].start <= entries.last().start,
        place == before.len() || entries[before[place]].start > entries.last().start,
    ensures
        is_schedule(entries, before.insert(place, entries.len() - 1)),
{
    let shorter = entries.drop_last();
    let last = entries.len() - 1;
    let after = before.insert(place, last);
    assert forall|i: int| 0 <= i < after.len() implies 0 <= #[trigger] after[i]
        < entries.len() by {
        if i < place {
            assert(after[i] == before[i]);
        } else if i > place {
            assert(after[i] == before[i - 1]);
        }
    }
    assert forall|i: int, j: int| 0 <= i < j < after.len() implies comes_before(
        entries,
        #[trigger] after[i],
        #[trigger] after[j],
    ) by {
        if i < place {
            assert(after[i] == before[i]);
        } else if i > place {
            assert(after[i] == before[i - 1]);
        }
        if j < place {
            assert(after[j] == before[j]);
        } else if j > place {
            assert(after[j] == before[j - 1]);
        }
        if j < place || i > place || (i < place && j > place) {
            assert(comes_before(shorter, after[i], after[j]));
        } else if j == place {
            if i < place - 1 {
                assert(comes_before(shorter, before[i], before[place - 1]));
            }
        } else {
            if j - 1 > place {
                assert(comes_before(shorter, before[place], before[j - 1]));
            }
        }
    }
}

/// Where the position of an entry that starts at `key` goes into `order`:
/// the first place from `from` on whose entry starts later, or the end.
spec fn place_of(entries: Seq<EntryView>, order: Seq<int>, key: i64, from: int) -> int
    decreases order.len() - from,
{
    if from >= order.len() || entries[order[from]].start > key {
        from
    } else {
        place_of(entries, order, key, from + 1)
    }
}

/// The place lies behind an entry that starts no later than `key`, unless it
/// is `from`, and before one that starts later, unless it is the end.
proof fn lemma_place_of(entries: Seq<EntryView>, order: Seq<int>, key: i64, from: int)
    requires
        0 <= from <= order.len(),
    ensures
        from <= place_of(entries, order, key, from) <= order.len(),
        place_of(entries, order, key, from) == from || entries[order[place_of(
            entries,
            order,
            key,
            from,
        ) - 1]].start <= key,
        place_of(entries, order, key, from) == order.len() || entries[order[place_of(
            entries,
            order,
            key,
            from,
        )]].start > key,
    decreases order.len() - from,
{
    if from < order.len() && entries[order[from]].start <= key {
        lemma_place_of(entries, order, key, from + 1);
    }
}

/// Every list of entries has a schedule, and `schedule` is it.
pub proof fn lemma_schedule_exists(entries: Seq<EntryView>)
    ensures
        is_schedule(entries, schedule(entries)),
    decreases entries.len(),
{
    if entries.len() == 0 {
        assert(is_schedule(entries, Seq::<int>::empty()));
    } else {
        let shorter = entries.drop_last();
        let before = schedule(shorter);
        lemma_schedule_exists(shorter);
        let place = place_of(shorter, before, entries.last().start, 0);
        lemma_place_of(shorter, before, entries.last().start, 0);
        lemma_schedule_insert(entries, before, place);
    }
}

/// The entries are shown in ascending order of their start, and entries of
/// equal start in the order of the document.
pub proof fn lemma_schedule_ascending(entries: Seq<EntryView>, i: int, j: int)
    requires
        0 <= i < j < entries.len(),
    ensures
        0 <= schedule(entries)[i] < entries.len(),
        0 <= schedule(entries)[j] < entries.len(),
        entries[schedule(entries)[i]].start <= entries[schedule(entries)[j]].start,
        entries[schedule(entries)[i]].start == entries[schedule(entries)[j]].start ==> schedule(
            entries,
        )[i] < schedule(entries)[j],
{
    lemma_schedule_exists(entries);
    assert(comes_before(entries, schedule(entries)[i], schedule(entries)[j]));
}

/// The card does not depend on the order of the document, where no two
/// entries start at the same instant: entries that are those of `first`,
/// taken from the positions `places`, render as `first` does.
pub proof fn lemma_order_independent(
    first: Seq<EntryView>,
    second: Seq<EntryView>,
    places: Seq<int>,
    rendered_at: Seq<char>,
)
    requires
        second.len() == first.len(),
        places.len() == first.len(),
        forall|i: int|
            0 <= i < second.len() ==> 0 <= #[trigger] places[i] < first.len() && second[i]
                == first[places[i]],
        forall|i: int, j: int|
            0 <= i < j < second.len() ==> (#[trigger] second[i]).start != (
            #[trigger] second[j]).start,
    ensures
        rendering_of(first, rendered_at) == rendering_of(second, rendered_at),
{
    lemma_schedule_exists(first);
    lemma_schedule_exists(second);
    let shown = schedule(second);
    let moved = Seq::new(first.len(), |i: int| places[shown[i]]);
    assert forall|i: int, j: int| 0 <= i < j < moved.len() implies comes_before(
        first,
        #[trigger] moved[i],
        #[trigger] moved[j],
    ) by {
        assert(comes_before(second, shown[i], shown[j]));
        if shown[i] < shown[j] {
            assert(second[shown[i]].start != second[shown[j]].start);
        } else {
            assert(second[shown[j]].start != second[shown[i]].start);
        }
        assert(second[shown[i]] == first[places[shown[i]]]);
        assert(second[shown[j]] == first[places[shown[j]]]);
    }
    assert(is_schedule(first, moved));
    lemma_schedule_unique(first, moved, schedule(first));
    assert(agenda_fields(first) =~= agenda_fields(second)) by {
        assert forall|i: int| 0 <= i < first.len() implies agenda_fields(first)[i]
            == agenda_fields(second)[i] by {
            assert(moved[i] == places[shown[i]]);
            assert(second[shown[i]] == first[places[shown[i]]]);
        }
    }
    if all_render(first) {
        assert forall|i: int| 0 <= i < second.len() implies field_of(#[trigger] second[i])
            is Some by {
            assert(second[i] == first[places[i]]);
        }
    }
    if all_render(second) {
        assert forall|k: int| 0 <= k < first.len() implies field_of(#[trigger] first[k])
            is Some by {
            lemma_schedule_covers(first, moved, k);
            let at = choose|at: int| 0 <= at < first.len() && moved[at] == k;
            assert(second[shown[at]] == first[places[shown[at]]]);
        }
    }
}

/// The time shown for an instant is the time of day of UTC moved on by two
/// hours: the same minute of the hour, two hours later on the clock.
pub proof fn lemma_display_time_ahead(millis: i64)
    ensures
        display_time(millis) matches Some(shown) ==> shown == utc_clock(millis + 7_200_000),
        minute_of_day(millis + 7_200_000) % 60 == minute_of_day(millis as int) % 60,
        minute_of_day(millis + 7_200_000) / 60 == (minute_of_day(millis as int) / 60 + 2) % 24,
{
    lemma_two_hours_later(millis as int);
}

/// A document without an array under `result` gives no card and no error.
pub proof fn lemma_no_result_no_card(document: Json, rendered_at: Seq<char>)
    requires
        document.member("result"@).items() is None,
    ensures
        rendering(document, rendered_at) == Ok::<Option<CardView>, FormatError>(None),
{
}

/// An element without a string under `teacher` in `discipline` is shown with
/// `UNKNOWN` in the teacher's place.
pub proof fn lemma_missing_teacher_unknown(json: Json)
    requires
        json.member("discipline"@).member("teacher"@).text() is None,
    ensures
        entry_of(json).teacher == UNKNOWN@,
        field_of(entry_of(json)) matches Some(field) ==> exists|from: Seq<char>, to: Seq<char>|
            field.value == #[trigger] field_value(UNKNOWN@, from, to, entry_of(json).room),
{
    let entry = entry_of(json);
    if field_of(entry) is Some {
        let from = display_time(entry.start).unwrap();
        let to = display_time(entry.end).unwrap();
        assert(field_of(entry).unwrap().value == field_value(UNKNOWN@, from, to, entry.room));
    }
}

/// No position stands twice in a schedule.
pub proof fn lemma_schedule_distinct(entries: Seq<EntryView>, order: Seq<int>)
    requires
        is_schedule(entries, order),
    ensures
        order.no_duplicates(),
{
    assert forall|i: int, j: int| 0 <= i < order.len() && 0 <= j < order.len() && i != j implies order[i]
        != order[j] by {
        if i < j {
            assert(comes_before(entries, order[i], order[j]));
        } else {
            assert(comes_before(entries, order[j], order[i]));
        }
    }
}

/// Every entry has its place in a schedule.
pub proof fn lemma_schedule_covers(entries: Seq<EntryView>, order: Seq<int>, position: int)
    requires
        is_schedule(entries, order),
        0 <= position < entries.len(),
    ensures
        exists|at: int| 0 <= at < entries.len() && order[at] == position,
{
    let all = vstd::set_lib::set_int_range(0, entries.len() as int);
    lemma_schedule_distinct(entries, order);
    order.unique_seq_to_set();
    vstd::set_lib::lemma_int_range(0, entries.len() as int);
    assert(order.to_set().subset_of(all)) by {
        assert forall|p: int| order.to_set().contains(p) implies all.contains(p) by {
            let at = choose|at: int| 0 <= at < order.len() && order[at] == p;
            assert(0 <= order[at] < entries.len());
        }
    }
    vstd::set_lib::lemma_len_subset(order.to_set(), all);
    vstd::set_lib::lemma_subset_equality(order.to_set(), all);
    assert(all.contains(position));
    assert(order.to_set().contains(position));
}

/// Two schedules of the same entries agree on their first `upto` places.
proof fn lemma_schedules_agree(entries: Seq<EntryView>, a: Seq<int>, b: Seq<int>, upto: int)
    requires
        is_schedule(entries, a),
        is_schedule(entries, b),
        0 <= upto <= entries.len(),
    ensures
        forall|k: int| 0 <= k < upto ==> a[k] == b[k],
    decreases upto,
{
    if upto > 0 {
        lemma_schedules_agree(entries, a, b, upto - 1);
        let i = upto - 1;
        let x = a[i];
        lemma_schedule_covers(entries, b, x);
        let j = choose|j: int| 0 <= j < entries.len() && b[j] == x;
        if j < i {
            assert(a[j] == b[j]);
            assert(comes_before(entries, a[j], a[i]));
        } else if j > i {
            let y = b[i];
            assert(comes_before(entries, b[i], b[j]));
            lemma_schedule_covers(entries, a, y);
            let k = choose|k: int| 0 <= k < entries.len() && a[k] == y;
            if k < i {
                assert(a[k] == b[k]);
                assert(comes_before(entries, b[k], b[i]));
            } else if k > i {
                assert(comes_before(entries, a[i], a[k]));
            }
        }
    }
}

/// The entries have one schedule only.
pub proof fn lemma_schedule_unique(entries: Seq<EntryView>, a: Seq<int>, b: Seq<int>)
    requires
        is_schedule(entries, a),
        is_schedule(entries, b),
    ensures
        a == b,
{
    lemma_schedules_agree(entries, a, b, entries.len() as int);
}

} // verus!
