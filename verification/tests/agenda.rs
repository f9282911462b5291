use esgi_bot::agenda::{
    read_entries, render_agenda, render_document, render_field, schedule_order, TimetableEntry,
    AGENDA_COLOUR, AGENDA_FOOTER, AGENDA_TITLE, DISPLAY_OFFSET_MILLIS, UNKNOWN,
};
use esgi_bot::calendar::{CLOCK_PATTERN, DATE_PATTERN};
use esgi_bot::json::{FormatError, Json};
use esgi_bot::message::{Card, Field};

const AT: &str = "2023-10-01T08:00:00+00:00";

fn text(t: &str) -> Json {
    Json::Text(t.to_string())
}

fn object(members: Vec<(&str, Json)>) -> Json {
    Json::Object(members.into_iter().map(|(key, value)| (key.to_string(), value)).collect())
}

fn course(name: &str, start: i64, end: i64) -> Json {
    object(vec![
        ("name", text(name)),
        ("start_date", Json::Number(Some(start))),
        ("end_date", Json::Number(Some(end))),
        ("discipline", object(vec![("teacher", text("Dupont"))])),
        ("rooms", Json::Array(vec![object(vec![("name", text("B12"))])])),
    ])
}

fn entry(name: &str, start: i64) -> TimetableEntry {
    TimetableEntry {
        name: name.to_string(),
        teacher: "T".to_string(),
        room: "R".to_string(),
        start,
        end: start,
    }
}

fn labels(card: &Card) -> Vec<String> {
    card.fields.iter().map(|field| field.label.clone()).collect()
}

#[test]
fn constants_of_the_card() {
    assert_eq!(UNKNOWN, "Inconnu");
    assert_eq!(DATE_PATTERN, "%d %B %Y");
    assert_eq!(CLOCK_PATTERN, "%H:%M");
    assert_eq!(DISPLAY_OFFSET_MILLIS, 2 * 60 * 60 * 1000);
    assert_eq!(AGENDA_TITLE, "📅 Cours pour la semaine");
    assert_eq!(AGENDA_COLOUR, (114 << 16) | (137 << 8) | 218);
    assert_eq!(AGENDA_FOOTER, "Mis à jour le");
}

#[test]
fn renders_one_course_two_hours_ahead_of_utc() {
    let text = r#"{"result":[{"name":"Algo","start_date":1696156800000,"end_date":1696164000000,"discipline":{"teacher":"Dupont"},"rooms":[{"name":"B12"}]}]}"#;
    let card = render_agenda(text, AT).unwrap().unwrap();
    assert_eq!(
        card,
        Card {
            title: "📅 Cours pour la semaine".to_string(),
            description: None,
            fields: vec![Field {
                label: "📅 01 October 2023 - 📚 Algo".to_string(),
                value:
                    "👨‍🏫 Enseignant: **Dupont**\n⏰ Heure: **12:40 - 14:40**\n🚪 Salle: **B12**\n\n"
                        .to_string(),
                inline: false,
            }],
            colour: Some(0x7289DA),
            url: None,
            image: None,
            footer: Some("Mis à jour le".to_string()),
            timestamp: Some(AT.to_string()),
        }
    );
}

#[test]
fn later_course_given_first_is_shown_last() {
    let text = r#"{"result":[{"name":"Late","start_date":1696240800000},{"name":"Early","start_date":1696156800000}]}"#;
    let card = render_agenda(text, AT).unwrap().unwrap();
    assert_eq!(
        labels(&card),
        vec!["📅 01 October 2023 - 📚 Early", "📅 02 October 2023 - 📚 Late"]
    );
}

#[test]
fn the_card_does_not_depend_on_the_order_of_the_document() {
    let a = course("A", 3_000, 4_000);
    let b = course("B", 1_000, 2_000);
    let c = course("C", 2_000, 3_000);
    let make = |items: Vec<&Json>| {
        let list: Vec<Json> = items
            .into_iter()
            .map(|item| match item {
                Json::Object(members) => Json::Object(
                    members
                        .iter()
                        .map(|(key, value)| {
                            let copy = match value {
                                Json::Text(t) => Json::Text(t.clone()),
                                Json::Number(n) => Json::Number(*n),
                                _ => Json::Null,
                            };
                            (key.clone(), copy)
                        })
                        .collect(),
                ),
                _ => Json::Null,
            })
            .collect();
        object(vec![("result", Json::Array(list))])
    };
    let first = render_document(&make(vec![&a, &b, &c]), AT).unwrap().unwrap();
    let orders: Vec<Vec<&Json>> = vec![
        vec![&a, &c, &b],
        vec![&b, &a, &c],
        vec![&b, &c, &a],
        vec![&c, &a, &b],
        vec![&c, &b, &a],
    ];
    for order in orders {
        assert_eq!(render_document(&make(order), AT).unwrap().unwrap(), first);
    }
    assert_eq!(
        labels(&first),
        vec![
            "📅 01 January 1970 - 📚 B",
            "📅 01 January 1970 - 📚 C",
            "📅 01 January 1970 - 📚 A",
        ]
    );
}

#[test]
fn courses_of_equal_start_keep_the_order_of_the_document() {
    let text = r#"{"result":[{"name":"c","start_date":5},{"name":"a","start_date":1},{"name":"d","start_date":5},{"name":"b","start_date":1},{"name":"e","start_date":5},{"name":"z"}]}"#;
    let card = render_agenda(text, AT).unwrap().unwrap();
    let names: Vec<String> =
        labels(&card).iter().map(|label| label.rsplit(' ').next().unwrap().to_string()).collect();
    assert_eq!(names, vec!["z", "a", "b", "c", "d", "e"]);
}

#[test]
fn schedule_order_is_a_stable_sort_of_the_positions() {
    let entries: Vec<TimetableEntry> = [5, 1, 5, -3, 1, 0, i64::MAX, i64::MIN, 5]
        .iter()
        .map(|start| entry("x", *start))
        .collect();
    assert_eq!(schedule_order(&entries), vec![7, 3, 5, 1, 4, 0, 2, 8, 6]);
    assert_eq!(schedule_order(&vec![]), Vec::<usize>::new());
    assert_eq!(schedule_order(&vec![entry("x", 9)]), vec![0]);
    let mut expected: Vec<usize> = (0..entries.len()).collect();
    expected.sort_by_key(|position| entries[*position].start);
    assert_eq!(schedule_order(&entries), expected);
}

#[test]
fn no_result_gives_no_card() {
    assert_eq!(render_agenda("{}", AT), Ok(None));
    assert_eq!(render_agenda(r#"{"results":[]}"#, AT), Ok(None));
    assert_eq!(render_agenda(r#"{"error":"unauthorized"}"#, AT), Ok(None));
}

#[test]
fn a_result_that_is_no_array_gives_no_card() {
    assert_eq!(render_agenda(r#"{"result":null}"#, AT), Ok(None));
    assert_eq!(render_agenda(r#"{"result":{"0":{}}}"#, AT), Ok(None));
    assert_eq!(render_agenda(r#"{"result":"[]"}"#, AT), Ok(None));
    assert_eq!(render_agenda(r#"{"result":3}"#, AT), Ok(None));
    assert_eq!(render_agenda("[]", AT), Ok(None));
    assert_eq!(render_agenda("null", AT), Ok(None));
    assert_eq!(render_agenda("\"result\"", AT), Ok(None));
}

#[test]
fn an_empty_result_gives_a_card_without_fields() {
    let card = render_agenda(r#"{"result":[]}"#, AT).unwrap().unwrap();
    assert_eq!(card.title, "📅 Cours pour la semaine");
    assert_eq!(card.fields, vec![]);
    assert_eq!(card.colour, Some(0x7289DA));
    assert_eq!(card.footer.as_deref(), Some("Mis à jour le"));
    assert_eq!(card.timestamp.as_deref(), Some(AT));
}

#[test]
fn a_missing_teacher_is_shown_as_unknown() {
    let text = r#"{"result":[{"name":"Algo","start_date":1696156800000,"end_date":1696164000000,"discipline":{},"rooms":[{"name":"B12"}]}]}"#;
    let card = render_agenda(text, AT).unwrap().unwrap();
    assert_eq!(
        card.fields[0].value,
        "👨‍🏫 Enseignant: **Inconnu**\n⏰ Heure: **12:40 - 14:40**\n🚪 Salle: **B12**\n\n"
    );
    let text = r#"{"result":[{"name":"Algo","start_date":1696156800000,"end_date":1696164000000,"rooms":[{"name":"B12"}]}]}"#;
    let card = render_agenda(text, AT).unwrap().unwrap();
    assert!(card.fields[0].value.contains("Enseignant: **Inconnu**"));
}

#[test]
fn an_empty_element_is_shown_with_every_default() {
    let card = render_agenda(r#"{"result":[{}]}"#, AT).unwrap().unwrap();
    assert_eq!(
        card.fields,
        vec![Field {
            label: "📅 01 January 1970 - 📚 Inconnu".to_string(),
            value:
                "👨‍🏫 Enseignant: **Inconnu**\n⏰ Heure: **02:00 - 02:00**\n🚪 Salle: **Inconnu**\n\n"
                    .to_string(),
            inline: false,
        }]
    );
    let other = render_agenda(r#"{"result":[null, 3, "x", []]}"#, AT).unwrap().unwrap();
    assert_eq!(other.fields.len(), 4);
    assert!(other.fields.iter().all(|field| *field == card.fields[0]));
}

#[test]
fn a_value_of_another_type_is_shown_as_its_default() {
    let text = r#"{"result":[{"name":7,"start_date":"1696156800000","end_date":1.5,"discipline":{"teacher":["Dupont"]},"rooms":{"name":"B12"}}]}"#;
    let entries = read_entries(&Json::parse(text).unwrap()).unwrap();
    assert_eq!(
        entries,
        vec![TimetableEntry {
            name: "Inconnu".to_string(),
            teacher: "Inconnu".to_string(),
            room: "Inconnu".to_string(),
            start: 0,
            end: 0,
        }]
    );
}

#[test]
fn the_room_is_the_name_of_the_first_room() {
    let read = |rooms: &str| {
        let text = format!(r#"{{"rooms":{}}}"#, rooms);
        TimetableEntry::from_json(&Json::parse(&text).unwrap()).room
    };
    assert_eq!(read(r#"[{"name":"B12"},{"name":"C3"}]"#), "B12");
    assert_eq!(read("[]"), "Inconnu");
    assert_eq!(read(r#"[{"nom":"B12"}]"#), "Inconnu");
    assert_eq!(read(r#"[{"name":12}]"#), "Inconnu");
    assert_eq!(read(r#"["B12"]"#), "Inconnu");
    assert_eq!(read(r#"[null,{"name":"C3"}]"#), "Inconnu");
    assert_eq!(read(r#"{"0":{"name":"B12"}}"#), "Inconnu");
}

#[test]
fn from_json_reads_the_five_values() {
    assert_eq!(
        TimetableEntry::from_json(&course("Algo", 1696156800000, 1696164000000)),
        TimetableEntry {
            name: "Algo".to_string(),
            teacher: "Dupont".to_string(),
            room: "B12".to_string(),
            start: 1696156800000,
            end: 1696164000000,
        }
    );
    assert_eq!(
        TimetableEntry::from_json(&object(vec![("start_date", Json::Number(None))])).start,
        0
    );
}

#[test]
fn read_entries_follows_the_document() {
    let document = object(vec![(
        "result",
        Json::Array(vec![course("B", 2, 3), course("A", 1, 2)]),
    )]);
    let names: Vec<String> =
        read_entries(&document).unwrap().into_iter().map(|entry| entry.name).collect();
    assert_eq!(names, vec!["B", "A"]);
    assert_eq!(read_entries(&object(vec![])), None);
    assert_eq!(read_entries(&Json::Array(vec![])), None);
}

#[test]
fn render_field_shows_date_times_and_names() {
    let shown = render_field(&TimetableEntry {
        name: "Réseaux".to_string(),
        teacher: "Mme Martin".to_string(),
        room: "A-101".to_string(),
        start: 1698793200000,
        end: 1698796800000,
    });
    assert_eq!(
        shown,
        Ok(Field {
            label: "📅 31 October 2023 - 📚 Réseaux".to_string(),
            value:
                "👨‍🏫 Enseignant: **Mme Martin**\n⏰ Heure: **01:00 - 02:00**\n🚪 Salle: **A-101**\n\n"
                    .to_string(),
            inline: false,
        })
    );
}

#[test]
fn the_date_is_that_of_utc_and_the_times_wrap_at_midnight() {
    let shown = render_field(&entry("x", 1696197540000)).unwrap();
    assert_eq!(shown.label, "📅 01 October 2023 - 📚 x");
    assert!(shown.value.contains("**23:59 - 23:59**"));
    let before_epoch = render_field(&entry("x", -1)).unwrap();
    assert_eq!(before_epoch.label, "📅 31 December 1969 - 📚 x");
    assert!(before_epoch.value.contains("**01:59 - 01:59**"));
}

#[test]
fn an_instant_outside_the_calendar_fails_the_rendering() {
    assert_eq!(render_field(&entry("x", i64::MAX)), Err(FormatError::InstantOutOfRange));
    assert_eq!(render_field(&entry("x", i64::MIN)), Err(FormatError::InstantOutOfRange));
    assert_eq!(
        render_field(&TimetableEntry { end: i64::MAX - 1, ..entry("x", 0) }),
        Err(FormatError::InstantOutOfRange)
    );
    let text = r#"{"result":[{"name":"ok","start_date":1},{"name":"far","start_date":9223372036854775807}]}"#;
    assert_eq!(render_agenda(text, AT), Err(FormatError::InstantOutOfRange));
    let text = r#"{"result":[{"name":"far","end_date":-9223372036854775808},{"name":"ok"}]}"#;
    assert_eq!(render_agenda(text, AT), Err(FormatError::InstantOutOfRange));
}

#[test]
fn the_ends_of_the_calendar() {
    let first = chrono::DateTime::<chrono::Utc>::MIN_UTC.timestamp_millis();
    let last = chrono::DateTime::<chrono::Utc>::MAX_UTC.timestamp_millis();
    assert!(render_field(&entry("x", first)).is_ok());
    assert_eq!(render_field(&entry("x", first - 1)), Err(FormatError::InstantOutOfRange));
    assert!(render_field(&entry("x", last - DISPLAY_OFFSET_MILLIS)).is_ok());
    assert_eq!(
        render_field(&entry("x", last - DISPLAY_OFFSET_MILLIS + 1)),
        Err(FormatError::InstantOutOfRange)
    );
    assert_eq!(render_field(&entry("x", last)), Err(FormatError::InstantOutOfRange));
    assert_eq!(
        render_field(&TimetableEntry { end: first - DISPLAY_OFFSET_MILLIS, ..entry("x", 0) })
            .map(|field| field.value.contains("**02:00 - 00:00**")),
        Ok(true)
    );
    assert_eq!(
        render_field(&TimetableEntry { end: first - DISPLAY_OFFSET_MILLIS - 1, ..entry("x", 0) }),
        Err(FormatError::InstantOutOfRange)
    );
}

#[test]
fn times_are_those_of_utc_two_hours_on() {
    let minute = 60_000;
    for (start, shown) in [
        (0, "02:00"),
        (59_999, "02:00"),
        (minute, "02:01"),
        (21 * 60 * minute + 59 * minute, "23:59"),
        (22 * 60 * minute, "00:00"),
        (23 * 60 * minute + 30 * minute, "01:30"),
        (-minute, "01:59"),
        (-2 * 60 * minute, "00:00"),
        (-2 * 60 * minute - 1, "23:59"),
        (1696156800000, "12:40"),
        (1696164000000, "14:40"),
    ] {
        let field = render_field(&entry("x", start)).unwrap();
        assert!(
            field.value.contains(&format!("**{} - {}**", shown, shown)),
            "{}: {:?}",
            start,
            field.value
        );
    }
}

#[test]
fn schedule_order_agrees_with_a_stable_sort() {
    let mut seed: u64 = 0x2545F4914F6CDD1D;
    for length in 0..40usize {
        let entries: Vec<TimetableEntry> = (0..length)
            .map(|_| {
                seed ^= seed << 13;
                seed ^= seed >> 7;
                seed ^= seed << 17;
                entry("x", (seed % 7) as i64 - 3)
            })
            .collect();
        let mut expected: Vec<usize> = (0..length).collect();
        expected.sort_by_key(|position| entries[*position].start);
        assert_eq!(schedule_order(&entries), expected);
    }
}

#[test]
fn malformed_text_is_an_error() {
    assert_eq!(render_agenda("{", AT), Err(FormatError::Malformed));
    assert_eq!(render_agenda("", AT), Err(FormatError::Malformed));
    assert_eq!(render_agenda("<html>", AT), Err(FormatError::Malformed));
}

#[test]
fn the_timestamp_is_the_one_given() {
    let card = render_agenda(r#"{"result":[]}"#, "").unwrap().unwrap();
    assert_eq!(card.timestamp.as_deref(), Some(""));
    let card = render_document(
        &object(vec![("result", Json::Array(vec![]))]),
        "2024-02-29T23:59:59.123456789+00:00",
    )
    .unwrap()
    .unwrap();
    assert_eq!(card.timestamp.as_deref(), Some("2024-02-29T23:59:59.123456789+00:00"));
}
