use esgi_bot::json::FormatError;
use esgi_bot::message::OutgoingMessage;
use esgi_bot::planning::{
    agenda_card, agenda_request, agenda_window, extract_token, login_request, planning_message,
    AgendaAnswer, AuthSession, Credentials, LoginAnswer, Request, TimetableError, AGENDA_URL_END,
    AGENDA_URL_START, AUTHORIZE_URL, TOKEN_END, TOKEN_MARKER,
};

const AT: &str = "2023-10-01T08:00:00+00:00";

fn answered(location: &str) -> LoginAnswer {
    LoginAnswer::Answered { location: Some(location.to_string()) }
}

#[test]
fn addresses_of_the_api() {
    assert_eq!(
        AUTHORIZE_URL,
        "https://authentication.kordis.fr/oauth/authorize?response_type=token&client_id=skolae-app"
    );
    assert_eq!(
        format!("{}1{}2", AGENDA_URL_START, AGENDA_URL_END),
        "https://api.kordis.fr/me/agenda?start=1&end=2"
    );
    assert_eq!(TOKEN_MARKER, "access_token=");
    assert_eq!(TOKEN_END, '&');
}

#[test]
fn login_carries_the_credentials_in_base64() {
    let credentials =
        Credentials { username: "user".to_string(), password: "pass".to_string() };
    assert_eq!(
        login_request(&credentials),
        Ok(Request {
            url: AUTHORIZE_URL.to_string(),
            authorization: "Basic dXNlcjpwYXNz".to_string(),
        })
    );
}

#[test]
fn login_pads_the_encoding() {
    let request = |username: &str, password: &str| {
        login_request(&Credentials {
            username: username.to_string(),
            password: password.to_string(),
        })
        .unwrap()
        .authorization
    };
    assert_eq!(request("", ""), "Basic Og==");
    assert_eq!(request("a", ""), "Basic YTo=");
    assert_eq!(request("a", "b"), "Basic YTpi");
    assert_eq!(request("Aladdin", "open sesame"), "Basic QWxhZGRpbjpvcGVuIHNlc2FtZQ==");
    assert_eq!(request("é", "ç:~"), "Basic w6k6w6c6fg==");
}

#[test]
fn token_is_what_follows_the_marker_up_to_the_ampersand() {
    assert_eq!(
        extract_token("https://app.example/callback?access_token=XYZ123&state=abc"),
        Ok("XYZ123".to_string())
    );
    assert_eq!(
        extract_token("skolae-app://callback#access_token=abc.def-ghi_jkl&token_type=Bearer&expires_in=3600"),
        Ok("abc.def-ghi_jkl".to_string())
    );
}

#[test]
fn token_runs_to_the_end_where_no_ampersand_follows() {
    assert_eq!(extract_token("x#access_token=XYZ123"), Ok("XYZ123".to_string()));
    assert_eq!(extract_token("access_token=é📅"), Ok("é📅".to_string()));
    assert_eq!(extract_token("a&b&access_token=T"), Ok("T".to_string()));
}

#[test]
fn token_may_be_empty() {
    assert_eq!(extract_token("x?access_token=&state=abc"), Ok(String::new()));
    assert_eq!(extract_token("x?access_token="), Ok(String::new()));
}

#[test]
fn token_is_taken_after_the_first_marker() {
    assert_eq!(
        extract_token("x?access_token=one&access_token=two&y"),
        Ok("one".to_string())
    );
    assert_eq!(
        extract_token("x?access_token=oneaccess_token=two&y"),
        Ok("oneaccess_token=two".to_string())
    );
}

#[test]
fn no_marker_is_an_authentication_error() {
    for location in [
        "",
        "https://app.example/callback?state=abc",
        "https://app.example/callback?error=access_denied",
        "access_token",
        "access_token :",
        "ACCESS_TOKEN=XYZ",
        "access-token=XYZ",
        "access_toke=n=XYZ",
    ] {
        assert_eq!(extract_token(location), Err(TimetableError::Auth), "{:?}", location);
    }
}

#[test]
fn agenda_request_carries_the_token_and_the_range() {
    assert_eq!(
        agenda_request(
            &answered("https://app.example/callback?access_token=XYZ123&state=abc"),
            1696118400000,
            1698796800000
        ),
        Ok(Request {
            url: "https://api.kordis.fr/me/agenda?start=1696118400000&end=1698796800000"
                .to_string(),
            authorization: "Bearer XYZ123".to_string(),
        })
    );
    assert_eq!(
        agenda_request(&answered("access_token="), -5, 0),
        Ok(Request {
            url: "https://api.kordis.fr/me/agenda?start=-5&end=0".to_string(),
            authorization: "Bearer ".to_string(),
        })
    );
    assert_eq!(
        agenda_request(&answered("access_token=t"), i64::MIN, i64::MAX).unwrap().url,
        "https://api.kordis.fr/me/agenda?start=-9223372036854775808&end=9223372036854775807"
    );
}

#[test]
fn a_session_authorizes_the_agenda_request() {
    let session = AuthSession { token: "abc.def".to_string() };
    assert_eq!(
        session.agenda_request(10, 20),
        Request {
            url: "https://api.kordis.fr/me/agenda?start=10&end=20".to_string(),
            authorization: "Bearer abc.def".to_string(),
        }
    );
    assert_eq!(
        Ok(session.agenda_request(10, 20)),
        agenda_request(&answered("x#access_token=abc.def&y"), 10, 20)
    );
}

#[test]
fn a_failed_login_gives_no_request() {
    assert_eq!(
        agenda_request(&LoginAnswer::Unreachable, 1, 2),
        Err(TimetableError::Connection)
    );
    assert_eq!(
        agenda_request(&LoginAnswer::Answered { location: None }, 1, 2),
        Err(TimetableError::Auth)
    );
    assert_eq!(
        agenda_request(&answered("https://app.example/login?error=1"), 1, 2),
        Err(TimetableError::Auth)
    );
}

#[test]
fn agenda_card_renders_the_body() {
    let body = r#"{"result":[{"name":"Algo","start_date":1696156800000,"end_date":1696164000000,"discipline":{"teacher":"Dupont"},"rooms":[{"name":"B12"}]}]}"#;
    let card = agenda_card(&AgendaAnswer::Answered { body: body.to_string() }, AT)
        .unwrap()
        .unwrap();
    assert_eq!(card.fields.len(), 1);
    assert_eq!(card.fields[0].label, "📅 01 October 2023 - 📚 Algo");
    assert_eq!(card.timestamp.as_deref(), Some(AT));
    assert_eq!(
        agenda_card(&AgendaAnswer::Answered { body: "{}".to_string() }, AT),
        Ok(None)
    );
}

#[test]
fn agenda_card_reports_what_went_wrong() {
    assert_eq!(agenda_card(&AgendaAnswer::Unreachable, AT), Err(TimetableError::Fetch));
    assert_eq!(
        agenda_card(&AgendaAnswer::Answered { body: String::new() }, AT),
        Err(TimetableError::Format(FormatError::Malformed))
    );
    assert_eq!(
        agenda_card(
            &AgendaAnswer::Answered {
                body: r#"{"result":[{"start_date":9223372036854775807}]}"#.to_string()
            },
            AT
        ),
        Err(TimetableError::Format(FormatError::InstantOutOfRange))
    );
}

#[test]
fn every_error_has_its_text() {
    assert_eq!(
        TimetableError::Connection.message(),
        "Erreur lors de la connexion à l'API Kordis."
    );
    assert_eq!(TimetableError::Auth.message(), "Erreur lors de l'authentification.");
    assert_eq!(TimetableError::Fetch.message(), "Erreur lors de la récupération de l'agenda.");
    assert_eq!(
        TimetableError::Format(FormatError::Malformed).message(),
        "Erreur lors de la lecture de l'agenda."
    );
    assert_eq!(
        TimetableError::Format(FormatError::InstantOutOfRange).message(),
        "Erreur lors de la lecture de l'agenda."
    );
}

#[test]
fn the_exchange_ends_with_a_card_a_text_or_nothing() {
    let card = agenda_card(&AgendaAnswer::Answered { body: r#"{"result":[]}"#.to_string() }, AT)
        .unwrap()
        .unwrap();
    assert_eq!(
        planning_message(Ok(Some(card.clone()))),
        Some(OutgoingMessage::Card(card))
    );
    assert_eq!(planning_message(Ok(None)), None);
    assert_eq!(
        planning_message(Err(TimetableError::Auth)),
        Some(OutgoingMessage::Text("Erreur lors de l'authentification.".to_string()))
    );
    assert_eq!(
        planning_message(agenda_card(&AgendaAnswer::Unreachable, AT)),
        Some(OutgoingMessage::Text("Erreur lors de la récupération de l'agenda.".to_string()))
    );
    assert_eq!(
        planning_message(Err(TimetableError::Connection)),
        Some(OutgoingMessage::Text("Erreur lors de la connexion à l'API Kordis.".to_string()))
    );
}

#[test]
fn the_window_is_october_2023() {
    assert_eq!(agenda_window(), Some((1696118400000, 1698796800000)));
}
