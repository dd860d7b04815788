use std::time::Duration;

use typesafe_systemone::Error;

#[test]
fn statuses_map_to_their_variants() {
    let e = |s: u16| Error::from_status(s, Some(Duration::from_secs(1)), format!("m{s}"));
    assert!(matches!(e(400), Error::BadRequest { ref message } if message == "m400"));
    assert!(matches!(e(401), Error::Authentication { .. }));
    assert!(matches!(e(403), Error::PermissionDenied { .. }));
    assert!(matches!(e(404), Error::NotFound { .. }));
    assert!(matches!(e(422), Error::UnprocessableEntity { .. }));
    assert!(matches!(e(429), Error::RateLimit { retry_after: Some(d), .. } if d == Duration::from_secs(1)));
    assert!(matches!(e(529), Error::Overloaded { retry_after: Some(_), .. }));
    assert!(matches!(e(500), Error::Server { status: 500, .. }));
    assert!(matches!(e(599), Error::Server { status: 599, .. }));
    assert!(matches!(e(302), Error::UnexpectedStatus { status: 302, .. }));
    assert!(matches!(e(600), Error::UnexpectedStatus { status: 600, .. }));
}

#[test]
fn every_status_round_trips() {
    for s in [0u16, 100, 200, 302, 400, 401, 403, 404, 408, 418, 422, 429, 500, 503, 529, 599, 600, u16::MAX] {
        assert_eq!(Error::from_status(s, None, String::new()).status(), Some(s));
    }
}

#[test]
fn errors_without_status() {
    assert_eq!(Error::Config("x".into()).status(), None);
    assert_eq!(Error::InvalidRequest("x".into()).status(), None);
    let e = Error::MissingAnswer { id: "q".into(), expected: "noul" };
    assert_eq!(e.status(), None);
}

#[test]
fn transport_errors_that_are_not_timeouts_are_connection_errors() {
    let err = reqwest::Client::new().get("not a url").build().unwrap_err();
    let e = Error::from_transport(err);
    assert!(matches!(e, Error::Connection(_)), "{e:?}");
    assert_eq!(e.status(), None);
}
