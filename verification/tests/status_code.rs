use http_wire::error::Error;
use http_wire::status_code::StatusCode;

#[test]
fn numbers_and_phrases_of_common_statuses() {
    assert_eq!(u16::from(StatusCode::OK), 200);
    assert_eq!(StatusCode::OK.text(), "OK");
    assert_eq!(u16::from(StatusCode::NotFound), 404);
    assert_eq!(StatusCode::NotFound.text(), "Not Found");
    assert_eq!(u16::from(StatusCode::Continue), 100);
    assert_eq!(StatusCode::Continue.text(), "Continue");
    assert_eq!(u16::from(StatusCode::ImATeapot), 418);
    assert_eq!(StatusCode::ImATeapot.text(), "I'm a teapot");
    assert_eq!(u16::from(StatusCode::NetworkAuthenticationRequired), 511);
    assert_eq!(
        StatusCode::NetworkAuthenticationRequired.text(),
        "Network Authentication Required"
    );
}

#[test]
fn a_status_is_found_by_its_number() {
    assert_eq!(StatusCode::try_from(200), Ok(StatusCode::OK));
    assert_eq!(StatusCode::try_from(404), Ok(StatusCode::NotFound));
    assert_eq!(StatusCode::try_from(100), Ok(StatusCode::Continue));
    assert_eq!(StatusCode::try_from(510), Ok(StatusCode::NotExtended));
    assert_eq!(StatusCode::try_from(511), Ok(StatusCode::NetworkAuthenticationRequired));
}

#[test]
fn other_numbers_are_refused() {
    for number in [0u16, 99, 104, 199, 209, 227, 305, 306, 419, 420, 427, 430, 452, 509, 512, 600, 65535] {
        assert_eq!(StatusCode::try_from(number), Err(Error::InvalidStatusCode));
    }
}

#[test]
fn number_and_status_are_inverse() {
    let mut found = 0;
    for number in 0..=u16::MAX {
        if let Ok(status) = StatusCode::try_from(number) {
            assert_eq!(u16::from(status), number);
            assert!(!status.text().is_empty());
            assert!((100..=511).contains(&number));
            found += 1;
        }
    }
    assert_eq!(found, 61);
}
