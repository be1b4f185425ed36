use honeybadger::errors::{classify_status, delivery_result, resolve_delivery};
use honeybadger::{ConfigBuilder, DeliveryOutcome, EnvData, TransportEvent};

#[test]
fn test_notify_ok() {
    let config = ConfigBuilder::new("dummy-api-key", EnvData::empty()).build();
    let res = delivery_result(TransportEvent::Status(201), config.timeout);

    assert_eq!((), res.unwrap());
}

#[test]
fn test_notify_rate_exceeded() {
    let config = ConfigBuilder::new("dummy-api-key", EnvData::empty()).build();
    let res = delivery_result(TransportEvent::Status(429), config.timeout);

    match res {
        Err(DeliveryOutcome::RateLimited) => assert!(true),
        _ => assert_eq!("", "expected rate exceeded error, but was not"),
    }
}

#[test]
fn classification_is_a_pure_function_of_the_code() {
    assert!(matches!(classify_status(201), DeliveryOutcome::Success));
    assert!(matches!(classify_status(301), DeliveryOutcome::Redirected));
    assert!(matches!(classify_status(401), DeliveryOutcome::Unauthorized));
    assert!(matches!(classify_status(422), DeliveryOutcome::Unprocessable));
    assert!(matches!(classify_status(429), DeliveryOutcome::RateLimited));
    assert!(matches!(classify_status(500), DeliveryOutcome::ServerError));
    assert!(matches!(
        classify_status(418),
        DeliveryOutcome::UnknownStatus(418)
    ));
}

#[test]
fn class_checks_come_before_specific_codes() {
    assert!(matches!(classify_status(200), DeliveryOutcome::Success));
    assert!(matches!(classify_status(299), DeliveryOutcome::Success));
    assert!(matches!(classify_status(300), DeliveryOutcome::Redirected));
    assert!(matches!(classify_status(399), DeliveryOutcome::Redirected));
    assert!(matches!(
        classify_status(501),
        DeliveryOutcome::UnknownStatus(501)
    ));
    assert!(matches!(
        classify_status(199),
        DeliveryOutcome::UnknownStatus(199)
    ));
}

#[test]
fn timeout_event_carries_the_configured_seconds() {
    let outcome = resolve_delivery(TransportEvent::TimedOut, 1);
    assert!(matches!(outcome, DeliveryOutcome::TimedOut(1)));

    let res = delivery_result(TransportEvent::TimedOut, 1);
    assert!(matches!(res, Err(DeliveryOutcome::TimedOut(1))));
}

#[test]
fn transport_failure_carries_its_cause() {
    let outcome = resolve_delivery(
        TransportEvent::Failed("connection refused".to_owned()),
        5,
    );
    match outcome {
        DeliveryOutcome::TransportFailed(cause) => {
            assert_eq!("connection refused", cause);
        }
        _ => assert_eq!("", "expected a transport failure"),
    }
}

#[test]
fn only_success_gives_ok() {
    for code in [300u16, 301, 401, 422, 429, 500, 418, 199] {
        assert!(delivery_result(TransportEvent::Status(code), 5).is_err());
    }
    for code in [200u16, 201, 204, 299] {
        assert!(delivery_result(TransportEvent::Status(code), 5).is_ok());
    }
}

#[test]
fn descriptions_name_each_outcome() {
    assert_eq!(
        "Honeybadger rate limit exceeded",
        DeliveryOutcome::RateLimited.description()
    );
    assert_eq!(
        "API key is incorrect or the account is deactivated",
        DeliveryOutcome::Unauthorized.description()
    );
    assert_eq!(
        "The payload couldn't be processed",
        DeliveryOutcome::Unprocessable.description()
    );
    assert_eq!(
        "The endpoint replied with a redirect",
        DeliveryOutcome::Redirected.description()
    );
    assert_eq!(
        "The honeybadger API replied with a '500 Internal Server Error'",
        DeliveryOutcome::ServerError.description()
    );
    assert_eq!(
        "Honeybadger client timed out",
        DeliveryOutcome::TimedOut(3).description()
    );
    assert_eq!(
        "Honeybadger responded with an unknown status code",
        DeliveryOutcome::UnknownStatus(418).description()
    );
    assert_eq!(
        "no route to host",
        DeliveryOutcome::TransportFailed("no route to host".to_owned()).description()
    );
}
