use wax_core::error::WaxError;
use wax_core::sampling::{sampling_mode, validate_sampling, SamplingMode};

fn refusal(r: Result<(), WaxError>) -> String {
    match r.unwrap_err() {
        WaxError::InvalidRequest(msg) => msg,
        other => panic!("unexpected error {other:?}"),
    }
}

#[test]
fn rejects_invalid_top_k() {
    let err = validate_sampling(true, Some(0), true, true).unwrap_err();

    assert!(err.message().contains("top-k"));
}

#[test]
fn default_settings_are_accepted() {
    assert!(validate_sampling(true, None, true, true).is_ok());
    assert!(validate_sampling(true, Some(40), true, true).is_ok());
}

#[test]
fn each_refusal_has_its_message() {
    assert_eq!(
        refusal(validate_sampling(false, None, true, true)),
        "temperature must be finite and >= 0"
    );
    assert_eq!(
        refusal(validate_sampling(true, None, false, true)),
        "top-p must be finite and between 0 and 1"
    );
    assert_eq!(
        refusal(validate_sampling(true, None, true, false)),
        "repetition penalty must be finite and > 0"
    );
}

#[test]
fn temperature_is_checked_before_top_k() {
    assert_eq!(
        refusal(validate_sampling(false, Some(0), false, false)),
        "temperature must be finite and >= 0"
    );
    assert_eq!(
        refusal(validate_sampling(true, Some(0), false, false)),
        "top-k must be > 0"
    );
}

#[test]
fn zero_temperature_is_greedy_whatever_else_is_set() {
    assert_eq!(sampling_mode(true, Some(3), true), SamplingMode::ArgMax);
    assert_eq!(sampling_mode(true, None, false), SamplingMode::ArgMax);
}

#[test]
fn sampling_mode_follows_top_k_and_top_p() {
    assert_eq!(sampling_mode(false, None, false), SamplingMode::All);
    assert_eq!(sampling_mode(false, Some(3), false), SamplingMode::TopK { k: 3 });
    assert_eq!(sampling_mode(false, None, true), SamplingMode::TopP);
    assert_eq!(
        sampling_mode(false, Some(3), true),
        SamplingMode::TopKThenTopP { k: 3 }
    );
}
