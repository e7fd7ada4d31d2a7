//! The privilege gate's total order, and the error-to-response mapping.

use otango_auth::error::{Error, ResponseCategory};
use otango_auth::privilege::Privilege;

#[test]
fn levels_are_ordered() {
    assert_eq!(Privilege::Basic.level(), 0);
    assert_eq!(Privilege::Admin.level(), 1);
}

#[test]
fn at_least_is_the_total_order() {
    assert!(Privilege::Basic.at_least(Privilege::Basic));
    assert!(!Privilege::Basic.at_least(Privilege::Admin));
    assert!(Privilege::Admin.at_least(Privilege::Basic));
    assert!(Privilege::Admin.at_least(Privilege::Admin));
}

#[test]
fn levels_round_trip_through_storage_rank() {
    assert_eq!(Privilege::from(0), Some(Privilege::Basic));
    assert_eq!(Privilege::from(1), Some(Privilege::Admin));
    assert_eq!(Privilege::from(2), None);
    assert_eq!(Privilege::from(255), None);
    assert_eq!(Privilege::from(Privilege::Basic.level()), Some(Privilege::Basic));
    assert_eq!(Privilege::from(Privilege::Admin.level()), Some(Privilege::Admin));
}

#[test]
fn error_kinds_map_to_response_categories() {
    assert_eq!(Error::Signature.response_category(), ResponseCategory::Unauthorized);
    assert_eq!(Error::Challenge.response_category(), ResponseCategory::Unauthorized);
    assert_eq!(Error::NoUser.response_category(), ResponseCategory::Unauthorized);
    assert_eq!(Error::KeyDecode.response_category(), ResponseCategory::Unauthorized);
    assert_eq!(Error::Privilege.response_category(), ResponseCategory::Forbidden);
    assert_eq!(Error::Exists.response_category(), ResponseCategory::Conflict);
    assert_eq!(Error::Storage.response_category(), ResponseCategory::Internal);
}

#[test]
fn rejection_kinds_are_indistinguishable() {
    // A failed signature and a failed challenge answer identically.
    assert_eq!(
        Error::Signature.response_category(),
        Error::Challenge.response_category()
    );
}

#[test]
fn messages_name_the_failure_class() {
    assert_eq!(
        Error::Signature.message(),
        "[Authentication Error] Payload signature is invalid"
    );
    assert_eq!(
        Error::Challenge.message(),
        "[Authentication Error] Challenge expired or invalid"
    );
    assert_eq!(
        Error::Privilege.message(),
        "[Authorization Error] You do not have the required privileges"
    );
}
