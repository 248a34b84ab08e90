use futeinf::error::Error;

#[test]
fn every_error_has_its_message() {
    assert_eq!(Error::NotFound.message(), "not found");
    assert_eq!(Error::Forbidden.message(), "you are not allowed to vote on this ballot");
    assert_eq!(Error::Conflict.message(), "not possible in this state or at this time");
    assert_eq!(
        Error::ValidationError.message(),
        "the vote is not a ranking of the offered players"
    );
    assert_eq!(Error::StorageError.message(), "the store refused the row");
    assert_eq!(
        Error::MalformedBallot.message(),
        "a ballot holds a vote that is no ranking of its players"
    );
    assert_eq!(Error::TooLarge.message(), "too much data for one tally");
}
