use ttrpg_tool::packets::{ClientFacingError, Request};
use ttrpg_tool::requests::{RequestStatus, Requests};

#[test]
fn a_request_is_answered_and_consumed() {
    let mut r = Requests::new();
    assert_eq!(r.get_status(Request::GenerateCharacters), None);
    r.make_request(Request::GenerateCharacters);
    assert_eq!(r.get_status(Request::GenerateCharacters), Some(RequestStatus::Sending));
    assert_eq!(r.consume(Request::GenerateCharacters), None);
    r.set_approval(Request::GenerateCharacters, true);
    assert_eq!(r.get_status(Request::GenerateCharacters), Some(RequestStatus::Approved));
    r.make_request(Request::GenerateCharacters);
    assert_eq!(r.get_status(Request::GenerateCharacters), Some(RequestStatus::Approved));
    assert_eq!(r.consume(Request::GenerateCharacters), Some(true));
    assert_eq!(r.get_status(Request::GenerateCharacters), None);
}

#[test]
fn a_denied_request() {
    let mut r = Requests::new();
    r.set_approval(Request::GenerateCharacters, false);
    assert_eq!(r.get_status(Request::GenerateCharacters), None);
    r.make_request(Request::GenerateCharacters);
    r.set_approval(Request::GenerateCharacters, false);
    assert_eq!(r.consume(Request::GenerateCharacters), Some(false));
    assert_eq!(r.consume(Request::GenerateCharacters), None);
}

#[test]
fn error_messages() {
    assert_eq!(ClientFacingError::CharacterNameTooLong.message(), "That name is too long. Pick something shorter.");
    assert_eq!(ClientFacingError::Generic.message(), "Something went wrong.");
    assert_eq!(Request::GenerateCharacters.label(), "Generate a new set of characters.");
}
