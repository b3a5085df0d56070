use whatsapp_webhook::endpoint::{
    form_source, ping, receive, respond, FormSource, Method, Rejection,
};
use whatsapp_webhook::field::Field;
use whatsapp_webhook::message::DecodeError;
use whatsapp_webhook::reply::MediaType;

const FORM: &str = "application/x-www-form-urlencoded";

const VALID: &str =
    "MessageSid=SM1&AccountSid=AC1&From=a&To=b&Body=oi&NumMedia=0&NumSegments=1&ProfileName=p&WaId=w";

const REPLY: &str = "<?xml version=\"1.0\" encoding=\"UTF-8\" ?><Response><Message>Mermão, porque \
                     você tá falando 'oi'? ablué das ideia!</Message></Response>";

#[test]
fn ping_answers_pong() {
    for _ in 0..3 {
        let response = ping();
        assert_eq!(response.status, 200);
        assert_eq!(response.media_type, MediaType::PlainText);
        assert_eq!(response.body, "pong");
    }
}

#[test]
fn a_posted_message_is_answered() {
    let response = respond(Method::Post, Some(FORM), b"", VALID.as_bytes());
    assert_eq!(response.status, 200);
    assert_eq!(response.media_type, MediaType::Xml);
    assert_eq!(response.body, REPLY);
}

#[test]
fn a_message_in_the_query_is_answered() {
    let response = respond(Method::Get, None, VALID.as_bytes(), b"ignored");
    assert_eq!(response.status, 200);
    assert_eq!(response.body, REPLY);
}

#[test]
fn a_posted_form_that_lacks_a_field_is_unprocessable() {
    let body = VALID.replace("&Body=oi", "");
    let response = respond(Method::Post, Some(FORM), VALID.as_bytes(), body.as_bytes());
    assert_eq!(response.status, 422);
    assert_eq!(response.media_type, MediaType::PlainText);
    assert_eq!(response.body, "Failed to deserialize form body: missing field `Body`");
}

#[test]
fn a_query_that_lacks_a_field_is_a_bad_request() {
    let query = VALID.replace("&WaId=w", "");
    let response = respond(Method::Get, Some(FORM), query.as_bytes(), VALID.as_bytes());
    assert_eq!(response.status, 400);
    assert_eq!(response.body, "Failed to deserialize form: missing field `WaId`");
}

#[test]
fn a_body_that_is_not_announced_as_a_form_is_refused() {
    for content_type in [None, Some("application/json"), Some("text/plain"), Some("")] {
        let response = respond(Method::Post, content_type, b"", VALID.as_bytes());
        assert_eq!(response.status, 415);
        assert_eq!(
            response.body,
            "Form requests must have `Content-Type: application/x-www-form-urlencoded`"
        );
    }
}

#[test]
fn the_media_type_may_carry_parameters() {
    let response = respond(
        Method::Post,
        Some("application/x-www-form-urlencoded; charset=UTF-8"),
        b"",
        VALID.as_bytes(),
    );
    assert_eq!(response.status, 200);
}

#[test]
fn malformed_json_is_a_client_error() {
    let body = b"{\"MessageSid\": \"SM1\", ";
    let as_form = respond(Method::Post, Some(FORM), b"", body);
    assert_eq!(as_form.status, 422);
    let as_json = respond(Method::Post, Some("application/json"), b"", body);
    assert_eq!(as_json.status, 415);
}

#[test]
fn the_source_of_the_form_follows_the_method() {
    assert_eq!(form_source(Method::Get, None), Ok(FormSource::Query));
    assert_eq!(form_source(Method::Get, Some("text/plain")), Ok(FormSource::Query));
    assert_eq!(form_source(Method::Post, Some(FORM)), Ok(FormSource::Body));
    assert_eq!(form_source(Method::Head, Some(FORM)), Ok(FormSource::Body));
    assert_eq!(form_source(Method::Head, None), Err(Rejection::UnsupportedMediaType));
    assert_eq!(form_source(Method::Post, None), Err(Rejection::UnsupportedMediaType));
    assert_eq!(
        form_source(Method::Post, Some("application/x-www-form")),
        Err(Rejection::UnsupportedMediaType)
    );
    assert_eq!(
        form_source(Method::Post, Some("Application/x-www-form-urlencoded")),
        Err(Rejection::UnsupportedMediaType)
    );
}

#[test]
fn the_rejection_of_a_form_follows_the_method() {
    let fault = DecodeError::MissingField(Field::MessageSid);
    assert_eq!(receive(Method::Post, b"a=b"), Err(Rejection::UnprocessableEntity(fault)));
    assert_eq!(receive(Method::Get, b"a=b"), Err(Rejection::BadRequest(fault)));
    assert_eq!(receive(Method::Head, b"a=b"), Err(Rejection::BadRequest(fault)));
    assert_eq!(receive(Method::Post, VALID.as_bytes()).unwrap().body, "oi");
}

#[test]
fn rejections_are_client_errors() {
    let field = Field::NumMedia;
    assert_eq!(Rejection::UnsupportedMediaType.status(), 415);
    assert_eq!(Rejection::BadRequest(DecodeError::InvalidValue(field)).status(), 400);
    assert_eq!(Rejection::UnprocessableEntity(DecodeError::DuplicateField(field)).status(), 422);
    assert_eq!(DecodeError::InvalidValue(field).describe(), "invalid value for field `NumMedia`");
    assert_eq!(DecodeError::DuplicateField(field).describe(), "duplicate field `NumMedia`");
    assert_eq!(DecodeError::MissingField(field).describe(), "missing field `NumMedia`");
    let response = Rejection::BadRequest(DecodeError::DuplicateField(Field::To)).response();
    assert_eq!(response.status, 400);
    assert_eq!(response.media_type, MediaType::PlainText);
    assert_eq!(response.body, "Failed to deserialize form: duplicate field `To`");
}
