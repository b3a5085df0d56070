use crate::field::Field;
use crate::form::form_pairs;
use crate::message::{decoded, value_of, DecodeError, MessageView, WhatsappMessage};
use crate::reply::{
    document_opening, handle_message, is_message_document, lemma_reply_document_one_message,
    lemma_reply_document_well_formed, reply_document, reply_text, MediaType, Response,
    ResponseView, STATUS_OK,
};
use crate::text::{is_prefix, starts_with, text_view};
use crate::xml::{all_xml_chars, escaped, lemma_occurs_once, occurs_once};
use vstd::prelude::*;
use vstd::string::StringExecFns;

verus! {

/// Status of a request whose query is not a message.
pub const STATUS_BAD_REQUEST: u16 = 400;

/// Status of a request whose body is not announced as a form.
pub const STATUS_UNSUPPORTED_MEDIA_TYPE: u16 = 415;

/// Status of a request whose body is a form and not a message.
pub const STATUS_UNPROCESSABLE_ENTITY: u16 = 422;

/// The methods under which the message route is served.
#[derive(Clone, Copy, Debug, PartialEq, Eq, Structural)]
pub enum Method {
    Get,
    Head,
    Post,
}

/// Where the form of a request stands.
#[derive(Clone, Copy, Debug, PartialEq, Eq, Structural)]
pub enum FormSource {
    /// In the query of the request's address.
    Query,
    /// In the request's body.
    Body,
}

/// Why a request does not reach the handler of messages.
#[derive(Clone, Copy, Debug, PartialEq, Eq, Structural)]
pub enum Rejection {
    /// The body is to hold the form and the request does not announce a form.
    UnsupportedMediaType,
    /// The form of a `GET` or `HEAD` request is not a message.
    BadRequest(DecodeError),
    /// The form of another request is not a message.
    UnprocessableEntity(DecodeError),
}

/// Whether a `Content-Type` announces a form: it is there and begins with
/// the form's media type, whatever follows.
pub open spec fn announces_form(content_type: Option<Seq<char>>) -> bool {
    match content_type {
        Some(value) => is_prefix("application/x-www-form-urlencoded"@, value),
        None => false,
    }
}

/// Where a request holds its form: a `GET` request in its query, any other
/// in its body, which it has to announce as a form.
pub open spec fn selected_source(method: Method, content_type: Option<Seq<char>>) -> Result<
    FormSource,
    Rejection,
> {
    if method == Method::Get {
        Ok(FormSource::Query)
    } else if announces_form(content_type) {
        Ok(FormSource::Body)
    } else {
        Err(Rejection::UnsupportedMediaType)
    }
}

/// How a form that is not a message is rejected under a method.
pub open spec fn refused(method: Method, fault: DecodeError) -> Rejection {
    if method == Method::Post {
        Rejection::UnprocessableEntity(fault)
    } else {
        Rejection::BadRequest(fault)
    }
}

/// The message that a request's form is, or the rejection of the request.
pub open spec fn received(method: Method, input: Seq<u8>) -> Result<MessageView, Rejection> {
    match decoded(form_pairs(input)) {
        Ok(message) => Ok(message),
        Err(fault) => Err(refused(method, fault)),
    }
}

/// What a fault says of itself.
pub open spec fn described(fault: DecodeError) -> Seq<char> {
    match fault {
        DecodeError::DuplicateField(field) => "duplicate field `"@ + field.key() + "`"@,
        DecodeError::InvalidValue(field) => "invalid value for field `"@ + field.key() + "`"@,
        DecodeError::MissingField(field) => "missing field `"@ + field.key() + "`"@,
    }
}

impl DecodeError {
    /// What the fault says of itself, naming the field.
    pub fn describe(&self) -> (text: String)
        ensures
            text@ == described(*self),
    {
        let (mut text, field) = match self {
            DecodeError::DuplicateField(field) => (String::from_str("duplicate field `"), *field),
            DecodeError::InvalidValue(field) => (
                String::from_str("invalid value for field `"),
                *field,
            ),
            DecodeError::MissingField(field) => (String::from_str("missing field `"), *field),
        };
        text.append(field.name());
        text.append("`");
        text
    }
}

impl Rejection {
    /// The status that answers a rejected request.
    pub open spec fn status_code(self) -> u16 {
        match self {
            Rejection::UnsupportedMediaType => STATUS_UNSUPPORTED_MEDIA_TYPE,
            Rejection::BadRequest(_) => STATUS_BAD_REQUEST,
            Rejection::UnprocessableEntity(_) => STATUS_UNPROCESSABLE_ENTITY,
        }
    }

    /// The text that answers a rejected request.
    pub open spec fn reason(self) -> Seq<char> {
        match self {
            Rejection::UnsupportedMediaType =>
                "Form requests must have `Content-Type: application/x-www-form-urlencoded`"@,
            Rejection::BadRequest(fault) => "Failed to deserialize form: "@ + described(fault),
            Rejection::UnprocessableEntity(fault) => "Failed to deserialize form body: "@
                + described(fault),
        }
    }

    /// The answer to a rejected request.
    pub open spec fn answer(self) -> ResponseView {
        ResponseView {
            status: self.status_code(),
            media_type: MediaType::PlainText,
            body: self.reason(),
        }
    }

    /// The status that answers a rejected request: a client error.
    pub fn status(&self) -> (status: u16)
        ensures
            status == self.status_code(),
            400 <= status < 500,
    {
        match self {
            Rejection::UnsupportedMediaType => STATUS_UNSUPPORTED_MEDIA_TYPE,
            Rejection::BadRequest(_) => STATUS_BAD_REQUEST,
            Rejection::UnprocessableEntity(_) => STATUS_UNPROCESSABLE_ENTITY,
        }
    }

    /// The answer to a rejected request: its status and, as plain text, the
    /// reason.
    pub fn response(&self) -> (response: Response)
        ensures
            response@ == self.answer(),
    {
        let body = match self {
            Rejection::UnsupportedMediaType => String::from_str(
                "Form requests must have `Content-Type: application/x-www-form-urlencoded`",
            ),
            Rejection::BadRequest(fault) => {
                let mut text = String::from_str("Failed to deserialize form: ");
                text.append(fault.describe().as_str());
                text
            },
            Rejection::UnprocessableEntity(fault) => {
                let mut text = String::from_str("Failed to deserialize form body: ");
                text.append(fault.describe().as_str());
                text
            },
        };
        Response { status: self.status(), media_type: MediaType::PlainText, body }
    }
}

/// The form of a request: its query or its body, as the source says.
pub open spec fn form_input(source: FormSource, query: Seq<u8>, body: Seq<u8>) -> Seq<u8> {
    match source {
        FormSource::Query => query,
        FormSource::Body => body,
    }
}

/// What the message route answers to a request: the rejection where the
/// request holds no form or its form is not a message, else the reply to the
/// message.
pub open spec fn answered(
    method: Method,
    content_type: Option<Seq<char>>,
    query: Seq<u8>,
    body: Seq<u8>,
) -> ResponseView {
    match selected_source(method, content_type) {
        Err(rejection) => rejection.answer(),
        Ok(source) => match received(method, form_input(source, query, body)) {
            Err(rejection) => rejection.answer(),
            Ok(message) => ResponseView {
                status: STATUS_OK,
                media_type: MediaType::Xml,
                body: reply_document(message.body),
            },
        },
    }
}

/// Answers a liveness probe: status 200 and the plain text `pong`, whatever
/// came before.
pub fn ping() -> (response: Response)
    ensures
        response@ == (ResponseView {
            status: STATUS_OK,
            media_type: MediaType::PlainText,
            body: "pong"@,
        }),
{
    Response { status: STATUS_OK, media_type: MediaType::PlainText, body: String::from_str("pong") }
}

/// Tells where a request holds its form, from its method and the value of
/// its `Content-Type` header.
pub fn form_source(method: Method, content_type: Option<&str>) -> (source: Result<
    FormSource,
    Rejection,
>)
    ensures
        source == selected_source(method, text_view(content_type)),
{
    match method {
        Method::Get => Ok(FormSource::Query),
        _ => {
            let announced = match content_type {
                Some(value) => starts_with(value, "application/x-www-form-urlencoded"),
                None => false,
            };
            if announced {
                Ok(FormSource::Body)
            } else {
                Err(Rejection::UnsupportedMediaType)
            }
        },
    }
}

/// Reads the message of a request from its form.
pub fn receive(method: Method, input: &[u8]) -> (outcome: Result<WhatsappMessage, Rejection>)
    ensures
        match received(method, input@) {
            Ok(message) => outcome matches Ok(read) && read@ == message,
            Err(rejection) => outcome == Err::<WhatsappMessage, Rejection>(rejection),
        },
{
    match WhatsappMessage::decode(input) {
        Ok(message) => Ok(message),
        Err(fault) => match method {
            Method::Post => Err(Rejection::UnprocessableEntity(fault)),
            _ => Err(Rejection::BadRequest(fault)),
        },
    }
}

/// Answers a request on the message route, given its method, the value of
/// its `Content-Type` header, its query and its body.
pub fn respond(method: Method, content_type: Option<&str>, query: &[u8], body: &[u8]) -> (response:
    Response)
    ensures
        response@ == answered(method, text_view(content_type), query@, body@),
{
    let source = match form_source(method, content_type) {
        Ok(source) => source,
        Err(rejection) => {
            return rejection.response();
        },
    };
    let input = match source {
        FormSource::Query => query,
        FormSource::Body => body,
    };
    match receive(method, input) {
        Ok(message) => handle_message(&message),
        Err(rejection) => rejection.response(),
    }
}

/// A request whose form is a message is answered with status 200 and a
/// well-formed reply document that holds one message, given that the body of
/// the message is made of characters that XML admits.
pub proof fn lemma_message_answered(
    method: Method,
    content_type: Option<Seq<char>>,
    query: Seq<u8>,
    body: Seq<u8>,
)
    requires
        selected_source(method, content_type) is Ok,
        decoded(
            form_pairs(form_input(selected_source(method, content_type)->Ok_0, query, body)),
        ) is Ok,
        all_xml_chars(
            decoded(
                form_pairs(form_input(selected_source(method, content_type)->Ok_0, query, body)),
            )->Ok_0.body,
        ),
    ensures
        answered(method, content_type, query, body).status == STATUS_OK,
        answered(method, content_type, query, body).media_type == MediaType::Xml,
        is_message_document(answered(method, content_type, query, body).body),
        occurs_once(answered(method, content_type, query, body).body, "<Message>"@),
        occurs_once(answered(method, content_type, query, body).body, "</Message>"@),
{
    let source = selected_source(method, content_type)->Ok_0;
    let message = decoded(form_pairs(form_input(source, query, body)))->Ok_0;
    lemma_reply_document_well_formed(message.body);
    lemma_reply_document_one_message(message.body);
    let document = reply_document(message.body);
    let content = escaped(reply_text(message.body));
    lemma_occurs_once(document, "<Message>"@, document_opening().len() - "<Message>"@.len());
    lemma_occurs_once(
        document,
        "</Message>"@,
        (document_opening().len() + content.len()) as int,
    );
}

/// A request whose form lacks a field that a message must have is answered
/// with a client error.
pub proof fn lemma_missing_field_rejected(
    method: Method,
    content_type: Option<Seq<char>>,
    query: Seq<u8>,
    body: Seq<u8>,
    field: Field,
)
    requires
        field.required(),
        selected_source(method, content_type) matches Ok(source) ==> value_of(
            form_pairs(form_input(source, query, body)),
            field,
        ) is None,
    ensures
        400 <= answered(method, content_type, query, body).status < 500,
{
}

/// Whatever the request, the message route answers with status 200 or with
/// a client error, and with status 200 just when the request holds a form
/// that is a message.
pub proof fn lemma_answer_status(
    method: Method,
    content_type: Option<Seq<char>>,
    query: Seq<u8>,
    body: Seq<u8>,
)
    ensures
        ({
            let status = answered(method, content_type, query, body).status;
            &&& status == STATUS_OK || 400 <= status < 500
            &&& status == STATUS_OK <==> (selected_source(method, content_type) matches Ok(source)
                && decoded(form_pairs(form_input(source, query, body))) is Ok)
        }),
{
}

} // verus!
