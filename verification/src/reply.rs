use crate::message::WhatsappMessage;
use crate::xml::{
    all_xml_chars, escape_text, escaped, is_character_data, is_xml_char,
    lemma_escaped_is_character_data, lemma_escaped_markup_free, occurs_at,
};
use vstd::prelude::*;
use vstd::string::StringExecFns;

verus! {

/// Status of a request that was answered.
pub const STATUS_OK: u16 = 200;

/// What kind of text a response carries.
#[derive(Clone, Copy, Debug, PartialEq, Eq, Structural)]
pub enum MediaType {
    /// Plain text in UTF-8.
    PlainText,
    /// An XML document, `text/xml`.
    Xml,
}

/// What the webhook answers to one request.
#[derive(Clone, Debug, PartialEq, Eq)]
pub struct Response {
    /// The HTTP status code.
    pub status: u16,
    /// The kind of text in `body`.
    pub media_type: MediaType,
    /// The text sent back.
    pub body: String,
}

/// A response as a mathematical value.
pub ghost struct ResponseView {
    pub status: u16,
    pub media_type: MediaType,
    pub body: Seq<char>,
}

impl View for Response {
    type V = ResponseView;

    open spec fn view(&self) -> ResponseView {
        ResponseView { status: self.status, media_type: self.media_type, body: self.body@ }
    }
}

/// What a reply document holds before the text of its message: the XML
/// declaration and the start tags of the two elements.
pub open spec fn document_opening() -> Seq<char> {
    "<?xml version=\"1.0\" encoding=\"UTF-8\" ?><Response><Message>"@
}

/// What a reply document holds behind the text of its message: the two end
/// tags.
pub open spec fn document_closing() -> Seq<char> {
    "</Message></Response>"@
}

/// The reply document whose one message has `content` between its tags.
pub open spec fn message_document(content: Seq<char>) -> Seq<char> {
    document_opening() + content + document_closing()
}

/// The text that answers a message whose body is `body`.
pub open spec fn reply_text(body: Seq<char>) -> Seq<char> {
    "Mermão, porque você tá falando '"@ + body + "'? ablué das ideia!"@
}

/// The document that answers a message whose body is `body`: the reply text
/// as character data, in a reply document.
pub open spec fn reply_document(body: Seq<char>) -> Seq<char> {
    message_document(escaped(reply_text(body)))
}

/// A well-formed reply document: the declaration, then one `Response`
/// element whose only child is one `Message` element that holds well-formed
/// character data and no element.
pub open spec fn is_message_document(document: Seq<char>) -> bool {
    exists|content: Seq<char>|
        is_character_data(content) && document == #[trigger] message_document(content)
}

/// Whether the start tag of a message stands in `document` in one place
/// only, the end of the opening, and its end tag in one place only, right
/// behind `content`.
pub open spec fn holds_one_message(document: Seq<char>, content: Seq<char>) -> bool {
    &&& forall|at: int|
        occurs_at(document, at, "<Message>"@) <==> at == document_opening().len()
            - "<Message>"@.len()
    &&& forall|at: int|
        occurs_at(document, at, "</Message>"@) <==> at == document_opening().len() + content.len()
}

/// `Twiml::new`, `Twiml::add` with one `twiml::Message`, and
/// `Twiml::as_twiml` of twilio. The library formats the declaration, the
/// `Response` element and in it the `Message` element around the text, which
/// it copies as it is, so the result is the reply document with `content`
/// between the tags of its message.
#[verifier::external_body]
fn twiml_message(content: String) -> (document: String)
    ensures
        document@ == message_document(content@),
{
    twilio::twiml::Twiml::new().add(&twilio::twiml::Message { txt: content }).as_twiml()
}

/// Writes the text that answers a message whose body is `body`.
pub fn compose_reply(body: &str) -> (text: String)
    ensures
        text@ == reply_text(body@),
{
    let mut text = String::from_str("Mermão, porque você tá falando '");
    text.append(body);
    text.append("'? ablué das ideia!");
    text
}

/// Answers an inbound message: status 200 and, as XML, the reply document
/// that quotes the body of the message.
pub fn handle_message(message: &WhatsappMessage) -> (response: Response)
    ensures
        response@ == (ResponseView {
            status: STATUS_OK,
            media_type: MediaType::Xml,
            body: reply_document(message@.body),
        }),
{
    let text = compose_reply(message.body.as_str());
    let content = escape_text(text.as_str());
    Response { status: STATUS_OK, media_type: MediaType::Xml, body: twiml_message(content) }
}

/// The reply text is made of characters that XML admits where the body of
/// the message is.
pub proof fn lemma_reply_text_xml_chars(body: Seq<char>)
    requires
        all_xml_chars(body),
    ensures
        all_xml_chars(reply_text(body)),
{
    reveal_strlit("Mermão, porque você tá falando '");
    reveal_strlit("'? ablué das ideia!");
    let front = "Mermão, porque você tá falando '"@;
    let back = "'? ablué das ideia!"@;
    let text = reply_text(body);
    assert forall|i: int| 0 <= i < text.len() implies is_xml_char(#[trigger] text[i]) by {
        if i < front.len() {
            assert(text[i] == front[i]);
        } else if i < front.len() + body.len() {
            assert(text[i] == body[i - front.len()]);
        } else {
            assert(text[i] == back[i - front.len() - body.len()]);
        }
    }
}

/// The document that answers a message holds exactly one `Message` element,
/// whatever the body of the message.
pub proof fn lemma_reply_document_one_message(body: Seq<char>)
    ensures
        holds_one_message(reply_document(body), escaped(reply_text(body))),
{
    lemma_escaped_markup_free(reply_text(body));
    lemma_one_message_element(escaped(reply_text(body)));
}

/// The document that answers a message is well formed whenever the body of
/// the message is made of characters that XML admits.
pub proof fn lemma_reply_document_well_formed(body: Seq<char>)
    requires
        all_xml_chars(body),
    ensures
        is_message_document(reply_document(body)),
{
    lemma_reply_text_xml_chars(body);
    lemma_escaped_is_character_data(reply_text(body));
    assert(reply_document(body) == message_document(escaped(reply_text(body))));
}

/// In a reply document whose content opens no tag, the start tag of a
/// message stands in one place and its end tag in one place: the document
/// holds exactly one `Message` element.
pub proof fn lemma_one_message_element(content: Seq<char>)
    requires
        forall|i: int| 0 <= i < content.len() ==> content[i] != '<',
    ensures
        holds_one_message(message_document(content), content),
{
    reveal_strlit("<?xml version=\"1.0\" encoding=\"UTF-8\" ?><Response><Message>");
    reveal_strlit("</Message></Response>");
    reveal_strlit("<Message>");
    reveal_strlit("</Message>");
    let opening = document_opening();
    let closing = document_closing();
    let document = message_document(content);
    let start = "<Message>"@;
    let end = "</Message>"@;
    assert(opening.len() == 58);
    assert(closing.len() == 21);
    assert forall|i: int| 0 <= i < document.len() implies #[trigger] document[i] == (if i < 58 {
        opening[i]
    } else if i < 58 + content.len() {
        content[i - 58]
    } else {
        closing[i - 58 - content.len()]
    }) by {}
    assert(document.subrange(49, 58) =~= start);
    let close_at: int = 58 + content.len() as int;
    assert(document.subrange(close_at, close_at + 10) =~= end);
    assert forall|at: int| occurs_at(document, at, start) implies at == 49 by {
        let part = document.subrange(at, at + 9);
        assert(part[0] == '<' && part[1] == 'M');
        assert(document[at] == '<' && document[at + 1] == 'M');
        lemma_angle_brackets(content, at);
    }
    assert forall|at: int| occurs_at(document, at, end) implies at == 58 + content.len() by {
        let part = document.subrange(at, at + 10);
        assert(part[0] == '<' && part[1] == '/' && part[2] == 'M');
        assert(document[at] == '<' && document[at + 1] == '/' && document[at + 2] == 'M');
        lemma_angle_brackets(content, at);
    }
}

/// Where a reply document opens a tag, given that its content opens none:
/// at the declaration, at the two start tags and at the two end tags.
proof fn lemma_angle_brackets(content: Seq<char>, at: int)
    requires
        forall|i: int| 0 <= i < content.len() ==> content[i] != '<',
        0 <= at < message_document(content).len(),
        message_document(content)[at] == '<',
    ensures
        at == 0 || at == 39 || at == 49 || at == 58 + content.len() || at == 68 + content.len(),
{
    reveal_strlit("<?xml version=\"1.0\" encoding=\"UTF-8\" ?><Response><Message>");
    reveal_strlit("</Message></Response>");
    let opening = document_opening();
    let closing = document_closing();
    let document = message_document(content);
    if at < 58 {
        assert(document[at] == opening[at]);
    } else if at < 58 + content.len() {
        assert(document[at] == content[at - 58]);
    } else {
        assert(document[at] == closing[at - 58 - content.len()]);
    }
}

} // verus!
