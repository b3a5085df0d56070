use whatsapp_webhook::message::WhatsappMessage;
use whatsapp_webhook::reply::{compose_reply, handle_message, MediaType};
use whatsapp_webhook::xml::escape_text;

fn message_with_body(body: &str) -> WhatsappMessage {
    WhatsappMessage {
        message_sid: "SM1".to_string(),
        account_sid: "AC1".to_string(),
        messaging_service_sid: None,
        from: "whatsapp:+5511999990000".to_string(),
        to: "whatsapp:+14155238886".to_string(),
        body: body.to_string(),
        num_media: 0,
        num_segments: 1,
        profile_name: "p".to_string(),
        wa_id: "w".to_string(),
        forwarded: false,
        frequently_forwarded: false,
        button_text: None,
    }
}

#[test]
fn the_reply_quotes_the_body() {
    assert_eq!(
        compose_reply("oi"),
        "Mermão, porque você tá falando 'oi'? ablué das ideia!"
    );
    assert_eq!(compose_reply(""), "Mermão, porque você tá falando ''? ablué das ideia!");
}

#[test]
fn the_reply_document_for_oi() {
    let response = handle_message(&message_with_body("oi"));
    assert_eq!(response.status, 200);
    assert_eq!(response.media_type, MediaType::Xml);
    assert_eq!(
        response.body,
        "<?xml version=\"1.0\" encoding=\"UTF-8\" ?><Response><Message>Mermão, porque você tá \
         falando 'oi'? ablué das ideia!</Message></Response>"
    );
}

#[test]
fn markup_in_the_body_is_escaped() {
    let response = handle_message(&message_with_body("</Message><Message>a & b"));
    assert_eq!(
        response.body,
        "<?xml version=\"1.0\" encoding=\"UTF-8\" ?><Response><Message>Mermão, porque você tá \
         falando '&lt;/Message&gt;&lt;Message&gt;a &amp; b'? ablué das ideia!</Message></Response>"
    );
    assert_eq!(response.body.matches("<Message>").count(), 1);
    assert_eq!(response.body.matches("</Message>").count(), 1);
}

#[test]
fn escaping_replaces_three_characters_only() {
    assert_eq!(escape_text(""), "");
    assert_eq!(escape_text("plain 'text' \"here\""), "plain 'text' \"here\"");
    assert_eq!(escape_text("<&>"), "&lt;&amp;&gt;");
    assert_eq!(escape_text("&amp;"), "&amp;amp;");
    assert_eq!(escape_text("a<b>c&d"), "a&lt;b&gt;c&amp;d");
    assert_eq!(escape_text("ção]]>"), "ção]]&gt;");
}
