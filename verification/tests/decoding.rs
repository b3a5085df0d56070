use whatsapp_webhook::field::{parse_flag, Field};
use whatsapp_webhook::message::{DecodeError, WhatsappMessage};

const FULL: &str = "MessageSid=SM1&AccountSid=AC1&MessagingServiceSid=MG1&From=whatsapp%3A%2B5511999990000\
&To=whatsapp%3A%2B14155238886&Body=oi&NumMedia=0&NumSegments=1&ProfileName=Jo%C3%A3o+Silva\
&WaId=5511999990000&Forwarded=true&FrequentlyForwarded=false&ButtonText=Sim";

const MINIMAL: &str =
    "MessageSid=SM1&AccountSid=AC1&From=a&To=b&Body=oi&NumMedia=2&NumSegments=3&ProfileName=p&WaId=w";

fn pairs(items: &[(&str, &str)]) -> Vec<(String, String)> {
    items.iter().map(|(k, v)| (k.to_string(), v.to_string())).collect()
}

fn without(form: &str, key: &str) -> String {
    form.split('&')
        .filter(|pair| pair.split('=').next() != Some(key))
        .collect::<Vec<_>>()
        .join("&")
}

#[test]
fn decodes_a_full_form() {
    let message = WhatsappMessage::decode(FULL.as_bytes()).unwrap();
    assert_eq!(
        message,
        WhatsappMessage {
            message_sid: "SM1".to_string(),
            account_sid: "AC1".to_string(),
            messaging_service_sid: Some("MG1".to_string()),
            from: "whatsapp:+5511999990000".to_string(),
            to: "whatsapp:+14155238886".to_string(),
            body: "oi".to_string(),
            num_media: 0,
            num_segments: 1,
            profile_name: "João Silva".to_string(),
            wa_id: "5511999990000".to_string(),
            forwarded: true,
            frequently_forwarded: false,
            button_text: Some("Sim".to_string()),
        }
    );
}

#[test]
fn absent_flags_are_false_and_optional_texts_are_none() {
    let message = WhatsappMessage::decode(MINIMAL.as_bytes()).unwrap();
    assert_eq!(message.messaging_service_sid, None);
    assert_eq!(message.button_text, None);
    assert!(!message.forwarded);
    assert!(!message.frequently_forwarded);
    assert_eq!(message.num_media, 2);
    assert_eq!(message.num_segments, 3);
}

#[test]
fn each_required_field_is_missed() {
    let required = [
        Field::MessageSid,
        Field::AccountSid,
        Field::From,
        Field::To,
        Field::Body,
        Field::NumMedia,
        Field::NumSegments,
        Field::ProfileName,
        Field::WaId,
    ];
    for field in required {
        let form = without(FULL, field.name());
        assert_eq!(
            WhatsappMessage::decode(form.as_bytes()),
            Err(DecodeError::MissingField(field)),
            "{:?}",
            field
        );
    }
}

#[test]
fn optional_fields_are_not_missed() {
    for field in [
        Field::MessagingServiceSid,
        Field::Forwarded,
        Field::FrequentlyForwarded,
        Field::ButtonText,
    ] {
        let form = without(FULL, field.name());
        assert!(WhatsappMessage::decode(form.as_bytes()).is_ok(), "{:?}", field);
    }
}

#[test]
fn the_first_missing_field_in_the_order_of_the_fields_is_reported() {
    assert_eq!(
        WhatsappMessage::decode(b"WaId=w&Body=oi"),
        Err(DecodeError::MissingField(Field::MessageSid))
    );
    assert_eq!(
        WhatsappMessage::decode(b"WaId=w&MessageSid=s&AccountSid=a&To=t"),
        Err(DecodeError::MissingField(Field::From))
    );
}

#[test]
fn an_empty_form_lacks_the_first_field() {
    assert_eq!(
        WhatsappMessage::decode(b""),
        Err(DecodeError::MissingField(Field::MessageSid))
    );
}

#[test]
fn a_repeated_field_is_a_fault() {
    let form = format!("{}&Body=again", MINIMAL);
    assert_eq!(
        WhatsappMessage::decode(form.as_bytes()),
        Err(DecodeError::DuplicateField(Field::Body))
    );
}

#[test]
fn a_count_must_be_a_number_that_fits_32_bits() {
    for bad in ["", "x", "-1", "1.5", " 1", "1 ", "4294967296", "+", "1_000"] {
        let form = MINIMAL.replace("NumMedia=2", &format!("NumMedia={}", bad.replace('+', "%2B")));
        assert_eq!(
            WhatsappMessage::decode(form.as_bytes()),
            Err(DecodeError::InvalidValue(Field::NumMedia)),
            "{:?}",
            bad
        );
    }
    for (good, value) in [("4294967295", 4294967295u32), ("007", 7), ("%2B12", 12), ("0", 0)] {
        let form = MINIMAL.replace("NumSegments=3", &format!("NumSegments={}", good));
        assert_eq!(WhatsappMessage::decode(form.as_bytes()).unwrap().num_segments, value);
    }
}

#[test]
fn a_flag_must_be_true_or_false() {
    for bad in ["", "True", "1", "yes", "false "] {
        let form = format!("{}&Forwarded={}", MINIMAL, bad);
        assert_eq!(
            WhatsappMessage::decode(form.as_bytes()),
            Err(DecodeError::InvalidValue(Field::Forwarded)),
            "{:?}",
            bad
        );
    }
    let form = format!("{}&FrequentlyForwarded=true", MINIMAL);
    assert!(WhatsappMessage::decode(form.as_bytes()).unwrap().frequently_forwarded);
    assert_eq!(parse_flag("true"), Some(true));
    assert_eq!(parse_flag("false"), Some(false));
    assert_eq!(parse_flag("TRUE"), None);
}

#[test]
fn the_first_faulty_pair_decides() {
    assert_eq!(
        WhatsappMessage::decode(b"NumMedia=x&Body=a&Body=b"),
        Err(DecodeError::InvalidValue(Field::NumMedia))
    );
    assert_eq!(
        WhatsappMessage::decode(b"Body=a&Body=b&NumMedia=x"),
        Err(DecodeError::DuplicateField(Field::Body))
    );
    assert_eq!(
        WhatsappMessage::decode(b"NumMedia=1&NumMedia=x"),
        Err(DecodeError::DuplicateField(Field::NumMedia))
    );
}

#[test]
fn unknown_names_are_passed_over() {
    let form = format!("SmsSid=SM1&{}&SmsStatus=received&SmsSid=again&body=lower", MINIMAL);
    let message = WhatsappMessage::decode(form.as_bytes()).unwrap();
    assert_eq!(message.body, "oi");
}

#[test]
fn names_and_values_are_percent_decoded() {
    let form = MINIMAL
        .replace("Body=oi", "%42ody=a%26b+c%3D%F0%9F%98%80")
        .replace("ProfileName=p", "ProfileName=");
    let message = WhatsappMessage::decode(form.as_bytes()).unwrap();
    assert_eq!(message.body, "a&b c=\u{1F600}");
    assert_eq!(message.profile_name, "");
}

#[test]
fn a_pair_without_an_equals_sign_has_an_empty_value() {
    let form = MINIMAL.replace("Body=oi", "Body");
    assert_eq!(WhatsappMessage::decode(form.as_bytes()).unwrap().body, "");
}

#[test]
fn from_pairs_reads_the_pairs_as_they_are() {
    let message = WhatsappMessage::from_pairs(&pairs(&[
        ("WaId", "w"),
        ("ProfileName", "p"),
        ("NumSegments", "1"),
        ("NumMedia", "0"),
        ("Body", "a+b%20c"),
        ("To", "t"),
        ("From", "f"),
        ("AccountSid", "a"),
        ("MessageSid", "m"),
        ("Forwarded", "false"),
    ]))
    .unwrap();
    assert_eq!(message.body, "a+b%20c");
    assert_eq!(message.message_sid, "m");
    assert!(!message.forwarded);
    assert_eq!(
        WhatsappMessage::from_pairs(&pairs(&[("Body", "x")])),
        Err(DecodeError::MissingField(Field::MessageSid))
    );
    assert_eq!(
        WhatsappMessage::from_pairs(&Vec::new()),
        Err(DecodeError::MissingField(Field::MessageSid))
    );
}

#[test]
fn fields_are_named_as_the_platform_names_them() {
    let all = [
        (Field::MessageSid, "MessageSid"),
        (Field::AccountSid, "AccountSid"),
        (Field::MessagingServiceSid, "MessagingServiceSid"),
        (Field::From, "From"),
        (Field::To, "To"),
        (Field::Body, "Body"),
        (Field::NumMedia, "NumMedia"),
        (Field::NumSegments, "NumSegments"),
        (Field::ProfileName, "ProfileName"),
        (Field::WaId, "WaId"),
        (Field::Forwarded, "Forwarded"),
        (Field::FrequentlyForwarded, "FrequentlyForwarded"),
        (Field::ButtonText, "ButtonText"),
    ];
    for (place, (field, name)) in all.iter().enumerate() {
        assert_eq!(field.name(), *name);
        assert_eq!(Field::from_name(name), Some(*field));
        assert_eq!(field.index(), place);
    }
    assert_eq!(Field::from_name("messagesid"), None);
    assert_eq!(Field::from_name("MessageSid "), None);
    assert_eq!(Field::from_name(""), None);
    assert!(Field::NumMedia.admits("12"));
    assert!(!Field::NumMedia.admits("twelve"));
    assert!(Field::Forwarded.admits("false"));
    assert!(!Field::Forwarded.admits("0"));
    assert!(Field::Body.admits(""));
}
