use whatsapp_webhook::config::{BindAddress, ConfigError};
use whatsapp_webhook::decimal::{digit_of, parse_unsigned, push_decimal};
use whatsapp_webhook::text::{same_text, starts_with};

fn some(text: &str) -> Option<String> {
    Some(text.to_string())
}

#[test]
fn unset_settings_give_every_interface_and_port_8080() {
    let address = BindAddress::resolve(None, None).unwrap();
    assert_eq!(address, BindAddress { host: "0.0.0.0".to_string(), port: 8080 });
    assert_eq!(address.address(), "0.0.0.0:8080");
}

#[test]
fn set_settings_are_taken() {
    let address = BindAddress::resolve(some("127.0.0.1"), some("3000")).unwrap();
    assert_eq!(address.host, "127.0.0.1");
    assert_eq!(address.port, 3000);
    assert_eq!(address.address(), "127.0.0.1:3000");
    assert_eq!(BindAddress::resolve(some("localhost"), None).unwrap().address(), "localhost:8080");
    assert_eq!(BindAddress::resolve(None, some("0")).unwrap().address(), "0.0.0.0:0");
    assert_eq!(BindAddress::resolve(None, some("65535")).unwrap().port, 65535);
    assert_eq!(BindAddress::resolve(None, some("+80")).unwrap().port, 80);
    assert_eq!(BindAddress::resolve(None, some("00080")).unwrap().port, 80);
}

#[test]
fn a_port_that_is_no_16_bit_number_is_refused() {
    for bad in ["", "65536", "http", "-1", "80 ", " 80", "8_080", "80.0", "+", "0x50", "٨٠"] {
        assert_eq!(
            BindAddress::resolve(some("localhost"), some(bad)),
            Err(ConfigError::InvalidPort),
            "{:?}",
            bad
        );
    }
}

#[test]
fn unsigned_numbers_are_read_as_std_reads_them() {
    let samples = [
        "", "0", "1", "9", "10", "007", "+5", "+", "++5", "-5", "5+", "12a", "a12", " 12", "12 ",
        "65535", "65536", "4294967295", "4294967296", "99999999999999999999", "1_0", "１２",
        "00000000000000000000000000000000001",
    ];
    for text in samples {
        assert_eq!(parse_unsigned(text, u32::MAX), text.parse::<u32>().ok(), "{:?}", text);
        assert_eq!(
            parse_unsigned(text, 65535),
            text.parse::<u16>().ok().map(u32::from),
            "{:?}",
            text
        );
    }
    assert_eq!(parse_unsigned("10", 9), None);
    assert_eq!(parse_unsigned("9", 9), Some(9));
    assert_eq!(parse_unsigned("0", 0), Some(0));
}

#[test]
fn digits_have_their_values() {
    assert_eq!(digit_of('0'), Some(0));
    assert_eq!(digit_of('7'), Some(7));
    assert_eq!(digit_of('9'), Some(9));
    assert_eq!(digit_of('/'), None);
    assert_eq!(digit_of(':'), None);
    assert_eq!(digit_of('a'), None);
}

#[test]
fn numbers_are_written_in_base_ten() {
    for number in [0u32, 1, 9, 10, 99, 100, 8080, 65535, 4294967295] {
        let mut text = String::from("port ");
        push_decimal(&mut text, number);
        assert_eq!(text, format!("port {}", number));
    }
}

#[test]
fn prefixes_and_equal_texts_are_told() {
    assert!(starts_with("application/json", "application/"));
    assert!(starts_with("abc", ""));
    assert!(starts_with("", ""));
    assert!(starts_with("abc", "abc"));
    assert!(!starts_with("ab", "abc"));
    assert!(!starts_with("abd", "abc"));
    assert!(!starts_with("", "a"));
    assert!(starts_with("ção!", "çã"));
    assert!(same_text("Body", "Body"));
    assert!(same_text("", ""));
    assert!(!same_text("Body", "body"));
    assert!(!same_text("Body", "Bod"));
    assert!(!same_text("Bod", "Body"));
}
