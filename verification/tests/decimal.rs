use packetcomm::decimal::{parse_u32_text, u32_to_decimal};

#[test]
fn formats_ports_in_decimal() {
    assert_eq!(u32_to_decimal(0), "0");
    assert_eq!(u32_to_decimal(7), "7");
    assert_eq!(u32_to_decimal(10), "10");
    assert_eq!(u32_to_decimal(34527), "34527");
    assert_eq!(u32_to_decimal(u32::MAX), "4294967295");
}

#[test]
fn parses_like_str_parse() {
    for text in ["0", "7", "+12", "007", "34527", "4294967295", "4294967296", "", "+", "-1", " 1", "1 ", "12a", "++1"] {
        assert_eq!(parse_u32_text(text), text.parse::<u32>().ok(), "text {:?}", text);
    }
    assert_eq!(parse_u32_text("34527"), Some(34527));
    assert_eq!(parse_u32_text("4294967296"), None);
}

#[test]
fn formatting_then_parsing_gives_the_number_back() {
    for n in [0u32, 1, 9, 10, 99, 100, 65535, 34256, u32::MAX] {
        assert_eq!(parse_u32_text(&u32_to_decimal(n)), Some(n));
    }
}
