use ustyle::{Attributes, Color, Span, Style, DESCRIPTOR_LEN, STYLE_LEN};

const FG: Color = Color::BrightCyan;
const BG: Color = Color::DarkGray;

fn attrs() -> Attributes {
    Attributes::all()
}

fn style() -> Style {
    Style::new(FG, BG, attrs())
}

#[test]
fn test_descriptor() {
    let desc = style().encode_desc_bytes();

    assert_eq!(desc, [FG.to_byte(), BG.to_byte(), attrs().to_byte()])
}

#[test]
fn test_encode() {
    let test = "Hello, World 123!";
    let test_out = "\x01\x20\u{4}\u{1f}Hello, World 123!\x02";

    let mut output = String::new();

    style().style_to(&mut output, test);

    assert_eq!(output.len(), test.len() + STYLE_LEN);
    assert_eq!(output.as_bytes(), test_out.as_bytes());
}

#[test]
fn test_encode_heap() {
    let test = "Hello, World 123!";
    let test_out = "\x01\x20\u{4}\u{1f}Hello, World 123!\x02";

    let string = style().style(test);

    assert_eq!(string.as_bytes(), test_out.as_bytes());
}

#[test]
fn test_decode() {
    let test =
        "\x01\x20\u{4}\u{1f}Hello, World 123!\x02\x01\x20\u{4}\u{1f}World, Hello 321?\x02";

    let out: Vec<Span> = vec![
        Span::new("Hello, World 123!".to_string(), style()),
        Span::new("World, Hello 321?".to_string(), style()),
    ];

    let decoded = Span::decode(test).unwrap();

    assert_eq!(decoded, out);
}

#[test]
fn descriptor_round_trip_on_extremes() {
    let styles = [
        Style::default(),
        style(),
        Style::new(Color::DarkerCyan, Color::NoColor, Attributes::from_bits(31).unwrap()),
        Style::new(Color::Gray, Color::DarkerCyan, Attributes::from_bits(0).unwrap()),
    ];
    for s in styles {
        let d = s.encode_desc_bytes();
        assert_eq!(d.len(), DESCRIPTOR_LEN);
        assert_eq!(Style::decode_desc_bytes(&d), Some(s));
    }
}

#[test]
fn descriptor_rejects_out_of_range_bytes() {
    assert_eq!(Style::decode_desc_bytes(&[36, 0, 0]), None);
    assert_eq!(Style::decode_desc_bytes(&[0, 36, 0]), None);
    assert_eq!(Style::decode_desc_bytes(&[0, 0, 32]), None);
    assert_eq!(Style::decode_desc_bytes(&[255, 255, 255]), None);
}

#[test]
fn descriptor_rejects_short_input() {
    assert_eq!(Style::decode_desc_bytes(&[]), None);
    assert_eq!(Style::decode_desc_bytes(&[1]), None);
    assert_eq!(Style::decode_desc_bytes(&[1, 2]), None);
}

#[test]
fn descriptor_accepts_bold_italic() {
    let s = Style::decode_desc_bytes(&[1, 2, 3]).unwrap();
    assert_eq!(s.foreground, Color::Gray);
    assert_eq!(s.background, Color::BrightGray);
    assert_eq!(s.attributes.to_byte(), Attributes::BOLD | Attributes::ITALIC);
    assert!(s.attributes.contains(Attributes::BOLD));
    assert!(s.attributes.contains(Attributes::ITALIC));
    assert!(!s.attributes.contains(Attributes::UNDERLINE));
}

#[test]
fn descriptor_from_str() {
    assert_eq!(Style::decode_desc("\x20\x04\x1f"), Some(style()));
    assert_eq!(Style::decode_desc("\x20\x04"), None);
    assert_eq!(Style::decode_desc("\x24\x04\x1f"), None);
}

#[test]
fn encode_desc_gives_characters() {
    assert_eq!(style().encode_desc(), ['\x20', '\x04', '\x1f']);
}

#[test]
fn decode_truncated_descriptor_fails() {
    assert_eq!(Span::decode("\x01\x20"), None);
}

#[test]
fn decode_unterminated_run_fails() {
    assert_eq!(Span::decode("\x01\x20\x04\x1fHello"), None);
}

#[test]
fn decode_mixed_content() {
    let spans = Span::decode("abc\x01\x20\x04\x1fHello\x02def").unwrap();
    assert_eq!(
        spans,
        vec![
            Span::new("abc".to_string(), Style::default()),
            Span::new("Hello".to_string(), style()),
            Span::new("def".to_string(), Style::default()),
        ]
    );
}

#[test]
fn encode_literal_bytes() {
    let out = style().style("Hello, World 123!");
    assert_eq!(out.as_bytes(), b"\x01\x20\x04\x1fHello, World 123!\x02");
}

#[test]
fn decode_empty_input() {
    assert_eq!(Span::decode(""), Some(vec![]));
}

#[test]
fn decode_empty_styled_run() {
    assert_eq!(
        Span::decode("\x01\x20\x04\x1f\x02"),
        Some(vec![Span::new(String::new(), style())])
    );
}

#[test]
fn decode_plain_text_only() {
    assert_eq!(
        Span::decode("just text, ünïcode too"),
        Some(vec![Span::new("just text, ünïcode too".to_string(), Style::default())])
    );
}

#[test]
fn decode_bad_descriptor_discards_earlier_spans() {
    assert_eq!(Span::decode("ok\x01\x20\x04\x1fa\x02x\x01\x24\x00\x00b\x02"), None);
    assert_eq!(Span::decode("\x01\x20\x04\x20a\x02"), None);
}

#[test]
fn decode_multibyte_in_descriptor_fails() {
    assert_eq!(Span::decode("\x01\x20é\x02"), None);
}

#[test]
fn decode_keeps_multibyte_text() {
    assert_eq!(
        Span::decode("\x01\x20\x04\x1fgrüße\x02"),
        Some(vec![Span::new("grüße".to_string(), style())])
    );
}

#[test]
fn decode_capacity_matches_decode() {
    let input = "a\x01\x01\x00\x00b\x02c";
    assert_eq!(Span::decode_capacity(input, 0), Span::decode(input));
    assert_eq!(Span::decode_capacity(input, 100).unwrap().len(), 3);
}

#[test]
fn span_round_trip() {
    let s = Style::new(Color::Red, Color::DarkerBlue, Attributes::from_bits(0b10101).unwrap());
    let text = "round trip: ü and ∑";
    let encoded = s.style(text);
    assert_eq!(encoded.len(), text.len() + STYLE_LEN);
    assert_eq!(Span::decode(&encoded), Some(vec![Span::new(text.to_string(), s)]));
}

#[test]
fn color_parse_bounds() {
    assert_eq!(Color::parse(0), Some(Color::NoColor));
    assert_eq!(Color::parse(35), Some(Color::DarkerCyan));
    assert_eq!(Color::parse(36), None);
    assert_eq!(Color::parse(255), None);
    for b in 0u8..=35 {
        assert_eq!(Color::parse(b).unwrap().to_byte(), b);
    }
}

#[test]
fn color_rgb_table() {
    assert_eq!(Color::NoColor.to_rgb(), None);
    assert_eq!(Color::BrighterGray.to_rgb(), Some((255, 255, 255)));
    assert_eq!(Color::DarkerGray.to_rgb(), Some((0, 0, 0)));
    assert_eq!(Color::BrighterPurple.to_rgb(), Some((224, 128, 224)));
    assert_eq!(Color::BrightCyan.to_rgb(), Some((64, 255, 255)));
}

#[test]
fn attributes_parse_bounds() {
    assert_eq!(Attributes::parse(31).map(|a| a.to_byte()), Some(31));
    assert_eq!(Attributes::parse(32), None);
    assert_eq!(Attributes::parse(0x80), None);
    assert_eq!(Attributes::empty().bits(), 0);
    assert_eq!(Attributes::default().bits(), 0);
    let bi = Attributes::from_bits(Attributes::BOLD)
        .unwrap()
        .union(Attributes::from_bits(Attributes::HIDDEN).unwrap());
    assert_eq!(bi.bits(), 17);
}

#[test]
fn style_builders() {
    let s = Style::default()
        .with_foreground(Color::Green)
        .with_background(Color::Blue)
        .with_attribute(Attributes::from_bits(Attributes::STRIKETHROUGH).unwrap());
    assert_eq!(s.foreground, Color::Green);
    assert_eq!(s.background, Color::Blue);
    assert_eq!(s.attributes.bits(), 8);
    assert_eq!(s.encode_desc_bytes(), [11, 21, 8]);
}

#[test]
fn span_builders() {
    let sp = Span::default().with_text("x".to_string()).with_style(style());
    assert_eq!(sp, Span::new("x".to_string(), style()));
    assert_ne!(sp, Span::new("y".to_string(), style()));
}
