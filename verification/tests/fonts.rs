use icecube::buffer::Buffer;
use icecube::element::Element;
use icecube::font::BdfFont;
use icecube::font::Font;
use icecube::font::FontType;
use icecube::font::ImageFont;
use icecube::palette::BLUE_LIGHT;
use icecube::text::wrap_variable_width;
use icecube::text::Text;

/// A two-glyph BDF font built in memory: 'A' is 7 pixels wide, '?' is 5.
fn tiny_bdf() -> Vec<u8> {
    let lines = [
        "STARTFONT 2.1",
        "FONT tiny",
        "SIZE 8 75 75",
        "FONTBOUNDINGBOX 8 8 0 0",
        "CHARS 2",
        "STARTCHAR A",
        "ENCODING 65",
        "SWIDTH 500 0",
        "DWIDTH 7 0",
        "BBX 7 8 0 0",
        "BITMAP",
        "7E",
        "82",
        "82",
        "FE",
        "82",
        "82",
        "82",
        "00",
        "ENDCHAR",
        "STARTCHAR question",
        "ENCODING 63",
        "SWIDTH 500 0",
        "DWIDTH 5 0",
        "BBX 5 6 0 0",
        "BITMAP",
        "70",
        "88",
        "10",
        "20",
        "00",
        "20",
        "ENDCHAR",
        "ENDFONT",
    ];
    let mut text = String::new();
    for line in lines.iter() {
        text.push_str(line);
        text.push('\n');
    }
    text.into_bytes()
}

/// The bytes of a 20x20 all-white 8-bit grayscale PNG.
fn white_png() -> Vec<u8> {
    vec![
        137, 80, 78, 71, 13, 10, 26, 10, 0, 0, 0, 13, 73, 72, 68, 82, 0, 0, 0, 20, 0, 0, 0, 20, 8,
        0, 0, 0, 0, 168, 226, 66, 209, 0, 0, 0, 17, 73, 68, 65, 84, 120, 156, 99, 248, 143, 5, 48,
        140, 10, 14, 38, 65, 0, 236, 158, 142, 128, 231, 85, 7, 106, 0, 0, 0, 0, 73, 69, 78, 68,
        174, 66, 96, 130,
    ]
}

#[test]
fn bdf_glyph_widths_come_from_the_font() {
    let font = BdfFont::parse(&tiny_bdf(), 8, 14).expect("valid font");
    // the glyph's bitmap width is its advance
    assert_eq!(font.glyph_width('A'), 7);
    // the space always uses the configured space width
    assert_eq!(font.glyph_width(' '), 8);
    // an unknown character falls back to the substitute glyph
    assert_eq!(font.glyph_width('Z'), 5);
    assert_eq!(font.height(), 14);
    assert_eq!(font.fallback_character(), '?');
}

#[test]
fn bdf_parse_rejects_garbage() {
    assert!(BdfFont::parse(b"not a font at all", 8, 14).is_none());
}

#[test]
fn bdf_draw_paints_the_bitmap() {
    let font = FontType::Bdf(BdfFont::parse(&tiny_bdf(), 8, 14).expect("valid font"));
    let mut buffer = Buffer { data: vec![0u8; 4 * 40 * 40], width: 40 };
    let advance = font.draw_character(&mut buffer, 0, 0, 'A');
    assert_eq!(advance, 7);
    assert_eq!(buffer.len(), 4 * 40 * 40);
    // some pixel of the glyph was painted in the highlight color
    let painted = buffer
        .data
        .chunks(4)
        .any(|p| p == BLUE_LIGHT);
    assert!(painted);
}

#[test]
fn image_font_metrics_and_drawing() {
    let font = ImageFont::oldschool(&white_png());
    assert_eq!(font.width(), 5);
    assert_eq!(font.height(), 7);
    assert_eq!(font.glyph_width('x'), 5);
    // '!' sits at sheet cell (1, 0), well inside the 20x20 white sheet, so
    // every cell pixel paints: the wrapper really decoded the image
    let mut buffer = Buffer { data: vec![0u8; 4 * 10 * 10], width: 10 };
    let font = FontType::Image(font);
    let advance = font.draw_character(&mut buffer, 0, 0, '!');
    assert_eq!(advance, 5);
    assert_eq!(&buffer.data[0..4], &BLUE_LIGHT);

    // with undecodable bytes the metrics hold and drawing paints nothing
    let empty = ImageFont::oldschool(b"junk");
    assert_eq!(empty.width(), 5);
    let mut buffer = Buffer { data: vec![0u8; 4 * 10 * 10], width: 10 };
    FontType::Image(empty).draw_character(&mut buffer, 0, 0, '!');
    assert!(buffer.data.iter().all(|b| *b == 0));
}

#[test]
fn mono_5_8_metrics() {
    let font = ImageFont::mono_5_8(&white_png());
    assert_eq!(font.width(), 4);
    assert_eq!(font.height(), 8);
}

#[test]
fn variable_width_wrap_uses_glyph_advances() {
    // with the 5x7 sheet font every glyph advances 5 pixels plus 1 of
    // padding: "ab cd" is two 12-pixel words and a 5-pixel space
    let font = FontType::Image(ImageFont::oldschool_metrics());
    assert_eq!(
        wrap_variable_width(&font, "ab cd", 1, 100),
        vec![(0, 0), (17, 0)]
    );
    assert_eq!(
        wrap_variable_width(&font, "ab cd", 1, 10),
        vec![(0, 0), (0, 1)]
    );
}

#[test]
fn text_wrap_reports_height() {
    let text = Text::new("ab cd".to_string());
    assert_eq!(<Text as Element<()>>::wrap(&text, 100), Some(8));
    assert_eq!(<Text as Element<()>>::wrap(&text, 10), Some(16));
    assert_eq!(<Text as Element<()>>::min_height(&text, 10), 16);
    assert_eq!(<Text as Element<()>>::min_width(&text), 0);
}

#[test]
fn text_draw_replays_the_wrap() {
    // drawing through a real sheet font paints glyph pixels inside the
    // region and preserves the buffer's shape
    let font = FontType::Image(ImageFont::oldschool(&white_png()));
    let text = Text::new("!!".to_string()).with_font(font);
    let mut buffer = Buffer { data: vec![0u8; 4 * 64 * 32], width: 64 };
    let region = icecube::layout::CalculatedLayout { x: 2, y: 3, w: 60, h: 20 };
    <Text as Element<()>>::draw(&text, &mut buffer, region);
    assert_eq!(buffer.len(), 4 * 64 * 32);
    let painted = buffer.data.chunks(4).any(|p| p == BLUE_LIGHT);
    assert!(painted);
}
