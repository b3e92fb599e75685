use chip8_emulator::config::{
    palette_list, parse_palettes, Config, ConfigError, Palette, ProcessorMode,
};
use chip8_emulator::text::{
    chars_of, format_hex, parse_color, parse_hex, same_text, split_ranges, strip_marks,
};

fn described(palettes: &Vec<Palette>) -> Vec<(String, u32, u32)> {
    palettes
        .iter()
        .map(|palette| {
            let (on_color, off_color) = palette.get_colors();
            (palette.get_name().to_string(), on_color, off_color)
        })
        .collect()
}

fn hex(text: &str) -> Option<u32> {
    parse_hex(&text.chars().collect())
}

fn color(text: &str) -> Option<u32> {
    let chars: Vec<char> = text.chars().collect();
    parse_color(&chars, 0, chars.len())
}

fn pieces(text: &str, separator: char) -> Vec<String> {
    let chars: Vec<char> = text.chars().collect();
    split_ranges(&chars, 0, chars.len(), separator)
        .iter()
        .map(|(from, to)| chars[*from..*to].iter().collect())
        .collect()
}

#[test]
fn default_settings() {
    let config = Config::new();
    assert_eq!(config.mode, ProcessorMode::Chip8);
    assert_eq!(config.on_color, 0x00FF00);
    assert_eq!(config.off_color, 0x0);
    assert_eq!(
        described(config.get_palettes()),
        vec![
            ("Matrix".to_string(), 0x00FF00, 0x0),
            ("Neon".to_string(), 0x00FFEC, 0xD600FF),
            ("Chill".to_string(), 0xF0F6F0, 0x222323),
        ]
    );
}

#[test]
fn palette_accessors() {
    let palette = Palette::new("Old_School".to_string(), 0x112233, 0x445566);
    assert_eq!(palette.get_name(), "Old_School");
    assert_eq!(palette.get_colors(), (0x112233, 0x445566));
    assert_eq!(palette.label(), "Old School");
    let copy = palette.duplicate();
    assert_eq!(copy.get_name(), "Old_School");
    assert_eq!(copy.get_colors(), (0x112233, 0x445566));
}

#[test]
fn palette_label_replaces_every_underscore() {
    assert_eq!(Palette::new("_a__b_".to_string(), 0, 0).label(), " a  b ");
    assert_eq!(Palette::new(String::new(), 0, 0).label(), "");
    assert_eq!(Palette::new("Grün_é".to_string(), 0, 0).label(), "Grün é");
}

#[test]
fn palette_line_is_name_and_upper_case_colors() {
    assert_eq!(Palette::new("Matrix".to_string(), 0x00FF00, 0x0).line(), "Matrix 0xFF00 0x0\n");
    assert_eq!(
        Palette::new("Neon".to_string(), 0x00FFEC, 0xD600FF).line(),
        "Neon 0xFFEC 0xD600FF\n"
    );
    assert_eq!(Palette::new("X".to_string(), 0xabcdef12, 0xA).line(), "X 0xABCDEF12 0xA\n");
}

#[test]
fn palette_list_is_read_line_by_line() {
    let palettes = parse_palettes("Matrix 0xFF00 0x0\nNeon 0xFFEC 0xD600FF\nChill 0xF0F6F0 0x222323\n");
    assert_eq!(
        described(&palettes),
        vec![
            ("Matrix".to_string(), 0xFF00, 0x0),
            ("Neon".to_string(), 0xFFEC, 0xD600FF),
            ("Chill".to_string(), 0xF0F6F0, 0x222323),
        ]
    );
}

#[test]
fn palette_list_passes_over_lines_it_cannot_read() {
    let palettes = parse_palettes(
        "\nonly_name\nname 0x1\nBad 0xZZ 0x0\nAlso 0x0 nope\nGood ff 0x10 trailing words\n  0x1 0x2\nTwo  0x1 0x2\nCr 1 2\r\nLast 0x0x7 +8",
    );
    assert_eq!(
        described(&palettes),
        vec![("Good".to_string(), 0xFF, 0x10), ("Last".to_string(), 0x7, 0x8)]
    );
}

#[test]
fn palette_list_of_nothing_is_empty() {
    assert!(parse_palettes("").is_empty());
    assert!(parse_palettes("\n\n").is_empty());
}

#[test]
fn palette_line_reads_back() {
    let palette = Palette::new("Round_Trip".to_string(), 0xC0FFEE, 0x0);
    let palettes = parse_palettes(&palette.line());
    assert_eq!(described(&palettes), vec![("Round_Trip".to_string(), 0xC0FFEE, 0x0)]);
}

#[test]
fn palette_list_is_written_line_by_line() {
    assert_eq!(
        palette_list(Config::new().get_palettes()),
        "Matrix 0xFF00 0x0\nNeon 0xFFEC 0xD600FF\nChill 0xF0F6F0 0x222323\n"
    );
    assert_eq!(palette_list(&Vec::new()), "");
}

#[test]
fn palette_list_reads_back() {
    let palettes = vec![
        Palette::new("Matrix".to_string(), 0x00FF00, 0x0),
        Palette::new("".to_string(), 0xFFFFFFFF, 0x1),
        Palette::new("Old_School".to_string(), 0xA, 0xABCDEF),
    ];
    assert_eq!(described(&parse_palettes(&palette_list(&palettes))), described(&palettes));
}

#[test]
fn split_keeps_empty_pieces() {
    assert_eq!(pieces("a b c", ' '), vec!["a", "b", "c"]);
    assert_eq!(pieces("", ' '), vec![""]);
    assert_eq!(pieces(" ", ' '), vec!["", ""]);
    assert_eq!(pieces("a  b ", ' '), vec!["a", "", "b", ""]);
    assert_eq!(pieces("one\ntwo\n", '\n'), vec!["one", "two", ""]);
    assert_eq!(pieces("no separator", '\n'), vec!["no separator"]);
}

#[test]
fn split_of_a_part() {
    let chars: Vec<char> = "ab,cd,ef".chars().collect();
    assert_eq!(split_ranges(&chars, 1, 7, ','), vec![(1, 2), (3, 5), (6, 7)]);
    assert_eq!(split_ranges(&chars, 3, 3, ','), vec![(3, 3)]);
}

#[test]
fn hexadecimal_numbers_are_read() {
    assert_eq!(hex("0"), Some(0));
    assert_eq!(hex("ff"), Some(255));
    assert_eq!(hex("FF"), Some(255));
    assert_eq!(hex("+1f"), Some(31));
    assert_eq!(hex("00000000000a"), Some(10));
    assert_eq!(hex("ffffffff"), Some(u32::MAX));
    assert_eq!(hex("AbCdEf"), Some(0xABCDEF));
}

#[test]
fn hexadecimal_numbers_are_refused() {
    assert_eq!(hex(""), None);
    assert_eq!(hex("+"), None);
    assert_eq!(hex("-1"), None);
    assert_eq!(hex("++1"), None);
    assert_eq!(hex("1+"), None);
    assert_eq!(hex("g"), None);
    assert_eq!(hex("12 "), None);
    assert_eq!(hex("0x12"), None);
    assert_eq!(hex("100000000"), None);
    assert_eq!(hex("fffffffff"), None);
    assert_eq!(hex("１"), None);
}

#[test]
fn hexadecimal_reading_agrees_with_the_standard_library() {
    for text in ["", "+", "+0", "7f", "+7F", "-7f", "ffffffff", "100000000", "0x1", "zz", "1_0", "a b"] {
        assert_eq!(hex(text), u32::from_str_radix(text, 16).ok());
    }
}

#[test]
fn colors_are_read_without_their_marks() {
    assert_eq!(color("0xFF00"), Some(0xFF00));
    assert_eq!(color("FF00"), Some(0xFF00));
    assert_eq!(color("0x0x10"), Some(0x10));
    assert_eq!(color("10x2"), Some(0x12));
    assert_eq!(color("00xx1"), None);
    assert_eq!(color("0x"), None);
    assert_eq!(color("0X10"), None);
    assert_eq!(color("x10"), None);
    assert_eq!(color("+0x5"), Some(5));
    assert_eq!(color("0x+5"), Some(5));
}

#[test]
fn color_reading_agrees_with_the_standard_library() {
    for text in ["0xFF00", "0x0x10", "10x2", "00xx1", "0x", "x0x", "000x", "0x0", "+0x0x", "0xx0"] {
        assert_eq!(color(text), u32::from_str_radix(&text.replace("0x", ""), 16).ok());
        let chars: Vec<char> = text.chars().collect();
        let stripped: String = strip_marks(&chars, 0, chars.len()).iter().collect();
        assert_eq!(stripped, text.replace("0x", ""));
    }
}

#[test]
fn color_in_a_part_of_a_line() {
    let chars: Vec<char> = "name 0x12 0x34".chars().collect();
    assert_eq!(parse_color(&chars, 5, 9), Some(0x12));
    assert_eq!(parse_color(&chars, 10, 14), Some(0x34));
    assert_eq!(parse_color(&chars, 0, 4), None);
    assert_eq!(parse_color(&chars, 4, 4), None);
}

#[test]
fn hexadecimal_numbers_are_written() {
    assert_eq!(format_hex(0, false, 2), "0x00");
    assert_eq!(format_hex(5, false, 2), "0x05");
    assert_eq!(format_hex(0xff00, false, 2), "0xff00");
    assert_eq!(format_hex(0xABCDEF, false, 2), "0xabcdef");
    assert_eq!(format_hex(0xABCDEF, true, 0), "0xABCDEF");
    assert_eq!(format_hex(0, true, 0), "0x0");
    assert_eq!(format_hex(u32::MAX, true, 0), "0xFFFFFFFF");
    assert_eq!(format_hex(0x1, false, 10), "0x0000000001");
    assert_eq!(format_hex(0x10, false, 1), "0x10");
}

#[test]
fn hexadecimal_writing_agrees_with_the_standard_library() {
    for value in [0u32, 1, 9, 10, 15, 16, 255, 256, 0xFF00, 0xD600FF, 0x12345678, u32::MAX] {
        assert_eq!(format_hex(value, false, 2), format!("{:#04x}", value));
        assert_eq!(format_hex(value, true, 0), format!("{:#02X}", value));
    }
}

#[test]
fn texts_are_compared_by_their_characters() {
    assert!(same_text("", ""));
    assert!(same_text("mode", "mode"));
    assert!(!same_text("mode", "modes"));
    assert!(!same_text("mode", "moda"));
    assert!(!same_text("mode", "Mode"));
    assert!(same_text("é", "é"));
    assert_eq!(chars_of("aé😀"), vec!['a', 'é', '😀']);
}

#[test]
fn mode_names() {
    assert_eq!(ProcessorMode::Chip8.name(), "chip-8");
    assert_eq!(ProcessorMode::SuperChip.name(), "superchip");
    assert_eq!(ProcessorMode::XOChip.name(), "xochip");
    assert_eq!(ProcessorMode::from_name("chip-8"), ProcessorMode::Chip8);
    assert_eq!(ProcessorMode::from_name("superchip"), ProcessorMode::SuperChip);
    assert_eq!(ProcessorMode::from_name("xochip"), ProcessorMode::XOChip);
    assert_eq!(ProcessorMode::from_name("SuperChip"), ProcessorMode::Chip8);
    assert_eq!(ProcessorMode::from_name(""), ProcessorMode::Chip8);
}

#[test]
fn single_settings_are_taken_over() {
    let mut config = Config::new();
    assert_eq!(config.apply_setting("mode", "xochip"), Ok(()));
    assert_eq!(config.mode, ProcessorMode::XOChip);
    assert_eq!(config.apply_setting("mode", "anything"), Ok(()));
    assert_eq!(config.mode, ProcessorMode::Chip8);
    assert_eq!(config.apply_setting("on_color", "0xff0000"), Ok(()));
    assert_eq!(config.apply_setting("off_color", "0000FF"), Ok(()));
    assert_eq!((config.on_color, config.off_color), (0xFF0000, 0x0000FF));
    assert_eq!(config.apply_setting("volume", "11"), Ok(()));
    assert_eq!((config.mode, config.on_color, config.off_color), (ProcessorMode::Chip8, 0xFF0000, 0xFF));
    assert_eq!(config.get_palettes().len(), 3);
}

#[test]
fn unreadable_color_is_an_error_and_changes_nothing() {
    let mut config = Config::new();
    assert_eq!(config.apply_setting("on_color", "green"), Err(ConfigError::InvalidColor));
    assert_eq!(config.apply_setting("off_color", ""), Err(ConfigError::InvalidColor));
    assert_eq!((config.on_color, config.off_color), (0x00FF00, 0x0));
    let settings = vec![
        ("mode".to_string(), "superchip".to_string()),
        ("on_color".to_string(), "0x123456".to_string()),
        ("off_color".to_string(), "0xGG".to_string()),
        ("mode".to_string(), "xochip".to_string()),
    ];
    assert_eq!(config.apply_settings(&settings), Err(ConfigError::InvalidColor));
    assert_eq!((config.mode, config.on_color, config.off_color), (ProcessorMode::Chip8, 0x00FF00, 0x0));
}

#[test]
fn settings_are_taken_over_in_order() {
    let mut config = Config::new();
    let settings = vec![
        ("mode".to_string(), "superchip".to_string()),
        ("on_color".to_string(), "0x111111".to_string()),
        ("mode".to_string(), "xochip".to_string()),
        ("on_color".to_string(), "0x222222".to_string()),
        ("off_color".to_string(), "0x333333".to_string()),
    ];
    assert_eq!(config.apply_settings(&settings), Ok(()));
    assert_eq!((config.mode, config.on_color, config.off_color), (ProcessorMode::XOChip, 0x222222, 0x333333));
    assert_eq!(config.apply_settings(&Vec::new()), Ok(()));
    assert_eq!((config.mode, config.on_color, config.off_color), (ProcessorMode::XOChip, 0x222222, 0x333333));
}

#[test]
fn ini_document_is_taken_over() {
    let mut config = Config::new();
    let text = "[General]\nmode=superchip\n\n[Colors]\non_color=0xff0000\noff_color=0x0000ff\n";
    assert_eq!(config.apply_ini(text), Ok(()));
    assert_eq!(config.mode, ProcessorMode::SuperChip);
    assert_eq!(config.on_color, 0xFF0000);
    assert_eq!(config.off_color, 0x0000FF);
}

#[test]
fn ini_document_without_sections_and_with_other_keys() {
    let mut config = Config::new();
    let text = "; settings\noff_color = 0x10\nunknown = 1\n[Other]\nmode = xochip\n";
    assert_eq!(config.apply_ini(text), Ok(()));
    assert_eq!(config.mode, ProcessorMode::XOChip);
    assert_eq!(config.on_color, 0x00FF00);
    assert_eq!(config.off_color, 0x10);
    assert_eq!(config.apply_ini(""), Ok(()));
    assert_eq!(config.mode, ProcessorMode::XOChip);
}

#[test]
fn ini_document_with_an_unreadable_color_changes_nothing() {
    let mut config = Config::new();
    let text = "[General]\nmode=superchip\n[Colors]\non_color=red\n";
    assert_eq!(config.apply_ini(text), Err(ConfigError::InvalidColor));
    assert_eq!(config.mode, ProcessorMode::Chip8);
    assert_eq!(config.on_color, 0x00FF00);
}

#[test]
fn text_that_is_no_ini_document_is_an_error() {
    let mut config = Config::new();
    assert_eq!(config.apply_ini("[General\nmode=superchip\n"), Err(ConfigError::Malformed));
    assert_eq!(config.mode, ProcessorMode::Chip8);
}

#[test]
fn stored_settings_name_section_key_and_value() {
    let mut config = Config::new();
    config.mode = ProcessorMode::SuperChip;
    config.on_color = 0xABCDEF;
    config.off_color = 0x5;
    let stored: Vec<(String, String, String)> = config.settings();
    assert_eq!(
        stored,
        vec![
            ("General".to_string(), "mode".to_string(), "superchip".to_string()),
            ("Colors".to_string(), "on_color".to_string(), "0xabcdef".to_string()),
            ("Colors".to_string(), "off_color".to_string(), "0x05".to_string()),
        ]
    );
}

#[test]
fn stored_settings_read_back() {
    let mut config = Config::new();
    config.mode = ProcessorMode::XOChip;
    config.on_color = 0x00FFEC;
    config.off_color = 0xD600FF;
    let mut text = String::new();
    let mut section = String::new();
    for (name, key, value) in config.settings() {
        if name != section {
            text.push_str(&format!("[{}]\n", name));
            section = name;
        }
        text.push_str(&format!("{}={}\n", key, value));
    }
    let mut read = Config::new();
    assert_eq!(read.apply_ini(&text), Ok(()));
    assert_eq!((read.mode, read.on_color, read.off_color), (ProcessorMode::XOChip, 0x00FFEC, 0xD600FF));
}

#[test]
fn palettes_can_be_replaced() {
    let mut config = Config::new();
    config.set_palettes(parse_palettes("Solo 0x1 0x2\n"));
    assert_eq!(described(config.get_palettes()), vec![("Solo".to_string(), 1, 2)]);
    config.set_palettes(Vec::new());
    assert!(config.get_palettes().is_empty());
    assert_eq!(config.mode, ProcessorMode::Chip8);
}
