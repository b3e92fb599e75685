//! The emulator's settings: the instruction-set mode, the display colours and
//! the list of palettes to choose from, with the text formats in which they
//! are kept.

use vstd::prelude::*;
use vstd::string::StringExecFns;
use vstd::string::StrSliceExecFns;
use ini::Ini;
use crate::text::{
    chars_of, color_value, format_hex, hex_text, lemma_hex_round_trip, lemma_split_first,
    lemma_split_whole, parse_color, same_text, split, split_ranges,
};

verus! {

/// Which dialect of the instruction set to run.
#[derive(Clone, Copy, Debug, PartialEq, Eq, Structural)]
pub enum ProcessorMode {
    Chip8,
    SuperChip,
    XOChip,
}

/// A named pair of display colours.
#[derive(Clone, Debug)]
pub struct Palette {
    name: String,
    on_color: u32,
    off_color: u32,
}

/// What a palette holds.
pub struct PaletteView {
    pub name: Seq<char>,
    pub on_color: u32,
    pub off_color: u32,
}

impl View for Palette {
    type V = PaletteView;

    closed spec fn view(&self) -> PaletteView {
        PaletteView { name: self.name@, on_color: self.on_color, off_color: self.off_color }
    }
}

/// The settings.
pub struct Config {
    pub mode: ProcessorMode,
    pub on_color: u32,
    pub off_color: u32,
    palettes: Vec<Palette>,
}

/// What the settings hold.
pub struct ConfigView {
    pub mode: ProcessorMode,
    pub on_color: u32,
    pub off_color: u32,
    pub palettes: Seq<PaletteView>,
}

/// What a list of palettes holds.
pub open spec fn palettes_view(palettes: Seq<Palette>) -> Seq<PaletteView> {
    Seq::new(palettes.len(), |k: int| palettes[k]@)
}

impl View for Config {
    type V = ConfigView;

    closed spec fn view(&self) -> ConfigView {
        ConfigView {
            mode: self.mode,
            on_color: self.on_color,
            off_color: self.off_color,
            palettes: palettes_view(self.palettes@),
        }
    }
}

/// Why settings could not be taken over.
#[derive(Clone, Copy, Debug, PartialEq, Eq, Structural)]
pub enum ConfigError {
    /// The text is no INI document.
    Malformed,
    /// The value given for a colour is no hexadecimal number.
    InvalidColor,
}

/// The `key = value` pairs of the INI document `text`, in the order of the
/// document and whatever section they stand in, or `None` where `text` is no
/// INI document. This is what the `ini` crate reads from `text`; the
/// grammar is that crate's and is not restated here.
pub uninterp spec fn ini_settings(text: Seq<char>) -> Option<Seq<(Seq<char>, Seq<char>)>>;

/// What a list of pairs of strings holds.
pub open spec fn pairs_view(pairs: Seq<(String, String)>) -> Seq<(Seq<char>, Seq<char>)> {
    Seq::new(pairs.len(), |k: int| (pairs[k].0@, pairs[k].1@))
}

/// What a list of triples of strings holds.
pub open spec fn triples_view(triples: Seq<(String, String, String)>) -> Seq<
    (Seq<char>, Seq<char>, Seq<char>),
> {
    Seq::new(triples.len(), |k: int| (triples[k].0@, triples[k].1@, triples[k].2@))
}

/// Parses `text` with `Ini::load_from_str` and hands out the properties of
/// all sections in the order in which `Ini::iter` and `Properties::iter`
/// yield them. Taken on trust: that the outcome depends on `text` alone, so
/// that it can go by the name `ini_settings`. Nothing is claimed about which
/// pairs a given text holds.
#[verifier::external_body]
fn read_ini(text: &str) -> (settings: Option<Vec<(String, String)>>)
    ensures
        match settings {
            Some(pairs) => ini_settings(text@) == Some(pairs_view(pairs@)),
            None => ini_settings(text@) is None,
        },
{
    let document = Ini::load_from_str(text).ok()?;
    Some(
        document.iter().flat_map(|(_, properties)| properties.iter()).map(
            |(key, value)| (key.to_string(), value.to_string()),
        ).collect(),
    )
}

/// The mode that `name` stands for; an unknown name stands for `Chip8`.
pub open spec fn mode_named(name: Seq<char>) -> ProcessorMode {
    if name == "superchip"@ {
        ProcessorMode::SuperChip
    } else if name == "xochip"@ {
        ProcessorMode::XOChip
    } else {
        ProcessorMode::Chip8
    }
}

/// The name under which a mode is stored.
pub open spec fn mode_name(mode: ProcessorMode) -> Seq<char> {
    match mode {
        ProcessorMode::Chip8 => "chip-8"@,
        ProcessorMode::SuperChip => "superchip"@,
        ProcessorMode::XOChip => "xochip"@,
    }
}

/// The palette that one line of a palette list describes: a name, the colour
/// of lit pixels and the colour of dark pixels, separated by single spaces.
/// Whatever follows the third field is ignored. A line with fewer fields, or
/// with a colour that is no hexadecimal number, describes none.
pub open spec fn palette_of_line(line: Seq<char>) -> Option<PaletteView> {
    let fields = split(line, ' ');
    if fields.len() < 3 {
        None
    } else {
        match (color_value(fields[1]), color_value(fields[2])) {
            (Some(on_color), Some(off_color)) => Some(
                PaletteView { name: fields[0], on_color, off_color },
            ),
            _ => None,
        }
    }
}

/// The palettes that `lines` describe, in order.
pub open spec fn palettes_of_lines(lines: Seq<Seq<char>>) -> Seq<PaletteView>
    decreases lines.len(),
{
    if lines.len() == 0 {
        Seq::empty()
    } else {
        match palette_of_line(lines.last()) {
            Some(palette) => palettes_of_lines(lines.drop_last()).push(palette),
            None => palettes_of_lines(lines.drop_last()),
        }
    }
}

/// The palettes that a palette list describes, one per line.
pub open spec fn parsed_palettes(contents: Seq<char>) -> Seq<PaletteView> {
    palettes_of_lines(split(contents, '\n'))
}

/// The line that describes `palette` in a palette list.
pub open spec fn palette_line_text(palette: PaletteView) -> Seq<char> {
    palette.name + seq![' '] + hex_text(palette.on_color, true, 0) + seq![' '] + hex_text(
        palette.off_color,
        true,
        0,
    ) + seq!['\n']
}

/// The palette list that describes `palettes`: their lines, in order.
pub open spec fn palette_list_text(palettes: Seq<PaletteView>) -> Seq<char>
    decreases palettes.len(),
{
    if palettes.len() == 0 {
        Seq::empty()
    } else {
        palette_line_text(palettes[0]) + palette_list_text(palettes.skip(1))
    }
}

/// Whether a name can stand in a palette list: it holds neither a space nor
/// a line break.
pub open spec fn storable_name(name: Seq<char>) -> bool {
    forall|k: int| 0 <= k < name.len() ==> name[k] != ' ' && name[k] != '\n'
}

impl ConfigView {
    /// The settings after one `key = value` pair has been taken over, or
    /// `None` where the pair gives a colour that is no hexadecimal number.
    /// Keys other than `mode`, `on_color` and `off_color` change nothing.
    pub open spec fn with_setting(self, key: Seq<char>, value: Seq<char>) -> Option<ConfigView> {
        if key == "mode"@ {
            Some(ConfigView { mode: mode_named(value), ..self })
        } else if key == "on_color"@ {
            match color_value(value) {
                Some(on_color) => Some(ConfigView { on_color, ..self }),
                None => None,
            }
        } else if key == "off_color"@ {
            match color_value(value) {
                Some(off_color) => Some(ConfigView { off_color, ..self }),
                None => None,
            }
        } else {
            Some(self)
        }
    }

    /// The settings after every pair of `settings` has been taken over in
    /// order, or `None` where one of them cannot be.
    pub open spec fn with_settings(self, settings: Seq<(Seq<char>, Seq<char>)>) -> Option<
        ConfigView,
    >
        decreases settings.len(),
    {
        if settings.len() == 0 {
            Some(self)
        } else {
            match self.with_settings(settings.drop_last()) {
                Some(config) => config.with_setting(settings.last().0, settings.last().1),
                None => None,
            }
        }
    }
}

/// Once a beginning of `settings` cannot be taken over, neither can the
/// whole.
proof fn lemma_settings_fail(config: ConfigView, settings: Seq<(Seq<char>, Seq<char>)>, k: int)
    requires
        0 <= k <= settings.len(),
        config.with_settings(settings.take(k)) is None,
    ensures
        config.with_settings(settings) is None,
    decreases settings.len() - k,
{
    if k == settings.len() {
        assert(settings.take(k) =~= settings);
    } else {
        assert(settings.take(k + 1).drop_last() =~= settings.take(k));
        lemma_settings_fail(config, settings, k + 1);
    }
}

/// The section, key and value under which each setting is stored.
pub open spec fn stored_settings(config: ConfigView) -> Seq<(Seq<char>, Seq<char>, Seq<char>)> {
    seq![
        ("General"@, "mode"@, mode_name(config.mode)),
        ("Colors"@, "on_color"@, hex_text(config.on_color, false, 2)),
        ("Colors"@, "off_color"@, hex_text(config.off_color, false, 2)),
    ]
}

/// The palettes of a line followed by more lines are the palette of the
/// line, if it describes one, followed by the palettes of the rest.
proof fn lemma_palettes_of_first(line: Seq<char>, rest: Seq<Seq<char>>)
    ensures
        palettes_of_lines(seq![line] + rest) == match palette_of_line(line) {
            Some(palette) => seq![palette] + palettes_of_lines(rest),
            None => palettes_of_lines(rest),
        },
    decreases rest.len(),
{
    let lines = seq![line] + rest;
    if rest.len() == 0 {
        assert(palettes_of_lines(lines.drop_last()) =~= Seq::<PaletteView>::empty());
    } else {
        lemma_palettes_of_first(line, rest.drop_last());
        assert(lines.drop_last() =~= seq![line] + rest.drop_last());
    }
}

/// The line that `Palette::line` writes for a palette with a storable name
/// describes that palette.
pub proof fn lemma_palette_line_round_trip(palette: PaletteView)
    requires
        storable_name(palette.name),
    ensures
        palette_of_line(
            palette.name + seq![' '] + hex_text(palette.on_color, true, 0) + seq![' '] + hex_text(
                palette.off_color,
                true,
                0,
            ),
        ) == Some(palette),
{
    let on = hex_text(palette.on_color, true, 0);
    let off = hex_text(palette.off_color, true, 0);
    let line = palette.name + seq![' '] + on + seq![' '] + off;
    lemma_hex_round_trip(palette.on_color, true, 0);
    lemma_hex_round_trip(palette.off_color, true, 0);
    lemma_split_whole(off, ' ');
    lemma_split_first(on, ' ', off);
    lemma_split_first(palette.name, ' ', on + seq![' '] + off);
    assert(line =~= palette.name + seq![' '] + (on + seq![' '] + off));
}

/// A palette list written for palettes with storable names reads back as
/// the same palettes.
pub proof fn lemma_palette_list_round_trip(palettes: Seq<PaletteView>)
    requires
        forall|k: int| 0 <= k < palettes.len() ==> storable_name((#[trigger] palettes[k]).name),
    ensures
        parsed_palettes(palette_list_text(palettes)) == palettes,
    decreases palettes.len(),
{
    if palettes.len() == 0 {
        reveal_with_fuel(palettes_of_lines, 2);
        lemma_split_whole(Seq::<char>::empty(), '\n');
        lemma_split_whole(Seq::<char>::empty(), ' ');
    } else {
        let first = palettes[0];
        let rest = palettes.skip(1);
        let line = first.name + seq![' '] + hex_text(first.on_color, true, 0) + seq![' ']
            + hex_text(first.off_color, true, 0);
        lemma_palette_list_round_trip(rest);
        lemma_palette_line_round_trip(first);
        lemma_hex_round_trip(first.on_color, true, 0);
        lemma_hex_round_trip(first.off_color, true, 0);
        lemma_split_first(line, '\n', palette_list_text(rest));
        lemma_palettes_of_first(line, split(palette_list_text(rest), '\n'));
    }
}

/// The stored settings, taken over as `key = value` pairs, give back the
/// mode and the colours that were stored.
pub proof fn lemma_settings_round_trip(stored: ConfigView, onto: ConfigView)
    ensures
        onto.with_settings(
            seq![
                (stored_settings(stored)[0].1, stored_settings(stored)[0].2),
                (stored_settings(stored)[1].1, stored_settings(stored)[1].2),
                (stored_settings(stored)[2].1, stored_settings(stored)[2].2),
            ],
        ) == Some(
            ConfigView {
                mode: stored.mode,
                on_color: stored.on_color,
                off_color: stored.off_color,
                ..onto
            },
        ),
{
    reveal_strlit("mode");
    reveal_strlit("on_color");
    reveal_strlit("off_color");
    reveal_strlit("chip-8");
    reveal_strlit("superchip");
    reveal_strlit("xochip");
    reveal_with_fuel(ConfigView::with_settings, 4);
    lemma_hex_round_trip(stored.on_color, false, 2);
    lemma_hex_round_trip(stored.off_color, false, 2);
    assert("mode"@.len() == 4 && "on_color"@.len() == 8 && "off_color"@.len() == 9);
}

impl ProcessorMode {
    /// The name under which the mode is stored.
    pub fn name(&self) -> (name: &'static str)
        ensures
            name@ == mode_name(*self),
    {
        match self {
            ProcessorMode::Chip8 => "chip-8",
            ProcessorMode::SuperChip => "superchip",
            ProcessorMode::XOChip => "xochip",
        }
    }

    /// The mode stored under `name`; an unknown name gives `Chip8`.
    pub fn from_name(name: &str) -> (mode: ProcessorMode)
        ensures
            mode == mode_named(name@),
    {
        if same_text(name, "superchip") {
            ProcessorMode::SuperChip
        } else if same_text(name, "xochip") {
            ProcessorMode::XOChip
        } else {
            ProcessorMode::Chip8
        }
    }
}

impl Palette {
    /// A palette called `name` that shows lit pixels in `on_color` and dark
    /// pixels in `off_color`.
    pub fn new(name: String, on_color: u32, off_color: u32) -> (palette: Palette)
        ensures
            palette@ == (PaletteView { name: name@, on_color, off_color }),
    {
        Palette { name, on_color, off_color }
    }

    /// The palette's name.
    pub fn get_name(&self) -> (name: &str)
        ensures
            name@ == self@.name,
    {
        self.name.as_str()
    }

    /// The colours of lit and of dark pixels, in that order.
    pub fn get_colors(&self) -> (colors: (u32, u32))
        ensures
            colors == (self@.on_color, self@.off_color),
    {
        (self.on_color, self.off_color)
    }

    /// The palette's name as menus show it.
    pub fn label(&self) -> (label: String)
        ensures
            label@ == label_text(self@.name),
    {
        proof {
            reveal_strlit(" ");
        }
        let name: &str = self.name.as_str();
        let chars: Vec<char> = chars_of(name);
        let mut label: String = String::new();
        let mut k: usize = 0;
        while k < chars.len()
            invariant
                k <= chars@.len(),
                chars@ == name@,
                name@ == self@.name,
                " "@ == seq![' '],
                label@ == label_text(self@.name).take(k as int),
            decreases chars@.len() - k,
        {
            if chars[k] == '_' {
                label.append(" ");
            } else {
                label.append(name.substring_char(k, k + 1));
            }
            k += 1;
        }
        label
    }

    /// A palette with the same name and colours.
    pub fn duplicate(&self) -> (copy: Palette)
        ensures
            copy@ == self@,
    {
        Palette { name: self.name.clone(), on_color: self.on_color, off_color: self.off_color }
    }

    /// The line that describes the palette in a palette list.
    pub fn line(&self) -> (line: String)
        ensures
            line@ == palette_line_text(self@),
    {
        proof {
            reveal_strlit(" ");
            reveal_strlit("\n");
        }
        let mut line: String = self.name.clone();
        line.append(" ");
        line.append(format_hex(self.on_color, true, 0).as_str());
        line.append(" ");
        line.append(format_hex(self.off_color, true, 0).as_str());
        line.append("\n");
        line
    }
}

/// A palette's name as menus show it: with a space for every underscore,
/// since a stored name cannot hold a space.
pub open spec fn label_text(name: Seq<char>) -> Seq<char> {
    Seq::new(
        name.len(),
        |k: int|
            if name[k] == '_' {
                ' '
            } else {
                name[k]
            },
    )
}

/// The palettes that come built in.
pub open spec fn default_palettes() -> Seq<PaletteView> {
    seq![
        PaletteView { name: "Matrix"@, on_color: 0x00FF00, off_color: 0x0 },
        PaletteView { name: "Neon"@, on_color: 0x00FFEC, off_color: 0xD600FF },
        PaletteView { name: "Chill"@, on_color: 0xF0F6F0, off_color: 0x222323 },
    ]
}

/// Writes the palette list that describes `palettes`: one line for each, in
/// order.
pub fn palette_list(palettes: &Vec<Palette>) -> (text: String)
    ensures
        text@ == palette_list_text(palettes_view(palettes@)),
{
    let ghost all = palettes_view(palettes@);
    let mut text: String = String::new();
    let mut k: usize = 0;
    assert(all.skip(0) =~= all);
    while k < palettes.len()
        invariant
            k <= palettes@.len(),
            all == palettes_view(palettes@),
            palette_list_text(all) == text@ + palette_list_text(all.skip(k as int)),
        decreases palettes@.len() - k,
    {
        let line: String = palettes[k].line();
        assert(all.skip(k as int).skip(1) =~= all.skip(k + 1));
        text.append(line.as_str());
        k += 1;
    }
    text
}

/// Reads a palette list: one palette per line, as a name and two
/// hexadecimal colours separated by single spaces. Lines that do not
/// describe a palette are passed over.
pub fn parse_palettes(contents: &str) -> (palettes: Vec<Palette>)
    ensures
        palettes_view(palettes@) == parsed_palettes(contents@),
{
    let chars: Vec<char> = chars_of(contents);
    let lines: Vec<(usize, usize)> = split_ranges(&chars, 0, chars.len(), '\n');
    let ghost all_lines = split(contents@, '\n');
    assert(chars@.subrange(0, chars@.len() as int) =~= contents@);
    let mut palettes: Vec<Palette> = Vec::new();
    let mut l: usize = 0;
    while l < lines.len()
        invariant
            l <= lines@.len() == all_lines.len(),
            chars@ == contents@,
            all_lines == split(contents@, '\n'),
            forall|k: int|
                0 <= k < lines@.len() ==> (#[trigger] lines@[k]).0 <= lines@[k].1 <= chars@.len()
                    && chars@.subrange(lines@[k].0 as int, lines@[k].1 as int) == all_lines[k],
            palettes_view(palettes@) == palettes_of_lines(all_lines.take(l as int)),
        decreases lines@.len() - l,
    {
        let from: usize = lines[l].0;
        let to: usize = lines[l].1;
        let fields: Vec<(usize, usize)> = split_ranges(&chars, from, to, ' ');
        assert(all_lines.take(l + 1).drop_last() =~= all_lines.take(l as int));
        if fields.len() >= 3 {
            let on_color: Option<u32> = parse_color(&chars, fields[1].0, fields[1].1);
            let off_color: Option<u32> = parse_color(&chars, fields[2].0, fields[2].1);
            if let (Some(on_color), Some(off_color)) = (on_color, off_color) {
                let name: &str = contents.substring_char(fields[0].0, fields[0].1);
                palettes.push(Palette::new(String::from_str(name), on_color, off_color));
            }
        }
        l += 1;
    }
    assert(all_lines.take(l as int) =~= all_lines);
    palettes
}

impl Config {
    /// The settings to start from: the base instruction set, green on
    /// black, and the built-in palettes.
    pub fn new() -> (config: Config)
        ensures
            config@ == (ConfigView {
                mode: ProcessorMode::Chip8,
                on_color: 0x00FF00,
                off_color: 0x0,
                palettes: default_palettes(),
            }),
    {
        let mut palettes: Vec<Palette> = Vec::new();
        palettes.push(Palette::new(String::from_str("Matrix"), 0x00FF00, 0x0));
        palettes.push(Palette::new(String::from_str("Neon"), 0x00FFEC, 0xD600FF));
        palettes.push(Palette::new(String::from_str("Chill"), 0xF0F6F0, 0x222323));
        assert(palettes_view(palettes@) =~= default_palettes());
        Config { mode: ProcessorMode::Chip8, on_color: 0x00FF00, off_color: 0x0, palettes }
    }

    /// The palettes to choose from.
    pub fn get_palettes(&self) -> (palettes: &Vec<Palette>)
        ensures
            palettes_view(palettes@) == self@.palettes,
    {
        &self.palettes
    }

    /// Replaces the palettes to choose from.
    pub fn set_palettes(&mut self, palettes: Vec<Palette>)
        ensures
            final(self)@ == (ConfigView { palettes: palettes_view(palettes@), ..old(self)@ }),
    {
        self.palettes = palettes;
    }

    /// Takes over one `key = value` pair: `mode` names the instruction-set
    /// mode, `on_color` and `off_color` give the display colours in
    /// hexadecimal, any other key is ignored. A colour that cannot be read
    /// is an error and changes nothing.
    pub fn apply_setting(&mut self, key: &str, value: &str) -> (outcome: Result<(), ConfigError>)
        ensures
            match outcome {
                Ok(()) => old(self)@.with_setting(key@, value@) == Some(final(self)@),
                Err(error) => old(self)@.with_setting(key@, value@) is None && error
                    == ConfigError::InvalidColor && final(self)@ == old(self)@,
            },
    {
        if same_text(key, "mode") {
            self.mode = ProcessorMode::from_name(value);
        } else if same_text(key, "on_color") {
            let chars: Vec<char> = chars_of(value);
            assert(chars@.subrange(0, chars@.len() as int) =~= value@);
            match parse_color(&chars, 0, chars.len()) {
                Some(color) => {
                    self.on_color = color;
                },
                None => {
                    return Err(ConfigError::InvalidColor);
                },
            }
        } else if same_text(key, "off_color") {
            let chars: Vec<char> = chars_of(value);
            assert(chars@.subrange(0, chars@.len() as int) =~= value@);
            match parse_color(&chars, 0, chars.len()) {
                Some(color) => {
                    self.off_color = color;
                },
                None => {
                    return Err(ConfigError::InvalidColor);
                },
            }
        }
        Ok(())
    }

    /// Takes over `key = value` pairs in order. If one of them cannot be
    /// taken over, that is an error and nothing changes.
    pub fn apply_settings(&mut self, settings: &Vec<(String, String)>) -> (outcome: Result<
        (),
        ConfigError,
    >)
        ensures
            match outcome {
                Ok(()) => old(self)@.with_settings(pairs_view(settings@)) == Some(final(self)@),
                Err(error) => old(self)@.with_settings(pairs_view(settings@)) is None && error
                    == ConfigError::InvalidColor && final(self)@ == old(self)@,
            },
    {
        let mode: ProcessorMode = self.mode;
        let on_color: u32 = self.on_color;
        let off_color: u32 = self.off_color;
        let ghost pairs = pairs_view(settings@);
        let mut k: usize = 0;
        while k < settings.len()
            invariant
                k <= settings@.len(),
                pairs == pairs_view(settings@),
                old(self)@.with_settings(pairs.take(k as int)) == Some(self@),
                self@.palettes == old(self)@.palettes,
                mode == old(self)@.mode,
                on_color == old(self)@.on_color,
                off_color == old(self)@.off_color,
            decreases settings@.len() - k,
        {
            assert(pairs.take(k + 1).drop_last() =~= pairs.take(k as int));
            let outcome = self.apply_setting(settings[k].0.as_str(), settings[k].1.as_str());
            if let Err(error) = outcome {
                proof {
                    lemma_settings_fail(old(self)@, pairs, k + 1);
                }
                self.mode = mode;
                self.on_color = on_color;
                self.off_color = off_color;
                return Err(error);
            }
            k += 1;
        }
        assert(pairs.take(k as int) =~= pairs);
        Ok(())
    }

    /// Takes over the settings of the INI document `text`, whatever section
    /// they stand in. If `text` is no INI document, or gives a colour that
    /// cannot be read, that is an error and nothing changes.
    pub fn apply_ini(&mut self, text: &str) -> (outcome: Result<(), ConfigError>)
        ensures
            match outcome {
                Ok(()) => ini_settings(text@) matches Some(settings) && old(self)@.with_settings(
                    settings,
                ) == Some(final(self)@),
                Err(error) => final(self)@ == old(self)@ && match ini_settings(text@) {
                    Some(settings) => error == ConfigError::InvalidColor && old(
                        self,
                    )@.with_settings(settings) is None,
                    None => error == ConfigError::Malformed,
                },
            },
    {
        match read_ini(text) {
            Some(settings) => self.apply_settings(&settings),
            None => Err(ConfigError::Malformed),
        }
    }

    /// The settings as they are stored: for each one its section, its key
    /// and its value, with colours in lower-case hexadecimal of at least
    /// two digits. The palettes are not part of this; they have a list of
    /// their own.
    pub fn settings(&self) -> (settings: Vec<(String, String, String)>)
        ensures
            triples_view(settings@) == stored_settings(self@),
    {
        let mut settings: Vec<(String, String, String)> = Vec::new();
        settings.push(
            (String::from_str("General"), String::from_str("mode"), String::from_str(self.mode.name())),
        );
        settings.push(
            (
                String::from_str("Colors"),
                String::from_str("on_color"),
                format_hex(self.on_color, false, 2),
            ),
        );
        settings.push(
            (
                String::from_str("Colors"),
                String::from_str("off_color"),
                format_hex(self.off_color, false, 2),
            ),
        );
        settings
    }
}

} // verus!
