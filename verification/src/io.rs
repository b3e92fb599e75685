//! The plain side of the front end: what the window shows and which menu
//! action is pending, kept apart from the window itself.

use vstd::prelude::*;
use crate::config::{label_text, palettes_view, Palette, PaletteView};
use crate::display::{
    blank_framebuffer, grid, lemma_rows_shaped, render, rendered, rows_shaped,
};

use crate::machine::blank_screen;

pub use crate::machine::{DISPLAY_HEIGHT, DISPLAY_WIDTH};

verus! {

/// Menu item: open a program file.
pub const MENU_OPEN_FILE_ID: usize = 0;

/// Menu item: reset the machine.
pub const MENU_RESET_ID: usize = 1;

/// Menu item: the base instruction set.
pub const MENU_MODE_CHIP8_ID: usize = 2;

/// Menu item: the SUPER-CHIP instruction set.
pub const MENU_MODE_SUPERCHIP_ID: usize = 3;

/// Menu item: the XO-CHIP instruction set.
pub const MENU_MODE_XOCHIP_ID: usize = 4;

/// Menu items from here on choose a palette: this one the first, the next
/// one the second, and so on.
pub const MENU_COLOR_BASE_ID: usize = 5;

/// Something the user asked for through the menu.
#[derive(Clone, Copy, Debug, PartialEq, Eq, Structural)]
pub enum MenuAction {
    /// Open a program file.
    OpenFile,
    /// Reset the machine.
    Reset,
    /// Show lit pixels in the first colour and dark pixels in the second.
    SetColors(u32, u32),
}

/// A key of the host keyboard that stands for a key of the keypad.
#[derive(Clone, Copy, Debug, PartialEq, Eq, Structural)]
pub enum HostKey {
    Key1,
    Key2,
    Key3,
    Key4,
    Q,
    W,
    E,
    R,
    A,
    S,
    D,
    F,
    Z,
    X,
    C,
    V,
}

/// The keypad key that a host key stands for. The four by four block of
/// host keys from `1` to `V` is laid out like the keypad, whose rows read
/// `1 2 3 C`, `4 5 6 D`, `7 8 9 E` and `A 0 B F`.
pub open spec fn keypad_index_of(key: HostKey) -> int {
    match key {
        HostKey::Key1 => 0x1,
        HostKey::Key2 => 0x2,
        HostKey::Key3 => 0x3,
        HostKey::Key4 => 0xC,
        HostKey::Q => 0x4,
        HostKey::W => 0x5,
        HostKey::E => 0x6,
        HostKey::R => 0xD,
        HostKey::A => 0x7,
        HostKey::S => 0x8,
        HostKey::D => 0x9,
        HostKey::F => 0xE,
        HostKey::Z => 0xA,
        HostKey::X => 0x0,
        HostKey::C => 0xB,
        HostKey::V => 0xF,
    }
}

/// The keypad key that a host key stands for.
pub fn keypad_index(key: HostKey) -> (index: usize)
    ensures
        index == keypad_index_of(key),
        index < 16,
{
    match key {
        HostKey::Key1 => 0x1,
        HostKey::Key2 => 0x2,
        HostKey::Key3 => 0x3,
        HostKey::Key4 => 0xC,
        HostKey::Q => 0x4,
        HostKey::W => 0x5,
        HostKey::E => 0x6,
        HostKey::R => 0xD,
        HostKey::A => 0x7,
        HostKey::S => 0x8,
        HostKey::D => 0x9,
        HostKey::F => 0xE,
        HostKey::Z => 0xA,
        HostKey::X => 0x0,
        HostKey::C => 0xB,
        HostKey::V => 0xF,
    }
}

/// The keypad snapshot for the host keys that are held down: a keypad key
/// is pressed exactly if some held host key stands for it.
pub fn keypad_snapshot(held: &Vec<HostKey>) -> (keys: [bool; 16])
    ensures
        forall|k: int|
            0 <= k < 16 ==> (#[trigger] keys@[k] <==> exists|h: int|
                0 <= h < held@.len() && keypad_index_of(#[trigger] held@[h]) == k),
{
    let mut keys: [bool; 16] = [false; 16];
    let mut h: usize = 0;
    while h < held.len()
        invariant
            h <= held@.len(),
            forall|k: int|
                0 <= k < 16 ==> (#[trigger] keys@[k] <==> exists|j: int|
                    0 <= j < h && keypad_index_of(#[trigger] held@[j]) == k),
        decreases held@.len() - h,
    {
        let index: usize = keypad_index(held[h]);
        keys[index] = true;
        h += 1;
    }
    keys
}

/// What the window shows and what the menu last asked for.
pub struct Screen {
    framebuffer: Vec<Vec<bool>>,
    on_color: u32,
    off_color: u32,
    current_menu_action: Option<MenuAction>,
    palettes: Vec<Palette>,
}

/// What a screen holds.
pub struct ScreenView {
    /// The pixels on show, row by row.
    pub pixels: Seq<Seq<bool>>,
    /// The colour of lit pixels.
    pub on_color: u32,
    /// The colour of dark pixels.
    pub off_color: u32,
    /// What the menu asked for when it was last looked at.
    pub menu_action: Option<MenuAction>,
    /// The palettes that the menu offers.
    pub palettes: Seq<PaletteView>,
}

impl View for Screen {
    type V = ScreenView;

    closed spec fn view(&self) -> ScreenView {
        ScreenView {
            pixels: grid(&self.framebuffer),
            on_color: self.on_color,
            off_color: self.off_color,
            menu_action: self.current_menu_action,
            palettes: palettes_view(self.palettes@),
        }
    }
}

impl ScreenView {
    /// The screen after the menu has been looked at; `pressed` is the item
    /// that was chosen since the last look, if one was. Opening a file and
    /// resetting become the pending action. A palette item makes its
    /// palette's colours the screen's colours and setting them the pending
    /// action; an item past the last palette clears the pending action. The
    /// mode items change nothing. With no item chosen, nothing is pending.
    pub open spec fn menu_looked_at(self, pressed: Option<usize>) -> ScreenView {
        match pressed {
            None => ScreenView { menu_action: None, ..self },
            Some(item) => if item == MENU_OPEN_FILE_ID {
                ScreenView { menu_action: Some(MenuAction::OpenFile), ..self }
            } else if item == MENU_RESET_ID {
                ScreenView { menu_action: Some(MenuAction::Reset), ..self }
            } else if item < MENU_COLOR_BASE_ID {
                self
            } else if item - MENU_COLOR_BASE_ID >= self.palettes.len() {
                ScreenView { menu_action: None, ..self }
            } else {
                let palette = self.palettes[item - MENU_COLOR_BASE_ID];
                ScreenView {
                    on_color: palette.on_color,
                    off_color: palette.off_color,
                    menu_action: Some(MenuAction::SetColors(palette.on_color, palette.off_color)),
                    ..self
                }
            },
        }
    }

    /// Whether `pressed` is the item of one of the palettes on offer.
    pub open spec fn chooses_palette(self, pressed: Option<usize>) -> bool {
        match pressed {
            Some(item) => MENU_COLOR_BASE_ID <= item < MENU_COLOR_BASE_ID + self.palettes.len(),
            None => false,
        }
    }

    /// The pixels after those of `other` have been copied over them.
    pub open spec fn overlaid(self, other: Seq<Seq<bool>>) -> Seq<Seq<bool>> {
        Seq::new(
            self.pixels.len(),
            |y: int|
                Seq::new(
                    self.pixels[y].len(),
                    |x: int|
                        if y < other.len() && x < other[y].len() {
                            other[y][x]
                        } else {
                            self.pixels[y][x]
                        },
                ),
        )
    }
}

impl Screen {
    /// The display has its fixed size.
    pub closed spec fn wf(&self) -> bool {
        rows_shaped(&self.framebuffer)
    }

    /// A dark screen with the given colours that offers `palettes` in its
    /// menu.
    pub fn new(on_color: u32, off_color: u32, palettes: &Vec<Palette>) -> (screen: Screen)
        ensures
            screen.wf(),
            screen@ == (ScreenView {
                pixels: blank_screen(),
                on_color,
                off_color,
                menu_action: None,
                palettes: palettes_view(palettes@),
            }),
    {
        let mut copies: Vec<Palette> = Vec::new();
        let mut k: usize = 0;
        while k < palettes.len()
            invariant
                k <= palettes@.len(),
                copies@.len() == k,
                forall|j: int| 0 <= j < k ==> (#[trigger] copies@[j])@ == palettes@[j]@,
            decreases palettes@.len() - k,
        {
            copies.push(palettes[k].duplicate());
            k += 1;
        }
        assert(palettes_view(copies@) =~= palettes_view(palettes@));
        let framebuffer: Vec<Vec<bool>> = blank_framebuffer();
        proof {
            lemma_rows_shaped(&framebuffer);
        }
        Screen { framebuffer, on_color, off_color, current_menu_action: None, palettes: copies }
    }

    /// Copies the pixels of `other` onto the screen. `other` may not be
    /// larger than the display.
    pub fn set_framebuffer(&mut self, other: &Vec<Vec<bool>>)
        requires
            old(self).wf(),
            other@.len() <= DISPLAY_HEIGHT,
            forall|y: int| 0 <= y < other@.len() ==> (#[trigger] other@[y])@.len() <= DISPLAY_WIDTH,
        ensures
            final(self).wf(),
            final(self)@ == (ScreenView {
                pixels: old(self)@.overlaid(grid(other)),
                ..old(self)@
            }),
    {
        let mut y: usize = 0;
        while y < other.len()
            invariant
                y <= other@.len() <= DISPLAY_HEIGHT,
                forall|r: int|
                    0 <= r < other@.len() ==> (#[trigger] other@[r])@.len() <= DISPLAY_WIDTH,
                rows_shaped(&self.framebuffer),
                rows_shaped(&old(self).framebuffer),
                self@ == (ScreenView { pixels: self@.pixels, ..old(self)@ }),
                forall|r: int, c: int|
                    0 <= r < DISPLAY_HEIGHT && 0 <= c < DISPLAY_WIDTH
                        ==> #[trigger] self.framebuffer@[r]@[c] == if r < y && c
                        < other@[r]@.len() {
                        other@[r]@[c]
                    } else {
                        old(self).framebuffer@[r]@[c]
                    },
            decreases other@.len() - y,
        {
            let mut x: usize = 0;
            while x < other[y].len()
                invariant
                    y < other@.len() <= DISPLAY_HEIGHT,
                    x <= other@[y as int]@.len() <= DISPLAY_WIDTH,
                    rows_shaped(&self.framebuffer),
                    rows_shaped(&old(self).framebuffer),
                    self@ == (ScreenView { pixels: self@.pixels, ..old(self)@ }),
                    forall|r: int, c: int|
                        0 <= r < DISPLAY_HEIGHT && 0 <= c < DISPLAY_WIDTH
                            ==> #[trigger] self.framebuffer@[r]@[c] == if (r < y && c
                            < other@[r]@.len()) || (r == y && c < x) {
                            other@[r]@[c]
                        } else {
                            old(self).framebuffer@[r]@[c]
                        },
                decreases other@[y as int]@.len() - x,
            {
                self.framebuffer[y][x] = other[y][x];
                x += 1;
            }
            y += 1;
        }
        assert(self@.pixels =~~= old(self)@.overlaid(grid(other)));
    }

    /// Looks at the menu; `pressed` is the item that was chosen since the
    /// last look, if one was. Returns the screen's new colours where the
    /// item chose a palette.
    pub fn handle_menu(&mut self, pressed: Option<usize>) -> (colors: Option<(u32, u32)>)
        requires
            old(self).wf(),
        ensures
            final(self).wf(),
            final(self)@ == old(self)@.menu_looked_at(pressed),
            colors == if old(self)@.chooses_palette(pressed) {
                Some((final(self)@.on_color, final(self)@.off_color))
            } else {
                None
            },
    {
        match pressed {
            None => {
                self.current_menu_action = None;
                None
            },
            Some(item) => {
                if item == MENU_OPEN_FILE_ID {
                    self.current_menu_action = Some(MenuAction::OpenFile);
                    None
                } else if item == MENU_RESET_ID {
                    self.current_menu_action = Some(MenuAction::Reset);
                    None
                } else if item < MENU_COLOR_BASE_ID {
                    None
                } else if item - MENU_COLOR_BASE_ID >= self.palettes.len() {
                    self.current_menu_action = None;
                    None
                } else {
                    let colors: (u32, u32) = self.palettes[item - MENU_COLOR_BASE_ID].get_colors();
                    self.on_color = colors.0;
                    self.off_color = colors.1;
                    self.current_menu_action = Some(MenuAction::SetColors(colors.0, colors.1));
                    Some(colors)
                }
            },
        }
    }

    /// What the menu asked for when it was last looked at.
    pub fn get_current_menu_action(&self) -> (action: &Option<MenuAction>)
        ensures
            *action == self@.menu_action,
    {
        &self.current_menu_action
    }

    /// The colours of lit and of dark pixels, in that order.
    pub fn colors(&self) -> (colors: (u32, u32))
        ensures
            colors == (self@.on_color, self@.off_color),
    {
        (self.on_color, self.off_color)
    }

    /// The colours of all pixels on show, row after row.
    pub fn buffer(&self) -> (buffer: Vec<u32>)
        ensures
            buffer@ == rendered(self@.pixels, self@.on_color, self@.off_color),
    {
        render(&self.framebuffer, self.on_color, self.off_color)
    }
}

/// The items of the palette menu: for each palette its label and its item
/// number, in order.
pub fn color_menu_items(palettes: &Vec<Palette>) -> (items: Vec<(String, usize)>)
    requires
        palettes@.len() + MENU_COLOR_BASE_ID <= usize::MAX,
    ensures
        items@.len() == palettes@.len(),
        forall|k: int|
            0 <= k < items@.len() ==> (#[trigger] items@[k]).0@ == label_text(
                palettes@[k]@.name,
            ) && items@[k].1 == MENU_COLOR_BASE_ID + k,
{
    let mut items: Vec<(String, usize)> = Vec::new();
    let mut k: usize = 0;
    while k < palettes.len()
        invariant
            k <= palettes@.len(),
            palettes@.len() + MENU_COLOR_BASE_ID <= usize::MAX,
            items@.len() == k,
            forall|j: int|
                0 <= j < k ==> (#[trigger] items@[j]).0@ == label_text(
                    palettes@[j]@.name,
                ) && items@[j].1 == MENU_COLOR_BASE_ID + j,
        decreases palettes@.len() - k,
    {
        items.push((palettes[k].label(), MENU_COLOR_BASE_ID + k));
        k += 1;
    }
    items
}

} // verus!
