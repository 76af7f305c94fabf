//! A terminal emulator's core: the grid of character cells with its scrollback,
//! the terminal that the application's control functions drive, the SGR style
//! grammar, the palette, and the keyboard that turns key presses into bytes.
pub mod colors;
pub mod keyboard;
pub mod term;
pub mod text;
