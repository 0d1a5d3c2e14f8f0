//! What the output terminal can do, and the interface mode chosen from it.
use vstd::prelude::*;

verus! {

/// Capabilities of the output terminal, as detected by the caller.
#[derive(Debug, Clone, Copy, PartialEq, Eq, Structural)]
pub struct TerminalCapabilities {
    pub colors_supported: bool,
    pub cursor_control: bool,
    pub unicode_support: bool,
    pub width: u16,
    pub height: u16,
    pub supports_alternate_screen: bool,
}

/// How much of the interactive interface can be used.
#[derive(Debug, Clone, Copy, PartialEq, Eq, Structural)]
pub enum UIMode {
    /// Colors and cursor control.
    Full,
    /// Cursor control without colors.
    NoColor,
    /// Plain line reading.
    Simple,
}

impl TerminalCapabilities {
    /// What a stream that is not a terminal offers: no colors and no cursor control, on
    /// an assumed 80 by 24 screen.
    pub fn not_a_terminal() -> (r: Self)
        ensures
            !r.colors_supported,
            !r.cursor_control,
            r.unicode_support,
            r.width == 80,
            r.height == 24,
            !r.supports_alternate_screen,
    {
        TerminalCapabilities {
            colors_supported: false,
            cursor_control: false,
            unicode_support: true,
            width: 80,
            height: 24,
            supports_alternate_screen: false,
        }
    }

    /// What an interactive terminal of the given size offers.
    pub fn interactive(width: u16, height: u16) -> (r: Self)
        ensures
            r.colors_supported,
            r.cursor_control,
            r.unicode_support,
            r.width == width,
            r.height == height,
            !r.supports_alternate_screen,
    {
        TerminalCapabilities {
            colors_supported: true,
            cursor_control: true,
            unicode_support: true,
            width,
            height,
            supports_alternate_screen: false,
        }
    }

    /// Without cursor control only plain reading works; without colors the interface
    /// stays interactive but plain.
    pub fn fallback_ui(&self) -> (r: UIMode)
        ensures
            !self.cursor_control ==> r == UIMode::Simple,
            self.cursor_control && !self.colors_supported ==> r == UIMode::NoColor,
            self.cursor_control && self.colors_supported ==> r == UIMode::Full,
    {
        if !self.cursor_control {
            UIMode::Simple
        } else if !self.colors_supported {
            UIMode::NoColor
        } else {
            UIMode::Full
        }
    }
}

/// The output terminal's capabilities and whether raw mode is on.
#[derive(Debug)]
pub struct Terminal {
    capabilities: TerminalCapabilities,
    raw_mode: bool,
}

impl Terminal {
    pub closed spec fn caps(&self) -> TerminalCapabilities {
        self.capabilities
    }

    pub closed spec fn raw(&self) -> bool {
        self.raw_mode
    }

    pub fn new(capabilities: TerminalCapabilities) -> (r: Self)
        ensures
            r.caps() == capabilities,
            !r.raw(),
    {
        Terminal { capabilities, raw_mode: false }
    }

    pub fn capabilities(&self) -> (r: &TerminalCapabilities)
        ensures
            *r == self.caps(),
    {
        &self.capabilities
    }

    pub fn raw_mode(&self) -> (r: bool)
        ensures
            r == self.raw(),
    {
        self.raw_mode
    }

    /// Records that raw mode was entered or left.
    pub fn set_raw_mode(&mut self, on: bool)
        ensures
            final(self).raw() == on,
            final(self).caps() == old(self).caps(),
    {
        self.raw_mode = on;
    }
}

} // verus!
