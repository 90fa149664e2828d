//! PTY requests.
use vstd::prelude::*;

verus! {

/// Terminal size in cells (and pixels, where known).
#[derive(Debug, Clone, Copy, PartialEq, Eq, Structural)]
pub struct PtySize {
    pub columns: u16,
    pub rows: u16,
    pub pixel_width: u16,
    pub pixel_height: u16,
}

/// The terminal type and size requested for a shell.
#[derive(Debug, PartialEq, Eq)]
pub struct PtyConfig {
    pub term: String,
    pub size: PtySize,
}

/// Default terminal columns.
pub const DEFAULT_PTY_COLUMNS: u16 = 80;

/// Default terminal rows.
pub const DEFAULT_PTY_ROWS: u16 = 24;

impl Default for PtyConfig {
    /// `xterm-256color` at the default size.
    fn default() -> (c: PtyConfig)
        ensures
            c.term@ == "xterm-256color"@,
            c.size == (PtySize {
                columns: DEFAULT_PTY_COLUMNS,
                rows: DEFAULT_PTY_ROWS,
                pixel_width: 0,
                pixel_height: 0,
            }),
    {
        PtyConfig {
            term: "xterm-256color".to_owned(),
            size: PtySize {
                columns: DEFAULT_PTY_COLUMNS,
                rows: DEFAULT_PTY_ROWS,
                pixel_width: 0,
                pixel_height: 0,
            },
        }
    }
}

impl Clone for PtyConfig {
    fn clone(&self) -> (c: PtyConfig)
        ensures
            c == *self,
    {
        PtyConfig { term: self.term.clone(), size: self.size }
    }
}

} // verus!
