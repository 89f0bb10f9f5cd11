use vstd::prelude::*;

verus! {

/// How the terminal runs the shell.
#[derive(Debug, Clone)]
pub struct TerminalConfig {
    pub shell: String,
    pub scrollback_lines: usize,
    pub cursor_blink: bool,
}

/// Key bindings (none are configurable yet).
#[derive(Debug, Clone)]
pub struct KeybindingsConfig {}

#[derive(Debug, Clone)]
pub struct PerformanceConfig {
    pub gpu_acceleration: bool,
    pub vsync: bool,
}

/// Where a remote service is reached.
#[derive(Debug, Clone)]
pub struct ConnectionConfig {
    pub endpoint: String,
    pub api_key: String,
    pub timeout_sec: u64,
}

/// The colours of a theme, as `#rrggbb` text.
#[derive(Debug, Clone)]
pub struct ThemeColors {
    pub background: String,
    pub foreground: String,
    pub accent: String,
    pub error: String,
    pub success: String,
    pub warning: String,
}

/// Events of the application's own loop.
#[derive(Debug, Clone, Copy, PartialEq, Eq, Structural)]
pub enum Event {
    Quit,
}

} // verus!
