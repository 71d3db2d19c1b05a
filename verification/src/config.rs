//! The daemon's settings and the gestures it knows.

use vstd::prelude::*;

verus! {

/// A configured gesture: the gesture text that triggers it, whether it is
/// enabled, the executable it is limited to (matched as a substring of the
/// foreground application's path), and the actions it fires: a shell
/// command, text to paste, a key chord (such as `"Ctrl+Shift+T"`) with its
/// repetition, and a control name.
pub struct Gesture {
    pub trigger: String,
    pub enabled: bool,
    pub target_bin: Option<String>,
    pub command: Option<String>,
    pub text: Option<String>,
    pub keys: Option<String>,
    pub repeat_count: Option<u32>,
    pub repeat_interval: Option<u64>,
    pub control: Option<String>,
}

/// The settings that the gesture logic reads: the trail buffer's capacity,
/// the smoothing window, the (unused) sampling rate, whether diagonal
/// strokes count, whether diagnostics are printed, the interface language
/// and the gestures.
pub struct Config {
    pub buffer_size: usize,
    pub window_size: usize,
    pub sampling_rate: u32,
    pub allow_diagonal: bool,
    pub debug: bool,
    pub language: String,
    pub gestures: Vec<Gesture>,
}

/// The language used when the settings name none: `"en"`.
pub fn default_language() -> (s: String)
    ensures
        s@ == "en"@,
{
    String::from_str("en")
}

impl Config {
    /// The settings written when no settings file exists: a buffer of 1024
    /// points, a window of 10, straight strokes only, diagnostics on,
    /// English, no gestures.
    pub fn default_settings() -> (c: Config)
        ensures
            c.buffer_size == 1024,
            c.window_size == 10,
            c.sampling_rate == 0,
            !c.allow_diagonal,
            c.debug,
            c.language@ == "en"@,
            c.gestures@.len() == 0,
    {
        Config {
            buffer_size: 1024,
            window_size: 10,
            sampling_rate: 0,
            allow_diagonal: false,
            debug: true,
            language: default_language(),
            gestures: Vec::new(),
        }
    }

    /// How many trail points are kept.
    pub fn buffer_size(&self) -> (n: usize)
        ensures
            n == self.buffer_size,
    {
        self.buffer_size
    }

    /// The smoothing window, in points.
    pub fn window_size(&self) -> (n: usize)
        ensures
            n == self.window_size,
    {
        self.window_size
    }

    /// The sampling rate (no longer used).
    pub fn sample_rate(&self) -> (n: u32)
        ensures
            n == self.sampling_rate,
    {
        self.sampling_rate
    }

    /// Whether diagonal strokes count.
    pub fn allow_diagonal(&self) -> (b: bool)
        ensures
            b == self.allow_diagonal,
    {
        self.allow_diagonal
    }

    /// Whether diagnostics are printed.
    pub fn debug(&self) -> (b: bool)
        ensures
            b == self.debug,
    {
        self.debug
    }

    /// The configured gestures.
    pub fn gestures(&self) -> (g: &Vec<Gesture>)
        ensures
            g == &self.gestures,
    {
        &self.gestures
    }
}

} // verus!
