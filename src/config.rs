//! Configuration values and their defaults.

use vstd::prelude::*;
use crate::models::{path_join, join_path, config_dir};
use crate::text::{chars_of, lower_of, lowercase, same_chars};

verus! {

/// Which speech-recognition engine to use.
#[derive(Debug, Clone, Copy, PartialEq, Eq, Structural)]
pub enum Engine {
    Nemotron,
}

impl Default for Engine {
    fn default() -> (r: Self)
        ensures
            r == Engine::Nemotron,
    {
        Engine::Nemotron
    }
}

/// The audio source to capture from.
#[derive(Debug, Clone, PartialEq, Eq)]
pub enum AudioSource {
    /// The system-wide output monitor.
    SystemOutput,
    /// One application's output stream, by node id.
    Application { node_id: u32, node_name: String },
}

impl Default for AudioSource {
    fn default() -> (r: Self)
        ensures
            r is SystemOutput,
    {
        AudioSource::SystemOutput
    }
}

/// How the overlay window is placed.
#[derive(Debug, Clone, Copy, PartialEq, Eq, Structural)]
pub enum OverlayMode {
    /// Anchored to a screen edge.
    Docked,
    /// Freely positioned.
    Floating,
}

impl Default for OverlayMode {
    fn default() -> (r: Self)
        ensures
            r == OverlayMode::Docked,
    {
        OverlayMode::Docked
    }
}

/// The screen edge a docked overlay is anchored to.
#[derive(Debug, Clone, Copy, PartialEq, Eq, Structural)]
pub enum ScreenEdge {
    Top,
    Bottom,
    Left,
    Right,
}

impl Default for ScreenEdge {
    fn default() -> (r: Self)
        ensures
            r == ScreenEdge::Bottom,
    {
        ScreenEdge::Bottom
    }
}

/// Position of a floating overlay, in pixels.
#[derive(Debug, Clone, Copy, PartialEq, Eq, Structural)]
pub struct OverlayPosition {
    pub x: i32,
    pub y: i32,
}

impl Default for OverlayPosition {
    fn default() -> (r: Self)
        ensures
            r.x == 100 && r.y == 100,
    {
        OverlayPosition { x: 100, y: 100 }
    }
}

/// Where a docked overlay sits along its edge.
#[derive(Debug, Clone, Copy, PartialEq, Eq, Structural)]
pub enum DockPosition {
    /// Centred on the edge.
    Center,
    /// Stretched along the whole edge.
    Stretch,
    /// Offset from the start of the edge, in pixels.
    Offset(i32),
}

impl Default for DockPosition {
    fn default() -> (r: Self)
        ensures
            r == DockPosition::Center,
    {
        DockPosition::Center
    }
}

/// Default caption area width, in pixels.
pub fn default_width() -> (r: i32)
    ensures
        r == 600,
{
    600
}

/// Default idle time before a caption line expires, in seconds.
pub fn default_expire_secs() -> (r: u64)
    ensures
        r == 8,
{
    8
}

/// Whether a floating overlay starts locked (click-through).
pub fn default_locked() -> (r: bool)
    ensures
        r,
{
    true
}

/// Visual appearance of the overlay. The font size is kept in thousandths
/// of a point.
#[derive(Debug, Clone, PartialEq, Eq)]
pub struct AppearanceConfig {
    /// CSS colour of the background.
    pub background_color: String,
    /// CSS colour of the caption text.
    pub text_color: String,
    /// Font size in thousandths of a point.
    pub font_size_millipoints: u32,
    /// Most caption lines shown.
    pub max_lines: u32,
    /// Caption area width in pixels (0 = natural size).
    pub width: i32,
    /// Caption area height in pixels (0 = natural size).
    pub height: i32,
    /// Seconds before an idle caption line expires (0 = the default).
    pub expire_secs: u64,
}

impl Default for AppearanceConfig {
    fn default() -> (r: Self)
        ensures
            r.background_color@ == "rgba(0,0,0,0.7)"@,
            r.text_color@ == "#ffffff"@,
            r.font_size_millipoints == 16_000,
            r.max_lines == 3,
            r.width == 600,
            r.height == 0,
            r.expire_secs == 8,
    {
        AppearanceConfig {
            background_color: String::from_str("rgba(0,0,0,0.7)"),
            text_color: String::from_str("#ffffff"),
            font_size_millipoints: 16_000,
            max_lines: 3,
            width: default_width(),
            height: 0,
            expire_secs: default_expire_secs(),
        }
    }
}

impl AppearanceConfig {
    /// The idle time to use: the configured one, or the default when it is 0.
    pub fn effective_expire_secs(&self) -> (r: u64)
        ensures
            r == if self.expire_secs == 0 {
                8
            } else {
                self.expire_secs
            },
    {
        if self.expire_secs == 0 {
            default_expire_secs()
        } else {
            self.expire_secs
        }
    }
}

/// The engine a lowercased engine name selects: "nemotron", and its older
/// name "parakeet", select Nemotron; nothing else is known.
pub open spec fn engine_named(lower: Seq<char>) -> Option<Engine> {
    if lower == "nemotron"@ || lower == "parakeet"@ {
        Some(Engine::Nemotron)
    } else {
        None
    }
}

/// Root configuration.
#[derive(Debug, Clone)]
pub struct Config {
    pub engine: Engine,
    pub audio_source: AudioSource,
    pub overlay_mode: OverlayMode,
    pub screen_edge: ScreenEdge,
    pub position: OverlayPosition,
    pub locked: bool,
    pub dock_position: DockPosition,
    pub appearance: AppearanceConfig,
    /// The file this configuration was read from; saving writes there.
    pub config_file_path: Option<String>,
}

impl Default for Config {
    fn default() -> (r: Self)
        ensures
            r.engine == Engine::Nemotron,
            r.audio_source is SystemOutput,
            r.overlay_mode == OverlayMode::Docked,
            r.screen_edge == ScreenEdge::Bottom,
            r.position.x == 100 && r.position.y == 100,
            r.locked,
            r.dock_position == DockPosition::Center,
            r.appearance.expire_secs == 8,
            r.appearance.max_lines == 3,
            r.config_file_path is None,
    {
        Config {
            engine: Engine::default(),
            audio_source: AudioSource::default(),
            overlay_mode: OverlayMode::default(),
            screen_edge: ScreenEdge::default(),
            position: OverlayPosition::default(),
            locked: default_locked(),
            dock_position: DockPosition::default(),
            appearance: AppearanceConfig::default(),
            config_file_path: None,
        }
    }
}

/// The configuration file below a configuration directory `base`.
pub open spec fn config_file_in(base: Seq<char>) -> Seq<char> {
    path_join(path_join(base, "subtidal"@), "config.toml"@)
}

impl Config {
    /// The configuration file below the configuration directory `base`.
    pub fn config_path_in(base: &str) -> (r: String)
        ensures
            r@ == config_file_in(base@),
    {
        let dir = join_path(base, "subtidal");
        join_path(dir.as_str(), "config.toml")
    }

    /// The configuration file: `subtidal/config.toml` below the user's
    /// configuration directory, or below `.config` when there is none.
    pub fn config_path() -> (r: String)
        ensures
            exists|base: Seq<char>| r@ == config_file_in(base),
    {
        let base = match config_dir() {
            Some(d) => d,
            None => String::from_str(".config"),
        };
        Config::config_path_in(base.as_str())
    }

    /// The engine selected by a lowercased engine name.
    pub fn engine_from_lowercase(lower: &str) -> (r: Option<Engine>)
        ensures
            r == engine_named(lower@),
    {
        let l = chars_of(lower);
        let nemotron = chars_of("nemotron");
        let parakeet = chars_of("parakeet");
        if same_chars(&l, &nemotron) || same_chars(&l, &parakeet) {
            Some(Engine::Nemotron)
        } else {
            None
        }
    }

    /// The engine an engine name selects, ignoring case.
    pub fn parse_engine(engine_str: &str) -> (r: Option<Engine>)
        ensures
            r == engine_named(lower_of(engine_str@)),
    {
        let lower = lowercase(engine_str);
        Config::engine_from_lowercase(lower.as_str())
    }
}

} // verus!
