//! Configuration sections that hold plain values: theme selection,
//! rendering backend, scrollback, inline graphics limits, shell, background
//! kind and effects, with their defaults and the checks applied to them.

use vstd::prelude::*;
use vstd::string::{StringExecFns, StrSliceExecFns};
use crate::shell::{lower_all, to_ascii_lowercase};
use crate::text::{decimal_chars, push_decimal_chars, same_chars};
use crate::ui::inline_image::ImageLimits;

verus! {

pub const CONFIG_FILE_NAME: &'static str = "knightty.config";
pub const DEFAULT_THEME_NAME: &'static str = "Catppuccin Mocha";
pub const DEFAULT_INITIAL_COLS: usize = 80;
pub const DEFAULT_INITIAL_ROWS: usize = 24;
pub const DEFAULT_SCROLLBACK_LINES: usize = 10_000;
pub const DEFAULT_SCROLL_MULTIPLIER: usize = 3;
pub const MAX_SCROLLBACK_LINES: usize = 100_000;
pub const MAX_SCROLL_MULTIPLIER: usize = 100;
pub const DEFAULT_GRAPHICS_MAX_ENCODED_BYTES: usize = 16 * 1024 * 1024;
pub const DEFAULT_GRAPHICS_MAX_DECODED_BYTES: usize = 128 * 1024 * 1024;
pub const DEFAULT_GRAPHICS_MAX_WIDTH: u32 = 8192;
pub const DEFAULT_GRAPHICS_MAX_HEIGHT: u32 = 8192;
pub const DEFAULT_GRAPHICS_MAX_PIXELS: u64 = 32_000_000;
pub const DEFAULT_GRAPHICS_MAX_IMAGES: usize = 128;
pub const DEFAULT_GRAPHICS_MAX_GPU_BYTES: usize = 256 * 1024 * 1024;

// ---------------------------------------------------------------------
// Theme.
// ---------------------------------------------------------------------

/// Light or dark appearance reported by the desktop.
#[derive(Clone, Copy, Debug, Eq, PartialEq, Structural)]
pub enum SystemAppearance {
    Light,
    Dark,
}

/// Which theme of a light/dark pair is used.
#[derive(Clone, Copy, Debug, Eq, PartialEq, Structural)]
pub enum ThemeMode {
    System,
    Light,
    Dark,
}

impl Default for ThemeMode {
    fn default() -> (m: Self)
        ensures
            m == ThemeMode::System,
    {
        ThemeMode::System
    }
}

impl ThemeMode {
    /// The mode a `theme.mode` value names: `system`, `light` or `dark`.
    pub fn from_config_value(value: &str) -> (r: Option<ThemeMode>)
        ensures
            r == (if value@ == "system"@ {
                Some(ThemeMode::System)
            } else if value@ == "light"@ {
                Some(ThemeMode::Light)
            } else if value@ == "dark"@ {
                Some(ThemeMode::Dark)
            } else {
                None::<ThemeMode>
            }),
    {
        if same_chars(value, "system") {
            Some(ThemeMode::System)
        } else if same_chars(value, "light") {
            Some(ThemeMode::Light)
        } else if same_chars(value, "dark") {
            Some(ThemeMode::Dark)
        } else {
            None
        }
    }
}

/// A light theme, a dark theme and the rule that picks one.
#[derive(Clone, Debug, Eq, PartialEq)]
pub struct ThemePairConfig {
    pub light: String,
    pub dark: String,
    pub mode: ThemeMode,
}

impl Default for ThemePairConfig {
    fn default() -> (p: Self)
        ensures
            p.light@ == "Catppuccin Latte"@,
            p.dark@ == "Catppuccin Mocha"@,
            p.mode == ThemeMode::System,
    {
        ThemePairConfig {
            light: "Catppuccin Latte".to_owned(),
            dark: "Catppuccin Mocha".to_owned(),
            mode: ThemeMode::System,
        }
    }
}

/// The `theme` setting: one theme name, or a light/dark pair.
#[derive(Clone, Debug, Eq, PartialEq)]
pub enum ThemeConfig {
    Name(String),
    Pair(ThemePairConfig),
}

impl Default for ThemeConfig {
    fn default() -> (t: Self)
        ensures
            t matches ThemeConfig::Name(name) && name@ == DEFAULT_THEME_NAME@,
    {
        ThemeConfig::Name(DEFAULT_THEME_NAME.to_owned())
    }
}

/// The theme name in effect: the single name, or the pair's light or dark
/// theme by its mode, where `System` follows the desktop.
pub open spec fn spec_effective_theme_name(theme: ThemeConfig, system: SystemAppearance) -> Seq<char> {
    match theme {
        ThemeConfig::Name(name) => name@,
        ThemeConfig::Pair(pair) => match pair.mode {
            ThemeMode::Light => pair.light@,
            ThemeMode::Dark => pair.dark@,
            ThemeMode::System => match system {
                SystemAppearance::Light => pair.light@,
                SystemAppearance::Dark => pair.dark@,
            },
        },
    }
}

impl ThemeConfig {
    pub fn effective_theme_name(&self, system: SystemAppearance) -> (r: Option<String>)
        ensures
            r matches Some(name) && name@ == spec_effective_theme_name(*self, system),
    {
        match self {
            ThemeConfig::Name(name) => Some(name.clone()),
            ThemeConfig::Pair(pair) => Some(match pair.mode {
                ThemeMode::Light => pair.light.clone(),
                ThemeMode::Dark => pair.dark.clone(),
                ThemeMode::System => match system {
                    SystemAppearance::Light => pair.light.clone(),
                    SystemAppearance::Dark => pair.dark.clone(),
                },
            }),
        }
    }
}

// ---------------------------------------------------------------------
// Plain sections.
// ---------------------------------------------------------------------

/// `[render]`: the requested wgpu backend.
#[derive(Clone, Debug, Eq, PartialEq)]
pub struct RenderConfig {
    pub wgpu_backend: Option<String>,
}

impl Default for RenderConfig {
    fn default() -> (c: Self)
        ensures
            c.wgpu_backend is None,
    {
        RenderConfig { wgpu_backend: None }
    }
}

/// `[terminal]`: scrollback size and wheel scroll multiplier.
#[derive(Clone, Copy, Debug, Eq, PartialEq, Structural)]
pub struct TerminalConfig {
    pub scrollback_lines: Option<usize>,
    pub scroll_multiplier: Option<usize>,
}

impl Default for TerminalConfig {
    fn default() -> (c: Self)
        ensures
            c == (TerminalConfig { scrollback_lines: None, scroll_multiplier: None }),
    {
        TerminalConfig { scrollback_lines: None, scroll_multiplier: None }
    }
}

/// `[graphics]`: whether inline images are shown, and their limits.
#[derive(Clone, Copy, Debug, Eq, PartialEq, Structural)]
pub struct GraphicsConfig {
    pub enabled: bool,
    pub max_encoded_bytes: usize,
    pub max_decoded_bytes: usize,
    pub max_width: u32,
    pub max_height: u32,
    pub max_pixels: u64,
    pub max_images: usize,
    pub max_gpu_bytes: usize,
}

impl Default for GraphicsConfig {
    fn default() -> (c: Self)
        ensures
            c == (GraphicsConfig {
                enabled: true,
                max_encoded_bytes: DEFAULT_GRAPHICS_MAX_ENCODED_BYTES,
                max_decoded_bytes: DEFAULT_GRAPHICS_MAX_DECODED_BYTES,
                max_width: DEFAULT_GRAPHICS_MAX_WIDTH,
                max_height: DEFAULT_GRAPHICS_MAX_HEIGHT,
                max_pixels: DEFAULT_GRAPHICS_MAX_PIXELS,
                max_images: DEFAULT_GRAPHICS_MAX_IMAGES,
                max_gpu_bytes: DEFAULT_GRAPHICS_MAX_GPU_BYTES,
            }),
    {
        GraphicsConfig {
            enabled: true,
            max_encoded_bytes: DEFAULT_GRAPHICS_MAX_ENCODED_BYTES,
            max_decoded_bytes: DEFAULT_GRAPHICS_MAX_DECODED_BYTES,
            max_width: DEFAULT_GRAPHICS_MAX_WIDTH,
            max_height: DEFAULT_GRAPHICS_MAX_HEIGHT,
            max_pixels: DEFAULT_GRAPHICS_MAX_PIXELS,
            max_images: DEFAULT_GRAPHICS_MAX_IMAGES,
            max_gpu_bytes: DEFAULT_GRAPHICS_MAX_GPU_BYTES,
        }
    }
}

/// The image limits a graphics section sets.
pub open spec fn spec_image_limits(config: GraphicsConfig) -> ImageLimits {
    ImageLimits {
        max_encoded_bytes: config.max_encoded_bytes,
        max_decoded_bytes: config.max_decoded_bytes,
        max_width: config.max_width,
        max_height: config.max_height,
        max_pixels: config.max_pixels,
        max_images: config.max_images,
        max_gpu_bytes: config.max_gpu_bytes,
    }
}

impl ImageLimits {
    /// The limits of a graphics section.
    pub fn from_graphics(config: &GraphicsConfig) -> (r: ImageLimits)
        ensures
            r == spec_image_limits(*config),
    {
        ImageLimits {
            max_encoded_bytes: config.max_encoded_bytes,
            max_decoded_bytes: config.max_decoded_bytes,
            max_width: config.max_width,
            max_height: config.max_height,
            max_pixels: config.max_pixels,
            max_images: config.max_images,
            max_gpu_bytes: config.max_gpu_bytes,
        }
    }
}

/// `[shell]`: the program started in the PTY and its arguments.
#[derive(Clone, Debug, Eq, PartialEq)]
pub struct ShellConfig {
    pub program: Option<String>,
    pub args: Vec<String>,
}

impl Default for ShellConfig {
    fn default() -> (c: Self)
        ensures
            c.program is None,
            c.args@.len() == 0,
    {
        ShellConfig { program: None, args: Vec::new() }
    }
}

/// `background.kind`.
#[derive(Clone, Copy, Debug, Eq, PartialEq, Structural)]
pub enum BackgroundKindConfig {
    Solid,
    Gradient,
    Image,
}

impl BackgroundKindConfig {
    /// The kind a `background.kind` value names: `solid`, `gradient` or
    /// `image`.
    pub fn from_config_value(value: &str) -> (r: Option<BackgroundKindConfig>)
        ensures
            r == (if value@ == "solid"@ {
                Some(BackgroundKindConfig::Solid)
            } else if value@ == "gradient"@ {
                Some(BackgroundKindConfig::Gradient)
            } else if value@ == "image"@ {
                Some(BackgroundKindConfig::Image)
            } else {
                None::<BackgroundKindConfig>
            }),
    {
        if same_chars(value, "solid") {
            Some(BackgroundKindConfig::Solid)
        } else if same_chars(value, "gradient") {
            Some(BackgroundKindConfig::Gradient)
        } else if same_chars(value, "image") {
            Some(BackgroundKindConfig::Image)
        } else {
            None
        }
    }
}

/// `[effects]`: post-processing switches.
#[derive(Clone, Copy, Debug, Eq, PartialEq, Structural)]
pub struct EffectsConfig {
    pub retro_crt: bool,
    pub scanlines: bool,
}

impl Default for EffectsConfig {
    fn default() -> (c: Self)
        ensures
            c == (EffectsConfig { retro_crt: false, scanlines: false }),
    {
        EffectsConfig { retro_crt: false, scanlines: false }
    }
}

// ---------------------------------------------------------------------
// Names and checks.
// ---------------------------------------------------------------------

/// The backend a `render.wgpu_backend` value names, compared without
/// regard to ASCII case.
pub open spec fn spec_wgpu_backend_name(value: Seq<char>) -> Option<Seq<char>> {
    let lower = lower_all(value);
    if lower == "auto"@ {
        Some("auto"@)
    } else if lower == "vulkan"@ {
        Some("vulkan"@)
    } else if lower == "dx12"@ {
        Some("dx12"@)
    } else if lower == "gl"@ {
        Some("gl"@)
    } else {
        None
    }
}

pub fn parse_wgpu_backend_name(value: &str) -> (r: Option<&'static str>)
    ensures
        match r {
            Some(name) => spec_wgpu_backend_name(value@) == Some(name@),
            None => spec_wgpu_backend_name(value@) is None,
        },
{
    let lower = to_ascii_lowercase(value);
    let lower = lower.as_str();
    if same_chars(lower, "auto") {
        Some("auto")
    } else if same_chars(lower, "vulkan") {
        Some("vulkan")
    } else if same_chars(lower, "dx12") {
        Some("dx12")
    } else if same_chars(lower, "gl") {
        Some("gl")
    } else {
        None
    }
}

/// A refused setting: the dotted key and what was wrong with its value.
#[derive(Clone, Debug, Eq, PartialEq)]
pub struct InvalidConfigValue {
    pub field: &'static str,
    pub message: String,
}

/// The key and message of a refused setting.
pub open spec fn invalid_view(r: Result<(), InvalidConfigValue>) -> Option<(Seq<char>, Seq<char>)> {
    match r {
        Ok(()) => None,
        Err(e) => Some((e.field@, e.message@)),
    }
}

pub open spec fn positive_integer_message() -> Seq<char> {
    "expected a positive integer, got `0`"@
}

pub open spec fn non_empty_string_message() -> Seq<char> {
    "expected a non-empty string"@
}

/// `expected an integer from {min} to {max}, got `{value}``.
pub open spec fn range_message(min: nat, max: nat, value: nat) -> Seq<char> {
    "expected an integer from "@ + decimal_chars(min) + " to "@ + decimal_chars(max) + ", got `"@
        + decimal_chars(value) + "`"@
}

/// `expected one of auto, vulkan, dx12, or gl, got `{value}``.
pub open spec fn backend_message(value: Seq<char>) -> Seq<char> {
    "expected one of auto, vulkan, dx12, or gl, got `"@ + value + "`"@
}

/// A count that must not be zero when it is set.
pub fn validate_positive_usize(field: &'static str, value: Option<usize>) -> (r: Result<(), InvalidConfigValue>)
    ensures
        invalid_view(r) == (if value == Some(0usize) {
            Some((field@, positive_integer_message()))
        } else {
            None
        }),
{
    match value {
        Some(0) => Err(InvalidConfigValue {
            field,
            message: "expected a positive integer, got `0`".to_owned(),
        }),
        _ => Ok(()),
    }
}

/// A string that must not be empty when it is set.
pub fn validate_non_empty_string(field: &'static str, value: Option<&str>) -> (r: Result<(), InvalidConfigValue>)
    ensures
        invalid_view(r) == (if value matches Some(v) && v@.len() == 0 {
            Some((field@, non_empty_string_message()))
        } else {
            None
        }),
{
    match value {
        Some(v) => if v.unicode_len() == 0 {
            Err(InvalidConfigValue { field, message: "expected a non-empty string".to_owned() })
        } else {
            Ok(())
        },
        None => Ok(()),
    }
}

/// A count that must lie in `min..=max` when it is set.
pub fn validate_usize_range(field: &'static str, value: Option<usize>, min: usize, max: usize) -> (r: Result<(), InvalidConfigValue>)
    ensures
        invalid_view(r) == (if value matches Some(v) && !(min <= v <= max) {
            Some((field@, range_message(min as nat, max as nat, value->0 as nat)))
        } else {
            None
        }),
{
    match value {
        Some(v) => if min <= v && v <= max {
            Ok(())
        } else {
            let mut message = "expected an integer from ".to_owned();
            push_decimal_chars(&mut message, min as u64);
            message.append(" to ");
            push_decimal_chars(&mut message, max as u64);
            message.append(", got `");
            push_decimal_chars(&mut message, v as u64);
            message.append("`");
            proof {
                assert(message@ =~= range_message(min as nat, max as nat, v as nat));
            }
            Err(InvalidConfigValue { field, message })
        },
        None => Ok(()),
    }
}

/// The first graphics limit set to zero, by its key.
pub open spec fn zero_graphics_limit(graphics: GraphicsConfig) -> Option<Seq<char>> {
    if graphics.max_encoded_bytes == 0 {
        Some("graphics.max_encoded_bytes"@)
    } else if graphics.max_decoded_bytes == 0 {
        Some("graphics.max_decoded_bytes"@)
    } else if graphics.max_gpu_bytes == 0 {
        Some("graphics.max_gpu_bytes"@)
    } else if graphics.max_width == 0 {
        Some("graphics.max_width"@)
    } else if graphics.max_height == 0 {
        Some("graphics.max_height"@)
    } else if graphics.max_pixels == 0 {
        Some("graphics.max_pixels"@)
    } else if graphics.max_images == 0 {
        Some("graphics.max_images"@)
    } else {
        None
    }
}

/// Every graphics limit must be positive.
pub fn validate_graphics_limits(graphics: &GraphicsConfig) -> (r: Result<(), InvalidConfigValue>)
    ensures
        invalid_view(r) == (match zero_graphics_limit(*graphics) {
            Some(field) => Some((field, positive_integer_message())),
            None => None,
        }),
{
    let field = if graphics.max_encoded_bytes == 0 {
        "graphics.max_encoded_bytes"
    } else if graphics.max_decoded_bytes == 0 {
        "graphics.max_decoded_bytes"
    } else if graphics.max_gpu_bytes == 0 {
        "graphics.max_gpu_bytes"
    } else if graphics.max_width == 0 {
        "graphics.max_width"
    } else if graphics.max_height == 0 {
        "graphics.max_height"
    } else if graphics.max_pixels == 0 {
        "graphics.max_pixels"
    } else if graphics.max_images == 0 {
        "graphics.max_images"
    } else {
        return Ok(());
    };
    Err(InvalidConfigValue { field, message: "expected a positive integer, got `0`".to_owned() })
}

/// A set `render.wgpu_backend` must name a known backend.
pub fn validate_wgpu_backend(render: &RenderConfig) -> (r: Result<(), InvalidConfigValue>)
    ensures
        invalid_view(r) == (match render.wgpu_backend {
            Some(value) => if spec_wgpu_backend_name(value@) is None {
                Some(("render.wgpu_backend"@, backend_message(value@)))
            } else {
                None
            },
            None => None,
        }),
{
    match &render.wgpu_backend {
        Some(value) => {
            if parse_wgpu_backend_name(value.as_str()).is_none() {
                let mut message = "expected one of auto, vulkan, dx12, or gl, got `".to_owned();
                message.append(value.as_str());
                message.append("`");
                Err(InvalidConfigValue { field: "render.wgpu_backend", message })
            } else {
                Ok(())
            }
        },
        None => Ok(()),
    }
}

/// The checks of the integer and text settings, in order: window size,
/// shell program, scrollback and scroll multiplier ranges, graphics limits
/// and the wgpu backend; the first failure is reported.
pub open spec fn spec_validate_sections(
    initial_cols: Option<usize>,
    initial_rows: Option<usize>,
    shell: ShellConfig,
    terminal: TerminalConfig,
    graphics: GraphicsConfig,
    render: RenderConfig,
) -> Option<(Seq<char>, Seq<char>)> {
    if initial_cols == Some(0usize) {
        Some(("window.initial_cols"@, positive_integer_message()))
    } else if initial_rows == Some(0usize) {
        Some(("window.initial_rows"@, positive_integer_message()))
    } else if shell.program matches Some(p) && p@.len() == 0 {
        Some(("shell.program"@, non_empty_string_message()))
    } else if terminal.scrollback_lines matches Some(v) && v > MAX_SCROLLBACK_LINES {
        Some(("terminal.scrollback_lines"@, range_message(0, MAX_SCROLLBACK_LINES as nat, terminal.scrollback_lines->0 as nat)))
    } else if terminal.scroll_multiplier matches Some(v) && !(1 <= v <= MAX_SCROLL_MULTIPLIER) {
        Some(("terminal.scroll_multiplier"@, range_message(1, MAX_SCROLL_MULTIPLIER as nat, terminal.scroll_multiplier->0 as nat)))
    } else if zero_graphics_limit(graphics) is Some {
        Some((zero_graphics_limit(graphics)->0, positive_integer_message()))
    } else if render.wgpu_backend matches Some(value) && spec_wgpu_backend_name(value@) is None {
        Some(("render.wgpu_backend"@, backend_message(render.wgpu_backend->0@)))
    } else {
        None
    }
}

pub fn validate_sections(
    initial_cols: Option<usize>,
    initial_rows: Option<usize>,
    shell: &ShellConfig,
    terminal: &TerminalConfig,
    graphics: &GraphicsConfig,
    render: &RenderConfig,
) -> (r: Result<(), InvalidConfigValue>)
    ensures
        invalid_view(r) == spec_validate_sections(initial_cols, initial_rows, *shell, *terminal, *graphics, *render),
{
    let r = validate_positive_usize("window.initial_cols", initial_cols);
    if r.is_err() {
        return r;
    }
    let r = validate_positive_usize("window.initial_rows", initial_rows);
    if r.is_err() {
        return r;
    }
    let program = match &shell.program {
        Some(p) => Some(p.as_str()),
        None => None,
    };
    let r = validate_non_empty_string("shell.program", program);
    if r.is_err() {
        return r;
    }
    let r = validate_usize_range("terminal.scrollback_lines", terminal.scrollback_lines, 0, MAX_SCROLLBACK_LINES);
    if r.is_err() {
        return r;
    }
    let r = validate_usize_range("terminal.scroll_multiplier", terminal.scroll_multiplier, 1, MAX_SCROLL_MULTIPLIER);
    if r.is_err() {
        return r;
    }
    let r = validate_graphics_limits(graphics);
    if r.is_err() {
        return r;
    }
    validate_wgpu_backend(render)
}

/// Every dotted key that a configuration file may set, in ascending order.
pub open spec fn supported_keys() -> Seq<Seq<char>> {
    seq![
        "background.gradient.colors"@,
        "background.gradient.orientation"@,
        "background.image.fit"@,
        "background.image.opacity"@,
        "background.image.path"@,
        "background.image.tint"@,
        "background.image.tint_opacity"@,
        "background.kind"@,
        "colors.background"@,
        "colors.bright.black"@,
        "colors.bright.blue"@,
        "colors.bright.cyan"@,
        "colors.bright.green"@,
        "colors.bright.magenta"@,
        "colors.bright.red"@,
        "colors.bright.white"@,
        "colors.bright.yellow"@,
        "colors.cursor"@,
        "colors.cursor_text"@,
        "colors.foreground"@,
        "colors.normal.black"@,
        "colors.normal.blue"@,
        "colors.normal.cyan"@,
        "colors.normal.green"@,
        "colors.normal.magenta"@,
        "colors.normal.red"@,
        "colors.normal.white"@,
        "colors.normal.yellow"@,
        "colors.selection_background"@,
        "colors.selection_foreground"@,
        "cursor.blink"@,
        "cursor.style"@,
        "effects.retro_crt"@,
        "effects.scanlines"@,
        "font.family"@,
        "font.line_height"@,
        "font.size"@,
        "graphics.enabled"@,
        "graphics.max_decoded_bytes"@,
        "graphics.max_encoded_bytes"@,
        "graphics.max_gpu_bytes"@,
        "graphics.max_height"@,
        "graphics.max_images"@,
        "graphics.max_pixels"@,
        "graphics.max_width"@,
        "hyperlink.allowed_schemes"@,
        "hyperlink.hover_background"@,
        "hyperlink.hover_foreground"@,
        "hyperlink.hover_underline"@,
        "hyperlink.open_on_ctrl_click"@,
        "hyperlink.underline_on_hover"@,
        "panes.inactive_opacity"@,
        "panes.inactive_tint"@,
        "render.wgpu_backend"@,
        "search.background"@,
        "search.foreground"@,
        "search.selected_background"@,
        "search.selected_foreground"@,
        "shell.args"@,
        "shell.program"@,
        "tabs.active_background"@,
        "tabs.active_foreground"@,
        "tabs.enabled"@,
        "tabs.inactive_background"@,
        "tabs.inactive_foreground"@,
        "tabs.show_when_single"@,
        "tabs.style"@,
        "terminal.scroll_multiplier"@,
        "terminal.scrollback_lines"@,
        "theme"@,
        "theme.dark"@,
        "theme.light"@,
        "theme.mode"@,
        "window.blur"@,
        "window.blur_radius"@,
        "window.initial_cols"@,
        "window.initial_rows"@,
        "window.opacity"@,
        "window.padding_x"@,
        "window.padding_y"@,
        "window.unfocused_opacity"@,
        "window.windows.backdrop"@,
    ]
}

pub fn supported_config_keys() -> (r: Vec<&'static str>)
    ensures
        r@.map_values(|key: &'static str| key@) == supported_keys(),
{
    let keys = vec![
        "background.gradient.colors",
        "background.gradient.orientation",
        "background.image.fit",
        "background.image.opacity",
        "background.image.path",
        "background.image.tint",
        "background.image.tint_opacity",
        "background.kind",
        "colors.background",
        "colors.bright.black",
        "colors.bright.blue",
        "colors.bright.cyan",
        "colors.bright.green",
        "colors.bright.magenta",
        "colors.bright.red",
        "colors.bright.white",
        "colors.bright.yellow",
        "colors.cursor",
        "colors.cursor_text",
        "colors.foreground",
        "colors.normal.black",
        "colors.normal.blue",
        "colors.normal.cyan",
        "colors.normal.green",
        "colors.normal.magenta",
        "colors.normal.red",
        "colors.normal.white",
        "colors.normal.yellow",
        "colors.selection_background",
        "colors.selection_foreground",
        "cursor.blink",
        "cursor.style",
        "effects.retro_crt",
        "effects.scanlines",
        "font.family",
        "font.line_height",
        "font.size",
        "graphics.enabled",
        "graphics.max_decoded_bytes",
        "graphics.max_encoded_bytes",
        "graphics.max_gpu_bytes",
        "graphics.max_height",
        "graphics.max_images",
        "graphics.max_pixels",
        "graphics.max_width",
        "hyperlink.allowed_schemes",
        "hyperlink.hover_background",
        "hyperlink.hover_foreground",
        "hyperlink.hover_underline",
        "hyperlink.open_on_ctrl_click",
        "hyperlink.underline_on_hover",
        "panes.inactive_opacity",
        "panes.inactive_tint",
        "render.wgpu_backend",
        "search.background",
        "search.foreground",
        "search.selected_background",
        "search.selected_foreground",
        "shell.args",
        "shell.program",
        "tabs.active_background",
        "tabs.active_foreground",
        "tabs.enabled",
        "tabs.inactive_background",
        "tabs.inactive_foreground",
        "tabs.show_when_single",
        "tabs.style",
        "terminal.scroll_multiplier",
        "terminal.scrollback_lines",
        "theme",
        "theme.dark",
        "theme.light",
        "theme.mode",
        "window.blur",
        "window.blur_radius",
        "window.initial_cols",
        "window.initial_rows",
        "window.opacity",
        "window.padding_x",
        "window.padding_y",
        "window.unfocused_opacity",
        "window.windows.backdrop",
    ];
    assert(keys@.map_values(|key: &'static str| key@) =~= supported_keys());
    keys
}

proof fn lemma_lowercase_name_is_fixed(name: Seq<char>)
    requires
        forall|i: int| 0 <= i < name.len() ==> ('a' <= #[trigger] name[i] <= 'z' || '0' <= name[i] <= '9'),
    ensures
        lower_all(name) == name,
{
    assert(lower_all(name) =~= name);
}

/// A theme pair with a fixed mode ignores the desktop: `Dark` always picks
/// the pair's dark theme and `Light` its light one; `System` picks the
/// theme matching the desktop. A single theme name is used as it is.
pub proof fn lemma_theme_mode_picks_the_pair_member(theme: ThemeConfig, system: SystemAppearance)
    ensures
        theme matches ThemeConfig::Pair(pair) ==> {
            &&& pair.mode == ThemeMode::Dark ==> spec_effective_theme_name(theme, system) == pair.dark@
            &&& pair.mode == ThemeMode::Light ==> spec_effective_theme_name(theme, system) == pair.light@
            &&& pair.mode == ThemeMode::System && system == SystemAppearance::Dark
                ==> spec_effective_theme_name(theme, system) == pair.dark@
            &&& pair.mode == ThemeMode::System && system == SystemAppearance::Light
                ==> spec_effective_theme_name(theme, system) == pair.light@
            &&& pair.mode != ThemeMode::System ==> spec_effective_theme_name(theme, SystemAppearance::Light)
                == spec_effective_theme_name(theme, SystemAppearance::Dark)
        },
        theme matches ThemeConfig::Name(name) ==> spec_effective_theme_name(theme, system) == name@,
{
}

/// A backend name that the parser returns names itself: the names it gives
/// back are exactly the values it accepts in their canonical spelling.
pub proof fn lemma_backend_names_are_canonical(value: Seq<char>)
    ensures
        spec_wgpu_backend_name(value) matches Some(name) ==> spec_wgpu_backend_name(name) == Some(name),
{
    reveal_strlit("auto");
    reveal_strlit("vulkan");
    reveal_strlit("dx12");
    reveal_strlit("gl");
    lemma_lowercase_name_is_fixed("auto"@);
    lemma_lowercase_name_is_fixed("vulkan"@);
    lemma_lowercase_name_is_fixed("dx12"@);
    lemma_lowercase_name_is_fixed("gl"@);
}

// ---------------------------------------------------------------------
// Where the configuration file is looked for.
// ---------------------------------------------------------------------

/// A place a configuration file may be read from.
#[derive(Clone, Debug, Eq, PartialEq)]
pub enum ConfigLocation {
    /// The file `KNIGHTTY_CONFIG` names.
    Explicit(String),
    /// `knightty/` and the configuration file name under this directory
    /// (`XDG_CONFIG_HOME`, or `APPDATA` on Windows).
    UnderConfigDirectory(String),
    /// `.config/knightty/` and the configuration file name under this home
    /// directory.
    UnderHome(String),
}

/// A location as its kind and its text.
pub open spec fn location_view(l: ConfigLocation) -> (u8, Seq<char>) {
    match l {
        ConfigLocation::Explicit(p) => (0u8, p@),
        ConfigLocation::UnderConfigDirectory(p) => (1u8, p@),
        ConfigLocation::UnderHome(p) => (2u8, p@),
    }
}

pub open spec fn non_empty(v: Option<String>) -> Option<Seq<char>> {
    match v {
        Some(s) => if s@.len() > 0 { Some(s@) } else { None },
        None => None,
    }
}

/// The places to look for a configuration file, in order, from the values
/// of `KNIGHTTY_CONFIG`, `XDG_CONFIG_HOME`, `HOME` and `APPDATA`; an empty
/// value counts as unset.
pub open spec fn spec_config_search_order(
    explicit: Option<Seq<char>>,
    xdg_config_home: Option<Seq<char>>,
    home: Option<Seq<char>>,
    appdata: Option<Seq<char>>,
    windows: bool,
) -> Seq<(u8, Seq<char>)> {
    let first: Seq<(u8, Seq<char>)> = match explicit {
        Some(p) => seq![(0u8, p)],
        None => Seq::empty(),
    };
    let user: Seq<(u8, Seq<char>)> = if windows {
        match appdata {
            Some(p) => seq![(1u8, p)],
            None => Seq::empty(),
        }
    } else {
        match (xdg_config_home, home) {
            (Some(p), _) => seq![(1u8, p)],
            (None, Some(h)) => seq![(2u8, h)],
            (None, None) => Seq::empty(),
        }
    };
    first + user
}

fn take_non_empty(v: Option<String>) -> (r: Option<String>)
    ensures
        match r {
            Some(s) => non_empty(v) == Some(s@),
            None => non_empty(v) is None,
        },
{
    match v {
        Some(s) => if s.unicode_len() > 0 { Some(s) } else { None },
        None => None,
    }
}

/// Where to look for the configuration file, most specific first.
pub fn config_search_order(
    explicit: Option<String>,
    xdg_config_home: Option<String>,
    home: Option<String>,
    appdata: Option<String>,
    windows: bool,
) -> (r: Vec<ConfigLocation>)
    ensures
        r@.map_values(|l: ConfigLocation| location_view(l)) == spec_config_search_order(
            non_empty(explicit),
            non_empty(xdg_config_home),
            non_empty(home),
            non_empty(appdata),
            windows,
        ),
{
    let ghost spec = spec_config_search_order(
        non_empty(explicit),
        non_empty(xdg_config_home),
        non_empty(home),
        non_empty(appdata),
        windows,
    );
    let mut out: Vec<ConfigLocation> = Vec::new();
    if let Some(path) = take_non_empty(explicit) {
        out.push(ConfigLocation::Explicit(path));
    }
    let user = if windows {
        match take_non_empty(appdata) {
            Some(dir) => Some(ConfigLocation::UnderConfigDirectory(dir)),
            None => None,
        }
    } else {
        match take_non_empty(xdg_config_home) {
            Some(dir) => Some(ConfigLocation::UnderConfigDirectory(dir)),
            None => match take_non_empty(home) {
                Some(dir) => Some(ConfigLocation::UnderHome(dir)),
                None => None,
            },
        }
    };
    if let Some(location) = user {
        out.push(location);
    }
    assert(out@.map_values(|l: ConfigLocation| location_view(l)) =~= spec);
    out
}

} // verus!
