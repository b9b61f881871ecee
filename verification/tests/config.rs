use knightty::ui::config::{
    config_search_order, parse_wgpu_backend_name, supported_config_keys, validate_graphics_limits, validate_sections,
    validate_usize_range, validate_wgpu_backend, BackgroundKindConfig, GraphicsConfig,
    ConfigLocation, RenderConfig, ShellConfig, SystemAppearance, TerminalConfig, ThemeConfig, ThemeMode,
    ThemePairConfig, DEFAULT_THEME_NAME, MAX_SCROLLBACK_LINES, MAX_SCROLL_MULTIPLIER,
};
use knightty::ui::inline_image::ImageLimits;
use knightty::ui::config_spec::{graphics_config_options, toml_example, ConfigDefault, ReloadBehavior};

fn check(
    terminal: TerminalConfig,
    graphics: GraphicsConfig,
    shell: ShellConfig,
    render: RenderConfig,
) -> Result<(), (&'static str, String)> {
    validate_sections(None, None, &shell, &terminal, &graphics, &render)
        .map_err(|error| (error.field, error.message))
}

#[test]
fn default_sections_are_valid() {
    assert_eq!(
        check(
            TerminalConfig::default(),
            GraphicsConfig::default(),
            ShellConfig::default(),
            RenderConfig::default()
        ),
        Ok(())
    );
}

#[test]
fn graphics_settings_are_loaded_with_secure_defaults() {
    let graphics = GraphicsConfig {
        enabled: false,
        max_encoded_bytes: 1024,
        max_decoded_bytes: 4096,
        max_width: 128,
        max_height: 64,
        max_pixels: 8192,
        max_images: 4,
        max_gpu_bytes: 16384,
    };
    assert!(validate_graphics_limits(&graphics).is_ok());
    let defaults = GraphicsConfig::default();
    assert!(defaults.enabled);
    assert_eq!(defaults.max_encoded_bytes, 16 * 1024 * 1024);
    assert_eq!(defaults.max_decoded_bytes, 128 * 1024 * 1024);
    assert_eq!((defaults.max_width, defaults.max_height), (8192, 8192));
    assert_eq!(defaults.max_pixels, 32_000_000);
    assert_eq!(defaults.max_images, 128);
    assert_eq!(defaults.max_gpu_bytes, 256 * 1024 * 1024);
}

#[test]
fn zero_graphics_limit_is_rejected() {
    let graphics = GraphicsConfig {
        max_images: 0,
        ..GraphicsConfig::default()
    };

    let error = validate_graphics_limits(&graphics).expect_err("zero graphics limit should fail");

    assert_eq!(error.field, "graphics.max_images");
    assert_eq!(error.message, "expected a positive integer, got `0`");
}

#[test]
fn first_zero_graphics_limit_is_reported() {
    let graphics = GraphicsConfig {
        max_width: 0,
        max_images: 0,
        ..GraphicsConfig::default()
    };
    assert_eq!(
        validate_graphics_limits(&graphics).unwrap_err().field,
        "graphics.max_width"
    );
}

#[test]
fn terminal_scrollback_lines_are_range_validated() {
    let terminal = TerminalConfig {
        scrollback_lines: Some(100_001),
        scroll_multiplier: None,
    };
    assert_eq!(
        check(
            terminal,
            GraphicsConfig::default(),
            ShellConfig::default(),
            RenderConfig::default()
        ),
        Err((
            "terminal.scrollback_lines",
            "expected an integer from 0 to 100000, got `100001`".to_owned()
        ))
    );
}

#[test]
fn terminal_scroll_multiplier_is_range_validated() {
    let terminal = TerminalConfig {
        scrollback_lines: None,
        scroll_multiplier: Some(0),
    };
    assert_eq!(
        check(
            terminal,
            GraphicsConfig::default(),
            ShellConfig::default(),
            RenderConfig::default()
        ),
        Err((
            "terminal.scroll_multiplier",
            "expected an integer from 1 to 100, got `0`".to_owned()
        ))
    );
}

#[test]
fn range_bounds_are_inclusive() {
    assert!(validate_usize_range("x", Some(MAX_SCROLLBACK_LINES), 0, MAX_SCROLLBACK_LINES).is_ok());
    assert!(validate_usize_range("x", Some(1), 1, MAX_SCROLL_MULTIPLIER).is_ok());
    assert!(validate_usize_range("x", Some(101), 1, MAX_SCROLL_MULTIPLIER).is_err());
    assert!(validate_usize_range("x", None, 1, 1).is_ok());
}

#[test]
fn empty_shell_program_is_invalid() {
    let shell = ShellConfig {
        program: Some(String::new()),
        args: Vec::new(),
    };
    assert_eq!(
        check(
            TerminalConfig::default(),
            GraphicsConfig::default(),
            shell,
            RenderConfig::default()
        ),
        Err(("shell.program", "expected a non-empty string".to_owned()))
    );
}

#[test]
fn zero_window_size_is_invalid() {
    let error = validate_sections(
        Some(80),
        Some(0),
        &ShellConfig::default(),
        &TerminalConfig::default(),
        &GraphicsConfig::default(),
        &RenderConfig::default(),
    )
    .unwrap_err();
    assert_eq!(error.field, "window.initial_rows");
}

#[test]
fn unknown_wgpu_backend_is_invalid() {
    let render = RenderConfig {
        wgpu_backend: Some("metal".to_owned()),
    };
    let error = validate_wgpu_backend(&render).unwrap_err();
    assert_eq!(error.field, "render.wgpu_backend");
    assert_eq!(
        error.message,
        "expected one of auto, vulkan, dx12, or gl, got `metal`"
    );
    let render = RenderConfig {
        wgpu_backend: Some("DX12".to_owned()),
    };
    assert!(validate_wgpu_backend(&render).is_ok());
}

#[test]
fn documented_wgpu_values_match_parser() {
    for value in ["auto", "vulkan", "dx12", "gl"] {
        assert_eq!(parse_wgpu_backend_name(value), Some(value));
    }
    assert_eq!(parse_wgpu_backend_name("Vulkan"), Some("vulkan"));
    assert_eq!(parse_wgpu_backend_name("GL"), Some("gl"));
    assert_eq!(parse_wgpu_backend_name("opengl"), None);
}

#[test]
fn supported_keys_are_sorted_and_unique() {
    let keys = supported_config_keys();
    assert_eq!(keys.len(), 82);
    assert!(keys.windows(2).all(|pair| pair[0] < pair[1]));
    assert!(keys.contains(&"graphics.max_images"));
    assert!(keys.contains(&"theme.mode"));
}

#[test]
fn theme_pair_light_mode_selects_light_theme() {
    let theme = ThemeConfig::Pair(ThemePairConfig {
        light: "Catppuccin Latte".to_owned(),
        dark: "Catppuccin Mocha".to_owned(),
        mode: ThemeMode::Light,
    });
    assert_eq!(
        theme.effective_theme_name(SystemAppearance::Dark).as_deref(),
        Some("Catppuccin Latte")
    );
}

#[test]
fn system_theme_mode_follows_the_desktop() {
    let theme = ThemeConfig::Pair(ThemePairConfig::default());
    assert_eq!(
        theme.effective_theme_name(SystemAppearance::Light).as_deref(),
        Some("Catppuccin Latte")
    );
    assert_eq!(
        theme.effective_theme_name(SystemAppearance::Dark).as_deref(),
        Some("Catppuccin Mocha")
    );
    assert_eq!(
        ThemeConfig::default().effective_theme_name(SystemAppearance::Light).as_deref(),
        Some(DEFAULT_THEME_NAME)
    );
}

#[test]
fn config_words_name_modes_and_background_kinds() {
    assert_eq!(ThemeMode::from_config_value("light"), Some(ThemeMode::Light));
    assert_eq!(ThemeMode::from_config_value("system"), Some(ThemeMode::System));
    assert_eq!(ThemeMode::from_config_value("Dark"), None);
    assert_eq!(ThemeMode::default(), ThemeMode::System);
    assert_eq!(
        BackgroundKindConfig::from_config_value("gradient"),
        Some(BackgroundKindConfig::Gradient)
    );
    assert_eq!(BackgroundKindConfig::from_config_value("video"), None);
}

#[test]
fn image_limits_copy_the_graphics_section() {
    let graphics = GraphicsConfig {
        max_encoded_bytes: 1,
        max_decoded_bytes: 2,
        max_width: 3,
        max_height: 4,
        max_pixels: 5,
        max_images: 6,
        max_gpu_bytes: 7,
        enabled: true,
    };
    let limits = ImageLimits::from_graphics(&graphics);
    assert_eq!(
        limits,
        ImageLimits {
            max_encoded_bytes: 1,
            max_decoded_bytes: 2,
            max_width: 3,
            max_height: 4,
            max_pixels: 5,
            max_images: 6,
            max_gpu_bytes: 7,
        }
    );
}

#[test]
fn config_is_looked_for_in_the_named_file_then_the_user_directory() {
    let some = |s: &str| Some(s.to_owned());
    assert_eq!(
        config_search_order(some("/etc/k.toml"), some("/xdg"), some("/home/u"), None, false),
        vec![
            ConfigLocation::Explicit("/etc/k.toml".to_owned()),
            ConfigLocation::UnderConfigDirectory("/xdg".to_owned()),
        ]
    );
    assert_eq!(
        config_search_order(some(""), some(""), some("/home/u"), some("C:\\AppData"), false),
        vec![ConfigLocation::UnderHome("/home/u".to_owned())]
    );
    assert_eq!(
        config_search_order(None, some("/xdg"), some("/home/u"), some("C:\\AppData"), true),
        vec![ConfigLocation::UnderConfigDirectory("C:\\AppData".to_owned())]
    );
    assert_eq!(config_search_order(None, None, None, some(""), true), Vec::new());
}

#[test]
fn env_config_path_is_first_candidate() {
    let paths = config_search_order(
        Some("C:\\custom\\knightty.config".to_owned()),
        None,
        None,
        Some("C:\\Users\\me\\AppData\\Roaming".to_owned()),
        true,
    );

    assert_eq!(paths.first(), Some(&ConfigLocation::Explicit("C:\\custom\\knightty.config".to_owned())));
}

#[test]
fn graphics_options_document_the_graphics_table_with_its_defaults() {
    let graphics = GraphicsConfig::default();
    let options = graphics_config_options(&graphics);
    let keys: Vec<&str> = options.iter().map(|option| option.key).collect();
    assert_eq!(
        keys,
        vec![
            "graphics.enabled",
            "graphics.max_encoded_bytes",
            "graphics.max_decoded_bytes",
            "graphics.max_width",
            "graphics.max_height",
            "graphics.max_pixels",
            "graphics.max_images",
            "graphics.max_gpu_bytes",
        ]
    );
    assert_eq!(options[0].default, ConfigDefault::Bool(true));
    assert_eq!(options[7].default, ConfigDefault::Int(graphics.max_gpu_bytes as u64));
    assert_eq!(options[3].range, Some("1..".to_owned()));
    assert!(options.iter().all(|option| option.reload == ReloadBehavior::Runtime));
    assert_eq!(options[0].examples, vec!["[graphics]\nenabled = false\n".to_owned()]);
}

#[test]
fn toml_example_writes_table_header_and_assignments() {
    assert_eq!(
        toml_example("shell", &[("program", "\"pwsh\""), ("args", "[\"-NoLogo\"]")]),
        "[shell]\nprogram = \"pwsh\"\nargs = [\"-NoLogo\"]\n"
    );
    assert_eq!(toml_example("font", &[]), "[font]\n");
}
