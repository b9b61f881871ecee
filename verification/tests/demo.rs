use knightty::demo::playback::{playback_elapsed, playback_step, PlaybackAction, PlaybackEvents, PlaybackState};
use knightty::demo::asset::{AssetColor, AssetError, KfaAsset};
use knightty::demo::canvas::{default_palette, Canvas, PaletteIndex, PixelPoint};
use knightty::demo::cli::{parse_args, CliError, DemoConfig, StartupAction};
use knightty::demo::encoder::FrameEncoder;
use knightty::demo::player::skipped_frames;

const KFA_MAGIC: &[u8; 4] = b"KFA2";
const CAPE_LAYER_IDS: [u8; 6] = [0, 1, 2, 3, 4, 5];
const MID_TONE: u8 = 3;
const UPPER_HALF_BLOCK: &str = "\u{2580}";

fn test_kfa(run: &[u8]) -> Vec<u8> {
    let mut data = Vec::new();
    data.extend_from_slice(KFA_MAGIC);
    data.extend_from_slice(&1_u16.to_le_bytes());
    data.extend_from_slice(&1_u16.to_le_bytes());
    data.extend_from_slice(&1_u16.to_le_bytes());
    data.push(CAPE_LAYER_IDS.len() as u8);
    data.extend_from_slice(&1_u16.to_le_bytes());
    data.push(4);
    data.extend_from_slice(b"test");
    data.extend_from_slice(&(run.len() as u32).to_le_bytes());
    for id in CAPE_LAYER_IDS {
        data.push(id);
        data.push(MID_TONE);
        data.extend_from_slice(&3_u16.to_le_bytes());
    }
    data.push(11);
    data.extend_from_slice(b"cape_idle_a");
    data.extend_from_slice(run);
    for _ in CAPE_LAYER_IDS {
        for (x, y) in [(0_u16, 0_u16), (16, 0), (0, 16)] {
            data.extend_from_slice(&x.to_le_bytes());
            data.extend_from_slice(&y.to_le_bytes());
        }
    }
    data
}

#[test]
fn invalid_magic_is_rejected() {
    assert_eq!(KfaAsset::from_bytes(b"NOPE").unwrap_err(), AssetError::InvalidMagic);
}

#[test]
fn unsupported_version_is_rejected() {
    let mut data = b"KFA1".to_vec();
    data.extend_from_slice(&[1, 0, 1, 0, 0, 0]);
    assert_eq!(KfaAsset::from_bytes(&data).unwrap_err(), AssetError::UnsupportedVersion(b'1'));
}

#[test]
fn truncated_asset_is_rejected() {
    assert_eq!(KfaAsset::from_bytes(KFA_MAGIC).unwrap_err(), AssetError::Truncated);
}

#[test]
fn corrupted_run_is_rejected() {
    let data = test_kfa(&[1, 3, 0]);
    assert_eq!(KfaAsset::from_bytes(&data).unwrap_err(), AssetError::CorruptedRun);
}

#[test]
fn invalid_color_is_rejected() {
    let data = test_kfa(&[9, 1, 0]);
    assert_eq!(KfaAsset::from_bytes(&data).unwrap_err(), AssetError::InvalidColor(9));
}

#[test]
fn invalid_cape_topology_is_rejected() {
    let mut data = test_kfa(&[1, 1, 0]);
    data[10] = 5;
    assert_eq!(KfaAsset::from_bytes(&data).unwrap_err(), AssetError::InvalidCapeTopology);
}

#[test]
fn valid_asset_decodes_frame_pixels_and_cape_vertices() {
    let data = test_kfa(&[1, 1, 0]);
    let asset = KfaAsset::from_bytes(&data).unwrap();
    assert_eq!(asset.width(), 1);
    assert_eq!(asset.height(), 1);
    assert_eq!(asset.frames()[0].pixels(), &[AssetColor::Foreground]);
    assert_eq!(asset.cape_layers().len(), CAPE_LAYER_IDS.len());
    assert_eq!(asset.cape_poses()[0].name(), "cape_idle_a");
    assert_eq!(asset.cape_poses()[0].layer_vertices(0).unwrap().len(), 3);
}

#[test]
fn canvas_set_and_get_work_for_valid_coordinates() {
    let mut canvas = Canvas::new(4, 3, PaletteIndex::Background).unwrap();
    canvas.set(2, 1, PaletteIndex::Accent);
    assert_eq!(canvas.get(2, 1), Some(PaletteIndex::Accent));
}

#[test]
fn canvas_set_outside_bounds_does_not_panic_or_modify_canvas() {
    let mut canvas = Canvas::new(2, 2, PaletteIndex::Background).unwrap();
    canvas.set(-1, 0, PaletteIndex::Accent);
    canvas.set(2, 0, PaletteIndex::Accent);
    assert_eq!(canvas.count(PaletteIndex::Accent), 0);
}

#[test]
fn canvas_clear_sets_every_pixel_to_the_requested_color() {
    let mut canvas = Canvas::new(3, 2, PaletteIndex::Foreground).unwrap();
    canvas.clear(PaletteIndex::Accent);
    assert_eq!(canvas.count(PaletteIndex::Accent), 6);
}

#[test]
fn circle_fills_center_but_not_far_outside_point() {
    let mut canvas = Canvas::new(11, 11, PaletteIndex::Background).unwrap();
    canvas.fill_circle(5, 5, 3, PaletteIndex::Foreground);
    assert_eq!(canvas.get(5, 5), Some(PaletteIndex::Foreground));
    assert_eq!(canvas.get(0, 0), Some(PaletteIndex::Background));
}

#[test]
fn line_draws_both_endpoints() {
    let mut canvas = Canvas::new(8, 8, PaletteIndex::Background).unwrap();
    canvas.draw_line(PixelPoint::new(1, 1), PixelPoint::new(6, 4), PaletteIndex::Foreground);
    assert_eq!(canvas.get(1, 1), Some(PaletteIndex::Foreground));
    assert_eq!(canvas.get(6, 4), Some(PaletteIndex::Foreground));
}

#[test]
fn parse_args_uses_60_fps_by_default() {
    assert_eq!(
        parse_args(["knightty-demo"].map(str::to_owned).to_vec()).unwrap(),
        StartupAction::Run(DemoConfig::default())
    );
}

#[test]
fn parse_args_accepts_uncapped_fps() {
    let StartupAction::Run(config) =
        parse_args(["knightty-demo", "--fps", "0"].map(str::to_owned).to_vec()).unwrap()
    else {
        panic!("expected run config");
    };
    assert_eq!(config.fps, 0);
}

#[test]
fn parse_args_rejects_negative_fps() {
    assert!(parse_args(["knightty-demo", "--fps", "-1"].map(str::to_owned).to_vec()).is_err());
}

#[test]
fn encoder_outputs_space_when_top_and_bottom_have_the_same_color() {
    let canvas = Canvas::new(1, 2, PaletteIndex::Foreground).unwrap();
    let mut output = Vec::new();
    FrameEncoder::new(default_palette()).encode(&canvas, &mut output);
    let text = String::from_utf8(output).unwrap();
    assert!(text.ends_with(' '));
    assert!(!text.contains(UPPER_HALF_BLOCK));
}

#[test]
fn encoder_outputs_half_block_when_top_and_bottom_differ() {
    let mut canvas = Canvas::new(1, 2, PaletteIndex::Background).unwrap();
    canvas.set(0, 0, PaletteIndex::Foreground);
    let mut output = Vec::new();
    FrameEncoder::new(default_palette()).encode(&canvas, &mut output);
    let text = String::from_utf8(output).unwrap();
    assert!(text.contains(UPPER_HALF_BLOCK));
}

#[test]
fn encoder_treats_odd_height_missing_bottom_pixel_as_background() {
    let mut canvas = Canvas::new(1, 1, PaletteIndex::Background).unwrap();
    canvas.set(0, 0, PaletteIndex::Accent);
    let mut output = Vec::new();
    FrameEncoder::new(default_palette()).encode(&canvas, &mut output);
    let text = String::from_utf8(output).unwrap();
    assert!(text.contains(UPPER_HALF_BLOCK));
}

#[test]
fn encoder_accepts_empty_canvas() {
    let canvas = Canvas::new(0, 0, PaletteIndex::Background).unwrap();
    let mut output = Vec::new();
    FrameEncoder::new(default_palette()).encode(&canvas, &mut output);
    assert!(output.is_empty());
}

#[test]
fn encoder_reuses_sgr_for_same_color_run() {
    let mut canvas = Canvas::new(4, 2, PaletteIndex::Background).unwrap();
    for x in 0..4 {
        canvas.set(x, 0, PaletteIndex::Foreground);
    }
    let mut output = Vec::new();
    FrameEncoder::new(default_palette()).encode(&canvas, &mut output);
    let text = String::from_utf8(output).unwrap();
    assert_eq!(text.matches("\x1b[38;2").count(), 1);
    assert_eq!(text.matches(UPPER_HALF_BLOCK).count(), 4);
}

#[test]
fn encoder_emits_utf8_half_block() {
    let mut canvas = Canvas::new(1, 2, PaletteIndex::Background).unwrap();
    canvas.set(0, 0, PaletteIndex::Foreground);
    let mut output = Vec::new();
    FrameEncoder::new(default_palette()).encode(&canvas, &mut output);
    assert!(output
        .windows(UPPER_HALF_BLOCK.len())
        .any(|window| window == UPPER_HALF_BLOCK.as_bytes()));
}

#[test]
fn skipped_frames_counts_late_frames_without_underflow() {
    assert_eq!(skipped_frames(10, 6), 4);
    assert_eq!(skipped_frames(6, 10), 0);
}

#[test]
fn parse_args_rejects_fps_beyond_u32_instead_of_wrapping() {
    assert_eq!(
        parse_args(["knightty-demo", "--fps", "4294967296"].map(str::to_owned).to_vec()),
        Err(CliError::InvalidFps("4294967296".to_owned()))
    );
    assert_eq!(
        parse_args(["knightty-demo", "--fps=4294967536"].map(str::to_owned).to_vec()),
        Err(CliError::InvalidFps("4294967536".to_owned()))
    );
}

#[test]
fn parse_args_reports_fps_above_limit() {
    assert_eq!(
        parse_args(["knightty-demo", "--fps", "241"].map(str::to_owned).to_vec()),
        Err(CliError::FpsTooHigh { value: 241, max: 240 })
    );
    let StartupAction::Run(config) =
        parse_args(["knightty-demo", "--fps", "240"].map(str::to_owned).to_vec()).unwrap()
    else {
        panic!("expected run config");
    };
    assert_eq!(config.fps, 240);
}

#[test]
fn playback_pauses_freezes_time_and_resumes_with_a_redraw() {
    let quiet = PlaybackEvents { exit: false, resized: false, toggle_pause: false };
    let pause = PlaybackEvents { toggle_pause: true, ..quiet };
    let mut state = PlaybackState::new();

    assert_eq!(playback_step(&mut state, 10, quiet, None), PlaybackAction::Render { elapsed: 10, resumed: false });
    assert_eq!(playback_step(&mut state, 20, pause, None), PlaybackAction::Wait);
    assert_eq!(playback_step(&mut state, 50, quiet, None), PlaybackAction::Wait);
    assert_eq!(playback_elapsed(&state, 70), 20);
    let resized = PlaybackEvents { resized: true, ..quiet };
    assert_eq!(playback_step(&mut state, 60, resized, None), PlaybackAction::Render { elapsed: 20, resumed: false });
    assert_eq!(playback_step(&mut state, 80, pause, None), PlaybackAction::Render { elapsed: 20, resumed: true });
    assert_eq!(playback_step(&mut state, 90, quiet, None), PlaybackAction::Render { elapsed: 30, resumed: false });
}

#[test]
fn playback_stops_on_quit_or_when_the_duration_has_passed() {
    let quiet = PlaybackEvents { exit: false, resized: false, toggle_pause: false };
    let mut state = PlaybackState::new();
    assert_eq!(playback_step(&mut state, 5, quiet, Some(10)), PlaybackAction::Render { elapsed: 5, resumed: false });
    assert_eq!(playback_step(&mut state, 10, quiet, Some(10)), PlaybackAction::Stop);
    let mut state = PlaybackState::new();
    let quit = PlaybackEvents { exit: true, ..quiet };
    assert_eq!(playback_step(&mut state, 1, quit, None), PlaybackAction::Stop);
}
