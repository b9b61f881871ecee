use base64::engine::general_purpose::STANDARD;
use base64::Engine;
use knightty::proto::iterm2::{parse_iterm2_inline_image, InlineImageSequence};
use knightty::proto::kitty::KittyFormat;
use knightty::term::grid::{GridPoint, ImageId, ImagePlacementId, ImageSourceRect};
use knightty::ui::inline_image::{
    accept_decoded_png, decode_kitty_image, decode_png, decode_png_payload,
    pending_inline_image_is_oversized, placement_for_image, retained_pty_bytes, placement_for_kitty, scan_pty_stream,
    CellMetrics, DecodedImage, ImageLimits, InlineImageError, KittyPlacementOptions, PtyStreamItem,
};

const TRANSPARENT_PNG: &str = "iVBORw0KGgoAAAANSUhEUgAAAAEAAAABCAQAAAC1HAwCAAAAC0lEQVR42mNk+A8AAQUBAScY42YAAAAASUVORK5CYII=";

fn limits() -> ImageLimits {
    ImageLimits {
        max_encoded_bytes: 1024 * 1024,
        max_decoded_bytes: 4 * 1024 * 1024,
        max_width: 8192,
        max_height: 8192,
        max_pixels: 32_000_000,
        max_images: 128,
        max_gpu_bytes: 256 * 1024 * 1024,
    }
}

fn sequence(metadata: &str) -> InlineImageSequence<'_> {
    parse_iterm2_inline_image(metadata).expect("valid test sequence")
}

fn blank_image(width: u32, height: u32) -> DecodedImage {
    DecodedImage {
        width,
        height,
        rgba: vec![0; (width * height * 4) as usize],
    }
}

#[test]
fn bel_and_st_inline_images_are_scanned_without_exposing_payload_as_text() {
    let input =
        b"before\x1b]1337;File=inline=1:AAAA\x07middle\x1b]1337;File=inline=1:BBBB\x1b\\after";
    let scan = scan_pty_stream(input);

    assert_eq!(
        scan.items,
        vec![
            PtyStreamItem::Text(b"before"),
            PtyStreamItem::InlineImage("inline=1:AAAA"),
            PtyStreamItem::Text(b"middle"),
            PtyStreamItem::InlineImage("inline=1:BBBB"),
            PtyStreamItem::Text(b"after"),
        ]
    );
    assert_eq!(scan.consumed, input.len());
}

#[test]
fn incomplete_osc_is_retained_for_the_next_feed() {
    let input = b"text\x1b]1337;File=inline=1:AAAA";
    let scan = scan_pty_stream(input);

    assert_eq!(scan.items, vec![PtyStreamItem::Text(b"text")]);
    assert_eq!(scan.consumed, 4);
}

#[test]
fn other_osc_sequences_stay_text_and_eight_bit_introducers_are_recognised() {
    let input = b"a\x1b]0;title\x07b\x9d1337;File=x\x9c";
    let scan = scan_pty_stream(input);
    assert_eq!(
        scan.items,
        vec![
            PtyStreamItem::Text(b"a"),
            PtyStreamItem::Text(b"\x1b]0;title\x07"),
            PtyStreamItem::Text(b"b"),
            PtyStreamItem::InlineImage("x"),
        ]
    );
    assert_eq!(scan.consumed, input.len());
}

#[test]
fn non_utf8_image_command_is_reported_invalid() {
    let scan = scan_pty_stream(b"\x1b]1337;File=\xff\x07");
    assert_eq!(scan.items, vec![PtyStreamItem::InvalidInlineImage]);
    assert_eq!(scan.consumed, 14);
}

#[test]
fn pending_image_commands_are_oversized_only_past_the_payload_budget() {
    let mut small = limits();
    small.max_encoded_bytes = 0;
    let mut pending = b"\x1b]1337;File=".to_vec();
    pending.resize(4096 + 64, b'A');
    assert!(!pending_inline_image_is_oversized(&pending, small));
    pending.push(b'A');
    assert!(pending_inline_image_is_oversized(&pending, small));
    assert!(!pending_inline_image_is_oversized(b"\x1b]0;title", small));
    let mut eight_bit = b"\x9d1337;File=".to_vec();
    eight_bit.resize(5000, b'A');
    assert!(pending_inline_image_is_oversized(&eight_bit, small));
}

#[test]
fn valid_transparent_png_decodes_to_rgba() {
    let command = format!("File=inline=1:{TRANSPARENT_PNG}");
    let sequence = sequence(&command);

    let image = decode_png(&sequence, limits()).expect("PNG decodes");

    assert_eq!((image.width, image.height), (1, 1));
    assert_eq!(image.rgba.len(), 4);
}

#[test]
fn invalid_base64_and_invalid_png_are_rejected() {
    let invalid_base64 = sequence("File=inline=1:***");
    assert_eq!(
        decode_png(&invalid_base64, limits()).unwrap_err(),
        InlineImageError::InvalidBase64
    );

    let invalid_png = sequence("File=inline=1:bm90IGEgcG5n");
    assert_eq!(
        decode_png(&invalid_png, limits()).unwrap_err(),
        InlineImageError::InvalidPng
    );
}

#[test]
fn raw_rgb_expands_to_opaque_rgba_and_rgba_preserves_straight_alpha() {
    let rgb = STANDARD.encode([10, 20, 30]);
    let image = decode_kitty_image(
        KittyFormat::Rgb24 {
            width: 1,
            height: 1,
        },
        rgb.as_bytes(),
        limits(),
    )
    .unwrap();
    assert_eq!((image.width, image.height), (1, 1));
    assert_eq!(&image.rgba[..], &[10, 20, 30, 255]);

    let rgba_bytes = [
        1, 2, 3, 0, // transparent
        4, 5, 6, 128, // translucent
        7, 8, 9, 255, // opaque
    ];
    let rgba = STANDARD.encode(rgba_bytes);
    let image = decode_kitty_image(
        KittyFormat::Rgba32 {
            width: 3,
            height: 1,
        },
        rgba.as_bytes(),
        limits(),
    )
    .unwrap();
    assert_eq!(&image.rgba[..], &rgba_bytes);
}

#[test]
fn raw_rgb_of_several_pixels_keeps_pixel_order() {
    let rgb = STANDARD.encode([1, 2, 3, 4, 5, 6]);
    let image = decode_kitty_image(
        KittyFormat::Rgb24 {
            width: 2,
            height: 1,
        },
        rgb.as_bytes(),
        limits(),
    )
    .unwrap();
    assert_eq!(image.rgba, vec![1, 2, 3, 255, 4, 5, 6, 255]);
}

#[test]
fn raw_payload_requires_valid_base64_and_exact_decoded_length() {
    assert_eq!(
        decode_kitty_image(
            KittyFormat::Rgb24 {
                width: 1,
                height: 1,
            },
            b"***",
            limits(),
        )
        .unwrap_err(),
        InlineImageError::InvalidBase64
    );

    for raw in [[1, 2].as_slice(), [1, 2, 3, 4].as_slice()] {
        let payload = STANDARD.encode(raw);
        assert_eq!(
            decode_kitty_image(
                KittyFormat::Rgb24 {
                    width: 1,
                    height: 1,
                },
                payload.as_bytes(),
                limits(),
            )
            .unwrap_err(),
            InlineImageError::InvalidPayloadLength
        );
    }
}

#[test]
fn raw_dimensions_pixels_decoded_bytes_and_overflow_are_bounded() {
    let rgba = STANDARD.encode([1, 2, 3, 4]);

    let mut restricted = limits();
    restricted.max_width = 0;
    assert_eq!(
        decode_kitty_image(
            KittyFormat::Rgba32 {
                width: 1,
                height: 1,
            },
            rgba.as_bytes(),
            restricted,
        )
        .unwrap_err(),
        InlineImageError::DimensionLimit
    );

    let mut restricted = limits();
    restricted.max_pixels = 0;
    assert_eq!(
        decode_kitty_image(
            KittyFormat::Rgba32 {
                width: 1,
                height: 1,
            },
            rgba.as_bytes(),
            restricted,
        )
        .unwrap_err(),
        InlineImageError::PixelLimit
    );

    let mut restricted = limits();
    restricted.max_decoded_bytes = 3;
    assert_eq!(
        decode_kitty_image(
            KittyFormat::Rgba32 {
                width: 1,
                height: 1,
            },
            rgba.as_bytes(),
            restricted,
        )
        .unwrap_err(),
        InlineImageError::DecodedTooLarge
    );

    let unbounded = ImageLimits {
        max_encoded_bytes: usize::MAX,
        max_decoded_bytes: usize::MAX,
        max_width: u32::MAX,
        max_height: u32::MAX,
        max_pixels: u64::MAX,
        max_images: usize::MAX,
        max_gpu_bytes: usize::MAX,
    };
    assert_eq!(
        decode_kitty_image(
            KittyFormat::Rgba32 {
                width: u32::MAX,
                height: u32::MAX,
            },
            b"",
            unbounded,
        )
        .unwrap_err(),
        InlineImageError::SizeOverflow
    );
}

#[test]
fn zero_sized_raw_images_are_rejected() {
    assert_eq!(
        decode_kitty_image(KittyFormat::Rgba32 { width: 0, height: 1 }, b"", limits()).unwrap_err(),
        InlineImageError::ZeroDimension
    );
}

#[test]
fn truncated_png_is_rejected() {
    let mut compressed = STANDARD.decode(TRANSPARENT_PNG).unwrap();
    compressed.truncate(compressed.len() / 2);
    let command = format!("File=inline=1:{}", STANDARD.encode(compressed));

    assert_eq!(
        decode_png(&sequence(&command), limits()).unwrap_err(),
        InlineImageError::InvalidPng
    );
}

#[test]
fn encoded_and_decoded_limits_are_enforced() {
    let command = format!("File=inline=1:{TRANSPARENT_PNG}");
    let sequence = sequence(&command);
    let mut restricted = limits();
    restricted.max_encoded_bytes = 8;
    assert_eq!(
        decode_png(&sequence, restricted).unwrap_err(),
        InlineImageError::EncodedTooLarge
    );

    let mut restricted = limits();
    restricted.max_decoded_bytes = 3;
    assert_eq!(
        decode_png(&sequence, restricted).unwrap_err(),
        InlineImageError::DecodedTooLarge
    );
}

#[test]
fn encoded_limit_equal_to_the_payload_length_is_accepted() {
    let mut restricted = limits();
    restricted.max_encoded_bytes = TRANSPARENT_PNG.len();
    let decoded_len = STANDARD.decode(TRANSPARENT_PNG).unwrap().len();
    assert!(decoded_len < TRANSPARENT_PNG.len());
    assert!(decode_png_payload(TRANSPARENT_PNG.as_bytes(), restricted).is_ok());
}

#[test]
fn dimension_and_pixel_limits_are_enforced() {
    let command = format!("File=inline=1:{TRANSPARENT_PNG}");
    let sequence = sequence(&command);
    let mut restricted = limits();
    restricted.max_width = 0;
    assert_eq!(
        decode_png(&sequence, restricted).unwrap_err(),
        InlineImageError::DimensionLimit
    );

    let mut restricted = limits();
    restricted.max_pixels = 0;
    assert_eq!(
        decode_png(&sequence, restricted).unwrap_err(),
        InlineImageError::PixelLimit
    );
}

#[test]
fn decoder_answers_are_checked_against_the_limits() {
    assert_eq!(accept_decoded_png(None, limits()).unwrap_err(), InlineImageError::InvalidPng);
    assert_eq!(
        accept_decoded_png(Some((2, 1, vec![0; 4])), limits()).unwrap_err(),
        InlineImageError::SizeOverflow
    );
    let image = accept_decoded_png(Some((1, 2, vec![9; 8])), limits()).unwrap();
    assert_eq!((image.width, image.height, image.rgba), (1, 2, vec![9; 8]));
}

#[test]
fn natural_size_uses_non_square_cell_metrics() {
    let image = decode_png(
        &sequence(&format!("File=inline=1:{TRANSPARENT_PNG}")),
        limits(),
    )
    .unwrap();
    let placement = placement_for_image(
        ImageId::new(1),
        ImagePlacementId::new(1),
        &image,
        &sequence(&format!("File=inline=1:{TRANSPARENT_PNG}")),
        GridPoint { col: 0, row: 0 },
        80,
        CellMetrics {
            width: 8,
            height: 16,
        },
    )
    .unwrap();

    assert_eq!((placement.columns, placement.rows), (1, 1));
}

#[test]
fn natural_size_wider_than_the_terminal_keeps_its_aspect_ratio() {
    let image = blank_image(400, 200);
    let placement = placement_for_image(
        ImageId::new(1),
        ImagePlacementId::new(1),
        &image,
        &sequence("File=inline=1:AAAA"),
        GridPoint { col: 0, row: 0 },
        20,
        CellMetrics { width: 10, height: 10 },
    )
    .unwrap();
    assert_eq!((placement.columns, placement.rows), (20, 10));
}

#[test]
fn width_only_derives_height_and_clamps_to_terminal_width() {
    let image = blank_image(400, 200);
    let dimensions = sequence("File=inline=1;width=10:AAAA");

    let placement = placement_for_image(
        ImageId::new(1),
        ImagePlacementId::new(1),
        &image,
        &dimensions,
        GridPoint { col: 3, row: 0 },
        8,
        CellMetrics {
            width: 10,
            height: 20,
        },
    )
    .unwrap();

    assert_eq!(placement.columns, 5);
    assert_eq!(placement.rows, 2);
}

#[test]
fn height_only_derives_width() {
    let image = blank_image(400, 200);
    let dimensions = sequence("File=inline=1;height=4:AAAA");

    let placement = placement_for_image(
        ImageId::new(1),
        ImagePlacementId::new(1),
        &image,
        &dimensions,
        GridPoint { col: 0, row: 0 },
        80,
        CellMetrics {
            width: 10,
            height: 20,
        },
    )
    .unwrap();

    assert_eq!((placement.columns, placement.rows), (16, 4));
}

#[test]
fn explicit_width_and_height_fit_inside_the_requested_cell_box() {
    let image = blank_image(400, 200);
    let dimensions = sequence("File=inline=1;width=10;height=2:AAAA");

    let placement = placement_for_image(
        ImageId::new(1),
        ImagePlacementId::new(1),
        &image,
        &dimensions,
        GridPoint { col: 0, row: 0 },
        80,
        CellMetrics {
            width: 10,
            height: 20,
        },
    )
    .unwrap();

    assert_eq!((placement.columns, placement.rows), (8, 2));
}

#[test]
fn kitty_explicit_columns_and_rows_use_the_exact_requested_rectangle() {
    let image = blank_image(400, 200);

    let placement = placement_for_kitty(
        ImageId::new(1),
        ImagePlacementId::new(1),
        &image,
        KittyPlacementOptions {
            columns: Some(10),
            rows: Some(2),
            ..KittyPlacementOptions::default()
        },
        GridPoint { col: 0, row: 0 },
        CellMetrics {
            width: 10,
            height: 20,
        },
    )
    .expect("Kitty placement is valid");

    assert_eq!((placement.columns, placement.rows), (10, 2));
}

#[test]
fn kitty_single_dimension_preserves_pixel_aspect_ratio() {
    let image = blank_image(400, 200);

    let placement = placement_for_kitty(
        ImageId::new(1),
        ImagePlacementId::new(1),
        &image,
        KittyPlacementOptions {
            columns: Some(10),
            ..KittyPlacementOptions::default()
        },
        GridPoint { col: 0, row: 0 },
        CellMetrics {
            width: 10,
            height: 20,
        },
    )
    .expect("Kitty placement is valid");

    assert_eq!((placement.columns, placement.rows), (10, 3));
}

#[test]
fn kitty_source_rectangle_intersects_bounds_and_zero_extends_to_edges() {
    let image = blank_image(100, 80);
    let metrics = CellMetrics {
        width: 10,
        height: 10,
    };

    let clipped = placement_for_kitty(
        ImageId::new(1),
        ImagePlacementId::new(1),
        &image,
        KittyPlacementOptions {
            source_x: Some(70),
            source_y: Some(60),
            source_width: Some(50),
            source_height: Some(50),
            ..KittyPlacementOptions::default()
        },
        GridPoint { col: 0, row: 0 },
        metrics,
    )
    .unwrap();
    assert_eq!(
        clipped.source_rect,
        ImageSourceRect {
            x: 70,
            y: 60,
            width: 30,
            height: 20,
        }
    );
    assert_eq!((clipped.columns, clipped.rows), (3, 2));

    let to_edges = placement_for_kitty(
        ImageId::new(1),
        ImagePlacementId::new(2),
        &image,
        KittyPlacementOptions {
            source_x: Some(25),
            source_y: Some(30),
            source_width: Some(0),
            source_height: Some(0),
            ..KittyPlacementOptions::default()
        },
        GridPoint { col: 0, row: 0 },
        metrics,
    )
    .unwrap();
    assert_eq!(
        (to_edges.source_rect.width, to_edges.source_rect.height),
        (75, 50)
    );
}

#[test]
fn kitty_crop_drives_aspect_ratio_and_invalid_intersections_are_rejected() {
    let image = blank_image(100, 80);
    let metrics = CellMetrics {
        width: 10,
        height: 10,
    };
    let cropped = placement_for_kitty(
        ImageId::new(1),
        ImagePlacementId::new(1),
        &image,
        KittyPlacementOptions {
            columns: Some(10),
            source_height: Some(20),
            ..KittyPlacementOptions::default()
        },
        GridPoint { col: 0, row: 0 },
        metrics,
    )
    .unwrap();
    assert_eq!((cropped.columns, cropped.rows), (10, 2));

    for options in [
        KittyPlacementOptions {
            source_x: Some(100),
            ..KittyPlacementOptions::default()
        },
        KittyPlacementOptions {
            source_y: Some(80),
            ..KittyPlacementOptions::default()
        },
        KittyPlacementOptions {
            source_x: Some(u32::MAX),
            source_width: Some(2),
            ..KittyPlacementOptions::default()
        },
    ] {
        assert_eq!(
            placement_for_kitty(
                ImageId::new(1),
                ImagePlacementId::new(1),
                &image,
                options,
                GridPoint { col: 0, row: 0 },
                metrics,
            )
            .unwrap_err(),
            InlineImageError::InvalidSourceRectangle
        );
    }
}

#[test]
fn kitty_pixel_offset_validates_only_against_current_cell_size() {
    let image = blank_image(1, 1);
    let metrics = CellMetrics {
        width: 10,
        height: 20,
    };
    let placement = placement_for_kitty(
        ImageId::new(1),
        ImagePlacementId::new(1),
        &image,
        KittyPlacementOptions {
            pixel_offset_x: Some(9),
            pixel_offset_y: Some(19),
            ..KittyPlacementOptions::default()
        },
        GridPoint { col: 0, row: 0 },
        metrics,
    )
    .unwrap();
    assert_eq!(
        (placement.pixel_offset.x, placement.pixel_offset.y),
        (9, 19)
    );

    for options in [
        KittyPlacementOptions {
            pixel_offset_x: Some(10),
            ..KittyPlacementOptions::default()
        },
        KittyPlacementOptions {
            pixel_offset_y: Some(20),
            ..KittyPlacementOptions::default()
        },
    ] {
        assert_eq!(
            placement_for_kitty(
                ImageId::new(1),
                ImagePlacementId::new(1),
                &image,
                options,
                GridPoint { col: 0, row: 0 },
                metrics,
            )
            .unwrap_err(),
            InlineImageError::InvalidPixelOffset
        );
    }
}

#[test]
fn zero_cell_size_is_rejected() {
    let image = blank_image(1, 1);

    let error = placement_for_image(
        ImageId::new(1),
        ImagePlacementId::new(1),
        &image,
        &sequence("File=inline=1:AAAA"),
        GridPoint { col: 0, row: 0 },
        80,
        CellMetrics {
            width: 0,
            height: 16,
        },
    )
    .unwrap_err();

    assert_eq!(error, InlineImageError::ZeroCellSize);
}

#[test]
fn kitty_placement_keeps_identity_and_z_index() {
    let image = blank_image(20, 20);
    let placement = placement_for_kitty(
        ImageId::new(7),
        ImagePlacementId::new(9),
        &image,
        KittyPlacementOptions {
            z_index: -3,
            kitty_image_id: Some(42),
            ..KittyPlacementOptions::default()
        },
        GridPoint { col: 2, row: -1 },
        CellMetrics { width: 10, height: 10 },
    )
    .unwrap();
    assert_eq!(placement.image_id, ImageId::new(7));
    assert_eq!(placement.placement_id, ImagePlacementId::new(9));
    assert_eq!(placement.kitty_image_id, Some(42));
    assert_eq!(placement.z_index.0, -3);
    assert_eq!((placement.columns, placement.rows), (2, 2));
    assert_eq!(placement.anchor, GridPoint { col: 2, row: -1 });
}

#[test]
fn unscanned_pty_input_is_kept_unless_it_is_an_oversized_image() {
    let input = b"text\x1b]1337;File=inline=1:AAAA";
    assert_eq!(retained_pty_bytes(input, 4, limits()), input[4..].to_vec());
    assert_eq!(retained_pty_bytes(input, input.len(), limits()), Vec::<u8>::new());

    let mut small = limits();
    small.max_encoded_bytes = 0;
    let mut long = b"text\x1b]1337;File=".to_vec();
    long.resize(4 + 4096 + 64, b'A');
    assert_eq!(retained_pty_bytes(&long, 4, small), long[4..].to_vec());
    long.push(b'A');
    assert_eq!(retained_pty_bytes(&long, 4, small), Vec::<u8>::new());
}
