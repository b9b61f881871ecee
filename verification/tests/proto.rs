use knightty::proto::cell_span::{parse_cell_span, CellSpanParseError};
use knightty::proto::iterm2::{parse_iterm2_inline_image, ImageDimension, InlineImageParseError, MAX_METADATA_BYTES};
use knightty::proto::kitty::{
    encode_response, parse_kitty_command, response_context, KittyAction, KittyCommand, KittyContinuation,
    KittyDeleteSelector, KittyErrorCode, KittyFormat, KittyImageKey, KittyParseError, KittyProtocolError,
    KittyQuiet, KittyResponseContext, ParsedKittyCommand,
};
use knightty::proto::router::{GraphicsEscapeRouter, GraphicsStreamItem};
use base64::Engine;
use base64::engine::general_purpose::STANDARD;

#[test]
fn ascii_cell_span_parses() {
    let command = parse_cell_span("span=4x2:A").unwrap();
    assert_eq!((command.columns, command.rows, command.text), (4, 2, "A"));
}

#[test]
fn combining_sequence_is_one_grapheme() {
    let command = parse_cell_span("span=2x2:e\u{301}").unwrap();
    assert_eq!(command.text, "e\u{301}");
}

#[test]
fn zwj_emoji_is_one_grapheme() {
    let command = parse_cell_span("span=4x3:👨‍💻").unwrap();
    assert_eq!(command.text, "👨‍💻");
}

#[test]
fn multiple_graphemes_are_accepted() {
    let command = parse_cell_span("span=4x2:AB界").unwrap();
    assert_eq!(command.columns, 4);
    assert_eq!(command.rows, 2);
    assert_eq!(command.text, "AB界");
}

#[test]
fn zero_and_overflowing_dimensions_are_rejected() {
    for payload in ["span=0x1:A", "span=1x0:A", "span=65536x1:A"] {
        assert_eq!(
            parse_cell_span(payload),
            Err(CellSpanParseError::InvalidDimension)
        );
    }
}

#[test]
fn controls_and_empty_text_are_rejected() {
    assert_eq!(
        parse_cell_span("span=1x1:"),
        Err(CellSpanParseError::MissingText)
    );
    assert_eq!(
        parse_cell_span("span=1x1:\n"),
        Err(CellSpanParseError::ControlCharacter)
    );
}

#[test]
fn minimal_inline_image_parses() {
    let parsed =
        parse_iterm2_inline_image("File=inline=1:AAAA").expect("minimal image parses");

    assert_eq!(parsed.payload, "AAAA");
    assert_eq!(parsed.name, None);
    assert_eq!(parsed.width, None);
    assert_eq!(parsed.height, None);
}

#[test]
fn name_is_base64_decoded_for_diagnostics() {
    let name = STANDARD.encode("sample.png");
    let sequence = format!("File=name={name};inline=1:AAAA");
    let parsed = parse_iterm2_inline_image(&sequence).expect("named image parses");

    assert_eq!(parsed.name.as_deref(), Some("sample.png"));
}

#[test]
fn cell_dimensions_and_auto_parse() {
    let parsed = parse_iterm2_inline_image(
        "File=width=12;height=auto;preserveAspectRatio=1;inline=1:AAAA",
    )
    .expect("dimensions parse");

    assert_eq!(parsed.width, Some(ImageDimension::Cells(12)));
    assert_eq!(parsed.height, Some(ImageDimension::Auto));
}

#[test]
fn unknown_attributes_are_ignored() {
    let parsed = parse_iterm2_inline_image("File=custom=value;inline=1:AAAA")
        .expect("unknown attribute is ignored");

    assert_eq!(parsed.payload, "AAAA");
}

#[test]
fn duplicate_known_attribute_is_rejected() {
    let error = parse_iterm2_inline_image("File=inline=1;width=2;width=3:AAAA")
        .expect_err("duplicate width should fail");

    assert_eq!(error, InlineImageParseError::DuplicateAttribute);
}

#[test]
fn malformed_attribute_is_rejected() {
    let error = parse_iterm2_inline_image("File=inline=1;broken:AAAA")
        .expect_err("malformed attribute should fail");

    assert_eq!(error, InlineImageParseError::MalformedAttribute);
}

#[test]
fn missing_colon_is_rejected() {
    assert_eq!(
        parse_iterm2_inline_image("File=inline=1").unwrap_err(),
        InlineImageParseError::MissingColon
    );
}

#[test]
fn missing_payload_is_rejected() {
    assert_eq!(
        parse_iterm2_inline_image("File=inline=1:").unwrap_err(),
        InlineImageParseError::MissingPayload
    );
}

#[test]
fn inline_zero_is_rejected() {
    assert_eq!(
        parse_iterm2_inline_image("File=inline=0:AAAA").unwrap_err(),
        InlineImageParseError::InlineDisabled
    );
}

#[test]
fn invalid_base64_name_is_rejected() {
    assert_eq!(
        parse_iterm2_inline_image("File=name=***;inline=1:AAAA").unwrap_err(),
        InlineImageParseError::InvalidName
    );
}

#[test]
fn unsupported_dimensions_are_rejected() {
    for dimension in ["0", "25px", "10%", "-1"] {
        let sequence = format!("File=inline=1;width={dimension}:AAAA");
        assert_eq!(
            parse_iterm2_inline_image(&sequence).unwrap_err(),
            InlineImageParseError::UnsupportedDimension
        );
    }
}

#[test]
fn preserve_aspect_ratio_zero_is_rejected() {
    assert_eq!(
        parse_iterm2_inline_image("File=inline=1;preserveAspectRatio=0:AAAA").unwrap_err(),
        InlineImageParseError::UnsupportedAspectRatio
    );
}

#[test]
fn oversized_metadata_is_rejected() {
    let metadata = "x".repeat(MAX_METADATA_BYTES + 1);
    let sequence = format!("File={metadata}:AAAA");

    assert_eq!(
        parse_iterm2_inline_image(&sequence).unwrap_err(),
        InlineImageParseError::MetadataTooLarge
    );
}

fn command(input: &[u8]) -> KittyCommand<'_> {
    match parse_kitty_command(input).expect("Kitty command parses") {
        ParsedKittyCommand::Command(command) => command,
        ParsedKittyCommand::Continuation(_) => panic!("expected a complete command"),
    }
}

#[test]
fn fragmented_kitty_apc_is_captured_without_exposing_payload_to_vte() {
    let mut router = GraphicsEscapeRouter::new(1024);

    assert_eq!(
        router.feed(b"before\x1b"),
        vec![GraphicsStreamItem::Vte(b"before".to_vec())]
    );
    assert!(router.feed(b"_Gf=100,i=42;AAAA\x1b").is_empty());
    assert_eq!(
        router.feed(b"\\after"),
        vec![
            GraphicsStreamItem::Kitty(b"f=100,i=42;AAAA".to_vec()),
            GraphicsStreamItem::Vte(b"after".to_vec()),
        ]
    );
}

#[test]
fn kitty_control_payload_and_st_can_each_cross_read_boundaries() {
    let mut router = GraphicsEscapeRouter::new(1024);

    assert!(router.feed(b"\x1b_Ga=T,f=100,i=42").is_empty());
    assert!(router.feed(b",m=1;").is_empty());
    assert!(router.feed(b"AAAA\x1b").is_empty());
    assert_eq!(
        router.feed(b"\\"),
        vec![GraphicsStreamItem::Kitty(
            b"a=T,f=100,i=42,m=1;AAAA".to_vec()
        )]
    );
}

#[test]
fn multiple_kitty_apcs_and_utf8_are_routed_in_order_from_one_read() {
    let mut router = GraphicsEscapeRouter::new(1024);
    let input =
        b"\xe5\x89\x8d\x1b_Ga=t,f=100,i=1,m=1;AAAA\x1b\\\x1b_Gm=0;\x1b\\\xe5\xbe\x8c";

    assert_eq!(
        router.feed(input),
        vec![
            GraphicsStreamItem::Vte("前".as_bytes().to_vec()),
            GraphicsStreamItem::Kitty(b"a=t,f=100,i=1,m=1;AAAA".to_vec()),
            GraphicsStreamItem::Kitty(b"m=0;".to_vec()),
            GraphicsStreamItem::Vte("後".as_bytes().to_vec()),
        ]
    );
}

#[test]
fn ordinary_sequences_and_non_kitty_apc_pass_through_exactly() {
    let mut router = GraphicsEscapeRouter::new(1024);
    let input = b"A\x1b[31mB\x1b_Xpayload\x1b\\C\x1b]0;title\x07";

    assert_eq!(
        router.feed(input),
        vec![GraphicsStreamItem::Vte(input.to_vec())]
    );
}

#[test]
fn oversized_kitty_payload_is_discarded_and_router_recovers() {
    let mut router = GraphicsEscapeRouter::new(4);

    assert_eq!(
        router.feed(b"\x1b_Gf=100,i=9;AAAAA\x1b\\ok"),
        vec![
            GraphicsStreamItem::OversizedKitty {
                control_data: b"f=100,i=9".to_vec(),
            },
            GraphicsStreamItem::Vte(b"ok".to_vec()),
        ]
    );
}

#[test]
fn transmit_place_and_delete_commands_parse() {
    let transmit = command(b"a=T,f=100,t=d,i=42,p=7,c=10,r=5,C=1,q=1,m=0;AAAA");
    assert_eq!(transmit.action, KittyAction::TransmitAndDisplay);
    assert_eq!(transmit.format, KittyFormat::Png);
    assert_eq!(transmit.image_id.unwrap().client_id, 42);
    assert_eq!(transmit.placement_id, Some(7));
    assert_eq!(transmit.columns, Some(10));
    assert_eq!(transmit.rows, Some(5));
    assert!(!transmit.cursor_movement);
    assert_eq!(transmit.quiet, KittyQuiet::SuppressSuccess);
    assert!(!transmit.more_chunks);

    assert_eq!(command(b"a=p,i=42").action, KittyAction::Place);
    let delete = command(b"a=d,d=i,i=42");
    assert_eq!(delete.action, KittyAction::Delete);
    assert_eq!(
        delete.delete_selector,
        Some(KittyDeleteSelector::Image {
            hard: false,
            image_id: KittyImageKey { client_id: 42 },
            placement_id: None,
        })
    );
}

#[test]
fn delete_selectors_parse_with_typed_arguments_and_case_sensitive_hardness() {
    let cases = [
        (b"a=d".as_slice(), KittyDeleteSelector::All { hard: false }),
        (b"a=d,d=A", KittyDeleteSelector::All { hard: true }),
        (
            b"a=d,d=i,i=42,p=7",
            KittyDeleteSelector::Image {
                hard: false,
                image_id: KittyImageKey { client_id: 42 },
                placement_id: Some(7),
            },
        ),
        (
            b"a=d,d=I,i=42",
            KittyDeleteSelector::Image {
                hard: true,
                image_id: KittyImageKey { client_id: 42 },
                placement_id: None,
            },
        ),
        (
            b"a=d,d=p,x=1,y=2",
            KittyDeleteSelector::Cell {
                hard: false,
                column: 1,
                row: 2,
            },
        ),
        (
            b"a=d,d=P,x=3,y=4",
            KittyDeleteSelector::Cell {
                hard: true,
                column: 3,
                row: 4,
            },
        ),
        (
            b"a=d,d=x,x=5",
            KittyDeleteSelector::Column {
                hard: false,
                column: 5,
            },
        ),
        (
            b"a=d,d=X,x=6",
            KittyDeleteSelector::Column {
                hard: true,
                column: 6,
            },
        ),
        (
            b"a=d,d=y,y=7",
            KittyDeleteSelector::Row {
                hard: false,
                row: 7,
            },
        ),
        (
            b"a=d,d=Y,y=8",
            KittyDeleteSelector::Row { hard: true, row: 8 },
        ),
        (
            b"a=d,d=z,z=-9",
            KittyDeleteSelector::ZIndex {
                hard: false,
                z_index: -9,
            },
        ),
        (
            b"a=d,d=Z,z=0",
            KittyDeleteSelector::ZIndex {
                hard: true,
                z_index: 0,
            },
        ),
    ];

    for (input, expected) in cases {
        let parsed = command(input);
        assert_eq!(parsed.delete_selector, Some(expected), "{input:?}");
        assert_eq!(
            expected.is_hard(),
            matches!(
                expected,
                KittyDeleteSelector::All { hard: true }
                    | KittyDeleteSelector::Image { hard: true, .. }
                    | KittyDeleteSelector::Cell { hard: true, .. }
                    | KittyDeleteSelector::Column { hard: true, .. }
                    | KittyDeleteSelector::Row { hard: true, .. }
                    | KittyDeleteSelector::ZIndex { hard: true, .. }
            )
        );
    }
}

#[test]
fn delete_selector_validation_is_atomic_and_rejects_missing_or_invalid_controls() {
    for input in [
        b"a=d,d=i".as_slice(),
        b"a=d,d=I,i=0",
        b"a=d,d=p,x=1",
        b"a=d,d=p,y=1",
        b"a=d,d=p,x=0,y=1",
        b"a=d,d=x",
        b"a=d,d=x,x=0",
        b"a=d,d=y",
        b"a=d,d=y,y=0",
        b"a=d,d=z",
    ] {
        assert!(parse_kitty_command(input).is_err(), "{input:?}");
    }
    assert_eq!(
        parse_kitty_command(b"a=d,d=?").unwrap_err(),
        KittyParseError::UnsupportedFeature
    );
    assert_eq!(
        parse_kitty_command(b"a=d,d=i,i=1,m=0").unwrap_err(),
        KittyParseError::UnsupportedFeature
    );
    assert_eq!(
        parse_kitty_command(b"a=d,d=i,i=1;AAAA").unwrap_err(),
        KittyParseError::UnexpectedPayload
    );
    assert_eq!(
        parse_kitty_command(b"a=d,d=x,x=4294967296").unwrap_err(),
        KittyParseError::InvalidValue
    );
}

#[test]
fn raw_rgb_rgba_and_default_format_parse_with_source_dimensions() {
    assert_eq!(
        command(b"a=t,f=24,s=2,v=3,i=1;AAAA").format,
        KittyFormat::Rgb24 {
            width: 2,
            height: 3,
        }
    );
    assert_eq!(
        command(b"a=t,f=32,s=4,v=5,i=1;AAAA").format,
        KittyFormat::Rgba32 {
            width: 4,
            height: 5,
        }
    );
    assert_eq!(
        command(b"a=t,s=6,v=7,i=1;AAAA").format,
        KittyFormat::Rgba32 {
            width: 6,
            height: 7,
        }
    );

    assert_eq!(
        command(b"a=t,f=100,s=8,v=9,i=1;AAAA").format,
        KittyFormat::Png
    );
    assert_eq!(command(b"a=t,f=100,i=1;AAAA").format, KittyFormat::Png);
}

#[test]
fn raw_formats_require_nonzero_dimensions_and_validate_dimension_keys() {
    for input in [
        b"a=t,f=24,v=1,i=1;AAAA".as_slice(),
        b"a=t,f=24,s=1,i=1;AAAA",
        b"a=t,f=32,s=0,v=1,i=1;AAAA",
        b"a=t,f=32,s=1,v=0,i=1;AAAA",
        b"a=t,f=32,s=4294967296,v=1,i=1;AAAA",
    ] {
        assert_eq!(
            parse_kitty_command(input).unwrap_err(),
            KittyParseError::InvalidValue
        );
    }
    for input in [
        b"a=t,f=24,s=1,s=2,v=1,i=1;AAAA".as_slice(),
        b"a=t,f=32,s=1,v=1,v=2,i=1;AAAA",
    ] {
        assert_eq!(
            parse_kitty_command(input).unwrap_err(),
            KittyParseError::DuplicateKey
        );
    }
}

#[test]
fn source_rect_pixel_offsets_and_signed_z_parse_case_sensitively() {
    let placement = command(b"a=p,i=42,x=1,y=2,w=0,h=4,X=5,Y=6,z=-7");
    assert_eq!(placement.source_x, Some(1));
    assert_eq!(placement.source_y, Some(2));
    assert_eq!(placement.source_width, Some(0));
    assert_eq!(placement.source_height, Some(4));
    assert_eq!(placement.pixel_offset_x, Some(5));
    assert_eq!(placement.pixel_offset_y, Some(6));
    assert_eq!(placement.z_index, -7);

    let origin_defaults = command(b"a=p,i=42,w=8,h=9,z=+3");
    assert_eq!(origin_defaults.source_x, None);
    assert_eq!(origin_defaults.source_y, None);
    assert_eq!(origin_defaults.source_width, Some(8));
    assert_eq!(origin_defaults.source_height, Some(9));
    assert_eq!(origin_defaults.z_index, 3);

    let edge_defaults = command(b"a=p,i=42,x=8,y=9,z=0");
    assert_eq!(edge_defaults.source_x, Some(8));
    assert_eq!(edge_defaults.source_y, Some(9));
    assert_eq!(edge_defaults.source_width, None);
    assert_eq!(edge_defaults.source_height, None);
    assert_eq!(edge_defaults.z_index, 0);
}

#[test]
fn f4_integer_validation_rejects_invalid_values_overflow_and_duplicates() {
    for input in [
        b"a=p,i=1,x=-1".as_slice(),
        b"a=p,i=1,x=4294967296",
        b"a=p,i=1,X=65536",
        b"a=p,i=1,z=2147483648",
        b"a=p,i=1,z=-2147483649",
        b"a=p,i=1,z=+",
    ] {
        assert_eq!(
            parse_kitty_command(input).unwrap_err(),
            KittyParseError::InvalidValue
        );
    }
    assert_eq!(
        parse_kitty_command(b"a=p,i=1,x=1,x=2").unwrap_err(),
        KittyParseError::DuplicateKey
    );
    assert_eq!(command(b"a=p,i=1,z=-2147483648").z_index, i32::MIN);
}

#[test]
fn multipart_initial_and_continuation_chunks_parse() {
    let initial = command(b"a=T,f=100,t=d,i=42,p=7,q=1,m=1;AAAA");
    assert_eq!(initial.action, KittyAction::TransmitAndDisplay);
    assert_eq!(initial.image_id.unwrap().client_id, 42);
    assert_eq!(initial.placement_id, Some(7));
    assert_eq!(initial.quiet, KittyQuiet::SuppressSuccess);
    assert!(initial.more_chunks);
    assert_eq!(initial.payload, b"AAAA");

    assert_eq!(
        parse_kitty_command(b"m=1,q=2;").unwrap(),
        ParsedKittyCommand::Continuation(KittyContinuation {
            more_chunks: true,
            quiet: Some(KittyQuiet::SuppressAll),
            payload: b"",
        })
    );
    assert_eq!(
        parse_kitty_command(b"m=0;").unwrap(),
        ParsedKittyCommand::Continuation(KittyContinuation {
            more_chunks: false,
            quiet: None,
            payload: b"",
        })
    );
}

#[test]
fn parser_rejects_invalid_known_values_and_unsupported_features() {
    assert_eq!(
        parse_kitty_command(b"a=T,f=99,i=1;AAAA").unwrap_err(),
        KittyParseError::UnsupportedFeature
    );
    assert_eq!(
        parse_kitty_command(b"a=T,f=100,m=1;AAAA").unwrap_err(),
        KittyParseError::MissingImageId
    );
    assert_eq!(
        parse_kitty_command(b"a=p,i=1,C=2").unwrap_err(),
        KittyParseError::InvalidValue
    );
    assert_eq!(
        parse_kitty_command(b"a=p,i=1,i=2").unwrap_err(),
        KittyParseError::DuplicateKey
    );
    assert_eq!(command(b"a=p,i=1,z=2").z_index, 2);
    assert_eq!(
        parse_kitty_command(b"a=p,i=1,m=1;").unwrap_err(),
        KittyParseError::UnsupportedFeature
    );
    assert_eq!(
        parse_kitty_command(b"m=1").unwrap_err(),
        KittyParseError::MalformedControlData
    );
    assert_eq!(
        parse_kitty_command(b"f=99,m=1,custom=value;AAAA").unwrap_err(),
        KittyParseError::UnsupportedFeature
    );
}

#[test]
fn unknown_keys_are_ignored_and_zero_ids_are_unspecified() {
    let command = command(b"a=T,f=100,i=0,p=0,custom=value;AAAA");
    assert_eq!(command.image_id, None);
    assert_eq!(command.placement_id, None);
}

#[test]
fn responses_include_ids_and_honor_quiet_policy() {
    let context = KittyResponseContext {
        image_id: Some(42),
        placement_id: Some(7),
        quiet: KittyQuiet::Normal,
    };
    assert_eq!(
        encode_response(context, Ok(())).unwrap(),
        b"\x1b_Gi=42,p=7;OK\x1b\\"
    );
    assert_eq!(
        encode_response(
            context,
            Err(KittyProtocolError::new(
                KittyErrorCode::NoEntry,
                "image not found"
            ))
        )
        .unwrap(),
        b"\x1b_Gi=42,p=7;ENOENT:image not found\x1b\\"
    );
    assert!(
        encode_response(
            KittyResponseContext {
                quiet: KittyQuiet::SuppressSuccess,
                ..context
            },
            Ok(())
        )
        .is_none()
    );
    assert!(
        encode_response(
            KittyResponseContext {
                quiet: KittyQuiet::SuppressAll,
                ..context
            },
            Err(KittyProtocolError::new(
                KittyErrorCode::Invalid,
                "bad command"
            ))
        )
        .is_none()
    );
}

#[test]
fn response_context_is_recovered_from_invalid_control_data() {
    assert_eq!(
        response_context(b"a=T,i=42,p=3,q=2,C=9"),
        KittyResponseContext {
            image_id: Some(42),
            placement_id: Some(3),
            quiet: KittyQuiet::SuppressAll,
        }
    );
}
