use knightty::proto::iterm2::parse_iterm2_inline_image;
use knightty::proto::kitty::{parse_kitty_command, KittyCommand, KittyErrorCode, ParsedKittyCommand};
use knightty::term::grid::{GridPoint, ImageId, ImagePlacementId};
use knightty::term::placements::ImagePlacements;
use knightty::ui::image_store::{ImageStore, InlineImageRejection, KittyDeletion};
use knightty::ui::inline_image::{CellMetrics, ImageLimits, InlineImageError};
use knightty::ui::kitty_graphics::KittyTransmitMetadata;

const TRANSPARENT_PNG: &str = "iVBORw0KGgoAAAANSUhEUgAAAAEAAAABCAQAAAC1HAwCAAAAC0lEQVR42mNk+A8AAQUBAScY42YAAAAASUVORK5CYII=";

fn limits() -> ImageLimits {
    ImageLimits {
        max_encoded_bytes: 1024 * 1024,
        max_decoded_bytes: 4 * 1024 * 1024,
        max_width: 8192,
        max_height: 8192,
        max_pixels: 32_000_000,
        max_images: 128,
        max_gpu_bytes: 256 * 1024 * 1024,
    }
}

fn metrics() -> CellMetrics {
    CellMetrics { width: 8, height: 16 }
}

fn origin() -> GridPoint {
    GridPoint { col: 0, row: 0 }
}

fn command(input: &[u8]) -> KittyCommand<'_> {
    match parse_kitty_command(input).expect("Kitty command parses") {
        ParsedKittyCommand::Command(command) => command,
        ParsedKittyCommand::Continuation(_) => panic!("expected a complete command"),
    }
}

/// A transmit command's metadata and payload, as the router commits it.
fn transmit(store: &mut ImageStore, terminal: &mut ImagePlacements, input: &[u8]) -> Result<(), KittyErrorCode> {
    let command = command(input);
    let display = input.starts_with(b"a=T");
    let metadata = KittyTransmitMetadata::from_command(&command, display);
    let commit = store
        .commit_kitty_transmit(metadata, command.payload, origin(), metrics(), limits())
        .map_err(|error| error.code)?;
    if let Some(replaced) = commit.replaced {
        terminal.remove_image(replaced);
    }
    if let Some(placement) = commit.placement {
        terminal.upsert(placement);
    }
    Ok(())
}

fn place(store: &mut ImageStore, terminal: &mut ImagePlacements, input: &[u8], anchor: GridPoint) -> Result<(), KittyErrorCode> {
    let command = command(input);
    let placement = store
        .place_kitty_image(&command, anchor, metrics())
        .map_err(|error| error.code)?;
    terminal.upsert(placement);
    Ok(())
}

fn delete(store: &mut ImageStore, terminal: &mut ImagePlacements, input: &[u8]) {
    let command = command(input);
    match store.delete_kitty_placements(&command) {
        KittyDeletion::Nothing => {}
        KittyDeletion::Placement(id) => {
            terminal.remove(id);
        }
        KittyDeletion::Image(id) => {
            terminal.remove_image(id);
        }
    }
}

#[test]
fn new_store_is_empty_and_counts_ids_from_one() {
    let mut store = ImageStore::new();
    assert_eq!(store.image_count(), 0);
    assert_eq!(store.stored_bytes(), 0);
    assert_eq!(store.allocate_image_id(), ImageId::new(1));
    assert_eq!(store.allocate_image_id(), ImageId::new(2));
    assert_eq!(store.allocate_placement_id(), ImagePlacementId::new(1));
}

#[test]
fn inline_image_is_stored_and_placed_at_the_anchor() {
    let mut store = ImageStore::new();
    let text = format!("File=inline=1:{TRANSPARENT_PNG}");
    let sequence = parse_iterm2_inline_image(&text).unwrap();
    let placement = store
        .add_inline_image(&sequence, GridPoint { col: 3, row: 2 }, 80, metrics(), limits())
        .expect("image is stored");

    assert_eq!(placement.image_id, ImageId::new(1));
    assert_eq!(placement.placement_id, ImagePlacementId::new(1));
    assert_eq!(placement.anchor, GridPoint { col: 3, row: 2 });
    assert_eq!((placement.columns, placement.rows), (1, 1));
    assert_eq!(store.image_count(), 1);
    assert_eq!(store.stored_bytes(), 4);
    assert_eq!(store.image(ImageId::new(1)).map(|image| image.rgba.len()), Some(4));
}

#[test]
fn inline_image_rejections_leave_the_store_unchanged() {
    let mut store = ImageStore::new();
    let bad = parse_iterm2_inline_image("File=inline=1:bm90IGEgcG5n").unwrap();
    assert_eq!(
        store.add_inline_image(&bad, origin(), 80, metrics(), limits()),
        Err(InlineImageRejection::Decode(InlineImageError::InvalidPng))
    );

    let text = format!("File=inline=1:{TRANSPARENT_PNG}");
    let good = parse_iterm2_inline_image(&text).unwrap();
    let mut tight = limits();
    tight.max_gpu_bytes = 3;
    assert_eq!(
        store.add_inline_image(&good, origin(), 80, metrics(), tight),
        Err(InlineImageRejection::ByteLimit)
    );
    tight = limits();
    tight.max_images = 0;
    assert_eq!(
        store.add_inline_image(&good, origin(), 80, metrics(), tight),
        Err(InlineImageRejection::CountLimit)
    );
    assert_eq!(store.image_count(), 0);
    assert_eq!(store.stored_bytes(), 0);
    assert_eq!(store.allocate_image_id(), ImageId::new(1));
}

#[test]
fn kitty_transfer_only_image_can_be_placed_later() {
    let mut store = ImageStore::new();
    let mut terminal = ImagePlacements::new();
    let transfer = format!("a=t,f=100,i=42;{TRANSPARENT_PNG}");
    assert_eq!(transmit(&mut store, &mut terminal, transfer.as_bytes()), Ok(()));
    assert_eq!(terminal.len(), 0);
    assert_eq!(store.kitty_image(42), Some(ImageId::new(1)));

    assert_eq!(place(&mut store, &mut terminal, b"a=p,i=42,p=7,c=2,r=1,C=1", origin()), Ok(()));
    assert_eq!(terminal.len(), 1);
    assert_eq!(terminal.as_slice()[0].image_id, ImageId::new(1));
    assert_eq!((terminal.as_slice()[0].columns, terminal.as_slice()[0].rows), (2, 1));
}

#[test]
fn kitty_named_placement_is_replaced_while_anonymous_puts_accumulate() {
    let mut store = ImageStore::new();
    let mut terminal = ImagePlacements::new();
    let transfer = format!("a=t,f=100,i=42,q=1;{TRANSPARENT_PNG}");
    transmit(&mut store, &mut terminal, transfer.as_bytes()).unwrap();
    place(&mut store, &mut terminal, b"a=p,i=42,p=7,C=1,q=1", origin()).unwrap();
    place(&mut store, &mut terminal, b"a=p,i=42,p=7,C=1,q=1", GridPoint { col: 2, row: 1 }).unwrap();

    assert_eq!(terminal.len(), 1);
    assert_eq!(terminal.as_slice()[0].anchor, GridPoint { col: 2, row: 1 });

    place(&mut store, &mut terminal, b"a=p,i=42,C=1,q=1", origin()).unwrap();
    place(&mut store, &mut terminal, b"a=p,i=42,p=0,C=1,q=1", origin()).unwrap();
    assert_eq!(terminal.len(), 3);
}

#[test]
fn kitty_retransmit_replaces_image_and_all_existing_placements() {
    let mut store = ImageStore::new();
    let mut terminal = ImagePlacements::new();
    let first = format!("a=T,f=100,i=42,p=7,C=1,q=1;{TRANSPARENT_PNG}");
    transmit(&mut store, &mut terminal, first.as_bytes()).unwrap();
    place(&mut store, &mut terminal, b"a=p,i=42,p=8,C=1,q=1", origin()).unwrap();
    let previous_id = terminal.as_slice()[0].image_id;
    assert_eq!(terminal.len(), 2);

    let second = format!("a=T,f=100,i=42,p=9,C=1,q=1;{TRANSPARENT_PNG}");
    transmit(&mut store, &mut terminal, second.as_bytes()).unwrap();

    assert_eq!(terminal.len(), 1);
    assert_ne!(terminal.as_slice()[0].image_id, previous_id);
    assert_eq!(store.image_count(), 1);
    assert_eq!(store.stored_bytes(), 4);
    assert!(store.image(previous_id).is_none());
}

#[test]
fn kitty_missing_image_is_answered_with_no_entry() {
    let mut store = ImageStore::new();
    let mut terminal = ImagePlacements::new();
    assert_eq!(place(&mut store, &mut terminal, b"a=p,i=99,q=1", origin()), Err(KittyErrorCode::NoEntry));
    assert_eq!(terminal.len(), 0);
}

#[test]
fn kitty_failed_retransmit_keeps_previous_image_and_placement() {
    let mut store = ImageStore::new();
    let mut terminal = ImagePlacements::new();
    let first = format!("a=T,f=100,i=42,p=7,C=1,q=1;{TRANSPARENT_PNG}");
    transmit(&mut store, &mut terminal, first.as_bytes()).unwrap();
    let previous = terminal.as_slice()[0];

    assert_eq!(
        transmit(&mut store, &mut terminal, b"a=T,f=100,i=42,p=8,C=1;bm90IGEgcG5n"),
        Err(KittyErrorCode::BadPng)
    );
    assert_eq!(terminal.as_slice(), &[previous]);
    assert_eq!(store.kitty_image(42), Some(previous.image_id));
}

#[test]
fn kitty_image_count_limit_rejects_new_id_but_allows_same_id_replacement() {
    let mut store = ImageStore::new();
    let mut one = limits();
    one.max_images = 1;
    let transfer = |id: u32| format!("a=t,f=100,i={id},q=1;{TRANSPARENT_PNG}");
    let commit = |store: &mut ImageStore, input: &str| {
        let command = command(input.as_bytes());
        let metadata = KittyTransmitMetadata::from_command(&command, false);
        store
            .commit_kitty_transmit(metadata, command.payload, origin(), metrics(), one)
            .map(|_| ())
            .map_err(|error| error.code)
    };
    assert_eq!(commit(&mut store, &transfer(1)), Ok(()));
    assert_eq!(commit(&mut store, &transfer(1)), Ok(()));
    assert_eq!(commit(&mut store, &transfer(2)), Err(KittyErrorCode::NoSpace));
    assert_eq!(store.image_count(), 1);
}

#[test]
fn kitty_soft_delete_preserves_image_for_later_placement() {
    let mut store = ImageStore::new();
    let mut terminal = ImagePlacements::new();
    let first = format!("a=T,f=100,i=42,p=7,C=1,q=1;{TRANSPARENT_PNG}");
    transmit(&mut store, &mut terminal, first.as_bytes()).unwrap();
    place(&mut store, &mut terminal, b"a=p,i=42,p=8,C=1,q=1", origin()).unwrap();
    delete(&mut store, &mut terminal, b"a=d,d=i,i=42,p=7");
    assert_eq!(terminal.len(), 1);

    delete(&mut store, &mut terminal, b"a=d,d=i,i=42");
    assert_eq!(terminal.len(), 0);

    assert_eq!(place(&mut store, &mut terminal, b"a=p,i=42,p=8,C=1,q=1", origin()), Ok(()));
    assert_eq!(terminal.len(), 1);
}

#[test]
fn forgetting_kitty_ids_releases_named_images() {
    let mut store = ImageStore::new();
    let mut terminal = ImagePlacements::new();
    let mut one = limits();
    one.max_images = 1;
    let transfer = format!("a=t,f=100,i=1,q=1;{TRANSPARENT_PNG}");
    let first = command(transfer.as_bytes());
    let metadata = KittyTransmitMetadata::from_command(&first, false);
    store.commit_kitty_transmit(metadata, first.payload, origin(), metrics(), one).unwrap();

    store.forget_kitty_ids();
    store.evict_unreferenced(&terminal.image_ids(), &terminal.placement_ids());
    assert_eq!(store.image_count(), 0);
    assert_eq!(store.stored_bytes(), 0);

    let again = format!("a=t,f=100,i=2,q=1;{TRANSPARENT_PNG}");
    let second = command(again.as_bytes());
    let metadata = KittyTransmitMetadata::from_command(&second, false);
    assert!(store.commit_kitty_transmit(metadata, second.payload, origin(), metrics(), one).is_ok());
    terminal.clear();
}

#[test]
fn eviction_keeps_shown_and_named_images_and_recounts_bytes() {
    let mut store = ImageStore::new();
    let text = format!("File=inline=1:{TRANSPARENT_PNG}");
    let sequence = parse_iterm2_inline_image(&text).unwrap();
    let shown = store.add_inline_image(&sequence, origin(), 80, metrics(), limits()).unwrap();
    let dropped = store.add_inline_image(&sequence, origin(), 80, metrics(), limits()).unwrap();
    let mut terminal = ImagePlacements::new();
    let transfer = format!("a=t,f=100,i=5;{TRANSPARENT_PNG}");
    transmit(&mut store, &mut terminal, transfer.as_bytes()).unwrap();
    assert_eq!(store.image_count(), 3);
    assert_eq!(store.stored_bytes(), 12);

    store.evict_unreferenced(&[shown.image_id], &[shown.placement_id]);

    assert_eq!(store.image_count(), 2);
    assert_eq!(store.stored_bytes(), 8);
    assert!(store.image(shown.image_id).is_some());
    assert!(store.image(dropped.image_id).is_none());
    assert!(store.kitty_image(5).and_then(|id| store.image(id)).is_some());
}

#[test]
fn transmit_without_id_or_display_is_decoded_and_dropped() {
    let mut store = ImageStore::new();
    let mut terminal = ImagePlacements::new();
    let transfer = format!("a=t,f=100;{TRANSPARENT_PNG}");
    assert_eq!(transmit(&mut store, &mut terminal, transfer.as_bytes()), Ok(()));
    assert_eq!(store.image_count(), 0);
    assert_eq!(store.allocate_image_id(), ImageId::new(1));
}

#[test]
fn clearing_drops_every_image_and_id() {
    let mut store = ImageStore::new();
    let mut terminal = ImagePlacements::new();
    let transfer = format!("a=T,f=100,i=3,p=1;{TRANSPARENT_PNG}");
    transmit(&mut store, &mut terminal, transfer.as_bytes()).unwrap();
    store.clear();
    assert_eq!(store.image_count(), 0);
    assert_eq!(store.stored_bytes(), 0);
    assert_eq!(store.kitty_image(3), None);
}

#[test]
fn renderer_gets_each_shown_stored_image_once_in_placement_order() {
    let mut store = ImageStore::new();
    let text = format!("File=inline=1:{TRANSPARENT_PNG}");
    let sequence = parse_iterm2_inline_image(&text).unwrap();
    let first = store.add_inline_image(&sequence, origin(), 80, metrics(), limits()).unwrap();
    let second = store.add_inline_image(&sequence, origin(), 80, metrics(), limits()).unwrap();
    let mut gone = second;
    gone.image_id = ImageId::new(99);
    let mut again = first;
    again.placement_id = ImagePlacementId::new(50);

    let shown = store.shown_images(&[second, gone, first, again, second]);
    assert_eq!(shown, vec![second.image_id, first.image_id]);
    assert!(store.shown_images(&[]).is_empty());
}
