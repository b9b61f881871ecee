//! Images as the input router carries them out between the image store
//! and the terminal: iTerm2 inline images and Kitty transmits, placements
//! and deletes.

use vstd::prelude::*;
use crate::proto::iterm2::InlineImageSequence;
use crate::proto::kitty::{encode_response, KittyCommand, KittyProtocolError, KittyResponseContext};
use crate::term::grid::{GridPoint, ImageId, ImagePlacement, ImagePlacementId};
use crate::term::placements::{keeps_image, keeps_placement, spec_upsert};
use crate::term::terminal::{follows_output_scroll, Terminal};
use crate::ui::image_store::{
    commit_outcome, delete_outcome, image_bytes, image_is_live, inline_outcome, place_outcome, with_live_placements,
    ImageStore, InlineImageRejection, KittyCommit, KittyDeletion, StoreView,
};
use crate::ui::inline_image::{CellMetrics, ImageLimits};
use crate::ui::kitty_graphics::{
    answer_oversized_kitty, continue_kitty_upload, no_upload_error, route_kitty_command, start_kitty_transmit,
    ContinuationOutcome, KittyCommandRoute, KittyTransmitMetadata, PartialKittyUpload, TransmitStart,
};

verus! {

/// The store once the images that neither the terminal (`live_images`)
/// nor a Kitty client refers to are dropped, the named placements the
/// terminal no longer shows (`live_placements`) are forgotten, and the
/// byte total is recounted.
pub open spec fn evicted_view(s: StoreView, live_images: Seq<ImageId>, live_placements: Seq<ImagePlacementId>) -> StoreView {
    let images = s.images.filter_keys(|id: u64| image_is_live(id, live_images, s.kitty_images));
    StoreView {
        images,
        kitty_placements: with_live_placements(s.kitty_placements, live_placements),
        stored_bytes: if image_bytes(images) <= usize::MAX { image_bytes(images) } else { usize::MAX as nat },
        ..s
    }
}

/// The images the placements show, in order.
pub open spec fn images_of(s: Seq<ImagePlacement>) -> Seq<ImageId> {
    s.map_values(|p: ImagePlacement| p.image_id)
}

/// The ids of the placements, in order.
pub open spec fn ids_of(s: Seq<ImagePlacement>) -> Seq<ImagePlacementId> {
    s.map_values(|p: ImagePlacement| p.placement_id)
}

/// The shown placement's bottom row, if any, fits an `isize`.
pub open spec fn fits_terminal(commit: KittyCommit) -> bool {
    match commit.placement {
        Some(p) => p.anchor.row + p.rows <= isize::MAX,
        None => true,
    }
}

/// The terminal's placements after a committed transmit: those of the
/// replaced image are gone, and the shown placement is put in.
pub open spec fn placements_after_commit(s: Seq<ImagePlacement>, commit: KittyCommit) -> Seq<ImagePlacement> {
    let kept = match commit.replaced {
        Some(id) => s.filter(keeps_image(id)),
        None => s,
    };
    match commit.placement {
        Some(p) => spec_upsert(kept, p),
        None => kept,
    }
}

/// Carries out a Kitty transmit whose whole payload has arrived: the images
/// the terminal no longer shows are evicted first; then the transmit is
/// committed with the cursor as anchor; on success the placements of the
/// image it replaced leave the terminal, its placement (if shown) is put
/// in, and the cursor moves after it when the command asks.
pub fn transmit_kitty_image(
    store: &mut ImageStore,
    terminal: &mut Terminal,
    metadata: KittyTransmitMetadata,
    payload: &[u8],
    metrics: CellMetrics,
    limits: ImageLimits,
) -> (r: Result<KittyCommit, KittyProtocolError>)
    requires
        old(terminal).wf(),
    ensures
        final(terminal).wf(),
        exists|anchor: crate::term::grid::GridPoint| #[trigger] commit_outcome(
            evicted_view(old(store)@, images_of(old(terminal).placements()), ids_of(old(terminal).placements())),
            metadata,
            payload@,
            anchor,
            metrics,
            limits,
            r,
            final(store)@,
        ),
        r is Err ==> final(terminal).placements() == old(terminal).placements(),
        r matches Ok(c) ==> (fits_terminal(c) && !(metadata.cursor_movement && c.placement is Some)
            ==> final(terminal).placements() == placements_after_commit(old(terminal).placements(), c)),
        final(terminal).pending_input() == old(terminal).pending_input(),
{
    let live_images = terminal.image_placement_ids();
    let live_placements = terminal.placement_ids();
    store.evict_unreferenced(live_images.as_slice(), live_placements.as_slice());
    let ghost evicted = store@;
    assert(evicted == evicted_view(old(store)@, images_of(old(terminal).placements()), ids_of(old(terminal).placements())));
    let anchor = terminal.image_anchor();
    let r = store.commit_kitty_transmit(metadata, payload, anchor, metrics, limits);
    let commit = match r {
        Ok(commit) => commit,
        Err(e) => return Err(e),
    };
    if let Some(replaced) = commit.replaced {
        terminal.remove_image_placements(replaced);
    }
    if let Some(p) = commit.placement {
        if p.anchor.row <= isize::MAX - p.rows as isize {
            terminal.upsert_image_placement(p);
            if metadata.cursor_movement {
                terminal.move_after_kitty_image(p.columns, p.rows);
            }
        }
    }
    Ok(commit)
}

/// The placement's bottom row fits an `isize`.
pub open spec fn placement_fits(p: ImagePlacement) -> bool {
    p.anchor.row + p.rows <= isize::MAX
}

/// Shows an iTerm2 inline image: the images the terminal no longer shows
/// are evicted first; then the image is stored and placed at the cursor, the
/// placement is added to the terminal, and the cursor moves below it.
pub fn show_inline_image(
    store: &mut ImageStore,
    terminal: &mut Terminal,
    sequence: &InlineImageSequence<'_>,
    metrics: CellMetrics,
    limits: ImageLimits,
) -> (r: Result<ImagePlacement, InlineImageRejection>)
    requires
        old(terminal).wf(),
    ensures
        final(terminal).wf(),
        exists|anchor: GridPoint, columns: usize| #[trigger] inline_outcome(
            evicted_view(old(store)@, images_of(old(terminal).placements()), ids_of(old(terminal).placements())),
            *sequence,
            anchor,
            columns,
            metrics,
            limits,
            r,
            final(store)@,
        ),
        r is Err ==> final(terminal).placements() == old(terminal).placements(),
        r matches Ok(p) ==> (placement_fits(p)
            ==> follows_output_scroll(old(terminal).placements().push(p), final(terminal).placements())),
        final(terminal).pending_input() == old(terminal).pending_input(),
{
    let live_images = terminal.image_placement_ids();
    let live_placements = terminal.placement_ids();
    store.evict_unreferenced(live_images.as_slice(), live_placements.as_slice());
    assert(store@ == evicted_view(old(store)@, images_of(old(terminal).placements()), ids_of(old(terminal).placements())));
    let (columns, _) = terminal.size();
    let anchor = terminal.image_anchor();
    let r = store.add_inline_image(sequence, anchor, columns, metrics, limits);
    let placement = match r {
        Ok(p) => p,
        Err(e) => return Err(e),
    };
    if placement.anchor.row <= isize::MAX - placement.rows as isize {
        terminal.add_image_placement(placement);
        terminal.advance_after_image_rows(placement.rows);
    }
    Ok(placement)
}

/// Places a transmitted Kitty image at the cursor: the placement replaces
/// the one with the same id in the terminal, and the cursor moves after it
/// when the command asks.
pub fn place_kitty_image_on_terminal(
    store: &mut ImageStore,
    terminal: &mut Terminal,
    command: &KittyCommand<'_>,
    metrics: CellMetrics,
) -> (r: Result<ImagePlacement, KittyProtocolError>)
    requires
        command.image_id is Some,
        old(terminal).wf(),
    ensures
        final(terminal).wf(),
        exists|anchor: GridPoint| #[trigger] place_outcome(old(store)@, *command, anchor, metrics, r, final(store)@),
        r is Err ==> final(terminal).placements() == old(terminal).placements(),
        r matches Ok(p) ==> (placement_fits(p) && !command.cursor_movement
            ==> final(terminal).placements() == spec_upsert(old(terminal).placements(), p)),
        r matches Ok(p) ==> (placement_fits(p) && command.cursor_movement && p.columns > 0 && p.rows > 0
            ==> follows_output_scroll(spec_upsert(old(terminal).placements(), p), final(terminal).placements())),
        final(terminal).pending_input() == old(terminal).pending_input(),
{
    let anchor = terminal.image_anchor();
    let r = store.place_kitty_image(command, anchor, metrics);
    let placement = match r {
        Ok(p) => p,
        Err(e) => return Err(e),
    };
    if placement.anchor.row <= isize::MAX - placement.rows as isize {
        terminal.upsert_image_placement(placement);
        if command.cursor_movement {
            terminal.move_after_kitty_image(placement.columns, placement.rows);
        }
    }
    Ok(placement)
}

/// Carries out a Kitty delete: the named placement, or every placement of
/// the image, leaves the terminal as the store decides.
pub fn delete_kitty_image_from_terminal(
    store: &mut ImageStore,
    terminal: &mut Terminal,
    command: &KittyCommand<'_>,
) -> (r: KittyDeletion)
    requires
        command.image_id is Some,
        old(terminal).wf(),
    ensures
        final(terminal).wf(),
        delete_outcome(old(store)@, *command, r, final(store)@),
        final(terminal).placements() == match r {
            KittyDeletion::Nothing => old(terminal).placements(),
            KittyDeletion::Placement(id) => old(terminal).placements().filter(keeps_placement(id)),
            KittyDeletion::Image(id) => old(terminal).placements().filter(keeps_image(id)),
        },
        final(terminal).pending_input() == old(terminal).pending_input(),
{
    let r = store.delete_kitty_placements(command);
    match r {
        KittyDeletion::Nothing => {},
        KittyDeletion::Placement(id) => terminal.remove_image_placement(id),
        KittyDeletion::Image(id) => terminal.remove_image_placements(id),
    }
    r
}

/// Adds the answer to a Kitty command, if its context asks for one.
fn respond(responses: &mut Vec<Vec<u8>>, context: KittyResponseContext, result: Result<(), KittyProtocolError>)
    ensures
        final(responses)@.len() >= old(responses)@.len(),
        final(responses)@.take(old(responses)@.len() as int) == old(responses)@,
{
    let ghost before = responses@;
    match encode_response(context, result) {
        Some(bytes) => responses.push(bytes),
        None => {},
    }
    assert(responses@.take(before.len() as int) =~= before);
}

/// The result of a commit or placement as a Kitty answer.
fn as_answer<T>(r: Result<T, KittyProtocolError>) -> (a: Result<(), KittyProtocolError>)
    ensures
        match r {
            Ok(_) => a is Ok,
            Err(e) => a == Err::<(), KittyProtocolError>(e),
        },
{
    match r {
        Ok(_) => Ok(()),
        Err(e) => Err(e),
    }
}

/// Handles one complete Kitty graphics command: nothing happens while
/// graphics are disabled; otherwise the command is routed, uploads are
/// started, continued and committed, images are transmitted, placed and
/// deleted, and the answers the commands ask for are added to `responses`.
pub fn handle_kitty_command(
    store: &mut ImageStore,
    terminal: &mut Terminal,
    upload: &mut Option<PartialKittyUpload>,
    input: &[u8],
    enabled: bool,
    metrics: CellMetrics,
    limits: ImageLimits,
    responses: &mut Vec<Vec<u8>>,
)
    requires
        old(terminal).wf(),
    ensures
        final(terminal).wf(),
        final(terminal).pending_input() == old(terminal).pending_input(),
        !enabled ==> final(store)@ == old(store)@ && *final(upload) == *old(upload)
            && final(responses)@ == old(responses)@ && final(terminal).placements() == old(terminal).placements(),
        final(responses)@.len() >= old(responses)@.len(),
        final(responses)@.take(old(responses)@.len() as int) == old(responses)@,
{
    if !enabled {
        return;
    }
    let ghost before = responses@;
    match route_kitty_command(enabled, upload, input) {
        KittyCommandRoute::Ignore => {},
        KittyCommandRoute::Refuse(context, error) => {
            respond(responses, context, Err(error.protocol_error()));
        },
        KittyCommandRoute::Continue(continuation) => {
            let current = upload.take();
            match continue_kitty_upload(current, continuation, limits.max_encoded_bytes) {
                ContinuationOutcome::NoUpload(context) => {
                    respond(responses, context, Err(no_upload_error()));
                },
                ContinuationOutcome::Failed(context, error) => {
                    respond(responses, context, Err(error));
                },
                ContinuationOutcome::Pending(next) => {
                    *upload = Some(next);
                },
                ContinuationOutcome::Complete(done) => {
                    let context = done.response_context;
                    let r = transmit_kitty_image(store, terminal, done.metadata, done.encoded.as_slice(), metrics, limits);
                    respond(responses, context, as_answer(r));
                },
            }
        },
        KittyCommandRoute::Transmit(command, display, context) => {
            match start_kitty_transmit(&command, display, context, limits.max_encoded_bytes) {
                TransmitStart::Started(started) => {
                    *upload = Some(started);
                },
                TransmitStart::Rejected(error) => {
                    respond(responses, context, Err(error));
                },
                TransmitStart::Commit(metadata) => {
                    let r = transmit_kitty_image(store, terminal, metadata, command.payload, metrics, limits);
                    respond(responses, context, as_answer(r));
                },
            }
        },
        KittyCommandRoute::Place(command, context) => {
            if command.image_id.is_some() {
                let r = place_kitty_image_on_terminal(store, terminal, &command, metrics);
                respond(responses, context, as_answer(r));
            }
        },
        KittyCommandRoute::Delete(command) => {
            if command.image_id.is_some() {
                delete_kitty_image_from_terminal(store, terminal, &command);
            }
        },
    }
    proof {
        assert(responses@.take(before.len() as int) =~= before) by {
            assert forall|j: int| 0 <= j < before.len() implies #[trigger] responses@.take(before.len() as int)[j] == before[j] by {
            }
        }
    }
}

/// Answers a Kitty command too large to buffer, when graphics are enabled:
/// `TooBig`, in the context of the upload it ends or of its own control
/// data.
pub fn handle_oversized_kitty(
    upload: &mut Option<PartialKittyUpload>,
    control_data: &[u8],
    enabled: bool,
    responses: &mut Vec<Vec<u8>>,
)
    ensures
        !enabled ==> *final(upload) == *old(upload) && final(responses)@ == old(responses)@,
        enabled ==> *final(upload) is None,
        final(responses)@.len() >= old(responses)@.len(),
        final(responses)@.take(old(responses)@.len() as int) == old(responses)@,
{
    let ghost before = responses@;
    match answer_oversized_kitty(enabled, upload, control_data) {
        Some((context, error)) => respond(responses, context, Err(error)),
        None => {
            assert(responses@.take(before.len() as int) =~= before);
        },
    }
}

} // verus!
