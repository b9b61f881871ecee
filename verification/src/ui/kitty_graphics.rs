//! Decisions of the Kitty graphics command handler: which command goes
//! where, how multipart uploads are assembled, and whether a decoded image
//! fits the image store.

use vstd::prelude::*;
use crate::proto::kitty::{
    kitty_payload, parse_kitty_command, response_context, spec_parse_kitty_command,
    spec_response_context, KittyAction, KittyCommand, KittyContinuation, KittyErrorCode,
    KittyFormat, KittyImageKey, KittyParseError, KittyProtocolError, KittyQuiet,
    KittyResponseContext, ParsedKittyCommand, MAX_KITTY_CHUNK_BYTES,
};
use crate::text::push_slice;
use crate::ui::inline_image::{ImageLimits, KittyPlacementOptions};
use crate::ui::input::validate_kitty_chunk;

verus! {

/// What a transmit command asks for besides its payload.
#[derive(Clone, Copy, Debug, Eq, PartialEq)]
pub struct KittyTransmitMetadata {
    pub display: bool,
    pub format: KittyFormat,
    pub image_id: Option<KittyImageKey>,
    pub placement_id: Option<u32>,
    pub placement: KittyPlacementOptions,
    pub cursor_movement: bool,
}

impl KittyTransmitMetadata {
    pub open spec fn spec_from_command(command: KittyCommand, display: bool) -> KittyTransmitMetadata {
        KittyTransmitMetadata {
            display,
            format: command.format,
            image_id: command.image_id,
            placement_id: command.placement_id,
            placement: spec_placement_options(command),
            cursor_movement: command.cursor_movement,
        }
    }

    pub fn from_command(command: &KittyCommand<'_>, display: bool) -> (r: Self)
        ensures
            r == Self::spec_from_command(*command, display),
    {
        KittyTransmitMetadata {
            display,
            format: command.format,
            image_id: command.image_id,
            placement_id: command.placement_id,
            placement: placement_options(command),
            cursor_movement: command.cursor_movement,
        }
    }

    /// A transmitted image is kept when it has an id to refer to it by or
    /// is shown at once.
    pub fn should_store(&self) -> (r: bool)
        ensures
            r == (self.image_id is Some || self.display),
    {
        self.image_id.is_some() || self.display
    }
}

/// How a command asks its image to be placed: size in cells, source
/// rectangle, pixel offset, stacking order and the client's image id.
pub open spec fn spec_placement_options(command: KittyCommand) -> KittyPlacementOptions {
    KittyPlacementOptions {
        columns: command.columns,
        rows: command.rows,
        source_x: command.source_x,
        source_y: command.source_y,
        source_width: command.source_width,
        source_height: command.source_height,
        pixel_offset_x: command.pixel_offset_x,
        pixel_offset_y: command.pixel_offset_y,
        z_index: command.z_index,
        kitty_image_id: match command.image_id {
            Some(key) => Some(key.client_id),
            None => None,
        },
    }
}

pub fn placement_options(command: &KittyCommand<'_>) -> (r: KittyPlacementOptions)
    ensures
        r == spec_placement_options(*command),
{
    KittyPlacementOptions {
        columns: command.columns,
        rows: command.rows,
        source_x: command.source_x,
        source_y: command.source_y,
        source_width: command.source_width,
        source_height: command.source_height,
        pixel_offset_x: command.pixel_offset_x,
        pixel_offset_y: command.pixel_offset_y,
        z_index: command.z_index,
        kitty_image_id: match command.image_id {
            Some(key) => Some(key.client_id),
            None => None,
        },
    }
}

/// An unfinished multipart upload: its command, how to answer it, and the
/// base64 payload received so far.
#[derive(Clone, Debug, Eq, PartialEq)]
pub struct PartialKittyUpload {
    pub metadata: KittyTransmitMetadata,
    pub response_context: KittyResponseContext,
    pub encoded: Vec<u8>,
}

/// The limit error of an upload that grew past the encoded-bytes limit.
pub open spec fn is_too_big(e: KittyProtocolError) -> bool {
    e.code == KittyErrorCode::TooBig && e.message@ == "graphics payload exceeds configured limit"@
}

/// A chunk is acceptable: within the chunk size, and a multiple of four
/// bytes unless it is the last.
pub open spec fn chunk_ok(payload: Seq<u8>, more_chunks: bool) -> bool {
    payload.len() <= MAX_KITTY_CHUNK_BYTES && !(more_chunks && payload.len() % 4 != 0)
}

/// Starts a multipart upload with its first chunk.
pub fn begin_kitty_upload(
    metadata: KittyTransmitMetadata,
    response_context: KittyResponseContext,
    payload: &[u8],
    max_encoded_bytes: usize,
) -> (r: Result<PartialKittyUpload, KittyProtocolError>)
    ensures
        match r {
            Ok(upload) => chunk_ok(payload@, true) && payload@.len() <= max_encoded_bytes
                && upload.metadata == metadata && upload.response_context == response_context
                && upload.encoded@ == payload@,
            Err(e) => !chunk_ok(payload@, true) || (payload@.len() > max_encoded_bytes && is_too_big(e)),
        },
{
    match validate_kitty_chunk(payload, true) {
        Ok(()) => {},
        Err(e) => return Err(e),
    }
    if payload.len() > max_encoded_bytes {
        return Err(KittyProtocolError::new(KittyErrorCode::TooBig, "graphics payload exceeds configured limit"));
    }
    let mut encoded: Vec<u8> = Vec::new();
    push_slice(&mut encoded, payload);
    Ok(PartialKittyUpload { metadata, response_context, encoded })
}

/// Adds a chunk to an upload's payload, refusing chunks of the wrong size
/// and a payload that would grow past `max_encoded_bytes`.
pub fn append_kitty_chunk(encoded: &mut Vec<u8>, payload: &[u8], more_chunks: bool, max_encoded_bytes: usize) -> (r: Result<(), KittyProtocolError>)
    ensures
        match r {
            Ok(()) => chunk_ok(payload@, more_chunks)
                && old(encoded)@.len() + payload@.len() <= max_encoded_bytes
                && final(encoded)@ == old(encoded)@ + payload@,
            Err(e) => if !chunk_ok(payload@, more_chunks) {
                e.code == KittyErrorCode::TooBig || e.code == KittyErrorCode::Invalid
            } else {
                e.code == KittyErrorCode::TooBig
            },
        },
        r is Err <==> (!chunk_ok(payload@, more_chunks) || old(encoded)@.len() + payload@.len() > max_encoded_bytes),
        r is Err ==> final(encoded)@ == old(encoded)@,
{
    match validate_kitty_chunk(payload, more_chunks) {
        Ok(()) => {},
        Err(e) => return Err(e),
    }
    let total = match encoded.len().checked_add(payload.len()) {
        Some(total) => total,
        None => return Err(KittyProtocolError::new(KittyErrorCode::TooBig, "graphics payload size overflow")),
    };
    if total > max_encoded_bytes {
        return Err(KittyProtocolError::new(KittyErrorCode::TooBig, "graphics payload exceeds configured limit"));
    }
    push_slice(encoded, payload);
    Ok(())
}

/// What a continuation chunk leads to.
#[derive(Clone, Debug, Eq, PartialEq)]
pub enum ContinuationOutcome {
    /// No upload was in progress: answer `EINVAL` with this context.
    NoUpload(KittyResponseContext),
    /// The chunk was refused and the upload dropped: answer with the error.
    Failed(KittyResponseContext, KittyProtocolError),
    /// More chunks are expected.
    Pending(PartialKittyUpload),
    /// The last chunk arrived: the complete upload.
    Complete(PartialKittyUpload),
}

/// How a Kitty command too large to buffer is answered: not at all when
/// graphics are off; else with `TooBig`, in the context of the upload it
/// ends, if one was in progress, or of its own control data.
pub fn answer_oversized_kitty(
    enabled: bool,
    upload: &mut Option<PartialKittyUpload>,
    control_data: &[u8],
) -> (r: Option<(KittyResponseContext, KittyProtocolError)>)
    ensures
        !enabled ==> r is None && *final(upload) == *old(upload),
        enabled ==> *final(upload) is None && match r {
            Some((context, error)) => {
                &&& is_too_big(error)
                &&& context == match *old(upload) {
                    Some(u) => u.response_context,
                    None => spec_response_context(control_data@),
                }
            },
            None => false,
        },
{
    if !enabled {
        return None;
    }
    let context = match upload.take() {
        Some(u) => u.response_context,
        None => response_context(control_data),
    };
    Some((context, KittyProtocolError::new(KittyErrorCode::TooBig, "graphics payload exceeds configured limit")))
}

/// The error a continuation without an upload in progress is answered with.
pub fn no_upload_error() -> (r: KittyProtocolError)
    ensures
        r.code == KittyErrorCode::Invalid,
        r.message@ == "no multipart upload is in progress"@,
{
    KittyProtocolError::new(KittyErrorCode::Invalid, "no multipart upload is in progress")
}

/// A continuation's quiet key, when it has one, replaces the upload's.
pub open spec fn continued_context(context: KittyResponseContext, quiet: Option<KittyQuiet>) -> KittyResponseContext {
    match quiet {
        Some(q) => KittyResponseContext { quiet: q, ..context },
        None => context,
    }
}

/// Feeds a continuation chunk to the upload in progress, if any.
pub fn continue_kitty_upload(upload: Option<PartialKittyUpload>, continuation: KittyContinuation<'_>, max_encoded_bytes: usize) -> (r: ContinuationOutcome)
    ensures
        match upload {
            None => r == ContinuationOutcome::NoUpload(KittyResponseContext {
                image_id: None,
                placement_id: None,
                quiet: match continuation.quiet { Some(q) => q, None => KittyQuiet::Normal },
            }),
            Some(u) => {
                let context = continued_context(u.response_context, continuation.quiet);
                let accepted = chunk_ok(continuation.payload@, continuation.more_chunks)
                    && u.encoded@.len() + continuation.payload@.len() <= max_encoded_bytes;
                match r {
                    ContinuationOutcome::Failed(c, _) => !accepted && c == context,
                    ContinuationOutcome::Pending(next) => accepted && continuation.more_chunks
                        && next.metadata == u.metadata && next.response_context == context
                        && next.encoded@ == u.encoded@ + continuation.payload@,
                    ContinuationOutcome::Complete(done) => accepted && !continuation.more_chunks
                        && done.metadata == u.metadata && done.response_context == context
                        && done.encoded@ == u.encoded@ + continuation.payload@,
                    ContinuationOutcome::NoUpload(_) => false,
                }
            },
        },
{
    let mut upload = match upload {
        Some(upload) => upload,
        None => {
            let quiet = match continuation.quiet {
                Some(q) => q,
                None => KittyQuiet::Normal,
            };
            return ContinuationOutcome::NoUpload(KittyResponseContext { image_id: None, placement_id: None, quiet });
        },
    };
    match continuation.quiet {
        Some(quiet) => {
            upload.response_context.quiet = quiet;
        },
        None => {},
    }
    let context = upload.response_context;
    match append_kitty_chunk(&mut upload.encoded, continuation.payload, continuation.more_chunks, max_encoded_bytes) {
        Ok(()) => {},
        Err(e) => return ContinuationOutcome::Failed(context, e),
    }
    if continuation.more_chunks {
        ContinuationOutcome::Pending(upload)
    } else {
        ContinuationOutcome::Complete(upload)
    }
}

/// What a transmit command leads to.
#[derive(Clone, Debug, Eq, PartialEq)]
pub enum TransmitStart {
    /// The first chunk of a multipart upload was accepted.
    Started(PartialKittyUpload),
    /// The first chunk was refused.
    Rejected(KittyProtocolError),
    /// A single-chunk transmit: decode and store its payload now.
    Commit(KittyTransmitMetadata),
}

/// Starts handling a transmit (or transmit-and-display) command.
pub fn start_kitty_transmit(
    command: &KittyCommand<'_>,
    display: bool,
    response_context: KittyResponseContext,
    max_encoded_bytes: usize,
) -> (r: TransmitStart)
    ensures
        !command.more_chunks ==> r == TransmitStart::Commit(KittyTransmitMetadata::spec_from_command(*command, display)),
        command.more_chunks ==> match r {
            TransmitStart::Started(upload) => upload.metadata == KittyTransmitMetadata::spec_from_command(*command, display)
                && upload.response_context == response_context && upload.encoded@ == command.payload@
                && command.payload@.len() <= max_encoded_bytes && chunk_ok(command.payload@, true),
            TransmitStart::Rejected(_) => !chunk_ok(command.payload@, true) || command.payload@.len() > max_encoded_bytes,
            TransmitStart::Commit(_) => false,
        },
{
    let metadata = KittyTransmitMetadata::from_command(command, display);
    if command.more_chunks {
        match begin_kitty_upload(metadata, response_context, command.payload, max_encoded_bytes) {
            Ok(upload) => TransmitStart::Started(upload),
            Err(e) => TransmitStart::Rejected(e),
        }
    } else {
        TransmitStart::Commit(metadata)
    }
}

/// Where a complete graphics command goes.
#[derive(Clone, Debug, Eq, PartialEq)]
pub enum KittyCommandRoute<'a> {
    /// Graphics are disabled: the command is swallowed.
    Ignore,
    /// The command did not parse: answer with the protocol error of this
    /// parse error.
    Refuse(KittyResponseContext, KittyParseError),
    /// A continuation chunk of the upload in progress.
    Continue(KittyContinuation<'a>),
    /// Transmit, and display when asked.
    Transmit(KittyCommand<'a>, bool, KittyResponseContext),
    /// Place an already transmitted image.
    Place(KittyCommand<'a>, KittyResponseContext),
    /// Delete placements.
    Delete(KittyCommand<'a>),
}

/// The route of a command body that parsed to `parsed`, and whether the
/// upload in progress is kept.
pub open spec fn spec_route<'a>(
    enabled: bool,
    upload: Option<PartialKittyUpload>,
    context: KittyResponseContext,
    parsed: Result<ParsedKittyCommand<'a>, KittyParseError>,
) -> (KittyCommandRoute<'a>, bool) {
    if !enabled {
        (KittyCommandRoute::Ignore, true)
    } else {
        match parsed {
            Err(e) => (
                KittyCommandRoute::Refuse(
                    match upload { Some(u) => u.response_context, None => context },
                    e,
                ),
                false,
            ),
            Ok(ParsedKittyCommand::Continuation(c)) => (KittyCommandRoute::Continue(c), true),
            Ok(ParsedKittyCommand::Command(command)) => (
                match command.action {
                    KittyAction::TransmitAndDisplay => KittyCommandRoute::Transmit(command, true, context),
                    KittyAction::Transmit => KittyCommandRoute::Transmit(command, false, context),
                    KittyAction::Place => KittyCommandRoute::Place(command, context),
                    KittyAction::Delete => KittyCommandRoute::Delete(command),
                },
                false,
            ),
        }
    }
}

/// Routes one complete graphics command body. A parse error is answered
/// with the context of the upload in progress, if any, and ends it; a new
/// command also ends an unfinished upload, since only one multipart
/// transfer may be in flight; a continuation leaves it to
/// `continue_kitty_upload`.
pub fn route_kitty_command<'a>(enabled: bool, upload: &mut Option<PartialKittyUpload>, input: &'a [u8]) -> (r: KittyCommandRoute<'a>)
    ensures
        forall|p: &'a [u8]| p@ == kitty_payload(input@) ==> {
            let (route, keep) = #[trigger] spec_route(enabled, *old(upload), spec_response_context(input@), spec_parse_kitty_command(input@, p));
            &&& r == route
            &&& keep ==> *final(upload) == *old(upload)
            &&& !keep ==> (*final(upload)) is None
        },
{
    if !enabled {
        return KittyCommandRoute::Ignore;
    }
    let context = response_context(input);
    let parsed = parse_kitty_command(input);
    match parsed {
        Err(error) => {
            let reply = match upload.take() {
                Some(u) => u.response_context,
                None => context,
            };
            KittyCommandRoute::Refuse(reply, error)
        },
        Ok(ParsedKittyCommand::Continuation(c)) => KittyCommandRoute::Continue(c),
        Ok(ParsedKittyCommand::Command(command)) => {
            *upload = None;
            match command.action {
                KittyAction::TransmitAndDisplay => KittyCommandRoute::Transmit(command, true, context),
                KittyAction::Transmit => KittyCommandRoute::Transmit(command, false, context),
                KittyAction::Place => KittyCommandRoute::Place(command, context),
                KittyAction::Delete => KittyCommandRoute::Delete(command),
            }
        },
    }
}

// ---------------------------------------------------------------------
// Image store accounting.
// ---------------------------------------------------------------------

/// Storing one decoded image of `new_bytes` RGBA bytes, possibly in place
/// of an image of `previous_bytes`: the image count must stay within the
/// limit and the byte total within the GPU budget. On success, the new byte
/// total.
pub open spec fn spec_plan_kitty_store(
    image_count: usize,
    stored_bytes: usize,
    replaces_existing: bool,
    previous_bytes: usize,
    new_bytes: usize,
    limits: ImageLimits,
) -> Result<usize, KittyErrorCode> {
    let remaining: int = if replaces_existing && image_count > 0 { image_count - 1 } else { image_count as int };
    let count = if remaining + 1 > usize::MAX { usize::MAX as int } else { remaining + 1 };
    let kept: int = if stored_bytes >= previous_bytes { stored_bytes - previous_bytes } else { 0 };
    if count > limits.max_images {
        Err(KittyErrorCode::NoSpace)
    } else if kept + new_bytes > usize::MAX {
        Err(KittyErrorCode::NoSpace)
    } else if kept + new_bytes > limits.max_gpu_bytes {
        Err(KittyErrorCode::NoSpace)
    } else {
        Ok((kept + new_bytes) as usize)
    }
}

pub fn plan_kitty_store(
    image_count: usize,
    stored_bytes: usize,
    replaces_existing: bool,
    previous_bytes: usize,
    new_bytes: usize,
    limits: ImageLimits,
) -> (r: Result<usize, KittyProtocolError>)
    ensures
        match r {
            Ok(total) => spec_plan_kitty_store(image_count, stored_bytes, replaces_existing, previous_bytes, new_bytes, limits) == Ok::<usize, KittyErrorCode>(total),
            Err(e) => spec_plan_kitty_store(image_count, stored_bytes, replaces_existing, previous_bytes, new_bytes, limits) == Err::<usize, KittyErrorCode>(e.code),
        },
{
    let replaced: usize = if replaces_existing { 1 } else { 0 };
    let prospective_count = image_count.saturating_sub(replaced).saturating_add(1);
    if prospective_count > limits.max_images {
        return Err(KittyProtocolError::new(KittyErrorCode::NoSpace, "image count limit reached"));
    }
    let prospective_bytes = match stored_bytes.saturating_sub(previous_bytes).checked_add(new_bytes) {
        Some(total) => total,
        None => return Err(KittyProtocolError::new(KittyErrorCode::NoSpace, "image byte quota overflow")),
    };
    if prospective_bytes > limits.max_gpu_bytes {
        return Err(KittyProtocolError::new(KittyErrorCode::NoSpace, "image byte quota reached"));
    }
    Ok(prospective_bytes)
}

/// The byte total after adding an iTerm2 image, when it stays within the
/// GPU budget.
pub fn inline_image_bytes_after(stored_bytes: usize, new_bytes: usize, limits: ImageLimits) -> (r: Option<usize>)
    ensures
        r == (if stored_bytes + new_bytes <= limits.max_gpu_bytes {
            Some((stored_bytes + new_bytes) as usize)
        } else {
            None::<usize>
        }),
{
    let total = match stored_bytes.checked_add(new_bytes) {
        Some(total) => total,
        None => return None,
    };
    if total > limits.max_gpu_bytes {
        return None;
    }
    Some(total)
}

/// The identifier handed out after `current`: one more, saturating, and
/// never zero.
pub fn next_id_after(current: u64) -> (r: u64)
    ensures
        r == (if current == u64::MAX { u64::MAX } else { (current + 1) as u64 }),
        r >= 1,
{
    let next = current.saturating_add(1);
    if next >= 1 { next } else { 1 }
}

// ---------------------------------------------------------------------
// Laws.
// ---------------------------------------------------------------------

/// The image store never grows past its limits: an accepted plan keeps the
/// byte total within the GPU budget and the count within the image limit
/// (for any count short of `usize::MAX`, where the count saturates).
pub proof fn lemma_store_plan_within_limits(
    image_count: usize,
    stored_bytes: usize,
    replaces_existing: bool,
    previous_bytes: usize,
    new_bytes: usize,
    limits: ImageLimits,
)
    ensures
        spec_plan_kitty_store(image_count, stored_bytes, replaces_existing, previous_bytes, new_bytes, limits) matches Ok(total)
            ==> total <= limits.max_gpu_bytes && total >= new_bytes
                && (image_count < usize::MAX ==> (if replaces_existing && image_count > 0 {
                    image_count as int
                } else {
                    image_count + 1
                }) <= limits.max_images),
{
}

} // verus!
