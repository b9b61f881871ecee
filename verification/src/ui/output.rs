//! PTY output as the input router carries it into the terminal: iTerm2
//! inline images are split out of the stream and shown, an unterminated
//! one waits for the next chunk (unless it already exceeds the limits), and
//! the rest goes to the terminal, whose replies and title changes are
//! handed back.

use vstd::prelude::*;
use crate::proto::iterm2::parse_iterm2_inline_image;
use crate::term::compat::spec_contains_full_reset;
use crate::term::compat::contains_full_reset;
use crate::proto::router::{GraphicsEscapeRouter, GraphicsStreamItem};
use crate::term::terminal::Terminal;
use crate::text::push_str;
use crate::ui::image_store::{image_is_live, ImageStore, StoreView};
use crate::ui::inline_image::{
    pending_inline_image_is_oversized, scan_pty_stream, spec_pending_oversized, spec_scan_from, CellMetrics,
    ImageLimits, PtyStreamItem,
};
use crate::ui::kitty_graphics::PartialKittyUpload;
use crate::ui::kitty_router::{handle_kitty_command, handle_oversized_kitty, images_of, show_inline_image};

verus! {

/// What feeding PTY output handed back for the application.
#[derive(Clone, Debug, Eq, PartialEq)]
pub struct PtyReplies {
    /// Bytes to write back to the PTY, in order: the terminal's replies and
    /// the answers to Kitty commands.
    pub writes: Vec<Vec<u8>>,
    /// The latest window title change, if any.
    pub title: Option<String>,
}

/// `after` is `before` with more entries added at the end.
pub open spec fn extends<T>(before: Seq<T>, after: Seq<T>) -> bool {
    before.len() <= after.len() && after.take(before.len() as int) == before
}

/// The store after output that holds a full reset (`ESC c`): the Kitty
/// image ids and named placements are forgotten.
pub open spec fn store_after_output(s: StoreView, bytes: Seq<u8>) -> StoreView {
    if spec_contains_full_reset(bytes) {
        StoreView { kitty_images: Map::empty(), kitty_placements: Map::empty(), ..s }
    } else {
        s
    }
}

/// Feeds terminal output (without inline images) to the terminal. A full
/// reset in `bytes` also forgets the Kitty image ids and placements and
/// drops an unfinished Kitty upload. The terminal's PTY replies are added
/// to `replies`, and its title change, if any, replaces the one there.
pub fn feed_terminal_bytes(
    terminal: &mut Terminal,
    store: &mut ImageStore,
    upload: &mut Option<PartialKittyUpload>,
    bytes: &[u8],
    replies: &mut PtyReplies,
)
    requires
        old(terminal).wf(),
    ensures
        final(terminal).wf(),
        final(store)@ == store_after_output(old(store)@, bytes@),
        spec_contains_full_reset(bytes@) ==> *final(upload) is None,
        !spec_contains_full_reset(bytes@) ==> *final(upload) == *old(upload),
        final(terminal).pending_title() is None,
        final(replies).title == old(replies).title || (final(replies).title matches Some(t)
            && t@ == final(terminal).title()),
        extends(old(replies).writes@, final(replies).writes@),
{
    let reset_images = contains_full_reset(bytes);
    terminal.feed(bytes);
    if reset_images {
        *upload = None;
        store.forget_kitty_ids();
    }
    let writes = terminal.take_pty_writes();
    let ghost before = replies.writes@;
    assert(before.take(before.len() as int) =~= before);
    let mut i: usize = 0;
    while i < writes.len()
        invariant
            i <= writes@.len(),
            extends(before, replies.writes@),
            replies.title == old(replies).title,
        decreases writes@.len() - i,
    {
        let mut reply: Vec<u8> = Vec::new();
        push_str(&mut reply, writes[i].as_str());
        let ghost w = replies.writes@;
        replies.writes.push(reply);
        assert(replies.writes@.take(before.len() as int) =~= w.take(before.len() as int));
        i += 1;
    }
    match terminal.take_window_title_changed() {
        Some(title) => replies.title = Some(title),
        None => {},
    }
}

/// What is kept of `input` after a scan for inline images: the
/// unterminated rest, unless it already exceeds the limits.
pub open spec fn kept_after_scan(input: Seq<u8>, limits: ImageLimits) -> Seq<u8> {
    let rest = input.skip(spec_scan_from(input, 0).1);
    if spec_scan_from(input, 0).1 < input.len() && !spec_pending_oversized(rest, limits) {
        rest
    } else {
        Seq::empty()
    }
}

/// Feeds PTY output that has been cleared of Kitty commands: the kept
/// bytes of an unterminated inline image come first; text goes to the
/// terminal; inline images are shown when graphics are enabled (and those
/// whose metadata does not parse are dropped); an unterminated image is
/// kept for the next chunk unless it already exceeds the limits.
pub fn feed_vte_bytes(
    pending: &mut Vec<u8>,
    terminal: &mut Terminal,
    store: &mut ImageStore,
    upload: &mut Option<PartialKittyUpload>,
    bytes: &[u8],
    graphics_enabled: bool,
    metrics: CellMetrics,
    limits: ImageLimits,
    replies: &mut PtyReplies,
)
    requires
        old(terminal).wf(),
    ensures
        final(terminal).wf(),
        final(pending)@ == kept_after_scan(old(pending)@ + bytes@, limits),
        extends(old(replies).writes@, final(replies).writes@),
{
    let mut input: Vec<u8> = Vec::new();
    std::mem::swap(pending, &mut input);
    let ghost start = input@;
    let mut k: usize = 0;
    while k < bytes.len()
        invariant
            k <= bytes@.len(),
            input@ == start + bytes@.take(k as int),
        decreases bytes@.len() - k,
    {
        input.push(bytes[k]);
        assert(input@ =~= start + bytes@.take(k + 1));
        k += 1;
    }
    assert(bytes@.take(bytes@.len() as int) =~= bytes@);
    let scan = scan_pty_stream(input.as_slice());
    let ghost first = replies.writes@;
    assert(first.take(first.len() as int) =~= first);
    let mut i: usize = 0;
    while i < scan.items.len()
        invariant
            i <= scan.items@.len(),
            terminal.wf(),
            extends(first, replies.writes@),
        decreases scan.items@.len() - i,
    {
        match scan.items[i] {
            PtyStreamItem::Text(text) => {
                let ghost w = replies.writes@;
                feed_terminal_bytes(terminal, store, upload, text, replies);
                proof { lemma_extends_chain(first, w, replies.writes@); }
            },
            PtyStreamItem::InlineImage(sequence) => {
                if graphics_enabled {
                    let mut command = String::new();
                    command.append("File=");
                    command.append(sequence);
                    match parse_iterm2_inline_image(command.as_str()) {
                        Ok(parsed) => {
                            let _ = show_inline_image(store, terminal, &parsed, metrics, limits);
                        },
                        Err(_) => {},
                    }
                }
            },
            PtyStreamItem::InvalidInlineImage => {},
        }
        i += 1;
    }
    let consumed = scan.consumed;
    proof {
        crate::ui::inline_image::lemma_scan_retains_only_unterminated_osc(input@);
    }
    if consumed < input.len() {
        let mut rest: Vec<u8> = Vec::new();
        let mut j: usize = consumed;
        while j < input.len()
            invariant
                consumed <= j <= input@.len(),
                rest@ == input@.subrange(consumed as int, j as int),
            decreases input@.len() - j,
        {
            rest.push(input[j]);
            assert(rest@ =~= input@.subrange(consumed as int, j + 1));
            j += 1;
        }
        assert(rest@ =~= input@.skip(consumed as int));
        if !pending_inline_image_is_oversized(rest.as_slice(), limits) {
            *pending = rest;
        }
    }
}

proof fn lemma_extends_chain<T>(a: Seq<T>, b: Seq<T>, c: Seq<T>)
    requires
        extends(a, b),
        extends(b, c),
    ensures
        extends(a, c),
{
    assert(c.take(a.len() as int) =~= b.take(a.len() as int));
}

/// Feeds one chunk of PTY output: Kitty graphics commands are split out
/// and handled, the rest goes through `feed_vte_bytes`, in stream order;
/// then the images that neither the terminal shows nor a client names are
/// evicted. The PTY writes and the latest title change are handed back.
pub fn feed_pty_bytes(
    escape_router: &mut GraphicsEscapeRouter,
    pending: &mut Vec<u8>,
    upload: &mut Option<PartialKittyUpload>,
    terminal: &mut Terminal,
    store: &mut ImageStore,
    bytes: &[u8],
    graphics_enabled: bool,
    metrics: CellMetrics,
    limits: ImageLimits,
) -> (replies: PtyReplies)
    requires
        old(terminal).wf(),
    ensures
        final(terminal).wf(),
        forall|id: u64| #[trigger] final(store)@.images.contains_key(id)
            ==> image_is_live(id, images_of(final(terminal).placements()), final(store)@.kitty_images),
{
    let mut replies = PtyReplies { writes: Vec::new(), title: None };
    let items = escape_router.feed(bytes);
    let mut i: usize = 0;
    while i < items.len()
        invariant
            i <= items@.len(),
            terminal.wf(),
        decreases items@.len() - i,
    {
        match &items[i] {
            GraphicsStreamItem::Vte(output) => {
                feed_vte_bytes(pending, terminal, store, upload, output.as_slice(), graphics_enabled, metrics, limits, &mut replies);
            },
            GraphicsStreamItem::Kitty(command) => {
                handle_kitty_command(store, terminal, upload, command.as_slice(), graphics_enabled, metrics, limits, &mut replies.writes);
            },
            GraphicsStreamItem::OversizedKitty { control_data } => {
                handle_oversized_kitty(upload, control_data.as_slice(), graphics_enabled, &mut replies.writes);
            },
        }
        i += 1;
    }
    let live_images = terminal.image_placement_ids();
    let live_placements = terminal.placement_ids();
    store.evict_unreferenced(live_images.as_slice(), live_placements.as_slice());
    replies
}

} // verus!
