use knightty::proto::router::GraphicsEscapeRouter;
use knightty::term::terminal::Terminal;
use knightty::ui::image_store::ImageStore;
use knightty::ui::inline_image::{CellMetrics, ImageLimits};
use knightty::ui::kitty_graphics::PartialKittyUpload;
use knightty::ui::output::{feed_pty_bytes, PtyReplies};

const TRANSPARENT_PNG: &str = "iVBORw0KGgoAAAANSUhEUgAAAAEAAAABCAQAAAC1HAwCAAAAC0lEQVR42mNk+A8AAQUBAScY42YAAAAASUVORK5CYII=";

fn limits() -> ImageLimits {
    ImageLimits {
        max_encoded_bytes: 1024 * 1024,
        max_decoded_bytes: 4 * 1024 * 1024,
        max_width: 8192,
        max_height: 8192,
        max_pixels: 32_000_000,
        max_images: 128,
        max_gpu_bytes: 256 * 1024 * 1024,
    }
}

struct Session {
    router: GraphicsEscapeRouter,
    pending: Vec<u8>,
    upload: Option<PartialKittyUpload>,
    terminal: Terminal,
    store: ImageStore,
}

impl Session {
    fn new() -> Self {
        Session {
            router: GraphicsEscapeRouter::new(1024 * 1024),
            pending: Vec::new(),
            upload: None,
            terminal: Terminal::new(10, 4),
            store: ImageStore::new(),
        }
    }

    fn feed(&mut self, bytes: &[u8], enabled: bool) -> PtyReplies {
        feed_pty_bytes(
            &mut self.router,
            &mut self.pending,
            &mut self.upload,
            &mut self.terminal,
            &mut self.store,
            bytes,
            enabled,
            CellMetrics { width: 8, height: 16 },
            limits(),
        )
    }
}

#[test]
fn kitty_transmit_in_the_stream_is_shown_and_answered() {
    let mut session = Session::new();
    let stream = format!("ab\x1b_Ga=T,f=100,i=1;{TRANSPARENT_PNG}\x1b\\cd");

    let replies = session.feed(stream.as_bytes(), true);

    assert_eq!(replies.writes, vec![b"\x1b_Gi=1;OK\x1b\\".to_vec()]);
    let snapshot = session.terminal.snapshot();
    assert_eq!(snapshot.image_placements.len(), 1);
    assert_eq!(snapshot.image_placements[0].anchor.col, 2);
    assert_eq!(snapshot.cell(0, 0).ch, 'a');
    assert_eq!(snapshot.cell(3, 0).ch, 'c');
    assert_eq!(session.store.image_count(), 1);
}

#[test]
fn kitty_commands_are_swallowed_while_graphics_are_disabled() {
    let mut session = Session::new();
    let stream = format!("\x1b_Ga=T,f=100,i=1;{TRANSPARENT_PNG}\x1b\\x");

    let replies = session.feed(stream.as_bytes(), false);

    assert!(replies.writes.is_empty());
    assert!(session.terminal.snapshot().image_placements.is_empty());
    assert_eq!(session.terminal.snapshot().cell(0, 0).ch, 'x');
    assert_eq!(session.store.image_count(), 0);
}

#[test]
fn inline_image_split_across_chunks_is_shown_once_complete() {
    let mut session = Session::new();
    let stream = format!("\x1b]1337;File=inline=1:{TRANSPARENT_PNG}\x07");
    let (first, second) = stream.as_bytes().split_at(20);

    session.feed(first, true);
    assert!(session.terminal.snapshot().image_placements.is_empty());
    session.feed(second, true);

    assert_eq!(session.terminal.snapshot().image_placements.len(), 1);
    assert_eq!(session.store.image_count(), 1);
}

#[test]
fn terminal_replies_and_title_are_handed_back() {
    let mut session = Session::new();

    let replies = session.feed(b"\x1b]2;shell\x07\x1b[6n", true);

    assert_eq!(replies.title, Some("shell".to_owned()));
    assert_eq!(replies.writes, vec![b"\x1b[1;1R".to_vec()]);
}

#[test]
fn images_dropped_by_a_reset_are_evicted_after_the_chunk() {
    let mut session = Session::new();
    let stream = format!("\x1b_Ga=T,f=100,i=4;{TRANSPARENT_PNG}\x1b\\");
    session.feed(stream.as_bytes(), true);
    assert_eq!(session.store.image_count(), 1);

    session.feed(b"\x1bc", true);

    assert!(session.terminal.snapshot().image_placements.is_empty());
    assert_eq!(session.store.image_count(), 0);
    assert_eq!(session.store.kitty_image(4), None);
}
