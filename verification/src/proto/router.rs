//! Separates Kitty graphics APC sequences from the rest of a PTY byte stream.

use vstd::prelude::*;
use crate::text::ESC;

verus! {

/// Largest control-data prefix kept for a command.
pub const MAX_ROUTED_CONTROL_BYTES: usize = 4096;

#[derive(Clone, Debug, PartialEq, Eq)]
pub enum GraphicsStreamItem {
    Vte(Vec<u8>),
    Kitty(Vec<u8>),
    OversizedKitty { control_data: Vec<u8> },
}

/// Contents of a stream item.
pub enum StreamItemView {
    Vte(Seq<u8>),
    Kitty(Seq<u8>),
    OversizedKitty(Seq<u8>),
}

impl View for GraphicsStreamItem {
    type V = StreamItemView;

    open spec fn view(&self) -> StreamItemView {
        match self {
            GraphicsStreamItem::Vte(bytes) => StreamItemView::Vte(bytes@),
            GraphicsStreamItem::Kitty(bytes) => StreamItemView::Kitty(bytes@),
            GraphicsStreamItem::OversizedKitty { control_data } => StreamItemView::OversizedKitty(control_data@),
        }
    }
}

#[derive(Clone, Copy, Debug, PartialEq, Eq, Structural)]
pub enum StreamState {
    Ground,
    Escape,
    ApcKind,
    NonKittyApc,
    NonKittyEscape,
    Kitty,
    KittyEscape,
    OversizedKitty,
    OversizedKittyEscape,
}

/// Router state: the scanner state, the body of the command being
/// captured, where its control data ends, and the payload limit.
pub struct RouterModel {
    pub state: StreamState,
    pub buffer: Seq<u8>,
    pub control_end: Option<int>,
    pub max_payload_bytes: nat,
}

/// Router state together with the output produced so far by one feed.
pub struct FeedModel {
    pub router: RouterModel,
    pub vte: Seq<u8>,
    pub items: Seq<StreamItemView>,
}

#[derive(Debug)]
pub struct GraphicsEscapeRouter {
    state: StreamState,
    kitty_buffer: Vec<u8>,
    kitty_control_end: Option<usize>,
    max_payload_bytes: usize,
}

impl GraphicsEscapeRouter {
    pub closed spec fn model(&self) -> RouterModel {
        RouterModel {
            state: self.state,
            buffer: self.kitty_buffer@,
            control_end: match self.kitty_control_end {
                Some(e) => Some(e as int),
                None => None,
            },
            max_payload_bytes: self.max_payload_bytes as nat,
        }
    }
}

/// Capture one byte of a Kitty command body, switching to discard mode once
/// the control data or the payload exceeds its limit.
pub open spec fn model_push_kitty_byte(m: RouterModel, byte: u8) -> RouterModel {
    if m.state == StreamState::OversizedKitty {
        m
    } else {
        let end = if byte == 0x3b && m.control_end is None { Some(m.buffer.len() as int) } else { m.control_end };
        let buffer = m.buffer.push(byte);
        let oversized = match end {
            Some(e) => (if buffer.len() > e { buffer.len() - e - 1 } else { 0 }) > m.max_payload_bytes,
            None => buffer.len() > MAX_ROUTED_CONTROL_BYTES,
        };
        if oversized {
            let keep = match end {
                Some(e) => e,
                None => MAX_ROUTED_CONTROL_BYTES as int,
            };
            let keep = if keep < buffer.len() { keep } else { buffer.len() as int };
            RouterModel { state: StreamState::OversizedKitty, buffer: buffer.take(keep), control_end: end, ..m }
        } else if m.state != StreamState::KittyEscape {
            RouterModel { state: StreamState::Kitty, buffer, control_end: end, ..m }
        } else {
            RouterModel { buffer, control_end: end, ..m }
        }
    }
}

/// Emit the pending ordinary bytes as one item, if there are any.
pub open spec fn model_flush(f: FeedModel) -> FeedModel {
    if f.vte.len() > 0 {
        FeedModel { vte: Seq::empty(), items: f.items.push(StreamItemView::Vte(f.vte)), ..f }
    } else {
        f
    }
}

pub open spec fn with_state(f: FeedModel, state: StreamState) -> FeedModel {
    FeedModel { router: RouterModel { state, ..f.router }, ..f }
}

/// The effect of one input byte.
pub open spec fn model_step(f: FeedModel, byte: u8) -> FeedModel {
    let m = f.router;
    match m.state {
        StreamState::Ground => if byte == ESC {
            with_state(f, StreamState::Escape)
        } else {
            FeedModel { vte: f.vte.push(byte), ..f }
        },
        StreamState::Escape => if byte == 0x5f {
            with_state(f, StreamState::ApcKind)
        } else if byte == ESC {
            with_state(FeedModel { vte: f.vte.push(ESC), ..f }, StreamState::Escape)
        } else {
            with_state(FeedModel { vte: f.vte.push(ESC).push(byte), ..f }, StreamState::Ground)
        },
        StreamState::ApcKind => if byte == 0x47 {
            let g = model_flush(f);
            FeedModel {
                router: RouterModel { state: StreamState::Kitty, buffer: Seq::empty(), control_end: None, ..m },
                ..g
            }
        } else {
            with_state(FeedModel { vte: f.vte.push(ESC).push(0x5f).push(byte), ..f }, StreamState::NonKittyApc)
        },
        StreamState::NonKittyApc => with_state(
            FeedModel { vte: f.vte.push(byte), ..f },
            if byte == ESC { StreamState::NonKittyEscape } else { StreamState::NonKittyApc },
        ),
        StreamState::NonKittyEscape => with_state(
            FeedModel { vte: f.vte.push(byte), ..f },
            if byte == 0x5c {
                StreamState::Ground
            } else if byte == ESC {
                StreamState::NonKittyEscape
            } else {
                StreamState::NonKittyApc
            },
        ),
        StreamState::Kitty => if byte == ESC {
            with_state(f, StreamState::KittyEscape)
        } else {
            FeedModel { router: model_push_kitty_byte(m, byte), ..f }
        },
        StreamState::KittyEscape => if byte == 0x5c {
            FeedModel {
                router: RouterModel { state: StreamState::Ground, buffer: Seq::empty(), control_end: None, ..m },
                items: f.items.push(StreamItemView::Kitty(m.buffer)),
                ..f
            }
        } else {
            let m1 = model_push_kitty_byte(m, ESC);
            if m1.state != StreamState::OversizedKitty {
                if byte == ESC {
                    FeedModel { router: RouterModel { state: StreamState::KittyEscape, ..m1 }, ..f }
                } else {
                    FeedModel { router: model_push_kitty_byte(m1, byte), ..f }
                }
            } else {
                FeedModel { router: m1, ..f }
            }
        },
        StreamState::OversizedKitty => if byte == ESC {
            with_state(f, StreamState::OversizedKittyEscape)
        } else {
            f
        },
        StreamState::OversizedKittyEscape => if byte == 0x5c {
            let end = match m.control_end {
                Some(e) => e,
                None => m.buffer.len() as int,
            };
            let end = if end < m.buffer.len() { end } else { m.buffer.len() as int };
            FeedModel {
                router: RouterModel { state: StreamState::Ground, buffer: Seq::empty(), control_end: None, ..m },
                items: f.items.push(StreamItemView::OversizedKitty(m.buffer.take(end))),
                ..f
            }
        } else if byte != ESC {
            with_state(f, StreamState::OversizedKitty)
        } else {
            f
        },
    }
}

/// The effect of a sequence of input bytes, in order.
pub open spec fn model_run(f: FeedModel, input: Seq<u8>) -> FeedModel
    decreases input.len(),
{
    if input.len() == 0 {
        f
    } else {
        model_step(model_run(f, input.drop_last()), input.last())
    }
}

/// Router state and items after one call of `feed`.
pub open spec fn model_feed(m: RouterModel, input: Seq<u8>) -> FeedModel {
    model_flush(model_run(FeedModel { router: m, vte: Seq::empty(), items: Seq::empty() }, input))
}


pub open spec fn items_view(items: Seq<GraphicsStreamItem>) -> Seq<StreamItemView> {
    items.map_values(|item: GraphicsStreamItem| item@)
}

fn flush_vte(items: &mut Vec<GraphicsStreamItem>, vte: &mut Vec<u8>)
    ensures
        ({
            let f = model_flush(FeedModel { router: arbitrary(), vte: old(vte)@, items: items_view(old(items)@) });
            &&& final(vte)@ == f.vte
            &&& items_view(final(items)@) == f.items
        }),
{
    if vte.len() > 0 {
        let mut taken: Vec<u8> = Vec::new();
        core::mem::swap(&mut taken, vte);
        let ghost before = items@;
        items.push(GraphicsStreamItem::Vte(taken));
        assert(items_view(items@) =~= items_view(before).push(StreamItemView::Vte(old(vte)@)));
    }
}

impl GraphicsEscapeRouter {
    pub fn new(max_payload_bytes: usize) -> (r: Self)
        ensures
            r.model() == (RouterModel {
                state: StreamState::Ground,
                buffer: Seq::empty(),
                control_end: None,
                max_payload_bytes: max_payload_bytes as nat,
            }),
    {
        GraphicsEscapeRouter {
            state: StreamState::Ground,
            kitty_buffer: Vec::with_capacity(4096),
            kitty_control_end: None,
            max_payload_bytes,
        }
    }

    pub fn set_max_payload_bytes(&mut self, max_payload_bytes: usize)
        ensures
            final(self).model() == (RouterModel { max_payload_bytes: max_payload_bytes as nat, ..old(self).model() }),
    {
        self.max_payload_bytes = max_payload_bytes;
    }

    fn push_kitty_byte(&mut self, byte: u8)
        ensures
            final(self).model() == model_push_kitty_byte(old(self).model(), byte),
    {
        if self.state == StreamState::OversizedKitty {
            return;
        }
        if byte == 0x3b && self.kitty_control_end.is_none() {
            self.kitty_control_end = Some(self.kitty_buffer.len());
        }
        self.kitty_buffer.push(byte);
        let len = self.kitty_buffer.len();
        let oversized = match self.kitty_control_end {
            Some(end) => (if len > end { len - end - 1 } else { 0 }) > self.max_payload_bytes,
            None => len > MAX_ROUTED_CONTROL_BYTES,
        };
        if oversized {
            let keep = match self.kitty_control_end {
                Some(end) => end,
                None => MAX_ROUTED_CONTROL_BYTES,
            };
            let keep = if keep < len { keep } else { len };
            self.kitty_buffer.truncate(keep);
            self.state = StreamState::OversizedKitty;
        } else if self.state != StreamState::KittyEscape {
            self.state = StreamState::Kitty;
        }
        assert(self.kitty_buffer@ =~= model_push_kitty_byte(old(self).model(), byte).buffer);
    }

    fn take_buffer(&mut self) -> (r: Vec<u8>)
        ensures
            r@ == old(self).kitty_buffer@,
            final(self).kitty_buffer@ == Seq::<u8>::empty(),
            final(self).state == old(self).state,
            final(self).kitty_control_end == old(self).kitty_control_end,
            final(self).max_payload_bytes == old(self).max_payload_bytes,
    {
        let mut taken: Vec<u8> = Vec::new();
        core::mem::swap(&mut taken, &mut self.kitty_buffer);
        taken
    }

    /// Route one chunk of PTY output: ordinary bytes come out as `Vte`
    /// items and complete Kitty graphics commands as `Kitty` items, in input
    /// order; a command split across chunks is held until its terminator.
    pub fn feed(&mut self, input: &[u8]) -> (items: Vec<GraphicsStreamItem>)
        ensures
            ({
                let f = model_feed(old(self).model(), input@);
                &&& final(self).model() == f.router
                &&& items_view(items@) == f.items
            }),
    {
        let mut items: Vec<GraphicsStreamItem> = Vec::new();
        let mut vte: Vec<u8> = Vec::new();
        let ghost start = FeedModel { router: self.model(), vte: Seq::empty(), items: Seq::empty() };
        let mut i: usize = 0;
        assert(input@.take(0) =~= Seq::<u8>::empty());
        assert(items_view(items@) =~= Seq::<StreamItemView>::empty());
        while i < input.len()
            invariant
                i <= input@.len(),
                start == (FeedModel { router: old(self).model(), vte: Seq::empty(), items: Seq::empty() }),
                ({
                    let f = model_run(start, input@.take(i as int));
                    &&& self.model() == f.router
                    &&& vte@ == f.vte
                    &&& items_view(items@) == f.items
                }),
            decreases input@.len() - i,
        {
            let byte = input[i];
            let ghost before = FeedModel { router: self.model(), vte: vte@, items: items_view(items@) };
            assert(input@.take(i + 1).drop_last() =~= input@.take(i as int));
            match self.state {
                StreamState::Ground => {
                    if byte == ESC {
                        self.state = StreamState::Escape;
                    } else {
                        vte.push(byte);
                    }
                },
                StreamState::Escape => {
                    if byte == 0x5f {
                        self.state = StreamState::ApcKind;
                    } else {
                        vte.push(ESC);
                        if byte == ESC {
                            self.state = StreamState::Escape;
                        } else {
                            vte.push(byte);
                            self.state = StreamState::Ground;
                        }
                    }
                },
                StreamState::ApcKind => {
                    if byte == 0x47 {
                        flush_vte(&mut items, &mut vte);
                        self.kitty_buffer.clear();
                        self.kitty_control_end = None;
                        self.state = StreamState::Kitty;
                    } else {
                        vte.push(ESC);
                        vte.push(0x5f);
                        vte.push(byte);
                        self.state = StreamState::NonKittyApc;
                    }
                },
                StreamState::NonKittyApc => {
                    vte.push(byte);
                    if byte == ESC {
                        self.state = StreamState::NonKittyEscape;
                    }
                },
                StreamState::NonKittyEscape => {
                    vte.push(byte);
                    self.state = if byte == 0x5c {
                        StreamState::Ground
                    } else if byte == ESC {
                        StreamState::NonKittyEscape
                    } else {
                        StreamState::NonKittyApc
                    };
                },
                StreamState::Kitty => {
                    if byte == ESC {
                        self.state = StreamState::KittyEscape;
                    } else {
                        self.push_kitty_byte(byte);
                    }
                },
                StreamState::KittyEscape => {
                    if byte == 0x5c {
                        let taken = self.take_buffer();
                        let ghost prior = items@;
                        items.push(GraphicsStreamItem::Kitty(taken));
                        assert(items_view(items@) =~= items_view(prior).push(StreamItemView::Kitty(taken@)));
                        self.kitty_control_end = None;
                        self.state = StreamState::Ground;
                    } else {
                        self.push_kitty_byte(ESC);
                        if self.state != StreamState::OversizedKitty {
                            if byte == ESC {
                                self.state = StreamState::KittyEscape;
                            } else {
                                self.push_kitty_byte(byte);
                            }
                        }
                    }
                },
                StreamState::OversizedKitty => {
                    if byte == ESC {
                        self.state = StreamState::OversizedKittyEscape;
                    }
                },
                StreamState::OversizedKittyEscape => {
                    if byte == 0x5c {
                        let len = self.kitty_buffer.len();
                        let end = match self.kitty_control_end {
                            Some(e) => e,
                            None => len,
                        };
                        let end = if end < len { end } else { len };
                        self.kitty_buffer.truncate(end);
                        let taken = self.take_buffer();
                        let ghost prior = items@;
                        items.push(GraphicsStreamItem::OversizedKitty { control_data: taken });
                        assert(items_view(items@) =~= items_view(prior).push(StreamItemView::OversizedKitty(taken@)));
                        self.kitty_control_end = None;
                        self.state = StreamState::Ground;
                    } else if byte != ESC {
                        self.state = StreamState::OversizedKitty;
                    }
                },
            }
            proof {
                let after = model_step(before, byte);
                assert(self.model().buffer =~= after.router.buffer);
                assert(vte@ =~= after.vte);
                assert(items_view(items@) =~= after.items);
            }
            i = i + 1;
        }
        assert(input@.take(input@.len() as int) =~= input@);
        flush_vte(&mut items, &mut vte);
        items
    }
}

impl Default for GraphicsEscapeRouter {
    fn default() -> (r: Self)
        ensures
            r.model() == (RouterModel {
                state: StreamState::Ground,
                buffer: Seq::empty(),
                control_end: None,
                max_payload_bytes: 16 * 1024 * 1024,
            }),
    {
        Self::new(16 * 1024 * 1024)
    }
}


// ---------------------------------------------------------------------
// Splitting the input between calls of `feed` does not matter.
// ---------------------------------------------------------------------

/// `m` with ordinary bytes `v` added: joined to a last ordinary-byte item.
pub open spec fn append_vte(m: Seq<StreamItemView>, v: Seq<u8>) -> Seq<StreamItemView> {
    if m.len() > 0 && m.last() is Vte {
        m.drop_last().push(StreamItemView::Vte(m.last()->Vte_0 + v))
    } else {
        m.push(StreamItemView::Vte(v))
    }
}

/// The items with neighbouring ordinary-byte items joined into one.
pub open spec fn merge_vte(items: Seq<StreamItemView>) -> Seq<StreamItemView>
    decreases items.len(),
{
    if items.len() == 0 {
        Seq::empty()
    } else {
        match items.last() {
            StreamItemView::Vte(v) => append_vte(merge_vte(items.drop_last()), v),
            other => merge_vte(items.drop_last()).push(other),
        }
    }
}

/// Everything a partial feed has produced, pending bytes included, joined.
pub open spec fn produced(f: FeedModel) -> Seq<StreamItemView> {
    merge_vte(model_flush(f).items)
}

pub open spec fn in_kitty_command(s: StreamState) -> bool {
    s == StreamState::Kitty || s == StreamState::KittyEscape || s == StreamState::OversizedKitty
        || s == StreamState::OversizedKittyEscape
}

/// No ordinary bytes are pending while a Kitty command is captured.
pub open spec fn feed_inv(f: FeedModel) -> bool {
    in_kitty_command(f.router.state) ==> f.vte.len() == 0
}

proof fn lemma_append_vte_assoc(m: Seq<StreamItemView>, v: Seq<u8>, x: Seq<u8>)
    ensures
        append_vte(append_vte(m, v), x) == append_vte(m, v + x),
{
    if m.len() > 0 && m.last() is Vte {
        assert(append_vte(m, v).drop_last() =~= m.drop_last());
        assert(m.last()->Vte_0 + v + x =~= m.last()->Vte_0 + (v + x));
    } else {
        assert(append_vte(m, v).drop_last() =~= m);
    }
}

proof fn lemma_produced_push_vte(f: FeedModel, x: Seq<u8>)
    requires
        x.len() > 0,
    ensures
        produced(FeedModel { vte: f.vte + x, ..f }) == append_vte(produced(f), x),
{
    let g = FeedModel { vte: f.vte + x, ..f };
    assert(model_flush(g).items.drop_last() =~= f.items);
    if f.vte.len() > 0 {
        assert(model_flush(f).items.drop_last() =~= f.items);
        lemma_append_vte_assoc(merge_vte(f.items), f.vte, x);
    } else {
        assert(f.vte + x =~= x);
    }
}

proof fn lemma_produced_flush(f: FeedModel)
    ensures
        produced(model_flush(f)) == produced(f),
        model_flush(f).router == f.router,
{
}

proof fn lemma_produced_push_item(f: FeedModel, k: StreamItemView)
    requires
        f.vte.len() == 0,
        !(k is Vte),
    ensures
        produced(FeedModel { items: f.items.push(k), ..f }) == produced(f).push(k),
{
    assert(f.items.push(k).drop_last() =~= f.items);
}

/// Feeds that agree on the router and on what they produced keep agreeing
/// after one more byte.
proof fn lemma_step_congruent(f: FeedModel, g: FeedModel, byte: u8)
    requires
        f.router == g.router,
        produced(f) == produced(g),
        feed_inv(f),
        feed_inv(g),
    ensures
        model_step(f, byte).router == model_step(g, byte).router,
        produced(model_step(f, byte)) == produced(model_step(g, byte)),
        feed_inv(model_step(f, byte)),
        feed_inv(model_step(g, byte)),
{
    let m = f.router;
    match m.state {
        StreamState::Ground => if byte != ESC {
            assert(f.vte.push(byte) =~= f.vte + seq![byte]);
            assert(g.vte.push(byte) =~= g.vte + seq![byte]);
            lemma_produced_push_vte(f, seq![byte]);
            lemma_produced_push_vte(g, seq![byte]);
        },
        StreamState::Escape => if byte == 0x5f {
        } else if byte == ESC {
            assert(f.vte.push(ESC) =~= f.vte + seq![ESC]);
            assert(g.vte.push(ESC) =~= g.vte + seq![ESC]);
            lemma_produced_push_vte(f, seq![ESC]);
            lemma_produced_push_vte(g, seq![ESC]);
        } else {
            assert(f.vte.push(ESC).push(byte) =~= f.vte + seq![ESC, byte]);
            assert(g.vte.push(ESC).push(byte) =~= g.vte + seq![ESC, byte]);
            lemma_produced_push_vte(f, seq![ESC, byte]);
            lemma_produced_push_vte(g, seq![ESC, byte]);
        },
        StreamState::ApcKind => if byte == 0x47 {
            lemma_produced_flush(f);
            lemma_produced_flush(g);
        } else {
            assert(f.vte.push(ESC).push(0x5f).push(byte) =~= f.vte + seq![ESC, 0x5fu8, byte]);
            assert(g.vte.push(ESC).push(0x5f).push(byte) =~= g.vte + seq![ESC, 0x5fu8, byte]);
            lemma_produced_push_vte(f, seq![ESC, 0x5fu8, byte]);
            lemma_produced_push_vte(g, seq![ESC, 0x5fu8, byte]);
        },
        StreamState::NonKittyApc | StreamState::NonKittyEscape => {
            assert(f.vte.push(byte) =~= f.vte + seq![byte]);
            assert(g.vte.push(byte) =~= g.vte + seq![byte]);
            lemma_produced_push_vte(f, seq![byte]);
            lemma_produced_push_vte(g, seq![byte]);
        },
        StreamState::Kitty => {},
        StreamState::KittyEscape => if byte == 0x5c {
            lemma_produced_push_item(f, StreamItemView::Kitty(m.buffer));
            lemma_produced_push_item(g, StreamItemView::Kitty(m.buffer));
        },
        StreamState::OversizedKitty => {},
        StreamState::OversizedKittyEscape => if byte == 0x5c {
            let end = match m.control_end {
                Some(e) => e,
                None => m.buffer.len() as int,
            };
            let end = if end < m.buffer.len() { end } else { m.buffer.len() as int };
            lemma_produced_push_item(f, StreamItemView::OversizedKitty(m.buffer.take(end)));
            lemma_produced_push_item(g, StreamItemView::OversizedKitty(m.buffer.take(end)));
        },
    }
}

proof fn lemma_run_congruent(f: FeedModel, g: FeedModel, input: Seq<u8>)
    requires
        f.router == g.router,
        produced(f) == produced(g),
        feed_inv(f),
        feed_inv(g),
    ensures
        model_run(f, input).router == model_run(g, input).router,
        produced(model_run(f, input)) == produced(model_run(g, input)),
        feed_inv(model_run(f, input)),
        feed_inv(model_run(g, input)),
    decreases input.len(),
{
    if input.len() > 0 {
        lemma_run_congruent(f, g, input.drop_last());
        lemma_step_congruent(model_run(f, input.drop_last()), model_run(g, input.drop_last()), input.last());
    }
}

proof fn lemma_run_concat(f: FeedModel, a: Seq<u8>, b: Seq<u8>)
    ensures
        model_run(f, a + b) == model_run(model_run(f, a), b),
    decreases b.len(),
{
    if b.len() == 0 {
        assert(a + b =~= a);
    } else {
        assert((a + b).drop_last() =~= a + b.drop_last());
        assert((a + b).last() == b.last());
        lemma_run_concat(f, a, b.drop_last());
    }
}

/// Earlier items do not change what a byte does.
proof fn lemma_step_prefix(f: FeedModel, p: Seq<StreamItemView>, byte: u8)
    ensures
        model_step(FeedModel { items: p + f.items, ..f }, byte)
            == (FeedModel { items: p + model_step(f, byte).items, ..model_step(f, byte) }),
{
    let g = FeedModel { items: p + f.items, ..f };
    let sf = model_step(f, byte);
    let sg = model_step(g, byte);
    assert(sg.items =~= p + sf.items) by {
        if f.vte.len() > 0 {
            assert((p + f.items).push(StreamItemView::Vte(f.vte)) =~= p + f.items.push(StreamItemView::Vte(f.vte)));
        }
        assert((p + f.items).push(StreamItemView::Kitty(f.router.buffer)) =~= p + f.items.push(StreamItemView::Kitty(f.router.buffer)));
        let m = f.router;
        let end = match m.control_end {
            Some(e) => e,
            None => m.buffer.len() as int,
        };
        let end = if end < m.buffer.len() { end } else { m.buffer.len() as int };
        assert((p + f.items).push(StreamItemView::OversizedKitty(m.buffer.take(end)))
            =~= p + f.items.push(StreamItemView::OversizedKitty(m.buffer.take(end))));
    }
}

proof fn lemma_run_prefix(f: FeedModel, p: Seq<StreamItemView>, input: Seq<u8>)
    ensures
        model_run(FeedModel { items: p + f.items, ..f }, input)
            == (FeedModel { items: p + model_run(f, input).items, ..model_run(f, input) }),
    decreases input.len(),
{
    if input.len() > 0 {
        lemma_run_prefix(f, p, input.drop_last());
        lemma_step_prefix(model_run(f, input.drop_last()), p, input.last());
    }
}

/// Feeding `a` and then `b` leaves the router as feeding `a + b` at once
/// does, and yields the same Kitty commands and the same ordinary bytes in
/// the same order; only the cut between ordinary-byte items may differ.
pub proof fn lemma_feed_in_two_parts(r: RouterModel, a: Seq<u8>, b: Seq<u8>)
    ensures
        model_feed(model_feed(r, a).router, b).router == model_feed(r, a + b).router,
        merge_vte(model_feed(r, a).items + model_feed(model_feed(r, a).router, b).items)
            == merge_vte(model_feed(r, a + b).items),
{
    let f0 = FeedModel { router: r, vte: Seq::empty(), items: Seq::empty() };
    let fa = model_run(f0, a);
    let f1 = model_flush(fa);
    let r1 = f1.router;
    let h = FeedModel { router: r1, vte: Seq::empty(), items: Seq::empty() };
    let g = FeedModel { router: r1, vte: Seq::empty(), items: f1.items };
    lemma_run_congruent(f0, f0, a);
    assert(produced(g) == produced(fa));
    lemma_run_congruent(g, fa, b);
    lemma_run_concat(f0, a, b);
    assert(g == (FeedModel { items: f1.items + h.items, ..h })) by {
        assert(f1.items + h.items =~= f1.items);
    }
    lemma_run_prefix(h, f1.items, b);
    let rh = model_run(h, b);
    let rg = model_run(g, b);
    assert(model_flush(rg).items =~= f1.items + model_flush(rh).items) by {
        if rh.vte.len() > 0 {
            assert((f1.items + rh.items).push(StreamItemView::Vte(rh.vte)) =~= f1.items + rh.items.push(StreamItemView::Vte(rh.vte)));
        }
    }
}
} // verus!
