//! The decoded inline images the router keeps for rendering, the Kitty
//! client ids that refer to them, and the accounting of their size.

use vstd::prelude::*;
use std::collections::BTreeMap;
use vstd::std_specs::btree::{spec_keys_iter, spec_values_iter};
use vstd::std_specs::iter::IteratorSpec;
use crate::proto::iterm2::{ImageDimension, InlineImageSequence};
use crate::proto::kitty::{KittyCommand, KittyErrorCode, KittyImageKey, KittyProtocolError};
use crate::term::grid::{GridPoint, ImageId, ImagePlacement, ImagePlacementId};
use crate::ui::inline_image::{
    decode_png, decode_png_payload, placement_for_image, placement_for_kitty,
    spec_decode_png_payload, spec_placement_for_image, spec_placement_for_kitty,
    CellMetrics, DecodedImage, DecodedImageView, ImageLimits, InlineImageError,
};
use crate::ui::input::{image_error_code, kitty_image_error, kitty_image_not_found};
use crate::ui::kitty_graphics::{
    next_id_after, placement_options, plan_kitty_store, spec_placement_options, spec_plan_kitty_store,
    KittyTransmitMetadata,
};
use vstd::string::StringSliceAdditionalSpecFns;
use vstd::utf8::encode_utf8;

verus! {

broadcast use {
    vstd::std_specs::btree::group_btree_axioms,
    vstd::laws_cmp::group_laws_cmp,
    vstd::set::group_set_axioms,
    ImageId::lemma_spec_new_value,
    ImagePlacementId::lemma_spec_new_value,
};

/// Total RGBA bytes of the images in `m`.
pub open spec fn image_bytes(m: Map<u64, DecodedImage>) -> nat
    decreases m.dom().len(),
{
    if m.dom().finite() && m.dom().len() > 0 {
        let k = m.dom().choose();
        proof {
            assert(m.dom().contains(k));
            assert(m.remove(k).dom() == m.dom().remove(k));
        }
        m[k].rgba@.len() + image_bytes(m.remove(k))
    } else {
        0
    }
}

/// Taking any image out of a finite map takes its bytes off the total.
pub proof fn lemma_image_bytes_remove(m: Map<u64, DecodedImage>, k: u64)
    requires
        m.dom().finite(),
        m.dom().contains(k),
    ensures
        image_bytes(m) == m[k].rgba@.len() + image_bytes(m.remove(k)),
    decreases m.dom().len(),
{
    let c = m.dom().choose();
    assert(m.dom().contains(c));
    if c != k {
        assert(m.remove(c).dom() == m.dom().remove(c));
        assert(m.remove(k).dom() == m.dom().remove(k));
        lemma_image_bytes_remove(m.remove(c), k);
        lemma_image_bytes_remove(m.remove(k), c);
        assert(m.remove(c).remove(k) =~= m.remove(k).remove(c));
    }
}

/// Putting an image under a key replaces the bytes of what was there.
pub proof fn lemma_image_bytes_insert(m: Map<u64, DecodedImage>, k: u64, v: DecodedImage)
    requires
        m.dom().finite(),
    ensures
        image_bytes(m.insert(k, v)) == v.rgba@.len() + image_bytes(m.remove(k)),
        m.dom().contains(k) ==> image_bytes(m.remove(k)) + m[k].rgba@.len() == image_bytes(m),
{
    lemma_image_bytes_remove(m.insert(k, v), k);
    assert(m.insert(k, v).remove(k) =~= m.remove(k));
    if m.dom().contains(k) {
        lemma_image_bytes_remove(m, k);
    }
}

/// The bytes of the images listed in `keys`, in order.
pub open spec fn listed_bytes(m: Map<u64, DecodedImage>, keys: Seq<u64>) -> nat
    decreases keys.len(),
{
    if keys.len() == 0 {
        0
    } else {
        listed_bytes(m, keys.drop_last()) + m[keys.last()].rgba@.len()
    }
}

/// Listing every key once adds up to the total.
pub proof fn lemma_listed_bytes_total(m: Map<u64, DecodedImage>, keys: Seq<u64>)
    requires
        m.dom().finite(),
        keys.no_duplicates(),
        keys.to_set() == m.dom(),
    ensures
        listed_bytes(m, keys) == image_bytes(m),
    decreases keys.len(),
{
    if keys.len() == 0 {
        assert(m.dom() =~= Set::<u64>::empty());
    } else {
        let k = keys.last();
        let rest = keys.drop_last();
        assert(keys.to_set().contains(k)) by {
            assert(keys[keys.len() - 1] == k);
        }
        lemma_image_bytes_remove(m, k);
        assert(rest.to_set() =~= m.remove(k).dom()) by {
            assert forall|x: u64| rest.to_set().contains(x) implies m.remove(k).dom().contains(x) by {
                let i = choose|i: int| 0 <= i < rest.len() && rest[i] == x;
                assert(keys[i] == x);
                assert(x != k);
            }
            assert forall|x: u64| m.remove(k).dom().contains(x) implies rest.to_set().contains(x) by {
                assert(keys.to_set().contains(x));
                let i = choose|i: int| 0 <= i < keys.len() && keys[i] == x;
                assert(i != keys.len() - 1);
                assert(rest[i] == x);
            }
        }
        assert(listed_bytes(m.remove(k), rest) == listed_bytes(m, rest)) by {
            lemma_listed_bytes_frame(m, k, rest);
        }
        lemma_listed_bytes_total(m.remove(k), rest);
    }
}

proof fn lemma_listed_bytes_frame(m: Map<u64, DecodedImage>, k: u64, keys: Seq<u64>)
    requires
        !keys.contains(k),
    ensures
        listed_bytes(m.remove(k), keys) == listed_bytes(m, keys),
    decreases keys.len(),
{
    if keys.len() > 0 {
        assert(keys.drop_last().contains(k) ==> keys.contains(k)) by {
            if keys.drop_last().contains(k) {
                let i = choose|i: int| 0 <= i < keys.drop_last().len() && keys.drop_last()[i] == k;
                assert(keys[i] == k);
            }
        }
        assert(keys[keys.len() - 1] == keys.last());
        lemma_listed_bytes_frame(m, k, keys.drop_last());
    }
}

// ---------------------------------------------------------------------
// The store.
// ---------------------------------------------------------------------

/// Decoded images by internal id, their byte total, the internal ids that
/// Kitty clients refer to by their own image ids, the internal placement
/// ids of named Kitty placements, and the next ids to hand out.
#[derive(Debug)]
pub struct ImageStore {
    images: BTreeMap<u64, DecodedImage>,
    stored_bytes: usize,
    kitty_images: BTreeMap<u32, u64>,
    kitty_placements: BTreeMap<(u32, u32), u64>,
    next_image_id: u64,
    next_placement_id: u64,
}

/// Contents of an image store.
pub struct StoreView {
    pub images: Map<u64, DecodedImage>,
    pub stored_bytes: nat,
    pub kitty_images: Map<u32, u64>,
    pub kitty_placements: Map<(u32, u32), u64>,
    pub next_image_id: u64,
    pub next_placement_id: u64,
}

impl View for ImageStore {
    type V = StoreView;

    closed spec fn view(&self) -> StoreView {
        StoreView {
            images: self.images@,
            stored_bytes: self.stored_bytes as nat,
            kitty_images: self.kitty_images@,
            kitty_placements: self.kitty_placements@,
            next_image_id: self.next_image_id,
            next_placement_id: self.next_placement_id,
        }
    }
}

/// Why an iTerm2 image was not added.
#[derive(Clone, Copy, Debug, Eq, PartialEq, Structural)]
pub enum InlineImageRejection {
    /// As many images as allowed are stored.
    CountLimit,
    /// The payload did not decode.
    Decode(InlineImageError),
    /// The byte total would not fit a `usize`.
    ByteOverflow,
    /// The byte total would exceed the GPU budget.
    ByteLimit,
    /// The image could not be placed.
    Placement(InlineImageError),
}

/// What a committed Kitty transmit changed: the image it replaced (whose
/// placements must go) and the placement to show, if it displays.
#[derive(Clone, Copy, Debug, Eq, PartialEq, Structural)]
pub struct KittyCommit {
    pub replaced: Option<ImageId>,
    pub placement: Option<ImagePlacement>,
}

/// What a Kitty delete command removes from the terminal.
#[derive(Clone, Copy, Debug, Eq, PartialEq, Structural)]
pub enum KittyDeletion {
    /// Nothing: the image id or placement is unknown.
    Nothing,
    /// One placement.
    Placement(ImagePlacementId),
    /// Every placement of an image.
    Image(ImageId),
}

pub open spec fn next_after(id: u64) -> u64 {
    if id == u64::MAX { u64::MAX } else { (id + 1) as u64 }
}

/// `m` without the named placements of client image `client`.
pub open spec fn without_client(m: Map<(u32, u32), u64>, client: u32) -> Map<(u32, u32), u64> {
    m.filter_keys(|k: (u32, u32)| k.0 != client)
}

/// `m` with only the named placements whose internal ids are live.
pub open spec fn with_live_placements(m: Map<(u32, u32), u64>, live: Seq<ImagePlacementId>) -> Map<(u32, u32), u64> {
    m.filter_keys(|k: (u32, u32)| exists|i: int| 0 <= i < live.len() && live[i].spec_value() == m[k])
}

/// An image is kept when the terminal still shows it or a Kitty client
/// refers to it.
pub open spec fn image_is_live(id: u64, live: Seq<ImageId>, kitty_images: Map<u32, u64>) -> bool {
    (exists|i: int| 0 <= i < live.len() && live[i].spec_value() == id) || kitty_images.values().contains(id)
}

impl ImageStore {
    pub fn new() -> (s: Self)
        ensures
            s@.images == Map::<u64, DecodedImage>::empty(),
            s@.stored_bytes == 0,
            s@.kitty_images == Map::<u32, u64>::empty(),
            s@.kitty_placements == Map::<(u32, u32), u64>::empty(),
            s@.next_image_id == 1,
            s@.next_placement_id == 1,
    {
        ImageStore {
            images: BTreeMap::new(),
            stored_bytes: 0,
            kitty_images: BTreeMap::new(),
            kitty_placements: BTreeMap::new(),
            next_image_id: 1,
            next_placement_id: 1,
        }
    }

    /// How many images are stored.
    pub fn image_count(&self) -> (r: usize)
        ensures
            r == self@.images.len(),
    {
        self.images.len()
    }

    /// The byte total the store accounts for.
    pub fn stored_bytes(&self) -> (r: usize)
        ensures
            r == self@.stored_bytes,
    {
        self.stored_bytes
    }

    /// The image stored under `id`.
    pub fn image(&self, id: ImageId) -> (r: Option<&DecodedImage>)
        ensures
            match r {
                Some(image) => self@.images.contains_key(id.spec_value()) && *image == self@.images[id.spec_value()],
                None => !self@.images.contains_key(id.spec_value()),
            },
    {
        let key = id.value();
        self.images.get(&key)
    }

    /// The internal image a Kitty client's image id refers to.
    pub fn kitty_image(&self, client_id: u32) -> (r: Option<ImageId>)
        ensures
            match r {
                Some(id) => self@.kitty_images.contains_key(client_id) && id.spec_value() == self@.kitty_images[client_id],
                None => !self@.kitty_images.contains_key(client_id),
            },
    {
        match self.kitty_images.get(&client_id) {
            Some(id) => Some(ImageId::new(*id)),
            None => None,
        }
    }

    /// Hands out the next image id.
    pub fn allocate_image_id(&mut self) -> (id: ImageId)
        ensures
            id == ImageId::spec_new(old(self)@.next_image_id),
            final(self)@ == (StoreView { next_image_id: next_after(old(self)@.next_image_id), ..old(self)@ }),
    {
        let id = ImageId::new(self.next_image_id);
        self.next_image_id = next_id_after(self.next_image_id);
        id
    }

    /// Hands out the next placement id.
    pub fn allocate_placement_id(&mut self) -> (id: ImagePlacementId)
        ensures
            id == ImagePlacementId::spec_new(old(self)@.next_placement_id),
            final(self)@ == (StoreView { next_placement_id: next_after(old(self)@.next_placement_id), ..old(self)@ }),
    {
        let id = ImagePlacementId::new(self.next_placement_id);
        self.next_placement_id = next_id_after(self.next_placement_id);
        id
    }

    /// Drops every image and every Kitty id (graphics were switched off).
    pub fn clear(&mut self)
        ensures
            final(self)@ == (StoreView {
                images: Map::empty(),
                stored_bytes: 0,
                kitty_images: Map::empty(),
                kitty_placements: Map::empty(),
                ..old(self)@
            }),
    {
        self.images.clear();
        self.stored_bytes = 0;
        self.kitty_images.clear();
        self.kitty_placements.clear();
    }

    /// Forgets the Kitty client ids (the terminal was reset); the images
    /// stay until no placement shows them.
    pub fn forget_kitty_ids(&mut self)
        ensures
            final(self)@ == (StoreView { kitty_images: Map::empty(), kitty_placements: Map::empty(), ..old(self)@ }),
    {
        self.kitty_images.clear();
        self.kitty_placements.clear();
    }
}

/// How an iTerm2 image that decoded to `decoded` leaves the store `s` as
/// `t`, answering `r`: a byte total beyond `usize` or the GPU budget is
/// refused with nothing changed; otherwise the next image and placement
/// ids are taken, and the image is stored, growing the byte total by its
/// size, unless it cannot be placed.
pub open spec fn inline_add_outcome(
    s: StoreView,
    decoded: DecodedImageView,
    width: Option<ImageDimension>,
    height: Option<ImageDimension>,
    anchor: GridPoint,
    terminal_columns: usize,
    metrics: CellMetrics,
    limits: ImageLimits,
    r: Result<ImagePlacement, InlineImageRejection>,
    t: StoreView,
) -> bool {
    let total = s.stored_bytes + decoded.rgba.len();
    if total > usize::MAX {
        r == Err::<ImagePlacement, InlineImageRejection>(InlineImageRejection::ByteOverflow) && t == s
    } else if total > limits.max_gpu_bytes {
        r == Err::<ImagePlacement, InlineImageRejection>(InlineImageRejection::ByteLimit) && t == s
    } else {
        &&& t.next_image_id == next_after(s.next_image_id)
        &&& t.next_placement_id == next_after(s.next_placement_id)
        &&& t.kitty_images == s.kitty_images
        &&& t.kitty_placements == s.kitty_placements
        &&& match spec_placement_for_image(
            ImageId::spec_new(s.next_image_id),
            ImagePlacementId::spec_new(s.next_placement_id),
            decoded.width,
            decoded.height,
            width,
            height,
            anchor,
            terminal_columns,
            metrics,
        ) {
            Err(e) => r == Err::<ImagePlacement, InlineImageRejection>(InlineImageRejection::Placement(e))
                && t.images == s.images
                && t.stored_bytes == s.stored_bytes,
            Ok(p) => r == Ok::<ImagePlacement, InlineImageRejection>(p)
                && t.stored_bytes == total
                && exists|d: DecodedImage| d@ == decoded && t.images == s.images.insert(s.next_image_id, d),
        }
    }
}

/// How storing the iTerm2 image `sequence` at `anchor` leaves the store `s`
/// as `t`, answering `r`: refused at the image limit, or when the payload
/// does not decode, with nothing changed; else `inline_add_outcome` decides.
pub open spec fn inline_outcome(
    s: StoreView,
    sequence: InlineImageSequence,
    anchor: GridPoint,
    terminal_columns: usize,
    metrics: CellMetrics,
    limits: ImageLimits,
    r: Result<ImagePlacement, InlineImageRejection>,
    t: StoreView,
) -> bool {
    if s.images.len() >= limits.max_images {
        r == Err::<ImagePlacement, InlineImageRejection>(InlineImageRejection::CountLimit) && t == s
    } else {
        match spec_decode_png_payload(encode_utf8(sequence.payload@), limits) {
            Err(e) => r == Err::<ImagePlacement, InlineImageRejection>(InlineImageRejection::Decode(e)) && t == s,
            Ok(decoded) => inline_add_outcome(
                s,
                decoded,
                sequence.width,
                sequence.height,
                anchor,
                terminal_columns,
                metrics,
                limits,
                r,
                t,
            ),
        }
    }
}

/// What a Kitty delete command does to the store `s`, leaving `t` and
/// answering `r`: one named placement, or every placement of the image
/// (whose named placements are forgotten); an unknown image id or
/// placement deletes nothing.
pub open spec fn delete_outcome(s: StoreView, command: KittyCommand, r: KittyDeletion, t: StoreView) -> bool {
    let client = command.image_id->0.client_id;
    if !s.kitty_images.contains_key(client) {
        r == KittyDeletion::Nothing && t == s
    } else {
        match command.placement_id {
            Some(pid) => if s.kitty_placements.contains_key((client, pid)) {
                r == KittyDeletion::Placement(ImagePlacementId::spec_new(s.kitty_placements[(client, pid)]))
                    && t == (StoreView { kitty_placements: s.kitty_placements.remove((client, pid)), ..s })
            } else {
                r == KittyDeletion::Nothing && t == s
            },
            None => r == KittyDeletion::Image(ImageId::spec_new(s.kitty_images[client]))
                && t == (StoreView { kitty_placements: without_client(s.kitty_placements, client), ..s }),
        }
    }
}

impl ImageStore {
    /// Stores an iTerm2 image and places it at `anchor`.
    ///
    /// Refused, with nothing changed, when the image limit is reached, the
    /// payload does not decode, or the byte total would overflow or exceed
    /// the GPU budget. Otherwise an image id and a placement id are taken;
    /// when the image cannot be placed nothing else changes, else it is
    /// stored and the byte total grows by its size.
    pub fn add_inline_image(
        &mut self,
        sequence: &InlineImageSequence<'_>,
        anchor: GridPoint,
        terminal_columns: usize,
        metrics: CellMetrics,
        limits: ImageLimits,
    ) -> (r: Result<ImagePlacement, InlineImageRejection>)
        ensures
            inline_outcome(old(self)@, *sequence, anchor, terminal_columns, metrics, limits, r, final(self)@),
    {
        if self.images.len() >= limits.max_images {
            return Err(InlineImageRejection::CountLimit);
        }
        let image = match decode_png(sequence, limits) {
            Ok(image) => image,
            Err(e) => return Err(InlineImageRejection::Decode(e)),
        };
        let total = match self.stored_bytes.checked_add(image.rgba.len()) {
            Some(total) => total,
            None => return Err(InlineImageRejection::ByteOverflow),
        };
        if total > limits.max_gpu_bytes {
            return Err(InlineImageRejection::ByteLimit);
        }
        let id = self.allocate_image_id();
        let placement_id = self.allocate_placement_id();
        let placement = match placement_for_image(id, placement_id, &image, sequence, anchor, terminal_columns, metrics) {
            Ok(placement) => placement,
            Err(e) => return Err(InlineImageRejection::Placement(e)),
        };
        self.stored_bytes = total;
        let ghost stored = image;
        self.images.insert(id.value(), image);
        Ok(placement)
    }
}

impl ImageStore {
    /// Keys of the named Kitty placements, in order.
    fn placement_keys(&self) -> (keys: Vec<(u32, u32)>)
        ensures
            keys@.to_set() == self@.kitty_placements.dom(),
    {
        let mut keys: Vec<(u32, u32)> = Vec::new();
        for key in it: self.kitty_placements.keys()
            invariant
                keys.len() == it.index(),
                forall|i: int| 0 <= i < it.index() ==> keys@[i] == *it.seq()[i],
        {
            keys.push(*key);
        }
        proof {
            let listed = spec_keys_iter(&self.kitty_placements).remaining();
            assert(keys@ =~= listed.unref());
        }
        keys
    }

    /// Forgets the named placements of client image `client`.
    fn remove_client_placements(&mut self, client: u32)
        ensures
            final(self)@ == (StoreView { kitty_placements: without_client(old(self)@.kitty_placements, client), ..old(self)@ }),
    {
        let keys = self.placement_keys();
        let ghost before = self.kitty_placements@;
        let mut i: usize = 0;
        while i < keys.len()
            invariant
                0 <= i <= keys.len(),
                keys@.to_set() == before.dom(),
                before == old(self)@.kitty_placements,
                self@ == (StoreView { kitty_placements: self.kitty_placements@, ..old(self)@ }),
                forall|k: (u32, u32)| #[trigger] self.kitty_placements@.contains_key(k)
                    <==> before.contains_key(k) && !(k.0 == client && exists|j: int| 0 <= j < i && keys@[j] == k),
                forall|k: (u32, u32)| self.kitty_placements@.contains_key(k) ==> #[trigger] self.kitty_placements@[k] == before[k],
            decreases keys.len() - i,
        {
            let key = keys[i];
            if key.0 == client {
                self.kitty_placements.remove(&key);
            }
            i += 1;
        }
        proof {
            assert forall|k: (u32, u32)| before.contains_key(k) implies exists|j: int| 0 <= j < keys.len() && keys@[j] == k by {
                assert(keys@.to_set().contains(k));
            }
            assert(self.kitty_placements@ =~= without_client(before, client));
        }
    }
}

/// The internal image a client's image id refers to, if it names one that
/// is known.
pub open spec fn kitty_target(s: StoreView, key: Option<KittyImageKey>) -> Option<u64> {
    match key {
        Some(k) => if s.kitty_images.contains_key(k.client_id) {
            Some(s.kitty_images[k.client_id])
        } else {
            None
        },
        None => None,
    }
}

/// The RGBA size of the image stored under `id`, or zero.
pub open spec fn stored_size(s: StoreView, id: Option<u64>) -> nat {
    match id {
        Some(i) => if s.images.contains_key(i) { s.images[i].rgba@.len() } else { 0 },
        None => 0,
    }
}

/// `replaced` names the internal image `existing`.
pub open spec fn names_image(replaced: Option<ImageId>, existing: Option<u64>) -> bool {
    match replaced {
        Some(id) => existing == Some(id.spec_value()),
        None => existing is None,
    }
}

/// The store once a Kitty transmit has stored image `d` as `internal` with
/// byte total `total`: the image it replaces is gone, the client's id
/// refers to the new image and its old named placements are forgotten, and
/// a named placement that was shown refers to its placement id.
pub open spec fn committed_store(
    s: StoreView,
    metadata: KittyTransmitMetadata,
    internal: u64,
    d: DecodedImage,
    total: usize,
    placement: Option<ImagePlacement>,
) -> StoreView {
    let kept = match kitty_target(s, metadata.image_id) {
        Some(e) => s.images.remove(e),
        None => s.images,
    };
    let kitty_images = match metadata.image_id {
        Some(k) => s.kitty_images.insert(k.client_id, internal),
        None => s.kitty_images,
    };
    let unnamed = match metadata.image_id {
        Some(k) => without_client(s.kitty_placements, k.client_id),
        None => s.kitty_placements,
    };
    let kitty_placements = match (metadata.image_id, metadata.placement_id, placement) {
        (Some(k), Some(pid), Some(p)) => unnamed.insert((k.client_id, pid), p.placement_id.spec_value()),
        _ => unnamed,
    };
    StoreView {
        images: kept.insert(internal, d),
        stored_bytes: total as nat,
        kitty_images,
        kitty_placements,
        next_image_id: next_after(s.next_image_id),
        next_placement_id: if metadata.display { next_after(s.next_placement_id) } else { s.next_placement_id },
    }
}

/// The placement a transmit shows: none unless it asks to display.
pub open spec fn shown_placement(
    metadata: KittyTransmitMetadata,
    id: ImageId,
    pid: ImagePlacementId,
    decoded: DecodedImageView,
    anchor: GridPoint,
    metrics: CellMetrics,
) -> Result<Option<ImagePlacement>, InlineImageError> {
    if metadata.display {
        match spec_placement_for_kitty(id, pid, decoded.width, decoded.height, metadata.placement, anchor, metrics) {
            Ok(p) => Ok(Some(p)),
            Err(e) => Err(e),
        }
    } else {
        Ok(None)
    }
}

/// How a decoded Kitty transmit that is to be stored leaves the store `s`
/// as `t`, answering `r`: the store plan decides; a refused plan changes
/// nothing; an accepted one takes the next image id (and, to display, the
/// next placement id); a placement that cannot be sized is answered with
/// its error; else the image is committed.
pub open spec fn transmit_outcome(
    s: StoreView,
    metadata: KittyTransmitMetadata,
    decoded: DecodedImageView,
    anchor: GridPoint,
    metrics: CellMetrics,
    limits: ImageLimits,
    r: Result<KittyCommit, KittyProtocolError>,
    t: StoreView,
) -> bool {
    let existing = kitty_target(s, metadata.image_id);
    match spec_plan_kitty_store(
        s.images.len() as usize,
        s.stored_bytes as usize,
        existing is Some,
        stored_size(s, existing) as usize,
        decoded.rgba.len() as usize,
        limits,
    ) {
        Err(code) => r matches Err(err) && err.code == code && t == s,
        Ok(total) => {
            let id = ImageId::spec_new(s.next_image_id);
            let pid = ImagePlacementId::spec_new(s.next_placement_id);
            match shown_placement(metadata, id, pid, decoded, anchor, metrics) {
                Err(e) => r matches Err(err) && err.code == image_error_code(e)
                    && t == (StoreView {
                        next_image_id: next_after(s.next_image_id),
                        next_placement_id: next_after(s.next_placement_id),
                        ..s
                    }),
                Ok(placement) => r matches Ok(commit) && commit.placement == placement
                    && names_image(commit.replaced, existing)
                    && exists|d: DecodedImage| d@ == decoded
                        && t == committed_store(s, metadata, id.spec_value(), d, total, placement),
            }
        },
    }
}

/// How placing client image `command.image_id` leaves the store `s` as `t`,
/// answering `r`.
pub open spec fn place_outcome(
    s: StoreView,
    command: KittyCommand,
    anchor: GridPoint,
    metrics: CellMetrics,
    r: Result<ImagePlacement, KittyProtocolError>,
    t: StoreView,
) -> bool {
    let client = command.image_id->0.client_id;
    if !s.kitty_images.contains_key(client) || !s.images.contains_key(s.kitty_images[client]) {
        r matches Err(err) && err.code == KittyErrorCode::NoEntry && t == s
    } else {
        let internal = s.kitty_images[client];
        let named = command.placement_id matches Some(pid) && s.kitty_placements.contains_key((client, pid));
        let pid = if named {
            ImagePlacementId::spec_new(s.kitty_placements[(client, command.placement_id->0)])
        } else {
            ImagePlacementId::spec_new(s.next_placement_id)
        };
        let next = if named { s.next_placement_id } else { next_after(s.next_placement_id) };
        match spec_placement_for_kitty(
            ImageId::spec_new(internal),
            pid,
            s.images[internal].width,
            s.images[internal].height,
            spec_placement_options(command),
            anchor,
            metrics,
        ) {
            Err(e) => r matches Err(err) && err.code == image_error_code(e)
                && t == (StoreView { next_placement_id: next, ..s }),
            Ok(p) => r == Ok::<ImagePlacement, KittyProtocolError>(p) && t == (StoreView {
                next_placement_id: next,
                kitty_placements: match command.placement_id {
                    Some(id) => s.kitty_placements.insert((client, id), pid.spec_value()),
                    None => s.kitty_placements,
                },
                ..s
            }),
        }
    }
}

/// How a Kitty transmit whose whole payload has arrived leaves the store
/// `s` as `t`, answering `r`: the payload is a base64 PNG whatever format
/// the command names; one that does not decode is answered with its error
/// and changes nothing; an image with neither an id nor a display request
/// is dropped; otherwise `transmit_outcome` decides.
pub open spec fn commit_outcome(
    s: StoreView,
    metadata: KittyTransmitMetadata,
    payload: Seq<u8>,
    anchor: GridPoint,
    metrics: CellMetrics,
    limits: ImageLimits,
    r: Result<KittyCommit, KittyProtocolError>,
    t: StoreView,
) -> bool {
    match spec_decode_png_payload(payload, limits) {
        Err(e) => r matches Err(err) && err.code == image_error_code(e) && t == s,
        Ok(decoded) => if !(metadata.image_id is Some || metadata.display) {
            r == Ok::<KittyCommit, KittyProtocolError>(KittyCommit { replaced: None, placement: None }) && t == s
        } else {
            transmit_outcome(s, metadata, decoded, anchor, metrics, limits, r, t)
        },
    }
}

impl ImageStore {
    /// Stores a Kitty transmit whose whole payload has arrived. The payload
    /// is decoded as a base64 PNG, whatever format the command names.
    ///
    /// A payload that does not decode is answered with its error and changes
    /// nothing. An image with neither an id nor a display request is
    /// dropped. Otherwise the store plan decides: a refused plan changes
    /// nothing; an accepted one takes an image id (and, to display, a
    /// placement id); a placement that cannot be sized is answered with its
    /// error after that; else the image replaces the one the client's id
    /// named, and the byte total becomes the planned one.
    #[verifier::spinoff_prover]
    pub fn commit_kitty_transmit(
        &mut self,
        metadata: KittyTransmitMetadata,
        payload: &[u8],
        anchor: GridPoint,
        metrics: CellMetrics,
        limits: ImageLimits,
    ) -> (r: Result<KittyCommit, KittyProtocolError>)
        ensures
            commit_outcome(old(self)@, metadata, payload@, anchor, metrics, limits, r, final(self)@),
    {
        let image = match decode_png_payload(payload, limits) {
            Ok(image) => image,
            Err(e) => return Err(kitty_image_error(e)),
        };
        let ghost decoded = image@;
        assert(spec_decode_png_payload(payload@, limits) == Ok::<DecodedImageView, InlineImageError>(decoded));
        let existing: Option<u64> = match metadata.image_id {
            Some(key) => match self.kitty_images.get(&key.client_id) {
                Some(id) => Some(*id),
                None => None,
            },
            None => None,
        };
        if !metadata.should_store() {
            return Ok(KittyCommit { replaced: None, placement: None });
        }
        let previous_bytes: usize = match existing {
            Some(id) => match self.images.get(&id) {
                Some(stored) => stored.rgba.len(),
                None => 0,
            },
            None => 0,
        };
        let total = match plan_kitty_store(
            self.images.len(),
            self.stored_bytes,
            existing.is_some(),
            previous_bytes,
            image.rgba.len(),
            limits,
        ) {
            Ok(total) => total,
            Err(e) => return Err(e),
        };
        assert(existing == kitty_target(old(self)@, metadata.image_id));
        assert(previous_bytes == stored_size(old(self)@, existing));
        assert(spec_plan_kitty_store(
            old(self)@.images.len() as usize,
            old(self)@.stored_bytes as usize,
            existing is Some,
            stored_size(old(self)@, existing) as usize,
            decoded.rgba.len() as usize,
            limits,
        ) == Ok::<usize, KittyErrorCode>(total));
        let internal_id = self.allocate_image_id();
        let placement = if metadata.display {
            let placement_id = self.allocate_placement_id();
            match placement_for_kitty(internal_id, placement_id, &image, metadata.placement, anchor, metrics) {
                Ok(p) => Some(p),
                Err(e) => return Err(kitty_image_error(e)),
            }
        } else {
            None
        };
        if let Some(existing_id) = existing {
            self.images.remove(&existing_id);
        }
        if let Some(key) = metadata.image_id {
            self.remove_client_placements(key.client_id);
            self.kitty_images.insert(key.client_id, internal_id.value());
        }
        let ghost stored = image;
        self.images.insert(internal_id.value(), image);
        self.stored_bytes = total;
        if let Some(p) = placement {
            if let (Some(key), Some(pid)) = (metadata.image_id, metadata.placement_id) {
                self.kitty_placements.insert((key.client_id, pid), p.placement_id.value());
            }
        }
        let replaced = match existing {
            Some(id) => Some(ImageId::new(id)),
            None => None,
        };
        proof {
            assert(shown_placement(
                metadata,
                ImageId::spec_new(old(self)@.next_image_id),
                ImagePlacementId::spec_new(old(self)@.next_placement_id),
                decoded,
                anchor,
                metrics,
            ) == Ok::<Option<ImagePlacement>, InlineImageError>(placement));
            assert(stored@ == decoded);
            assert(self@ =~= committed_store(old(self)@, metadata, internal_id.spec_value(), stored, total, placement));
        }
        Ok(KittyCommit { replaced, placement })
    }
}

/// Whether `live` lists an image id wrapping `id`.
fn lists_image(live: &[ImageId], id: u64) -> (r: bool)
    ensures
        r == exists|i: int| 0 <= i < live@.len() && live@[i].spec_value() == id,
{
    let mut i: usize = 0;
    while i < live.len()
        invariant
            0 <= i <= live@.len(),
            forall|j: int| 0 <= j < i ==> live@[j].spec_value() != id,
        decreases live@.len() - i,
    {
        if live[i].value() == id {
            return true;
        }
        i += 1;
    }
    false
}

/// Whether `live` lists a placement id wrapping `id`.
fn lists_placement(live: &[ImagePlacementId], id: u64) -> (r: bool)
    ensures
        r == exists|i: int| 0 <= i < live@.len() && live@[i].spec_value() == id,
{
    let mut i: usize = 0;
    while i < live.len()
        invariant
            0 <= i <= live@.len(),
            forall|j: int| 0 <= j < i ==> live@[j].spec_value() != id,
        decreases live@.len() - i,
    {
        if live[i].value() == id {
            return true;
        }
        i += 1;
    }
    false
}

impl ImageStore {
    /// Ids of the stored images, each once.
    fn image_keys(&self) -> (keys: Vec<u64>)
        ensures
            keys@.to_set() == self@.images.dom(),
            keys@.no_duplicates(),
    {
        let mut keys: Vec<u64> = Vec::new();
        for key in it: self.images.keys()
            invariant
                keys.len() == it.index(),
                forall|i: int| 0 <= i < it.index() ==> keys@[i] == *it.seq()[i],
        {
            keys.push(*key);
        }
        proof {
            let listed = spec_keys_iter(&self.images).remaining();
            assert(keys@ =~= listed.unref());
            assert forall|i: int, j: int| 0 <= i < keys@.len() && 0 <= j < keys@.len() && i != j implies keys@[i] != keys@[j] by {
                assert(listed[i] != listed[j]);
            }
        }
        keys
    }

    /// Whether a Kitty client's image id refers to internal image `id`.
    fn kitty_refers_to(&self, id: u64) -> (r: bool)
        ensures
            r == self@.kitty_images.values().contains(id),
    {
        let mut found = false;
        for value in it: self.kitty_images.values()
            invariant
                found == exists|j: int| 0 <= j < it.index() && *it.seq()[j] == id,
        {
            if *value == id {
                found = true;
            }
        }
        proof {
            let listed = spec_values_iter(&self.kitty_images).remaining();
            assert(listed.unref().to_set() == self.kitty_images@.values());
            if found {
                let j = choose|j: int| 0 <= j < listed.len() && *listed[j] == id;
                assert(listed.unref()[j] == id);
            } else if self.kitty_images@.values().contains(id) {
                assert(listed.unref().to_set().contains(id));
                let j = choose|j: int| 0 <= j < listed.unref().len() && listed.unref()[j] == id;
                assert(*listed[j] == id);
            }
        }
        found
    }

    /// Drops the images that neither the terminal (`live_images`) nor a
    /// Kitty client refers to, forgets the named placements the terminal no
    /// longer shows (`live_placements`), and recounts the byte total.
    pub fn evict_unreferenced(&mut self, live_images: &[ImageId], live_placements: &[ImagePlacementId])
        ensures
            final(self)@.images == old(self)@.images.filter_keys(
                |id: u64| image_is_live(id, live_images@, old(self)@.kitty_images),
            ),
            final(self)@.kitty_placements == with_live_placements(old(self)@.kitty_placements, live_placements@),
            final(self)@.stored_bytes == if image_bytes(final(self)@.images) <= usize::MAX {
                image_bytes(final(self)@.images)
            } else {
                usize::MAX as nat
            },
            final(self)@.kitty_images == old(self)@.kitty_images,
            final(self)@.next_image_id == old(self)@.next_image_id,
            final(self)@.next_placement_id == old(self)@.next_placement_id,
    {
        let keys = self.image_keys();
        let ghost before = self.images@;
        let mut i: usize = 0;
        while i < keys.len()
            invariant
                0 <= i <= keys.len(),
                keys@.to_set() == before.dom(),
                before == old(self)@.images,
                self@ == (StoreView { images: self.images@, ..old(self)@ }),
                forall|k: u64| #[trigger] self.images@.contains_key(k) <==> before.contains_key(k)
                    && !(!image_is_live(k, live_images@, old(self)@.kitty_images)
                        && exists|j: int| 0 <= j < i && keys@[j] == k),
                forall|k: u64| self.images@.contains_key(k) ==> #[trigger] self.images@[k] == before[k],
            decreases keys.len() - i,
        {
            let key = keys[i];
            let live = lists_image(live_images, key) || self.kitty_refers_to(key);
            if !live {
                self.images.remove(&key);
            }
            i += 1;
        }
        proof {
            assert forall|k: u64| before.contains_key(k) implies exists|j: int| 0 <= j < keys.len() && keys@[j] == k by {
                assert(keys@.to_set().contains(k));
            }
            assert(self.images@ =~= before.filter_keys(|id: u64| image_is_live(id, live_images@, old(self)@.kitty_images)));
        }
        let names = self.placement_keys();
        let ghost named = self.kitty_placements@;
        let mut n: usize = 0;
        while n < names.len()
            invariant
                0 <= n <= names.len(),
                names@.to_set() == named.dom(),
                named == old(self)@.kitty_placements,
                self@ == (StoreView { images: self@.images, kitty_placements: self.kitty_placements@, ..old(self)@ }),
                self@.images == before.filter_keys(|id: u64| image_is_live(id, live_images@, old(self)@.kitty_images)),
                forall|k: (u32, u32)| #[trigger] self.kitty_placements@.contains_key(k) <==> named.contains_key(k)
                    && !(!(exists|j: int| 0 <= j < live_placements@.len() && live_placements@[j].spec_value() == named[k])
                        && exists|j: int| 0 <= j < n && names@[j] == k),
                forall|k: (u32, u32)| self.kitty_placements@.contains_key(k) ==> #[trigger] self.kitty_placements@[k] == named[k],
            decreases names.len() - n,
        {
            let key = names[n];
            let shown = match self.kitty_placements.get(&key) {
                Some(placement) => lists_placement(live_placements, *placement),
                None => true,
            };
            if !shown {
                self.kitty_placements.remove(&key);
            }
            n += 1;
        }
        proof {
            assert forall|k: (u32, u32)| named.contains_key(k) implies exists|j: int| 0 <= j < names.len() && names@[j] == k by {
                assert(names@.to_set().contains(k));
            }
            assert(self.kitty_placements@ =~= with_live_placements(named, live_placements@));
        }
        let kept = self.image_keys();
        let mut total: usize = 0;
        let mut c: usize = 0;
        while c < kept.len()
            invariant
                0 <= c <= kept.len(),
                total == if listed_bytes(self.images@, kept@.take(c as int)) <= usize::MAX {
                    listed_bytes(self.images@, kept@.take(c as int))
                } else {
                    usize::MAX as nat
                },
                kept@.to_set() == self.images@.dom(),
            decreases kept.len() - c,
        {
            let key = kept[c];
            assert(kept@.take(c + 1).drop_last() =~= kept@.take(c as int));
            assert(self.images@.contains_key(key)) by {
                assert(kept@.to_set().contains(key));
            }
            match self.images.get(&key) {
                Some(image) => {
                    total = total.saturating_add(image.rgba.len());
                },
                None => {},
            }
            c += 1;
        }
        proof {
            assert(kept@.take(kept.len() as int) =~= kept@);
            lemma_listed_bytes_total(self.images@, kept@);
        }
        self.stored_bytes = total;
    }

    /// Places an image a Kitty client transmitted earlier.
    ///
    /// An unknown client image id, or one whose image is gone, is answered
    /// with `NoEntry`. A named placement the client made before keeps its
    /// placement id; any other takes the next one, also when the placement
    /// cannot be sized (answered with its error).
    pub fn place_kitty_image(
        &mut self,
        command: &KittyCommand<'_>,
        anchor: GridPoint,
        metrics: CellMetrics,
    ) -> (r: Result<ImagePlacement, KittyProtocolError>)
        requires
            command.image_id is Some,
        ensures
            place_outcome(old(self)@, *command, anchor, metrics, r, final(self)@),
    {
        let client = match command.image_id {
            Some(key) => key.client_id,
            None => 0,
        };
        let internal: u64 = match self.kitty_images.get(&client) {
            Some(id) => *id,
            None => return Err(kitty_image_not_found()),
        };
        let named: Option<u64> = match command.placement_id {
            Some(pid) => match self.kitty_placements.get(&(client, pid)) {
                Some(id) => Some(*id),
                None => None,
            },
            None => None,
        };
        let placement_id = match named {
            Some(id) => ImagePlacementId::new(id),
            None => ImagePlacementId::new(self.next_placement_id),
        };
        let placement = match self.images.get(&internal) {
            Some(image) => placement_for_kitty(
                ImageId::new(internal),
                placement_id,
                image,
                placement_options(command),
                anchor,
                metrics,
            ),
            None => return Err(kitty_image_not_found()),
        };
        if named.is_none() {
            self.allocate_placement_id();
        }
        let placement = match placement {
            Ok(placement) => placement,
            Err(e) => return Err(kitty_image_error(e)),
        };
        if let Some(pid) = command.placement_id {
            self.kitty_placements.insert((client, pid), placement_id.value());
        }
        Ok(placement)
    }

    /// Deletes what a Kitty delete command names: one named placement, or
    /// every placement of the image (whose named placements are forgotten).
    /// An unknown image id or placement deletes nothing.
    pub fn delete_kitty_placements(&mut self, command: &KittyCommand<'_>) -> (r: KittyDeletion)
        requires
            command.image_id is Some,
        ensures
            delete_outcome(old(self)@, *command, r, final(self)@),
    {
        let client = match command.image_id {
            Some(key) => key.client_id,
            None => 0,
        };
        let internal: u64 = match self.kitty_images.get(&client) {
            Some(id) => *id,
            None => return KittyDeletion::Nothing,
        };
        match command.placement_id {
            Some(pid) => match self.kitty_placements.remove(&(client, pid)) {
                Some(placement) => KittyDeletion::Placement(ImagePlacementId::new(placement)),
                None => {
                    assert(self.kitty_placements@ =~= old(self)@.kitty_placements);
                    KittyDeletion::Nothing
                },
            },
            None => {
                self.remove_client_placements(client);
                KittyDeletion::Image(ImageId::new(internal))
            },
        }
    }
}

/// The stored images the placements show, each once, in the order of
/// their first placement.
pub open spec fn spec_shown_images(images: Map<u64, DecodedImage>, placements: Seq<ImagePlacement>) -> Seq<u64>
    decreases placements.len(),
{
    if placements.len() == 0 {
        Seq::empty()
    } else {
        let rest = spec_shown_images(images, placements.drop_last());
        let id = placements.last().image_id.spec_value();
        if rest.contains(id) || !images.contains_key(id) { rest } else { rest.push(id) }
    }
}

impl ImageStore {
    /// The images to hand the renderer for `placements`: each stored image
    /// a placement shows, once, in the order of its first placement.
    pub fn shown_images(&self, placements: &[ImagePlacement]) -> (r: Vec<ImageId>)
        ensures
            r@.map_values(|id: ImageId| id.spec_value()) == spec_shown_images(self@.images, placements@),
    {
        let mut out: Vec<ImageId> = Vec::new();
        let mut i: usize = 0;
        while i < placements.len()
            invariant
                i <= placements@.len(),
                out@.map_values(|id: ImageId| id.spec_value()) == spec_shown_images(self@.images, placements@.take(i as int)),
            decreases placements@.len() - i,
        {
            let id = placements[i].image_id;
            assert(placements@.take(i + 1).drop_last() =~= placements@.take(i as int));
            let ghost shown = out@.map_values(|x: ImageId| x.spec_value());
            let mut seen = false;
            let mut k: usize = 0;
            while k < out.len()
                invariant
                    k <= out@.len(),
                    shown == out@.map_values(|x: ImageId| x.spec_value()),
                    seen == exists|j: int| 0 <= j < k && shown[j] == id.spec_value(),
                decreases out@.len() - k,
            {
                assert(shown[k as int] == out@[k as int].spec_value());
                if out[k].value() == id.value() {
                    seen = true;
                }
                k += 1;
            }
            assert(seen == shown.contains(id.spec_value()));
            if !seen && self.images.contains_key(&id.value()) {
                out.push(id);
                assert(out@.map_values(|x: ImageId| x.spec_value()) =~= shown.push(id.spec_value()));
            }
            i += 1;
        }
        assert(placements@.take(placements@.len() as int) =~= placements@);
        out
    }
}

// ---------------------------------------------------------------------
// Laws.
// ---------------------------------------------------------------------

/// A Kitty transmit the store accepted keeps the byte total within the GPU
/// budget; the new image is stored, as decoded, under the next image id,
/// and the client's image id, when it gave one, refers to it.
pub proof fn lemma_accepted_transmit_is_stored(
    s: StoreView,
    metadata: KittyTransmitMetadata,
    decoded: DecodedImageView,
    anchor: GridPoint,
    metrics: CellMetrics,
    limits: ImageLimits,
    r: Result<KittyCommit, KittyProtocolError>,
    t: StoreView,
)
    requires
        transmit_outcome(s, metadata, decoded, anchor, metrics, limits, r, t),
        r is Ok,
    ensures
        t.stored_bytes <= limits.max_gpu_bytes,
        t.images.contains_key(s.next_image_id),
        t.images[s.next_image_id]@ == decoded,
        metadata.image_id matches Some(k) ==> t.kitty_images.contains_key(k.client_id)
            && t.kitty_images[k.client_id] == s.next_image_id,
{
}

/// Once unreferenced images are evicted, every image left is one the
/// terminal shows or a Kitty client refers to.
pub proof fn lemma_evicted_store_keeps_only_live_images(
    s: StoreView,
    live_images: Seq<ImageId>,
    id: u64,
)
    requires
        s.images.filter_keys(|k: u64| image_is_live(k, live_images, s.kitty_images)).contains_key(id),
    ensures
        s.images.contains_key(id),
        image_is_live(id, live_images, s.kitty_images),
{
}

/// Storing an iTerm2 image keeps the byte total equal to the RGBA bytes of
/// the stored images, as long as the image id handed out is not in use.
pub proof fn lemma_inline_image_keeps_byte_accounting(
    s: StoreView,
    decoded: DecodedImageView,
    width: Option<ImageDimension>,
    height: Option<ImageDimension>,
    anchor: GridPoint,
    terminal_columns: usize,
    metrics: CellMetrics,
    limits: ImageLimits,
    r: Result<ImagePlacement, InlineImageRejection>,
    t: StoreView,
)
    requires
        s.images.dom().finite(),
        s.stored_bytes == image_bytes(s.images),
        !s.images.contains_key(s.next_image_id),
        inline_add_outcome(s, decoded, width, height, anchor, terminal_columns, metrics, limits, r, t),
    ensures
        t.stored_bytes == image_bytes(t.images),
{
    let total = s.stored_bytes + decoded.rgba.len();
    if total <= usize::MAX && total <= limits.max_gpu_bytes && r is Ok {
        let d = choose|d: DecodedImage| d@ == decoded && t.images == s.images.insert(s.next_image_id, d);
        lemma_image_bytes_insert(s.images, s.next_image_id, d);
        assert(s.images.remove(s.next_image_id) =~= s.images);
    }
}

/// Committing a Kitty transmit keeps the byte total equal to the RGBA bytes
/// of the stored images, as long as the image id handed out is not in use:
/// the replaced image's bytes leave the total and the new image's enter it.
pub proof fn lemma_transmit_keeps_byte_accounting(
    s: StoreView,
    metadata: KittyTransmitMetadata,
    decoded: DecodedImageView,
    anchor: GridPoint,
    metrics: CellMetrics,
    limits: ImageLimits,
    r: Result<KittyCommit, KittyProtocolError>,
    t: StoreView,
)
    requires
        s.images.dom().finite(),
        s.stored_bytes <= usize::MAX,
        s.stored_bytes == image_bytes(s.images),
        !s.images.contains_key(s.next_image_id),
        transmit_outcome(s, metadata, decoded, anchor, metrics, limits, r, t),
    ensures
        t.stored_bytes == image_bytes(t.images),
{
    let existing = kitty_target(s, metadata.image_id);
    let previous = stored_size(s, existing);
    let kept = match existing {
        Some(e) => s.images.remove(e),
        None => s.images,
    };
    assert(image_bytes(kept) + previous == image_bytes(s.images)) by {
        match existing {
            Some(e) => if s.images.contains_key(e) {
                lemma_image_bytes_remove(s.images, e);
            } else {
                assert(s.images.remove(e) =~= s.images);
            },
            None => {},
        }
    }
    if r is Ok {
        match spec_plan_kitty_store(
            s.images.len() as usize,
            s.stored_bytes as usize,
            existing is Some,
            previous as usize,
            decoded.rgba.len() as usize,
            limits,
        ) {
            Ok(total) => {
                let id = ImageId::spec_new(s.next_image_id);
                let pid = ImagePlacementId::spec_new(s.next_placement_id);
                match shown_placement(metadata, id, pid, decoded, anchor, metrics) {
                    Ok(placement) => {
                        let d = choose|d: DecodedImage| d@ == decoded
                            && t == committed_store(s, metadata, id.spec_value(), d, total, placement);
                        assert(d.rgba.len() == d.rgba@.len());
                        assert(kept.dom().finite());
                        lemma_image_bytes_insert(kept, s.next_image_id, d);
                        assert(!kept.contains_key(s.next_image_id));
                        assert(kept.remove(s.next_image_id) =~= kept);
                        assert(decoded.rgba.len() == d.rgba@.len());
                    },
                    Err(_) => {},
                }
            },
            Err(_) => {},
        }
    }
}

} // verus!
