//! The layers of graphics that programs draw over panes.

use vstd::prelude::*;
use vstd::string::*;
use crate::search::{
    first_where, lemma_filter_none, lemma_filter_step, lemma_first_where, lemma_is_first,
    lemma_sum_le, lemma_sum_push, lemma_sum_remove, lemma_sum_take, lemma_sum_update, sum_of,
};
use crate::session::{next_revision, revision_after, workspace_of_pane, Session};
use crate::text::{opt_view, same_text};

verus! {

pub const MAX_LAYERS_PER_PANE: usize = 16;

#[derive(Clone, Copy, Debug, PartialEq, Eq, Structural)]
pub enum Format {
    Png,
    Rgb,
    Rgba,
    Bgra,
}

/// Where in the pane a layer is drawn.
#[derive(Clone, Copy, Debug, PartialEq, Eq, Structural)]
pub struct Placement {
    pub viewport_col: i32,
    pub viewport_row: i32,
    pub grid_cols: u32,
    pub grid_rows: u32,
}

/// A client's stream: the number it goes by, and whether the client still holds it open.
#[derive(Clone, Copy, Debug, PartialEq, Eq, Structural)]
pub struct StreamToken {
    pub id: u64,
    pub live: bool,
}

/// Where the pixels of a layer are: held here, or in a file leased from the client.
#[derive(Debug)]
pub enum LayerData {
    Inline(Vec<u8>),
    Direct(u64),
}

#[derive(Debug)]
pub struct Layer {
    pub format: Format,
    pub image_width: u32,
    pub image_height: u32,
    pub data: LayerData,
    pub placement: Placement,
    pub z_index: i32,
}

#[derive(Debug)]
pub struct Slot {
    pub pane: u64,
    pub layer_id: String,
    pub host_image_id: u32,
    pub layer: Option<Layer>,
    pub stream_owner: Option<String>,
    pub stream: Option<StreamToken>,
    /// The frame in a file that is being drawn, by the number its drawing goes by.
    pub direct_gate: Option<u64>,
}

/// How much the store may hold.
#[derive(Clone, Copy, Debug, PartialEq, Eq, Structural)]
pub struct Limits {
    pub max_slots: usize,
    pub max_inline_bytes: usize,
}

#[derive(Debug)]
pub struct PaneGraphics {
    pub slots: Vec<Slot>,
    /// Counts changes, wrapping round.
    pub revision: u64,
    pub next_image_id: u32,
    pub limits: Limits,
    /// The streams whose slots are gone, which their clients have still to be told.
    pub retired: Vec<u64>,
}

/// A pane and the name of a layer over it.
pub type Key = (u64, Seq<char>);

pub ghost enum DataView {
    Inline(Seq<u8>),
    Direct(u64),
}

pub ghost struct LayerView {
    pub format: Format,
    pub image_width: u32,
    pub image_height: u32,
    pub data: DataView,
    pub placement: Placement,
    pub z_index: i32,
}

pub ghost struct SlotView {
    pub key: Key,
    pub image_id: u32,
    pub layer: Option<LayerView>,
    pub owner: Option<Seq<char>>,
    pub stream: Option<StreamToken>,
    pub direct_gate: Option<u64>,
}

impl View for LayerData {
    type V = DataView;

    open spec fn view(&self) -> DataView {
        match self {
            LayerData::Inline(bytes) => DataView::Inline(bytes@),
            LayerData::Direct(lease) => DataView::Direct(*lease),
        }
    }
}

impl View for Layer {
    type V = LayerView;

    open spec fn view(&self) -> LayerView {
        LayerView {
            format: self.format,
            image_width: self.image_width,
            image_height: self.image_height,
            data: self.data@,
            placement: self.placement,
            z_index: self.z_index,
        }
    }
}

impl View for Slot {
    type V = SlotView;

    open spec fn view(&self) -> SlotView {
        SlotView {
            key: self.key(),
            image_id: self.host_image_id,
            layer: match self.layer {
                Some(l) => Some(l@),
                None => None,
            },
            owner: opt_view(self.stream_owner),
            stream: self.stream,
            direct_gate: self.direct_gate,
        }
    }
}

impl Slot {
    pub open spec fn key(&self) -> Key {
        (self.pane, self.layer_id@)
    }

    /// The bytes of pixels held here.
    pub open spec fn inline_len(&self) -> nat {
        match self.layer {
            Some(l) => match l.data {
                LayerData::Inline(bytes) => bytes@.len(),
                LayerData::Direct(_) => 0,
            },
            None => 0,
        }
    }

    pub open spec fn spec_stream_is_active(&self) -> bool {
        self.stream matches Some(t) && t.live
    }

    /// A stream claimed the slot and its client has let go of it.
    pub open spec fn is_stale(&self) -> bool {
        self.stream_owner is Some && !self.spec_stream_is_active()
    }

    pub fn stream_is_active(&self) -> (r: bool)
        ensures
            r == self.spec_stream_is_active(),
    {
        match self.stream {
            Some(t) => t.live,
            None => false,
        }
    }
}

/// The position of the slot of a key.
pub open spec fn slot_at(slots: Seq<Slot>, key: Key) -> Option<int> {
    first_where(slots, |s: Slot| s.key() == key)
}

pub open spec fn distinct_keys(slots: Seq<Slot>) -> bool {
    forall|i: int, j: int|
        0 <= i < j < slots.len() ==> (#[trigger] slots[i]).key() != (#[trigger] slots[j]).key()
}

pub open spec fn distinct_images(slots: Seq<Slot>) -> bool {
    forall|i: int, j: int|
        0 <= i < j < slots.len() ==> (#[trigger] slots[i]).host_image_id
            != (#[trigger] slots[j]).host_image_id
}

/// The number of layers over a pane.
pub open spec fn layer_count(slots: Seq<Slot>, pane: u64) -> nat {
    sum_of(
        slots,
        |s: Slot|
            if s.pane == pane {
                1nat
            } else {
                0
            },
    )
}

/// The bytes of pixels held for all slots.
pub open spec fn inline_total(slots: Seq<Slot>) -> nat {
    sum_of(slots, |s: Slot| s.inline_len())
}

/// The bytes of pixels held for all slots but the one of `key`.
pub open spec fn inline_without(slots: Seq<Slot>, key: Key) -> nat {
    sum_of(
        slots,
        |s: Slot|
            if s.key() == key {
                0nat
            } else {
                s.inline_len()
            },
    )
}

/// The streams of these slots.
pub open spec fn streams_of(slots: Seq<Slot>) -> Seq<u64>
    decreases slots.len(),
{
    if slots.len() == 0 {
        Seq::empty()
    } else {
        match slots.last().stream {
            Some(t) => streams_of(slots.drop_last()).push(t.id),
            None => streams_of(slots.drop_last()),
        }
    }
}

impl PaneGraphics {
    /// Keys and image ids are not shared, a stream has an owner, and the limits hold.
    pub open spec fn wf(&self) -> bool {
        &&& distinct_keys(self.slots@)
        &&& distinct_images(self.slots@)
        &&& forall|i: int|
            0 <= i < self.slots@.len() ==> (#[trigger] self.slots@[i]).host_image_id
                < self.next_image_id
        &&& forall|i: int|
            0 <= i < self.slots@.len() ==> ((#[trigger] self.slots@[i]).stream is Some
                ==> self.slots@[i].stream_owner is Some)
        &&& forall|pane: u64| #[trigger] layer_count(self.slots@, pane) <= MAX_LAYERS_PER_PANE
        &&& inline_total(self.slots@) <= self.limits.max_inline_bytes
        &&& self.slots@.len() <= self.limits.max_slots
    }

    /// What the store holds for a key.
    pub open spec fn at(&self, key: Key) -> Option<SlotView> {
        match slot_at(self.slots@, key) {
            Some(i) => Some(self.slots@[i]@),
            None => None,
        }
    }

    pub open spec fn holds(&self, key: Key) -> bool {
        slot_at(self.slots@, key) is Some
    }

    /// Room for the slot of `key`, counting those of the pane and those of all panes.
    pub open spec fn has_room(&self, key: Key) -> bool {
        self.holds(key) || (self.slots@.len() < self.limits.max_slots && layer_count(
            self.slots@,
            key.0,
        ) < MAX_LAYERS_PER_PANE)
    }

    pub open spec fn spec_can_store_inline(&self, key: Key, len: nat) -> bool {
        inline_without(self.slots@, key) + len <= self.limits.max_inline_bytes
    }

    /// The image id a slot for `key` gets: its own, or the next that is free.
    pub open spec fn image_id_for(&self, key: Key) -> Option<u32> {
        match slot_at(self.slots@, key) {
            Some(i) => Some(self.slots@[i].host_image_id),
            None => if self.next_image_id < u32::MAX {
                Some(self.next_image_id)
            } else {
                None
            },
        }
    }

    /// `new` is `self` without the slot of `key`, which it had; the change is counted and the
    /// slot's stream retired.
    pub open spec fn removed(&self, new: PaneGraphics, key: Key) -> bool {
        let i = slot_at(self.slots@, key)->Some_0;
        &&& self.holds(key)
        &&& new.slots@ == self.slots@.remove(i)
        &&& new.revision == next_revision(self.revision)
        &&& new.next_image_id == self.next_image_id
        &&& new.limits == self.limits
        &&& new.retired@ == match self.slots@[i].stream {
            Some(t) => self.retired@.push(t.id),
            None => self.retired@,
        }
    }

    /// `new` is `self` after a slot that its client let go of is reclaimed, where `key` has one.
    pub open spec fn reclaimed(&self, new: PaneGraphics, key: Key) -> bool {
        match slot_at(self.slots@, key) {
            Some(i) if self.slots@[i].is_stale() => self.removed(new, key),
            _ => new == *self,
        }
    }

    /// `new` is `self` with `slot` for its key, whether or not the key had one; the change is
    /// counted.
    pub open spec fn put(&self, new: PaneGraphics, slot: SlotView) -> bool {
        &&& match slot_at(self.slots@, slot.key) {
            Some(i) => {
                &&& new.slots@.len() == self.slots@.len()
                &&& new.slots@ == self.slots@.update(i, new.slots@[i])
                &&& new.slots@[i]@ == slot
                &&& new.next_image_id == self.next_image_id
            },
            None => {
                &&& new.slots@.len() == self.slots@.len() + 1
                &&& new.slots@ == self.slots@.push(new.slots@.last())
                &&& new.slots@.last()@ == slot
                &&& new.next_image_id == self.next_image_id + 1
            },
        }
        &&& new.revision == next_revision(self.revision)
        &&& new.limits == self.limits
        &&& new.retired@ == self.retired@
    }
}

proof fn lemma_at(slots: Seq<Slot>, i: int)
    requires
        distinct_keys(slots),
        0 <= i < slots.len(),
    ensures
        slot_at(slots, slots[i].key()) == Some(i),
{
    let key = slots[i].key();
    lemma_is_first(slots, |s: Slot| s.key() == key, i);
}

/// Removing a slot keeps the store well formed.
proof fn lemma_removed_wf(old: PaneGraphics, new: PaneGraphics, i: int)
    requires
        old.wf(),
        0 <= i < old.slots@.len(),
        new.slots@ == old.slots@.remove(i),
        new.limits == old.limits,
        new.next_image_id == old.next_image_id,
    ensures
        new.wf(),
{
    let a = old.slots@;
    let b = new.slots@;
    assert forall|x: int, y: int| 0 <= x < y < b.len() implies (#[trigger] b[x]).key() != (
    #[trigger] b[y]).key() && b[x].host_image_id != b[y].host_image_id by {
        let x0 = if x < i { x } else { x + 1 };
        let y0 = if y < i { y } else { y + 1 };
        assert(b[x] == a[x0] && b[y] == a[y0] && x0 < y0);
    }
    assert forall|x: int| 0 <= x < b.len() implies (#[trigger] b[x]).host_image_id
        < new.next_image_id && (b[x].stream is Some ==> b[x].stream_owner is Some) by {
        let x0 = if x < i { x } else { x + 1 };
        assert(b[x] == a[x0]);
    }
    assert forall|pane: u64| #[trigger] layer_count(b, pane) <= MAX_LAYERS_PER_PANE by {
        lemma_sum_remove(
            a,
            |s: Slot|
                if s.pane == pane {
                    1nat
                } else {
                    0
                },
            i,
        );
        assert(layer_count(a, pane) <= MAX_LAYERS_PER_PANE);
    }
    lemma_sum_remove(a, |s: Slot| s.inline_len(), i);
}

/// Without the slot's own bytes the total is what the others hold.
proof fn lemma_inline_split(slots: Seq<Slot>, key: Key)
    requires
        distinct_keys(slots),
    ensures
        match slot_at(slots, key) {
            Some(i) => inline_total(slots) == inline_without(slots, key) + slots[i].inline_len(),
            None => inline_total(slots) == inline_without(slots, key),
        },
    decreases slots.len(),
{
    let p = |s: Slot| s.key() == key;
    lemma_first_where(slots, p);
    if slots.len() > 0 {
        let head = slots.drop_last();
        assert(forall|j: int| 0 <= j < head.len() ==> head[j] == #[trigger] slots[j]);
        assert(distinct_keys(head));
        lemma_inline_split(head, key);
        lemma_first_where(head, p);
        if slots.last().key() == key {
            lemma_at(slots, slots.len() - 1);
            match slot_at(head, key) {
                Some(j) => {
                    assert(slots[j].key() != slots[slots.len() - 1].key());
                },
                None => {},
            }
        }
    }
}

/// Putting a slot where there is room for it keeps the store well formed.
proof fn lemma_put_wf(old: PaneGraphics, new: PaneGraphics, slot: SlotView)
    requires
        old.wf(),
        old.put(new, slot),
        old.has_room(slot.key),
        old.image_id_for(slot.key) == Some(slot.image_id),
        slot.stream is Some ==> slot.owner is Some,
        slot.layer matches Some(l) ==> (l.data matches DataView::Inline(bytes)
            ==> old.spec_can_store_inline(slot.key, bytes.len())),
    ensures
        new.wf(),
{
    let a = old.slots@;
    let b = new.slots@;
    let p = |s: Slot| s.key() == slot.key;
    lemma_first_where(a, p);
    lemma_inline_split(a, slot.key);
    match slot_at(a, slot.key) {
        Some(i) => {
            assert(forall|j: int| 0 <= j < b.len() && j != i ==> b[j] == #[trigger] a[j]);
            assert(b[i].key() == a[i].key());
            assert(b[i].host_image_id == a[i].host_image_id);
            assert forall|x: int, y: int| 0 <= x < y < b.len() implies (#[trigger] b[x]).key() != (
            #[trigger] b[y]).key() && b[x].host_image_id != b[y].host_image_id by {
                assert(a[x].key() != a[y].key());
            }
            assert forall|x: int| 0 <= x < b.len() implies (#[trigger] b[x]).host_image_id
                < new.next_image_id by {
                assert(a[x].host_image_id < old.next_image_id);
            }
            assert forall|pane: u64| #[trigger] layer_count(b, pane) <= MAX_LAYERS_PER_PANE by {
                lemma_sum_update(
                    a,
                    |s: Slot|
                        if s.pane == pane {
                            1nat
                        } else {
                            0
                        },
                    i,
                    b[i],
                );
                assert(layer_count(a, pane) <= MAX_LAYERS_PER_PANE);
            }
            lemma_sum_update(a, |s: Slot| s.inline_len(), i, b[i]);
        },
        None => {
            let n = a.len() as int;
            assert(b[n] == b.last());
            assert(forall|j: int| 0 <= j < n ==> b[j] == #[trigger] a[j]);
            assert forall|x: int, y: int| 0 <= x < y < b.len() implies (#[trigger] b[x]).key() != (
            #[trigger] b[y]).key() && b[x].host_image_id != b[y].host_image_id by {
                if y == n {
                    assert(!p(a[x]));
                    assert(a[x].host_image_id < old.next_image_id);
                } else {
                    assert(a[x].key() != a[y].key());
                }
            }
            assert forall|x: int| 0 <= x < b.len() implies (#[trigger] b[x]).host_image_id
                < new.next_image_id by {
                if x < n {
                    assert(a[x].host_image_id < old.next_image_id);
                }
            }
            assert forall|pane: u64| #[trigger] layer_count(b, pane) <= MAX_LAYERS_PER_PANE by {
                lemma_sum_push(
                    a,
                    |s: Slot|
                        if s.pane == pane {
                            1nat
                        } else {
                            0
                        },
                    b.last(),
                );
                assert(layer_count(a, pane) <= MAX_LAYERS_PER_PANE);
            }
            lemma_sum_push(a, |s: Slot| s.inline_len(), b.last());
        },
    }
}

/// What the other slots hold fits.
pub proof fn lemma_others_fit(store: PaneGraphics, key: Key)
    requires
        store.wf(),
    ensures
        store.spec_can_store_inline(key, 0),
{
    lemma_inline_split(store.slots@, key);
}

/// Putting a slot changes what is held for its key, and nothing else.
pub proof fn law_put_changes_one_layer(old: PaneGraphics, new: PaneGraphics, slot: SlotView, key: Key)
    requires
        old.wf(),
        old.put(new, slot),
    ensures
        new.at(key) == if key == slot.key {
            Some(slot)
        } else {
            old.at(key)
        },
{
    let a = old.slots@;
    let b = new.slots@;
    let p = |s: Slot| s.key() == key;
    let q = |s: Slot| s.key() == slot.key;
    lemma_first_where(a, p);
    lemma_first_where(a, q);
    match slot_at(a, slot.key) {
        Some(i) => {
            assert(forall|j: int| 0 <= j < b.len() && j != i ==> b[j] == #[trigger] a[j]);
            assert(b[i].key() == slot.key);
            if key == slot.key {
                assert forall|j: int| 0 <= j < i implies !p(#[trigger] b[j]) by {
                    assert(!q(a[j]));
                }
                lemma_is_first(b, p, i);
            } else {
                match slot_at(a, key) {
                    Some(k) => {
                        assert(k != i);
                        assert forall|j: int| 0 <= j < k implies !p(#[trigger] b[j]) by {
                            if j != i {
                                assert(!p(a[j]));
                            }
                        }
                        lemma_is_first(b, p, k);
                    },
                    None => {
                        lemma_first_where(b, p);
                        assert forall|j: int| 0 <= j < b.len() implies !p(#[trigger] b[j]) by {
                            if j != i {
                                assert(!p(a[j]));
                            }
                        }
                    },
                }
            }
        },
        None => {
            let n = a.len() as int;
            assert(forall|j: int| 0 <= j < n ==> b[j] == #[trigger] a[j]);
            assert(b[n] == b.last());
            match slot_at(a, key) {
                Some(k) => {
                    assert forall|j: int| 0 <= j < k implies !p(#[trigger] b[j]) by {
                        assert(!p(a[j]));
                    }
                    lemma_is_first(b, p, k);
                },
                None => {
                    assert forall|j: int| 0 <= j < n implies !p(#[trigger] b[j]) by {
                        assert(!p(a[j]));
                    }
                    if key == slot.key {
                        lemma_is_first(b, p, n);
                    } else {
                        lemma_first_where(b, p);
                    }
                },
            }
        },
    }
}

/// Removing a slot takes away what is held for its key, and nothing else.
pub proof fn law_remove_changes_one_layer(
    old: PaneGraphics,
    new: PaneGraphics,
    gone: Key,
    key: Key,
)
    requires
        old.wf(),
        old.removed(new, gone),
    ensures
        new.at(key) == if key == gone {
            None
        } else {
            old.at(key)
        },
{
    let a = old.slots@;
    let b = new.slots@;
    let p = |s: Slot| s.key() == key;
    let q = |s: Slot| s.key() == gone;
    lemma_first_where(a, q);
    lemma_first_where(a, p);
    lemma_first_where(b, p);
    let i = slot_at(a, gone)->Some_0;
    assert(forall|j: int|
        0 <= j < b.len() ==> #[trigger] b[j] == (if j < i {
            a[j]
        } else {
            a[j + 1]
        }));
    if key == gone {
        assert forall|j: int| 0 <= j < b.len() implies !p(#[trigger] b[j]) by {
            if j < i {
                assert(!q(a[j]));
            } else {
                assert(a[i].key() != a[j + 1].key());
            }
        }
    } else {
        match slot_at(a, key) {
            Some(k) => {
                let k1 = if k < i { k } else { k - 1 };
                assert(k != i);
                assert(b[k1] == a[k]);
                assert forall|j: int| 0 <= j < k1 implies !p(#[trigger] b[j]) by {
                    if j < i {
                        assert(!p(a[j]));
                    } else {
                        assert(!p(a[j + 1]));
                    }
                }
                lemma_is_first(b, p, k1);
            },
            None => {
                assert forall|j: int| 0 <= j < b.len() implies !p(#[trigger] b[j]) by {
                    if j < i {
                        assert(!p(a[j]));
                    } else {
                        assert(!p(a[j + 1]));
                    }
                }
            },
        }
    }
}

impl PaneGraphics {
    /// A store with nothing in it.
    pub fn new(limits: Limits) -> (r: PaneGraphics)
        ensures
            r.wf(),
            r.slots@.len() == 0,
            r.revision == 0,
            r.next_image_id == 1,
            r.limits == limits,
            r.retired@.len() == 0,
    {
        PaneGraphics {
            slots: Vec::new(),
            revision: 0,
            next_image_id: 1,
            limits,
            retired: Vec::new(),
        }
    }

    /// The position of the slot of a key.
    #[verifier::loop_isolation(false)]
    pub fn find(&self, pane: u64, layer_id: &str) -> (r: Option<usize>)
        ensures
            match r {
                Some(i) => slot_at(self.slots@, (pane, layer_id@)) == Some(i as int) && i
                    < self.slots@.len(),
                None => slot_at(self.slots@, (pane, layer_id@)) is None,
            },
    {
        let ghost key: Key = (pane, layer_id@);
        let ghost p = |s: Slot| s.key() == key;
        let mut i: usize = 0;
        while i < self.slots.len()
            invariant
                i <= self.slots@.len(),
                forall|j: int| 0 <= j < i ==> (#[trigger] self.slots@[j]).key() != key,
            decreases self.slots@.len() - i,
        {
            if self.slots[i].pane == pane && same_text(self.slots[i].layer_id.as_str(), layer_id) {
                proof {
                    lemma_is_first(self.slots@, p, i as int);
                }
                return Some(i);
            }
            i = i + 1;
        }
        proof {
            lemma_first_where(self.slots@, p);
        }
        None
    }

    /// The number of layers over a pane.
    pub fn layers_over(&self, pane: u64) -> (n: usize)
        ensures
            n == layer_count(self.slots@, pane),
    {
        let ghost f = |s: Slot|
            if s.pane == pane {
                1nat
            } else {
                0
            };
        let mut n: usize = 0;
        let mut i: usize = 0;
        while i < self.slots.len()
            invariant
                i <= self.slots@.len(),
                n <= i,
                n == layer_count(self.slots@.take(i as int), pane),
            decreases self.slots@.len() - i,
        {
            if self.slots[i].pane == pane {
                n = n + 1;
            }
            i = i + 1;
            proof {
                assert(self.slots@.take(i as int).drop_last() =~= self.slots@.take(i - 1));
            }
        }
        proof {
            assert(self.slots@.take(i as int) =~= self.slots@);
        }
        n
    }

    /// Whether a slot for the key can be had.
    pub fn can_add_slot(&self, pane: u64, layer_id: &str) -> (r: bool)
        ensures
            r == self.has_room((pane, layer_id@)),
    {
        self.find(pane, layer_id).is_some() || (self.slots.len() < self.limits.max_slots
            && self.layers_over(pane) < MAX_LAYERS_PER_PANE)
    }

    /// Whether `len` bytes of pixels for the key fit beside what the other slots hold.
    pub fn can_store_inline(&self, pane: u64, layer_id: &str, len: usize) -> (r: bool)
        requires
            self.wf(),
        ensures
            r == self.spec_can_store_inline((pane, layer_id@), len as nat),
    {
        let ghost key: Key = (pane, layer_id@);
        let ghost whole = |s: Slot| s.inline_len();
        let ghost others = |s: Slot|
            if s.key() == key {
                0nat
            } else {
                s.inline_len()
            };
        proof {
            lemma_sum_le(self.slots@, others, whole);
        }
        let mut held: usize = 0;
        let mut i: usize = 0;
        while i < self.slots.len()
            invariant
                key == (pane, layer_id@),
                i <= self.slots@.len(),
                inline_without(self.slots@, key) <= self.limits.max_inline_bytes,
                held == inline_without(self.slots@.take(i as int), key),
                held <= self.limits.max_inline_bytes,
            decreases self.slots@.len() - i,
        {
            let slot = &self.slots[i];
            proof {
                assert(self.slots@.take(i + 1).drop_last() =~= self.slots@.take(i as int));
                lemma_sum_take(
                    self.slots@,
                    |s: Slot|
                        if s.key() == key {
                            0nat
                        } else {
                            s.inline_len()
                        },
                    i + 1,
                );
            }
            if !(slot.pane == pane && same_text(slot.layer_id.as_str(), layer_id)) {
                match &slot.layer {
                    Some(layer) => match &layer.data {
                        LayerData::Inline(bytes) => {
                            held = held + bytes.len();
                        },
                        LayerData::Direct(_) => {},
                    },
                    None => {},
                }
            }
            i = i + 1;
        }
        proof {
            assert(self.slots@.take(i as int) =~= self.slots@);
        }
        len <= self.limits.max_inline_bytes - held
    }

    /// The image id a slot for the key gets.
    pub fn reserve_image_id(&self, pane: u64, layer_id: &str) -> (r: Option<u32>)
        ensures
            r == self.image_id_for((pane, layer_id@)),
    {
        match self.find(pane, layer_id) {
            Some(i) => Some(self.slots[i].host_image_id),
            None => if self.next_image_id < u32::MAX {
                Some(self.next_image_id)
            } else {
                None
            },
        }
    }

    fn mark_changed(&mut self)
        ensures
            *final(self) == (PaneGraphics { revision: next_revision(old(self).revision), ..*old(self) }),
    {
        self.revision = revision_after(self.revision);
    }

    /// Take a slot away, retiring its stream.
    fn drop_slot(&mut self, i: usize)
        requires
            i < old(self).slots@.len(),
        ensures
            final(self).slots@ == old(self).slots@.remove(i as int),
            final(self).revision == old(self).revision,
            final(self).next_image_id == old(self).next_image_id,
            final(self).limits == old(self).limits,
            final(self).retired@ == match old(self).slots@[i as int].stream {
                Some(t) => old(self).retired@.push(t.id),
                None => old(self).retired@,
            },
            old(self).wf() ==> final(self).wf(),
    {
        let slot = self.slots.remove(i);
        match slot.stream {
            Some(t) => {
                self.retired.push(t.id);
            },
            None => {},
        }
        proof {
            if old(self).wf() {
                lemma_removed_wf(*old(self), *self, i as int);
            }
        }
    }

    /// Take the slot at `i` away and count the change.
    pub fn remove_slot(&mut self, i: usize)
        requires
            old(self).wf(),
            i < old(self).slots@.len(),
        ensures
            old(self).removed(*final(self), old(self).slots@[i as int].key()),
            final(self).wf(),
    {
        proof {
            lemma_at(self.slots@, i as int);
        }
        self.drop_slot(i);
        self.mark_changed();
    }

    /// Reclaim the slot of a key where its client has let go of the stream that claimed it.
    pub fn reclaim_inactive_stream(&mut self, pane: u64, layer_id: &str)
        requires
            old(self).wf(),
        ensures
            old(self).reclaimed(*final(self), (pane, layer_id@)),
            final(self).wf(),
    {
        match self.find(pane, layer_id) {
            Some(i) => {
                proof {
                    lemma_first_where(self.slots@, |s: Slot| s.key() == (pane, layer_id@));
                }
                if self.slots[i].stream_owner.is_some() && !self.slots[i].stream_is_active() {
                    self.remove_slot(i);
                }
            },
            None => {},
        }
    }

    /// Put a slot for its key, and count the change.
    pub fn put_slot(&mut self, slot: Slot)
        requires
            old(self).wf(),
            old(self).has_room(slot.key()),
            old(self).image_id_for(slot.key()) == Some(slot.host_image_id),
            slot.stream is Some ==> slot.stream_owner is Some,
            old(self).spec_can_store_inline(slot.key(), slot.inline_len()),
        ensures
            old(self).put(*final(self), slot@),
            final(self).wf(),
    {
        let found = self.find(slot.pane, slot.layer_id.as_str());
        let ghost view = slot@;
        match found {
            Some(i) => {
                self.slots.set(i, slot);
            },
            None => {
                self.slots.push(slot);
                self.next_image_id = self.next_image_id + 1;
            },
        }
        self.mark_changed();
        proof {
            assert(old(self).put(*self, view));
            lemma_put_wf(*old(self), *self, view);
        }
    }
}

proof fn lemma_streams_push(s: Seq<Slot>, x: Slot)
    ensures
        streams_of(s.push(x)) == match x.stream {
            Some(t) => streams_of(s).push(t.id),
            None => streams_of(s),
        },
{
    assert(s.push(x).drop_last() =~= s);
}

/// The slots that stay when panes have gone.
pub open spec fn over_live_panes(slots: Seq<Slot>, session: Session) -> Seq<Slot> {
    slots.filter(|s: Slot| workspace_of_pane(session.workspaces@, s.pane) is Some)
}

/// The slots that stay when streams have ended, or the feature is off.
pub open spec fn still_streaming(slots: Seq<Slot>, enabled: bool) -> Seq<Slot> {
    slots.filter(|s: Slot| enabled && !s.is_stale())
}

/// The streams of the slots that `p` does not keep.
pub open spec fn dropped_streams(slots: Seq<Slot>, p: spec_fn(Slot) -> bool) -> Seq<u64> {
    streams_of(slots.filter(|s: Slot| !p(s)))
}

impl PaneGraphics {
    /// `new` is `self` with only the slots that `p` keeps; a change is counted once, whatever the
    /// number of slots that went, and their streams are retired.
    pub open spec fn kept(&self, new: PaneGraphics, p: spec_fn(Slot) -> bool) -> bool {
        &&& new.slots@ == self.slots@.filter(p)
        &&& new.retired@ == self.retired@ + dropped_streams(self.slots@, p)
        &&& new.next_image_id == self.next_image_id
        &&& new.limits == self.limits
        &&& new.revision == if new.slots@.len() != self.slots@.len() {
            next_revision(self.revision)
        } else {
            self.revision
        }
    }

    /// `new` is `self` without the slots over panes that are in no workspace.
    pub open spec fn kept_live(&self, new: PaneGraphics, session: Session) -> bool {
        self.kept(new, |s: Slot| workspace_of_pane(session.workspaces@, s.pane) is Some)
    }

    /// `new` is `self` without the slots whose streams have ended; with the feature off, without
    /// any.
    pub open spec fn kept_streaming(&self, new: PaneGraphics, enabled: bool) -> bool {
        self.kept(new, |s: Slot| enabled && !s.is_stale())
    }

    /// Drop every slot whose position is marked `false` in `keep`.
    fn retain(&mut self, keep: &Vec<bool>, Ghost(p): Ghost<spec_fn(Slot) -> bool>) -> (r: bool)
        requires
            old(self).wf(),
            keep@.len() == old(self).slots@.len(),
            forall|i: int| 0 <= i < keep@.len() ==> #[trigger] keep@[i] == p(old(self).slots@[i]),
        ensures
            old(self).kept(*final(self), p),
            r == (final(self).slots@.len() != old(self).slots@.len()),
            final(self).wf(),
    {
        let ghost all = self.slots@;
        let ghost first = *self;
        let ghost q = |s: Slot| !p(s);
        let total: usize = keep.len();
        let mut seen: usize = 0;
        let mut at: usize = 0;
        proof {
            assert(all.take(0) =~= Seq::<Slot>::empty());
            lemma_filter_none(p);
            lemma_filter_none(q);
            assert(self.slots@ =~= all.take(0).filter(p) + all.skip(0));
            assert(streams_of(all.take(0).filter(q)) =~= Seq::<u64>::empty());
            assert(self.retired@ =~= old(self).retired@ + streams_of(all.take(0).filter(q)));
        }
        while seen < total
            invariant
                all == first.slots@,
                keep@.len() == all.len(),
                forall|i: int| 0 <= i < keep@.len() ==> #[trigger] keep@[i] == p(all[i]),
                q == (|s: Slot| !p(s)),
                total == all.len(),
                seen <= total,
                self.wf(),
                at == all.take(seen as int).filter(p).len(),
                self.slots@ == all.take(seen as int).filter(p) + all.skip(seen as int),
                self.retired@ == first.retired@ + streams_of(all.take(seen as int).filter(q)),
                self.next_image_id == first.next_image_id,
                self.limits == first.limits,
                self.revision == first.revision,
            decreases total - seen,
        {
            let ghost head = all.take(seen as int).filter(p);
            let ghost gone = all.take(seen as int).filter(q);
            proof {
                lemma_filter_step(all, p, seen as int);
                lemma_filter_step(all, q, seen as int);
                assert(self.slots@[at as int] == all.skip(seen as int)[0]);
                assert(all.skip(seen as int)[0] == all[seen as int]);
            }
            if keep[seen] {
                at = at + 1;
                proof {
                    assert(head.push(all[seen as int]) + all.skip(seen + 1) =~= head + all.skip(
                        seen as int,
                    ));
                }
            } else {
                self.drop_slot(at);
                proof {
                    assert(self.slots@ =~= head + all.skip(seen + 1));
                    lemma_streams_push(gone, all[seen as int]);
                    assert(self.retired@ =~= first.retired@ + streams_of(
                        gone.push(all[seen as int]),
                    ));
                }
            }
            seen = seen + 1;
        }
        proof {
            assert(all.take(total as int) =~= all);
            assert(all.skip(total as int) =~= Seq::<Slot>::empty());
            assert(self.slots@ =~= all.filter(p));
        }
        let changed = self.slots.len() != total;
        if changed {
            self.mark_changed();
        }
        changed
    }

    /// Drop the slots over panes that are in no workspace any more.
    #[verifier::loop_isolation(false)]
    pub fn retain_live_panes(&mut self, session: &Session) -> (r: bool)
        requires
            old(self).wf(),
        ensures
            old(self).kept_live(*final(self), *session),
            r == (final(self).slots@.len() != old(self).slots@.len()),
            final(self).wf(),
    {
        let ghost p = |s: Slot| workspace_of_pane(session.workspaces@, s.pane) is Some;
        let mut keep: Vec<bool> = Vec::new();
        let mut i: usize = 0;
        while i < self.slots.len()
            invariant
                i <= self.slots@.len(),
                keep@.len() == i,
                forall|j: int| 0 <= j < i ==> #[trigger] keep@[j] == p(self.slots@[j]),
            decreases self.slots@.len() - i,
        {
            keep.push(session.find_workspace_of_pane(self.slots[i].pane).is_some());
            i = i + 1;
        }
        self.retain(&keep, Ghost(p))
    }

    /// Drop the slots whose streams have ended; with the feature off, all of them.
    #[verifier::loop_isolation(false)]
    fn retain_streaming(&mut self, enabled: bool) -> (r: bool)
        requires
            old(self).wf(),
        ensures
            old(self).kept_streaming(*final(self), enabled),
            r == (final(self).slots@.len() != old(self).slots@.len()),
            final(self).wf(),
    {
        let ghost p = |s: Slot| enabled && !s.is_stale();
        let mut keep: Vec<bool> = Vec::new();
        let mut i: usize = 0;
        while i < self.slots.len()
            invariant
                i <= self.slots@.len(),
                keep@.len() == i,
                forall|j: int| 0 <= j < i ==> #[trigger] keep@[j] == p(self.slots@[j]),
            decreases self.slots@.len() - i,
        {
            keep.push(
                enabled && (self.slots[i].stream_owner.is_none()
                    || self.slots[i].stream_is_active()),
            );
            i = i + 1;
        }
        self.retain(&keep, Ghost(p))
    }

    /// Bring the store in line with the session: slots over gone panes go, then slots whose
    /// streams have ended. The reply says whether anything went, in which case the whole view has
    /// to be drawn again.
    pub fn sync_pane_graphics_streams(&mut self, session: &Session) -> (r: bool)
        requires
            old(self).wf(),
        ensures
            exists|mid: PaneGraphics|
                #[trigger] old(self).kept_live(mid, *session) && mid.kept_streaming(
                    *final(self),
                    session.graphics_enabled,
                ),
            r == (final(self).slots@.len() != old(self).slots@.len()),
            final(self).slots@ == still_streaming(
                over_live_panes(old(self).slots@, *session),
                session.graphics_enabled,
            ),
            final(self).wf(),
    {
        let gone = self.retain_live_panes(session);
        let ghost mid = *self;
        let ended = self.retain_streaming(session.graphics_enabled);
        proof {
            old(self).slots@.lemma_filter_len(
                |s: Slot| workspace_of_pane(session.workspaces@, s.pane) is Some,
            );
            mid.slots@.lemma_filter_len(|s: Slot| session.graphics_enabled && !s.is_stale());
        }
        gone || ended
    }
}

/// Reclaiming a layer that its client let go of leaves a valid store.
pub proof fn law_reclaiming_keeps_the_store_valid(old: PaneGraphics, new: PaneGraphics, key: Key)
    requires
        old.wf(),
        old.reclaimed(new, key),
    ensures
        new.wf(),
{
    lemma_first_where(old.slots@, |s: Slot| s.key() == key);
    match slot_at(old.slots@, key) {
        Some(i) => {
            if old.slots@[i].is_stale() {
                lemma_removed_wf(old, new, i);
            }
        },
        None => {},
    }
}

/// With the feature off, bringing the store in line empties it.
pub proof fn law_disabled_graphics_keep_nothing(slots: Seq<Slot>)
    ensures
        still_streaming(slots, false).len() == 0,
{
    lemma_off_keeps_nothing(slots, false);
}

proof fn lemma_off_keeps_nothing(slots: Seq<Slot>, enabled: bool)
    requires
        !enabled,
    ensures
        still_streaming(slots, enabled).len() == 0,
{
    slots.lemma_all_neg_filter_empty(|s: Slot| enabled && !s.is_stale());
}

/// Bringing the store in line a second time changes nothing.
pub proof fn law_sync_is_idempotent(slots: Seq<Slot>, session: Session)
    ensures
        ({
            let once = still_streaming(over_live_panes(slots, session), session.graphics_enabled);
            still_streaming(over_live_panes(once, session), session.graphics_enabled) == once
        }),
{
    let live = |s: Slot| workspace_of_pane(session.workspaces@, s.pane) is Some;
    let on = |s: Slot| session.graphics_enabled && !s.is_stale();
    let mid = slots.filter(live);
    let once = mid.filter(on);
    assert forall|i: int| 0 <= i < once.len() implies live(once[i]) && on(once[i]) by {
        mid.lemma_filter_pred(on, i);
        mid.lemma_filter_contains_rev(on, once[i]);
        let k = choose|k: int| 0 <= k < mid.len() && mid[k] == once[i];
        slots.lemma_filter_pred(live, k);
    }
    lemma_filter_all(once, live);
    lemma_filter_all(once, on);
}

proof fn lemma_filter_all(s: Seq<Slot>, p: spec_fn(Slot) -> bool)
    requires
        forall|i: int| 0 <= i < s.len() ==> p(s[i]),
    ensures
        s.filter(p) == s,
    decreases s.len(),
{
    reveal(Seq::filter);
    if s.len() > 0 {
        let t = s.drop_last();
        assert forall|i: int| 0 <= i < t.len() implies p(t[i]) by {
            assert(t[i] == s[i]);
        }
        lemma_filter_all(t, p);
        assert(t.push(s.last()) =~= s);
    }
}

} // verus!
