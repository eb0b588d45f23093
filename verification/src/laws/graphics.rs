//! Graphics over panes: which requests are granted, what is kept of them, and what goes.

use vstd::prelude::*;
use crate::graphics_store::{
    inline_without, law_put_changes_one_layer, law_reclaiming_keeps_the_store_valid,
    law_remove_changes_one_layer, layer_count, over_live_panes, slot_at, still_streaming, DataView,
    Format, Key, LayerData, PaneGraphics, Slot, SlotView,
};
use crate::pane_graphics::{
    canonical, carried_limit, channels_swapped, decode_outcome, direct_plan, enabled_key_of,
    frame_file_refusal, frame_layer, frame_refusal, image_len, key_of, layer_name, layer_problem,
    layer_set, open_key, pane_on_screen, slot_with_layer, static_clear, static_set, stream_opened,
    streams_as, DirectParams, FrameFile, SetParams, StreamOpenParams,
};
use crate::response::Refusal;
use crate::search::lemma_first_where;
use crate::session::{next_revision, Session};
use crate::text::{byte_len, opt_view};

verus! {

// ---------------------------------------------------------------------------------------------
// The store
// ---------------------------------------------------------------------------------------------

/// The bytes of pixels that a slot keeps in memory; a file keeps its own.
pub open spec fn bytes_in_memory(slot: Slot) -> nat {
    match slot.layer {
        Some(layer) => match layer.data {
            LayerData::Inline(bytes) => bytes@.len(),
            LayerData::Direct(_) => 0,
        },
        None => 0,
    }
}

/// The bytes that the slots of other keys keep in memory.
pub open spec fn bytes_of_others(slots: Seq<Slot>, pane: u64, layer: Seq<char>) -> nat
    decreases slots.len(),
{
    if slots.len() == 0 {
        0
    } else {
        let last = slots.last();
        bytes_of_others(slots.drop_last(), pane, layer) + if last.pane == pane && last.layer_id@
            == layer {
            0
        } else {
            bytes_in_memory(last)
        }
    }
}

/// The number of slots over a pane.
pub open spec fn slots_over(slots: Seq<Slot>, pane: u64) -> nat
    decreases slots.len(),
{
    if slots.len() == 0 {
        0
    } else {
        slots_over(slots.drop_last(), pane) + if slots.last().pane == pane {
            1nat
        } else {
            0
        }
    }
}

proof fn lemma_bytes_of_others(slots: Seq<Slot>, key: Key)
    ensures
        inline_without(slots, key) == bytes_of_others(slots, key.0, key.1),
    decreases slots.len(),
{
    if slots.len() > 0 {
        lemma_bytes_of_others(slots.drop_last(), key);
    }
}

proof fn lemma_slots_over(slots: Seq<Slot>, pane: u64)
    ensures
        layer_count(slots, pane) == slots_over(slots, pane),
    decreases slots.len(),
{
    if slots.len() > 0 {
        lemma_slots_over(slots.drop_last(), pane);
    }
}

/// A slot of the key is there.
pub open spec fn has_slot(slots: Seq<Slot>, pane: u64, layer: Seq<char>) -> bool {
    exists|i: int|
        0 <= i < slots.len() && (#[trigger] slots[i]).pane == pane && slots[i].layer_id@ == layer
}

proof fn lemma_has_slot(slots: Seq<Slot>, key: Key)
    ensures
        slot_at(slots, key) is Some <==> has_slot(slots, key.0, key.1),
{
    lemma_first_where(slots, |s: Slot| s.key() == key);
    if has_slot(slots, key.0, key.1) {
        let i = choose|i: int|
            0 <= i < slots.len() && (#[trigger] slots[i]).pane == key.0 && slots[i].layer_id@
                == key.1;
        assert(slots[i].key() == key);
    }
}

/// There is room for a layer that is there already, and for another where neither the pane has its
/// sixteen nor the store all it may hold.
pub proof fn law_room_for_layers(store: PaneGraphics, key: Key)
    ensures
        store.has_room(key) <==> (has_slot(store.slots@, key.0, key.1) || (store.slots@.len()
            < store.limits.max_slots && slots_over(store.slots@, key.0) < 16)),
{
    lemma_has_slot(store.slots@, key);
    lemma_slots_over(store.slots@, key.0);
}

/// Pixels fit when, with what the other layers keep in memory, they stay within the limit: what
/// they replace does not count.
pub proof fn law_pixels_fit_the_budget(store: PaneGraphics, key: Key, len: nat)
    ensures
        store.spec_can_store_inline(key, len) <==> bytes_of_others(store.slots@, key.0, key.1) + len
            <= store.limits.max_inline_bytes,
{
    lemma_bytes_of_others(store.slots@, key);
}

/// A layer keeps its image id; a new one gets an id that no other has. Ids run out only for new
/// layers, and only when all were given out.
pub proof fn law_image_ids_are_not_shared(store: PaneGraphics, key: Key, i: int)
    requires
        store.wf(),
        0 <= i < store.slots@.len(),
    ensures
        store.slots@[i].key() == key ==> store.image_id_for(key) == Some(
            store.slots@[i].host_image_id,
        ),
        store.slots@[i].key() != key ==> store.image_id_for(key) != Some(
            store.slots@[i].host_image_id,
        ),
        store.image_id_for(key) is None <==> !has_slot(store.slots@, key.0, key.1)
            && store.next_image_id == u32::MAX,
{
    lemma_has_slot(store.slots@, key);
    lemma_first_where(store.slots@, |s: Slot| s.key() == key);
    match slot_at(store.slots@, key) {
        Some(k) => {
            assert(store.slots@[k].key() == key);
            if k < i {
                assert(store.slots@[k].key() != store.slots@[i].key());
                assert(store.slots@[k].host_image_id != store.slots@[i].host_image_id);
            }
            if i < k {
                assert(store.slots@[i].key() != store.slots@[k].key());
                assert(store.slots@[i].host_image_id != store.slots@[k].host_image_id);
            }
        },
        None => {},
    }
}

/// A revision is followed by another, the last by the first.
pub proof fn law_revisions_go_up(n: u64)
    ensures
        n < u64::MAX ==> next_revision(n) == n + 1,
        next_revision(u64::MAX) == 0,
        next_revision(n) != n,
{
}

/// Every change of the store is counted, and leaves its limits alone.
pub proof fn law_changes_are_counted(
    old: PaneGraphics,
    new: PaneGraphics,
    slot: SlotView,
    key: Key,
)
    requires
        old.put(new, slot) || old.removed(new, key),
    ensures
        old.revision < u64::MAX ==> new.revision == old.revision + 1,
        old.revision == u64::MAX ==> new.revision == 0,
        new.limits == old.limits,
{
}

/// A stream that goes with its slot is one that its client is still to be told of; a slot without a
/// stream adds none.
pub proof fn law_removed_streams_are_retired(old: PaneGraphics, new: PaneGraphics, key: Key)
    requires
        old.removed(new, key),
    ensures
        old.at(key) matches Some(slot) && match slot.stream {
            Some(token) => new.retired@ == old.retired@.push(token.id),
            None => new.retired@ == old.retired@,
        },
{
}

/// A layer is reclaimed exactly when a stream claimed it and its client has let go of it.
pub proof fn law_only_abandoned_layers_are_reclaimed(old: PaneGraphics, new: PaneGraphics, key: Key)
    requires
        old.wf(),
        old.reclaimed(new, key),
    ensures
        ({
            let abandoned = old.at(key) matches Some(slot) && slot.owner is Some && !(
            slot.stream matches Some(token) && token.live);
            &&& abandoned ==> new.at(key) is None && new.slots@.len() == old.slots@.len() - 1
            &&& !abandoned ==> new == old
        }),
{
    lemma_first_where(old.slots@, |s: Slot| s.key() == key);
    if old.at(key) matches Some(slot) && slot.owner is Some && !(slot.stream matches Some(token)
        && token.live) {
        law_remove_changes_one_layer(old, new, key, key);
    }
}

/// Bringing the store in line keeps exactly the slots over panes that are in some workspace, while
/// the feature is on and no client has let go of the slot's stream; and keeps them in order.
pub proof fn law_sync_keeps_what_is_in_use(slots: Seq<Slot>, session: Session, slot: Slot)
    ensures
        still_streaming(over_live_panes(slots, session), session.graphics_enabled).contains(slot)
            <==> {
            &&& slots.contains(slot)
            &&& session.graphics_enabled
            &&& crate::session::workspace_of_pane(session.workspaces@, slot.pane) is Some
            &&& slot.stream_owner is Some ==> (slot.stream matches Some(token) && token.live)
        },
{
    let live = |s: Slot| crate::session::workspace_of_pane(session.workspaces@, s.pane) is Some;
    let on = |s: Slot| session.graphics_enabled && !s.is_stale();
    let mid = slots.filter(live);
    let last = mid.filter(on);
    if last.contains(slot) {
        let k = choose|k: int| 0 <= k < last.len() && last[k] == slot;
        mid.lemma_filter_pred(on, k);
        mid.lemma_filter_contains_rev(on, slot);
        let j = choose|j: int| 0 <= j < mid.len() && mid[j] == slot;
        slots.lemma_filter_pred(live, j);
        slots.lemma_filter_contains_rev(live, slot);
    }
    if slots.contains(slot) && live(slot) && on(slot) {
        let i = choose|i: int| 0 <= i < slots.len() && slots[i] == slot;
        slots.lemma_filter_contains(live, i);
        let j = choose|j: int| 0 <= j < mid.len() && mid[j] == slot;
        mid.lemma_filter_contains(on, j);
    }
}

// ---------------------------------------------------------------------------------------------
// Names and sizes
// ---------------------------------------------------------------------------------------------

/// A layer's name is one to sixty-four bytes of ASCII letters, digits and `.`, `_`, `:`, `-`; a
/// request without one means the primary layer.
pub proof fn law_layer_names(layer_id: Option<Seq<char>>, name: Seq<char>)
    ensures
        layer_id is None ==> layer_name(layer_id) == "primary"@,
        layer_id matches Some(own) ==> layer_name(layer_id) == own,
        ({
            let sized = name.len() > 0 && byte_len(name) <= 64;
            let plain = forall|i: int|
                0 <= i < name.len() ==> {
                    let c = #[trigger] name[i];
                    ||| 'a' <= c && c <= 'z'
                    ||| 'A' <= c && c <= 'Z'
                    ||| '0' <= c && c <= '9'
                    ||| c == '.' || c == '_' || c == ':' || c == '-'
                };
            &&& layer_problem(name) is None <==> sized && plain
            &&& !sized ==> layer_problem(name) == Some(
                "layer_id must contain between 1 and 64 characters"@,
            )
            &&& sized && !plain ==> layer_problem(name) == Some(
                "layer_id contains unsupported characters"@,
            )
        }),
{
    if forall|i: int| 0 <= i < name.len() ==> crate::text::is_name_char(#[trigger] name[i]) {
        assert forall|i: int| 0 <= i < name.len() implies {
            let c = #[trigger] name[i];
            ||| 'a' <= c && c <= 'z'
            ||| 'A' <= c && c <= 'Z'
            ||| '0' <= c && c <= '9'
            ||| c == '.' || c == '_' || c == ':' || c == '-'
        } by {
            assert(crate::text::is_name_char(name[i]));
        }
    } else {
        let i = choose|i: int| 0 <= i < name.len() && !crate::text::is_name_char(#[trigger] name[i]);
        let c = name[i];
        assert(!('a' <= c && c <= 'z') && !('A' <= c && c <= 'Z') && !('0' <= c && c <= '9') && c
            != '.' && c != '_' && c != ':' && c != '-');
    }
}

/// A request that names no pane that is there, or a layer that cannot be one, gets no further; nor
/// does any where the feature is off.
pub proof fn law_requests_lead_to_their_layer(
    session: Session,
    pane_id: Seq<char>,
    layer_id: Option<Seq<char>>,
)
    ensures
        ({
            let found = session.spec_parse_pane_id(pane_id);
            let key = key_of(session, pane_id, layer_id);
            let enabled = enabled_key_of(session, pane_id, layer_id);
            &&& found is None ==> key == Err::<Key, Refusal>(
                Refusal {
                    code: "pane_not_found"@,
                    message: "pane "@ + pane_id + " not found"@,
                },
            )
            &&& found matches Some((_, pane)) ==> match layer_problem(layer_name(layer_id)) {
                None => key == Ok::<Key, Refusal>((pane, layer_name(layer_id))),
                Some(problem) => key == Err::<Key, Refusal>(
                    Refusal { code: "invalid_layer_id"@, message: problem },
                ),
            }
            &&& session.graphics_enabled ==> enabled == key
            &&& !session.graphics_enabled ==> enabled == Err::<Key, Refusal>(
                Refusal {
                    code: "feature_disabled"@,
                    message: "pane graphics require experimental.kitty_graphics"@,
                },
            )
        }),
{
}

/// An image has three bytes for each pixel of rgb and four of rgba and bgra, and any length as
/// png; one that cannot be addressed has none.
pub proof fn law_image_lengths(format: Format, width: u32, height: u32)
    ensures
        format == Format::Png ==> image_len(format, width, height) == Ok::<Option<nat>, ()>(None),
        format == Format::Rgb ==> match image_len(format, width, height) {
            Ok(len) => len == Some((width * height * 3) as nat) && width * height * 3 <= usize::MAX,
            Err(_) => width * height * 3 > usize::MAX,
        },
        format == Format::Rgba || format == Format::Bgra ==> match image_len(format, width, height) {
            Ok(len) => len == Some((width * height * 4) as nat) && width * height * 4 <= usize::MAX,
            Err(_) => width * height * 4 > usize::MAX,
        },
{
    assert(width * height >= 0) by (nonlinear_arith)
        requires
            width >= 0,
            height >= 0,
    ;
}

/// What is kept of bgra pixels is rgba: of every four bytes the first and the third change places,
/// the other two stay, and so does what is left over. Other formats are kept as they are.
pub proof fn law_images_are_kept_as_rgba(format: Format, data: Seq<u8>, pixel: int, i: int)
    requires
        0 <= pixel,
        0 <= i < data.len(),
    ensures
        format != Format::Bgra ==> canonical(format, data) == (format, data),
        format == Format::Bgra ==> canonical(format, data).0 == Format::Rgba,
        format == Format::Bgra && 4 * pixel + 3 < data.len() ==> ({
            let kept = canonical(format, data).1;
            &&& kept[4 * pixel] == data[4 * pixel + 2]
            &&& kept[4 * pixel + 1] == data[4 * pixel + 1]
            &&& kept[4 * pixel + 2] == data[4 * pixel]
            &&& kept[4 * pixel + 3] == data[4 * pixel + 3]
        }),
        format == Format::Bgra && i >= data.len() / 4 * 4 ==> canonical(format, data).1[i] == data[i],
        canonical(format, data).1.len() == data.len(),
{
    if 4 * pixel + 3 < data.len() {
        assert(4 * pixel + 3 < data.len() - data.len() % 4);
        assert((4 * pixel) % 4 == 0 && (4 * pixel + 1) % 4 == 1 && (4 * pixel + 2) % 4 == 2 && (4
            * pixel + 3) % 4 == 3);
    }
}

// ---------------------------------------------------------------------------------------------
// Setting and clearing
// ---------------------------------------------------------------------------------------------

/// A stream may carry sixteen mebibytes, a request of its own half a mebibyte.
pub proof fn law_streams_may_carry_more(params: SetParams)
    ensures
        params.data is Some ==> carried_limit(params) == 16_777_216,
        params.data is None ==> carried_limit(params) == 524_288,
{
}

/// Text that is not base64, and an image that is too large for its buffer, are refused as what they
/// are; anything else is handed on as it was decoded.
pub proof fn law_decoded_images_are_handed_on(bytes: Seq<u8>)
    ensures
        decode_outcome(Ok(bytes)) == Ok::<Seq<u8>, Refusal>(bytes),
        decode_outcome(Err(true)) == Err::<Seq<u8>, Refusal>(
            Refusal { code: "image_too_large"@, message: "image data is too large"@ },
        ),
        decode_outcome(Err(false)) == Err::<Seq<u8>, Refusal>(
            Refusal { code: "invalid_image"@, message: "data_base64 is not valid base64"@ },
        ),
{
}

/// The number of bytes that pixels of a size must have, where the format fixes it.
pub open spec fn length_is_right(format: Format, width: u32, height: u32, len: nat) -> bool {
    &&& format == Format::Rgb ==> len == width * height * 3
    &&& format == Format::Rgba || format == Format::Bgra ==> len == width * height * 4
}

/// A layer is set exactly when there is room for it, its image has a size and can be addressed, its
/// pixels are there, are not too many and as many as they must be, fit the budget, and an image id
/// is left.
pub proof fn law_layers_are_set_when_they_fit(
    old: PaneGraphics,
    new: PaneGraphics,
    key: Key,
    params: SetParams,
    image: Result<Seq<u8>, Refusal>,
    limit: nat,
    refused: Option<Refusal>,
)
    requires
        layer_set(old, new, key, params, image, limit, refused),
        limit <= usize::MAX,
    ensures
        refused is None <==> {
            &&& old.has_room(key)
            &&& params.image_width > 0
            &&& params.image_height > 0
            &&& image matches Ok(bytes) && {
                &&& 0 < bytes.len() <= limit
                &&& length_is_right(
                    params.format,
                    params.image_width,
                    params.image_height,
                    bytes.len(),
                )
                &&& old.spec_can_store_inline(key, bytes.len())
            }
            &&& old.image_id_for(key) is Some
        },
{
    law_image_lengths(params.format, params.image_width, params.image_height);
}

/// A layer that is not set is answered with what stands in its way: the first of these that does.
pub proof fn law_refused_layers_say_why(
    old: PaneGraphics,
    new: PaneGraphics,
    key: Key,
    params: SetParams,
    image: Result<Seq<u8>, Refusal>,
    limit: nat,
    refused: Option<Refusal>,
)
    requires
        layer_set(old, new, key, params, image, limit, refused),
    ensures
        ({
            let sized = params.image_width > 0 && params.image_height > 0;
            let addressable = image_len(params.format, params.image_width, params.image_height) is Ok;
            let admitted = old.has_room(key) && sized && addressable;
            &&& !old.has_room(key) ==> refused == Some(
                Refusal {
                    code: "layer_limit"@,
                    message: "pane graphics layer limit reached"@,
                },
            )
            &&& old.has_room(key) && !sized ==> refused == Some(
                Refusal {
                    code: "invalid_image"@,
                    message: "image_width and image_height must be greater than zero"@,
                },
            )
            &&& old.has_room(key) && sized && !addressable ==> refused == Some(
                Refusal { code: "invalid_image"@, message: "image dimensions are too large"@ },
            )
            &&& admitted ==> (image matches Err(e) ==> refused == Some(e))
            &&& admitted ==> (image matches Ok(bytes) ==> {
                let right = length_is_right(
                    params.format,
                    params.image_width,
                    params.image_height,
                    bytes.len(),
                );
                let fits = old.spec_can_store_inline(key, bytes.len());
                &&& bytes.len() == 0 ==> refused == Some(
                    Refusal { code: "invalid_image"@, message: "image data must not be empty"@ },
                )
                &&& bytes.len() > 0 && bytes.len() > limit ==> refused == Some(
                    Refusal { code: "image_too_large"@, message: "image data is too large"@ },
                )
                &&& 0 < bytes.len() <= limit && !right ==> refused == Some(
                    Refusal {
                        code: "invalid_image"@,
                        message: "image data does not match the frame contract"@,
                    },
                )
                &&& 0 < bytes.len() <= limit && right && !fits ==> refused == Some(
                    Refusal {
                        code: "graphics_budget_exceeded"@,
                        message: "pane graphics inline memory limit reached"@,
                    },
                )
                &&& 0 < bytes.len() <= limit && right && fits && old.image_id_for(key) is None
                    ==> refused == Some(
                    Refusal {
                        code: "layer_limit"@,
                        message: "pane graphics image ids are exhausted"@,
                    },
                )
            })
        }),
{
    law_image_lengths(params.format, params.image_width, params.image_height);
}

/// A request of its own on a layer that a client has let go of acts on a free layer: what it sets
/// belongs to no stream.
pub proof fn law_abandoned_layers_are_free(
    old: PaneGraphics,
    mid: PaneGraphics,
    new: PaneGraphics,
    key: Key,
    params: SetParams,
)
    requires
        old.wf(),
        static_set(old, mid, new, key, params, None),
    ensures
        new.at(key) matches Some(slot) && slot.owner is None && slot.layer is Some,
{
    law_reclaiming_keeps_the_store_valid(old, mid, key);
    law_only_abandoned_layers_are_reclaimed(old, mid, key);
    let image = crate::pane_graphics::carried_image(params)->Ok_0;
    let slot = slot_with_layer(
        mid,
        key,
        crate::pane_graphics::inline_layer(
            params.format,
            params.image_width,
            params.image_height,
            image,
            params.placement,
            params.z_index,
        ),
    );
    law_put_changes_one_layer(mid, new, slot, key);
}

/// Clearing a layer that no stream holds leaves none there, succeeds whether or not there was one,
/// and touches no other.
pub proof fn law_cleared_layers_are_gone(
    old: PaneGraphics,
    mid: PaneGraphics,
    new: PaneGraphics,
    key: Key,
    other: Key,
    refused: Option<Refusal>,
)
    requires
        old.wf(),
        static_clear(old, mid, new, key, refused),
    ensures
        ({
            let held = old.at(key) matches Some(slot) && slot.owner is Some && (
            slot.stream matches Some(token) && token.live);
            &&& refused is Some <==> held
            &&& refused is None ==> new.at(key) is None
            &&& other != key ==> new.at(other) == old.at(other)
        }),
{
    law_reclaiming_keeps_the_store_valid(old, mid, key);
    law_only_abandoned_layers_are_reclaimed(old, mid, key);
    lemma_first_where(old.slots@, |s: Slot| s.key() == key);
    if mid != old {
        law_remove_changes_one_layer(old, mid, key, key);
        law_remove_changes_one_layer(old, mid, key, other);
    }
    if mid.holds(key) && new != mid {
        law_remove_changes_one_layer(mid, new, key, key);
        law_remove_changes_one_layer(mid, new, key, other);
    }
}

// ---------------------------------------------------------------------------------------------
// Streams
// ---------------------------------------------------------------------------------------------

/// A stream is opened where the feature is on, by a client that holds it open and says who it is,
/// on a layer that can be one.
pub proof fn law_streams_are_opened_by_live_owners(session: Session, open: StreamOpenParams)
    ensures
        ({
            let key = open_key(session, open);
            let own = key_of(session, open.params.pane_id@, opt_view(open.params.layer_id));
            &&& key is Ok <==> session.graphics_enabled && open.active.live && open.params.owner@.len()
                > 0 && own is Ok
            &&& key is Ok ==> key == own
            &&& !session.graphics_enabled ==> (key matches Err(e) && e.code == "feature_disabled"@)
            &&& session.graphics_enabled && !open.active.live ==> (key matches Err(e) && e.code
                == "stream_closed"@ && e.message == "pane graphics stream is not active"@)
            &&& session.graphics_enabled && open.active.live && open.params.owner@.len() == 0 ==> (
            key matches Err(e) && e.code == "invalid_stream"@ && e.message
                == "pane graphics stream owner is required"@)
        }),
{
}

/// A stream gets a layer that no live stream holds, where there is room and an image id; it then
/// goes by the stream's owner.
pub proof fn law_streams_get_free_layers(
    old: PaneGraphics,
    mid: PaneGraphics,
    new: PaneGraphics,
    key: Key,
    open: StreamOpenParams,
    refused: Option<Refusal>,
)
    requires
        old.wf(),
        stream_opened(old, mid, new, key, open, refused),
    ensures
        ({
            let held = old.at(key) matches Some(slot) && slot.owner is Some && (
            slot.stream matches Some(token) && token.live);
            &&& refused is None <==> !held && mid.has_room(key) && mid.image_id_for(key) is Some
            &&& held ==> (refused matches Some(e) && e.code == "stream_conflict"@)
            &&& !held && refused is Some ==> (refused matches Some(e) && e.code == "layer_limit"@)
            &&& refused is None ==> (new.at(key) matches Some(slot) && slot.owner == Some(
                open.params.owner@,
            ) && slot.stream == Some(open.active) && slot.layer is None)
        }),
{
    law_reclaiming_keeps_the_store_valid(old, mid, key);
    law_only_abandoned_layers_are_reclaimed(old, mid, key);
    if refused is None {
        let slot = SlotView {
            key,
            image_id: mid.image_id_for(key)->Some_0,
            layer: None,
            owner: Some(open.params.owner@),
            stream: Some(open.active),
            direct_gate: None,
        };
        law_put_changes_one_layer(mid, new, slot, key);
    }
}

/// A frame is refused where nobody streams to its layer, where somebody else does, and where the
/// stream has ended; each is said.
pub proof fn law_refused_frames_say_why(slot: Option<SlotView>, owner: Seq<char>)
    ensures
        slot is None ==> (frame_refusal(slot, owner) matches Some(e) && e.code == "stream_closed"@),
        slot matches Some(s) ==> {
            let live = s.stream matches Some(token) && token.live;
            let refused = frame_refusal(slot, owner);
            &&& refused is None <==> s.owner == Some(owner) && live
            &&& s.owner != Some(owner) ==> (refused matches Some(e) && e.code == "stream_conflict"@)
            &&& s.owner == Some(owner) && !live ==> (refused matches Some(e) && e.code
                == "stream_closed"@)
            &&& streams_as(slot, owner) <==> s.owner == Some(owner) && live
        },
{
}

/// A frame in a file is taken exactly from the stream that holds the layer, as rgba or bgra of some
/// size that is not too large. It is drawn straight from the file where the host can do so, the
/// layer is the primary one and the frame is rgba; then it may be larger.
pub proof fn law_file_frames_are_planned(
    store: PaneGraphics,
    session: Session,
    params: DirectParams,
    available: bool,
)
    ensures
        match enabled_key_of(session, params.pane_id@, opt_view(params.layer_id)) {
            Err(e) => direct_plan(store, session, params, available) == Err::<
                (Key, bool, nat),
                Refusal,
            >(e),
            Ok(key) => {
                let plan = direct_plan(store, session, params, available);
                let straight = available && key.1 == "primary"@ && params.format == Format::Rgba;
                let len = params.image_width * params.image_height * 4;
                let max: int = if straight {
                    67_108_864
                } else {
                    16_777_216
                };
                let streaming = store.at(key) matches Some(slot) && slot.owner == Some(
                    params.owner@,
                ) && (slot.stream matches Some(token) && token.live);
                let sized = params.image_width > 0 && params.image_height > 0;
                let colored = params.format == Format::Rgba || params.format == Format::Bgra;
                &&& plan is Ok <==> streaming && sized && colored && len <= max
                &&& plan matches Ok((k, direct, n)) ==> k == key && direct == straight && n == len
                &&& !streaming ==> (plan matches Err(e) && e.code == "stream_closed"@)
                &&& streaming && !(sized && colored && len <= max) ==> (plan matches Err(e)
                    && e.code == "invalid_image"@)
            },
        },
{
    assert(params.image_width * params.image_height >= 0) by (nonlinear_arith)
        requires
            params.image_width >= 0,
            params.image_height >= 0,
    ;
}

/// A planned frame is taken when its file could be leased and, where it is copied, there is memory
/// for it and the copy is as long as planned.
pub proof fn law_file_frames_are_taken_when_their_file_is_there(
    store: PaneGraphics,
    key: Key,
    direct: bool,
    len: nat,
    file: FrameFile,
)
    ensures
        ({
            let refused = frame_file_refusal(store, key, direct, len, file);
            let fits = store.spec_can_store_inline(key, len);
            &&& refused is None <==> file.lease is Ok && (direct || (fits && (
            file.copy matches Ok(bytes) && bytes@.len() == len)))
            &&& file.lease matches Err(problem) ==> (refused matches Some(e) && e.code
                == "invalid_frame_file"@ && e.message == problem@)
            &&& file.lease is Ok && !direct && !fits ==> (refused matches Some(e) && e.code
                == "graphics_budget_exceeded"@)
            &&& file.lease is Ok && !direct && fits && refused is Some ==> (refused matches Some(e)
                && e.code == "invalid_frame_file"@)
        }),
{
}

/// A frame taken from a file reads back as it was sent, leased or copied: its size, its place and
/// its height in the stack, its pixels as rgba; and the layer stays its stream's, under its image.
pub proof fn law_file_frames_read_back(
    old: PaneGraphics,
    new: PaneGraphics,
    key: Key,
    direct: bool,
    params: DirectParams,
    file: FrameFile,
    other: Key,
)
    requires
        old.wf(),
        file.lease is Ok,
        !direct ==> file.copy is Ok,
        direct ==> params.format == Format::Rgba,
        params.format == Format::Rgba || params.format == Format::Bgra,
        old.put(new, slot_with_layer(old, key, frame_layer(params, direct, file))),
    ensures
        new.at(key) matches Some(slot) && slot.layer matches Some(layer) && {
            &&& layer.image_width == params.image_width
            &&& layer.image_height == params.image_height
            &&& layer.placement == params.placement
            &&& layer.z_index == params.z_index
            &&& layer.format == Format::Rgba
            &&& direct ==> (file.lease matches Ok(lease) && layer.data == DataView::Direct(lease))
            &&& !direct && params.format == Format::Rgba ==> (file.copy matches Ok(bytes)
                && layer.data == DataView::Inline(bytes@))
            &&& !direct && params.format == Format::Bgra ==> (file.copy matches Ok(bytes)
                && layer.data == DataView::Inline(channels_swapped(bytes@)))
            &&& slot.direct_gate is None
            &&& old.at(key) matches Some(before) ==> slot.owner == before.owner && slot.stream
                == before.stream && slot.image_id == before.image_id
        },
        other != key ==> new.at(other) == old.at(other),
{
    let slot = slot_with_layer(old, key, frame_layer(params, direct, file));
    law_put_changes_one_layer(old, new, slot, key);
    law_put_changes_one_layer(old, new, slot, other);
}

/// A pane is on screen when its workspace is the active one, it is in that workspace's active tab,
/// and no other pane of the tab is zoomed.
pub proof fn law_panes_on_screen(session: Session, ws: int, pane: u64)
    requires
        0 <= ws < session.workspaces@.len(),
    ensures
        pane_on_screen(session, ws, pane) <==> {
            let w = session.workspaces@[ws];
            &&& session.active matches Some(a) && a == ws
            &&& w.active_tab < w.tabs@.len()
            &&& w.tabs@[w.active_tab as int].zoomed ==> w.tabs@[w.active_tab as int].focused == pane
            &&& !w.tabs@[w.active_tab as int].zoomed ==> exists|i: int|
                0 <= i < w.tabs@[w.active_tab as int].panes@.len() && (
                #[trigger] w.tabs@[w.active_tab as int].panes@[i]).id == pane
        },
{
    broadcast use lemma_first_where;

}

} // verus!
