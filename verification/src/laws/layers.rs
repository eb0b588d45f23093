//! Laws on graphics requests as a whole: what is answered, and what the layers are afterwards.

use vstd::prelude::*;
use vstd::utf8::*;
use crate::graphics_store::{
    dropped_streams, law_put_changes_one_layer, law_reclaiming_keeps_the_store_valid,
    law_remove_changes_one_layer, streams_of, DataView, Format, Key, LayerData, PaneGraphics, Slot,
    SlotView,
};
use crate::laws::session::lemma_filtered;
use crate::laws::graphics::law_only_abandoned_layers_are_reclaimed;
use crate::pane_graphics::{
    base64_decoded, clear_outcome, decode_outcome, direct_plan, enabled_key_of, frame_file_refusal,
    frame_layer, info_outcome, inline_layer, key_of, open_key, open_outcome, pane_on_screen,
    public_image, set_outcome, slot_with_layer, static_clear, static_set, stream_close_outcome,
    stream_direct_outcome, stream_opened, stream_set_outcome, ClearParams, DirectParams, FrameAck,
    FrameFile, GraphicsInfo, HostGraphics, SetParams, StreamOpenParams, StreamParams,
};
use crate::response::{Refusal, Response};
use crate::session::{next_revision, workspace_of_pane, Session};
use crate::text::{byte_len, opt_view};

verus! {

/// What a slot is seen as is what it holds.
pub proof fn law_slots_are_seen_as_they_are(slot: Slot)
    ensures
        slot@.key.0 == slot.pane,
        slot@.key.1 == slot.layer_id@,
        slot@.image_id == slot.host_image_id,
        slot@.stream == slot.stream,
        slot@.direct_gate == slot.direct_gate,
        slot.stream_owner is None ==> slot@.owner is None,
        slot.stream_owner matches Some(owner) ==> slot@.owner == Some(owner@),
        slot.layer is None ==> slot@.layer is None,
        slot.layer matches Some(own) ==> (slot@.layer matches Some(seen) && {
            &&& seen.format == own.format
            &&& seen.image_width == own.image_width
            &&& seen.image_height == own.image_height
            &&& seen.placement == own.placement
            &&& seen.z_index == own.z_index
            &&& own.data matches LayerData::Inline(bytes) ==> seen.data == DataView::Inline(bytes@)
            &&& own.data matches LayerData::Direct(lease) ==> seen.data == DataView::Direct(lease)
        }),
{
}

/// A layer is held by a stream that its client has not let go of.
pub open spec fn is_held(store: PaneGraphics, key: Key) -> bool {
    store.at(key) matches Some(slot) && slot.owner is Some && (slot.stream matches Some(token)
        && token.live)
}

proof fn lemma_after_reclaiming(old: PaneGraphics, mid: PaneGraphics, key: Key, other: Key)
    requires
        old.wf(),
        old.reclaimed(mid, key),
    ensures
        mid.wf(),
        is_held(old, key) ==> mid == old,
        mid.at(key) matches Some(slot) && slot.owner is Some <==> is_held(old, key),
        other != key ==> mid.at(other) == old.at(other),
{
    law_reclaiming_keeps_the_store_valid(old, mid, key);
    law_only_abandoned_layers_are_reclaimed(old, mid, key);
    if mid != old {
        law_remove_changes_one_layer(old, mid, key, key);
        law_remove_changes_one_layer(old, mid, key, other);
    }
}

/// A request that leads to no layer changes nothing. One on a layer that a stream holds is refused and
/// changes nothing. One that is granted leaves the layer with the image it brought, at its place and
/// its height in the stack, and held by no stream; no other layer changes, whatever comes of it.
pub proof fn law_requests_set_their_layer(
    session: Session,
    old: PaneGraphics,
    new: PaneGraphics,
    params: SetParams,
    refused: Option<Refusal>,
    other: Key,
)
    requires
        old.wf(),
        set_outcome(session, old, new, params, refused),
    ensures
        enabled_key_of(session, params.pane_id@, opt_view(params.layer_id)) matches Err(why) ==> new
            == old && refused == Some(why),
        enabled_key_of(session, params.pane_id@, opt_view(params.layer_id)) matches Ok(key) ==> {
            &&& is_held(old, key) ==> new == old && refused == Some(
                Refusal {
                    code: "stream_conflict"@,
                    message: "pane graphics layer has an active stream"@,
                },
            )
            &&& refused is None ==> (new.at(key) matches Some(slot) && slot.layer matches Some(
                layer,
            ) && slot.owner is None && (old.at(key) is None ==> slot.stream is None)
                && slot.direct_gate is None
                && layer.placement == params.placement
                && layer.z_index == params.z_index && layer.image_width == params.image_width
                && layer.image_height == params.image_height && (params.format != Format::Bgra
                ==> layer.format == params.format && (params.data matches Some(bytes) ==> layer.data
                == DataView::Inline(bytes@))) && (params.format == Format::Bgra ==> layer.format
                == Format::Rgba))
            &&& other != key ==> new.at(other) == old.at(other)
        },
{
    if let Ok(key) = enabled_key_of(session, params.pane_id@, opt_view(params.layer_id)) {
        let mid = choose|mid: PaneGraphics| #[trigger]
            static_set(old, mid, new, key, params, refused);
        lemma_after_reclaiming(old, mid, key, other);
        if refused is None {
            let image = crate::pane_graphics::carried_image(params)->Ok_0;
            let slot = slot_with_layer(
                mid,
                key,
                inline_layer(
                    params.format,
                    params.image_width,
                    params.image_height,
                    image,
                    params.placement,
                    params.z_index,
                ),
            );
            law_put_changes_one_layer(mid, new, slot, key);
            law_put_changes_one_layer(mid, new, slot, other);
        }
    }
}

/// A request to clear leaves no layer where no stream holds it, and is refused where one does; no
/// other layer changes.
pub proof fn law_requests_clear_their_layer(
    session: Session,
    old: PaneGraphics,
    new: PaneGraphics,
    params: ClearParams,
    refused: Option<Refusal>,
    other: Key,
)
    requires
        old.wf(),
        clear_outcome(session, old, new, params, refused),
    ensures
        enabled_key_of(session, params.pane_id@, opt_view(params.layer_id)) matches Err(why) ==> new
            == old && refused == Some(why),
        enabled_key_of(session, params.pane_id@, opt_view(params.layer_id)) matches Ok(key) ==> {
            &&& is_held(old, key) ==> new == old && refused == Some(
                Refusal {
                    code: "stream_conflict"@,
                    message: "pane graphics layer has an active stream"@,
                },
            )
            &&& !is_held(old, key) ==> refused is None && new.at(key) is None
            &&& other != key ==> new.at(other) == old.at(other)
        },
{
    if let Ok(key) = enabled_key_of(session, params.pane_id@, opt_view(params.layer_id)) {
        let mid = choose|mid: PaneGraphics| #[trigger] static_clear(old, mid, new, key, refused);
        lemma_after_reclaiming(old, mid, key, other);
        if !is_held(old, key) && mid.holds(key) {
            law_remove_changes_one_layer(mid, new, key, key);
            law_remove_changes_one_layer(mid, new, key, other);
        }
    }
}

/// A stream that is opened holds its layer under its owner's name, and the layer shows nothing yet. A
/// layer that another stream holds is not given away; no other layer changes.
pub proof fn law_requests_open_their_stream(
    session: Session,
    old: PaneGraphics,
    new: PaneGraphics,
    open: StreamOpenParams,
    refused: Option<Refusal>,
    other: Key,
)
    requires
        old.wf(),
        open_outcome(session, old, new, open, refused),
    ensures
        open_key(session, open) matches Err(why) ==> new == old && refused == Some(why),
        open_key(session, open) matches Ok(key) ==> {
            &&& is_held(old, key) ==> new == old && refused == Some(
                Refusal {
                    code: "stream_conflict"@,
                    message: "pane graphics layer has an active stream"@,
                },
            )
            &&& refused is None ==> is_held(new, key) && (new.at(key) matches Some(slot)
                && slot.owner == Some(open.params.owner@) && slot.stream == Some(open.active)
                && slot.layer is None && slot.direct_gate is None)
            &&& other != key ==> new.at(other) == old.at(other)
        },
{
    if let Ok(key) = open_key(session, open) {
        let mid = choose|mid: PaneGraphics| #[trigger]
            stream_opened(old, mid, new, key, open, refused);
        lemma_after_reclaiming(old, mid, key, other);
        if refused is None {
            let slot = SlotView {
                key,
                image_id: mid.image_id_for(key)->Some_0,
                layer: None,
                owner: Some(open.params.owner@),
                stream: Some(open.active),
                direct_gate: None,
            };
            law_put_changes_one_layer(mid, new, slot, key);
            law_put_changes_one_layer(mid, new, slot, other);
        }
    }
}

/// A frame is taken from the stream that holds the layer and from nobody else. It is then what the
/// layer shows, and the layer stays the stream's; no other layer changes, and none where the frame is
/// refused.
pub proof fn law_frames_change_their_layer(
    old: PaneGraphics,
    new: PaneGraphics,
    session: Session,
    params: SetParams,
    refused: Option<Refusal>,
    other: Key,
)
    requires
        old.wf(),
        stream_set_outcome(old, new, session, params, refused),
    ensures
        refused is Some ==> new == old,
        enabled_key_of(session, params.pane_id@, opt_view(params.layer_id)) matches Err(why)
            ==> refused == Some(why),
        enabled_key_of(session, params.pane_id@, opt_view(params.layer_id)) matches Ok(key) ==> {
            &&& refused is None ==> (old.at(key) matches Some(before) && before.owner == Some(
                params.owner@,
            ) && is_held(old, key) && (new.at(key) matches Some(slot) && slot.layer matches Some(
                layer,
            ) && slot.owner == before.owner && slot.stream == before.stream && slot.image_id
                == before.image_id && layer.placement == params.placement
                && layer.z_index == params.z_index && layer.image_width == params.image_width
                && layer.image_height == params.image_height && (params.format == Format::Rgba ==> (
            params.data matches Some(bytes) ==> layer.data == DataView::Inline(bytes@)))))
            &&& other != key ==> new.at(other) == old.at(other)
            &&& old.at(key) is None ==> (refused matches Some(e) && e.code == "stream_closed"@
                && e.message == "pane graphics stream is not active"@)
            &&& old.at(key) matches Some(before) ==> (before.owner != Some(params.owner@) ==> (
            refused matches Some(e) && e.code == "stream_conflict"@ && e.message
                == "pane graphics stream owner does not match active stream"@))
        },
{
    if let Ok(key) = enabled_key_of(session, params.pane_id@, opt_view(params.layer_id)) {
        if refused is None {
            let image = crate::pane_graphics::carried_image(params)->Ok_0;
            let slot = slot_with_layer(
                old,
                key,
                inline_layer(
                    params.format,
                    params.image_width,
                    params.image_height,
                    image,
                    params.placement,
                    params.z_index,
                ),
            );
            law_put_changes_one_layer(old, new, slot, key);
            law_put_changes_one_layer(old, new, slot, other);
        }
    }
}

/// Closing a stream takes its layer away, where the stream is its owner's; nobody else's request does.
/// It succeeds wherever the pane is there, and no other layer changes.
pub proof fn law_streams_are_closed_by_their_owner(
    old: PaneGraphics,
    new: PaneGraphics,
    session: Session,
    params: StreamParams,
    refused: Option<Refusal>,
    other: Key,
)
    requires
        old.wf(),
        stream_close_outcome(old, new, session, params, refused),
    ensures
        session.spec_parse_pane_id(params.pane_id@) is Some ==> refused is None,
        session.spec_parse_pane_id(params.pane_id@) is None ==> new == old && (refused matches Some(e)
            && e.code == "pane_not_found"@ && e.message == "pane "@ + params.pane_id@
            + " not found"@),
        key_of(session, params.pane_id@, opt_view(params.layer_id)) is Err ==> new == old,
        key_of(session, params.pane_id@, opt_view(params.layer_id)) matches Ok(key) ==> {
            let own = old.at(key) matches Some(slot) && slot.owner == Some(params.owner@);
            &&& own ==> new.at(key) is None
            &&& !own ==> new == old
            &&& other != key ==> new.at(other) == old.at(other)
        },
{
    if let Ok(key) = key_of(session, params.pane_id@, opt_view(params.layer_id)) {
        if old.at(key) matches Some(slot) && slot.owner == Some(params.owner@) {
            law_remove_changes_one_layer(old, new, key, key);
            law_remove_changes_one_layer(old, new, key, other);
        }
    }
}

/// A frame in a file that is planned, and whose file is there, is what its layer shows: its size, its
/// place, its height in the stack, and the lease where it is drawn from the file. It is acknowledged
/// by its own numbers. Any other is refused, and nothing changes; no other layer ever does.
pub proof fn law_file_frames_change_their_layer(
    old: PaneGraphics,
    new: PaneGraphics,
    session: Session,
    params: DirectParams,
    available: bool,
    file: FrameFile,
    r: Response<FrameAck>,
    other: Key,
)
    requires
        old.wf(),
        stream_direct_outcome(old, new, session, params, available, file, r),
    ensures
        r.body is Err ==> new == old,
        direct_plan(old, session, params, available) matches Err(why) ==> r.refusal() == Some(why),
        direct_plan(old, session, params, available) matches Ok((key, direct, len)) ==> {
            &&& r.refusal() == frame_file_refusal(old, key, direct, len, file)
            &&& r.body matches Ok(ack) ==> ack.sequence == params.sequence && ack.revision
                == params.revision && (new.at(key) matches Some(slot) && slot.layer matches Some(
                layer,
            ) && layer.image_width == params.image_width && layer.image_height
                == params.image_height && layer.placement == params.placement && layer.z_index
                == params.z_index && slot.direct_gate is None && (direct ==> layer.data
                == DataView::Direct(file.lease->Ok_0)) && (!direct ==> layer.data is Inline))
            &&& other != key ==> new.at(other) == old.at(other)
        },
{
    if let Ok((key, direct, len)) = direct_plan(old, session, params, available) {
        if r.body is Ok {
            let slot = slot_with_layer(old, key, frame_layer(params, direct, file));
            law_put_changes_one_layer(old, new, slot, key);
            law_put_changes_one_layer(old, new, slot, other);
        }
    }
}

/// A request about graphics is answered where the feature is on, the pane is there and the host says
/// how large its cells are; and otherwise with the first of these that fails. The answer has the
/// host's cells, says whether the pane is on screen, and how large frames and how many layers may be.
/// Frames in files are offered exactly where the host has a directory for them.
pub proof fn law_what_is_said_of_graphics(
    session: Session,
    host: HostGraphics,
    pane_id: Seq<char>,
    r: Response<GraphicsInfo>,
)
    requires
        info_outcome(session, host, pane_id, r),
    ensures
        r.body is Ok <==> session.graphics_enabled && session.spec_parse_pane_id(pane_id) is Some
            && host.cell_width_px > 0 && host.cell_height_px > 0,
        !session.graphics_enabled ==> (r.body matches Err(e) && e.code@ == "feature_disabled"@),
        session.graphics_enabled && session.spec_parse_pane_id(pane_id) is None ==> (
        r.body matches Err(e) && e.code@ == "pane_not_found"@),
        session.graphics_enabled && session.spec_parse_pane_id(pane_id) is Some && (
        host.cell_width_px == 0 || host.cell_height_px == 0) ==> (r.body matches Err(e) && e.code@
            == "cell_size_unavailable"@ && e.message@ == "host cell size is unavailable"@),
        r.body matches Ok(info) ==> {
            let found = session.spec_parse_pane_id(pane_id)->0;
            &&& info.cell_width_px == host.cell_width_px
            &&& info.cell_height_px == host.cell_height_px
            &&& info.pane_visible == pane_on_screen(session, found.0, found.1)
            &&& info.pixel_mouse == host.pixel_mouse
            &&& info.max_layers_per_pane == 16
            &&& info.file_frame_damage
            &&& info.file_frame_directory == host.file_frame_directory
            &&& host.file_frame_directory is Some ==> info.file_frame_formats@.len() == 2
                && info.file_frame_formats@[0] == Format::Rgba && info.file_frame_formats@[1]
                == Format::Bgra && info.file_frame_max_bytes == Some(16_777_216usize)
                && info.file_frame_direct_max_bytes == Some(67_108_864usize) && (
            info.file_frame_transport matches Some(t) && t@ == "direct-kitty"@)
            &&& host.file_frame_directory is None ==> info.file_frame_formats@.len() == 0
                && info.file_frame_max_bytes is None && info.file_frame_direct_max_bytes is None
                && info.file_frame_transport is None
        },
{
}

/// Text that is too long to be an image of half a mebibyte is not decoded; of any other what decoding
/// gives is handed on, into a buffer of three bytes for four characters, but no more than an image may
/// have.
pub proof fn law_texts_are_decoded_when_they_can_fit(encoded: Seq<char>, room: nat)
    requires
        room == if ((byte_len(encoded) + 3) / 4) * 3 <= 524_288 {
            (((byte_len(encoded) + 3) / 4) * 3) as nat
        } else {
            524_288nat
        },
    ensures
        byte_len(encoded) > 699_052 ==> public_image(encoded) == Err::<Seq<u8>, Refusal>(
            Refusal { code: "image_too_large"@, message: "image data is too large"@ },
        ),
        byte_len(encoded) <= 699_052 ==> {
            let decoded = base64_decoded(encode_utf8(encoded), room);
            &&& decoded matches Ok(bytes) ==> public_image(encoded) == Ok::<Seq<u8>, Refusal>(bytes)
            &&& decoded is Err ==> public_image(encoded) == decode_outcome(decoded)
        },
{
}

/// Letting slots go counts as one change, however many go, and as none where all stay. The streams of
/// those that go are retired, after those that were already; image ids are not given out again.
pub proof fn law_slots_that_go_are_counted_once(
    old: PaneGraphics,
    new: PaneGraphics,
    p: spec_fn(Slot) -> bool,
    slot: Slot,
)
    requires
        old.kept(new, p),
    ensures
        new.slots@.contains(slot) <==> old.slots@.contains(slot) && p(slot),
        new.slots@.len() < old.slots@.len() ==> new.revision == next_revision(old.revision),
        new.slots@.len() == old.slots@.len() ==> new.revision == old.revision,
        new.next_image_id == old.next_image_id,
        new.limits == old.limits,
        old.retired@.is_prefix_of(new.retired@),
        old.slots@.contains(slot) && !p(slot) ==> (slot.stream matches Some(token)
            ==> new.retired@.contains(token.id)),
{
    lemma_filtered(old.slots@, p, slot);
    old.slots@.lemma_filter_len(p);
    let was = old.retired@;
    let more = dropped_streams(old.slots@, p);
    assert(was =~= new.retired@.subrange(0, was.len() as int));
    if old.slots@.contains(slot) && !p(slot) {
        if let Some(token) = slot.stream {
            let q = |s: Slot| !p(s);
            lemma_filtered(old.slots@, q, slot);
            lemma_streams_of(old.slots@.filter(q), slot, token.id);
            let k = choose|k: int| 0 <= k < more.len() && more[k] == token.id;
            assert(new.retired@[was.len() + k] == token.id);
        }
    }
}

proof fn lemma_streams_of(slots: Seq<Slot>, slot: Slot, id: u64)
    requires
        slots.contains(slot),
        slot.stream matches Some(token) && token.id == id,
    ensures
        streams_of(slots).contains(id),
    decreases slots.len(),
{
    let k = choose|k: int| 0 <= k < slots.len() && slots[k] == slot;
    let head = slots.drop_last();
    let before = streams_of(head);
    let all = streams_of(slots);
    if k < head.len() {
        assert(head[k] == slot);
        lemma_streams_of(head, slot, id);
        let j = choose|j: int| 0 <= j < before.len() && before[j] == id;
        assert(all[j] == id);
    } else {
        assert(all[before.len() as int] == id);
    }
}

/// The panes that are gone take their slots with them, and so do streams that have ended; with the
/// feature off all slots go.
pub proof fn law_which_slots_stay(old: PaneGraphics, mid: PaneGraphics, new: PaneGraphics, session: Session, slot: Slot)
    requires
        old.kept_live(mid, session),
        mid.kept_streaming(new, session.graphics_enabled),
    ensures
        mid.slots@.contains(slot) <==> old.slots@.contains(slot) && workspace_of_pane(
            session.workspaces@,
            slot.pane,
        ) is Some,
        new.slots@.contains(slot) <==> mid.slots@.contains(slot) && session.graphics_enabled && !(
        slot.stream_owner is Some && !(slot.stream matches Some(token) && token.live)),
{
    lemma_filtered(
        old.slots@,
        |s: Slot| workspace_of_pane(session.workspaces@, s.pane) is Some,
        slot,
    );
    let enabled = session.graphics_enabled;
    lemma_filtered(mid.slots@, |s: Slot| enabled && !s.is_stale(), slot);
}

/// A slot that is put where none was is the last, and takes an image id that is not given out again;
/// one that is put in place of another leaves the number of slots, and the ids, as they were. Either
/// way the change is counted, and no stream is retired.
pub proof fn law_slots_are_put_in_place(old: PaneGraphics, new: PaneGraphics, slot: SlotView)
    requires
        old.wf(),
        old.put(new, slot),
    ensures
        old.at(slot.key) is Some ==> new.slots@.len() == old.slots@.len() && new.next_image_id
            == old.next_image_id,
        old.at(slot.key) is None ==> new.slots@.len() == old.slots@.len() + 1 && new.slots@.last()@
            == slot && new.slots@.drop_last() == old.slots@ && new.next_image_id
            == old.next_image_id + 1,
        new.at(slot.key) == Some(slot),
        new.revision == next_revision(old.revision),
        new.retired@ == old.retired@,
        new.limits == old.limits,
{
    law_put_changes_one_layer(old, new, slot, slot.key);
    if old.at(slot.key) is None {
        assert(new.slots@.drop_last() =~= old.slots@);
    }
}

} // verus!
