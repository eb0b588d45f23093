//! Requests that draw graphics over panes.

use base64::Engine;
use vstd::prelude::*;
use vstd::string::*;
use vstd::utf8::*;
use crate::graphics_store::{
    DataView, Format, Key, Layer, LayerData, LayerView, PaneGraphics, Placement, Slot, SlotView,
    StreamToken, MAX_LAYERS_PER_PANE,
};
use crate::response::{error, pane_missing, pane_not_found, refusal, ApiError, Refusal, Response};
use crate::search::lemma_first_where;
use crate::session::{find_pane, pane_at, Session};
use crate::text::{
    byte_len, chars_of, clone_opt_text, is_name_char, name_char, opt_view, same_text, text_byte_len,
};

verus! {

/// The layer a request means when it names none.
pub const PRIMARY_LAYER_ID: &'static str = "primary";

/// The largest image a static request may carry.
pub const SET_MAX_BYTES: usize = 512 * 1024;

/// The largest frame a stream may carry.
pub const STREAM_MAX_BYTES: usize = 16 * 1024 * 1024;

/// The largest frame that is drawn straight from a client's file.
pub const DIRECT_FILE_MAX_BYTES: usize = 64 * 1024 * 1024;

/// The length of the base64 text of an image of `SET_MAX_BYTES` bytes.
pub const MAX_ENCODED_BYTES: usize = 699_052;

pub const MAX_LAYER_ID_BYTES: usize = 64;

pub struct SetParams {
    pub pane_id: String,
    pub layer_id: Option<String>,
    pub z_index: i32,
    pub owner: String,
    pub format: Format,
    pub image_width: u32,
    pub image_height: u32,
    /// A frame that came over a stream, as raw bytes.
    pub data: Option<Vec<u8>>,
    pub data_base64: String,
    pub placement: Placement,
}

pub struct ClearParams {
    pub pane_id: String,
    pub layer_id: Option<String>,
}

pub struct StreamParams {
    pub pane_id: String,
    pub layer_id: Option<String>,
    pub z_index: i32,
    pub owner: String,
}

pub struct StreamOpenParams {
    pub params: StreamParams,
    pub active: StreamToken,
}

pub struct DirectParams {
    pub pane_id: String,
    pub layer_id: Option<String>,
    pub z_index: i32,
    pub owner: String,
    pub format: Format,
    pub image_width: u32,
    pub image_height: u32,
    pub path: String,
    pub sequence: u64,
    pub revision: u64,
    pub placement: Placement,
}

/// How a frame in a client's file is taken over.
#[derive(Clone, Copy, Debug, PartialEq, Eq, Structural)]
pub struct DirectPlan {
    /// The layer the frame is for, as a pane.
    pub pane: u64,
    /// Drawn straight from the file, not copied.
    pub direct: bool,
    pub expected_len: usize,
}

/// What came of the file work a plan asked for.
pub struct FrameFile {
    /// The lease on the file, or why there is none.
    pub lease: Result<u64, String>,
    /// The bytes of the file, or why they could not be read. Not looked at for a direct frame.
    pub copy: Result<Vec<u8>, String>,
}

#[derive(Clone, Copy, Debug, PartialEq, Eq, Structural)]
pub struct FrameAck {
    pub sequence: u64,
    pub revision: u64,
}

/// What the host terminal can do.
pub struct HostGraphics {
    pub cell_width_px: u32,
    pub cell_height_px: u32,
    /// Where clients put frame files, when frames can be drawn straight from files.
    pub file_frame_directory: Option<String>,
    pub pixel_mouse: bool,
}

#[derive(Debug)]
pub struct GraphicsInfo {
    pub cell_width_px: u32,
    pub cell_height_px: u32,
    pub pane_visible: bool,
    pub file_frame_directory: Option<String>,
    pub file_frame_formats: Vec<Format>,
    pub file_frame_max_bytes: Option<usize>,
    pub file_frame_direct_max_bytes: Option<usize>,
    pub file_frame_damage: bool,
    pub max_layers_per_pane: usize,
    pub pixel_mouse: bool,
    /// How frames reach the terminal straight from their files, where they do.
    pub file_frame_transport: Option<&'static str>,
}

// ---------------------------------------------------------------------------------------------
// What a request means
// ---------------------------------------------------------------------------------------------

pub open spec fn feature_disabled() -> Refusal {
    refusal("feature_disabled"@, "pane graphics require experimental.kitty_graphics"@)
}

pub open spec fn stream_closed() -> Refusal {
    refusal("stream_closed"@, "pane graphics stream is not active"@)
}

pub open spec fn stream_conflict() -> Refusal {
    refusal("stream_conflict"@, "pane graphics layer has an active stream"@)
}

pub open spec fn layer_limit() -> Refusal {
    refusal("layer_limit"@, "pane graphics layer limit reached"@)
}

pub open spec fn images_exhausted() -> Refusal {
    refusal("layer_limit"@, "pane graphics image ids are exhausted"@)
}

pub open spec fn zero_sized() -> Refusal {
    refusal("invalid_image"@, "image_width and image_height must be greater than zero"@)
}

pub open spec fn too_large() -> Refusal {
    refusal("image_too_large"@, "image data is too large"@)
}

pub open spec fn over_budget() -> Refusal {
    refusal("graphics_budget_exceeded"@, "pane graphics inline memory limit reached"@)
}

/// The layer a request names, or the primary one.
pub open spec fn layer_name(layer_id: Option<Seq<char>>) -> Seq<char> {
    match layer_id {
        Some(name) => name,
        None => "primary"@,
    }
}

pub open spec fn layer_problem(name: Seq<char>) -> Option<Seq<char>> {
    if name.len() == 0 || byte_len(name) > MAX_LAYER_ID_BYTES {
        Some("layer_id must contain between 1 and 64 characters"@)
    } else if exists|i: int| 0 <= i < name.len() && !is_name_char(#[trigger] name[i]) {
        Some("layer_id contains unsupported characters"@)
    } else {
        None
    }
}

/// The layer that a pane id and a layer id lead to.
pub open spec fn key_of(
    session: Session,
    pane_id: Seq<char>,
    layer_id: Option<Seq<char>>,
) -> Result<Key, Refusal> {
    match session.spec_parse_pane_id(pane_id) {
        None => Err(pane_missing(pane_id)),
        Some((_, pane)) => match layer_problem(layer_name(layer_id)) {
            Some(problem) => Err(refusal("invalid_layer_id"@, problem)),
            None => Ok((pane, layer_name(layer_id))),
        },
    }
}

/// As `key_of`, where the feature is on.
pub open spec fn enabled_key_of(
    session: Session,
    pane_id: Seq<char>,
    layer_id: Option<Seq<char>>,
) -> Result<Key, Refusal> {
    if !session.graphics_enabled {
        Err(feature_disabled())
    } else {
        key_of(session, pane_id, layer_id)
    }
}

pub open spec fn pixel_bytes(format: Format) -> Option<nat> {
    match format {
        Format::Png => None,
        Format::Rgb => Some(3),
        Format::Rgba => Some(4),
        Format::Bgra => Some(4),
    }
}

/// The length an image of this size must have: any for png, and an error where it is more than
/// can be addressed.
pub open spec fn image_len(format: Format, width: u32, height: u32) -> Result<Option<nat>, ()> {
    match pixel_bytes(format) {
        None => Ok(None),
        Some(bytes) => if width * height * bytes <= usize::MAX {
            Ok(Some((width * height * bytes) as nat))
        } else {
            Err(())
        },
    }
}

/// The bytes with the first and third of every four exchanged; what is left over at the end stays.
pub open spec fn channels_swapped(data: Seq<u8>) -> Seq<u8> {
    Seq::new(
        data.len(),
        |i: int|
            if i >= data.len() - data.len() % 4 {
                data[i]
            } else if i % 4 == 0 {
                data[i + 2]
            } else if i % 4 == 2 {
                data[i - 2]
            } else {
                data[i]
            },
    )
}

/// The form in which an image is kept: bgra becomes rgba.
pub open spec fn canonical(format: Format, data: Seq<u8>) -> (Format, Seq<u8>) {
    if format == Format::Bgra {
        (Format::Rgba, channels_swapped(data))
    } else {
        (format, data)
    }
}

/// The character of base64's standard alphabet (RFC 4648) for six bits.
pub open spec fn base64_symbol(bits: int) -> u8 {
    if bits < 26 {
        (65 + bits) as u8
    } else if bits < 52 {
        (71 + bits) as u8
    } else if bits < 62 {
        (bits - 4) as u8
    } else if bits == 62 {
        43
    } else {
        47
    }
}

/// The base64 text of some bytes: four characters for every three, padded with `=` at the end.
pub open spec fn base64_text(bytes: Seq<u8>) -> Seq<u8>
    decreases bytes.len(),
{
    let n = bytes.len();
    if n == 0 {
        Seq::empty()
    } else {
        let a = bytes[0] as int;
        let b = if n > 1 { bytes[1] as int } else { 0 };
        let c = if n > 2 { bytes[2] as int } else { 0 };
        let quad = seq![
            base64_symbol(a / 4),
            base64_symbol(a % 4 * 16 + b / 16),
            if n > 1 { base64_symbol(b % 16 * 4 + c / 64) } else { 61 },
            if n > 2 { base64_symbol(c % 64) } else { 61 },
        ];
        if n <= 3 {
            quad
        } else {
            quad + base64_text(bytes.skip(3))
        }
    }
}

proof fn lemma_base64_text_len(bytes: Seq<u8>)
    ensures
        base64_text(bytes).len() == (bytes.len() + 2) / 3 * 4,
    decreases bytes.len(),
{
    if bytes.len() > 3 {
        lemma_base64_text_len(bytes.skip(3));
    }
}

/// What decoding base64 text (standard alphabet, padding required) into a buffer of `room` bytes
/// gives: the decoded bytes, or an error that says whether the room was too small.
pub uninterp spec fn base64_decoded(encoded: Seq<u8>, room: nat) -> Result<Seq<u8>, bool>;

/// The buffer for decoding a text of `encoded` bytes.
pub open spec fn decode_room(encoded: nat) -> nat {
    let estimate = ((encoded + 3) / 4) * 3;
    if estimate < SET_MAX_BYTES {
        estimate as nat
    } else {
        SET_MAX_BYTES as nat
    }
}

/// The reply to what decoding gave.
pub open spec fn decode_outcome(decoded: Result<Seq<u8>, bool>) -> Result<Seq<u8>, Refusal> {
    match decoded {
        Ok(bytes) => Ok(bytes),
        Err(true) => Err(too_large()),
        Err(false) => Err(refusal("invalid_image"@, "data_base64 is not valid base64"@)),
    }
}

/// The image a static request carries.
pub open spec fn public_image(encoded: Seq<char>) -> Result<Seq<u8>, Refusal> {
    if byte_len(encoded) > MAX_ENCODED_BYTES {
        Err(too_large())
    } else {
        decode_outcome(base64_decoded(encode_utf8(encoded), decode_room(byte_len(encoded))))
    }
}

/// Why a layer of this size and format cannot be set, whatever its pixels are.
pub open spec fn admission_refusal(
    store: PaneGraphics,
    key: Key,
    format: Format,
    width: u32,
    height: u32,
) -> Option<Refusal> {
    if !store.has_room(key) {
        Some(layer_limit())
    } else if width == 0 || height == 0 {
        Some(zero_sized())
    } else if image_len(format, width, height) is Err {
        Some(refusal("invalid_image"@, "image dimensions are too large"@))
    } else {
        None
    }
}

/// Why these pixels cannot be the layer.
pub open spec fn pixels_refusal(
    store: PaneGraphics,
    key: Key,
    format: Format,
    width: u32,
    height: u32,
    len: nat,
    limit: nat,
) -> Option<Refusal> {
    if len == 0 {
        Some(refusal("invalid_image"@, "image data must not be empty"@))
    } else if len > limit {
        Some(too_large())
    } else if image_len(format, width, height) matches Ok(Some(expected)) && expected != len {
        Some(refusal("invalid_image"@, "image data does not match the frame contract"@))
    } else if !store.spec_can_store_inline(key, len) {
        Some(over_budget())
    } else if store.image_id_for(key) is None {
        Some(images_exhausted())
    } else {
        None
    }
}

/// The layer that pixels make.
pub open spec fn inline_layer(
    format: Format,
    width: u32,
    height: u32,
    data: Seq<u8>,
    placement: Placement,
    z_index: i32,
) -> LayerView {
    let (format, data) = canonical(format, data);
    LayerView {
        format,
        image_width: width,
        image_height: height,
        data: DataView::Inline(data),
        placement,
        z_index,
    }
}

/// The slot of `key` with another layer: it keeps its image id and its stream, and what was being
/// drawn from a file is no longer waited for.
pub open spec fn slot_with_layer(store: PaneGraphics, key: Key, layer: LayerView) -> SlotView {
    SlotView {
        key,
        image_id: store.image_id_for(key)->Some_0,
        layer: Some(layer),
        owner: match store.at(key) {
            Some(slot) => slot.owner,
            None => None,
        },
        stream: match store.at(key) {
            Some(slot) => slot.stream,
            None => None,
        },
        direct_gate: None,
    }
}

/// The pixels a request brings: raw from a stream, else decoded from its text.
pub open spec fn carried_image(params: SetParams) -> Result<Seq<u8>, Refusal> {
    match params.data {
        Some(data) => Ok(data@),
        None => public_image(params.data_base64@),
    }
}

pub open spec fn carried_limit(params: SetParams) -> nat {
    if params.data is Some {
        STREAM_MAX_BYTES as nat
    } else {
        SET_MAX_BYTES as nat
    }
}

/// Why the pixels `image` cannot become the layer of `key`.
pub open spec fn image_refusal(
    store: PaneGraphics,
    key: Key,
    params: SetParams,
    image: Result<Seq<u8>, Refusal>,
    limit: nat,
) -> Option<Refusal> {
    match image {
        Err(refused) => Some(refused),
        Ok(bytes) => pixels_refusal(
            store,
            key,
            params.format,
            params.image_width,
            params.image_height,
            bytes.len(),
            limit,
        ),
    }
}

/// `new` is what setting the layer of `key` to `image` makes of `old`, and `refused` the reply.
pub open spec fn layer_set(
    old: PaneGraphics,
    new: PaneGraphics,
    key: Key,
    params: SetParams,
    image: Result<Seq<u8>, Refusal>,
    limit: nat,
    refused: Option<Refusal>,
) -> bool {
    let admission = admission_refusal(
        old,
        key,
        params.format,
        params.image_width,
        params.image_height,
    );
    &&& refused == match admission {
        Some(r) => Some(r),
        None => image_refusal(old, key, params, image, limit),
    }
    &&& if refused is Some {
        new == old
    } else {
        old.put(
            new,
            slot_with_layer(
                old,
                key,
                inline_layer(
                    params.format,
                    params.image_width,
                    params.image_height,
                    image->Ok_0,
                    params.placement,
                    params.z_index,
                ),
            ),
        )
    }
}

/// Setting a layer by a static request: a stream its client let go of is reclaimed first, a stream
/// that is held open refuses.
pub open spec fn static_set(
    old: PaneGraphics,
    mid: PaneGraphics,
    new: PaneGraphics,
    key: Key,
    params: SetParams,
    refused: Option<Refusal>,
) -> bool {
    &&& old.reclaimed(mid, key)
    &&& if mid.at(key) matches Some(slot) && slot.owner is Some {
        refused == Some(stream_conflict()) && new == mid
    } else {
        layer_set(mid, new, key, params, carried_image(params), carried_limit(params), refused)
    }
}

/// Clearing a layer: as setting one, but that the slot goes, if there is one.
pub open spec fn static_clear(
    old: PaneGraphics,
    mid: PaneGraphics,
    new: PaneGraphics,
    key: Key,
    refused: Option<Refusal>,
) -> bool {
    &&& old.reclaimed(mid, key)
    &&& if mid.at(key) matches Some(slot) && slot.owner is Some {
        refused == Some(stream_conflict()) && new == mid
    } else {
        refused is None && if mid.holds(key) {
            mid.removed(new, key)
        } else {
            new == mid
        }
    }
}

/// Opening a stream on a layer: the slot is claimed, and shows nothing until a frame comes.
pub open spec fn stream_opened(
    old: PaneGraphics,
    mid: PaneGraphics,
    new: PaneGraphics,
    key: Key,
    open: StreamOpenParams,
    refused: Option<Refusal>,
) -> bool {
    &&& old.reclaimed(mid, key)
    &&& refused == if mid.at(key) matches Some(slot) && slot.owner is Some {
        Some(stream_conflict())
    } else if !mid.has_room(key) {
        Some(layer_limit())
    } else if mid.image_id_for(key) is None {
        Some(images_exhausted())
    } else {
        None
    }
    &&& if refused is Some {
        new == mid
    } else {
        mid.put(
            new,
            (SlotView {
                key,
                image_id: mid.image_id_for(key)->Some_0,
                layer: None,
                owner: Some(open.params.owner@),
                stream: Some(open.active),
                direct_gate: None,
            }),
        )
    }
}

/// Whether a request to open a stream gets as far as its layer.
pub open spec fn open_key(session: Session, open: StreamOpenParams) -> Result<Key, Refusal> {
    if !session.graphics_enabled {
        Err(feature_disabled())
    } else if !open.active.live {
        Err(stream_closed())
    } else if open.params.owner@.len() == 0 {
        Err(refusal("invalid_stream"@, "pane graphics stream owner is required"@))
    } else {
        key_of(session, open.params.pane_id@, opt_view(open.params.layer_id))
    }
}

/// `static_set`, whatever the store in between is.
pub open spec fn static_sets(
    old: PaneGraphics,
    new: PaneGraphics,
    key: Key,
    params: SetParams,
    refused: Option<Refusal>,
) -> bool {
    exists|mid: PaneGraphics| #[trigger] static_set(old, mid, new, key, params, refused)
}

/// `static_clear`, whatever the store in between is.
pub open spec fn static_clears(
    old: PaneGraphics,
    new: PaneGraphics,
    key: Key,
    refused: Option<Refusal>,
) -> bool {
    exists|mid: PaneGraphics| #[trigger] static_clear(old, mid, new, key, refused)
}

/// `stream_opened`, whatever the store in between is.
pub open spec fn stream_opens(
    old: PaneGraphics,
    new: PaneGraphics,
    key: Key,
    open: StreamOpenParams,
    refused: Option<Refusal>,
) -> bool {
    exists|mid: PaneGraphics| #[trigger] stream_opened(old, mid, new, key, open, refused)
}

/// What a static request to set a layer does.
pub open spec fn set_outcome(
    session: Session,
    old: PaneGraphics,
    new: PaneGraphics,
    params: SetParams,
    refused: Option<Refusal>,
) -> bool {
    match enabled_key_of(session, params.pane_id@, opt_view(params.layer_id)) {
        Err(refusal) => refused == Some(refusal) && new == old,
        Ok(key) => static_sets(old, new, key, params, refused),
    }
}

/// What a static request to clear a layer does.
pub open spec fn clear_outcome(
    session: Session,
    old: PaneGraphics,
    new: PaneGraphics,
    params: ClearParams,
    refused: Option<Refusal>,
) -> bool {
    match enabled_key_of(session, params.pane_id@, opt_view(params.layer_id)) {
        Err(refusal) => refused == Some(refusal) && new == old,
        Ok(key) => static_clears(old, new, key, refused),
    }
}

/// What a request to open a stream does.
pub open spec fn open_outcome(
    session: Session,
    old: PaneGraphics,
    new: PaneGraphics,
    open: StreamOpenParams,
    refused: Option<Refusal>,
) -> bool {
    match open_key(session, open) {
        Err(refusal) => refused == Some(refusal) && new == old,
        Ok(key) => stream_opens(old, new, key, open, refused),
    }
}

/// Why `owner` may not send a frame to the layer: nobody streams to it, somebody else does, or the
/// owner's stream has ended.
pub open spec fn frame_refusal(slot: Option<SlotView>, owner: Seq<char>) -> Option<Refusal> {
    match slot {
        None => Some(stream_closed()),
        Some(slot) => if slot.owner != Some(owner) {
            Some(
                refusal(
                    "stream_conflict"@,
                    "pane graphics stream owner does not match active stream"@,
                ),
            )
        } else if !(slot.stream matches Some(t) && t.live) {
            Some(stream_closed())
        } else {
            None
        },
    }
}

pub open spec fn streams_as(slot: Option<SlotView>, owner: Seq<char>) -> bool {
    slot matches Some(s) && s.owner == Some(owner) && (s.stream matches Some(t) && t.live)
}

/// How a frame in a file is to be taken over, or why not.
pub open spec fn direct_plan(
    store: PaneGraphics,
    session: Session,
    params: DirectParams,
    available: bool,
) -> Result<(Key, bool, nat), Refusal> {
    match enabled_key_of(session, params.pane_id@, opt_view(params.layer_id)) {
        Err(refused) => Err(refused),
        Ok(key) => {
            let direct = available && key.1 == "primary"@ && params.format == Format::Rgba;
            let max = if direct {
                DIRECT_FILE_MAX_BYTES
            } else {
                STREAM_MAX_BYTES
            };
            if !streams_as(store.at(key), params.owner@) {
                Err(stream_closed())
            } else if params.image_width == 0 || params.image_height == 0 {
                Err(zero_sized())
            } else if params.format != Format::Rgba && params.format != Format::Bgra {
                Err(refusal("invalid_image"@, "direct frames require rgba or bgra"@))
            } else {
                match image_len(params.format, params.image_width, params.image_height) {
                    Ok(Some(len)) if len <= max => Ok((key, direct, len)),
                    _ => Err(refusal("invalid_image"@, "invalid direct RGBA dimensions"@)),
                }
            }
        },
    }
}

/// Why a planned frame is refused after all: the file, or the room for its bytes.
pub open spec fn frame_file_refusal(
    store: PaneGraphics,
    key: Key,
    direct: bool,
    len: nat,
    file: FrameFile,
) -> Option<Refusal> {
    match file.lease {
        Err(problem) => Some(refusal("invalid_frame_file"@, problem@)),
        Ok(_) => if direct {
            None
        } else if !store.spec_can_store_inline(key, len) {
            Some(over_budget())
        } else {
            match file.copy {
                Err(problem) => Some(refusal("invalid_frame_file"@, problem@)),
                Ok(bytes) => if bytes@.len() != len {
                    Some(
                        refusal(
                            "invalid_frame_file"@,
                            "frame file does not have the expected length"@,
                        ),
                    )
                } else {
                    None
                },
            }
        },
    }
}

/// The layer that a frame in a file makes.
pub open spec fn frame_layer(params: DirectParams, direct: bool, file: FrameFile) -> LayerView {
    if direct {
        LayerView {
            format: Format::Rgba,
            image_width: params.image_width,
            image_height: params.image_height,
            data: DataView::Direct(file.lease->Ok_0),
            placement: params.placement,
            z_index: params.z_index,
        }
    } else {
        inline_layer(
            params.format,
            params.image_width,
            params.image_height,
            file.copy->Ok_0@,
            params.placement,
            params.z_index,
        )
    }
}

// ---------------------------------------------------------------------------------------------
// Pieces
// ---------------------------------------------------------------------------------------------

fn require_enabled(session: &Session) -> (r: Result<(), ApiError>)
    ensures
        match r {
            Ok(()) => session.graphics_enabled,
            Err(e) => !session.graphics_enabled && e@ == feature_disabled(),
        },
{
    if session.graphics_enabled {
        Ok(())
    } else {
        Err(error("feature_disabled", "pane graphics require experimental.kitty_graphics"))
    }
}

/// The key of a layer over a pane, or what is wrong with the layer's name.
pub fn graphics_key(pane: u64, layer_id: &Option<String>) -> (r: Result<(u64, String), &'static str>)
    ensures
        match r {
            Ok((p, name)) => p == pane && name@ == layer_name(opt_view(*layer_id)) && layer_problem(
                name@,
            ) is None,
            Err(problem) => layer_problem(layer_name(opt_view(*layer_id))) == Some(problem@),
        },
{
    let name: &str = match layer_id {
        Some(name) => name.as_str(),
        None => PRIMARY_LAYER_ID,
    };
    if name.is_empty() || text_byte_len(name) > MAX_LAYER_ID_BYTES {
        return Err("layer_id must contain between 1 and 64 characters");
    }
    let chars = chars_of(name);
    let mut i: usize = 0;
    while i < chars.len()
        invariant
            i <= chars@.len(),
            chars@ == name@,
            name@.len() > 0,
            byte_len(name@) <= MAX_LAYER_ID_BYTES,
            name@ == layer_name(opt_view(*layer_id)),
            forall|j: int| 0 <= j < i ==> is_name_char(#[trigger] chars@[j]),
        decreases chars@.len() - i,
    {
        if !name_char(chars[i]) {
            return Err("layer_id contains unsupported characters");
        }
        i = i + 1;
    }
    Ok((pane, name.to_owned()))
}

fn resolve_key(session: &Session, pane_id: &str, layer_id: &Option<String>) -> (r: Result<
    (u64, String),
    ApiError,
>)
    ensures
        match r {
            Ok((pane, name)) => key_of(*session, pane_id@, opt_view(*layer_id)) == Ok::<Key, Refusal>(
                (pane, name@),
            ),
            Err(e) => key_of(*session, pane_id@, opt_view(*layer_id)) == Err::<Key, Refusal>(e@),
        },
{
    match session.parse_pane_id(pane_id) {
        None => Err(pane_not_found(pane_id)),
        Some((_, pane)) => match graphics_key(pane, layer_id) {
            Ok(key) => Ok(key),
            Err(problem) => Err(error("invalid_layer_id", problem)),
        },
    }
}

/// The length an image must have, where its format fixes one.
pub fn expected_len(format: Format, width: u32, height: u32) -> (r: Result<Option<usize>, ()>)
    ensures
        match r {
            Ok(Some(len)) => image_len(format, width, height) == Ok::<Option<nat>, ()>(
                Some(len as nat),
            ),
            Ok(None) => image_len(format, width, height) == Ok::<Option<nat>, ()>(None),
            Err(()) => image_len(format, width, height) is Err,
        },
{
    let bytes: u64 = match format {
        Format::Png => {
            return Ok(None);
        },
        Format::Rgb => 3,
        Format::Rgba => 4,
        Format::Bgra => 4,
    };
    let w: u64 = width as u64;
    let h: u64 = height as u64;
    proof {
        assert(w * h <= 0xFFFF_FFFF * 0xFFFF_FFFF) by (nonlinear_arith)
            requires
                w <= 0xFFFF_FFFF,
                h <= 0xFFFF_FFFF,
        ;
    }
    let pixels: u64 = w * h;
    match pixels.checked_mul(bytes) {
        Some(size) => if size <= usize::MAX as u64 {
            Ok(Some(size as usize))
        } else {
            Err(())
        },
        None => Err(()),
    }
}

proof fn lemma_swapped_pixel(data: Seq<u8>, i: int)
    requires
        0 <= i,
        i + 4 <= data.len(),
        i % 4 == 0,
    ensures
        channels_swapped(data)[i] == data[i + 2],
        channels_swapped(data)[i + 1] == data[i + 1],
        channels_swapped(data)[i + 2] == data[i],
        channels_swapped(data)[i + 3] == data[i + 3],
{
    assert(i + 3 < data.len() - data.len() % 4);
    assert((i + 1) % 4 == 1 && (i + 2) % 4 == 2 && (i + 3) % 4 == 3);
}

/// Bring pixels into the form in which they are kept.
pub fn canonicalize_bgra(format: Format, data: &mut Vec<u8>) -> (r: Format)
    ensures
        (r, final(data)@) == canonical(format, old(data)@),
{
    if format != Format::Bgra {
        return format;
    }
    let ghost source = data@;
    let mut i: usize = 0;
    while data.len() - i >= 4
        invariant
            data@.len() == source.len(),
            i <= data@.len(),
            i % 4 == 0,
            forall|j: int| 0 <= j < i ==> #[trigger] data@[j] == channels_swapped(source)[j],
            forall|j: int| i <= j < source.len() ==> #[trigger] data@[j] == source[j],
        decreases data@.len() - i,
    {
        proof {
            lemma_swapped_pixel(source, i as int);
        }
        let first: u8 = data[i];
        let third: u8 = data[i + 2];
        data.set(i, third);
        data.set(i + 2, first);
        i = i + 4;
    }
    proof {
        assert(data@ =~= channels_swapped(source));
    }
    Format::Rgba
}

/// The reply to what decoding an image gave.
pub fn accept_decoded(decoded: Result<Vec<u8>, bool>) -> (r: Result<Vec<u8>, ApiError>)
    ensures
        match (decoded, r) {
            (Ok(bytes), Ok(kept)) => kept == bytes,
            (Err(small), Err(e)) => decode_outcome(Err(small)) == Err::<Seq<u8>, Refusal>(e@),
            _ => false,
        },
{
    match decoded {
        Ok(bytes) => Ok(bytes),
        Err(true) => Err(error("image_too_large", "image data is too large")),
        Err(false) => Err(error("invalid_image", "data_base64 is not valid base64")),
    }
}

/// `base64::decoded_len_estimate`: the decoded size of so many base64 symbols, rounded up to the
/// next group of three bytes.
pub assume_specification[ base64::decoded_len_estimate ](encoded_len: usize) -> (r: usize)
    ensures
        r == ((encoded_len + 3) / 4) * 3,
;

/// `decode_slice` of base64's standard engine (alphabet of RFC 4648, padding required). It either
/// writes the decoded bytes at the start of `output` and returns how many they are, or fails: the
/// error says whether `output` was too small for what the text decodes to, or the text is not
/// base64. What the bytes are is a function of the text and of the size of `output`. The text of
/// some bytes decodes to those bytes where they fit in `output`, to the last one; where they do
/// not, the error says that `output` was too small.
#[verifier::external_body]
fn decode_slice(encoded: &str, output: &mut Vec<u8>) -> (r: Result<usize, bool>)
    ensures
        final(output)@.len() == old(output)@.len(),
        match r {
            Ok(len) => len <= final(output)@.len() && base64_decoded(
                encode_utf8(encoded@),
                old(output)@.len(),
            ) == Ok::<Seq<u8>, bool>(final(output)@.take(len as int)),
            Err(small) => base64_decoded(encode_utf8(encoded@), old(output)@.len()) == Err::<
                Seq<u8>,
                bool,
            >(small),
        },
        forall|bytes: Seq<u8>|
            encode_utf8(encoded@) == #[trigger] base64_text(bytes) ==> if bytes.len() <= old(
                output,
            )@.len() {
                r == Ok::<usize, bool>(bytes.len() as usize) && final(output)@.take(
                    bytes.len() as int,
                ) == bytes
            } else {
                r == Err::<usize, bool>(true)
            },
{
    match base64::engine::general_purpose::STANDARD.decode_slice(encoded, output) {
        Ok(len) => Ok(len),
        Err(base64::DecodeSliceError::OutputSliceTooSmall) => Err(true),
        Err(base64::DecodeSliceError::DecodeError(_)) => Err(false),
    }
}

/// The image a static request carries as base64 text. The text of an image gives that image back,
/// up to the largest that is allowed; the text of a larger one is refused as too large.
pub fn decode_public_image(encoded: &str) -> (r: Result<Vec<u8>, ApiError>)
    ensures
        match r {
            Ok(bytes) => public_image(encoded@) == Ok::<Seq<u8>, Refusal>(bytes@) && bytes@.len()
                <= SET_MAX_BYTES,
            Err(e) => public_image(encoded@) == Err::<Seq<u8>, Refusal>(e@),
        },
        forall|bytes: Seq<u8>|
            encode_utf8(encoded@) == #[trigger] base64_text(bytes) ==> if bytes.len()
                <= SET_MAX_BYTES {
                r matches Ok(image) && image@ == bytes
            } else {
                r matches Err(e) && e@ == too_large()
            },
{
    let len: usize = text_byte_len(encoded);
    proof {
        assert forall|bytes: Seq<u8>|
            encode_utf8(encoded@) == #[trigger] base64_text(bytes) implies len == (bytes.len() + 2)
            / 3 * 4 by {
            lemma_base64_text_len(bytes);
        }
    }
    if len > MAX_ENCODED_BYTES {
        return Err(error("image_too_large", "image data is too large"));
    }
    let estimate: usize = base64::decoded_len_estimate(len);
    let room: usize = if estimate < SET_MAX_BYTES {
        estimate
    } else {
        SET_MAX_BYTES
    };
    let mut data: Vec<u8> = vec![0u8; room];
    let decoded = match decode_slice(encoded, &mut data) {
        Ok(len) => {
            data.truncate(len);
            Ok(data)
        },
        Err(small) => Err(small),
    };
    proof {
        if decoded is Ok {
            let got = decoded->Ok_0;
            assert(base64_decoded(encode_utf8(encoded@), room as nat) == Ok::<Seq<u8>, bool>(got@));
        }
    }
    accept_decoded(decoded)
}

/// Whether a pane is on screen: in the active workspace's active tab, and not behind a zoomed
/// pane.
pub open spec fn pane_on_screen(session: Session, ws: int, pane: u64) -> bool {
    let w = session.workspaces@[ws];
    let tab = w.tabs@[w.active_tab as int];
    &&& session.active matches Some(a) && a == ws
    &&& w.active_tab < w.tabs@.len()
    &&& if tab.zoomed {
        tab.focused == pane
    } else {
        pane_at(tab.panes@, pane) is Some
    }
}

pub fn pane_graphics_visible(session: &Session, ws: usize, pane: u64) -> (r: bool)
    requires
        ws < session.workspaces@.len(),
    ensures
        r == pane_on_screen(*session, ws as int, pane),
{
    match session.active {
        Some(active) => {
            if active != ws {
                return false;
            }
        },
        None => {
            return false;
        },
    }
    let workspace = &session.workspaces[ws];
    if workspace.active_tab >= workspace.tabs.len() {
        return false;
    }
    let tab = &workspace.tabs[workspace.active_tab];
    if tab.zoomed {
        tab.focused == pane
    } else {
        find_pane(&tab.panes, pane).is_some()
    }
}

// ---------------------------------------------------------------------------------------------
// Requests
// ---------------------------------------------------------------------------------------------

/// What a request about graphics is answered.
pub open spec fn info_outcome(
    session: Session,
    host: HostGraphics,
    pane_id: Seq<char>,
    r: Response<GraphicsInfo>,
) -> bool {
    &&& r.refusal() == if !session.graphics_enabled {
        Some(feature_disabled())
    } else if session.spec_parse_pane_id(pane_id) is None {
        Some(pane_missing(pane_id))
    } else if host.cell_width_px == 0 || host.cell_height_px == 0 {
        Some(refusal("cell_size_unavailable"@, "host cell size is unavailable"@))
    } else {
        None
    }
    &&& r.body matches Ok(info) ==> {
        let (ws, pane) = session.spec_parse_pane_id(pane_id)->Some_0;
        let direct = host.file_frame_directory is Some;
        &&& info.cell_width_px == host.cell_width_px
        &&& info.cell_height_px == host.cell_height_px
        &&& info.pane_visible == pane_on_screen(session, ws, pane)
        &&& info.file_frame_directory == host.file_frame_directory
        &&& info.file_frame_formats@ == if direct {
            seq![Format::Rgba, Format::Bgra]
        } else {
            Seq::empty()
        }
        &&& info.file_frame_max_bytes == if direct {
            Some(STREAM_MAX_BYTES)
        } else {
            None
        }
        &&& info.file_frame_direct_max_bytes == if direct {
            Some(DIRECT_FILE_MAX_BYTES)
        } else {
            None
        }
        &&& info.file_frame_damage
        &&& info.max_layers_per_pane == MAX_LAYERS_PER_PANE
        &&& info.pixel_mouse == host.pixel_mouse
        &&& match info.file_frame_transport {
            Some(transport) => direct && transport@ == "direct-kitty"@,
            None => !direct,
        }
    }
}

/// What there is to know before drawing over a pane.
pub fn handle_pane_graphics_info(
    session: &Session,
    host: &HostGraphics,
    id: String,
    pane_id: &str,
) -> (r: Response<GraphicsInfo>)
    ensures
        r.id == id,
        info_outcome(*session, *host, pane_id@, r),
{
    match require_enabled(session) {
        Ok(()) => {},
        Err(e) => {
            return Response { id, body: Err(e) };
        },
    }
    let (ws, pane): (usize, u64) = match session.parse_pane_id(pane_id) {
        Some(found) => found,
        None => {
            return Response { id, body: Err(pane_not_found(pane_id)) };
        },
    };
    if host.cell_width_px == 0 || host.cell_height_px == 0 {
        return Response {
            id,
            body: Err(error("cell_size_unavailable", "host cell size is unavailable")),
        };
    }
    let direct = host.file_frame_directory.is_some();
    let mut formats: Vec<Format> = Vec::new();
    if direct {
        formats.push(Format::Rgba);
        formats.push(Format::Bgra);
    }
    proof {
        assert(formats@ =~= if direct {
            seq![Format::Rgba, Format::Bgra]
        } else {
            Seq::empty()
        });
    }
    let info = GraphicsInfo {
        cell_width_px: host.cell_width_px,
        cell_height_px: host.cell_height_px,
        pane_visible: pane_graphics_visible(session, ws, pane),
        file_frame_directory: clone_opt_text(&host.file_frame_directory),
        file_frame_formats: formats,
        file_frame_max_bytes: if direct {
            Some(STREAM_MAX_BYTES)
        } else {
            None
        },
        file_frame_direct_max_bytes: if direct {
            Some(DIRECT_FILE_MAX_BYTES)
        } else {
            None
        },
        file_frame_damage: true,
        max_layers_per_pane: MAX_LAYERS_PER_PANE,
        pixel_mouse: host.pixel_mouse,
        file_frame_transport: if direct {
            Some("direct-kitty")
        } else {
            None
        },
    };
    Response { id, body: Ok(info) }
}

/// What a frame that a request carries does.
pub open spec fn stream_set_outcome(
    old: PaneGraphics,
    new: PaneGraphics,
    session: Session,
    params: SetParams,
    refused: Option<Refusal>,
) -> bool {
    match enabled_key_of(session, params.pane_id@, opt_view(params.layer_id)) {
        Err(why) => refused == Some(why) && new == old,
        Ok(key) => match frame_refusal(old.at(key), params.owner@) {
            Some(why) => refused == Some(why) && new == old,
            None => layer_set(
                old,
                new,
                key,
                params,
                carried_image(params),
                carried_limit(params),
                refused,
            ),
        },
    }
}

/// What a request to close a stream does.
pub open spec fn stream_close_outcome(
    old: PaneGraphics,
    new: PaneGraphics,
    session: Session,
    params: StreamParams,
    refused: Option<Refusal>,
) -> bool {
    &&& refused == if session.spec_parse_pane_id(params.pane_id@) is None {
        Some(pane_missing(params.pane_id@))
    } else {
        None
    }
    &&& match key_of(session, params.pane_id@, opt_view(params.layer_id)) {
        Err(_) => new == old,
        Ok(key) => if old.at(key) matches Some(slot) && slot.owner == Some(
            params.owner@,
        ) {
            old.removed(new, key)
        } else {
            new == old
        },
    }
}

/// What a frame that lies in a file does.
pub open spec fn stream_direct_outcome(
    old: PaneGraphics,
    new: PaneGraphics,
    session: Session,
    params: DirectParams,
    available: bool,
    file: FrameFile,
    r: Response<FrameAck>,
) -> bool {
    match direct_plan(old, session, params, available) {
        Err(refused) => r.refusal() == Some(refused) && new == old,
        Ok((key, direct, len)) => {
            &&& r.refusal() == frame_file_refusal(old, key, direct, len, file)
            &&& match r.body {
                Err(_) => new == old,
                Ok(ack) => {
                    &&& ack.sequence == params.sequence
                    &&& ack.revision == params.revision
                    &&& old.put(
                        new,
                        slot_with_layer(
                            old,
                            key,
                            frame_layer(params, direct, file),
                        ),
                    )
                },
            }
        },
    }
}

impl PaneGraphics {
    fn slot_owner_is(&self, i: usize, owner: &str) -> (r: bool)
        requires
            i < self.slots@.len(),
        ensures
            r == (opt_view(self.slots@[i as int].stream_owner) == Some(owner@)),
    {
        match &self.slots[i].stream_owner {
            Some(o) => same_text(o.as_str(), owner),
            None => false,
        }
    }

    fn claimed(&self, pane: u64, layer_id: &str) -> (r: bool)
        ensures
            r == (self.at((pane, layer_id@)) matches Some(slot) && slot.owner is Some),
    {
        match self.find(pane, layer_id) {
            Some(i) => self.slots[i].stream_owner.is_some(),
            None => false,
        }
    }

    /// Set a layer to pixels that are at hand, or pass on why they are not.
    pub fn set_layer_to(
        &mut self,
        pane: u64,
        layer_id: String,
        params: &SetParams,
        image: Result<Vec<u8>, ApiError>,
        limit: usize,
    ) -> (r: Result<(), ApiError>)
        requires
            old(self).wf(),
            admission_refusal(
                *old(self),
                (pane, layer_id@),
                params.format,
                params.image_width,
                params.image_height,
            ) is None,
        ensures
            layer_set(
                *old(self),
                *final(self),
                (pane, layer_id@),
                *params,
                match image {
                    Ok(bytes) => Ok::<Seq<u8>, Refusal>(bytes@),
                    Err(e) => Err(e@),
                },
                limit as nat,
                match r {
                    Ok(()) => None,
                    Err(e) => Some(e@),
                },
            ),
            final(self).wf(),
    {
        let ghost key: Key = (pane, layer_id@);
        let mut data = match image {
            Ok(data) => data,
            Err(e) => {
                return Err(e);
            },
        };
        if data.len() == 0 {
            return Err(error("invalid_image", "image data must not be empty"));
        }
        if data.len() > limit {
            return Err(error("image_too_large", "image data is too large"));
        }
        match expected_len(params.format, params.image_width, params.image_height) {
            Ok(Some(expected)) => {
                if expected != data.len() {
                    return Err(
                        error("invalid_image", "image data does not match the frame contract"),
                    );
                }
            },
            _ => {},
        }
        let ghost source = data@;
        let format = canonicalize_bgra(params.format, &mut data);
        proof {
            assert(data@.len() == source.len());
        }
        if !self.can_store_inline(pane, layer_id.as_str(), data.len()) {
            return Err(
                error("graphics_budget_exceeded", "pane graphics inline memory limit reached"),
            );
        }
        let host_image_id: u32 = match self.reserve_image_id(pane, layer_id.as_str()) {
            Some(image_id) => image_id,
            None => {
                return Err(error("layer_limit", "pane graphics image ids are exhausted"));
            },
        };
        let (stream_owner, stream) = match self.find(pane, layer_id.as_str()) {
            Some(i) => (clone_opt_text(&self.slots[i].stream_owner), self.slots[i].stream),
            None => (None, None),
        };
        let slot = Slot {
            pane,
            layer_id,
            host_image_id,
            layer: Some(
                Layer {
                    format,
                    image_width: params.image_width,
                    image_height: params.image_height,
                    data: LayerData::Inline(data),
                    placement: params.placement,
                    z_index: params.z_index,
                },
            ),
            stream_owner,
            stream,
            direct_gate: None,
        };
        proof {
            lemma_first_where(self.slots@, |s: Slot| s.key() == key);
            assert(slot@ == slot_with_layer(
                *self,
                key,
                inline_layer(
                    params.format,
                    params.image_width,
                    params.image_height,
                    source,
                    params.placement,
                    params.z_index,
                ),
            ));
        }
        self.put_slot(slot);
        Ok(())
    }

    /// Set a layer to the pixels a request brings.
    fn set_layer(&mut self, pane: u64, layer_id: String, mut params: SetParams) -> (r: Result<
        (),
        ApiError,
    >)
        requires
            old(self).wf(),
        ensures
            layer_set(
                *old(self),
                *final(self),
                (pane, layer_id@),
                params,
                carried_image(params),
                carried_limit(params),
                match r {
                    Ok(()) => None,
                    Err(e) => Some(e@),
                },
            ),
            final(self).wf(),
    {
        let ghost asked = params;
        if !self.can_add_slot(pane, layer_id.as_str()) {
            return Err(error("layer_limit", "pane graphics layer limit reached"));
        }
        if params.image_width == 0 || params.image_height == 0 {
            return Err(
                error("invalid_image", "image_width and image_height must be greater than zero"),
            );
        }
        if expected_len(params.format, params.image_width, params.image_height).is_err() {
            return Err(error("invalid_image", "image dimensions are too large"));
        }
        let carried = params.data.take();
        let limit: usize = if carried.is_some() {
            STREAM_MAX_BYTES
        } else {
            SET_MAX_BYTES
        };
        let image = match carried {
            Some(data) => Ok(data),
            None => decode_public_image(params.data_base64.as_str()),
        };
        proof {
            assert(match image {
                Ok(bytes) => carried_image(asked) == Ok::<Seq<u8>, Refusal>(bytes@),
                Err(e) => carried_image(asked) == Err::<Seq<u8>, Refusal>(e@),
            });
            assert(limit == carried_limit(asked));
        }
        self.set_layer_to(pane, layer_id, &params, image, limit)
    }

    /// Set a layer by a request of its own.
    pub fn handle_pane_graphics_set(
        &mut self,
        session: &Session,
        id: String,
        params: SetParams,
    ) -> (r: Response<()>)
        requires
            old(self).wf(),
        ensures
            r.id == id,
            final(self).wf(),
            set_outcome(*session, *old(self), *final(self), params, r.refusal()),
    {
        match require_enabled(session) {
            Ok(()) => {},
            Err(e) => {
                return Response { id, body: Err(e) };
            },
        }
        let (pane, layer_id): (u64, String) = match resolve_key(
            session,
            params.pane_id.as_str(),
            &params.layer_id,
        ) {
            Ok(key) => key,
            Err(e) => {
                return Response { id, body: Err(e) };
            },
        };
        let ghost key: Key = (pane, layer_id@);
        self.reclaim_inactive_stream(pane, layer_id.as_str());
        let ghost mid = *self;
        if self.claimed(pane, layer_id.as_str()) {
            let e = error("stream_conflict", "pane graphics layer has an active stream");
            proof {
                assert(static_set(*old(self), mid, *self, key, params, Some(e@)));
                assert(static_sets(*old(self), *self, key, params, Some(e@)));
            }
            return Response { id, body: Err(e) };
        }
        let ghost asked = params;
        let body = self.set_layer(pane, layer_id, params);
        let r = Response { id, body };
        proof {
            assert(static_set(*old(self), mid, *self, key, asked, r.refusal()));
            assert(static_sets(*old(self), *self, key, asked, r.refusal()));
        }
        r
    }

    /// Take a layer away by a request of its own.
    pub fn handle_pane_graphics_clear(
        &mut self,
        session: &Session,
        id: String,
        params: ClearParams,
    ) -> (r: Response<()>)
        requires
            old(self).wf(),
        ensures
            r.id == id,
            final(self).wf(),
            clear_outcome(*session, *old(self), *final(self), params, r.refusal()),
    {
        match require_enabled(session) {
            Ok(()) => {},
            Err(e) => {
                return Response { id, body: Err(e) };
            },
        }
        let (pane, layer_id): (u64, String) = match resolve_key(
            session,
            params.pane_id.as_str(),
            &params.layer_id,
        ) {
            Ok(key) => key,
            Err(e) => {
                return Response { id, body: Err(e) };
            },
        };
        let ghost key: Key = (pane, layer_id@);
        self.reclaim_inactive_stream(pane, layer_id.as_str());
        let ghost mid = *self;
        if self.claimed(pane, layer_id.as_str()) {
            let e = error("stream_conflict", "pane graphics layer has an active stream");
            proof {
                assert(static_clear(*old(self), mid, *self, key, Some(e@)));
                assert(static_clears(*old(self), *self, key, Some(e@)));
            }
            return Response { id, body: Err(e) };
        }
        match self.find(pane, layer_id.as_str()) {
            Some(i) => {
                proof {
                    lemma_first_where(self.slots@, |s: Slot| s.key() == key);
                }
                self.remove_slot(i);
            },
            None => {},
        }
        let r = Response { id, body: Ok(()) };
        proof {
            assert(static_clear(*old(self), mid, *self, key, r.refusal()));
            assert(static_clears(*old(self), *self, key, r.refusal()));
        }
        r
    }

    /// Claim a layer for a stream of frames.
    pub fn handle_pane_graphics_stream_open(
        &mut self,
        session: &Session,
        id: String,
        open: StreamOpenParams,
    ) -> (r: Response<()>)
        requires
            old(self).wf(),
        ensures
            r.id == id,
            final(self).wf(),
            open_outcome(*session, *old(self), *final(self), open, r.refusal()),
    {
        match require_enabled(session) {
            Ok(()) => {},
            Err(e) => {
                return Response { id, body: Err(e) };
            },
        }
        if !open.active.live {
            return Response {
                id,
                body: Err(error("stream_closed", "pane graphics stream is not active")),
            };
        }
        if open.params.owner.as_str().is_empty() {
            return Response {
                id,
                body: Err(error("invalid_stream", "pane graphics stream owner is required")),
            };
        }
        let (pane, layer_id): (u64, String) = match resolve_key(
            session,
            open.params.pane_id.as_str(),
            &open.params.layer_id,
        ) {
            Ok(key) => key,
            Err(e) => {
                return Response { id, body: Err(e) };
            },
        };
        let ghost key: Key = (pane, layer_id@);
        self.reclaim_inactive_stream(pane, layer_id.as_str());
        let ghost mid = *self;
        if self.claimed(pane, layer_id.as_str()) {
            let e = error("stream_conflict", "pane graphics layer has an active stream");
            proof {
                assert(stream_opened(*old(self), mid, *self, key, open, Some(e@)));
                assert(stream_opens(*old(self), *self, key, open, Some(e@)));
            }
            return Response { id, body: Err(e) };
        }
        if !self.can_add_slot(pane, layer_id.as_str()) {
            let e = error("layer_limit", "pane graphics layer limit reached");
            proof {
                assert(stream_opened(*old(self), mid, *self, key, open, Some(e@)));
                assert(stream_opens(*old(self), *self, key, open, Some(e@)));
            }
            return Response { id, body: Err(e) };
        }
        let host_image_id: u32 = match self.reserve_image_id(pane, layer_id.as_str()) {
            Some(image_id) => image_id,
            None => {
                let e = error("layer_limit", "pane graphics image ids are exhausted");
                proof {
                    assert(stream_opened(*old(self), mid, *self, key, open, Some(e@)));
                    assert(stream_opens(*old(self), *self, key, open, Some(e@)));
                }
                return Response { id, body: Err(e) };
            },
        };
        let owner = open.params.owner.clone();
        proof {
            crate::graphics_store::lemma_others_fit(*self, key);
        }
        self.put_slot(
            Slot {
                pane,
                layer_id,
                host_image_id,
                layer: None,
                stream_owner: Some(owner),
                stream: Some(open.active),
                direct_gate: None,
            },
        );
        let r = Response { id, body: Ok(()) };
        proof {
            assert(stream_opened(*old(self), mid, *self, key, open, r.refusal()));
            assert(stream_opens(*old(self), *self, key, open, r.refusal()));
        }
        r
    }

    /// Take a frame of a stream as the layer.
    pub fn handle_pane_graphics_stream_set(
        &mut self,
        session: &Session,
        id: String,
        params: SetParams,
    ) -> (r: Response<()>)
        requires
            old(self).wf(),
        ensures
            r.id == id,
            final(self).wf(),
            stream_set_outcome(*old(self), *final(self), *session, params, r.refusal()),
    {
        match require_enabled(session) {
            Ok(()) => {},
            Err(e) => {
                return Response { id, body: Err(e) };
            },
        }
        let (pane, layer_id): (u64, String) = match resolve_key(
            session,
            params.pane_id.as_str(),
            &params.layer_id,
        ) {
            Ok(key) => key,
            Err(e) => {
                return Response { id, body: Err(e) };
            },
        };
        match self.find(pane, layer_id.as_str()) {
            Some(i) => {
                if !self.slot_owner_is(i, params.owner.as_str()) {
                    Response {
                        id,
                        body: Err(
                            error(
                                "stream_conflict",
                                "pane graphics stream owner does not match active stream",
                            ),
                        ),
                    }
                } else if !self.slots[i].stream_is_active() {
                    Response {
                        id,
                        body: Err(error("stream_closed", "pane graphics stream is not active")),
                    }
                } else {
                    let body = self.set_layer(pane, layer_id, params);
                    Response { id, body }
                }
            },
            None => Response {
                id,
                body: Err(error("stream_closed", "pane graphics stream is not active")),
            },
        }
    }

    /// End a stream. Cleaning up needs no feature switch: a stream that is not there, or belongs
    /// to another, is left as it is, and so is a layer whose name cannot be one.
    pub fn handle_pane_graphics_stream_close(
        &mut self,
        session: &Session,
        id: String,
        params: StreamParams,
    ) -> (r: Response<()>)
        requires
            old(self).wf(),
        ensures
            r.id == id,
            final(self).wf(),
            stream_close_outcome(*old(self), *final(self), *session, params, r.refusal()),
    {
        let pane: u64 = match session.parse_pane_id(params.pane_id.as_str()) {
            Some((_, pane)) => pane,
            None => {
                return Response { id, body: Err(pane_not_found(params.pane_id.as_str())) };
            },
        };
        match graphics_key(pane, &params.layer_id) {
            Ok((_, layer_id)) => match self.find(pane, layer_id.as_str()) {
                Some(i) => {
                    if self.slot_owner_is(i, params.owner.as_str()) {
                        proof {
                            lemma_first_where(
                                self.slots@,
                                |s: Slot| s.key() == (pane, layer_id@),
                            );
                        }
                        self.remove_slot(i);
                    }
                },
                None => {},
            },
            Err(_) => {},
        }
        Response { id, body: Ok(()) }
    }

    /// How a frame in a client's file is to be taken over: which file work to do, or why none.
    pub fn plan_stream_direct(
        &self,
        session: &Session,
        params: &DirectParams,
        available: bool,
    ) -> (r: Result<DirectPlan, ApiError>)
        ensures
            match (r, direct_plan(*self, *session, *params, available)) {
                (Ok(plan), Ok((key, direct, len))) => plan.pane == key.0 && plan.direct == direct
                    && plan.expected_len == len,
                (Err(e), Err(refused)) => e@ == refused,
                _ => false,
            },
    {
        match require_enabled(session) {
            Ok(()) => {},
            Err(e) => {
                return Err(e);
            },
        }
        let (pane, layer_id): (u64, String) = match resolve_key(
            session,
            params.pane_id.as_str(),
            &params.layer_id,
        ) {
            Ok(key) => key,
            Err(e) => {
                return Err(e);
            },
        };
        let owner_matches = match self.find(pane, layer_id.as_str()) {
            Some(i) => self.slot_owner_is(i, params.owner.as_str())
                && self.slots[i].stream_is_active(),
            None => false,
        };
        if !owner_matches {
            return Err(error("stream_closed", "pane graphics stream is not active"));
        }
        if params.image_width == 0 || params.image_height == 0 {
            return Err(
                error("invalid_image", "image_width and image_height must be greater than zero"),
            );
        }
        if params.format != Format::Rgba && params.format != Format::Bgra {
            return Err(error("invalid_image", "direct frames require rgba or bgra"));
        }
        let direct = available && same_text(layer_id.as_str(), PRIMARY_LAYER_ID) && params.format
            == Format::Rgba;
        let max: usize = if direct {
            DIRECT_FILE_MAX_BYTES
        } else {
            STREAM_MAX_BYTES
        };
        match expected_len(params.format, params.image_width, params.image_height) {
            Ok(Some(len)) => {
                if len <= max {
                    return Ok(DirectPlan { pane, direct, expected_len: len });
                }
            },
            _ => {},
        }
        Err(error("invalid_image", "invalid direct RGBA dimensions"))
    }

    /// Take a frame in a client's file as the layer, after the file work its plan asked for.
    pub fn handle_pane_graphics_stream_direct(
        &mut self,
        session: &Session,
        id: String,
        params: DirectParams,
        available: bool,
        file: FrameFile,
    ) -> (r: Response<FrameAck>)
        requires
            old(self).wf(),
        ensures
            r.id == id,
            final(self).wf(),
            stream_direct_outcome(*old(self), *final(self), *session, params, available, file, r),
    {
        let plan = match self.plan_stream_direct(session, &params, available) {
            Ok(plan) => plan,
            Err(e) => {
                return Response { id, body: Err(e) };
            },
        };
        let (pane, layer_id): (u64, String) = match resolve_key(
            session,
            params.pane_id.as_str(),
            &params.layer_id,
        ) {
            Ok(key) => key,
            Err(e) => {
                return Response { id, body: Err(e) };
            },
        };
        let ghost key: Key = (pane, layer_id@);
        let ghost files = file;
        let lease: u64 = match file.lease {
            Ok(lease) => lease,
            Err(problem) => {
                return Response {
                    id,
                    body: Err(ApiError { code: "invalid_frame_file", message: problem }),
                };
            },
        };
        if !plan.direct && !self.can_store_inline(pane, layer_id.as_str(), plan.expected_len) {
            return Response {
                id,
                body: Err(
                    error("graphics_budget_exceeded", "pane graphics inline memory limit reached"),
                ),
            };
        }
        let layer = if plan.direct {
            Layer {
                format: Format::Rgba,
                image_width: params.image_width,
                image_height: params.image_height,
                data: LayerData::Direct(lease),
                placement: params.placement,
                z_index: params.z_index,
            }
        } else {
            let mut data = match file.copy {
                Ok(data) => data,
                Err(problem) => {
                    return Response {
                        id,
                        body: Err(ApiError { code: "invalid_frame_file", message: problem }),
                    };
                },
            };
            if data.len() != plan.expected_len {
                return Response {
                    id,
                    body: Err(
                        error("invalid_frame_file", "frame file does not have the expected length"),
                    ),
                };
            }
            let format = canonicalize_bgra(params.format, &mut data);
            Layer {
                format,
                image_width: params.image_width,
                image_height: params.image_height,
                data: LayerData::Inline(data),
                placement: params.placement,
                z_index: params.z_index,
            }
        };
        proof {
            lemma_first_where(self.slots@, |s: Slot| s.key() == key);
            crate::graphics_store::lemma_others_fit(*self, key);
        }
        match self.find(pane, layer_id.as_str()) {
            Some(i) => {
                let slot = Slot {
                    pane,
                    layer_id,
                    host_image_id: self.slots[i].host_image_id,
                    layer: Some(layer),
                    stream_owner: clone_opt_text(&self.slots[i].stream_owner),
                    stream: self.slots[i].stream,
                    direct_gate: None,
                };
                proof {
                    assert(slot@ == slot_with_layer(
                        *self,
                        key,
                        frame_layer(params, plan.direct, files),
                    ));
                }
                self.put_slot(slot);
                Response {
                    id,
                    body: Ok(FrameAck { sequence: params.sequence, revision: params.revision }),
                }
            },
            None => Response {
                id,
                body: Err(error("stream_closed", "pane graphics stream is not active")),
            },
        }
    }
}

// ---------------------------------------------------------------------------------------------
// Laws
// ---------------------------------------------------------------------------------------------

/// Exchanging the channels twice gives the pixels back.
pub proof fn law_channel_swap_undoes_itself(data: Seq<u8>)
    ensures
        channels_swapped(channels_swapped(data)) == data,
{
    let once = channels_swapped(data);
    assert(channels_swapped(once) =~= data);
}

/// What is kept is never bgra, and the form in which an image is kept is kept as it is.
pub proof fn law_canonical_images_stay(format: Format, data: Seq<u8>)
    ensures
        ({
            let (kept, bytes) = canonical(format, data);
            kept != Format::Bgra && canonical(kept, bytes) == (kept, bytes) && bytes.len()
                == data.len()
        }),
{
}

/// A refused image leaves the layers, the revision and the image ids as they were.
pub proof fn law_refused_layers_change_nothing(
    old: PaneGraphics,
    new: PaneGraphics,
    key: Key,
    params: SetParams,
    image: Result<Seq<u8>, Refusal>,
    limit: nat,
    refused: Option<Refusal>,
)
    requires
        layer_set(old, new, key, params, image, limit, refused),
        refused is Some,
    ensures
        new == old,
{
}

/// A layer that a request set reads back as the image it brought, in its kept form.
pub proof fn law_a_set_layer_reads_back(
    old: PaneGraphics,
    new: PaneGraphics,
    key: Key,
    params: SetParams,
    bytes: Seq<u8>,
    limit: nat,
)
    requires
        old.wf(),
        layer_set(old, new, key, params, Ok(bytes), limit, None),
    ensures
        new.at(key) matches Some(slot) && slot.layer matches Some(layer) && {
            &&& (layer.format, layer.data) == (canonical(params.format, bytes).0, DataView::Inline(
                canonical(params.format, bytes).1,
            ))
            &&& layer.image_width == params.image_width
            &&& layer.image_height == params.image_height
            &&& layer.placement == params.placement
            &&& layer.z_index == params.z_index
        },
{
    let slot = slot_with_layer(
        old,
        key,
        inline_layer(
            params.format,
            params.image_width,
            params.image_height,
            bytes,
            params.placement,
            params.z_index,
        ),
    );
    crate::graphics_store::law_put_changes_one_layer(old, new, slot, key);
}

/// While a stream holds a layer open, no static request changes it: neither setting nor clearing.
pub proof fn law_a_live_stream_keeps_its_layer(
    old: PaneGraphics,
    mid: PaneGraphics,
    new: PaneGraphics,
    key: Key,
    params: SetParams,
    refused: Option<Refusal>,
)
    requires
        old.at(key) matches Some(slot) && slot.owner is Some && (slot.stream matches Some(t)
            && t.live),
        static_set(old, mid, new, key, params, refused) || static_clear(
            old,
            mid,
            new,
            key,
            refused,
        ),
    ensures
        new == old,
        refused == Some(stream_conflict()),
{
}

/// A frame is taken from the stream that holds the layer, and from no other.
pub proof fn law_frames_come_from_the_holder(slot: Option<SlotView>, owner: Seq<char>)
    ensures
        frame_refusal(slot, owner) is None <==> streams_as(slot, owner),
{
}

/// An opened stream holds its layer: the layer takes frames from the stream's owner and from nobody
/// else, and shows nothing before the first.
pub proof fn law_an_opened_stream_holds_its_layer(
    session: Session,
    old: PaneGraphics,
    new: PaneGraphics,
    open: StreamOpenParams,
    owner: Seq<char>,
)
    requires
        old.wf(),
        open_outcome(session, old, new, open, None),
    ensures
        open_key(session, open) matches Ok(key) && {
            &&& new.at(key) matches Some(slot) && slot.layer is None && slot.direct_gate is None
            &&& frame_refusal(new.at(key), owner) is None <==> owner == open.params.owner@
        },
{
    let key = open_key(session, open)->Ok_0;
    let mid = choose|mid: PaneGraphics| #[trigger]
        stream_opened(old, mid, new, key, open, None);
    crate::graphics_store::law_reclaiming_keeps_the_store_valid(old, mid, key);
    let slot = SlotView {
        key,
        image_id: mid.image_id_for(key)->Some_0,
        layer: None,
        owner: Some(open.params.owner@),
        stream: Some(open.active),
        direct_gate: None,
    };
    crate::graphics_store::law_put_changes_one_layer(mid, new, slot, key);
}

/// After a stream's slot is gone, nobody's frames are taken for its layer.
pub proof fn law_a_closed_stream_takes_no_frames(
    old: PaneGraphics,
    new: PaneGraphics,
    key: Key,
    owner: Seq<char>,
)
    requires
        old.wf(),
        old.removed(new, key),
    ensures
        frame_refusal(new.at(key), owner) == Some(stream_closed()),
{
    crate::graphics_store::law_remove_changes_one_layer(old, new, key, key);
}

/// A layer that is replaced keeps its image id and its stream, and no other layer changes.
pub proof fn law_a_replaced_layer_keeps_its_place(
    old: PaneGraphics,
    new: PaneGraphics,
    key: Key,
    params: SetParams,
    image: Result<Seq<u8>, Refusal>,
    limit: nat,
    other: Key,
)
    requires
        old.wf(),
        old.holds(key),
        layer_set(old, new, key, params, image, limit, None),
    ensures
        new.at(key) matches Some(after) && old.at(key) matches Some(before) && {
            &&& after.image_id == before.image_id
            &&& after.owner == before.owner
            &&& after.stream == before.stream
            &&& after.direct_gate is None
        },
        other != key ==> new.at(other) == old.at(other),
{
    let slot = slot_with_layer(
        old,
        key,
        inline_layer(
            params.format,
            params.image_width,
            params.image_height,
            image->Ok_0,
            params.placement,
            params.z_index,
        ),
    );
    crate::graphics_store::law_put_changes_one_layer(old, new, slot, key);
    crate::graphics_store::law_put_changes_one_layer(old, new, slot, other);
}

} // verus!
