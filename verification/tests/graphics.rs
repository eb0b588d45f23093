use base64::Engine;
use zynk::graphics_store::{
    Format, Layer, LayerData, Limits, PaneGraphics, Placement, Slot, StreamToken,
    MAX_LAYERS_PER_PANE,
};
use zynk::metadata::TokenStore;
use zynk::pane_graphics::{
    accept_decoded, canonicalize_bgra, decode_public_image, expected_len, graphics_key,
    handle_pane_graphics_info, ClearParams, DirectParams, FrameFile, HostGraphics, SetParams,
    StreamOpenParams, StreamParams, DIRECT_FILE_MAX_BYTES, MAX_ENCODED_BYTES, PRIMARY_LAYER_ID,
    SET_MAX_BYTES, STREAM_MAX_BYTES,
};
use zynk::response::Response;
use zynk::session::{Mode, Pane, PaneAlias, Session, Tab, Workspace};

const AT: Placement = Placement { viewport_col: 0, viewport_row: 0, grid_cols: 0, grid_rows: 0 };

fn limits() -> Limits {
    Limits { max_slots: 256, max_inline_bytes: 64 * 1024 * 1024 }
}

fn tab(ws: &str, pane: u64) -> Tab {
    Tab {
        public_id: format!("{ws}:t{pane}"),
        custom_name: None,
        panes: vec![Pane {
            id: pane,
            public_id: format!("{ws}-{pane}"),
            terminal_id: format!("term_{pane}"),
            seen: true,
        }],
        root_pane: pane,
        focused: pane,
        zoomed: false,
    }
}

fn workspace(id: &str, pane: u64) -> Workspace {
    Workspace {
        id: id.into(),
        custom_name: Some(id.into()),
        auto_label: id.into(),
        identity_cwd: None,
        tabs: vec![tab(id, pane)],
        active_tab: 0,
        worktree: None,
        tokens: TokenStore::new(),
    }
}

fn session(workspaces: Vec<Workspace>) -> Session {
    Session {
        workspaces,
        terminals: Vec::new(),
        pane_aliases: Vec::new(),
        active: Some(0),
        selected: 0,
        mode: Mode::Navigate,
        graphics_enabled: false,
        copy_mode_pane: None,
        events: Vec::new(),
        save_scheduled: false,
        tab_bar_stale: false,
        tab_scroll_follow_active: false,
        terminal_shutdowns: Vec::new(),
        presentation_deadline: None,
        metadata_deadline: None,
    }
}

/// A session of one workspace with one pane, its graphics, and the pane both ways.
fn fixture() -> (Session, PaneGraphics, String, u64) {
    let s = session(vec![workspace("w1", 1)]);
    (s, PaneGraphics::new(limits()), "w1-1".to_string(), 1)
}

fn enabled() -> (Session, PaneGraphics, String, u64) {
    let (mut s, g, target, pane) = fixture();
    s.graphics_enabled = true;
    (s, g, target, pane)
}

fn frame(pane_id: &str, layer_id: Option<&str>, owner: &str, value: u8) -> SetParams {
    SetParams {
        pane_id: pane_id.into(),
        layer_id: layer_id.map(str::to_owned),
        z_index: 2,
        owner: owner.to_owned(),
        format: Format::Rgba,
        image_width: 1,
        image_height: 1,
        data: Some(vec![value; 4]),
        data_base64: String::new(),
        placement: AT,
    }
}

fn public(pane_id: &str, format: Format, width: u32, height: u32, text: &str) -> SetParams {
    SetParams {
        format,
        image_width: width,
        image_height: height,
        data: None,
        data_base64: text.into(),
        z_index: 0,
        ..frame(pane_id, None, "", 0)
    }
}

fn stream(pane_id: &str, layer_id: Option<&str>, owner: &str) -> StreamParams {
    StreamParams {
        pane_id: pane_id.into(),
        layer_id: layer_id.map(str::to_owned),
        z_index: 0,
        owner: owner.into(),
    }
}

fn open(g: &mut PaneGraphics, s: &Session, params: StreamParams, token: u64) -> Response<()> {
    g.handle_pane_graphics_stream_open(
        s,
        "open".into(),
        StreamOpenParams { params, active: StreamToken { id: token, live: true } },
    )
}

fn code<T>(response: &Response<T>) -> &'static str {
    match &response.body {
        Ok(_) => "ok",
        Err(e) => e.code,
    }
}

fn clear(pane_id: &str, layer_id: Option<&str>) -> ClearParams {
    ClearParams { pane_id: pane_id.into(), layer_id: layer_id.map(str::to_owned) }
}

fn slot<'a>(g: &'a PaneGraphics, pane: u64, layer: &str) -> &'a Slot {
    &g.slots[g.find(pane, layer).expect("slot")]
}

fn layer<'a>(g: &'a PaneGraphics, pane: u64, name: &str) -> &'a Layer {
    slot(g, pane, name).layer.as_ref().expect("layer")
}

fn data<'a>(g: &'a PaneGraphics, pane: u64, name: &str) -> &'a [u8] {
    match &layer(g, pane, name).data {
        LayerData::Inline(bytes) => bytes,
        LayerData::Direct(_) => panic!("direct layer"),
    }
}

fn seed(g: &mut PaneGraphics, pane: u64) {
    let seeded = Layer {
        format: Format::Rgba,
        image_width: 1,
        image_height: 1,
        data: LayerData::Inline(vec![1, 2, 3, 4]),
        placement: AT,
        z_index: 0,
    };
    if let Some(i) = g.find(pane, PRIMARY_LAYER_ID) {
        g.slots[i].layer = Some(seeded);
    } else {
        let host_image_id = g.reserve_image_id(pane, PRIMARY_LAYER_ID).unwrap();
        g.slots.push(Slot {
            pane,
            layer_id: PRIMARY_LAYER_ID.into(),
            host_image_id,
            layer: Some(seeded),
            stream_owner: None,
            stream: None,
            direct_gate: None,
        });
        g.next_image_id += 1;
    }
}

fn snapshot(g: &PaneGraphics) -> Vec<(u64, String, Format, u32, u32, Vec<u8>, Placement, i32, Option<String>)> {
    let mut rows: Vec<_> = g
        .slots
        .iter()
        .map(|slot| {
            let layer = slot.layer.as_ref().unwrap();
            let bytes = match &layer.data {
                LayerData::Inline(bytes) => bytes.clone(),
                LayerData::Direct(_) => panic!("direct layer"),
            };
            (
                slot.pane,
                slot.layer_id.clone(),
                layer.format,
                layer.image_width,
                layer.image_height,
                bytes,
                layer.placement,
                layer.z_index,
                slot.stream_owner.clone(),
            )
        })
        .collect();
    rows.sort_by(|a, b| (a.0, &a.1).cmp(&(b.0, &b.1)));
    rows
}

fn host(width: u32, height: u32, directory: Option<&str>) -> HostGraphics {
    HostGraphics {
        cell_width_px: width,
        cell_height_px: height,
        file_frame_directory: directory.map(str::to_owned),
        pixel_mouse: false,
    }
}

fn visible(s: &Session, pane_id: &str) -> bool {
    let response = handle_pane_graphics_info(s, &host(10, 20, None), "info".into(), pane_id);
    response.body.unwrap().pane_visible
}

#[test]
fn info_reports_visibility_for_terminal_surface_workspace_tab_and_zoom() {
    let (mut s, _, pane_id, _) = enabled();
    s.mode = Mode::Terminal;
    assert!(visible(&s, &pane_id));

    s.workspaces.push(workspace("hidden", 2));
    assert!(!visible(&s, "hidden-2"));

    s.workspaces[0].tabs.push(tab("w1", 3));
    assert!(!visible(&s, "w1-3"));

    s.workspaces[0].tabs[0].panes.push(Pane {
        id: 4,
        public_id: "w1-4".into(),
        terminal_id: "term_4".into(),
        seen: true,
    });
    s.workspaces[0].tabs[0].focused = 4;
    s.workspaces[0].tabs[0].zoomed = true;
    assert!(!visible(&s, &pane_id));
    s.workspaces[0].tabs[0].zoomed = false;
    s.mode = Mode::Navigate;
    assert!(visible(&s, &pane_id));
}

#[test]
fn monolithic_info_keeps_fast_transport_and_exact_pixels_disabled() {
    let (s, g, pane_id, _) = enabled();
    let info = handle_pane_graphics_info(&s, &host(10, 20, None), "info".into(), &pane_id)
        .body
        .unwrap();
    assert!(info.file_frame_damage);
    assert_eq!(info.max_layers_per_pane, 16);
    assert!(!info.pixel_mouse);
    assert_eq!(info.file_frame_transport, None);
    assert!(info.file_frame_formats.is_empty());
    assert_eq!(info.file_frame_max_bytes, None);
    assert!(g.slots.is_empty());
}

#[test]
fn info_advertises_rgba_direct_and_bgra_fallback_file_formats_on_demand() {
    let (s, _, pane_id, _) = enabled();
    let info = handle_pane_graphics_info(&s, &host(10, 20, Some("/frames")), "info".into(), &pane_id)
        .body
        .unwrap();
    assert_eq!(info.file_frame_formats, vec![Format::Rgba, Format::Bgra]);
    assert_eq!(info.file_frame_max_bytes, Some(STREAM_MAX_BYTES));
    assert_eq!(info.file_frame_direct_max_bytes, Some(DIRECT_FILE_MAX_BYTES));
    assert_eq!(info.file_frame_directory.as_deref(), Some("/frames"));
    assert_eq!(info.file_frame_transport, Some("direct-kitty"));
}

#[test]
fn layers_are_isolated_and_stream_owned() {
    let (s, mut g, pane_id, pane) = enabled();
    for (name, z, value) in [(None, 0, 1), (Some("chrome"), 10, 2)] {
        let mut request = frame(&pane_id, name, "", value);
        request.z_index = z;
        let response = g.handle_pane_graphics_set(&s, format!("set-{value}"), request);
        assert_eq!(code(&response), "ok");
        assert_eq!(response.id, format!("set-{value}"));
    }
    assert_eq!(layer(&g, pane, PRIMARY_LAYER_ID).z_index, 0);
    assert_eq!(layer(&g, pane, "chrome").z_index, 10);
    assert_eq!(code(&open(&mut g, &s, stream(&pane_id, Some("chrome"), "stream"), 1)), "ok");
    assert_eq!(
        code(&g.handle_pane_graphics_set(
            &s,
            "conflict".into(),
            frame(&pane_id, Some("chrome"), "", 3)
        )),
        "stream_conflict"
    );
}

#[test]
fn validates_layer_and_frame_contracts() {
    let cases = [
        (Some("bad space"), 1, 1, vec![1; 4], "invalid_layer_id"),
        (None, 0, 1, vec![1; 4], "invalid_image"),
        (None, 1, 1, Vec::new(), "invalid_image"),
        (None, 1, 1, vec![1; 3], "invalid_image"),
    ];
    for (name, width, height, bytes, expected) in cases {
        let (s, mut g, pane_id, _) = enabled();
        let mut params = frame(&pane_id, name, "", 1);
        params.image_width = width;
        params.image_height = height;
        params.data = Some(bytes);
        let response = g.handle_pane_graphics_set(&s, "invalid".into(), params);
        assert_eq!(code(&response), expected);
        assert!(g.slots.is_empty());
    }
}

#[test]
fn disabled_requests_have_no_graphics_side_effects() {
    let (s, mut g, pane_id, _) = fixture();
    let revision = g.revision;
    let response =
        g.handle_pane_graphics_set(&s, "disabled".into(), frame(&pane_id, None, "", 1));
    assert_eq!(code(&response), "feature_disabled");
    assert!(g.slots.is_empty());
    assert_eq!(g.revision, revision);
}

#[test]
fn stream_owner_controls_only_its_named_layer() {
    let (s, mut g, pane_id, _) = enabled();
    let params = |owner: &str| stream(&pane_id, Some("chrome"), owner);
    assert_eq!(code(&open(&mut g, &s, params("owner"), 1)), "ok");
    assert_eq!(
        code(&g.handle_pane_graphics_stream_set(
            &s,
            "wrong".into(),
            frame(&pane_id, Some("chrome"), "other", 2)
        )),
        "stream_conflict"
    );
    assert_eq!(
        code(&g.handle_pane_graphics_stream_set(
            &s,
            "frame".into(),
            frame(&pane_id, Some("chrome"), "owner", 3)
        )),
        "ok"
    );
    g.handle_pane_graphics_stream_close(&s, "stale".into(), params("other"));
    assert_eq!(g.slots.len(), 1);
    g.handle_pane_graphics_stream_close(&s, "close".into(), params("owner"));
    assert!(g.slots.is_empty());
    assert_eq!(g.retired, vec![1]);
}

#[test]
fn static_set_and_clear_reclaim_inactive_stream_layers() {
    let (s, mut g, pane_id, pane) = enabled();
    for (token, name) in ["set", "clear"].into_iter().enumerate() {
        let owner = format!("owner-{name}");
        assert_eq!(
            code(&open(&mut g, &s, stream(&pane_id, Some(name), &owner), token as u64)),
            "ok"
        );
        let i = g.find(pane, name).unwrap();
        g.slots[i].stream = Some(StreamToken { id: token as u64, live: false });
    }
    assert_eq!(
        code(&g.handle_pane_graphics_set(
            &s,
            "set-static".into(),
            frame(&pane_id, Some("set"), "", 4)
        )),
        "ok"
    );
    assert_eq!(
        code(&g.handle_pane_graphics_clear(
            &s,
            "clear-static".into(),
            clear(&pane_id, Some("clear"))
        )),
        "ok"
    );
    assert_eq!(g.slots.len(), 1);
    assert!(g.slots.iter().all(|slot| slot.stream_owner.is_none()));
}

#[test]
fn layer_limit_counts_empty_and_populated_stream_slots() {
    let (s, mut g, pane_id, _) = enabled();
    for index in 0..MAX_LAYERS_PER_PANE {
        let name = format!("layer-{index}");
        let owner = format!("owner-{index}");
        assert_eq!(
            code(&open(&mut g, &s, stream(&pane_id, Some(&name), &owner), index as u64)),
            "ok"
        );
    }
    assert_eq!(
        code(&g.handle_pane_graphics_set(
            &s,
            "set-overflow".into(),
            frame(&pane_id, Some("set-overflow"), "", 1)
        )),
        "layer_limit"
    );
    assert_eq!(
        code(&open(&mut g, &s, stream(&pane_id, Some("overflow"), "overflow"), 99)),
        "layer_limit"
    );
    assert_eq!(g.slots.len(), 16);
}

#[test]
fn set_and_clear_preserve_runtime_only_layer_details() {
    let (s, mut g, pane_id, pane) = enabled();
    let mut params = frame(&pane_id, None, "", 9);
    params.placement.grid_cols = 10;
    params.placement.grid_rows = 4;
    assert_eq!(code(&g.handle_pane_graphics_set(&s, "set".into(), params)), "ok");
    assert_eq!(data(&g, pane, PRIMARY_LAYER_ID), [9; 4].as_slice());
    let at = layer(&g, pane, PRIMARY_LAYER_ID).placement;
    assert_eq!((at.grid_cols, at.grid_rows), (10, 4));
    assert!(!s.save_scheduled);
    assert_eq!(
        code(&g.handle_pane_graphics_clear(&s, "clear".into(), clear(&pane_id, None))),
        "ok"
    );
    assert!(g.slots.is_empty());
}

#[test]
fn raw_formats_require_exact_non_overflowing_lengths() {
    for (format, exact) in [(Format::Rgb, 6), (Format::Rgba, 8)] {
        for (length, expected) in [(exact, "ok"), (exact - 1, "invalid_image")] {
            let (s, mut g, pane_id, _) = enabled();
            let mut params = frame(&pane_id, None, "", 1);
            params.format = format;
            params.image_width = 2;
            params.data = Some(vec![1; length]);
            assert_eq!(code(&g.handle_pane_graphics_set(&s, "length".into(), params)), expected);
        }
        let (s, mut g, pane_id, _) = enabled();
        let mut params = frame(&pane_id, None, "", 1);
        params.format = format;
        params.image_width = u32::MAX;
        params.image_height = u32::MAX;
        assert_eq!(
            code(&g.handle_pane_graphics_set(&s, "overflow".into(), params)),
            "invalid_image"
        );
    }
    assert_eq!(expected_len(Format::Png, u32::MAX, u32::MAX), Ok(None));
    assert_eq!(expected_len(Format::Rgb, 2, 3), Ok(Some(18)));
    assert_eq!(expected_len(Format::Bgra, u32::MAX, u32::MAX), Err(()));
}

#[test]
fn public_frames_validate_base64_and_public_size_limit() {
    let (s, mut g, pane_id, _) = enabled();
    assert_eq!(
        code(&g.handle_pane_graphics_set(
            &s,
            "base64".into(),
            public(&pane_id, Format::Png, 1, 1, "not base64")
        )),
        "invalid_image"
    );
    let large = base64::engine::general_purpose::STANDARD.encode(vec![1; SET_MAX_BYTES + 1]);
    assert_eq!(
        code(&g.handle_pane_graphics_set(
            &s,
            "large".into(),
            public(&pane_id, Format::Png, 1, 1, &large)
        )),
        "image_too_large"
    );
}

#[test]
fn aliases_resolve_to_the_same_layer_identity() {
    let (mut s, mut g, pane_id, pane) = enabled();
    let alias = format!("{pane_id}:alias");
    s.pane_aliases.push(PaneAlias { alias: alias.clone(), pane });
    assert_eq!(code(&open(&mut g, &s, stream(&pane_id, None, "owner"), 1)), "ok");
    assert_eq!(
        code(&open(&mut g, &s, stream(&alias, None, "other"), 2)),
        "stream_conflict"
    );
    g.handle_pane_graphics_stream_close(&s, "stale".into(), stream(&alias, None, "other"));
    assert_eq!(g.slots.len(), 1);
    g.handle_pane_graphics_stream_close(&s, "close".into(), stream(&alias, None, "owner"));
    assert!(g.slots.is_empty());
}

fn direct(pane_id: &str, owner: &str) -> DirectParams {
    DirectParams {
        pane_id: pane_id.into(),
        layer_id: None,
        z_index: 0,
        owner: owner.into(),
        format: Format::Rgba,
        image_width: 1,
        image_height: 1,
        path: "unused".into(),
        sequence: 1,
        revision: 1,
        placement: AT,
    }
}

fn leased(lease: u64, bytes: &[u8]) -> FrameFile {
    FrameFile { lease: Ok(lease), copy: Ok(bytes.to_vec()) }
}

#[test]
fn direct_file_is_leased_or_safely_copied_for_inline_fallback() {
    let (s, mut g, pane_id, pane) = enabled();
    open(&mut g, &s, stream(&pane_id, None, "owner"), 1);
    for (width, height) in [(0, 1), (1, 0)] {
        let mut params = direct(&pane_id, "owner");
        (params.image_width, params.image_height) = (width, height);
        assert_eq!(
            code(&g.handle_pane_graphics_stream_direct(
                &s,
                "invalid".into(),
                params,
                false,
                leased(1, &[])
            )),
            "invalid_image"
        );
    }
    for format in [Format::Rgb, Format::Png] {
        let mut params = direct(&pane_id, "owner");
        params.format = format;
        assert_eq!(
            code(&g.handle_pane_graphics_stream_direct(
                &s,
                "invalid".into(),
                params,
                false,
                leased(1, &[])
            )),
            "invalid_image"
        );
    }
    let params = DirectParams { sequence: 7, revision: 8, ..direct(&pane_id, "owner") };
    let plan = g.plan_stream_direct(&s, &params, true).unwrap();
    assert_eq!((plan.pane, plan.direct, plan.expected_len), (pane, true, 4));
    let ack = g
        .handle_pane_graphics_stream_direct(
            &s,
            "direct".into(),
            params,
            true,
            leased(77, &[1, 2, 3, 4]),
        )
        .body
        .unwrap();
    assert_eq!((ack.sequence, ack.revision), (7, 8));
    assert!(matches!(layer(&g, pane, PRIMARY_LAYER_ID).data, LayerData::Direct(77)));

    g.handle_pane_graphics_stream_close(&s, "close".into(), stream(&pane_id, None, "owner"));
    open(&mut g, &s, stream(&pane_id, None, "owner"), 2);
    let params = DirectParams { sequence: 9, revision: 10, ..direct(&pane_id, "owner") };
    g.handle_pane_graphics_stream_direct(
        &s,
        "fallback".into(),
        params,
        false,
        leased(78, &[5, 6, 7, 8]),
    );
    assert_eq!(data(&g, pane, PRIMARY_LAYER_ID), [5, 6, 7, 8].as_slice());
}

#[test]
fn direct_primary_rgba_accepts_fullscreen_retina_frame() {
    let (s, mut g, pane_id, pane) = enabled();
    open(&mut g, &s, stream(&pane_id, None, "owner"), 1);
    let params = || DirectParams {
        image_width: 3456,
        image_height: 2234,
        ..direct(&pane_id, "owner")
    };
    let plan = g.plan_stream_direct(&s, &params(), true).unwrap();
    assert_eq!(plan.expected_len, 3456 * 2234 * 4);
    assert!(plan.direct);
    let response =
        g.handle_pane_graphics_stream_direct(&s, "frame".into(), params(), true, leased(5, &[]));
    assert_eq!(code(&response), "ok");
    assert!(matches!(layer(&g, pane, PRIMARY_LAYER_ID).data, LayerData::Direct(5)));
    // The same frame is too large to be copied.
    assert_eq!(
        g.plan_stream_direct(&s, &params(), false).unwrap_err().code,
        "invalid_image"
    );
}

#[test]
fn bgra_and_secondary_file_frames_are_canonical_owned_rgba() {
    let (s, mut g, pane_id, pane) = enabled();
    for (token, (name, format, source)) in [
        ("browser-chrome", Format::Rgba, [1, 2, 3, 4]),
        ("primary", Format::Bgra, [3, 2, 1, 4]),
    ]
    .into_iter()
    .enumerate()
    {
        open(&mut g, &s, stream(&pane_id, Some(name), name), token as u64);
        let params = DirectParams {
            layer_id: Some(name.into()),
            format,
            ..direct(&pane_id, name)
        };
        g.handle_pane_graphics_stream_direct(
            &s,
            format!("frame-{name}"),
            params,
            true,
            leased(1, &source),
        );
        assert_eq!(data(&g, pane, name), [1, 2, 3, 4].as_slice());
    }
}

#[test]
fn frame_files_that_fail_leave_the_stream_as_it_was() {
    let (s, mut g, pane_id, pane) = enabled();
    open(&mut g, &s, stream(&pane_id, None, "owner"), 1);
    let revision = g.revision;
    let no_lease = FrameFile { lease: Err("gone".into()), copy: Err("gone".into()) };
    let response = g.handle_pane_graphics_stream_direct(
        &s,
        "lease".into(),
        direct(&pane_id, "owner"),
        true,
        no_lease,
    );
    let error = response.body.unwrap_err();
    assert_eq!((error.code, error.message.as_str()), ("invalid_frame_file", "gone"));
    let no_copy = FrameFile { lease: Ok(1), copy: Err("short read".into()) };
    let response = g.handle_pane_graphics_stream_direct(
        &s,
        "copy".into(),
        direct(&pane_id, "owner"),
        false,
        no_copy,
    );
    assert_eq!(code(&response), "invalid_frame_file");
    let short = g.handle_pane_graphics_stream_direct(
        &s,
        "short".into(),
        direct(&pane_id, "owner"),
        false,
        leased(1, &[1, 2, 3]),
    );
    let error = short.body.unwrap_err();
    assert_eq!(
        (error.code, error.message.as_str()),
        ("invalid_frame_file", "frame file does not have the expected length")
    );
    let response = g.handle_pane_graphics_stream_direct(
        &s,
        "owner".into(),
        direct(&pane_id, "other"),
        true,
        leased(1, &[]),
    );
    assert_eq!(code(&response), "stream_closed");
    assert!(slot(&g, pane, PRIMARY_LAYER_ID).layer.is_none());
    assert_eq!(g.revision, revision);
}

#[test]
fn disabled_info_and_stream_requests_are_rejected() {
    let (s, mut g, pane_id, _) = fixture();
    assert_eq!(
        code(&handle_pane_graphics_info(&s, &host(1, 1, None), "info".into(), &pane_id)),
        "feature_disabled"
    );
    assert_eq!(
        code(&open(&mut g, &s, stream(&pane_id, None, "owner"), 1)),
        "feature_disabled"
    );
    assert!(g.slots.is_empty());
}

#[test]
fn m832b_claim_conflicts_and_cleanup_follow_resolved_pane() {
    let mut s = session(vec![workspace("w1", 1), workspace("w2", 2)]);
    s.graphics_enabled = true;
    s.pane_aliases.push(PaneAlias { alias: "1:p1".into(), pane: 1 });
    let mut g = PaneGraphics::new(limits());
    assert_eq!(code(&open(&mut g, &s, stream("1:p1", None, "owner"), 1)), "ok");
    assert_eq!(slot(&g, 1, PRIMARY_LAYER_ID).stream_owner.as_deref(), Some("owner"));
    seed(&mut g, 1);
    let before = snapshot(&g);
    let revision = g.revision;
    let set = g.handle_pane_graphics_set(
        &s,
        "set".into(),
        public("1:p1", Format::Rgba, 1, 1, "BQYHCA=="),
    );
    assert_eq!(code(&set), "stream_conflict");
    let cleared = g.handle_pane_graphics_clear(&s, "clear".into(), clear("1:p1", None));
    assert_eq!(code(&cleared), "stream_conflict");
    assert_eq!(code(&open(&mut g, &s, stream("1:p1", None, "second"), 2)), "stream_conflict");
    assert_eq!(snapshot(&g), before);
    assert_eq!(g.revision, revision);

    // The short name now leads to the other pane.
    s.pane_aliases[0].pane = 2;
    seed(&mut g, 2);
    let mut mine = frame("1:p1", None, "owner", 0);
    mine.data = Some(vec![5, 6, 7, 8]);
    assert_eq!(
        code(&g.handle_pane_graphics_stream_set(&s, "frame".into(), mine)),
        "stream_conflict"
    );
    assert_eq!(data(&g, 1, PRIMARY_LAYER_ID), &[1, 2, 3, 4]);
    assert_eq!(data(&g, 2, PRIMARY_LAYER_ID), &[1, 2, 3, 4]);
    let mut mine = frame("w1-1", None, "owner", 0);
    mine.data = Some(vec![5, 6, 7, 8]);
    assert_eq!(code(&g.handle_pane_graphics_stream_set(&s, "frame".into(), mine)), "ok");
    assert_eq!(data(&g, 1, PRIMARY_LAYER_ID), &[5, 6, 7, 8]);
    assert_eq!(data(&g, 2, PRIMARY_LAYER_ID), &[1, 2, 3, 4]);

    let missing =
        g.handle_pane_graphics_stream_close(&s, "close".into(), stream("missing", None, "owner"));
    assert_eq!(code(&missing), "pane_not_found");
    assert!(g.retired.is_empty());
    let closed =
        g.handle_pane_graphics_stream_close(&s, "close".into(), stream("w1-1", None, "owner"));
    assert_eq!(code(&closed), "ok");
    assert_eq!(g.retired, vec![1]);
    assert!(g.find(1, PRIMARY_LAYER_ID).is_none());
    assert_eq!(data(&g, 2, PRIMARY_LAYER_ID), &[1, 2, 3, 4]);

    assert_eq!(code(&open(&mut g, &s, stream("w1-1", None, "successor"), 3)), "ok");
    seed(&mut g, 1);
    let late =
        g.handle_pane_graphics_stream_close(&s, "close".into(), stream("w1-1", None, "owner"));
    assert_eq!(code(&late), "ok");
    assert_eq!(slot(&g, 1, PRIMARY_LAYER_ID).stream_owner.as_deref(), Some("successor"));
    assert_eq!(g.retired, vec![1]);
    assert_eq!(data(&g, 1, PRIMARY_LAYER_ID), &[1, 2, 3, 4]);
}

#[test]
fn m832b_disabled_stream_admission_keeps_cleanup_available() {
    let (mut s, mut g, target, pane) = fixture();
    let bad = |target: &str| {
        let mut params = frame(target, None, "disabled", 1);
        params.image_width = 0;
        params.image_height = 0;
        params.data = Some(vec![1]);
        params
    };
    assert_eq!(
        code(&open(&mut g, &s, stream("missing", None, "disabled"), 1)),
        "feature_disabled"
    );
    assert_eq!(
        code(&g.handle_pane_graphics_stream_set(&s, "frame".into(), bad("missing"))),
        "feature_disabled"
    );
    assert!(g.slots.is_empty());
    s.graphics_enabled = true;
    assert_eq!(code(&open(&mut g, &s, stream(&target, None, "disabled"), 1)), "ok");
    seed(&mut g, pane);
    s.graphics_enabled = false;
    let before = snapshot(&g);
    assert_eq!(
        code(&g.handle_pane_graphics_stream_set(&s, "frame".into(), bad(&target))),
        "feature_disabled"
    );
    assert_eq!(snapshot(&g), before);
    let closed =
        g.handle_pane_graphics_stream_close(&s, "close".into(), stream(&target, None, "disabled"));
    assert_eq!(code(&closed), "ok");
    assert_eq!(g.retired, vec![1]);
    assert!(g.slots.is_empty());
}

#[test]
fn m832b_raw_stream_cap_and_invalid_frame_preserve_claim_and_layer() {
    let (s, mut g, target, pane) = enabled();
    assert_eq!(code(&open(&mut g, &s, stream(&target, None, "cap"), 1)), "ok");
    let request = |length: usize, format, width| {
        let mut params = frame(&target, None, "cap", 1);
        params.format = format;
        params.image_width = width;
        params.data = Some(vec![1; length]);
        params
    };
    assert_eq!(STREAM_MAX_BYTES, 16 * 1024 * 1024);
    let full = g.handle_pane_graphics_stream_set(
        &s,
        "frame".into(),
        request(STREAM_MAX_BYTES, Format::Png, 1),
    );
    assert_eq!(code(&full), "ok");
    assert_eq!(data(&g, pane, PRIMARY_LAYER_ID).len(), STREAM_MAX_BYTES);
    let before = snapshot(&g);
    let revision = g.revision;
    for (length, format, width, expected) in [
        (STREAM_MAX_BYTES + 1, Format::Png, 1, "image_too_large"),
        (3, Format::Rgba, 1, "invalid_image"),
        (4, Format::Rgba, 0, "invalid_image"),
    ] {
        let response =
            g.handle_pane_graphics_stream_set(&s, "frame".into(), request(length, format, width));
        assert_eq!(code(&response), expected);
        assert_eq!(snapshot(&g), before);
        assert_eq!(g.revision, revision);
        assert_eq!(slot(&g, pane, PRIMARY_LAYER_ID).stream_owner.as_deref(), Some("cap"));
    }
}

#[test]
fn m832a_all_static_methods_are_gated_without_mutation() {
    let (s, mut g, target, pane) = fixture();
    seed(&mut g, pane);
    g.revision = 17;
    let before = snapshot(&g);
    for (pane_id, width, text) in [
        (target.as_str(), 1, "BQYHCA=="),
        ("missing-pane", 1, "BQYHCA=="),
        (target.as_str(), 0, "!!!!"),
    ] {
        let response = g.handle_pane_graphics_set(
            &s,
            "static-api".into(),
            public(pane_id, Format::Rgba, width, 1, text),
        );
        assert_eq!(code(&response), "feature_disabled");
    }
    for pane_id in [target.as_str(), "missing-pane"] {
        let response = g.handle_pane_graphics_clear(&s, "static-api".into(), clear(pane_id, None));
        assert_eq!(code(&response), "feature_disabled");
        let response =
            handle_pane_graphics_info(&s, &host(1, 1, None), "static-api".into(), pane_id);
        assert_eq!(code(&response), "feature_disabled");
    }
    assert_eq!(snapshot(&g), before);
    assert_eq!(g.revision, 17);
    assert!(!s.save_scheduled);
}

#[test]
fn m832a_static_payload_boundaries_and_refusals_preserve_prior_layer() {
    let cap = 512 * 1024;
    let (s, mut g, target, pane) = enabled();
    let encode = |bytes: &[u8]| base64::engine::general_purpose::STANDARD.encode(bytes);
    for length in [cap - 2, cap - 1, cap] {
        let bytes = vec![42_u8; length];
        let response = g.handle_pane_graphics_set(
            &s,
            "static-api".into(),
            public(&target, Format::Png, 1, 1, &encode(&bytes)),
        );
        assert_eq!(code(&response), "ok");
        assert!(data(&g, pane, PRIMARY_LAYER_ID) == bytes, "length={length}");
    }
    let rgb = g.handle_pane_graphics_set(
        &s,
        "static-api".into(),
        public(&target, Format::Rgb, 1, 1, "AQID"),
    );
    assert_eq!(code(&rgb), "ok");
    assert_eq!(data(&g, pane, PRIMARY_LAYER_ID), &[1, 2, 3]);
    assert_eq!(layer(&g, pane, PRIMARY_LAYER_ID).format, Format::Rgb);
    let before = snapshot(&g);
    let revision = g.revision;
    let invalid = [
        (Format::Png, 1_u32, 1_u32, encode(&vec![42_u8; cap + 1]), "image_too_large"),
        (Format::Png, 1, 1, "!".repeat(cap.div_ceil(3) * 4 + 1), "image_too_large"),
        (Format::Png, 1, 1, "!!!!".into(), "invalid_image"),
        (Format::Png, 1, 1, "AQI=".to_owned() + "=", "invalid_image"),
        (Format::Rgba, 0, 1, "AQIDBA==".into(), "invalid_image"),
        (Format::Rgba, 1, 0, "AQIDBA==".into(), "invalid_image"),
        (Format::Rgba, u32::MAX, u32::MAX, "AQIDBA==".into(), "invalid_image"),
        (Format::Rgba, 2, 1, "AQIDBA==".into(), "invalid_image"),
        (Format::Rgb, 1, 1, "AQI=".into(), "invalid_image"),
        (Format::Rgb, 1, 1, "AQIDBA==".into(), "invalid_image"),
        (Format::Rgb, 2, 1, "AQID".into(), "invalid_image"),
        (Format::Png, 1, 1, String::new(), "invalid_image"),
    ];
    for (index, (format, width, height, text, expected)) in invalid.into_iter().enumerate() {
        let response = g.handle_pane_graphics_set(
            &s,
            "static-api".into(),
            public(&target, format, width, height, &text),
        );
        assert_eq!(code(&response), expected, "invalid index={index}");
        assert!(snapshot(&g) == before, "invalid index={index}");
        assert_eq!(g.revision, revision, "invalid index={index}");
    }
    assert!(!s.save_scheduled);
}

#[test]
fn m832a_info_uses_available_cell_size_and_preserves_layer() {
    let (s, mut g, target, pane) = enabled();
    seed(&mut g, pane);
    let before = snapshot(&g);
    let revision = g.revision;
    let unknown = handle_pane_graphics_info(&s, &host(0, 0, None), "i".into(), &target);
    assert_eq!(code(&unknown), "cell_size_unavailable");
    for (width, height) in [(11, 22), (8, 16)] {
        let info = handle_pane_graphics_info(&s, &host(width, height, None), "i".into(), &target)
            .body
            .unwrap();
        assert_eq!((info.cell_width_px, info.cell_height_px), (width, height));
    }
    let missing = g.handle_pane_graphics_set(
        &s,
        "s".into(),
        public("missing-pane", Format::Rgba, 1, 1, "AQIDBA=="),
    );
    assert_eq!(code(&missing), "pane_not_found");
    let missing = g.handle_pane_graphics_clear(&s, "c".into(), clear("missing-pane", None));
    assert_eq!(code(&missing), "pane_not_found");
    let missing = handle_pane_graphics_info(&s, &host(8, 16, None), "i".into(), "missing-pane");
    assert_eq!(
        missing.body.unwrap_err().message,
        "pane missing-pane not found"
    );
    assert_eq!(snapshot(&g), before);
    assert_eq!(g.revision, revision);
}

#[test]
fn m832b_late_queued_open_preserves_future_static_layer() {
    let (s, mut g, target, pane) = enabled();
    let revision = g.revision;
    let set = g.handle_pane_graphics_set(
        &s,
        "static".into(),
        public(&target, Format::Rgba, 1, 1, "AQIDBA=="),
    );
    assert_eq!(code(&set), "ok");
    let late = g.handle_pane_graphics_stream_open(
        &s,
        "late".into(),
        StreamOpenParams {
            params: stream(&target, None, "late"),
            active: StreamToken { id: 1, live: false },
        },
    );
    assert_eq!(code(&late), "stream_closed");
    assert!(!g.sync_pane_graphics_streams(&s));
    assert!(slot(&g, pane, PRIMARY_LAYER_ID).stream_owner.is_none());
    assert_eq!(data(&g, pane, PRIMARY_LAYER_ID), [1, 2, 3, 4]);
    assert_eq!(g.revision, revision.wrapping_add(1));
}

#[test]
fn m832b_idle_cleanup_is_app_local_and_requests_full_render() {
    for drop_token in [false, true] {
        let (s, mut a, target, pane) = enabled();
        let (t, mut b, other, _) = enabled();
        assert_eq!(code(&open(&mut a, &s, stream(&target, None, "same"), 1)), "ok");
        assert_eq!(code(&open(&mut b, &t, stream(&other, None, "same"), 2)), "ok");
        seed(&mut a, pane);
        let revision = a.revision;
        let i = a.find(pane, PRIMARY_LAYER_ID).unwrap();
        a.slots[i].stream = if drop_token {
            None
        } else {
            Some(StreamToken { id: 1, live: false })
        };
        assert!(a.sync_pane_graphics_streams(&s), "drop_token={drop_token}");
        assert!(a.slots.is_empty());
        assert_eq!(a.revision, revision.wrapping_add(1));
        assert_eq!(a.retired, if drop_token { vec![] } else { vec![1] });
        assert!(!b.sync_pane_graphics_streams(&t));
        assert_eq!(slot(&b, pane, PRIMARY_LAYER_ID).stream_owner.as_deref(), Some("same"));
    }
}

#[test]
fn m832b_request_boundary_cancels_removed_owner_before_next_dequeue() {
    let (mut s, mut g, target, _) = enabled();
    assert_eq!(code(&open(&mut g, &s, stream(&target, None, "removed"), 9)), "ok");
    s.workspaces.clear();
    assert!(g.sync_pane_graphics_streams(&s));
    assert_eq!(g.retired, vec![9]);
    assert!(g.slots.is_empty());
    assert!(!g.sync_pane_graphics_streams(&s));
}

#[test]
fn switching_the_feature_off_drops_every_layer() {
    let (mut s, mut g, target, pane) = enabled();
    seed(&mut g, pane);
    open(&mut g, &s, stream(&target, Some("live"), "owner"), 4);
    s.graphics_enabled = false;
    assert!(g.sync_pane_graphics_streams(&s));
    assert!(g.slots.is_empty());
    assert_eq!(g.retired, vec![4]);
}

#[test]
fn decoding_reaches_the_base64_engine() {
    assert_eq!(decode_public_image("AQIDBA==").unwrap(), vec![1, 2, 3, 4]);
    assert_eq!(decode_public_image("").unwrap(), Vec::<u8>::new());
    let error = decode_public_image("AQIDBA=").unwrap_err();
    assert_eq!(
        (error.code, error.message.as_str()),
        ("invalid_image", "data_base64 is not valid base64")
    );
    assert_eq!(
        decode_public_image(&"A".repeat(MAX_ENCODED_BYTES + 1)).unwrap_err().code,
        "image_too_large"
    );
    assert_eq!(MAX_ENCODED_BYTES, SET_MAX_BYTES.div_ceil(3) * 4);
    for length in 0..40_usize {
        let bytes: Vec<u8> = (0..length).map(|n| (n * 37 % 251) as u8).collect();
        let text = base64::engine::general_purpose::STANDARD.encode(&bytes);
        assert_eq!(base64::decoded_len_estimate(text.len()), (text.len() + 3) / 4 * 3);
        assert_eq!(decode_public_image(&text).unwrap(), bytes);
    }
    for length in 0..20_usize {
        assert_eq!(base64::decoded_len_estimate(length), (length + 3) / 4 * 3);
    }
}

#[test]
fn decoded_results_become_replies() {
    assert_eq!(accept_decoded(Ok(vec![1, 2])).unwrap(), vec![1, 2]);
    assert_eq!(accept_decoded(Err(true)).unwrap_err().code, "image_too_large");
    assert_eq!(accept_decoded(Err(false)).unwrap_err().code, "invalid_image");
}

#[test]
fn channels_are_swapped_pixel_by_pixel_and_back() {
    let source: Vec<u8> = vec![1, 2, 3, 4, 5, 6, 7, 8, 9, 10];
    let mut bytes = source.clone();
    assert_eq!(canonicalize_bgra(Format::Bgra, &mut bytes), Format::Rgba);
    assert_eq!(bytes, vec![3, 2, 1, 4, 7, 6, 5, 8, 9, 10]);
    canonicalize_bgra(Format::Bgra, &mut bytes);
    assert_eq!(bytes, source);
    assert_eq!(canonicalize_bgra(Format::Rgb, &mut bytes), Format::Rgb);
    assert_eq!(bytes, source);
}

#[test]
fn layer_names_are_checked() {
    assert_eq!(graphics_key(7, &None), Ok((7, "primary".to_string())));
    assert_eq!(graphics_key(7, &Some("a.B_1:-".into())), Ok((7, "a.B_1:-".to_string())));
    assert_eq!(graphics_key(7, &Some("x".repeat(64))), Ok((7, "x".repeat(64))));
    for (name, problem) in [
        (String::new(), "layer_id must contain between 1 and 64 characters"),
        ("x".repeat(65), "layer_id must contain between 1 and 64 characters"),
        ("\u{e9}".repeat(33), "layer_id must contain between 1 and 64 characters"),
        ("a/b".to_string(), "layer_id contains unsupported characters"),
        ("\u{e9}".to_string(), "layer_id contains unsupported characters"),
    ] {
        assert_eq!(graphics_key(7, &Some(name)), Err(problem));
    }
}

#[test]
fn budgets_and_image_ids_run_out() {
    let (s, _, target, pane) = enabled();
    let mut g = PaneGraphics::new(Limits { max_slots: 2, max_inline_bytes: 6 });
    assert_eq!(
        code(&g.handle_pane_graphics_set(&s, "a".into(), frame(&target, None, "", 1))),
        "ok"
    );
    assert_eq!(
        code(&g.handle_pane_graphics_set(&s, "b".into(), frame(&target, Some("b"), "", 1))),
        "graphics_budget_exceeded"
    );
    // The layer's own bytes do not count against it.
    assert_eq!(
        code(&g.handle_pane_graphics_set(&s, "a".into(), frame(&target, None, "", 2))),
        "ok"
    );
    let id = slot(&g, pane, PRIMARY_LAYER_ID).host_image_id;
    assert_eq!(id, 1);
    g.next_image_id = u32::MAX;
    assert_eq!(
        code(&open(&mut g, &s, stream(&target, Some("c"), "o"), 1)),
        "layer_limit"
    );
    assert_eq!(
        code(&open(&mut g, &s, stream(&target, Some("c"), ""), 1)),
        "invalid_stream"
    );
    g.next_image_id = 2;
    assert_eq!(code(&open(&mut g, &s, stream(&target, Some("c"), "o"), 1)), "ok");
    assert_eq!(code(&open(&mut g, &s, stream(&target, Some("d"), "o"), 1)), "layer_limit");
}

#[test]
fn a_stream_takes_frames_from_its_opening_to_its_close() {
    let (s, mut g, pane_id, pane) = enabled();
    let send = |g: &mut PaneGraphics, owner: &str, value: u8| {
        let request = frame(&pane_id, Some("chrome"), owner, value);
        code(&g.handle_pane_graphics_stream_set(&s, "frame".into(), request))
    };
    assert_eq!(send(&mut g, "stream", 1), "stream_closed");
    assert_eq!(code(&open(&mut g, &s, stream(&pane_id, Some("chrome"), "stream"), 1)), "ok");
    assert!(g.slots[0].layer.is_none());
    let image = g.slots[0].host_image_id;
    assert_eq!(send(&mut g, "other", 2), "stream_conflict");
    assert_eq!(send(&mut g, "stream", 3), "ok");
    assert_eq!(send(&mut g, "stream", 4), "ok");
    assert_eq!(layer(&g, pane, "chrome").z_index, 2);
    assert_eq!(g.slots[0].host_image_id, image);
    let close = stream(&pane_id, Some("chrome"), "stream");
    assert_eq!(code(&g.handle_pane_graphics_stream_close(&s, "close".into(), close)), "ok");
    assert_eq!(send(&mut g, "stream", 5), "stream_closed");
}

#[test]
fn a_changed_layer_waits_for_no_earlier_frame() {
    let (s, mut g, pane_id, _) = enabled();
    let set = |g: &mut PaneGraphics| {
        code(&g.handle_pane_graphics_set(&s, "set".into(), frame(&pane_id, None, "", 1)))
    };
    assert_eq!(set(&mut g), "ok");
    g.slots[0].direct_gate = Some(9);
    assert_eq!(set(&mut g), "ok");
    assert_eq!(g.slots[0].direct_gate, None);
    g.slots[0].direct_gate = Some(9);
    assert_eq!(code(&open(&mut g, &s, stream(&pane_id, None, "stream"), 1)), "ok");
    assert_eq!(g.slots[0].direct_gate, None);
    g.slots[0].direct_gate = Some(9);
    let direct = DirectParams {
        pane_id: pane_id.clone(),
        layer_id: None,
        z_index: 0,
        owner: "stream".into(),
        format: Format::Rgba,
        image_width: 1,
        image_height: 1,
        path: "/frames/1".into(),
        sequence: 1,
        revision: 2,
        placement: AT,
    };
    let file = FrameFile { lease: Ok(3), copy: Ok(vec![0; 4]) };
    let drawn = g.handle_pane_graphics_stream_direct(&s, "d".into(), direct, true, file);
    assert_eq!(code(&drawn), "ok");
    assert_eq!(g.slots[0].direct_gate, None);
}

#[test]
fn base64_text_gives_its_bytes_back() {
    for len in [0, 1, 2, 3, 4, 255, 256, 257] {
        let bytes: Vec<u8> = (0..len).map(|i| (i * 7 + 250) as u8).collect();
        let text = base64::engine::general_purpose::STANDARD.encode(&bytes);
        assert_eq!(text.len(), (bytes.len() + 2) / 3 * 4);
        assert_eq!(decode_public_image(&text).unwrap(), bytes);
    }
}
