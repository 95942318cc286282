use woomer::frame::{has_buffer_done, BufferParams, FrameEvent, FrameState};
use woomer::outputs::{
    global_action, GlobalAction, OutputEvent, State, StateEvent, XdgOutputEvent,
};
use woomer::pixels::apply_transform;
use woomer::screencopy::{Capture, CaptureAction, Screencopy};
use woomer::wire::{ShmFormat, Transform};

const XRGB8888: u32 = 1;
const ABGR8888: u32 = 0x34324241;
const RGB565: u32 = 0x36314752;

fn offer(format: u32) -> FrameEvent {
    FrameEvent::Buffer { format, width: 2, height: 1, stride: 8 }
}

fn params(format: ShmFormat) -> BufferParams {
    BufferParams { width: 2, height: 1, stride: 8, format }
}

fn frame_after(events: &[FrameEvent]) -> FrameState {
    let mut frame = FrameState::new();
    for event in events {
        frame.event(*event);
    }
    frame
}

/// Two outputs, the second one known to xdg-output.
fn two_outputs() -> State {
    let mut state = State::new();
    state.bind_shm();
    state.bind_screencopy_manager();
    state.bind_output(5, None);
    state.bind_output(6, None);
    assert_eq!(state.outputs_without_xdg(), [5, 6]);
    state.bind_xdg_output_manager(&vec![15, 16]);
    assert!(state.outputs_without_xdg().is_empty());
    state.output_event(5, OutputEvent::Mode { width: 1920, height: 1080 });
    state.output_event(5, OutputEvent::Scale { factor: 2 });
    state.output_event(5, OutputEvent::Geometry { x: 10, y: 20, transform: 1 });
    state.xdg_output_event(16, XdgOutputEvent::LogicalPosition { x: 970, y: 20 });
    state.xdg_output_event(16, XdgOutputEvent::LogicalSize { width: 1280, height: 720 });
    state.xdg_output_event(16, XdgOutputEvent::Name { name: "DP-1".to_string() });
    state
}

fn geometry_of(screencopy: &Screencopy, place: usize) -> (i32, i32, i32, i32) {
    let outputs = screencopy.outputs();
    let geometry = outputs[place].geometry();
    (geometry.x(), geometry.y(), geometry.width(), geometry.height())
}

#[test]
fn globals_are_bound_up_to_known_versions() {
    assert_eq!(global_action("wl_shm", 2), GlobalAction::BindShm { version: 1 });
    assert_eq!(
        global_action("zwlr_screencopy_manager_v1", 2),
        GlobalAction::BindScreencopyManager { version: 2 }
    );
    assert_eq!(
        global_action("zwlr_screencopy_manager_v1", 9),
        GlobalAction::BindScreencopyManager { version: 3 }
    );
    assert_eq!(
        global_action("zxdg_output_manager_v1", 4),
        GlobalAction::BindXdgOutputManager { version: 3 }
    );
    assert_eq!(global_action("wl_output", 5), GlobalAction::BindOutput { version: 4 });
    assert_eq!(global_action("wl_seat", 5), GlobalAction::Ignore);
}

#[test]
fn missing_globals_are_errors() {
    assert_eq!(
        Screencopy::new(State::new()).unwrap_err(),
        "compositor does not support zwlr_screencopy_manager_v1"
    );
    let mut state = State::new();
    state.bind_screencopy_manager();
    assert_eq!(Screencopy::new(state).unwrap_err(), "compositor does not support wl_shm");
    let mut state = State::new();
    state.bind_shm();
    state.bind_screencopy_manager();
    assert!(Screencopy::new(state).is_ok());
}

#[test]
fn outputs_are_named_and_placed() {
    let screencopy = Screencopy::new(two_outputs()).unwrap();
    let outputs = screencopy.outputs();
    assert_eq!(outputs.len(), 2);
    assert_eq!(outputs[0].name(), "output-5");
    assert_eq!(outputs[1].name(), "DP-1");
    // Mode over scale, turned by a quarter.
    assert_eq!(geometry_of(&screencopy, 0), (10, 20, 540, 960));
    assert_eq!(geometry_of(&screencopy, 1), (970, 20, 1280, 720));
}

#[test]
fn output_name_counts_before_xdg_name() {
    let mut state = two_outputs();
    state.output_event(6, OutputEvent::Name { name: "HDMI-A-1".to_string() });
    state.xdg_output_event(16, XdgOutputEvent::Name { name: "other".to_string() });
    assert_eq!(state.outputs[1].resolved_name(), "HDMI-A-1");
}

#[test]
fn logical_place_is_kept() {
    let mut state = two_outputs();
    state.output_event(6, OutputEvent::Mode { width: 1, height: 1 });
    state.output_event(6, OutputEvent::Geometry { x: 1, y: 1, transform: 3 });
    assert_eq!(geometry_of(&Screencopy::new(state).unwrap(), 1), (970, 20, 1280, 720));
}

#[test]
fn unknown_transforms_and_objects_are_ignored() {
    let mut state = two_outputs();
    state.output_event(5, OutputEvent::Geometry { x: 1, y: 2, transform: 8 });
    assert_eq!(state.outputs[0].transform, Transform::Rotated90);
    state.output_event(99, OutputEvent::Scale { factor: 3 });
    state.xdg_output_event(99, XdgOutputEvent::LogicalSize { width: 1, height: 1 });
    state.output_event(5, OutputEvent::Other);
    state.xdg_output_event(15, XdgOutputEvent::Other);
    assert_eq!(state.outputs[0].scale, 2);
    assert!(!state.outputs[0].has_logical);
    assert_eq!(geometry_of(&Screencopy::new(state).unwrap(), 0), (1, 2, 540, 960));
}

#[test]
fn every_transform_code_is_known() {
    let transforms = [
        Transform::Normal,
        Transform::Rotated90,
        Transform::Rotated180,
        Transform::Rotated270,
        Transform::Flipped,
        Transform::Flipped90,
        Transform::Flipped180,
        Transform::Flipped270,
    ];
    let mut state = two_outputs();
    for (code, transform) in transforms.into_iter().enumerate() {
        state.output_event(5, OutputEvent::Geometry { x: 0, y: 0, transform: code as u32 });
        assert_eq!(state.outputs[0].transform, transform);
    }
}

#[test]
fn scales_below_one_count_as_one() {
    let mut state = two_outputs();
    state.output_event(5, OutputEvent::Scale { factor: 0 });
    state.output_event(5, OutputEvent::Mode { width: -7, height: 5 });
    state.output_event(5, OutputEvent::Geometry { x: 0, y: 0, transform: 0 });
    assert_eq!(state.outputs[0].geometry().width(), -7);
    state.output_event(5, OutputEvent::Scale { factor: 2 });
    assert_eq!(state.outputs[0].geometry().width(), -3);
    assert_eq!(state.outputs[0].geometry().height(), 2);
}

#[test]
fn approximate_size_matches_the_capture() {
    let mut state = two_outputs();
    state.output_event(5, OutputEvent::Scale { factor: 1 });
    state.output_event(5, OutputEvent::Mode { width: 3, height: 2 });
    for code in 0..8 {
        state.output_event(5, OutputEvent::Geometry { x: 0, y: 0, transform: code });
        let output = &state.outputs[0];
        let (_, width, height) = apply_transform(vec![0; 24], 3, 2, output.transform);
        let geometry = output.geometry();
        assert_eq!((geometry.width(), geometry.height()), (width as i32, height as i32));
    }
}

#[test]
fn late_outputs_bring_their_xdg_output() {
    let mut state = State::new();
    state.bind_xdg_output_manager(&vec![]);
    state.bind_output(7, Some(17));
    assert!(state.outputs_without_xdg().is_empty());
    state.xdg_output_event(17, XdgOutputEvent::LogicalSize { width: 3, height: 4 });
    assert!(state.outputs[0].has_logical);
}

#[test]
fn every_output_gets_one_xdg_output_in_either_order() {
    let mut state = State::new();
    assert!(!state.wants_xdg_output());
    state.event(StateEvent::OutputBound { id: 7, xdg_id: None });
    state.event(StateEvent::ShmBound);
    state.event(StateEvent::OutputBound { id: 8, xdg_id: None });
    assert_eq!(state.outputs_without_xdg(), [7, 8]);
    state.event(StateEvent::XdgOutputManagerBound { xdg_ids: vec![17, 18] });
    assert!(state.wants_xdg_output());
    state.event(StateEvent::OutputBound { id: 9, xdg_id: Some(19) });
    // Announced once more: there is no output left without its object.
    state.event(StateEvent::XdgOutputManagerBound { xdg_ids: vec![] });
    state.event(StateEvent::ScreencopyManagerBound);
    assert!(state.shm && state.screencopy_manager && state.xdg_output_manager);
    let ids: Vec<(u32, Option<u32>)> =
        state.outputs.iter().map(|output| (output.id, output.xdg_id)).collect();
    assert_eq!(ids, [(7, Some(17)), (8, Some(18)), (9, Some(19))]);
}

#[test]
fn announced_output_is_unknown() {
    let mut state = two_outputs();
    assert_eq!(global_action("wl_output", 3), GlobalAction::BindOutput { version: 3 });
    state.event(StateEvent::OutputBound { id: 9, xdg_id: Some(19) });
    assert_eq!(state.outputs.len(), 3);
    let output = &state.outputs[2];
    assert_eq!((output.id, output.xdg_id), (9, Some(19)));
    assert_eq!((&output.name, output.transform, output.scale), (&None, Transform::Normal, 1));
    assert_eq!((output.x, output.y, output.mode_width, output.mode_height), (0, 0, 0, 0));
    assert_eq!((output.logical_x, output.logical_y), (0, 0));
    assert_eq!((output.logical_width, output.logical_height), (0, 0));
    assert!(!output.has_logical);
}

#[test]
fn names_settle_in_either_order() {
    let named = || StateEvent::Output {
        id: 5,
        event: OutputEvent::Name { name: "DP-2".to_string() },
    };
    let xdg_named = || StateEvent::XdgOutput {
        xdg_id: 15,
        event: XdgOutputEvent::Name { name: "other".to_string() },
    };
    let mut state = two_outputs();
    state.event(named());
    state.event(xdg_named());
    assert_eq!(state.outputs[0].name, Some("DP-2".to_string()));
    let mut state = two_outputs();
    state.event(xdg_named());
    assert_eq!(state.outputs[0].name, Some("other".to_string()));
    state.event(named());
    assert_eq!(state.outputs[0].name, Some("DP-2".to_string()));
}

#[test]
fn capture_target_is_found_by_name() {
    let screencopy = Screencopy::new(two_outputs()).unwrap();
    let target = screencopy.capture_target("output-5").unwrap();
    assert_eq!((target.place, target.transform), (0, Transform::Rotated90));
    for (place, output) in screencopy.outputs().iter().enumerate() {
        assert_eq!(screencopy.capture_target(output.name()).unwrap().place, place);
    }
    assert_eq!(screencopy.capture_target("nope"), Err("output 'nope' not found".to_string()));
    let unbound = Screencopy { state: State::new() };
    assert_eq!(
        unbound.capture_target("x"),
        Err("compositor does not support zwlr_screencopy_manager_v1".to_string())
    );
    let mut state = State::new();
    state.bind_screencopy_manager();
    assert_eq!(
        Screencopy { state }.capture_target("x"),
        Err("compositor does not support wl_shm".to_string())
    );
}

#[test]
fn every_supported_format_code_is_known() {
    let codes = [
        (0, ShmFormat::Argb8888),
        (1, ShmFormat::Xrgb8888),
        (0x34324258, ShmFormat::Xbgr8888),
        (0x34324241, ShmFormat::Abgr8888),
        (0x30335258, ShmFormat::Xrgb2101010),
        (0x30335241, ShmFormat::Argb2101010),
        (0x30334258, ShmFormat::Xbgr2101010),
        (0x30334241, ShmFormat::Abgr2101010),
    ];
    for (code, format) in codes {
        assert_eq!(frame_after(&[offer(code)]).params, Some(params(format)));
    }
    assert_eq!(frame_after(&[offer(RGB565), offer(12345)]).params, None);
}

#[test]
fn first_supported_layout_is_kept() {
    let frame = frame_after(&[offer(RGB565), offer(ABGR8888), offer(XRGB8888)]);
    assert_eq!(frame.params, Some(params(ShmFormat::Abgr8888)));
}

#[test]
fn flags_ask_for_a_flip() {
    assert!(!frame_after(&[]).y_invert);
    assert!(frame_after(&[FrameEvent::Flags { flags: 1 }]).y_invert);
    assert!(!frame_after(&[FrameEvent::Flags { flags: 1 }, FrameEvent::Flags { flags: 0 }]).y_invert);
    assert!(frame_after(&[FrameEvent::Flags { flags: 1 }, FrameEvent::Flags { flags: 2 }]).y_invert);
    assert!(!frame_after(&[FrameEvent::Flags { flags: 3 }]).y_invert);
}

#[test]
fn old_frames_offer_one_layout() {
    assert!(!has_buffer_done(2));
    assert!(has_buffer_done(3));
    let frame = frame_after(&[offer(XRGB8888)]);
    assert_eq!(frame.buffer_choice(true), Ok(None));
    assert_eq!(frame.buffer_choice(false), Ok(Some(params(ShmFormat::Xrgb8888))));
}

#[test]
fn capture_runs_from_offer_to_image() {
    let mut capture = Capture::new(Transform::Flipped, 3);
    assert!(matches!(capture.next(), CaptureAction::Wait));
    assert!(!capture.is_readable());
    capture.event(offer(XRGB8888));
    assert!(matches!(capture.next(), CaptureAction::Wait));
    capture.event(FrameEvent::BufferDone);
    match capture.next() {
        CaptureAction::Copy { params: chosen, size } => {
            assert_eq!(chosen, params(ShmFormat::Xrgb8888));
            assert_eq!(size, 8);
        }
        other => panic!("unexpected action {:?}", other),
    }
    assert!(matches!(capture.next(), CaptureAction::Wait));
    capture.event(FrameEvent::Flags { flags: 0 });
    capture.event(FrameEvent::Ready);
    assert!(matches!(capture.next(), CaptureAction::Read { size: 8 }));
    assert!(capture.is_readable());
    assert_eq!(
        capture.finish(vec![1, 2, 3, 4, 5, 6, 7, 8]),
        (2, 1, vec![7, 6, 5, 255, 3, 2, 1, 255])
    );
}

fn failure(capture: &mut Capture) -> String {
    match capture.next() {
        CaptureAction::Fail { error } => error,
        other => panic!("unexpected action {:?}", other),
    }
}

#[test]
fn captures_fail_with_the_reason() {
    let mut capture = Capture::new(Transform::Normal, 3);
    capture.event(offer(RGB565));
    capture.event(FrameEvent::BufferDone);
    assert_eq!(
        failure(&mut capture),
        "compositor offered no supported screencopy buffer format"
    );

    let mut capture = Capture::new(Transform::Normal, 2);
    capture.event(FrameEvent::Buffer {
        format: XRGB8888,
        width: 1,
        height: u32::MAX,
        stride: u32::MAX,
    });
    assert_eq!(failure(&mut capture), "screencopy buffer size overflow");

    let mut capture = Capture::new(Transform::Normal, 2);
    capture.event(offer(XRGB8888));
    assert!(matches!(capture.next(), CaptureAction::Copy { .. }));
    capture.event(FrameEvent::Failed);
    assert_eq!(failure(&mut capture), "compositor failed to capture the output");
    capture.event(FrameEvent::Ready);
    capture.event(FrameEvent::Other);
    assert_eq!(failure(&mut capture), "compositor failed to capture the output");
}
