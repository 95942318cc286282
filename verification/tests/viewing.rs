use woomer::cli::{help_text, parse_args, Command};
use woomer::interaction::{
    draws_spotlight, middle_button, plan_frame, scroll_target, stroke_shapes, FrameInput,
    MiddleButton, Motion, Pan, ScrollTarget, Shape, Strokes,
};
use woomer::outputs::{Geometry, Output};
use woomer::selection::{
    active_output, raylib_monitor_index, scale_monitor, select_output, CursorPosition, Display,
    Monitor,
};

/// Adds a turn of the wheel to what it changes.
fn apply_scroll(
    amount: f32,
    spotlight_enabled: bool,
    shift_down: bool,
    zoom_delta: &mut f32,
    radius_delta: &mut f32,
) {
    match scroll_target(amount != 0.0, spotlight_enabled, shift_down) {
        ScrollTarget::Nothing => {}
        ScrollTarget::Zoom => *zoom_delta += amount,
        ScrollTarget::SpotlightRadius => *radius_delta -= amount,
    }
}

#[test]
fn shift_wheel_still_zooms_without_spotlight() {
    let mut zoom_delta = 0.0;
    let mut radius_delta = 0.0;
    apply_scroll(1.0, false, true, &mut zoom_delta, &mut radius_delta);
    assert_eq!(zoom_delta, 1.0);
    assert_eq!(radius_delta, 0.0);
}

#[test]
fn control_shift_wheel_changes_spotlight_radius() {
    let mut zoom_delta = 0.0;
    let mut radius_delta = 0.0;
    apply_scroll(1.0, true, true, &mut zoom_delta, &mut radius_delta);
    assert_eq!(zoom_delta, 0.0);
    assert_eq!(radius_delta, -1.0);
}

#[test]
fn still_wheel_changes_nothing() {
    assert_eq!(scroll_target(false, true, true), ScrollTarget::Nothing);
    assert_eq!(scroll_target(true, true, false), ScrollTarget::Zoom);
}

fn args(words: &[&str]) -> Vec<String> {
    words.iter().map(|word| word.to_string()).collect()
}

fn monitor_of(words: &[&str]) -> Option<String> {
    match parse_args(&args(words)) {
        Command::Run { monitor } => monitor,
        other => panic!("unexpected command {:?}", other),
    }
}

fn exit_of(words: &[&str]) -> (i32, String) {
    let exit = parse_args(&args(words)).exit("zoom").unwrap();
    (exit.code, exit.message)
}

#[test]
fn monitor_argument_names_the_output() {
    assert_eq!(monitor_of(&[]), None);
    assert_eq!(monitor_of(&["--monitor", "DP-1"]), Some("DP-1".to_string()));
    assert_eq!(
        monitor_of(&["--monitor", "DP-1", "--monitor", "--help"]),
        Some("--help".to_string())
    );
    assert!(parse_args(&args(&[])).exit("zoom").is_none());
}

#[test]
fn arguments_after_an_ending_one_do_not_matter() {
    assert_eq!(exit_of(&["--monitor", "a", "-h", "--monitor"]), exit_of(&["--monitor", "a", "-h"]));
    assert_eq!(exit_of(&["--bad", "--help"]), exit_of(&["--bad"]));
}

#[test]
fn other_arguments_end_the_program() {
    let help = "zoom  – Wayland screen-zoom tool

USAGE:
    zoom [--monitor <name>]

OPTIONS:
    --monitor <name>   Target monitor (Wayland output name); defaults to the focused output.
    -h, --help         Print this help.";
    assert_eq!(help_text("zoom"), help);
    assert_eq!(exit_of(&["--help"]), (0, help.to_string()));
    assert_eq!(exit_of(&["--monitor", "a", "-h", "--bad"]), (0, help.to_string()));
    assert_eq!(exit_of(&["--monitor"]), (1, "--monitor needs a value".to_string()));
    assert_eq!(exit_of(&["--bad"]), (1, format!("unknown argument: --bad\n{help}")));
}

fn output(name: &str, x: i32, y: i32, width: i32, height: i32) -> Output {
    Output { name: name.to_string(), geometry: Geometry { x, y, width, height } }
}

fn side_by_side() -> Vec<Output> {
    vec![output("A", 0, 0, 100, 50), output("B", 100, 0, 100, 50), output("C", 200, 0, 100, 50)]
}

fn monitor(name: &str, focused: bool, has_scale: bool) -> Monitor {
    Monitor { name: name.to_string(), focused, has_scale }
}

#[test]
fn focused_output_is_preferred() {
    let outputs = side_by_side();
    let monitors = [monitor("A", false, true), monitor("C", true, true), monitor("B", true, true)];
    let cursor = Some(CursorPosition { x: 120, y: 10 });
    assert_eq!(active_output(&outputs, Some(&monitors), cursor).name(), "C");
}

#[test]
fn output_under_cursor_comes_next() {
    let outputs = side_by_side();
    let strange = [monitor("elsewhere", true, true)];
    let at = |x: i64, y: i64| Some(CursorPosition { x, y });
    assert_eq!(active_output(&outputs, Some(&strange), at(100, 0)).name(), "B");
    assert_eq!(active_output(&outputs, None, at(199, 49)).name(), "B");
    assert_eq!(active_output(&outputs, None, at(200, 49)).name(), "C");
    assert_eq!(active_output(&outputs, None, at(150, 50)).name(), "A");
    assert_eq!(active_output(&outputs, None, at(-1, 0)).name(), "A");
    assert_eq!(active_output(&outputs, None, None).name(), "A");
}

#[test]
fn far_corner_of_the_coordinate_space_is_covered() {
    let outputs = vec![output("A", 0, 0, 1, 1), output("B", i32::MAX - 5, 0, 100, 1)];
    let cursor = Some(CursorPosition { x: i32::MAX as i64, y: 0 });
    assert_eq!(active_output(&outputs, None, cursor).name(), "B");
}

#[test]
fn cursor_outside_the_coordinate_space_is_over_no_output() {
    let outputs = side_by_side();
    let at = |x: i64, y: i64| Some(CursorPosition { x, y });
    assert_eq!(active_output(&outputs, None, at(120, 10)).name(), "B");
    assert_eq!(active_output(&outputs, None, at((1 << 32) + 120, 10)).name(), "A");
    assert_eq!(active_output(&outputs, None, at(120, 10 - (1 << 32))).name(), "A");
}

#[test]
fn named_output_is_selected() {
    let outputs = side_by_side();
    let monitors = [monitor("C", true, true)];
    assert_eq!(select_output(&outputs, Some("B"), Some(&monitors), None).unwrap().name(), "B");
    assert_eq!(select_output(&outputs, None, Some(&monitors), None).unwrap().name(), "C");
    assert_eq!(
        select_output(&outputs, Some("D"), Some(&monitors), None).unwrap_err(),
        "Output 'D' not found."
    );
    assert_eq!(
        select_output(&[], Some("D"), None, None).unwrap_err(),
        "No Wayland outputs found."
    );
}

#[test]
fn scale_comes_from_the_monitor_of_that_name() {
    let monitors = [monitor("A", false, false), monitor("B", true, true), monitor("A", true, true)];
    assert_eq!(scale_monitor("B", Some(&monitors)), Some(1));
    assert_eq!(scale_monitor("A", Some(&monitors)), None);
    assert_eq!(scale_monitor("C", Some(&monitors)), None);
    assert_eq!(scale_monitor("B", None), None);
}

fn display(name: Option<&str>, x: i32, y: i32) -> Display {
    Display { name: name.map(|name| name.to_string()), x, y }
}

#[test]
fn display_is_found_by_name_then_position_then_place() {
    let outputs = side_by_side();
    let b = &outputs[1];
    let by_name = [display(None, 0, 0), display(Some("X"), 100, 0), display(Some("B"), 7, 7)];
    assert_eq!(raylib_monitor_index(b, &outputs, &by_name), Some(2));
    let by_position = [display(None, 0, 0), display(Some("X"), 200, 0), display(None, 100, 0)];
    assert_eq!(raylib_monitor_index(b, &outputs, &by_position), Some(2));
    let by_place = [display(None, 1, 1), display(None, 2, 2)];
    assert_eq!(raylib_monitor_index(b, &outputs, &by_place), Some(1));
    assert_eq!(raylib_monitor_index(&outputs[2], &outputs, &by_place), None);
    assert_eq!(raylib_monitor_index(&output("Z", 9, 9, 1, 1), &outputs, &by_place), None);
}

fn idle() -> FrameInput {
    FrameInput {
        q_pressed: false,
        a_pressed: false,
        right_button_down: false,
        left_button_down: false,
        left_control_down: false,
        right_control_down: false,
        left_control_pressed: false,
        right_control_pressed: false,
        left_shift_down: false,
        right_shift_down: false,
        scrolled: false,
        coasting: false,
    }
}

#[test]
fn quitting_keys_end_the_program() {
    assert!(plan_frame(idle()).is_some());
    assert!(plan_frame(FrameInput { q_pressed: true, ..idle() }).is_none());
    assert!(plan_frame(FrameInput { a_pressed: true, ..idle() }).is_none());
    assert!(plan_frame(FrameInput { right_button_down: true, ..idle() }).is_none());
}

#[test]
fn frames_follow_the_input() {
    let plan = plan_frame(idle()).unwrap();
    assert!(!plan.spotlight && !plan.restart_spotlight && !plan.move_pivot);
    assert_eq!((plan.scroll, plan.pan), (ScrollTarget::Nothing, Pan::Stop));

    let plan = plan_frame(FrameInput {
        right_control_down: true,
        left_control_pressed: true,
        right_shift_down: true,
        scrolled: true,
        coasting: true,
        ..idle()
    })
    .unwrap();
    assert!(plan.spotlight && plan.restart_spotlight && plan.move_pivot);
    assert_eq!((plan.scroll, plan.pan), (ScrollTarget::SpotlightRadius, Pan::Coast));

    let plan =
        plan_frame(FrameInput { left_button_down: true, coasting: true, ..idle() }).unwrap();
    assert_eq!(plan.pan, Pan::Drag);
}

#[test]
fn frames_wait_when_nothing_moves() {
    let still = Motion {
        dragging: false,
        zooming: false,
        spotlight_resizing: false,
        coasting: false,
        spotlight_fading: false,
        strokes_shown: false,
    };
    assert!(!still.needs_frames());
    assert!(Motion { strokes_shown: true, ..still }.needs_frames());
    assert!(Motion { spotlight_fading: true, ..still }.needs_frames());
    assert!(draws_spotlight(true, false) && draws_spotlight(false, true));
    assert!(!draws_spotlight(false, false));
}

#[test]
fn middle_button_draws_a_stroke() {
    let mut strokes: Strokes<(f32, f32), f64> = Strokes::new();
    assert!(strokes.is_empty());
    strokes.draw(middle_button(false, true, false), (0.0, 0.0), true, 0.0);
    strokes.draw(MiddleButton::Released, (0.0, 0.0), true, 0.0);
    assert!(strokes.is_empty());
    strokes.draw(middle_button(true, true, false), (1.0, 1.0), false, 1.0);
    assert_eq!(strokes.open_end(), Some(&(1.0, 1.0)));
    strokes.draw(middle_button(false, true, true), (1.5, 1.0), false, 2.0);
    strokes.draw(middle_button(false, true, false), (4.0, 1.0), true, 3.0);
    assert_eq!(strokes.open_end(), Some(&(4.0, 1.0)));
    strokes.draw(middle_button(false, false, false), (9.0, 9.0), true, 4.0);
    strokes.draw(middle_button(false, false, true), (9.0, 9.0), true, 5.0);
    assert_eq!(strokes.open_end(), None);
    assert_eq!(strokes.strokes.len(), 1);
    assert_eq!(strokes.strokes[0].points, [(1.0, 1.0), (4.0, 1.0)]);
    assert_eq!(strokes.strokes[0].released_at, Some(5.0));
    strokes.draw(MiddleButton::Held, (9.0, 9.0), true, 6.0);
    assert_eq!(strokes.strokes[0].points.len(), 2);
}

#[test]
fn faded_strokes_disappear() {
    let mut strokes: Strokes<u8, u8> = Strokes::new();
    for point in 0..4u8 {
        strokes.draw(MiddleButton::Pressed, point, true, 0);
        if point != 3 {
            strokes.draw(MiddleButton::Released, point, true, point);
        }
    }
    strokes.drop_faded(&vec![true, false, true, true]);
    let points: Vec<u8> = strokes.strokes.iter().map(|stroke| stroke.points[0]).collect();
    assert_eq!(points, [1, 3]);
}

#[test]
fn strokes_are_dots_or_joined_lines() {
    assert!(stroke_shapes(0).is_empty());
    assert_eq!(stroke_shapes(1), [Shape::Dot { point: 0 }]);
    assert_eq!(
        stroke_shapes(3),
        [
            Shape::Line { from: 0, to: 1 },
            Shape::Line { from: 1, to: 2 },
            Shape::Joint { point: 0 },
            Shape::Joint { point: 1 },
            Shape::Joint { point: 2 },
        ]
    );
}
