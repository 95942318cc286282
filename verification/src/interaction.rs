//! What the mouse and the keyboard do while the screenshot is on screen.

use vstd::prelude::*;

verus! {

/// The input of one frame.
#[derive(Debug, Clone, Copy, PartialEq, Eq, Structural)]
pub struct FrameInput {
    pub q_pressed: bool,
    pub a_pressed: bool,
    pub right_button_down: bool,
    pub left_button_down: bool,
    pub left_control_down: bool,
    pub right_control_down: bool,
    pub left_control_pressed: bool,
    pub right_control_pressed: bool,
    pub left_shift_down: bool,
    pub right_shift_down: bool,
    /// Whether the wheel turned.
    pub scrolled: bool,
    /// Whether the view still moves faster than the speed at which it stops.
    pub coasting: bool,
}

/// What the wheel changes.
#[derive(Debug, Clone, Copy, PartialEq, Eq, Structural)]
pub enum ScrollTarget {
    Nothing,
    Zoom,
    SpotlightRadius,
}

/// How the view moves.
#[derive(Debug, Clone, Copy, PartialEq, Eq, Structural)]
pub enum Pan {
    /// With the mouse.
    Drag,
    /// On its own, slower and slower.
    Coast,
    Stop,
}

/// What one frame does.
#[derive(Debug, Clone, Copy, PartialEq, Eq, Structural)]
pub struct FramePlan {
    pub spotlight: bool,
    /// Whether the spotlight closes in on the cursor from afar.
    pub restart_spotlight: bool,
    pub scroll: ScrollTarget,
    /// Whether the cursor becomes the point that zooming keeps in place.
    pub move_pivot: bool,
    pub pan: Pan,
}

/// Whether the input ends the program.
pub open spec fn quits(input: FrameInput) -> bool {
    input.q_pressed || input.a_pressed || input.right_button_down
}

/// What the wheel changes: the spotlight's radius while the spotlight is on
/// and Shift is down, the zoom otherwise.
pub open spec fn scrolls(scrolled: bool, spotlight: bool, shift_down: bool) -> ScrollTarget {
    if !scrolled {
        ScrollTarget::Nothing
    } else if spotlight && shift_down {
        ScrollTarget::SpotlightRadius
    } else {
        ScrollTarget::Zoom
    }
}

/// What a frame with this input does.
pub open spec fn plan(input: FrameInput) -> FramePlan {
    let spotlight = input.left_control_down || input.right_control_down;
    FramePlan {
        spotlight,
        restart_spotlight: input.left_control_pressed || input.right_control_pressed,
        scroll: scrolls(input.scrolled, spotlight, input.left_shift_down || input.right_shift_down),
        move_pivot: input.scrolled,
        pan: if input.left_button_down {
            Pan::Drag
        } else if input.coasting {
            Pan::Coast
        } else {
            Pan::Stop
        },
    }
}

/// What the wheel changes.
pub fn scroll_target(scrolled: bool, spotlight_enabled: bool, shift_down: bool) -> (target:
    ScrollTarget)
    ensures
        target == scrolls(scrolled, spotlight_enabled, shift_down),
        target == ScrollTarget::SpotlightRadius <==> scrolled && spotlight_enabled && shift_down,
        target == ScrollTarget::Zoom <==> scrolled && (!spotlight_enabled || !shift_down),
{
    if !scrolled {
        ScrollTarget::Nothing
    } else if spotlight_enabled && shift_down {
        ScrollTarget::SpotlightRadius
    } else {
        ScrollTarget::Zoom
    }
}

/// Decides what a frame does; `None` ends the program.
pub fn plan_frame(input: FrameInput) -> (frame: Option<FramePlan>)
    ensures
        frame == (if quits(input) {
            None
        } else {
            Some(plan(input))
        }),
        frame is None <==> input.q_pressed || input.a_pressed || input.right_button_down,
        frame matches Some(plan) ==> {
            &&& plan.pan == Pan::Drag <==> input.left_button_down
            &&& plan.pan == Pan::Coast <==> !input.left_button_down && input.coasting
            &&& plan.spotlight <==> input.left_control_down || input.right_control_down
            &&& plan.move_pivot <==> input.scrolled
        },
{
    if input.q_pressed || input.a_pressed || input.right_button_down {
        return None;
    }
    let spotlight = input.left_control_down || input.right_control_down;
    let shift_down = input.left_shift_down || input.right_shift_down;
    let pan = if input.left_button_down {
        Pan::Drag
    } else if input.coasting {
        Pan::Coast
    } else {
        Pan::Stop
    };
    Some(
        FramePlan {
            spotlight,
            restart_spotlight: input.left_control_pressed || input.right_control_pressed,
            scroll: scroll_target(input.scrolled, spotlight, shift_down),
            move_pivot: input.scrolled,
            pan,
        },
    )
}

/// What is still in motion at the end of a frame.
#[derive(Debug, Clone, Copy, PartialEq, Eq, Structural)]
pub struct Motion {
    pub dragging: bool,
    pub zooming: bool,
    pub spotlight_resizing: bool,
    pub coasting: bool,
    pub spotlight_fading: bool,
    pub strokes_shown: bool,
}

impl Motion {
    /// Nothing changes until the next input.
    pub open spec fn still(self) -> bool {
        self == Motion {
            dragging: false,
            zooming: false,
            spotlight_resizing: false,
            coasting: false,
            spotlight_fading: false,
            strokes_shown: false,
        }
    }

    /// Whether frames have to follow each other without waiting for input.
    pub fn needs_frames(&self) -> (yes: bool)
        ensures
            yes == !self.still(),
            !yes <==> !self.dragging && !self.zooming && !self.spotlight_resizing && !self.coasting
                && !self.spotlight_fading && !self.strokes_shown,
    {
        self.dragging || self.zooming || self.spotlight_resizing || self.coasting
            || self.spotlight_fading
        // Fading strokes need continuous frames, not event-driven ones.
         || self.strokes_shown
    }
}

/// Whether the screenshot is drawn through the spotlight.
pub fn draws_spotlight(enabled: bool, glowing: bool) -> (yes: bool)
    ensures
        yes == (enabled || glowing),
{
    enabled || glowing
}

/// The middle mouse button in one frame.
#[derive(Debug, Clone, Copy, PartialEq, Eq, Structural)]
pub enum MiddleButton {
    Pressed,
    Held,
    Released,
    Idle,
}

/// The state of the middle mouse button; being pressed counts before being
/// down, and being down before being released.
pub fn middle_button(pressed: bool, down: bool, released: bool) -> (button: MiddleButton)
    ensures
        button == (if pressed {
            MiddleButton::Pressed
        } else if down {
            MiddleButton::Held
        } else if released {
            MiddleButton::Released
        } else {
            MiddleButton::Idle
        }),
{
    if pressed {
        MiddleButton::Pressed
    } else if down {
        MiddleButton::Held
    } else if released {
        MiddleButton::Released
    } else {
        MiddleButton::Idle
    }
}

/// A freehand annotation drawn with the middle mouse button. Points live in
/// image space, so strokes pan and zoom with the content.
pub struct Stroke<P, T> {
    pub points: Vec<P>,
    pub released_at: Option<T>,
}

/// The strokes on screen, oldest first.
pub struct Strokes<P, T> {
    pub strokes: Vec<Stroke<P, T>>,
}

/// The strokes among the first `n` that stay on screen: those still being
/// drawn and those that have not faded.
pub open spec fn shown<P, T>(strokes: Seq<Stroke<P, T>>, faded: Seq<bool>, n: int) -> Seq<
    Stroke<P, T>,
>
    decreases n,
{
    if n <= 0 {
        Seq::empty()
    } else if strokes[n - 1].released_at is None || !faded[n - 1] {
        shown(strokes, faded, n - 1).push(strokes[n - 1])
    } else {
        shown(strokes, faded, n - 1)
    }
}

impl<P, T> Strokes<P, T> {
    /// Every stroke has a point.
    pub open spec fn drawn(self) -> bool {
        forall|i: int|
            0 <= i < self.strokes@.len() ==> (#[trigger] self.strokes@[i]).points@.len() > 0
    }

    /// The latest stroke is still being drawn.
    pub open spec fn drawing(self) -> bool {
        self.strokes@.len() > 0 && self.strokes@.last().released_at is None
    }

    /// No strokes.
    pub fn new() -> (strokes: Strokes<P, T>)
        ensures
            strokes.strokes@.len() == 0,
            strokes.drawn(),
    {
        Strokes { strokes: Vec::new() }
    }

    /// Whether there are no strokes on screen.
    pub fn is_empty(&self) -> (yes: bool)
        ensures
            yes == (self.strokes@.len() == 0),
    {
        self.strokes.len() == 0
    }

    /// The end of the stroke that is being drawn, from which its next point
    /// has to keep some distance.
    pub fn open_end(&self) -> (end: Option<&P>)
        ensures
            end is Some <==> self.strokes@.len() > 0 && self.strokes@.last().released_at is None
                && self.strokes@.last().points@.len() > 0,
            match end {
                Some(end) => self.drawing() && self.strokes@.last().points@.len() > 0 && *end
                    == self.strokes@.last().points@.last(),
                None => !self.drawing() || self.strokes@.last().points@.len() == 0,
            },
    {
        let n = self.strokes.len();
        if n == 0 {
            return None;
        }
        let stroke = &self.strokes[n - 1];
        if stroke.released_at.is_some() || stroke.points.len() == 0 {
            return None;
        }
        Some(&stroke.points[stroke.points.len() - 1])
    }

    /// Draws: a press starts a stroke at `point`, holding the button extends
    /// the stroke to `point` if that is far enough from its end, and the
    /// release closes it.
    pub fn draw(&mut self, button: MiddleButton, point: P, far_enough: bool, now: T)
        ensures
            old(self).drawn() ==> final(self).drawn(),
            match button {
                MiddleButton::Pressed => {
                    &&& final(self).strokes@.len() == old(self).strokes@.len() + 1
                    &&& final(self).strokes@.drop_last() == old(self).strokes@
                    &&& final(self).strokes@.last().points@ == seq![point]
                    &&& final(self).strokes@.last().released_at is None
                },
                MiddleButton::Held => if old(self).drawing() && (far_enough || old(
                    self).strokes@.last().points@.len() == 0) {
                    &&& final(self).strokes@.len() == old(self).strokes@.len()
                    &&& final(self).strokes@.drop_last() == old(self).strokes@.drop_last()
                    &&& final(self).strokes@.last().points@ == old(
                        self).strokes@.last().points@.push(point)
                    &&& final(self).strokes@.last().released_at is None
                } else {
                    final(self).strokes@ == old(self).strokes@
                },
                MiddleButton::Released => if old(self).drawing() {
                    &&& final(self).strokes@.len() == old(self).strokes@.len()
                    &&& final(self).strokes@.drop_last() == old(self).strokes@.drop_last()
                    &&& final(self).strokes@.last().points@ == old(self).strokes@.last().points@
                    &&& final(self).strokes@.last().released_at == Some(now)
                } else {
                    final(self).strokes@ == old(self).strokes@
                },
                MiddleButton::Idle => final(self).strokes@ == old(self).strokes@,
            },
    {
        let n = self.strokes.len();
        match button {
            MiddleButton::Pressed => {
                let mut points: Vec<P> = Vec::new();
                points.push(point);
                self.strokes.push(Stroke { points, released_at: None });
                assert(self.strokes@.drop_last() =~= old(self).strokes@);
            },
            MiddleButton::Held => {
                if n > 0 && self.strokes[n - 1].released_at.is_none() && (far_enough
                    || self.strokes[n - 1].points.len() == 0) {
                    let stroke = &mut self.strokes[n - 1];
                    stroke.points.push(point);
                }
            },
            MiddleButton::Released => {
                if n > 0 && self.strokes[n - 1].released_at.is_none() {
                    let stroke = &mut self.strokes[n - 1];
                    stroke.released_at = Some(now);
                }
            },
            MiddleButton::Idle => {},
        }
    }

    /// Takes the strokes that have faded off the screen. A stroke that is
    /// still being drawn stays.
    pub fn drop_faded(&mut self, faded: &Vec<bool>)
        requires
            faded@.len() == old(self).strokes@.len(),
        ensures
            final(self).strokes@ == shown(
                old(self).strokes@,
                faded@,
                old(self).strokes@.len() as int,
            ),
            old(self).drawn() ==> final(self).drawn(),
    {
        let ghost before = self.strokes@;
        let n = self.strokes.len();
        let mut kept: usize = 0;
        let mut i: usize = 0;
        while i < n
            invariant
                n == before.len(),
                n == faded@.len(),
                kept <= i <= n,
                kept == shown(before, faded@, i as int).len(),
                self.strokes@ == shown(before, faded@, i as int) + before.skip(i as int),
                old(self).strokes@ == before,
                old(self).drawn() ==> forall|j: int|
                    0 <= j < kept ==> (#[trigger] shown(before, faded@, i as int)[j]).points@.len()
                        > 0,
            decreases n - i,
        {
            assert(self.strokes@[kept as int] == before[i as int]);
            if self.strokes[kept].released_at.is_none() || !faded[i] {
                assert(shown(before, faded@, i as int).push(before[i as int]) + before.skip(i + 1)
                    =~= self.strokes@);
                kept = kept + 1;
            } else {
                let _ = self.strokes.remove(kept);
                assert(shown(before, faded@, i as int) + before.skip(i + 1) =~= self.strokes@);
            }
            i = i + 1;
        }
        assert(self.strokes@ =~= shown(before, faded@, n as int));
    }
}

/// A stroke that is still being drawn is never taken off the screen.
pub proof fn open_strokes_stay<P, T>(strokes: Seq<Stroke<P, T>>, faded: Seq<bool>, n: int, i: int)
    requires
        0 <= i < n <= strokes.len(),
        strokes[i].released_at is None,
    ensures
        shown(strokes, faded, n).contains(strokes[i]),
    decreases n,
{
    let rest = shown(strokes, faded, n - 1);
    if i < n - 1 {
        open_strokes_stay(strokes, faded, n - 1, i);
        let j = choose|j: int| 0 <= j < rest.len() && rest[j] == strokes[i];
        assert(shown(strokes, faded, n)[j] == strokes[i]);
    } else {
        assert(shown(strokes, faded, n)[rest.len() as int] == strokes[i]);
    }
}

/// A part of the drawing of a stroke, by the places of its points.
#[derive(Debug, Clone, Copy, PartialEq, Eq, Structural)]
pub enum Shape {
    /// The pointer dot that stands for a stroke of one point.
    Dot { point: usize },
    /// A line between two points that follow each other.
    Line { from: usize, to: usize },
    /// The round join or cap at a point.
    Joint { point: usize },
}

/// The parts of the drawing of a stroke of `n` points, in drawing order: a
/// single dot, or else the lines and then the joints.
pub open spec fn shapes_of(n: usize) -> Seq<Shape> {
    if n == 1 {
        seq![Shape::Dot { point: 0 }]
    } else if n == 0 {
        Seq::empty()
    } else {
        Seq::new(
            (n - 1) as nat,
            |i: int| Shape::Line { from: i as usize, to: (i + 1) as usize },
        ) + Seq::new(n as nat, |i: int| Shape::Joint { point: i as usize })
    }
}

/// The parts of the drawing of a stroke of `n` points.
pub fn stroke_shapes(n: usize) -> (shapes: Vec<Shape>)
    ensures
        shapes@ == shapes_of(n),
{
    let mut shapes: Vec<Shape> = Vec::new();
    if n == 1 {
        shapes.push(Shape::Dot { point: 0 });
        assert(shapes@ =~= shapes_of(n));
        return shapes;
    }
    if n == 0 {
        return shapes;
    }
    let ghost lines = Seq::new(
        (n - 1) as nat,
        |i: int| Shape::Line { from: i as usize, to: (i + 1) as usize },
    );
    let ghost joints = Seq::new(n as nat, |i: int| Shape::Joint { point: i as usize });
    let mut i: usize = 0;
    while i < n - 1
        invariant
            i <= n - 1,
            lines.len() == n - 1,
            forall|j: int|
                0 <= j < lines.len() ==> #[trigger] lines[j] == (Shape::Line {
                    from: j as usize,
                    to: (j + 1) as usize,
                }),
            shapes@ == lines.take(i as int),
        decreases n - i,
    {
        shapes.push(Shape::Line { from: i, to: i + 1 });
        i = i + 1;
        assert(shapes@ =~= lines.take(i as int));
    }
    let mut i: usize = 0;
    assert(shapes@ =~= lines + joints.take(0));
    while i < n
        invariant
            i <= n,
            joints.len() == n,
            forall|j: int|
                0 <= j < joints.len() ==> #[trigger] joints[j] == (Shape::Joint {
                    point: j as usize,
                }),
            shapes@ == lines + joints.take(i as int),
        decreases n - i,
    {
        shapes.push(Shape::Joint { point: i });
        i = i + 1;
        assert(shapes@ =~= lines + joints.take(i as int));
    }
    assert(shapes@ =~= shapes_of(n));
    shapes
}

/// A wheel that turns changes the spotlight's radius exactly while the
/// spotlight is on and Shift is down, and zooms in every other case: always
/// while the spotlight is off, and always while Shift is up. A wheel that rests
/// changes nothing.
pub proof fn wheel_zooms_unless_it_resizes_the_spotlight(spotlight: bool, shift_down: bool)
    ensures
        scrolls(false, spotlight, shift_down) == ScrollTarget::Nothing,
        scrolls(true, true, true) == ScrollTarget::SpotlightRadius,
        scrolls(true, spotlight, shift_down) == ScrollTarget::SpotlightRadius <==> spotlight
            && shift_down,
        scrolls(true, spotlight, shift_down) == ScrollTarget::Zoom <==> !spotlight || !shift_down,
        scrolls(true, false, shift_down) == ScrollTarget::Zoom,
        scrolls(true, spotlight, false) == ScrollTarget::Zoom,
{
}

/// Q, A and the right button each end the program, whatever else the input
/// holds, and nothing else does.
pub proof fn q_a_and_right_button_quit(input: FrameInput)
    ensures
        input.q_pressed ==> quits(input),
        input.a_pressed ==> quits(input),
        input.right_button_down ==> quits(input),
        !input.q_pressed && !input.a_pressed && !input.right_button_down ==> !quits(input),
{
}

/// The view is dragged exactly while the left button is down, whatever else
/// the input holds. It coasts exactly while the button is up and the view still
/// moves, and stands still otherwise.
pub proof fn left_button_drags_the_view(input: FrameInput)
    ensures
        plan(input).pan == Pan::Drag <==> input.left_button_down,
        plan(input).pan == Pan::Coast <==> !input.left_button_down && input.coasting,
        plan(input).pan == Pan::Stop <==> !input.left_button_down && !input.coasting,
{
}

/// Either Control key turns the spotlight on, and pressing either makes it
/// close in anew.
pub proof fn control_keys_rule_the_spotlight(input: FrameInput)
    ensures
        input.left_control_down ==> plan(input).spotlight,
        input.right_control_down ==> plan(input).spotlight,
        !input.left_control_down && !input.right_control_down ==> !plan(input).spotlight,
        input.left_control_pressed ==> plan(input).restart_spotlight,
        input.right_control_pressed ==> plan(input).restart_spotlight,
        !input.left_control_pressed && !input.right_control_pressed ==> !plan(
            input,
        ).restart_spotlight,
{
}

/// In a frame in which the wheel turns, it resizes the spotlight exactly if a
/// Control key and a Shift key are down, and zooms otherwise; the cursor then
/// becomes the point that zooming keeps in place. In any other frame the wheel
/// changes nothing.
pub proof fn wheel_acts_by_the_keys_held(input: FrameInput)
    ensures
        plan(input).move_pivot <==> input.scrolled,
        plan(input).scroll == ScrollTarget::Nothing <==> !input.scrolled,
        plan(input).scroll == ScrollTarget::SpotlightRadius <==> input.scrolled && (
        input.left_control_down || input.right_control_down) && (input.left_shift_down
            || input.right_shift_down),
        input.scrolled && !input.left_control_down && !input.right_control_down ==> plan(input).scroll
            == ScrollTarget::Zoom,
        input.scrolled && !input.left_shift_down && !input.right_shift_down ==> plan(input).scroll
            == ScrollTarget::Zoom,
{
}

/// Anything that moves, fades or is shown for a while makes frames follow each
/// other.
pub proof fn any_motion_is_not_still(motion: Motion)
    ensures
        motion.still() <==> !motion.dragging && !motion.zooming && !motion.spotlight_resizing
            && !motion.coasting && !motion.spotlight_fading && !motion.strokes_shown,
{
}

/// A stroke is being drawn exactly if there is one and the latest has not been
/// released. All strokes are drawn exactly if none is without points.
pub proof fn latest_unreleased_stroke_is_being_drawn<P, T>(strokes: Strokes<P, T>)
    ensures
        strokes.strokes@.len() == 0 ==> !strokes.drawing(),
        strokes.strokes@.len() > 0 ==> (strokes.drawing()
            <==> strokes.strokes@[strokes.strokes@.len() - 1].released_at is None),
        strokes.drawn() <==> forall|i: int|
            0 <= i < strokes.strokes@.len() ==> (#[trigger] strokes.strokes@[i]).points@.len() != 0,
{
}

/// As long as no stroke is both released and faded, all stay on screen, in
/// order.
pub proof fn unfaded_strokes_all_stay<P, T>(strokes: Seq<Stroke<P, T>>, faded: Seq<bool>, n: int)
    requires
        0 <= n <= strokes.len(),
        forall|i: int|
            0 <= i < n ==> (#[trigger] strokes[i]).released_at is None || !faded[i],
    ensures
        shown(strokes, faded, n) == strokes.take(n),
    decreases n,
{
    if n > 0 {
        unfaded_strokes_all_stay(strokes, faded, n - 1);
        assert(strokes[n - 1].released_at is None || !faded[n - 1]);
    }
    assert(shown(strokes, faded, n) =~= strokes.take(n));
}

/// A stroke that is released and faded leaves no trace: what stays on screen
/// is what would stay had it never been there.
pub proof fn faded_strokes_leave_no_trace<P, T>(
    strokes: Seq<Stroke<P, T>>,
    faded: Seq<bool>,
    n: int,
    i: int,
)
    requires
        0 <= i < n <= strokes.len(),
        faded.len() == strokes.len(),
        strokes[i].released_at is Some,
        faded[i],
    ensures
        shown(strokes, faded, n) == shown(strokes.remove(i), faded.remove(i), n - 1),
    decreases n,
{
    if i < n - 1 {
        faded_strokes_leave_no_trace(strokes, faded, n - 1, i);
        assert(strokes.remove(i)[n - 2] == strokes[n - 1]);
        assert(faded.remove(i)[n - 2] == faded[n - 1]);
    } else {
        same_beginnings_show_the_same(strokes, strokes.remove(i), faded, faded.remove(i), i);
    }
}

/// What stays of the first `n` strokes depends on these alone.
proof fn same_beginnings_show_the_same<P, T>(
    a: Seq<Stroke<P, T>>,
    b: Seq<Stroke<P, T>>,
    a_faded: Seq<bool>,
    b_faded: Seq<bool>,
    n: int,
)
    requires
        0 <= n <= a.len(),
        n <= b.len(),
        forall|i: int| 0 <= i < n ==> #[trigger] a[i] == b[i] && a_faded[i] == b_faded[i],
    ensures
        shown(a, a_faded, n) == shown(b, b_faded, n),
    decreases n,
{
    if n > 0 {
        same_beginnings_show_the_same(a, b, a_faded, b_faded, n - 1);
        assert(a[n - 1] == b[n - 1]);
    }
}

/// A stroke of one point is a dot there and nothing else. A longer one is a
/// line from each point to the next, and after all the lines a joint at each
/// point.
pub proof fn strokes_are_dots_or_joined_lines(n: usize)
    ensures
        n == 0 ==> shapes_of(n).len() == 0,
        n == 1 ==> shapes_of(n).len() == 1 && shapes_of(n)[0] == (Shape::Dot { point: 0 }),
        n >= 2 ==> shapes_of(n).len() == 2 * n - 1,
        n >= 2 ==> forall|i: int|
            0 <= i < n - 1 ==> (#[trigger] shapes_of(n)[i] matches Shape::Line { from, to } && from
                == i && to == i + 1),
        n >= 2 ==> forall|i: int|
            n - 1 <= i < 2 * n - 1 ==> (#[trigger] shapes_of(n)[i] matches Shape::Joint { point }
                && point == i - (n - 1)),
{
}

} // verus!
