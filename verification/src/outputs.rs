//! What the compositor has announced: its globals and its outputs.

use crate::text::{decimal, decimal_text, join, same_text};
use crate::wire::{decode_transform, Transform};
use vstd::prelude::*;

verus! {

/// Output position and size in the compositor's logical coordinate space.
#[derive(Debug, Clone, Copy, PartialEq, Eq, Structural)]
pub struct Geometry {
    pub x: i32,
    pub y: i32,
    pub width: i32,
    pub height: i32,
}

impl Geometry {
    pub fn x(&self) -> (x: i32)
        ensures
            x == self.x,
    {
        self.x
    }

    pub fn y(&self) -> (y: i32)
        ensures
            y == self.y,
    {
        self.y
    }

    pub fn width(&self) -> (width: i32)
        ensures
            width == self.width,
    {
        self.width
    }

    pub fn height(&self) -> (height: i32)
        ensures
            height == self.height,
    {
        self.height
    }
}

/// An output as the rest of the program sees it.
#[derive(Debug, Clone)]
pub struct Output {
    pub name: String,
    pub geometry: Geometry,
}

impl Output {
    pub fn name(&self) -> (name: &str)
        ensures
            name@ == self.name@,
    {
        self.name.as_str()
    }

    pub fn geometry(&self) -> (geometry: &Geometry)
        ensures
            *geometry == self.geometry,
    {
        &self.geometry
    }
}

/// What the compositor has said of one output.
#[derive(Debug)]
pub struct OutputState {
    /// Protocol id of the output object.
    pub id: u32,
    /// Protocol id of the output's xdg-output object, if it has one.
    pub xdg_id: Option<u32>,
    pub name: Option<String>,
    pub transform: Transform,
    pub scale: i32,
    // Position and current mode, in device pixels.
    pub x: i32,
    pub y: i32,
    pub mode_width: i32,
    pub mode_height: i32,
    // From xdg-output; authoritative when the compositor provides it.
    pub logical_x: i32,
    pub logical_y: i32,
    pub logical_width: i32,
    pub logical_height: i32,
    pub has_logical: bool,
}

/// An event of an output object. The transform is its code on the wire.
#[derive(Debug)]
pub enum OutputEvent {
    Geometry { x: i32, y: i32, transform: u32 },
    Mode { width: i32, height: i32 },
    Scale { factor: i32 },
    Name { name: String },
    Other,
}

/// An event of an xdg-output object.
#[derive(Debug)]
pub enum XdgOutputEvent {
    LogicalPosition { x: i32, y: i32 },
    LogicalSize { width: i32, height: i32 },
    Name { name: String },
    Other,
}

/// The quotient of `a` and a positive `b`, rounded towards zero.
pub open spec fn quotient(a: int, b: int) -> int {
    if a >= 0 {
        a / b
    } else {
        -((-a) / b)
    }
}

/// The scale of an output, at least 1.
pub open spec fn sane_scale(scale: i32) -> int {
    if scale > 1 {
        scale as int
    } else {
        1
    }
}

impl OutputState {
    /// An output of which nothing is known yet.
    pub open spec fn unknown(id: u32, xdg_id: Option<u32>) -> OutputState {
        OutputState {
            id,
            xdg_id,
            name: None,
            transform: Transform::Normal,
            scale: 1,
            x: 0,
            y: 0,
            mode_width: 0,
            mode_height: 0,
            logical_x: 0,
            logical_y: 0,
            logical_width: 0,
            logical_height: 0,
            has_logical: false,
        }
    }

    /// The output with this xdg-output object, unless it has one already.
    pub open spec fn given_xdg(self, xdg_id: u32) -> OutputState {
        OutputState {
            xdg_id: if self.xdg_id is None {
                Some(xdg_id)
            } else {
                self.xdg_id
            },
            ..self
        }
    }

    /// The output after one more event of its output object.
    pub open spec fn after_output_event(self, event: OutputEvent) -> OutputState {
        match event {
            OutputEvent::Geometry { x, y, transform } => OutputState {
                x,
                y,
                transform: match crate::wire::transform_of_code(transform) {
                    Some(transform) => transform,
                    None => self.transform,
                },
                ..self
            },
            OutputEvent::Mode { width, height } => OutputState {
                mode_width: width,
                mode_height: height,
                ..self
            },
            OutputEvent::Scale { factor } => OutputState { scale: factor, ..self },
            OutputEvent::Name { name } => OutputState { name: Some(name), ..self },
            OutputEvent::Other => self,
        }
    }

    /// The output after one more event of its xdg-output object. A name from
    /// the output object stays; older compositors only send this one.
    pub open spec fn after_xdg_event(self, event: XdgOutputEvent) -> OutputState {
        match event {
            XdgOutputEvent::LogicalPosition { x, y } => OutputState {
                logical_x: x,
                logical_y: y,
                has_logical: true,
                ..self
            },
            XdgOutputEvent::LogicalSize { width, height } => OutputState {
                logical_width: width,
                logical_height: height,
                has_logical: true,
                ..self
            },
            XdgOutputEvent::Name { name } => OutputState {
                name: if self.name is None {
                    Some(name)
                } else {
                    self.name
                },
                ..self
            },
            XdgOutputEvent::Other => self,
        }
    }

    /// The name of the output: the one it was given, or one made from its id.
    pub open spec fn known_as(self) -> Seq<char> {
        match self.name {
            Some(name) => name@,
            None => "output-"@ + decimal(self.id as nat),
        }
    }

    /// Where the output lies and how large it is: as xdg-output says, or else
    /// an approximation from the mode, the integer scale and the transform.
    pub open spec fn placed_at(self) -> Geometry {
        let width = quotient(self.mode_width as int, sane_scale(self.scale)) as i32;
        let height = quotient(self.mode_height as int, sane_scale(self.scale)) as i32;
        if self.has_logical {
            Geometry {
                x: self.logical_x,
                y: self.logical_y,
                width: self.logical_width,
                height: self.logical_height,
            }
        } else if crate::pixels::swaps_axes(self.transform) {
            Geometry { x: self.x, y: self.y, width: height, height: width }
        } else {
            Geometry { x: self.x, y: self.y, width, height }
        }
    }

    fn new(id: u32, xdg_id: Option<u32>) -> (output: OutputState)
        ensures
            output == OutputState::unknown(id, xdg_id),
    {
        OutputState {
            id,
            xdg_id,
            name: None,
            transform: Transform::Normal,
            scale: 1,
            x: 0,
            y: 0,
            mode_width: 0,
            mode_height: 0,
            logical_x: 0,
            logical_y: 0,
            logical_width: 0,
            logical_height: 0,
            has_logical: false,
        }
    }

    /// The name of the output: the one it was given, or one made from its id.
    pub fn resolved_name(&self) -> (name: String)
        ensures
            name@ == self.known_as(),
    {
        match &self.name {
            Some(name) => name.clone(),
            None => join("output-", decimal_text(self.id as u64).as_str()),
        }
    }

    /// Where the output lies and how large it is.
    pub fn geometry(&self) -> (geometry: Geometry)
        ensures
            geometry == self.placed_at(),
    {
        if self.has_logical {
            return Geometry {
                x: self.logical_x,
                y: self.logical_y,
                width: self.logical_width,
                height: self.logical_height,
            };
        }
        let scale: i32 = if self.scale > 1 {
            self.scale
        } else {
            1
        };
        let width: i32 = self.mode_width / scale;
        let height: i32 = self.mode_height / scale;
        match self.transform {
            Transform::Rotated90
            | Transform::Rotated270
            | Transform::Flipped90
            | Transform::Flipped270 => Geometry {
                x: self.x,
                y: self.y,
                width: height,
                height: width,
            },
            _ => Geometry { x: self.x, y: self.y, width, height },
        }
    }

    fn output_event(&mut self, event: OutputEvent)
        ensures
            *final(self) == old(self).after_output_event(event),
    {
        match event {
            OutputEvent::Geometry { x, y, transform } => {
                self.x = x;
                self.y = y;
                if let Some(transform) = decode_transform(transform) {
                    self.transform = transform;
                }
            },
            OutputEvent::Mode { width, height } => {
                self.mode_width = width;
                self.mode_height = height;
            },
            OutputEvent::Scale { factor } => {
                self.scale = factor;
            },
            OutputEvent::Name { name } => {
                self.name = Some(name);
            },
            OutputEvent::Other => {},
        }
    }

    fn xdg_output_event(&mut self, event: XdgOutputEvent)
        ensures
            *final(self) == old(self).after_xdg_event(event),
    {
        match event {
            XdgOutputEvent::LogicalPosition { x, y } => {
                self.logical_x = x;
                self.logical_y = y;
                self.has_logical = true;
            },
            XdgOutputEvent::LogicalSize { width, height } => {
                self.logical_width = width;
                self.logical_height = height;
                self.has_logical = true;
            },
            XdgOutputEvent::Name { name } => {
                // Prefer the output object's own name.
                if self.name.is_none() {
                    self.name = Some(name);
                }
            },
            XdgOutputEvent::Other => {},
        }
    }
}

/// What to do about a global that the compositor announces.
#[derive(Debug, Clone, Copy, PartialEq, Eq, Structural)]
pub enum GlobalAction {
    Ignore,
    BindShm { version: u32 },
    BindScreencopyManager { version: u32 },
    BindXdgOutputManager { version: u32 },
    BindOutput { version: u32 },
}

/// The smaller of two protocol versions.
pub open spec fn capped(version: u32, cap: u32) -> u32 {
    if version < cap {
        version
    } else {
        cap
    }
}

/// What a global of this interface, offered up to this version, is for.
pub open spec fn action_for(interface: Seq<char>, version: u32) -> GlobalAction {
    if interface == "wl_shm"@ {
        GlobalAction::BindShm { version: 1 }
    } else if interface == "zwlr_screencopy_manager_v1"@ {
        GlobalAction::BindScreencopyManager { version: capped(version, 3) }
    } else if interface == "zxdg_output_manager_v1"@ {
        GlobalAction::BindXdgOutputManager { version: capped(version, 3) }
    } else if interface == "wl_output"@ {
        GlobalAction::BindOutput { version: capped(version, 4) }
    } else {
        GlobalAction::Ignore
    }
}

/// The smaller of two protocol versions.
fn cap_version(version: u32, cap: u32) -> (least: u32)
    ensures
        least == capped(version, cap),
{
    if version < cap {
        version
    } else {
        cap
    }
}

/// What to do about a global of this interface, offered up to this version.
pub fn global_action(interface: &str, version: u32) -> (action: GlobalAction)
    ensures
        action == action_for(interface@, version),
{
    if same_text(interface, "wl_shm") {
        GlobalAction::BindShm { version: 1 }
    } else if same_text(interface, "zwlr_screencopy_manager_v1") {
        GlobalAction::BindScreencopyManager { version: cap_version(version, 3) }
    } else if same_text(interface, "zxdg_output_manager_v1") {
        GlobalAction::BindXdgOutputManager { version: cap_version(version, 3) }
    } else if same_text(interface, "wl_output") {
        GlobalAction::BindOutput { version: cap_version(version, 4) }
    } else {
        GlobalAction::Ignore
    }
}

/// The globals that are bound and the outputs that are known.
#[derive(Debug)]
pub struct State {
    pub shm: bool,
    pub screencopy_manager: bool,
    pub xdg_output_manager: bool,
    pub outputs: Vec<OutputState>,
}

/// How many of the first `n` outputs have no xdg-output object.
pub open spec fn bare_outputs(outputs: Seq<OutputState>, n: int) -> nat
    decreases n,
{
    if n <= 0 {
        0
    } else {
        bare_outputs(outputs, n - 1) + if outputs[n - 1].xdg_id is None {
            1nat
        } else {
            0nat
        }
    }
}

/// Place of the first output whose object has this id, from place `from` on.
pub open spec fn place_of_id(outputs: Seq<OutputState>, id: u32, from: int) -> Option<int>
    decreases outputs.len() - from,
{
    if from >= outputs.len() {
        None
    } else if outputs[from].id == id {
        Some(from)
    } else {
        place_of_id(outputs, id, from + 1)
    }
}

/// Place of the first output whose xdg-output object has this id, from place
/// `from` on.
pub open spec fn place_of_xdg_id(outputs: Seq<OutputState>, xdg_id: u32, from: int) -> Option<int>
    decreases outputs.len() - from,
{
    if from >= outputs.len() {
        None
    } else if outputs[from].xdg_id == Some(xdg_id) {
        Some(from)
    } else {
        place_of_xdg_id(outputs, xdg_id, from + 1)
    }
}

/// Place of the first output that is known by this name, from place `from` on.
pub open spec fn place_of_name(outputs: Seq<OutputState>, name: Seq<char>, from: int) -> Option<int>
    decreases outputs.len() - from,
{
    if from >= outputs.len() {
        None
    } else if outputs[from].known_as() == name {
        Some(from)
    } else {
        place_of_name(outputs, name, from + 1)
    }
}

/// Something that happened between the compositor and the client.
#[derive(Debug)]
pub enum StateEvent {
    /// The shared-memory global was bound.
    ShmBound,
    /// The screencopy manager was bound.
    ScreencopyManagerBound,
    /// The manager of xdg-output objects was bound, and made these objects:
    /// one for each output that had none, in order.
    XdgOutputManagerBound { xdg_ids: Vec<u32> },
    /// An output was bound, with its xdg-output object if the manager for
    /// them is bound.
    OutputBound { id: u32, xdg_id: Option<u32> },
    /// The output object with this id sent an event.
    Output { id: u32, event: OutputEvent },
    /// The xdg-output object with this id sent an event.
    XdgOutput { xdg_id: u32, event: XdgOutputEvent },
}

/// The globals that are bound and the outputs that are known, in order.
#[verifier::ext_equal]
pub struct StateView {
    pub shm: bool,
    pub screencopy_manager: bool,
    pub xdg_output_manager: bool,
    pub outputs: Seq<OutputState>,
}

impl StateView {
    /// Nothing is bound and nothing is known.
    pub open spec fn start() -> StateView {
        StateView {
            shm: false,
            screencopy_manager: false,
            xdg_output_manager: false,
            outputs: Seq::empty(),
        }
    }

    /// Every output has an xdg-output object once the manager for them is
    /// bound, and none has one before.
    pub open spec fn consistent(self) -> bool {
        forall|i: int|
            0 <= i < self.outputs.len() ==> ((#[trigger] self.outputs[i]).xdg_id is Some
                <==> self.xdg_output_manager)
    }

    /// Whether the event can happen now: a manager that is bound makes an
    /// xdg-output object for each output that has none, and an output that is
    /// bound gets one exactly if the manager is there.
    pub open spec fn admits(self, event: StateEvent) -> bool {
        match event {
            StateEvent::XdgOutputManagerBound { xdg_ids } => xdg_ids@.len() == bare_outputs(
                self.outputs,
                self.outputs.len() as int,
            ),
            StateEvent::OutputBound { id, xdg_id } => xdg_id is Some <==> self.xdg_output_manager,
            _ => true,
        }
    }

    /// What is bound and known after one more event.
    pub open spec fn after(self, event: StateEvent) -> StateView {
        match event {
            StateEvent::ShmBound => StateView { shm: true, ..self },
            StateEvent::ScreencopyManagerBound => StateView { screencopy_manager: true, ..self },
            StateEvent::XdgOutputManagerBound { xdg_ids } => StateView {
                xdg_output_manager: true,
                outputs: Seq::new(
                    self.outputs.len(),
                    |i: int|
                        self.outputs[i].given_xdg(xdg_ids@[bare_outputs(self.outputs, i) as int]),
                ),
                ..self
            },
            StateEvent::OutputBound { id, xdg_id } => StateView {
                outputs: self.outputs.push(OutputState::unknown(id, xdg_id)),
                ..self
            },
            StateEvent::Output { id, event } => match place_of_id(self.outputs, id, 0) {
                Some(i) => StateView {
                    outputs: self.outputs.update(i, self.outputs[i].after_output_event(event)),
                    ..self
                },
                None => self,
            },
            StateEvent::XdgOutput { xdg_id, event } => match place_of_xdg_id(
                self.outputs,
                xdg_id,
                0,
            ) {
                Some(i) => StateView {
                    outputs: self.outputs.update(i, self.outputs[i].after_xdg_event(event)),
                    ..self
                },
                None => self,
            },
        }
    }

    /// Whether the events can happen one after the other.
    pub open spec fn admits_all(self, events: Seq<StateEvent>) -> bool
        decreases events.len(),
    {
        events.len() > 0 ==> self.admits_all(events.drop_last()) && self.after_all(
            events.drop_last(),
        ).admits(events.last())
    }

    /// What is bound and known after the events, one after the other.
    pub open spec fn after_all(self, events: Seq<StateEvent>) -> StateView
        decreases events.len(),
    {
        if events.len() == 0 {
            self
        } else {
            self.after_all(events.drop_last()).after(events.last())
        }
    }
}

impl View for State {
    type V = StateView;

    open spec fn view(&self) -> StateView {
        StateView {
            shm: self.shm,
            screencopy_manager: self.screencopy_manager,
            xdg_output_manager: self.xdg_output_manager,
            outputs: self.outputs@,
        }
    }
}

impl State {
    /// Every output has an xdg-output object once the manager for them is
    /// bound, and none has one before.
    pub open spec fn consistent(self) -> bool {
        self@.consistent()
    }

    /// Nothing is bound and nothing is known.
    pub fn new() -> (state: State)
        ensures
            !state.shm,
            !state.screencopy_manager,
            !state.xdg_output_manager,
            state.outputs@.len() == 0,
            state@ == StateView::start(),
            state.consistent(),
    {
        State {
            shm: false,
            screencopy_manager: false,
            xdg_output_manager: false,
            outputs: Vec::new(),
        }
    }

    /// Takes note that the shared-memory global is bound.
    pub fn bind_shm(&mut self)
        ensures
            *final(self) == (State { shm: true, ..*old(self) }),
            old(self).consistent() ==> final(self).consistent(),
    {
        self.shm = true;
    }

    /// Takes note that the screencopy manager is bound.
    pub fn bind_screencopy_manager(&mut self)
        ensures
            *final(self) == (State { screencopy_manager: true, ..*old(self) }),
            old(self).consistent() ==> final(self).consistent(),
    {
        self.screencopy_manager = true;
    }

    /// The ids of the outputs that have no xdg-output object, in order: those
    /// for which a manager that was just bound has to make one.
    pub fn outputs_without_xdg(&self) -> (ids: Vec<u32>)
        ensures
            ids@.len() == bare_outputs(self.outputs@, self.outputs@.len() as int),
            forall|i: int|
                0 <= i < self.outputs@.len() && (#[trigger] self.outputs@[i]).xdg_id is None
                    ==> bare_outputs(self.outputs@, i) < ids@.len() && ids@[bare_outputs(
                    self.outputs@,
                    i,
                ) as int] == self.outputs@[i].id,
    {
        let mut ids: Vec<u32> = Vec::new();
        let mut i: usize = 0;
        while i < self.outputs.len()
            invariant
                i <= self.outputs@.len(),
                ids@.len() == bare_outputs(self.outputs@, i as int),
                forall|j: int|
                    0 <= j < i && (#[trigger] self.outputs@[j]).xdg_id is None ==> bare_outputs(
                        self.outputs@,
                        j,
                    ) < ids@.len() && ids@[bare_outputs(self.outputs@, j) as int]
                        == self.outputs@[j].id,
            decreases self.outputs@.len() - i,
        {
            if self.outputs[i].xdg_id.is_none() {
                ids.push(self.outputs[i].id);
            }
            i = i + 1;
        }
        ids
    }

    /// Takes note that the manager of xdg-output objects is bound, and of the
    /// objects it made: one for each output that had none, in order.
    pub fn bind_xdg_output_manager(&mut self, xdg_ids: &Vec<u32>)
        requires
            xdg_ids@.len() == bare_outputs(old(self).outputs@, old(self).outputs@.len() as int),
        ensures
            final(self).shm == old(self).shm,
            final(self).screencopy_manager == old(self).screencopy_manager,
            final(self).xdg_output_manager,
            final(self).outputs@.len() == old(self).outputs@.len(),
            forall|i: int|
                0 <= i < old(self).outputs@.len() ==> #[trigger] final(self).outputs@[i] == old(
                    self).outputs@[i].given_xdg(
                    xdg_ids@[bare_outputs(old(self).outputs@, i) as int],
                ),
            final(self).consistent(),
    {
        let ghost before = self.outputs@;
        let mut made: usize = 0;
        let mut i: usize = 0;
        while i < self.outputs.len()
            invariant
                self.shm == old(self).shm,
                self.screencopy_manager == old(self).screencopy_manager,
                self.outputs@.len() == before.len(),
                i <= before.len(),
                made == bare_outputs(before, i as int),
                xdg_ids.len() == bare_outputs(before, before.len() as int),
                forall|j: int|
                    0 <= j < i ==> #[trigger] self.outputs@[j] == before[j].given_xdg(
                        xdg_ids@[bare_outputs(before, j) as int],
                    ),
                forall|j: int| i <= j < before.len() ==> self.outputs@[j] == before[j],
            decreases before.len() - i,
        {
            proof {
                bare_outputs_grow(before, i + 1, before.len() as int);
            }
            if self.outputs[i].xdg_id.is_none() {
                let output = &mut self.outputs[i];
                output.xdg_id = Some(xdg_ids[made]);
                made = made + 1;
            }
            i = i + 1;
        }
        self.xdg_output_manager = true;
    }

    /// Whether an output that is announced now is to get an xdg-output object
    /// at once.
    pub fn wants_xdg_output(&self) -> (yes: bool)
        ensures
            yes == self.xdg_output_manager,
    {
        self.xdg_output_manager
    }

    /// Takes note of an output, and of its xdg-output object: it has one if
    /// the manager for them is bound, and none before.
    pub fn bind_output(&mut self, id: u32, xdg_id: Option<u32>)
        requires
            xdg_id is Some <==> old(self).xdg_output_manager,
        ensures
            final(self).shm == old(self).shm,
            final(self).screencopy_manager == old(self).screencopy_manager,
            final(self).xdg_output_manager == old(self).xdg_output_manager,
            final(self).outputs@ == old(self).outputs@.push(OutputState::unknown(id, xdg_id)),
            old(self).consistent() ==> final(self).consistent(),
    {
        self.outputs.push(OutputState::new(id, xdg_id));
    }

    /// Takes note of an event of the output object with this id.
    pub fn output_event(&mut self, id: u32, event: OutputEvent)
        ensures
            final(self).shm == old(self).shm,
            final(self).screencopy_manager == old(self).screencopy_manager,
            final(self).xdg_output_manager == old(self).xdg_output_manager,
            match place_of_id(old(self).outputs@, id, 0) {
                Some(i) => 0 <= i < old(self).outputs@.len() && final(self).outputs@ == old(
                    self).outputs@.update(i, old(self).outputs@[i].after_output_event(event)),
                None => final(self).outputs@ == old(self).outputs@,
            },
            old(self).consistent() ==> final(self).consistent(),
    {
        let mut i: usize = 0;
        while i < self.outputs.len()
            invariant
                *self == *old(self),
                i <= self.outputs@.len(),
                place_of_id(self.outputs@, id, 0) == place_of_id(self.outputs@, id, i as int),
            decreases self.outputs@.len() - i,
        {
            if self.outputs[i].id == id {
                let output = &mut self.outputs[i];
                output.output_event(event);
                return;
            }
            i = i + 1;
        }
    }

    /// Takes note of an event of the xdg-output object with this id.
    pub fn xdg_output_event(&mut self, xdg_id: u32, event: XdgOutputEvent)
        ensures
            final(self).shm == old(self).shm,
            final(self).screencopy_manager == old(self).screencopy_manager,
            final(self).xdg_output_manager == old(self).xdg_output_manager,
            match place_of_xdg_id(old(self).outputs@, xdg_id, 0) {
                Some(i) => 0 <= i < old(self).outputs@.len() && final(self).outputs@ == old(
                    self).outputs@.update(i, old(self).outputs@[i].after_xdg_event(event)),
                None => final(self).outputs@ == old(self).outputs@,
            },
            old(self).consistent() ==> final(self).consistent(),
    {
        let mut i: usize = 0;
        while i < self.outputs.len()
            invariant
                *self == *old(self),
                i <= self.outputs@.len(),
                place_of_xdg_id(self.outputs@, xdg_id, 0) == place_of_xdg_id(
                    self.outputs@,
                    xdg_id,
                    i as int,
                ),
            decreases self.outputs@.len() - i,
        {
            if let Some(candidate) = self.outputs[i].xdg_id {
                if candidate == xdg_id {
                    let output = &mut self.outputs[i];
                    output.xdg_output_event(event);
                    return;
                }
            }
            i = i + 1;
        }
    }

    /// Takes note of an event.
    pub fn event(&mut self, event: StateEvent)
        requires
            old(self)@.admits(event),
        ensures
            final(self)@ == old(self)@.after(event),
            old(self).consistent() ==> final(self).consistent(),
    {
        match event {
            StateEvent::ShmBound => self.bind_shm(),
            StateEvent::ScreencopyManagerBound => self.bind_screencopy_manager(),
            StateEvent::XdgOutputManagerBound { xdg_ids } => self.bind_xdg_output_manager(&xdg_ids),
            StateEvent::OutputBound { id, xdg_id } => self.bind_output(id, xdg_id),
            StateEvent::Output { id, event } => self.output_event(id, event),
            StateEvent::XdgOutput { xdg_id, event } => self.xdg_output_event(xdg_id, event),
        }
    }

    /// The place of the first output that is known by this name.
    pub fn find_output(&self, name: &str) -> (place: Option<usize>)
        ensures
            match place {
                Some(i) => i < self.outputs@.len() && place_of_name(self.outputs@, name@, 0) == Some(
                    i as int,
                ) && self.outputs@[i as int].known_as() == name@ && forall|j: int|
                    0 <= j < i ==> (#[trigger] self.outputs@[j]).known_as() != name@,
                None => place_of_name(self.outputs@, name@, 0) is None && forall|j: int|
                    0 <= j < self.outputs@.len() ==> (#[trigger] self.outputs@[j]).known_as()
                        != name@,
            },
    {
        let mut i: usize = 0;
        while i < self.outputs.len()
            invariant
                i <= self.outputs@.len(),
                place_of_name(self.outputs@, name@, 0) == place_of_name(
                    self.outputs@,
                    name@,
                    i as int,
                ),
                forall|j: int| 0 <= j < i ==> (#[trigger] self.outputs@[j]).known_as() != name@,
            decreases self.outputs@.len() - i,
        {
            if same_text(self.outputs[i].resolved_name().as_str(), name) {
                return Some(i);
            }
            i = i + 1;
        }
        None
    }
}

/// Further outputs do not take away from the count.
proof fn bare_outputs_grow(outputs: Seq<OutputState>, m: int, n: int)
    requires
        0 <= m <= n,
    ensures
        bare_outputs(outputs, m) <= bare_outputs(outputs, n),
    decreases n,
{
    if m < n {
        bare_outputs_grow(outputs, m, n - 1);
    }
}

/// Where an output's place is only approximated and its scale is 1, the size
/// of the place is the size of a capture of the output's mode: both take the
/// same transforms for quarter turns.
pub proof fn approximate_size_is_capture_size(output: OutputState)
    requires
        !output.has_logical,
        output.scale <= 1,
    ensures
        output.placed_at().width == crate::pixels::upright_width(
            output.mode_width as int,
            output.mode_height as int,
            output.transform,
        ),
        output.placed_at().height == crate::pixels::upright_height(
            output.mode_width as int,
            output.mode_height as int,
            output.transform,
        ),
{
}

/// The name that the output object gives is the one that counts, whichever of
/// the two names comes first. The one from xdg-output counts as long as there
/// is no other, and never changes a name that is there.
pub proof fn output_name_beats_xdg_name(output: OutputState, name: String, xdg_name: String)
    ensures
        output.after_output_event(OutputEvent::Name { name }).after_xdg_event(
            XdgOutputEvent::Name { name: xdg_name },
        ).name == Some(name),
        output.after_xdg_event(XdgOutputEvent::Name { name: xdg_name }).after_output_event(
            OutputEvent::Name { name },
        ).name == Some(name),
        output.after_xdg_event(XdgOutputEvent::Name { name: xdg_name }).name == (
        if output.name is None {
            Some(xdg_name)
        } else {
            output.name
        }),
        output.after_output_event(OutputEvent::Name { name }).after_xdg_event(
            XdgOutputEvent::Name { name: xdg_name },
        ).known_as() == name@,
        output.after_xdg_event(XdgOutputEvent::Name { name: xdg_name }).after_output_event(
            OutputEvent::Name { name },
        ).known_as() == name@,
{
}

/// Once xdg-output has given the place of an output, the output object's own
/// events do not change it.
pub proof fn logical_place_is_authoritative(output: OutputState, event: OutputEvent)
    requires
        output.has_logical,
    ensures
        output.after_output_event(event).placed_at() == output.placed_at(),
{
}

/// The name under which an output is listed is found, from any place up to
/// the output's own, and stands for an output of that name.
pub proof fn listed_names_are_found(outputs: Seq<OutputState>, i: int, from: int)
    requires
        0 <= from <= i < outputs.len(),
    ensures
        place_of_name(outputs, outputs[i].known_as(), from) matches Some(k) && from <= k <= i
            && outputs[k].known_as() == outputs[i].known_as(),
    decreases i - from,
{
    if from < i {
        listed_names_are_found(outputs, i, from + 1);
    }
}

/// A place that is found is that of an output with this id.
proof fn place_of_id_is_a_place(outputs: Seq<OutputState>, id: u32, from: int)
    requires
        0 <= from,
    ensures
        place_of_id(outputs, id, from) matches Some(i) ==> from <= i < outputs.len()
            && outputs[i].id == id,
    decreases outputs.len() - from,
{
    if from < outputs.len() {
        place_of_id_is_a_place(outputs, id, from + 1);
    }
}

/// A place that is found is that of an output with this xdg-output object.
proof fn place_of_xdg_id_is_a_place(outputs: Seq<OutputState>, xdg_id: u32, from: int)
    requires
        0 <= from,
    ensures
        place_of_xdg_id(outputs, xdg_id, from) matches Some(i) ==> from <= i < outputs.len()
            && outputs[i].xdg_id == Some(xdg_id),
    decreases outputs.len() - from,
{
    if from < outputs.len() {
        place_of_xdg_id_is_a_place(outputs, xdg_id, from + 1);
    }
}

/// One event neither takes away nor moves an output, replaces an xdg-output
/// object or unbinds a global.
proof fn event_keeps_outputs(state: StateView, event: StateEvent)
    ensures
        state.shm ==> state.after(event).shm,
        state.screencopy_manager ==> state.after(event).screencopy_manager,
        state.xdg_output_manager ==> state.after(event).xdg_output_manager,
        state.outputs.len() <= state.after(event).outputs.len(),
        forall|i: int|
            0 <= i < state.outputs.len() ==> (#[trigger] state.after(event).outputs[i]).id
                == state.outputs[i].id && (state.outputs[i].xdg_id is Some ==> state.after(
                event,
            ).outputs[i].xdg_id == state.outputs[i].xdg_id),
{
    match event {
        StateEvent::Output { id, .. } => place_of_id_is_a_place(state.outputs, id, 0),
        StateEvent::XdgOutput { xdg_id, .. } => place_of_xdg_id_is_a_place(
            state.outputs,
            xdg_id,
            0,
        ),
        _ => {},
    }
}

/// An event that can happen keeps the outputs and their xdg-output objects in
/// step.
proof fn event_keeps_consistent(state: StateView, event: StateEvent)
    requires
        state.consistent(),
        state.admits(event),
    ensures
        state.after(event).consistent(),
{
    match event {
        StateEvent::Output { id, .. } => place_of_id_is_a_place(state.outputs, id, 0),
        StateEvent::XdgOutput { xdg_id, .. } => place_of_xdg_id_is_a_place(
            state.outputs,
            xdg_id,
            0,
        ),
        _ => {},
    }
}

/// Whatever has happened since the start, and in whatever order: every output
/// has an xdg-output object if the manager for them is bound, and none has one
/// otherwise.
pub proof fn reached_states_are_consistent(events: Seq<StateEvent>)
    requires
        StateView::start().admits_all(events),
    ensures
        StateView::start().after_all(events).consistent(),
        forall|i: int|
            0 <= i < StateView::start().after_all(events).outputs.len() ==> ((
            #[trigger] StateView::start().after_all(events).outputs[i]).xdg_id is Some
                <==> StateView::start().after_all(events).xdg_output_manager),
    decreases events.len(),
{
    if events.len() > 0 {
        reached_states_are_consistent(events.drop_last());
        event_keeps_consistent(StateView::start().after_all(events.drop_last()), events.last());
    }
}

/// However many events follow, an output that is known stays known, in its
/// place, an xdg-output object that it has is never replaced, and a global
/// that is bound stays bound.
pub proof fn outputs_are_kept_in_order(state: StateView, events: Seq<StateEvent>)
    ensures
        state.shm ==> state.after_all(events).shm,
        state.screencopy_manager ==> state.after_all(events).screencopy_manager,
        state.xdg_output_manager ==> state.after_all(events).xdg_output_manager,
        state.outputs.len() <= state.after_all(events).outputs.len(),
        forall|i: int|
            0 <= i < state.outputs.len() ==> (#[trigger] state.after_all(events).outputs[i]).id
                == state.outputs[i].id && (state.outputs[i].xdg_id is Some ==> state.after_all(
                events,
            ).outputs[i].xdg_id == state.outputs[i].xdg_id),
    decreases events.len(),
{
    if events.len() > 0 {
        let before = state.after_all(events.drop_last());
        outputs_are_kept_in_order(state, events.drop_last());
        event_keeps_outputs(before, events.last());
        assert forall|i: int| 0 <= i < state.outputs.len() implies (#[trigger] state.after_all(
            events,
        ).outputs[i]).id == state.outputs[i].id && (state.outputs[i].xdg_id is Some
            ==> state.after_all(events).outputs[i].xdg_id == state.outputs[i].xdg_id) by {
            assert(before.outputs[i].id == state.outputs[i].id);
            assert(before.after(events.last()).outputs[i].id == before.outputs[i].id);
        }
    }
}

/// An output global is bound at version 4 or what is offered below that. Once
/// it is bound, its output comes last among those that are known, with nothing
/// known of it but whether it has an xdg-output object: it has one exactly if
/// the manager for them is bound. Nothing else changes.
pub proof fn announced_output_comes_last(
    state: StateView,
    version: u32,
    id: u32,
    xdg_id: Option<u32>,
)
    requires
        state.admits((StateEvent::OutputBound { id, xdg_id })),
    ensures
        action_for("wl_output"@, version) == (GlobalAction::BindOutput {
            version: if version < 4 {
                version
            } else {
                4
            },
        }),
        ({
            let after = state.after(StateEvent::OutputBound { id, xdg_id });
            let output = after.outputs.last();
            &&& after.shm == state.shm
            &&& after.screencopy_manager == state.screencopy_manager
            &&& after.xdg_output_manager == state.xdg_output_manager
            &&& after.outputs.len() == state.outputs.len() + 1
            &&& after.outputs.drop_last() == state.outputs
            &&& output.id == id
            &&& output.xdg_id is Some <==> state.xdg_output_manager
            &&& output.name is None
            &&& output.transform == Transform::Normal
            &&& output.scale == 1
            &&& output.x == 0 && output.y == 0
            &&& output.mode_width == 0 && output.mode_height == 0
            &&& output.logical_x == 0 && output.logical_y == 0
            &&& output.logical_width == 0 && output.logical_height == 0
            &&& !output.has_logical
        }),
{
    reveal_strlit("wl_output");
    reveal_strlit("wl_shm");
    reveal_strlit("zwlr_screencopy_manager_v1");
    reveal_strlit("zxdg_output_manager_v1");
    assert("wl_output"@.len() == 9);
    assert(state.outputs.push(OutputState::unknown(id, xdg_id)).drop_last() =~= state.outputs);
}

/// An output that is known under both ids gets the name that its output object
/// gives, whichever of the two names comes first. With the name from
/// xdg-output alone it has that one if it had none, and otherwise keeps its
/// own.
pub proof fn output_events_beat_xdg_events(
    state: StateView,
    i: int,
    id: u32,
    xdg_id: u32,
    name: String,
    xdg_name: String,
)
    requires
        place_of_id(state.outputs, id, 0) == Some(i),
        place_of_xdg_id(state.outputs, xdg_id, 0) == Some(i),
    ensures
        ({
            let named = StateEvent::Output { id, event: OutputEvent::Name { name } };
            let xdg_named = StateEvent::XdgOutput {
                xdg_id,
                event: XdgOutputEvent::Name { name: xdg_name },
            };
            &&& state.after(named).after(xdg_named).outputs[i].name == Some(name)
            &&& state.after(xdg_named).after(named).outputs[i].name == Some(name)
            &&& state.after(xdg_named).outputs[i].name == if state.outputs[i].name is None {
                Some(xdg_name)
            } else {
                state.outputs[i].name
            }
        }),
{
    let named = StateEvent::Output { id, event: OutputEvent::Name { name } };
    let xdg_named = StateEvent::XdgOutput {
        xdg_id,
        event: XdgOutputEvent::Name { name: xdg_name },
    };
    place_of_id_is_a_place(state.outputs, id, 0);
    places_stay(state.outputs, state.after(named).outputs, id, xdg_id, 0);
    places_stay(state.outputs, state.after(xdg_named).outputs, id, xdg_id, 0);
}

/// Where an output is found depends on the ids alone.
proof fn places_stay(
    before: Seq<OutputState>,
    after: Seq<OutputState>,
    id: u32,
    xdg_id: u32,
    from: int,
)
    requires
        0 <= from,
        before.len() == after.len(),
        forall|i: int|
            0 <= i < before.len() ==> (#[trigger] after[i]).id == before[i].id && after[i].xdg_id
                == before[i].xdg_id,
    ensures
        place_of_id(after, id, from) == place_of_id(before, id, from),
        place_of_xdg_id(after, xdg_id, from) == place_of_xdg_id(before, xdg_id, from),
    decreases before.len() - from,
{
    if from < before.len() {
        assert(after[from].id == before[from].id);
        places_stay(before, after, id, xdg_id, from + 1);
    }
}

/// Which globals are bound, and up to which version: shared memory at its
/// first, the screencopy manager and the manager of xdg-outputs up to the
/// third, outputs up to the fourth. Every other global is left alone.
pub proof fn known_globals_are_bound_up_to_a_version(interface: Seq<char>, version: u32)
    ensures
        action_for("wl_shm"@, version) == (GlobalAction::BindShm { version: 1 }),
        action_for("zwlr_screencopy_manager_v1"@, version) matches GlobalAction::BindScreencopyManager {
            version: bound,
        } && bound <= 3 && bound <= version && (bound == version || bound == 3),
        action_for("zxdg_output_manager_v1"@, version) matches GlobalAction::BindXdgOutputManager {
            version: bound,
        } && bound <= 3 && bound <= version && (bound == version || bound == 3),
        action_for("wl_output"@, version) matches GlobalAction::BindOutput { version: bound } && bound
            <= 4 && bound <= version && (bound == version || bound == 4),
        action_for(interface, version) != GlobalAction::Ignore <==> interface == "wl_shm"@
            || interface == "zwlr_screencopy_manager_v1"@ || interface == "zxdg_output_manager_v1"@
            || interface == "wl_output"@,
{
    reveal_strlit("wl_output");
    reveal_strlit("wl_shm");
    reveal_strlit("zwlr_screencopy_manager_v1");
    reveal_strlit("zxdg_output_manager_v1");
    assert("wl_output"@.len() == 9 && "wl_shm"@.len() == 6);
    assert("zwlr_screencopy_manager_v1"@.len() == 26 && "zxdg_output_manager_v1"@.len() == 22);
}

/// Binding a global is noted of that global alone, and the outputs stay as they
/// are.
pub proof fn bound_globals_are_noted(state: StateView)
    ensures
        state.after(StateEvent::ShmBound).shm,
        state.after(StateEvent::ShmBound).screencopy_manager == state.screencopy_manager,
        state.after(StateEvent::ShmBound).xdg_output_manager == state.xdg_output_manager,
        state.after(StateEvent::ShmBound).outputs == state.outputs,
        state.after(StateEvent::ScreencopyManagerBound).screencopy_manager,
        state.after(StateEvent::ScreencopyManagerBound).shm == state.shm,
        state.after(StateEvent::ScreencopyManagerBound).xdg_output_manager
            == state.xdg_output_manager,
        state.after(StateEvent::ScreencopyManagerBound).outputs == state.outputs,
{
}

/// An output is known by the name it was given, or else by its id after a
/// fixed word.
pub proof fn outputs_are_known_by_name_or_id(output: OutputState)
    ensures
        output.name matches Some(name) ==> output.known_as() == name@,
        output.name is None ==> output.known_as() == "output-"@ + decimal(output.id as nat),
{
}

/// Where an output has been placed by xdg-output, that is its place and size.
/// Otherwise it lies where its own event says, and its size is that of its mode
/// in whole units of its scale, of at least 1, with width and height exchanged
/// by quarter turns.
pub proof fn outputs_lie_where_they_were_placed(output: OutputState)
    ensures
        output.has_logical ==> output.placed_at().x == output.logical_x && output.placed_at().y
            == output.logical_y && output.placed_at().width == output.logical_width
            && output.placed_at().height == output.logical_height,
        !output.has_logical ==> output.placed_at().x == output.x && output.placed_at().y == output.y,
        !output.has_logical ==> ({
            let scale = if output.scale < 1 {
                1
            } else {
                output.scale as int
            };
            let (width, height) = match output.transform {
                Transform::Normal
                | Transform::Rotated180
                | Transform::Flipped
                | Transform::Flipped180 => (output.placed_at().width, output.placed_at().height),
                _ => (output.placed_at().height, output.placed_at().width),
            };
            &&& output.mode_width >= 0 ==> 0 <= output.mode_width - width * scale < scale
            &&& output.mode_width < 0 ==> 0 <= width * scale - output.mode_width < scale
            &&& output.mode_height >= 0 ==> 0 <= output.mode_height - height * scale < scale
            &&& output.mode_height < 0 ==> 0 <= height * scale - output.mode_height < scale
        }),
{
    let scale = sane_scale(output.scale);
    whole_units(output.mode_width, scale);
    whole_units(output.mode_height, scale);
}

/// Rounding towards zero leaves less than one unit.
proof fn whole_units(a: i32, b: int)
    requires
        1 <= b,
    ensures
        i32::MIN <= quotient(a as int, b) <= i32::MAX,
        a >= 0 ==> 0 <= a - quotient(a as int, b) * b < b,
        a < 0 ==> 0 <= quotient(a as int, b) * b - a < b,
{
    let size = if a >= 0 {
        a as int
    } else {
        -a
    };
    vstd::arithmetic::div_mod::lemma_fundamental_div_mod(size, b);
    assert(b * (size / b) == size / b * b && (-(size / b)) * b == -(size / b * b)) by (nonlinear_arith);
    assert(0 <= size / b <= size) by (nonlinear_arith)
        requires
            1 <= b,
            0 <= size,
            size == b * (size / b) + size % b,
            0 <= size % b < b,
    ;
}

/// What each event of the output object changes, and that it changes nothing
/// else: the position and, by its code, the transform; the mode; the scale; the
/// name.
pub proof fn output_events_set_what_they_carry(
    output: OutputState,
    x: i32,
    y: i32,
    code: u32,
    name: String,
)
    ensures
        ({
            let moved = output.after_output_event(
                OutputEvent::Geometry { x, y, transform: code },
            );
            &&& moved.x == x && moved.y == y
            &&& code == 0 ==> moved.transform == Transform::Normal
            &&& code == 1 ==> moved.transform == Transform::Rotated90
            &&& code == 2 ==> moved.transform == Transform::Rotated180
            &&& code == 3 ==> moved.transform == Transform::Rotated270
            &&& code == 4 ==> moved.transform == Transform::Flipped
            &&& code == 5 ==> moved.transform == Transform::Flipped90
            &&& code == 6 ==> moved.transform == Transform::Flipped180
            &&& code == 7 ==> moved.transform == Transform::Flipped270
            &&& code > 7 ==> moved.transform == output.transform
            &&& moved == (OutputState { x, y, transform: moved.transform, ..output })
        }),
        output.after_output_event(OutputEvent::Mode { width: x, height: y }) == (OutputState {
            mode_width: x,
            mode_height: y,
            ..output
        }),
        output.after_output_event(OutputEvent::Scale { factor: x }) == (OutputState {
            scale: x,
            ..output
        }),
        output.after_output_event(OutputEvent::Name { name }) == (OutputState {
            name: Some(name),
            ..output
        }),
        output.after_output_event(OutputEvent::Other) == output,
{
}

/// What each event of the xdg-output object changes, and that it changes
/// nothing else: the logical position or size, either of which makes the
/// logical place the one that counts; the name, where there is none.
pub proof fn xdg_events_set_what_they_carry(output: OutputState, x: i32, y: i32, name: String)
    ensures
        output.after_xdg_event(XdgOutputEvent::LogicalPosition { x, y }) == (OutputState {
            logical_x: x,
            logical_y: y,
            has_logical: true,
            ..output
        }),
        output.after_xdg_event(XdgOutputEvent::LogicalSize { width: x, height: y }) == (OutputState {
            logical_width: x,
            logical_height: y,
            has_logical: true,
            ..output
        }),
        output.name is None ==> output.after_xdg_event(XdgOutputEvent::Name { name }) == (
        OutputState { name: Some(name), ..output }),
        output.name is Some ==> output.after_xdg_event(XdgOutputEvent::Name { name }) == output,
        output.after_xdg_event(XdgOutputEvent::Other) == output,
{
}

proof fn place_of_id_finds(outputs: Seq<OutputState>, id: u32, from: int, i: int)
    requires
        0 <= from <= i < outputs.len(),
        outputs[i].id == id,
        forall|j: int| from <= j < i ==> (#[trigger] outputs[j]).id != id,
    ensures
        place_of_id(outputs, id, from) == Some(i),
    decreases i - from,
{
    if from < i {
        place_of_id_finds(outputs, id, from + 1, i);
    }
}

proof fn place_of_xdg_id_finds(outputs: Seq<OutputState>, xdg_id: u32, from: int, i: int)
    requires
        0 <= from <= i < outputs.len(),
        outputs[i].xdg_id == Some(xdg_id),
        forall|j: int| from <= j < i ==> (#[trigger] outputs[j]).xdg_id != Some(xdg_id),
    ensures
        place_of_xdg_id(outputs, xdg_id, from) == Some(i),
    decreases i - from,
{
    if from < i {
        place_of_xdg_id_finds(outputs, xdg_id, from + 1, i);
    }
}

/// An event of an output object reaches the first output with that id and no
/// other one, and the globals stay as they are.
pub proof fn output_events_reach_their_output(
    state: StateView,
    id: u32,
    event: OutputEvent,
    i: int,
)
    requires
        0 <= i < state.outputs.len(),
        state.outputs[i].id == id,
        forall|j: int| 0 <= j < i ==> (#[trigger] state.outputs[j]).id != id,
    ensures
        state.after(StateEvent::Output { id, event }) == (StateView {
            outputs: state.outputs.update(i, state.outputs[i].after_output_event(event)),
            ..state
        }),
{
    place_of_id_finds(state.outputs, id, 0, i);
}

/// An event of an xdg-output object reaches the first output that has that
/// object and no other one, and the globals stay as they are.
pub proof fn xdg_events_reach_their_output(
    state: StateView,
    xdg_id: u32,
    event: XdgOutputEvent,
    i: int,
)
    requires
        0 <= i < state.outputs.len(),
        state.outputs[i].xdg_id == Some(xdg_id),
        forall|j: int| 0 <= j < i ==> (#[trigger] state.outputs[j]).xdg_id != Some(xdg_id),
    ensures
        state.after(StateEvent::XdgOutput { xdg_id, event }) == (StateView {
            outputs: state.outputs.update(i, state.outputs[i].after_xdg_event(event)),
            ..state
        }),
{
    place_of_xdg_id_finds(state.outputs, xdg_id, 0, i);
}

/// An event of an object that no output has changes nothing.
pub proof fn events_of_strange_objects_change_nothing(
    state: StateView,
    id: u32,
    event: OutputEvent,
    xdg_event: XdgOutputEvent,
)
    ensures
        (forall|j: int| 0 <= j < state.outputs.len() ==> (#[trigger] state.outputs[j]).id != id)
            ==> state.after(StateEvent::Output { id, event }) == state,
        (forall|j: int|
            0 <= j < state.outputs.len() ==> (#[trigger] state.outputs[j]).xdg_id != Some(id))
            ==> state.after(StateEvent::XdgOutput { xdg_id: id, event: xdg_event }) == state,
{
    place_of_id_is_a_place(state.outputs, id, 0);
    place_of_xdg_id_is_a_place(state.outputs, id, 0);
}

/// The number of outputs without an xdg-output among the first `n` is that of
/// those first `n` outputs once the others are left out.
pub proof fn bare_outputs_are_those_without_xdg_output(outputs: Seq<OutputState>, n: int)
    requires
        0 <= n <= outputs.len(),
    ensures
        bare_outputs(outputs, n) == outputs.take(n).filter(
            |output: OutputState| output.xdg_id is None,
        ).len(),
    decreases n,
{
    let bare = |output: OutputState| output.xdg_id is None;
    reveal(Seq::filter);
    if n > 0 {
        bare_outputs_are_those_without_xdg_output(outputs, n - 1);
        assert(outputs.take(n).drop_last() =~= outputs.take(n - 1));
        assert(outputs.take(n).last() == outputs[n - 1]);
    }
}

/// Once the manager of xdg-outputs is bound, an output that had an xdg-output
/// keeps it, and of those that had none, the one with `k` such outputs before
/// it gets the object in place `k`. Nothing else of an output changes.
pub proof fn new_manager_gives_objects_in_order(state: StateView, xdg_ids: Vec<u32>, i: int)
    requires
        0 <= i < state.outputs.len(),
    ensures
        ({
            let after = state.after(StateEvent::XdgOutputManagerBound { xdg_ids });
            let k = state.outputs.take(i).filter(
                |output: OutputState| output.xdg_id is None,
            ).len();
            &&& after.xdg_output_manager
            &&& after.shm == state.shm
            &&& after.screencopy_manager == state.screencopy_manager
            &&& after.outputs.len() == state.outputs.len()
            &&& state.outputs[i].xdg_id is Some ==> after.outputs[i] == state.outputs[i]
            &&& state.outputs[i].xdg_id is None ==> after.outputs[i] == (OutputState {
                xdg_id: Some(xdg_ids@[k as int]),
                ..state.outputs[i]
            })
        }),
{
    bare_outputs_are_those_without_xdg_output(state.outputs, i);
}

/// The output found by a name is the first that is known by it, and a name by
/// which no output is known finds none.
pub proof fn first_output_known_by_a_name_is_found(
    outputs: Seq<OutputState>,
    name: Seq<char>,
    from: int,
    i: int,
)
    requires
        0 <= from <= i <= outputs.len(),
        i < outputs.len() ==> outputs[i].known_as() == name,
        forall|j: int| from <= j < i ==> (#[trigger] outputs[j]).known_as() != name,
    ensures
        i < outputs.len() ==> place_of_name(outputs, name, from) == Some(i),
        i == outputs.len() ==> place_of_name(outputs, name, from) is None,
    decreases i - from,
{
    if from < i {
        first_output_known_by_a_name_is_found(outputs, name, from + 1, i);
    }
}

/// Nothing but these two can fail to be possible: a manager of xdg-outputs that
/// makes more or fewer objects than there are outputs without one, and an
/// output that comes with an object before the manager or without one after.
pub proof fn most_events_can_happen_at_any_time(
    state: StateView,
    xdg_ids: Vec<u32>,
    id: u32,
    xdg_id: Option<u32>,
    event: OutputEvent,
    xdg_event: XdgOutputEvent,
)
    ensures
        state.admits(StateEvent::ShmBound),
        state.admits(StateEvent::ScreencopyManagerBound),
        state.admits((StateEvent::Output { id, event })),
        state.admits((StateEvent::XdgOutput { xdg_id: id, event: xdg_event })),
        state.admits((StateEvent::OutputBound { id, xdg_id })) <==> (xdg_id is Some
            <==> state.xdg_output_manager),
        state.admits((StateEvent::XdgOutputManagerBound { xdg_ids })) <==> xdg_ids@.len()
            == state.outputs.filter(|output: OutputState| output.xdg_id is None).len(),
{
    bare_outputs_are_those_without_xdg_output(state.outputs, state.outputs.len() as int);
    assert(state.outputs.take(state.outputs.len() as int) =~= state.outputs);
}

} // verus!
