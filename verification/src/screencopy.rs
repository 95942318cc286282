//! Screenshots of one output at a time: which outputs there are, and the
//! course of a capture from the request to the image.

use crate::frame::{has_buffer_done, BufferParams, FrameEvent, FrameState};
use crate::outputs::{Output, State};
use crate::text::join;
use crate::wire::Transform;
use vstd::prelude::*;

verus! {

/// A compositor that can be asked for screenshots.
#[derive(Debug)]
pub struct Screencopy {
    pub state: State,
}

/// The output of a capture.
#[derive(Debug, Clone, Copy, PartialEq, Eq, Structural)]
pub struct CaptureTarget {
    /// Place of the output among the known outputs.
    pub place: usize,
    pub transform: Transform,
}

impl Screencopy {
    /// The compositor offers what captures need.
    pub open spec fn usable(self) -> bool {
        self.state.screencopy_manager && self.state.shm
    }

    /// Accepts a compositor once its globals are known, if it offers what
    /// captures need.
    pub fn new(state: State) -> (screencopy: Result<Screencopy, String>)
        ensures
            match screencopy {
                Ok(screencopy) => screencopy.state == state && screencopy.usable()
                    && state.screencopy_manager && state.shm,
                Err(error) => if !state.screencopy_manager {
                    error@ == "compositor does not support zwlr_screencopy_manager_v1"@
                } else {
                    !state.shm && error@ == "compositor does not support wl_shm"@
                },
            },
    {
        if !state.screencopy_manager {
            return Err("compositor does not support zwlr_screencopy_manager_v1".to_string());
        }
        if !state.shm {
            return Err("compositor does not support wl_shm".to_string());
        }
        Ok(Screencopy { state })
    }

    /// The known outputs, in the order in which they were announced.
    pub fn outputs(&self) -> (outputs: Vec<Output>)
        ensures
            outputs@.len() == self.state.outputs@.len(),
            forall|i: int|
                0 <= i < outputs@.len() ==> (#[trigger] outputs@[i]).name@
                    == self.state.outputs@[i].known_as() && outputs@[i].geometry
                    == self.state.outputs@[i].placed_at(),
    {
        let mut outputs: Vec<Output> = Vec::new();
        let mut i: usize = 0;
        while i < self.state.outputs.len()
            invariant
                i <= self.state.outputs@.len(),
                outputs@.len() == i,
                forall|j: int|
                    0 <= j < i ==> (#[trigger] outputs@[j]).name@
                        == self.state.outputs@[j].known_as() && outputs@[j].geometry
                        == self.state.outputs@[j].placed_at(),
            decreases self.state.outputs@.len() - i,
        {
            let output = &self.state.outputs[i];
            outputs.push(Output { name: output.resolved_name(), geometry: output.geometry() });
            i = i + 1;
        }
        outputs
    }

    /// The output to capture, by its name.
    pub fn capture_target(&self, output_name: &str) -> (target: Result<CaptureTarget, String>)
        ensures
            match target {
                Ok(target) => {
                    &&& self.usable()
                    &&& target.place < self.state.outputs@.len()
                    &&& crate::outputs::place_of_name(self.state.outputs@, output_name@, 0) == Some(
                        target.place as int,
                    )
                    &&& target.transform == self.state.outputs@[target.place as int].transform
                    &&& self.state.outputs@[target.place as int].known_as() == output_name@
                    &&& forall|j: int|
                        0 <= j < target.place ==> (#[trigger] self.state.outputs@[j]).known_as()
                            != output_name@
                },
                Err(error) => if !self.state.screencopy_manager {
                    error@ == "compositor does not support zwlr_screencopy_manager_v1"@
                } else if !self.state.shm {
                    error@ == "compositor does not support wl_shm"@
                } else {
                    &&& crate::outputs::place_of_name(self.state.outputs@, output_name@, 0) is None
                    &&& error@ == "output '"@ + output_name@ + "' not found"@
                },
            },
    {
        if !self.state.screencopy_manager {
            return Err("compositor does not support zwlr_screencopy_manager_v1".to_string());
        }
        if !self.state.shm {
            return Err("compositor does not support wl_shm".to_string());
        }
        match self.state.find_output(output_name) {
            Some(place) => Ok(
                CaptureTarget { place, transform: self.state.outputs[place].transform },
            ),
            None => Err(join(join("output '", output_name).as_str(), "' not found")),
        }
    }
}

/// A capture under way.
#[derive(Debug, Clone, Copy, PartialEq, Eq, Structural)]
pub struct Capture {
    pub transform: Transform,
    pub has_buffer_done: bool,
    pub frame: FrameState,
    /// The buffer that the compositor was asked to copy into.
    pub buffer: Option<BufferParams>,
}

/// What a capture needs next.
#[derive(Debug)]
pub enum CaptureAction {
    /// Wait for the next event.
    Wait,
    /// Make a buffer of `size` bytes and ask for the copy.
    Copy { params: BufferParams, size: usize },
    /// The pixels are in the buffer: read its `size` bytes.
    Read { size: usize },
    /// Give up.
    Fail { error: String },
}

impl Capture {
    /// The buffer that was asked for, if any, has the layout that the frame
    /// keeps and a size that was accepted.
    pub open spec fn sound(self) -> bool {
        self.buffer matches Some(params) ==> self.frame.params == Some(params)
            && params.byte_size() <= i32::MAX
    }

    /// Starts the capture of an output with this transform on a frame of this
    /// protocol version.
    pub fn new(transform: Transform, frame_version: u32) -> (capture: Capture)
        ensures
            capture == (Capture {
                transform,
                has_buffer_done: frame_version >= 3,
                frame: FrameState::start(),
                buffer: None,
            }),
            capture.sound(),
    {
        Capture {
            transform,
            has_buffer_done: has_buffer_done(frame_version),
            frame: FrameState::new(),
            buffer: None,
        }
    }

    /// Takes note of an event of the frame.
    pub fn event(&mut self, event: FrameEvent)
        ensures
            *final(self) == (Capture { frame: old(self).frame.after(event), ..*old(self) }),
            old(self).sound() ==> final(self).sound(),
    {
        self.frame.event(event);
    }

    /// Decides what the capture needs next. Asking for the copy is decided
    /// once, and the copied pixels are read only after it.
    pub fn next(&mut self) -> (action: CaptureAction)
        ensures
            old(self).sound() ==> final(self).sound(),
            final(self).transform == old(self).transform,
            final(self).has_buffer_done == old(self).has_buffer_done,
            final(self).frame == old(self).frame,
            action is Copy || final(self).buffer == old(self).buffer,
            match action {
                CaptureAction::Wait => !old(self).frame.failed && if old(self).buffer is None {
                    !old(self).frame.offers_complete(old(self).has_buffer_done)
                } else {
                    !old(self).frame.ready
                },
                CaptureAction::Copy { params, size } => {
                    &&& !old(self).frame.failed
                    &&& old(self).buffer is None
                    &&& old(self).frame.offers_complete(old(self).has_buffer_done)
                    &&& old(self).frame.params == Some(params)
                    &&& size == params.byte_size()
                    &&& params.byte_size() <= i32::MAX
                    &&& final(self).buffer == Some(params)
                },
                CaptureAction::Read { size } => {
                    &&& !old(self).frame.failed
                    &&& old(self).frame.ready
                    &&& old(self).buffer matches Some(params) && size == params.byte_size()
                        && params.byte_size() <= i32::MAX
                },
                CaptureAction::Fail { error } => if old(self).frame.failed {
                    error@ == "compositor failed to capture the output"@
                } else if let Some(params) = old(self).buffer {
                    &&& !old(self).sound()
                    &&& old(self).frame.ready
                    &&& params.byte_size() > i32::MAX
                    &&& error@ == "screencopy buffer size overflow"@
                } else {
                    &&& old(self).frame.offers_complete(old(self).has_buffer_done)
                    &&& match old(self).frame.params {
                        None => error@
                            == "compositor offered no supported screencopy buffer format"@,
                        Some(params) => params.byte_size() > i32::MAX && error@
                            == "screencopy buffer size overflow"@,
                    }
                },
            },
    {
        match self.buffer {
            None => match self.frame.buffer_choice(self.has_buffer_done) {
                Err(error) => CaptureAction::Fail { error },
                Ok(None) => CaptureAction::Wait,
                Ok(Some(params)) => match params.buffer_size() {
                    Err(error) => CaptureAction::Fail { error },
                    Ok(size) => {
                        self.buffer = Some(params);
                        CaptureAction::Copy { params, size }
                    },
                },
            },
            Some(params) => match self.frame.copy_result() {
                Err(error) => CaptureAction::Fail { error },
                Ok(None) => CaptureAction::Wait,
                Ok(Some(_)) => match params.buffer_size() {
                    Err(error) => CaptureAction::Fail { error },
                    Ok(size) => CaptureAction::Read { size },
                },
            },
        }
    }

    /// Whether the buffer that was asked for can be made into an image.
    pub open spec fn readable(self) -> bool {
        self.buffer matches Some(params) && params.readable(self.transform)
    }

    /// Whether the buffer that was asked for can be made into an image.
    pub fn is_readable(&self) -> (yes: bool)
        ensures
            yes == self.readable(),
    {
        match self.buffer {
            Some(params) => params.is_readable(self.transform),
            None => false,
        }
    }

    /// Makes the image out of the bytes of the buffer: width, height and RGBA
    /// pixels in the output's logical orientation.
    pub fn finish(&self, data: Vec<u8>) -> (image: (u32, u32, Vec<u8>))
        requires
            self.readable(),
            self.buffer matches Some(params) && data@.len() == params.byte_size(),
        ensures
            self.buffer matches Some(params) && {
                &&& image.0 == crate::pixels::upright_width(
                    params.width as int,
                    params.height as int,
                    self.transform,
                )
                &&& image.1 == crate::pixels::upright_height(
                    params.width as int,
                    params.height as int,
                    self.transform,
                )
                &&& image.2@ == params.image(data@, self.transform, self.frame.y_invert)
            },
    {
        match self.buffer {
            Some(params) => params.assemble(data, self.transform, self.frame.y_invert),
            None => (0, 0, data),
        }
    }
}

/// The buffer of a capture has the first supported layout that was offered,
/// and a failure that was sent is a failure of the capture.
pub proof fn capture_follows_its_events(capture: Capture, events: Seq<FrameEvent>)
    requires
        capture.sound(),
        capture.frame == FrameState::start().after_all(events),
    ensures
        capture.buffer is Some ==> capture.buffer == crate::frame::first_offer(events, 0),
        capture.frame.failed <==> events.contains(FrameEvent::Failed),
{
    crate::frame::first_supported_offer_is_kept(events);
    crate::frame::frame_notes_are_what_was_sent(events);
}

/// A compositor can be asked for screenshots exactly if it offers both the
/// screencopy manager and shared memory.
pub proof fn captures_need_manager_and_shared_memory(screencopy: Screencopy)
    ensures
        screencopy.usable() <==> screencopy.state.screencopy_manager && screencopy.state.shm,
{
}

} // verus!
