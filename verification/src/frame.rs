//! One screencopy frame: the buffer the compositor asks for, the events that
//! lead to its pixels, and the image those pixels make.

use crate::pixels::{apply_transform, convert_to_rgba, drop_row_padding, flip_vertical_in_place};
use crate::wire::{
    decode_format, decode_y_invert, is_supported_format, ShmFormat, Transform,
};
use vstd::prelude::*;

verus! {

/// A buffer layout that the compositor offers for a frame.
#[derive(Debug, Clone, Copy, PartialEq, Eq, Structural)]
pub struct BufferParams {
    pub width: u32,
    pub height: u32,
    pub stride: u32,
    pub format: ShmFormat,
}

/// An event of a screencopy frame. Formats and flags are their codes on the
/// wire.
#[derive(Debug, Clone, Copy, PartialEq, Eq, Structural)]
pub enum FrameEvent {
    Buffer { format: u32, width: u32, height: u32, stride: u32 },
    BufferDone,
    Flags { flags: u32 },
    Ready,
    Failed,
    Other,
}

/// What the events of a screencopy frame have said so far.
#[derive(Debug, Clone, Copy, PartialEq, Eq, Structural)]
pub struct FrameState {
    /// The first supported buffer layout that the compositor offered.
    pub params: Option<BufferParams>,
    pub all_params_received: bool,
    pub y_invert: bool,
    pub ready: bool,
    pub failed: bool,
}

/// The supported buffer layout that an event offers, if it offers one.
pub open spec fn offered_params(event: FrameEvent) -> Option<BufferParams> {
    match event {
        FrameEvent::Buffer { format, width, height, stride } => {
            let format = crate::wire::format_of_code(format);
            if crate::wire::supported(format) {
                Some(BufferParams { width, height, stride, format })
            } else {
                None
            }
        },
        _ => None,
    }
}

/// The vertical flip that an event asks for or calls off, if it does either.
pub open spec fn announced_y_invert(event: FrameEvent) -> Option<bool> {
    match event {
        FrameEvent::Flags { flags } => crate::wire::y_invert_of_flags(flags),
        _ => None,
    }
}

impl FrameState {
    /// The state before any event.
    pub open spec fn start() -> FrameState {
        FrameState {
            params: None,
            all_params_received: false,
            y_invert: false,
            ready: false,
            failed: false,
        }
    }

    /// The state after one more event.
    pub open spec fn after(self, event: FrameEvent) -> FrameState {
        FrameState {
            params: if self.params is None {
                offered_params(event)
            } else {
                self.params
            },
            all_params_received: self.all_params_received || event == FrameEvent::BufferDone,
            y_invert: match announced_y_invert(event) {
                Some(y_invert) => y_invert,
                None => self.y_invert,
            },
            ready: self.ready || event == FrameEvent::Ready,
            failed: self.failed || event == FrameEvent::Failed,
        }
    }

    /// The state after a run of events.
    pub open spec fn after_all(self, events: Seq<FrameEvent>) -> FrameState
        decreases events.len(),
    {
        if events.len() == 0 {
            self
        } else {
            self.after_all(events.drop_last()).after(events.last())
        }
    }

    /// The state before any event.
    pub fn new() -> (state: FrameState)
        ensures
            state == FrameState::start(),
    {
        FrameState {
            params: None,
            all_params_received: false,
            y_invert: false,
            ready: false,
            failed: false,
        }
    }

    /// Takes note of an event.
    pub fn event(&mut self, event: FrameEvent)
        ensures
            *final(self) == old(self).after(event),
    {
        match event {
            FrameEvent::Buffer { format, width, height, stride } => {
                let format = decode_format(format);
                if self.params.is_none() && is_supported_format(format) {
                    self.params = Some(BufferParams { width, height, stride, format });
                }
            },
            FrameEvent::BufferDone => {
                self.all_params_received = true;
            },
            FrameEvent::Flags { flags } => {
                if let Some(y_invert) = decode_y_invert(flags) {
                    self.y_invert = y_invert;
                }
            },
            FrameEvent::Ready => {
                self.ready = true;
            },
            FrameEvent::Failed => {
                self.failed = true;
            },
            FrameEvent::Other => {},
        }
    }

    /// Whether the compositor has said all it will about buffer layouts. A
    /// frame whose protocol version lacks the closing event offers one layout
    /// only.
    pub open spec fn offers_complete(self, has_buffer_done: bool) -> bool {
        self.all_params_received || !has_buffer_done && self.params is Some
    }

    /// The buffer layout to use: `None` while the compositor may still say
    /// more, an error once there can be none.
    pub fn buffer_choice(&self, has_buffer_done: bool) -> (choice: Result<
        Option<BufferParams>,
        String,
    >)
        ensures
            choice is Err <==> self.failed || self.all_params_received && self.params is None,
            choice == Ok::<Option<BufferParams>, String>(None) <==> !self.failed
                && !self.all_params_received && (has_buffer_done || self.params is None),
            match choice {
                Ok(Some(params)) => !self.failed && self.offers_complete(has_buffer_done)
                    && self.params == Some(params),
                Ok(None) => !self.failed && !self.offers_complete(has_buffer_done),
                Err(error) => if self.failed {
                    error@ == "compositor failed to capture the output"@
                } else {
                    &&& self.offers_complete(has_buffer_done)
                    &&& self.params is None
                    &&& error@ == "compositor offered no supported screencopy buffer format"@
                },
            },
    {
        if self.failed {
            return Err("compositor failed to capture the output".to_string());
        }
        if self.all_params_received || (!has_buffer_done && self.params.is_some()) {
            return match self.params {
                Some(params) => Ok(Some(params)),
                None => Err("compositor offered no supported screencopy buffer format".to_string()),
            };
        }
        Ok(None)
    }

    /// The vertical flip of the copied pixels: `None` while the copy is still
    /// under way, an error if it failed.
    pub fn copy_result(&self) -> (result: Result<Option<bool>, String>)
        ensures
            match result {
                Ok(Some(y_invert)) => !self.failed && self.ready && y_invert == self.y_invert,
                Ok(None) => !self.failed && !self.ready,
                Err(error) => self.failed && error@ == "compositor failed to capture the output"@,
            },
    {
        if self.failed {
            return Err("compositor failed to capture the output".to_string());
        }
        if self.ready {
            return Ok(Some(self.y_invert));
        }
        Ok(None)
    }
}

/// Whether a frame of this protocol version closes its buffer offers with an
/// event of its own.
pub fn has_buffer_done(frame_version: u32) -> (yes: bool)
    ensures
        yes == (frame_version >= 3),
{
    frame_version >= 3
}

impl BufferParams {
    /// The size of the buffer in bytes.
    pub open spec fn byte_size(self) -> int {
        self.stride * self.height
    }

    /// The size of the buffer in bytes, which a signed 32-bit integer must
    /// hold.
    pub fn buffer_size(&self) -> (size: Result<usize, String>)
        ensures
            match size {
                Ok(size) => size == self.byte_size() && self.byte_size() <= i32::MAX,
                Err(error) => self.byte_size() > i32::MAX && error@
                    == "screencopy buffer size overflow"@,
            },
            size is Ok <==> self.stride * self.height <= 0x7fff_ffff,
            size matches Ok(size) ==> size == self.stride * self.height,
    {
        assert(0 <= self.stride * self.height <= u64::MAX) by (nonlinear_arith)
            requires
                0 <= self.stride <= 0xffff_ffff,
                0 <= self.height <= 0xffff_ffff,
        ;
        let size: u64 = self.stride as u64 * self.height as u64;
        if size <= i32::MAX as u64 {
            Ok(size as usize)
        } else {
            Err("screencopy buffer size overflow".to_string())
        }
    }

    /// Whether the rows of the buffer hold the pixels they are said to hold,
    /// as far as undoing `transform` needs them.
    pub open spec fn readable(self, transform: Transform) -> bool {
        &&& 4 * self.width <= usize::MAX
        &&& 4 * self.width <= self.stride || self.height == 0 || self.height == 1 && transform
            == Transform::Normal
    }

    /// Whether the rows of the buffer hold the pixels they are said to hold,
    /// as far as undoing `transform` needs them.
    pub fn is_readable(&self, transform: Transform) -> (yes: bool)
        ensures
            yes == self.readable(transform),
            4 * self.width <= self.stride && 4 * self.width <= usize::MAX ==> yes,
    {
        let row_bytes: u64 = 4 * self.width as u64;
        row_bytes <= usize::MAX as u64 && (row_bytes <= self.stride as u64 || self.height == 0
            || self.height == 1 && transform == Transform::Normal)
    }

    /// The RGBA image that the bytes of the buffer make: without row padding,
    /// converted, upright, and flipped if `y_invert` says so.
    pub open spec fn image(self, data: Seq<u8>, transform: Transform, y_invert: bool) -> Seq<u8> {
        let width = self.width as int;
        let height = self.height as int;
        let packed = crate::pixels::unpadded(data, width, height, self.stride as int);
        let rgba = crate::pixels::converted(packed, self.format);
        let upright = crate::pixels::upright(rgba, width, height, transform);
        if y_invert {
            crate::pixels::flipped(
                upright,
                crate::pixels::upright_width(width, height, transform),
                crate::pixels::upright_height(width, height, transform),
            )
        } else {
            upright
        }
    }

    /// A readable buffer without its row padding holds every pixel.
    proof fn packed_size(self, data: Seq<u8>, transform: Transform)
        requires
            self.readable(transform),
            data.len() == self.byte_size(),
        ensures
            ({
                let width = self.width as int;
                let height = self.height as int;
                let packed = crate::pixels::unpadded(data, width, height, self.stride as int);
                let across = crate::pixels::upright_width(width, height, transform);
                let down = crate::pixels::upright_height(width, height, transform);
                &&& transform != Transform::Normal || 4 * width <= self.stride ==> packed.len() == 4
                    * (width * height)
                &&& 4 * across * down == 4 * (width * height)
                &&& 4 * width * height == 4 * (width * height)
            }),
    {
        let width = self.width as int;
        let height = self.height as int;
        let stride = self.stride as int;
        let across = crate::pixels::upright_width(width, height, transform);
        let down = crate::pixels::upright_height(width, height, transform);
        assert(4 * across * down == 4 * (width * height)) by (nonlinear_arith)
            requires
                across == width && down == height || across == height && down == width,
        ;
        assert(4 * width * height == 4 * (width * height)) by (nonlinear_arith);
        if height == 0 {
            assert(stride * height == 0 && width * height == 0) by (nonlinear_arith)
                requires
                    height == 0,
            ;
        } else if stride == 4 * width {
            assert(stride * height == 4 * width * height);
        }
    }

    /// Makes the captured image out of the bytes of the buffer: width, height
    /// and RGBA pixels in the output's logical orientation.
    pub fn assemble(&self, data: Vec<u8>, transform: Transform, y_invert: bool) -> (image: (
        u32,
        u32,
        Vec<u8>,
    ))
        requires
            self.readable(transform),
            data@.len() == self.byte_size(),
        ensures
            image.0 == crate::pixels::upright_width(
                self.width as int,
                self.height as int,
                transform,
            ),
            image.1 == crate::pixels::upright_height(
                self.width as int,
                self.height as int,
                transform,
            ),
            image.2@ == self.image(data@, transform, y_invert),
    {
        proof {
            self.packed_size(data@, transform);
        }
        let mut data = data;
        drop_row_padding(&mut data, self.width, self.height, self.stride);
        convert_to_rgba(data.as_mut_slice(), self.format);
        // The buffer is in the output's native orientation; undo the output
        // transform so that the image matches what is on screen.
        let (data, width, height) = apply_transform(data, self.width, self.height, transform);
        let mut data = data;
        if y_invert {
            flip_vertical_in_place(data.as_mut_slice(), width, height);
        }
        (width, height, data)
    }
}

/// The first supported layout that events offer, from place `from` on.
pub open spec fn first_offer(events: Seq<FrameEvent>, from: int) -> Option<BufferParams>
    decreases events.len() - from,
{
    if from >= events.len() {
        None
    } else if offered_params(events[from]) is Some {
        offered_params(events[from])
    } else {
        first_offer(events, from + 1)
    }
}

/// A further event matters only where no event before it offers a layout.
proof fn first_offer_with_last(events: Seq<FrameEvent>, from: int)
    requires
        0 <= from < events.len(),
    ensures
        first_offer(events, from) == match first_offer(events.drop_last(), from) {
            Some(params) => Some(params),
            None => offered_params(events.last()),
        },
    decreases events.len() - from,
{
    reveal_with_fuel(first_offer, 2);
    if from + 1 < events.len() {
        first_offer_with_last(events, from + 1);
    }
}

/// Whether the event at `i` is the last to speak of a vertical flip.
pub open spec fn last_flip_word(events: Seq<FrameEvent>, i: int) -> bool {
    &&& 0 <= i < events.len()
    &&& announced_y_invert(events[i]) is Some
    &&& forall|j: int| i < j < events.len() ==> announced_y_invert(#[trigger] events[j]) is None
}

/// Whatever else the compositor sends, a frame keeps the first supported
/// buffer layout that was offered, and has none as long as none was.
pub proof fn first_supported_offer_is_kept(events: Seq<FrameEvent>)
    ensures
        FrameState::start().after_all(events).params == first_offer(events, 0),
    decreases events.len(),
{
    if events.len() > 0 {
        first_supported_offer_is_kept(events.drop_last());
        first_offer_with_last(events, 0);
    }
}

/// The end of the offers, the end of the copy and a failure stay noted once
/// they were sent, and are noted only then; the vertical flip is the one that
/// was spoken of last.
pub proof fn frame_notes_are_what_was_sent(events: Seq<FrameEvent>)
    ensures
        FrameState::start().after_all(events).all_params_received <==> events.contains(
            FrameEvent::BufferDone,
        ),
        FrameState::start().after_all(events).ready <==> events.contains(FrameEvent::Ready),
        FrameState::start().after_all(events).failed <==> events.contains(FrameEvent::Failed),
        forall|i: int|
            #[trigger] last_flip_word(events, i) ==> Some(
                FrameState::start().after_all(events).y_invert,
            ) == announced_y_invert(events[i]),
        (forall|i: int|
            0 <= i < events.len() ==> announced_y_invert(#[trigger] events[i]) is None)
            ==> !FrameState::start().after_all(events).y_invert,
    decreases events.len(),
{
    if events.len() > 0 {
        let rest = events.drop_last();
        frame_notes_are_what_was_sent(rest);
        let last = events.last();
        assert(forall|i: int| 0 <= i < rest.len() ==> #[trigger] rest[i] == events[i]);
        assert forall|event: FrameEvent| #[trigger] events.contains(event) <==> rest.contains(event)
            || event == last by {
            if events.contains(event) {
                let i = choose|i: int| 0 <= i < events.len() && events[i] == event;
                if i < rest.len() {
                    assert(rest[i] == event);
                }
            }
            if rest.contains(event) {
                let i = choose|i: int| 0 <= i < rest.len() && rest[i] == event;
                assert(events[i] == event);
            }
            if event == last {
                assert(events[events.len() - 1] == event);
            }
        }
        let now = FrameState::start().after_all(events);
        assert forall|i: int| #[trigger] last_flip_word(events, i) implies Some(now.y_invert)
            == announced_y_invert(events[i]) by {
            if i < rest.len() {
                assert(last_flip_word(rest, i));
                assert(announced_y_invert(events[events.len() - 1]) is None);
            }
        }
        if forall|i: int| 0 <= i < events.len() ==> announced_y_invert(#[trigger] events[i]) is None {
            assert(announced_y_invert(events[events.len() - 1]) is None);
            assert(forall|i: int|
                0 <= i < rest.len() ==> announced_y_invert(#[trigger] rest[i]) is None);
        }
    }
}

/// A frame that failed, became ready or chose a buffer layout stays so,
/// whatever else is sent.
pub proof fn frame_progress_is_final(frame: FrameState, events: Seq<FrameEvent>)
    ensures
        frame.failed ==> frame.after_all(events).failed,
        frame.ready ==> frame.after_all(events).ready,
        frame.all_params_received ==> frame.after_all(events).all_params_received,
        frame.params is Some ==> frame.after_all(events).params == frame.params,
    decreases events.len(),
{
    if events.len() > 0 {
        frame_progress_is_final(frame, events.drop_last());
    }
}

/// Row at which the native pixel `(x, y)` appears in the captured image.
pub open spec fn captured_y(
    x: int,
    y: int,
    params: BufferParams,
    transform: Transform,
    y_invert: bool,
) -> int {
    let width = params.width as int;
    let height = params.height as int;
    let row = crate::pixels::upright_y(x, y, width, height, transform);
    if y_invert {
        crate::pixels::upright_height(width, height, transform) - 1 - row
    } else {
        row
    }
}

/// A captured image holds four bytes for each of its pixels.
pub proof fn captured_image_is_full(
    params: BufferParams,
    data: Seq<u8>,
    transform: Transform,
    y_invert: bool,
)
    requires
        4 * params.width <= params.stride,
        data.len() == params.byte_size(),
    ensures
        params.image(data, transform, y_invert).len() == 4 * (crate::pixels::upright_width(
            params.width as int,
            params.height as int,
            transform,
        ) * crate::pixels::upright_height(params.width as int, params.height as int, transform)),
{
    params.packed_size(data, transform);
    let across = crate::pixels::upright_width(params.width as int, params.height as int, transform);
    let down = crate::pixels::upright_height(params.width as int, params.height as int, transform);
    assert(4 * across * down == 4 * (across * down)) by (nonlinear_arith);
}

/// Every pixel of the buffer stands in the captured image as RGBA, at the
/// place where it appears on screen, whatever the row padding holds.
pub proof fn captured_image_shows_every_pixel(
    params: BufferParams,
    data: Seq<u8>,
    transform: Transform,
    y_invert: bool,
    x: int,
    y: int,
    k: int,
)
    requires
        4 * params.width <= params.stride,
        data.len() == params.byte_size(),
        0 <= x < params.width,
        0 <= y < params.height,
        0 <= k < 4,
    ensures
        ({
            let width = params.width as int;
            let height = params.height as int;
            let across = crate::pixels::upright_width(width, height, transform);
            let column = crate::pixels::upright_x(x, y, width, height, transform);
            let row = captured_y(x, y, params, transform, y_invert);
            &&& 0 <= column < across
            &&& 0 <= row < crate::pixels::upright_height(width, height, transform)
            &&& params.image(data, transform, y_invert)[4 * (row * across + column) + k]
                == crate::pixels::channel(
                crate::pixels::rgba_at(data, y * params.stride + 4 * x, params.format),
                k,
            )
        }),
{
    let width = params.width as int;
    let height = params.height as int;
    let stride = params.stride as int;
    let across = crate::pixels::upright_width(width, height, transform);
    let down = crate::pixels::upright_height(width, height, transform);
    let column = crate::pixels::upright_x(x, y, width, height, transform);
    let row = crate::pixels::upright_y(x, y, width, height, transform);
    let packed = crate::pixels::unpadded(data, width, height, stride);
    let rgba = crate::pixels::converted(packed, params.format);
    let upright = crate::pixels::upright(rgba, width, height, transform);
    params.packed_size(data, transform);
    crate::pixels::packed_pixel(data, width, height, stride, params.format, x, y, k);
    crate::pixels::inverse_moves_pixel_back(x, y, width, height, transform);
    crate::pixels::undoing_places_every_pixel(rgba, width, height, transform, x, y, k);
    assert(4 * (across * down) == 4 * across * down) by (nonlinear_arith);
    if y_invert {
        crate::pixels::flip_mirrors_rows(upright, across, down, column, row, k);
    }
}

/// The first event that offers a supported layout is the one that is found.
proof fn first_offer_finds(events: Seq<FrameEvent>, from: int, i: int)
    requires
        0 <= from <= i < events.len(),
        offered_params(events[i]) is Some,
        forall|j: int| from <= j < i ==> offered_params(#[trigger] events[j]) is None,
    ensures
        first_offer(events, from) == offered_params(events[i]),
    decreases i - from,
{
    if from < i {
        first_offer_finds(events, from + 1, i);
    }
}

/// Events that offer no supported layout leave none to be found.
proof fn first_offer_fails(events: Seq<FrameEvent>, from: int)
    requires
        0 <= from,
        forall|j: int| from <= j < events.len() ==> offered_params(#[trigger] events[j]) is None,
    ensures
        first_offer(events, from) is None,
    decreases events.len() - from,
{
    if from < events.len() {
        first_offer_fails(events, from + 1);
    }
}

/// A frame takes the layout of the first buffer event whose format is known,
/// with the width, height and stride of that event, whatever comes before and
/// after.
pub proof fn first_buffer_in_a_known_layout_is_taken(
    events: Seq<FrameEvent>,
    i: int,
    format: u32,
    width: u32,
    height: u32,
    stride: u32,
)
    requires
        0 <= i < events.len(),
        events[i] == (FrameEvent::Buffer { format, width, height, stride }),
        crate::wire::format_of_code(format) != ShmFormat::Other,
        forall|j: int|
            0 <= j < i ==> !(#[trigger] events[j] matches FrameEvent::Buffer { format, .. }
                && crate::wire::format_of_code(format) != ShmFormat::Other),
    ensures
        FrameState::start().after_all(events).params matches Some(params) && params.width == width
            && params.height == height && params.stride == stride && params.format
            == crate::wire::format_of_code(format),
{
    first_supported_offer_is_kept(events);
    first_offer_finds(events, 0, i);
}

/// A frame has no layout as long as no buffer event has a known format.
pub proof fn buffers_in_unknown_layouts_are_passed_over(events: Seq<FrameEvent>)
    requires
        forall|j: int|
            0 <= j < events.len() ==> !(#[trigger] events[j] matches FrameEvent::Buffer {
                format,
                ..
            } && crate::wire::format_of_code(format) != ShmFormat::Other),
    ensures
        FrameState::start().after_all(events).params is None,
{
    first_supported_offer_is_kept(events);
    first_offer_fails(events, 0);
}

/// The image is to be flipped exactly as the last flags say of which nothing
/// but the lowest is set; without any such flags it is not.
pub proof fn last_known_flags_decide_the_flip(events: Seq<FrameEvent>, i: int, flags: u32)
    requires
        0 <= i < events.len(),
        events[i] == (FrameEvent::Flags { flags }),
        flags < 2,
        forall|j: int|
            i < j < events.len() ==> !(#[trigger] events[j] matches FrameEvent::Flags { flags }
                && flags < 2),
    ensures
        FrameState::start().after_all(events).y_invert <==> flags == 1,
{
    frame_notes_are_what_was_sent(events);
    assert(last_flip_word(events, i));
}

/// Without flags of which at most the lowest is set, nothing is flipped.
pub proof fn no_known_flags_no_flip(events: Seq<FrameEvent>)
    requires
        forall|j: int|
            0 <= j < events.len() ==> !(#[trigger] events[j] matches FrameEvent::Flags { flags }
                && flags < 2),
    ensures
        !FrameState::start().after_all(events).y_invert,
{
    frame_notes_are_what_was_sent(events);
}

/// A frame that closes its offers with an event of its own is waited for until
/// that event; any other one is complete once it has offered a known layout,
/// too.
pub proof fn offers_end_with_their_event(events: Seq<FrameEvent>)
    ensures
        FrameState::start().after_all(events).offers_complete(true) <==> events.contains(
            FrameEvent::BufferDone,
        ),
        events.contains(FrameEvent::BufferDone) ==> FrameState::start().after_all(
            events,
        ).offers_complete(false),
        FrameState::start().after_all(events).params is Some ==> FrameState::start().after_all(
            events,
        ).offers_complete(false),
        FrameState::start().after_all(events).params is None ==> (FrameState::start().after_all(
            events,
        ).offers_complete(false) <==> events.contains(FrameEvent::BufferDone)),
{
    frame_notes_are_what_was_sent(events);
}

/// A buffer holds `height` rows of `stride` bytes each. It can be read if its
/// rows are long enough for their pixels; shorter rows can be read only where
/// there are none, or one that is not to be turned.
pub proof fn buffers_are_rows_of_stride_bytes(params: BufferParams, transform: Transform)
    ensures
        params.byte_size() == params.height * params.stride,
        4 * params.width <= usize::MAX && 4 * params.width <= params.stride ==> params.readable(
            transform,
        ),
        4 * params.width <= usize::MAX && 4 * params.width > params.stride ==> (params.readable(
            transform,
        ) <==> params.height == 0 || params.height == 1 && transform == Transform::Normal),
        4 * params.width > usize::MAX ==> !params.readable(transform),
{
    assert(params.stride * params.height == params.height * params.stride) by (nonlinear_arith);
}

/// The column and the rows, without and with inversion, at which a pixel of the
/// buffer stands in the captured image.
proof fn captured_places(params: BufferParams, transform: Transform, x: int, y: int)
    ensures
        ({
            let (width, height) = (params.width as int, params.height as int);
            let (down, column, row) = match transform {
                Transform::Normal => (height, x, y),
                Transform::Rotated90 => (width, height - 1 - y, x),
                Transform::Rotated180 => (height, width - 1 - x, height - 1 - y),
                Transform::Rotated270 => (width, y, width - 1 - x),
                Transform::Flipped => (height, width - 1 - x, y),
                Transform::Flipped90 => (width, height - 1 - y, width - 1 - x),
                Transform::Flipped180 => (height, x, height - 1 - y),
                Transform::Flipped270 => (width, y, x),
            };
            &&& crate::pixels::upright_x(x, y, width, height, transform) == column
            &&& captured_y(x, y, params, transform, false) == row
            &&& captured_y(x, y, params, transform, true) == down - 1 - row
        }),
{
}

/// The pixel at column `x` of row `y` of the buffer stands in the captured
/// image as RGBA where it appears on screen, its place written out for each
/// transform; an inverted frame is then turned upside down as a whole. The
/// image holds four bytes for each pixel of the buffer.
pub proof fn captured_pixels_stand_upright(
    params: BufferParams,
    data: Seq<u8>,
    transform: Transform,
    x: int,
    y: int,
    k: int,
)
    requires
        4 * params.width <= params.stride,
        data.len() == params.stride * params.height,
        0 <= x < params.width,
        0 <= y < params.height,
        0 <= k < 4,
    ensures
        ({
            let (width, height) = (params.width as int, params.height as int);
            let at = y * params.stride + 4 * x;
            let byte = crate::pixels::converted(data.subrange(at, at + 4), params.format)[k];
            let (across, down, column, row) = match transform {
                Transform::Normal => (width, height, x, y),
                Transform::Rotated90 => (height, width, height - 1 - y, x),
                Transform::Rotated180 => (width, height, width - 1 - x, height - 1 - y),
                Transform::Rotated270 => (height, width, y, width - 1 - x),
                Transform::Flipped => (width, height, width - 1 - x, y),
                Transform::Flipped90 => (height, width, height - 1 - y, width - 1 - x),
                Transform::Flipped180 => (width, height, x, height - 1 - y),
                Transform::Flipped270 => (height, width, y, x),
            };
            &&& params.image(data, transform, false).len() == 4 * (width * height)
            &&& params.image(data, transform, true).len() == 4 * (width * height)
            &&& params.image(data, transform, false)[4 * (row * across + column) + k] == byte
            &&& params.image(data, transform, true)[4 * ((down - 1 - row) * across + column) + k]
                == byte
        }),
{
    let (width, height) = (params.width as int, params.height as int);
    let stride = params.stride as int;
    let at = y * stride + 4 * x;
    let pixel = data.subrange(at, at + 4);
    assert(0 <= y * stride && y * stride + stride <= stride * height) by (nonlinear_arith)
        requires
            0 <= y < height,
            0 <= stride,
    ;
    assert(crate::pixels::rgba_at(pixel, 0, params.format) == crate::pixels::rgba_at(
        data,
        at,
        params.format,
    ));
    assert(k / 4 * 4 == 0 && k % 4 == k);
    captured_places(params, transform, x, y);
    captured_image_shows_every_pixel(params, data, transform, false, x, y, k);
    captured_image_shows_every_pixel(params, data, transform, true, x, y, k);
    captured_image_is_full(params, data, transform, false);
    captured_image_is_full(params, data, transform, true);
    assert(width * height == height * width) by (nonlinear_arith);
}

/// A single row without padding becomes an image by conversion alone.
pub proof fn short_rows_are_converted_only(params: BufferParams, data: Seq<u8>)
    requires
        params.height == 1,
        params.stride <= 4 * params.width,
    ensures
        params.image(data, Transform::Normal, false) == crate::pixels::converted(
            data,
            params.format,
        ),
        params.image(data, Transform::Normal, true) == crate::pixels::converted(
            data,
            params.format,
        ),
{
    crate::pixels::flipping_keeps_length_and_the_rest(
        crate::pixels::converted(data, params.format),
        params.width as int,
        1,
    );
}

} // verus!
