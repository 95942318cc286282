//! Which output to zoom into, and how other libraries know it.

use crate::outputs::{Geometry, Output};
use crate::text::{join, same_text};
use vstd::prelude::*;

verus! {

/// What the compositor's own interface says of a monitor.
#[derive(Debug)]
pub struct Monitor {
    pub name: String,
    pub focused: bool,
    /// Whether the monitor's scale is a positive number.
    pub has_scale: bool,
}

/// A cursor position in the compositor's logical coordinate space.
#[derive(Debug, Clone, Copy, PartialEq, Eq, Structural)]
pub struct CursorPosition {
    pub x: i64,
    pub y: i64,
}

/// What the graphics library says of a monitor.
#[derive(Debug)]
pub struct Display {
    pub name: Option<String>,
    pub x: i32,
    pub y: i32,
}

/// Place of the first output with this name, from place `from` on.
pub open spec fn output_named(outputs: Seq<Output>, name: Seq<char>, from: int) -> Option<int>
    decreases outputs.len() - from,
{
    if from >= outputs.len() {
        None
    } else if outputs[from].name@ == name {
        Some(from)
    } else {
        output_named(outputs, name, from + 1)
    }
}

/// Whether the output covers this point.
pub open spec fn covers(geometry: Geometry, x: i32, y: i32) -> bool {
    &&& geometry.x <= x < geometry.x + geometry.width
    &&& geometry.y <= y < geometry.y + geometry.height
}

/// Place of the first output that covers this point, from place `from` on.
pub open spec fn output_covering(outputs: Seq<Output>, x: i32, y: i32, from: int) -> Option<int>
    decreases outputs.len() - from,
{
    if from >= outputs.len() {
        None
    } else if covers(outputs[from].geometry, x, y) {
        Some(from)
    } else {
        output_covering(outputs, x, y, from + 1)
    }
}

/// Place of the first focused monitor, from place `from` on.
pub open spec fn focused_monitor(monitors: Seq<Monitor>, from: int) -> Option<int>
    decreases monitors.len() - from,
{
    if from >= monitors.len() {
        None
    } else if monitors[from].focused {
        Some(from)
    } else {
        focused_monitor(monitors, from + 1)
    }
}

/// Place of the first monitor with this name, from place `from` on.
pub open spec fn monitor_named(monitors: Seq<Monitor>, name: Seq<char>, from: int) -> Option<int>
    decreases monitors.len() - from,
{
    if from >= monitors.len() {
        None
    } else if monitors[from].name@ == name {
        Some(from)
    } else {
        monitor_named(monitors, name, from + 1)
    }
}

/// Place of the output that carries the name of the focused monitor.
pub open spec fn focused_output(outputs: Seq<Output>, monitors: Option<&[Monitor]>) -> Option<int> {
    match monitors {
        Some(monitors) => match focused_monitor(monitors@, 0) {
            Some(m) => output_named(outputs, monitors@[m].name@, 0),
            None => None,
        },
        None => None,
    }
}

impl CursorPosition {
    /// Whether the point is one at which an output can lie.
    pub open spec fn in_space(self) -> bool {
        i32::MIN <= self.x <= i32::MAX && i32::MIN <= self.y <= i32::MAX
    }
}

/// Place of the output under the cursor. No output lies at a point outside
/// the space of the outputs.
pub open spec fn pointed_output(outputs: Seq<Output>, cursor: Option<CursorPosition>) -> Option<int> {
    match cursor {
        Some(cursor) => if cursor.in_space() {
            output_covering(outputs, cursor.x as i32, cursor.y as i32, 0)
        } else {
            None
        },
        None => None,
    }
}

/// A coordinate of the cursor in the space of the outputs.
fn coordinate(value: i64) -> (coordinate: Option<i32>)
    ensures
        match coordinate {
            Some(found) => found == value,
            None => value < i32::MIN || value > i32::MAX,
        },
{
    if value < i32::MIN as i64 || value > i32::MAX as i64 {
        None
    } else {
        Some(value as i32)
    }
}

/// Place of the output the user is working on: the focused one, or else the
/// one under the cursor, or else the first.
pub open spec fn active_place(
    outputs: Seq<Output>,
    monitors: Option<&[Monitor]>,
    cursor: Option<CursorPosition>,
) -> int {
    match focused_output(outputs, monitors) {
        Some(place) => place,
        None => match pointed_output(outputs, cursor) {
            Some(place) => place,
            None => 0,
        },
    }
}

/// Place of the first output with this name.
fn find_output(outputs: &[Output], name: &str) -> (place: Option<usize>)
    ensures
        match place {
            Some(i) => i < outputs@.len() && output_named(outputs@, name@, 0) == Some(i as int),
            None => output_named(outputs@, name@, 0) is None,
        },
{
    let mut i: usize = 0;
    while i < outputs.len()
        invariant
            i <= outputs@.len(),
            output_named(outputs@, name@, 0) == output_named(outputs@, name@, i as int),
        decreases outputs@.len() - i,
    {
        if same_text(outputs[i].name(), name) {
            return Some(i);
        }
        i = i + 1;
    }
    None
}

/// Whether the output covers this point.
fn is_over(geometry: &Geometry, x: i32, y: i32) -> (yes: bool)
    ensures
        yes == covers(*geometry, x, y),
        yes <==> geometry.x <= x && x < geometry.x + geometry.width && geometry.y <= y && y
            < geometry.y + geometry.height,
{
    x >= geometry.x() && (x as i64) < geometry.x() as i64 + geometry.width() as i64 && y
        >= geometry.y() && (y as i64) < geometry.y() as i64 + geometry.height() as i64
}

/// The output the user is working on, for when no other is asked for. The
/// order of the outputs is arbitrary, so the first one is often idle; the
/// compositor's focused monitor is matched by name.
pub fn active_output<'a>(
    outputs: &'a [Output],
    monitors: Option<&[Monitor]>,
    cursor: Option<CursorPosition>,
) -> (output: &'a Output)
    requires
        outputs@.len() > 0,
    ensures
        0 <= active_place(outputs@, monitors, cursor) < outputs@.len(),
        *output == outputs@[active_place(outputs@, monitors, cursor)],
{
    if let Some(monitors) = monitors {
        let mut m: usize = 0;
        while m < monitors.len() && !monitors[m].focused
            invariant
                m <= monitors@.len(),
                focused_monitor(monitors@, 0) == focused_monitor(monitors@, m as int),
            decreases monitors@.len() - m,
        {
            m = m + 1;
        }
        if m < monitors.len() {
            if let Some(i) = find_output(outputs, monitors[m].name.as_str()) {
                return &outputs[i];
            }
        }
    }
    if let Some(position) = cursor {
        if let (Some(x), Some(y)) = (coordinate(position.x), coordinate(position.y)) {
            let mut i: usize = 0;
            while i < outputs.len()
                invariant
                    i <= outputs@.len(),
                    cursor == Some(position),
                    x == position.x,
                    y == position.y,
                    focused_output(outputs@, monitors) is None,
                    output_covering(outputs@, x, y, 0) == output_covering(
                        outputs@,
                        x,
                        y,
                        i as int,
                    ),
                decreases outputs@.len() - i,
            {
                if is_over(outputs[i].geometry(), x, y) {
                    return &outputs[i];
                }
                i = i + 1;
            }
        }
    }
    &outputs[0]
}

/// The output to zoom into: the one asked for by name, or else the one the
/// user is working on.
pub fn select_output<'a>(
    outputs: &'a [Output],
    name: Option<&str>,
    monitors: Option<&[Monitor]>,
    cursor: Option<CursorPosition>,
) -> (selected: Result<&'a Output, String>)
    ensures
        match selected {
            Ok(output) => {
                &&& outputs@.len() > 0
                &&& match name {
                    Some(name) => output_named(outputs@, name@, 0) matches Some(i) && 0 <= i
                        < outputs@.len() && *output == outputs@[i],
                    None => 0 <= active_place(outputs@, monitors, cursor) < outputs@.len()
                        && *output == outputs@[active_place(outputs@, monitors, cursor)],
                }
            },
            Err(error) => if outputs@.len() == 0 {
                error@ == "No Wayland outputs found."@
            } else {
                name matches Some(name) && output_named(outputs@, name@, 0) is None && error@
                    == "Output '"@ + name@ + "' not found."@
            },
        },
{
    if outputs.len() == 0 {
        return Err("No Wayland outputs found.".to_string());
    }
    match name {
        None => Ok(active_output(outputs, monitors, cursor)),
        Some(name) => match find_output(outputs, name) {
            Some(i) => Ok(&outputs[i]),
            None => Err(join(join("Output '", name).as_str(), "' not found.")),
        },
    }
}

/// Place of the monitor whose scale applies to the output with this name: the
/// first monitor with that name, if it has a scale.
pub fn scale_monitor(output_name: &str, monitors: Option<&[Monitor]>) -> (place: Option<usize>)
    ensures
        match place {
            Some(m) => monitors matches Some(monitors) && m < monitors@.len() && monitor_named(
                monitors@,
                output_name@,
                0,
            ) == Some(m as int) && monitors@[m as int].has_scale,
            None => monitors matches Some(monitors) ==> match monitor_named(
                monitors@,
                output_name@,
                0,
            ) {
                Some(m) => !monitors@[m].has_scale,
                None => true,
            },
        },
{
    let known = match monitors {
        Some(known) => known,
        None => {
            return None;
        },
    };
    let mut m: usize = 0;
    while m < known.len()
        invariant
            monitors == Some(known),
            m <= known@.len(),
            monitor_named(known@, output_name@, 0) == monitor_named(
                known@,
                output_name@,
                m as int,
            ),
        decreases known@.len() - m,
    {
        if same_text(known[m].name.as_str(), output_name) {
            if known[m].has_scale {
                return Some(m);
            }
            return None;
        }
        m = m + 1;
    }
    None
}

/// Place of the first display with this name, from place `from` on.
pub open spec fn display_named(displays: Seq<Display>, name: Seq<char>, from: int) -> Option<int>
    decreases displays.len() - from,
{
    if from >= displays.len() {
        None
    } else if displays[from].name matches Some(known) && known@ == name {
        Some(from)
    } else {
        display_named(displays, name, from + 1)
    }
}

/// Place of the first display at this position, from place `from` on.
pub open spec fn display_at(displays: Seq<Display>, x: i32, y: i32, from: int) -> Option<int>
    decreases displays.len() - from,
{
    if from >= displays.len() {
        None
    } else if displays[from].x == x && displays[from].y == y {
        Some(from)
    } else {
        display_at(displays, x, y, from + 1)
    }
}

/// Place of the display that shows an output: the one with its name, or else
/// the one at its position, or else the one in its place among the outputs.
pub open spec fn display_of(selected: Output, outputs: Seq<Output>, displays: Seq<Display>) -> Option<
    int,
> {
    match display_named(displays, selected.name@, 0) {
        Some(place) => Some(place),
        None => match display_at(displays, selected.geometry.x, selected.geometry.y, 0) {
            Some(place) => Some(place),
            None => match output_named(outputs, selected.name@, 0) {
                Some(place) if place < displays.len() => Some(place),
                _ => None,
            },
        },
    }
}

/// The graphics library's index of the monitor that shows an output.
pub fn raylib_monitor_index(
    selected_output: &Output,
    outputs: &[Output],
    displays: &[Display],
) -> (index: Option<i32>)
    requires
        displays@.len() <= i32::MAX,
    ensures
        match index {
            Some(index) => 0 <= index < displays@.len() && display_of(
                *selected_output,
                outputs@,
                displays@,
            ) == Some(index as int),
            None => display_of(*selected_output, outputs@, displays@) is None,
        },
{
    let mut i: usize = 0;
    while i < displays.len()
        invariant
            displays@.len() <= i32::MAX,
            i <= displays@.len(),
            display_named(displays@, selected_output.name@, 0) == display_named(
                displays@,
                selected_output.name@,
                i as int,
            ),
        decreases displays@.len() - i,
    {
        if let Some(name) = &displays[i].name {
            if same_text(name.as_str(), selected_output.name()) {
                return Some(i as i32);
            }
        }
        i = i + 1;
    }
    let geometry = selected_output.geometry();
    let mut i: usize = 0;
    while i < displays.len()
        invariant
            displays@.len() <= i32::MAX,
            i <= displays@.len(),
            *geometry == selected_output.geometry,
            display_named(displays@, selected_output.name@, 0) is None,
            display_at(displays@, geometry.x, geometry.y, 0) == display_at(
                displays@,
                geometry.x,
                geometry.y,
                i as int,
            ),
        decreases displays@.len() - i,
    {
        if displays[i].x == geometry.x() && displays[i].y == geometry.y() {
            return Some(i as i32);
        }
        i = i + 1;
    }
    match find_output(outputs, selected_output.name()) {
        Some(place) => if place < displays.len() {
            Some(place as i32)
        } else {
            None
        },
        None => None,
    }
}

/// The first output with a name is the one that is found by it.
proof fn output_named_finds(outputs: Seq<Output>, name: Seq<char>, from: int, i: int)
    requires
        0 <= from <= i < outputs.len(),
        outputs[i].name@ == name,
        forall|j: int| from <= j < i ==> (#[trigger] outputs[j]).name@ != name,
    ensures
        output_named(outputs, name, from) == Some(i),
    decreases i - from,
{
    if from < i {
        output_named_finds(outputs, name, from + 1, i);
    }
}

proof fn output_covering_finds(outputs: Seq<Output>, x: i32, y: i32, from: int, i: int)
    requires
        0 <= from <= i < outputs.len(),
        covers(outputs[i].geometry, x, y),
        forall|j: int| from <= j < i ==> !covers((#[trigger] outputs[j]).geometry, x, y),
    ensures
        output_covering(outputs, x, y, from) == Some(i),
    decreases i - from,
{
    if from < i {
        output_covering_finds(outputs, x, y, from + 1, i);
    }
}

proof fn focused_monitor_finds(monitors: Seq<Monitor>, from: int, m: int)
    requires
        0 <= from <= m < monitors.len(),
        monitors[m].focused,
        forall|j: int| from <= j < m ==> !(#[trigger] monitors[j]).focused,
    ensures
        focused_monitor(monitors, from) == Some(m),
    decreases m - from,
{
    if from < m {
        focused_monitor_finds(monitors, from + 1, m);
    }
}

proof fn display_named_finds(displays: Seq<Display>, name: Seq<char>, from: int, i: int)
    requires
        0 <= from <= i < displays.len(),
        displays[i].name matches Some(known) && known@ == name,
        forall|j: int|
            from <= j < i ==> !((#[trigger] displays[j]).name matches Some(known) && known@ == name),
    ensures
        display_named(displays, name, from) == Some(i),
    decreases i - from,
{
    if from < i {
        display_named_finds(displays, name, from + 1, i);
    }
}

proof fn display_named_fails(displays: Seq<Display>, name: Seq<char>, from: int)
    requires
        0 <= from,
        forall|j: int|
            from <= j < displays.len() ==> !((#[trigger] displays[j]).name matches Some(known)
                && known@ == name),
    ensures
        display_named(displays, name, from) is None,
    decreases displays.len() - from,
{
    if from < displays.len() {
        display_named_fails(displays, name, from + 1);
    }
}

proof fn display_at_finds(displays: Seq<Display>, x: i32, y: i32, from: int, i: int)
    requires
        0 <= from <= i < displays.len(),
        displays[i].x == x && displays[i].y == y,
        forall|j: int|
            from <= j < i ==> !((#[trigger] displays[j]).x == x && displays[j].y == y),
    ensures
        display_at(displays, x, y, from) == Some(i),
    decreases i - from,
{
    if from < i {
        display_at_finds(displays, x, y, from + 1, i);
    }
}

/// If the compositor knows a focused monitor and an output carries its name,
/// that output is the active one, wherever the cursor is.
pub proof fn focused_output_is_active(
    outputs: Seq<Output>,
    monitors: &[Monitor],
    cursor: Option<CursorPosition>,
    m: int,
    i: int,
)
    requires
        0 <= m < monitors@.len(),
        monitors@[m].focused,
        forall|j: int| 0 <= j < m ==> !(#[trigger] monitors@[j]).focused,
        0 <= i < outputs.len(),
        outputs[i].name@ == monitors@[m].name@,
        forall|j: int| 0 <= j < i ==> (#[trigger] outputs[j]).name@ != monitors@[m].name@,
    ensures
        active_place(outputs, Some(monitors), cursor) == i,
{
    focused_monitor_finds(monitors@, 0, m);
    output_named_finds(outputs, monitors@[m].name@, 0, i);
}

/// Without a focused output, the first output that covers the cursor is the
/// active one.
pub proof fn output_under_cursor_is_active(
    outputs: Seq<Output>,
    monitors: Option<&[Monitor]>,
    cursor: CursorPosition,
    i: int,
)
    requires
        focused_output(outputs, monitors) is None,
        cursor.in_space(),
        0 <= i < outputs.len(),
        covers(outputs[i].geometry, cursor.x as i32, cursor.y as i32),
        forall|j: int|
            0 <= j < i ==> !covers(
                (#[trigger] outputs[j]).geometry,
                cursor.x as i32,
                cursor.y as i32,
            ),
    ensures
        active_place(outputs, monitors, Some(cursor)) == i,
{
    output_covering_finds(outputs, cursor.x as i32, cursor.y as i32, 0, i);
}

/// A display that carries the output's name shows it, whatever the positions.
pub proof fn display_with_name_is_used(
    selected: Output,
    outputs: Seq<Output>,
    displays: Seq<Display>,
    i: int,
)
    requires
        0 <= i < displays.len(),
        displays[i].name matches Some(known) && known@ == selected.name@,
        forall|j: int|
            0 <= j < i ==> !((#[trigger] displays[j]).name matches Some(known) && known@
                == selected.name@),
    ensures
        display_of(selected, outputs, displays) == Some(i),
{
    display_named_finds(displays, selected.name@, 0, i);
}

/// If no display carries the output's name, the first one at the output's
/// position shows it.
pub proof fn display_at_position_is_used(
    selected: Output,
    outputs: Seq<Output>,
    displays: Seq<Display>,
    i: int,
)
    requires
        forall|j: int|
            0 <= j < displays.len() ==> !((#[trigger] displays[j]).name matches Some(known) && known@
                == selected.name@),
        0 <= i < displays.len(),
        displays[i].x == selected.geometry.x && displays[i].y == selected.geometry.y,
        forall|j: int|
            0 <= j < i ==> !((#[trigger] displays[j]).x == selected.geometry.x && displays[j].y
                == selected.geometry.y),
    ensures
        display_of(selected, outputs, displays) == Some(i),
{
    display_named_fails(displays, selected.name@, 0);
    display_at_finds(displays, selected.geometry.x, selected.geometry.y, 0, i);
}

/// A name that no output carries is not found.
proof fn output_named_fails(outputs: Seq<Output>, name: Seq<char>, from: int)
    requires
        0 <= from,
        forall|j: int| from <= j < outputs.len() ==> (#[trigger] outputs[j]).name@ != name,
    ensures
        output_named(outputs, name, from) is None,
    decreases outputs.len() - from,
{
    if from < outputs.len() {
        output_named_fails(outputs, name, from + 1);
    }
}

/// The first focused monitor is the one that is found.
proof fn focused_monitor_is_first(monitors: Seq<Monitor>, from: int)
    requires
        0 <= from,
    ensures
        focused_monitor(monitors, from) matches Some(m) ==> from <= m < monitors.len()
            && monitors[m].focused && forall|j: int|
            from <= j < m ==> !(#[trigger] monitors[j]).focused,
    decreases monitors.len() - from,
{
    if from < monitors.len() {
        focused_monitor_is_first(monitors, from + 1);
    }
}

/// If no output carries the name of the first focused monitor, none is the
/// focused one.
proof fn unnamed_focus_is_no_output(outputs: Seq<Output>, monitors: Option<&[Monitor]>)
    requires
        monitors matches Some(known) ==> forall|m: int, i: int|
            0 <= m < known@.len() && (#[trigger] known@[m]).focused && (forall|j: int|
                0 <= j < m ==> !(#[trigger] known@[j]).focused) && 0 <= i < outputs.len() ==> (
            #[trigger] outputs[i]).name@ != known@[m].name@,
    ensures
        focused_output(outputs, monitors) is None,
{
    if let Some(known) = monitors {
        focused_monitor_is_first(known@, 0);
        if let Some(m) = focused_monitor(known@, 0) {
            output_named_fails(outputs, known@[m].name@, 0);
        }
    }
}

proof fn output_covering_fails(outputs: Seq<Output>, x: i32, y: i32, from: int)
    requires
        0 <= from,
        forall|j: int|
            from <= j < outputs.len() ==> !covers((#[trigger] outputs[j]).geometry, x, y),
    ensures
        output_covering(outputs, x, y, from) is None,
    decreases outputs.len() - from,
{
    if from < outputs.len() {
        output_covering_fails(outputs, x, y, from + 1);
    }
}

/// Unless an output carries the name of the first focused monitor, the active
/// output is the first that has the cursor between its left and its right edge
/// and between its top and its bottom edge.
pub proof fn output_around_cursor_is_active(
    outputs: Seq<Output>,
    monitors: Option<&[Monitor]>,
    cursor: CursorPosition,
    i: int,
)
    requires
        monitors matches Some(known) ==> forall|m: int, i: int|
            0 <= m < known@.len() && (#[trigger] known@[m]).focused && (forall|j: int|
                0 <= j < m ==> !(#[trigger] known@[j]).focused) && 0 <= i < outputs.len() ==> (
            #[trigger] outputs[i]).name@ != known@[m].name@,
        i32::MIN <= cursor.x <= i32::MAX,
        i32::MIN <= cursor.y <= i32::MAX,
        0 <= i < outputs.len(),
        outputs[i].geometry.x <= cursor.x,
        cursor.x < outputs[i].geometry.x + outputs[i].geometry.width,
        outputs[i].geometry.y <= cursor.y,
        cursor.y < outputs[i].geometry.y + outputs[i].geometry.height,
        forall|j: int|
            0 <= j < i ==> (#[trigger] outputs[j]).geometry.x > cursor.x || cursor.x
                >= outputs[j].geometry.x + outputs[j].geometry.width || outputs[j].geometry.y
                > cursor.y || cursor.y >= outputs[j].geometry.y + outputs[j].geometry.height,
    ensures
        active_place(outputs, monitors, Some(cursor)) == i,
{
    unnamed_focus_is_no_output(outputs, monitors);
    output_covering_finds(outputs, cursor.x as i32, cursor.y as i32, 0, i);
}

/// Unless an output carries the name of the first focused monitor, the first
/// output is the active one if the cursor is unknown, lies outside the space of
/// the outputs, or lies outside each of them.
pub proof fn first_output_is_active_at_last(
    outputs: Seq<Output>,
    monitors: Option<&[Monitor]>,
    cursor: Option<CursorPosition>,
)
    requires
        monitors matches Some(known) ==> forall|m: int, i: int|
            0 <= m < known@.len() && (#[trigger] known@[m]).focused && (forall|j: int|
                0 <= j < m ==> !(#[trigger] known@[j]).focused) && 0 <= i < outputs.len() ==> (
            #[trigger] outputs[i]).name@ != known@[m].name@,
        cursor matches Some(at) ==> at.x < i32::MIN || at.x > i32::MAX || at.y < i32::MIN || at.y
            > i32::MAX || forall|j: int|
            0 <= j < outputs.len() ==> (#[trigger] outputs[j]).geometry.x > at.x || at.x
                >= outputs[j].geometry.x + outputs[j].geometry.width || outputs[j].geometry.y > at.y
                || at.y >= outputs[j].geometry.y + outputs[j].geometry.height,
    ensures
        active_place(outputs, monitors, cursor) == 0,
{
    unnamed_focus_is_no_output(outputs, monitors);
    if let Some(at) = cursor {
        if i32::MIN <= at.x <= i32::MAX && i32::MIN <= at.y <= i32::MAX {
            output_covering_fails(outputs, at.x as i32, at.y as i32, 0);
        }
    }
}

/// The output found by a name is the first that carries it.
pub proof fn first_output_of_a_name_is_found(outputs: Seq<Output>, name: Seq<char>, i: int)
    requires
        0 <= i < outputs.len(),
        outputs[i].name@ == name,
        forall|j: int| 0 <= j < i ==> (#[trigger] outputs[j]).name@ != name,
    ensures
        output_named(outputs, name, 0) == Some(i),
{
    output_named_finds(outputs, name, 0, i);
}

/// A name that no output carries finds none.
pub proof fn unknown_output_name_finds_nothing(outputs: Seq<Output>, name: Seq<char>)
    requires
        forall|j: int| 0 <= j < outputs.len() ==> (#[trigger] outputs[j]).name@ != name,
    ensures
        output_named(outputs, name, 0) is None,
{
    output_named_fails(outputs, name, 0);
}

/// The monitor found by a name, from some place on, is the first that carries
/// it there.
pub proof fn first_monitor_of_a_name_is_found(
    monitors: Seq<Monitor>,
    name: Seq<char>,
    from: int,
    m: int,
)
    requires
        0 <= from <= m < monitors.len(),
        monitors[m].name@ == name,
        forall|j: int| from <= j < m ==> (#[trigger] monitors[j]).name@ != name,
    ensures
        monitor_named(monitors, name, from) == Some(m),
    decreases m - from,
{
    if from < m {
        first_monitor_of_a_name_is_found(monitors, name, from + 1, m);
    }
}

/// A name that no monitor carries, from some place on, finds none.
pub proof fn unknown_monitor_name_finds_nothing(
    monitors: Seq<Monitor>,
    name: Seq<char>,
    from: int,
)
    requires
        0 <= from,
        forall|j: int| from <= j < monitors.len() ==> (#[trigger] monitors[j]).name@ != name,
    ensures
        monitor_named(monitors, name, from) is None,
    decreases monitors.len() - from,
{
    if from < monitors.len() {
        unknown_monitor_name_finds_nothing(monitors, name, from + 1);
    }
}

proof fn display_at_fails(displays: Seq<Display>, x: i32, y: i32, from: int)
    requires
        0 <= from,
        forall|j: int|
            from <= j < displays.len() ==> (#[trigger] displays[j]).x != x || displays[j].y != y,
    ensures
        display_at(displays, x, y, from) is None,
    decreases displays.len() - from,
{
    if from < displays.len() {
        display_at_fails(displays, x, y, from + 1);
    }
}

/// If no display carries the output's name or lies at its position, the
/// display in the place of the output among the outputs shows it, if there are
/// that many displays.
pub proof fn display_in_place_is_used_at_last(
    selected: Output,
    outputs: Seq<Output>,
    displays: Seq<Display>,
    i: int,
)
    requires
        forall|j: int|
            0 <= j < displays.len() ==> !((#[trigger] displays[j]).name matches Some(known) && known@
                == selected.name@),
        forall|j: int|
            0 <= j < displays.len() ==> (#[trigger] displays[j]).x != selected.geometry.x
                || displays[j].y != selected.geometry.y,
        0 <= i < outputs.len(),
        outputs[i].name@ == selected.name@,
        forall|j: int| 0 <= j < i ==> (#[trigger] outputs[j]).name@ != selected.name@,
    ensures
        i < displays.len() ==> display_of(selected, outputs, displays) == Some(i),
        i >= displays.len() ==> display_of(selected, outputs, displays) is None,
{
    display_named_fails(displays, selected.name@, 0);
    display_at_fails(displays, selected.geometry.x, selected.geometry.y, 0);
    output_named_finds(outputs, selected.name@, 0, i);
}

/// No display shows an output that is not among the outputs, if none carries
/// its name or lies at its position.
pub proof fn strange_output_is_on_no_display(
    selected: Output,
    outputs: Seq<Output>,
    displays: Seq<Display>,
)
    requires
        forall|j: int|
            0 <= j < displays.len() ==> !((#[trigger] displays[j]).name matches Some(known) && known@
                == selected.name@),
        forall|j: int|
            0 <= j < displays.len() ==> (#[trigger] displays[j]).x != selected.geometry.x
                || displays[j].y != selected.geometry.y,
        forall|j: int| 0 <= j < outputs.len() ==> (#[trigger] outputs[j]).name@ != selected.name@,
    ensures
        display_of(selected, outputs, displays) is None,
{
    display_named_fails(displays, selected.name@, 0);
    display_at_fails(displays, selected.geometry.x, selected.geometry.y, 0);
    output_named_fails(outputs, selected.name@, 0);
}

} // verus!
