//! The window that appears over the desktop while a file is dragged.

use crate::text;
use vstd::prelude::*;

verus! {

/// Whether the window is in use, and what it shows.
pub struct OverlayState {
    busy: bool,
    mode: String,
}

impl OverlayState {
    /// Whether the window is in use.
    pub closed spec fn in_use(&self) -> bool {
        self.busy
    }

    /// What the window shows.
    pub closed spec fn shown(&self) -> Seq<char> {
        self.mode@
    }

    /// A window that is not in use.
    pub fn new() -> (state: OverlayState)
        ensures
            !state.in_use(),
            state.shown() == "normal"@,
    {
        OverlayState { busy: false, mode: "normal".to_string() }
    }

    /// Notes whether the window is in use.
    pub fn set_busy(&mut self, busy: bool)
        ensures
            final(self).in_use() == busy,
            final(self).shown() == old(self).shown(),
    {
        self.busy = busy;
    }

    /// Whether the window is in use.
    pub fn is_busy(&self) -> (busy: bool)
        ensures
            busy == self.in_use(),
    {
        self.busy
    }

    /// Notes what the window shows.
    pub fn set_mode(&mut self, mode: &str)
        ensures
            final(self).shown() == mode@,
            final(self).in_use() == old(self).in_use(),
    {
        self.mode = mode.to_string();
    }

    /// What the window shows.
    pub fn mode(&self) -> (mode: String)
        ensures
            mode@ == self.shown(),
    {
        self.mode.clone()
    }
}

/// The width and height of the window for what it shows.
pub open spec fn size_for(mode: Seq<char>) -> (u32, u32) {
    if mode == "drag"@ || mode == "confirm"@ {
        (560, 300)
    } else if mode == "transfer"@ {
        (456, 128)
    } else {
        (456, 116)
    }
}

/// The width and height of the window for what it shows.
pub fn overlay_size(mode: &str) -> (size: (u32, u32))
    ensures
        size == size_for(mode@),
{
    if text::same_text(mode, "drag") || text::same_text(mode, "confirm") {
        (560, 300)
    } else if text::same_text(mode, "transfer") {
        (456, 128)
    } else {
        (456, 116)
    }
}

/// A number brought into the range of 32 bits with a sign by leaving out or adding multiples of
/// 2^32.
pub open spec fn wrapped(number: int) -> int {
    (number + 0x8000_0000) % 0x1_0000_0000 - 0x8000_0000
}

/// The number of 32 bits with a sign that has the bits of one without.
fn signed(number: u32) -> (same: i32)
    ensures
        same == wrapped(number as int),
{
    if number <= 0x7fff_ffff {
        number as i32
    } else {
        (number as i64 - 0x1_0000_0000) as i32
    }
}

/// A sum is brought into the range in the end, whether or not its parts were before.
proof fn lemma_wrapped_in_steps(left: int, right: int)
    ensures
        wrapped(wrapped(left) + wrapped(right)) == wrapped(left + right),
        wrapped(wrapped(left) - wrapped(right)) == wrapped(left - right),
{
    let base = 0x1_0000_0000int;
    let times = (left + 0x8000_0000) / base;
    let others = (right + 0x8000_0000) / base;
    assert(wrapped(left) == left - base * times);
    assert(wrapped(right) == right - base * others);
    vstd::arithmetic::div_mod::lemma_mod_multiples_vanish(
        -times - others,
        left + right + 0x8000_0000,
        base,
    );
    vstd::arithmetic::div_mod::lemma_mod_multiples_vanish(
        others - times,
        left - right + 0x8000_0000,
        base,
    );
    assert(base * (-times - others) == -base * times - base * others);
    assert(base * (others - times) == base * others - base * times);
}

/// The sum of two numbers, which wraps around.
fn wrapping_sum(left: i32, right: i32) -> (sum: i32)
    ensures
        sum == wrapped(left + right),
{
    left.wrapping_add(right)
}

/// The difference of two numbers, which wraps around.
fn wrapping_difference(left: i32, right: i32) -> (difference: i32)
    ensures
        difference == wrapped(left - right),
{
    left.wrapping_sub(right)
}

/// The place of a window of a width on a screen: in the upper right corner, 24 from the right and
/// 32 from the top. Numbers that get too large or too small wrap around.
pub fn overlay_position(left: i32, top: i32, screen_width: u32, width: u32) -> (place: (i32, i32))
    ensures
        place.0 == wrapped(left + screen_width - width - 24),
        place.1 == wrapped(top + 32),
{
    let right: i32 = wrapping_sum(left, signed(screen_width));
    let edge: i32 = wrapping_difference(right, signed(width));
    let place: (i32, i32) = (wrapping_difference(edge, 24), wrapping_sum(top, 32));
    proof {
        lemma_place(left as int, screen_width as int, width as int);
    }
    place
}

/// The place that is reached by a step to the right of the screen and two back from it.
proof fn lemma_place(left: int, screen_width: int, width: int)
    requires
        wrapped(left) == left,
    ensures
        wrapped(wrapped(wrapped(left + wrapped(screen_width)) - wrapped(width)) - 24) == wrapped(
            left + screen_width - width - 24,
        ),
{
    lemma_wrapped_in_steps(left, screen_width);
    lemma_wrapped_in_steps(left + screen_width, width);
    lemma_wrapped_in_steps(left + screen_width - width, 24);
    assert(wrapped(24) == 24);
}

/// How long the window stays after the drag was last seen, in nanoseconds.
pub const LINGER_NS: u128 = 700_000_000;

/// What is known of a file that is dragged over the desktop. Drags are told apart by the count of
/// changes of the pasteboard that holds what is dragged.
#[derive(Clone, Copy)]
pub struct DragMonitor {
    /// Whether the window is shown for a drag.
    pub visible: bool,
    /// When the drag was last seen, in nanoseconds.
    pub last_seen_ns: u128,
    /// The last count of changes that was noted.
    pub seen_change_count: i64,
    /// The count of changes of the drag that the window is shown for.
    pub active_change_count: Option<i64>,
}

/// What is seen of the mouse and of what it drags.
#[derive(Clone, Copy)]
pub struct DragSight {
    pub mouse_down: bool,
    pub change_count: i64,
    pub has_file_url: bool,
}

/// What is done about a drag.
#[derive(Clone, Copy, PartialEq, Eq, Structural)]
pub enum DragAction {
    /// Nothing.
    Nothing,
    /// It is told that a file is dragged.
    Tell,
    /// It is told that a file is dragged, and the window is shown.
    TellAndShow,
    /// It is told that no file is dragged any more, and the window is hidden.
    TellAndHide,
}

/// Whether a drag of a file has begun that was not noted.
pub open spec fn is_new_drag(monitor: DragMonitor, sight: DragSight) -> bool {
    sight.mouse_down && sight.has_file_url && sight.change_count != monitor.seen_change_count
}

/// Whether the drag goes on that the window is shown for.
pub open spec fn is_same_drag(monitor: DragMonitor, sight: DragSight) -> bool {
    sight.mouse_down && monitor.visible && sight.has_file_url && monitor.active_change_count
        == Some(sight.change_count)
}

/// Whether the drag has been over for long enough for the window to go, and it is not in use.
pub open spec fn is_over(monitor: DragMonitor, busy: bool, now_ns: u128) -> bool {
    monitor.visible && now_ns - monitor.last_seen_ns > LINGER_NS && !busy
}

/// What is known of a drag after another look.
pub open spec fn after_look(
    monitor: DragMonitor,
    sight: DragSight,
    busy: bool,
    now_ns: u128,
) -> DragMonitor {
    if is_new_drag(monitor, sight) {
        DragMonitor {
            visible: true,
            last_seen_ns: now_ns,
            seen_change_count: sight.change_count,
            active_change_count: Some(sight.change_count),
        }
    } else if is_same_drag(monitor, sight) {
        DragMonitor { last_seen_ns: now_ns, ..monitor }
    } else if is_over(monitor, busy, now_ns) || (!sight.mouse_down && !monitor.visible) {
        DragMonitor {
            visible: false,
            last_seen_ns: monitor.last_seen_ns,
            seen_change_count: sight.change_count,
            active_change_count: None,
        }
    } else {
        monitor
    }
}

/// What is done about a drag after another look.
pub open spec fn action_of(
    monitor: DragMonitor,
    sight: DragSight,
    busy: bool,
    now_ns: u128,
) -> DragAction {
    if is_new_drag(monitor, sight) {
        if busy {
            DragAction::Tell
        } else {
            DragAction::TellAndShow
        }
    } else if !is_same_drag(monitor, sight) && is_over(monitor, busy, now_ns) {
        DragAction::TellAndHide
    } else {
        DragAction::Nothing
    }
}

impl DragMonitor {
    /// Nothing is dragged yet, and a change of the pasteboard is noted.
    pub fn new(change_count: i64, now_ns: u128) -> (monitor: DragMonitor)
        ensures
            monitor == (DragMonitor {
                visible: false,
                last_seen_ns: now_ns,
                seen_change_count: change_count,
                active_change_count: None,
            }),
    {
        DragMonitor {
            visible: false,
            last_seen_ns: now_ns,
            seen_change_count: change_count,
            active_change_count: None,
        }
    }

    /// Takes another look at the mouse and at what it drags, and says what is done about it.
    pub fn look(&mut self, sight: DragSight, busy: bool, now_ns: u128) -> (action: DragAction)
        ensures
            *final(self) == after_look(*old(self), sight, busy, now_ns),
            action == action_of(*old(self), sight, busy, now_ns),
    {
        let file: bool = sight.mouse_down && sight.has_file_url;
        let active: bool = match self.active_change_count {
            Some(count) => count == sight.change_count,
            None => false,
        };
        let gone_ns: u128 = if now_ns > self.last_seen_ns {
            now_ns - self.last_seen_ns
        } else {
            0
        };
        if file && sight.change_count != self.seen_change_count {
            self.seen_change_count = sight.change_count;
            self.active_change_count = Some(sight.change_count);
            self.last_seen_ns = now_ns;
            self.visible = true;
            if busy {
                DragAction::Tell
            } else {
                DragAction::TellAndShow
            }
        } else if file && self.visible && active {
            self.last_seen_ns = now_ns;
            DragAction::Nothing
        } else if self.visible && gone_ns > LINGER_NS && !busy {
            self.visible = false;
            self.active_change_count = None;
            self.seen_change_count = sight.change_count;
            DragAction::TellAndHide
        } else {
            if !sight.mouse_down && !self.visible {
                self.active_change_count = None;
                self.seen_change_count = sight.change_count;
            }
            DragAction::Nothing
        }
    }
}

/// While a drag goes on that was told of, the window stays, and the drag is not told of again.
pub proof fn law_window_stays_during_a_drag(
    monitor: DragMonitor,
    sight: DragSight,
    busy: bool,
    now_ns: u128,
    busy_later: bool,
    later_ns: u128,
)
    requires
        is_new_drag(monitor, sight),
    ensures
        ({
            let after = after_look(monitor, sight, busy, now_ns);
            &&& after.visible
            &&& action_of(after, sight, busy_later, later_ns) == DragAction::Nothing
            &&& after_look(after, sight, busy_later, later_ns) == (DragMonitor {
                last_seen_ns: later_ns,
                ..after
            })
        }),
{
}

/// The window is 560 by 300 for a drag and a question, 456 by 128 for a transfer, and 456 by 116 for
/// anything else.
pub proof fn law_window_has_a_size_for_what_it_shows(mode: Seq<char>)
    ensures
        mode == "drag"@ || mode == "confirm"@ ==> size_for(mode) == (560u32, 300u32),
        mode == "transfer"@ ==> size_for(mode) == (456u32, 128u32),
        mode != "drag"@ && mode != "confirm"@ && mode != "transfer"@ ==> size_for(mode) == (
            456u32,
            116u32,
        ),
{
    reveal_strlit("drag");
    reveal_strlit("confirm");
    reveal_strlit("transfer");
    assert("drag"@.len() == 4);
    assert("confirm"@.len() == 7);
    assert("transfer"@.len() == 8);
}

/// A number that wraps around is one of 32 bits with a sign, and differs from what it was by a
/// multiple of 2^32; so one that fits stays as it is.
pub proof fn law_numbers_wrap_around(number: int)
    ensures
        -0x8000_0000 <= wrapped(number) < 0x8000_0000,
        (number - wrapped(number)) % 0x1_0000_0000 == 0,
        -0x8000_0000 <= number < 0x8000_0000 ==> wrapped(number) == number,
{
}

/// A drag of a file is told of when its change of the pasteboard has not been noted, and the window
/// is shown for it unless it is in use. It goes once no drag that it is shown for has been seen for
/// more than 700 milliseconds, unless it is in use; that is told too. Nothing is told otherwise.
pub proof fn law_drags_are_told_of_once(
    monitor: DragMonitor,
    sight: DragSight,
    busy: bool,
    now_ns: u128,
)
    ensures
        ({
            let after = after_look(monitor, sight, busy, now_ns);
            let action = action_of(monitor, sight, busy, now_ns);
            let file = sight.mouse_down && sight.has_file_url;
            let new = file && sight.change_count != monitor.seen_change_count;
            let same = file && monitor.visible && (monitor.active_change_count matches Some(count)
                && count == sight.change_count);
            let over = monitor.visible && now_ns > monitor.last_seen_ns + 700_000_000 && !busy;
            &&& new ==> {
                &&& action == (if busy {
                    DragAction::Tell
                } else {
                    DragAction::TellAndShow
                })
                &&& after.visible
                &&& after.last_seen_ns == now_ns
                &&& after.seen_change_count == sight.change_count
                &&& after.active_change_count == Some(sight.change_count)
            }
            &&& !new && same ==> {
                &&& action == DragAction::Nothing
                &&& after.last_seen_ns == now_ns
                &&& after.visible == monitor.visible
                &&& after.seen_change_count == monitor.seen_change_count
                &&& after.active_change_count == monitor.active_change_count
            }
            &&& !new && !same && over ==> {
                &&& action == DragAction::TellAndHide
                &&& !after.visible
                &&& after.last_seen_ns == monitor.last_seen_ns
                &&& after.seen_change_count == sight.change_count
                &&& after.active_change_count is None
            }
            &&& !new && !same && !over ==> {
                &&& action == DragAction::Nothing
                &&& after.visible == monitor.visible
                &&& after.last_seen_ns == monitor.last_seen_ns
                &&& !sight.mouse_down && !monitor.visible ==> after.seen_change_count
                    == sight.change_count && after.active_change_count is None
                &&& sight.mouse_down || monitor.visible ==> after == monitor
            }
        }),
{
}

} // verus!
