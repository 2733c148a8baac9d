//! The session lock screen: which compositor globals it binds, the color
//! it paints, when a key unlocks, and which events end the lock.
use vstd::prelude::*;
use crate::colors::{Rgb, hex_to_rgb, parse_hex};
use crate::text::string_from;

verus! {

/// Events of the session lock.
#[derive(Clone, Debug)]
pub enum SessionLockEvent {
    /// Lock successfully acquired (compositor acknowledged)
    Locked,
    /// User pressed a key — unlock requested
    UnlockRequested,
    /// Lock acquisition failed (compositor rejected or protocol error)
    Failed(String),
    /// Protocol unavailable or connection error
    Error(String),
}

impl SessionLockEvent {
    /// The lock is over after this event (unlocked or failed).
    pub fn is_terminal(&self) -> (b: bool)
        ensures
            b == !(self is Locked),
    {
        match self {
            SessionLockEvent::Locked => false,
            _ => true,
        }
    }
}

/// Events of the sleep monitor.
#[derive(Clone, Copy, Debug, PartialEq, Eq, Structural)]
pub enum SleepEvent {
    PrepareForSleep,
}

/// A `PrepareForSleep` signal locks the screen only when the system is
/// going to sleep (not when it wakes up).
pub fn sleep_event(going_to_sleep: bool) -> (r: Option<SleepEvent>)
    ensures
        r == (if going_to_sleep {
            Some(SleepEvent::PrepareForSleep)
        } else {
            None::<SleepEvent>
        }),
{
    if going_to_sleep {
        Some(SleepEvent::PrepareForSleep)
    } else {
        None
    }
}

/// The color the lock surfaces are painted: the given hex color, or a dark
/// gray (27, 27, 27) when it does not parse.
pub fn lock_color(bg: &str) -> (c: Rgb)
    ensures
        c == match parse_hex(bg@) {
            Some(c) => c,
            None => Rgb { r: 27, g: 27, b: 27 },
        },
{
    match hex_to_rgb(bg) {
        Some(c) => c,
        None => Rgb { r: 27, g: 27, b: 27 },
    }
}

/// One pixel of the lock surface in the ARGB8888 buffer layout (bytes in
/// blue, green, red, alpha order), fully opaque.
pub fn argb_pixel(c: Rgb) -> (p: [u8; 4])
    ensures
        p@ == seq![c.b, c.g, c.r, 0xFFu8],
{
    let p = [c.b, c.g, c.r, 0xFF];
    assert(p@ =~= seq![c.b, c.g, c.r, 0xFFu8]);
    p
}

/// Row stride and size in bytes of a `width` × `height` surface buffer.
pub fn buffer_layout(width: u32, height: u32) -> (r: (i32, i32))
    requires
        width * 4 <= i32::MAX,
        width * 4 * height <= i32::MAX,
    ensures
        r.0 == width * 4,
        r.1 == width * 4 * height,
{
    let stride: u64 = (width as u64) * 4;
    assert(stride * (height as u64) == width * 4 * height) by (nonlinear_arith)
        requires
            stride == width * 4,
    ;
    let size: u64 = stride * (height as u64);
    (stride as i32, size as i32)
}

/// A global the lock binds.
#[derive(Clone, Copy, Debug, PartialEq, Eq, Structural)]
pub enum LockGlobal {
    Compositor,
    Shm,
    Seat,
    Output,
    LockManager,
}

/// The global an advertised interface is bound as (only the first seat is
/// taken).
pub fn lock_global(interface: &str, seat_bound: bool) -> (g: Option<LockGlobal>)
    ensures
        g == (if interface@ == "wl_compositor"@ {
            Some(LockGlobal::Compositor)
        } else if interface@ == "wl_shm"@ {
            Some(LockGlobal::Shm)
        } else if interface@ == "wl_seat"@ {
            if seat_bound {
                None
            } else {
                Some(LockGlobal::Seat)
            }
        } else if interface@ == "wl_output"@ {
            Some(LockGlobal::Output)
        } else if interface@ == "ext_session_lock_manager_v1"@ {
            Some(LockGlobal::LockManager)
        } else {
            None::<LockGlobal>
        }),
{
    if text_is(interface, "wl_compositor") {
        Some(LockGlobal::Compositor)
    } else if text_is(interface, "wl_shm") {
        Some(LockGlobal::Shm)
    } else if text_is(interface, "wl_seat") {
        if seat_bound {
            None
        } else {
            Some(LockGlobal::Seat)
        }
    } else if text_is(interface, "wl_output") {
        Some(LockGlobal::Output)
    } else if text_is(interface, "ext_session_lock_manager_v1") {
        Some(LockGlobal::LockManager)
    } else {
        None
    }
}

fn text_is(a: &str, b: &str) -> (r: bool)
    ensures
        r == (a@ == b@),
{
    let c = crate::text::chars_of(a);
    let d = crate::text::chars_of(b);
    assert(c@.subrange(0, c@.len() as int) == c@);
    crate::text::range_eq(c.as_slice(), 0, c.len(), d.as_slice())
}

/// A key press asks to unlock only once the lock is held.
pub fn key_unlocks(pressed: bool, locked: bool) -> (b: bool)
    ensures
        b == (pressed && locked),
{
    pressed && locked
}

/// Locking needs the lock manager and the compositor globals: the error
/// reported when one is missing (the manager is checked first).
pub fn lock_globals_check(has_manager: bool, has_compositor: bool) -> (r: Result<(), String>)
    ensures
        match r {
            Ok(()) => has_manager && has_compositor,
            Err(e) => if !has_manager {
                e@ == "ext_session_lock_manager_v1 not available"@
            } else {
                !has_compositor && e@ == "wl_compositor not available"@
            },
        },
{
    if !has_manager {
        Err(string_from("ext_session_lock_manager_v1 not available"))
    } else if !has_compositor {
        Err(string_from("wl_compositor not available"))
    } else {
        Ok(())
    }
}

} // verus!
