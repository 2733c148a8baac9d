//! Compositor settings that get in the way of a fullscreen screensaver
//! test (autotiling, focus following the cursor): which to switch off,
//! and how the saved values are written back.
use vstd::prelude::*;
use crate::text::{push_str, string_from};

verus! {

/// A boolean setting of the compositor that the test switches off.
#[derive(Clone, Copy, Debug, PartialEq, Eq, Structural)]
pub enum CompositorKey {
    Autotile,
    FocusFollowsCursor,
}

impl CompositorKey {
    /// The key's name in the compositor configuration.
    pub fn name(self) -> (s: &'static str)
        ensures
            s@ == match self {
                CompositorKey::Autotile => "autotile"@,
                CompositorKey::FocusFollowsCursor => "focus_follows_cursor"@,
            },
    {
        match self {
            CompositorKey::Autotile => "autotile",
            CompositorKey::FocusFollowsCursor => "focus_follows_cursor",
        }
    }
}

/// The compositor settings read before the test, to be restored after
/// it; `None` where the value could not be read.
#[derive(Clone, Copy, Debug, PartialEq, Eq, Structural)]
pub struct CompositorBackup {
    pub autotile: Option<bool>,
    pub focus_follows_cursor: Option<bool>,
}

/// The settings after writing `writes` in order.
pub open spec fn apply_writes(s: CompositorBackup, writes: Seq<(CompositorKey, bool)>) -> CompositorBackup
    decreases writes.len(),
{
    if writes.len() == 0 {
        s
    } else {
        let t = apply_writes(s, writes.drop_last());
        match writes.last().0 {
            CompositorKey::Autotile => CompositorBackup { autotile: Some(writes.last().1), ..t },
            CompositorKey::FocusFollowsCursor => CompositorBackup {
                focus_follows_cursor: Some(writes.last().1),
                ..t
            },
        }
    }
}

/// The writes that switch off every setting that is on.
pub open spec fn disable_writes_of(s: CompositorBackup) -> Seq<(CompositorKey, bool)> {
    (if s.autotile == Some(true) {
        seq![(CompositorKey::Autotile, false)]
    } else {
        seq![]
    }) + (if s.focus_follows_cursor == Some(true) {
        seq![(CompositorKey::FocusFollowsCursor, false)]
    } else {
        seq![]
    })
}

/// The writes that put back every value that was read.
pub open spec fn restore_writes_of(b: CompositorBackup) -> Seq<(CompositorKey, bool)> {
    (match b.autotile {
        Some(v) => seq![(CompositorKey::Autotile, v)],
        None => seq![],
    }) + (match b.focus_follows_cursor {
        Some(v) => seq![(CompositorKey::FocusFollowsCursor, v)],
        None => seq![],
    })
}

/// Before the test: the backup of what was read, and the settings to
/// switch off (those that are on), in the order they are written.
pub fn plan_disable(autotile: Option<bool>, focus_follows_cursor: Option<bool>) -> (r: (
    CompositorBackup,
    Vec<(CompositorKey, bool)>,
))
    ensures
        r.0 == (CompositorBackup { autotile, focus_follows_cursor }),
        r.1@ == disable_writes_of(r.0),
{
    let backup = CompositorBackup { autotile, focus_follows_cursor };
    let mut writes: Vec<(CompositorKey, bool)> = Vec::new();
    if autotile == Some(true) {
        writes.push((CompositorKey::Autotile, false));
    }
    if focus_follows_cursor == Some(true) {
        writes.push((CompositorKey::FocusFollowsCursor, false));
    }
    assert(writes@ =~= disable_writes_of(backup));
    (backup, writes)
}

/// After the test: the values to write back, in order (a transaction is
/// committed only when there is one).
pub fn restore_writes(backup: &CompositorBackup) -> (r: Vec<(CompositorKey, bool)>)
    ensures
        r@ == restore_writes_of(*backup),
{
    let mut writes: Vec<(CompositorKey, bool)> = Vec::new();
    if let Some(v) = backup.autotile {
        writes.push((CompositorKey::Autotile, v));
    }
    if let Some(v) = backup.focus_follows_cursor {
        writes.push((CompositorKey::FocusFollowsCursor, v));
    }
    assert(writes@ =~= restore_writes_of(*backup));
    writes
}

/// Restoring the backup after switching the settings off gives back the
/// settings as they were.
pub proof fn lemma_restore_undoes_disable(s: CompositorBackup)
    ensures
        apply_writes(apply_writes(s, disable_writes_of(s)), restore_writes_of(s)) == s,
{
    let d = disable_writes_of(s);
    let r = restore_writes_of(s);
    reveal_with_fuel(apply_writes, 3);
    assert(d.len() <= 2 && r.len() <= 2);
    if d.len() == 2 {
        assert(d.drop_last().drop_last() =~= Seq::<(CompositorKey, bool)>::empty());
    } else if d.len() == 1 {
        assert(d.drop_last() =~= Seq::<(CompositorKey, bool)>::empty());
    }
    let t = apply_writes(s, d);
    if r.len() == 2 {
        assert(r.drop_last().drop_last() =~= Seq::<(CompositorKey, bool)>::empty());
    } else if r.len() == 1 {
        assert(r.drop_last() =~= Seq::<(CompositorKey, bool)>::empty());
    }
}

/// Error of switching a setting off.
pub fn disable_error(key: CompositorKey, e: &str) -> (s: String)
    ensures
        s@ == "Failed to disable "@ + match key {
            CompositorKey::Autotile => "autotile"@,
            CompositorKey::FocusFollowsCursor => "focus_follows_cursor"@,
        } + ": "@ + e@,
{
    let mut s = string_from("Failed to disable ");
    push_str(&mut s, key.name());
    push_str(&mut s, ": ");
    push_str(&mut s, e);
    s
}

/// Error of writing a saved setting back.
pub fn restore_error(key: CompositorKey, e: &str) -> (s: String)
    ensures
        s@ == "Failed to restore "@ + match key {
            CompositorKey::Autotile => "autotile"@,
            CompositorKey::FocusFollowsCursor => "focus_follows_cursor"@,
        } + ": "@ + e@,
{
    let mut s = string_from("Failed to restore ");
    push_str(&mut s, key.name());
    push_str(&mut s, ": ");
    push_str(&mut s, e);
    s
}

} // verus!
