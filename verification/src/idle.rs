//! Idle handling: the timeouts handed to the compositor's idle notifier,
//! the events it reports, and what the application does on each of them
//! (launch the screensaver, schedule and cancel the lock, hand idle
//! handling back to swayidle).
use vstd::prelude::*;
use crate::screensaver_config::ScreensaverConfig;
use crate::text::string_from;

verus! {

/// Timeouts for the idle subscription. Changing any field restarts the
/// subscription.
#[derive(Clone, Copy, Debug, PartialEq, Eq, Hash, Structural)]
pub struct IdleSubscriptionConfig {
    /// Screensaver idle timeout in milliseconds (0 = disabled)
    pub screensaver_timeout_ms: u32,
    /// Lock timeout in milliseconds (0 = disabled)
    pub lock_timeout_ms: u32,
    /// Master enable switch
    pub enabled: bool,
}

/// Events of the idle subscription.
#[derive(Clone, Debug)]
pub enum IdleEvent {
    /// Screensaver idle timeout reached
    ScreensaverIdle,
    /// User activity resumed after screensaver idle
    ScreensaverResumed,
    /// Lock timeout reached
    LockIdle,
    /// Successfully connected to compositor idle protocol
    Connected,
    /// Protocol unavailable or connection error
    Error(String),
}

/// Which of the two idle notifications a compositor event belongs to.
#[derive(Clone, Copy, Debug, PartialEq, Eq, Structural)]
pub enum NotificationKind {
    Screensaver,
    Lock,
}

/// What the compositor reports on an idle notification.
#[derive(Clone, Copy, Debug, PartialEq, Eq, Structural)]
pub enum NotificationEvent {
    Idled,
    Resumed,
}

/// The application event for a compositor notification; the end of the
/// lock idle period is not reported.
pub fn notification_event(event: NotificationEvent, kind: NotificationKind) -> (r: Option<IdleEvent>)
    ensures
        match (event, kind) {
            (NotificationEvent::Idled, NotificationKind::Screensaver) => r matches Some(
                IdleEvent::ScreensaverIdle,
            ),
            (NotificationEvent::Resumed, NotificationKind::Screensaver) => r matches Some(
                IdleEvent::ScreensaverResumed,
            ),
            (NotificationEvent::Idled, NotificationKind::Lock) => r matches Some(IdleEvent::LockIdle),
            (NotificationEvent::Resumed, NotificationKind::Lock) => r is None,
        },
{
    match (event, kind) {
        (NotificationEvent::Idled, NotificationKind::Screensaver) => Some(IdleEvent::ScreensaverIdle),
        (NotificationEvent::Resumed, NotificationKind::Screensaver) => Some(
            IdleEvent::ScreensaverResumed,
        ),
        (NotificationEvent::Idled, NotificationKind::Lock) => Some(IdleEvent::LockIdle),
        (NotificationEvent::Resumed, NotificationKind::Lock) => None,
    }
}

/// Whether the subscription runs at all: it is enabled and has a timeout.
pub fn subscription_wanted(config: &IdleSubscriptionConfig) -> (b: bool)
    ensures
        b == (config.enabled && !(config.screensaver_timeout_ms == 0 && config.lock_timeout_ms
            == 0)),
{
    config.enabled && !(config.screensaver_timeout_ms == 0 && config.lock_timeout_ms == 0)
}

/// `seconds * 1000`, saturating at `u32::MAX`.
pub open spec fn saturating_ms(seconds: int) -> u32 {
    if seconds * 1000 > u32::MAX {
        u32::MAX
    } else {
        (seconds * 1000) as u32
    }
}

fn to_ms(seconds: u32) -> (r: u32)
    ensures
        r == saturating_ms(seconds as int),
{
    match seconds.checked_mul(1000) {
        Some(v) => v,
        None => u32::MAX,
    }
}

/// Idle subscription timeouts from the screensaver settings: the
/// screensaver after `idle_timeout`, the lock `lock_timeout` later, both
/// in milliseconds, saturating at `u32::MAX`; zero where disabled.
pub fn compute_idle_config(config: &ScreensaverConfig) -> (r: IdleSubscriptionConfig)
    ensures
        r.enabled == config.enabled,
        r.screensaver_timeout_ms == (if config.enabled {
            saturating_ms(config.idle_timeout as int)
        } else {
            0
        }),
        r.lock_timeout_ms == (if config.enabled && config.lock_timeout > 0 {
            saturating_ms(config.idle_timeout + config.lock_timeout)
        } else {
            0
        }),
{
    let screensaver_timeout_ms = if config.enabled {
        to_ms(config.idle_timeout)
    } else {
        0
    };
    let lock_timeout_ms = if config.enabled && config.lock_timeout > 0 {
        match config.idle_timeout.checked_add(config.lock_timeout) {
            Some(total) => to_ms(total),
            None => u32::MAX,
        }
    } else {
        0
    };
    IdleSubscriptionConfig { screensaver_timeout_ms, lock_timeout_ms, enabled: config.enabled }
}

/// The idle-related state of the application.
#[derive(Clone, Copy, Debug, PartialEq, Eq, Structural)]
pub struct IdleControl {
    /// Native idle detection is connected (swayidle stopped).
    pub native_idle_active: bool,
    /// Caffeine mode: idle does not start the screensaver.
    pub caffeine_active: bool,
    /// Process id of the screensaver started on idle.
    pub screensaver_child: Option<u32>,
    /// A lock timer is scheduled.
    pub lock_timer_pending: bool,
    /// Session lock on idle is enabled in the settings.
    pub session_lock_enabled: bool,
}

/// What the application does after an idle event.
#[derive(Clone, Copy, Debug, PartialEq, Eq, Structural)]
pub enum IdleAction {
    Nothing,
    /// Stop the swayidle service (native idle took over).
    StopSwayidle,
    /// Restart the swayidle service (native idle failed).
    RestartSwayidle,
    /// Start the fullscreen screensaver.
    LaunchScreensaver,
    /// Lock the session.
    LockScreen,
    /// User activity: kill the screensaver and cancel the lock timer, each
    /// where there is one.
    Resume { kill_screensaver: bool, cancel_lock_timer: bool },
}

/// How starting the screensaver went.
#[derive(Clone, Copy, Debug, PartialEq, Eq, Structural)]
pub enum LaunchOutcome {
    /// The launcher script is not installed.
    LauncherMissing,
    /// The screensaver runs under this process id.
    Spawned(u32),
    /// The launcher could not be started.
    SpawnFailed,
}

/// The lock delay scheduled when the screensaver was started: the lock
/// timeout, when the launcher was found, locking is on, the timeout is set
/// and no lock is pending yet.
pub open spec fn lock_delay(c: IdleControl, outcome: LaunchOutcome, lock_timeout: u32) -> Option<u32> {
    if outcome != LaunchOutcome::LauncherMissing && c.session_lock_enabled && lock_timeout > 0
        && !c.lock_timer_pending {
        Some(lock_timeout)
    } else {
        None
    }
}

/// The idle state after the screensaver was started.
pub open spec fn after_launch(c: IdleControl, outcome: LaunchOutcome, lock_timeout: u32) -> IdleControl {
    IdleControl {
        screensaver_child: match outcome {
            LaunchOutcome::Spawned(pid) => Some(pid),
            _ => c.screensaver_child,
        },
        lock_timer_pending: c.lock_timer_pending || lock_delay(c, outcome, lock_timeout) is Some,
        ..c
    }
}

/// A lock is scheduled at most once: after one was scheduled, starting the
/// screensaver again schedules none until the user resumes or the lock
/// happens.
pub proof fn lemma_lock_scheduled_once(
    c: IdleControl,
    first: LaunchOutcome,
    first_timeout: u32,
    again: LaunchOutcome,
    again_timeout: u32,
)
    ensures
        lock_delay(c, first, first_timeout) is Some ==> lock_delay(
            after_launch(c, first, first_timeout),
            again,
            again_timeout,
        ) is None,
{
}

impl IdleControl {
    /// State at start-up.
    pub fn new(session_lock_enabled: bool) -> (r: IdleControl)
        ensures
            r == (IdleControl {
                native_idle_active: false,
                caffeine_active: false,
                screensaver_child: None,
                lock_timer_pending: false,
                session_lock_enabled,
            }),
    {
        IdleControl {
            native_idle_active: false,
            caffeine_active: false,
            screensaver_child: None,
            lock_timer_pending: false,
            session_lock_enabled,
        }
    }

    /// React to an idle event.
    pub fn on_event(&mut self, event: &IdleEvent) -> (a: IdleAction)
        ensures
            match *event {
                IdleEvent::Connected => a == IdleAction::StopSwayidle && *final(self) == (IdleControl {
                    native_idle_active: true,
                    ..*old(self)
                }),
                IdleEvent::Error(_) => a == IdleAction::RestartSwayidle && *final(self) == (
                IdleControl { native_idle_active: false, ..*old(self) }),
                IdleEvent::ScreensaverIdle => *final(self) == *old(self) && a == (if old(
                    self,
                ).caffeine_active {
                    IdleAction::Nothing
                } else {
                    IdleAction::LaunchScreensaver
                }),
                IdleEvent::ScreensaverResumed => a == (IdleAction::Resume {
                    kill_screensaver: old(self).screensaver_child is Some,
                    cancel_lock_timer: old(self).lock_timer_pending,
                }) && *final(self) == (IdleControl {
                    screensaver_child: None,
                    lock_timer_pending: false,
                    ..*old(self)
                }),
                IdleEvent::LockIdle => a == IdleAction::LockScreen && *final(self) == *old(self),
            },
    {
        match event {
            IdleEvent::Connected => {
                self.native_idle_active = true;
                IdleAction::StopSwayidle
            },
            IdleEvent::Error(_) => {
                self.native_idle_active = false;
                IdleAction::RestartSwayidle
            },
            IdleEvent::ScreensaverIdle => {
                if self.caffeine_active {
                    IdleAction::Nothing
                } else {
                    IdleAction::LaunchScreensaver
                }
            },
            IdleEvent::ScreensaverResumed => {
                let kill = self.screensaver_child.is_some();
                let cancel = self.lock_timer_pending;
                self.screensaver_child = None;
                self.lock_timer_pending = false;
                IdleAction::Resume { kill_screensaver: kill, cancel_lock_timer: cancel }
            },
            IdleEvent::LockIdle => IdleAction::LockScreen,
        }
    }

    /// After trying to start the screensaver: remember the process, and
    /// return the delay of a lock timer to schedule, if any. A missing
    /// launcher ends the handling; otherwise a timer is scheduled when
    /// session lock is on, the lock timeout is set and no timer is pending.
    pub fn on_screensaver_launched(&mut self, outcome: LaunchOutcome, lock_timeout: u32) -> (r: Option<u32>)
        ensures
            r == lock_delay(*old(self), outcome, lock_timeout),
            *final(self) == after_launch(*old(self), outcome, lock_timeout),
            final(self).screensaver_child == (match outcome {
                LaunchOutcome::Spawned(pid) => Some(pid),
                _ => old(self).screensaver_child,
            }),
            final(self).native_idle_active == old(self).native_idle_active,
            final(self).caffeine_active == old(self).caffeine_active,
            final(self).session_lock_enabled == old(self).session_lock_enabled,
            r == (if outcome != LaunchOutcome::LauncherMissing && old(self).session_lock_enabled
                && lock_timeout > 0 && !old(self).lock_timer_pending {
                Some(lock_timeout)
            } else {
                None::<u32>
            }),
            final(self).lock_timer_pending == (old(self).lock_timer_pending || r is Some),
    {
        match outcome {
            LaunchOutcome::LauncherMissing => {
                return None;
            },
            LaunchOutcome::Spawned(pid) => {
                self.screensaver_child = Some(pid);
            },
            LaunchOutcome::SpawnFailed => {},
        }
        if self.session_lock_enabled && lock_timeout > 0 && !self.lock_timer_pending {
            self.lock_timer_pending = true;
            Some(lock_timeout)
        } else {
            None
        }
    }

    /// The lock timer elapsed: it is no longer pending, and the session is
    /// locked.
    pub fn on_lock_timer(&mut self) -> (a: IdleAction)
        ensures
            a == IdleAction::LockScreen,
            *final(self) == (IdleControl { lock_timer_pending: false, ..*old(self) }),
    {
        self.lock_timer_pending = false;
        IdleAction::LockScreen
    }

    /// On exit with native idle active, the screensaver is killed (where
    /// one runs) and swayidle restarted: returns whether to kill and
    /// whether to restart.
    pub fn on_exit(&mut self) -> (r: (bool, bool))
        ensures
            r.0 == (old(self).native_idle_active && old(self).screensaver_child is Some),
            r.1 == old(self).native_idle_active,
            *final(self) == (if old(self).native_idle_active {
                IdleControl { screensaver_child: None, ..*old(self) }
            } else {
                *old(self)
            }),
    {
        if self.native_idle_active {
            let kill = self.screensaver_child.is_some();
            self.screensaver_child = None;
            (kill, true)
        } else {
            (false, false)
        }
    }
}

/// Connecting to the idle notifier needs the notifier global and a seat:
/// the error reported when one is missing (the notifier is checked first).
pub fn idle_globals_check(has_notifier: bool, has_seat: bool) -> (r: Result<(), String>)
    ensures
        match r {
            Ok(()) => has_notifier && has_seat,
            Err(e) => if !has_notifier {
                e@ == "ext_idle_notifier_v1 not available"@
            } else {
                !has_seat && e@ == "No wl_seat found"@
            },
        },
{
    if !has_notifier {
        Err(string_from("ext_idle_notifier_v1 not available"))
    } else if !has_seat {
        Err(string_from("No wl_seat found"))
    } else {
        Ok(())
    }
}

/// The idle notifications requested from the compositor: the screensaver
/// one and the lock one, each only when its timeout is set.
pub fn notifications_for(config: &IdleSubscriptionConfig) -> (r: Vec<(NotificationKind, u32)>)
    ensures
        r@ == (if config.screensaver_timeout_ms > 0 {
            seq![(NotificationKind::Screensaver, config.screensaver_timeout_ms)]
        } else {
            seq![]
        }) + (if config.lock_timeout_ms > 0 {
            seq![(NotificationKind::Lock, config.lock_timeout_ms)]
        } else {
            seq![]
        }),
{
    let mut r: Vec<(NotificationKind, u32)> = Vec::new();
    if config.screensaver_timeout_ms > 0 {
        r.push((NotificationKind::Screensaver, config.screensaver_timeout_ms));
    }
    if config.lock_timeout_ms > 0 {
        r.push((NotificationKind::Lock, config.lock_timeout_ms));
    }
    assert(r@ =~= (if config.screensaver_timeout_ms > 0 {
        seq![(NotificationKind::Screensaver, config.screensaver_timeout_ms)]
    } else {
        seq![]
    }) + (if config.lock_timeout_ms > 0 {
        seq![(NotificationKind::Lock, config.lock_timeout_ms)]
    } else {
        seq![]
    }));
    r
}

} // verus!
