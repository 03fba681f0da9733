//! The network side's reaction to the window's commands. The platform layer
//! owns the capture stream, the mute handle and the three network tasks,
//! carries out the plans returned here and reports the capture outcome.
use vstd::prelude::*;

verus! {

/// What the network side holds between commands.
#[derive(Clone, Copy, Debug, PartialEq, Eq, Structural)]
pub struct ServerSession {
    /// Discovery, media-command and audio tasks are running.
    pub tasks_running: bool,
    /// A capture stream is alive.
    pub capturing: bool,
    /// A mute handle is held, to be released on stop.
    pub mute_held: bool,
    /// What the last mute request told the speakers: `true` when muted.
    pub speakers_muted: bool,
}

/// What to do once a start was asked for and the capture was attempted.
/// Steps run in field order: report, mute, restore, spawn.
#[derive(Clone, Copy, Debug, PartialEq, Eq, Structural)]
pub struct StartPlan {
    /// The capture failed: report it to the window and do nothing else.
    pub report_capture_error: bool,
    /// Take a new mute handle and mute the speakers.
    pub mute_speakers: bool,
    /// The mute handle held before is released, which unmutes the speakers.
    pub restore_speakers: bool,
    /// Start the three network tasks; any previous ones stop.
    pub spawn_tasks: bool,
}

/// What to do when the window asks to stop.
#[derive(Clone, Copy, Debug, PartialEq, Eq, Structural)]
pub struct StopPlan {
    /// Tell the running tasks to stop.
    pub stop_tasks: bool,
    /// Forget the registered client.
    pub clear_client: bool,
    /// Drop the capture stream.
    pub stop_capture: bool,
    /// Unmute the speakers and release the mute handle.
    pub restore_speakers: bool,
}

pub open spec fn idle_session() -> ServerSession {
    ServerSession {
        tasks_running: false,
        capturing: false,
        mute_held: false,
        speakers_muted: false,
    }
}

pub open spec fn spec_after_capture(s: ServerSession, mute_local: bool, capture_ok: bool) -> (
    ServerSession,
    StartPlan,
) {
    if !capture_ok {
        (
            s,
            StartPlan {
                report_capture_error: true,
                mute_speakers: false,
                restore_speakers: false,
                spawn_tasks: false,
            },
        )
    } else if mute_local {
        (
            ServerSession {
                tasks_running: true,
                capturing: true,
                mute_held: true,
                speakers_muted: !s.mute_held,
            },
            StartPlan {
                report_capture_error: false,
                mute_speakers: true,
                restore_speakers: s.mute_held,
                spawn_tasks: true,
            },
        )
    } else {
        (
            ServerSession { tasks_running: true, capturing: true, ..s },
            StartPlan {
                report_capture_error: false,
                mute_speakers: false,
                restore_speakers: false,
                spawn_tasks: true,
            },
        )
    }
}

pub open spec fn spec_stop(s: ServerSession) -> (ServerSession, StopPlan) {
    (
        ServerSession {
            tasks_running: false,
            capturing: false,
            mute_held: false,
            speakers_muted: if s.mute_held {
                false
            } else {
                s.speakers_muted
            },
        },
        StopPlan {
            stop_tasks: s.tasks_running,
            clear_client: true,
            stop_capture: s.capturing,
            restore_speakers: s.mute_held,
        },
    )
}

impl ServerSession {
    /// Nothing running, nothing muted.
    pub fn new() -> (s: Self)
        ensures
            s == idle_session(),
            !s.tasks_running && !s.capturing && !s.mute_held && !s.speakers_muted,
    {
        ServerSession {
            tasks_running: false,
            capturing: false,
            mute_held: false,
            speakers_muted: false,
        }
    }

    /// A start was asked for, with or without muting the PC, and the capture
    /// was attempted. On failure nothing changes and the error is reported.
    /// On success the new capture replaces any old one and new tasks replace
    /// any old ones; with muting, a new handle mutes the speakers and the
    /// handle held before, if any, is released afterwards, which unmutes
    /// them again.
    pub fn on_capture_result(&mut self, mute_local: bool, capture_ok: bool) -> (plan: StartPlan)
        ensures
            (*final(self), plan) == spec_after_capture(*old(self), mute_local, capture_ok),
            plan.report_capture_error == !capture_ok,
            plan.spawn_tasks == capture_ok,
            plan.mute_speakers == (mute_local && capture_ok),
            plan.restore_speakers == (mute_local && capture_ok && old(self).mute_held),
            !capture_ok ==> *final(self) == *old(self),
            capture_ok ==> final(self).tasks_running && final(self).capturing,
            final(self).mute_held == (old(self).mute_held || (mute_local && capture_ok)),
            (capture_ok && !mute_local) ==> final(self).speakers_muted
                == old(self).speakers_muted,
    {
        proof {
            lemma_start_decisions(*old(self), mute_local, capture_ok);
        }
        if !capture_ok {
            return StartPlan {
                report_capture_error: true,
                mute_speakers: false,
                restore_speakers: false,
                spawn_tasks: false,
            };
        }
        self.tasks_running = true;
        self.capturing = true;
        if mute_local {
            let restore = self.mute_held;
            self.mute_held = true;
            self.speakers_muted = !restore;
            StartPlan {
                report_capture_error: false,
                mute_speakers: true,
                restore_speakers: restore,
                spawn_tasks: true,
            }
        } else {
            StartPlan {
                report_capture_error: false,
                mute_speakers: false,
                restore_speakers: false,
                spawn_tasks: true,
            }
        }
    }

    /// Stop was asked for: stop the tasks, forget the client, drop the
    /// capture and give the speakers back.
    pub fn on_stop(&mut self) -> (plan: StopPlan)
        ensures
            (*final(self), plan) == spec_stop(*old(self)),
            plan.stop_tasks == old(self).tasks_running,
            plan.stop_capture == old(self).capturing,
            plan.restore_speakers == old(self).mute_held,
            plan.clear_client,
            !final(self).tasks_running && !final(self).capturing && !final(self).mute_held,
            old(self).mute_held ==> !final(self).speakers_muted,
            !old(self).mute_held ==> final(self).speakers_muted == old(self).speakers_muted,
    {
        proof {
            lemma_stop_decisions(*old(self));
        }
        let plan = StopPlan {
            stop_tasks: self.tasks_running,
            clear_client: true,
            stop_capture: self.capturing,
            restore_speakers: self.mute_held,
        };
        if self.mute_held {
            self.speakers_muted = false;
        }
        self.tasks_running = false;
        self.capturing = false;
        self.mute_held = false;
        plan
    }
}

// ---------------------------------------------------------------------------
// Laws of the session
// ---------------------------------------------------------------------------

/// The speakers are only ever muted while a mute handle is held.
pub open spec fn session_wf(s: ServerSession) -> bool {
    s.speakers_muted ==> s.mute_held
}

/// Every command keeps the speakers muted only under a held handle.
pub proof fn lemma_session_wf_preserved(s: ServerSession, mute_local: bool, capture_ok: bool)
    requires
        session_wf(s),
    ensures
        session_wf(idle_session()),
        session_wf(spec_after_capture(s, mute_local, capture_ok).0),
        session_wf(spec_stop(s).0),
{
}

/// Stopping leaves nothing behind: no task, no capture, no mute handle, the
/// speakers not muted, and the client forgotten. Stopping again asks for
/// nothing more than forgetting the client.
pub proof fn lemma_stop_leaves_nothing(s: ServerSession)
    requires
        session_wf(s),
    ensures
        spec_stop(s).0 == idle_session(),
        spec_stop(s).1.clear_client,
        spec_stop(s).1.restore_speakers == s.mute_held,
        spec_stop(spec_stop(s).0).1 == (StopPlan {
            stop_tasks: false,
            clear_client: true,
            stop_capture: false,
            restore_speakers: false,
        }),
{
}

/// A failed capture changes nothing and starts nothing; a successful one
/// always starts the network tasks.
pub proof fn lemma_start_needs_capture(s: ServerSession, mute_local: bool, capture_ok: bool)
    ensures
        !capture_ok ==> spec_after_capture(s, mute_local, capture_ok).0 == s
            && !spec_after_capture(s, mute_local, capture_ok).1.spawn_tasks
            && !spec_after_capture(s, mute_local, capture_ok).1.mute_speakers,
        capture_ok ==> spec_after_capture(s, mute_local, capture_ok).1.spawn_tasks
            && spec_after_capture(s, mute_local, capture_ok).0.tasks_running
            && spec_after_capture(s, mute_local, capture_ok).0.capturing,
{
}

/// Starting with muting from a session that mutes nothing leaves the
/// speakers muted until the next stop.
pub proof fn lemma_mute_until_stop(s: ServerSession)
    requires
        session_wf(s),
        !s.mute_held,
    ensures
        spec_after_capture(s, true, true).0.speakers_muted,
        spec_after_capture(s, true, true).0.mute_held,
        spec_stop(spec_after_capture(s, true, true).0).1.restore_speakers,
        !spec_stop(spec_after_capture(s, true, true).0).0.speakers_muted,
{
}

/// What a start does, stated by its inputs: a failed capture is reported and
/// nothing else happens; a successful one spawns the tasks; the speakers are
/// muted only when muting was asked for and the capture works, and a handle
/// held before is then released; without muting, mute state is untouched.
pub proof fn lemma_start_decisions(s: ServerSession, mute_local: bool, capture_ok: bool)
    ensures
        ({
            let (s1, plan) = spec_after_capture(s, mute_local, capture_ok);
            &&& plan.report_capture_error == !capture_ok
            &&& plan.spawn_tasks == capture_ok
            &&& plan.mute_speakers == (mute_local && capture_ok)
            &&& plan.restore_speakers == (mute_local && capture_ok && s.mute_held)
            &&& (!capture_ok ==> s1 == s)
            &&& (capture_ok ==> s1.tasks_running && s1.capturing)
            &&& s1.mute_held == (s.mute_held || (mute_local && capture_ok))
            &&& ((capture_ok && !mute_local) ==> s1.speakers_muted == s.speakers_muted)
        }),
{
}

/// What a stop does, stated by its inputs: it stops the tasks exactly when
/// they run and the capture exactly when it runs, whatever the mute state,
/// always forgets the client, and gives back the speakers exactly when a
/// mute handle was held; afterwards nothing runs and no handle is held.
pub proof fn lemma_stop_decisions(s: ServerSession)
    ensures
        ({
            let (s1, plan) = spec_stop(s);
            &&& plan.stop_tasks == s.tasks_running
            &&& plan.stop_capture == s.capturing
            &&& plan.restore_speakers == s.mute_held
            &&& plan.clear_client
            &&& !s1.tasks_running && !s1.capturing && !s1.mute_held
            &&& (s.mute_held ==> !s1.speakers_muted)
            &&& (!s.mute_held ==> s1.speakers_muted == s.speakers_muted)
        }),
{
}

} // verus!
