//! The engine's per-frame decisions: what a drained command does, and the transactional rule a
//! skin rebuild follows (a skin that fails to load leaves the running one in place).

use vstd::prelude::*;
use crate::command::{Command, SkinSource};
use crate::host::{ActionSpec, allowlisted, is_allowed};

verus! {

/// A pointer input event.
#[derive(Clone, Copy, Debug, PartialEq, Eq, Structural)]
pub enum PointerEvent {
    /// A press (e.g. mouse-down / touch-down).
    Press,
}

/// What draining one command asks the engine to do.
pub enum Effect<A, H> {
    /// Call the current host's action with these arguments.
    Invoke { action: String, args: Vec<A> },
    /// Drop an action the current host does not allowlist.
    Drop { action: String },
    /// Rebuild the skin from this source, keeping the current host.
    Rebuild(SkinSource),
    /// Install this host, then rebuild the skin from this source.
    Switch { host: H, skin: SkinSource },
}

/// True when `e` is what draining `cmd` asks for against the allowlist `actions`: an allowlisted
/// host action is invoked with its arguments, any other is dropped; a swap rebuilds the skin on
/// the current host; a host switch installs the new host and rebuilds for it.
pub open spec fn dispatched<A, H>(cmd: Command<A, H>, actions: Seq<ActionSpec>, e: Effect<A, H>) -> bool {
    match cmd {
        Command::HostAction { action, args } => if allowlisted(actions, action@) {
            e matches Effect::Invoke { action: a, args: g } && a == action && g == args
        } else {
            e matches Effect::Drop { action: a } && a == action
        },
        Command::Swap(s) => e matches Effect::Rebuild(t) && t == s,
        Command::SwitchHost { host, skin } => e matches Effect::Switch { host: h, skin: t } && h
            == host && t == skin,
    }
}

/// Decides what a drained command does, against the current host's allowlist `actions`: an
/// allowlisted host action is invoked with its arguments, any other is dropped; a swap rebuilds
/// the skin on the current host; a host switch installs the new host and rebuilds for it.
pub fn dispatch<A, H>(cmd: Command<A, H>, actions: &[ActionSpec]) -> (e: Effect<A, H>)
    ensures
        dispatched(cmd, actions@, e),
{
    match cmd {
        Command::HostAction { action, args } => {
            if is_allowed(actions, action.as_str()) {
                Effect::Invoke { action, args }
            } else {
                Effect::Drop { action }
            }
        },
        Command::Swap(s) => Effect::Rebuild(s),
        Command::SwitchHost { host, skin } => Effect::Switch { host, skin },
    }
}

/// One step of a frame's update.
pub enum UpdateStep<A, H> {
    /// Carry out what the next drained command asks for.
    Apply(Effect<A, H>),
    /// Every drained command has been handled: tick the then-current host once.
    Tick,
}

/// The next step of a frame's update over the commands drained for it, against the allowlist
/// of the host current at this step: while commands remain, the first is taken off and
/// dispatched, so commands are handled in the order they were queued, each exactly once; once
/// none remain, the host is ticked.
pub fn next_update_step<A, H>(pending: &mut Vec<Command<A, H>>, actions: &[ActionSpec]) -> (s:
    UpdateStep<A, H>)
    ensures
        old(pending)@.len() > 0 ==> final(pending)@ == old(pending)@.drop_first() && (s matches UpdateStep::Apply(e)
            && dispatched(old(pending)@[0], actions@, e)),
        old(pending)@.len() == 0 ==> final(pending)@ == old(pending)@ && s is Tick,
{
    if pending.len() == 0 {
        UpdateStep::Tick
    } else {
        let cmd = pending.remove(0);
        assert(old(pending)@.remove(0) =~= old(pending)@.drop_first());
        UpdateStep::Apply(dispatch(cmd, actions))
    }
}

/// The running skin and the host it talks to.
pub struct Running<H, S> {
    /// The host.
    pub host: H,
    /// The loaded skin.
    pub skin: S,
}

impl<H, S> Running<H, S> {
    /// Applies a finished skin rebuild transactionally: on success the new skin replaces the
    /// running one; on failure the running skin stays and the error is handed back. The host is
    /// never touched, so host state survives a swap.
    pub fn apply_swap<E>(&mut self, rebuilt: Result<S, E>) -> (err: Option<E>)
        ensures
            final(self).host == old(self).host,
            match rebuilt {
                Ok(s) => final(self).skin == s && err is None,
                Err(e) => final(self).skin == old(self).skin && err == Some(e),
            },
    {
        match rebuilt {
            Ok(s) => {
                self.skin = s;
                None
            },
            Err(e) => Some(e),
        }
    }

    /// Applies a host switch: the new host is installed, then the skin rebuilt for it replaces the
    /// running one only when the rebuild succeeded.
    pub fn apply_switch<E>(&mut self, host: H, rebuilt: Result<S, E>) -> (err: Option<E>)
        ensures
            final(self).host == host,
            match rebuilt {
                Ok(s) => final(self).skin == s && err is None,
                Err(e) => final(self).skin == old(self).skin && err == Some(e),
            },
    {
        self.host = host;
        self.apply_swap(rebuilt)
    }
}

} // verus!
