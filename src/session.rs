use vstd::prelude::*;
use crate::forward::{ssh_args, ssh_args_of, ParseError, TunnelSpec};
use crate::input::{step, Action, ActionView, InputBuffer, Key};
use crate::lifecycle::Phase;
use crate::registry::{pending_count, wf, Registry, RegistryView, RowView};
use crate::shutdown::fire;

verus! {

/// What the loop around the session has to carry out.
pub enum Command {
    /// Redraw, nothing else.
    Redraw,
    /// Launch `ssh` with `args` for the tunnel registered as `id`.
    Start { id: u64, args: Vec<String> },
    /// Fire the shutdown broadcast and wait for every tunnel to be over.
    Shutdown,
}

/// The decisions of an interactive session: the draft editor, the status
/// list, whether shutdown was asked for, and the last refusal to show.
pub struct Session {
    input: InputBuffer,
    registry: Registry,
    fired: bool,
    last_error: Option<ParseError>,
}

impl Session {
    /// Shutdown was asked for; once true it stays true.
    pub closed spec fn has_fired(&self) -> bool {
        self.fired
    }

    /// The draft editor's state.
    pub closed spec fn input_state(&self) -> Option<Seq<char>> {
        self.input@
    }

    /// The status list.
    pub closed spec fn registry_state(&self) -> RegistryView {
        self.registry@
    }

    /// The refusal to show, if any.
    pub closed spec fn error(&self) -> Option<ParseError> {
        self.last_error
    }

    pub fn input(&self) -> (r: &InputBuffer)
        ensures
            r@ == self.input_state(),
    {
        &self.input
    }

    pub fn registry(&self) -> (r: &Registry)
        ensures
            r@ == self.registry_state(),
    {
        &self.registry
    }

    pub fn last_error(&self) -> (r: Option<ParseError>)
        ensures
            r == self.error(),
    {
        self.last_error
    }

    pub fn is_fired(&self) -> (r: bool)
        ensures
            r == self.has_fired(),
    {
        self.fired
    }

    pub closed spec fn wf(&self) -> bool {
        wf(self.registry@)
    }

    /// Idle editor, empty list, nothing fired.
    pub fn new() -> (r: Session)
        ensures
            r.wf(),
            r.input_state() is None,
            r.registry_state().rows.len() == 0,
            !r.has_fired(),
            r.error() is None,
    {
        Session {
            input: InputBuffer::new(),
            registry: Registry::new(),
            fired: false,
            last_error: None,
        }
    }

    /// Registers a tunnel for `spec` and hands back its id with the ssh
    /// arguments to launch; `None` only when every id has been used.
    pub fn register(&mut self, spec: TunnelSpec) -> (r: Option<(u64, Vec<String>)>)
        requires
            old(self).wf(),
        ensures
            final(self).wf(),
            final(self).input_state() == old(self).input_state(),
            final(self).has_fired() == old(self).has_fired(),
            final(self).error() == old(self).error(),
            old(self).registry_state().next_id == u64::MAX ==> r is None && final(self).registry_state()
                == old(self).registry_state(),
            old(self).registry_state().next_id < u64::MAX ==> r is Some && r.unwrap().0 == old(
                self,
            ).registry_state().next_id && r.unwrap().1@.map_values(|s: String| s@) == ssh_args_of(spec@)
                && final(self).registry_state().rows == old(self).registry_state().rows.push(
                RowView { id: r.unwrap().0, spec: spec@, phase: Phase::Starting },
            ) && final(self).registry_state().next_id == old(self).registry_state().next_id + 1,
    {
        let args = ssh_args(&spec);
        match self.registry.add(spec) {
            Some(id) => Some((id, args)),
            None => None,
        }
    }

    /// Feeds one key: editor transition, then what it asks of the session.
    pub fn handle_key(&mut self, key: Key) -> (c: Command)
        requires
            old(self).wf(),
        ensures
            final(self).wf(),
            final(self).input_state() == step(old(self).input_state(), key).0,
            match step(old(self).input_state(), key).1 {
                ActionView::Stay => c is Redraw && final(self).registry_state() == old(self).registry_state()
                    && final(self).has_fired() == old(self).has_fired() && final(self).error() is None,
                ActionView::Invalid(e) => c is Redraw && final(self).registry_state() == old(
                    self,
                ).registry_state() && final(self).has_fired() == old(self).has_fired() && final(self).error()
                    == Some(e),
                ActionView::Quit => c is Shutdown && final(self).registry_state() == old(self).registry_state()
                    && final(self).has_fired() && final(self).error() is None,
                ActionView::Spawn(v) => final(self).has_fired() == old(self).has_fired()
                    && final(self).error() is None && if old(self).registry_state().next_id
                    < u64::MAX {
                    match c {
                        Command::Start { id, args } => id == old(self).registry_state().next_id
                            && args@.map_values(|s: String| s@) == ssh_args_of(v)
                            && final(self).registry_state().rows == old(self).registry_state().rows.push(
                            RowView { id, spec: v, phase: Phase::Starting },
                        ) && final(self).registry_state().next_id == old(self).registry_state().next_id + 1,
                        _ => false,
                    }
                } else {
                    c is Redraw && final(self).registry_state() == old(self).registry_state()
                },
            },
    {
        let a = self.input.on_key(key);
        match a {
            Action::Stay => {
                self.last_error = None;
                Command::Redraw
            },
            Action::Invalid(e) => {
                self.last_error = Some(e);
                Command::Redraw
            },
            Action::Quit => {
                self.last_error = None;
                let _ = fire(&mut self.fired);
                Command::Shutdown
            },
            Action::Spawn(spec) => {
                self.last_error = None;
                match self.register(spec) {
                    Some((id, args)) => Command::Start { id, args },
                    None => Command::Redraw,
                }
            },
        }
    }

    /// A termination signal arrived: true when this is the first shutdown
    /// request of the session, which the loop then carries out.
    pub fn on_signal(&mut self) -> (first: bool)
        ensures
            final(self).has_fired(),
            first == !old(self).has_fired(),
            final(self).input_state() == old(self).input_state(),
            final(self).registry_state() == old(self).registry_state(),
            final(self).error() == old(self).error(),
    {
        fire(&mut self.fired)
    }

    /// A tunnel's task reported a new phase. A tunnel that is over leaves the
    /// list; any other phase is recorded on its row.
    pub fn on_report(&mut self, id: u64, phase: Phase) -> (found: bool)
        requires
            old(self).wf(),
        ensures
            final(self).wf(),
            final(self).input_state() == old(self).input_state(),
            final(self).has_fired() == old(self).has_fired(),
            final(self).error() == old(self).error(),
            final(self).registry_state().next_id == old(self).registry_state().next_id,
            found == crate::registry::position(old(self).registry_state(), id) is Some,
            match crate::registry::position(old(self).registry_state(), id) {
                Some(k) => if phase == Phase::Exited {
                    final(self).registry_state().rows == old(self).registry_state().rows.remove(k)
                } else {
                    final(self).registry_state().rows == old(self).registry_state().rows.update(
                        k,
                        RowView { phase, ..old(self).registry_state().rows[k] },
                    )
                },
                None => final(self).registry_state() == old(self).registry_state(),
            },
    {
        if phase == Phase::Exited {
            self.registry.remove(id)
        } else {
            self.registry.set_phase(id, phase)
        }
    }

    /// The session may end: shutdown was asked for and no tunnel is pending.
    pub fn finished(&self) -> (r: bool)
        ensures
            r == (self.has_fired() && pending_count(self.registry_state().rows) == 0),
    {
        self.fired && self.registry.pending() == 0
    }
}

} // verus!
