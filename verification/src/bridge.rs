//! The shared engine registry and the engine handle it guards.
//!
//! The registry is the single process-wide slot holding at most one live
//! engine handle; every command — hotkey callback, UI invocation, config
//! sync — reaches the engine through it, one at a time, so no write is lost
//! or torn. The handle is the shell's record of the engine's input channel:
//! the lines handed to the engine so far, in order, and whether the channel
//! is still open. The platform layer performs the actual process write and
//! reports a broken pipe back by closing the handle; a failed write is
//! dropped and logged, never fatal, and a fresh handle installed on engine
//! restart carries on.

use crate::codec;
use crate::codec::{Action, ActionModel};
use vstd::prelude::*;

verus! {

/// Mathematical state of an engine handle: the channel's lines so far and
/// whether it is still open.
pub struct HandleModel {
    pub open: bool,
    pub written: Seq<Seq<u8>>,
}

/// The engine handle: what the core knows of the engine's input channel.
pub struct EngineHandle {
    open: bool,
    written: Vec<Vec<u8>>,
}

impl View for EngineHandle {
    type V = HandleModel;

    closed spec fn view(&self) -> HandleModel {
        HandleModel { open: self.open, written: crate::events::views_of(self.written@) }
    }
}

impl EngineHandle {
    /// A fresh handle for a newly spawned engine: channel open, nothing
    /// written yet.
    pub fn fresh() -> (h: EngineHandle)
        ensures
            h@.open,
            h@.written == Seq::<Seq<u8>>::empty(),
    {
        let h = EngineHandle { open: true, written: Vec::new() };
        proof {
            assert(h@.written =~= Seq::<Seq<u8>>::empty());
        }
        h
    }

    /// Records one line as handed to the engine. The caller writes the same
    /// bytes to the engine process.
    fn record_line(&mut self, line: Vec<u8>)
        requires
            old(self)@.open,
        ensures
            final(self)@.open,
            final(self)@.written == old(self)@.written.push(line@),
    {
        let ghost l = line@;
        let ghost prev = self.written@;
        self.written.push(line);
        proof {
            assert(crate::events::views_of(self.written@) =~= crate::events::views_of(prev).push(
                l,
            ));
        }
    }

    /// Marks the channel broken: the platform layer saw a write fail or the
    /// process exit. Nothing already written is forgotten.
    pub fn close_channel(&mut self)
        ensures
            !final(self)@.open,
            final(self)@.written == old(self)@.written,
    {
        self.open = false;
    }

    /// Whether the channel is still open.
    pub fn is_open(&self) -> (r: bool)
        ensures
            r == self@.open,
    {
        self.open
    }

    /// How many lines the engine has been handed.
    pub fn written_count(&self) -> (n: usize)
        ensures
            n == self@.written.len(),
    {
        self.written.len()
    }

    /// The lines handed to the engine, in order.
    pub fn written_lines(&self) -> (r: &Vec<Vec<u8>>)
        ensures
            crate::events::views_of(r@) == self@.written,
    {
        &self.written
    }
}

/// What one dispatch attempt came to.
#[derive(Clone, Copy, PartialEq, Eq, Structural, Debug)]
pub enum DispatchOutcome {
    /// The line was handed to the engine.
    Written,
    /// The channel is broken; the command was dropped, to be retried by the
    /// user once the engine is back.
    WriteFailed,
    /// No engine is installed; the command was dropped.
    NoEngine,
}

/// One dispatch against the registry's state: encode the action and hand the
/// line to the engine when a handle is present and open; otherwise drop the
/// command and say why. Never an application-level failure.
pub open spec fn dispatch_spec(reg: Option<HandleModel>, a: ActionModel) -> (
    Option<HandleModel>,
    DispatchOutcome,
) {
    match reg {
        None => (None, DispatchOutcome::NoEngine),
        Some(h) => if h.open {
            (
                Some(HandleModel { open: true, written: h.written.push(codec::encode_spec(a)) }),
                DispatchOutcome::Written,
            )
        } else {
            (Some(h), DispatchOutcome::WriteFailed)
        },
    }
}

/// The process-wide slot holding at most one live engine handle. Exclusive
/// access is the caller's side: the platform layer keeps the registry behind
/// its one lock, and every dispatch below is one critical section.
pub struct EngineRegistry {
    slot: Option<EngineHandle>,
}

impl View for EngineRegistry {
    type V = Option<HandleModel>;

    closed spec fn view(&self) -> Option<HandleModel> {
        match self.slot {
            Some(h) => Some(h@),
            None => None,
        }
    }
}

impl EngineRegistry {
    /// The registry as the shell starts: no engine yet.
    pub fn empty() -> (r: EngineRegistry)
        ensures
            r@ is None,
    {
        EngineRegistry { slot: None }
    }

    /// Installs the handle of a newly spawned engine, replacing whatever was
    /// there. Done once per engine instance, after its reader tasks are
    /// attached.
    pub fn install(&mut self, h: EngineHandle)
        ensures
            final(self)@ == Some(h@),
    {
        self.slot = Some(h);
    }

    /// Whether an engine is installed.
    pub fn has_engine(&self) -> (r: bool)
        ensures
            r == (self@ is Some),
    {
        match &self.slot {
            Some(_) => true,
            None => false,
        }
    }

    /// The installed handle, for inspection.
    pub fn engine(&self) -> (r: Option<&EngineHandle>)
        ensures
            match r {
                Some(h) => self@ == Some(h@),
                None => self@ is None,
            },
    {
        match &self.slot {
            Some(h) => Some(h),
            None => None,
        }
    }

    /// Tells the registry the engine's channel broke (a write failed or the
    /// process exited).
    pub fn mark_engine_closed(&mut self)
        ensures
            match old(self)@ {
                Some(h) => final(self)@ == Some(
                    HandleModel { open: false, written: h.written },
                ),
                None => final(self)@ is None,
            },
    {
        match &mut self.slot {
            Some(h) => h.close_channel(),
            None => (),
        }
    }

    /// Dispatches one command: encodes it and hands the line to the engine
    /// when one is present and its channel open; drops it otherwise. The
    /// returned line, when the outcome is `Written`, is what the platform
    /// layer writes to the engine process.
    pub fn dispatch(&mut self, action: &Action) -> (r: (DispatchOutcome, Option<Vec<u8>>))
        ensures
            (final(self)@, r.0) == dispatch_spec(old(self)@, action@),
            match r.1 {
                Some(line) => r.0 == DispatchOutcome::Written && line@ == codec::encode_spec(
                    action@,
                ),
                None => r.0 != DispatchOutcome::Written,
            },
    {
        match &mut self.slot {
            None => (DispatchOutcome::NoEngine, None),
            Some(h) => {
                if h.is_open() {
                    let line = codec::encode(action);
                    let copy = crate::events::clone_bytes(&line);
                    h.record_line(line);
                    (DispatchOutcome::Written, Some(copy))
                } else {
                    (DispatchOutcome::WriteFailed, None)
                }
            },
        }
    }
}

/// The registry's state after a run of commands dispatched in some serial
/// order.
pub open spec fn dispatch_all_spec(reg: Option<HandleModel>, actions: Seq<ActionModel>) -> Option<
    HandleModel,
>
    decreases actions.len(),
{
    if actions.len() == 0 {
        reg
    } else {
        dispatch_all_spec(dispatch_spec(reg, actions[0]).0, actions.skip(1))
    }
}

/// Law: commands from any mix of sources — the hotkey callback, UI
/// invocations, config sync — serialized through the registry's lock land on
/// the engine exactly once each, in dispatch order: no write is lost, none
/// is duplicated, none is torn.
pub proof fn lemma_dispatch_serialized(h: HandleModel, actions: Seq<ActionModel>)
    requires
        h.open,
    ensures
        dispatch_all_spec(Some(h), actions) == Some(
            HandleModel {
                open: true,
                written: h.written + actions.map_values(|a: ActionModel| codec::encode_spec(a)),
            },
        ),
    decreases actions.len(),
{
    let f = |a: ActionModel| codec::encode_spec(a);
    if actions.len() == 0 {
        assert(h.written + actions.map_values(f) =~= h.written);
        assert(dispatch_all_spec(Some(h), actions) == Some(h));
    } else {
        let h1 = HandleModel { open: true, written: h.written.push(codec::encode_spec(actions[0])) };
        lemma_dispatch_serialized(h1, actions.skip(1));
        assert(h1.written + actions.skip(1).map_values(f) =~= h.written + actions.map_values(f));
    }
}

/// Law: a write failure is contained. Against a broken channel every command
/// is dropped with `WriteFailed` — no error escapes, nothing recorded changes
/// — and the next command dispatched once a live engine is back is written as
/// if no failure had happened.
pub proof fn lemma_write_failure_contained(
    broken: HandleModel,
    live: HandleModel,
    a: ActionModel,
    b: ActionModel,
)
    requires
        !broken.open,
        live.open,
    ensures
        dispatch_spec(Some(broken), a) == (Some(broken), DispatchOutcome::WriteFailed),
        dispatch_spec(Some(live), b).1 == DispatchOutcome::Written,
        dispatch_spec(Some(live), b).0 == Some(
            HandleModel { open: true, written: live.written.push(codec::encode_spec(b)) },
        ),
{
}

} // verus!
