//! The global-hotkey dispatcher: a state machine over the one key
//! combination registered with the operating system.
//!
//! Parsing a combination string and talking to the OS registry are the
//! platform layer's work; it reports the outcomes (did the string parse, did
//! the registration succeed) and the dispatcher decides the binding state and
//! the commands that key transitions produce. Rebinding always unregisters
//! the old combination before registering the new one; a parse failure
//! rejects the request outright and keeps the old binding, while a
//! registration failure leaves nothing bound rather than silently keeping a
//! combination the OS no longer has.

use crate::codec::{Action, ActionModel};
use vstd::prelude::*;

verus! {

/// A parsed key combination, as plain values: modifier flags and a key code.
#[derive(Clone, Copy, PartialEq, Eq, Structural, Debug)]
pub struct Combo {
    pub mods: u32,
    pub code: u32,
}

/// Why a rebind request failed.
#[derive(Clone, Copy, PartialEq, Eq, Structural, Debug)]
pub enum BindError {
    /// The combination string did not parse; the previous binding is intact.
    Parse,
    /// The operating system refused the registration; nothing is bound.
    Register,
}

/// A key transition reported by the platform hotkey callback.
#[derive(Clone, Copy, PartialEq, Eq, Structural, Debug)]
pub enum KeyTransition {
    Pressed,
    Released,
}

/// The binding after one rebind request, given the parse and registration
/// outcomes.
pub open spec fn rebind_result(
    before: Option<Combo>,
    parsed: Option<Combo>,
    register_ok: bool,
) -> Option<Combo> {
    match parsed {
        None => before,
        Some(c) => if register_ok {
            Some(c)
        } else {
            None
        },
    }
}

/// The command a key transition produces: the bound combination starts
/// recording on press and stops it on release; any other combination is
/// ignored.
pub open spec fn transition_spec(
    binding: Option<Combo>,
    combo: Combo,
    t: KeyTransition,
) -> Option<ActionModel> {
    if binding == Some(combo) {
        match t {
            KeyTransition::Pressed => Some(ActionModel::StartRecording),
            KeyTransition::Released => Some(ActionModel::StopRecording),
        }
    } else {
        None
    }
}

/// The combination used at startup: the persisted one when it parsed, else
/// the documented default.
pub open spec fn chosen_combo(persisted: Option<Combo>, fallback: Combo) -> Combo {
    match persisted {
        Some(c) => c,
        None => fallback,
    }
}

/// The hotkey dispatcher: remembers the one combination currently registered
/// with the operating system, if any.
pub struct Dispatcher {
    active: Option<Combo>,
}

impl Dispatcher {
    /// The combination currently bound, if any. At most one is ever bound.
    pub closed spec fn binding(&self) -> Option<Combo> {
        self.active
    }

    /// A dispatcher with nothing bound, as the shell starts.
    pub fn unbound() -> (d: Dispatcher)
        ensures
            d.binding() is None,
    {
        Dispatcher { active: None }
    }

    /// The currently bound combination, for display to the user.
    pub fn current_binding(&self) -> (r: Option<Combo>)
        ensures
            r == self.binding(),
    {
        self.active
    }

    /// Applies one rebind request. `parsed` is the outcome of parsing the
    /// requested combination string; `register_ok` the outcome of the OS
    /// registration of the new combination, performed after the old one was
    /// unregistered. A parse failure keeps the old binding; a registration
    /// failure leaves nothing bound and surfaces the error.
    pub fn apply_rebind(&mut self, parsed: Option<Combo>, register_ok: bool) -> (r: Result<
        (),
        BindError,
    >)
        ensures
            final(self).binding() == rebind_result(old(self).binding(), parsed, register_ok),
            r is Ok <==> (parsed is Some && register_ok),
            parsed is None ==> r == Err::<(), BindError>(BindError::Parse),
            parsed is Some && !register_ok ==> r == Err::<(), BindError>(BindError::Register),
    {
        match parsed {
            None => Err(BindError::Parse),
            Some(c) => {
                if register_ok {
                    self.active = Some(c);
                    Ok(())
                } else {
                    self.active = None;
                    Err(BindError::Register)
                }
            },
        }
    }

    /// Applies the startup binding: the persisted combination when it
    /// parsed, else the fallback; when even that fails to register the shell
    /// keeps running with no hotkey, and the caller publishes a diagnostic.
    pub fn bind_startup(&mut self, persisted: Option<Combo>, fallback: Combo, register_ok: bool)
        ensures
            register_ok ==> final(self).binding() == Some(chosen_combo(persisted, fallback)),
            !register_ok ==> final(self).binding() is None,
    {
        let c = match persisted {
            Some(c) => c,
            None => fallback,
        };
        if register_ok {
            self.active = Some(c);
        } else {
            self.active = None;
        }
    }

    /// The command one key transition produces, given which combination the
    /// platform reported. Transitions of any combination other than the
    /// bound one are ignored.
    pub fn on_transition(&self, combo: Combo, t: KeyTransition) -> (r: Option<Action>)
        ensures
            match r {
                Some(a) => transition_spec(self.binding(), combo, t) == Some(a@),
                None => transition_spec(self.binding(), combo, t) is None,
            },
    {
        match &self.active {
            Some(c) => {
                if *c == combo {
                    match t {
                        KeyTransition::Pressed => Some(Action::StartRecording),
                        KeyTransition::Released => Some(Action::StopRecording),
                    }
                } else {
                    None
                }
            },
            None => None,
        }
    }
}

/// The binding after a run of rebind requests, every one parsed and
/// registered successfully.
pub open spec fn rebind_all(start: Option<Combo>, combos: Seq<Combo>) -> Option<Combo>
    decreases combos.len(),
{
    if combos.len() == 0 {
        start
    } else {
        rebind_all(rebind_result(start, Some(combos[0]), true), combos.skip(1))
    }
}

pub proof fn lemma_rebind_all_step(start: Option<Combo>, combos: Seq<Combo>, c: Combo)
    ensures
        rebind_all(start, combos.push(c)) == Some(c),
    decreases combos.len(),
{
    if combos.len() == 0 {
        assert(combos.push(c)[0] == c);
        assert(combos.push(c).skip(1) =~= Seq::<Combo>::empty());
        assert(rebind_all(Some(c), Seq::<Combo>::empty()) == Some(c));
    } else {
        assert(combos.push(c)[0] == combos[0]);
        assert(combos.push(c).skip(1) =~= combos.skip(1).push(c));
        lemma_rebind_all_step(rebind_result(start, Some(combos[0]), true), combos.skip(1), c);
    }
}

/// Law: however many times the hotkey is rebound in sequence, with every
/// registration succeeding, exactly one combination is bound after every
/// step — the one most recently requested — never two and never none.
pub proof fn lemma_rebind_sequence(start: Option<Combo>, combos: Seq<Combo>)
    ensures
        forall|i: int|
            1 <= i <= combos.len() ==> #[trigger] rebind_all(start, combos.take(i)) == Some(
                combos[i - 1],
            ),
{
    assert forall|i: int| 1 <= i <= combos.len() implies #[trigger] rebind_all(
        start,
        combos.take(i),
    ) == Some(combos[i - 1]) by {
        assert(combos.take(i) =~= combos.take(i - 1).push(combos[i - 1]));
        lemma_rebind_all_step(start, combos.take(i - 1), combos[i - 1]);
    }
}

/// Law: a rebind request whose combination string fails to parse changes
/// nothing — the previous binding stays active and every key transition
/// still produces the same command as before the attempt.
pub proof fn lemma_failed_parse_keeps_binding(
    before: Option<Combo>,
    register_ok: bool,
    combo: Combo,
    t: KeyTransition,
)
    ensures
        rebind_result(before, None, register_ok) == before,
        transition_spec(rebind_result(before, None, register_ok), combo, t) == transition_spec(
            before,
            combo,
            t,
        ),
{
}

} // verus!
