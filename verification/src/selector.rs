//! The selector itself: the registry of connected inputs, the switch
//! state, the lifecycle operations, and the node's configuration surface.
//! Every operation's effect is stated as a transition of the ghost model in
//! `model`.

use vstd::prelude::*;
use crate::model::{fresh_record, RecordModel, SelectorModel};
use crate::stream::StickyItem;
use crate::timing::TimeSegment;

verus! {

/// The state kept for one connected input.  Mutated only by that input's
/// own processing task, except for the wait flags, which flush-start may
/// touch from another task.
#[derive(Debug)]
pub struct InputRecord {
    pub id: u32,
    pub last_segment: Option<TimeSegment>,
    pub pending_sticky_resend: bool,
    pub stickies: Vec<StickyItem>,
    pub wait_pending: bool,
    pub wait_cancelled: bool,
}

impl View for InputRecord {
    type V = RecordModel;

    open spec fn view(&self) -> RecordModel {
        RecordModel {
            id: self.id,
            last_segment: self.last_segment,
            pending_sticky_resend: self.pending_sticky_resend,
            stickies: self.stickies@,
            wait_pending: self.wait_pending,
            wait_cancelled: self.wait_cancelled,
        }
    }
}

/// The node's shared state: the active-input selection, the switch flag,
/// the serial counter naming new inputs, and the per-input records in
/// creation order.
#[derive(Debug)]
pub struct InputSelector {
    pub active_input: Option<u32>,
    pub just_switched: bool,
    pub serial: u32,
    pub inputs: Vec<InputRecord>,
}

impl View for InputSelector {
    type V = SelectorModel;

    open spec fn view(&self) -> SelectorModel {
        SelectorModel {
            active_input: self.active_input,
            just_switched: self.just_switched,
            serial: self.serial,
            inputs: self.inputs@.map_values(|r: InputRecord| r@),
        }
    }
}

impl InputSelector {
    pub open spec fn wf(self) -> bool {
        self@.wf()
    }

    /// A fresh node: nothing connected, nothing active, and the switch
    /// flag set so that the very first forwarded buffer is marked
    /// discontinuous.
    pub fn new() -> (r: InputSelector)
        ensures
            r@ == SelectorModel::init(),
            r.wf(),
    {
        let r = InputSelector {
            active_input: Option::None,
            just_switched: true,
            serial: 0,
            inputs: Vec::new(),
        };
        proof {
            assert(r@.inputs =~= SelectorModel::init().inputs);
            assert(r@ =~= SelectorModel::init());
        }
        r
    }

    /// Where input `id` stands in the registry, if it is connected.
    pub fn find_input(&self, id: u32) -> (r: Option<usize>)
        ensures
            match r {
                Option::Some(i) => {
                    &&& self@.has_input(id)
                    &&& i < self.inputs@.len()
                    &&& self@.inputs[i as int].id == id
                    &&& (self@.wf() ==> i as int == self@.idx_of(id))
                },
                Option::None => !self@.has_input(id),
            },
    {
        let n = self.inputs.len();
        let mut i: usize = 0;
        while i < n
            invariant
                n == self.inputs@.len(),
                i <= n,
                forall|j: int| 0 <= j < i ==> self@.inputs[j].id != id,
            decreases n - i,
        {
            if self.inputs[i].id == id {
                proof {
                    assert(self@.inputs[i as int].id == id);
                    if self@.wf() {
                        crate::model::lemma_idx_of(self@, id);
                    }
                }
                return Option::Some(i);
            }
            i = i + 1;
        }
        proof {
            assert forall|j: int| 0 <= j < self@.inputs.len() implies self@.inputs[j].id != id by {
            }
        }
        Option::None
    }

    /// Whether input `id` is currently connected.
    pub fn contains_input(&self, id: u32) -> (r: bool)
        ensures
            r == self@.has_input(id),
    {
        match self.find_input(id) {
            Option::Some(_) => true,
            Option::None => false,
        }
    }

    /// The identity of the currently selected input, if any.
    pub fn active_pad(&self) -> (r: Option<u32>)
        ensures
            r == self@.active_input,
    {
        self.active_input
    }

    /// Whether a switch occurred that no forwarded buffer has consumed yet.
    pub fn switch_pending(&self) -> (r: bool)
        ensures
            r == self@.just_switched,
    {
        self.just_switched
    }

    /// How many inputs are connected.
    pub fn input_count(&self) -> (r: usize)
        ensures
            r == self@.inputs.len(),
    {
        self.inputs.len()
    }

    /// The serial counter: the identity the next connected input gets.
    pub fn next_serial(&self) -> (r: u32)
        ensures
            r == self@.serial,
    {
        self.serial
    }

    /// Selects the active input.  A connected identity becomes active and
    /// marks the switch; an unknown identity leaves the selection as it
    /// was; none deactivates forwarding entirely.
    pub fn set_active(&mut self, pad: Option<u32>)
        requires
            old(self).wf(),
        ensures
            final(self)@ == old(self)@.set_active_next(pad),
            final(self).wf(),
    {
        match pad {
            Option::None => {
                self.active_input = Option::None;
            },
            Option::Some(id) => {
                match self.find_input(id) {
                    Option::Some(_) => {
                        self.active_input = Option::Some(id);
                        self.just_switched = true;
                    },
                    Option::None => {},
                }
            },
        }
    }

    /// Connects a new input: it is named by the serial counter, starts
    /// with a fresh record, and becomes the active input if none was.
    /// Returns its identity.
    pub fn add_input(&mut self) -> (id: u32)
        requires
            old(self).wf(),
            old(self)@.serial < u32::MAX,
        ensures
            id == old(self)@.add_id(),
            final(self)@ == old(self)@.add_next(),
            final(self).wf(),
            final(self)@.has_input(id),
    {
        let id = self.serial;
        if self.active_input.is_none() {
            self.active_input = Option::Some(id);
            self.just_switched = true;
        }
        self.inputs.push(
            InputRecord {
                id: id,
                last_segment: Option::None,
                pending_sticky_resend: true,
                stickies: Vec::new(),
                wait_pending: false,
                wait_cancelled: false,
            },
        );
        self.serial = self.serial + 1;
        proof {
            let pre = old(self)@;
            assert(self@.inputs =~= pre.inputs.push(fresh_record(id)));
            assert(self@ =~= pre.add_next());
            let post = self@;
            assert(post.inputs[post.inputs.len() - 1].id == id);
            assert(post.has_input(id));
            assert forall|i: int, j: int|
                0 <= i < j < post.inputs.len() implies post.inputs[i].id != post.inputs[j].id by {
                if j == post.inputs.len() - 1 {
                    assert(pre.inputs[i].id < pre.serial);
                }
            }
            assert forall|i: int| 0 <= i < post.inputs.len() implies #[trigger] post.inputs[i].id
                < post.serial by {
                if i < post.inputs.len() - 1 {
                    assert(pre.inputs[i].id < pre.serial);
                }
            }
        }
        id
    }

    /// Disconnects input `id` and discards its record.  The selection is
    /// left untouched: removing the active input leaves every remaining
    /// input inactive until a new selection is made.
    pub fn remove_input(&mut self, id: u32)
        requires
            old(self).wf(),
            old(self)@.has_input(id),
        ensures
            final(self)@ == old(self)@.remove_next(id),
            final(self).wf(),
            !final(self)@.has_input(id),
    {
        let i = match self.find_input(id) {
            Option::Some(i) => i,
            Option::None => {
                proof {
                    assert(false);
                }
                0
            },
        };
        proof {
            crate::model::lemma_idx_of(old(self)@, id);
        }
        self.inputs.remove(i);
        proof {
            let pre = old(self)@;
            assert(self@.inputs =~= pre.inputs.remove(pre.idx_of(id)));
            assert(self@ =~= pre.remove_next(id));
            crate::model::lemma_remove_next_frame(pre, id);
        }
    }

    /// Resets the switch state to its default, as the transition out of
    /// the prepared state does: nothing active, switch flag set.  The
    /// registry is untouched; inputs are released separately.
    pub fn reset(&mut self)
        requires
            old(self).wf(),
        ensures
            final(self)@ == old(self)@.reset_next(),
            final(self).wf(),
    {
        self.active_input = Option::None;
        self.just_switched = true;
    }
}

/// The node's configuration, consumed when the node is prepared: the name
/// of the shared execution context to join, and the poll throttle in
/// milliseconds.
#[derive(Debug)]
pub struct Settings {
    pub context: String,
    pub context_wait: u32,
}

impl Settings {
    /// The poll throttle is bounded to one second.
    pub open spec fn wf(self) -> bool {
        self.context_wait <= 1000
    }
}

impl Default for Settings {
    /// The default configuration: a private (unnamed) context and no poll
    /// throttle.
    fn default() -> (r: Settings)
        ensures
            r.context@ == Seq::<char>::empty(),
            r.context_wait == 0,
            r.wf(),
    {
        Settings { context: String::new(), context_wait: 0 }
    }
}

/// A value written to the node's configuration surface.
#[derive(Debug)]
pub enum PropertyValue {
    /// The shared context name.
    Context(String),
    /// The poll throttle in milliseconds, accepted up to 1000.
    ContextWait(u32),
    /// The selected input, under the selection policy of `set_active`.
    ActivePad(Option<u32>),
}

/// The key naming one of the node's configuration values.
#[derive(Clone, Copy, Debug, PartialEq, Eq)]
pub enum PropertyKey {
    Context,
    ContextWait,
    ActivePad,
}

/// Writes one configuration value.  A context name or a selection is always
/// accepted (an unknown selection falls under the permissive no-op policy);
/// a poll throttle beyond its range is rejected and nothing changes.
pub fn set_property(settings: &mut Settings, sel: &mut InputSelector, value: PropertyValue) -> (ok:
    bool)
    requires
        old(settings).wf(),
        old(sel).wf(),
    ensures
        final(settings).wf(),
        final(sel).wf(),
        match value {
            PropertyValue::Context(c) => {
                &&& ok
                &&& final(settings).context@ == c@
                &&& final(settings).context_wait == old(settings).context_wait
                &&& final(sel)@ == old(sel)@
            },
            PropertyValue::ContextWait(w) => {
                &&& ok == (w <= 1000)
                &&& final(settings).context_wait == (if w <= 1000 {
                    w
                } else {
                    old(settings).context_wait
                })
                &&& final(settings).context@ == old(settings).context@
                &&& final(sel)@ == old(sel)@
            },
            PropertyValue::ActivePad(p) => {
                &&& ok
                &&& final(sel)@ == old(sel)@.set_active_next(p)
                &&& final(settings).context@ == old(settings).context@
                &&& final(settings).context_wait == old(settings).context_wait
            },
        },
{
    match value {
        PropertyValue::Context(c) => {
            settings.context = c;
            true
        },
        PropertyValue::ContextWait(w) => {
            if w <= 1000 {
                settings.context_wait = w;
                true
            } else {
                false
            }
        },
        PropertyValue::ActivePad(p) => {
            sel.set_active(p);
            true
        },
    }
}

/// A transition of the node's lifecycle state machine.
#[derive(Clone, Copy, Debug, PartialEq, Eq)]
pub enum StateTransition {
    NullToReady,
    ReadyToPaused,
    PausedToPlaying,
    PlayingToPaused,
    PausedToReady,
    ReadyToNull,
}

/// What a lifecycle transition obliges the node to do.
#[derive(Clone, Copy, Debug, PartialEq, Eq)]
pub struct TransitionPlan {
    /// Acquire the shared execution context and attach the output task.
    pub prepare: bool,
    /// Detach the output task and reset the switch state to its default.
    pub unprepare: bool,
    /// Report no-preroll instead of plain success: this node is live.
    pub no_preroll: bool,
}

/// The decisions of the lifecycle handler: the node prepares on leaving
/// the null state, unprepares on returning to it, and reports no-preroll
/// on the transitions into the paused state.
pub fn transition_plan(t: StateTransition) -> (r: TransitionPlan)
    ensures
        r.prepare == (t is NullToReady),
        r.unprepare == (t is ReadyToNull),
        r.no_preroll == (t is ReadyToPaused || t is PlayingToPaused),
{
    TransitionPlan {
        prepare: match t {
            StateTransition::NullToReady => true,
            _ => false,
        },
        unprepare: match t {
            StateTransition::ReadyToNull => true,
            _ => false,
        },
        no_preroll: match t {
            StateTransition::ReadyToPaused | StateTransition::PlayingToPaused => true,
            _ => false,
        },
    }
}

/// Reads one configuration value back.
pub fn get_property(settings: &Settings, sel: &InputSelector, key: PropertyKey) -> (r:
    PropertyValue)
    ensures
        match key {
            PropertyKey::Context => (r matches PropertyValue::Context(c) && c@
                == settings.context@),
            PropertyKey::ContextWait => r == PropertyValue::ContextWait(settings.context_wait),
            PropertyKey::ActivePad => r == PropertyValue::ActivePad(sel@.active_input),
        },
{
    match key {
        PropertyKey::Context => PropertyValue::Context(settings.context.clone()),
        PropertyKey::ContextWait => PropertyValue::ContextWait(settings.context_wait),
        PropertyKey::ActivePad => PropertyValue::ActivePad(sel.active_pad()),
    }
}

} // verus!
