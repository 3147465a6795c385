//! A supervisor together with the files it works on.
//!
//! A [`World`] follows a supervisor through a run: each event that arrives
//! answers the request that was issued last, changes the files as that
//! request says, and makes the supervisor issue the next request.
use crate::error::UpdateError;
use crate::install::{effect, Files};
use crate::protocol::{ActionView, EventView};
use crate::supervisor::{lemma_advance_awaits, SupervisorView};
use vstd::prelude::*;

verus! {

/// A supervisor, the files of its installation, and what it has asked for and
/// reported so far.
pub struct World {
    pub supervisor: SupervisorView,
    pub files: Files,
    /// Every request so far; the last one is not answered yet.
    pub issued: Seq<ActionView>,
    /// Every error reported so far.
    pub reported: Seq<UpdateError>,
}

impl World {
    /// The request that is not answered yet.
    pub open spec fn pending(self) -> ActionView {
        self.issued.last()
    }

    /// The paths of the installation are distinct, and the supervisor waits
    /// for the answer to the request that was issued last.
    pub open spec fn coherent(self) -> bool {
        &&& self.supervisor.paths.distinct()
        &&& self.issued.len() > 0
        &&& self.supervisor.awaits(self.pending())
    }

    /// The world after `event` has arrived. An event that the supervisor does
    /// not accept changes nothing.
    pub open spec fn next(self, event: EventView) -> World {
        match self.supervisor.advance(event) {
            Some((supervisor, step)) => World {
                supervisor,
                files: effect(self.files, self.pending(), event),
                issued: self.issued.push(step.action),
                reported: match step.report {
                    Some(error) => self.reported.push(error),
                    None => self.reported,
                },
            },
            None => self,
        }
    }

    /// The world after `events` have arrived, one after the other.
    pub open spec fn run(self, events: Seq<EventView>) -> World
        decreases events.len(),
    {
        if events.len() == 0 {
            self
        } else {
            self.run(events.drop_last()).next(events.last())
        }
    }
}

/// Running to the end of `events` and then taking `event` is running to the
/// end of `events` with `event` added.
pub proof fn lemma_run_push(world: World, events: Seq<EventView>, event: EventView)
    ensures
        world.run(events.push(event)) == world.run(events).next(event),
{
    assert(events.push(event).drop_last() =~= events);
}

/// Running through two events is taking one and then the other.
pub proof fn lemma_run_two(world: World, first: EventView, second: EventView)
    ensures
        world.run(seq![first, second]) == world.next(first).next(second),
{
    let none = Seq::<EventView>::empty();
    lemma_run_push(world, none, first);
    lemma_run_push(world, none.push(first), second);
    assert(seq![first, second] =~= none.push(first).push(second));
}

/// Running through three events is taking them one after the other.
pub proof fn lemma_run_three(world: World, first: EventView, second: EventView, third: EventView)
    ensures
        world.run(seq![first, second, third]) == world.next(first).next(second).next(third),
{
    lemma_run_two(world, first, second);
    lemma_run_push(world, seq![first, second], third);
    assert(seq![first, second, third] =~= seq![first, second].push(third));
}

/// Running through `first` and then through `second` is running through both.
pub proof fn lemma_run_concat(world: World, first: Seq<EventView>, second: Seq<EventView>)
    ensures
        world.run(first + second) == world.run(first).run(second),
    decreases second.len(),
{
    if second.len() == 0 {
        assert(first + second =~= first);
    } else {
        lemma_run_concat(world, first, second.drop_last());
        assert((first + second).drop_last() =~= first + second.drop_last());
    }
}

/// A coherent world stays coherent, whatever arrives.
pub proof fn lemma_next_coherent(world: World, event: EventView)
    requires
        world.coherent(),
    ensures
        world.next(event).coherent(),
        world.next(event).supervisor.paths == world.supervisor.paths,
        world.next(event).supervisor.app == world.supervisor.app,
{
    lemma_advance_awaits(world.supervisor, event);
}

/// A coherent world stays coherent through any run.
pub proof fn lemma_run_coherent(world: World, events: Seq<EventView>)
    requires
        world.coherent(),
    ensures
        world.run(events).coherent(),
        world.run(events).supervisor.paths == world.supervisor.paths,
        world.run(events).supervisor.app == world.supervisor.app,
    decreases events.len(),
{
    if events.len() > 0 {
        lemma_run_coherent(world, events.drop_last());
        lemma_next_coherent(world.run(events.drop_last()), events.last());
    }
}

} // verus!
