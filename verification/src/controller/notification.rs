//! What controllers tell their subscribers.

use vstd::prelude::*;
use crate::controller::module::Handle as ModuleHandle;
use crate::controller::module::Registry;
use crate::double_representation::definition::DefinitionNameView;
use crate::double_representation::graph::Id;

verus! {

/// What a graph tells its subscribers.
#[derive(Clone, Copy, Debug, PartialEq, Eq, Structural)]
pub enum Graph {
    /// The nodes of the graph may have changed: read them again.
    Invalidate,
}

/// One published notification, with the graph that it concerns.
#[derive(Debug)]
pub struct Event {
    /// The graph concerned; every graph of the module where there is none.
    pub graph: Option<Id>,
    /// What is told.
    pub notification: Graph,
}

/// Mathematical value of a published notification.
pub ghost struct EventView {
    /// The graph concerned; every graph of the module where there is none.
    pub graph: Option<Seq<DefinitionNameView>>,
    /// What is told.
    pub notification: Graph,
}

impl View for Event {
    type V = EventView;

    open spec fn view(&self) -> EventView {
        EventView {
            graph: match self.graph {
                Some(id) => Some(id@),
                None => None,
            },
            notification: self.notification,
        }
    }
}

/// Mathematical value of a list of published notifications.
pub open spec fn events_view(events: Seq<Event>) -> Seq<EventView> {
    events.map_values(|event: Event| event@)
}

/// Whether the notification is meant for the subscribers of the graph.
pub open spec fn concerns(event: EventView, graph: Seq<DefinitionNameView>) -> bool {
    match event.graph {
        Some(id) => id == graph,
        None => true,
    }
}

/// The notifications among those published that are meant for the subscribers of the graph,
/// in the order in which they were published.
pub open spec fn published(log: Seq<EventView>, graph: Seq<DefinitionNameView>) -> Seq<Graph>
    decreases log.len(),
{
    if log.len() == 0 {
        Seq::empty()
    } else if concerns(log[0], graph) {
        seq![log[0].notification] + published(log.skip(1), graph)
    } else {
        published(log.skip(1), graph)
    }
}

impl Event {
    /// Whether the notification is meant for the subscribers of the graph.
    pub fn is_for(&self, graph: &Id) -> (res: bool)
        ensures
            res == concerns(self@, graph@),
    {
        match &self.graph {
            Some(id) => id.same_as(graph),
            None => true,
        }
    }
}

/// A notification published last reaches the subscribers that it concerns after everything
/// published before it, and changes nothing for the others.
pub proof fn lemma_published_push(
    log: Seq<EventView>,
    event: EventView,
    graph: Seq<DefinitionNameView>,
)
    ensures
        published(log.push(event), graph) == if concerns(event, graph) {
            published(log, graph).push(event.notification)
        } else {
            published(log, graph)
        },
    decreases log.len(),
{
    if log.len() == 0 {
        assert(log.push(event).skip(1) =~= Seq::<EventView>::empty());
        assert(published(log.push(event).skip(1), graph) =~= Seq::<Graph>::empty());
        assert(seq![event.notification] + Seq::<Graph>::empty() =~= Seq::<Graph>::empty().push(
            event.notification,
        ));
    } else {
        lemma_published_push(log.skip(1), event, graph);
        assert(log.push(event).skip(1) =~= log.skip(1).push(event));
        if concerns(log[0], graph) {
            if concerns(event, graph) {
                assert(seq![log[0].notification] + published(log.skip(1), graph).push(
                    event.notification,
                ) =~= (seq![log[0].notification] + published(log.skip(1), graph)).push(
                    event.notification,
                ));
            }
        }
    }
}

/// One subscription to the notifications of a graph.
///
/// It sees what is published for its graph after it was made, in the order of publication.
/// Dropping it ends it.
#[derive(Debug)]
pub struct Subscriber {
    /// The module of the graph.
    pub module: ModuleHandle,
    /// The graph in its module.
    pub graph: Id,
    /// How many of the module's notifications are behind this subscription.
    pub position: usize,
}

impl Subscriber {
    /// The notifications that the subscription has yet to see, oldest first.
    pub open spec fn pending(&self, registry: &Registry) -> Seq<Graph> {
        if registry.has(self.module) && self.position <= registry.log(self.module).len() {
            published(registry.log(self.module).skip(self.position as int), self.graph@)
        } else {
            Seq::empty()
        }
    }

    /// Takes the oldest notification that the subscription has yet to see, where there is
    /// one.
    pub fn next(&mut self, registry: &Registry) -> (res: Option<Graph>)
        ensures
            final(self).module == old(self).module,
            final(self).graph == old(self).graph,
            old(self).pending(registry).len() == 0 ==> res is None && final(self).pending(
                registry,
            ).len() == 0,
            old(self).pending(registry).len() > 0 ==> res == Some(old(self).pending(registry)[0])
                && final(self).pending(registry) == old(self).pending(registry).skip(1),
    {
        if self.module.index >= registry.modules.len() {
            return None;
        }
        let events = &registry.modules[self.module.index].events;
        if self.position > events.len() {
            return None;
        }
        let ghost log = registry.log(self.module);
        let mut position = self.position;
        while position < events.len()
            invariant
                self.position <= position <= events.len(),
                *self == *old(self),
                log == events_view(events@),
                log == registry.log(self.module),
                registry.has(self.module),
                published(log.skip(self.position as int), self.graph@) == published(
                    log.skip(position as int),
                    self.graph@,
                ),
            decreases events.len() - position,
        {
            proof {
                assert(log.skip(position as int)[0] == events@[position as int]@);
                assert(log.skip(position as int).skip(1) =~= log.skip(position + 1));
            }
            if events[position].is_for(&self.graph) {
                let notification = events[position].notification;
                self.position = position + 1;
                proof {
                    assert((seq![notification] + published(
                        log.skip(position + 1),
                        self.graph@,
                    )).skip(1) =~= published(log.skip(position + 1), self.graph@));
                }
                return Some(notification);
            }
            position += 1;
        }
        self.position = position;
        proof {
            assert(log.skip(position as int) =~= Seq::<EventView>::empty());
        }
        None
    }
}

} // verus!
