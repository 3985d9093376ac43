use vstd::prelude::*;
use crate::registry::LampState;

verus! {

/// What the message channel delivers to the bridge.
pub enum BridgeEvent {
    /// A message arrived on `topic`.
    Publish { topic: String },
    /// Any other notice of the channel.
    Other,
    /// The stream of events failed.
    Failed,
}

/// What the bridge does next.
#[derive(Clone, Copy, Debug, PartialEq, Eq, Structural)]
pub enum BridgeAction {
    /// Publish the current state of the lamp at this index to its command topic.
    Push(usize),
    /// Leave every state as it is and wait for the next event.
    Ignore,
    /// End the bridge.
    Stop,
}

impl LampState {
    /// The bridge's decision on one event: a message on a lamp's announce topic
    /// pushes that lamp's state; a failed stream ends the bridge; anything else
    /// is ignored. Where announce topics are unique, the lamp pushed is the one
    /// that announced.
    pub fn on_event(&self, ev: &BridgeEvent) -> (r: BridgeAction)
        ensures
            match ev {
                BridgeEvent::Publish { topic } => match r {
                    BridgeAction::Push(i) => i < self.lamps@.len()
                        && self.lamps@[i as int].topic_connect@ == topic@
                        && forall|j: int|
                        0 <= j < i ==> (#[trigger] self.lamps@[j]).topic_connect@ != topic@,
                    BridgeAction::Ignore => forall|j: int|
                        0 <= j < self.lamps@.len() ==> (#[trigger] self.lamps@[j]).topic_connect@
                            != topic@,
                    BridgeAction::Stop => false,
                },
                BridgeEvent::Other => r == BridgeAction::Ignore,
                BridgeEvent::Failed => r == BridgeAction::Stop,
            },
            ev matches BridgeEvent::Publish { topic } ==> forall|i: int|
                0 <= i < self.lamps@.len() && self.topics_unique()
                    && (#[trigger] self.lamps@[i]).topic_connect@ == topic@ ==> r
                    == BridgeAction::Push(i as usize),
    {
        match ev {
            BridgeEvent::Publish { topic } => match self.find_by_topic(topic.as_str()) {
                Some(i) => BridgeAction::Push(i),
                None => BridgeAction::Ignore,
            },
            BridgeEvent::Other => BridgeAction::Ignore,
            BridgeEvent::Failed => BridgeAction::Stop,
        }
    }
}

} // verus!
