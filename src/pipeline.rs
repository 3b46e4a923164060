use vstd::prelude::*;
use crate::dispatch::{start, Dispatcher};
use crate::message::{format_message, notification_of};
use crate::story::Hit;

verus! {

/// The notifications of the stories `hits` with the given bodies, in the
/// order of the search results.
pub open spec fn notifications(hits: Seq<Hit>, bodies: Seq<Seq<char>>) -> Seq<Seq<char>> {
    Seq::new(bodies.len(), |k: int| notification_of(&hits[k], bodies[k]))
}

/// One run over the stories of a search: each story in turn receives its
/// body, and the notifications are kept in the order of the search results.
pub struct Round {
    hits: Vec<Hit>,
    messages: Vec<String>,
    bodies: Ghost<Seq<Seq<char>>>,
}

impl Round {
    /// The stories of this round, in search order.
    pub closed spec fn hits(&self) -> Seq<Hit> {
        self.hits@
    }

    /// The bodies given so far, one per finished story.
    pub closed spec fn bodies(&self) -> Seq<Seq<char>> {
        self.bodies@
    }

    /// Each finished story has exactly its notification, in order.
    pub closed spec fn wf(&self) -> bool {
        &&& self.bodies@.len() == self.messages@.len()
        &&& self.messages@.len() <= self.hits@.len()
        &&& forall|k: int|
            0 <= k < self.messages@.len() ==> #[trigger] self.messages@[k]@
                == notification_of(&self.hits@[k], self.bodies@[k])
    }

    /// A round over `hits` with no story finished.
    pub fn new(hits: Vec<Hit>) -> (r: Round)
        ensures
            r.wf(),
            r.hits() == hits@,
            r.bodies() == Seq::<Seq<char>>::empty(),
    {
        Round { hits, messages: Vec::new(), bodies: Ghost(Seq::empty()) }
    }

    /// The next story to finish, or `None` once all are finished.
    pub fn current(&self) -> (r: Option<&Hit>)
        requires
            self.wf(),
        ensures
            match r {
                Some(h) => self.bodies().len() < self.hits().len() && *h == self.hits()[self.bodies().len() as int],
                None => self.bodies().len() == self.hits().len(),
            },
    {
        if self.messages.len() < self.hits.len() {
            Some(&self.hits[self.messages.len()])
        } else {
            None
        }
    }

    /// Finishes the current story with `body`, its summary or page text.
    pub fn complete(&mut self, body: &str)
        requires
            old(self).wf(),
            old(self).bodies().len() < old(self).hits().len(),
        ensures
            final(self).wf(),
            final(self).hits() == old(self).hits(),
            final(self).bodies() == old(self).bodies().push(body@),
    {
        let k = self.messages.len();
        let m = format_message(&self.hits[k], body);
        self.messages.push(m);
        self.bodies = Ghost(self.bodies@.push(body@));
    }

    /// Hands the notifications over for delivery, in search order.
    pub fn into_dispatcher(self) -> (d: Dispatcher)
        requires
            self.wf(),
            self.bodies().len() == self.hits().len(),
        ensures
            d.wf(),
            d@ == start(notifications(self.hits(), self.bodies())),
    {
        let ghost hits = self.hits@;
        let ghost bodies = self.bodies@;
        let ghost msgs = self.messages@;
        let d = Dispatcher::new(self.messages);
        assert(Seq::new(msgs.len(), |k: int| msgs[k]@) =~= notifications(hits, bodies));
        d
    }
}

} // verus!
