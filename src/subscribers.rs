//! The registry of WebSocket subscribers and their boss-name filters.
use vstd::prelude::*;
use vstd::string::*;
use crate::table::Table;
use crate::text::str_eq;

verus! {

/// The subscribers by id, each with the boss names it wants.
pub struct Subscribers {
    pub table: Table<Vec<String>>,
}

/// An inbound WebSocket frame, with the filter its text holds if it is one.
pub enum ClientFrame {
    Text { text: String, request: Option<Vec<String>> },
    Close,
    Other,
}

/// What the server does with an inbound frame.
#[derive(Debug)]
pub enum ClientAction {
    /// Answer with the keepalive reply.
    Pong,
    /// Replace the subscriber's filter.
    UpdateFilter { boss_names: Vec<String> },
    /// Log and keep the connection.
    Ignore,
    /// Drop the subscriber.
    Disconnect,
}

pub open spec fn ping() -> Seq<char> {
    "__PING__"@
}

/// The keepalive request and reply.
pub const PING: &'static str = "__PING__";
pub const PONG: &'static str = "__PONG__";

/// `__PING__` is answered; a filter request replaces the filter; a close
/// drops the subscriber; anything else is ignored.
pub fn client_action(frame: ClientFrame) -> (r: ClientAction)
    ensures
        match frame {
            ClientFrame::Text { text, request } => if text@ == ping() {
                r is Pong
            } else {
                match request {
                    Some(names) => r matches ClientAction::UpdateFilter { boss_names } && boss_names == names,
                    None => r is Ignore,
                }
            },
            ClientFrame::Close => r is Disconnect,
            ClientFrame::Other => r is Ignore,
        },
{
    match frame {
        ClientFrame::Text { text, request } => {
            if str_eq(text.as_str(), "__PING__") {
                ClientAction::Pong
            } else {
                match request {
                    Some(names) => ClientAction::UpdateFilter { boss_names: names },
                    None => ClientAction::Ignore,
                }
            }
        },
        ClientFrame::Close => ClientAction::Disconnect,
        ClientFrame::Other => ClientAction::Ignore,
    }
}

impl Subscribers {
    pub open spec fn wf(&self) -> bool {
        self.table.wf()
    }

    pub open spec fn view(&self) -> Map<Seq<char>, Seq<Seq<char>>> {
        self.table.view()
    }

    pub fn new() -> (r: Subscribers)
        ensures
            r.wf(),
            r.view() == Map::<Seq<char>, Seq<Seq<char>>>::empty(),
    {
        Subscribers { table: Table::new() }
    }

    /// Adds a subscriber that wants nothing yet.
    pub fn register(&mut self, id: String)
        requires
            old(self).wf(),
        ensures
            final(self).wf(),
            final(self).view() == old(self).view().insert(id@, Seq::empty()),
    {
        let empty: Vec<String> = Vec::new();
        assert(empty.deep_view() =~= Seq::<Seq<char>>::empty());
        self.table.insert(id, empty);
    }

    /// Replaces the filter of a registered subscriber; unknown ids change nothing.
    pub fn update_filter(&mut self, id: &str, boss_names: Vec<String>)
        requires
            old(self).wf(),
        ensures
            final(self).wf(),
            old(self).view().contains_key(id@) ==> final(self).view() == old(self).view().insert(
                id@,
                boss_names.deep_view(),
            ),
            !old(self).view().contains_key(id@) ==> final(self).view() == old(self).view(),
    {
        match self.table.find(id) {
            Some(i) => {
                let key = self.table.names[i].clone();
                self.table.insert(key, boss_names);
            },
            None => {},
        }
    }

    /// Drops a subscriber.
    pub fn remove(&mut self, id: &str)
        requires
            old(self).wf(),
        ensures
            final(self).wf(),
            final(self).view() == old(self).view().remove(id@),
    {
        self.table.remove(id);
    }

    /// The ids, in registration order, of the subscribers whose filter holds the name.
    pub fn recipients(&self, boss_name: &str) -> (r: Vec<String>)
        requires
            self.wf(),
        ensures
            r.deep_view() == self.table.names.deep_view().filter(
                |id: Seq<char>| self.view()[id].contains(boss_name@),
            ),
    {
        let ghost pred = |id: Seq<char>| self.view()[id].contains(boss_name@);
        let mut r: Vec<String> = Vec::new();
        let mut i: usize = 0;
        while i < self.table.names.len()
            invariant
                self.wf(),
                i <= self.table.names@.len(),
                pred == (|id: Seq<char>| self.view()[id].contains(boss_name@)),
                r.deep_view() == self.table.names.deep_view().subrange(0, i as int).filter(pred),
            decreases self.table.names@.len() - i,
        {
            let keep = contains_name(&self.table.values[i], boss_name);
            proof {
                let ks = self.table.names.deep_view();
                assert(ks.subrange(0, i + 1) =~= ks.subrange(0, i as int).push(ks[i as int]));
                ks.subrange(0, i as int).lemma_filter_push(ks[i as int], pred);
                assert(self.view()[ks[i as int]] == self.table.values@[i as int].deep_view());
            }
            if keep {
                r.push(self.table.names[i].clone());
            }
            assert(r.deep_view() =~= self.table.names.deep_view().subrange(0, i + 1).filter(pred));
            i = i + 1;
        }
        assert(self.table.names.deep_view().subrange(0, i as int) =~= self.table.names.deep_view());
        r
    }
}

/// Whether a list of names holds the given one.
pub fn contains_name(names: &Vec<String>, name: &str) -> (r: bool)
    ensures
        r == names.deep_view().contains(name@),
{
    let mut i: usize = 0;
    while i < names.len()
        invariant
            i <= names@.len(),
            forall|j: int| 0 <= j < i ==> names@[j]@ != name@,
        decreases names@.len() - i,
    {
        if str_eq(names[i].as_str(), name) {
            assert(names.deep_view()[i as int] == name@);
            return true;
        }
        i = i + 1;
    }
    assert forall|j: int| 0 <= j < names.deep_view().len() implies names.deep_view()[j] != name@ by {
        assert(names.deep_view()[j] == names@[j]@);
    }
    false
}

} // verus!
