//! Replicated state: the message envelope, the bounded history of chat
//! items, the participant-name map, and the merge algorithm that
//! reconciles a received snapshot into the local state.

use vstd::prelude::*;
use crate::history::History;
use crate::participants::{map_of, unique_keys, lemma_map_of_dom, Participants};

verus! {

/// The kind tag of an envelope: a user-visible chat message, or a
/// serialized full state dump.
#[derive(Clone, Copy, Debug, PartialEq, Eq, Structural)]
pub enum MessageType {
    /// The payload is UTF-8 chat text.
    Message,
    /// The payload is a serialized state snapshot.
    State,
}

/// The unit exchanged between peers: a tagged payload with an optional
/// addressee and the identifier of the originating peer.
pub struct Message {
    pub message_type: MessageType,
    pub data: Vec<u8>,
    pub addressee: Option<String>,
    pub source: String,
}

/// The abstract value of a [`Message`].
pub ghost struct MessageView {
    pub message_type: MessageType,
    pub data: Seq<u8>,
    pub addressee: Option<Seq<char>>,
    pub source: Seq<char>,
}

impl View for Message {
    type V = MessageView;

    open spec fn view(&self) -> MessageView {
        MessageView {
            message_type: self.message_type,
            data: self.data@,
            addressee: match self.addressee {
                Some(s) => Some(s@),
                None => None,
            },
            source: self.source@,
        }
    }
}

impl Clone for Message {
    fn clone(&self) -> (res: Self)
        ensures
            res@ == self@,
    {
        let res = Message {
            message_type: self.message_type,
            data: self.data.clone(),
            addressee: match &self.addressee {
                Some(s) => Some(s.clone()),
                None => None,
            },
            source: self.source.clone(),
        };
        proof {
            assert(res.data@ =~= self.data@);
        }
        res
    }
}

impl Message {
    /// A chat envelope carrying `data` from `source`, addressed to every
    /// subscriber.
    pub fn new_chat(data: Vec<u8>, source: String) -> (m: Message)
        ensures
            m@ == (MessageView {
                message_type: MessageType::Message,
                data: data@,
                addressee: None,
                source: source@,
            }),
    {
        Message { message_type: MessageType::Message, data, addressee: None, source }
    }

    /// A snapshot envelope carrying the serialized state `payload` from
    /// `source`, addressed to `to`.
    pub fn new_snapshot(payload: Vec<u8>, to: String, source: String) -> (m: Message)
        ensures
            m@ == (MessageView {
                message_type: MessageType::State,
                data: payload@,
                addressee: Some(to@),
                source: source@,
            }),
    {
        Message { message_type: MessageType::State, data: payload, addressee: Some(to), source }
    }
}

/// The abstract values of a sequence of messages.
pub open spec fn message_views(s: Seq<Message>) -> Seq<MessageView> {
    s.map_values(|m: Message| m@)
}

/// The participant map an entry list denotes when inserted in order with
/// first-writer-wins: an entry whose key is already present is ignored.
pub open spec fn first_wins(s: Seq<(String, String)>) -> Map<Seq<char>, Seq<char>>
    decreases s.len(),
{
    if s.len() == 0 {
        Map::empty()
    } else {
        let m = first_wins(s.drop_last());
        if m.dom().contains(s.last().0@) {
            m
        } else {
            m.insert(s.last().0@, s.last().1@)
        }
    }
}

/// What merging `incoming` participants into `local` yields: every
/// participant of either side, a key already present locally never
/// overwritten.
pub open spec fn merged_usernames(
    local: Map<Seq<char>, Seq<char>>,
    incoming: Map<Seq<char>, Seq<char>>,
) -> Map<Seq<char>, Seq<char>> {
    incoming.union_prefer_right(local)
}

/// One peer's view of the chat: the bounded history of chat items, the
/// participant-name map, and a liveness tick counter.
pub struct State {
    pub history: History<Message>,
    pub usernames: Participants,
    pub counter_tick: u64,
}

impl State {
    /// Well-formedness of both owned components.
    pub open spec fn wf(self) -> bool {
        &&& self.history.wf()
        &&& self.usernames.wf()
    }

    /// A fresh state, seeded with the local peer's own display name.
    pub fn new(peer_id: String, username: String) -> (r: State)
        ensures
            r.wf(),
            r.usernames@ == Map::<Seq<char>, Seq<char>>::empty().insert(peer_id@, username@),
            r.history.pushes() == Seq::<Message>::empty(),
            r.counter_tick == 0,
    {
        let mut usernames = Participants::new();
        let _ = usernames.insert(peer_id, username);
        State { history: History::new(), usernames, counter_tick: 0 }
    }

    /// Rebuilds a state from plain parts: the history items in slot
    /// order, the participant entries (inserted first-writer-wins), and
    /// the tick counter.
    pub fn from_parts(items: Vec<Message>, entries: Vec<(String, String)>, counter_tick: u64) -> (r:
        State)
        ensures
            r.wf(),
            r.history.pushes() == items@,
            r.usernames@ == first_wins(entries@),
            r.counter_tick == counter_tick,
    {
        let ghost ent = entries@;
        let mut usernames = Participants::new();
        let n = entries.len();
        let mut i: usize = 0;
        while i < n
            invariant
                usernames.wf(),
                n == ent.len(),
                entries@ == ent,
                i <= n,
                usernames@ == first_wins(ent.take(i as int)),
            decreases n - i,
        {
            let id = entries[i].0.clone();
            let name = entries[i].1.clone();
            let _ = usernames.insert(id, name);
            proof {
                let ii = i as int;
                let t1 = ent.take(ii + 1);
                assert(t1.drop_last() =~= ent.take(ii));
                assert(t1.last() == ent[ii]);
            }
            i = i + 1;
        }
        proof {
            assert(ent.take(n as int) =~= ent);
        }
        State { history: History::from_items(items), usernames, counter_tick }
    }

    /// Reconciles a received snapshot into the local state: every
    /// participant of `other` not yet known is added (a key already
    /// present locally is never overwritten), and when the local history
    /// is still empty and the incoming one is not, the incoming history
    /// is adopted wholesale, in its stored order. The merge is
    /// deliberately asymmetric: two non-empty, divergent histories are
    /// not reconciled.
    pub fn merge(&mut self, other: State)
        requires
            old(self).wf(),
            other.wf(),
        ensures
            final(self).wf(),
            final(self).usernames@ == merged_usernames(old(self).usernames@, other.usernames@),
            final(self).counter_tick == old(self).counter_tick,
            if old(self).history.spec_len() == 0 && other.history.spec_len() > 0 {
                message_views(final(self).history.pushes()) == message_views(
                    other.history.visible(),
                )
            } else {
                final(self).history == old(self).history
            },
    {
        let State { history: other_history, usernames: other_usernames, counter_tick: _ } = other;
        let entries = other_usernames.into_entries();
        let ghost ent = entries@;
        let ghost old_map = old(self).usernames@;
        let n = entries.len();
        let mut i: usize = 0;
        while i < n
            invariant
                self.usernames.wf(),
                self.history == old(self).history,
                self.history.wf(),
                self.counter_tick == old(self).counter_tick,
                n == ent.len(),
                entries@ == ent,
                unique_keys(ent),
                map_of(ent) == other.usernames@,
                i <= n,
                self.usernames@ == map_of(ent.take(i as int)).union_prefer_right(old_map),
            decreases n - i,
        {
            let id = entries[i].0.clone();
            let name = entries[i].1.clone();
            let added = self.usernames.insert(id, name);
            proof {
                let ii = i as int;
                let t0 = ent.take(ii);
                let t1 = ent.take(ii + 1);
                assert(t1.drop_last() =~= t0);
                assert(t1.last() == ent[ii]);
                if !added {
                    // The key is already in the union; by uniqueness of the
                    // incoming keys it cannot come from the prefix, so it is
                    // local, and both sides of the step leave it untouched.
                    if map_of(t0).dom().contains(ent[ii].0@) {
                        lemma_map_of_dom(t0);
                        let key = ent[ii].0@;
                        let p = choose|p: int| 0 <= p < t0.len() && (#[trigger] t0[p]).0@ == key;
                        assert(ent[p] == t0[p]);
                        assert(false);
                    }
                    assert(old_map.dom().contains(ent[ii].0@));
                }
                assert(self.usernames@ =~= map_of(t1).union_prefer_right(old_map));
            }
            i = i + 1;
        }
        proof {
            assert(ent.take(n as int) =~= ent);
        }
        if self.history.get_count() < 1 && other_history.get_count() > 0 {
            let items = other_history.get_all();
            proof {
                assert forall|p: int| 0 <= p < items@.len() implies items@[p]@
                    == other_history.visible()[p]@ by {
                    assert(cloned::<Message>(other_history.spec_at(p), items@[p]));
                }
            }
            self.history = History::from_items(items);
            proof {
                assert(message_views(self.history.pushes()) =~= message_views(
                    other.history.visible(),
                ));
            }
        }
    }

    /// The display name entered for `usr`, or the placeholder shown for
    /// an unknown peer.
    pub fn get_username(&self, usr: &String) -> (r: String)
        requires
            self.wf(),
        ensures
            r@ == if self.usernames@.dom().contains(usr@) {
                self.usernames@[usr@]
            } else {
                "n/d"@
            },
    {
        match self.usernames.get(usr) {
            Some(name) => name.clone(),
            None => "n/d".to_owned(),
        }
    }

    /// Appends a locally produced chat item to the history.
    pub fn record_local(&mut self, item: Message)
        requires
            old(self).wf(),
        ensures
            final(self).wf(),
            final(self).history.pushes() == old(self).history.pushes().push(item),
            final(self).usernames == old(self).usernames,
            final(self).counter_tick == old(self).counter_tick,
    {
        self.history.push(item);
    }

    /// Appends a chat item received from another peer to the history and
    /// resolves the sender's display name, for presentation only.
    pub fn record_remote(&mut self, item: Message) -> (shown: String)
        requires
            old(self).wf(),
        ensures
            final(self).wf(),
            final(self).history.pushes() == old(self).history.pushes().push(item),
            final(self).usernames == old(self).usernames,
            final(self).counter_tick == old(self).counter_tick,
            shown@ == if old(self).usernames@.dom().contains(item.source@) {
                old(self).usernames@[item.source@]
            } else {
                "n/d"@
            },
    {
        let shown = self.get_username(&item.source);
        self.history.push(item);
        shown
    }

    /// Advances the liveness tick counter; saturates instead of wrapping,
    /// so it never fails.
    pub fn incr_tick(&mut self)
        requires
            old(self).wf(),
        ensures
            final(self).wf(),
            old(self).counter_tick < u64::MAX ==> final(self).counter_tick == old(
                self,
            ).counter_tick + 1,
            old(self).counter_tick == u64::MAX ==> final(self).counter_tick == old(
                self,
            ).counter_tick,
            final(self).history == old(self).history,
            final(self).usernames == old(self).usernames,
    {
        if self.counter_tick < u64::MAX {
            self.counter_tick = self.counter_tick + 1;
        }
    }

    /// The tick counter, when at least one tick has been observed.
    pub fn count_tick(&self) -> (r: Option<u64>)
        ensures
            match r {
                Some(c) => c == self.counter_tick && c > 0,
                None => self.counter_tick == 0,
            },
    {
        if self.counter_tick > 0 {
            Some(self.counter_tick)
        } else {
            None
        }
    }

    /// Merging is idempotent for the participant map when the incoming
    /// participants are a subset of the local ones: together with the
    /// history clause of [`State::merge`] for a non-empty local history,
    /// the local state is unchanged by such a merge.
    pub proof fn lemma_merge_idempotent(
        local: Map<Seq<char>, Seq<char>>,
        incoming: Map<Seq<char>, Seq<char>>,
    )
        requires
            incoming.dom().subset_of(local.dom()),
        ensures
            merged_usernames(local, incoming) == local,
    {
        assert(merged_usernames(local, incoming) =~= local);
    }
}

} // verus!
