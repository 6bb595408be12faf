//! Dispatch glue: the single owner of the replicated state. Inbound
//! network events and user intents are routed through it; every state
//! mutation and every outbound envelope originates here.

use vstd::prelude::*;
use crate::action::{conflict_free, Action, Actions};
use crate::inputs::Key;
use crate::state::{message_views, Message, MessageType, MessageView, State};

verus! {

/// Whether the event loop should continue or exit.
#[derive(Debug, Clone, Copy, PartialEq, Eq, Structural)]
pub enum AppReturn {
    Exit,
    Continue,
}

/// An inbound network event, decoded to plain values.
pub enum NetEvent {
    /// A peer appeared on the local network.
    Discovered(String),
    /// A previously discovered peer expired.
    Expired(String),
    /// A chat envelope arrived.
    Chat(Message),
    /// A snapshot envelope arrived, with the state its payload decodes
    /// to.
    Snapshot(Message, State),
    /// An envelope or its snapshot payload failed to decode; it is
    /// dropped without touching the state.
    Malformed,
    /// A peer subscribed to the topic.
    Subscribed(String),
    /// A peer unsubscribed from the topic.
    Unsubscribed(String),
}

/// What the transport layer should do next.
#[derive(Debug, PartialEq, Eq)]
pub enum NetCommand {
    /// Add the peer to the broadcast view.
    AddPeer(String),
    /// Remove the peer from the broadcast view.
    RemovePeer(String),
    /// Serialize the full local state into a snapshot envelope addressed
    /// to the peer, and broadcast it.
    SendState { to: String },
}

/// What the presentation layer should show.
#[derive(Debug, PartialEq, Eq)]
pub enum Notice {
    /// A chat item arrived: the resolved sender name and the raw text.
    MessageShown { name: String, data: Vec<u8> },
    /// A peer left the chat: the farewell name.
    PeerLeft { name: String },
}

/// The single owner of the replicated state, the local peer identifier,
/// and the enabled action table.
pub struct Chat {
    pub state: State,
    pub peer_id: String,
    pub actions: Actions,
}

impl Chat {
    /// Well-formedness: the owned components are well-formed, the local
    /// peer always has a participant entry, and the enabled actions are
    /// free of binding conflicts.
    pub open spec fn wf(self) -> bool {
        &&& self.state.wf()
        &&& self.state.usernames@.dom().contains(self.peer_id@)
        &&& conflict_free(self.actions.enabled())
    }

    /// A fresh session: the local peer is seeded into the participant
    /// map, the history is empty, and the given action table is active.
    pub fn new(peer_id: String, username: String, actions: Actions) -> (r: Chat)
        requires
            conflict_free(actions.enabled()),
        ensures
            r.wf(),
            r.peer_id == peer_id,
            r.actions == actions,
            r.state.usernames@ == Map::<Seq<char>, Seq<char>>::empty().insert(
                peer_id@,
                username@,
            ),
            r.state.history.pushes() == Seq::<Message>::empty(),
            r.state.counter_tick == 0,
    {
        let pid = peer_id.clone();
        let state = State::new(peer_id, username);
        Chat { state, peer_id: pid, actions }
    }

    /// Whether the envelope is addressed to a peer other than this one,
    /// in which case it must be dropped.
    pub open spec fn addressed_elsewhere(self, m: Message) -> bool {
        match m.addressee {
            Some(a) => a@ != self.peer_id@,
            None => false,
        }
    }

    /// Routes one inbound network event: applies the state mutation the
    /// event calls for and hands back the transport command and the
    /// presentation notice it produces, if any.
    pub fn handle_net_event(&mut self, ev: NetEvent) -> (r: (Option<NetCommand>, Option<Notice>))
        requires
            old(self).wf(),
            match ev {
                NetEvent::Snapshot(_, other) => other.wf(),
                _ => true,
            },
        ensures
            final(self).wf(),
            final(self).peer_id == old(self).peer_id,
            final(self).actions == old(self).actions,
            match ev {
                NetEvent::Discovered(p) => {
                    &&& final(self).state == old(self).state
                    &&& r.0 == Some(NetCommand::AddPeer(p))
                    &&& r.1 is None
                },
                NetEvent::Expired(p) => {
                    &&& final(self).state == old(self).state
                    &&& r.0 == Some(NetCommand::RemovePeer(p))
                    &&& r.1 is None
                },
                NetEvent::Chat(m) => if old(self).addressed_elsewhere(m) {
                    &&& final(self).state == old(self).state
                    &&& r.0 is None
                    &&& r.1 is None
                } else {
                    &&& final(self).state.history.pushes() == old(
                        self,
                    ).state.history.pushes().push(m)
                    &&& final(self).state.usernames == old(self).state.usernames
                    &&& final(self).state.counter_tick == old(self).state.counter_tick
                    &&& r.0 is None
                    &&& match r.1 {
                        Some(Notice::MessageShown { name, data }) => {
                            &&& name@ == (if old(self).state.usernames@.dom().contains(m.source@) {
                                old(self).state.usernames@[m.source@]
                            } else {
                                "n/d"@
                            })
                            &&& data@ == m.data@
                        },
                        _ => false,
                    }
                },
                NetEvent::Snapshot(m, other) => if old(self).addressed_elsewhere(m) {
                    &&& final(self).state == old(self).state
                    &&& r.0 is None
                    &&& r.1 is None
                } else {
                    &&& final(self).state.usernames@ == crate::state::merged_usernames(
                        old(self).state.usernames@,
                        other.usernames@,
                    )
                    &&& final(self).state.counter_tick == old(self).state.counter_tick
                    &&& (if old(self).state.history.spec_len() == 0 && other.history.spec_len()
                        > 0 {
                        message_views(final(self).state.history.pushes()) == message_views(
                            other.history.visible(),
                        )
                    } else {
                        final(self).state.history == old(self).state.history
                    })
                    &&& r.0 is None
                    &&& r.1 is None
                },
                NetEvent::Malformed => {
                    &&& final(self).state == old(self).state
                    &&& r.0 is None
                    &&& r.1 is None
                },
                NetEvent::Subscribed(p) => {
                    &&& final(self).state == old(self).state
                    &&& r.0 == Some(NetCommand::SendState { to: p })
                    &&& r.1 is None
                },
                NetEvent::Unsubscribed(p) => if p@ == old(self).peer_id@ {
                    &&& final(self).state == old(self).state
                    &&& r.0 is None
                    &&& r.1 is None
                } else {
                    &&& final(self).state.usernames@ == old(self).state.usernames@.remove(p@)
                    &&& final(self).state.history == old(self).state.history
                    &&& final(self).state.counter_tick == old(self).state.counter_tick
                    &&& r.0 is None
                    &&& match r.1 {
                        Some(Notice::PeerLeft { name }) => name@ == (if old(
                            self,
                        ).state.usernames@.dom().contains(p@) {
                            old(self).state.usernames@[p@]
                        } else {
                            "Anon"@
                        }),
                        _ => false,
                    }
                },
            },
    {
        match ev {
            NetEvent::Discovered(p) => (Some(NetCommand::AddPeer(p)), None),
            NetEvent::Expired(p) => (Some(NetCommand::RemovePeer(p)), None),
            NetEvent::Chat(m) => {
                let to_other = match &m.addressee {
                    Some(a) => !(*a == self.peer_id),
                    None => false,
                };
                if to_other {
                    (None, None)
                } else {
                    let data = m.data.clone();
                    let name = self.state.record_remote(m);
                    proof {
                        assert(data@ =~= m.data@);
                    }
                    (None, Some(Notice::MessageShown { name, data }))
                }
            },
            NetEvent::Snapshot(m, other) => {
                let to_other = match &m.addressee {
                    Some(a) => !(*a == self.peer_id),
                    None => false,
                };
                if to_other {
                    (None, None)
                } else {
                    self.state.merge(other);
                    (None, None)
                }
            },
            NetEvent::Malformed => (None, None),
            NetEvent::Subscribed(p) => (Some(NetCommand::SendState { to: p }), None),
            NetEvent::Unsubscribed(p) => {
                if p == self.peer_id {
                    (None, None)
                } else {
                    match self.state.usernames.remove(&p) {
                        Some(name) => (None, Some(Notice::PeerLeft { name })),
                        None => (None, Some(Notice::PeerLeft { name: "Anon".to_owned() })),
                    }
                }
            },
        }
    }

    /// Builds the chat envelope for locally entered text, appends it to
    /// the local history, and hands it back for broadcast.
    pub fn do_send(&mut self, data: Vec<u8>) -> (env: Message)
        requires
            old(self).wf(),
        ensures
            final(self).wf(),
            final(self).peer_id == old(self).peer_id,
            final(self).actions == old(self).actions,
            env@ == (MessageView {
                message_type: MessageType::Message,
                data: data@,
                addressee: None,
                source: old(self).peer_id@,
            }),
            message_views(final(self).state.history.pushes()) == message_views(
                old(self).state.history.pushes(),
            ).push(env@),
            final(self).state.usernames == old(self).state.usernames,
            final(self).state.counter_tick == old(self).state.counter_tick,
    {
        let source = self.peer_id.clone();
        let env = Message::new_chat(data, source);
        let copy = env.clone();
        self.state.record_local(copy);
        proof {
            assert(message_views(self.state.history.pushes()) =~= message_views(
                old(self).state.history.pushes(),
            ).push(env@));
        }
        env
    }

    /// Decides what a key press does: the session ends exactly when the
    /// key fires the quit action; every other key continues it.
    pub fn do_action(&self, key: Key) -> (r: AppReturn)
        ensures
            (r == AppReturn::Exit) <==> (self.actions.enabled().contains(Action::Quit)
                && Action::Quit.spec_keys().contains(key)),
    {
        match self.actions.find(key) {
            Some(a) => match a {
                Action::Quit => AppReturn::Exit,
                Action::Send => {
                    proof {
                        let i = choose|i: int|
                            {
                                &&& 0 <= i < Action::spec_all().len()
                                &&& Action::spec_all()[i] == Action::Send
                                &&& (forall|j: int|
                                    0 <= j < i ==> !(self.actions.enabled().contains(
                                        #[trigger] Action::spec_all()[j],
                                    ) && Action::spec_all()[j].spec_keys().contains(key)))
                            };
                        assert(Action::spec_all()[0] == Action::Quit);
                        assert(i == 1);
                    }
                    AppReturn::Continue
                },
            },
            None => AppReturn::Continue,
        }
    }

    /// Advances the liveness tick; the session always continues.
    pub fn update_on_tick(&mut self) -> (r: AppReturn)
        requires
            old(self).wf(),
        ensures
            final(self).wf(),
            final(self).peer_id == old(self).peer_id,
            final(self).actions == old(self).actions,
            final(self).state.history == old(self).state.history,
            final(self).state.usernames == old(self).state.usernames,
            old(self).state.counter_tick < u64::MAX ==> final(self).state.counter_tick == old(
                self,
            ).state.counter_tick + 1,
            old(self).state.counter_tick == u64::MAX ==> final(self).state.counter_tick == old(
                self,
            ).state.counter_tick,
            r == AppReturn::Continue,
    {
        self.state.incr_tick();
        AppReturn::Continue
    }

    /// The active action table.
    pub fn actions(&self) -> (r: &Actions)
        ensures
            r.enabled() == self.actions.enabled(),
    {
        &self.actions
    }

    /// Builds the snapshot envelope that carries this peer's serialized
    /// state `payload` to `to`.
    pub fn snapshot_envelope(&self, to: String, payload: Vec<u8>) -> (m: Message)
        ensures
            m@ == (MessageView {
                message_type: MessageType::State,
                data: payload@,
                addressee: Some(to@),
                source: self.peer_id@,
            }),
    {
        Message::new_snapshot(payload, to, self.peer_id.clone())
    }
}

} // verus!
