//! The session supervisor: the single owner of the registry from identity to
//! session mailbox, and the sole arbiter of routing.
//!
//! The supervisor processes one event at a time; nothing else ever mutates
//! the registry, and nothing but the supervisor ever writes into a mailbox.
//! The event loop that feeds it, the channels that stand behind the
//! mailboxes, and the tasks that drain them live outside this crate: each
//! operation here returns what the caller must perform on the real channels.

use vstd::prelude::*;

verus! {

/// The default bound on a session's mailbox.
pub const DEFAULT_MAILBOX_CAPACITY: usize = 100;

/// An event delivered into one session's mailbox. Only the supervisor writes
/// these.
#[derive(Clone, Debug, PartialEq, Eq)]
pub enum ClientMessage {
    /// A routed chat line: the identity that sent it, and the text.
    ReceiveMessage(String, String),
    /// The session must release its connection and stop.
    Terminate,
}

/// Mathematical model of a mailbox event.
pub enum EventView {
    Deliver { sender: Seq<char>, body: Seq<char> },
    Terminate,
}

impl View for ClientMessage {
    type V = EventView;

    open spec fn view(&self) -> EventView {
        match self {
            ClientMessage::ReceiveMessage(sender, body) => EventView::Deliver {
                sender: sender@,
                body: body@,
            },
            ClientMessage::Terminate => EventView::Terminate,
        }
    }
}

/// A bounded, ordered queue of events owned by one session handler and
/// written only by the supervisor. The bound itself is the supervisor's
/// `capacity`; the supervisor refuses to grow a mailbox past it.
#[derive(Debug, PartialEq, Eq)]
pub struct Mailbox {
    events: Vec<ClientMessage>,
}

impl View for Mailbox {
    type V = Seq<EventView>;

    closed spec fn view(&self) -> Seq<EventView> {
        self.events@.map_values(|e: ClientMessage| e@)
    }
}

impl Mailbox {
    /// An empty mailbox.
    pub fn new() -> (r: Self)
        ensures
            r@ == Seq::<EventView>::empty(),
    {
        let r = Mailbox { events: Vec::new() };
        proof {
            assert(r@ =~= Seq::<EventView>::empty());
        }
        r
    }

    /// How many events are queued.
    pub fn len(&self) -> (r: usize)
        ensures
            r == self@.len(),
    {
        self.events.len()
    }

    /// The queued events, oldest first.
    pub fn events(&self) -> (r: &Vec<ClientMessage>)
        ensures
            r@.map_values(|e: ClientMessage| e@) == self@,
    {
        &self.events
    }

    /// Appends one event; supervisor use only.
    fn push(&mut self, event: ClientMessage)
        ensures
            final(self)@ == old(self)@.push(event@),
    {
        let ghost prev = self@;
        self.events.push(event);
        proof {
            assert(self@ =~= prev.push(event@));
        }
    }

    /// Removes and returns the oldest event, if one is queued. This models
    /// the owning session handler draining its mailbox.
    pub fn take(&mut self) -> (r: Option<ClientMessage>)
        ensures
            old(self)@.len() == 0 ==> r is None && final(self)@ == old(self)@,
            old(self)@.len() > 0 ==> (r matches Some(e) && e@ == old(self)@[0] && final(self)@
                == old(self)@.drop_first()),
    {
        let ghost prev = self@;
        if self.events.len() == 0 {
            None
        } else {
            let e = self.events.remove(0);
            proof {
                assert(self@ =~= prev.drop_first());
            }
            Some(e)
        }
    }
}

/// Model of one registered session: its identity and the queued events of
/// its mailbox.
pub struct SessionView {
    pub identity: Seq<char>,
    pub mailbox: Seq<EventView>,
}

/// One registered session: the identity and the mailbox it owns.
#[derive(Debug, PartialEq, Eq)]
pub struct SessionEntry {
    pub identity: String,
    pub mailbox: Mailbox,
}

impl View for SessionEntry {
    type V = SessionView;

    open spec fn view(&self) -> SessionView {
        SessionView { identity: self.identity@, mailbox: self.mailbox@ }
    }
}

/// Model of the supervisor: the registered sessions in registration order,
/// the mailbox bound, and whether the supervisor still accepts events.
pub struct SupervisorView {
    pub sessions: Seq<SessionView>,
    pub capacity: nat,
    pub open: bool,
}

impl SupervisorView {
    /// Each identity is registered at most once.
    pub open spec fn wf(self) -> bool {
        forall|j: int, k: int|
            0 <= j < k < self.sessions.len() ==> self.sessions[j].identity
                != self.sessions[k].identity
    }

    /// True when `id` has a registered session.
    pub open spec fn registered(self, id: Seq<char>) -> bool {
        exists|k: int| 0 <= k < self.sessions.len() && self.sessions[k].identity == id
    }

    /// The index of `id`'s session; meaningful when `id` is registered.
    pub open spec fn index_of(self, id: Seq<char>) -> int {
        choose|k: int| 0 <= k < self.sessions.len() && self.sessions[k].identity == id
    }
}

/// In a well-formed registry the index of an identity is unique: any
/// position holding `id` is the position `index_of` denotes.
pub proof fn lemma_index_of_unique(v: SupervisorView, id: Seq<char>, k: int)
    requires
        v.wf(),
        0 <= k < v.sessions.len(),
        v.sessions[k].identity == id,
    ensures
        v.index_of(id) == k,
        v.registered(id),
{
    assert(v.registered(id));
    let j = v.index_of(id);
    if j != k {
        assert(v.sessions[j].identity != v.sessions[k].identity);
    }
}

/// Deregistration cascade: removing an identity's session from a
/// well-formed registry leaves the identity unregistered, so every later
/// route addressed to it is dropped by [`ClientSupervisor::route_text`]'s
/// contract.
pub proof fn lemma_deregister_cascade(v: SupervisorView, id: Seq<char>)
    requires
        v.wf(),
        v.registered(id),
    ensures
        !(SupervisorView { sessions: v.sessions.remove(v.index_of(id)), ..v }).registered(id),
        (SupervisorView { sessions: v.sessions.remove(v.index_of(id)), ..v }).wf(),
{
    let k = v.index_of(id);
    let after = SupervisorView { sessions: v.sessions.remove(k), ..v };
    assert forall|j: int| 0 <= j < after.sessions.len() implies after.sessions[j].identity
        != id by {
        if j < k {
            assert(after.sessions[j] == v.sessions[j]);
            lemma_index_of_unique(v, id, k);
        } else {
            assert(after.sessions[j] == v.sessions[j + 1]);
            lemma_index_of_unique(v, id, k);
        }
    }
    assert forall|i: int, j: int|
        0 <= i < j < after.sessions.len() implies after.sessions[i].identity
        != after.sessions[j].identity by {
        assert(after.sessions[i] == if i < k {
            v.sessions[i]
        } else {
            v.sessions[i + 1]
        });
        assert(after.sessions[j] == if j < k {
            v.sessions[j]
        } else {
            v.sessions[j + 1]
        });
    }
}

/// The session supervisor. It exclusively owns the registry; all routing and
/// lifecycle decisions pass through it, one at a time.
#[derive(Debug)]
pub struct ClientSupervisor {
    sessions: Vec<SessionEntry>,
    capacity: usize,
    open: bool,
}

impl View for ClientSupervisor {
    type V = SupervisorView;

    closed spec fn view(&self) -> SupervisorView {
        SupervisorView {
            sessions: self.sessions@.map_values(|e: SessionEntry| e@),
            capacity: self.capacity as nat,
            open: self.open,
        }
    }
}

impl ClientSupervisor {
    /// A supervisor with no sessions, accepting events, whose mailboxes are
    /// bounded by `capacity`.
    pub fn with_capacity(capacity: usize) -> (r: Self)
        ensures
            r@.wf(),
            r@.sessions == Seq::<SessionView>::empty(),
            r@.capacity == capacity,
            r@.open,
    {
        let r = ClientSupervisor { sessions: Vec::new(), capacity, open: true };
        proof {
            assert(r@.sessions =~= Seq::<SessionView>::empty());
        }
        r
    }

    /// A supervisor with the default mailbox bound.
    pub fn new() -> (r: Self)
        ensures
            r@.wf(),
            r@.sessions == Seq::<SessionView>::empty(),
            r@.capacity == DEFAULT_MAILBOX_CAPACITY,
            r@.open,
    {
        Self::with_capacity(DEFAULT_MAILBOX_CAPACITY)
    }

    /// The position of `identity`'s session, if it is registered.
    fn find(&self, identity: &String) -> (r: Option<usize>)
        ensures
            match r {
                Some(k) => k < self@.sessions.len() && self@.sessions[k as int].identity
                    == identity@,
                None => !self@.registered(identity@),
            },
    {
        let mut i: usize = 0;
        while i < self.sessions.len()
            invariant
                i <= self.sessions.len(),
                forall|j: int| 0 <= j < i ==> self@.sessions[j].identity != identity@,
            decreases self.sessions.len() - i,
        {
            if self.sessions[i].identity == *identity {
                return Some(i);
            }
            i = i + 1;
        }
        None
    }

    /// True when `identity` has a registered session.
    pub fn is_registered(&self, identity: &String) -> (r: bool)
        ensures
            r == self@.registered(identity@),
    {
        self.find(identity).is_some()
    }

    /// How many events sit in `identity`'s mailbox, if it is registered.
    pub fn mailbox_len(&self, identity: &String) -> (r: Option<usize>)
        requires
            self@.wf(),
        ensures
            !self@.registered(identity@) ==> r is None,
            self@.registered(identity@) ==> r == Some(
                self@.sessions[self@.index_of(identity@)].mailbox.len() as usize,
            ),
    {
        match self.find(identity) {
            Some(k) => {
                proof {
                    lemma_index_of_unique(self@, identity@, k as int);
                }
                Some(self.sessions[k].mailbox.len())
            },
            None => None,
        }
    }

    /// Registers a session for `identity` with an empty mailbox, in
    /// registration order. A second login for a live identity is a conflict;
    /// the policy here is to reject it and leave the live session in place.
    /// Rejected too once the supervisor has shut down. Returns whether the
    /// session was registered.
    pub fn register_session(&mut self, identity: String) -> (r: bool)
        requires
            old(self)@.wf(),
        ensures
            final(self)@.wf(),
            r == (old(self)@.open && !old(self)@.registered(identity@)),
            r ==> final(self)@ == (SupervisorView {
                sessions: old(self)@.sessions.push(
                    SessionView { identity: identity@, mailbox: Seq::<EventView>::empty() },
                ),
                ..old(self)@
            }),
            !r ==> final(self)@ == old(self)@,
    {
        if !self.open {
            return false;
        }
        if self.find(&identity).is_some() {
            return false;
        }
        let ghost prev = self@;
        let entry = SessionEntry { identity, mailbox: Mailbox::new() };
        self.sessions.push(entry);
        proof {
            assert(self@.sessions =~= prev.sessions.push(entry@));
            assert forall|j: int, k: int|
                0 <= j < k < self@.sessions.len() implies self@.sessions[j].identity
                != self@.sessions[k].identity by {
                if k == self@.sessions.len() - 1 {
                    assert(prev.sessions[j].identity != entry@.identity);
                }
            }
        }
        true
    }

    /// Routes one chat line from `sender` to `recipient`: appends exactly one
    /// `Deliver` event to the recipient's mailbox and touches no other
    /// session. A miss — either end unregistered, or the supervisor shut
    /// down — drops the line silently and changes nothing; a full recipient
    /// mailbox also changes nothing, and the caller must wait for room.
    pub fn route_text(&mut self, sender: &String, recipient: &String, body: String) -> (r:
        RouteOutcome)
        requires
            old(self)@.wf(),
        ensures
            final(self)@.wf(),
            ({
                let v = old(self)@;
                let can = v.open && v.registered(sender@) && v.registered(recipient@);
                let k = v.index_of(recipient@);
                &&& (!can ==> r == RouteOutcome::Dropped && final(self)@ == v)
                &&& (can && v.sessions[k].mailbox.len() >= v.capacity ==> r
                    == RouteOutcome::MailboxFull && final(self)@ == v)
                &&& (can && v.sessions[k].mailbox.len() < v.capacity ==> r
                    == RouteOutcome::Delivered && final(self)@ == (SupervisorView {
                    sessions: v.sessions.update(
                        k,
                        SessionView {
                            identity: v.sessions[k].identity,
                            mailbox: v.sessions[k].mailbox.push(
                                EventView::Deliver { sender: sender@, body: body@ },
                            ),
                        },
                    ),
                    ..v
                }))
            }),
    {
        let ghost v = self@;
        if !self.open {
            return RouteOutcome::Dropped;
        }
        if self.find(sender).is_none() {
            return RouteOutcome::Dropped;
        }
        let k = match self.find(recipient) {
            Some(k) => k,
            None => {
                return RouteOutcome::Dropped;
            },
        };
        proof {
            lemma_index_of_unique(v, recipient@, k as int);
        }
        if self.sessions[k].mailbox.len() >= self.capacity {
            return RouteOutcome::MailboxFull;
        }
        let mut entry = self.sessions.remove(k);
        entry.mailbox.push(ClientMessage::ReceiveMessage(sender.clone(), body));
        self.sessions.insert(k, entry);
        proof {
            assert(self@.sessions =~= v.sessions.update(k as int, entry@));
            assert(final(self)@ == (SupervisorView {
                sessions: v.sessions.update(k as int, entry@),
                ..v
            }));
        }
        RouteOutcome::Delivered
    }
    /// Removes `identity` from the registry, if present, and appends exactly
    /// one `Terminate` event to its mailbox so the session handler releases
    /// its connection; the departing mailbox is returned for the caller to
    /// drain. Idempotent: deregistering an absent identity changes nothing.
    pub fn deregister(&mut self, identity: &String) -> (r: Option<Mailbox>)
        requires
            old(self)@.wf(),
        ensures
            final(self)@.wf(),
            !old(self)@.registered(identity@) ==> r is None && final(self)@ == old(self)@,
            old(self)@.registered(identity@) ==> ({
                let v = old(self)@;
                let k = v.index_of(identity@);
                &&& r matches Some(mb) && mb@ == v.sessions[k].mailbox.push(EventView::Terminate)
                &&& final(self)@ == (SupervisorView { sessions: v.sessions.remove(k), ..v })
                &&& !final(self)@.registered(identity@)
            }),
    {
        let ghost v = self@;
        let k = match self.find(identity) {
            Some(k) => k,
            None => {
                return None;
            },
        };
        proof {
            lemma_index_of_unique(v, identity@, k as int);
        }
        let mut entry = self.sessions.remove(k);
        entry.mailbox.push(ClientMessage::Terminate);
        proof {
            assert(self@.sessions =~= v.sessions.remove(k as int));
            assert forall|j: int|
                0 <= j < self@.sessions.len() implies self@.sessions[j].identity
                != identity@ by {
                if j < k as int {
                    assert(self@.sessions[j] == v.sessions[j]);
                } else {
                    assert(self@.sessions[j] == v.sessions[j + 1]);
                }
            }
        }
        Some(entry.mailbox)
    }

    /// Shuts the supervisor down: appends exactly one `Terminate` event to
    /// every registered session's mailbox, clears the registry, and stops
    /// accepting further events. The departed sessions are returned, in
    /// registration order, for the caller to drain. Terminal: afterwards
    /// every registration is rejected and every route is dropped.
    pub fn shutdown(&mut self) -> (r: Vec<SessionEntry>)
        requires
            old(self)@.wf(),
        ensures
            final(self)@.wf(),
            final(self)@ == (SupervisorView {
                sessions: Seq::<SessionView>::empty(),
                capacity: old(self)@.capacity,
                open: false,
            }),
            r@.len() == old(self)@.sessions.len(),
            forall|k: int|
                #![trigger r@[k]]
                0 <= k < r@.len() ==> r@[k]@.identity == old(self)@.sessions[k].identity
                    && r@[k]@.mailbox == old(self)@.sessions[k].mailbox.push(EventView::Terminate),
    {
        let ghost v = self@;
        self.open = false;
        let mut out: Vec<SessionEntry> = Vec::new();
        while self.sessions.len() > 0
            invariant
                self@.capacity == v.capacity,
                self@.open == false,
                out@.len() + self.sessions@.len() == v.sessions.len(),
                forall|j: int|
                    0 <= j < self.sessions@.len() ==> #[trigger] self.sessions@[j]@
                        == v.sessions[out@.len() + j],
                forall|k: int|
                    #![trigger out@[k]]
                    0 <= k < out@.len() ==> out@[k]@.identity == v.sessions[k].identity
                        && out@[k]@.mailbox == v.sessions[k].mailbox.push(EventView::Terminate),
            decreases self.sessions.len(),
        {
            let ghost n_done = out@.len() as int;
            let ghost pre = self.sessions@;
            let mut entry = self.sessions.remove(0);
            proof {
                assert(self.sessions@ =~= pre.drop_first());
                assert(entry@ == v.sessions[n_done]);
            }
            entry.mailbox.push(ClientMessage::Terminate);
            out.push(entry);
            proof {
                assert(out@[n_done]@.mailbox == v.sessions[n_done].mailbox.push(
                    EventView::Terminate,
                ));
            }
        }
        proof {
            assert(self@.sessions =~= Seq::<SessionView>::empty());
        }
        out
    }

    /// Removes and returns the oldest event in `identity`'s mailbox, if the
    /// identity is registered and its mailbox is nonempty; no other session
    /// changes. This models the owning session handler draining its mailbox.
    pub fn take_event(&mut self, identity: &String) -> (r: Option<ClientMessage>)
        requires
            old(self)@.wf(),
        ensures
            final(self)@.wf(),
            ({
                let v = old(self)@;
                let k = v.index_of(identity@);
                if v.registered(identity@) && v.sessions[k].mailbox.len() > 0 {
                    &&& r matches Some(e) && e@ == v.sessions[k].mailbox[0]
                    &&& final(self)@ == (SupervisorView {
                        sessions: v.sessions.update(
                            k,
                            SessionView {
                                identity: v.sessions[k].identity,
                                mailbox: v.sessions[k].mailbox.drop_first(),
                            },
                        ),
                        ..v
                    })
                } else {
                    r is None && final(self)@ == v
                }
            }),
    {
        let ghost v = self@;
        let k = match self.find(identity) {
            Some(k) => k,
            None => {
                return None;
            },
        };
        proof {
            lemma_index_of_unique(v, identity@, k as int);
        }
        if self.sessions[k].mailbox.len() == 0 {
            return None;
        }
        let mut entry = self.sessions.remove(k);
        let event = entry.mailbox.take();
        self.sessions.insert(k, entry);
        proof {
            assert(self@.sessions =~= v.sessions.update(k as int, entry@));
        }
        event
    }

    /// Processes one supervisor event, fully, before any other: the single
    /// serialized entry point that the event loop outside drives. Each event
    /// maps to exactly one registry operation, and the effect returned
    /// carries what the loop must perform on the real channels.
    pub fn handle_message(&mut self, msg: SupervisorMessage) -> (r: SupervisorEffect)
        requires
            old(self)@.wf(),
        ensures
            final(self)@.wf(),
            ({
                let v = old(self)@;
                match msg {
                    SupervisorMessage::NewClient(identity) => {
                        let created = v.open && !v.registered(identity@);
                        &&& r matches SupervisorEffect::Registered(b) && b == created
                        &&& created ==> final(self)@ == (SupervisorView {
                            sessions: v.sessions.push(
                                SessionView {
                                    identity: identity@,
                                    mailbox: Seq::<EventView>::empty(),
                                },
                            ),
                            ..v
                        })
                        &&& !created ==> final(self)@ == v
                    },
                    SupervisorMessage::Message { sender, receiver, message } => {
                        let can = v.open && v.registered(sender@) && v.registered(receiver@);
                        let k = v.index_of(receiver@);
                        &&& r matches SupervisorEffect::Routed(o) && {
                            &&& (!can ==> o == RouteOutcome::Dropped && final(self)@ == v)
                            &&& (can && v.sessions[k].mailbox.len() >= v.capacity ==> o
                                == RouteOutcome::MailboxFull && final(self)@ == v)
                            &&& (can && v.sessions[k].mailbox.len() < v.capacity ==> o
                                == RouteOutcome::Delivered && final(self)@ == (SupervisorView {
                                sessions: v.sessions.update(
                                    k,
                                    SessionView {
                                        identity: v.sessions[k].identity,
                                        mailbox: v.sessions[k].mailbox.push(
                                            EventView::Deliver {
                                                sender: sender@,
                                                body: message@,
                                            },
                                        ),
                                    },
                                ),
                                ..v
                            }))
                        }
                    },
                    SupervisorMessage::DisconnectClient(identity) => {
                        let k = v.index_of(identity@);
                        &&& r matches SupervisorEffect::Disconnected(d) && {
                            if v.registered(identity@) {
                                &&& d matches Some(mb) && mb@ == v.sessions[k].mailbox.push(
                                    EventView::Terminate,
                                )
                                &&& final(self)@ == (SupervisorView {
                                    sessions: v.sessions.remove(k),
                                    ..v
                                })
                            } else {
                                d is None && final(self)@ == v
                            }
                        }
                    },
                    SupervisorMessage::Terminate => {
                        &&& r matches SupervisorEffect::Stopped(ss) && {
                            &&& ss@.len() == v.sessions.len()
                            &&& forall|k: int|
                                #![trigger ss@[k]]
                                0 <= k < ss@.len() ==> ss@[k]@.identity == v.sessions[k].identity
                                    && ss@[k]@.mailbox == v.sessions[k].mailbox.push(
                                    EventView::Terminate,
                                )
                        }
                        &&& final(self)@ == (SupervisorView {
                            sessions: Seq::<SessionView>::empty(),
                            capacity: v.capacity,
                            open: false,
                        })
                    },
                }
            }),
    {
        match msg {
            SupervisorMessage::NewClient(identity) => {
                let created = self.register_session(identity);
                SupervisorEffect::Registered(created)
            },
            SupervisorMessage::Message { sender, receiver, message } => {
                let outcome = self.route_text(&sender, &receiver, message);
                SupervisorEffect::Routed(outcome)
            },
            SupervisorMessage::DisconnectClient(identity) => {
                let departed = self.deregister(&identity);
                SupervisorEffect::Disconnected(departed)
            },
            SupervisorMessage::Terminate => {
                let departed = self.shutdown();
                SupervisorEffect::Stopped(departed)
            },
        }
    }
}

/// One event for the supervisor, sent by a listener or a session handler.
#[derive(Debug, PartialEq, Eq)]
pub enum SupervisorMessage {
    /// A new client completed the login handshake under this identity.
    NewClient(String),
    /// One client's line addressed to another.
    Message {
        /// The identity that sent the line.
        sender: String,
        /// The identity it is addressed to.
        receiver: String,
        /// The text of the line.
        message: String,
    },
    /// The identity's client logged out or its connection closed.
    DisconnectClient(String),
    /// Close every session and stop the supervisor.
    Terminate,
}

/// What one supervisor event effected; the event loop outside performs the
/// matching sends on the real channels.
#[derive(Debug, PartialEq, Eq)]
pub enum SupervisorEffect {
    /// A `NewClient` event: whether the session was registered.
    Registered(bool),
    /// A `Message` event: what became of the line.
    Routed(RouteOutcome),
    /// A `DisconnectClient` event: the departing mailbox, if the identity
    /// was registered.
    Disconnected(Option<Mailbox>),
    /// A `Terminate` event: every departed session, for the caller to drain.
    Stopped(Vec<SessionEntry>),
}

/// What became of one routed line.
#[derive(Clone, Copy, Debug, PartialEq, Eq, Structural)]
pub enum RouteOutcome {
    /// Exactly one `Deliver` event was appended to the recipient's mailbox.
    Delivered,
    /// The sender or the recipient is not registered, or the supervisor has
    /// shut down; the line was dropped silently.
    Dropped,
    /// The recipient's mailbox is at its bound; nothing changed, and the
    /// caller must wait for the recipient to drain it.
    MailboxFull,
}

} // verus!
