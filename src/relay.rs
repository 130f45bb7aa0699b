use vstd::prelude::*;

use crate::events::{Broadcast, JoinPlan, ServerEvent};
use crate::generator::IdGenerator;
use crate::history::{MessageLog, UserMessage};
use crate::presence::{get_user_map, renamed, without, PresenceDirectory};
use crate::registry::{unregistered, UserManager};

verus! {

/// The `replyTo` field of an inbound action, as the decoding layer found it.
#[derive(Debug, Clone, Copy, PartialEq, Eq)]
pub enum ReplyField {
    Absent,
    Key(usize),
    /// Present, but not a sequence key.
    Invalid,
}

/// The fields of an inbound action's data that the router reads.
pub struct ActionData {
    pub content: Option<String>,
    pub name: Option<String>,
    pub reply_to: ReplyField,
}

/// A decoded inbound action.
pub struct ClientMessage {
    pub user: String,
    pub action: String,
    pub data: ActionData,
}

/// Why an inbound action was not carried out. None of these touches shared
/// state.
#[derive(Debug, Clone, Copy, PartialEq, Eq)]
pub enum RouteError {
    /// The action kind is not one the router knows.
    UnknownAction,
    /// A field the action requires is absent.
    MissingField,
    /// `replyTo` is present but not a sequence key.
    InvalidReply,
    /// The sender's id is not registered.
    UnknownSender,
}

pub open spec fn is_send(msg: ClientMessage) -> bool {
    msg.action@ == "send-message"@
}

pub open spec fn is_rename(msg: ClientMessage) -> bool {
    msg.action@ == "rename"@
}

/// The error an action meets, if any; `sender_known` tells whether the
/// sender is registered.
pub open spec fn route_error(msg: ClientMessage, sender_known: bool) -> Option<RouteError> {
    if is_send(msg) {
        if msg.data.content.is_none() {
            Some(RouteError::MissingField)
        } else if msg.data.reply_to == ReplyField::Invalid {
            Some(RouteError::InvalidReply)
        } else {
            None
        }
    } else if is_rename(msg) {
        if msg.data.name.is_none() {
            Some(RouteError::MissingField)
        } else if !sender_known {
            Some(RouteError::UnknownSender)
        } else {
            None
        }
    } else {
        Some(RouteError::UnknownAction)
    }
}

pub open spec fn reply_key(r: ReplyField) -> Option<usize> {
    match r {
        ReplyField::Key(k) => Some(k),
        _ => None,
    }
}

/// The history events that replay `log`, in log order.
pub open spec fn history_events(log: Seq<UserMessage>) -> Seq<ServerEvent> {
    log.map_values(|m: UserMessage| ServerEvent::History { message: m })
}

/// The events that replay a presence table, in its order.
pub open spec fn presence_events(names: Seq<(usize, String)>) -> Seq<ServerEvent> {
    names.map_values(|e: (usize, String)| ServerEvent::PresenceChanged { user: e.0, name: e.1 })
}

/// One `PeerPresent` event for each peer, in order.
pub open spec fn peer_events(peers: Seq<usize>) -> Seq<ServerEvent> {
    peers.map_values(|p: usize| ServerEvent::PeerPresent { peer: p })
}

/// What a new connection `id` is sent, in order: its acknowledgement, the
/// history, the presence table, then one event for each peer already there.
pub open spec fn join_replay(
    id: usize,
    log: Seq<UserMessage>,
    names: Seq<(usize, String)>,
    peers: Seq<usize>,
) -> Seq<ServerEvent> {
    seq![ServerEvent::LoginAck { id }] + history_events(log) + presence_events(names) + peer_events(
        peers,
    )
}

/// All shared state of the relay: the registry of live connections, their
/// display names, the history, and the two counters that issue connection
/// ids and message keys.
pub struct Relay<H> {
    pub users: UserManager<H>,
    pub names: PresenceDirectory,
    pub log: MessageLog,
    pub connection_ids: IdGenerator,
    pub message_keys: IdGenerator,
}

/// Relies on chrono::Utc::now and DateTime::to_rfc3339: the current UTC time
/// as RFC 3339 text. It depends on the clock, so nothing is stated of it.
#[verifier::external_body]
fn utc_timestamp() -> (r: String) {
    chrono::Utc::now().to_rfc3339()
}

/// The outcome of routing `msg` from `sender` with `timestamp`, from state
/// `pre` to state `post`.
pub open spec fn routed<H>(
    pre: Relay<H>,
    post: Relay<H>,
    sender: usize,
    msg: ClientMessage,
    timestamp: String,
    r: Result<Broadcast, RouteError>,
) -> bool {
    let err = route_error(msg, pre.users.ids().contains(sender));
    &&& post.wf()
    &&& r.is_err() == err.is_some()
    &&& post.users == pre.users
    &&& post.connection_ids == pre.connection_ids
    &&& match r {
        Err(e) => {
            &&& err == Some(e)
            &&& post.names@ == pre.names@
            &&& post.log@ == pre.log@
            &&& post.message_keys@ == pre.message_keys@
        },
        Ok(b) => {
            &&& b.recipients@ == pre.users.ids()
            &&& is_send(msg) ==> {
                let m = UserMessage {
                    key: pre.message_keys@ as usize,
                    user: msg.user,
                    content: msg.data.content.unwrap(),
                    timestamp,
                    replying_to: reply_key(msg.data.reply_to),
                };
                &&& post.log@ == pre.log@.push(m)
                &&& post.message_keys@ == pre.message_keys@ + 1
                &&& post.names@ == pre.names@
                &&& b.event == (ServerEvent::Message { message: m })
            }
            &&& is_rename(msg) ==> {
                &&& post.names@ == renamed(pre.names@, sender, msg.data.name.unwrap())
                &&& post.log@ == pre.log@
                &&& post.message_keys@ == pre.message_keys@
                &&& b.event == (ServerEvent::PresenceChanged {
                    user: sender,
                    name: msg.data.name.unwrap(),
                })
            }
        },
    }
}

impl<H> UserManager<H> {
    /// `event`, addressed to every connection registered now.
    pub fn broadcast(&self, event: ServerEvent) -> (r: Broadcast)
        ensures
            r.recipients@ == self.ids(),
            r.event == event,
    {
        Broadcast { recipients: self.get_users(), event }
    }
}

impl<H> Relay<H> {
    pub open spec fn wf(&self) -> bool {
        &&& self.users.wf()
        &&& self.names.wf()
        &&& self.log.wf()
        &&& forall|i: int|
            0 <= i < self.users.ids().len() ==> (#[trigger] self.users.ids()[i]) < self.connection_ids@
        &&& forall|i: int| 0 <= i < self.log@.len() ==> (#[trigger] self.log@[i]).key < self.message_keys@
    }

    /// A relay with no connections, no names and no history. Connection ids
    /// start at 1 and message keys at 0.
    pub fn new() -> (r: Relay<H>)
        ensures
            r.wf(),
            r.users.ids() == Seq::<usize>::empty(),
            r.names@ == Seq::<(usize, String)>::empty(),
            r.log@ == Seq::<UserMessage>::empty(),
            r.connection_ids@ == 1,
            r.message_keys@ == 0,
    {
        Relay {
            users: UserManager::new(),
            names: get_user_map(),
            log: MessageLog::new(),
            connection_ids: IdGenerator::starting_at(1),
            message_keys: IdGenerator::starting_at(0),
        }
    }

    /// Whether another connection id can be issued.
    pub fn can_connect(&self) -> (r: bool)
        ensures
            r == (self.connection_ids@ < usize::MAX),
    {
        self.connection_ids.can_issue()
    }

    /// Whether another message key can be issued.
    pub fn can_send(&self) -> (r: bool)
        ensures
            r == (self.message_keys@ < usize::MAX),
    {
        self.message_keys.can_issue()
    }

    /// Takes in a new connection: issues its id, registers `handle` under it,
    /// and plans the replay to it and the announcement to its peers. The
    /// replay is taken in the same step as the registration, so the new
    /// connection sees each message exactly once: in the replay if it was
    /// appended before, live if after.
    pub fn connect(&mut self, handle: H) -> (r: JoinPlan)
        requires
            old(self).wf(),
            old(self).connection_ids@ < usize::MAX,
        ensures
            final(self).wf(),
            r.id == old(self).connection_ids@,
            final(self).connection_ids@ == old(self).connection_ids@ + 1,
            final(self).users.ids() == old(self).users.ids().push(r.id),
            final(self).users.handle_of(r.id) == handle,
            forall|x: usize| #[trigger] old(self).users.ids().contains(x)
                ==> final(self).users.handle_of(x) == old(self).users.handle_of(x),
            final(self).names == old(self).names,
            final(self).log == old(self).log,
            final(self).message_keys == old(self).message_keys,
            r.replay@ == join_replay(r.id, old(self).log@, old(self).names@, old(self).users.ids()),
            r.announce@ == old(self).users.ids(),
    {
        let id = self.connection_ids.next();
        let peers = self.users.get_users();
        let history = self.log.snapshot();
        let names = self.names.get_all();
        assert(!self.users.ids().contains(id)) by {
            if self.users.ids().contains(id) {
                let k = choose|k: int| 0 <= k < self.users.ids().len() && self.users.ids()[k] == id;
                assert(self.users.ids()[k] < old(self).connection_ids@);
            }
        }
        self.users.add_user(id, handle);
        let mut replay: Vec<ServerEvent> = Vec::new();
        replay.push(ServerEvent::LoginAck { id });
        let ghost head = seq![ServerEvent::LoginAck { id }];
        assert(replay@ =~= head);
        let mut i: usize = 0;
        while i < history.len()
            invariant
                i <= history@.len(),
                history@ == old(self).log@,
                replay@ == head + history_events(history@.subrange(0, i as int)),
            decreases history@.len() - i,
        {
            replay.push(ServerEvent::History { message: history[i].duplicate() });
            i = i + 1;
            assert(history_events(history@.subrange(0, i as int)) =~= history_events(
                history@.subrange(0, i as int - 1),
            ).push(ServerEvent::History { message: history@[i as int - 1] }));
            assert(replay@ =~= head + history_events(history@.subrange(0, i as int)));
        }
        assert(history@.subrange(0, i as int) =~= history@);
        let ghost with_history = head + history_events(history@);
        let mut j: usize = 0;
        while j < names.len()
            invariant
                j <= names@.len(),
                names@ == old(self).names@,
                replay@ == with_history + presence_events(names@.subrange(0, j as int)),
            decreases names@.len() - j,
        {
            let user = names[j].0;
            let name = names[j].1.clone();
            replay.push(ServerEvent::PresenceChanged { user, name });
            j = j + 1;
            assert(presence_events(names@.subrange(0, j as int)) =~= presence_events(
                names@.subrange(0, j as int - 1),
            ).push(ServerEvent::PresenceChanged { user, name: names@[j as int - 1].1 }));
            assert(replay@ =~= with_history + presence_events(names@.subrange(0, j as int)));
        }
        assert(names@.subrange(0, j as int) =~= names@);
        let ghost with_names = with_history + presence_events(names@);
        let mut k: usize = 0;
        while k < peers.len()
            invariant
                k <= peers@.len(),
                peers@ == old(self).users.ids(),
                replay@ == with_names + peer_events(peers@.subrange(0, k as int)),
            decreases peers@.len() - k,
        {
            replay.push(ServerEvent::PeerPresent { peer: peers[k] });
            k = k + 1;
            assert(peer_events(peers@.subrange(0, k as int)) =~= peer_events(
                peers@.subrange(0, k as int - 1),
            ).push(ServerEvent::PeerPresent { peer: peers@[k as int - 1] }));
            assert(replay@ =~= with_names + peer_events(peers@.subrange(0, k as int)));
        }
        assert(peers@.subrange(0, k as int) =~= peers@);
        assert(replay@ =~= join_replay(id, old(self).log@, old(self).names@, old(self).users.ids()));
        assert forall|x: int| 0 <= x < self.users.ids().len() implies (#[trigger] self.users.ids()[x]) < self.connection_ids@ by {
            if x < old(self).users.ids().len() {
                assert(self.users.ids()[x] == old(self).users.ids()[x]);
            }
        }
        JoinPlan { id, replay, announce: peers }
    }

    /// Takes out a connection whose channel closed: unregisters it, drops its
    /// display name, and tells the remaining connections. Where `id` is not
    /// registered (it left already) nothing is announced.
    pub fn disconnect(&mut self, id: usize) -> (r: Option<Broadcast>)
        requires
            old(self).wf(),
        ensures
            final(self).wf(),
            final(self).users.ids() == unregistered(old(self).users.ids(), id),
            forall|x: usize| #[trigger] final(self).users.ids().contains(x)
                ==> final(self).users.handle_of(x) == old(self).users.handle_of(x),
            final(self).names@ == without(old(self).names@, id),
            final(self).log == old(self).log,
            final(self).connection_ids == old(self).connection_ids,
            final(self).message_keys == old(self).message_keys,
            r.is_some() == old(self).users.ids().contains(id),
            r matches Some(b) ==> b.recipients@ == final(self).users.ids()
                && b.event == (ServerEvent::PeerLeft { peer: id }),
    {
        let present = self.users.contains(id);
        self.users.remove_user(id);
        self.names.remove(id);
        proof {
            let s0 = old(self).users.ids();
            let s1 = self.users.ids();
            assert forall|x: int| 0 <= x < s1.len() implies (#[trigger] s1[x]) < self.connection_ids@ by {
                if s0.contains(id) {
                    let p = crate::registry::position(s0, id);
                    if x < p {
                        assert(s1[x] == s0[x]);
                    } else {
                        assert(s1[x] == s0[x + 1]);
                    }
                }
            }
        }
        if present {
            Some(self.users.broadcast(ServerEvent::PeerLeft { peer: id }))
        } else {
            None
        }
    }

    /// Carries out one inbound action from connection `sender`, stamping a
    /// new message with `timestamp`. A `send-message` takes the next key,
    /// appends the message and addresses it to every connection; the log
    /// does not check that `replyTo` names a message it holds. A `rename`
    /// sets the sender's display name and addresses the change to every
    /// connection. Anything else is refused and changes nothing.
    pub fn route_message(&mut self, sender: usize, msg: &ClientMessage, timestamp: String) -> (r:
        Result<Broadcast, RouteError>)
        requires
            old(self).wf(),
            old(self).message_keys@ < usize::MAX,
        ensures
            routed(*old(self), *final(self), sender, *msg, timestamp, r),
    {
        let send_kind = "send-message".to_owned();
        let rename_kind = "rename".to_owned();
        proof {
            reveal_strlit("send-message");
            reveal_strlit("rename");
            assert("send-message"@.len() != "rename"@.len());
        }
        if msg.action == send_kind {
            match &msg.data.content {
                None => Err(RouteError::MissingField),
                Some(content) => {
                    let replying_to = match msg.data.reply_to {
                        ReplyField::Absent => None,
                        ReplyField::Key(k) => Some(k),
                        ReplyField::Invalid => {
                            return Err(RouteError::InvalidReply);
                        },
                    };
                    let key = self.message_keys.next();
                    let message = UserMessage {
                        key,
                        user: msg.user.clone(),
                        content: content.clone(),
                        timestamp,
                        replying_to,
                    };
                    let event = ServerEvent::Message { message: message.duplicate() };
                    proof {
                        if self.log@.len() > 0 {
                            assert(self.log@[self.log@.len() - 1].key < old(self).message_keys@);
                        }
                    }
                    self.log.append(message);
                    assert forall|i: int| 0 <= i < self.log@.len() implies (#[trigger] self.log@[i]).key < self.message_keys@ by {
                        if i < old(self).log@.len() {
                            assert(self.log@[i] == old(self).log@[i]);
                        }
                    }
                    Ok(self.users.broadcast(event))
                },
            }
        } else if msg.action == rename_kind {
            match &msg.data.name {
                None => Err(RouteError::MissingField),
                Some(name) => {
                    if !self.users.contains(sender) {
                        return Err(RouteError::UnknownSender);
                    }
                    self.names.set_name(sender, name.clone());
                    Ok(self.users.broadcast(ServerEvent::PresenceChanged { user: sender, name: name.clone() }))
                },
            }
        } else {
            Err(RouteError::UnknownAction)
        }
    }

    /// Carries out one inbound action from connection `sender`, stamping a
    /// new message with the current time.
    pub fn handle_message(&mut self, sender: usize, msg: &ClientMessage) -> (r: Result<
        Broadcast,
        RouteError,
    >)
        requires
            old(self).wf(),
            old(self).message_keys@ < usize::MAX,
        ensures
            exists|timestamp: String| routed(*old(self), *final(self), sender, *msg, timestamp, r),
    {
        let timestamp = utc_timestamp();
        let r = self.route_message(sender, msg, timestamp);
        assert(routed(*old(self), *final(self), sender, *msg, timestamp, r));
        r
    }
}

} // verus!
