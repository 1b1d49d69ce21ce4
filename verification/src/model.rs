use vstd::prelude::*;
use crate::broker::{
    hear_idle, initiate_connect, listen_step, reply_for_listen, spec_reply_for_listen,
    spec_reply_msg, HearStep, InitiateStep, ListenStep, SessionState,
};
use crate::channels::{ChannelMsg, ChannelMsgWithSender};
use crate::identity::ShortIdStr;
use crate::messages::{C2SConnectToUserResult, ConnectToUser, S2CConnectToUserResult};

verus! {

// ---------------------------------------------------------------------------
// A deterministic model of the whole service: every registered session with
// its brokering state, its single-slot mailbox, and what it has sent to its
// client. The asynchronous runner interleaves sessions arbitrarily; here one
// step runs at a time, which is exactly the per-session atomicity the real
// loop guarantees (one event is handled to completion before the next). The
// laws of the brokering protocol are stated and proved over these steps, and
// the steps decide through the same functions the runner uses.
// ---------------------------------------------------------------------------

/// What a session emitted toward its own client over the transport.
#[derive(Debug)]
pub enum ClientOut {
    /// The answer to this client's own connection request.
    Outcome(S2CConnectToUserResult),
    /// Another user's request, forwarded for this client to confirm.
    Ask(ConnectToUser),
}

/// One registered session.
#[derive(Debug)]
pub struct ModelUser {
    pub username: ShortIdStr,
    pub state: SessionState,
    pub slot: Option<ChannelMsgWithSender>,
    pub to_client: Vec<ClientOut>,
}

/// The service at one instant: the sessions the registry holds.
#[derive(Debug)]
pub struct Model {
    pub users: Vec<ModelUser>,
}

/// The registry invariant: at most one session per username, every username
/// well formed.
pub open spec fn users_wf(users: Seq<ModelUser>) -> bool {
    &&& forall|x: int, y: int|
        0 <= x < y < users.len() ==> (#[trigger] users[x]).username@ != (
        #[trigger] users[y]).username@
    &&& forall|x: int| 0 <= x < users.len() ==> (#[trigger] users[x]).username.wf()
}

/// The index registered under a username, if any.
pub open spec fn lookup(users: Seq<ModelUser>, name: Seq<char>) -> Option<int> {
    if exists|j: int| 0 <= j < users.len() && (#[trigger] users[j]).username@ == name {
        Some(choose|j: int| 0 <= j < users.len() && (#[trigger] users[j]).username@ == name)
    } else {
        None
    }
}

/// Under the registry invariant, `lookup` finds exactly the one session
/// registered under the name.
pub proof fn lemma_lookup(users: Seq<ModelUser>, i: int)
    requires
        users_wf(users),
        0 <= i < users.len(),
    ensures
        lookup(users, users[i].username@) == Some(i),
{
    let name = users[i].username@;
    assert(exists|j: int| 0 <= j < users.len() && (#[trigger] users[j]).username@ == name);
    let j = choose|j: int| 0 <= j < users.len() && (#[trigger] users[j]).username@ == name;
    if j < i {
        assert(users[j].username@ != users[i].username@);
    } else if i < j {
        assert(users[i].username@ != users[j].username@);
    }
}

/// The session's state is "listening for this peer".
pub open spec fn is_listening(s: SessionState, peer: Seq<char>) -> bool {
    s matches SessionState::Listening { peer: p } && p@ == peer
}

/// The session's state is "awaiting the local client's verdict on this
/// peer's request".
pub open spec fn is_awaiting(s: SessionState, peer: Seq<char>) -> bool {
    s matches SessionState::AwaitingClientReply { peer: p } && p@ == peer
}

/// The mailbox slot holds this event from this sender.
pub open spec fn slot_holds(
    s: Option<ChannelMsgWithSender>,
    from: Seq<char>,
    msg: ChannelMsg,
) -> bool {
    s matches Some(m) && m.from@ == from && m.message == msg
}

/// The one entry appended to a client's transcript is this forwarded ask.
pub open spec fn appended_ask(pre: Seq<ClientOut>, post: Seq<ClientOut>, from: Seq<char>) -> bool {
    &&& post.len() == pre.len() + 1
    &&& post.subrange(0, pre.len() as int) == pre
    &&& (post.last() matches ClientOut::Ask(c) && c.username@ == from)
}

/// All sessions but `i` are untouched.
pub open spec fn same_except(pre: Seq<ModelUser>, post: Seq<ModelUser>, i: int) -> bool {
    &&& post.len() == pre.len()
    &&& forall|j: int| 0 <= j < pre.len() && j != i ==> post[j] == #[trigger] pre[j]
}

/// Session `i` unchanged but for one entry appended to its transcript.
pub open spec fn only_answered(pre: ModelUser, post: ModelUser, out: S2CConnectToUserResult) -> bool {
    &&& post.username == pre.username
    &&& post.state == pre.state
    &&& post.slot == pre.slot
    &&& post.to_client@ == pre.to_client@ + seq![ClientOut::Outcome(out)]
}

/// The transition a `ConnectToUser{target}` frame from session `a`'s client
/// causes, following the brokering protocol's initiator side.
pub open spec fn frame_connect_post(
    pre: Seq<ModelUser>,
    post: Seq<ModelUser>,
    a: int,
    target: Seq<char>,
) -> bool {
    match lookup(pre, target) {
        // No registered mailbox: `UserOffline`, no mailbox traffic.
        None => {
            &&& same_except(pre, post, a)
            &&& only_answered(pre[a], post[a], S2CConnectToUserResult::UserOffline)
        },
        Some(b) => if pre[b].slot is Some {
            // The target's single slot is occupied: `UserBusy` at once.
            &&& same_except(pre, post, a)
            &&& only_answered(pre[a], post[a], S2CConnectToUserResult::UserBusy)
        } else if b != a {
            // The request takes the slot; the initiator listens.
            &&& post.len() == pre.len()
            &&& forall|j: int| 0 <= j < pre.len() && j != a && j != b ==> post[j] == #[trigger] pre[j]
            &&& post[a].username == pre[a].username
            &&& is_listening(post[a].state, target)
            &&& post[a].slot == pre[a].slot
            &&& post[a].to_client == pre[a].to_client
            &&& post[b].username == pre[b].username
            &&& post[b].state == pre[b].state
            &&& slot_holds(post[b].slot, pre[a].username@, ChannelMsg::ConnectToUser)
            &&& post[b].to_client == pre[b].to_client
        } else {
            // A session asking for its own name fills its own slot.
            &&& same_except(pre, post, a)
            &&& post[a].username == pre[a].username
            &&& is_listening(post[a].state, target)
            &&& slot_holds(post[a].slot, pre[a].username@, ChannelMsg::ConnectToUser)
            &&& post[a].to_client == pre[a].to_client
        },
    }
}

/// The transition delivering the event in session `i`'s slot causes. In the
/// idle state the event is heard; while listening it is filtered against the
/// expected peer; a session awaiting its client's verdict does not read its
/// mailbox at all.
pub open spec fn deliver_post(
    pre: Seq<ModelUser>,
    post: Seq<ModelUser>,
    i: int,
    violation: bool,
) -> bool {
    pre[i].slot matches Some(m) && match pre[i].state {
        SessionState::Idle => {
            if m.message is ConnectToUser {
                // Forward the ask to the local client and await its verdict.
                &&& same_except(pre, post, i)
                &&& post[i].username == pre[i].username
                &&& is_awaiting(post[i].state, m.from@)
                &&& post[i].slot is None
                &&& appended_ask(pre[i].to_client@, post[i].to_client@, m.from@)
                &&& !violation
            } else {
                // A reply without a pending exchange: protocol violation,
                // fatal for the session.
                &&& same_except(pre, post, i)
                &&& post[i].username == pre[i].username
                &&& post[i].state == pre[i].state
                &&& post[i].slot is None
                &&& post[i].to_client == pre[i].to_client
                &&& violation
            }
        },
        SessionState::Listening { peer } => {
            if m.from@ == peer@ {
                // The awaited answer: reply to the client, back to idle.
                &&& same_except(pre, post, i)
                &&& post[i].username == pre[i].username
                &&& post[i].state is Idle
                &&& post[i].slot is None
                &&& post[i].to_client@ == pre[i].to_client@ + seq![
                    ClientOut::Outcome(spec_reply_for_listen(Some(m.message))),
                ]
                &&& !violation
            } else {
                // Someone else knocked: best-effort busy notice back to
                // them, and the wait goes on with the same deadline.
                &&& post.len() == pre.len()
                &&& post[i].username == pre[i].username
                &&& post[i].state == pre[i].state
                &&& post[i].slot is None
                &&& post[i].to_client == pre[i].to_client
                &&& match lookup(pre, m.from@) {
                    Some(s) if s != i && pre[s].slot is None => {
                        &&& forall|j: int|
                            0 <= j < pre.len() && j != i && j != s ==> post[j] == #[trigger] pre[j]
                        &&& post[s].username == pre[s].username
                        &&& post[s].state == pre[s].state
                        &&& slot_holds(post[s].slot, pre[i].username@, ChannelMsg::UserBusy)
                        &&& post[s].to_client == pre[s].to_client
                    },
                    _ => forall|j: int|
                        0 <= j < pre.len() && j != i ==> post[j] == #[trigger] pre[j],
                }
                &&& !violation
            }
        },
        SessionState::AwaitingClientReply { .. } => false,
    }
}

/// The transition session `b`'s client's verdict causes: the verdict is
/// turned into a brokering event for the initiator, best-effort for a
/// reject, owed for an accept; an initiator that went offline is simply not
/// told.
pub open spec fn client_reply_post(
    pre: Seq<ModelUser>,
    post: Seq<ModelUser>,
    b: int,
    reply: C2SConnectToUserResult,
    delivered: bool,
) -> bool {
    pre[b].state matches SessionState::AwaitingClientReply { peer } && {
        &&& post.len() == pre.len()
        &&& post[b].username == pre[b].username
        &&& post[b].state is Idle
        &&& post[b].slot == pre[b].slot
        &&& post[b].to_client == pre[b].to_client
        &&& match lookup(pre, peer@) {
            Some(a) if a != b && pre[a].slot is None => {
                &&& forall|j: int|
                    0 <= j < pre.len() && j != b && j != a ==> post[j] == #[trigger] pre[j]
                &&& post[a].username == pre[a].username
                &&& post[a].state == pre[a].state
                &&& slot_holds(post[a].slot, pre[b].username@, spec_reply_msg(reply))
                &&& post[a].to_client == pre[a].to_client
                &&& delivered
            },
            _ => {
                // The initiator is gone, is this session itself, or its
                // slot is occupied: a reject is dropped; an accept would
                // block until the slot frees, which the atomic model
                // reports instead of waiting out.
                &&& forall|j: int| 0 <= j < pre.len() && j != b ==> post[j] == #[trigger] pre[j]
                &&& !delivered
            },
        }
    }
}

/// The transition session `a`'s listen deadline causes when it elapses
/// without a matching reply: the client reads `UserBusy` — the same answer
/// as an explicit busy notice, by design — and the session is idle again.
pub open spec fn listen_timeout_post(pre: Seq<ModelUser>, post: Seq<ModelUser>, a: int) -> bool {
    &&& pre[a].state is Listening
    &&& same_except(pre, post, a)
    &&& post[a].username == pre[a].username
    &&& post[a].state is Idle
    &&& post[a].slot == pre[a].slot
    &&& post[a].to_client@ == pre[a].to_client@ + seq![
        ClientOut::Outcome(spec_reply_for_listen(None)),
    ]
}

impl Model {
    /// The registry invariant over the whole model.
    pub open spec fn wf(&self) -> bool {
        users_wf(self.users@)
    }

    /// An empty service: nobody online.
    pub fn new() -> (r: Model)
        ensures
            r.wf(),
            r.users@.len() == 0,
    {
        Model { users: Vec::new() }
    }

    /// The index registered under a username, if any.
    fn find(&self, name: &ShortIdStr) -> (r: Option<usize>)
        requires
            self.wf(),
        ensures
            r matches Some(i) ==> lookup(self.users@, name@) == Some(i as int) && i
                < self.users@.len(),
            r is None ==> lookup(self.users@, name@) is None,
    {
        let mut i: usize = 0;
        while i < self.users.len()
            invariant
                self.wf(),
                i <= self.users@.len(),
                forall|j: int| 0 <= j < i ==> (#[trigger] self.users@[j]).username@ != name@,
            decreases self.users@.len() - i,
        {
            if self.users[i].username == *name {
                proof {
                    lemma_lookup(self.users@, i as int);
                }
                return Some(i);
            }
            i += 1;
        }
        None
    }

    /// Registers a fresh idle session under a username; refused exactly when
    /// the username is already held.
    pub fn register_user(&mut self, username: ShortIdStr) -> (r: bool)
        requires
            old(self).wf(),
            username.wf(),
        ensures
            final(self).wf(),
            r == (lookup(old(self).users@, username@) is None),
            !r ==> final(self).users@ == old(self).users@,
            r ==> {
                &&& final(self).users@.len() == old(self).users@.len() + 1
                &&& final(self).users@.subrange(0, old(self).users@.len() as int) == old(
                    self,
                ).users@
                &&& final(self).users@.last().username@ == username@
                &&& final(self).users@.last().state is Idle
                &&& final(self).users@.last().slot is None
                &&& final(self).users@.last().to_client@.len() == 0
            },
    {
        if self.find(&username).is_some() {
            return false;
        }
        let ghost pre = self.users@;
        self.users.push(
            ModelUser {
                username,
                state: SessionState::Idle,
                slot: None,
                to_client: Vec::new(),
            },
        );
        proof {
            assert(self.users@.subrange(0, pre.len() as int) =~= pre);
            assert forall|x: int, y: int|
                0 <= x < y < self.users@.len() implies (#[trigger] self.users@[x]).username@ != (
            #[trigger] self.users@[y]).username@ by {
                if y < self.users@.len() - 1 {
                    assert(pre[x].username@ != pre[y].username@);
                } else {
                    assert(self.users@[x] == pre[x]);
                    assert(!(0 <= x < pre.len() && (#[trigger] pre[x]).username@
                        == self.users@[y].username@));
                }
            }
            assert forall|x: int| 0 <= x < self.users@.len() implies (
            #[trigger] self.users@[x]).username.wf() by {
                if x < self.users@.len() - 1 {
                    assert(pre[x].username.wf());
                }
            }
        }
        true
    }

    /// Removes the session registered under a username: the transport
    /// closed. The username becomes available again.
    pub fn deregister_user(&mut self, username: &ShortIdStr)
        requires
            old(self).wf(),
        ensures
            final(self).wf(),
            lookup(final(self).users@, username@) is None,
    {
        match self.find(username) {
            Some(i) => {
                let ghost pre = self.users@;
                self.users.remove(i);
                proof {
                    assert forall|x: int, y: int|
                        0 <= x < y < self.users@.len() implies (#[trigger] self.users@[x]).username@
                        != (#[trigger] self.users@[y]).username@ by {
                        let px: int = if x < i { x } else { x + 1 };
                        let py: int = if y < i { y } else { y + 1 };
                        assert(pre[px].username@ != pre[py].username@);
                    }
                    assert forall|x: int| 0 <= x < self.users@.len() implies (
                    #[trigger] self.users@[x]).username.wf() by {
                        let px: int = if x < i { x } else { x + 1 };
                        assert(pre[px].username.wf());
                    }
                    if exists|j: int|
                        0 <= j < self.users@.len() && (#[trigger] self.users@[j]).username@
                            == username@ {
                        let j = choose|j: int|
                            0 <= j < self.users@.len() && (#[trigger] self.users@[j]).username@
                                == username@;
                        let pj: int = if j < i { j } else { j + 1 };
                        assert(pre[pj].username@ == username@);
                        assert(pre[i as int].username@ == username@);
                    }
                }
            },
            None => {
                proof {
                    if exists|j: int|
                        0 <= j < self.users@.len() && (#[trigger] self.users@[j]).username@
                            == username@ {
                        let j = choose|j: int|
                            0 <= j < self.users@.len() && (#[trigger] self.users@[j]).username@
                                == username@;
                        assert(lookup(self.users@, username@) is Some);
                    }
                }
            },
        }
    }

    /// Session `a`'s client asks to connect to `target`.
    pub fn frame_connect(&mut self, a: usize, target: &ShortIdStr)
        requires
            old(self).wf(),
            a < old(self).users@.len(),
            old(self).users@[a as int].state is Idle,
        ensures
            final(self).wf(),
            frame_connect_post(old(self).users@, final(self).users@, a as int, target@),
    {
        let found = self.find(target);
        match found {
            None => {
                self.users[a].to_client.push(
                    ClientOut::Outcome(S2CConnectToUserResult::UserOffline),
                );
                proof {
                    assert(self.users@[a as int].to_client@ =~= old(self).users@[a as int].to_client@
                        + seq![ClientOut::Outcome(S2CConnectToUserResult::UserOffline)]);
                    self.lemma_wf_after_update(old(self).users@, a as int);
                }
            },
            Some(b) => {
                let slot_occupied = self.users[b].slot.is_some();
                match initiate_connect(true, !slot_occupied) {
                    InitiateStep::ReplyNow(answer) => {
                        self.users[a].to_client.push(ClientOut::Outcome(answer));
                        proof {
                            assert(self.users@[a as int].to_client@ =~= old(
                                self,
                            ).users@[a as int].to_client@ + seq![ClientOut::Outcome(answer)]);
                            self.lemma_wf_after_update(old(self).users@, a as int);
                        }
                    },
                    InitiateStep::AwaitPeer => {
                        let me = self.users[a].username.clone();
                        self.users[b].slot = Some(
                            ChannelMsgWithSender { from: me, message: ChannelMsg::ConnectToUser },
                        );
                        self.users[a].state = SessionState::Listening { peer: target.clone() };
                        proof {
                            self.lemma_wf_after_update2(old(self).users@, a as int, b as int);
                        }
                    },
                }
            },
        }
    }

    /// Delivers the event in session `i`'s slot; says whether it broke the
    /// protocol invariant (fatal for the session in the real service).
    pub fn deliver(&mut self, i: usize) -> (violation: bool)
        requires
            old(self).wf(),
            i < old(self).users@.len(),
            old(self).users@[i as int].slot is Some,
            !(old(self).users@[i as int].state is AwaitingClientReply),
        ensures
            final(self).wf(),
            deliver_post(old(self).users@, final(self).users@, i as int, violation),
    {
        let (from, message): (ShortIdStr, ChannelMsg) = match &self.users[i].slot {
            Some(m) => (m.from.clone(), m.message),
            None => {
                proof {
                    assert(false);
                }
                return false;
            },
        };
        let listening_peer: Option<ShortIdStr> = match &self.users[i].state {
            SessionState::Listening { peer } => Some(peer.clone()),
            _ => None,
        };
        if let Some(peer) = listening_peer {
            let step = listen_step(&peer, ChannelMsgWithSender { from: from.clone(), message });
            match step {
                ListenStep::Deliver(delivered) => {
                    let answer = reply_for_listen(Some(delivered));
                    self.users[i].slot = None;
                    self.users[i].state = SessionState::Idle;
                    self.users[i].to_client.push(ClientOut::Outcome(answer));
                    proof {
                        assert(self.users@[i as int].to_client@ =~= old(
                            self,
                        ).users@[i as int].to_client@ + seq![ClientOut::Outcome(answer)]);
                        self.lemma_wf_after_update(old(self).users@, i as int);
                    }
                    false
                },
                ListenStep::NotifyBusy(other) => {
                    let me = self.users[i].username.clone();
                    let found = self.find(&other);
                    self.users[i].slot = None;
                    match found {
                        Some(s) => {
                            if s != i && self.users[s].slot.is_none() {
                                self.users[s].slot = Some(
                                    ChannelMsgWithSender {
                                        from: me,
                                        message: ChannelMsg::UserBusy,
                                    },
                                );
                                proof {
                                    self.lemma_wf_after_update2(
                                        old(self).users@,
                                        i as int,
                                        s as int,
                                    );
                                }
                            } else {
                                proof {
                                    self.lemma_wf_after_update(old(self).users@, i as int);
                                }
                            }
                            false
                        },
                        None => {
                            proof {
                                self.lemma_wf_after_update(old(self).users@, i as int);
                            }
                            false
                        },
                    }
                },
            }
        } else {
            let step = hear_idle(ChannelMsgWithSender { from, message });
            self.users[i].slot = None;
            match step {
                HearStep::Forward(ask) => {
                    let asker = ask.username.clone();
                    self.users[i].to_client.push(
                        ClientOut::Ask(ConnectToUser { username: asker }),
                    );
                    self.users[i].state = SessionState::AwaitingClientReply {
                        peer: ask.username,
                    };
                    proof {
                        assert(self.users@[i as int].to_client@.subrange(
                            0,
                            old(self).users@[i as int].to_client@.len() as int,
                        ) =~= old(self).users@[i as int].to_client@);
                        self.lemma_wf_after_update(old(self).users@, i as int);
                    }
                    false
                },
                HearStep::Violation => {
                    proof {
                        self.lemma_wf_after_update(old(self).users@, i as int);
                    }
                    true
                },
            }
        }
    }

    /// Session `b`'s client answers the forwarded request; returns whether
    /// the verdict reached the initiator's mailbox.
    pub fn client_reply(&mut self, b: usize, reply: C2SConnectToUserResult) -> (delivered: bool)
        requires
            old(self).wf(),
            b < old(self).users@.len(),
            old(self).users@[b as int].state is AwaitingClientReply,
        ensures
            final(self).wf(),
            client_reply_post(old(self).users@, final(self).users@, b as int, reply, delivered),
    {
        let peer = match &self.users[b].state {
            SessionState::AwaitingClientReply { peer } => peer.clone(),
            _ => {
                proof {
                    assert(false);
                }
                return false;
            },
        };
        let me = self.users[b].username.clone();
        let found = self.find(&peer);
        let (message, _blocking) = crate::broker::client_reply_action(reply);
        self.users[b].state = SessionState::Idle;
        match found {
            Some(a) => {
                if a != b && self.users[a].slot.is_none() {
                    self.users[a].slot = Some(ChannelMsgWithSender { from: me, message });
                    proof {
                        self.lemma_wf_after_update2(old(self).users@, b as int, a as int);
                    }
                    true
                } else {
                    proof {
                        self.lemma_wf_after_update(old(self).users@, b as int);
                    }
                    false
                }
            },
            None => {
                proof {
                    self.lemma_wf_after_update(old(self).users@, b as int);
                }
                false
            },
        }
    }

    /// Session `a`'s listen deadline elapses without a matching reply.
    pub fn listen_timeout(&mut self, a: usize)
        requires
            old(self).wf(),
            a < old(self).users@.len(),
            old(self).users@[a as int].state is Listening,
        ensures
            final(self).wf(),
            listen_timeout_post(old(self).users@, final(self).users@, a as int),
    {
        let answer = reply_for_listen(None);
        self.users[a].state = SessionState::Idle;
        self.users[a].to_client.push(ClientOut::Outcome(answer));
        proof {
            assert(self.users@[a as int].to_client@ =~= old(self).users@[a as int].to_client@
                + seq![ClientOut::Outcome(answer)]);
            self.lemma_wf_after_update(old(self).users@, a as int);
        }
    }

    /// Changing a session's state, slot or transcript leaves the registry
    /// invariant intact as long as its username stays.
    proof fn lemma_wf_after_update(&self, pre: Seq<ModelUser>, i: int)
        requires
            users_wf(pre),
            self.users@.len() == pre.len(),
            0 <= i < pre.len(),
            self.users@[i].username == pre[i].username,
            forall|j: int| 0 <= j < pre.len() && j != i ==> self.users@[j] == #[trigger] pre[j],
        ensures
            self.wf(),
    {
        assert forall|x: int, y: int|
            0 <= x < y < self.users@.len() implies (#[trigger] self.users@[x]).username@ != (
        #[trigger] self.users@[y]).username@ by {
            assert(pre[x].username@ != pre[y].username@);
        }
        assert forall|x: int| 0 <= x < self.users@.len() implies (
        #[trigger] self.users@[x]).username.wf() by {
            assert(pre[x].username.wf());
        }
    }

    /// The same, for two touched sessions.
    proof fn lemma_wf_after_update2(&self, pre: Seq<ModelUser>, i: int, k: int)
        requires
            users_wf(pre),
            self.users@.len() == pre.len(),
            0 <= i < pre.len(),
            0 <= k < pre.len(),
            self.users@[i].username == pre[i].username,
            self.users@[k].username == pre[k].username,
            forall|j: int|
                0 <= j < pre.len() && j != i && j != k ==> self.users@[j] == #[trigger] pre[j],
        ensures
            self.wf(),
    {
        assert forall|x: int, y: int|
            0 <= x < y < self.users@.len() implies (#[trigger] self.users@[x]).username@ != (
        #[trigger] self.users@[y]).username@ by {
            assert(pre[x].username@ != pre[y].username@);
        }
        assert forall|x: int| 0 <= x < self.users@.len() implies (
        #[trigger] self.users@[x]).username.wf() by {
            assert(pre[x].username.wf());
        }
    }
}

} // verus!
