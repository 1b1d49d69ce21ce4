use colabie::broker::{
    handshake_on_ack, handshake_on_auth_response, make_auth_request, reply_for_listen,
    AckOutcome, HandshakeState, SessionState,
};
use colabie::channels::{new_mailbox, ChannelMsg, TellError};
use colabie::error::ServieError;
use colabie::identity::{record_path, ShortIdStr};
use colabie::messages::{
    C2SAck, C2SConnectToUserResult, ConnectToUser, S2CAuthResult, S2CConnectToUserResult,
    AUTH_SIZE,
};
use colabie::model::{ClientOut, Model};
use colabie::registry::UserChannels;

fn name(s: &str) -> ShortIdStr {
    ShortIdStr::new(s).unwrap()
}

fn two_online() -> Model {
    let mut m = Model::new();
    assert!(m.register_user(name("alice")));
    assert!(m.register_user(name("bob")));
    m
}

fn last_outcome(m: &Model, i: usize) -> S2CConnectToUserResult {
    match m.users[i].to_client.last().unwrap() {
        ClientOut::Outcome(r) => *r,
        ClientOut::Ask(_) => panic!("expected an outcome, found a forwarded ask"),
    }
}

#[test]
fn accept_flow_delivers_accept_and_one_ask() {
    let mut m = two_online();
    m.frame_connect(0, &name("bob"));
    assert!(!m.deliver(1));
    assert!(m.client_reply(1, C2SConnectToUserResult::Accept));
    assert!(!m.deliver(0));

    assert_eq!(last_outcome(&m, 0), S2CConnectToUserResult::Accept);
    assert_eq!(m.users[1].to_client.len(), 1);
    match &m.users[1].to_client[0] {
        ClientOut::Ask(ConnectToUser { username }) => assert_eq!(*username, name("alice")),
        ClientOut::Outcome(_) => panic!("expected the forwarded ask"),
    }
}

#[test]
fn reject_flow_delivers_reject() {
    let mut m = two_online();
    m.frame_connect(0, &name("bob"));
    assert!(!m.deliver(1));
    assert!(m.client_reply(1, C2SConnectToUserResult::Reject));
    assert!(!m.deliver(0));
    assert_eq!(last_outcome(&m, 0), S2CConnectToUserResult::Reject);
}

#[test]
fn offline_target_answers_user_offline() {
    let mut m = two_online();
    m.frame_connect(0, &name("carol"));
    assert_eq!(last_outcome(&m, 0), S2CConnectToUserResult::UserOffline);
    // No mailbox traffic was generated.
    assert!(m.users[0].slot.is_none());
    assert!(m.users[1].slot.is_none());
    assert!(matches!(m.users[0].state, SessionState::Idle));
}

#[test]
fn busy_target_answers_user_busy_immediately() {
    let mut m = two_online();
    assert!(m.register_user(name("carol")));
    // Carol's request occupies bob's single slot.
    m.frame_connect(2, &name("bob"));
    assert!(m.users[1].slot.is_some());
    // Alice's request finds the slot taken: UserBusy with no waiting.
    m.frame_connect(0, &name("bob"));
    assert_eq!(last_outcome(&m, 0), S2CConnectToUserResult::UserBusy);
    assert!(matches!(m.users[0].state, SessionState::Idle));
}

#[test]
fn mutual_requests_accept_both_without_asking() {
    let mut m = two_online();
    m.frame_connect(0, &name("bob"));
    m.frame_connect(1, &name("alice"));
    assert!(!m.deliver(0));
    assert!(!m.deliver(1));

    assert_eq!(last_outcome(&m, 0), S2CConnectToUserResult::Accept);
    assert_eq!(last_outcome(&m, 1), S2CConnectToUserResult::Accept);
    // Neither client was ever shown a confirmation ask.
    assert_eq!(m.users[0].to_client.len(), 1);
    assert_eq!(m.users[1].to_client.len(), 1);
}

#[test]
fn listen_timeout_reads_as_user_busy() {
    let mut m = two_online();
    m.frame_connect(0, &name("bob"));
    m.listen_timeout(0);
    assert_eq!(last_outcome(&m, 0), S2CConnectToUserResult::UserBusy);
    assert_eq!(reply_for_listen(None), S2CConnectToUserResult::UserBusy);
}

#[test]
fn unexpected_knock_while_listening_gets_busy_notice() {
    let mut m = two_online();
    assert!(m.register_user(name("carol")));
    // Alice asks bob and listens.
    m.frame_connect(0, &name("bob"));
    // Carol asks alice meanwhile: her request lands in alice's slot.
    m.frame_connect(2, &name("alice"));
    // Alice's listen sees carol, not bob: carol is told UserBusy instead.
    assert!(!m.deliver(0));
    assert!(matches!(m.users[0].state, SessionState::Listening { .. }));
    assert!(m.users[2].slot.is_some());
    assert!(!m.deliver(2));
    assert_eq!(last_outcome(&m, 2), S2CConnectToUserResult::UserBusy);
}

#[test]
fn duplicate_registration_is_refused() {
    let mut m = Model::new();
    assert!(m.register_user(name("alice")));
    assert!(!m.register_user(name("alice")));

    let mut reg: UserChannels<u64> = UserChannels::new();
    assert!(reg.register(name("alice"), 7).is_ok());
    assert!(matches!(
        reg.register(name("alice"), 8),
        Err(ServieError::AlreadyOnline)
    ));
    assert!(reg.is_online(&name("alice")));
    assert_eq!(reg.get(&name("alice")), Some(&7));
}

#[test]
fn username_is_free_again_after_teardown() {
    let mut reg: UserChannels<u64> = UserChannels::new();
    assert!(reg.register(name("alice"), 7).is_ok());
    reg.remove(&name("alice"));
    assert!(!reg.is_online(&name("alice")));
    assert!(reg.register(name("alice"), 9).is_ok());

    let mut m = Model::new();
    assert!(m.register_user(name("alice")));
    m.deregister_user(&name("alice"));
    assert!(m.register_user(name("alice")));
}

#[test]
fn removal_is_idempotent() {
    let mut reg: UserChannels<u64> = UserChannels::new();
    reg.remove(&name("ghost"));
    assert!(reg.register(name("ghost"), 1).is_ok());
    reg.remove(&name("ghost"));
    reg.remove(&name("ghost"));
    assert!(!reg.is_online(&name("ghost")));
}

#[test]
fn handshake_refuses_duplicate_login_before_challenge() {
    let ack = C2SAck { username: name("alice") };
    let challenge = vec![0u8; AUTH_SIZE];
    let (state, outcome) = handshake_on_ack(HandshakeState::AwaitAck, ack, true, true, challenge);
    assert!(matches!(state, HandshakeState::Rejected));
    assert!(matches!(outcome, AckOutcome::Refuse(ServieError::AlreadyOnline)));
}

#[test]
fn handshake_refuses_unknown_username_like_bad_signature() {
    let ack = C2SAck { username: name("alice") };
    let challenge = vec![0u8; AUTH_SIZE];
    let (state, outcome) = handshake_on_ack(HandshakeState::AwaitAck, ack, false, false, challenge);
    assert!(matches!(state, HandshakeState::Rejected));
    assert!(matches!(outcome, AckOutcome::Refuse(ServieError::AuthFailure)));
}

#[test]
fn handshake_issues_challenge_and_settles_on_verdict() {
    let ack = C2SAck { username: name("alice") };
    let challenge = vec![7u8; AUTH_SIZE];
    let (state, outcome) =
        handshake_on_ack(HandshakeState::AwaitAck, ack, false, true, challenge.clone());
    let req = match outcome {
        AckOutcome::Challenge(req) => req,
        AckOutcome::Refuse(_) => panic!("expected a challenge"),
    };
    assert_eq!(req.random, challenge);

    let response = colabie::messages::C2SAuthRes { signed_random: vec![1u8; AUTH_SIZE] };
    let (authenticated, verdict) = handshake_on_auth_response(state, response, true);
    assert!(matches!(authenticated, HandshakeState::Authenticated { .. }));
    assert_eq!(verdict, S2CAuthResult::Success);
}

#[test]
fn handshake_failure_sends_failure_and_rejects() {
    let ack = C2SAck { username: name("bob") };
    let challenge = vec![0u8; AUTH_SIZE];
    let (state, _) = handshake_on_ack(HandshakeState::AwaitAck, ack, false, true, challenge);
    let response = colabie::messages::C2SAuthRes { signed_random: vec![0u8; AUTH_SIZE] };
    let (rejected, verdict) = handshake_on_auth_response(state, response, false);
    assert!(matches!(rejected, HandshakeState::Rejected));
    assert_eq!(verdict, S2CAuthResult::Failure);
}

#[test]
fn auth_request_has_the_fixed_challenge_size() {
    let req = make_auth_request().unwrap();
    assert_eq!(req.random.len(), AUTH_SIZE);
    let wire = req.serialize_buffered();
    // A two-byte size prefix naming AUTH_SIZE, then the challenge itself.
    assert_eq!(wire.len(), 2 + AUTH_SIZE);
    assert_eq!(wire[0], 8);
    assert_eq!(wire[1], 0);
    assert_eq!(&wire[2..], &req.random[..]);
}

#[test]
fn fresh_challenges_differ() {
    let first = make_auth_request().unwrap();
    let second = make_auth_request().unwrap();
    assert_ne!(first.random, second.random);
}

#[test]
fn mailbox_slot_refuses_a_second_message() {
    let (tx, rx) = new_mailbox();
    assert!(tx.try_tell(&name("alice"), ChannelMsg::ConnectToUser).is_ok());
    assert!(matches!(
        tx.try_tell(&name("bob"), ChannelMsg::UserBusy),
        Err(TellError::Full)
    ));
    drop(rx);
    assert!(matches!(
        tx.duplicate().try_tell(&name("bob"), ChannelMsg::UserBusy),
        Err(TellError::Closed)
    ));
}

#[test]
fn record_path_shards_by_leading_characters() {
    assert_eq!(record_path(&name("duskyelf")), "du/sk/duskyelf");
    assert_eq!(record_path(&name("abc")), "ab/c/abc");
    assert_eq!(record_path(&name("abcd")), "ab/cd/abcd");
}
