use mcadmin::connection::{
    ConnError, Connection, Phase, Received, Transport, AUTH_FAILED_ID, FIRST_ID, LAST_ID,
};
use mcadmin::frame::{decode, encode, FrameError, Packet, PacketKind, MAX_BODY_LEN};

fn reply(id: i16, body: &str) -> Vec<u8> {
    encode(id, PacketKind::Response, body).unwrap()
}

fn logged_in(quirks: bool) -> Connection {
    let (mut conn, _login) = Connection::open("secret", quirks).unwrap();
    let answer = encode(FIRST_ID, PacketKind::Command, "").unwrap();
    assert_eq!(conn.authenticate(&answer), Ok(()));
    conn
}

#[test]
fn open_hands_out_the_login_frame() {
    let (conn, login) = Connection::open("secret", true).unwrap();
    assert_eq!(conn.phase(), Phase::Authenticating);
    assert!(conn.quirks());
    assert_eq!(conn.last_id(), FIRST_ID);
    assert_eq!(
        decode(&login),
        Ok(Packet { id: FIRST_ID, kind: PacketKind::Login, body: "secret".to_string() })
    );
}

#[test]
fn open_refuses_a_secret_that_cannot_be_framed() {
    let long = "x".repeat(MAX_BODY_LEN + 1);
    assert!(matches!(
        Connection::open(&long, false),
        Err(ConnError::Frame(FrameError::BodyTooLarge))
    ));
    assert!(matches!(
        Connection::open("se\0cret", false),
        Err(ConnError::Frame(FrameError::EmbeddedTerminator))
    ));
}

#[test]
fn wrong_secret_is_rejected_and_closes() {
    let (mut conn, _login) = Connection::open("wrong", false).unwrap();
    let answer = encode(AUTH_FAILED_ID, PacketKind::Command, "").unwrap();
    assert_eq!(conn.authenticate(&answer), Err(ConnError::AuthRejected));
    assert_eq!(conn.phase(), Phase::Closed);
    assert!(conn.is_closed());
    // Nothing is sent or accepted any more.
    assert_eq!(conn.begin("list"), Err(ConnError::NotReady));
    assert_eq!(conn.receive(&reply(1, "x")), Err(ConnError::NotReady));
    assert_eq!(conn.authenticate(&answer), Err(ConnError::NotReady));
    assert_eq!(conn.phase(), Phase::Closed);
}

#[test]
fn login_answer_with_the_login_id_makes_ready() {
    let conn = logged_in(false);
    assert_eq!(conn.phase(), Phase::Ready);
    assert!(conn.is_ready());
}

#[test]
fn login_answer_with_another_id_is_a_desync() {
    let (mut conn, _login) = Connection::open("secret", false).unwrap();
    let answer = encode(FIRST_ID + 1, PacketKind::Command, "").unwrap();
    assert_eq!(conn.authenticate(&answer), Err(ConnError::ProtocolDesync));
    assert!(conn.is_closed());
}

#[test]
fn login_answer_that_is_no_frame_closes() {
    let (mut conn, _login) = Connection::open("secret", false).unwrap();
    assert_eq!(
        conn.authenticate(&[1, 2, 3]),
        Err(ConnError::Frame(FrameError::Truncated))
    );
    assert!(conn.is_closed());
}

#[test]
fn no_command_before_the_login_is_answered() {
    let (mut conn, _login) = Connection::open("secret", false).unwrap();
    assert_eq!(conn.begin("list"), Err(ConnError::NotReady));
    assert_eq!(conn.phase(), Phase::Authenticating);
    assert_eq!(conn.receive(&reply(1, "x")), Err(ConnError::NotReady));
    assert_eq!(conn.phase(), Phase::Authenticating);
}

#[test]
fn command_goes_out_under_the_next_id() {
    let mut conn = logged_in(false);
    let frame = conn.begin("list").unwrap();
    assert_eq!(
        decode(&frame),
        Ok(Packet { id: 2, kind: PacketKind::Command, body: "list".to_string() })
    );
    assert_eq!(conn.phase(), Phase::Awaiting);
    assert_eq!(conn.last_id(), 2);
    assert_eq!(conn.receive(&reply(2, "ok")), Ok(Received::Text("ok".to_string())));
    let frame = conn.begin("seed").unwrap();
    assert_eq!(decode(&frame).unwrap().id, 3);
}

#[test]
fn one_command_at_a_time() {
    let mut conn = logged_in(false);
    conn.begin("list").unwrap();
    assert_eq!(conn.begin("seed"), Err(ConnError::NotReady));
    assert_eq!(conn.phase(), Phase::Awaiting);
    assert_eq!(conn.last_id(), 2);
}

#[test]
fn reply_with_and_without_output() {
    let mut conn = logged_in(false);
    conn.begin("list").unwrap();
    assert_eq!(
        conn.receive(&reply(2, "There are 0 of a max of 20 players online: ")),
        Ok(Received::Text("There are 0 of a max of 20 players online: ".to_string()))
    );
    assert!(conn.is_ready());
    conn.begin("save-all").unwrap();
    assert_eq!(conn.receive(&reply(3, "")), Ok(Received::Empty));
    assert!(conn.is_ready());
}

#[test]
fn reply_with_a_wrong_id_is_a_desync() {
    let mut conn = logged_in(false);
    conn.begin("list").unwrap();
    assert_eq!(conn.receive(&reply(7, "late")), Err(ConnError::ProtocolDesync));
    assert!(conn.is_closed());
    assert_eq!(conn.begin("list"), Err(ConnError::NotReady));
}

#[test]
fn reply_that_is_no_frame_closes() {
    let mut conn = logged_in(false);
    conn.begin("list").unwrap();
    let mut bytes = reply(2, "ok");
    bytes.push(0);
    assert_eq!(
        conn.receive(&bytes),
        Err(ConnError::Frame(FrameError::LengthMismatch))
    );
    assert!(conn.is_closed());
}

#[test]
fn command_that_cannot_be_framed_ends_the_session() {
    let mut conn = logged_in(false);
    let long = "x".repeat(MAX_BODY_LEN + 1);
    assert_eq!(
        conn.begin(&long),
        Err(ConnError::Frame(FrameError::BodyTooLarge))
    );
    assert!(conn.is_closed());
    assert_eq!(conn.begin("list"), Err(ConnError::NotReady));
    let mut conn = logged_in(true);
    assert_eq!(
        conn.begin("li\0st"),
        Err(ConnError::Frame(FrameError::EmbeddedTerminator))
    );
    assert!(conn.is_closed());
}

#[test]
fn quirks_discard_one_empty_tail_of_the_reply_before() {
    let mut conn = logged_in(true);
    conn.begin("a").unwrap();
    assert_eq!(conn.receive(&reply(2, "ra")), Ok(Received::Text("ra".to_string())));
    conn.begin("b").unwrap();
    // The tail of the reply to "a" arrives late.
    assert_eq!(conn.receive(&reply(2, "")), Ok(Received::Discarded));
    assert_eq!(conn.phase(), Phase::Awaiting);
    assert_eq!(conn.receive(&reply(3, "rb")), Ok(Received::Text("rb".to_string())));
    assert!(conn.is_ready());
}

#[test]
fn quirks_discard_only_one_tail() {
    let mut conn = logged_in(true);
    conn.begin("a").unwrap();
    conn.receive(&reply(2, "ra")).unwrap();
    conn.begin("b").unwrap();
    assert_eq!(conn.receive(&reply(2, "")), Ok(Received::Discarded));
    assert_eq!(conn.receive(&reply(2, "")), Err(ConnError::ProtocolDesync));
    assert!(conn.is_closed());
}

#[test]
fn quirks_do_not_discard_a_tail_with_output() {
    let mut conn = logged_in(true);
    conn.begin("a").unwrap();
    conn.receive(&reply(2, "ra")).unwrap();
    conn.begin("b").unwrap();
    assert_eq!(conn.receive(&reply(2, "more")), Err(ConnError::ProtocolDesync));
    assert!(conn.is_closed());
}

#[test]
fn quirks_take_an_empty_reply_for_the_reply() {
    // An empty frame with the id of the pending command is its reply, not a tail.
    let mut conn = logged_in(true);
    conn.begin("a").unwrap();
    assert_eq!(conn.receive(&reply(2, "")), Ok(Received::Empty));
    assert!(conn.is_ready());
}

#[test]
fn quirks_discard_a_tail_that_comes_at_once() {
    let mut conn = logged_in(true);
    assert!(!conn.listens());
    conn.begin("a").unwrap();
    assert!(conn.listens());
    conn.receive(&reply(2, "ra")).unwrap();
    // Nothing is pending, but the tail of the reply may still come.
    assert!(conn.is_ready());
    assert!(conn.listens());
    assert_eq!(conn.receive(&reply(2, "")), Ok(Received::Discarded));
    assert!(conn.is_ready());
    assert!(!conn.listens());
    // There is no second tail to read.
    assert_eq!(conn.receive(&reply(2, "")), Err(ConnError::NotReady));
    assert!(conn.is_ready());
    assert_eq!(decode(&conn.begin("b").unwrap()).unwrap().id, 3);
}

#[test]
fn quirks_take_nothing_but_the_tail_while_nothing_is_pending() {
    let mut conn = logged_in(true);
    conn.begin("a").unwrap();
    conn.receive(&reply(2, "ra")).unwrap();
    assert_eq!(conn.receive(&reply(3, "")), Err(ConnError::ProtocolDesync));
    assert!(conn.is_closed());
    let mut conn = logged_in(true);
    conn.begin("a").unwrap();
    conn.receive(&reply(2, "ra")).unwrap();
    assert_eq!(conn.receive(&[0, 0]), Err(ConnError::Frame(FrameError::Truncated)));
    assert!(conn.is_closed());
}

#[test]
fn without_quirks_nothing_is_read_while_nothing_is_pending() {
    let mut conn = logged_in(false);
    conn.begin("a").unwrap();
    conn.receive(&reply(2, "ra")).unwrap();
    assert!(!conn.listens());
    assert_eq!(conn.receive(&reply(2, "")), Err(ConnError::NotReady));
    assert!(conn.is_ready());
}

#[test]
fn without_quirks_a_tail_is_a_desync() {
    let mut conn = logged_in(false);
    conn.begin("a").unwrap();
    conn.receive(&reply(2, "ra")).unwrap();
    conn.begin("b").unwrap();
    assert_eq!(conn.receive(&reply(2, "")), Err(ConnError::ProtocolDesync));
    assert!(conn.is_closed());
}

#[test]
fn abort_closes_with_the_error_of_the_cause() {
    let mut conn = logged_in(false);
    conn.begin("list").unwrap();
    assert_eq!(conn.abort(Transport::TimedOut), ConnError::Timeout);
    assert!(conn.is_closed());
    let mut conn = logged_in(false);
    assert_eq!(conn.abort(Transport::Failed), ConnError::Socket);
    assert!(conn.is_closed());
    assert_eq!(conn.begin("list"), Err(ConnError::NotReady));
}

#[test]
fn close_ends_the_session() {
    let mut conn = logged_in(true);
    conn.close();
    assert_eq!(conn.phase(), Phase::Closed);
    assert_eq!(conn.begin("list"), Err(ConnError::NotReady));
}

#[test]
fn ids_start_over_behind_the_largest() {
    let mut conn = logged_in(false);
    let mut expected = FIRST_ID;
    for _ in 0..(LAST_ID as usize + 2) {
        expected = if expected == LAST_ID { FIRST_ID } else { expected + 1 };
        let frame = conn.begin("x").unwrap();
        let id = decode(&frame).unwrap().id;
        assert_eq!(id, expected);
        assert!(id >= FIRST_ID);
        assert_eq!(conn.receive(&reply(id, "")), Ok(Received::Empty));
    }
    assert_eq!(conn.last_id(), 3);
}
