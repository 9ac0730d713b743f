use rps_server::codec::Frame;
use rps_server::connection::{Action, Connection, Event, Phase};
use rps_server::rock_paper_scissors::Option as Choice;

fn frame(content: &str) -> Event {
    Event::Frame(Frame::Text(content.to_string()))
}

fn send(content: &str) -> Action {
    Action::Send(content.to_string())
}

fn greeted() -> Connection {
    let mut conn = Connection::new();
    assert_eq!(conn.step(Event::Connected), send("Hi!"));
    conn
}

#[test]
fn new_connection_has_not_greeted() {
    let conn = Connection::new();
    assert_eq!(conn.phase(), Phase::Greeting);
    assert_eq!(conn.session().score, 0);
}

#[test]
fn greets_on_connect() {
    let mut conn = Connection::new();
    assert_eq!(conn.step(Event::Connected), send("Hi!"));
    assert_eq!(conn.phase(), Phase::Active);
    assert_eq!(conn.session().score, 0);
}

#[test]
fn waits_for_a_frame_once_the_greeting_is_sent() {
    let mut conn = greeted();
    assert_eq!(conn.step(Event::Sent), Action::Receive);
    assert_eq!(conn.phase(), Phase::Active);
}

#[test]
fn first_turn_applies_one_delta_from_zero() {
    let mut conn = greeted();
    assert_eq!(conn.step(Event::Sent), Action::Receive);
    let action = conn.step(frame(r#"{"Payload":"Rock"}"#));
    let score = conn.session().score;
    let win = send(r#"{"Result":{"turn_result":"Win","game":{"score":3}}}"#);
    let lose = send(r#"{"Result":{"turn_result":"Lose","game":{"score":0}}}"#);
    let draw = send(r#"{"Result":{"turn_result":"Draw","game":{"score":0}}}"#);
    assert!(action == win || action == lose || action == draw);
    assert_eq!(score == 3, action == win);
    assert!(score == 0 || score == 3);
    assert_eq!(conn.phase(), Phase::Active);
}

#[test]
fn lose_lose_win_scores_zero_zero_three() {
    let mut conn = greeted();
    assert_eq!(conn.session().score, 0);

    let action = conn.step_against(frame(r#"{"Payload":"Rock"}"#), Choice::Paper);
    assert_eq!(action, send(r#"{"Result":{"turn_result":"Lose","game":{"score":0}}}"#));
    assert_eq!(conn.session().score, 0);
    assert_eq!(conn.step(Event::Sent), Action::Receive);

    let action = conn.step_against(frame(r#"{"Payload":"Rock"}"#), Choice::Paper);
    assert_eq!(action, send(r#"{"Result":{"turn_result":"Lose","game":{"score":0}}}"#));
    assert_eq!(conn.session().score, 0);
    assert_eq!(conn.step(Event::Sent), Action::Receive);

    let action = conn.step_against(frame(r#"{"Payload":"Rock"}"#), Choice::Scissors);
    assert_eq!(action, send(r#"{"Result":{"turn_result":"Win","game":{"score":3}}}"#));
    assert_eq!(conn.session().score, 3);
}

#[test]
fn answer_reports_the_score_after_the_turn() {
    let mut conn = greeted();
    let action = conn.step_against(frame(r#"{"Payload":"Paper"}"#), Choice::Rock);
    assert_eq!(action, send(r#"{"Result":{"turn_result":"Win","game":{"score":3}}}"#));
    let action = conn.step_against(frame(r#"{"Payload":"Scissors"}"#), Choice::Paper);
    assert_eq!(action, send(r#"{"Result":{"turn_result":"Win","game":{"score":6}}}"#));
    let action = conn.step_against(frame(r#"{"Payload":"Scissors"}"#), Choice::Scissors);
    assert_eq!(action, send(r#"{"Result":{"turn_result":"Draw","game":{"score":6}}}"#));
    let action = conn.step_against(frame(r#"{"Payload":"Scissors"}"#), Choice::Rock);
    assert_eq!(action, send(r#"{"Result":{"turn_result":"Lose","game":{"score":5}}}"#));
    assert_eq!(conn.session().score, 5);
}

#[test]
fn decode_failure_is_answered_and_the_connection_stays_open() {
    let mut conn = greeted();
    let action = conn.step(frame(r#"{"Payload":"Lizard"}"#));
    assert_eq!(action, send(r#"{"Error":"InvalidRequest"}"#));
    assert_eq!(conn.phase(), Phase::Active);
    assert_eq!(conn.session().score, 0);
    assert_eq!(conn.step(Event::Sent), Action::Receive);

    let action = conn.step_against(frame(r#"{"Payload":"Rock"}"#), Choice::Scissors);
    assert_eq!(action, send(r#"{"Result":{"turn_result":"Win","game":{"score":3}}}"#));
    assert_eq!(conn.phase(), Phase::Active);
}

#[test]
fn malformed_frames_leave_the_score_alone() {
    let mut conn = greeted();
    conn.step_against(frame(r#"{"Payload":"Rock"}"#), Choice::Scissors);
    assert_eq!(conn.session().score, 3);
    for content in ["{}", "not json", r#"{"Payload":3}"#, ""] {
        assert_eq!(conn.step(frame(content)), send(r#"{"Error":"InvalidRequest"}"#));
        assert_eq!(conn.session().score, 3);
        assert_eq!(conn.phase(), Phase::Active);
    }
}

#[test]
fn unreadable_frame_is_answered_with_an_internal_error() {
    let mut conn = greeted();
    let action = conn.step(Event::Frame(Frame::Unreadable));
    assert_eq!(action, send(r#"{"Error":"InternalServerError"}"#));
    assert_eq!(conn.phase(), Phase::Active);
    assert_eq!(conn.session().score, 0);
}

#[test]
fn frames_of_other_kinds_are_passed_over() {
    let mut conn = greeted();
    assert_eq!(conn.step(Event::OtherFrame), Action::Receive);
    assert_eq!(conn.phase(), Phase::Active);
    assert_eq!(conn.session().score, 0);
}

#[test]
fn end_of_stream_closes() {
    let mut conn = greeted();
    assert_eq!(conn.step(Event::EndOfStream), Action::Close);
    assert_eq!(conn.phase(), Phase::Closed);
}

#[test]
fn receive_error_closes() {
    let mut conn = greeted();
    assert_eq!(conn.step(Event::ReceiveError), Action::Close);
    assert_eq!(conn.phase(), Phase::Closed);
}

#[test]
fn send_failure_closes() {
    let mut conn = greeted();
    let _ = conn.step_against(frame(r#"{"Payload":"Rock"}"#), Choice::Scissors);
    assert_eq!(conn.step(Event::SendFailed), Action::Close);
    assert_eq!(conn.phase(), Phase::Closed);
    assert_eq!(conn.session().score, 3);
}

#[test]
fn failed_greeting_closes() {
    let mut conn = Connection::new();
    assert_eq!(conn.step(Event::Connected), send("Hi!"));
    assert_eq!(conn.step(Event::SendFailed), Action::Close);
    assert_eq!(conn.phase(), Phase::Closed);
}

#[test]
fn transport_failure_before_the_greeting_closes() {
    for event in [Event::EndOfStream, Event::ReceiveError, Event::SendFailed] {
        let mut conn = Connection::new();
        assert_eq!(conn.step(event), Action::Close);
        assert_eq!(conn.phase(), Phase::Closed);
    }
}

#[test]
fn closed_connection_processes_nothing() {
    let mut conn = greeted();
    conn.step_against(frame(r#"{"Payload":"Rock"}"#), Choice::Scissors);
    assert_eq!(conn.step(Event::EndOfStream), Action::Close);
    let events = [
        Event::Connected,
        frame(r#"{"Payload":"Rock"}"#),
        Event::Frame(Frame::Unreadable),
        Event::OtherFrame,
        Event::Sent,
        Event::SendFailed,
        Event::EndOfStream,
        Event::ReceiveError,
    ];
    for event in events {
        assert_eq!(conn.step_against(event, Choice::Scissors), Action::Close);
        assert_eq!(conn.phase(), Phase::Closed);
        assert_eq!(conn.session().score, 3);
    }
}

#[test]
fn a_connection_that_has_not_greeted_greets_first() {
    let mut conn = Connection::new();
    assert_eq!(conn.step(frame(r#"{"Payload":"Rock"}"#)), send("Hi!"));
    assert_eq!(conn.phase(), Phase::Active);
    assert_eq!(conn.session().score, 0);
}

#[test]
fn two_connections_keep_their_own_scores() {
    let mut first = greeted();
    let mut second = greeted();

    first.step_against(frame(r#"{"Payload":"Rock"}"#), Choice::Scissors);
    assert_eq!(first.session().score, 3);
    assert_eq!(second.session().score, 0);

    second.step_against(frame(r#"{"Payload":"Paper"}"#), Choice::Rock);
    second.step_against(frame(r#"{"Payload":"Paper"}"#), Choice::Rock);
    assert_eq!(first.session().score, 3);
    assert_eq!(second.session().score, 6);

    first.step_against(frame(r#"{"Payload":"Rock"}"#), Choice::Paper);
    assert_eq!(first.session().score, 2);
    assert_eq!(second.session().score, 6);

    assert_eq!(first.step(Event::EndOfStream), Action::Close);
    assert_eq!(second.phase(), Phase::Active);
    second.step_against(frame(r#"{"Payload":"Paper"}"#), Choice::Scissors);
    assert_eq!(second.session().score, 5);
    assert_eq!(first.session().score, 2);
}

#[test]
fn random_turns_keep_answer_and_session_in_step() {
    let mut conn = greeted();
    for _ in 0..100 {
        let before = conn.session().score;
        let action = conn.step(frame(r#"{"Payload":"Scissors"}"#));
        let after = conn.session().score;
        let outcome = if after == before.saturating_add(3) && after != before {
            "Win"
        } else if after == before {
            if action == send(&format!(
                r#"{{"Result":{{"turn_result":"Lose","game":{{"score":{}}}}}}}"#,
                after
            )) {
                "Lose"
            } else {
                "Draw"
            }
        } else {
            assert_eq!(after, before - 1);
            "Lose"
        };
        assert_eq!(
            action,
            send(&format!(
                r#"{{"Result":{{"turn_result":"{}","game":{{"score":{}}}}}}}"#,
                outcome, after
            ))
        );
        assert_eq!(conn.step(Event::Sent), Action::Receive);
    }
}
