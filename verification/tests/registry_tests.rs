use async_chat::registry::{ChatState, Delivery};
use async_chat::JoinError;
use tokio::sync::mpsc::error::TryRecvError;
use tokio::sync::mpsc::unbounded_channel;

#[test]
fn new_registry_is_empty() {
    let state = ChatState::new();
    assert_eq!(state.len(), 0);
    assert!(!state.contains("alice"));
}

#[test]
fn join_registers_the_username() {
    let mut state = ChatState::new();
    let (tx, _rx) = unbounded_channel::<String>();
    assert_eq!(state.join("alice".to_string(), tx), Ok(()));
    assert!(state.contains("alice"));
    assert!(!state.contains("bob"));
    assert_eq!(state.len(), 1);
}

#[test]
fn second_join_with_same_username_is_refused() {
    let mut state = ChatState::new();
    let (tx1, mut rx1) = unbounded_channel::<String>();
    let (tx2, mut rx2) = unbounded_channel::<String>();
    let (tx3, _rx3) = unbounded_channel::<String>();
    assert_eq!(state.join("alice".to_string(), tx1), Ok(()));
    assert_eq!(
        state.join("alice".to_string(), tx2),
        Err(JoinError::UsernameTaken("alice".to_string()))
    );
    assert_eq!(state.len(), 1);

    // The first session still holds the name with its own queue.
    assert_eq!(state.join("bob".to_string(), tx3), Ok(()));
    state.broadcast("bob", "hello");
    assert_eq!(rx1.try_recv(), Ok("FROM bob hello\n".to_string()));
    assert_eq!(rx2.try_recv(), Err(TryRecvError::Disconnected));
}

#[test]
fn usernames_are_case_sensitive_and_not_normalized() {
    let mut state = ChatState::new();
    let (tx1, _rx1) = unbounded_channel::<String>();
    let (tx2, _rx2) = unbounded_channel::<String>();
    let (tx3, _rx3) = unbounded_channel::<String>();
    assert_eq!(state.join("alice".to_string(), tx1), Ok(()));
    assert_eq!(state.join("Alice".to_string(), tx2), Ok(()));
    assert_eq!(state.join("alice ".to_string(), tx3), Ok(()));
    assert_eq!(state.len(), 3);
}

#[test]
fn username_is_reusable_after_leave() {
    let mut state = ChatState::new();
    let (tx1, _rx1) = unbounded_channel::<String>();
    let (tx2, mut rx2) = unbounded_channel::<String>();
    let (tx3, _rx3) = unbounded_channel::<String>();
    assert_eq!(state.join("alice".to_string(), tx1), Ok(()));
    state.leave("alice");
    assert!(!state.contains("alice"));
    assert_eq!(state.join("alice".to_string(), tx2), Ok(()));
    assert!(state.contains("alice"));

    // The name now leads to the new session's queue.
    assert_eq!(state.join("bob".to_string(), tx3), Ok(()));
    state.broadcast("bob", "back");
    assert_eq!(rx2.try_recv(), Ok("FROM bob back\n".to_string()));
}

#[test]
fn leave_of_unknown_username_changes_nothing() {
    let mut state = ChatState::new();
    let (tx, _rx) = unbounded_channel::<String>();
    state.leave("ghost");
    assert_eq!(state.len(), 0);
    assert_eq!(state.join("alice".to_string(), tx), Ok(()));
    state.leave("ghost");
    state.leave("Alice");
    assert!(state.contains("alice"));
    assert_eq!(state.len(), 1);
    state.leave("alice");
    state.leave("alice");
    assert_eq!(state.len(), 0);
}

#[test]
fn leave_keeps_the_other_users() {
    let mut state = ChatState::new();
    let (tx1, _rx1) = unbounded_channel::<String>();
    let (tx2, mut rx2) = unbounded_channel::<String>();
    let (tx3, mut rx3) = unbounded_channel::<String>();
    assert_eq!(state.join("alice".to_string(), tx1), Ok(()));
    assert_eq!(state.join("bob".to_string(), tx2), Ok(()));
    assert_eq!(state.join("carol".to_string(), tx3), Ok(()));
    state.leave("alice");
    assert_eq!(state.len(), 2);
    assert!(state.contains("bob"));
    assert!(state.contains("carol"));
    state.broadcast("carol", "still here");
    assert_eq!(rx2.try_recv(), Ok("FROM carol still here\n".to_string()));
    assert_eq!(rx3.try_recv(), Err(TryRecvError::Empty));
}

#[test]
fn broadcast_reaches_everyone_but_the_sender_once() {
    let mut state = ChatState::new();
    let (tx_a, mut rx_a) = unbounded_channel::<String>();
    let (tx_b, mut rx_b) = unbounded_channel::<String>();
    let (tx_c, mut rx_c) = unbounded_channel::<String>();
    assert_eq!(state.join("alice".to_string(), tx_a), Ok(()));
    assert_eq!(state.join("bob".to_string(), tx_b), Ok(()));
    assert_eq!(state.join("carol".to_string(), tx_c), Ok(()));

    let fanout = state.broadcast("alice", "hi");
    assert_eq!(fanout.payload, "FROM alice hi\n");
    let mut to: Vec<&str> = fanout.deliveries.iter().map(|d| d.to.as_str()).collect();
    to.sort();
    assert_eq!(to, vec!["bob", "carol"]);
    assert!(fanout.deliveries.iter().all(|d| d.accepted));

    assert_eq!(rx_a.try_recv(), Err(TryRecvError::Empty));
    assert_eq!(rx_b.try_recv(), Ok("FROM alice hi\n".to_string()));
    assert_eq!(rx_b.try_recv(), Err(TryRecvError::Empty));
    assert_eq!(rx_c.try_recv(), Ok("FROM alice hi\n".to_string()));
    assert_eq!(rx_c.try_recv(), Err(TryRecvError::Empty));
    assert_eq!(state.len(), 3);
}

#[test]
fn broadcast_with_nobody_else_sends_nothing() {
    let mut state = ChatState::new();
    let (tx, mut rx) = unbounded_channel::<String>();
    assert!(state.broadcast("alice", "anyone?").deliveries.is_empty());
    assert_eq!(state.join("alice".to_string(), tx), Ok(()));
    let fanout = state.broadcast("alice", "anyone?");
    assert_eq!(fanout.payload, "FROM alice anyone?\n");
    assert!(fanout.deliveries.is_empty());
    assert_eq!(rx.try_recv(), Err(TryRecvError::Empty));
}

#[test]
fn broadcast_from_an_unregistered_name_reaches_everyone() {
    let mut state = ChatState::new();
    let (tx_a, mut rx_a) = unbounded_channel::<String>();
    let (tx_b, mut rx_b) = unbounded_channel::<String>();
    assert_eq!(state.join("alice".to_string(), tx_a), Ok(()));
    assert_eq!(state.join("bob".to_string(), tx_b), Ok(()));
    let fanout = state.broadcast("mallory", "psst");
    assert_eq!(fanout.deliveries.len(), 2);
    assert_eq!(rx_a.try_recv(), Ok("FROM mallory psst\n".to_string()));
    assert_eq!(rx_b.try_recv(), Ok("FROM mallory psst\n".to_string()));
}

#[test]
fn broadcast_preserves_order_per_recipient() {
    let mut state = ChatState::new();
    let (tx_a, _rx_a) = unbounded_channel::<String>();
    let (tx_b, mut rx_b) = unbounded_channel::<String>();
    assert_eq!(state.join("alice".to_string(), tx_a), Ok(()));
    assert_eq!(state.join("bob".to_string(), tx_b), Ok(()));
    state.broadcast("alice", "one");
    state.broadcast("alice", "two");
    state.broadcast("alice", "");
    assert_eq!(rx_b.try_recv(), Ok("FROM alice one\n".to_string()));
    assert_eq!(rx_b.try_recv(), Ok("FROM alice two\n".to_string()));
    assert_eq!(rx_b.try_recv(), Ok("FROM alice \n".to_string()));
    assert_eq!(rx_b.try_recv(), Err(TryRecvError::Empty));
}

#[test]
fn broadcast_drops_silently_for_a_dead_peer_and_keeps_it_registered() {
    let mut state = ChatState::new();
    let (tx_a, _rx_a) = unbounded_channel::<String>();
    let (tx_b, rx_b) = unbounded_channel::<String>();
    let (tx_c, mut rx_c) = unbounded_channel::<String>();
    assert_eq!(state.join("alice".to_string(), tx_a), Ok(()));
    assert_eq!(state.join("bob".to_string(), tx_b), Ok(()));
    assert_eq!(state.join("carol".to_string(), tx_c), Ok(()));
    drop(rx_b);

    let fanout = state.broadcast("alice", "hi");
    let mut deliveries = fanout.deliveries;
    deliveries.sort_by(|x, y| x.to.cmp(&y.to));
    assert_eq!(
        deliveries,
        vec![
            Delivery { to: "bob".to_string(), accepted: false },
            Delivery { to: "carol".to_string(), accepted: true },
        ]
    );
    assert_eq!(rx_c.try_recv(), Ok("FROM alice hi\n".to_string()));
    assert!(state.contains("bob"));
    assert_eq!(state.len(), 3);
}

#[test]
fn broadcast_to_a_closed_queue_is_not_accepted() {
    let mut state = ChatState::new();
    let (tx_a, _rx_a) = unbounded_channel::<String>();
    let (tx_b, mut rx_b) = unbounded_channel::<String>();
    assert_eq!(state.join("alice".to_string(), tx_a), Ok(()));
    assert_eq!(state.join("bob".to_string(), tx_b), Ok(()));
    state.broadcast("alice", "before");
    rx_b.close();
    let fanout = state.broadcast("alice", "after");
    assert_eq!(fanout.deliveries, vec![Delivery { to: "bob".to_string(), accepted: false }]);
    assert_eq!(rx_b.try_recv(), Ok("FROM alice before\n".to_string()));
    assert_eq!(rx_b.try_recv(), Err(TryRecvError::Disconnected));
}

#[test]
fn join_error_names_the_username() {
    let error = JoinError::UsernameTaken("alice".to_string());
    assert_eq!(error.message(), "username `alice` is already taken");
    assert_eq!(JoinError::UsernameTaken(String::new()).message(), "username `` is already taken");
}
