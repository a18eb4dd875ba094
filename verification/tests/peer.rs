use hypersync::messages::{
    DataUpgrade, LogInfo, Message, Request, RequestBlock, RequestUpgrade, Synchronize,
};
use hypersync::peer::{assemble_content, initial_synchronize, on_data, on_synchronize, PeerState};

fn info(fork: u64, length: u64, contiguous_length: u64) -> LogInfo {
    LogInfo {
        fork,
        length,
        contiguous_length,
    }
}

fn announce(length: u64) -> Synchronize {
    Synchronize {
        fork: 0,
        length,
        remote_length: 0,
        can_upgrade: true,
        uploading: true,
        downloading: true,
    }
}

#[test]
fn the_session_opens_with_its_own_state() {
    let m = initial_synchronize(&info(3, 7, 7));
    assert_eq!(
        m,
        Synchronize {
            fork: 3,
            length: 7,
            remote_length: 0,
            can_upgrade: true,
            uploading: true,
            downloading: true,
        }
    );
}

#[test]
fn a_fresh_session_has_heard_nothing() {
    let state = PeerState::default();
    assert_eq!(state.remote_length, 0);
    assert!(!state.remote_can_upgrade);
    assert!(!state.remote_uploading);
    assert!(!state.remote_downloading);
    assert!(!state.remote_synced);
    assert_eq!(state.notified_length, None);
}

#[test]
fn a_new_remote_length_asks_for_an_upgrade() {
    let mut state = PeerState::default();
    let out = on_synchronize(&mut state, &info(0, 0, 0), &announce(5));
    assert_eq!(
        out,
        vec![
            Message::Synchronize(Synchronize {
                fork: 0,
                length: 0,
                remote_length: 5,
                can_upgrade: true,
                uploading: true,
                downloading: true,
            }),
            Message::Request(Request {
                id: 1,
                fork: 0,
                block: None,
                upgrade: Some(RequestUpgrade {
                    start: 0,
                    length: 5
                }),
            }),
        ]
    );
    assert_eq!(state.remote_length, 5);
    assert!(state.remote_synced);
}

#[test]
fn a_repeated_announcement_asks_for_nothing_again() {
    let mut state = PeerState::default();
    let first = on_synchronize(&mut state, &info(0, 0, 0), &announce(5));
    assert_eq!(first.len(), 2);
    let second = on_synchronize(&mut state, &info(0, 0, 0), &announce(5));
    assert_eq!(
        second,
        vec![Message::Synchronize(Synchronize {
            fork: 0,
            length: 0,
            remote_length: 5,
            can_upgrade: true,
            uploading: true,
            downloading: true,
        })]
    );
}

#[test]
fn an_announcement_not_reaching_past_the_log_asks_for_nothing() {
    let mut state = PeerState::default();
    let out = on_synchronize(&mut state, &info(0, 9, 9), &announce(4));
    assert_eq!(out.len(), 1);
    assert!(matches!(out[0], Message::Synchronize(_)));
}

#[test]
fn an_upgrade_proof_triggers_one_request_per_new_block() {
    let mut state = PeerState::default();
    state.remote_length = 5;
    let out = on_data(
        &mut state,
        &info(0, 0, 0),
        &info(0, 3, 0),
        &Some(DataUpgrade { length: 3 }),
    );
    assert_eq!(out.completion, None);
    assert_eq!(out.messages.len(), 4);
    assert_eq!(
        out.messages[0],
        Message::Synchronize(Synchronize {
            fork: 0,
            length: 3,
            remote_length: 5,
            can_upgrade: false,
            uploading: true,
            downloading: true,
        })
    );
    for index in 0u64..3 {
        assert_eq!(
            out.messages[(index + 1) as usize],
            Message::Request(Request {
                id: index + 1,
                fork: 0,
                block: Some(RequestBlock { index, nodes: 2 }),
                upgrade: None,
            })
        );
    }
}

#[test]
fn a_data_message_without_an_upgrade_sends_nothing() {
    let mut state = PeerState::default();
    let out = on_data(&mut state, &info(0, 3, 1), &info(0, 3, 2), &None);
    assert_eq!(out.completion, None);
    assert!(out.messages.is_empty());
}

#[test]
fn a_fully_synced_log_notifies_once_and_sends_nothing() {
    let mut state = PeerState::default();
    state.remote_length = 3;
    let out = on_data(
        &mut state,
        &info(0, 2, 2),
        &info(0, 3, 3),
        &Some(DataUpgrade { length: 3 }),
    );
    assert_eq!(out.completion, Some(3));
    assert!(out.messages.is_empty());
    assert_eq!(state.notified_length, Some(3));

    let again = on_data(&mut state, &info(0, 3, 3), &info(0, 3, 3), &None);
    assert_eq!(again.completion, None);
    assert!(again.messages.is_empty());
}

#[test]
fn the_notification_returns_when_the_length_grows() {
    let mut state = PeerState::default();
    let first = on_data(&mut state, &info(0, 2, 2), &info(0, 3, 3), &None);
    assert_eq!(first.completion, Some(3));
    let grown = on_data(&mut state, &info(0, 3, 3), &info(0, 5, 5), &None);
    assert_eq!(grown.completion, Some(5));
    let repeat = on_data(&mut state, &info(0, 5, 5), &info(0, 5, 5), &None);
    assert_eq!(repeat.completion, None);
}

#[test]
fn assemble_content_concatenates_the_entries_in_order() {
    let entries = vec![b"Hel".to_vec(), b"lo ".to_vec(), b"world".to_vec()];
    assert_eq!(assemble_content(&entries), b"Hello world".to_vec());
}

#[test]
fn assemble_content_of_nothing_is_empty() {
    assert_eq!(assemble_content(&Vec::new()), Vec::<u8>::new());
}
