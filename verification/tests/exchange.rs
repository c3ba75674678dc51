use localdrop::exchange::{
    receiver_step, sender_step, ReceiverAction, ReceiverEvent, ReceiverState, SenderAction,
    SenderEvent, SenderState,
};
use localdrop::frame::{decode_frame_size, encode_frame};

#[test]
fn accepted_exchange_delivers_the_data() {
    let data = vec![10u8, 20, 30];
    let sender = SenderState::Ready {
        file_name: "notes.txt".to_string(),
        file_size: 3,
        data: data.clone(),
    };
    let (sender, action) = sender_step(sender, SenderEvent::Start);
    let ask = match action {
        SenderAction::Ask(bytes) => bytes,
        _ => panic!("expected Ask"),
    };

    let (receiver, action) = receiver_step(ReceiverState::AwaitAsk, ReceiverEvent::Frame(ask));
    match action {
        ReceiverAction::Prompt { file_name, file_size } => {
            assert_eq!(file_name, "notes.txt");
            assert_eq!(file_size, 3);
        }
        _ => panic!("expected Prompt"),
    }
    let (receiver, action) = receiver_step(receiver, ReceiverEvent::Answer(true));
    let ok = match action {
        ReceiverAction::Accept(bytes) => bytes,
        _ => panic!("expected Accept"),
    };
    assert_eq!(ok, vec![2]);

    let (sender, action) = sender_step(sender, SenderEvent::Frame(ok));
    let data_msg = match action {
        SenderAction::SendData(bytes) => bytes,
        _ => panic!("expected SendData"),
    };
    let frame = encode_frame(&data_msg);
    let size = decode_frame_size(&frame[..4].to_vec()).unwrap();
    let (receiver, action) = receiver_step(
        receiver,
        ReceiverEvent::DataHeader { size, first: frame[4] },
    );
    match action {
        ReceiverAction::ReadData(n) => assert_eq!(n, 3),
        _ => panic!("expected ReadData"),
    }
    let (receiver, action) =
        receiver_step(receiver, ReceiverEvent::Payload(frame[5..].to_vec()));
    match action {
        ReceiverAction::Save { file_name, data: saved } => {
            assert_eq!(file_name, "notes.txt");
            assert_eq!(saved, data);
        }
        _ => panic!("expected Save"),
    }
    let (receiver, action) = receiver_step(receiver, ReceiverEvent::Saved);
    assert!(matches!(receiver, ReceiverState::Finished));
    let receipt = match action {
        ReceiverAction::Send(bytes) => bytes,
        _ => panic!("expected Send"),
    };
    assert_eq!(receipt, vec![5]);
    let (sender, action) = sender_step(sender, SenderEvent::Frame(receipt));
    assert!(matches!(sender, SenderState::Finished));
    assert!(matches!(action, SenderAction::Delivered));
}

#[test]
fn refused_exchange_is_denied() {
    let state = ReceiverState::AwaitAnswer { file_name: "a".to_string(), file_size: 1 };
    let (state, action) = receiver_step(state, ReceiverEvent::Answer(false));
    assert!(matches!(state, ReceiverState::Finished));
    let deny = match action {
        ReceiverAction::Send(bytes) => bytes,
        _ => panic!("expected Send"),
    };
    assert_eq!(deny, vec![3]);
    let (sender, action) = sender_step(SenderState::AwaitAnswer { data: vec![1] }, SenderEvent::Frame(deny));
    assert!(matches!(sender, SenderState::Finished));
    assert!(matches!(action, SenderAction::Denied));
}

#[test]
fn receiver_reports_a_first_frame_that_is_not_an_ask() {
    let (state, action) = receiver_step(ReceiverState::AwaitAsk, ReceiverEvent::Frame(vec![2]));
    assert!(matches!(state, ReceiverState::Finished));
    assert!(matches!(action, ReceiverAction::Report));
    let (_, action) = receiver_step(ReceiverState::AwaitAsk, ReceiverEvent::Frame(vec![]));
    assert!(matches!(action, ReceiverAction::Report));
}

#[test]
fn receiver_fails_on_a_bad_data_header() {
    let awaiting = || ReceiverState::AwaitData { file_name: "f".to_string() };
    let (_, action) = receiver_step(awaiting(), ReceiverEvent::DataHeader { size: 0, first: 4 });
    assert!(matches!(action, ReceiverAction::Fail));
    let (_, action) = receiver_step(awaiting(), ReceiverEvent::DataHeader { size: 9, first: 5 });
    assert!(matches!(action, ReceiverAction::Fail));
    let (state, action) = receiver_step(awaiting(), ReceiverEvent::DataHeader { size: 1, first: 4 });
    assert!(matches!(state, ReceiverState::AwaitPayload { .. }));
    assert!(matches!(action, ReceiverAction::ReadData(0)));
}

#[test]
fn receiver_fails_on_an_event_out_of_turn() {
    let (state, action) = receiver_step(ReceiverState::AwaitAsk, ReceiverEvent::Saved);
    assert!(matches!(state, ReceiverState::Finished));
    assert!(matches!(action, ReceiverAction::Fail));
    let (_, action) = receiver_step(ReceiverState::Finished, ReceiverEvent::Answer(true));
    assert!(matches!(action, ReceiverAction::Fail));
}

#[test]
fn sender_fails_on_an_unexpected_answer() {
    let (_, action) = sender_step(SenderState::AwaitAnswer { data: vec![] }, SenderEvent::Frame(vec![5]));
    assert!(matches!(action, SenderAction::Fail));
    let (_, action) = sender_step(SenderState::AwaitReceipt, SenderEvent::Frame(vec![2]));
    assert!(matches!(action, SenderAction::Fail));
    let (_, action) = sender_step(SenderState::AwaitReceipt, SenderEvent::Start);
    assert!(matches!(action, SenderAction::Fail));
}

#[test]
fn sender_asks_with_the_cut_name() {
    let state = SenderState::Ready { file_name: "n".repeat(300), file_size: 7, data: vec![] };
    let (state, action) = sender_step(state, SenderEvent::Start);
    assert!(matches!(state, SenderState::AwaitAnswer { .. }));
    match action {
        SenderAction::Ask(bytes) => {
            assert_eq!(bytes[..6], [1, 0, 0, 0, 7, 254]);
            assert_eq!(bytes.len(), 6 + 254);
        }
        _ => panic!("expected Ask"),
    }
}
