//! The exchange between a sender and a receiver, as two state machines.
//!
//! The sender asks whether it may send a file; the receiver prompts its user
//! and answers; on an acceptance the sender sends the data, the receiver
//! saves it and confirms. Each step takes the state and what happened, and
//! gives the next state and what to do; the program around does the I/O.

use vstd::prelude::*;

use crate::comms::be_value;
use crate::frame::{frame_spec, lemma_frame_roundtrip};
use crate::message::{
    ask_bytes, kept_name, lemma_parse_bare, lemma_parse_build_ask, parse_spec, Message, MessageType,
    MessageView,
};
use vstd::utf8::decode_utf8;

verus! {

broadcast use vstd::string::group_string_axioms;

/// Where the receiver stands in one exchange.
pub enum ReceiverState {
    /// Waiting for the sender's `Ask` frame.
    AwaitAsk,
    /// Waiting for the user to accept or refuse the file.
    AwaitAnswer { file_name: String, file_size: u32 },
    /// Waiting for the header of the data frame and its first byte.
    AwaitData { file_name: String },
    /// Waiting for the rest of the data frame.
    AwaitPayload { file_name: String },
    /// Waiting for the data to be saved.
    AwaitSaved,
    /// The exchange is over.
    Finished,
}

/// What happened on the receiver's side.
pub enum ReceiverEvent {
    /// A whole frame arrived.
    Frame(Vec<u8>),
    /// The user accepted (`true`) or refused the file.
    Answer(bool),
    /// A frame header announcing `size` bytes arrived, and the first of them.
    DataHeader { size: u32, first: u8 },
    /// The rest of the data frame arrived.
    Payload(Vec<u8>),
    /// The data was saved.
    Saved,
}

/// What the receiver is to do next.
pub enum ReceiverAction {
    /// Ask the user whether to accept this file.
    Prompt { file_name: String, file_size: u32 },
    /// Send these bytes in a frame, then read the data frame's header and first byte.
    Accept(Vec<u8>),
    /// Send these bytes in a frame; the exchange is over.
    Send(Vec<u8>),
    /// Read this many more bytes of the data frame.
    ReadData(u32),
    /// Save the data under this file name.
    Save { file_name: String, data: Vec<u8> },
    /// The first frame was not an `Ask`: say so; the exchange is over.
    Report,
    /// Something arrived that the exchange does not allow: stop.
    Fail,
}

/// The content of a receiver state.
pub enum ReceiverStateView {
    AwaitAsk,
    AwaitAnswer { file_name: Seq<char>, file_size: u32 },
    AwaitData { file_name: Seq<char> },
    AwaitPayload { file_name: Seq<char> },
    AwaitSaved,
    Finished,
}

/// The content of a receiver event.
pub enum ReceiverEventView {
    Frame(Seq<u8>),
    Answer(bool),
    DataHeader { size: u32, first: u8 },
    Payload(Seq<u8>),
    Saved,
}

/// The content of a receiver action.
pub enum ReceiverActionView {
    Prompt { file_name: Seq<char>, file_size: u32 },
    Accept(Seq<u8>),
    Send(Seq<u8>),
    ReadData(u32),
    Save { file_name: Seq<char>, data: Seq<u8> },
    Report,
    Fail,
}

impl View for ReceiverState {
    type V = ReceiverStateView;

    open spec fn view(&self) -> ReceiverStateView {
        match self {
            ReceiverState::AwaitAsk => ReceiverStateView::AwaitAsk,
            ReceiverState::AwaitAnswer { file_name, file_size } => ReceiverStateView::AwaitAnswer {
                file_name: file_name@,
                file_size: *file_size,
            },
            ReceiverState::AwaitData { file_name } => ReceiverStateView::AwaitData {
                file_name: file_name@,
            },
            ReceiverState::AwaitPayload { file_name } => ReceiverStateView::AwaitPayload {
                file_name: file_name@,
            },
            ReceiverState::AwaitSaved => ReceiverStateView::AwaitSaved,
            ReceiverState::Finished => ReceiverStateView::Finished,
        }
    }
}

impl View for ReceiverEvent {
    type V = ReceiverEventView;

    open spec fn view(&self) -> ReceiverEventView {
        match self {
            ReceiverEvent::Frame(v) => ReceiverEventView::Frame(v@),
            ReceiverEvent::Answer(b) => ReceiverEventView::Answer(*b),
            ReceiverEvent::DataHeader { size, first } => ReceiverEventView::DataHeader {
                size: *size,
                first: *first,
            },
            ReceiverEvent::Payload(v) => ReceiverEventView::Payload(v@),
            ReceiverEvent::Saved => ReceiverEventView::Saved,
        }
    }
}

impl View for ReceiverAction {
    type V = ReceiverActionView;

    open spec fn view(&self) -> ReceiverActionView {
        match self {
            ReceiverAction::Prompt { file_name, file_size } => ReceiverActionView::Prompt {
                file_name: file_name@,
                file_size: *file_size,
            },
            ReceiverAction::Accept(v) => ReceiverActionView::Accept(v@),
            ReceiverAction::Send(v) => ReceiverActionView::Send(v@),
            ReceiverAction::ReadData(n) => ReceiverActionView::ReadData(*n),
            ReceiverAction::Save { file_name, data } => ReceiverActionView::Save {
                file_name: file_name@,
                data: data@,
            },
            ReceiverAction::Report => ReceiverActionView::Report,
            ReceiverAction::Fail => ReceiverActionView::Fail,
        }
    }
}

/// The receiver's next state and action.
pub open spec fn receiver_spec(s: ReceiverStateView, e: ReceiverEventView) -> (
    ReceiverStateView,
    ReceiverActionView,
) {
    match s {
        ReceiverStateView::AwaitAsk => match e {
            ReceiverEventView::Frame(v) => match parse_spec(v) {
                Some(MessageView::Ask { file_size, file_name }) => (
                    ReceiverStateView::AwaitAnswer { file_name, file_size },
                    ReceiverActionView::Prompt { file_name, file_size },
                ),
                _ => (ReceiverStateView::Finished, ReceiverActionView::Report),
            },
            _ => (ReceiverStateView::Finished, ReceiverActionView::Fail),
        },
        ReceiverStateView::AwaitAnswer { file_name, file_size } => match e {
            ReceiverEventView::Answer(accept) => if accept {
                (
                    ReceiverStateView::AwaitData { file_name },
                    ReceiverActionView::Accept(seq![MessageType::AskOk.code()]),
                )
            } else {
                (
                    ReceiverStateView::Finished,
                    ReceiverActionView::Send(seq![MessageType::AskDeny.code()]),
                )
            },
            _ => (ReceiverStateView::Finished, ReceiverActionView::Fail),
        },
        ReceiverStateView::AwaitData { file_name } => match e {
            ReceiverEventView::DataHeader { size, first } => if size >= 1 && parse_spec(
                seq![first],
            ) == Some(MessageView::Data) {
                (
                    ReceiverStateView::AwaitPayload { file_name },
                    ReceiverActionView::ReadData((size - 1) as u32),
                )
            } else {
                (ReceiverStateView::Finished, ReceiverActionView::Fail)
            },
            _ => (ReceiverStateView::Finished, ReceiverActionView::Fail),
        },
        ReceiverStateView::AwaitPayload { file_name } => match e {
            ReceiverEventView::Payload(data) => (
                ReceiverStateView::AwaitSaved,
                ReceiverActionView::Save { file_name, data },
            ),
            _ => (ReceiverStateView::Finished, ReceiverActionView::Fail),
        },
        ReceiverStateView::AwaitSaved => match e {
            ReceiverEventView::Saved => (
                ReceiverStateView::Finished,
                ReceiverActionView::Send(seq![MessageType::DataRecvd.code()]),
            ),
            _ => (ReceiverStateView::Finished, ReceiverActionView::Fail),
        },
        ReceiverStateView::Finished => (ReceiverStateView::Finished, ReceiverActionView::Fail),
    }
}

/// One step of the receiver: from its state and what happened, the next
/// state and what to do.
pub fn receiver_step(state: ReceiverState, event: ReceiverEvent) -> (r: (
    ReceiverState,
    ReceiverAction,
))
    ensures
        (r.0@, r.1@) == receiver_spec(state@, event@),
{
    match state {
        ReceiverState::AwaitAsk => match event {
            ReceiverEvent::Frame(v) => match Message::parse(v) {
                Ok(Message::Ask(info)) => {
                    let name = info.file_name.clone();
                    (
                        ReceiverState::AwaitAnswer {
                            file_name: info.file_name,
                            file_size: info.file_size,
                        },
                        ReceiverAction::Prompt { file_name: name, file_size: info.file_size },
                    )
                },
                _ => (ReceiverState::Finished, ReceiverAction::Report),
            },
            _ => (ReceiverState::Finished, ReceiverAction::Fail),
        },
        ReceiverState::AwaitAnswer { file_name, file_size } => match event {
            ReceiverEvent::Answer(accept) => {
                if accept {
                    (ReceiverState::AwaitData { file_name }, ReceiverAction::Accept(Message::build_ask_ok()))
                } else {
                    (ReceiverState::Finished, ReceiverAction::Send(Message::build_ask_deny()))
                }
            },
            _ => (ReceiverState::Finished, ReceiverAction::Fail),
        },
        ReceiverState::AwaitData { file_name } => match event {
            ReceiverEvent::DataHeader { size, first } => {
                if size >= 1 {
                    match Message::parse(vec![first]) {
                        Ok(Message::Data) => (
                            ReceiverState::AwaitPayload { file_name },
                            ReceiverAction::ReadData(size - 1),
                        ),
                        _ => (ReceiverState::Finished, ReceiverAction::Fail),
                    }
                } else {
                    (ReceiverState::Finished, ReceiverAction::Fail)
                }
            },
            _ => (ReceiverState::Finished, ReceiverAction::Fail),
        },
        ReceiverState::AwaitPayload { file_name } => match event {
            ReceiverEvent::Payload(data) => (
                ReceiverState::AwaitSaved,
                ReceiverAction::Save { file_name, data },
            ),
            _ => (ReceiverState::Finished, ReceiverAction::Fail),
        },
        ReceiverState::AwaitSaved => match event {
            ReceiverEvent::Saved => (
                ReceiverState::Finished,
                ReceiverAction::Send(Message::build_data_received()),
            ),
            _ => (ReceiverState::Finished, ReceiverAction::Fail),
        },
        ReceiverState::Finished => (ReceiverState::Finished, ReceiverAction::Fail),
    }
}

/// Where the sender stands in one exchange.
pub enum SenderState {
    /// About to ask whether it may send `data` as `file_name`, announcing `file_size`.
    Ready { file_name: String, file_size: u32, data: Vec<u8> },
    /// Waiting for the receiver's answer.
    AwaitAnswer { data: Vec<u8> },
    /// Waiting for the receiver to confirm that the data arrived.
    AwaitReceipt,
    /// The exchange is over.
    Finished,
}

/// What happened on the sender's side.
pub enum SenderEvent {
    /// The exchange begins.
    Start,
    /// A whole frame arrived.
    Frame(Vec<u8>),
}

/// What the sender is to do next.
pub enum SenderAction {
    /// Send this `Ask` in a frame, then read the answer frame.
    Ask(Vec<u8>),
    /// The request was accepted: send these bytes in a frame, then read the answer frame.
    SendData(Vec<u8>),
    /// The request was refused; the exchange is over.
    Denied,
    /// The receiver confirmed the data; the exchange is over.
    Delivered,
    /// Something arrived that the exchange does not allow: stop.
    Fail,
}

/// The content of a sender state.
pub enum SenderStateView {
    Ready { file_name: Seq<char>, file_size: u32, data: Seq<u8> },
    AwaitAnswer { data: Seq<u8> },
    AwaitReceipt,
    Finished,
}

/// The content of a sender event.
pub enum SenderEventView {
    Start,
    Frame(Seq<u8>),
}

/// The content of a sender action.
pub enum SenderActionView {
    Ask(Seq<u8>),
    SendData(Seq<u8>),
    Denied,
    Delivered,
    Fail,
}

impl View for SenderState {
    type V = SenderStateView;

    open spec fn view(&self) -> SenderStateView {
        match self {
            SenderState::Ready { file_name, file_size, data } => SenderStateView::Ready {
                file_name: file_name@,
                file_size: *file_size,
                data: data@,
            },
            SenderState::AwaitAnswer { data } => SenderStateView::AwaitAnswer { data: data@ },
            SenderState::AwaitReceipt => SenderStateView::AwaitReceipt,
            SenderState::Finished => SenderStateView::Finished,
        }
    }
}

impl View for SenderEvent {
    type V = SenderEventView;

    open spec fn view(&self) -> SenderEventView {
        match self {
            SenderEvent::Start => SenderEventView::Start,
            SenderEvent::Frame(v) => SenderEventView::Frame(v@),
        }
    }
}

impl View for SenderAction {
    type V = SenderActionView;

    open spec fn view(&self) -> SenderActionView {
        match self {
            SenderAction::Ask(v) => SenderActionView::Ask(v@),
            SenderAction::SendData(v) => SenderActionView::SendData(v@),
            SenderAction::Denied => SenderActionView::Denied,
            SenderAction::Delivered => SenderActionView::Delivered,
            SenderAction::Fail => SenderActionView::Fail,
        }
    }
}

/// The sender's next state and action.
pub open spec fn sender_spec(s: SenderStateView, e: SenderEventView) -> (
    SenderStateView,
    SenderActionView,
) {
    match s {
        SenderStateView::Ready { file_name, file_size, data } => match e {
            SenderEventView::Start => (
                SenderStateView::AwaitAnswer { data },
                SenderActionView::Ask(ask_bytes(file_name, file_size)),
            ),
            _ => (SenderStateView::Finished, SenderActionView::Fail),
        },
        SenderStateView::AwaitAnswer { data } => match e {
            SenderEventView::Frame(v) => if parse_spec(v) == Some(MessageView::AskOk) {
                (
                    SenderStateView::AwaitReceipt,
                    SenderActionView::SendData(seq![MessageType::Data.code()] + data),
                )
            } else if parse_spec(v) == Some(MessageView::AskDeny) {
                (SenderStateView::Finished, SenderActionView::Denied)
            } else {
                (SenderStateView::Finished, SenderActionView::Fail)
            },
            _ => (SenderStateView::Finished, SenderActionView::Fail),
        },
        SenderStateView::AwaitReceipt => match e {
            SenderEventView::Frame(v) => if parse_spec(v) == Some(MessageView::DataRecvd) {
                (SenderStateView::Finished, SenderActionView::Delivered)
            } else {
                (SenderStateView::Finished, SenderActionView::Fail)
            },
            _ => (SenderStateView::Finished, SenderActionView::Fail),
        },
        SenderStateView::Finished => (SenderStateView::Finished, SenderActionView::Fail),
    }
}

/// One step of the sender: from its state and what happened, the next state
/// and what to do.
pub fn sender_step(state: SenderState, event: SenderEvent) -> (r: (SenderState, SenderAction))
    ensures
        (r.0@, r.1@) == sender_spec(state@, event@),
{
    match state {
        SenderState::Ready { file_name, file_size, data } => match event {
            SenderEvent::Start => {
                let ask = Message::build_ask(file_name.as_str(), file_size);
                (SenderState::AwaitAnswer { data }, SenderAction::Ask(ask))
            },
            _ => (SenderState::Finished, SenderAction::Fail),
        },
        SenderState::AwaitAnswer { data } => match event {
            SenderEvent::Frame(v) => match Message::parse(v) {
                Ok(Message::AskOk) => (
                    SenderState::AwaitReceipt,
                    SenderAction::SendData(Message::build_data(&data)),
                ),
                Ok(Message::AskDeny) => (SenderState::Finished, SenderAction::Denied),
                _ => (SenderState::Finished, SenderAction::Fail),
            },
            _ => (SenderState::Finished, SenderAction::Fail),
        },
        SenderState::AwaitReceipt => match event {
            SenderEvent::Frame(v) => match Message::parse(v) {
                Ok(Message::DataRecvd) => (SenderState::Finished, SenderAction::Delivered),
                _ => (SenderState::Finished, SenderAction::Fail),
            },
            _ => (SenderState::Finished, SenderAction::Fail),
        },
        SenderState::Finished => (SenderState::Finished, SenderAction::Fail),
    }
}

/// An accepted exchange, each side fed what the other sends: the sender asks,
/// the receiver prompts with the file size and the name the `Ask` carries; on
/// the user's acceptance the receiver answers `AskOk`, the sender sends the
/// data in a frame whose header and first byte the receiver checks, the
/// receiver saves exactly the data sent and confirms, and the sender ends
/// with the data delivered.
pub proof fn lemma_exchange_delivers(file_name: Seq<char>, file_size: u32, data: Seq<u8>)
    requires
        data.len() + 1 <= u32::MAX,
    ensures
        ({
            let name = decode_utf8(kept_name(file_name));
            let data_msg = seq![MessageType::Data.code()] + data;
            &&& sender_spec(SenderStateView::Ready { file_name, file_size, data }, SenderEventView::Start)
                == (SenderStateView::AwaitAnswer { data }, SenderActionView::Ask(ask_bytes(file_name, file_size)))
            &&& receiver_spec(ReceiverStateView::AwaitAsk, ReceiverEventView::Frame(ask_bytes(file_name, file_size)))
                == (ReceiverStateView::AwaitAnswer { file_name: name, file_size },
                    ReceiverActionView::Prompt { file_name: name, file_size })
            &&& receiver_spec(ReceiverStateView::AwaitAnswer { file_name: name, file_size }, ReceiverEventView::Answer(true))
                == (ReceiverStateView::AwaitData { file_name: name },
                    ReceiverActionView::Accept(seq![MessageType::AskOk.code()]))
            &&& sender_spec(SenderStateView::AwaitAnswer { data }, SenderEventView::Frame(seq![MessageType::AskOk.code()]))
                == (SenderStateView::AwaitReceipt, SenderActionView::SendData(data_msg))
            &&& be_value(frame_spec(data_msg).take(4)) == data_msg.len()
            &&& frame_spec(data_msg)[4] == MessageType::Data.code()
            &&& frame_spec(data_msg).skip(5) == data
            &&& receiver_spec(ReceiverStateView::AwaitData { file_name: name },
                    ReceiverEventView::DataHeader { size: data_msg.len() as u32, first: MessageType::Data.code() })
                == (ReceiverStateView::AwaitPayload { file_name: name }, ReceiverActionView::ReadData(data.len() as u32))
            &&& receiver_spec(ReceiverStateView::AwaitPayload { file_name: name }, ReceiverEventView::Payload(data))
                == (ReceiverStateView::AwaitSaved, ReceiverActionView::Save { file_name: name, data })
            &&& receiver_spec(ReceiverStateView::AwaitSaved, ReceiverEventView::Saved)
                == (ReceiverStateView::Finished, ReceiverActionView::Send(seq![MessageType::DataRecvd.code()]))
            &&& sender_spec(SenderStateView::AwaitReceipt, SenderEventView::Frame(seq![MessageType::DataRecvd.code()]))
                == (SenderStateView::Finished, SenderActionView::Delivered)
        }),
{
    let data_msg = seq![MessageType::Data.code()] + data;
    lemma_parse_build_ask(file_name, file_size);
    lemma_parse_bare(MessageType::AskOk, Seq::empty());
    assert(seq![MessageType::AskOk.code()] + Seq::<u8>::empty() =~= seq![MessageType::AskOk.code()]);
    lemma_parse_bare(MessageType::Data, Seq::empty());
    assert(seq![MessageType::Data.code()] + Seq::<u8>::empty() =~= seq![MessageType::Data.code()]);
    lemma_parse_bare(MessageType::DataRecvd, Seq::empty());
    assert(seq![MessageType::DataRecvd.code()] + Seq::<u8>::empty() =~= seq![MessageType::DataRecvd.code()]);
    lemma_frame_roundtrip(data_msg);
    assert(frame_spec(data_msg).skip(4)[0] == frame_spec(data_msg)[4]);
    assert(frame_spec(data_msg).skip(5) =~= frame_spec(data_msg).skip(4).skip(1));
    assert(data_msg.skip(1) =~= data);
}

/// A refused exchange: the receiver answers `AskDeny` and is done, and the
/// sender, given that answer, ends with the request denied.
pub proof fn lemma_exchange_refused(file_name: Seq<char>, file_size: u32, data: Seq<u8>)
    ensures
        receiver_spec(ReceiverStateView::AwaitAnswer { file_name, file_size }, ReceiverEventView::Answer(false))
            == (ReceiverStateView::Finished, ReceiverActionView::Send(seq![MessageType::AskDeny.code()])),
        sender_spec(SenderStateView::AwaitAnswer { data }, SenderEventView::Frame(seq![MessageType::AskDeny.code()]))
            == (SenderStateView::Finished, SenderActionView::Denied),
{
    lemma_parse_bare(MessageType::AskDeny, Seq::empty());
    assert(seq![MessageType::AskDeny.code()] + Seq::<u8>::empty() =~= seq![MessageType::AskDeny.code()]);
}

} // verus!
