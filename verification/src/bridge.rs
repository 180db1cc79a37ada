//! The WebSocket bridge: what the pump between a socket and the two channel
//! endpoints of a connection does with each inbound frame and with each
//! outbound message. The pump itself, which waits on the socket and on the
//! channel, belongs to the transport.

use vstd::prelude::*;
use crate::asgi::{AsgiReceiveMessage, AsgiSendMessage, ReceiveView, SendView};

verus! {

/// The capacity of each of the two channels of a connection. A full channel
/// holds the pump back, and with it this connection only.
pub const CHANNEL_CAPACITY: usize = 16;

/// A WebSocket frame, as far as the bridge reads it.
#[derive(Clone, Debug)]
pub enum WsFrame {
    Text(String),
    Binary(Vec<u8>),
    Close(Option<u16>),
    Ping,
    Pong,
    /// A raw frame.
    Frame,
}

/// The mathematical value of a [`WsFrame`].
pub ghost enum FrameView {
    Text(Seq<char>),
    Binary(Seq<u8>),
    Close(Option<u16>),
    Ping,
    Pong,
    Frame,
}

impl View for WsFrame {
    type V = FrameView;

    open spec fn view(&self) -> FrameView {
        match self {
            WsFrame::Text(t) => FrameView::Text(t@),
            WsFrame::Binary(b) => FrameView::Binary(b@),
            WsFrame::Close(c) => FrameView::Close(*c),
            WsFrame::Ping => FrameView::Ping,
            WsFrame::Pong => FrameView::Pong,
            WsFrame::Frame => FrameView::Frame,
        }
    }
}

/// What the socket yielded: the stream ended, a frame arrived, or the
/// protocol was violated.
#[derive(Debug)]
pub enum SocketItem {
    Closed,
    Frame(WsFrame),
    Failed(String),
}

/// The mathematical value of a [`SocketItem`].
pub ghost enum SocketItemView {
    Closed,
    Frame(FrameView),
    Failed(Seq<char>),
}

impl View for SocketItem {
    type V = SocketItemView;

    open spec fn view(&self) -> SocketItemView {
        match self {
            SocketItem::Closed => SocketItemView::Closed,
            SocketItem::Frame(f) => SocketItemView::Frame(f@),
            SocketItem::Failed(m) => SocketItemView::Failed(m@),
        }
    }
}

/// What the pump does with what it got.
#[derive(Debug)]
pub enum PumpStep {
    /// Put this into the receive channel; `None` marks the end of the
    /// stream. The pump stops afterwards when `last` is set, and in any case
    /// when the channel is closed.
    Forward { message: Option<AsgiReceiveMessage>, last: bool },
    /// Write this frame to the socket; the pump stops when that fails.
    Write(WsFrame),
    /// Nothing to do; wait for the next frame or message.
    Skip,
    /// Leave the loop.
    Stop,
}

/// The mathematical value of a [`PumpStep`].
pub ghost enum PumpStepView {
    Forward { message: Option<ReceiveView>, last: bool },
    Write(FrameView),
    Skip,
    Stop,
}

impl View for PumpStep {
    type V = PumpStepView;

    open spec fn view(&self) -> PumpStepView {
        match self {
            PumpStep::Forward { message: Some(m), last } => PumpStepView::Forward {
                message: Some(m@),
                last: *last,
            },
            PumpStep::Forward { message: None, last } => PumpStepView::Forward {
                message: None,
                last: *last,
            },
            PumpStep::Write(f) => PumpStepView::Write(f@),
            PumpStep::Skip => PumpStepView::Skip,
            PumpStep::Stop => PumpStepView::Stop,
        }
    }
}

/// The step for what the socket yielded: text, binary and close frames are
/// forwarded as received messages; ping, pong and raw frames are passed
/// over; the end of the stream and a protocol error both forward the
/// end-of-stream marker and stop the pump.
pub open spec fn inbound_step(item: SocketItemView) -> PumpStepView {
    match item {
        SocketItemView::Closed => PumpStepView::Forward { message: None, last: true },
        SocketItemView::Failed(_) => PumpStepView::Forward { message: None, last: true },
        SocketItemView::Frame(FrameView::Text(t)) => PumpStepView::Forward {
            message: Some(ReceiveView::WsReceive { text: Some(t), bytes: None, close_code: None }),
            last: false,
        },
        SocketItemView::Frame(FrameView::Binary(b)) => PumpStepView::Forward {
            message: Some(ReceiveView::WsReceive { text: None, bytes: Some(b), close_code: None }),
            last: false,
        },
        SocketItemView::Frame(FrameView::Close(code)) => PumpStepView::Forward {
            message: Some(ReceiveView::WsReceive { text: None, bytes: None, close_code: code }),
            last: false,
        },
        SocketItemView::Frame(_) => PumpStepView::Skip,
    }
}

/// The step for what the send channel yielded: a closed channel stops the
/// pump; a send message becomes a text frame if it has text, else a binary
/// frame if it has bytes, else nothing; a close message becomes a close
/// frame; every other message is passed over.
pub open spec fn outbound_step(message: Option<SendView>) -> PumpStepView {
    match message {
        None => PumpStepView::Stop,
        Some(SendView::WsSend { text: Some(t), .. }) => PumpStepView::Write(FrameView::Text(t)),
        Some(SendView::WsSend { text: None, bytes: Some(b) }) => PumpStepView::Write(
            FrameView::Binary(b),
        ),
        Some(SendView::WsSend { text: None, bytes: None }) => PumpStepView::Skip,
        Some(SendView::WsClose { code }) => PumpStepView::Write(FrameView::Close(code)),
        Some(_) => PumpStepView::Skip,
    }
}

/// The view of an optional send message.
pub open spec fn send_view(message: Option<AsgiSendMessage>) -> Option<SendView> {
    match message {
        Some(m) => Some(m@),
        None => None,
    }
}

/// Says what the pump does with what the socket yielded.
pub fn pump_inbound(item: SocketItem) -> (step: PumpStep)
    ensures
        step@ == inbound_step(item@),
{
    match item {
        SocketItem::Closed => PumpStep::Forward { message: None, last: true },
        SocketItem::Failed(_) => PumpStep::Forward { message: None, last: true },
        SocketItem::Frame(WsFrame::Text(t)) => PumpStep::Forward {
            message: Some(
                AsgiReceiveMessage::WsReceive { text: Some(t), bytes: None, close_code: None },
            ),
            last: false,
        },
        SocketItem::Frame(WsFrame::Binary(b)) => PumpStep::Forward {
            message: Some(
                AsgiReceiveMessage::WsReceive { text: None, bytes: Some(b), close_code: None },
            ),
            last: false,
        },
        SocketItem::Frame(WsFrame::Close(code)) => PumpStep::Forward {
            message: Some(
                AsgiReceiveMessage::WsReceive { text: None, bytes: None, close_code: code },
            ),
            last: false,
        },
        SocketItem::Frame(_) => PumpStep::Skip,
    }
}

/// Says what the pump does with what the send channel yielded; `None` is
/// the closed channel.
pub fn pump_outbound(message: Option<AsgiSendMessage>) -> (step: PumpStep)
    ensures
        step@ == outbound_step(send_view(message)),
{
    match message {
        None => PumpStep::Stop,
        Some(AsgiSendMessage::WsSend { text, bytes }) => match text {
            Some(t) => PumpStep::Write(WsFrame::Text(t)),
            None => match bytes {
                Some(b) => PumpStep::Write(WsFrame::Binary(b)),
                None => PumpStep::Skip,
            },
        },
        Some(AsgiSendMessage::WsClose { code }) => PumpStep::Write(WsFrame::Close(code)),
        Some(_) => PumpStep::Skip,
    }
}

/// Says whether the pump goes on after a step was carried out: it stops
/// after the last forward, and whenever the channel or the socket refused
/// what it was given.
pub fn pump_continues(last: bool, delivered: bool) -> (go_on: bool)
    ensures
        go_on == (delivered && !last),
{
    delivered && !last
}

/// The pump never writes to the socket for an inbound item and never
/// forwards for an outbound message: the two directions do not mix.
pub proof fn law_directions_do_not_mix(item: SocketItemView, message: Option<SendView>)
    ensures
        !(inbound_step(item) is Write),
        !(inbound_step(item) is Stop),
        !(outbound_step(message) is Forward),
{
}

/// The pump stops on exactly three occasions: the socket closed, the
/// protocol was violated, or the send channel closed.
pub proof fn law_pump_stops(item: SocketItemView, message: Option<SendView>)
    ensures
        inbound_step(item) matches PumpStepView::Forward { last, message: forwarded } ==> (last
            <==> item is Closed || item is Failed) && (last ==> forwarded is None),
        outbound_step(message) is Stop <==> message is None,
{
}

} // verus!
