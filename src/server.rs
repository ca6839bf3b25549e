//! The choice of categories a server offers, and the decisions of its
//! serving loop, its quote broker and its UDP replies.

use crate::quotes::QuoteCategory;
use vstd::prelude::*;

verus! {

/// Which categories of quotes a corpus offers.
#[derive(Debug, Default, Clone, Copy, PartialEq, Eq, Structural)]
pub enum AllowedCategories {
    #[default]
    Decorous,
    Offensive,
    All,
}

/// The categories each choice allows, in order.
pub open spec fn categories_spec(a: AllowedCategories) -> Seq<QuoteCategory> {
    match a {
        AllowedCategories::Decorous => seq![QuoteCategory::Decorous],
        AllowedCategories::Offensive => seq![QuoteCategory::Offensive],
        AllowedCategories::All => seq![QuoteCategory::Decorous, QuoteCategory::Offensive],
    }
}

impl AllowedCategories {
    /// The categories this choice allows.
    pub fn as_category_vec(&self) -> (r: Vec<QuoteCategory>)
        ensures
            r@ == categories_spec(*self),
    {
        let mut r: Vec<QuoteCategory> = Vec::new();
        match *self {
            AllowedCategories::Decorous => {
                r.push(QuoteCategory::Decorous);
            },
            AllowedCategories::Offensive => {
                r.push(QuoteCategory::Offensive);
            },
            AllowedCategories::All => {
                r.push(QuoteCategory::Decorous);
                r.push(QuoteCategory::Offensive);
            },
        }
        assert(r@ =~= categories_spec(*self));
        r
    }
}

/// The largest datagram payload sent is one byte less than this.
pub const UDP_PAYLOAD_LIMIT: usize = 512;

/// What a UDP handler does with the quote it was handed.
#[derive(Debug, Clone, Copy, PartialEq, Eq, Structural)]
pub enum UdpStep {
    /// Send it as the one reply datagram, and stop.
    Send,
    /// Drop it and ask for another quote.
    Retry,
}

/// Decides whether a quote fits a UDP reply: only one shorter than the limit
/// is sent, so every reply datagram is shorter than 512 bytes.
pub fn udp_step(quote: &[u8]) -> (r: UdpStep)
    ensures
        r == UdpStep::Send <==> quote@.len() < UDP_PAYLOAD_LIMIT,
{
    if quote.len() < UDP_PAYLOAD_LIMIT {
        UdpStep::Send
    } else {
        UdpStep::Retry
    }
}

/// What the accept loop of a server has just observed.
#[derive(Debug, Clone, Copy, PartialEq, Eq, Structural)]
pub enum ServeEvent {
    /// A TCP client connected.
    TcpAccepted,
    /// Accepting a TCP client failed.
    TcpAcceptFailed,
    /// A datagram arrived.
    UdpReceived,
    /// Receiving a datagram failed.
    UdpReceiveFailed,
}

/// What the accept loop does next.
#[derive(Debug, Clone, Copy, PartialEq, Eq, Structural)]
pub enum ServeAction {
    /// Start a task that writes one quote to the TCP client and closes.
    HandleTcp,
    /// Start a task that sends one quote to the datagram's sender.
    HandleUdp,
    /// Stop serving: the broker is gone, so no quote can be served again.
    ShutDown,
    /// Stop serving with the error of the socket.
    Fail,
}

/// The accept loop's decision on an event, given whether the quote broker is
/// still there to answer requests.
pub fn serve_step(broker_open: bool, event: ServeEvent) -> (r: ServeAction)
    ensures
        !broker_open ==> r == ServeAction::ShutDown,
        broker_open ==> r == match event {
            ServeEvent::TcpAccepted => ServeAction::HandleTcp,
            ServeEvent::UdpReceived => ServeAction::HandleUdp,
            ServeEvent::TcpAcceptFailed => ServeAction::Fail,
            ServeEvent::UdpReceiveFailed => ServeAction::Fail,
        },
{
    if !broker_open {
        return ServeAction::ShutDown;
    }
    match event {
        ServeEvent::TcpAccepted => ServeAction::HandleTcp,
        ServeEvent::UdpReceived => ServeAction::HandleUdp,
        ServeEvent::TcpAcceptFailed => ServeAction::Fail,
        ServeEvent::UdpReceiveFailed => ServeAction::Fail,
    }
}

/// What the quote broker has just observed.
#[derive(Debug, Clone, Copy, PartialEq, Eq, Structural)]
pub enum BrokerEvent {
    /// The next quote was read, ahead of demand.
    QuoteReady,
    /// Reading the next quote failed.
    QuoteFailed,
    /// A request for a quote arrived.
    Request,
    /// The request queue closed.
    QueueClosed,
}

/// What the quote broker does next.
#[derive(Debug, Clone, Copy, PartialEq, Eq, Structural)]
pub enum BrokerAction {
    /// Wait for the next request, the quote in hand.
    AwaitRequest,
    /// Hand the quote to the request, then read the next one.
    DeliverAndRead,
    /// Stop for good: no further quote can be served.
    Stop,
}

/// The broker's decision on an event: it holds one quote ahead of demand, and
/// any failure to read or to receive requests ends it.
pub fn broker_step(event: BrokerEvent) -> (r: BrokerAction)
    ensures
        r == match event {
            BrokerEvent::QuoteReady => BrokerAction::AwaitRequest,
            BrokerEvent::Request => BrokerAction::DeliverAndRead,
            BrokerEvent::QuoteFailed => BrokerAction::Stop,
            BrokerEvent::QueueClosed => BrokerAction::Stop,
        },
{
    match event {
        BrokerEvent::QuoteReady => BrokerAction::AwaitRequest,
        BrokerEvent::Request => BrokerAction::DeliverAndRead,
        BrokerEvent::QuoteFailed => BrokerAction::Stop,
        BrokerEvent::QueueClosed => BrokerAction::Stop,
    }
}

} // verus!
