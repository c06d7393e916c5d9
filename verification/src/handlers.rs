//! What the server does with what a client sends.

pub mod effects;
pub mod laws;
pub mod life;
pub mod messages;
pub mod websocket;

use vstd::prelude::*;
use crate::models::ConnectionId;
use crate::pb::{Packet, WhichView};

verus! {

/// A packet and the connection that it goes to.
#[derive(Debug, Clone, PartialEq, Eq)]
pub struct Outgoing {
    pub to: ConnectionId,
    pub packet: Packet,
}

/// The model of an [`Outgoing`] packet.
#[verifier::ext_equal]
pub struct OutgoingView {
    pub to: ConnectionId,
    pub packet: Option<WhichView>,
}

impl View for Outgoing {
    type V = OutgoingView;

    open spec fn view(&self) -> OutgoingView {
        OutgoingView { to: self.to, packet: self.packet@ }
    }
}

/// Why a client is no longer served.
#[derive(Debug, Clone, PartialEq, Eq)]
pub enum HandlerError {
    /// What the client sent is no packet. Holds the decoder's account of it.
    Decode(String),
    /// A packet could not be handed to its connection. Holds the channel's account of it.
    Send(String),
    /// The client sent a packet that only the server may send.
    ServerOnlyPacket,
    /// The client answered, but nobody in its session has made an offer.
    UnexpectedAnswer,
    /// The client closed the connection.
    ConnectionClosed,
}

/// The model of a [`HandlerError`].
#[verifier::ext_equal]
pub enum ErrorView {
    Decode(Seq<char>),
    Send(Seq<char>),
    ServerOnlyPacket,
    UnexpectedAnswer,
    ConnectionClosed,
}

impl ErrorView {
    /// The text that reports the error.
    pub open spec fn message(self) -> Seq<char> {
        match self {
            ErrorView::Decode(text) => text,
            ErrorView::Send(text) => text,
            ErrorView::ServerOnlyPacket => "Unexpected packet type from client"@,
            ErrorView::UnexpectedAnswer => "Unexpected answer - no offerer"@,
            ErrorView::ConnectionClosed => "Connection closed"@,
        }
    }
}

impl View for HandlerError {
    type V = ErrorView;

    open spec fn view(&self) -> ErrorView {
        match self {
            HandlerError::Decode(text) => ErrorView::Decode(text@),
            HandlerError::Send(text) => ErrorView::Send(text@),
            HandlerError::ServerOnlyPacket => ErrorView::ServerOnlyPacket,
            HandlerError::UnexpectedAnswer => ErrorView::UnexpectedAnswer,
            HandlerError::ConnectionClosed => ErrorView::ConnectionClosed,
        }
    }
}

impl HandlerError {
    /// The text that reports the error.
    pub fn message(&self) -> (r: &str)
        ensures
            r@ == self@.message(),
            r@ == match *self {
                HandlerError::Decode(text) => text@,
                HandlerError::Send(text) => text@,
                HandlerError::ServerOnlyPacket => "Unexpected packet type from client"@,
                HandlerError::UnexpectedAnswer => "Unexpected answer - no offerer"@,
                HandlerError::ConnectionClosed => "Connection closed"@,
            },
    {
        match self {
            HandlerError::Decode(text) => text.as_str(),
            HandlerError::Send(text) => text.as_str(),
            HandlerError::ServerOnlyPacket => "Unexpected packet type from client",
            HandlerError::UnexpectedAnswer => "Unexpected answer - no offerer",
            HandlerError::ConnectionClosed => "Connection closed",
        }
    }
}

/// The model of a handler's result.
pub open spec fn result_view(r: Result<(), HandlerError>) -> Result<(), ErrorView> {
    match r {
        Ok(_) => Ok(()),
        Err(e) => Err(e@),
    }
}

/// What a delivery came to, its error as text.
pub open spec fn delivery_view(r: Result<(), String>) -> Result<(), Seq<char>> {
    match r {
        Ok(_) => Ok(()),
        Err(e) => Err(e@),
    }
}

/// What a handled message comes to, once the packet that it caused, if any, has been handed on.
#[derive(Debug, PartialEq, Eq)]
pub struct Outcome {
    /// Whether the client is dropped where the packet cannot be handed on.
    pub required: bool,
    /// The result otherwise.
    pub result: Result<(), HandlerError>,
}

/// The model of an [`Outcome`].
#[verifier::ext_equal]
pub struct OutcomeView {
    pub required: bool,
    pub result: Result<(), ErrorView>,
}

impl View for Outcome {
    type V = OutcomeView;

    open spec fn view(&self) -> OutcomeView {
        OutcomeView { required: self.required, result: result_view(self.result) }
    }
}

/// The result of a handled message whose packet met with `delivery`.
pub open spec fn settled(
    outcome: OutcomeView,
    delivery: Result<(), Seq<char>>,
) -> Result<(), ErrorView> {
    match delivery {
        Err(text) if outcome.required => Err(ErrorView::Send(text)),
        _ => outcome.result,
    }
}

impl Outcome {
    /// The result of a handled message whose packet met with `delivery`. A packet that must
    /// arrive and could not be handed on is an error of its own, whatever the message was;
    /// otherwise a failed delivery changes nothing.
    pub fn settle(self, delivery: Result<(), String>) -> (r: Result<(), HandlerError>)
        ensures
            result_view(r) == settled(self@, delivery_view(delivery)),
            match delivery {
                Err(text) => if self.required {
                    r == Err::<(), HandlerError>(HandlerError::Send(text))
                } else {
                    r == self.result
                },
                Ok(_) => r == self.result,
            },
    {
        match delivery {
            Err(text) => if self.required {
                Err(HandlerError::Send(text))
            } else {
                self.result
            },
            Ok(_) => self.result,
        }
    }
}

/// What a message from a client calls for: at most one packet to hand on, and what comes of it.
#[derive(Debug, PartialEq, Eq)]
pub struct Step {
    pub outgoing: Option<Outgoing>,
    pub outcome: Outcome,
}

/// The model of a [`Step`].
#[verifier::ext_equal]
pub struct StepView {
    pub outgoing: Option<OutgoingView>,
    pub outcome: OutcomeView,
}

impl View for Step {
    type V = StepView;

    open spec fn view(&self) -> StepView {
        StepView {
            outgoing: match self.outgoing {
                Some(o) => Some(o@),
                None => None,
            },
            outcome: self.outcome@,
        }
    }
}

/// Nothing to hand on, and this result.
pub open spec fn silent_step(result: Result<(), ErrorView>) -> StepView {
    StepView { outgoing: None, outcome: OutcomeView { required: false, result } }
}

/// A packet that must be handed on, and this result when it has been.
pub open spec fn required_step(
    to: ConnectionId,
    which: WhichView,
    result: Result<(), ErrorView>,
) -> StepView {
    StepView {
        outgoing: Some(OutgoingView { to, packet: Some(which) }),
        outcome: OutcomeView { required: true, result },
    }
}

/// A packet that is handed on if it can be.
pub open spec fn best_effort_step(to: ConnectionId, which: WhichView) -> StepView {
    StepView {
        outgoing: Some(OutgoingView { to, packet: Some(which) }),
        outcome: OutcomeView { required: false, result: Ok(()) },
    }
}

impl Step {
    /// Nothing to hand on, and this result.
    pub fn silent(result: Result<(), HandlerError>) -> (r: Self)
        ensures
            r@ == silent_step(result_view(result)),
            r.outgoing is None && !r.outcome.required && r.outcome.result == result,
    {
        Step { outgoing: None, outcome: Outcome { required: false, result } }
    }

    /// A packet that must be handed on, and this result when it has been.
    pub fn required(outgoing: Outgoing, result: Result<(), HandlerError>) -> (r: Self)
        ensures
            r@ == (StepView {
                outgoing: Some(outgoing@),
                outcome: OutcomeView { required: true, result: result_view(result) },
            }),
            r.outgoing == Some(outgoing) && r.outcome.required && r.outcome.result == result,
    {
        Step { outgoing: Some(outgoing), outcome: Outcome { required: true, result } }
    }

    /// A packet that is handed on if it can be.
    pub fn best_effort(outgoing: Outgoing) -> (r: Self)
        ensures
            r@ == (StepView {
                outgoing: Some(outgoing@),
                outcome: OutcomeView { required: false, result: Ok(()) },
            }),
            r.outgoing == Some(outgoing) && !r.outcome.required && r.outcome.result is Ok,
    {
        Step { outgoing: Some(outgoing), outcome: Outcome { required: false, result: Ok(()) } }
    }
}

/// The models of what handlers come to hold what was come to, text for text.
pub proof fn law_outcome_models_are_faithful(
    error: HandlerError,
    result: Result<(), HandlerError>,
    delivery: Result<(), String>,
    outcome: Outcome,
)
    ensures
        error@ == match error {
            HandlerError::Decode(text) => ErrorView::Decode(text@),
            HandlerError::Send(text) => ErrorView::Send(text@),
            HandlerError::ServerOnlyPacket => ErrorView::ServerOnlyPacket,
            HandlerError::UnexpectedAnswer => ErrorView::UnexpectedAnswer,
            HandlerError::ConnectionClosed => ErrorView::ConnectionClosed,
        },
        result_view(result) == match result {
            Ok(_) => Ok::<(), ErrorView>(()),
            Err(e) => Err::<(), ErrorView>(e@),
        },
        delivery_view(delivery) == match delivery {
            Ok(_) => Ok::<(), Seq<char>>(()),
            Err(text) => Err::<(), Seq<char>>(text@),
        },
        outcome@.required == outcome.required,
        outcome@.result == result_view(outcome.result),
{
}

/// The models of outgoing packets and of steps hold the packet and its addressee.
pub proof fn law_step_models_are_faithful(outgoing: Outgoing, step: Step)
    ensures
        outgoing@.to == outgoing.to,
        outgoing@.packet == outgoing.packet@,
        match step.outgoing {
            Some(o) => step@.outgoing == Some(o@),
            None => step@.outgoing is None,
        },
        step@.outcome == step.outcome@,
{
}

} // verus!
