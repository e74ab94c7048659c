//! What can go wrong with a session.
use crate::time::Nanos;
use vstd::prelude::*;

verus! {

/// The error type of `std::io`.
#[verifier::external_type_specification]
#[verifier::external_body]
pub struct ExIoError(std::io::Error);

/// A session that failed.
#[derive(Debug)]
pub enum ClientError {
    /// Some input or output failed.
    Io(std::io::Error),
    /// The handshake failed at a step.
    Handshake { step: HandshakeStep, reason: &'static str },
    /// The handshake took too long.
    HandshakeTimeout { step: HandshakeStep, waited: Nanos },
    /// The server closed the connection.
    UnexpectedEof,
    /// The reader thread was started before.
    ReaderAlreadyStarted,
    /// Too many bytes wait in the kernel's receive buffer.
    BufferPressurePanic { pending_bytes: usize, pct: u8 },
    /// The configuration makes no sense.
    InvalidConfig(&'static str),
    /// A command could not be written.
    CommandWrite(std::io::Error),
}

/// A step of the handshake.
#[derive(Debug, Clone, Copy, PartialEq, Eq, Structural)]
pub enum HandshakeStep {
    AwaitWelcome,
    SendSoftwareKey,
    AwaitUsernamePrompt,
    SendUsername,
    AwaitPasswordPrompt,
    SendPassword,
    AwaitConnected,
}

/// What a step is called in messages.
pub open spec fn step_text(step: HandshakeStep) -> &'static str {
    match step {
        HandshakeStep::AwaitWelcome => "awaiting welcome",
        HandshakeStep::SendSoftwareKey => "sending software key",
        HandshakeStep::AwaitUsernamePrompt => "awaiting username prompt",
        HandshakeStep::SendUsername => "sending username",
        HandshakeStep::AwaitPasswordPrompt => "awaiting password prompt",
        HandshakeStep::SendPassword => "sending password",
        HandshakeStep::AwaitConnected => "awaiting 'You are connected'",
    }
}

impl HandshakeStep {
    /// What the step is called in messages.
    pub fn as_str(self) -> (r: &'static str)
        ensures
            r == step_text(self),
    {
        match self {
            HandshakeStep::AwaitWelcome => "awaiting welcome",
            HandshakeStep::SendSoftwareKey => "sending software key",
            HandshakeStep::AwaitUsernamePrompt => "awaiting username prompt",
            HandshakeStep::SendUsername => "sending username",
            HandshakeStep::AwaitPasswordPrompt => "awaiting password prompt",
            HandshakeStep::SendPassword => "sending password",
            HandshakeStep::AwaitConnected => "awaiting 'You are connected'",
        }
    }
}

/// How the steps of a handshake are named.
pub proof fn law_steps_are_named()
    ensures
        step_text(HandshakeStep::AwaitWelcome) == "awaiting welcome",
        step_text(HandshakeStep::SendSoftwareKey) == "sending software key",
        step_text(HandshakeStep::AwaitUsernamePrompt) == "awaiting username prompt",
        step_text(HandshakeStep::SendUsername) == "sending username",
        step_text(HandshakeStep::AwaitPasswordPrompt) == "awaiting password prompt",
        step_text(HandshakeStep::SendPassword) == "sending password",
        step_text(HandshakeStep::AwaitConnected) == "awaiting 'You are connected'",
{
}

} // verus!
