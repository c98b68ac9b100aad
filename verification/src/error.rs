//! Errors of the RS-BA1 network core and of the CI-V bridge.

use vstd::prelude::*;

verus! {

/// `std::io::Error`, carried through unopened.
#[verifier::external_type_specification]
#[verifier::external_body]
pub struct ExIoError(std::io::Error);

/// What can go wrong between the application and the radio.
#[derive(Debug)]
pub enum BridgeError {
    /// Socket or network input/output failure.
    Io(std::io::Error),
    /// The radio did not answer in the time allowed for a step.
    Timeout(String),
    /// User name or password refused by the radio.
    InvalidCredentials,
    /// The radio refused or interrupted the authentication.
    AuthFailed(String),
    /// No active session.
    NotConnected,
    /// Invalid CI-V frame (hexadecimal input).
    InvalidFrame(String),
    /// Any other protocol error.
    Protocol(String),
}

impl From<std::io::Error> for BridgeError {
    fn from(e: std::io::Error) -> (b: Self) {
        BridgeError::Io(e)
    }
}

impl vstd::std_specs::convert::FromSpecImpl<std::io::Error> for BridgeError {
    open spec fn obeys_from_spec() -> bool {
        true
    }

    open spec fn from_spec(e: std::io::Error) -> Self {
        BridgeError::Io(e)
    }
}

/// The text that `std::io::Error` displays. It comes from the operating system for most errors,
/// so nothing is claimed of it.
#[verifier::external_body]
fn io_error_text(e: &std::io::Error) -> String {
    e.to_string()
}

impl BridgeError {
    /// The message shown to the user, where `io` is the text of the network error, if it is one.
    pub open spec fn message(self, io: Seq<char>) -> Seq<char> {
        match self {
            BridgeError::Io(_) => "erreur réseau : "@ + io,
            BridgeError::Timeout(s) => "délai dépassé : "@ + s@,
            BridgeError::InvalidCredentials =>
                "identifiants invalides (username / password refusés)"@,
            BridgeError::AuthFailed(s) => "authentification échouée : "@ + s@,
            BridgeError::NotConnected => "non connecté à l'IC-705"@,
            BridgeError::InvalidFrame(s) => "trame CI-V invalide : "@ + s@,
            BridgeError::Protocol(s) => "erreur de protocole : "@ + s@,
        }
    }

    /// The message shown to the user, given the text of the network error.
    pub fn describe(&self, io: &str) -> (text: String)
        ensures
            text@ == self.message(io@),
    {
        match self {
            BridgeError::Io(_) => "erreur réseau : ".to_owned().concat(io),
            BridgeError::Timeout(s) => "délai dépassé : ".to_owned().concat(s.as_str()),
            BridgeError::InvalidCredentials =>
                "identifiants invalides (username / password refusés)".to_owned(),
            BridgeError::AuthFailed(s) =>
                "authentification échouée : ".to_owned().concat(s.as_str()),
            BridgeError::NotConnected => "non connecté à l'IC-705".to_owned(),
            BridgeError::InvalidFrame(s) =>
                "trame CI-V invalide : ".to_owned().concat(s.as_str()),
            BridgeError::Protocol(s) => "erreur de protocole : ".to_owned().concat(s.as_str()),
        }
    }

    /// The message shown to the user.
    pub fn to_string(&self) -> (text: String)
        ensures
            exists|io: Seq<char>| text@ == #[trigger] self.message(io),
            !(self is Io) ==> text@ == self.message(Seq::empty()),
    {
        match self {
            BridgeError::Io(e) => {
                let io = io_error_text(e);
                self.describe(io.as_str())
            },
            _ => self.describe(""),
        }
    }
}

/// What each error is told as: what kind it is, then its own text.
pub proof fn what_errors_are_told_as(e: BridgeError, io: Seq<char>)
    ensures
        match e {
            BridgeError::Io(_) => e.message(io) == "erreur réseau : "@ + io,
            BridgeError::Timeout(s) => e.message(io) == "délai dépassé : "@ + s@,
            BridgeError::InvalidCredentials => e.message(io)
                == "identifiants invalides (username / password refusés)"@,
            BridgeError::AuthFailed(s) => e.message(io) == "authentification échouée : "@ + s@,
            BridgeError::NotConnected => e.message(io) == "non connecté à l'IC-705"@,
            BridgeError::InvalidFrame(s) => e.message(io) == "trame CI-V invalide : "@ + s@,
            BridgeError::Protocol(s) => e.message(io) == "erreur de protocole : "@ + s@,
        },
{
}

} // verus!
