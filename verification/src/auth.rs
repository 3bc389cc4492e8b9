//! The authorization boundary: the trait the exporter's driver consumes,
//! a fake for tests, and the authorizer error type.  Real token providers
//! do network I/O and live outside the library.

use vstd::prelude::*;

verus! {

/// An error raised while obtaining a token.
#[derive(Debug)]
pub struct GcpAuthorizerError {
    pub message: String,
}

impl GcpAuthorizerError {
    pub open spec fn spec_message(&self) -> Seq<char> {
        self.message@
    }

    pub fn new(message: String) -> (r: Self)
        ensures
            r.spec_message() == message@,
    {
        GcpAuthorizerError { message }
    }

    /// The human-readable description the error was built with.
    pub fn description(&self) -> (r: &str)
        ensures
            r@ == self.spec_message(),
    {
        self.message.as_str()
    }
}

impl From<String> for GcpAuthorizerError {
    fn from(value: String) -> (r: Self) {
        GcpAuthorizerError { message: value }
    }
}

impl vstd::std_specs::convert::FromSpecImpl<String> for GcpAuthorizerError {
    open spec fn obeys_from_spec() -> bool {
        true
    }

    open spec fn from_spec(value: String) -> GcpAuthorizerError {
        GcpAuthorizerError { message: value }
    }
}

/// Supplies the project id and a bearer token for backend calls.  Real
/// implementations fetch tokens over the network; this library only
/// consumes the values they hand back.
pub trait Authorizer {
    fn project_id(&self) -> String;

    fn token(&self) -> Result<String, GcpAuthorizerError>;
}

/// The authorizer used by tests and local fakes: a fixed project id and a
/// fixed token, no network.
#[derive(Clone, Copy, Debug, PartialEq, Eq, Structural)]
pub struct FakeAuthorizer;

impl FakeAuthorizer {
    pub fn new() -> (r: Self)
        ensures
            r == (FakeAuthorizer {  }),
    {
        FakeAuthorizer
    }
}

impl Authorizer for FakeAuthorizer {
    fn project_id(&self) -> String {
        String::from_str("fake_project_id")
    }

    fn token(&self) -> Result<String, GcpAuthorizerError> {
        Ok(String::from_str("fake_token"))
    }
}

/// Marker for the hosted monitoring environment.  Connecting to it —
/// channel construction, TLS — is transport work that lives outside the
/// library.
#[derive(Clone, Copy, Debug)]
pub struct GoogleEnvironment;

} // verus!
