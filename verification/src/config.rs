use crate::decimal::{
    decimal, digits_value, parse_unsigned, parsed_unsigned, push_decimal, unsigned_digits,
};
use crate::text::optional_view;
use vstd::prelude::*;
use vstd::string::StringExecFns;

verus! {

/// The greatest port number.
pub const MAX_PORT: u32 = 65535;

/// Where the server listens.
#[derive(Clone, Debug, PartialEq, Eq)]
pub struct BindAddress {
    /// The host name or address of the interface.
    pub host: String,
    /// The port.
    pub port: u16,
}

/// Why the server cannot start with the settings it was given.
#[derive(Clone, Copy, Debug, PartialEq, Eq, Structural)]
pub enum ConfigError {
    /// The port is not a decimal number from 0 to 65535.
    InvalidPort,
}

/// The host that the server listens on where none is set: every interface.
pub open spec fn default_host() -> Seq<char> {
    "0.0.0.0"@
}

/// The text of the port that the server listens on where none is set.
pub open spec fn default_port() -> Seq<char> {
    "8080"@
}

/// The host that the settings name.
pub open spec fn chosen_host(host: Option<Seq<char>>) -> Seq<char> {
    match host {
        Some(name) => name,
        None => default_host(),
    }
}

/// The port that the settings name, where its text is a port number.
pub open spec fn chosen_port(port: Option<Seq<char>>) -> Option<nat> {
    match port {
        Some(text) => parsed_unsigned(text, MAX_PORT as nat),
        None => parsed_unsigned(default_port(), MAX_PORT as nat),
    }
}

/// A host, a colon and the port in base ten: the address as a listener takes
/// it.
pub open spec fn socket_address(host: Seq<char>, port: u16) -> Seq<char> {
    host + ":"@ + decimal(port as nat)
}

/// The port that stands for a missing setting is 8080.
pub proof fn lemma_default_port()
    ensures
        chosen_port(None) == Some(8080nat),
{
    reveal_strlit("8080");
    let text = default_port();
    assert(unsigned_digits(text) == text);
    assert(text.drop_last() =~= seq!['8', '0', '8']);
    assert(seq!['8', '0', '8'].drop_last() =~= seq!['8', '0']);
    assert(seq!['8', '0'].drop_last() =~= seq!['8']);
    assert(seq!['8'].drop_last() =~= Seq::<char>::empty());
    reveal_with_fuel(digits_value, 5);
    assert(digits_value(text) == 8080);
}

impl BindAddress {
    /// Settles where the server listens, from the host and the port that its
    /// environment sets or leaves unset.
    pub fn resolve(host: Option<String>, port: Option<String>) -> (outcome: Result<
        BindAddress,
        ConfigError,
    >)
        ensures
            match chosen_port(optional_view(port)) {
                Some(number) => outcome matches Ok(address) && address.host@ == chosen_host(
                    optional_view(host),
                ) && address.port == number,
                None => outcome matches Err(ConfigError::InvalidPort),
            },
    {
        let parsed = match &port {
            Some(text) => parse_unsigned(text.as_str(), MAX_PORT),
            None => parse_unsigned("8080", MAX_PORT),
        };
        let number: u32 = match parsed {
            Some(number) => number,
            None => {
                return Err(ConfigError::InvalidPort);
            },
        };
        let host = match host {
            Some(name) => name,
            None => String::from_str("0.0.0.0"),
        };
        Ok(BindAddress { host, port: number as u16 })
    }

    /// The address as a listener takes it: the host, a colon and the port.
    pub fn address(&self) -> (text: String)
        ensures
            text@ == socket_address(self.host@, self.port),
    {
        let mut text = self.host.clone();
        text.append(":");
        push_decimal(&mut text, self.port as u32);
        text
    }
}

} // verus!
