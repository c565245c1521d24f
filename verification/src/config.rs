//! The settings that the listener starts with.

use crate::port::{decimal_value, is_port_text, parse_port, port_of, unsigned_part, PortError};
use vstd::prelude::*;

verus! {

/// The port that is listened on when none is given.
pub const DEFAULT_PORT: u16 = 3756;

/// The settings of one run. They are fixed once read.
#[derive(Clone, Copy, Debug, PartialEq, Eq, Structural)]
pub struct Config {
    /// The TCP port to listen on.
    pub port: u16,
    /// Whether the alternate opening mode was asked for.
    pub wsl: bool,
}

/// The settings that a port text and a mode flag stand for: the port that
/// the text denotes beside the flag as given, or the text's error.
pub open spec fn config_of(port_text: Seq<char>, wsl: bool) -> Result<Config, PortError> {
    match port_of(port_text) {
        Ok(port) => Ok(Config { port, wsl }),
        Err(e) => Err(e),
    }
}

/// The text of the default port.
pub fn default_port_text() -> (r: &'static str)
    ensures
        r@ == "3756"@,
        port_of(r@) == Ok::<u16, PortError>(DEFAULT_PORT),
{
    let r = "3756";
    proof {
        reveal_strlit("3756");
        let s = r@;
        assert(unsigned_part(s) == s);
        assert(s.drop_last() =~= seq!['3', '7', '5']);
        assert(s.drop_last().drop_last() =~= seq!['3', '7']);
        assert(s.drop_last().drop_last().drop_last() =~= seq!['3']);
        assert(s.drop_last().drop_last().drop_last().drop_last() =~= Seq::<char>::empty());
        reveal_with_fuel(decimal_value, 5);
        assert(decimal_value(s) == 3756);
    }
    r
}

impl Config {
    /// Builds the settings from the two command-line values: the text given
    /// for the port and whether the mode flag was present. The port text is
    /// the only thing checked; a text that is no port is refused with its
    /// error and no settings are made.
    pub fn from_flags(port_text: &str, wsl: bool) -> (r: Result<Config, PortError>)
        ensures
            r == config_of(port_text@, wsl),
            r is Ok <==> is_port_text(port_text@),
    {
        match parse_port(port_text) {
            Ok(port) => Ok(Config { port, wsl }),
            Err(e) => Err(e),
        }
    }

    /// Where to listen: every local address, on the configured port.
    pub fn listen_address(&self) -> (r: ([u8; 4], u16))
        ensures
            r.0@ == seq![0u8, 0u8, 0u8, 0u8],
            r.1 == self.port,
    {
        ([0u8, 0u8, 0u8, 0u8], self.port)
    }
}

/// The mode flag passes through untouched and has no say in whether the
/// settings are made or which port they hold.
pub proof fn lemma_flag_passes_through(port_text: Seq<char>, wsl: bool)
    ensures
        config_of(port_text, wsl) is Ok <==> is_port_text(port_text),
        config_of(port_text, wsl) matches Ok(c) ==> c.wsl == wsl && c.port == decimal_value(
            unsigned_part(port_text),
        ),
        config_of(port_text, wsl) matches Err(e) ==> config_of(port_text, !wsl) == Err::<
            Config,
            PortError,
        >(e),
{
}

} // verus!
