//! The service's configuration, as plain values. Reading it from a file
//! is left to the program.

use crate::text::{decimal, push_decimal};
use vstd::prelude::*;

verus! {

pub struct Config {
    pub database: DatabaseConfig,
    pub server: ServerConfig,
    pub rate_limit: u32,
}

pub struct DatabaseConfig {
    pub url: String,
}

pub struct ServerConfig {
    pub host: String,
    pub port: u16,
}

impl ServerConfig {
    /// The address that the server listens on: the host, a colon, and the
    /// port as a decimal numeral.
    pub fn address(&self) -> (address: String)
        ensures
            address@ == self.host@ + seq![':'] + decimal(self.port as nat),
    {
        let mut address = self.host.clone();
        address.push(':');
        push_decimal(&mut address, self.port as u64);
        assert(self.host@.push(':') == self.host@ + seq![':']);
        address
    }
}

} // verus!
