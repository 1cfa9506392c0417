//! What the service is told when it starts.

use crate::decimal::{decimal, push_decimal};
use vstd::prelude::*;

verus! {

/// The configuration of a server or of a client.
#[derive(Debug, Default, Clone, PartialEq, Eq)]
pub struct Config {
    pub name: String,
    pub version: String,
    /// The host that the server binds to, and that a client sends to.
    pub host: String,
    pub port: u16,
    /// The file that configures the logger.
    pub logging_config: String,
    /// A file of entries to load into the store before the service starts.
    pub data_file: Option<String>,
}

/// The mathematical value of a `Config`.
pub struct ConfigView {
    pub name: Seq<char>,
    pub version: Seq<char>,
    pub host: Seq<char>,
    pub port: u16,
    pub logging_config: Seq<char>,
    pub data_file: Option<Seq<char>>,
}

impl View for Config {
    type V = ConfigView;

    open spec fn view(&self) -> ConfigView {
        ConfigView {
            name: self.name@,
            version: self.version@,
            host: self.host@,
            port: self.port,
            logging_config: self.logging_config@,
            data_file: text_view(self.data_file),
        }
    }
}

impl ConfigView {
    /// The address of the service: the host, a colon and the port.
    pub open spec fn address(self) -> Seq<char> {
        self.host + seq![':'] + decimal(self.port as nat)
    }

    /// The file of entries to load: the one given when the service is
    /// started, and the one of the configuration where none is given.
    pub open spec fn data_file_or(self, given: Option<Seq<char>>) -> Option<Seq<char>> {
        if given is Some {
            given
        } else {
            self.data_file
        }
    }
}

/// The text of a string, if there is one.
pub open spec fn text_view(s: Option<String>) -> Option<Seq<char>> {
    match s {
        Some(text) => Some(text@),
        None => None,
    }
}

impl Config {
    /// A copy of the configuration.
    pub fn copy(&self) -> (c: Config)
        ensures
            c@ == self@,
    {
        Config {
            name: self.name.clone(),
            version: self.version.clone(),
            host: self.host.clone(),
            port: self.port,
            logging_config: self.logging_config.clone(),
            data_file: match &self.data_file {
                Some(file) => Some(file.clone()),
                None => None,
            },
        }
    }

    /// The file of entries to load before the service starts: `given`
    /// where it names one, and else the one of the configuration.
    pub fn data_file_or(&self, given: Option<String>) -> (file: Option<String>)
        ensures
            text_view(file) == self@.data_file_or(text_view(given)),
    {
        match given {
            Some(name) => Some(name),
            None => match &self.data_file {
                Some(name) => Some(name.clone()),
                None => None,
            },
        }
    }

    /// The address of the service: the host, a colon and the port.
    pub fn address(&self) -> (s: String)
        ensures
            s@ == self@.address(),
    {
        let mut s = self.host.clone();
        s.append(":");
        push_decimal(&mut s, self.port as u128);
        proof {
            reveal_strlit(":");
            assert(":"@ =~= seq![':']);
            assert(s@ =~= self@.address());
        }
        s
    }
}

} // verus!
