//! The settings of a server: the port and the address it listens on.

use crate::address::{
    decimal_value, fields, is_ip_address, is_octet, lemma_fields_of_push, names_ip_address,
};
use vstd::prelude::*;

verus! {

/// The address that a server binds: the text of an IP address, and a port.
#[derive(Debug, PartialEq, Eq)]
pub struct BindAddress {
    ip: String,
    port: u16,
}

/// The settings of a server that is ready to listen.
#[derive(Debug, PartialEq, Eq)]
pub struct Server {
    /// The port to listen on.
    pub port: u16,
    /// The address to bind.
    pub bind_address: BindAddress,
}

/// Collects the settings of a server.
#[derive(Debug)]
pub struct ServerBuilder {
    pub port: Option<u16>,
    pub bind_address: Option<String>,
}

/// Why settings do not make a server.
#[derive(Clone, Copy, Debug, PartialEq, Eq, Structural)]
pub enum BuildError {
    /// No port was given.
    MissingOrInvalidPort,
    /// The bind address does not name an IP address.
    InvalidBindAddress,
}

/// The IP address that a server binds where none was given.
pub open spec fn default_ip() -> Seq<char> {
    "127.0.0.1"@
}

impl View for BindAddress {
    type V = (Seq<char>, u16);

    closed spec fn view(&self) -> (Seq<char>, u16) {
        (self.ip@, self.port)
    }
}

impl BindAddress {
    /// The IP address, as text.
    pub fn ip(&self) -> (ip: &str)
        ensures
            ip@ == self@.0,
    {
        self.ip.as_str()
    }

    /// The port.
    pub fn port(&self) -> (port: u16)
        ensures
            port == self@.1,
    {
        self.port
    }
}

impl Default for ServerBuilder {
    /// A builder with nothing set.
    fn default() -> (builder: ServerBuilder)
        ensures
            builder.port is None,
            builder.bind_address is None,
    {
        ServerBuilder { port: None, bind_address: None }
    }
}

impl ServerBuilder {
    /// A builder with nothing set.
    pub fn new() -> (builder: ServerBuilder)
        ensures
            builder.port is None,
            builder.bind_address is None,
    {
        ServerBuilder::default()
    }

    /// Sets the port to listen on.
    pub fn port(self, port: u16) -> (builder: ServerBuilder)
        ensures
            builder.port == Some(port),
            builder.bind_address == self.bind_address,
    {
        ServerBuilder { port: Some(port), bind_address: self.bind_address }
    }

    /// Settles the settings. A port must have been given, and the bind
    /// address, where one was given, must name an IP address. The server
    /// then binds that port on the address given, or on `127.0.0.1` where
    /// none was. A missing port is reported before an address that names
    /// none.
    pub fn build(self) -> (server: Result<Server, BuildError>)
        ensures
            match self.port {
                None => server == Err::<Server, BuildError>(BuildError::MissingOrInvalidPort),
                Some(port) => match self.bind_address {
                    Some(address) if !is_ip_address(address@) => server == Err::<
                        Server,
                        BuildError,
                    >(BuildError::InvalidBindAddress),
                    Some(address) => {
                        &&& server is Ok
                        &&& server->Ok_0.port == port
                        &&& server->Ok_0.bind_address@ == (address@, port)
                    },
                    None => {
                        &&& server is Ok
                        &&& server->Ok_0.port == port
                        &&& server->Ok_0.bind_address@ == (default_ip(), port)
                    },
                },
            },
            server is Ok ==> is_ip_address(server->Ok_0.bind_address@.0),
    {
        let port = match self.port {
            Some(port) => port,
            None => {
                return Err(BuildError::MissingOrInvalidPort);
            },
        };
        let ip = match self.bind_address {
            Some(address) => {
                if !names_ip_address(address.as_str()) {
                    return Err(BuildError::InvalidBindAddress);
                }
                address
            },
            None => {
                proof {
                    lemma_default_ip_is_an_address();
                }
                "127.0.0.1".to_owned()
            },
        };
        Ok(Server { port, bind_address: BindAddress { ip, port } })
    }
}

/// The address that a server binds where none was given is an IP address.
pub proof fn lemma_default_ip_is_an_address()
    ensures
        is_ip_address(default_ip()),
{
    reveal_strlit("127.0.0.1");
    reveal_with_fuel(decimal_value, 4);
    let t0 = Seq::<char>::empty();
    let t1 = t0.push('1');
    let t2 = t1.push('2');
    let t3 = t2.push('7');
    let t4 = t3.push('.');
    let t5 = t4.push('0');
    let t6 = t5.push('.');
    let t7 = t6.push('0');
    let t8 = t7.push('.');
    let t9 = t8.push('1');
    lemma_fields_of_push(t0, '1', '.');
    assert(fields(t1, '.') =~~= seq![seq!['1']]);
    lemma_fields_of_push(t1, '2', '.');
    assert(fields(t2, '.') =~~= seq![seq!['1', '2']]);
    lemma_fields_of_push(t2, '7', '.');
    assert(fields(t3, '.') =~~= seq![seq!['1', '2', '7']]);
    lemma_fields_of_push(t3, '.', '.');
    assert(fields(t4, '.') =~~= seq![seq!['1', '2', '7'], Seq::empty()]);
    lemma_fields_of_push(t4, '0', '.');
    assert(fields(t5, '.') =~~= seq![seq!['1', '2', '7'], seq!['0']]);
    lemma_fields_of_push(t5, '.', '.');
    assert(fields(t6, '.') =~~= seq![seq!['1', '2', '7'], seq!['0'], Seq::empty()]);
    lemma_fields_of_push(t6, '0', '.');
    assert(fields(t7, '.') =~~= seq![seq!['1', '2', '7'], seq!['0'], seq!['0']]);
    lemma_fields_of_push(t7, '.', '.');
    assert(fields(t8, '.') =~~= seq![seq!['1', '2', '7'], seq!['0'], seq!['0'], Seq::empty()]);
    lemma_fields_of_push(t8, '1', '.');
    assert(fields(t9, '.') =~~= seq![seq!['1', '2', '7'], seq!['0'], seq!['0'], seq!['1']]);
    assert(default_ip() =~= t9);
    let octet = seq!['1', '2', '7'];
    assert(octet.drop_last() =~= seq!['1', '2']);
    assert(octet.drop_last().drop_last() =~= seq!['1']);
    assert(decimal_value(octet) == 127);
    assert(is_octet(octet));
    assert(is_octet(seq!['0']));
    assert(is_octet(seq!['1']));
}

} // verus!
