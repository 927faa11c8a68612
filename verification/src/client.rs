//! One client that is connected to the server.
use crate::number::FloatLiteral;
use vstd::prelude::*;

verus! {

/// What is known of a client that is connected to the OpenVPN server.
#[derive(Clone, Debug, PartialEq)]
pub struct Client {
    name: String,
    ip_address: String,
    connected_since: chrono::NaiveDateTime,
    bytes_received: FloatLiteral,
    bytes_sent: FloatLiteral,
}

/// A `Client` with its texts as sequences of characters.
pub struct ClientView {
    pub name: Seq<char>,
    pub ip_address: Seq<char>,
    pub connected_since: chrono::NaiveDateTime,
    pub bytes_received: Seq<char>,
    pub bytes_sent: Seq<char>,
}

impl View for Client {
    type V = ClientView;

    closed spec fn view(&self) -> ClientView {
        ClientView {
            name: self.name@,
            ip_address: self.ip_address@,
            connected_since: self.connected_since,
            bytes_received: self.bytes_received@,
            bytes_sent: self.bytes_sent@,
        }
    }
}

impl Client {
    pub fn new(
        name: String,
        ip_address: String,
        connected_since: chrono::NaiveDateTime,
        bytes_received: FloatLiteral,
        bytes_sent: FloatLiteral,
    ) -> (client: Client)
        ensures
            client@ == (ClientView {
                name: name@,
                ip_address: ip_address@,
                connected_since: connected_since,
                bytes_received: bytes_received@,
                bytes_sent: bytes_sent@,
            }),
    {
        Client { name, ip_address, connected_since, bytes_received, bytes_sent }
    }

    /// Common Name
    pub fn name(&self) -> (name: &str)
        ensures
            name@ == self@.name,
    {
        self.name.as_str()
    }

    /// Remote IP address
    pub fn ip_address(&self) -> (ip_address: &str)
        ensures
            ip_address@ == self@.ip_address,
    {
        self.ip_address.as_str()
    }

    /// Date and time, in UTC, at which the client connected
    pub fn connected_since(&self) -> (connected_since: &chrono::NaiveDateTime)
        ensures
            *connected_since == self@.connected_since,
    {
        &self.connected_since
    }

    /// Bytes received from the client
    pub fn bytes_received(&self) -> (bytes_received: &FloatLiteral)
        ensures
            bytes_received@ == self@.bytes_received,
    {
        &self.bytes_received
    }

    /// Bytes sent to the client
    pub fn bytes_sent(&self) -> (bytes_sent: &FloatLiteral)
        ensures
            bytes_sent@ == self@.bytes_sent,
    {
        &self.bytes_sent
    }
}

} // verus!
