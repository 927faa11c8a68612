//! One report of the server: its title, the time at which the server wrote it,
//! and the clients that were connected then.
use crate::client::{Client, ClientView};
use vstd::prelude::*;

verus! {

/// The server's table of clients at one point in time.
#[derive(Clone, Debug, PartialEq)]
pub struct Status {
    title: String,
    clients: Vec<Client>,
    timestamp: chrono::NaiveDateTime,
}

/// A `Status` with its texts as sequences of characters and its clients by
/// their views.
pub struct StatusView {
    pub title: Seq<char>,
    pub timestamp: chrono::NaiveDateTime,
    pub clients: Seq<ClientView>,
}

/// The views of the clients of `clients`, in their order.
pub open spec fn client_views(clients: Seq<Client>) -> Seq<ClientView> {
    clients.map_values(|c: Client| c@)
}

impl View for Status {
    type V = StatusView;

    closed spec fn view(&self) -> StatusView {
        StatusView {
            title: self.title@,
            timestamp: self.timestamp,
            clients: client_views(self.clients@),
        }
    }
}

impl Status {
    pub fn new(title: String, timestamp: chrono::NaiveDateTime, clients: Vec<Client>) -> (status:
        Status)
        ensures
            status@ == (StatusView {
                title: title@,
                timestamp: timestamp,
                clients: client_views(clients@),
            }),
    {
        Status { title, clients, timestamp }
    }

    /// The title of the report
    pub fn title(&self) -> (title: &str)
        ensures
            title@ == self@.title,
    {
        self.title.as_str()
    }

    /// The time, in UTC, at which the server wrote the report
    pub fn timestamp(&self) -> (timestamp: &chrono::NaiveDateTime)
        ensures
            *timestamp == self@.timestamp,
    {
        &self.timestamp
    }

    /// The clients in the order in which the report lists them
    pub fn clients(&self) -> (clients: &[Client])
        ensures
            client_views(clients@) == self@.clients,
    {
        self.clients.as_slice()
    }
}

} // verus!
