//! One line of a status report: which record it holds, its fields between the
//! tabs, and the title, the time or the client that the fields spell out.
use crate::client::{Client, ClientView};
use crate::error::{Failure, OpenvpnError};
use crate::number::{decode_i64, float_error, parse_i64, FloatLiteral};
use crate::text::{
    find, index_of, split, split_chars, starts_with, strip_cr, strip_cr_of, texts,
    to_text,
};
use crate::time::{checked_utc_start_time, representable, utc_date_time};
use vstd::prelude::*;
use vstd::slice::slice_subrange;

verus! {

/// How the line begins that opens the list of clients.
pub const HEADER_START_LINE: &'static str = "HEADER\tCLIENT_LIST";

/// How the line of a client begins.
pub const START_CLIENT_LIST: &'static str = "CLIENT_LIST";

/// How the line of the title begins.
pub const START_TITLE: &'static str = "TITLE";

/// How the line of the time begins.
pub const START_TIME: &'static str = "TIME";

/// The name of a client that has not given its name yet.
pub const UNDEF: &'static str = "UNDEF";

/// The record that a line holds, told by how the line begins.
#[derive(Clone, Copy, Debug, PartialEq, Eq, Structural)]
pub enum LineKind {
    /// The line that opens the list of clients.
    Header,
    /// One client.
    Client,
    /// The title of the report.
    Title,
    /// The time of the report.
    Time,
    /// Any other line; it is passed over.
    Other,
}

/// The kind of `line`. The test is on the first characters of the line as they
/// stand, and the marker of the client list is looked for before the tag of a
/// client, the title before the time.
pub open spec fn line_kind(line: Seq<char>) -> LineKind {
    if HEADER_START_LINE@.is_prefix_of(line) {
        LineKind::Header
    } else if START_CLIENT_LIST@.is_prefix_of(line) {
        LineKind::Client
    } else if START_TITLE@.is_prefix_of(line) {
        LineKind::Title
    } else if START_TIME@.is_prefix_of(line) {
        LineKind::Time
    } else {
        LineKind::Other
    }
}

/// The fields of `line`: what stands between its tabs.
pub open spec fn fields(line: Seq<char>) -> Seq<Seq<char>> {
    split(line, '\t')
}

/// The least number of fields of a line that holds a title.
pub const TITLE_FIELDS: usize = 2;

/// The least number of fields of a line that holds the time.
pub const TIME_FIELDS: usize = 3;

/// The least number of fields of a line that holds a client.
pub const CLIENT_FIELDS: usize = 9;

/// The title that a `TITLE` line gives: its field 1 without a trailing carriage
/// return. A line of fewer than two fields is malformed.
pub open spec fn title_of_line(line: Seq<char>) -> Result<Seq<char>, Failure> {
    if fields(line).len() < TITLE_FIELDS {
        Err(Failure::MalformedResponse(line))
    } else {
        Ok(strip_cr(fields(line)[1]))
    }
}

/// The seconds since the epoch that a `TIME` line gives: its field 2 without a
/// trailing carriage return, read as an integer. A line of fewer than three
/// fields is malformed.
pub open spec fn epoch_of_line(line: Seq<char>) -> Result<i64, Failure> {
    if fields(line).len() < TIME_FIELDS {
        Err(Failure::MalformedResponse(line))
    } else {
        match decode_i64(strip_cr(fields(line)[2])) {
            Ok(secs) => Ok(secs),
            Err(kind) => Err(Failure::ParseInt(kind)),
        }
    }
}

/// What a `CLIENT_LIST` line says of a client, the time still in seconds since
/// the epoch.
pub struct Entry {
    pub name: Seq<char>,
    pub ip_address: Seq<char>,
    pub epoch: i64,
    pub bytes_received: Seq<char>,
    pub bytes_sent: Seq<char>,
}

impl Entry {
    /// The client that the entry describes.
    pub open spec fn client(self) -> ClientView {
        ClientView {
            name: self.name,
            ip_address: self.ip_address,
            connected_since: utc_date_time(self.epoch),
            bytes_received: self.bytes_received,
            bytes_sent: self.bytes_sent,
        }
    }
}

/// The address in `address:port`: what stands before the first colon, or all of
/// it where there is no colon.
pub open spec fn host_of(endpoint: Seq<char>) -> Seq<char> {
    endpoint.take(index_of(endpoint, ':'))
}

/// The client that a `CLIENT_LIST` line gives. Field 1 is the name, field 2 the
/// address and port, fields 5 and 6 the bytes received and sent, all four as
/// they stand; field 8, without a trailing carriage return, is the time of
/// connection in seconds since the epoch. A line of fewer than nine fields is
/// malformed; then the time is read, then the bytes received, then the bytes
/// sent, and the first that cannot be read is the failure.
pub open spec fn entry_of_line(line: Seq<char>) -> Result<Entry, Failure> {
    if fields(line).len() < CLIENT_FIELDS {
        Err(Failure::MalformedResponse(line))
    } else {
        match decode_i64(strip_cr(fields(line)[8])) {
            Err(kind) => Err(Failure::ParseInt(kind)),
            Ok(epoch) => match float_error(fields(line)[5]) {
                Some(kind) => Err(Failure::ParseFloat(kind)),
                None => match float_error(fields(line)[6]) {
                    Some(kind) => Err(Failure::ParseFloat(kind)),
                    None => Ok(
                        Entry {
                            name: fields(line)[1],
                            ip_address: host_of(fields(line)[2]),
                            epoch,
                            bytes_received: fields(line)[5],
                            bytes_sent: fields(line)[6],
                        },
                    ),
                },
            },
        }
    }
}

/// Tells the kind of `line`.
pub fn classify(line: &[char]) -> (kind: LineKind)
    ensures
        kind == line_kind(line@),
{
    if starts_with(line, HEADER_START_LINE) {
        LineKind::Header
    } else if starts_with(line, START_CLIENT_LIST) {
        LineKind::Client
    } else if starts_with(line, START_TITLE) {
        LineKind::Title
    } else if starts_with(line, START_TIME) {
        LineKind::Time
    } else {
        LineKind::Other
    }
}

/// The fields of `line`, where there are `expected_length` of them or more.
pub fn split_fields(line: &[char], expected_length: usize) -> (r: Result<
    Vec<Vec<char>>,
    OpenvpnError,
>)
    ensures
        r is Ok <==> fields(line@).len() >= expected_length,
        r matches Ok(parts) ==> texts(parts@) == fields(line@),
        r matches Err(e) ==> e@ == Failure::MalformedResponse(line@),
{
    let parts = split_chars(line, '\t');
    assert(texts(parts@).len() == parts@.len());
    if parts.len() < expected_length {
        return Err(OpenvpnError::MalformedResponse(to_text(line)));
    }
    Ok(parts)
}

/// Reads the title from a `TITLE` line.
pub fn title_of(line: &[char]) -> (r: Result<String, OpenvpnError>)
    ensures
        title_of_line(line@) == match r {
            Ok(title) => Ok::<Seq<char>, Failure>(title@),
            Err(e) => Err(e@),
        },
{
    match split_fields(line, TITLE_FIELDS) {
        Err(e) => Err(e),
        Ok(parts) => {
            assert(texts(parts@)[1] == parts@[1]@);
            Ok(to_text(strip_cr_of(parts[1].as_slice())))
        },
    }
}

/// Reads the seconds since the epoch from a `TIME` line.
pub fn epoch_of(line: &[char]) -> (r: Result<i64, OpenvpnError>)
    ensures
        epoch_of_line(line@) == match r {
            Ok(secs) => Ok::<i64, Failure>(secs),
            Err(e) => Err(e@),
        },
{
    match split_fields(line, TIME_FIELDS) {
        Err(e) => Err(e),
        Ok(parts) => {
            assert(texts(parts@)[2] == parts@[2]@);
            match parse_i64(strip_cr_of(parts[2].as_slice())) {
                Ok(secs) => Ok(secs),
                Err(kind) => Err(OpenvpnError::ParseInt(kind)),
            }
        },
    }
}

/// What a `CLIENT_LIST` line says of a client, as it was read: the time of
/// connection still in seconds since the epoch.
#[derive(Debug, PartialEq)]
pub struct ClientLine {
    name: String,
    ip_address: String,
    epoch: i64,
    bytes_received: FloatLiteral,
    bytes_sent: FloatLiteral,
}

impl View for ClientLine {
    type V = Entry;

    closed spec fn view(&self) -> Entry {
        Entry {
            name: self.name@,
            ip_address: self.ip_address@,
            epoch: self.epoch,
            bytes_received: self.bytes_received@,
            bytes_sent: self.bytes_sent@,
        }
    }
}

impl ClientLine {
    /// The name as the line gives it.
    pub fn name(&self) -> (name: &str)
        ensures
            name@ == self@.name,
    {
        self.name.as_str()
    }

    /// The time of connection in seconds since the epoch.
    pub fn epoch(&self) -> (epoch: i64)
        ensures
            epoch == self@.epoch,
    {
        self.epoch
    }

    /// The client, where a date can hold its time of connection.
    pub fn to_client(&self) -> (r: Option<Client>)
        ensures
            r is Some <==> representable(self@.epoch),
            r matches Some(client) ==> client@ == self@.client(),
    {
        match checked_utc_start_time(self.epoch) {
            None => None,
            Some(connected_since) => Some(
                Client::new(
                    self.name.clone(),
                    self.ip_address.clone(),
                    connected_since,
                    self.bytes_received.clone(),
                    self.bytes_sent.clone(),
                ),
            ),
        }
    }
}

/// Reads a `CLIENT_LIST` line.
pub fn entry_of(line: &[char]) -> (r: Result<ClientLine, OpenvpnError>)
    ensures
        entry_of_line(line@) == match r {
            Ok(entry) => Ok::<Entry, Failure>(entry@),
            Err(e) => Err(e@),
        },
{
    let parts = match split_fields(line, CLIENT_FIELDS) {
        Err(e) => { return Err(e); },
        Ok(parts) => parts,
    };
    assert(forall|i: int| 0 <= i < parts@.len() ==> #[trigger] texts(parts@)[i] == parts@[i]@);
    let name = parts[1].as_slice();
    let endpoint = parts[2].as_slice();
    let address = slice_subrange(endpoint, 0, find(endpoint, ':'));
    assert(address@ =~= host_of(endpoint@));
    let epoch = match parse_i64(strip_cr_of(parts[8].as_slice())) {
        Err(kind) => { return Err(OpenvpnError::ParseInt(kind)); },
        Ok(epoch) => epoch,
    };
    let bytes_received = match FloatLiteral::from_chars(parts[5].as_slice()) {
        Err(kind) => { return Err(OpenvpnError::ParseFloat(kind)); },
        Ok(literal) => literal,
    };
    let bytes_sent = match FloatLiteral::from_chars(parts[6].as_slice()) {
        Err(kind) => { return Err(OpenvpnError::ParseFloat(kind)); },
        Ok(literal) => literal,
    };
    Ok(
        ClientLine {
            name: to_text(name),
            ip_address: to_text(address),
            epoch,
            bytes_received,
            bytes_sent,
        },
    )
}

/// What reading a client from `line` comes to: `None` where the line is in
/// order but its time of connection is one that no date can hold, else the
/// client or the failure.
pub open spec fn client_outcome(
    line: Seq<char>,
    r: Option<Result<Client, OpenvpnError>>,
) -> bool {
    match r {
        None => entry_of_line(line) matches Ok(entry) && !representable(entry.epoch),
        Some(Ok(client)) => entry_of_line(line) matches Ok(entry) && representable(entry.epoch)
            && client@ == entry.client(),
        Some(Err(e)) => entry_of_line(line) == Err::<Entry, Failure>(e@),
    }
}

/// Reads a client from a `CLIENT_LIST` line.
pub fn client_of(line: &[char]) -> (r: Option<Result<Client, OpenvpnError>>)
    ensures
        client_outcome(line@, r),
{
    match entry_of(line) {
        Err(e) => Some(Err(e)),
        Ok(entry) => match entry.to_client() {
            Some(client) => Some(Ok(client)),
            None => None,
        },
    }
}

} // verus!
