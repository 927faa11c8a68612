//! The whole response to `status`: its lines in order, and the report that
//! they add up to.
use crate::client::{Client, ClientView};
use crate::error::{Failure, OpenvpnError};
use crate::line::{
    classify, entry_of, entry_of_line, epoch_of, epoch_of_line, line_kind, title_of,
    title_of_line, ClientLine, Entry, LineKind, UNDEF,
};
use crate::status::{client_views, Status, StatusView};
use crate::text::{
    equals, first_where, lemma_first_where_is, split, split_chars, to_chars,
};
use crate::time::{checked_utc_start_time, representable, utc_date_time};
use vstd::prelude::*;

verus! {

/// The lines of `text`: what stands between its line feeds. A carriage return
/// before a line feed stays with its line.
pub open spec fn lines_of(text: Seq<char>) -> Seq<Seq<char>> {
    split(text, '\n')
}

/// The failure that reading `line` ends in, if it ends in one. Only the lines
/// of a client, of the title and of the time are read.
pub open spec fn line_failure(line: Seq<char>) -> Option<Failure> {
    match line_kind(line) {
        LineKind::Client => match entry_of_line(line) {
            Err(failure) => Some(failure),
            Ok(_) => None,
        },
        LineKind::Title => match title_of_line(line) {
            Err(failure) => Some(failure),
            Ok(_) => None,
        },
        LineKind::Time => match epoch_of_line(line) {
            Err(failure) => Some(failure),
            Ok(_) => None,
        },
        _ => None,
    }
}

/// The test "reading this line fails".
pub open spec fn fails() -> spec_fn(Seq<char>) -> bool {
    |line: Seq<char>| line_failure(line) is Some
}

/// The position of the first line that cannot be read, or the number of lines
/// where all can.
pub open spec fn first_failure(lines: Seq<Seq<char>>) -> int {
    first_where(lines, fails())
}

/// The position of the last line of kind `kind`, or -1 where there is none.
pub open spec fn latest(lines: Seq<Seq<char>>, kind: LineKind) -> int
    decreases lines.len(),
{
    if lines.len() == 0 {
        -1
    } else if line_kind(lines.last()) == kind {
        lines.len() - 1
    } else {
        latest(lines.drop_last(), kind)
    }
}

/// The client that `line` adds to the list, if it adds one: a client line that
/// can be read and whose name is not `UNDEF`.
pub open spec fn listed_entry(line: Seq<char>) -> Option<Entry> {
    if line_kind(line) == LineKind::Client {
        match entry_of_line(line) {
            Ok(entry) => if entry.name == UNDEF@ {
                None
            } else {
                Some(entry)
            },
            Err(_) => None,
        }
    } else {
        None
    }
}

/// `listed_entry` as a value.
pub open spec fn listing() -> spec_fn(Seq<char>) -> Option<Entry> {
    |line: Seq<char>| listed_entry(line)
}

/// The clients that `lines` list, in the order of the lines.
pub open spec fn entries(lines: Seq<Seq<char>>) -> Seq<Entry> {
    lines.filter_map(listing())
}

/// The clients that `entries` describe, in their order.
pub open spec fn clients_of(entries: Seq<Entry>) -> Seq<ClientView> {
    entries.map_values(|entry: Entry| entry.client())
}

/// What a response says, the times still in seconds since the epoch.
pub struct Report {
    pub title: Seq<char>,
    pub epoch: i64,
    pub clients: Seq<Entry>,
}

impl Report {
    /// The status that the report describes.
    pub open spec fn status(self) -> StatusView {
        StatusView {
            title: self.title,
            timestamp: utc_date_time(self.epoch),
            clients: clients_of(self.clients),
        }
    }

    /// Whether a date can hold the time of the report and the time of
    /// connection of each of its clients.
    pub open spec fn representable(self) -> bool {
        &&& representable(self.epoch)
        &&& forall|i: int|
            0 <= i < self.clients.len() ==> representable((#[trigger] self.clients[i]).epoch)
    }
}

/// What `lines` come to, `text` being the response that they were cut from.
/// The lines are read in order and the first that cannot be read decides the
/// failure. Where all can be read, the response needs the marker of the client
/// list, a title and a time: without one of them it is malformed as a whole.
/// Else the last title and the last time count, and the clients are those
/// listed, in the order of their lines.
pub open spec fn report_of_lines(lines: Seq<Seq<char>>, text: Seq<char>) -> Result<
    Report,
    Failure,
> {
    let failed = first_failure(lines);
    if failed < lines.len() {
        Err(line_failure(lines[failed])->Some_0)
    } else if latest(lines, LineKind::Header) < 0 || latest(lines, LineKind::Title) < 0 || latest(
        lines,
        LineKind::Time,
    ) < 0 {
        Err(Failure::MalformedResponse(text))
    } else {
        Ok(
            Report {
                title: title_of_line(lines[latest(lines, LineKind::Title)])->Ok_0,
                epoch: epoch_of_line(lines[latest(lines, LineKind::Time)])->Ok_0,
                clients: entries(lines),
            },
        )
    }
}

/// What the response `text` comes to: what its lines come to.
pub open spec fn report_of(text: Seq<char>) -> Result<Report, Failure> {
    report_of_lines(lines_of(text), text)
}

/// Whether a date can hold every time of the status that `text` comes to, if
/// it comes to one. A response that fails asks for no date.
pub open spec fn times_in_range(text: Seq<char>) -> bool {
    report_of(text) matches Ok(report) ==> report.representable()
}

/// What reading a response comes to: the failure that `report_of` gives; or
/// the status that it gives; or `None`, where it gives a status with a time
/// that no date can hold.
pub open spec fn status_outcome(text: Seq<char>, r: Option<Result<Status, OpenvpnError>>) -> bool {
    match r {
        None => report_of(text) matches Ok(report) && !report.representable(),
        Some(Ok(status)) => report_of(text) matches Ok(report) && report.representable()
            && status@ == report.status(),
        Some(Err(e)) => report_of(text) == Err::<Report, Failure>(e@),
    }
}

/// What the lines that were read say, in their order.
pub open spec fn entry_views(read: Seq<ClientLine>) -> Seq<Entry> {
    read.map_values(|entry: ClientLine| entry@)
}

/// One more line leaves the last line of a kind where it was, or is it.
pub proof fn lemma_latest_step(lines: Seq<Seq<char>>, i: int, kind: LineKind)
    requires
        0 <= i < lines.len(),
    ensures
        latest(lines.take(i + 1), kind) == if line_kind(lines[i]) == kind {
            i
        } else {
            latest(lines.take(i), kind)
        },
        -1 <= latest(lines.take(i), kind) < i,
    decreases i,
{
    assert(lines.take(i + 1).drop_last() =~= lines.take(i));
    assert(lines.take(i + 1).last() == lines[i]);
    if i > 0 {
        lemma_latest_step(lines, i - 1, kind);
    }
}

/// One more line adds its client to those listed, or nothing.
pub proof fn lemma_entries_step(lines: Seq<Seq<char>>, i: int)
    requires
        0 <= i < lines.len(),
    ensures
        entries(lines.take(i + 1)) == match listed_entry(lines[i]) {
            Some(entry) => entries(lines.take(i)).push(entry),
            None => entries(lines.take(i)),
        },
{
    assert(lines.take(i + 1).drop_last() =~= lines.take(i));
    assert(lines.take(i + 1).last() == lines[i]);
    let before = entries(lines.take(i));
    match listed_entry(lines[i]) {
        Some(entry) => {
            assert(before + seq![entry] =~= before.push(entry));
        },
        None => {},
    }
}

/// Makes the status of a report whose lines were read, where a date can hold
/// each of its times.
pub fn status_of(title: String, epoch: i64, read: &Vec<ClientLine>) -> (r: Option<Status>)
    ensures
        r is Some <==> (Report { title: title@, epoch, clients: entry_views(read@) }).representable(),
        r matches Some(status) ==> status@ == (Report {
            title: title@,
            epoch,
            clients: entry_views(read@),
        }).status(),
{
    let ghost listed = entry_views(read@);
    let timestamp = match checked_utc_start_time(epoch) {
        None => { return None; },
        Some(timestamp) => timestamp,
    };
    let mut clients: Vec<Client> = Vec::new();
    let mut i: usize = 0;
    assert(client_views(clients@) =~= clients_of(listed.take(0)));
    while i < read.len()
        invariant
            i <= read.len(),
            listed == entry_views(read@),
            forall|k: int| 0 <= k < i ==> representable((#[trigger] listed[k]).epoch),
            client_views(clients@) == clients_of(listed.take(i as int)),
        decreases read.len() - i,
    {
        assert(listed[i as int] == read@[i as int]@);
        match read[i].to_client() {
            None => {
                proof {
                    let report = Report { title: title@, epoch, clients: listed };
                    assert(!representable(report.clients[i as int].epoch));
                }
                return None;
            },
            Some(client) => {
                assert(client_views(clients@.push(client)) =~= client_views(clients@).push(client@));
                assert(clients_of(listed.take(i + 1)) =~= clients_of(listed.take(i as int)).push(
                    client@,
                ));
                clients.push(client);
            },
        }
        i += 1;
    }
    assert(listed.take(i as int) =~= listed);
    Some(Status::new(title, timestamp, clients))
}

/// Reads a response. `None` says that the response comes to a status with a
/// time that no date can hold.
pub fn try_parse_status_output(output: String) -> (r: Option<Result<Status, OpenvpnError>>)
    ensures
        status_outcome(output@, r),
{
    let chars = to_chars(output.as_str());
    let lines = split_chars(chars.as_slice(), '\n');
    let ghost all = lines_of(output@);
    assert(all.len() == lines@.len());
    assert(forall|j: int| 0 <= j < lines@.len() ==> #[trigger] all[j] == lines@[j]@);
    let mut read: Vec<ClientLine> = Vec::new();
    let mut has_client_list = false;
    let mut title: Option<String> = None;
    let mut epoch: Option<i64> = None;
    let mut i: usize = 0;
    assert(entries(all.take(0)) =~= entry_views(read@));
    while i < lines.len()
        invariant
            i <= lines.len(),
            all == lines_of(output@),
            all.len() == lines@.len(),
            forall|j: int| 0 <= j < lines@.len() ==> #[trigger] all[j] == lines@[j]@,
            forall|j: int| 0 <= j < i ==> !fails()(#[trigger] all[j]),
            has_client_list == (latest(all.take(i as int), LineKind::Header) >= 0),
            title is Some == (latest(all.take(i as int), LineKind::Title) >= 0),
            title matches Some(t) ==> title_of_line(all[latest(all.take(i as int), LineKind::Title)])
                == Ok::<Seq<char>, Failure>(t@),
            epoch is Some == (latest(all.take(i as int), LineKind::Time) >= 0),
            epoch matches Some(secs) ==> epoch_of_line(
                all[latest(all.take(i as int), LineKind::Time)],
            ) == Ok::<i64, Failure>(secs),
            entry_views(read@) == entries(all.take(i as int)),
        decreases lines.len() - i,
    {
        let line = lines[i].as_slice();
        proof {
            lemma_latest_step(all, i as int, LineKind::Header);
            lemma_latest_step(all, i as int, LineKind::Title);
            lemma_latest_step(all, i as int, LineKind::Time);
            lemma_entries_step(all, i as int);
        }
        match classify(line) {
            LineKind::Header => {
                has_client_list = true;
            },
            LineKind::Client => {
                match entry_of(line) {
                    Err(e) => {
                        proof {
                            lemma_first_where_is(all, fails(), i as int);
                        }
                        return Some(Err(e));
                    },
                    Ok(entry) => {
                        let name = to_chars(entry.name());
                        if !equals(name.as_slice(), UNDEF) {
                            assert(entry_views(read@.push(entry)) =~= entry_views(read@).push(
                                entry@,
                            ));
                            read.push(entry);
                        }
                    },
                }
            },
            LineKind::Title => {
                match title_of(line) {
                    Err(e) => {
                        proof {
                            lemma_first_where_is(all, fails(), i as int);
                        }
                        return Some(Err(e));
                    },
                    Ok(t) => {
                        title = Some(t);
                    },
                }
            },
            LineKind::Time => {
                match epoch_of(line) {
                    Err(e) => {
                        proof {
                            lemma_first_where_is(all, fails(), i as int);
                        }
                        return Some(Err(e));
                    },
                    Ok(secs) => {
                        epoch = Some(secs);
                    },
                }
            },
            LineKind::Other => {},
        }
        i += 1;
    }
    proof {
        assert(all.take(i as int) =~= all);
        lemma_first_where_is(all, fails(), all.len() as int);
    }
    match (has_client_list, title, epoch) {
        (true, Some(title), Some(epoch)) => match status_of(title, epoch, &read) {
            Some(status) => Some(Ok(status)),
            None => None,
        },
        _ => Some(Err(OpenvpnError::MalformedResponse(output))),
    }
}

/// Reads a response that fails, or whose status has only times that a date
/// can hold.
pub fn parse_status_output(output: String) -> (r: Result<Status, OpenvpnError>)
    requires
        times_in_range(output@),
    ensures
        status_outcome(output@, Some(r)),
{
    match try_parse_status_output(output) {
        Some(r) => r,
        None => vstd::pervasive::unreached(),
    }
}

} // verus!
