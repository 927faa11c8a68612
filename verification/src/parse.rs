//! Reading single lines that are given as text.
use crate::client::Client;
use crate::error::{Failure, OpenvpnError};
use crate::line::{
    client_of, client_outcome, entry_of_line, epoch_of, epoch_of_line, fields, split_fields,
    title_of, title_of_line, };
use crate::text::{string_texts, texts, to_chars, to_text};
use crate::time::{checked_utc_start_time, representable, utc_date_time};
use vstd::prelude::*;

verus! {

/// The fields of `raw_line` between its tabs, where there are `expected_length`
/// of them or more; else the line is malformed, and the failure holds it as it
/// stands.
pub fn split_line_by_tabs(raw_line: &str, expected_length: usize) -> (r: Result<
    Vec<String>,
    OpenvpnError,
>)
    ensures
        r is Ok <==> fields(raw_line@).len() >= expected_length,
        r matches Ok(parts) ==> string_texts(parts@) == fields(raw_line@),
        r matches Err(e) ==> e@ == Failure::MalformedResponse(raw_line@),
{
    let chars = to_chars(raw_line);
    let pieces = match split_fields(chars.as_slice(), expected_length) {
        Err(e) => { return Err(e); },
        Ok(pieces) => pieces,
    };
    let mut parts: Vec<String> = Vec::new();
    let mut i: usize = 0;
    while i < pieces.len()
        invariant
            i <= pieces.len(),
            parts.len() == i,
            string_texts(parts@) == texts(pieces@).take(i as int),
        decreases pieces.len() - i,
    {
        let part = to_text(pieces[i].as_slice());
        proof {
            let before = string_texts(parts@);
            let after = string_texts(parts@.push(part));
            let wanted = texts(pieces@).take(i + 1);
            assert(after.len() == wanted.len());
            assert forall|j: int| 0 <= j < after.len() implies after[j] == wanted[j] by {
                if j < i {
                    assert(after[j] == before[j]);
                    assert(before[j] == texts(pieces@).take(i as int)[j]);
                }
            }
            assert(after =~= wanted);
        }
        parts.push(part);
        i += 1;
    }
    assert(texts(pieces@).take(i as int) =~= texts(pieces@));
    Ok(parts)
}

/// The title that the line `raw_title` gives.
pub fn parse_title(raw_title: &str) -> (r: Result<String, OpenvpnError>)
    ensures
        title_of_line(raw_title@) == match r {
            Ok(title) => Ok::<Seq<char>, Failure>(title@),
            Err(e) => Err(e@),
        },
{
    let chars = to_chars(raw_title);
    title_of(chars.as_slice())
}

/// What reading the time from `line` comes to: `None` where the line is in
/// order but gives a time that no date can hold, else the date or the failure.
pub open spec fn timestamp_outcome(
    line: Seq<char>,
    r: Option<Result<chrono::NaiveDateTime, OpenvpnError>>,
) -> bool {
    match r {
        None => epoch_of_line(line) matches Ok(secs) && !representable(secs),
        Some(Ok(t)) => epoch_of_line(line) matches Ok(secs) && representable(secs) && t
            == utc_date_time(secs),
        Some(Err(e)) => epoch_of_line(line) == Err::<i64, Failure>(e@),
    }
}

/// The time that the line `raw_timestamp` gives. `None` says that the line
/// gives a time that no date can hold.
pub fn try_parse_timestamp(raw_timestamp: &str) -> (r: Option<
    Result<chrono::NaiveDateTime, OpenvpnError>,
>)
    ensures
        timestamp_outcome(raw_timestamp@, r),
{
    let chars = to_chars(raw_timestamp);
    match epoch_of(chars.as_slice()) {
        Err(e) => Some(Err(e)),
        Ok(secs) => match checked_utc_start_time(secs) {
            Some(t) => Some(Ok(t)),
            None => None,
        },
    }
}

/// The time that the line `raw_timestamp` gives.
pub fn parse_timestamp(raw_timestamp: &str) -> (r: Result<chrono::NaiveDateTime, OpenvpnError>)
    requires
        epoch_of_line(raw_timestamp@) matches Ok(secs) ==> representable(secs),
    ensures
        timestamp_outcome(raw_timestamp@, Some(r)),
{
    match try_parse_timestamp(raw_timestamp) {
        Some(r) => r,
        None => vstd::pervasive::unreached(),
    }
}

/// The client that the line `raw_client` gives. `None` says that the line gives
/// a time of connection that no date can hold.
pub fn try_parse_client(raw_client: &str) -> (r: Option<Result<Client, OpenvpnError>>)
    ensures
        client_outcome(raw_client@, r),
{
    let chars = to_chars(raw_client);
    client_of(chars.as_slice())
}

/// The client that the line `raw_client` gives.
pub fn parse_client(raw_client: &str) -> (r: Result<Client, OpenvpnError>)
    requires
        entry_of_line(raw_client@) matches Ok(entry) ==> representable(entry.epoch),
    ensures
        client_outcome(raw_client@, Some(r)),
{
    match try_parse_client(raw_client) {
        Some(r) => r,
        None => vstd::pervasive::unreached(),
    }
}

} // verus!
