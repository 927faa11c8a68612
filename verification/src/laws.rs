//! What holds of every response, stated over `report_of`: the failure of a
//! response that lacks a section, the failure of a client line that is too
//! short, and which clients a status lists and in which order.
use crate::error::Failure;
use crate::line::{entry_of_line, fields, line_kind, Entry, LineKind, CLIENT_FIELDS, UNDEF};
use crate::response::{
    entries, fails, first_failure, latest, line_failure, lines_of, listed_entry, report_of,
    report_of_lines,
};
use crate::text::{lemma_first_where, lemma_first_where_is};
use vstd::prelude::*;

verus! {

/// `latest` is the position of a line of the kind, with none of the kind after
/// it; it is -1 exactly where no line is of the kind.
pub proof fn lemma_latest(lines: Seq<Seq<char>>, kind: LineKind)
    ensures
        -1 <= latest(lines, kind) < lines.len(),
        latest(lines, kind) >= 0 ==> line_kind(lines[latest(lines, kind)]) == kind,
        forall|i: int| latest(lines, kind) < i < lines.len() ==> line_kind(#[trigger] lines[i]) != kind,
    decreases lines.len(),
{
    if lines.len() > 0 && line_kind(lines.last()) != kind {
        let head = lines.drop_last();
        lemma_latest(head, kind);
        assert forall|i: int| latest(lines, kind) < i < lines.len() implies line_kind(
            #[trigger] lines[i],
        ) != kind by {
            if i < head.len() {
                assert(lines[i] == head[i]);
            }
        }
        if latest(head, kind) >= 0 {
            assert(head[latest(head, kind)] == lines[latest(lines, kind)]);
        }
    }
}

/// A line of the kind with none of the kind after it is the latest.
pub proof fn lemma_latest_is(lines: Seq<Seq<char>>, kind: LineKind, k: int)
    requires
        0 <= k < lines.len(),
        line_kind(lines[k]) == kind,
        forall|i: int| k < i < lines.len() ==> line_kind(#[trigger] lines[i]) != kind,
    ensures
        latest(lines, kind) == k,
{
    lemma_latest(lines, kind);
    let found = latest(lines, kind);
    if found < k {
        assert(line_kind(lines[k]) != kind);
    } else if k < found {
        assert(line_kind(lines[found]) != kind);
    }
}

/// A response that lacks the marker of the client list, a title line or a time
/// line gives no status. Unless one of its lines cannot be read, which then
/// decides the failure, the failure is `MalformedResponse` and holds the whole
/// response.
pub proof fn law_missing_section(text: Seq<char>, kind: LineKind)
    requires
        kind == LineKind::Header || kind == LineKind::Title || kind == LineKind::Time,
        forall|i: int| 0 <= i < lines_of(text).len() ==> line_kind(#[trigger] lines_of(text)[i]) != kind,
    ensures
        report_of(text) is Err,
        (forall|i: int| 0 <= i < lines_of(text).len() ==> line_failure(#[trigger] lines_of(text)[i]) is None)
            ==> report_of(text) == Err::<crate::response::Report, Failure>(
            Failure::MalformedResponse(text),
        ),
{
    let lines = lines_of(text);
    lemma_latest(lines, kind);
    lemma_first_where(lines, fails());
    if forall|i: int| 0 <= i < lines.len() ==> line_failure(#[trigger] lines[i]) is None {
        if first_failure(lines) < lines.len() {
            assert(line_failure(lines[first_failure(lines)]) is None);
        }
    }
}

/// A status comes only of a response that holds the marker of the client list,
/// a title line and a time line, and in which every line can be read.
pub proof fn law_status_has_all_sections(text: Seq<char>)
    requires
        report_of(text) is Ok,
    ensures
        exists|i: int| 0 <= i < lines_of(text).len() && line_kind(#[trigger] lines_of(text)[i]) == LineKind::Header,
        exists|i: int| 0 <= i < lines_of(text).len() && line_kind(#[trigger] lines_of(text)[i]) == LineKind::Title,
        exists|i: int| 0 <= i < lines_of(text).len() && line_kind(#[trigger] lines_of(text)[i]) == LineKind::Time,
        forall|i: int| 0 <= i < lines_of(text).len() ==> line_failure(#[trigger] lines_of(text)[i]) is None,
{
    let lines = lines_of(text);
    lemma_latest(lines, LineKind::Header);
    lemma_latest(lines, LineKind::Title);
    lemma_latest(lines, LineKind::Time);
    lemma_first_where(lines, fails());
    assert(line_kind(lines[latest(lines, LineKind::Header)]) == LineKind::Header);
    assert(line_kind(lines[latest(lines, LineKind::Title)]) == LineKind::Title);
    assert(line_kind(lines[latest(lines, LineKind::Time)]) == LineKind::Time);
    assert forall|i: int| 0 <= i < lines.len() implies line_failure(#[trigger] lines[i]) is None by {
        assert(!fails()(lines[i]));
    }
}

/// A client line of fewer than nine fields is malformed, and the failure holds
/// the line as it stands.
pub proof fn law_short_client_line(line: Seq<char>)
    requires
        line_kind(line) == LineKind::Client,
        fields(line).len() < CLIENT_FIELDS,
    ensures
        entry_of_line(line) == Err::<Entry, Failure>(Failure::MalformedResponse(line)),
        line_failure(line) == Some(Failure::MalformedResponse(line)),
{
}

/// Where line `i` of a response is a client line of fewer than nine fields, and
/// the lines before it can be read, the response fails as malformed, and the
/// failure holds that line alone.
pub proof fn law_short_client_line_in_response(text: Seq<char>, i: int)
    requires
        0 <= i < lines_of(text).len(),
        line_kind(lines_of(text)[i]) == LineKind::Client,
        fields(lines_of(text)[i]).len() < CLIENT_FIELDS,
        forall|j: int| 0 <= j < i ==> line_failure(#[trigger] lines_of(text)[j]) is None,
    ensures
        report_of(text) == Err::<crate::response::Report, Failure>(
            Failure::MalformedResponse(lines_of(text)[i]),
        ),
{
    let lines = lines_of(text);
    assert forall|j: int| 0 <= j < i implies !fails()(#[trigger] lines[j]) by {
        assert(line_failure(lines[j]) is None);
    }
    lemma_first_where_is(lines, fails(), i);
}

/// The clients of two runs of lines, one after the other, are the clients of
/// the first run followed by those of the second: each line adds its client
/// behind those of the lines before it, and none is merged with another.
pub proof fn law_clients_follow_lines(before: Seq<Seq<char>>, after: Seq<Seq<char>>)
    ensures
        entries(before + after) == entries(before) + entries(after),
    decreases after.len(),
{
    if after.len() == 0 {
        assert(before + after =~= before);
        assert(entries(before) + entries(after) =~= entries(before));
    } else {
        let head = after.drop_last();
        law_clients_follow_lines(before, head);
        assert((before + after).drop_last() =~= before + head);
        assert((before + after).last() == after.last());
        match listed_entry(after.last()) {
            Some(entry) => {
                assert(entries(before + after) =~= entries(before) + entries(after));
            },
            None => {},
        }
    }
}

/// A single line adds the client that it lists, or nothing.
pub proof fn law_clients_of_one_line(line: Seq<char>)
    ensures
        entries(seq![line]) == match listed_entry(line) {
            Some(entry) => seq![entry],
            None => Seq::<Entry>::empty(),
        },
{
    let one = seq![line];
    assert(one.drop_last() =~= Seq::<Seq<char>>::empty());
    assert(one.last() == line);
    assert(entries(one.drop_last()) =~= Seq::<Entry>::empty());
    match listed_entry(line) {
        Some(entry) => {
            assert(entries(one) =~= seq![entry]);
        },
        None => {
            assert(entries(one) =~= Seq::<Entry>::empty());
        },
    }
}

/// Every client that lines list comes from a client line that can be read, and
/// is not named `UNDEF`.
pub proof fn law_no_undefined_client(lines: Seq<Seq<char>>, k: int)
    requires
        0 <= k < entries(lines).len(),
    ensures
        entries(lines)[k].name != UNDEF@,
        exists|i: int|
            0 <= i < lines.len() && line_kind(#[trigger] lines[i]) == LineKind::Client
                && entry_of_line(lines[i]) == Ok::<Entry, Failure>(entries(lines)[k]),
    decreases lines.len(),
{
    let head = lines.drop_last();
    let last = lines.last();
    if k < entries(head).len() {
        law_no_undefined_client(head, k);
        let i = choose|i: int|
            0 <= i < head.len() && line_kind(#[trigger] head[i]) == LineKind::Client
                && entry_of_line(head[i]) == Ok::<Entry, Failure>(entries(head)[k]);
        assert(lines[i] == head[i]);
        match listed_entry(last) {
            Some(entry) => {
                assert(entries(lines)[k] == entries(head)[k]);
            },
            None => {},
        }
    } else {
        assert(listed_entry(last) == Some(entries(lines)[k]));
        assert(lines[lines.len() - 1] == last);
    }
}

/// No client of a status is named `UNDEF`.
pub proof fn law_status_lists_no_undefined_client(text: Seq<char>)
    ensures
        report_of(text) matches Ok(report) ==> forall|k: int|
            0 <= k < report.clients.len() ==> (#[trigger] report.clients[k]).name != UNDEF@,
{
    if let Ok(report) = report_of(text) {
        assert forall|k: int| 0 <= k < report.clients.len() implies (
        #[trigger] report.clients[k]).name != UNDEF@ by {
            law_no_undefined_client(lines_of(text), k);
        }
    }
}

/// A line that can be read does not change which line fails first: with it
/// among the lines, the first failure stays where it was or moves one line on.
pub proof fn lemma_first_failure_skips(before: Seq<Seq<char>>, line: Seq<char>, after: Seq<Seq<char>>)
    requires
        line_failure(line) is None,
    ensures
        first_failure(before + seq![line] + after) == if first_failure(before + after)
            < before.len() {
            first_failure(before + after)
        } else {
            first_failure(before + after) + 1
        },
{
    let with = before + seq![line] + after;
    let without = before + after;
    lemma_first_where(without, fails());
    let k = first_failure(without);
    let moved = if k < before.len() {
        k
    } else {
        k + 1
    };
    assert forall|i: int| 0 <= i < moved implies !fails()(#[trigger] with[i]) by {
        if i < before.len() {
            assert(with[i] == without[i]);
        } else if i > before.len() {
            assert(with[i] == without[i - 1]);
        }
    }
    if moved < with.len() {
        assert(with[moved] == without[k]);
    }
    lemma_first_where_is(with, fails(), moved);
}

/// A line of another kind does not change which line of a kind is the last:
/// with it among the lines, that line stays where it was or moves one line on.
pub proof fn lemma_latest_skips(
    before: Seq<Seq<char>>,
    line: Seq<char>,
    after: Seq<Seq<char>>,
    kind: LineKind,
)
    requires
        line_kind(line) != kind,
    ensures
        latest(before + seq![line] + after, kind) == if latest(before + after, kind)
            < before.len() {
            latest(before + after, kind)
        } else {
            latest(before + after, kind) + 1
        },
{
    let with = before + seq![line] + after;
    let without = before + after;
    lemma_latest(without, kind);
    lemma_latest(with, kind);
    let k = latest(without, kind);
    let moved = if k < before.len() {
        k
    } else {
        k + 1
    };
    assert forall|i: int| moved < i < with.len() implies line_kind(#[trigger] with[i]) != kind by {
        if i < before.len() {
            assert(with[i] == without[i]);
        } else if i > before.len() {
            assert(with[i] == without[i - 1]);
        }
    }
    if k >= 0 {
        assert(with[moved] == without[k]);
        lemma_latest_is(with, kind, moved);
    } else {
        let found = latest(with, kind);
        if found >= 0 {
            assert(line_kind(with[found]) == kind);
        }
    }
}

/// A client line that can be read and gives the name `UNDEF` plays no part in
/// what a response comes to: the lines with it and the lines without it give
/// the same status, or fail alike, whatever else the line holds.
pub proof fn law_undefined_client_plays_no_part(
    before: Seq<Seq<char>>,
    line: Seq<char>,
    after: Seq<Seq<char>>,
    text: Seq<char>,
)
    requires
        line_kind(line) == LineKind::Client,
        entry_of_line(line) matches Ok(entry) && entry.name == UNDEF@,
    ensures
        report_of_lines(before + seq![line] + after, text) == report_of_lines(
            before + after,
            text,
        ),
{
    let with = before + seq![line] + after;
    let without = before + after;
    lemma_first_failure_skips(before, line, after);
    lemma_first_where(without, fails());
    lemma_latest_skips(before, line, after, LineKind::Header);
    lemma_latest_skips(before, line, after, LineKind::Title);
    lemma_latest_skips(before, line, after, LineKind::Time);
    lemma_latest(without, LineKind::Title);
    lemma_latest(without, LineKind::Time);
    let failed = first_failure(without);
    if failed < without.len() {
        if failed < before.len() {
            assert(with[failed] == without[failed]);
        } else {
            assert(with[failed + 1] == without[failed]);
        }
    }
    let title = latest(without, LineKind::Title);
    if title >= 0 {
        if title < before.len() {
            assert(with[title] == without[title]);
        } else {
            assert(with[title + 1] == without[title]);
        }
    }
    let time = latest(without, LineKind::Time);
    if time >= 0 {
        if time < before.len() {
            assert(with[time] == without[time]);
        } else {
            assert(with[time + 1] == without[time]);
        }
    }
    law_clients_follow_lines(before + seq![line], after);
    law_clients_follow_lines(before, seq![line]);
    law_clients_of_one_line(line);
    law_clients_follow_lines(before, after);
    assert(entries(before) + Seq::<Entry>::empty() =~= entries(before));
}

} // verus!
