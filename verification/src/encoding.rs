//! A response written out from its parts, and the proof that reading it gives
//! the parts back.
use crate::error::Failure;
use crate::line::{
    entry_of_line, epoch_of_line, fields, host_of, line_kind, title_of_line, Entry,
    LineKind, HEADER_START_LINE, START_CLIENT_LIST, START_TIME, START_TITLE, UNDEF,
};
use crate::manager::ENDING;
use crate::laws::{law_clients_follow_lines, law_clients_of_one_line, lemma_latest_is};
use crate::number::{
    all_digits, decode_i64, digit_value, digits_value, float_error, is_decimal, is_digit,
    is_exponent_mark, is_float_literal, is_number, is_special, unsigned,
};
use crate::response::{
    entries, fails, line_failure, lines_of, listed_entry, report_of, times_in_range, Report,
};
use crate::text::{
    first_where, index_of, join, lacks, lemma_first_where, lemma_first_where_is, lemma_index_of,
    lemma_index_of_is, lemma_join_begins, lemma_join_lacks, lemma_split_join, strip_cr,
};
use crate::time::representable;
use vstd::prelude::*;

verus! {

/// The character that stands for the digit `d`.
pub open spec fn digit_char(d: int) -> char {
    if d == 0 {
        '0'
    } else if d == 1 {
        '1'
    } else if d == 2 {
        '2'
    } else if d == 3 {
        '3'
    } else if d == 4 {
        '4'
    } else if d == 5 {
        '5'
    } else if d == 6 {
        '6'
    } else if d == 7 {
        '7'
    } else if d == 8 {
        '8'
    } else {
        '9'
    }
}

/// The digits of `n` in base 10, without leading zeros.
pub open spec fn decimal_digits(n: nat) -> Seq<char>
    decreases n,
{
    if n < 10 {
        seq![digit_char(n as int)]
    } else {
        decimal_digits(n / 10).push(digit_char((n % 10) as int))
    }
}

/// `n` written in base 10, with `-` in front where it is negative.
pub open spec fn decimal(n: int) -> Seq<char> {
    if n < 0 {
        seq!['-'] + decimal_digits((-n) as nat)
    } else {
        decimal_digits(n as nat)
    }
}

/// The digits of a number are digits, one at least, and denote the number.
pub proof fn lemma_decimal_digits(n: nat)
    ensures
        decimal_digits(n).len() > 0,
        all_digits(decimal_digits(n)),
        digits_value(decimal_digits(n)) == n,
    decreases n,
{
    if n < 10 {
        let s = seq![digit_char(n as int)];
        assert(s.drop_last() =~= Seq::<char>::empty());
        assert(digits_value(s.drop_last()) == 0);
        assert(digit_value(digit_char(n as int)) == n);
    } else {
        lemma_decimal_digits(n / 10);
        let head = decimal_digits(n / 10);
        let c = digit_char((n % 10) as int);
        assert(head.push(c).drop_last() =~= head);
        assert(digit_value(c) == n % 10);
        assert(is_digit(c));
    }
}

/// Reading what was written gives the number back.
pub proof fn lemma_decode_decimal(n: i64)
    ensures
        decode_i64(decimal(n as int)) == Ok::<i64, crate::error::IntError>(n),
        lacks(decimal(n as int), '\t'),
        lacks(decimal(n as int), '\n'),
        lacks(decimal(n as int), '\r'),
{
    let s = decimal(n as int);
    if n < 0 {
        let digits = decimal_digits((-n) as nat);
        lemma_decimal_digits((-n) as nat);
        assert(s[0] == '-');
        assert(s.skip(1) =~= digits);
        assert forall|i: int| 0 <= i < s.len() implies #[trigger] s[i] != '\t' && s[i] != '\n' && s[i]
            != '\r' by {
            if i > 0 {
                assert(s[i] == digits[i - 1]);
                assert(is_digit(digits[i - 1]));
            }
        }
    } else {
        lemma_decimal_digits(n as nat);
        assert(is_digit(s[0]));
        assert forall|i: int| 0 <= i < s.len() implies #[trigger] s[i] != '\t' && s[i] != '\n' && s[i]
            != '\r' by {
            assert(is_digit(s[i]));
        }
    }
}

/// Whether `c` is none of tab, line feed and carriage return.
pub open spec fn is_inline(c: char) -> bool {
    c != '\t' && c != '\n' && c != '\r'
}

proof fn lemma_word_is_inline(s: Seq<char>, lower: Seq<char>, upper: Seq<char>)
    requires
        crate::number::same_letters(s, lower, upper),
        lower.len() == upper.len(),
        forall|i: int| 0 <= i < lower.len() ==> is_inline(#[trigger] lower[i]),
        forall|i: int| 0 <= i < upper.len() ==> is_inline(#[trigger] upper[i]),
    ensures
        forall|i: int| 0 <= i < s.len() ==> is_inline(#[trigger] s[i]),
{
    assert forall|i: int| 0 <= i < s.len() implies is_inline(#[trigger] s[i]) by {
        assert(s[i] == lower[i] || s[i] == upper[i]);
        assert(is_inline(lower[i]) && is_inline(upper[i]));
    }
}

proof fn lemma_special_is_inline(s: Seq<char>)
    requires
        is_special(s),
    ensures
        s.len() > 0,
        forall|i: int| 0 <= i < s.len() ==> is_inline(#[trigger] s[i]),
{
    reveal_strlit("inf");
    reveal_strlit("INF");
    reveal_strlit("infinity");
    reveal_strlit("INFINITY");
    reveal_strlit("nan");
    reveal_strlit("NAN");
    if crate::number::same_letters(s, "inf"@, "INF"@) {
        lemma_word_is_inline(s, "inf"@, "INF"@);
    } else if crate::number::same_letters(s, "infinity"@, "INFINITY"@) {
        lemma_word_is_inline(s, "infinity"@, "INFINITY"@);
    } else {
        lemma_word_is_inline(s, "nan"@, "NAN"@);
    }
}

proof fn lemma_decimal_is_inline(s: Seq<char>)
    requires
        is_decimal(s),
    ensures
        s.len() > 0,
        forall|i: int| 0 <= i < s.len() ==> is_inline(#[trigger] s[i]),
{
    lemma_index_of(s, '.');
    let point = index_of(s, '.');
    assert forall|i: int| 0 <= i < s.len() implies is_inline(#[trigger] s[i]) by {
        if i < point {
            assert(is_digit(s.take(point)[i]));
        } else if i > point {
            assert(is_digit(s.skip(point + 1)[i - point - 1]));
        }
    }
}

proof fn lemma_number_is_inline(s: Seq<char>)
    requires
        is_number(s),
    ensures
        s.len() > 0,
        forall|i: int| 0 <= i < s.len() ==> is_inline(#[trigger] s[i]),
{
    lemma_first_where(s, is_exponent_mark());
    let mark = first_where(s, is_exponent_mark());
    let mantissa = s.take(mark);
    lemma_decimal_is_inline(mantissa);
    assert forall|i: int| 0 <= i < s.len() implies is_inline(#[trigger] s[i]) by {
        if i < mark {
            assert(is_inline(mantissa[i]));
        } else if i == mark {
            assert(is_exponent_mark()(s[mark]));
        } else {
            let tail = s.skip(mark + 1);
            let exponent = unsigned(tail);
            assert(tail[i - mark - 1] == s[i]);
            if tail.len() > 0 && (tail[0] == '+' || tail[0] == '-') {
                if i > mark + 1 {
                    assert(is_digit(exponent[i - mark - 2]));
                }
            } else {
                assert(is_digit(exponent[i - mark - 1]));
            }
        }
    }
}

/// A floating-point literal is not empty and holds no tab, no line feed and no
/// carriage return.
pub proof fn lemma_float_literal_is_inline(s: Seq<char>)
    requires
        is_float_literal(s),
    ensures
        s.len() > 0,
        lacks(s, '\t'),
        lacks(s, '\n'),
        lacks(s, '\r'),
        float_error(s) is None,
{
    let body = unsigned(s);
    if is_special(body) {
        lemma_special_is_inline(body);
    } else {
        lemma_number_is_inline(body);
    }
    assert forall|i: int| 0 <= i < s.len() implies is_inline(#[trigger] s[i]) by {
        if s.len() > 0 && (s[0] == '+' || s[0] == '-') {
            if i > 0 {
                assert(is_inline(body[i - 1]));
            }
        } else {
            assert(is_inline(body[i]));
        }
    }
}

/// Whether `s` can stand in a line as one field: it holds no tab and no line
/// feed.
pub open spec fn is_field(s: Seq<char>) -> bool {
    lacks(s, '\t') && lacks(s, '\n')
}

/// What one client line is written from.
pub struct ClientRow {
    pub name: Seq<char>,
    pub address: Seq<char>,
    pub port: Seq<char>,
    pub virtual_address: Seq<char>,
    pub virtual_ipv6_address: Seq<char>,
    pub bytes_received: Seq<char>,
    pub bytes_sent: Seq<char>,
    pub connected_since: Seq<char>,
    pub epoch: i64,
}

impl ClientRow {
    /// Whether the row can be written as a line and read back: its texts are
    /// fields, the name is not `UNDEF`, the address holds no colon, and the
    /// byte counts are floating-point literals.
    pub open spec fn well_formed(self) -> bool {
        &&& is_field(self.name)
        &&& self.name != UNDEF@
        &&& is_field(self.address)
        &&& lacks(self.address, ':')
        &&& is_field(self.port)
        &&& is_field(self.virtual_address)
        &&& is_field(self.virtual_ipv6_address)
        &&& is_field(self.connected_since)
        &&& is_float_literal(self.bytes_received)
        &&& is_float_literal(self.bytes_sent)
    }

    /// The nine fields of the line.
    pub open spec fn parts(self) -> Seq<Seq<char>> {
        seq![
            START_CLIENT_LIST@,
            self.name,
            self.address + seq![':'] + self.port,
            self.virtual_address,
            self.virtual_ipv6_address,
            self.bytes_received,
            self.bytes_sent,
            self.connected_since,
            decimal(self.epoch as int) + seq!['\r'],
        ]
    }

    /// The line: the fields with tabs between them, and a carriage return at
    /// the end.
    pub open spec fn line(self) -> Seq<char> {
        join(self.parts(), '\t')
    }

    /// What reading the line has to give.
    pub open spec fn entry(self) -> Entry {
        Entry {
            name: self.name,
            ip_address: self.address,
            epoch: self.epoch,
            bytes_received: self.bytes_received,
            bytes_sent: self.bytes_sent,
        }
    }
}

/// The line that gives the title.
pub open spec fn title_line(title: Seq<char>) -> Seq<char> {
    join(seq![START_TITLE@, title + seq!['\r']], '\t')
}

/// The line that gives the time, `label` standing before the seconds.
pub open spec fn time_line(label: Seq<char>, epoch: i64) -> Seq<char> {
    join(seq![START_TIME@, label, decimal(epoch as int) + seq!['\r']], '\t')
}

/// The line that opens the list of clients.
pub open spec fn header_line() -> Seq<char> {
    HEADER_START_LINE@ + seq!['\r']
}

/// The lines of `rows`, in their order.
pub open spec fn row_lines(rows: Seq<ClientRow>) -> Seq<Seq<char>> {
    rows.map_values(|row: ClientRow| row.line())
}

/// What reading the lines of `rows` has to give.
pub open spec fn row_entries(rows: Seq<ClientRow>) -> Seq<Entry> {
    rows.map_values(|row: ClientRow| row.entry())
}

/// The lines of a response: the title, the time, the marker of the client
/// list, one line for each row, and the terminator.
pub open spec fn response_lines(
    title: Seq<char>,
    label: Seq<char>,
    epoch: i64,
    rows: Seq<ClientRow>,
) -> Seq<Seq<char>> {
    seq![title_line(title), time_line(label, epoch), header_line()] + row_lines(rows) + seq![
        ENDING@,
    ]
}

/// The response: its lines with a line feed between each two.
pub open spec fn response(
    title: Seq<char>,
    label: Seq<char>,
    epoch: i64,
    rows: Seq<ClientRow>,
) -> Seq<char> {
    join(response_lines(title, label, epoch, rows), '\n')
}

proof fn lemma_strip_added_cr(s: Seq<char>)
    ensures
        strip_cr(s + seq!['\r']) == s,
{
    assert((s + seq!['\r']).drop_last() =~= s);
}

proof fn lemma_lacks_with_cr(s: Seq<char>, c: char)
    requires
        lacks(s, c),
        c != '\r',
    ensures
        lacks(s + seq!['\r'], c),
{
}

/// The line of a title is a title line without a line feed, and gives the
/// title back.
pub proof fn lemma_title_line(title: Seq<char>)
    requires
        is_field(title),
    ensures
        line_kind(title_line(title)) == LineKind::Title,
        title_of_line(title_line(title)) == Ok::<Seq<char>, Failure>(title),
        lacks(title_line(title), '\n'),
{
    reveal_strlit("TITLE");
    reveal_strlit("CLIENT_LIST");
    reveal_strlit("HEADER\tCLIENT_LIST");
    let parts = seq!["TITLE"@, title + seq!['\r']];
    let line = title_line(title);
    lemma_lacks_with_cr(title, '\t');
    lemma_lacks_with_cr(title, '\n');
    assert forall|i: int| 0 <= i < parts.len() implies lacks(#[trigger] parts[i], '\t') by {}
    assert forall|i: int| 0 <= i < parts.len() implies lacks(#[trigger] parts[i], '\n') by {}
    lemma_split_join(parts, '\t');
    lemma_join_lacks(parts, '\t', '\n');
    lemma_join_begins(parts, '\t');
    lemma_strip_added_cr(title);
    assert(line[0] == 'T') by {
        assert(line.subrange(0, 5)[0] == "TITLE"@[0]);
    }
    assert(!"HEADER\tCLIENT_LIST"@.is_prefix_of(line)) by {
        if "HEADER\tCLIENT_LIST"@.is_prefix_of(line) {
            assert(line.subrange(0, 18)[0] == 'H');
        }
    }
    assert(!"CLIENT_LIST"@.is_prefix_of(line)) by {
        if "CLIENT_LIST"@.is_prefix_of(line) {
            assert(line.subrange(0, 11)[0] == 'C');
        }
    }
}

/// The line of a time is a time line without a line feed, and gives the
/// seconds back.
pub proof fn lemma_time_line(label: Seq<char>, epoch: i64)
    requires
        is_field(label),
    ensures
        line_kind(time_line(label, epoch)) == LineKind::Time,
        epoch_of_line(time_line(label, epoch)) == Ok::<i64, Failure>(epoch),
        lacks(time_line(label, epoch), '\n'),
{
    reveal_strlit("TIME");
    reveal_strlit("TITLE");
    reveal_strlit("CLIENT_LIST");
    reveal_strlit("HEADER\tCLIENT_LIST");
    let seconds = decimal(epoch as int);
    let parts = seq!["TIME"@, label, seconds + seq!['\r']];
    let line = time_line(label, epoch);
    lemma_decode_decimal(epoch);
    lemma_lacks_with_cr(seconds, '\t');
    lemma_lacks_with_cr(seconds, '\n');
    assert forall|i: int| 0 <= i < parts.len() implies lacks(#[trigger] parts[i], '\t') by {}
    assert forall|i: int| 0 <= i < parts.len() implies lacks(#[trigger] parts[i], '\n') by {}
    lemma_split_join(parts, '\t');
    lemma_join_lacks(parts, '\t', '\n');
    lemma_join_begins(parts, '\t');
    lemma_strip_added_cr(seconds);
    assert(line[0] == 'T' && line[2] == 'M') by {
        assert(line.subrange(0, 4)[0] == "TIME"@[0]);
        assert(line.subrange(0, 4)[2] == "TIME"@[2]);
    }
    assert(!"HEADER\tCLIENT_LIST"@.is_prefix_of(line)) by {
        if "HEADER\tCLIENT_LIST"@.is_prefix_of(line) {
            assert(line.subrange(0, 18)[0] == 'H');
        }
    }
    assert(!"CLIENT_LIST"@.is_prefix_of(line)) by {
        if "CLIENT_LIST"@.is_prefix_of(line) {
            assert(line.subrange(0, 11)[0] == 'C');
        }
    }
    assert(!"TITLE"@.is_prefix_of(line)) by {
        if "TITLE"@.is_prefix_of(line) {
            assert(line.subrange(0, 5)[2] == 'T');
        }
    }
}

/// The marker of the client list is a header line without a line feed, and the
/// terminator is a line of no kind without a line feed.
pub proof fn lemma_marker_lines()
    ensures
        line_kind(header_line()) == LineKind::Header,
        lacks(header_line(), '\n'),
        line_kind("END"@) == LineKind::Other,
        lacks("END"@, '\n'),
{
    reveal_strlit("END");
    reveal_strlit("TIME");
    reveal_strlit("TITLE");
    reveal_strlit("CLIENT_LIST");
    reveal_strlit("HEADER\tCLIENT_LIST");
    let marker = "HEADER\tCLIENT_LIST"@;
    assert(header_line().subrange(0, marker.len() as int) =~= marker);
    let end = "END"@;
    assert(!"HEADER\tCLIENT_LIST"@.is_prefix_of(end));
    assert(!"CLIENT_LIST"@.is_prefix_of(end));
    assert(!"TITLE"@.is_prefix_of(end));
    assert(!"TIME"@.is_prefix_of(end));
}

/// The line of a well-formed row is a client line without a line feed, and
/// gives the row back.
pub proof fn lemma_row_line(row: ClientRow)
    requires
        row.well_formed(),
    ensures
        line_kind(row.line()) == LineKind::Client,
        entry_of_line(row.line()) == Ok::<Entry, Failure>(row.entry()),
        lacks(row.line(), '\n'),
{
    reveal_strlit("CLIENT_LIST");
    reveal_strlit("HEADER\tCLIENT_LIST");
    let seconds = decimal(row.epoch as int);
    let endpoint = row.address + seq![':'] + row.port;
    let parts = row.parts();
    let line = row.line();
    lemma_decode_decimal(row.epoch);
    lemma_lacks_with_cr(seconds, '\t');
    lemma_lacks_with_cr(seconds, '\n');
    lemma_float_literal_is_inline(row.bytes_received);
    lemma_float_literal_is_inline(row.bytes_sent);
    assert(lacks(endpoint, '\t') && lacks(endpoint, '\n')) by {
        assert forall|i: int| 0 <= i < endpoint.len() implies #[trigger] endpoint[i] != '\t'
            && endpoint[i] != '\n' by {
            if i < row.address.len() {
                assert(endpoint[i] == row.address[i]);
            } else if i > row.address.len() {
                assert(endpoint[i] == row.port[i - row.address.len() - 1]);
            }
        }
    }
    assert forall|i: int| 0 <= i < parts.len() implies lacks(#[trigger] parts[i], '\t') by {}
    assert forall|i: int| 0 <= i < parts.len() implies lacks(#[trigger] parts[i], '\n') by {}
    lemma_split_join(parts, '\t');
    lemma_join_lacks(parts, '\t', '\n');
    lemma_join_begins(parts, '\t');
    lemma_strip_added_cr(seconds);
    assert(fields(line) == parts);
    assert(strip_cr(fields(line)[8]) == seconds);
    assert(host_of(fields(line)[2]) == row.address) by {
        let k = row.address.len() as int;
        assert(endpoint[k] == ':');
        assert forall|i: int| 0 <= i < k implies #[trigger] endpoint[i] != ':' by {
            assert(endpoint[i] == row.address[i]);
        }
        lemma_index_of_is(endpoint, ':', k);
        assert(endpoint.take(k) =~= row.address);
    }
    assert(line[0] == 'C') by {
        assert(line.subrange(0, 11)[0] == "CLIENT_LIST"@[0]);
    }
    assert(!"HEADER\tCLIENT_LIST"@.is_prefix_of(line)) by {
        if "HEADER\tCLIENT_LIST"@.is_prefix_of(line) {
            assert(line.subrange(0, 18)[0] == 'H');
        }
    }
}

/// Reading the lines of well-formed rows lists the rows, one client each, in
/// their order.
pub proof fn lemma_row_lines(rows: Seq<ClientRow>)
    requires
        forall|i: int| 0 <= i < rows.len() ==> (#[trigger] rows[i]).well_formed(),
    ensures
        entries(row_lines(rows)) == row_entries(rows),
    decreases rows.len(),
{
    if rows.len() == 0 {
        assert(entries(row_lines(rows)) =~= row_entries(rows));
    } else {
        let head = rows.drop_last();
        let last = rows.last();
        lemma_row_lines(head);
        lemma_row_line(last);
        assert(row_lines(rows).drop_last() =~= row_lines(head));
        assert(row_lines(rows).last() == last.line());
        assert(listed_entry(last.line()) == Some(last.entry()));
        assert(row_entries(head).push(last.entry()) =~= row_entries(rows));
        assert(entries(row_lines(head)) + seq![last.entry()] =~= entries(row_lines(head)).push(
            last.entry(),
        ));
    }
}

/// Every line of a response that is written from well-formed parts can be
/// read, and holds no line feed.
proof fn lemma_response_lines(
    title: Seq<char>,
    label: Seq<char>,
    epoch: i64,
    rows: Seq<ClientRow>,
    i: int,
)
    requires
        is_field(title),
        is_field(label),
        forall|k: int| 0 <= k < rows.len() ==> (#[trigger] rows[k]).well_formed(),
        0 <= i < response_lines(title, label, epoch, rows).len(),
    ensures
        lacks(response_lines(title, label, epoch, rows)[i], '\n'),
        line_failure(response_lines(title, label, epoch, rows)[i]) is None,
        line_kind(response_lines(title, label, epoch, rows)[i]) == (if i == 0 {
            LineKind::Title
        } else if i == 1 {
            LineKind::Time
        } else if i == 2 {
            LineKind::Header
        } else if i < rows.len() + 3 {
            LineKind::Client
        } else {
            LineKind::Other
        }),
{
    let lines = response_lines(title, label, epoch, rows);
    lemma_title_line(title);
    lemma_time_line(label, epoch);
    lemma_marker_lines();
    if 3 <= i < rows.len() + 3 {
        lemma_row_line(rows[i - 3]);
        assert(lines[i] == rows[i - 3].line());
    } else if i >= rows.len() + 3 {
        assert(lines[i] == "END"@);
    }
}

/// A response that is written from a title, a time and well-formed client
/// rows, in this order and closed by the terminator, reads as a status with
/// that title and time and with one client for each row, in the order of the
/// rows: the name and the byte counts as they were written, the address
/// without its port, the time of connection as the seconds that were written.
/// A date has to hold the times of that status, and no other.
pub proof fn law_round_trip(title: Seq<char>, label: Seq<char>, epoch: i64, rows: Seq<ClientRow>)
    requires
        is_field(title),
        is_field(label),
        forall|i: int| 0 <= i < rows.len() ==> (#[trigger] rows[i]).well_formed(),
    ensures
        report_of(response(title, label, epoch, rows)) == Ok::<Report, Failure>(
            Report { title, epoch, clients: row_entries(rows) },
        ),
        row_entries(rows).len() == rows.len(),
        times_in_range(response(title, label, epoch, rows)) <==> representable(epoch) && forall|
            i: int,
        |
            0 <= i < rows.len() ==> representable((#[trigger] rows[i]).epoch),
{
    let lines = response_lines(title, label, epoch, rows);
    let text = response(title, label, epoch, rows);
    assert forall|i: int| 0 <= i < lines.len() implies lacks(#[trigger] lines[i], '\n') by {
        lemma_response_lines(title, label, epoch, rows, i);
    }
    lemma_split_join(lines, '\n');
    assert(lines_of(text) == lines);
    assert forall|i: int| 0 <= i < lines.len() implies !fails()(#[trigger] lines[i]) by {
        lemma_response_lines(title, label, epoch, rows, i);
    }
    lemma_first_where_is(lines, fails(), lines.len() as int);
    assert forall|i: int| 2 < i < lines.len() implies line_kind(#[trigger] lines[i])
        != LineKind::Header && line_kind(lines[i]) != LineKind::Title && line_kind(lines[i])
        != LineKind::Time by {
        lemma_response_lines(title, label, epoch, rows, i);
    }
    lemma_response_lines(title, label, epoch, rows, 0);
    lemma_response_lines(title, label, epoch, rows, 1);
    lemma_response_lines(title, label, epoch, rows, 2);
    lemma_latest_is(lines, LineKind::Title, 0);
    lemma_latest_is(lines, LineKind::Time, 1);
    lemma_latest_is(lines, LineKind::Header, 2);
    lemma_title_line(title);
    lemma_time_line(label, epoch);
    lemma_marker_lines();
    let opening = seq![title_line(title), time_line(label, epoch), header_line()];
    let closing = seq!["END"@];
    law_clients_follow_lines(opening + row_lines(rows), closing);
    law_clients_follow_lines(opening, row_lines(rows));
    law_clients_of_one_line("END"@);
    lemma_row_lines(rows);
    assert(entries(opening) =~= Seq::<Entry>::empty()) by {
        law_clients_follow_lines(seq![title_line(title), time_line(label, epoch)], seq![header_line()]);
        law_clients_follow_lines(seq![title_line(title)], seq![time_line(label, epoch)]);
        law_clients_of_one_line(title_line(title));
        law_clients_of_one_line(time_line(label, epoch));
        law_clients_of_one_line(header_line());
        assert(seq![title_line(title), time_line(label, epoch)] + seq![header_line()] =~= opening);
        assert(seq![title_line(title)] + seq![time_line(label, epoch)] =~= seq![
            title_line(title),
            time_line(label, epoch),
        ]);
    }
    assert(entries(lines) =~= row_entries(rows));
    assert forall|i: int| 0 <= i < rows.len() implies (#[trigger] row_entries(rows)[i]).epoch
        == rows[i].epoch by {}
    let report = Report { title, epoch, clients: row_entries(rows) };
    if times_in_range(text) {
        assert(report.representable());
        assert forall|i: int| 0 <= i < rows.len() implies representable((#[trigger] rows[i]).epoch) by {
            assert(representable(report.clients[i].epoch));
        }
    }
    if representable(epoch) && forall|i: int|
        0 <= i < rows.len() ==> representable((#[trigger] rows[i]).epoch) {
        assert forall|i: int| 0 <= i < report.clients.len() implies representable(
            (#[trigger] report.clients[i]).epoch,
        ) by {
            assert(representable(rows[i].epoch));
        }
    }
}

} // verus!
