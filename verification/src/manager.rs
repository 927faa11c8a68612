//! What a connection to the management interface needs besides the socket: the
//! settings it is made with, the command to send, and the rule that tells when
//! the response has arrived in full.
use crate::error::{Failure, OpenvpnError};
use crate::status::Status;
use core::time::Duration;
use vstd::prelude::*;

verus! {

/// The address that is used where none is set.
pub const DEFAULT_MANAGEMENT_URL: &'static str = "localhost:5555";

/// The line that asks the server for its status.
pub const STATUS_COMMAND: &'static str = "status\n";

/// The token that ends a response.
pub const ENDING: &'static str = "END";

/// Something that can be asked for the server's status.
pub trait EventManager {
    /// Asks the server for its status and reads the answer.
    fn get_status(&mut self) -> Result<Status, OpenvpnError>;
}

/// The settings of a connection: where the management interface listens, and
/// how long to wait for the connection and for the response.
pub struct CommandManagerBuilder {
    management_url: String,
    connect_timeout: Option<Duration>,
    read_timeout: Option<Duration>,
}

/// The settings of a `CommandManagerBuilder`, the address as a sequence of
/// characters.
pub struct Settings {
    pub management_url: Seq<char>,
    pub connect_timeout: Option<Duration>,
    pub read_timeout: Option<Duration>,
}

impl View for CommandManagerBuilder {
    type V = Settings;

    closed spec fn view(&self) -> Settings {
        Settings {
            management_url: self.management_url@,
            connect_timeout: self.connect_timeout,
            read_timeout: self.read_timeout,
        }
    }
}

impl CommandManagerBuilder {
    /// The default settings: `localhost:5555`, and no limit on either wait.
    pub fn new() -> (builder: CommandManagerBuilder)
        ensures
            builder@ == (Settings {
                management_url: DEFAULT_MANAGEMENT_URL@,
                connect_timeout: None,
                read_timeout: None,
            }),
    {
        CommandManagerBuilder {
            management_url: DEFAULT_MANAGEMENT_URL.to_owned(),
            connect_timeout: None,
            read_timeout: None,
        }
    }

    /// the url for the openvpn server's management interface (e.g. 127.0.0.1:5555)
    pub fn management_url(&mut self, management_url: &str) -> (builder: &mut CommandManagerBuilder)
        ensures
            builder@ == (Settings { management_url: management_url@, ..old(self)@ }),
            *final(self) == *final(builder),
    {
        self.management_url = management_url.to_owned();
        self
    }

    /// the TCP connection timeout. Default value is no connection timeout (`None`)
    pub fn connect_timeout(&mut self, connect_timeout: Option<Duration>) -> (builder:
        &mut CommandManagerBuilder)
        ensures
            builder@ == (Settings { connect_timeout: connect_timeout, ..old(self)@ }),
            *final(self) == *final(builder),
    {
        self.connect_timeout = connect_timeout;
        self
    }

    /// the read timeout for responses from the server. Default value is no read timeout (`None`)
    pub fn read_timeout(&mut self, read_timeout: Option<Duration>) -> (builder:
        &mut CommandManagerBuilder)
        ensures
            builder@ == (Settings { read_timeout: read_timeout, ..old(self)@ }),
            *final(self) == *final(builder),
    {
        self.read_timeout = read_timeout;
        self
    }

    /// The address that is set.
    pub fn url(&self) -> (url: &str)
        ensures
            url@ == self@.management_url,
    {
        self.management_url.as_str()
    }

    /// The endpoint to connect to: the first that the address resolves to.
    /// An address that resolves to none is reported with its text.
    pub fn endpoint<A>(&self, first: Option<A>) -> (r: Result<A, OpenvpnError>)
        ensures
            match r {
                Ok(endpoint) => first == Some(endpoint),
                Err(e) => first is None && e@ == Failure::MissingURLInput(self@.management_url),
            },
    {
        match first {
            Some(endpoint) => Ok(endpoint),
            None => Err(OpenvpnError::MissingURLInput(self.management_url.clone())),
        }
    }

    /// The limit that is set on the wait for the connection.
    pub fn connect_limit(&self) -> (limit: Option<Duration>)
        ensures
            limit == self@.connect_timeout,
    {
        self.connect_timeout
    }

    /// The limit that is set on the wait for the response.
    pub fn read_limit(&self) -> (limit: Option<Duration>)
        ensures
            limit == self@.read_timeout,
    {
        self.read_timeout
    }
}

impl Default for CommandManagerBuilder {
    fn default() -> (builder: CommandManagerBuilder)
        ensures
            builder@ == (Settings {
                management_url: DEFAULT_MANAGEMENT_URL@,
                connect_timeout: None,
                read_timeout: None,
            }),
    {
        CommandManagerBuilder::new()
    }
}

/// Whether `c` is white space, as Unicode lists it.
pub open spec fn is_space(c: char) -> bool {
    ||| '\u{0009}' <= c <= '\u{000D}'
    ||| c == '\u{0020}'
    ||| c == '\u{0085}'
    ||| c == '\u{00A0}'
    ||| c == '\u{1680}'
    ||| '\u{2000}' <= c <= '\u{200A}'
    ||| c == '\u{2028}'
    ||| c == '\u{2029}'
    ||| c == '\u{202F}'
    ||| c == '\u{205F}'
    ||| c == '\u{3000}'
}

/// `s` without the white space at its end.
pub open spec fn trim_end(s: Seq<char>) -> Seq<char>
    decreases s.len(),
{
    if s.len() > 0 && is_space(s.last()) {
        trim_end(s.drop_last())
    } else {
        s
    }
}

/// Whether what was read so far is a whole response: apart from white space at
/// its end, it ends in `END`. The token holds no white space, so white space at
/// the start of the text plays no part.
pub open spec fn is_complete(received: Seq<char>) -> bool {
    ENDING@.is_suffix_of(trim_end(received))
}

/// Tells white space from other characters.
pub fn is_white_space(c: char) -> (b: bool)
    ensures
        b == is_space(c),
{
    (c >= '\u{0009}' && c <= '\u{000D}') || c == '\u{0020}' || c == '\u{0085}' || c == '\u{00A0}'
        || c == '\u{1680}' || (c >= '\u{2000}' && c <= '\u{200A}') || c == '\u{2028}' || c
        == '\u{2029}' || c == '\u{202F}' || c == '\u{205F}' || c == '\u{3000}'
}

/// The text of a response as it arrives, line by line.
pub struct ResponseBuffer {
    received: Vec<char>,
}

impl View for ResponseBuffer {
    type V = Seq<char>;

    closed spec fn view(&self) -> Seq<char> {
        self.received@
    }
}

impl ResponseBuffer {
    /// A buffer that holds nothing yet.
    pub fn new() -> (buffer: ResponseBuffer)
        ensures
            buffer@ == Seq::<char>::empty(),
    {
        ResponseBuffer { received: Vec::new() }
    }

    /// Appends what was read from the connection.
    pub fn push_str(&mut self, line: &str)
        ensures
            final(self)@ == old(self)@ + line@,
    {
        for c in iter: line.chars()
            invariant
                iter.seq() == line@,
                self.received@ == old(self).received@ + iter.seq().take(iter.index()),
        {
            self.received.push(c);
            assert(iter.seq().take(iter.index() + 1) =~= iter.seq().take(iter.index()).push(c));
        }
        assert(line@.take(line@.len() as int) =~= line@);
    }

    /// Whether the response is whole, so that no more has to be read.
    pub fn is_complete(&self) -> (b: bool)
        ensures
            b == is_complete(self@),
    {
        let mut end: usize = self.received.len();
        assert(self.received@.take(end as int) =~= self.received@);
        while end > 0 && is_white_space(self.received[end - 1])
            invariant
                end <= self.received.len(),
                trim_end(self.received@) == trim_end(self.received@.take(end as int)),
            decreases end,
        {
            assert(self.received@.take(end as int).drop_last() =~= self.received@.take(end - 1));
            end -= 1;
        }
        proof {
            reveal_strlit("END");
            assert(self.received@.take(self.received@.len() as int) =~= self.received@);
        }
        let b = end >= 3 && self.received[end - 3] == 'E' && self.received[end - 2] == 'N'
            && self.received[end - 1] == 'D';
        proof {
            let trimmed = trim_end(self.received@);
            assert(trimmed == self.received@.take(end as int));
            if b {
                assert(ENDING@ =~= trimmed.subrange(trimmed.len() - 3, trimmed.len() as int));
            } else if ENDING@.is_suffix_of(trimmed) {
                let tail = trimmed.subrange(trimmed.len() - 3, trimmed.len() as int);
                assert(tail[0] == 'E' && tail[1] == 'N' && tail[2] == 'D');
            }
        }
        b
    }

    /// The text that was read.
    pub fn into_string(self) -> (text: String)
        ensures
            text@ == self@,
    {
        crate::text::to_text(self.received.as_slice())
    }
}

} // verus!
