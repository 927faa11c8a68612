use openvpn_management::manager::{is_white_space, DEFAULT_MANAGEMENT_URL, ENDING, STATUS_COMMAND};
use openvpn_management::{CommandManagerBuilder, FloatError, IntError, OpenvpnError, ResponseBuffer};
use std::io;
use std::time::Duration;

fn complete(received: &str) -> bool {
    let mut buffer = ResponseBuffer::new();
    buffer.push_str(received);
    let answer = buffer.is_complete();
    assert_eq!(received.trim().ends_with("END"), answer, "{:?}", received);
    answer
}

#[test]
fn test_builder_defaults() {
    let builder = CommandManagerBuilder::new();
    assert_eq!("localhost:5555", builder.url());
    assert_eq!(DEFAULT_MANAGEMENT_URL, builder.url());
    assert_eq!(None, builder.connect_limit());
    assert_eq!(None, builder.read_limit());
    let builder = CommandManagerBuilder::default();
    assert_eq!("localhost:5555", builder.url());
    assert_eq!(None, builder.connect_limit());
    assert_eq!(None, builder.read_limit());
}

#[test]
fn test_builder_settings_are_chained() {
    let mut builder = CommandManagerBuilder::new();
    builder
        .management_url("192.168.0.1:12345")
        .connect_timeout(Some(Duration::from_millis(2000)))
        .read_timeout(Some(Duration::from_millis(1000)));
    assert_eq!("192.168.0.1:12345", builder.url());
    assert_eq!(Some(Duration::from_millis(2000)), builder.connect_limit());
    assert_eq!(Some(Duration::from_millis(1000)), builder.read_limit());
    builder.connect_timeout(None).management_url("");
    assert_eq!("", builder.url());
    assert_eq!(None, builder.connect_limit());
    assert_eq!(Some(Duration::from_millis(1000)), builder.read_limit());
}

#[test]
fn test_address_without_endpoint_is_reported() {
    let mut builder = CommandManagerBuilder::new();
    builder.management_url("nowhere:1");
    assert_eq!(Some(7), builder.endpoint(Some(7)).ok());
    match builder.endpoint(None::<u8>) {
        Err(OpenvpnError::MissingURLInput(url)) => assert_eq!("nowhere:1", url),
        other => panic!("expected missing url, got {:?}", other),
    }
}

#[test]
fn test_command_is_one_line() {
    assert_eq!("status\n", STATUS_COMMAND);
    assert_eq!(7, STATUS_COMMAND.len());
    assert_eq!("END", ENDING);
}

#[test]
fn test_response_is_whole_when_it_ends_in_the_terminator() {
    assert!(complete("END"));
    assert!(complete("END\r\n"));
    assert!(complete("TITLE\tt\r\nEND \t\r\n\n"));
    assert!(complete("no client string END"));
    assert!(complete("  END"));
    assert!(complete("THE END\u{a0}\u{2003}\u{3000}\u{85}\u{2028}"));
    assert!(complete("ENDEND"));
    assert!(!complete(""));
    assert!(!complete("   "));
    assert!(!complete("EN"));
    assert!(!complete("END."));
    assert!(!complete("end"));
    assert!(!complete("END\r\nTITLE"));
    assert!(!complete("E N D"));
    assert!(!complete("END\u{200b}"));
    assert!(!complete("END\u{1f}"));
}

#[test]
fn test_white_space_is_that_of_std() {
    for code in 0..=0x3100_u32 {
        if let Some(c) = char::from_u32(code) {
            assert_eq!(c.is_whitespace(), is_white_space(c), "{:?}", c);
        }
    }
    assert!(!is_white_space('\u{feff}'));
    assert!(!is_white_space('\u{10ffff}'));
}

#[test]
fn test_buffer_collects_what_is_read() {
    let mut buffer = ResponseBuffer::new();
    assert!(!buffer.is_complete());
    buffer.push_str("TITLE\tt\u{e9}\r\n");
    assert!(!buffer.is_complete());
    buffer.push_str("");
    buffer.push_str("EN");
    assert!(!buffer.is_complete());
    buffer.push_str("D\r\n");
    assert!(buffer.is_complete());
    assert_eq!("TITLE\tt\u{e9}\r\nEND\r\n", buffer.into_string());
    assert_eq!("", ResponseBuffer::new().into_string());
}

#[test]
fn test_error_messages() {
    let error = OpenvpnError::MalformedResponse("no client string END".to_string());
    assert_eq!(
        "could not parse 'no client string END' response from openvpn server",
        error.message()
    );
    assert_eq!("malformed response", error.description());
    let error = OpenvpnError::MissingURLInput("foo:12345".to_string());
    assert_eq!("could not parse 'foo:12345' as a URL", error.message());
    assert_eq!("missing url", error.description());
    let error = OpenvpnError::MalformedResponse(String::new());
    assert_eq!("could not parse '' response from openvpn server", error.message());
}

#[test]
fn test_number_error_messages_are_those_of_std() {
    let texts = ["", "x", "9223372036854775808", "-9223372036854775809"];
    let kinds =
        [IntError::Empty, IntError::InvalidDigit, IntError::PosOverflow, IntError::NegOverflow];
    for (text, kind) in texts.iter().zip(kinds) {
        let expected = text.parse::<i64>().unwrap_err().to_string();
        assert_eq!(expected, kind.description());
        assert_eq!(expected, OpenvpnError::ParseInt(kind).message());
        assert_eq!(expected, OpenvpnError::ParseInt(kind).description());
        assert_eq!(expected, OpenvpnError::from(kind).message());
    }
    for (text, kind) in ["", "x"].iter().zip([FloatError::Empty, FloatError::Invalid]) {
        let expected = text.parse::<f64>().unwrap_err().to_string();
        assert_eq!(expected, kind.description());
        assert_eq!(expected, OpenvpnError::ParseFloat(kind).message());
        assert_eq!(expected, OpenvpnError::ParseFloat(kind).description());
        assert_eq!(expected, OpenvpnError::from(kind).message());
    }
}

#[test]
#[allow(deprecated)]
fn test_transport_failure_keeps_its_cause() {
    let error = OpenvpnError::from(io::Error::new(io::ErrorKind::TimedOut, "too slow"));
    assert_eq!("too slow", error.message());
    let cause = io::Error::new(io::ErrorKind::TimedOut, "too slow");
    assert_eq!(std::error::Error::description(&cause), error.description());
    let plain = OpenvpnError::from(io::Error::from(io::ErrorKind::NotFound));
    assert_eq!(io::Error::from(io::ErrorKind::NotFound).to_string(), plain.message());
    match error {
        OpenvpnError::Io(cause) => assert_eq!(io::ErrorKind::TimedOut, cause.kind()),
        other => panic!("expected io error, got {:?}", other),
    }
}
