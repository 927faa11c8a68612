use chrono::{DateTime, NaiveDateTime, Utc};
use openvpn_management::{
    Client, CommandManagerBuilder, FloatLiteral, OpenvpnError, ResponseBuffer, Status,
};
use std::time::Duration;

const READ_TIMEOUT: Duration = Duration::from_millis(1000);
const CONNECT_TIMEOUT: Duration = Duration::from_millis(2000);

fn utc(epoch_seconds: i64) -> NaiveDateTime {
    let datetime: DateTime<Utc> = DateTime::from_timestamp(epoch_seconds, 0).unwrap();
    datetime.naive_utc()
}

fn new_mock_client(
    name: &'static str,
    ip_address: &'static str,
    epoch_seconds: i64,
    bytes_received: f64,
    bytes_sent: f64,
) -> Client {
    Client::new(
        name.to_string(),
        ip_address.to_string(),
        utc(epoch_seconds),
        FloatLiteral::parse(&format!("{}", bytes_received)).unwrap(),
        FloatLiteral::parse(&format!("{}", bytes_sent)).unwrap(),
    )
}

fn new_mock_status(title: &'static str, epoch_seconds: i64, clients: Vec<Client>) -> Status {
    Status::new(String::from(title), utc(epoch_seconds), clients)
}

/// Takes the response as a connection would deliver it, line by line, and
/// reads it once it is whole.
fn get_status(server_response: &str) -> Result<Status, OpenvpnError> {
    let mut buffer = ResponseBuffer::new();
    let mut lines = server_response.split_inclusive('\n');
    while !buffer.is_complete() {
        buffer.push_str(lines.next().expect("the response ends before its terminator"));
    }
    assert!(lines.next().is_none());
    openvpn_management::try_parse_status_output(buffer.into_string())
        .expect("a time in the response is out of range")
}

#[test]
fn test_no_client_list_in_response() {
    let server_response = "no client string END";
    let status_response = get_status(server_response);
    assert!(status_response.is_err());
    let response = match status_response {
        Err(OpenvpnError::MalformedResponse(e)) => e,
        _ => panic!("was expecting malformed response"),
    };

    assert_eq!(server_response, response);
}

#[test]
fn test_empty_clients_in_response() {
    let server_response =
        "TITLE\ttest-title\r\nTIME\ttimestamp\t1547913893\r\nHEADER\tCLIENT_LIST\r\nEND";
    let expected_status = new_mock_status("test-title", 1547913893, Vec::new());
    let status_response = get_status(server_response);
    assert!(status_response.is_ok());
    let status = status_response.unwrap();
    assert_eq!(expected_status, status);
}

#[test]
fn test_client_details_too_short_in_response() {
    let server_response = "\nHEADER\tCLIENT_LIST\r\nCLIENT_LIST bad\tclient\tinformation\r\nEND";
    let status_response = get_status(server_response);
    assert!(status_response.is_err());
    let response = match status_response {
        Err(OpenvpnError::MalformedResponse(e)) => e,
        _ => panic!("was expecting malformed response"),
    };

    // The failure holds the line as it was read, with the carriage return that
    // came before the line feed.
    assert_eq!(format!("{}\r", "CLIENT_LIST bad\tclient\tinformation"), response);
}

#[test]
fn test_client_correct_details_in_response() {
    let server_response = "TITLE\ttest-title\r\nTIME\ttimestamp\t1547913893\r\nHEADER\tCLIENT_LIST\r\nCLIENT_LIST\ttest-client\t127.0.0.1:12345\t10.8.0.2\t\t100\t200\tdate-string\t1546277714\r\nEND";
    let expected_client = new_mock_client("test-client", "127.0.0.1", 1_546_277_714, 100.0, 200.0);
    let expected_status = new_mock_status("test-title", 1547913893, vec![expected_client; 1]);
    let status_response = get_status(server_response);
    assert!(status_response.is_ok());
    let status = status_response.unwrap();
    assert_eq!(expected_status, status);
}

#[test]
fn test_multiple_clients_details() {
    let server_response = "TITLE\ttest-title\r\nTIME\ttimestamp\t1547913893\r\nHEADER\tCLIENT_LIST\r\nCLIENT_LIST\ttest-client\t127.0.0.1:12345\t10.8.0.2\t\t100\t200\tdate-string\t1546277714\r\nCLIENT_LIST\ttest-client2\t192.168.0.3:12345\t10.8.0.3\t\t300\t400\tdate-string\t1546277715\r\nEND";
    let expected_clients = vec![
        new_mock_client("test-client", "127.0.0.1", 1_546_277_714, 100.0, 200.0),
        new_mock_client("test-client2", "192.168.0.3", 1_546_277_715, 300.0, 400.0),
    ];
    let expected_status = new_mock_status("test-title", 1547913893, expected_clients);
    let status_response = get_status(server_response);
    assert!(status_response.is_ok());
    let status = status_response.unwrap();
    assert_eq!(expected_status, status);
}

#[test]
fn test_parse_error_in_client_response_bytes_received() {
    let server_response = "TITLE\ttest-title\r\nTIME\ttimestamp\t1547913893\r\nHEADER\tCLIENT_LIST\r\nCLIENT_LIST\ttest-client\t127.0.0.1:12345\t10.8.0.2\t\tNAN_STRING\t200\tdate-string\t1546277714\r\nEND";
    let status_response = get_status(server_response);
    assert!(status_response.is_err());
    let expected_error = match status_response {
        Err(OpenvpnError::ParseFloat(_)) => true,
        _ => false,
    };

    assert!(expected_error, "expected unable to parse float");
}

#[test]
fn test_parse_error_in_client_response_bytes_sent() {
    let server_response = "TITLE\ttest-title\r\nTIME\ttimestamp\t1547913893\r\nHEADER\tCLIENT_LIST\r\nCLIENT_LIST\ttest-client\t127.0.0.1:12345\t10.8.0.2\t\t100\tNAN_STRING\tdate-string\t1546277714\r\nEND";
    let status_response = get_status(server_response);
    assert!(status_response.is_err());
    let expected_error = match status_response {
        Err(OpenvpnError::ParseFloat(_)) => true,
        _ => false,
    };

    assert!(expected_error, "expected unable to parse float");
}

#[test]
fn test_parse_error_in_client_response_timestamp() {
    let server_response = "TITLE\ttest-title\r\nTIME\ttimestamp\t1547913893\r\nHEADER\tCLIENT_LIST\r\nCLIENT_LIST\ttest-client\t127.0.0.1:12345\t10.8.0.2\t\t100\t200\tdate-string\tNAN_DATE_TIME\r\nEND";
    let status_response = get_status(server_response);
    assert!(status_response.is_err());
    let expected_error = match status_response {
        Err(OpenvpnError::ParseInt(_)) => true,
        _ => false,
    };

    assert!(expected_error, "expected unable to parse int");
}

#[test]
fn test_client_correct_details_within_read_timeout() {
    let server_response = "TITLE\ttest-title\r\nTIME\ttimestamp\t1547913893\r\nHEADER\tCLIENT_LIST\r\nCLIENT_LIST\ttest-client\t127.0.0.1:12345\t10.8.0.2\t\t100\t200\tdate-string\t1546277714\r\nEND";
    let expected_client = new_mock_client("test-client", "127.0.0.1", 1_546_277_714, 100.0, 200.0);
    let expected_status = new_mock_status("test-title", 1547913893, vec![expected_client; 1]);
    let mut builder = CommandManagerBuilder::new();
    builder.read_timeout(Some(READ_TIMEOUT));
    assert_eq!(Some(READ_TIMEOUT), builder.read_limit());
    assert_eq!(None, builder.connect_limit());
    let status_response = get_status(server_response);
    assert!(status_response.is_ok());
    let status = status_response.unwrap();
    assert_eq!(expected_status, status);
}

#[test]
fn test_client_correct_details_within_connect_timeout() {
    let server_response = "TITLE\ttest-title\r\nTIME\ttimestamp\t1547913893\r\nHEADER\tCLIENT_LIST\r\nCLIENT_LIST\ttest-client\t127.0.0.1:12345\t10.8.0.2\t\t100\t200\tdate-string\t1546277714\r\nEND";
    let expected_client = new_mock_client("test-client", "127.0.0.1", 1_546_277_714, 100.0, 200.0);
    let expected_status = new_mock_status("test-title", 1547913893, vec![expected_client; 1]);
    let mut builder = CommandManagerBuilder::new();
    builder.connect_timeout(Some(CONNECT_TIMEOUT));
    assert_eq!(Some(CONNECT_TIMEOUT), builder.connect_limit());
    assert_eq!(None, builder.read_limit());
    let status_response = get_status(server_response);
    assert!(status_response.is_ok());
    let status = status_response.unwrap();
    assert_eq!(expected_status, status);
}
