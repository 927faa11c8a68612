use chrono::{DateTime, NaiveDateTime, Utc};
use openvpn_management::{
    parse_client, parse_timestamp, parse_title, split_line_by_tabs, try_parse_client,
    try_parse_timestamp, FloatError, IntError, OpenvpnError,
};

fn utc(epoch_seconds: i64) -> NaiveDateTime {
    let datetime: DateTime<Utc> = DateTime::from_timestamp(epoch_seconds, 0).unwrap();
    datetime.naive_utc()
}

fn malformed<T: std::fmt::Debug>(r: Result<T, OpenvpnError>) -> String {
    match r {
        Err(OpenvpnError::MalformedResponse(text)) => text,
        other => panic!("was expecting malformed response, got {:?}", other),
    }
}

#[test]
fn test_split_line_by_tabs_gives_every_field() {
    let fields = split_line_by_tabs("a\t\tb c\t\r", 4).unwrap();
    assert_eq!(vec!["a", "", "b c", "\r"], fields);
    let fields = split_line_by_tabs("", 1).unwrap();
    assert_eq!(vec![""], fields);
    let fields = split_line_by_tabs("\t", 0).unwrap();
    assert_eq!(vec!["", ""], fields);
    let fields = split_line_by_tabs("h\u{e9}llo\tw\u{f6}rld", 2).unwrap();
    assert_eq!(vec!["h\u{e9}llo", "w\u{f6}rld"], fields);
}

#[test]
fn test_split_line_by_tabs_wants_enough_fields() {
    assert_eq!("a\tb\r", malformed(split_line_by_tabs("a\tb\r", 3)));
    assert_eq!("", malformed(split_line_by_tabs("", 2)));
    assert!(split_line_by_tabs("a\tb\r", 2).is_ok());
}

#[test]
fn test_parse_title_takes_second_field() {
    assert_eq!("OpenVPN 2.4.4", parse_title("TITLE\tOpenVPN 2.4.4\r").unwrap());
    assert_eq!("OpenVPN", parse_title("TITLE\tOpenVPN").unwrap());
    assert_eq!("a", parse_title("TITLE\ta\tb\r").unwrap());
    assert_eq!("a\r", parse_title("TITLE\ta\r\r").unwrap());
    assert_eq!("", parse_title("TITLE\t").unwrap());
}

#[test]
fn test_parse_title_wants_two_fields() {
    assert_eq!("TITLE\r", malformed(parse_title("TITLE\r")));
    assert_eq!("TITLE test", malformed(parse_title("TITLE test")));
}

#[test]
fn test_parse_timestamp_takes_third_field() {
    assert_eq!(utc(1547913893), parse_timestamp("TIME\tSat Jan 19\t1547913893\r").unwrap());
    assert_eq!(utc(-5), parse_timestamp("TIME\t\t-5").unwrap());
    assert_eq!(utc(7), parse_timestamp("TIME\t\t+7\tmore").unwrap());
}

#[test]
fn test_parse_timestamp_failures() {
    assert_eq!("TIME\tx\r", malformed(parse_timestamp("TIME\tx\r")));
    assert!(matches!(
        parse_timestamp("TIME\tx\t\r"),
        Err(OpenvpnError::ParseInt(IntError::Empty))
    ));
    assert!(matches!(
        parse_timestamp("TIME\tx\t12a\r"),
        Err(OpenvpnError::ParseInt(IntError::InvalidDigit))
    ));
    assert!(matches!(
        parse_timestamp("TIME\tx\t 12\r"),
        Err(OpenvpnError::ParseInt(IntError::InvalidDigit))
    ));
    assert!(matches!(
        parse_timestamp("TIME\tx\t9223372036854775808\r"),
        Err(OpenvpnError::ParseInt(IntError::PosOverflow))
    ));
    assert!(matches!(
        parse_timestamp("TIME\tx\t-9223372036854775809\r"),
        Err(OpenvpnError::ParseInt(IntError::NegOverflow))
    ));
}

#[test]
fn test_try_parse_timestamp_tells_times_out_of_range() {
    assert!(try_parse_timestamp("TIME\tx\t8210266876800\r").is_none());
    assert_eq!(
        utc(8210266876799),
        try_parse_timestamp("TIME\tx\t8210266876799\r").unwrap().unwrap()
    );
    assert!(try_parse_timestamp("TIME\tx\t-8334601228801\r").is_none());
    assert_eq!(
        utc(-8334601228800),
        try_parse_timestamp("TIME\tx\t-8334601228800\r").unwrap().unwrap()
    );
}

#[test]
fn test_parse_client_reads_its_fields() {
    let line = "CLIENT_LIST\ttest-client\t127.0.0.1:12345\t10.8.0.2\t\t100\t200\tdate-string\t1546277714\r";
    let client = parse_client(line).unwrap();
    assert_eq!("test-client", client.name());
    assert_eq!("127.0.0.1", client.ip_address());
    assert_eq!(utc(1546277714), *client.connected_since());
    assert_eq!("100", client.bytes_received().as_str());
    assert_eq!("200", client.bytes_sent().as_str());
    assert_eq!(100.0, client.bytes_received().as_str().parse::<f64>().unwrap());
    assert_eq!(200.0, client.bytes_sent().as_str().parse::<f64>().unwrap());
}

#[test]
fn test_parse_client_reads_line_of_the_server() {
    let line = "CLIENT_LIST\tlaptop\t203.0.113.7:51820\t10.8.0.6\tfd00::1006\t2614\t3140\tSat Jan 19 16:04:53 2019\t1547913893\tUNDEF\t0\t1\r";
    let client = parse_client(line).unwrap();
    assert_eq!("laptop", client.name());
    assert_eq!("203.0.113.7", client.ip_address());
    assert_eq!(utc(1547913893), *client.connected_since());
    assert_eq!("2614", client.bytes_received().as_str());
    assert_eq!("3140", client.bytes_sent().as_str());
}

#[test]
fn test_parse_client_address() {
    let with = |endpoint: &str| {
        let line = format!("CLIENT_LIST\tn\t{}\tv\t\t1\t2\td\t3", endpoint);
        parse_client(&line).unwrap().ip_address().to_string()
    };
    assert_eq!("127.0.0.1", with("127.0.0.1"));
    assert_eq!("127.0.0.1", with("127.0.0.1:"));
    assert_eq!("", with(":12345"));
    assert_eq!("", with(""));
    assert_eq!("a", with("a:b:c"));
    assert_eq!("udp4", with("udp4:198.51.100.4:1194"));
}

#[test]
fn test_parse_client_failures() {
    assert_eq!(
        "CLIENT_LIST\ta\tb\tc\td\te\tf\tg\r",
        malformed(parse_client("CLIENT_LIST\ta\tb\tc\td\te\tf\tg\r"))
    );
    assert!(matches!(
        parse_client("CLIENT_LIST\tn\ta:1\tv\t\t1\t2\td\t\r"),
        Err(OpenvpnError::ParseInt(IntError::Empty))
    ));
    assert!(matches!(
        parse_client("CLIENT_LIST\tn\ta:1\tv\t\t\t2\td\t3\r"),
        Err(OpenvpnError::ParseFloat(FloatError::Empty))
    ));
    assert!(matches!(
        parse_client("CLIENT_LIST\tn\ta:1\tv\t\t1\t0x2\td\t3\r"),
        Err(OpenvpnError::ParseFloat(FloatError::Invalid))
    ));
}

#[test]
fn test_try_parse_client_tells_times_out_of_range() {
    assert!(try_parse_client("CLIENT_LIST\tn\ta:1\tv\t\t1\t2\td\t8210266876800").is_none());
    assert!(try_parse_client("CLIENT_LIST\tn\ta:1\tv\t\t1\t2\td\t8210266876799")
        .unwrap()
        .is_ok());
}

#[test]
fn test_parse_client_keeps_name_and_address_as_they_stand() {
    let client = parse_client("CLIENT_LIST\tn\r\t1.2.3.4\r\tv\t\t1\t2\td\t3\tu\r").unwrap();
    assert_eq!("n\r", client.name());
    assert_eq!("1.2.3.4\r", client.ip_address());
    let client = parse_client("CLIENT_LIST\t n \ta\r:1\r\tv\t\t1\t2\td\t3").unwrap();
    assert_eq!(" n ", client.name());
    assert_eq!("a\r", client.ip_address());
}

#[test]
fn test_parse_client_reads_byte_counts_as_they_stand() {
    assert!(matches!(
        parse_client("CLIENT_LIST\tn\ta:1\tv\t\t100\r\t2\td\t3\r"),
        Err(OpenvpnError::ParseFloat(FloatError::Invalid))
    ));
    assert!(matches!(
        parse_client("CLIENT_LIST\tn\ta:1\tv\t\t100\t2\r\td\t3\r"),
        Err(OpenvpnError::ParseFloat(FloatError::Invalid))
    ));
    assert!(matches!(
        parse_client("CLIENT_LIST\tn\ta:1\tv\t\t\r\t2\td\t3\r"),
        Err(OpenvpnError::ParseFloat(FloatError::Invalid))
    ));
}

#[test]
fn test_parse_client_time_loses_one_carriage_return() {
    let client = parse_client("CLIENT_LIST\tn\ta:1\tv\t\t1\t2\td\t3\r").unwrap();
    assert_eq!(utc(3), *client.connected_since());
    let client = parse_client("CLIENT_LIST\tn\ta:1\tv\t\t1\t2\td\t3").unwrap();
    assert_eq!(utc(3), *client.connected_since());
    assert!(matches!(
        parse_client("CLIENT_LIST\tn\ta:1\tv\t\t1\t2\td\t3\r\r"),
        Err(OpenvpnError::ParseInt(IntError::InvalidDigit))
    ));
    assert!(matches!(
        parse_client("CLIENT_LIST\tn\ta:1\tv\t\t1\t2\td\t\r"),
        Err(OpenvpnError::ParseInt(IntError::Empty))
    ));
}
