use nit_stream::error::Error;
use nit_stream::output::{Datagram, Output};

#[test]
fn open_keeps_the_destination_of_a_udp_address() {
    assert_eq!(
        Output::open("udp://239.255.1.1:10000"),
        Ok(Output::Udp("239.255.1.1:10000".to_string()))
    );
}

#[test]
fn open_splits_at_the_first_separator_only() {
    assert_eq!(Output::open("udp://a://b"), Ok(Output::Udp("a://b".to_string())));
    assert_eq!(Output::open("udp://"), Ok(Output::Udp(String::new())));
}

#[test]
fn open_refuses_an_unknown_scheme_and_quotes_it() {
    assert_eq!(
        Output::open("file:///tmp/nit.ts"),
        Err(Error::Custom("unknown output type [file]".to_string()))
    );
    assert_eq!(
        Output::open("UDP://239.255.1.1:10000"),
        Err(Error::Custom("unknown output type [UDP]".to_string()))
    );
    assert_eq!(
        Output::open("://239.255.1.1:10000"),
        Err(Error::Custom("unknown output type []".to_string()))
    );
}

#[test]
fn open_refuses_an_address_without_separator() {
    assert_eq!(
        Output::open("239.255.1.1:10000"),
        Err(Error::Custom("unknown output type [239.255.1.1:10000]".to_string()))
    );
    assert_eq!(Output::open("udp"), Err(Error::Custom("unknown output type [udp]".to_string())));
    assert_eq!(Output::open(""), Err(Error::Custom("unknown output type []".to_string())));
}

#[test]
fn a_sink_that_was_never_opened_sends_nothing() {
    let sink = Output::default();
    assert_eq!(sink, Output::Unopened);
    assert!(!sink.is_open());
    assert_eq!(sink.send(&[0x47, 0x40, 0x10, 0x10]), None);
    assert_eq!(sink.send(&[]), None);
}

#[test]
fn an_open_sink_sends_exactly_the_given_bytes_in_one_datagram() {
    let sink = Output::open("udp://239.255.1.1:10000").unwrap();
    assert!(sink.is_open());
    let bytes = vec![0x47u8, 0x40, 0x10, 0x10, 0x00];
    assert_eq!(
        sink.send(&bytes),
        Some(Datagram { destination: "239.255.1.1:10000".to_string(), payload: bytes.clone() })
    );
    assert_eq!(
        sink.send(&[]),
        Some(Datagram { destination: "239.255.1.1:10000".to_string(), payload: Vec::new() })
    );
}
