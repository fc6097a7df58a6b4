use std::collections::BTreeMap;

use slint_clash::api::Traffic;
use slint_clash::traffic::{
    first_sample, parse_first_traffic, TrafficError, TrafficStream, MAX_STREAM_BUFFER,
};

fn sample(text: &str) -> Result<Traffic, String> {
    let fields: BTreeMap<String, u64> =
        serde_json::from_str(text).map_err(|error| error.to_string())?;
    match (fields.get("up"), fields.get("down")) {
        (Some(up), Some(down)) => Ok(Traffic { up: *up, down: *down }),
        _ => Err("missing field".to_owned()),
    }
}

fn first(bytes: &[u8]) -> Result<Option<Traffic>, String> {
    parse_first_traffic(bytes, sample)
}

#[test]
fn parses_plain_and_sse_traffic_samples() {
    assert_eq!(
        first(br#"{"up":1024,"down":2048}"#).unwrap(),
        Some(Traffic { up: 1024, down: 2048 })
    );
    assert_eq!(
        first(b"data: {\"up\":1,\"down\":2}\n\n").unwrap(),
        Some(Traffic { up: 1, down: 2 })
    );
}

#[test]
fn waits_for_a_complete_stream_item() {
    assert_eq!(first(br#"{"up":12"#).unwrap(), None);
}

#[test]
fn rejects_complete_invalid_json() {
    assert!(first(b"{not-json}").is_err());
}

#[test]
fn the_first_finished_line_counts() {
    let text = b"\r\n  \n: comment\ndata:{\"up\":3,\"down\":4}\r\n{broken}\n";
    assert_eq!(first(text).unwrap(), Some(Traffic { up: 3, down: 4 }));
    assert_eq!(
        first(b"{\"up\":1,\"down\":2}\n{\"up\":3,\"down\":4}\n").unwrap(),
        Some(Traffic { up: 1, down: 2 })
    );
    assert!(first(b"{bad}\n{\"up\":3,\"down\":4}\n").is_err());
    assert_eq!(
        first(b"data: {\"up\":1,\"down\":2} \r\ndata: {").unwrap(),
        Some(Traffic { up: 1, down: 2 })
    );
}

#[test]
fn a_sample_may_span_lines() {
    assert_eq!(
        first(b"data: {\n\"up\":5,\n\"down\":6\n} ").unwrap(),
        Some(Traffic { up: 5, down: 6 })
    );
    assert!(first(b"{\n\"up\":5,\n\"down\":6\n}").is_err());
    assert_eq!(first(b"").unwrap(), None);
    assert_eq!(first(b"\n\n").unwrap(), None);
}

#[test]
fn bytes_that_are_no_text_do_not_stop_the_search() {
    assert_eq!(
        first(b"\xff\xfe\n{\"up\":1,\"down\":1}\n").unwrap(),
        Some(Traffic { up: 1, down: 1 })
    );
    let seen = parse_first_traffic(b"a\xffb", |text: &str| {
        assert_eq!(text, "a\u{fffd}b");
        Err::<Traffic, String>("no sample".to_owned())
    });
    assert_eq!(seen, Ok(None));
}

#[test]
fn a_stream_is_read_until_its_first_sample() {
    let mut stream = TrafficStream::new();
    assert_eq!(stream.feed(b"{\"up\":7,", sample), Ok(None));
    assert_eq!(
        stream.feed(b"\"down\":8}\n", sample),
        Ok(Some(Traffic { up: 7, down: 8 }))
    );
}

#[test]
fn a_stream_without_a_sample_is_given_up() {
    let mut stream = TrafficStream::new();
    let chunk = vec![b' '; MAX_STREAM_BUFFER];
    assert_eq!(stream.feed(&chunk, sample), Ok(None));
    let error = stream.feed(b" ", sample).unwrap_err();
    assert_eq!(error, TrafficError::TooLong);
    assert_eq!(
        error.message(),
        Some("Mihomo traffic response exceeded 64 KiB".to_owned())
    );
    let ended: TrafficError<String> = TrafficStream::new().end();
    assert_eq!(
        ended.message(),
        Some("Mihomo traffic stream ended before returning a sample".to_owned())
    );
    let mut broken = TrafficStream::new();
    let error = broken.feed(b"{x}", sample).unwrap_err();
    assert!(matches!(error, TrafficError::Invalid(_)));
    assert_eq!(error.message(), None);
}

#[test]
fn a_text_is_searched_like_its_bytes() {
    let text = "data: {\"up\":1,\"down\":2}\n";
    assert_eq!(first_sample(text, sample), first(text.as_bytes()));
    assert_eq!(first_sample(text, sample), Ok(Some(Traffic { up: 1, down: 2 })));
    assert_eq!(first_sample("data: {", sample), Ok(None));
}
