use sendsure_rust::{parse_content_length, HttpRequestReader, ReadStep};

fn run(chunks: &[&[u8]]) -> ReadStep {
    let mut reader = HttpRequestReader::new();
    for chunk in chunks {
        match reader.feed(chunk) {
            ReadStep::NeedMore => {}
            done => return done,
        }
    }
    reader.finish()
}

fn complete(step: ReadStep) -> (String, String) {
    match step {
        ReadStep::Complete(h, b) => (h, b),
        ReadStep::NeedMore => panic!("wanted more input"),
        ReadStep::IncompleteBody => panic!("incomplete body"),
    }
}

#[test]
fn request_with_body_in_one_chunk() {
    let (h, b) = complete(run(&[b"POST /api/evaluate HTTP/1.1\r\nContent-Length: 5\r\n\r\nhello"]));
    assert_eq!(h, "POST /api/evaluate HTTP/1.1\r\nContent-Length: 5");
    assert_eq!(b, "hello");
}

#[test]
fn split_reads_give_the_same_request() {
    let whole: &[u8] = b"POST / HTTP/1.1\r\ncontent-length: 11\r\n\r\nhello world";
    for cut in 0..whole.len() {
        let (a, b) = whole.split_at(cut);
        let (h, body) = complete(run(&[a, b]));
        assert_eq!(h, "POST / HTTP/1.1\r\ncontent-length: 11");
        assert_eq!(body, "hello world", "cut at {cut}");
    }
    let bytes: Vec<&[u8]> = whole.chunks(1).collect();
    let (_, body) = complete(run(&bytes));
    assert_eq!(body, "hello world");
}

#[test]
fn body_is_cut_to_declared_length() {
    let (_, b) = complete(run(&[b"POST / HTTP/1.1\r\nContent-Length: 3\r\n\r\nabcdef"]));
    assert_eq!(b, "abc");
}

#[test]
fn without_length_the_body_is_what_came_with_the_head() {
    let (h, b) = complete(run(&[b"GET /health HTTP/1.1\r\nHost: x\r\n\r\npipelined", b"later"]));
    assert_eq!(h, "GET /health HTTP/1.1\r\nHost: x");
    assert_eq!(b, "pipelined");
}

#[test]
fn incomplete_body_is_an_error() {
    match run(&[b"POST / HTTP/1.1\r\nContent-Length: 10\r\n\r\nabc"]) {
        ReadStep::IncompleteBody => {}
        _ => panic!("expected an incomplete body"),
    }
}

#[test]
fn head_without_blank_line_is_all_head() {
    let (h, b) = complete(run(&[b"GET / HTTP/1.1\r\n"]));
    assert_eq!(h, "GET / HTTP/1.1\r\n");
    assert_eq!(b, "");
    let (h, b) = complete(run(&[]));
    assert_eq!(h, "");
    assert_eq!(b, "");
}

#[test]
fn invalid_utf8_is_replaced() {
    let (_, b) = complete(run(&[b"POST / HTTP/1.1\r\nContent-Length: 2\r\n\r\n\xff!"]));
    assert_eq!(b, "\u{FFFD}!");
}

#[test]
fn content_length_variants() {
    assert_eq!(parse_content_length("POST / HTTP/1.1\r\nContent-Length: 42"), Some(42));
    assert_eq!(parse_content_length("POST / HTTP/1.1\r\n  CONTENT-LENGTH :  +7  \r\n"), Some(7));
    assert_eq!(parse_content_length("X: 1\nContent-Length: abc\ncontent-length: 9"), Some(9));
    assert_eq!(parse_content_length("Content-Length: -1"), None);
    assert_eq!(parse_content_length("Content-Length: 99999999999999999999999"), None);
    assert_eq!(parse_content_length("Content-Length:"), None);
    assert_eq!(parse_content_length("Content-Type: text/plain"), None);
    assert_eq!(parse_content_length(""), None);
    assert_eq!(
        parse_content_length("Content-Length: 18446744073709551615"),
        Some(18446744073709551615)
    );
}
