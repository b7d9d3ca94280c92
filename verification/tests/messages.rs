use cliud::http::error::Error;
use cliud::http::request::{
    content_length, parse_header_line, parse_request_line, read_headers, read_line, refused_len,
    Request,
};
use cliud::http::text::{
    chars_of, find, is_digit, is_whitespace, parse_usize, substring, trim_bounds, usize_to_string,
    ParseIntError,
};
use cliud::http::{HeaderMap, Response};
use cliud::io::IoError;

fn parse(text: &str) -> Result<(Request, usize), Error> {
    Request::try_from_buf(text.as_bytes())
}

#[test]
fn parses_request_with_body() {
    let text = "GET /x HTTP/1.1\r\nContent-Length: 5\r\n\r\nhello";
    let (request, used) = parse(text).unwrap();
    assert_eq!(request.method, "GET");
    assert_eq!(request.target, "/x");
    assert_eq!(request.version, "HTTP/1.1");
    assert_eq!(request.body, b"hello".to_vec());
    assert_eq!(request.headers.get("Content-Length"), Some(&"5".to_string()));
    assert_eq!(request.headers.len(), 1);
    assert_eq!(used, text.len());
}

#[test]
fn parses_request_without_body() {
    let text = "POST /submit HTTP/1.0\r\nHost: example.org\r\n\r\nleft over";
    let (request, used) = parse(text).unwrap();
    assert_eq!(request.method, "POST");
    assert_eq!(request.target, "/submit");
    assert_eq!(request.version, "HTTP/1.0");
    assert!(request.body.is_empty());
    assert_eq!(request.headers.get("Host"), Some(&"example.org".to_string()));
    assert_eq!(used, text.len() - "left over".len());
}

#[test]
fn body_takes_exactly_content_length_bytes() {
    let text = "PUT / HTTP/1.1\r\nContent-Length: 3\r\n\r\nabcdef";
    let (request, used) = parse(text).unwrap();
    assert_eq!(request.body, b"abc".to_vec());
    assert_eq!(used, text.len() - 3);
}

#[test]
fn body_may_hold_any_bytes() {
    let mut bytes = b"PUT / HTTP/1.1\r\nContent-Length: 4\r\n\r\n".to_vec();
    bytes.extend_from_slice(&[0xff, 0x00, b'\n', 0x80]);
    let (request, used) = Request::try_from_buf(&bytes).unwrap();
    assert_eq!(request.body, vec![0xff, 0x00, b'\n', 0x80]);
    assert_eq!(used, bytes.len());
}

#[test]
fn bare_line_feed_ends_a_line() {
    let (request, _) = parse("GET / HTTP/1.1\nA: b\n\n").unwrap();
    assert_eq!(request.version, "HTTP/1.1");
    assert_eq!(request.headers.get("A"), Some(&"b".to_string()));
}

#[test]
fn target_is_percent_decoded() {
    let (request, _) = parse("GET /a%20b%2Fc?q=%C3%A9 HTTP/1.1\r\n\r\n").unwrap();
    assert_eq!(request.target, "/a b/c?q=é");
    let (raw, _) = Request::parse_raw(b"GET /a%20b%2Fc?q=%C3%A9 HTTP/1.1\r\n\r\n").unwrap();
    assert_eq!(raw.target, "/a%20b%2Fc?q=%C3%A9");
}

#[test]
fn invalid_percent_sequences_are_replaced() {
    let (request, _) = parse("GET /%ff%zz HTTP/1.1\r\n\r\n").unwrap();
    assert_eq!(request.target, "/\u{fffd}%zz");
}

#[test]
fn request_line_needs_exactly_three_parts() {
    for line in ["GET /", "GET", "", "GET / HTTP/1.1 extra", "GET  / HTTP/1.1"] {
        let text = format!("{line}\r\n\r\n");
        assert_eq!(parse(&text).unwrap_err(), Error::BadRequestLine(line.to_string()));
    }
    assert_eq!(parse_request_line("a b"), None);
    assert_eq!(parse_request_line("a b c d"), None);
    assert_eq!(
        parse_request_line("a b c"),
        Some(("a".to_string(), "b".to_string(), "c".to_string()))
    );
    assert_eq!(
        parse_request_line(" b "),
        Some(("".to_string(), "b".to_string(), "".to_string()))
    );
}

#[test]
fn header_is_split_at_first_colon_and_trimmed() {
    assert_eq!(
        parse_header_line("  Host :  a:b \t"),
        Some(("Host".to_string(), "a:b".to_string()))
    );
    assert_eq!(parse_header_line("X:"), Some(("X".to_string(), "".to_string())));
    assert_eq!(parse_header_line(":"), Some(("".to_string(), "".to_string())));
    assert_eq!(parse_header_line("no colon"), None);
    assert_eq!(parse_header_line(""), None);
    assert_eq!(
        parse_header_line("\u{a0}K\u{3000}:\u{2003}v\u{85}"),
        Some(("K".to_string(), "v".to_string()))
    );
}

#[test]
fn later_header_wins() {
    let (request, _) = parse("GET / HTTP/1.1\r\nA: 1\r\nB: 2\r\nA: 3\r\n\r\n").unwrap();
    assert_eq!(request.headers.get("A"), Some(&"3".to_string()));
    assert_eq!(request.headers.get("B"), Some(&"2".to_string()));
    assert_eq!(request.headers.len(), 2);
}

#[test]
fn header_keys_are_compared_exactly() {
    let (request, _) = parse("GET / HTTP/1.1\r\ncontent-length: 5\r\n\r\nhello").unwrap();
    assert_eq!(request.headers.get("Content-Length"), None);
    assert_eq!(request.headers.get("content-length"), Some(&"5".to_string()));
    assert!(request.body.is_empty());
}

#[test]
fn line_without_colon_ends_the_headers() {
    let text = "GET / HTTP/1.1\r\nA: 1\r\nnot a header\r\nB: 2\r\n\r\n";
    let (request, used) = parse(text).unwrap();
    assert_eq!(request.headers.len(), 1);
    assert_eq!(request.headers.get("B"), None);
    assert_eq!(used, "GET / HTTP/1.1\r\nA: 1\r\nnot a header\r\n".len());
}

#[test]
fn bad_content_length_is_reported_by_kind() {
    let cases = [
        ("", ParseIntError::Empty),
        ("five", ParseIntError::InvalidDigit),
        ("-1", ParseIntError::InvalidDigit),
        ("+", ParseIntError::InvalidDigit),
        ("1 2", ParseIntError::InvalidDigit),
        ("999999999999999999999999999999", ParseIntError::PosOverflow),
    ];
    for (value, kind) in cases {
        let text = format!("GET / HTTP/1.1\r\nContent-Length: {value}\r\n\r\n");
        assert_eq!(parse(&text).unwrap_err(), Error::BadContentLength(kind));
    }
}

#[test]
fn short_body_is_an_io_error() {
    let text = "GET / HTTP/1.1\r\nContent-Length: 6\r\n\r\nhello";
    assert_eq!(parse(text).unwrap_err(), Error::IO(IoError::UnexpectedEof));
}

#[test]
fn input_that_ends_inside_the_head_is_an_io_error() {
    let text = "GET / HTTP/1.1\r\nContent-Length: 5\r\n\r\nhello";
    for cut in 0..text.len() {
        assert_eq!(parse(&text[..cut]).unwrap_err(), Error::IO(IoError::UnexpectedEof));
    }
}

#[test]
fn line_that_is_not_utf8_is_an_io_error() {
    let bytes = b"GET /\xff HTTP/1.1\r\n\r\n";
    assert_eq!(Request::try_from_buf(bytes).unwrap_err(), Error::IO(IoError::InvalidData));
    let bytes = b"GET / HTTP/1.1\r\nA: \xc3\r\n\r\n";
    assert_eq!(Request::try_from_buf(bytes).unwrap_err(), Error::IO(IoError::InvalidData));
}

#[test]
fn bad_request_line_comes_before_later_faults() {
    let text = "BAD\r\nContent-Length: x\r\n";
    assert_eq!(parse(text).unwrap_err(), Error::BadRequestLine("BAD".to_string()));
}

#[test]
fn read_line_strips_one_line_end() {
    let bytes = b"ab\r\ncd\n\r\r\nrest";
    assert_eq!(read_line(bytes, 0), Ok(("ab".to_string(), 4)));
    assert_eq!(read_line(bytes, 4), Ok(("cd".to_string(), 7)));
    assert_eq!(read_line(bytes, 7), Ok(("\r".to_string(), 10)));
    assert_eq!(read_line(bytes, 10), Err(Error::IO(IoError::UnexpectedEof)));
    assert_eq!(read_line(bytes, bytes.len()), Err(Error::IO(IoError::UnexpectedEof)));
    assert_eq!(read_line(b"\n", 0), Ok(("".to_string(), 1)));
    assert_eq!(read_line("é\n".as_bytes(), 0), Ok(("é".to_string(), 3)));
}

#[test]
fn content_length_of_headers() {
    let mut headers = HeaderMap::new();
    assert_eq!(content_length(&headers), Ok(0));
    headers.insert("Content-Length", "+42");
    assert_eq!(content_length(&headers), Ok(42));
    headers.insert("Content-Length", "0042");
    assert_eq!(content_length(&headers), Ok(42));
    headers.insert("Content-Length", "4x");
    assert_eq!(content_length(&headers), Err(ParseIntError::InvalidDigit));
}

#[test]
fn request_serializes() {
    let (request, _) = parse("GET /x HTTP/1.1\r\nB: 2\r\nA: 1\r\n\r\n").unwrap();
    assert_eq!(request.request_line(), "GET /x HTTP/1.1");
    let bytes = request.to_bytes();
    assert_eq!(bytes, b"GET /x HTTP/1.1\r\nB: 2\r\nA: 1\r\n\r\n".to_vec());
    let (again, used) = Request::try_from_buf(&bytes).unwrap();
    assert_eq!(used, bytes.len());
    assert_eq!(again.to_bytes(), bytes);
}

#[test]
fn request_clone_is_equal() {
    let (request, _) = parse("GET /x HTTP/1.1\r\nA: 1\r\nContent-Length: 2\r\n\r\nhi").unwrap();
    let copy = request.clone();
    assert_eq!(copy.to_bytes(), request.to_bytes());
}

#[test]
fn parses_decimal_numbers() {
    assert_eq!(parse_usize("0"), Ok(0));
    assert_eq!(parse_usize("007"), Ok(7));
    assert_eq!(parse_usize("+15"), Ok(15));
    assert_eq!(parse_usize("1024"), Ok(1024));
    assert_eq!(parse_usize(&usize::MAX.to_string()), Ok(usize::MAX));
    assert_eq!(parse_usize(""), Err(ParseIntError::Empty));
    assert_eq!(parse_usize("+"), Err(ParseIntError::InvalidDigit));
    assert_eq!(parse_usize("-"), Err(ParseIntError::InvalidDigit));
    assert_eq!(parse_usize("++1"), Err(ParseIntError::InvalidDigit));
    assert_eq!(parse_usize(" 1"), Err(ParseIntError::InvalidDigit));
    assert_eq!(parse_usize("٣"), Err(ParseIntError::InvalidDigit));
    let over = format!("{}0", usize::MAX);
    assert_eq!(parse_usize(&over), Err(ParseIntError::PosOverflow));
    let mut next = usize::MAX.to_string().into_bytes();
    let last = next.len() - 1;
    next[last] += 1;
    assert_eq!(parse_usize(std::str::from_utf8(&next).unwrap()), Err(ParseIntError::PosOverflow));
}

#[test]
fn first_fault_from_the_left_decides() {
    let over = format!("{}0x", usize::MAX);
    assert_eq!(parse_usize(&over), Err(ParseIntError::PosOverflow));
    let early = format!("x{}0", usize::MAX);
    assert_eq!(parse_usize(&early), Err(ParseIntError::InvalidDigit));
}

#[test]
fn parse_agrees_with_std() {
    let samples = [
        "0", "1", "+1", "-1", "", "+", "12", "1_000", "0x10", "18446744073709551615",
        "18446744073709551616", "4294967295", "4294967296", " 5", "5 ", "+-5", "00000000000000000000000001",
    ];
    for text in samples {
        let ours = parse_usize(text).ok();
        let theirs = text.parse::<usize>().ok();
        assert_eq!(ours, theirs, "{:?}", text);
    }
}

#[test]
fn writes_decimal_numbers() {
    assert_eq!(usize_to_string(0), "0");
    assert_eq!(usize_to_string(9), "9");
    assert_eq!(usize_to_string(10), "10");
    assert_eq!(usize_to_string(1024), "1024");
    assert_eq!(usize_to_string(usize::MAX), usize::MAX.to_string());
    for n in [0usize, 5, 99, 100, 65535, 65536, usize::MAX] {
        assert_eq!(parse_usize(&usize_to_string(n)), Ok(n));
    }
}

#[test]
fn whitespace_is_unicode_white_space() {
    for code in 0u32..0x3100 {
        if let Some(c) = char::from_u32(code) {
            assert_eq!(is_whitespace(c), c.is_whitespace(), "{:x}", code);
        }
    }
    assert!(!is_whitespace('\u{feff}'));
    assert!(!is_whitespace('\u{200b}'));
}

#[test]
fn digits_are_ascii_digits() {
    for c in ['0', '5', '9'] {
        assert!(is_digit(c));
    }
    for c in ['/', ':', 'a', '٣', ' '] {
        assert!(!is_digit(c));
    }
}

#[test]
fn text_helpers() {
    let chars = chars_of("a é:b");
    assert_eq!(chars, vec!['a', ' ', 'é', ':', 'b']);
    assert_eq!(find(&chars, ':', 0), 3);
    assert_eq!(find(&chars, ':', 3), 3);
    assert_eq!(find(&chars, ':', 4), 5);
    assert_eq!(find(&chars, 'z', 0), 5);
    assert_eq!(find(&chars, 'a', 9), 5);
    assert_eq!(substring("a é:b", 2, 4), "é:");
    let chars = chars_of("x  ab \t ");
    assert_eq!(trim_bounds(&chars, 1, chars.len()), (3, 5));
    assert_eq!(trim_bounds(&chars, 5, chars.len()), (8, 8));
    assert_eq!(trim_bounds(&chars, 0, 1), (0, 1));
    assert_eq!(trim_bounds(&chars, 2, 2), (2, 2));
}

#[test]
fn header_map_is_a_mapping() {
    let mut headers = HeaderMap::new();
    assert_eq!(headers.len(), 0);
    assert_eq!(headers.get("A"), None);
    headers.insert("A", "1");
    headers.insert("B", "2");
    headers.insert("C", "3");
    assert_eq!(headers.len(), 3);
    headers.insert("B", "4");
    assert_eq!(headers.len(), 3);
    assert_eq!(headers.get("B"), Some(&"4".to_string()));
    assert_eq!(headers.entry(1), (&"B".to_string(), &"4".to_string()));
    assert_eq!(headers.render(), "A: 1\r\nB: 4\r\nC: 3\r\n");
    headers.remove("A");
    assert_eq!(headers.get("A"), None);
    assert_eq!(headers.len(), 2);
    assert_eq!(headers.render(), "B: 4\r\nC: 3\r\n");
    headers.remove("missing");
    assert_eq!(headers.len(), 2);
    headers.insert("A", "5");
    assert_eq!(headers.render(), "B: 4\r\nC: 3\r\nA: 5\r\n");
    let copy = headers.clone();
    assert_eq!(copy.render(), headers.render());
    assert_eq!(HeaderMap::new().render(), "");
}

#[test]
fn response_builders() {
    let response = Response::new("201", "Created");
    assert_eq!(response.version, "HTTP/1.1");
    assert_eq!(response.status_code, "201");
    assert_eq!(response.description, "Created");
    assert_eq!(response.headers.len(), 0);
    assert!(response.body.is_empty());
    assert_eq!(Response::ok().response_line(), "HTTP/1.1 200 OK");
    let missing = Response::not_found("no such page");
    assert_eq!(missing.response_line(), "HTTP/1.1 404 Not Found");
    assert_eq!(missing.body, b"no such page".to_vec());
    let failed = Response::err("boom");
    assert_eq!(failed.response_line(), "HTTP/1.1 500 Internal Server Error");
    assert_eq!(failed.body, b"boom".to_vec());
}

#[test]
fn response_content_types() {
    let plain = Response::ok().plain(b"a".to_vec());
    assert_eq!(plain.headers.get("Content-Type"), Some(&"text/plain; charset=utf-8".to_string()));
    assert_eq!(plain.body, b"a".to_vec());
    let html = Response::ok().html(b"<p>".to_vec());
    assert_eq!(html.headers.get("Content-Type"), Some(&"text/html; charset=utf-8".to_string()));
    assert_eq!(html.body, b"<p>".to_vec());
    let file = Response::ok().file(vec![0, 1]);
    assert_eq!(file.headers.get("Content-Type"), Some(&"application/octet-reader".to_string()));
    assert_eq!(file.body, vec![0, 1]);
    let retyped = plain.html(b"b".to_vec());
    assert_eq!(retyped.headers.len(), 1);
    assert_eq!(retyped.headers.get("Content-Type"), Some(&"text/html; charset=utf-8".to_string()));
}

#[test]
fn response_headers_and_body_steps() {
    let response = Response::ok()
        .with_header("A", "1")
        .header("B", "2")
        .with_header("A", "3")
        .with_body(b"xy".to_vec())
        .body(b"z");
    assert_eq!(response.headers.get("A"), Some(&"3".to_string()));
    assert_eq!(response.headers.get("B"), Some(&"2".to_string()));
    assert_eq!(response.body, b"xyz".to_vec());
    assert_eq!(response.response_headers(), "HTTP/1.1 200 OK\r\nA: 3\r\nB: 2\r\n");
    let replaced = response.with_body(Vec::new());
    assert!(replaced.body.is_empty());
}

#[test]
fn response_serializes() {
    let response = Response::new("404", "Not Found")
        .with_header("Content-Type", "text/plain")
        .with_header("X-Ünï", "ça")
        .with_body(vec![b'n', b'o', 0xff]);
    let mut expected = "HTTP/1.1 404 Not Found\r\nContent-Type: text/plain\r\nX-Ünï: ça\r\n\r\n"
        .as_bytes()
        .to_vec();
    expected.extend_from_slice(&[b'n', b'o', 0xff]);
    assert_eq!(response.to_bytes(), expected);
    assert_eq!(Response::ok().to_bytes(), b"HTTP/1.1 200 OK\r\n\r\n".to_vec());
    assert_eq!(response.clone().to_bytes(), expected);
}

#[test]
fn error_messages() {
    assert_eq!(
        Error::IO(IoError::UnexpectedEof).message(),
        "IO Error: failed to fill whole buffer"
    );
    assert_eq!(
        Error::IO(IoError::InvalidData).message(),
        "IO Error: stream did not contain valid UTF-8"
    );
    assert_eq!(Error::IO(IoError::Other).message(), "IO Error: other error");
    assert_eq!(Error::BadRequestLine("GET".to_string()).message(), "Bad Request Line: GET");
    assert_eq!(
        Error::BadContentLength(ParseIntError::Empty).message(),
        "Bad Content-Length: cannot parse integer from empty string"
    );
    assert_eq!(
        Error::BadContentLength(ParseIntError::InvalidDigit).message(),
        "Bad Content-Length: invalid digit found in string"
    );
    assert_eq!(
        Error::BadContentLength(ParseIntError::PosOverflow).message(),
        "Bad Content-Length: number too large to fit in target type"
    );
    assert_eq!(Error::ContentLengthRequired.message(), "Content-Length is required");
}

#[test]
fn headers_are_read_up_to_the_first_line_without_colon() {
    let bytes = b"skip\r\nA: 1\r\nB : 2\r\n\r\nbody";
    let (headers, next) = read_headers(bytes, 6).unwrap();
    assert_eq!(headers.render(), "A: 1\r\nB: 2\r\n");
    assert_eq!(next, bytes.len() - 4);
    let (headers, next) = read_headers(bytes, 0).unwrap();
    assert_eq!(headers.len(), 0);
    assert_eq!(next, 6);
    assert_eq!(read_headers(b"A: 1\r\n", 0).unwrap_err(), Error::IO(IoError::UnexpectedEof));
    assert_eq!(read_headers(b"A: \xff\r\n\r\n", 0).unwrap_err(), Error::IO(IoError::InvalidData));
}

#[test]
fn refused_request_uses_up_what_was_read() {
    let bytes = b"nonsense\r\nGET / HTTP/1.1\r\n\r\n";
    let error = Request::try_from_buf(bytes).unwrap_err();
    assert_eq!(error, Error::BadRequestLine("nonsense".to_string()));
    let used = refused_len(bytes, &error);
    assert_eq!(used, 10);
    let (request, rest) = Request::try_from_buf(&bytes[used..]).unwrap();
    assert_eq!(request.target, "/");
    assert_eq!(used + rest, bytes.len());

    let bytes = b"GET / HTTP/1.1\r\nContent-Length: x\r\n\r\nGET /2 HTTP/1.1\r\n\r\n";
    let error = Request::try_from_buf(bytes).unwrap_err();
    assert_eq!(error, Error::BadContentLength(ParseIntError::InvalidDigit));
    let used = refused_len(bytes, &error);
    assert_eq!(used, 37);
    let (request, _) = Request::try_from_buf(&bytes[used..]).unwrap();
    assert_eq!(request.target, "/2");

    assert_eq!(refused_len(b"GET /", &Error::IO(IoError::UnexpectedEof)), 0);
    assert_eq!(refused_len(b"x\r\n", &Error::ContentLengthRequired), 0);
    assert_eq!(refused_len(b"no line end", &Error::BadRequestLine(String::new())), 0);
}

#[test]
fn more_input_does_not_change_a_request() {
    let text = "GET /x HTTP/1.1\r\nContent-Length: 5\r\n\r\nhello";
    let (request, used) = Request::try_from_buf(text.as_bytes()).unwrap();
    let longer = format!("{text}GET /next HTTP/1.1\r\n\r\n");
    let (again, used_again) = Request::try_from_buf(longer.as_bytes()).unwrap();
    assert_eq!(used, used_again);
    assert_eq!(request.to_bytes(), again.to_bytes());
}
