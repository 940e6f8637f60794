use mini_http::request::{handle_stream, read_request, Method, StreamHandler};

fn parse(text: &str) -> StreamHandler {
    handle_stream(String::from(text))
}

#[test]
fn empty_text_gives_the_defaults() {
    let r = parse("");
    assert_eq!(r.method, Method::GET);
    assert_eq!(r.path, "/");
    assert_eq!(r.path_param, "");
    assert_eq!(r.content_length, 0);
    assert_eq!(r.content_type, "");
    assert_eq!(r.user_agent, "");
    assert_eq!(r.data, "");
    assert_eq!(r.encoding, "");
}

#[test]
fn get_echo_request_is_taken_apart() {
    let r = parse(
        "GET /echo/hello HTTP/1.1\r\nHost: localhost:4221\r\nUser-Agent: curl/7.64.1\r\nAccept: */*\r\n\r\n",
    );
    assert_eq!(r.method, Method::GET);
    assert_eq!(r.path, "/echo");
    assert_eq!(r.path_param, "hello");
    assert_eq!(r.user_agent, "curl/7.64.1");
    assert_eq!(r.content_length, 0);
    assert_eq!(r.content_type, "");
    assert_eq!(r.encoding, "");
    assert_eq!(r.data, "");
}

#[test]
fn post_request_with_body_is_taken_apart() {
    let r = parse(
        "POST /files/foo.txt HTTP/1.1\r\nContent-Type: application/octet-stream\r\nContent-Length: 5\r\n\r\nhello",
    );
    assert_eq!(r.method, Method::POST);
    assert_eq!(r.path, "/files");
    assert_eq!(r.path_param, "foo.txt");
    assert_eq!(r.content_type, "application/octet-stream");
    assert_eq!(r.content_length, 5);
    assert_eq!(r.data, "hello");
}

#[test]
fn root_path_has_empty_route_segment() {
    let r = parse("GET / HTTP/1.1\r\n\r\n");
    assert_eq!(r.path, "/");
    assert_eq!(r.path_param, "");
}

#[test]
fn path_segments_after_the_second_are_dropped() {
    let r = parse("GET /a/b/c/d HTTP/1.1\r\n");
    assert_eq!(r.path, "/a");
    assert_eq!(r.path_param, "b");
}

#[test]
fn empty_first_segment_keeps_the_second() {
    let r = parse("GET //x HTTP/1.1\r\n");
    assert_eq!(r.path, "/");
    assert_eq!(r.path_param, "x");
}

#[test]
fn param_is_not_decoded() {
    let r = parse("GET /echo/a%20b HTTP/1.1\r\n");
    assert_eq!(r.path_param, "a%20b");
}

#[test]
fn request_line_without_newline_is_read() {
    let r = parse("POST /files/name");
    assert_eq!(r.method, Method::POST);
    assert_eq!(r.path, "/files");
    assert_eq!(r.path_param, "name");
}

#[test]
fn later_request_line_overrides_the_earlier() {
    let r = parse("GET /echo/a HTTP/1.1\nPOST /files/b HTTP/1.1\n");
    assert_eq!(r.method, Method::POST);
    assert_eq!(r.path, "/files");
    assert_eq!(r.path_param, "b");
}

#[test]
fn unknown_method_leaves_the_defaults() {
    let r = parse("PUT /files/b HTTP/1.1\r\n\r\n");
    assert_eq!(r.method, Method::GET);
    assert_eq!(r.path, "/");
    assert_eq!(r.path_param, "");
}

#[test]
fn request_line_must_start_the_line() {
    let r = parse(" GET /echo/a HTTP/1.1\r\n");
    assert_eq!(r.path, "/");
    assert_eq!(r.path_param, "");
}

#[test]
fn content_length_that_is_no_number_is_zero() {
    assert_eq!(parse("Content-Length: abc\r\n").content_length, 0);
    assert_eq!(parse("Content-Length: -5\r\n").content_length, 0);
    assert_eq!(parse("Content-Length: 5x\r\n").content_length, 0);
    assert_eq!(parse("Content-Length: +\r\n").content_length, 0);
    assert_eq!(parse("Content-Length: ++5\r\n").content_length, 0);
    assert_eq!(parse("Content-Length:\r\n").content_length, 0);
    assert_eq!(parse("Content-Length:5\r\n").content_length, 0);
    assert_eq!(parse("Content-Length: 1.5\r\n").content_length, 0);
}

#[test]
fn content_length_is_read_in_decimal() {
    assert_eq!(parse("Content-Length: 0\r\n").content_length, 0);
    assert_eq!(parse("Content-Length: 42\r\n").content_length, 42);
    assert_eq!(parse("Content-Length: +7\r\n").content_length, 7);
    assert_eq!(parse("Content-Length: 007\r\n").content_length, 7);
    assert_eq!(parse("Content-Length:   12   \r\n").content_length, 12);
    assert_eq!(parse("Content-Length: 12 13\r\n").content_length, 12);
}

#[test]
fn content_length_at_the_limit_of_usize() {
    let max = format!("Content-Length: {}\r\n", usize::MAX);
    assert_eq!(parse(&max).content_length, usize::MAX);
    let over = format!("Content-Length: {}0\r\n", usize::MAX);
    assert_eq!(parse(&over).content_length, 0);
    assert_eq!(parse("Content-Length: 340282366920938463463374607431768211456\r\n").content_length, 0);
}

#[test]
fn later_content_length_resets_the_earlier() {
    let r = parse("Content-Length: 5\r\nContent-Length: x\r\n");
    assert_eq!(r.content_length, 0);
}

#[test]
fn content_type_is_the_second_word() {
    assert_eq!(parse("Content-Type: text/html; charset=utf-8\r\n").content_type, "text/html;");
    assert_eq!(parse("Content-Type:\r\n").content_type, "");
    assert_eq!(parse("Content-Type:text/html\r\n").content_type, "");
    assert_eq!(parse("Content-Type:\ttext/css\r\n").content_type, "text/css");
}

#[test]
fn words_are_cut_at_unicode_white_space() {
    assert_eq!(parse("Content-Type:\u{a0}image/png\u{2003}x\r\n").content_type, "image/png");
    assert_eq!(parse("Content-Length:\u{3000}9\r\n").content_length, 9);
    assert_eq!(parse("Content-Type:\u{200b}a b\r\n").content_type, "b");
}

#[test]
fn user_agent_keeps_what_follows_the_prefix() {
    assert_eq!(parse("User-Agent: test-client/1.0\r\n").user_agent, "test-client/1.0");
    assert_eq!(parse("User-Agent: a b  \r\n").user_agent, "a b  ");
    assert_eq!(parse("User-Agent: \r\n").user_agent, "");
}

#[test]
fn user_agent_without_the_prefix_keeps_the_line() {
    assert_eq!(parse("User-Agent:x\r\n").user_agent, "User-Agent:x");
    assert_eq!(parse("User-Agents\r\n").user_agent, "User-Agents");
}

#[test]
fn user_agent_strips_the_prefix_once() {
    assert_eq!(parse("User-Agent: User-Agent: x\r\n").user_agent, "User-Agent: x");
}

#[test]
fn first_supported_encoding_in_client_order_wins() {
    assert_eq!(parse("Accept-Encoding: gzip\r\n").encoding, "gzip");
    assert_eq!(parse("Accept-Encoding: invalid-1, gzip, br\r\n").encoding, "gzip");
    assert_eq!(parse("Accept-Encoding: br, gzip\r\n").encoding, "br");
    assert_eq!(parse("Accept-Encoding: deflate\r\n").encoding, "deflate");
    assert_eq!(parse("Accept-Encoding: compress\r\n").encoding, "compress");
    assert_eq!(parse("Accept-Encoding: zstd\r\n").encoding, "zstd");
    assert_eq!(parse("Accept-Encoding: exi\r\n").encoding, "exi");
    assert_eq!(parse("Accept-Encoding: identity\r\n").encoding, "identity");
    assert_eq!(parse("Accept-Encoding: pack200-gzip\r\n").encoding, "pack200-gzip");
}

#[test]
fn unsupported_encodings_leave_it_empty() {
    assert_eq!(parse("Accept-Encoding: foo, bar\r\n").encoding, "");
    assert_eq!(parse("Accept-Encoding: \r\n").encoding, "");
    assert_eq!(parse("Accept-Encoding: gzip;q=0.5\r\n").encoding, "");
    assert_eq!(parse("Accept-Encoding: GZIP\r\n").encoding, "");
    assert_eq!(parse("Accept-Encoding:gzip\r\n").encoding, "");
}

#[test]
fn spaces_inside_the_encoding_list_are_removed() {
    assert_eq!(parse("Accept-Encoding:  g z i p ,br\r\n").encoding, "gzip");
    assert_eq!(parse("Accept-Encoding: x,,  ,zstd\r\n").encoding, "zstd");
    assert_eq!(parse("Accept-Encoding: gzip\t\r\n").encoding, "");
}

#[test]
fn later_encoding_line_resets_the_earlier() {
    let r = parse("Accept-Encoding: gzip\r\nAccept-Encoding: nothing\r\n");
    assert_eq!(r.encoding, "");
}

#[test]
fn body_is_the_lines_after_the_blank_line_joined() {
    let r = parse("POST /files/x HTTP/1.1\r\n\r\none\r\ntwo\nthree");
    assert_eq!(r.data, "onetwothree");
}

#[test]
fn body_keeps_a_carriage_return_without_line_feed() {
    let r = parse("\r\na\rb\r\nc\r");
    assert_eq!(r.data, "a\rbc\r");
}

#[test]
fn headers_after_the_blank_line_are_body() {
    let r = parse("GET /echo/a HTTP/1.1\n\nUser-Agent: x\nContent-Length: 3\n");
    assert_eq!(r.user_agent, "");
    assert_eq!(r.content_length, 0);
    assert_eq!(r.data, "User-Agent: xContent-Length: 3");
}

#[test]
fn blank_line_may_be_a_bare_line_feed() {
    let r = parse("Content-Length: 2\n\nhi");
    assert_eq!(r.content_length, 2);
    assert_eq!(r.data, "hi");
}

#[test]
fn missing_blank_line_means_no_body() {
    let r = parse("GET /echo/a HTTP/1.1\r\nUser-Agent: x");
    assert_eq!(r.data, "");
    assert_eq!(r.user_agent, "x");
}

#[test]
fn line_of_one_carriage_return_without_line_feed_is_not_blank() {
    let r = parse("User-Agent: a\r\n\r");
    assert_eq!(r.user_agent, "a");
    assert_eq!(r.data, "");
}

#[test]
fn zero_padding_of_the_buffer_lands_in_the_body() {
    let mut text = String::from("POST /files/f HTTP/1.1\r\nContent-Length: 5\r\n\r\nhello");
    for _ in 0..20 {
        text.push('\0');
    }
    let r = handle_stream(text);
    assert_eq!(r.content_length, 5);
    assert_eq!(r.data.len(), 25);
    assert!(r.data.starts_with("hello\0"));
}

#[test]
fn text_that_is_not_ascii_is_kept() {
    let r = parse("GET /echo/gr\u{fc}\u{df}e HTTP/1.1\r\nUser-Agent: \u{65e5}\u{672c}\r\n\r\n\u{1f600}");
    assert_eq!(r.path_param, "gr\u{fc}\u{df}e");
    assert_eq!(r.user_agent, "\u{65e5}\u{672c}");
    assert_eq!(r.data, "\u{1f600}");
}

#[test]
fn parsing_twice_gives_the_same_parts() {
    let text = "POST /files/a.txt HTTP/1.1\r\nUser-Agent: ua\r\nAccept-Encoding: br\r\nContent-Type: t\r\nContent-Length: 3\r\n\r\nabc";
    let a = parse(text);
    let b = parse(text);
    assert_eq!(a.method, b.method);
    assert_eq!(a.path, b.path);
    assert_eq!(a.path_param, b.path_param);
    assert_eq!(a.content_length, b.content_length);
    assert_eq!(a.content_type, b.content_type);
    assert_eq!(a.user_agent, b.user_agent);
    assert_eq!(a.data, b.data);
    assert_eq!(a.encoding, b.encoding);
    assert_eq!(a.path, "/files");
    assert_eq!(a.data, "abc");
}

#[test]
fn bytes_are_read_as_utf8() {
    let r = read_request("GET /echo/gr\u{fc}n HTTP/1.1\r\nUser-Agent: \u{65e5}\r\n\r\n".as_bytes());
    assert_eq!(r.method, Method::GET);
    assert_eq!(r.path, "/echo");
    assert_eq!(r.path_param, "gr\u{fc}n");
    assert_eq!(r.user_agent, "\u{65e5}");
}

#[test]
fn bytes_that_are_no_utf8_are_replaced() {
    let r = read_request(b"GET /echo/a\xffb HTTP/1.1\r\nUser-Agent: \xc3\x28\r\n\r\n\xe2\x82");
    assert_eq!(r.path_param, "a\u{fffd}b");
    assert_eq!(r.user_agent, "\u{fffd}(");
    assert_eq!(r.data, "\u{fffd}");
}

#[test]
fn buffer_with_zero_padding_is_read() {
    let mut buffer = [0u8; 2048];
    let text = b"POST /files/f HTTP/1.1\r\nContent-Length: 5\r\n\r\nhello";
    buffer[..text.len()].copy_from_slice(text);
    let r = read_request(&buffer);
    assert_eq!(r.method, Method::POST);
    assert_eq!(r.path_param, "f");
    assert_eq!(r.content_length, 5);
    assert_eq!(r.data.len(), 2048 - text.len() + 5);
    assert!(r.data.starts_with("hello\0"));
}

#[test]
fn reading_bytes_twice_gives_the_same_parts() {
    let buffer = b"GET /user-agent HTTP/1.1\r\nUser-Agent: \xf0\x9f\x98\r\nAccept-Encoding: br\r\n\r\n";
    let a = read_request(buffer);
    let b = read_request(buffer);
    assert_eq!(a.method, b.method);
    assert_eq!(a.path, b.path);
    assert_eq!(a.path_param, b.path_param);
    assert_eq!(a.content_length, b.content_length);
    assert_eq!(a.content_type, b.content_type);
    assert_eq!(a.user_agent, b.user_agent);
    assert_eq!(a.data, b.data);
    assert_eq!(a.encoding, b.encoding);
    assert_eq!(a.user_agent, "\u{fffd}");
    assert_eq!(a.encoding, "br");
}
