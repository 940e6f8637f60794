use mini_http::encoding::negotiate;
use mini_http::number::read_length;
use mini_http::request::{handle_stream, Method};
use mini_http::text::strip_all;

/// A small generator of numbers, the same on every run.
struct Numbers(u64);

impl Numbers {
    fn next(&mut self) -> usize {
        self.0 = self
            .0
            .wrapping_mul(6364136223846793005)
            .wrapping_add(1442695040888963407);
        (self.0 >> 33) as usize
    }

    fn text(&mut self, fragments: &[&str], most: usize) -> String {
        let count = self.next() % (most + 1);
        let mut text = String::new();
        for _ in 0..count {
            text.push_str(fragments[self.next() % fragments.len()]);
        }
        text
    }
}

const REQUEST_FRAGMENTS: [&str; 40] = [
    "GET /",
    "POST /",
    "GET",
    "Content-Type",
    "Content-Length",
    "User-Agent",
    "User-Agent: ",
    "Accept-Encoding: ",
    "Accept-Encoding:",
    ": ",
    ":",
    "gzip",
    "deflate",
    "br",
    "identity",
    "pack200-gzip",
    "zip",
    ",",
    ";q=0.5",
    " ",
    "  ",
    "\t",
    "\u{a0}",
    "\u{2003}",
    "\r\n",
    "\r\n",
    "\n",
    "\r",
    "/",
    "echo",
    "files",
    "user-agent",
    "HTTP/1.1",
    "0",
    "17",
    "+",
    "-",
    "18446744073709551615",
    "\u{e9}",
    "\0",
];

fn chars(s: &str) -> Vec<char> {
    s.chars().collect()
}

struct Parts {
    method: Method,
    path: String,
    path_param: String,
    content_length: usize,
    content_type: String,
    user_agent: String,
    data: String,
    encoding: String,
}

/// The rules of the parser, written with the standard library's own
/// functions on strings.
fn parts_by_std(text: &str) -> Parts {
    let known = [
        "gzip",
        "deflate",
        "compress",
        "br",
        "zstd",
        "exi",
        "identity",
        "pack200-gzip",
    ];
    let mut parts = Parts {
        method: Method::GET,
        path: String::from("/"),
        path_param: String::new(),
        content_length: 0,
        content_type: String::new(),
        user_agent: String::new(),
        data: String::new(),
        encoding: String::new(),
    };
    let mut lines = text.lines();
    while let Some(line) = lines.next() {
        let is_get = line.starts_with("GET /");
        if is_get || line.starts_with("POST /") {
            parts.method = if is_get { Method::GET } else { Method::POST };
            match line.split_whitespace().nth(1) {
                Some(target) => {
                    let mut pieces = target.split('/');
                    pieces.next();
                    parts.path = String::from("/") + pieces.next().unwrap_or("");
                    parts.path_param = String::from(pieces.next().unwrap_or(""));
                }
                None => {
                    parts.path = String::from("/");
                    parts.path_param = String::new();
                }
            }
        }
        if line.starts_with("Content-Type") {
            parts.content_type = String::from(line.split_whitespace().nth(1).unwrap_or(""));
        }
        if line.starts_with("Content-Length") {
            parts.content_length = match line.split_whitespace().nth(1) {
                Some(word) => word.parse::<usize>().unwrap_or(0),
                None => 0,
            };
        }
        if line.starts_with("User-Agent") {
            parts.user_agent = String::from(line.strip_prefix("User-Agent: ").unwrap_or(line));
        }
        if let Some(offer) = line.strip_prefix("Accept-Encoding: ") {
            let list = offer.replace(' ', "");
            parts.encoding = String::from(
                list.split(',')
                    .find(|token| known.contains(token))
                    .unwrap_or(""),
            );
        }
        if line.is_empty() {
            for rest in lines.by_ref() {
                parts.data += rest;
            }
            break;
        }
    }
    parts
}

#[test]
fn parser_agrees_with_the_rules_written_with_std() {
    let mut numbers = Numbers(1);
    for _ in 0..4000 {
        let text = numbers.text(&REQUEST_FRAGMENTS, 24);
        let expected = parts_by_std(&text);
        let got = handle_stream(text.clone());
        assert_eq!(got.method, expected.method, "{:?}", text);
        assert_eq!(got.path, expected.path, "{:?}", text);
        assert_eq!(got.path_param, expected.path_param, "{:?}", text);
        assert_eq!(got.content_length, expected.content_length, "{:?}", text);
        assert_eq!(got.content_type, expected.content_type, "{:?}", text);
        assert_eq!(got.user_agent, expected.user_agent, "{:?}", text);
        assert_eq!(got.data, expected.data, "{:?}", text);
        assert_eq!(got.encoding, expected.encoding, "{:?}", text);
    }
}

#[test]
fn second_word_agrees_with_split_whitespace() {
    let fragments = [
        "a", "bc", " ", "  ", "\t", "\r", "\u{b}", "\u{c}", "\u{85}", "\u{a0}", "\u{1680}",
        "\u{2000}", "\u{200a}", "\u{200b}", "\u{2028}", "\u{2029}", "\u{202f}", "\u{205f}",
        "\u{3000}", "\u{feff}", "\0", "/",
    ];
    let mut numbers = Numbers(2);
    for _ in 0..4000 {
        let line = format!("Content-Type{}", numbers.text(&fragments, 10));
        let expected = line.split_whitespace().nth(1).unwrap_or("");
        let got = handle_stream(format!("{}\n", line)).content_type;
        assert_eq!(got, expected, "{:?}", line);
    }
}

#[test]
fn pieces_agree_with_split() {
    let fragments = ["/", "/", "a", "bc", ",", "\u{e9}"];
    let mut numbers = Numbers(3);
    for _ in 0..4000 {
        let target = format!("/{}", numbers.text(&fragments, 9));
        let got = handle_stream(format!("GET {} HTTP/1.1\n", target));
        let mut pieces = target.split('/');
        pieces.next();
        assert_eq!(got.path, format!("/{}", pieces.next().unwrap_or("")), "{:?}", target);
        assert_eq!(got.path_param, pieces.next().unwrap_or(""), "{:?}", target);
    }
}

#[test]
fn lengths_agree_with_parse() {
    let fragments = [
        "0", "1", "9", "+", "-", " ", "a", "18446744073709551615", "1844674407370955161",
        "\u{663}", "",
    ];
    let mut numbers = Numbers(4);
    for _ in 0..4000 {
        let text = numbers.text(&fragments, 4);
        let expected = text.parse::<usize>().unwrap_or(0);
        assert_eq!(read_length(&chars(&text)), expected, "{:?}", text);
    }
}

#[test]
fn stripping_agrees_with_replace() {
    let fragments = [" ", "  ", "a", ",", "\t", "\u{a0}"];
    let mut numbers = Numbers(5);
    for _ in 0..2000 {
        let text = numbers.text(&fragments, 10);
        let got: String = strip_all(&chars(&text), ' ').iter().collect();
        assert_eq!(got, text.replace(' ', ""), "{:?}", text);
    }
}

#[test]
fn negotiation_agrees_with_find() {
    let known = [
        "gzip",
        "deflate",
        "compress",
        "br",
        "zstd",
        "exi",
        "identity",
        "pack200-gzip",
    ];
    let fragments = [
        "gzip", "deflate", "compress", "br", "zstd", "exi", "identity", "pack200-gzip", "pack200",
        "-", ",", ",", ",", " ", "x", ";q=1",
    ];
    let mut numbers = Numbers(6);
    for _ in 0..4000 {
        let text = numbers.text(&fragments, 8);
        let list = text.replace(' ', "");
        let expected = list
            .split(',')
            .find(|token| known.contains(token))
            .unwrap_or("");
        assert_eq!(negotiate(&chars(&text)), expected, "{:?}", text);
    }
}
