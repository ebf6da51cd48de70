use mini_http_test::addr::SocketAddr;
use mini_http_test::server::{Listen, Server};
use mini_http_test::uri::try_url;

fn addr() -> SocketAddr {
    SocketAddr { octets: [127, 0, 0, 1], port: 8080 }
}

fn text(target: &str) -> Option<String> {
    try_url(&addr(), target).map(|url| {
        assert_eq!(url.uri.to_string(), url.text);
        url.text
    })
}

#[test]
fn url_of_the_root() {
    let (server, _close_rx) = Server::new(Listen::Bound(addr())).expect("create server");
    let url = server.url("/");
    assert_eq!(url.text, "http://127.0.0.1:8080/");
    assert_eq!(url.uri.to_string(), "http://127.0.0.1:8080/");
    assert_eq!(url.uri.scheme_str(), Some("http"));
    assert_eq!(url.uri.host(), Some("127.0.0.1"));
    assert_eq!(url.uri.port_u16(), Some(8080));
    assert_eq!(url.uri.path(), "/");
    assert_eq!(url.uri.query(), None);
    assert!(server.try_url("/ ").is_none());
}

#[test]
fn url_of_a_path_and_query() {
    assert_eq!(text("/a/b?c=d&e"), Some("http://127.0.0.1:8080/a/b?c=d&e".to_string()));
    assert_eq!(text("/a?b?c"), Some("http://127.0.0.1:8080/a?b?c".to_string()));
}

#[test]
fn an_empty_path_is_shown_as_a_slash() {
    assert_eq!(text(""), Some("http://127.0.0.1:8080/".to_string()));
    assert_eq!(text("?a=b"), Some("http://127.0.0.1:8080/?a=b".to_string()));
    assert_eq!(text("#part"), Some("http://127.0.0.1:8080/".to_string()));
}

#[test]
fn a_path_without_slash_is_not_given_one() {
    assert_eq!(text("a"), Some("http://127.0.0.1:8080a".to_string()));
}

#[test]
fn a_fragment_is_dropped() {
    assert_eq!(text("/a#b c\u{e9}"), Some("http://127.0.0.1:8080/a".to_string()));
    assert_eq!(text("/a?b#c?d"), Some("http://127.0.0.1:8080/a?b".to_string()));
}

#[test]
fn characters_of_a_path() {
    for code in 0u8..=0x7f {
        let c = code as char;
        let allowed = ('!'..='~').contains(&c) && !"<>`".contains(c);
        assert_eq!(text(&format!("/a{}b", c)).is_some(), allowed, "{:?}", c);
    }
    assert_eq!(text("/caf\u{e9}"), None);
}

#[test]
fn characters_of_a_query() {
    for code in 0u8..=0x7f {
        let c = code as char;
        let allowed = ('!'..='~').contains(&c) && !"\"<>".contains(c);
        assert_eq!(text(&format!("/a?b{}c", c)).is_some(), allowed, "{:?}", c);
    }
    assert_eq!(text("/?caf\u{e9}"), None);
}

#[test]
fn a_long_path_is_shown_whole() {
    let path = format!("/{}", "x".repeat(0x1_0000));
    assert_eq!(text(&path), Some(format!("http://127.0.0.1:8080{}", path)));
    for len in [0xfffd, 0xfffe] {
        let target = format!("/{}?q", "x".repeat(len));
        assert_eq!(text(&target), Some(format!("http://127.0.0.1:8080{}", target)));
    }
}

#[test]
fn a_question_mark_behind_a_very_long_path_moves() {
    let root = "http://127.0.0.1:8080";

    let target = format!("/{}?q", "x".repeat(0xffff));
    let moved = format!("/?{}?q", "x".repeat(0xffff));
    assert_eq!(text(&target), Some(format!("{}{}", root, moved)));

    let target = format!("/{}?q", "x".repeat(0x1_0004));
    let moved = format!("/xxxx?{}?q", "x".repeat(0xffff));
    assert_eq!(text(&target), Some(format!("{}{}", root, moved)));

    let target = format!("/{}?q", "x".repeat(0x1_fffe));
    assert_eq!(text(&target), Some(format!("{}{}", root, target)));
}

#[test]
fn a_missed_question_mark_hides_what_follows() {
    let root = "http://127.0.0.1:8080";
    for path in ["a".repeat(0xffff), "a".repeat(0x1_ffff)] {
        for rest in ["? ", "?x#f", "?<\"\u{e9}#"] {
            let target = format!("{}{}", path, rest);
            assert_eq!(text(&target), Some(format!("{}{}", root, target)));
        }
        // The path itself is checked, and a fragment right behind it is dropped.
        assert_eq!(text(&format!(" {}?x", &path[1..])), None);
        assert_eq!(text(&format!("{}#?x", path)), Some(format!("{}{}", root, path)));
    }
    // One character less or more, and the query is checked again.
    for len in [0xfffe, 0x1_0000] {
        assert_eq!(text(&format!("{}? ", "a".repeat(len))), None);
    }
}

#[test]
fn addresses_are_written_in_decimal() {
    assert_eq!(addr().to_text(), "127.0.0.1:8080");
    assert_eq!(SocketAddr { octets: [0, 10, 100, 255], port: 0 }.to_text(), "0.10.100.255:0");
    assert_eq!(SocketAddr { octets: [9, 99, 200, 1], port: 65535 }.to_text(), "9.99.200.1:65535");
}

#[test]
fn addresses_that_differ_are_written_differently() {
    let first = SocketAddr { octets: [1, 11, 1, 1], port: 11 };
    let second = SocketAddr { octets: [11, 1, 1, 1], port: 11 };
    let third = SocketAddr { octets: [1, 11, 1, 1], port: 1 };
    assert_ne!(first.to_text(), second.to_text());
    assert_ne!(first.to_text(), third.to_text());
    assert_ne!(second.to_text(), third.to_text());
}

#[test]
fn the_wanted_address_is_loopback() {
    assert_eq!(SocketAddr::loopback(), SocketAddr { octets: [127, 0, 0, 1], port: 0 });
}
