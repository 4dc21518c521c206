use spotcast::command::{command_text, is_command, prepare_command};
use spotcast::encode::google_encode;

#[test]
fn command_prefix_after_white_space() {
    assert!(is_command(">ipconfig"));
    assert!(is_command("  \t>ipconfig"));
    assert!(!is_command("ipconfig"));
    assert!(!is_command(""));
    assert!(!is_command("a>b"));
}

#[test]
fn command_text_plain_command_is_trimmed() {
    assert_eq!(command_text(">ipconfig"), Some("ipconfig".to_string()));
    assert_eq!(command_text("  >  dir   /w  "), Some("dir   /w".to_string()));
}

#[test]
fn command_text_ping_keeps_host() {
    assert_eq!(command_text(">ping google.com"), Some("ping google.com".to_string()));
    assert_eq!(command_text(">ping https://google.com"), Some("ping google.com".to_string()));
    assert_eq!(
        command_text(">ping https://google.com/search?q=x"),
        Some("ping google.com".to_string())
    );
    assert_eq!(command_text(">PING http://example.org/a/b"), Some("ping example.org".to_string()));
    assert_eq!(command_text(">ping   localhost   extra"), Some("ping localhost".to_string()));
}

#[test]
fn command_text_rejects() {
    assert_eq!(command_text(">ping"), None);
    assert_eq!(command_text(">   "), None);
    assert_eq!(command_text(">"), None);
    assert_eq!(command_text("ping google.com"), None);
}

#[test]
fn command_text_pinger_is_not_ping() {
    assert_eq!(command_text(">pinger host"), Some("pinger host".to_string()));
}

#[test]
fn prepare_command_trims_or_fails() {
    assert_eq!(prepare_command("  dir  "), Ok("dir".to_string()));
    assert_eq!(prepare_command("   "), Err("Command cannot be empty".to_string()));
    assert_eq!(prepare_command(""), Err("Command cannot be empty".to_string()));
}

#[test]
fn google_encode_examples() {
    assert_eq!(google_encode("quantum potato"), "quantum+potato");
    assert_eq!(google_encode("a&b=c"), "a%26b%3Dc");
    assert_eq!(google_encode("-_.~AZaz09"), "-_.~AZaz09");
    assert_eq!(google_encode("é"), "%C3%A9");
    assert_eq!(google_encode(""), "");
    assert_eq!(google_encode("100%"), "100%25");
    assert_eq!(google_encode("a b&é"), "a+b%26%C3%A9");
}

#[test]
fn google_encode_output_shape() {
    for query in ["a b&é", "grüße aus köln", "~!@#$%^&*()", "\u{1F600} ok", "plain-text_1.0"] {
        let out = google_encode(query);
        let expected_len: usize = query
            .bytes()
            .map(|b| if b.is_ascii_alphanumeric() || b"-_.~ ".contains(&b) { 1 } else { 3 })
            .sum();
        assert_eq!(out.len(), expected_len);
        let chars: Vec<char> = out.chars().collect();
        for (i, c) in chars.iter().enumerate() {
            assert!(c.is_ascii_alphanumeric() || "-_.~+%".contains(*c));
            if *c == '%' {
                assert!(matches!(chars[i + 1], '0'..='9' | 'A'..='F'));
                assert!(matches!(chars[i + 2], '0'..='9' | 'A'..='F'));
            }
        }
    }
}

fn form_decode(s: &str) -> Vec<u8> {
    let chars: Vec<char> = s.chars().collect();
    let mut out = Vec::new();
    let mut i = 0;
    while i < chars.len() {
        if chars[i] == '%' && i + 2 < chars.len() {
            let hi = chars[i + 1].to_digit(16).unwrap() as u8;
            let lo = chars[i + 2].to_digit(16).unwrap() as u8;
            out.push(hi * 16 + lo);
            i += 3;
        } else if chars[i] == '+' {
            out.push(b' ');
            i += 1;
        } else {
            out.push(chars[i] as u8);
            i += 1;
        }
    }
    out
}

#[test]
fn google_encode_round_trip() {
    for query in ["quantum potato", "100% + 50 = 150?", "grüße aus köln", "a/b&c=d#e", ""] {
        assert_eq!(form_decode(&google_encode(query)), query.as_bytes());
    }
}

#[test]
fn unicode_white_space_is_trimmed() {
    assert_eq!(command_text("\u{3000}>\u{2003}dir\u{a0}"), Some("dir".to_string()));
    assert!(is_command("\u{2028}>x"));
    assert_eq!(command_text(">ping\u{2009}host"), Some("ping host".to_string()));
}
