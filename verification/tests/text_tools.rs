use onvif_discovery::entity::{escape_chars, unescape_chars};
use onvif_discovery::text::{chars_of, is_space_char, same_text, split_whitespace};
use onvif_discovery::transport::listed_addresses;

fn escaped(s: &str) -> String {
    escape_chars(&chars_of(s)).into_iter().collect()
}

fn unescaped(s: &str) -> Option<String> {
    unescape_chars(&chars_of(s)).map(|v| v.into_iter().collect())
}

#[test]
fn splitting_yields_the_words_in_order() {
    assert_eq!(split_whitespace("a b"), vec!["a", "b"]);
    assert_eq!(split_whitespace("  a\t\tb\r\nc  "), vec!["a", "b", "c"]);
    assert_eq!(split_whitespace("one"), vec!["one"]);
    assert!(split_whitespace("").is_empty());
    assert!(split_whitespace(" \n\t ").is_empty());
}

#[test]
fn splitting_agrees_with_the_standard_library() {
    let samples = [
        "http://10.0.0.5/onvif/device_service http://[fe80::1]/onvif/device_service",
        "a\u{a0}b\u{2003}c\u{3000}d\u{85}e\u{1680}f\u{2028}g\u{2029}h\u{202f}i\u{205f}j",
        "\u{b}x\u{c}y",
        "no-break\u{feff}is-not-space\u{200b}either",
        "émile zola\u{2009}ça",
    ];
    for s in samples {
        let expected: Vec<String> = s.split_whitespace().map(|w| w.to_string()).collect();
        assert_eq!(split_whitespace(s), expected);
    }
}

#[test]
fn white_space_is_what_the_standard_library_calls_so() {
    let mut c = 0u32;
    while c < 0x3100 {
        if let Some(ch) = char::from_u32(c) {
            assert_eq!(is_space_char(ch), ch.is_whitespace());
        }
        c += 1;
    }
}

#[test]
fn texts_are_compared_by_their_characters() {
    assert!(same_text("abc", "abc"));
    assert!(same_text("", ""));
    assert!(!same_text("abc", "abd"));
    assert!(!same_text("abc", "ab"));
    assert!(!same_text("", "a"));
}

#[test]
fn texts_are_taken_by_characters_not_bytes() {
    let v = chars_of("héllo wörld");
    assert_eq!(v.len(), 11);
    assert_eq!(v[1], 'é');
    assert_eq!(split_whitespace("héllo wörld"), vec!["héllo", "wörld"]);
}

#[test]
fn markup_characters_are_written_as_entities() {
    assert_eq!(escaped("a<b>&c"), "a&lt;b&gt;&amp;c");
    assert_eq!(escaped("plain \"text\" 'here'"), "plain \"text\" 'here'");
    assert_eq!(escaped(""), "");
}

#[test]
fn entities_are_read_back() {
    assert_eq!(unescaped("a&lt;b&gt;&amp;c"), Some("a<b>&c".to_string()));
    assert_eq!(unescaped("&quot;x&apos;"), Some("\"x'".to_string()));
    assert_eq!(unescaped("&amp;lt;"), Some("&lt;".to_string()));
    assert_eq!(unescaped(""), Some(String::new()));
    assert_eq!(unescaped("&"), None);
    assert_eq!(unescaped("a &nbsp; b"), None);
    assert_eq!(unescaped("&#10;"), None);
    assert_eq!(unescaped("&lt"), None);
}

#[test]
fn reading_undoes_writing() {
    for s in ["", "x", "<<>>&&", "a&amp;b", "rtsp://h/s?a=1&b=<2>", "&lt;"] {
        assert_eq!(unescaped(&escaped(s)), Some(s.to_string()));
    }
}

#[test]
fn a_supplied_list_is_split_at_semicolons() {
    assert_eq!(listed_addresses("10.0.0.5;10.0.0.6"), vec!["10.0.0.5", "10.0.0.6"]);
    assert_eq!(listed_addresses(";;10.0.0.5;;;cam.local;"), vec!["10.0.0.5", "cam.local"]);
    assert_eq!(listed_addresses("single"), vec!["single"]);
    assert_eq!(listed_addresses(" a ; b"), vec![" a ", " b"]);
    assert!(listed_addresses("").is_empty());
    assert!(listed_addresses(";;;").is_empty());
}
