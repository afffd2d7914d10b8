use music_presence::art_queries;
use music_presence::clean_field;
use music_presence::interpret_art_response;
use music_presence::micros_to_secs;
use music_presence::parse_u64;
use music_presence::upgrade_artwork_url;

#[test]
fn parse_plain_numbers() {
    assert_eq!(parse_u64("0"), Some(0));
    assert_eq!(parse_u64("42"), Some(42));
    assert_eq!(parse_u64("007"), Some(7));
    assert_eq!(parse_u64("184000000"), Some(184000000));
    assert_eq!(parse_u64("18446744073709551615"), Some(u64::MAX));
}

#[test]
fn parse_accepts_leading_plus() {
    assert_eq!(parse_u64("+7"), Some(7));
    assert_eq!(parse_u64("+0"), Some(0));
}

#[test]
fn parse_rejects_everything_else() {
    assert_eq!(parse_u64(""), None);
    assert_eq!(parse_u64("+"), None);
    assert_eq!(parse_u64("12a"), None);
    assert_eq!(parse_u64(" 12"), None);
    assert_eq!(parse_u64("12 "), None);
    assert_eq!(parse_u64("-3"), None);
    assert_eq!(parse_u64("3.5"), None);
    assert_eq!(parse_u64("++1"), None);
    assert_eq!(parse_u64("18446744073709551616"), None);
    assert_eq!(parse_u64("99999999999999999999999"), None);
}

#[test]
fn parse_agrees_with_std() {
    for s in ["0", "42", "+7", "", "+", "12a", "18446744073709551615", "18446744073709551616"] {
        assert_eq!(parse_u64(s), s.parse::<u64>().ok(), "on {:?}", s);
    }
}

#[test]
fn length_conversion_truncates() {
    assert_eq!(micros_to_secs(184000000), 184);
    assert_eq!(micros_to_secs(1999999), 1);
    assert_eq!(micros_to_secs(999999), 0);
    assert_eq!(micros_to_secs(0), 0);
}

#[test]
fn empty_readings_are_absent() {
    assert_eq!(clean_field(String::new()), None);
    assert_eq!(clean_field("Air".to_string()), Some("Air".to_string()));
}

#[test]
fn artwork_url_upgrade() {
    assert_eq!(
        upgrade_artwork_url("https://is1.mzstatic.com/image/thumb/x/100x100bb.jpg"),
        "https://is1.mzstatic.com/image/thumb/x/600x600bb.jpg"
    );
    assert_eq!(upgrade_artwork_url("100x100100x100"), "600x600600x600");
    assert_eq!(upgrade_artwork_url("no match here"), "no match here");
    assert_eq!(upgrade_artwork_url(""), "");
    assert_eq!(upgrade_artwork_url("100x10"), "100x10");
}

#[test]
fn artwork_url_upgrade_agrees_with_std_replace() {
    for s in [
        "https://a/100x100bb.jpg",
        "100x100x100",
        "1100x100",
        "plain",
        "100x100100x100100x100",
    ] {
        assert_eq!(upgrade_artwork_url(s), s.replace("100x100", "600x600"), "on {:?}", s);
    }
}

#[test]
fn response_interpretation() {
    assert_eq!(interpret_art_response(0, Some("https://a/100x100bb.jpg".to_string())), None);
    assert_eq!(interpret_art_response(1, None), None);
    assert_eq!(interpret_art_response(-2, None), None);
    assert_eq!(
        interpret_art_response(1, Some("https://a/100x100bb.jpg".to_string())),
        Some("https://a/600x600bb.jpg".to_string())
    );
}

#[test]
fn queries_are_ordered_and_percent_encoded() {
    let qs = art_queries(&"Massive Attack".to_string(), &"Mezzanine".to_string());
    assert_eq!(qs.len(), 3);
    assert_eq!(
        qs[0],
        "https://itunes.apple.com/search?term=Massive%20Attack Mezzanine&entity=album&limit=1"
    );
    assert_eq!(qs[1], "https://itunes.apple.com/search?term=Massive%20Attack&entity=album&limit=1");
    assert_eq!(qs[2], "https://itunes.apple.com/search?term=Mezzanine&entity=album&limit=1");
}

#[test]
fn queries_encode_reserved_characters() {
    let qs = art_queries(&"AC/DC".to_string(), &"Back in Black".to_string());
    assert_eq!(qs[1], "https://itunes.apple.com/search?term=AC%2FDC&entity=album&limit=1");
}
