use archon::color::{dominant_color, is_greyish, most_vivid_color, signature_orange_color, Color};

#[test]
fn hex_roundtrip() {
    let c = Color::from_hex("#ff7a1a").unwrap();
    assert_eq!((c.r, c.g, c.b), (255, 122, 26));
    assert_eq!(c.to_hex(), "#ff7a1a");
    assert_eq!(Color::from_hex("ff7a1a"), Some(c));
}

#[test]
fn hex_with_alpha() {
    let c = Color::from_hex("#0c0c0f80").unwrap();
    assert_eq!(c.a, 0x80);
}

#[test]
fn bad_hex_rejected() {
    assert_eq!(Color::from_hex("nope"), None);
    assert_eq!(Color::from_hex("#fff"), None);
}

#[test]
fn hex_parsing_edge_cases() {
    assert_eq!(Color::from_hex("#FF7A1A"), Some(Color::rgb(255, 122, 26)));
    // Every pair must be two hex digits; a sign is not a digit.
    assert_eq!(Color::from_hex("+f+f+f"), None);
    assert_eq!(Color::from_hex("+fffff"), None);
    assert_eq!(Color::from_hex("##ff7a1a"), None);
    assert_eq!(Color::from_hex("#ff7a1g"), None);
    assert_eq!(Color::from_hex("#ééé"), None);
    assert_eq!(Color::from_hex(""), None);
    assert_eq!(Color::rgba(1, 2, 3, 4).to_hex(), "#010203");
    assert_eq!(Color::rgb(1, 2, 3).with_alpha(9), Color::rgba(1, 2, 3, 9));
    assert_eq!(signature_orange_color().to_hex(), "#ff7a1a");
}

#[test]
fn greyish_means_little_chroma() {
    assert!(is_greyish(Color::rgb(20, 20, 20)));
    assert!(is_greyish(Color::rgb(200, 190, 175)));
    assert!(!is_greyish(Color::rgb(200, 190, 174)));
    assert!(!is_greyish(Color::rgb(40, 120, 220)));
}

#[test]
fn most_vivid_picks_the_last_of_the_most_colorful() {
    let a = Color::rgb(20, 20, 20);
    let b = Color::rgb(250, 0, 0);
    let c = Color::rgb(0, 250, 0);
    assert_eq!(most_vivid_color(&vec![a, b, c]), c);
    assert_eq!(most_vivid_color(&vec![b, a]), b);
    assert_eq!(most_vivid_color(&vec![]), Color::rgb(18, 18, 22));
    assert_eq!(dominant_color(&vec![a, b]), a);
    assert_eq!(dominant_color(&vec![]), Color::rgb(18, 18, 22));
}
