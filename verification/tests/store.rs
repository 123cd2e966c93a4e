use server::store::{room_of_file, RoomStore};
use server::text;

#[test]
fn rooms_lie_below_the_data_directory() {
    let s = RoomStore::new("data");
    assert_eq!(s.root(), "data/rooms");
    assert_eq!(s.path_for(5), "data/rooms/5.json");
    assert_eq!(s.temporary_path_for(5), "data/rooms/5.json.tmp");
    assert_eq!(RoomStore::new("/srv/").path_for(12), "/srv/rooms/12.json");
    assert_eq!(RoomStore::new("").path_for(0), "rooms/0.json");
}

#[test]
fn file_names_lead_back_to_rooms() {
    assert_eq!(room_of_file("5.json"), Some(5));
    assert_eq!(room_of_file("4294967295.json"), Some(u32::MAX));
    assert_eq!(room_of_file("4294967296.json"), None);
    assert_eq!(room_of_file("5.json.tmp"), None);
    assert_eq!(room_of_file("x.json"), None);
    assert_eq!(room_of_file(".json"), None);
    assert_eq!(room_of_file("5"), None);
    assert_eq!(room_of_file("+5.json"), Some(5));
}

#[test]
fn listings_are_sorted() {
    let names: Vec<String> = ["12.json", "readme", "3.json", "3.json.tmp", "7.json"]
        .iter()
        .map(|s| s.to_string())
        .collect();
    assert_eq!(RoomStore::list(&names), vec![3, 7, 12]);
    assert!(RoomStore::list(&Vec::new()).is_empty());
}

#[test]
fn trimming_follows_unicode() {
    for s in [
        "",
        " a ",
        "\t\u{b}\u{85}\u{a0}x\u{2003}y\u{3000}",
        "\u{200b}z",
        "\u{feff}q ",
        "\u{1680}\u{2028}\u{2029}\u{202f}\u{205f}",
    ] {
        assert_eq!(text::trim(s), s.trim());
    }
}

#[test]
fn white_space_and_controls_are_the_unicode_ones() {
    for u in 0..=0x10ffffu32 {
        if let Some(c) = char::from_u32(u) {
            assert_eq!(text::is_white_space(c), c.is_whitespace());
            assert_eq!(text::is_control(c), c.is_control());
        }
    }
}

#[test]
fn texts_are_cut_by_characters() {
    assert_eq!(text::truncate("привет", 3), "при");
    assert_eq!(text::truncate("ab", 3), "ab");
    assert_eq!(text::truncate_chat("  hello  ", 2), "he");
    assert_eq!(text::byte_len("при"), 6);
}

#[test]
fn numbers_read_as_they_are_written() {
    for n in [0u64, 7, 10, 99, 100, 4_294_967_295, u64::MAX] {
        assert_eq!(text::write_decimal(n), n.to_string());
        assert_eq!(text::parse_number(&n.to_string(), u64::MAX), Some(n));
    }
    for s in ["", "+", "-1", "1 ", "1.0", "18446744073709551616", "++1", "0x1"] {
        assert_eq!(text::parse_number(s, u64::MAX), s.parse::<u64>().ok());
    }
    assert_eq!(text::parse_number("+007", u64::MAX), Some(7));
    assert_eq!(text::parse_number("256", 255), None);
    assert_eq!(text::parse_number("255", 255), Some(255));
}

#[test]
fn pieces_of_texts() {
    assert!(text::contains("hello", "ell"));
    assert!(text::contains("hello", ""));
    assert!(!text::contains("hello", "elo"));
    assert!(text::starts_with("hello", "he"));
    assert!(!text::starts_with("he", "hello"));
    assert_eq!(text::strip_prefix("abc", "a"), Some("bc".to_string()));
    assert_eq!(text::strip_suffix("abc", "bc"), Some("a".to_string()));
    assert_eq!(text::strip_suffix("abc", "b"), None);
    assert_eq!(text::split_at_each("a,,b", ','), vec!["a", "", "b"]);
    assert_eq!(text::split_at_each("", ','), vec![""]);
    assert_eq!(text::to_ascii_lowercase("AbÉ"), "abÉ");
    assert!(text::eq_ignore_ascii_case("aB", "Ab"));
    assert!(!text::eq_ignore_ascii_case("É", "é"));
    assert_eq!(text::normalized("  ПРИВЕТ É "), "привет é");
    assert_eq!(text::trim_end_slashes("a//"), "a");
}
