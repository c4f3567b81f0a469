use ferriscraft::text::{
    check_connect_input, check_world_name, is_private_v4, name_taken, parse_decimal, parse_max_players,
    parse_port, parse_seed, protocol_id, saved_world_name, split_dots, ConnectError, SettingsError,
    WorldNameError,
};
use ferriscraft::text::{edit_text, shown_text, TextKey};
use ferriscraft::text::save_file_name;
use ferriscraft::text::{check_start_settings, click_text_box, count_chars, StartError};

#[test]
fn decimal_numbers() {
    assert_eq!(parse_decimal(b"42", 100), Some(42));
    assert_eq!(parse_decimal(b"+7", 100), Some(7));
    assert_eq!(parse_decimal(b"007", 100), Some(7));
    assert_eq!(parse_decimal(b"100", 100), Some(100));
    assert_eq!(parse_decimal(b"101", 100), None);
    assert_eq!(parse_decimal(b"", 100), None);
    assert_eq!(parse_decimal(b"+", 100), None);
    assert_eq!(parse_decimal(b"-1", 100), None);
    assert_eq!(parse_decimal(b"1a", 100), None);
    assert_eq!(parse_decimal(b" 1", 100), None);
    assert_eq!(parse_decimal(b"18446744073709551615", u64::MAX), Some(u64::MAX));
    assert_eq!(parse_decimal(b"18446744073709551616", u64::MAX), None);
}

#[test]
fn dot_separated_fields() {
    assert_eq!(split_dots(b"1..2"), vec![b"1".to_vec(), b"".to_vec(), b"2".to_vec()]);
    assert_eq!(split_dots(b""), vec![b"".to_vec()]);
    assert_eq!(split_dots(b"0.1.0"), vec![b"0".to_vec(), b"1".to_vec(), b"0".to_vec()]);
}

#[test]
fn protocol_ids() {
    assert_eq!(protocol_id(b"0.1.0"), Some(1000));
    assert_eq!(protocol_id(b"1.2.3"), Some(1002003));
    assert_eq!(protocol_id(b"1.2.3.4"), Some(1002003));
    assert_eq!(protocol_id(b"+1.0.0"), Some(1000000));
    assert_eq!(protocol_id(b"1.2"), None);
    assert_eq!(protocol_id(b"1.x.3"), None);
    assert_eq!(protocol_id(b"18446744073709.551.615"), Some(18446744073709551615));
    assert_eq!(protocol_id(b"18446744073709.551.616"), None);
    assert_eq!(protocol_id(b"18446744073710.0.0"), None);
}

#[test]
fn world_names() {
    assert_eq!(check_world_name(b"my world"), Ok(()));
    assert_eq!(check_world_name(b""), Err(WorldNameError::Empty));
    assert_eq!(check_world_name(b"a/b"), Err(WorldNameError::IllegalCharacters));
    assert_eq!(check_world_name(b"what?"), Err(WorldNameError::IllegalCharacters));
    assert_eq!(check_world_name(b"aaaaaaaaaaaaaaaaaaaa"), Ok(()));
    assert_eq!(check_world_name(b"aaaaaaaaaaaaaaaaaaaaa"), Err(WorldNameError::TooLong));
    assert_eq!(check_world_name(b"aaaaaaaaaaaaaaaaaaaa|a"), Err(WorldNameError::IllegalCharacters));
    assert_eq!(WorldNameError::Empty.message(), "Name cannot be empty");
    assert_eq!(WorldNameError::IllegalCharacters.message(), "Name contains illegal characters");
    assert_eq!(WorldNameError::TooLong.message(), "Name is too long");
}

#[test]
fn seeds() {
    assert_eq!(parse_seed(b""), Ok(None));
    assert_eq!(parse_seed(b"123"), Ok(Some(123)));
    assert_eq!(parse_seed(b"4294967295"), Ok(Some(u32::MAX)));
    assert_eq!(parse_seed(b"4294967296"), Err(()));
    assert_eq!(parse_seed(b"abc"), Err(()));
}

#[test]
fn connect_form() {
    assert_eq!(check_connect_input(b"", b""), Err(ConnectError::EmptyName));
    assert_eq!(check_connect_input(b"aaaaaaaaaaaaaaaaa", b"1.2.3.4:5"), Err(ConnectError::NameTooLong));
    assert_eq!(check_connect_input(b"aaaaaaaaaaaaaaaa", b"1.2.3.4:5"), Ok(()));
    assert_eq!(check_connect_input(b"bob", b""), Err(ConnectError::EmptyAddress));
    assert_eq!(ConnectError::EmptyName.message(), "Player name cannot be empty");
    assert_eq!(ConnectError::NameTooLong.message(), "Player name cannot be longer than 16 characters");
    assert_eq!(ConnectError::EmptyAddress.message(), "IP address cannot be empty");
}

#[test]
fn save_file_names() {
    assert_eq!(saved_world_name(b"world.ferris"), Some(b"world".to_vec()));
    assert_eq!(saved_world_name(b"a.ferris.ferris"), Some(b"a".to_vec()));
    assert_eq!(saved_world_name(b"a.ferrisb.ferris"), Some(b"ab".to_vec()));
    assert_eq!(saved_world_name(b".ferris"), Some(Vec::new()));
    assert_eq!(saved_world_name(b"world.txt"), None);
    assert_eq!(saved_world_name(b"ferris"), None);
    assert_eq!(saved_world_name(b"world.ferris.bak"), None);
}

#[test]
fn private_addresses() {
    assert!(is_private_v4([10, 0, 0, 1]));
    assert!(is_private_v4([172, 16, 0, 1]));
    assert!(is_private_v4([172, 31, 255, 255]));
    assert!(!is_private_v4([172, 32, 0, 1]));
    assert!(!is_private_v4([172, 15, 0, 1]));
    assert!(is_private_v4([192, 168, 1, 1]));
    assert!(!is_private_v4([192, 169, 1, 1]));
    assert!(!is_private_v4([8, 8, 8, 8]));
}

#[test]
fn taken_names() {
    let names = vec![b"bob".to_vec(), b"alice".to_vec()];
    assert!(name_taken(&names, b"bob"));
    assert!(name_taken(&names, b"alice"));
    assert!(!name_taken(&names, b"bo"));
    assert!(!name_taken(&names, b"bobby"));
    assert!(!name_taken(&vec![], b""));
}

#[test]
fn server_settings() {
    assert_eq!(parse_port(b"42069"), Ok(42069));
    assert_eq!(parse_port(b"65535"), Ok(65535));
    assert_eq!(parse_port(b"65536"), Err(SettingsError::InvalidPort));
    assert_eq!(parse_port(b"port"), Err(SettingsError::InvalidPort));
    assert_eq!(parse_max_players(b"8"), Ok(8));
    assert_eq!(parse_max_players(b"1024"), Ok(1024));
    assert_eq!(parse_max_players(b"1025"), Err(SettingsError::MaxPlayersTooHigh));
    assert_eq!(parse_max_players(b"99999999999999999999999"), Err(SettingsError::InvalidMaxPlayers));
    assert_eq!(parse_max_players(b"x"), Err(SettingsError::InvalidMaxPlayers));
}

#[test]
fn text_boxes() {
    let mut content: Vec<char> = Vec::new();
    edit_text(&mut content, &TextKey::Typed(vec!['h', 'i']));
    edit_text(&mut content, &TextKey::Typed(vec!['!']));
    assert_eq!(content, vec!['h', 'i', '!']);
    edit_text(&mut content, &TextKey::Backspace);
    assert_eq!(content, vec!['h', 'i']);
    edit_text(&mut content, &TextKey::Other);
    assert_eq!(content, vec!['h', 'i']);
    assert_eq!(shown_text(&content), vec!['h', 'i', '|']);
    let mut empty: Vec<char> = Vec::new();
    edit_text(&mut empty, &TextKey::Backspace);
    assert!(empty.is_empty());
    assert_eq!(shown_text(&empty), vec!['|']);
}

#[test]
fn save_files_list_their_worlds_again() {
    assert_eq!(save_file_name(b"world"), b"world.ferris".to_vec());
    for name in [&b"world"[..], b"my world", b"a", b"", b"ferris", b"x.ferri"] {
        assert_eq!(saved_world_name(&save_file_name(name)), Some(name.to_vec()));
    }
    // a name that holds the extension itself loses it
    assert_eq!(saved_world_name(&save_file_name(b"x.ferris")), Some(b"x".to_vec()));
}

#[test]
fn settings_messages() {
    assert_eq!(SettingsError::InvalidPort.message(), "Invalid port");
    assert_eq!(SettingsError::InvalidMaxPlayers.message(), "Invalid max players");
    assert_eq!(SettingsError::MaxPlayersTooHigh.message(), "Max players too high");
}

#[test]
fn player_names_count_characters() {
    assert_eq!(count_chars("abc".as_bytes()), 3);
    assert_eq!(count_chars("\u{e9}\u{20ac}\u{1f600}".as_bytes()), 3);
    assert_eq!(count_chars(b""), 0);
    // nine two-byte characters: 18 bytes, 9 characters
    let nine: &str = &"\u{e9}".repeat(9);
    assert_eq!(nine.len(), 18);
    assert_eq!(check_connect_input(nine.as_bytes(), b"127.0.0.1"), Ok(()));
    let sixteen: &str = &"\u{e9}".repeat(16);
    assert_eq!(check_connect_input(sixteen.as_bytes(), b"127.0.0.1"), Ok(()));
    let seventeen: &str = &"\u{e9}".repeat(17);
    assert_eq!(check_connect_input(seventeen.as_bytes(), b"127.0.0.1"), Err(ConnectError::NameTooLong));
}

#[test]
fn server_start_settings() {
    let lan = Some([192, 168, 1, 2]);
    assert_eq!(check_start_settings(b"42069", lan, None, b"64"), Ok((42069, [192, 168, 1, 2], 64)));
    assert_eq!(
        check_start_settings(b"42069", lan, Some(Some([8, 8, 4, 4])), b"64"),
        Ok((42069, [8, 8, 4, 4], 64))
    );
    assert_eq!(check_start_settings(b"x", None, Some(None), b"x"), Err(StartError::InvalidPort));
    assert_eq!(check_start_settings(b"1", None, Some(None), b"x"), Err(StartError::InvalidPrivateIp));
    assert_eq!(check_start_settings(b"1", lan, Some(None), b"x"), Err(StartError::InvalidPublicIp));
    assert_eq!(check_start_settings(b"1", lan, None, b"x"), Err(StartError::InvalidMaxPlayers));
    assert_eq!(check_start_settings(b"1", lan, None, b"2000"), Err(StartError::MaxPlayersTooHigh));
    assert_eq!(StartError::InvalidPrivateIp.message(), "Invalid private IP");
    assert_eq!(StartError::InvalidPublicIp.message(), "Invalid public IP");
    assert_eq!(StartError::InvalidPort.message(), "Invalid port");
    assert_eq!(StartError::InvalidMaxPlayers.message(), "Invalid max players");
    assert_eq!(StartError::MaxPlayersTooHigh.message(), "Max players too high");
}

#[test]
fn text_box_focus() {
    let placeholder: Vec<char> = "Seed".chars().collect();
    let mut shown = placeholder.clone();
    // clicking an empty box clears the placeholder and shows the bar
    assert!(click_text_box(&mut shown, false, &placeholder, true));
    assert_eq!(shown, vec!['|']);
    // clicking it again changes nothing
    assert!(click_text_box(&mut shown, true, &placeholder, true));
    assert_eq!(shown, vec!['|']);
    // a click elsewhere brings the placeholder back
    assert!(!click_text_box(&mut shown, true, &placeholder, false));
    assert_eq!(shown, placeholder);
    // a box with text keeps it, without the bar
    let mut shown: Vec<char> = "42|".chars().collect();
    assert!(!click_text_box(&mut shown, true, &placeholder, false));
    assert_eq!(shown, vec!['4', '2']);
    assert!(click_text_box(&mut shown, false, &placeholder, true));
    assert_eq!(shown, vec!['4', '2', '|']);
}
