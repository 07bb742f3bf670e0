use basalt_cli::utils::{make_game_code, parse_gamecode, GameCodeError};

#[test]
fn game_code_spells_each_byte_in_two_letters() {
    assert_eq!(make_game_code([0x00u8]), "aa");
    assert_eq!(make_game_code([0xffu8]), "pp");
    assert_eq!(make_game_code([0x1fu8, 0xa0u8]), "bpka");
}

#[test]
fn game_code_of_an_address_and_port() {
    // 192.168.1.20, port 9550 (0x254e)
    assert_eq!(make_game_code([192u8, 168, 1, 20, 0x25, 0x4e]), "makiabbecfeo");
}

#[test]
fn game_code_of_nothing_is_empty() {
    let none: [u8; 0] = [];
    assert_eq!(make_game_code(none), "");
}

#[test]
fn game_code_is_twice_as_long_as_the_bytes() {
    assert_eq!(make_game_code([7u8; 16]).len(), 32);
}

#[test]
fn a_game_code_spells_its_bytes() {
    assert_eq!(parse_gamecode("makiabbecfeo"), Ok(vec![192u8, 168, 1, 20, 0x25, 0x4e]));
    assert_eq!(parse_gamecode("aa"), Ok(vec![0u8]));
    assert_eq!(parse_gamecode("pp"), Ok(vec![255u8]));
    assert_eq!(parse_gamecode(""), Ok(vec![]));
}

#[test]
fn a_game_code_goes_there_and_back() {
    let bytes: [u8; 8] = [0, 1, 15, 16, 127, 128, 254, 255];
    assert_eq!(parse_gamecode(&make_game_code(bytes)), Ok(bytes.to_vec()));
    assert_eq!(make_game_code([0xabu8, 0xcd]), "klmn");
}

#[test]
fn a_text_of_odd_length_is_no_game_code() {
    assert_eq!(parse_gamecode("a"), Err(GameCodeError::OddLength));
    assert_eq!(parse_gamecode("abc"), Err(GameCodeError::OddLength));
    assert_eq!(parse_gamecode("qqq"), Err(GameCodeError::OddLength));
}

#[test]
fn a_character_that_is_no_letter_of_the_code_is_shown_with_its_pair() {
    assert_eq!(
        parse_gamecode("abqa"),
        Err(GameCodeError::InvalidCharacters { high: 'q', low: 'a' })
    );
    assert_eq!(
        parse_gamecode("aA"),
        Err(GameCodeError::InvalidCharacters { high: 'a', low: 'A' })
    );
    assert_eq!(
        parse_gamecode("a1zzab"),
        Err(GameCodeError::InvalidCharacters { high: 'a', low: '1' })
    );
    assert_eq!(
        parse_gamecode("ab\u{161}a"),
        Err(GameCodeError::InvalidCharacters { high: '\u{161}', low: 'a' })
    );
}
