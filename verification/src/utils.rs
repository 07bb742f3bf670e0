//! Game codes: an address in letters.
//!
//! A game code spells each byte as two letters from `a` to `p`, the high
//! four bits first.

use vstd::prelude::*;
use crate::text::{string_push, to_chars};

verus! {

/// The letter for four bits: `a` for 0 up to `p` for 15.
pub open spec fn code_letter(nibble: int) -> char {
    (97 + nibble) as u8 as char
}

/// The game code of `bytes`: two letters for each byte, in order.
pub open spec fn game_code_of(bytes: Seq<u8>) -> Seq<char> {
    Seq::new(
        2 * bytes.len(),
        |i: int|
            if i % 2 == 0 {
                code_letter(bytes[i / 2] as int / 16)
            } else {
                code_letter(bytes[i / 2] as int % 16)
            },
    )
}

/// The game code of `bytes`.
pub fn make_game_code<const N: usize>(bytes: [u8; N]) -> (code: String)
    ensures
        code@ == game_code_of(bytes@),
{
    let mut code = String::new();
    let mut i: usize = 0;
    while i < N
        invariant
            i <= N,
            bytes@.len() == N,
            code@.len() == 2 * i,
            forall|k: int| 0 <= k < 2 * i ==> code@[k] == game_code_of(bytes@)[k],
        decreases N - i,
    {
        let b = bytes[i];
        assert(b >> 4 == b / 16 && b & 0xf == b % 16 && b >> 4 < 16 && b & 0xf < 16) by (bit_vector);
        let hi: u8 = (b >> 4) + 97;
        let lo: u8 = (b & 0xf) + 97;
        string_push(&mut code, hi as char);
        string_push(&mut code, lo as char);
        i += 1;
    }
    code
}

/// Why a text is no game code.
#[derive(Clone, Copy, Debug, PartialEq, Eq, Structural)]
pub enum GameCodeError {
    /// The text has an odd number of characters.
    OddLength,
    /// These two characters do not spell a byte.
    InvalidCharacters { high: char, low: char },
}

/// The character is one of the sixteen letters of a game code.
pub open spec fn is_code_letter(c: char) -> bool {
    'a' <= c <= 'p'
}

/// The four bits that a letter stands for.
pub open spec fn letter_value(c: char) -> int {
    c as u32 as int - 97
}

/// The two characters of the pair at `index` are letters of a game code.
pub open spec fn is_code_pair(code: Seq<char>, index: int) -> bool {
    is_code_letter(code[2 * index]) && is_code_letter(code[2 * index + 1])
}

/// The first pair from `from` on that does not spell a byte, if any.
pub open spec fn first_bad_pair(code: Seq<char>, from: int) -> Option<int>
    decreases code.len() / 2 - from,
{
    if from < 0 || from >= code.len() / 2 {
        None
    } else if !is_code_pair(code, from) {
        Some(from)
    } else {
        first_bad_pair(code, from + 1)
    }
}

/// The bytes that a game code spells, or why the text is none.
pub open spec fn parsed_of(code: Seq<char>) -> Result<Seq<u8>, GameCodeError> {
    if code.len() % 2 != 0 {
        Err(GameCodeError::OddLength)
    } else {
        match first_bad_pair(code, 0) {
            Some(index) => Err(
                GameCodeError::InvalidCharacters {
                    high: code[2 * index],
                    low: code[2 * index + 1],
                },
            ),
            None => Ok(
                Seq::new(
                    code.len() / 2,
                    |i: int| (16 * letter_value(code[2 * i]) + letter_value(code[2 * i + 1])) as u8,
                ),
            ),
        }
    }
}

/// The bytes that the game code `code` spells.
///
/// A text with an odd number of characters is no game code, nor is one in
/// which a pair holds a character that is not a letter from `a` to `p`;
/// the error shows the first such pair.
pub fn parse_gamecode(code: &str) -> (r: Result<Vec<u8>, GameCodeError>)
    ensures
        match parsed_of(code@) {
            Ok(bytes) => r matches Ok(v) && v@ == bytes,
            Err(error) => r == Err::<Vec<u8>, GameCodeError>(error),
        },
{
    let chars = to_chars(code);
    if chars.len() % 2 != 0 {
        return Err(GameCodeError::OddLength);
    }
    let pairs = chars.len() / 2;
    let mut bytes: Vec<u8> = Vec::new();
    let mut i: usize = 0;
    while i < pairs
        invariant
            i <= pairs,
            pairs == chars.len() / 2,
            chars.len() % 2 == 0,
            chars@ == code@,
            first_bad_pair(code@, 0) == first_bad_pair(code@, i as int),
            bytes.len() == i,
            forall|k: int|
                0 <= k < i ==> bytes[k] == (16 * letter_value(code@[2 * k]) + letter_value(
                    code@[2 * k + 1],
                )) as u8,
        decreases pairs - i,
    {
        let high = chars[2 * i];
        let low = chars[2 * i + 1];
        if !('a' <= high && high <= 'p' && 'a' <= low && low <= 'p') {
            return Err(GameCodeError::InvalidCharacters { high, low });
        }
        let h: u8 = (high as u32 - 97) as u8;
        let l: u8 = (low as u32 - 97) as u8;
        bytes.push(16 * h + l);
        i += 1;
    }
    Ok(bytes)
}

/// A game code spells the bytes it was made of, and the bytes of a game
/// code make that code again.
pub proof fn lemma_game_code_there_and_back(bytes: Seq<u8>)
    ensures
        parsed_of(game_code_of(bytes)) == Ok::<Seq<u8>, GameCodeError>(bytes),
{
    let code = game_code_of(bytes);
    lemma_no_bad_pair(code, bytes, 0);
    let spelled = Seq::new(
        code.len() / 2,
        |i: int| (16 * letter_value(code[2 * i]) + letter_value(code[2 * i + 1])) as u8,
    );
    assert(spelled =~= bytes) by {
        assert forall|i: int| 0 <= i < bytes.len() implies spelled[i] == bytes[i] by {
            lemma_letters_of_byte(bytes[i]);
        }
    }
}

/// A text that parses as a game code is the game code of its bytes.
pub proof fn lemma_parsed_bytes_make_the_code(code: Seq<char>)
    requires
        parsed_of(code) is Ok,
    ensures
        game_code_of(parsed_of(code)->Ok_0) == code,
{
    let bytes = parsed_of(code)->Ok_0;
    assert(game_code_of(bytes) =~= code) by {
        assert forall|i: int| 0 <= i < code.len() implies game_code_of(bytes)[i] == code[i] by {
            let k = i / 2;
            lemma_pair_is_good(code, 0, k);
            lemma_byte_of_letters(code[2 * k], code[2 * k + 1]);
        }
    }
}

proof fn lemma_letters_of_byte(b: u8)
    ensures
        is_code_letter(code_letter(b as int / 16)),
        is_code_letter(code_letter(b as int % 16)),
        letter_value(code_letter(b as int / 16)) == b as int / 16,
        letter_value(code_letter(b as int % 16)) == b as int % 16,
        16 * (b as int / 16) + b as int % 16 == b,
{
}

proof fn lemma_byte_of_letters(high: char, low: char)
    requires
        is_code_letter(high),
        is_code_letter(low),
    ensures
        ({
            let b = (16 * letter_value(high) + letter_value(low)) as u8;
            &&& code_letter(b as int / 16) == high
            &&& code_letter(b as int % 16) == low
        }),
{
}

proof fn lemma_no_bad_pair(code: Seq<char>, bytes: Seq<u8>, from: int)
    requires
        code == game_code_of(bytes),
        0 <= from,
    ensures
        first_bad_pair(code, from) is None,
    decreases code.len() / 2 - from,
{
    if from < code.len() / 2 {
        lemma_letters_of_byte(bytes[from]);
        lemma_no_bad_pair(code, bytes, from + 1);
    }
}

proof fn lemma_pair_is_good(code: Seq<char>, from: int, index: int)
    requires
        0 <= from <= index < code.len() / 2,
        first_bad_pair(code, from) is None,
    ensures
        is_code_pair(code, index),
    decreases index - from,
{
    if from < index {
        lemma_pair_is_good(code, from + 1, index);
    }
}

} // verus!
