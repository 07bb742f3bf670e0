//! The 512-byte header block of an archive entry.
//!
//! The blocks are made by `tokio_tar::Header`. Verus does not read that
//! crate: what each of its calls does to a block is stated here and trusted.
//! Everything else about headers is proved from these statements.

use vstd::prelude::*;
use vstd::utf8::encode_utf8;

verus! {

/// `tokio_tar::Header`: a header block. Nothing of it is known here but
/// the bytes it holds, by the name `header_block`.
#[verifier::external_type_specification]
#[verifier::external_body]
pub struct ExHeader(tokio_tar::Header);

/// `std::io::Error`: the error of a refused path. It is only carried to
/// where its text is taken.
#[verifier::external_type_specification]
#[verifier::external_body]
pub struct ExIoError(std::io::Error);

/// Length of a header block, and the unit that entry data is padded to.
pub const BLOCK_SIZE: usize = 512;

/// Length of the name field at the start of a block.
pub const NAME_SIZE: usize = 100;

/// The bytes of a header, as `tokio_tar::Header::as_bytes` gives them.
pub uninterp spec fn header_block(h: tokio_tar::Header) -> Seq<u8>;

/// The bytes that `tokio_tar::Header::set_path` stores in the name field of a
/// GNU header for `path`, in the path syntax of the platform the library is
/// built for; `None` where it refuses the path.
pub uninterp spec fn tar_name_field(path: Seq<char>) -> Option<Seq<u8>>;

/// `n` zero bytes.
pub open spec fn zeros(n: nat) -> Seq<u8> {
    Seq::new(n, |i: int| 0u8)
}

/// `block` with `bytes` written over it from offset `at` on.
pub open spec fn with_field(block: Seq<u8>, at: int, bytes: Seq<u8>) -> Seq<u8> {
    block.subrange(0, at) + bytes + block.subrange(at + bytes.len(), block.len() as int)
}

/// 8 to the power `e`.
pub open spec fn pow8(e: nat) -> nat
    decreases e,
{
    if e == 0 {
        1
    } else {
        8 * pow8((e - 1) as nat)
    }
}

/// 256 to the power `e`.
pub open spec fn pow256(e: nat) -> nat
    decreases e,
{
    if e == 0 {
        1
    } else {
        256 * pow256((e - 1) as nat)
    }
}

/// The lowest `digits` octal digits of `value` in ASCII, most significant
/// first, with leading zeros.
pub open spec fn octal_digits(value: nat, digits: nat) -> Seq<u8> {
    Seq::new(digits, |i: int| (48 + (value / pow8((digits - 1 - i) as nat)) % 8) as u8)
}

/// The eight bytes of `value`, most significant first.
pub open spec fn big_endian(value: u64) -> Seq<u8> {
    Seq::new(8, |i: int| ((value as nat / pow256((7 - i) as nat)) % 256) as u8)
}

/// Sizes from this one on do not fit eleven octal digits.
pub const BINARY_SIZE_FROM: u64 = 8_589_934_592;

/// What is written at the size field for `size`: eleven octal digits, or,
/// for a size they cannot hold, the marker byte `0x80`, three zero bytes and
/// the size in binary.
pub open spec fn size_field(size: u64) -> Seq<u8> {
    if size < BINARY_SIZE_FROM {
        octal_digits(size as nat, 11)
    } else {
        seq![0x80u8, 0u8, 0u8, 0u8] + big_endian(size)
    }
}

/// What is written at the name field for the stored name `name`: the name,
/// and a zero byte after it where the field has room for one.
pub open spec fn name_field(name: Seq<u8>) -> Seq<u8> {
    if name.len() < NAME_SIZE {
        name.push(0u8)
    } else {
        name
    }
}

/// The sum of the bytes of `bytes`.
pub open spec fn byte_sum(bytes: Seq<u8>) -> nat
    decreases bytes.len(),
{
    if bytes.len() == 0 {
        0
    } else {
        byte_sum(bytes.drop_last()) + bytes.last() as nat
    }
}

/// The checksum of a block: the sum of its bytes, the checksum field itself
/// counted as eight spaces.
pub open spec fn checksum(block: Seq<u8>) -> nat {
    byte_sum(with_field(block, 148, Seq::new(8, |i: int| 32u8)))
}

/// The magic and version bytes of a GNU header.
pub open spec fn gnu_magic() -> Seq<u8> {
    seq![117u8, 115u8, 116u8, 97u8, 114u8, 32u8, 32u8, 0u8]
}

/// A GNU header with nothing set: zeros, but for the magic and a
/// modification time of zero.
pub open spec fn blank_gnu_block() -> Seq<u8> {
    with_field(with_field(zeros(BLOCK_SIZE as nat), 257, gnu_magic()), 136, octal_digits(0, 11))
}

/// The block is a GNU header: 512 bytes with the GNU magic.
pub open spec fn is_gnu_block(block: Seq<u8>) -> bool {
    block.len() == BLOCK_SIZE && block.subrange(257, 265) == gnu_magic()
}

/// A stored name fits the name field, has no zero byte, and does not start
/// with a slash: it is the name of a relative path.
pub open spec fn is_stored_name(name: Seq<u8>) -> bool {
    &&& 0 < name.len() <= NAME_SIZE
    &&& forall|i: int| 0 <= i < name.len() ==> name[i] != 0
    &&& name[0] != 47
}

/// A character that means the same in every path syntax: an ASCII letter, a
/// digit, `.`, `_` or `-`.
pub open spec fn is_plain_char(c: char) -> bool {
    ('a' <= c <= 'z') || ('A' <= c <= 'Z') || ('0' <= c <= '9') || c == '.' || c == '_' || c
        == '-'
}

/// A file name of plain characters that fits the name field and is neither
/// `.` nor `..`.
pub open spec fn is_plain_name(path: Seq<char>) -> bool {
    &&& 0 < path.len() <= NAME_SIZE
    &&& forall|i: int| 0 <= i < path.len() ==> is_plain_char(#[trigger] path[i])
    &&& path != seq!['.']
    &&& path != seq!['.', '.']
}

/// A part of the path that is `.` or `..` starts at `at`.
pub open spec fn dots_start_at(path: Seq<char>, at: int) -> bool {
    &&& at == 0 || path[at - 1] == '/'
    &&& path[at] == '.'
    &&& (at + 1 == path.len() || path[at + 1] == '/' || (path[at + 1] == '.' && (at + 2
        == path.len() || path[at + 2] == '/')))
}

/// A relative path that every path syntax reads alike: parts of plain
/// characters with one slash between each two, none of them `.` or `..`,
/// the whole no longer than the name field.
pub open spec fn is_plain_path(path: Seq<char>) -> bool {
    &&& 0 < path.len() <= NAME_SIZE
    &&& forall|i: int|
        0 <= i < path.len() ==> is_plain_char(#[trigger] path[i]) || path[i] == '/'
    &&& path.first() != '/'
    &&& path.last() != '/'
    &&& forall|i: int| 0 <= i < path.len() - 1 ==> !(path[i] == '/' && #[trigger] path[i + 1] == '/')
    &&& forall|i: int| 0 <= i < path.len() ==> !#[trigger] dots_start_at(path, i)
}

/// The header block of an entry stored under `name`, of `size` bytes, with
/// the permission bits `mode`: a blank GNU header with name, size, mode and
/// then the checksum written into it.
pub open spec fn gnu_header_block(name: Seq<u8>, size: u64, mode: u32) -> Seq<u8> {
    let named = with_field(blank_gnu_block(), 0, name_field(name));
    let sized = with_field(named, 124, size_field(size));
    let moded = with_field(sized, 100, octal_digits(mode as nat, 7));
    with_field(moded, 148, octal_digits(checksum(moded), 7))
}

/// `tokio_tar::Header::new_gnu`: a zeroed block with the GNU magic and
/// version, and an all-zero modification time in octal.
#[verifier::external_body]
pub(crate) fn header_new_gnu() -> (h: tokio_tar::Header)
    ensures
        header_block(h) == blank_gnu_block(),
{
    tokio_tar::Header::new_gnu()
}

/// `tokio_tar::Header::set_path` on a GNU header. It succeeds exactly on the
/// paths that have a name field, and then writes that name, with a zero byte
/// after it if there is room, at the start of the block. A stored name is 1
/// to 100 bytes long, holds no zero byte and does not start with a slash
/// (a path with a root is refused), and a plain path is stored as its own
/// bytes. After a failure nothing is said of the block.
#[verifier::external_body]
pub(crate) fn header_set_path(h: &mut tokio_tar::Header, path: &str) -> (r: Result<(), std::io::Error>)
    requires
        is_gnu_block(header_block(*old(h))),
    ensures
        r is Ok <==> tar_name_field(path@) is Some,
        r is Ok ==> is_stored_name(tar_name_field(path@).unwrap()) && header_block(*final(h))
            == with_field(header_block(*old(h)), 0, name_field(tar_name_field(path@).unwrap())),
        is_plain_path(path@) ==> r is Ok,
        r is Ok ==> (is_plain_path(path@) ==> tar_name_field(path@) == Some(encode_utf8(path@))),
{
    h.set_path(path)
}

/// `tokio_tar::Header::set_size`: writes the size field at offset 124.
#[verifier::external_body]
pub(crate) fn header_set_size(h: &mut tokio_tar::Header, size: u64)
    ensures
        header_block(*final(h)) == with_field(header_block(*old(h)), 124, size_field(size)),
{
    h.set_size(size)
}

/// `tokio_tar::Header::set_mode`: writes the seven lowest octal digits of
/// `mode` at offset 100.
#[verifier::external_body]
pub(crate) fn header_set_mode(h: &mut tokio_tar::Header, mode: u32)
    ensures
        header_block(*final(h)) == with_field(
            header_block(*old(h)),
            100,
            octal_digits(mode as nat, 7),
        ),
{
    h.set_mode(mode)
}

/// `tokio_tar::Header::set_cksum`: writes the checksum of the block as it
/// stands, in seven octal digits, at offset 148.
#[verifier::external_body]
pub(crate) fn header_set_cksum(h: &mut tokio_tar::Header)
    ensures
        header_block(*final(h)) == with_field(
            header_block(*old(h)),
            148,
            octal_digits(checksum(header_block(*old(h))), 7),
        ),
{
    h.set_cksum()
}

/// `tokio_tar::Header::as_bytes`: the block, copied out.
#[verifier::external_body]
pub(crate) fn header_bytes(h: &tokio_tar::Header) -> (bytes: Vec<u8>)
    ensures
        bytes@ == header_block(*h),
{
    h.as_bytes().to_vec()
}

/// The text of an I/O error, as its `Display` gives it.
#[verifier::external_body]
pub(crate) fn io_error_text(e: &std::io::Error) -> (text: String) {
    e.to_string()
}

/// The number that ASCII octal digits spell, most significant first.
pub open spec fn octal_value(digits: Seq<u8>) -> nat
    decreases digits.len(),
{
    if digits.len() == 0 {
        0
    } else {
        (8 * octal_value(digits.drop_last()) + (digits.last() - 48)) as nat
    }
}

/// The number that bytes spell in binary, most significant first.
pub open spec fn binary_value(bytes: Seq<u8>) -> nat
    decreases bytes.len(),
{
    if bytes.len() == 0 {
        0
    } else {
        256 * binary_value(bytes.drop_last()) + bytes.last() as nat
    }
}

/// The size that a header block declares: what its size field spells, in
/// binary where the field starts with the marker byte, else in octal.
pub open spec fn declared_size(block: Seq<u8>) -> nat {
    if block[124] >= 0x80 {
        binary_value(block.subrange(128, 136))
    } else {
        octal_value(block.subrange(124, 135))
    }
}

/// The name that a header block stores: the bytes of its name field up to
/// the first zero byte.
pub open spec fn stored_name(block: Seq<u8>) -> Seq<u8> {
    up_to_zero(block.subrange(0, NAME_SIZE as int))
}

/// The bytes before the first zero byte.
pub open spec fn up_to_zero(bytes: Seq<u8>) -> Seq<u8>
    decreases bytes.len(),
{
    if bytes.len() == 0 || bytes.first() == 0 {
        Seq::empty()
    } else {
        seq![bytes.first()] + up_to_zero(bytes.drop_first())
    }
}

/// A plain file name is a plain path of one part.
pub proof fn lemma_plain_name_is_plain_path(path: Seq<char>)
    requires
        is_plain_name(path),
    ensures
        is_plain_path(path),
{
    assert forall|i: int| 0 <= i < path.len() implies !#[trigger] dots_start_at(path, i) by {
        if dots_start_at(path, i) {
            if i + 1 == path.len() {
                assert(path =~= seq!['.']);
            } else if i + 2 == path.len() {
                assert(path =~= seq!['.', '.']);
            }
        }
    }
    assert forall|i: int| 0 <= i < path.len() - 1 implies !(path[i] == '/' && #[trigger] path[i
        + 1] == '/') by {}
}

/// Octal digits spell the number they were made of, as far as they hold it.
pub proof fn lemma_octal_digits_spell_value(value: nat, digits: nat)
    ensures
        octal_value(octal_digits(value, digits)) == value % pow8(digits),
        pow8(digits) > 0,
    decreases digits,
{
    if digits > 0 {
        let shorter = (digits - 1) as nat;
        lemma_octal_digits_spell_value(value / 8, shorter);
        let all = octal_digits(value, digits);
        assert(all.drop_last() =~= octal_digits(value / 8, shorter)) by {
            assert forall|i: int| 0 <= i < shorter implies all[i] == octal_digits(
                value / 8,
                shorter,
            )[i] by {
                let e = (shorter - 1 - i) as nat;
                lemma_pow8_positive(e);
                vstd::arithmetic::div_mod::lemma_div_denominator(value as int, 8, pow8(e) as int);
            }
        }
        assert(value / 1 == value);
        vstd::arithmetic::div_mod::lemma_breakdown(value as int, 8, pow8(shorter) as int);
    }
}

proof fn lemma_pow8_positive(e: nat)
    ensures
        pow8(e) > 0,
    decreases e,
{
    if e > 0 {
        lemma_pow8_positive((e - 1) as nat);
    }
}

proof fn lemma_pow256_positive(e: nat)
    ensures
        pow256(e) > 0,
    decreases e,
{
    if e > 0 {
        lemma_pow256_positive((e - 1) as nat);
    }
}

/// The `count` lowest bytes of `value`, most significant first, spell
/// `value` as far as they hold it.
proof fn lemma_binary_spells_value(value: nat, count: nat)
    ensures
        binary_value(Seq::new(count, |i: int| ((value / pow256((count - 1 - i) as nat)) % 256) as u8))
            == value % pow256(count),
        pow256(count) > 0,
    decreases count,
{
    if count > 0 {
        let shorter = (count - 1) as nat;
        lemma_binary_spells_value(value / 256, shorter);
        let all = Seq::new(count, |i: int| ((value / pow256((count - 1 - i) as nat)) % 256) as u8);
        let rest = Seq::new(
            shorter,
            |i: int| (((value / 256) / pow256((shorter - 1 - i) as nat)) % 256) as u8,
        );
        assert(all.drop_last() =~= rest) by {
            assert forall|i: int| 0 <= i < shorter implies all[i] == rest[i] by {
                let e = (shorter - 1 - i) as nat;
                lemma_pow256_positive(e);
                vstd::arithmetic::div_mod::lemma_div_denominator(
                    value as int,
                    256,
                    pow256(e) as int,
                );
            }
        }
        assert(value / 1 == value);
        vstd::arithmetic::div_mod::lemma_breakdown(value as int, 256, pow256(shorter) as int);
    }
}

/// The fields of a header block stand where the archive format puts them:
/// the name at the start, ended by a zero byte where it is shorter than its
/// field; the mode at offset 100; the size at offset 124; the magic at
/// offset 257; and at offset 148 the checksum of the block itself.
pub proof fn lemma_header_block_fields(name: Seq<u8>, size: u64, mode: u32)
    requires
        is_stored_name(name),
    ensures
        ({
            let block = gnu_header_block(name, size, mode);
            &&& is_gnu_block(block)
            &&& block.subrange(0, name.len() as int) == name
            &&& forall|i: int| name.len() <= i < 100 ==> block[i] == 0
            &&& block.subrange(100, 107) == octal_digits(mode as nat, 7)
            &&& block.subrange(124, 124 + size_field(size).len() as int) == size_field(size)
            &&& block.subrange(148, 155) == octal_digits(checksum(block), 7)
        }),
{
    let named = with_field(blank_gnu_block(), 0, name_field(name));
    let sized = with_field(named, 124, size_field(size));
    let moded = with_field(sized, 100, octal_digits(mode as nat, 7));
    let block = gnu_header_block(name, size, mode);
    assert(block.subrange(257, 265) =~= gnu_magic());
    assert(with_field(block, 148, Seq::new(8, |i: int| 32u8)) =~= with_field(
        moded,
        148,
        Seq::new(8, |i: int| 32u8),
    ));
}

/// A header block declares the size it was made for, and stores the name it
/// was made for.
pub proof fn lemma_header_block_declares(name: Seq<u8>, size: u64, mode: u32)
    requires
        is_stored_name(name),
    ensures
        declared_size(gnu_header_block(name, size, mode)) == size,
        stored_name(gnu_header_block(name, size, mode)) == name,
{
    let block = gnu_header_block(name, size, mode);
    lemma_header_block_fields(name, size, mode);
    lemma_size_field_declares(block, size);
    let field = block.subrange(0, NAME_SIZE as int);
    assert forall|i: int| 0 <= i < name.len() implies name[i] != 0 && field[i] == name[i] by {}
    lemma_up_to_zero_of_name(name, field);
}

/// A block whose size field was written for `size` declares `size`.
proof fn lemma_size_field_declares(block: Seq<u8>, size: u64)
    requires
        block.len() == BLOCK_SIZE,
        block.subrange(124, 124 + size_field(size).len() as int) == size_field(size),
    ensures
        declared_size(block) == size,
{
    if size < BINARY_SIZE_FROM {
        let digits = octal_digits(size as nat, 11);
        assert(digits[0] < 0x80);
        lemma_octal_digits_spell_value(size as nat, 11);
        assert(pow8(11) == 8_589_934_592) by {
            reveal_with_fuel(pow8, 12);
        }
        assert(size as nat % pow8(11) == size) by {
            vstd::arithmetic::div_mod::lemma_small_mod(size as nat, pow8(11));
        }
    } else {
        let field = seq![0x80u8, 0u8, 0u8, 0u8] + big_endian(size);
        assert(field[0] == 0x80);
        assert(block.subrange(128, 136) =~= big_endian(size)) by {
            assert forall|i: int| 0 <= i < 8 implies block.subrange(128, 136)[i] == big_endian(
                size,
            )[i] by {
                assert(block.subrange(124, 136)[i + 4] == field[i + 4]);
            }
        }
        lemma_binary_spells_value(size as nat, 8);
        assert(pow256(8) == 0x1_0000_0000_0000_0000) by {
            reveal_with_fuel(pow256, 9);
        }
        assert(size as nat % pow256(8) == size) by {
            vstd::arithmetic::div_mod::lemma_small_mod(size as nat, pow256(8));
        }
        assert(big_endian(size) =~= Seq::new(
            8,
            |i: int| ((size as nat / pow256((8 - 1 - i) as nat)) % 256) as u8,
        ));
    }
}

proof fn lemma_up_to_zero_of_name(name: Seq<u8>, field: Seq<u8>)
    requires
        name.len() <= field.len(),
        forall|i: int| 0 <= i < name.len() ==> name[i] != 0 && field[i] == name[i],
        name.len() < field.len() ==> field[name.len() as int] == 0,
    ensures
        up_to_zero(field) == name,
    decreases name.len(),
{
    if name.len() > 0 {
        lemma_up_to_zero_of_name(name.drop_first(), field.drop_first());
    }
}

} // verus!
