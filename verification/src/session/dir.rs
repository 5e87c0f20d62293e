//! The directory that the sessions of one project are kept in.
use vstd::prelude::*;
use vstd::string::*;
use vstd::utf8::encode_utf8;

verus! {

pub const OFFSET_BASIS: u64 = 0xcbf2_9ce4_8422_2325;

pub const PRIME: u64 = 0x0000_0100_0000_01b3;

/// The 64-bit FNV-1a hash of `data`.
pub open spec fn fnv(data: Seq<u8>) -> u64
    decreases data.len(),
{
    if data.len() == 0 {
        OFFSET_BASIS
    } else {
        vstd::wrapping::u64_specs::wrapping_mul(fnv(data.drop_last()) ^ (data.last() as u64), PRIME)
    }
}

/// The 64-bit FNV-1a hash of `data`.
pub fn fnv1a64(data: &[u8]) -> (out: u64)
    ensures
        out == fnv(data@),
{
    let mut hash: u64 = OFFSET_BASIS;
    let mut i: usize = 0;
    while i < data.len()
        invariant
            i <= data@.len(),
            hash == fnv(data@.take(i as int)),
        decreases data@.len() - i,
    {
        assert(data@.take(i as int + 1).drop_last() =~= data@.take(i as int));
        hash = (hash ^ (data[i] as u64)).wrapping_mul(PRIME);
        i += 1;
    }
    assert(data@.take(i as int) =~= data@);
    hash
}

/// The hexadecimal digit for `d`, in small letters.
pub open spec fn hex_digit(d: nat) -> char {
    if d < 10 {
        ('0' as u32 + d as u32) as char
    } else {
        ('a' as u32 + d as u32 - 10) as char
    }
}

/// The last `width` hexadecimal digits of `n`.
pub open spec fn hex(n: nat, width: nat) -> Seq<char>
    decreases width,
{
    if width == 0 {
        Seq::empty()
    } else {
        hex(n / 16, (width - 1) as nat).push(hex_digit(n % 16))
    }
}

/// A small hexadecimal digit.
pub open spec fn is_hex_digit(c: char) -> bool {
    '0' <= c <= '9' || 'a' <= c <= 'f'
}

fn hex_of(n: u64, width: usize) -> (out: String)
    ensures
        out@ == hex(n as nat, width as nat),
    decreases width,
{
    if width == 0 {
        let out = String::new();
        assert(out@ =~= Seq::empty());
        out
    } else {
        let mut out = hex_of(n / 16, width - 1);
        let d: u8 = (n % 16) as u8;
        out.push(
            if d < 10 {
                (48u8 + d) as char
            } else {
                (87u8 + d) as char
            },
        );
        out
    }
}

/// The name of the directory for the sessions of a project directory.
pub open spec fn key_of(pwd: Seq<char>) -> Seq<char> {
    hex(fnv(encode_utf8(pwd)) as nat, 16)
}

/// The name of the directory for the sessions of a project directory.
pub fn pwd_key(pwd: &str) -> (out: String)
    ensures
        out@ == key_of(pwd@),
{
    hex_of(fnv1a64(pwd.as_bytes()), 16)
}

proof fn lemma_hex_digits(n: nat, width: nat)
    ensures
        hex(n, width).len() == width,
        forall|i: int| 0 <= i < width ==> is_hex_digit(#[trigger] hex(n, width)[i]),
    decreases width,
{
    if width > 0 {
        lemma_hex_digits(n / 16, (width - 1) as nat);
    }
}

/// The name of a project's directory is sixteen hexadecimal digits, so it is a
/// plain file name whatever the project's path holds.
pub proof fn keys_are_sixteen_hex_digits(pwd: Seq<char>)
    ensures
        key_of(pwd).len() == 16,
        forall|i: int| 0 <= i < 16 ==> is_hex_digit(#[trigger] key_of(pwd)[i]),
{
    lemma_hex_digits(fnv(encode_utf8(pwd)) as nat, 16);
}

/// How many numbers have so many hexadecimal digits.
spec fn count_of(width: nat) -> nat
    decreases width,
{
    if width == 0 {
        1
    } else {
        16 * count_of((width - 1) as nat)
    }
}

proof fn lemma_hex_is_unique(a: nat, b: nat, width: nat)
    requires
        hex(a, width) == hex(b, width),
        a < count_of(width),
        b < count_of(width),
    ensures
        a == b,
    decreases width,
{
    if width > 0 {
        let less = (width - 1) as nat;
        let x = hex(a / 16, less).push(hex_digit(a % 16));
        let y = hex(b / 16, less).push(hex_digit(b % 16));
        assert(x.drop_last() =~= hex(a / 16, less));
        assert(y.drop_last() =~= hex(b / 16, less));
        assert(x.last() == y.last());
        assert(hex_digit(a % 16) as u32 == hex_digit(b % 16) as u32);
        assert(a % 16 == b % 16);
        lemma_hex_is_unique(a / 16, b / 16, less);
    }
}

/// Two projects share a directory only where their paths have the same hash, and
/// nothing of the hash is lost.
pub proof fn keys_tell_hashes_apart(a: Seq<char>, b: Seq<char>)
    ensures
        key_of(a) == key_of(b) <==> fnv(encode_utf8(a)) == fnv(encode_utf8(b)),
{
    if key_of(a) == key_of(b) {
        reveal_with_fuel(count_of, 17);
        assert(count_of(16) == 0x1_0000_0000_0000_0000);
        lemma_hex_is_unique(fnv(encode_utf8(a)) as nat, fnv(encode_utf8(b)) as nat, 16);
    }
}

/// The hash goes byte by byte: each is mixed in, and the whole is multiplied, in 64
/// bits.
pub proof fn hashes_go_byte_by_byte(data: Seq<u8>, byte: u8)
    ensures
        fnv(Seq::empty()) == 0xcbf29ce484222325,
        fnv(data.push(byte)) as int == ((fnv(data) ^ (byte as u64)) as int * 0x100000001b3)
            % 0x1_0000_0000_0000_0000,
{
    assert(data.push(byte).drop_last() =~= data);
}

} // verus!
