//! Names of cached artwork files, and the placeholder artwork.
use vstd::prelude::*;
use crate::text::{chars_of, string_of_chars};
use vstd::string::StringSliceAdditionalSpecFns;

verus! {

/// The MD5 digest of the data, as `md5::compute` gives it.
pub uninterp spec fn md5_of(data: Seq<u8>) -> Seq<u8>;

/// Relies on `md5::compute`: the 16-byte digest depends on the data alone.
#[verifier::external_body]
fn md5_digest(data: &[u8]) -> (r: Vec<u8>)
    ensures
        r@ == md5_of(data@),
        r@.len() == 16,
{
    md5::compute(data).0.to_vec()
}

pub open spec fn hex_digit(v: nat) -> char {
    if v < 10 {
        crate::text::digit_char(v)
    } else if v == 10 {
        'a'
    } else if v == 11 {
        'b'
    } else if v == 12 {
        'c'
    } else if v == 13 {
        'd'
    } else if v == 14 {
        'e'
    } else {
        'f'
    }
}

/// Two lowercase hex digits per byte, high nibble first.
pub open spec fn hex_of(bytes: Seq<u8>) -> Seq<char>
    decreases bytes.len(),
{
    if bytes.len() == 0 {
        Seq::empty()
    } else {
        hex_of(bytes.drop_last()).push(hex_digit((bytes.last() / 16) as nat)).push(
            hex_digit((bytes.last() % 16) as nat),
        )
    }
}

fn hex_char(v: u8) -> (r: char)
    requires
        v < 16,
    ensures
        r == hex_digit(v as nat),
{
    if v == 0 {
        '0'
    } else if v == 1 {
        '1'
    } else if v == 2 {
        '2'
    } else if v == 3 {
        '3'
    } else if v == 4 {
        '4'
    } else if v == 5 {
        '5'
    } else if v == 6 {
        '6'
    } else if v == 7 {
        '7'
    } else if v == 8 {
        '8'
    } else if v == 9 {
        '9'
    } else if v == 10 {
        'a'
    } else if v == 11 {
        'b'
    } else if v == 12 {
        'c'
    } else if v == 13 {
        'd'
    } else if v == 14 {
        'e'
    } else {
        'f'
    }
}

pub fn hex_chars(bytes: &Vec<u8>) -> (r: Vec<char>)
    ensures
        r@ == hex_of(bytes@),
{
    let mut r: Vec<char> = Vec::new();
    let mut i: usize = 0;
    while i < bytes.len()
        invariant
            i <= bytes@.len(),
            r@ == hex_of(bytes@.take(i as int)),
        decreases bytes@.len() - i,
    {
        let b = bytes[i];
        r.push(hex_char(b / 16));
        r.push(hex_char(b % 16));
        proof {
            assert(bytes@.take(i + 1).drop_last() =~= bytes@.take(i as int));
        }
        i = i + 1;
    }
    assert(bytes@.take(bytes@.len() as int) =~= bytes@);
    r
}

/// The text after the last `.` of `s`, or all of `s` when it has none.
pub open spec fn after_last_dot(s: Seq<char>) -> Seq<char>
    decreases s.len(),
{
    if s.len() == 0 {
        s
    } else if s.last() == '.' {
        Seq::empty()
    } else {
        after_last_dot(s.drop_last()).push(s.last())
    }
}

fn tail_after_dot(s: &Vec<char>) -> (r: Vec<char>)
    ensures
        r@ == after_last_dot(s@),
{
    let mut r: Vec<char> = Vec::new();
    let mut i: usize = 0;
    while i < s.len()
        invariant
            i <= s@.len(),
            r@ == after_last_dot(s@.take(i as int)),
        decreases s@.len() - i,
    {
        proof {
            assert(s@.take(i + 1).drop_last() =~= s@.take(i as int));
        }
        if s[i] == '.' {
            r = Vec::new();
        } else {
            r.push(s[i]);
        }
        i = i + 1;
    }
    assert(s@.take(s@.len() as int) =~= s@);
    r
}

/// The file name artwork from `url` is cached under: the MD5 of the
/// address in hex, a dot, and the address's text after its last dot.
pub open spec fn cache_key_of(url: Seq<char>, url_bytes: Seq<u8>) -> Seq<char> {
    hex_of(md5_of(url_bytes)) + seq!['.'] + after_last_dot(url)
}

/// The cache file name for artwork downloaded from `url`.
pub fn url_to_cache_key(url: &str) -> (r: String)
    ensures
        r@ == cache_key_of(url@, url.spec_bytes()),
{
    let digest = md5_digest(url.as_bytes());
    let mut key = hex_chars(&digest);
    key.push('.');
    let extension = tail_after_dot(&chars_of(url));
    let mut j: usize = 0;
    let ghost head = key@;
    while j < extension.len()
        invariant
            j <= extension@.len(),
            key@ == head + extension@.take(j as int),
        decreases extension@.len() - j,
    {
        key.push(extension[j]);
        j = j + 1;
        assert(key@ =~= head + extension@.take(j as int));
    }
    assert(extension@.take(extension@.len() as int) =~= extension@);
    string_of_chars(&key)
}

/// Side length, in pixels, of the placeholder artwork.
pub const PLACEHOLDER_SIZE: usize = 200;

/// The colour of placeholder pixel (`x`, `y`): a diagonal gradient.
pub open spec fn placeholder_pixel(x: int, y: int) -> (u8, u8, u8) {
    let intensity = ((x + y) % 40) * 3;
    ((60 + intensity) as u8, (60 + intensity) as u8, (65 + intensity) as u8)
}

/// The placeholder artwork, row by row, as red, green and blue values.
pub fn default_texture_pixels() -> (r: Vec<(u8, u8, u8)>)
    ensures
        r@.len() == PLACEHOLDER_SIZE * PLACEHOLDER_SIZE,
        forall|i: int|
            0 <= i < r@.len() ==> #[trigger] r@[i] == placeholder_pixel(
                i % PLACEHOLDER_SIZE as int,
                i / PLACEHOLDER_SIZE as int,
            ),
{
    let mut r: Vec<(u8, u8, u8)> = Vec::new();
    let mut y: usize = 0;
    while y < PLACEHOLDER_SIZE
        invariant
            y <= PLACEHOLDER_SIZE,
            r@.len() == y * PLACEHOLDER_SIZE,
            forall|i: int|
                0 <= i < r@.len() ==> #[trigger] r@[i] == placeholder_pixel(
                    i % PLACEHOLDER_SIZE as int,
                    i / PLACEHOLDER_SIZE as int,
                ),
        decreases PLACEHOLDER_SIZE - y,
    {
        let mut x: usize = 0;
        while x < PLACEHOLDER_SIZE
            invariant
                y < PLACEHOLDER_SIZE,
                x <= PLACEHOLDER_SIZE,
                r@.len() == y * PLACEHOLDER_SIZE + x,
                forall|i: int|
                    0 <= i < r@.len() ==> #[trigger] r@[i] == placeholder_pixel(
                        i % PLACEHOLDER_SIZE as int,
                        i / PLACEHOLDER_SIZE as int,
                    ),
            decreases PLACEHOLDER_SIZE - x,
        {
            let intensity: u8 = (((x + y) % 40) as u8) * 3;
            proof {
                let i = (y * PLACEHOLDER_SIZE + x) as int;
                assert(i % 200 == x as int && i / 200 == y as int) by (nonlinear_arith)
                    requires
                        i == y * 200 + x,
                        x < 200,
                        y < 200,
                ;
            }
            r.push((60 + intensity, 60 + intensity, 65 + intensity));
            x = x + 1;
        }
        y = y + 1;
    }
    r
}

} // verus!
