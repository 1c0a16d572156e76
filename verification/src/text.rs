//! Text building blocks shared by the formatting and parsing code:
//! decimal and hexadecimal digits, escaping of control characters, and
//! byte-level substring search.

use vstd::prelude::*;

verus! {

use vstd::string::StringSliceAdditionalSpecFns;

/// The character for one digit value, `0..=15`.
pub open spec fn digit_char(d: int) -> char {
    if d == 0 {
        '0'
    } else if d == 1 {
        '1'
    } else if d == 2 {
        '2'
    } else if d == 3 {
        '3'
    } else if d == 4 {
        '4'
    } else if d == 5 {
        '5'
    } else if d == 6 {
        '6'
    } else if d == 7 {
        '7'
    } else if d == 8 {
        '8'
    } else if d == 9 {
        '9'
    } else if d == 10 {
        'a'
    } else if d == 11 {
        'b'
    } else if d == 12 {
        'c'
    } else if d == 13 {
        'd'
    } else if d == 14 {
        'e'
    } else {
        'f'
    }
}

/// The decimal representation of `n`, most significant digit first.
pub open spec fn dec_rep(n: nat) -> Seq<char>
    decreases n,
{
    if n < 10 {
        seq![digit_char(n as int)]
    } else {
        dec_rep(n / 10).push(digit_char((n % 10) as int))
    }
}

/// Relies on std's `String::push`, which appends the one character.
#[verifier::external_body]
pub fn push_char(out: &mut String, c: char)
    ensures
        final(out)@ == old(out)@.push(c),
{
    out.push(c);
}

fn digit_to_char(d: u8) -> (c: char)
    requires
        d < 16,
    ensures
        c == digit_char(d as int),
{
    match d {
        0 => '0',
        1 => '1',
        2 => '2',
        3 => '3',
        4 => '4',
        5 => '5',
        6 => '6',
        7 => '7',
        8 => '8',
        9 => '9',
        10 => 'a',
        11 => 'b',
        12 => 'c',
        13 => 'd',
        14 => 'e',
        _ => 'f',
    }
}

/// Appends the decimal representation of `n` to `out`.
pub fn push_decimal(out: &mut String, n: u16)
    ensures
        final(out)@ == old(out)@ + dec_rep(n as nat),
    decreases n,
{
    if n >= 10 {
        push_decimal(out, n / 10);
        push_char(out, digit_to_char((n % 10) as u8));
    } else {
        push_char(out, digit_to_char(n as u8));
        assert(old(out)@.push(digit_char(n as int)) =~= old(out)@ + dec_rep(n as nat));
    }
}

/// Relies on std's `str::from_utf8`: it returns `Ok` exactly on well-formed
/// UTF-8 input, with the borrowed text decoding those bytes.
#[verifier::external_body]
pub fn bytes_as_str(bytes: &[u8]) -> (r: Option<&str>)
    ensures
        r is Some <==> vstd::utf8::valid_utf8(bytes@),
        r matches Some(s) ==> s@ == vstd::utf8::decode_utf8(bytes@) && s.spec_bytes() == bytes@,
{
    core::str::from_utf8(bytes).ok()
}

/// How one character renders inside a quoted banner: `\n`, `\t` and `\r`
/// are escaped, everything else passes through.
pub open spec fn escape_char(c: char) -> Seq<char> {
    if c == '\n' {
        seq!['\\', 'n']
    } else if c == '\t' {
        seq!['\\', 't']
    } else if c == '\r' {
        seq!['\\', 'r']
    } else {
        seq![c]
    }
}

/// The escaped rendering of a whole text.
pub open spec fn escape_text(s: Seq<char>) -> Seq<char>
    decreases s.len(),
{
    if s.len() == 0 {
        Seq::empty()
    } else {
        escape_text(s.drop_last()) + escape_char(s.last())
    }
}

/// Appends the escaped rendering of `s` to `out`.
pub fn push_escaped(out: &mut String, s: &str)
    ensures
        final(out)@ == old(out)@ + escape_text(s@),
{
    let n = s.unicode_len();
    let mut i: usize = 0;
    assert(old(out)@ + escape_text(s@.take(0)) =~= old(out)@);
    while i < n
        invariant
            n == s@.len(),
            i <= n,
            out@ == old(out)@ + escape_text(s@.take(i as int)),
        decreases n - i,
    {
        let c = s.get_char(i);
        if c == '\n' {
            push_char(out, '\\');
            push_char(out, 'n');
        } else if c == '\t' {
            push_char(out, '\\');
            push_char(out, 't');
        } else if c == '\r' {
            push_char(out, '\\');
            push_char(out, 'r');
        } else {
            push_char(out, c);
        }
        proof {
            assert(s@.take(i + 1).drop_last() =~= s@.take(i as int));
            assert(s@.take(i + 1).last() == s@[i as int]);
            assert(out@ =~= old(out)@ + escape_text(s@.take(i + 1)));
        }
        i = i + 1;
    }
    proof {
        assert(s@.take(n as int) =~= s@);
    }
}

/// The two characters showing one byte in the hex dump: the high digit is
/// blank-padded for bytes below `0x10`, matching a two-column rendering.
pub open spec fn hex_pair(b: u8) -> Seq<char> {
    if b < 16 {
        seq![' ', digit_char(b as int)]
    } else {
        seq![digit_char(b as int / 16), digit_char(b as int % 16)]
    }
}

/// The hex dump of a byte string, two columns per byte.
pub open spec fn hex_text(bytes: Seq<u8>) -> Seq<char>
    decreases bytes.len(),
{
    if bytes.len() == 0 {
        Seq::empty()
    } else {
        hex_text(bytes.drop_last()) + hex_pair(bytes.last())
    }
}

/// Appends the hex dump of `bytes` to `out`.
pub fn push_hex(out: &mut String, bytes: &[u8])
    ensures
        final(out)@ == old(out)@ + hex_text(bytes@),
{
    let n = bytes.len();
    let mut i: usize = 0;
    assert(old(out)@ + hex_text(bytes@.take(0)) =~= old(out)@);
    while i < n
        invariant
            n == bytes@.len(),
            i <= n,
            out@ == old(out)@ + hex_text(bytes@.take(i as int)),
        decreases n - i,
    {
        let b = bytes[i];
        if b < 16 {
            push_char(out, ' ');
            push_char(out, digit_to_char(b));
        } else {
            push_char(out, digit_to_char(b / 16));
            push_char(out, digit_to_char(b % 16));
        }
        proof {
            assert(bytes@.take(i + 1).drop_last() =~= bytes@.take(i as int));
            assert(bytes@.take(i + 1).last() == bytes@[i as int]);
            assert(out@ =~= old(out)@ + hex_text(bytes@.take(i + 1)));
        }
        i = i + 1;
    }
    proof {
        assert(bytes@.take(n as int) =~= bytes@);
    }
}

/// The first position at or after `i` where byte `b` occurs in `s`, or
/// `s.len()` when it does not occur there.
pub open spec fn first_index_from(s: Seq<u8>, b: u8, i: int) -> int
    decreases s.len() - i,
{
    if i < 0 || i >= s.len() {
        s.len() as int
    } else if s[i] == b {
        i
    } else {
        first_index_from(s, b, i + 1)
    }
}

/// Everything `first_index_from` promises: it stays in range, lands on `b`
/// when `b` occurs, and skips nothing.
pub proof fn lemma_first_index_from(s: Seq<u8>, b: u8, i: int)
    requires
        0 <= i <= s.len(),
    ensures
        i <= first_index_from(s, b, i) <= s.len(),
        first_index_from(s, b, i) < s.len() ==> s[first_index_from(s, b, i)] == b,
        forall|j: int| i <= j < first_index_from(s, b, i) ==> s[j] != b,
    decreases s.len() - i,
{
    if i < s.len() && s[i] != b {
        lemma_first_index_from(s, b, i + 1);
    }
}

/// Finds the first occurrence of byte `b` in `s` at or after `from`.
pub fn find_byte(s: &[u8], b: u8, from: usize) -> (r: usize)
    requires
        from <= s@.len(),
    ensures
        r == first_index_from(s@, b, from as int),
{
    let n = s.len();
    let mut i = from;
    while i < n
        invariant
            from <= i <= n,
            n == s@.len(),
            first_index_from(s@, b, from as int) == first_index_from(s@, b, i as int),
        decreases n - i,
    {
        if s[i] == b {
            return i;
        }
        i = i + 1;
    }
    i
}

/// True when `needle` occurs in `hay` starting at position `i`.
pub open spec fn match_at(hay: Seq<u8>, needle: Seq<u8>, i: int) -> bool {
    0 <= i && i + needle.len() <= hay.len() && hay.subrange(i, i + needle.len()) == needle
}

/// The first position at or after `i` where `needle` occurs in `hay`, or
/// `-1` when it occurs nowhere there.
pub open spec fn first_match_from(hay: Seq<u8>, needle: Seq<u8>, i: int) -> int
    decreases hay.len() - i,
{
    if i < 0 || i + needle.len() > hay.len() {
        -1
    } else if match_at(hay, needle, i) {
        i
    } else if needle.len() == 0 {
        -1
    } else {
        first_match_from(hay, needle, i + 1)
    }
}

/// Everything `first_match_from` promises.
pub proof fn lemma_first_match_from(hay: Seq<u8>, needle: Seq<u8>, i: int)
    requires
        0 <= i,
    ensures
        first_match_from(hay, needle, i) >= 0 ==> match_at(
            hay,
            needle,
            first_match_from(hay, needle, i),
        ) && first_match_from(hay, needle, i) >= i,
        forall|j: int|
            i <= j < first_match_from(hay, needle, i) ==> !match_at(hay, needle, j),
        first_match_from(hay, needle, i) == -1 ==> forall|j: int|
            j >= i ==> !match_at(hay, needle, j),
    decreases hay.len() - i,
{
    if i + needle.len() > hay.len() {
        assert forall|j: int| j >= i implies !match_at(hay, needle, j) by {}
    } else if !match_at(hay, needle, i) {
        if needle.len() == 0 {
            // the empty needle matches wherever it fits, so this case cannot arise
            assert(hay.subrange(i, i) =~= needle);
        } else {
            lemma_first_match_from(hay, needle, i + 1);
        }
    }
}

/// Finds the first occurrence of `needle` in `hay` at or after `from`.
pub fn find_sub(hay: &[u8], needle: &[u8], from: usize) -> (r: Option<usize>)
    ensures
        match r {
            Some(p) => p == first_match_from(hay@, needle@, from as int),
            None => first_match_from(hay@, needle@, from as int) == -1,
        },
{
    let h = hay.len();
    let n = needle.len();
    if from > h || n > h - from {
        proof {
            if from > h {
                assert(first_match_from(hay@, needle@, from as int) == -1);
            }
        }
        return None;
    }
    let mut i = from;
    while i <= h - n
        invariant
            from <= i,
            n <= h,
            i <= h - n + 1,
            h == hay@.len(),
            n == needle@.len(),
            first_match_from(hay@, needle@, from as int) == first_match_from(
                hay@,
                needle@,
                i as int,
            ),
        decreases h - i,
    {
        let mut j: usize = 0;
        let mut matched = true;
        while j < n
            invariant
                i + n <= h,
                h == hay@.len(),
                n == needle@.len(),
                j <= n,
                matched <==> hay@.subrange(i as int, i + j) =~= needle@.take(j as int),
            decreases n - j,
        {
            proof {
                assert(hay@.subrange(i as int, i + j + 1).drop_last() =~= hay@.subrange(
                    i as int,
                    i + j,
                ));
                assert(needle@.take(j + 1).drop_last() =~= needle@.take(j as int));
            }
            if hay[i + j] != needle[j] {
                matched = false;
                proof {
                    assert(hay@.subrange(i as int, i + j + 1).last() != needle@.take(
                        j + 1,
                    ).last());
                }
            }
            proof {
                if matched {
                    assert(hay@.subrange(i as int, i + j + 1) =~= hay@.subrange(
                        i as int,
                        i + j,
                    ).push(hay@[i + j]));
                    assert(needle@.take(j + 1) =~= needle@.take(j as int).push(
                        needle@[j as int],
                    ));
                }
            }
            j = j + 1;
        }
        proof {
            assert(needle@.take(n as int) =~= needle@);
        }
        if matched {
            return Some(i);
        }
        i = i + 1;
    }
    None
}

} // verus!
