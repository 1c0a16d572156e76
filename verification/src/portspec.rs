//! The port-specification grammar and its parser.
//!
//! A specification is a comma-separated list of tokens. A token is a bare
//! number (one port), `lower-upper` (an inclusive range), `lower-` (up to
//! the top of the port space), `-upper` (from port 1), or a bare `-` (the
//! whole space). A malformed token is a fatal configuration error, reported
//! to the caller with the offending token.

use vstd::prelude::*;

verus! {

use vstd::string::StringSliceAdditionalSpecFns;
use crate::port::PortsList;
use crate::text::{first_index_from, find_byte};

broadcast use crate::port::lemma_ports_list_len;

/// ASCII decimal digit.
pub open spec fn is_digit(b: u8) -> bool {
    48 <= b <= 57
}

/// Every byte is a decimal digit.
pub open spec fn all_digits(s: Seq<u8>) -> bool {
    forall|i: int| 0 <= i < s.len() ==> is_digit(#[trigger] s[i])
}

/// The numeric value of a digit string, most significant digit first.
pub open spec fn digits_val(s: Seq<u8>) -> int
    decreases s.len(),
{
    if s.len() == 0 {
        0
    } else {
        digits_val(s.drop_last()) * 10 + (s.last() - 48)
    }
}

/// The digits of a number token, with an optional leading `+` sign removed,
/// as the standard unsigned parser accepts it.
pub open spec fn num_body(s: Seq<u8>) -> Seq<u8> {
    if s.len() > 0 && s[0] == 43 {
        s.skip(1)
    } else {
        s
    }
}

/// Whether the token is a well-formed port number: at least one digit,
/// nothing but digits, and a value that fits in 16 bits.
pub open spec fn parses_u16(s: Seq<u8>) -> bool {
    num_body(s).len() > 0 && all_digits(num_body(s)) && digits_val(num_body(s)) <= 65535
}

/// The port number a well-formed token denotes.
pub open spec fn u16_val(s: Seq<u8>) -> int {
    digits_val(num_body(s))
}

/// The inclusive range of ports one token selects, or nothing when the
/// token is malformed. A range whose lower bound exceeds its upper bound is
/// well-formed and selects no port.
pub open spec fn token_range(t: Seq<u8>) -> Option<(u16, u16)> {
    let d = first_index_from(t, 45, 0);
    if d == t.len() {
        if parses_u16(t) {
            Some((u16_val(t) as u16, u16_val(t) as u16))
        } else {
            None
        }
    } else {
        let lo = t.take(d);
        let hi = t.skip(d + 1);
        if lo.len() == 0 && hi.len() == 0 {
            Some((0u16, 65535u16))
        } else if hi.len() == 0 {
            if parses_u16(lo) {
                Some((u16_val(lo) as u16, 65535u16))
            } else {
                None
            }
        } else if lo.len() == 0 {
            if parses_u16(hi) {
                Some((1u16, u16_val(hi) as u16))
            } else {
                None
            }
        } else {
            if parses_u16(lo) && parses_u16(hi) {
                Some((u16_val(lo) as u16, u16_val(hi) as u16))
            } else {
                None
            }
        }
    }
}

/// Whether port `p` falls in the range the token selects.
pub open spec fn in_token(t: Seq<u8>, p: u16) -> bool {
    token_range(t) matches Some((lo, hi)) && lo <= p <= hi
}

/// Whether the whole specification is well-formed: every comma-separated
/// token selects a range.
pub open spec fn spec_valid(s: Seq<u8>) -> bool
    decreases s.len(),
{
    let c = first_index_from(s, 44, 0);
    if 0 <= c < s.len() {
        token_range(s.take(c)) is Some && spec_valid(s.skip(c + 1))
    } else {
        token_range(s) is Some
    }
}

/// Whether port `p` is selected by some token of the specification.
pub open spec fn spec_member(s: Seq<u8>, p: u16) -> bool
    decreases s.len(),
{
    let c = first_index_from(s, 44, 0);
    if 0 <= c < s.len() {
        in_token(s.take(c), p) || spec_member(s.skip(c + 1), p)
    } else {
        in_token(s, p)
    }
}

/// The first malformed token of a specification that is not well-formed.
pub open spec fn first_bad_token(s: Seq<u8>) -> Seq<u8>
    decreases s.len(),
{
    let c = first_index_from(s, 44, 0);
    if 0 <= c < s.len() {
        if token_range(s.take(c)) is None {
            s.take(c)
        } else {
            first_bad_token(s.skip(c + 1))
        }
    } else {
        s
    }
}

/// A malformed port specification: the first token that does not parse.
#[derive(Debug)]
pub struct PortSpecError {
    pub token: Vec<u8>,
}

/// Appending one digit multiplies the value by ten and adds it.
proof fn lemma_digits_val_step(s: Seq<u8>, k: int)
    requires
        0 <= k < s.len(),
    ensures
        digits_val(s.take(k + 1)) == digits_val(s.take(k)) * 10 + (s[k] - 48),
{
    assert(s.take(k + 1).drop_last() =~= s.take(k));
    assert(s.take(k + 1).last() == s[k]);
}

/// A digit string's value is never negative.
proof fn lemma_digits_val_nonneg(s: Seq<u8>)
    requires
        all_digits(s),
    ensures
        digits_val(s) >= 0,
    decreases s.len(),
{
    if s.len() > 0 {
        assert(all_digits(s.drop_last()));
        lemma_digits_val_nonneg(s.drop_last());
    }
}

/// A digit string's value is at least the value of any of its prefixes.
proof fn lemma_digits_val_monotone(s: Seq<u8>, k: int)
    requires
        all_digits(s),
        0 <= k <= s.len(),
    ensures
        digits_val(s) >= digits_val(s.take(k)),
    decreases s.len() - k,
{
    if k < s.len() {
        lemma_digits_val_step(s, k);
        assert(all_digits(s.take(k)));
        lemma_digits_val_nonneg(s.take(k));
        lemma_digits_val_monotone(s, k + 1);
        assert(s.take(s.len() as int) =~= s);
    } else {
        assert(s.take(k) =~= s);
    }
}

/// Parses one port number as the standard unsigned parser would: an
/// optional `+` sign, then decimal digits, rejecting overflow.
fn parse_u16(s: &[u8]) -> (r: Option<u16>)
    ensures
        match r {
            Some(v) => parses_u16(s@) && v as int == u16_val(s@),
            None => !parses_u16(s@),
        },
{
    let n = s.len();
    let start: usize = if n > 0 && s[0] == 43 {
        1
    } else {
        0
    };
    let ghost body = num_body(s@);
    proof {
        assert(body =~= s@.skip(start as int));
    }
    if start == n {
        return None;
    }
    let mut acc: u32 = 0;
    let mut i: usize = start;
    proof {
        assert(body.take(0) =~= Seq::<u8>::empty());
    }
    while i < n
        invariant
            start <= i <= n,
            n == s@.len(),
            body == num_body(s@),
            body == s@.skip(start as int),
            body.len() == n - start,
            all_digits(body.take(i - start)),
            acc as int == digits_val(body.take(i - start)),
            acc <= 65535,
        decreases n - i,
    {
        let b = s[i];
        if b < 48 || b > 57 {
            proof {
                assert(body[i - start] == s@[i as int]);
                assert(!all_digits(body));
            }
            return None;
        }
        proof {
            lemma_digits_val_step(body, i - start);
            assert(body.take(i - start + 1).drop_last() =~= body.take(i - start));
        }
        acc = acc * 10 + (b - 48) as u32;
        if acc > 65535 {
            proof {
                if all_digits(body) {
                    lemma_digits_val_monotone(body, i - start + 1);
                }
            }
            return None;
        }
        i = i + 1;
    }
    proof {
        assert(body.take(n - start) =~= body);
    }
    Some(acc as u16)
}

/// Parses one comma-separated token into the range it selects.
fn parse_token(token: &[u8]) -> (r: Option<(u16, u16)>)
    ensures
        r == token_range(token@),
{
    let n = token.len();
    let d = find_byte(token, 45, 0);
    proof {
        crate::text::lemma_first_index_from(token@, 45, 0);
    }
    if d == n {
        match parse_u16(token) {
            Some(v) => Some((v, v)),
            None => None,
        }
    } else {
        let lo = &token[0..d];
        let hi = &token[d + 1..n];
        proof {
            assert(lo@ =~= token@.take(d as int));
            assert(hi@ =~= token@.skip(d + 1));
        }
        if lo.len() == 0 && hi.len() == 0 {
            Some((0, 65535))
        } else if hi.len() == 0 {
            match parse_u16(lo) {
                Some(v) => Some((v, 65535)),
                None => None,
            }
        } else if lo.len() == 0 {
            match parse_u16(hi) {
                Some(v) => Some((1, v)),
                None => None,
            }
        } else {
            match (parse_u16(lo), parse_u16(hi)) {
                (Some(a), Some(b)) => Some((a, b)),
                _ => None,
            }
        }
    }
}

/// A search for a byte in a suffix mirrors the search in the whole string.
proof fn lemma_first_index_skip(s: Seq<u8>, b: u8, k: int, i: int)
    requires
        0 <= k <= i <= s.len(),
    ensures
        first_index_from(s, b, i) == k + first_index_from(s.skip(k), b, i - k),
    decreases s.len() - i,
{
    if i < s.len() && s[i] != b {
        lemma_first_index_skip(s, b, k, i + 1);
    }
}

impl PortsList {
    /// Makes every port of the inclusive range a member; every other port
    /// keeps its bit. An empty range (lower above upper) adds nothing.
    pub fn add_range(&mut self, lo: u16, hi: u16)
        requires
            old(self).wf(),
        ensures
            final(self).wf(),
            forall|q: int|
                0 <= q < 65536 ==> (final(self)@[q] <==> old(self)@[q] || (lo <= q <= hi)),
    {
        if lo > hi {
            return ;
        }
        let mut p = lo;
        loop
            invariant_except_break
                lo <= p <= hi,
                self.wf(),
                forall|q: int|
                    0 <= q < 65536 ==> (self@[q] <==> old(self)@[q] || (lo <= q < p as int)),
            ensures
                self.wf(),
                forall|q: int|
                    0 <= q < 65536 ==> (self@[q] <==> old(self)@[q] || (lo <= q <= hi)),
            decreases hi - p,
        {
            self.add_port(p);
            if p == hi {
                break ;
            }
            p = p + 1;
        }
    }
}

/// Parses a whole port specification into the set of ports it selects.
/// A malformed specification is rejected with its first bad token, and
/// selects nothing.
pub fn parse_ports_spec(spec: &str) -> (r: Result<PortsList, PortSpecError>)
    ensures
        match r {
            Ok(list) => {
                &&& list.wf()
                &&& spec_valid(spec.spec_bytes())
                &&& forall|p: int|
                    0 <= p < 65536 ==> (list@[p] <==> spec_member(spec.spec_bytes(), p as u16))
            },
            Err(e) => {
                &&& !spec_valid(spec.spec_bytes())
                &&& e.token@ == first_bad_token(spec.spec_bytes())
            },
        },
{
    let bytes = spec.as_bytes();
    let n = bytes.len();
    let ghost whole = bytes@;
    let mut list = PortsList::new();
    let mut pos: usize = 0;
    proof {
        assert(whole.skip(0) =~= whole);
    }
    loop
        invariant
            pos <= n,
            n == whole.len(),
            bytes@ == whole,
            whole == spec.spec_bytes(),
            list.wf(),
            spec_valid(whole) == spec_valid(whole.skip(pos as int)),
            !spec_valid(whole) ==> first_bad_token(whole) == first_bad_token(
                whole.skip(pos as int),
            ),
            forall|p: int|
                0 <= p < 65536 ==> (spec_member(whole, p as u16) <==> list@[p] || spec_member(
                    whole.skip(pos as int),
                    p as u16,
                )),
        decreases n - pos,
    {
        let ghost suffix = whole.skip(pos as int);
        let end = find_byte(bytes, 44, pos);
        proof {
            crate::text::lemma_first_index_from(whole, 44, pos as int);
            lemma_first_index_skip(whole, 44, pos as int, pos as int);
            assert(first_index_from(suffix, 44, 0) == end - pos);
        }
        let token = &bytes[pos..end];
        proof {
            if end == n {
                assert(token@ =~= suffix);
            } else {
                assert(token@ =~= suffix.take(end - pos));
            }
        }
        match parse_token(token) {
            None => {
                proof {
                    if end == n {
                        assert(!spec_valid(suffix));
                        assert(first_bad_token(suffix) == suffix);
                    } else {
                        assert(suffix.take(end - pos) == token@);
                        assert(!spec_valid(suffix));
                        assert(first_bad_token(suffix) == suffix.take(end - pos));
                    }
                }
                return Err(PortSpecError { token: vstd::slice::slice_to_vec(token) });
            },
            Some((lo, hi)) => {
                let ghost before = list@;
                list.add_range(lo, hi);
                proof {
                    if end == n {
                        assert(spec_valid(suffix) == (token_range(suffix) is Some));
                        assert forall|p: int|
                            0 <= p < 65536 implies (spec_member(whole, p as u16)
                            <==> list@.index(p)) by {
                            let pp = p as u16;
                            assert(spec_member(whole, pp) <==> before.index(p) || spec_member(
                                suffix,
                                pp,
                            ));
                            assert(list@.index(p) <==> before.index(p) || (lo <= pp <= hi));
                            assert(spec_member(suffix, pp) == in_token(suffix, pp));
                            assert(in_token(suffix, pp) == (lo <= pp <= hi));
                        }
                    } else {
                        let tail = suffix.skip(end - pos + 1);
                        assert(spec_valid(suffix) == (token_range(suffix.take(end - pos))
                            is Some && spec_valid(tail)));
                        assert(whole.skip(end + 1) =~= tail);
                        assert forall|p: int|
                            0 <= p < 65536 implies (spec_member(whole, p as u16) <==> list@[p]
                            || spec_member(whole.skip(end + 1), p as u16)) by {
                            let pp = p as u16;
                            assert(spec_member(whole, pp) <==> before.index(p) || spec_member(
                                suffix,
                                pp,
                            ));
                            assert(list@.index(p) <==> before.index(p) || (lo <= pp <= hi));
                            assert(spec_member(suffix, pp) == (in_token(
                                suffix.take(end - pos),
                                pp,
                            ) || spec_member(tail, pp)));
                            assert(in_token(suffix.take(end - pos), pp) == (lo <= pp <= hi));
                            assert(spec_member(whole.skip(end + 1), pp) == spec_member(
                                tail,
                                pp,
                            ));
                        }
                        assert(first_bad_token(suffix) == first_bad_token(tail));
                    }
                }
            },
        }
        if end == n {
            return Ok(list);
        }
        pos = end + 1;
        proof {
            assert(pos as int == end + 1);
            assert forall|p: int|
                0 <= p < 65536 implies (spec_member(whole, p as u16) <==> list@.index(p)
                || spec_member(whole.skip(pos as int), p as u16)) by {
                assert(spec_member(whole, p as u16) <==> list@.index(p) || spec_member(
                    whole.skip(end + 1),
                    p as u16,
                ));
            }
        }
    }
}

/// The well-known ports scanned when no specification is given.
pub open spec fn top_ports_spec() -> Seq<u16> {
    seq![
        21u16, 22u16, 23u16, 25u16, 53u16, 80u16, 110u16, 111u16, 135u16, 139u16, 143u16,
        443u16, 445u16, 465u16, 587u16, 636u16, 993u16, 995u16, 1723u16, 3128u16, 3306u16,
        3389u16, 5353u16, 5432u16, 5900u16, 6379u16, 8000u16, 8080u16, 8443u16, 8888u16,
    ]
}

/// The default scan targets: a fixed list of well-known TCP ports.
pub fn top_ports() -> (r: Vec<u16>)
    ensures
        r@ == top_ports_spec(),
{
    let mut v: Vec<u16> = Vec::new();
    v.push(21);
    v.push(22);
    v.push(23);
    v.push(25);
    v.push(53);
    v.push(80);
    v.push(110);
    v.push(111);
    v.push(135);
    v.push(139);
    v.push(143);
    v.push(443);
    v.push(445);
    v.push(465);
    v.push(587);
    v.push(636);
    v.push(993);
    v.push(995);
    v.push(1723);
    v.push(3128);
    v.push(3306);
    v.push(3389);
    v.push(5353);
    v.push(5432);
    v.push(5900);
    v.push(6379);
    v.push(8000);
    v.push(8080);
    v.push(8443);
    v.push(8888);
    proof {
        assert(v@ =~= top_ports_spec());
    }
    v
}

} // verus!
