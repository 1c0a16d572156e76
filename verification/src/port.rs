//! Port results and the compact port set.
//!
//! `PortsList` is a bitset over the whole 16-bit port space: one bit per
//! port, eight ports per byte. Its view is the sequence of 65536 membership
//! bits, so the contracts speak of plain sequence updates and lookups.

use vstd::prelude::*;

verus! {

use vstd::arithmetic::div_mod::lemma_fundamental_div_mod_converse;
use vstd::utf8::{valid_utf8, decode_utf8};
use crate::text::{
    escape_text, hex_text, dec_rep, push_escaped, push_hex, push_decimal, push_char,
};

/// What the scan concluded about one port.
#[derive(Debug, PartialEq, Eq)]
pub enum PortStatus {
    /// The TCP connection succeeded; `banner` holds whatever the service
    /// volunteered within the read window, if anything.
    Opened { banner: Option<Vec<u8>> },
    /// The connection was actively refused.
    Closed,
    /// The attempt timed out or failed without a refusal.
    Filtered,
}

/// The result for one scanned port.
#[derive(Debug)]
pub struct Port {
    pub status: PortStatus,
    pub num: u16,
}

/// How a banner renders: escaped text when the bytes are well-formed UTF-8,
/// otherwise a hex dump.
pub open spec fn banner_text(b: Seq<u8>) -> Seq<char> {
    if valid_utf8(b) {
        escape_text(decode_utf8(b))
    } else {
        "hex:"@ + hex_text(b)
    }
}

/// The rendering of a port status.
pub open spec fn status_text(st: PortStatus) -> Seq<char> {
    match st {
        PortStatus::Opened { banner } => match banner {
            Some(b) => "opened (banner: \""@ + banner_text(b@) + "\")"@,
            None => "opened"@,
        },
        PortStatus::Closed => "closed"@,
        PortStatus::Filtered => "filtered"@,
    }
}

impl PortStatus {
    /// Renders the status as it is reported to the operator.
    pub fn describe(&self) -> (r: String)
        ensures
            r@ == status_text(*self),
    {
        match self {
            PortStatus::Opened { banner } => {
                match banner {
                    Some(b) => {
                        let mut out = String::from_str("opened (banner: \"");
                        match crate::text::bytes_as_str(b.as_slice()) {
                            Some(s) => push_escaped(&mut out, s),
                            None => {
                                out.append("hex:");
                                push_hex(&mut out, b.as_slice());
                            },
                        }
                        out.append("\")");
                        out
                    },
                    None => String::from_str("opened"),
                }
            },
            PortStatus::Closed => String::from_str("closed"),
            PortStatus::Filtered => String::from_str("filtered"),
        }
    }
}

/// A run of blanks.
pub open spec fn spaces(k: int) -> Seq<char>
    decreases k,
{
    if k <= 0 {
        Seq::empty()
    } else {
        spaces(k - 1).push(' ')
    }
}

/// The number's decimal rendering, blank-padded on the left to five columns.
pub open spec fn padded_port_text(n: u16) -> Seq<char> {
    spaces(5 - dec_rep(n as nat).len()) + dec_rep(n as nat)
}

/// One report line for a port: the padded number, then the status.
pub open spec fn port_line_text(p: Port) -> Seq<char> {
    padded_port_text(p.num) + ": "@ + status_text(p.status)
}

/// The decimal rendering of `n` has one digit per power of ten.
proof fn lemma_dec_rep_len(n: nat)
    requires
        n < 100000,
    ensures
        dec_rep(n).len() == if n < 10 {
            1int
        } else if n < 100 {
            2int
        } else if n < 1000 {
            3int
        } else if n < 10000 {
            4int
        } else {
            5int
        },
    decreases n,
{
    if n >= 10 {
        lemma_dec_rep_len(n / 10);
    }
}

impl Port {
    /// True when the connection to this port succeeded.
    pub fn is_open(&self) -> (r: bool)
        ensures
            r == (self.status is Opened),
    {
        match self.status {
            PortStatus::Opened { .. } => true,
            _ => false,
        }
    }

    /// True when the port is open and the service sent a banner.
    pub fn has_banner(&self) -> (r: bool)
        ensures
            r == (self.status matches PortStatus::Opened { banner } && banner is Some),
    {
        match self.status {
            PortStatus::Opened { ref banner } => banner.is_some(),
            _ => false,
        }
    }

    /// Renders the full report line for this port.
    pub fn describe(&self) -> (r: String)
        ensures
            r@ == port_line_text(*self),
    {
        let mut out = String::new();
        let pad: usize = if self.num >= 10000 {
            0
        } else if self.num >= 1000 {
            1
        } else if self.num >= 100 {
            2
        } else if self.num >= 10 {
            3
        } else {
            4
        };
        proof {
            lemma_dec_rep_len(self.num as nat);
            assert(out@ =~= spaces(0));
        }
        let mut k: usize = 0;
        while k < pad
            invariant
                k <= pad,
                out@ == spaces(k as int),
            decreases pad - k,
        {
            push_char(&mut out, ' ');
            k = k + 1;
        }
        assert(pad == 5 - dec_rep(self.num as nat).len());
        push_decimal(&mut out, self.num);
        out.append(": ");
        let status = self.status.describe();
        out.append(status.as_str());
        proof {
            assert(out@ =~= port_line_text(*self));
        }
        out
    }
}

/// How many entries of a bit sequence are set.
pub open spec fn count_true(s: Seq<bool>) -> nat
    decreases s.len(),
{
    if s.len() == 0 {
        0
    } else {
        count_true(s.drop_last()) + if s.last() {
            1nat
        } else {
            0nat
        }
    }
}

/// Counting a prefix one entry longer adds that entry's bit.
pub proof fn lemma_count_true_take_step(s: Seq<bool>, k: int)
    requires
        0 <= k < s.len(),
    ensures
        count_true(s.take(k + 1)) == count_true(s.take(k)) + if s[k] {
            1nat
        } else {
            0nat
        },
{
    assert(s.take(k + 1).drop_last() =~= s.take(k));
    assert(s.take(k + 1).last() == s[k]);
}

/// The count never exceeds the length.
pub proof fn lemma_count_true_le_len(s: Seq<bool>)
    ensures
        count_true(s) <= s.len(),
    decreases s.len(),
{
    if s.len() > 0 {
        lemma_count_true_le_len(s.drop_last());
    }
}

/// Whether bit `p` is set in a byte string, eight bits per byte, least
/// significant bit first.
pub open spec fn bit_at(bytes: Seq<u8>, p: int) -> bool
    recommends
        0 <= p < 8 * bytes.len(),
{
    ((bytes[p / 8] >> ((p % 8) as u8)) & 1) == 1
}

proof fn lemma_u16_split(p: u16)
    by (bit_vector)
    ensures
        p >> 3 == p / 8,
        (p & 7) == p % 8,
        p >> 3 < 8192,
        (p & 7) < 8,
{
}

proof fn lemma_bit_zero(c: u8)
    by (bit_vector)
    ensures
        ((0u8 >> c) & 1) != 1,
{
}

proof fn lemma_bit_test(x: u8, b: u8)
    by (bit_vector)
    requires
        b < 8,
    ensures
        (x & (1u8 << b) != 0) == (((x >> b) & 1) == 1),
{
}

proof fn lemma_bit_set(x: u8, b: u8, c: u8)
    by (bit_vector)
    requires
        b < 8,
        c < 8,
    ensures
        ((x | (1u8 << b)) >> c) & 1 == if b == c {
            1u8
        } else {
            (x >> c) & 1
        },
{
}

proof fn lemma_bit_clear(x: u8, b: u8, c: u8)
    by (bit_vector)
    requires
        b < 8,
        c < 8,
    ensures
        ((x & (0xffu8 ^ (1u8 << b))) >> c) & 1 == if b == c {
            0u8
        } else {
            (x >> c) & 1
        },
{
}

/// Two ports agreeing on byte index and bit index are the same port.
proof fn lemma_same_cell(p: int, q: int)
    requires
        0 <= p,
        0 <= q,
        p / 8 == q / 8,
        p % 8 == q % 8,
    ensures
        p == q,
{
    vstd::arithmetic::div_mod::lemma_fundamental_div_mod(p, 8);
    vstd::arithmetic::div_mod::lemma_fundamental_div_mod(q, 8);
}

/// The set of ports selected for a scan: one membership bit for each of the
/// 65536 TCP ports.
#[derive(Debug)]
pub struct PortsList {
    bits: Vec<u8>,
}

impl View for PortsList {
    type V = Seq<bool>;

    /// The membership bit of every port, in port order.
    closed spec fn view(&self) -> Seq<bool> {
        Seq::new(65536, |p: int| bit_at(self.bits@, p))
    }
}

/// A well-formed port set has one membership bit for every port.
pub broadcast proof fn lemma_ports_list_len(s: PortsList)
    requires
        s.wf(),
    ensures
        (#[trigger] s@).len() == 65536,
{
}

impl PortsList {
    /// The byte vector has one bit for every port.
    pub closed spec fn wf(self) -> bool {
        self.bits@.len() == 8192
    }

    /// An empty set: no port is a member.
    pub fn new() -> (r: Self)
        ensures
            r.wf(),
            r@.len() == 65536,
            forall|p: int| 0 <= p < 65536 ==> !r@[p],
    {
        let mut bits: Vec<u8> = Vec::new();
        let mut i: usize = 0;
        while i < 8192
            invariant
                i <= 8192,
                bits@.len() == i,
                forall|j: int| 0 <= j < i ==> bits@[j] == 0u8,
            decreases 8192 - i,
        {
            bits.push(0u8);
            i = i + 1;
        }
        let r = PortsList { bits };
        proof {
            assert forall|p: int| 0 <= p < 65536 implies !r@[p] by {
                assert(0 <= p / 8 < 8192);
                assert(r.bits@[p / 8] == 0u8);
                lemma_bit_zero((p % 8) as u8);
            }
        }
        r
    }

    /// How many ports are members.
    pub fn len(&self) -> (r: usize)
        requires
            self.wf(),
        ensures
            r == count_true(self@),
    {
        let mut total: usize = 0;
        let mut j: usize = 0;
        proof {
            assert(self@.take(0) =~= Seq::<bool>::empty());
        }
        while j < 8192
            invariant
                self.wf(),
                j <= 8192,
                total == count_true(self@.take(8 * j)),
                total <= 8 * j,
            decreases 8192 - j,
        {
            let c = popcount(self.bits[j]);
            proof {
                lemma_count_true_le_len(self@.take(8 * j));
                let byte = self.bits@[j as int];
                assert forall|t: int| 0 <= t < 8 implies #[trigger] self@[8 * j + t] == (((
                byte >> (t as u8)) & 1) == 1) by {
                    lemma_fundamental_div_mod_converse(8 * j + t, 8, j as int, t);
                }
                lemma_byte_window(self@, self.bits@[j as int], 8 * (j as int), 8);
            }
            total = total + c as usize;
            j = j + 1;
        }
        proof {
            assert(self@.take(65536int) =~= self@);
        }
        total
    }

    /// Whether `port` is a member.
    pub fn contains(&self, port: u16) -> (r: bool)
        requires
            self.wf(),
        ensures
            r == self@[port as int],
    {
        proof {
            lemma_u16_split(port);
            lemma_bit_test(self.bits@[(port >> 3) as int], (port & 7) as u8);
        }
        let index = (port >> 3) as usize;
        let bit = (port & 7) as u8;
        self.bits[index] & (1u8 << bit) != 0
    }

    /// Makes `port` a member; every other port keeps its bit.
    pub fn add_port(&mut self, port: u16)
        requires
            old(self).wf(),
        ensures
            final(self).wf(),
            final(self)@ == old(self)@.update(port as int, true),
    {
        proof {
            lemma_u16_split(port);
        }
        let index = (port >> 3) as usize;
        let bit = (port & 7) as u8;
        self.bits[index] = self.bits[index] | (1u8 << bit);
        proof {
            assert forall|q: int| 0 <= q < 65536 implies self@[q] == old(self)@.update(
                port as int,
                true,
            )[q] by {
                assert(0 <= q / 8 < 8192);
                if q / 8 == index {
                    lemma_bit_set(old(self).bits@[q / 8], bit, (q % 8) as u8);
                    if q % 8 == port % 8 {
                        lemma_same_cell(q, port as int);
                    }
                } else {
                    assert(self.bits@[q / 8] == old(self).bits@[q / 8]);
                }
            }
            assert(self@ =~= old(self)@.update(port as int, true));
        }
    }

    /// Removes `port` from the members; every other port keeps its bit.
    pub fn remove_port(&mut self, port: u16)
        requires
            old(self).wf(),
        ensures
            final(self).wf(),
            final(self)@ == old(self)@.update(port as int, false),
    {
        proof {
            lemma_u16_split(port);
        }
        let index = (port >> 3) as usize;
        let bit = (port & 7) as u8;
        self.bits[index] = self.bits[index] & (0xffu8 ^ (1u8 << bit));
        proof {
            assert forall|q: int| 0 <= q < 65536 implies self@[q] == old(self)@.update(
                port as int,
                false,
            )[q] by {
                assert(0 <= q / 8 < 8192);
                if q / 8 == index {
                    lemma_bit_clear(old(self).bits@[q / 8], bit, (q % 8) as u8);
                    if q % 8 == port % 8 {
                        lemma_same_cell(q, port as int);
                    }
                } else {
                    assert(self.bits@[q / 8] == old(self).bits@[q / 8]);
                }
            }
            assert(self@ =~= old(self)@.update(port as int, false));
        }
    }

    /// Makes every listed port a member.
    pub fn add_ports(&mut self, ports: &[u16])
        requires
            old(self).wf(),
        ensures
            final(self).wf(),
            forall|q: int|
                0 <= q < 65536 ==> (final(self)@[q] <==> old(self)@[q] || ports@.contains(
                    q as u16,
                )),
    {
        let n = ports.len();
        let mut i: usize = 0;
        while i < n
            invariant
                self.wf(),
                i <= n,
                n == ports@.len(),
                forall|q: int|
                    0 <= q < 65536 ==> (self@[q] <==> old(self)@[q] || exists|j: int|
                        0 <= j < i && ports@[j] == q as u16),
            decreases n - i,
        {
            self.add_port(ports[i]);
            i = i + 1;
        }
    }

    /// Removes every listed port from the members.
    pub fn remove_ports(&mut self, ports: &[u16])
        requires
            old(self).wf(),
        ensures
            final(self).wf(),
            forall|q: int|
                0 <= q < 65536 ==> (final(self)@[q] <==> old(self)@[q] && !ports@.contains(
                    q as u16,
                )),
    {
        let n = ports.len();
        let mut i: usize = 0;
        while i < n
            invariant
                self.wf(),
                i <= n,
                n == ports@.len(),
                forall|q: int|
                    0 <= q < 65536 ==> (self@[q] <==> old(self)@[q] && !(exists|j: int|
                        0 <= j < i && ports@[j] == q as u16)),
            decreases n - i,
        {
            self.remove_port(ports[i]);
            i = i + 1;
        }
    }

    /// A fresh iterator over the members, in ascending numeric order,
    /// starting from port 1.
    pub fn iter<'a>(&'a self) -> (r: PortsListIterator<'a>)
        ensures
            r.list() == *self,
            r.pos() == 1,
    {
        PortsListIterator { ports_list: self, current: 1 }
    }
}

/// Counting the bits of one byte's window of the view adds that byte's
/// population count.
proof fn lemma_byte_window(s: Seq<bool>, b: u8, base: int, k: int)
    requires
        0 <= base,
        base + 8 <= s.len(),
        0 <= k <= 8,
        forall|t: int| 0 <= t < 8 ==> #[trigger] s[base + t] == (((b >> (t as u8)) & 1)
            == 1),
    ensures
        count_true(s.take(base + k)) == count_true(s.take(base)) + bits_upto(b, k),
    decreases k,
{
    if k > 0 {
        lemma_byte_window(s, b, base, k - 1);
        lemma_count_true_take_step(s, base + k - 1);
    }
}

/// How many of the low `k` bits of a byte are set.
pub open spec fn bits_upto(b: u8, k: int) -> nat
    decreases k,
{
    if k <= 0 {
        0
    } else {
        bits_upto(b, k - 1) + if ((b >> ((k - 1) as u8)) & 1) == 1 {
            1nat
        } else {
            0nat
        }
    }
}

/// Counts the set bits of one byte.
fn popcount(b: u8) -> (c: u8)
    ensures
        c == bits_upto(b, 8),
        c <= 8,
{
    let mut c: u8 = 0;
    let mut k: u8 = 0;
    while k < 8
        invariant
            k <= 8,
            c == bits_upto(b, k as int),
            c <= k,
        decreases 8 - k,
    {
        if (b >> k) & 1 == 1 {
            c = c + 1;
        }
        k = k + 1;
    }
    c
}

/// Law of membership: after adding a port it is a member, after removing it
/// it is not, and either way every other port keeps its membership bit.
/// `add_port` and `remove_port` state their effect as these updates, and
/// `contains` reads the same view, so adding then testing answers true and
/// removing then testing answers false, for every port.
pub proof fn lemma_membership_after_update(s: Seq<bool>, p: u16, q: u16)
    requires
        s.len() == 65536,
    ensures
        s.update(p as int, true)[p as int],
        !s.update(p as int, false)[p as int],
        p != q ==> s.update(p as int, true)[q as int] == s[q as int],
        p != q ==> s.update(p as int, false)[q as int] == s[q as int],
{
}

/// Walks the members of a `PortsList` upward through the port space.
pub struct PortsListIterator<'a> {
    ports_list: &'a PortsList,
    current: usize,
}

impl<'a> PortsListIterator<'a> {
    /// The set being walked.
    pub closed spec fn list(self) -> PortsList {
        *self.ports_list
    }

    /// The next port number the walk will consider.
    pub closed spec fn pos(self) -> int {
        self.current as int
    }

    /// Yields the smallest member at or after the current position, or
    /// nothing when no member is left.
    pub fn next(&mut self) -> (r: Option<u16>)
        requires
            old(self).list().wf(),
            old(self).pos() <= 0x10000,
        ensures
            final(self).list() == old(self).list(),
            match r {
                Some(p) => {
                    &&& old(self).pos() <= p as int <= 0xffff
                    &&& old(self).list()@[p as int]
                    &&& forall|q: int| old(self).pos() <= q < p as int ==> !old(self).list()@[q]
                    &&& final(self).pos() == p as int + 1
                },
                None => {
                    &&& final(self).pos() == 0x10000
                    &&& forall|q: int| old(self).pos() <= q < 0x10000 ==> !old(self).list()@[q]
                },
            },
    {
        while self.current <= 0xffff
            invariant
                self.list() == old(self).list(),
                self.list().wf(),
                old(self).pos() <= self.pos() <= 0x10000,
                forall|q: int| old(self).pos() <= q < self.pos() ==> !self.list()@[q],
            decreases 0x10000 - self.pos(),
        {
            let port = self.current as u16;
            self.current = self.current + 1;
            if self.ports_list.contains(port) {
                return Some(port);
            }
        }
        None
    }
}

} // verus!
