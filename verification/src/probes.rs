//! The protocol identification engine.
//!
//! The engine holds a fixed, ordered registry of probes and identifies the
//! protocol behind an open, bannerless port in two passes: first every
//! probe that prefers the port, then every probe that does not, in
//! registration order within each pass, stopping at the first recognition.
//! Each attempt is raced against the read timeout by the runtime; an
//! attempt that errors or times out counts as nothing recognized and never
//! aborts the engine.

use vstd::prelude::*;

pub mod dns;
pub mod http;
pub mod tls;

pub use dns::DnsProbe;
pub use http::HttpProbe;
pub use tls::TlsProbe;

verus! {

/// What one probe concluded. Never an error: probe-level failures degrade
/// to `Unknown`.
#[derive(Debug, PartialEq, Eq, Structural)]
pub enum ProbeStatus {
    /// The peer speaks this probe's protocol.
    Recognized,
    /// The peer does not, or the exchange failed.
    Unknown,
}

/// The registered probes, by protocol.
#[derive(Clone, Copy, Debug, PartialEq, Eq, Structural)]
pub enum ProbeKind {
    Http,
    Dns,
    Tls,
}

/// How one raced probe attempt ended.
#[derive(Debug)]
pub enum ProbeAttempt {
    /// The probe ran to completion with this conclusion.
    Finished(ProbeStatus),
    /// The probe's exchange failed with an error.
    Failed,
    /// The timer won the race.
    TimedOut,
}

/// The fixed probe registry, in registration order.
pub open spec fn registered_probes() -> Seq<ProbeKind> {
    seq![ProbeKind::Http, ProbeKind::Dns, ProbeKind::Tls]
}

/// Whether a probe prefers a port: the port is statistically associated
/// with the probe's protocol.
pub open spec fn preferred_spec(k: ProbeKind, port: u16) -> bool {
    match k {
        ProbeKind::Http => port == 80 || port == 81 || port == 3128 || port == 8000 || port
            == 8080,
        ProbeKind::Dns => port == 53 || port == 5353,
        ProbeKind::Tls => port == 443 || port == 465 || port == 636 || port == 993 || port
            == 995 || port == 8443,
    }
}

/// The order in which the engine tries probes against a port: the probes
/// preferring the port first, then the rest, in registration order within
/// each pass.
pub open spec fn plan_spec(port: u16) -> Seq<ProbeKind> {
    registered_probes().filter(|k: ProbeKind| preferred_spec(k, port)) + registered_probes()
        .filter(|k: ProbeKind| !preferred_spec(k, port))
}

/// The registered probes, in registration order.
pub fn registry() -> (r: Vec<ProbeKind>)
    ensures
        r@ == registered_probes(),
{
    let mut v: Vec<ProbeKind> = Vec::new();
    v.push(ProbeKind::Http);
    v.push(ProbeKind::Dns);
    v.push(ProbeKind::Tls);
    proof {
        assert(v@ =~= registered_probes());
    }
    v
}

/// Whether this probe prefers the port.
pub fn is_preferred_port(k: ProbeKind, port: u16) -> (r: bool)
    ensures
        r == preferred_spec(k, port),
{
    match k {
        ProbeKind::Http => (HttpProbe).is_prefered_port(port),
        ProbeKind::Dns => (DnsProbe).is_prefered_port(port),
        ProbeKind::Tls => (TlsProbe).is_prefered_port(port),
    }
}

/// Filtering one more element keeps it exactly when the predicate holds.
proof fn lemma_filter_take_step(s: Seq<ProbeKind>, pred: spec_fn(ProbeKind) -> bool, i: int)
    requires
        0 <= i < s.len(),
    ensures
        s.take(i + 1).filter(pred) == if pred(s[i]) {
            s.take(i).filter(pred).push(s[i])
        } else {
            s.take(i).filter(pred)
        },
{
    reveal(Seq::filter);
    assert(s.take(i + 1).drop_last() =~= s.take(i));
    assert(s.take(i + 1).last() == s[i]);
}

/// The engine's probing order for a port: both passes, laid out.
pub fn probe_plan(port: u16) -> (r: Vec<ProbeKind>)
    ensures
        r@ == plan_spec(port),
{
    let all = registry();
    let n = all.len();
    let mut r: Vec<ProbeKind> = Vec::new();
    proof {
        reveal(Seq::filter);
        assert(registered_probes().take(0) =~= Seq::<ProbeKind>::empty());
    }
    let mut i: usize = 0;
    while i < n
        invariant
            i <= n,
            n == registered_probes().len(),
            all@ == registered_probes(),
            r@ == registered_probes().take(i as int).filter(
                |k: ProbeKind| preferred_spec(k, port),
            ),
        decreases n - i,
    {
        proof {
            lemma_filter_take_step(
                registered_probes(),
                |k: ProbeKind| preferred_spec(k, port),
                i as int,
            );
        }
        if is_preferred_port(all[i], port) {
            r.push(all[i]);
        }
        i = i + 1;
    }
    let ghost pass1 = r@;
    proof {
        assert(registered_probes().take(3) =~= registered_probes());
        assert(pass1 + registered_probes().take(0).filter(
            |k: ProbeKind| !preferred_spec(k, port),
        ) =~= pass1);
    }
    let mut i: usize = 0;
    while i < n
        invariant
            i <= n,
            n == registered_probes().len(),
            all@ == registered_probes(),
            r@ == pass1 + registered_probes().take(i as int).filter(
                |k: ProbeKind| !preferred_spec(k, port),
            ),
        decreases n - i,
    {
        proof {
            lemma_filter_take_step(
                registered_probes(),
                |k: ProbeKind| !preferred_spec(k, port),
                i as int,
            );
        }
        if !is_preferred_port(all[i], port) {
            r.push(all[i]);
        }
        i = i + 1;
    }
    proof {
        assert(registered_probes().take(3) =~= registered_probes());
        assert(r@ =~= plan_spec(port));
    }
    r
}

/// Law of exhaustive identification: whatever the port, the two passes
/// together try every registered probe, and none twice, so a peer that
/// some probe would recognize is found even on a non-standard port.
pub proof fn lemma_plan_tries_every_probe(port: u16)
    ensures
        plan_spec(port).len() == registered_probes().len(),
        forall|k: ProbeKind| #[trigger] plan_spec(port).contains(k) <==> registered_probes()
            .contains(k),
        forall|i: int, j: int|
            0 <= i < j < plan_spec(port).len() ==> plan_spec(port)[i] != plan_spec(port)[j],
{
    reveal_with_fuel(Seq::filter, 5);
    let reg = registered_probes();
    let pref = reg.filter(|k: ProbeKind| preferred_spec(k, port));
    let rest = reg.filter(|k: ProbeKind| !preferred_spec(k, port));
    assert(reg.drop_last() =~= seq![ProbeKind::Http, ProbeKind::Dns]);
    assert(reg.drop_last().drop_last() =~= seq![ProbeKind::Http]);
    assert(reg.drop_last().drop_last().drop_last() =~= Seq::<ProbeKind>::empty());
    assert(reg.contains(ProbeKind::Http)) by {
        assert(reg[0] == ProbeKind::Http);
    }
    assert(reg.contains(ProbeKind::Dns)) by {
        assert(reg[1] == ProbeKind::Dns);
    }
    assert(reg.contains(ProbeKind::Tls)) by {
        assert(reg[2] == ProbeKind::Tls);
    }
    assert forall|k: ProbeKind| #[trigger] plan_spec(port).contains(k) implies reg.contains(
        k,
    ) by {
        let i = choose|i: int| 0 <= i < plan_spec(port).len() && plan_spec(port)[i] == k;
        if i < pref.len() {
            assert(pref[i] == k);
        } else {
            assert(rest[i - pref.len()] == k);
        }
    }
    assert forall|k: ProbeKind| reg.contains(k) implies #[trigger] plan_spec(port).contains(
        k,
    ) by {
        let j = choose|j: int| 0 <= j < reg.len() && reg[j] == k;
        if preferred_spec(k, port) {
            reg.lemma_filter_contains(|k: ProbeKind| preferred_spec(k, port), j);
            let i = choose|i: int| 0 <= i < pref.len() && pref[i] == k;
            assert(plan_spec(port)[i] == k);
        } else {
            reg.lemma_filter_contains(|k: ProbeKind| !preferred_spec(k, port), j);
            let i = choose|i: int| 0 <= i < rest.len() && rest[i] == k;
            assert(plan_spec(port)[pref.len() + i] == k);
        }
    }
}

/// What one raced attempt contributes to the engine: a completed probe's
/// own conclusion; everything else counts as `Unknown`.
pub fn probe_attempt_status(attempt: ProbeAttempt) -> (r: ProbeStatus)
    ensures
        r == match attempt {
            ProbeAttempt::Finished(s) => s,
            ProbeAttempt::Failed => ProbeStatus::Unknown,
            ProbeAttempt::TimedOut => ProbeStatus::Unknown,
        },
{
    match attempt {
        ProbeAttempt::Finished(s) => s,
        ProbeAttempt::Failed => ProbeStatus::Unknown,
        ProbeAttempt::TimedOut => ProbeStatus::Unknown,
    }
}

/// The probe the engine settles on, given what each attempt in plan order
/// concluded: the first recognition, and none when nothing is recognized.
/// The engine stops there; attempts past the answer are never made.
pub fn first_recognized(outcomes: &Vec<ProbeStatus>) -> (r: Option<usize>)
    ensures
        match r {
            Some(i) => {
                &&& i < outcomes@.len()
                &&& outcomes@[i as int] is Recognized
                &&& forall|j: int| 0 <= j < i ==> !(outcomes@[j] is Recognized)
            },
            None => forall|j: int| 0 <= j < outcomes@.len() ==> !(outcomes@[j] is Recognized),
        },
{
    let n = outcomes.len();
    let mut i: usize = 0;
    while i < n
        invariant
            i <= n,
            n == outcomes@.len(),
            forall|j: int| 0 <= j < i ==> !(outcomes@[j] is Recognized),
        decreases n - i,
    {
        if matches!(outcomes[i], ProbeStatus::Recognized) {
            return Some(i);
        }
        i = i + 1;
    }
    None
}

} // verus!
