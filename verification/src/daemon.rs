//! The daemon's change detection: poll, diff, act only on change.
//!
//! Each cycle computes the guest address and the desired port set anew and
//! compares them with the last pair that was actually applied. Only a
//! difference triggers the rule synchronizer; after a successful
//! application the pair is recorded, so an identical next cycle leaves the
//! NAT table untouched.

use vstd::prelude::*;
use std::collections::BTreeSet;
use crate::net::Ipv4;
use vstd::std_specs::btree::spec_btree_keys_iter;
use vstd::std_specs::iter::IteratorSpec;

verus! {

/// `true` iff the two sets hold the same ports.
fn set_eq(a: &BTreeSet<u16>, b: &BTreeSet<u16>) -> (r: bool)
    ensures
        r == (a@ == b@),
{
    if !ports_subset(a, b) {
        return false;
    }
    if !ports_subset(b, a) {
        return false;
    }
    proof {
        assert(a@ =~= b@);
    }
    true
}

/// `true` iff every port of `a` is also in `b`.
fn ports_subset(a: &BTreeSet<u16>, b: &BTreeSet<u16>) -> (r: bool)
    ensures
        r == a@.subset_of(b@),
{
    for x in it: a.iter()
        invariant
            forall|j: int| 0 <= j < it.index() ==> b@.contains(#[trigger] it.seq().unref()[j]),
            it.seq().unref().to_set() == a@,
    {
        if !b.contains(x) {
            return false;
        }
    }
    proof {
        assert forall|p: u16| a@.contains(p) implies b@.contains(p) by {
            let full = spec_btree_keys_iter(a).remaining().unref();
            assert(full.to_set().contains(p));
            let j = choose|j: int| 0 <= j < full.len() && full[j] == p;
            assert(b@.contains(full[j]));
        }
    }
    true
}

/// What the daemon remembers between cycles: the guest address and port
/// set of the last successful rule application. Nothing is persisted;
/// the state starts empty at daemon start.
pub struct DaemonState {
    pub last_ip: Option<Ipv4>,
    pub last_ports: BTreeSet<u16>,
}

impl DaemonState {
    /// Would a cycle that computed `ip` and `ports` have to reapply the
    /// rules? Initially yes: nothing has been applied.
    pub open spec fn spec_changed(self, ip: Ipv4, ports: Set<u16>) -> bool {
        self.last_ip != Some(ip) || self.last_ports@ != ports
    }

    /// The state at daemon start: nothing applied yet.
    pub fn new() -> (s: Self)
        ensures
            s.last_ip is None,
            s.last_ports@ == Set::<u16>::empty(),
    {
        DaemonState { last_ip: None, last_ports: BTreeSet::new() }
    }

    /// Decide whether this cycle's computed pair differs from the last
    /// applied one, i.e. whether the synchronizer must run.
    pub fn needs_sync(&self, ip: &Ipv4, ports: &BTreeSet<u16>) -> (r: bool)
        ensures
            r == self.spec_changed(*ip, ports@),
    {
        match &self.last_ip {
            None => true,
            Some(prev) => {
                if !(prev.a == ip.a && prev.b == ip.b && prev.c == ip.c && prev.d == ip.d) {
                    true
                } else {
                    !set_eq(&self.last_ports, ports)
                }
            },
        }
    }

    /// Record a successful application of `ports` at `ip`; an identical
    /// next cycle will then skip the synchronizer.
    pub fn record_applied(&mut self, ip: Ipv4, ports: BTreeSet<u16>)
        ensures
            final(self).last_ip == Some(ip),
            final(self).last_ports@ == ports@,
    {
        self.last_ip = Some(ip);
        self.last_ports = ports;
    }
}

/// Two consecutive cycles that compute the identical guest address and
/// port set invoke the synchronizer at most once: once the first
/// application is recorded, the second cycle decides not to sync.
pub proof fn lemma_unchanged_cycle_skips(st: DaemonState, ip: Ipv4, ports: Set<u16>)
    requires
        st.last_ip == Some(ip),
        st.last_ports@ == ports,
    ensures
        !st.spec_changed(ip, ports),
{
}

/// A cycle whose computed address or port set differs from the last
/// applied pair invokes the synchronizer again.
pub proof fn lemma_changed_cycle_syncs(st: DaemonState, ip: Ipv4, ports: Set<u16>)
    requires
        st.last_ip != Some(ip) || st.last_ports@ != ports,
    ensures
        st.spec_changed(ip, ports),
{
}

} // verus!
