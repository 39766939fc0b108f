//! The port registry: the authoritative desired-state model.
//!
//! Three sets of ports — manually added, discovered from the process
//! manager, discovered from the reverse proxy — whose union is the set of
//! ports that should be forwarded. Manual membership changes only through
//! explicit add/remove; the two discovered sets are replaced wholesale on
//! every detection cycle, so stale discoveries never survive.

use vstd::prelude::*;
use vstd::string::StringExecFns;
use std::collections::BTreeSet;

verus! {

/// Copy every element of `src` into `dst`.
fn insert_all(dst: &mut BTreeSet<u16>, src: &BTreeSet<u16>)
    ensures
        final(dst)@ == old(dst)@ + src@,
{
    let ghost dst0: Set<u16> = dst@;
    for x in it: src.iter()
        invariant
            dst@ =~= dst0 + it.seq().unref().take(it.index()).to_set(),
            it.seq().unref().to_set() == src@,
            it.index() == it.seq().len() ==> dst@ =~= dst0 + src@,
    {
        let ghost k: int = it.index();
        dst.insert(*x);
        proof {
            assert(it.seq().unref().take(k + 1) =~= it.seq().unref().take(k).push(
                it.seq().unref()[k],
            ));
            it.seq().unref().take(k).lemma_push_to_set_commute(it.seq().unref()[k]);
            assert(dst@ =~= dst0 + it.seq().unref().take(k + 1).to_set());
            assert(it.seq().unref().take(it.seq().len() as int) =~= it.seq().unref());
        }
    }
    proof {
        assert(dst@ =~= dst0 + src@);
    }
}

/// The persisted desired state: three possibly-overlapping port sets.
#[derive(Debug, Clone)]
pub struct PortsConfig {
    pub manual_ports: BTreeSet<u16>,
    pub pm2_ports: BTreeSet<u16>,
    pub caddy_ports: BTreeSet<u16>,
}

impl PortsConfig {
    /// The union of the three sets, as a mathematical set of ports.
    pub open spec fn spec_all_ports(self) -> Set<u16> {
        self.manual_ports@ + self.pm2_ports@ + self.caddy_ports@
    }

    /// The union of manual, process-manager and proxy ports, deduplicated.
    pub fn all_ports(&self) -> (r: BTreeSet<u16>)
        ensures
            r@ == self.spec_all_ports(),
    {
        let mut r: BTreeSet<u16> = BTreeSet::new();
        insert_all(&mut r, &self.manual_ports);
        insert_all(&mut r, &self.pm2_ports);
        insert_all(&mut r, &self.caddy_ports);
        proof {
            assert(r@ =~= self.spec_all_ports());
        }
        r
    }

    /// Insert a port into the manual set; `true` iff it was newly inserted.
    /// Re-adding an existing port is not an error. Discovered sets are
    /// untouched.
    pub fn add_manual_port(&mut self, port: u16) -> (inserted: bool)
        ensures
            final(self).manual_ports@ == old(self).manual_ports@.insert(port),
            inserted == !old(self).manual_ports@.contains(port),
            final(self).pm2_ports@ == old(self).pm2_ports@,
            final(self).caddy_ports@ == old(self).caddy_ports@,
    {
        self.manual_ports.insert(port)
    }

    /// Remove a port from the manual set; `true` iff it was present.
    /// Discovered sets are untouched.
    pub fn remove_manual_port(&mut self, port: u16) -> (removed: bool)
        ensures
            final(self).manual_ports@ == old(self).manual_ports@.remove(port),
            removed == old(self).manual_ports@.contains(port),
            final(self).pm2_ports@ == old(self).pm2_ports@,
            final(self).caddy_ports@ == old(self).caddy_ports@,
    {
        self.manual_ports.remove(&port)
    }

    /// Replace both discovered sets wholesale. This is how stale discovered
    /// ports from a previous cycle are retired: nothing is merged.
    pub fn set_detected_ports(&mut self, pm2_ports: BTreeSet<u16>, caddy_ports: BTreeSet<u16>)
        ensures
            final(self).manual_ports@ == old(self).manual_ports@,
            final(self).pm2_ports@ == pm2_ports@,
            final(self).caddy_ports@ == caddy_ports@,
    {
        self.pm2_ports = pm2_ports;
        self.caddy_ports = caddy_ports;
    }
}

impl Default for PortsConfig {
    /// The registry an absent persisted state defaults to: all three sets empty.
    fn default() -> (r: Self)
        ensures
            r.manual_ports@ == Set::<u16>::empty(),
            r.pm2_ports@ == Set::<u16>::empty(),
            r.caddy_ports@ == Set::<u16>::empty(),
    {
        PortsConfig {
            manual_ports: BTreeSet::new(),
            pm2_ports: BTreeSet::new(),
            caddy_ports: BTreeSet::new(),
        }
    }
}

/// Adding a port that is not manually present and then removing it again
/// restores the manual set: over the set updates that `add_manual_port`
/// and `remove_manual_port` promise, the round trip is the identity.
pub proof fn lemma_add_remove_manual_round_trip(cfg: PortsConfig, port: u16)
    requires
        !cfg.manual_ports@.contains(port),
    ensures
        cfg.manual_ports@.insert(port).remove(port) == cfg.manual_ports@,
{
    assert(cfg.manual_ports@.insert(port).remove(port) =~= cfg.manual_ports@);
}

/// `set_detected_ports` replaces the discovered sets wholesale: once both
/// are replaced by empty sets, the union holds exactly the manual ports,
/// whatever had been discovered before.
pub proof fn lemma_detected_fully_replaced(cfg: PortsConfig, cleared: PortsConfig)
    requires
        cleared.manual_ports@ == cfg.manual_ports@,
        cleared.pm2_ports@ == Set::<u16>::empty(),
        cleared.caddy_ports@ == Set::<u16>::empty(),
    ensures
        cleared.spec_all_ports() == cfg.manual_ports@,
{
    assert(cleared.spec_all_ports() =~= cfg.manual_ports@);
}

/// Where the registry is persisted, below the platform's configuration
/// directory. The caller resolves that directory and hands it in as a path
/// string; the result appends this tool's subdirectory and file name.
pub fn config_path(base_dir: &str) -> (r: String)
    ensures
        r@ == base_dir@ + "/wsl-port-forwarder/ports.toml"@,
{
    let mut s = base_dir.to_owned();
    s.append("/wsl-port-forwarder/ports.toml");
    s
}

/// Reject a zero port from user input before any I/O happens.
/// Every nonzero port is accepted.
pub fn ensure_valid_port(port: u16) -> (r: Result<(), String>)
    ensures
        r is Ok <==> port != 0,
        r matches Err(m) ==> m@ == "port 0 is invalid"@,
{
    if port == 0 {
        Err("port 0 is invalid".to_owned())
    } else {
        Ok(())
    }
}

} // verus!
