//! The rule-application protocol against the host's NAT primitive.
//!
//! For each desired port, in order: first a delete of any existing rule for
//! that listen port (its outcome is ignored — the rule may legitimately not
//! exist, and the primitive has no delete-if-exists), then an add that
//! forwards the port to the guest address (its failure is fatal and stops
//! the remaining ports). The library builds the exact command strings and
//! decides, through [`RuleSynchronizer`], which command comes next and when
//! to stop; running the commands is the caller's job, who reports back
//! through [`RuleSynchronizer::record_delete_issued`] and
//! [`RuleSynchronizer::record_add_outcome`].

use vstd::prelude::*;
use vstd::string::StringExecFns;
use crate::net::Ipv4;

verus! {

/// The digit character for a value below ten.
pub open spec fn digit_char(d: int) -> char {
    ((48 + d) as u8) as char
}

/// The decimal digits of a non-negative number, most significant first.
pub open spec fn dec_digits(n: int) -> Seq<char>
    decreases n,
{
    if n < 10 {
        seq![digit_char(n)]
    } else {
        dec_digits(n / 10).push(digit_char(n % 10))
    }
}

/// Append the digit character for `d`.
fn append_digit(s: &mut String, d: u16)
    requires
        d < 10,
    ensures
        final(s)@ == old(s)@.push(digit_char(d as int)),
{
    let lit: &str = match d {
        0 => "0",
        1 => "1",
        2 => "2",
        3 => "3",
        4 => "4",
        5 => "5",
        6 => "6",
        7 => "7",
        8 => "8",
        _ => "9",
    };
    proof {
        reveal_strlit("0");
        reveal_strlit("1");
        reveal_strlit("2");
        reveal_strlit("3");
        reveal_strlit("4");
        reveal_strlit("5");
        reveal_strlit("6");
        reveal_strlit("7");
        reveal_strlit("8");
        reveal_strlit("9");
        assert(lit@ =~= seq![digit_char(d as int)]);
    }
    s.append(lit);
    proof {
        assert(s@ =~= old(s)@.push(digit_char(d as int)));
    }
}

/// Append the decimal spelling of `n`.
fn append_u16_dec(s: &mut String, n: u16)
    ensures
        final(s)@ == old(s)@ + dec_digits(n as int),
    decreases n,
{
    if n < 10 {
        append_digit(s, n);
        proof {
            assert(s@ =~= old(s)@ + dec_digits(n as int));
        }
    } else {
        append_u16_dec(s, n / 10);
        append_digit(s, n % 10);
        proof {
            assert(s@ =~= old(s)@ + dec_digits(n as int));
        }
    }
}

/// The dotted-quad spelling of an address.
pub open spec fn spec_ipv4_string(ip: Ipv4) -> Seq<char> {
    dec_digits(ip.a as int) + seq!['.'] + dec_digits(ip.b as int) + seq!['.'] + dec_digits(
        ip.c as int,
    ) + seq!['.'] + dec_digits(ip.d as int)
}

/// Spell an address as `a.b.c.d`.
pub fn ipv4_to_string(ip: &Ipv4) -> (r: String)
    ensures
        r@ == spec_ipv4_string(*ip),
{
    let mut s = String::new();
    append_u16_dec(&mut s, ip.a as u16);
    s.append(".");
    append_u16_dec(&mut s, ip.b as u16);
    s.append(".");
    append_u16_dec(&mut s, ip.c as u16);
    s.append(".");
    append_u16_dec(&mut s, ip.d as u16);
    proof {
        reveal_strlit(".");
        assert(s@ =~= spec_ipv4_string(*ip));
    }
    s
}

/// The netsh command that deletes any forwarding rule for a listen port on
/// the wildcard listen address.
pub open spec fn spec_delete_command(port: u16) -> Seq<char> {
    "netsh interface portproxy delete v4tov4 listenport="@ + dec_digits(port as int)
        + " listenaddress=0.0.0.0"@
}

/// The netsh command that adds a forwarding rule from the wildcard address
/// at `port` to the same port at `ip`.
pub open spec fn spec_add_command(port: u16, ip: Ipv4) -> Seq<char> {
    "netsh interface portproxy add v4tov4 listenport="@ + dec_digits(port as int)
        + " listenaddress=0.0.0.0 connectport="@ + dec_digits(port as int) + " connectaddress="@
        + spec_ipv4_string(ip)
}

/// Build the delete command for one port.
pub fn delete_command(port: u16) -> (r: String)
    ensures
        r@ == spec_delete_command(port),
{
    let mut s = "netsh interface portproxy delete v4tov4 listenport=".to_owned();
    append_u16_dec(&mut s, port);
    s.append(" listenaddress=0.0.0.0");
    proof {
        assert(s@ =~= spec_delete_command(port));
    }
    s
}

/// Build the add command for one port and the guest address.
pub fn add_command(port: u16, ip: &Ipv4) -> (r: String)
    ensures
        r@ == spec_add_command(port, *ip),
{
    let mut s = "netsh interface portproxy add v4tov4 listenport=".to_owned();
    append_u16_dec(&mut s, port);
    s.append(" listenaddress=0.0.0.0 connectport=");
    append_u16_dec(&mut s, port);
    s.append(" connectaddress=");
    let ipstr = ipv4_to_string(ip);
    s.append(ipstr.as_str());
    proof {
        assert(s@ =~= spec_add_command(port, *ip));
    }
    s
}

/// One step of the application protocol: which command the caller must
/// run next, and how its outcome is treated.
#[derive(PartialEq, Eq, Structural, Clone, Copy, Debug)]
pub enum SyncStep {
    /// Remove any stale rule for the pending port. The outcome is ignored:
    /// the rule may legitimately not exist, and the primitive has no
    /// delete-if-exists.
    Delete,
    /// Install the rule for the pending port. A failure is fatal for the
    /// whole run.
    Add,
}

/// Drives one application of a desired port list against the NAT table.
///
/// Commands are handed out one at a time, strictly in list order and, for
/// each port, strictly delete before add. The caller runs each command and
/// reports back: a delete is merely recorded as issued (its outcome is
/// never consulted), an add's outcome decides whether the run continues.
/// After a failed add no further command is handed out.
pub struct RuleSynchronizer {
    pub ip: Ipv4,
    pub ports: Vec<u16>,
    pub next: usize,
    pub in_add: bool,
    pub failed: bool,
}

impl RuleSynchronizer {
    pub open spec fn wf(self) -> bool {
        self.next <= self.ports@.len()
    }

    /// The port being processed now, if the run is still going.
    pub open spec fn spec_pending(self) -> Option<u16> {
        if !self.failed && self.next < self.ports@.len() {
            Some(self.ports@[self.next as int])
        } else {
            None
        }
    }

    /// Start a run for `ports` against guest address `ip`, at the first
    /// port's delete step.
    pub fn new(ip: Ipv4, ports: Vec<u16>) -> (s: Self)
        ensures
            s.ip == ip,
            s.ports == ports,
            s.next == 0,
            !s.in_add,
            !s.failed,
            s.wf(),
    {
        RuleSynchronizer { ip, ports, next: 0, in_add: false, failed: false }
    }

    /// The next command to run, or `None` when every port has been
    /// processed or an add has failed.
    pub fn next_command(&self) -> (r: Option<(SyncStep, String)>)
        requires
            self.wf(),
        ensures
            r is Some <==> self.spec_pending() is Some,
            r matches Some(sc) ==> {
                &&& (sc.0 == SyncStep::Add <==> self.in_add)
                &&& (sc.0 == SyncStep::Delete <==> !self.in_add)
                &&& sc.1@ == if self.in_add {
                    spec_add_command(self.spec_pending()->0, self.ip)
                } else {
                    spec_delete_command(self.spec_pending()->0)
                }
            },
    {
        if !self.failed && self.next < self.ports.len() {
            let port = self.ports[self.next];
            if self.in_add {
                Some((SyncStep::Add, add_command(port, &self.ip)))
            } else {
                Some((SyncStep::Delete, delete_command(port)))
            }
        } else {
            None
        }
    }

    /// The pending port's delete command was run. Its outcome is not even
    /// asked for: the run moves on to the same port's add step regardless.
    pub fn record_delete_issued(&mut self)
        requires
            old(self).wf(),
            old(self).spec_pending() is Some,
            !old(self).in_add,
        ensures
            final(self).ip == old(self).ip,
            final(self).ports == old(self).ports,
            final(self).next == old(self).next,
            final(self).in_add,
            final(self).failed == old(self).failed,
            final(self).wf(),
    {
        self.in_add = true;
    }

    /// The pending port's add command was run: on success the run moves to
    /// the next port's delete step, on failure it halts for good.
    pub fn record_add_outcome(&mut self, add_succeeded: bool)
        requires
            old(self).wf(),
            old(self).spec_pending() is Some,
            old(self).in_add,
        ensures
            final(self).ip == old(self).ip,
            final(self).ports == old(self).ports,
            add_succeeded ==> final(self).next == old(self).next + 1 && !final(self).in_add
                && !final(self).failed,
            !add_succeeded ==> final(self).failed && final(self).next == old(self).next,
            final(self).wf(),
    {
        if add_succeeded {
            let len = self.ports.len();
            proof {
                assert(self.next < len);
            }
            self.next = self.next + 1;
            self.in_add = false;
        } else {
            self.failed = true;
        }
    }

    /// Has the run ended, successfully or not?
    pub fn is_done(&self) -> (r: bool)
        ensures
            r == (self.spec_pending() is None),
    {
        self.failed || self.next >= self.ports.len()
    }

    /// Did the run apply every port?
    pub fn succeeded(&self) -> (r: bool)
        requires
            self.wf(),
        ensures
            r == (!self.failed && self.next == self.ports@.len()),
    {
        !self.failed && self.next == self.ports.len()
    }
}

/// Once an add has failed, no further command is handed out: the ports
/// after the failing one are never touched.
pub proof fn lemma_failure_halts_run(s: RuleSynchronizer)
    requires
        s.failed,
    ensures
        s.spec_pending() is None,
{
}

} // verus!
