//! Accept-time admission control.
//!
//! Bounds the number of concurrent connections — counting EVERY accepted socket
//! for its whole lifetime, including those still in the handshake — and,
//! optionally, the number of concurrent connections per source IP. This closes
//! the pre-auth/half-open resource-exhaustion gap that a post-request,
//! registered-only limit could not (a stalled handshake never reaches the
//! registry, so it would otherwise be uncounted and unbounded).

use std::collections::HashMap;

use vstd::multiset::*;
use vstd::prelude::*;

use crate::net::IpAddr;

verus! {

broadcast use {vstd::std_specs::hash::group_hash_axioms, vstd::multiset::group_multiset_axioms};

/// Connection admission controller. Connections are counted as far as a cap asks
/// for it.
pub struct Admission {
    max_total: Option<usize>,
    max_per_ip: Option<usize>,
    total: usize,
    per_v4: HashMap<u32, usize>,
    per_v6: HashMap<u128, usize>,
    held: Ghost<Multiset<IpAddr>>,
}

/// What an [`Admission`] stands for.
#[verifier::ext_equal]
pub struct AdmissionView {
    /// How many connections may be held at once; any number where `None`.
    pub max_total: Option<usize>,
    /// How many of them may come from one address; any number where `None`.
    pub max_per_ip: Option<usize>,
    /// The source addresses of the connections that are held.
    pub held: Multiset<IpAddr>,
}

/// An admitted slot. The connection's resources are counted until it is handed
/// back to [`Admission::release`] (i.e. for the whole lifetime of the
/// connection).
#[derive(Debug, PartialEq, Eq)]
pub struct Permit {
    ip: IpAddr,
}

impl Permit {
    /// The address that the slot was admitted for.
    pub closed spec fn spec_ip(self) -> IpAddr {
        self.ip
    }

    /// The address that the slot was admitted for.
    pub fn ip(&self) -> (ip: IpAddr)
        ensures
            ip == self.spec_ip(),
    {
        self.ip
    }
}

impl AdmissionView {
    /// Whether a connection from `ip` stays within both caps.
    pub open spec fn admits(self, ip: IpAddr) -> bool {
        &&& self.max_total matches Some(max) ==> self.held.len() < max
        &&& self.max_per_ip matches Some(max) ==> self.held.count(ip) < max
    }

    /// Whether the connections that are held stay within both caps.
    pub open spec fn within_caps(self) -> bool {
        &&& self.max_total matches Some(max) ==> self.held.len() <= max
        &&& self.max_per_ip matches Some(max) ==> forall|ip: IpAddr| #[trigger]
            self.held.count(ip) <= max
    }

    /// After a connection from `ip` was admitted.
    pub open spec fn admitted(self, ip: IpAddr) -> AdmissionView {
        AdmissionView { held: self.held.insert(ip), ..self }
    }

    /// After a connection from `ip` has gone.
    pub open spec fn released(self, ip: IpAddr) -> AdmissionView {
        AdmissionView { held: self.held.remove(ip), ..self }
    }
}

impl View for Admission {
    type V = AdmissionView;

    closed spec fn view(&self) -> AdmissionView {
        AdmissionView { max_total: self.max_total, max_per_ip: self.max_per_ip, held: self.held@ }
    }
}

impl Admission {
    spec fn counted(self, ip: IpAddr) -> nat {
        match ip {
            IpAddr::V4(v4) => if self.per_v4@.contains_key(v4.bits) {
                self.per_v4@[v4.bits] as nat
            } else {
                0
            },
            IpAddr::V6(v6) => if self.per_v6@.contains_key(v6.bits) {
                self.per_v6@[v6.bits] as nat
            } else {
                0
            },
        }
    }

    /// Whether the counts that the caps ask for are those of the connections that
    /// are held, no count of zero is kept, and both caps are kept.
    pub closed spec fn wf(self) -> bool {
        &&& self.max_total is Some ==> self.total == self.held@.len()
        &&& self.max_per_ip is Some ==> forall|ip: IpAddr| #[trigger]
            self.counted(ip) == self.held@.count(ip)
        &&& forall|k: u32| #[trigger] self.per_v4@.contains_key(k) ==> self.per_v4@[k] > 0
        &&& forall|k: u128| #[trigger] self.per_v6@.contains_key(k) ==> self.per_v6@[k] > 0
        &&& self@.within_caps()
    }

    /// Create a controller. `None` for either bound means "unlimited".
    pub fn new(max_total: Option<usize>, max_per_ip: Option<usize>) -> (admission: Admission)
        ensures
            admission@ == (AdmissionView { max_total, max_per_ip, held: Multiset::empty() }),
            admission.wf(),
    {
        Admission {
            max_total,
            max_per_ip,
            total: 0,
            per_v4: HashMap::new(),
            per_v6: HashMap::new(),
            held: Ghost(Multiset::empty()),
        }
    }

    /// How many connections from `ip` are held.
    fn count(&self, ip: IpAddr) -> (count: usize)
        ensures
            count == self.counted(ip),
    {
        match ip {
            IpAddr::V4(v4) => match self.per_v4.get(&v4.bits) {
                Some(count) => *count,
                None => 0,
            },
            IpAddr::V6(v6) => match self.per_v6.get(&v6.bits) {
                Some(count) => *count,
                None => 0,
            },
        }
    }

    /// Set how many connections from `ip` are held, keeping no count of zero.
    fn set_count(&mut self, ip: IpAddr, count: usize)
        ensures
            forall|other: IpAddr| #[trigger]
                final(self).counted(other) == (if other == ip {
                    count as nat
                } else {
                    old(self).counted(other)
                }),
            (forall|k: u32| #[trigger] old(self).per_v4@.contains_key(k) ==> old(self).per_v4@[k] > 0)
                ==> (forall|k: u32| #[trigger]
                final(self).per_v4@.contains_key(k) ==> final(self).per_v4@[k] > 0),
            (forall|k: u128| #[trigger] old(self).per_v6@.contains_key(k) ==> old(self).per_v6@[k] > 0)
                ==> (forall|k: u128| #[trigger]
                final(self).per_v6@.contains_key(k) ==> final(self).per_v6@[k] > 0),
            final(self).max_total == old(self).max_total,
            final(self).max_per_ip == old(self).max_per_ip,
            final(self).total == old(self).total,
            final(self).held == old(self).held,
    {
        match ip {
            IpAddr::V4(v4) => if count == 0 {
                let _ = self.per_v4.remove(&v4.bits);
            } else {
                let _ = self.per_v4.insert(v4.bits, count);
            },
            IpAddr::V6(v6) => if count == 0 {
                let _ = self.per_v6.remove(&v6.bits);
            } else {
                let _ = self.per_v6.insert(v6.bits, count);
            },
        }
    }

    /// Try to admit a connection from `ip`. Returns a [`Permit`] when under both
    /// the global and the per-IP caps, or `None` when either would be exceeded.
    pub fn try_admit(&mut self, ip: IpAddr) -> (permit: Option<Permit>)
        requires
            old(self).wf(),
        ensures
            final(self).wf(),
            permit is Some <==> old(self)@.admits(ip),
            match permit {
                Some(permit) => permit.spec_ip() == ip && final(self)@ == old(self)@.admitted(ip),
                None => final(self)@ == old(self)@,
            },
    {
        if let Some(max) = self.max_total {
            if self.total >= max {
                return None;
            }
        }
        let count: usize = self.count(ip);
        if let Some(max) = self.max_per_ip {
            assert(self.counted(ip) == self.held@.count(ip));
            if count >= max {
                return None;
            }
        }
        if self.max_total.is_some() {
            self.total += 1;
        }
        if self.max_per_ip.is_some() {
            self.set_count(ip, count + 1);
        }
        let ghost counted = *self;
        self.held = Ghost(self.held@.insert(ip));
        proof {
            assert(self@ =~= old(self)@.admitted(ip));
            if self.max_per_ip is Some {
                assert forall|other: IpAddr| #[trigger]
                    self.counted(other) == self.held@.count(other) by {
                    assert(self.counted(other) == counted.counted(other));
                    assert(old(self).counted(other) == old(self).held@.count(other));
                }
            }
            assert(self@.within_caps());
        }
        Some(Permit { ip })
    }

    /// Release an admitted slot: the global and per-IP counts drop by one.
    pub fn release(&mut self, permit: Permit)
        requires
            old(self).wf(),
            old(self)@.held.count(permit.spec_ip()) > 0,
        ensures
            final(self).wf(),
            final(self)@ == old(self)@.released(permit.spec_ip()),
    {
        let ip: IpAddr = permit.ip;
        assert(self.held@.count(ip) <= self.held@.len());
        let count: usize = self.count(ip);
        assert(self.max_per_ip is Some ==> self.counted(ip) == self.held@.count(ip));
        if self.max_total.is_some() {
            self.total -= 1;
        }
        if self.max_per_ip.is_some() {
            self.set_count(ip, count - 1);
        }
        let ghost counted = *self;
        self.held = Ghost(self.held@.remove(ip));
        proof {
            assert(self@ =~= old(self)@.released(ip));
            if self.max_per_ip is Some {
                assert forall|other: IpAddr| #[trigger]
                    self.counted(other) == self.held@.count(other) by {
                    assert(self.counted(other) == counted.counted(other));
                    assert(old(self).counted(other) == old(self).held@.count(other));
                }
            }
            assert(self@.within_caps());
        }
    }
}

/// However connections come and go, neither cap is ever exceeded.
pub proof fn caps_are_kept(admission: Admission)
    requires
        admission.wf(),
    ensures
        admission@.within_caps(),
{
}

/// An admission takes up one slot, and one of its address: no other address has
/// more or fewer connections for it.
pub proof fn an_admission_takes_one_slot(admission: AdmissionView, ip: IpAddr, other: IpAddr)
    requires
        ip != other,
    ensures
        admission.admitted(ip).held.len() == admission.held.len() + 1,
        admission.admitted(ip).held.count(ip) == admission.held.count(ip) + 1,
        admission.admitted(ip).held.count(other) == admission.held.count(other),
        admission.admitted(ip).max_total == admission.max_total,
        admission.admitted(ip).max_per_ip == admission.max_per_ip,
{
}

/// Releasing a slot undoes its admission, so a connection that was refused for
/// want of it is then admitted.
pub proof fn release_undoes_admission(admission: AdmissionView, ip: IpAddr)
    ensures
        admission.admitted(ip).released(ip) == admission,
        admission.within_caps() && admission.admits(ip) ==> admission.admitted(ip).within_caps(),
        admission.within_caps() ==> admission.released(ip).within_caps(),
{
    assert(admission.admitted(ip).released(ip).held =~= admission.held);
    if admission.held.count(ip) == 0 {
        assert(admission.held.remove(ip) =~= admission.held);
    }
}

/// The per-IP cap of one address is not used up by connections from another.
pub proof fn per_ip_caps_are_independent(admission: AdmissionView, ip: IpAddr, other: IpAddr)
    requires
        ip != other,
        admission.max_total is None,
    ensures
        admission.admitted(other).admits(ip) == admission.admits(ip),
{
}

/// A connection is refused only where a cap is used up: as many connections are
/// held as the server may hold, or as many from its address as one may hold.
pub proof fn refusals_mean_a_full_cap(admission: AdmissionView, ip: IpAddr)
    ensures
        !admission.admits(ip) <==> (match admission.max_total {
            Some(max) => admission.held.len() >= max,
            None => false,
        } || match admission.max_per_ip {
            Some(max) => admission.held.count(ip) >= max,
            None => false,
        }),
{
}

} // verus!
