//! What a name lookup comes to: distinct addresses of one family, or the reason
//! for the failure in words.

use vstd::prelude::*;

use crate::net::{IpAddr, SocketAddr};
use crate::text::{decimal, push_decimal};

verus! {

/// The target, elapsed time, and underlying DNS failure.
#[derive(Debug, PartialEq, Eq)]
pub struct ResolveError {
    pub host: String,
    pub elapsed_ms: u128,
    pub reason: String,
}

/// How a lookup ended.
#[derive(Debug, PartialEq, Eq)]
pub enum Lookup {
    /// Not before its deadline.
    TimedOut,
    /// The server has no records of the family: its response code is NOERROR.
    NoData,
    /// The server has no records: its response code, and the error in words.
    NoRecords(String, String),
    /// It failed, in words.
    Failed(String),
    /// With these addresses.
    Answer(Vec<IpAddr>),
}

/// The distinct addresses among `ips`, in order of first occurrence, with
/// IPv4-mapped ones replaced by the IPv4 addresses they carry.
pub open spec fn distinct(ips: Seq<IpAddr>) -> Seq<IpAddr>
    decreases ips.len(),
{
    if ips.len() == 0 {
        Seq::empty()
    } else {
        let before = distinct(ips.drop_last());
        let ip = ips.last().spec_canonical();
        if before.contains(ip) {
            before
        } else {
            before.push(ip)
        }
    }
}

/// What a lookup comes to: addresses, or the reason for the failure.
pub open spec fn lookup_result(lookup: Lookup) -> Result<Seq<IpAddr>, Seq<char>> {
    match lookup {
        Lookup::TimedOut => Err("timed out"@),
        Lookup::NoData => Err("no addresses returned (NOERROR)"@),
        Lookup::NoRecords(code, error) => Err(code@ + ": "@ + error@),
        Lookup::Failed(error) => Err(error@),
        Lookup::Answer(ips) => if ips@.len() == 0 {
            Err("no addresses returned"@)
        } else {
            Ok(distinct(ips@))
        },
    }
}

/// Whether `list` holds `ip`.
fn holds(list: &Vec<IpAddr>, ip: IpAddr) -> (found: bool)
    ensures
        found == list@.contains(ip),
{
    let mut i: usize = 0;
    while i < list.len()
        invariant
            i <= list.len(),
            forall|j: int| 0 <= j < i ==> list@[j] != ip,
        decreases list.len() - i,
    {
        if list[i] == ip {
            assert(list@[i as int] == ip);
            return true;
        }
        i += 1;
    }
    false
}

/// Turn the end of a lookup into addresses, or the reason for the failure.
pub fn query(lookup: Lookup) -> (result: Result<Vec<IpAddr>, String>)
    ensures
        match result {
            Ok(ips) => lookup_result(lookup) == Ok::<Seq<IpAddr>, Seq<char>>(ips@),
            Err(reason) => lookup_result(lookup) == Err::<Seq<IpAddr>, Seq<char>>(reason@),
        },
{
    let ips: Vec<IpAddr> = match lookup {
        Lookup::TimedOut => {
            return Err("timed out".to_owned());
        },
        Lookup::NoData => {
            return Err("no addresses returned (NOERROR)".to_owned());
        },
        Lookup::NoRecords(code, error) => {
            let mut reason: String = code;
            reason.append(": ");
            reason.append(error.as_str());
            return Err(reason);
        },
        Lookup::Failed(error) => {
            return Err(error);
        },
        Lookup::Answer(ips) => ips,
    };
    let mut addresses: Vec<IpAddr> = Vec::new();
    let mut i: usize = 0;
    assert(ips@.take(0) =~= Seq::<IpAddr>::empty());
    while i < ips.len()
        invariant
            i <= ips.len(),
            addresses@ == distinct(ips@.take(i as int)),
        decreases ips.len() - i,
    {
        let ip: IpAddr = ips[i].to_canonical();
        assert(ips@.take(i + 1).drop_last() =~= ips@.take(i as int));
        if !holds(&addresses, ip) {
            addresses.push(ip);
        }
        i += 1;
    }
    proof {
        assert(ips@.take(ips@.len() as int) =~= ips@);
        distinct_addresses(ips@);
    }
    if addresses.len() == 0 {
        Err("no addresses returned".to_owned())
    } else {
        Ok(addresses)
    }
}

/// Each of `ips` at `port`.
pub open spec fn at_port(ips: Seq<IpAddr>, port: u16) -> Seq<SocketAddr> {
    ips.map_values(|ip: IpAddr| SocketAddr::spec_new(ip, port))
}

/// Turn the end of the lookup of `host` into addresses at `port`, or the error.
pub fn lookup(host: &str, port: u16, ended: Lookup, elapsed_ms: u128) -> (result: Result<
    Vec<SocketAddr>,
    ResolveError,
>)
    ensures
        match lookup_result(ended) {
            Ok(ips) => result matches Ok(addresses) && addresses@ == at_port(ips, port),
            Err(reason) => result matches Err(error) && error.host@ == host@ && error.elapsed_ms
                == elapsed_ms && error.reason@ == reason,
        },
        result matches Ok(addresses) ==> forall|i: int|
            0 <= i < addresses@.len() ==> (#[trigger] addresses@[i]).spec_port() == port,
{
    match query(ended) {
        Ok(ips) => {
            let mut addresses: Vec<SocketAddr> = Vec::new();
            let mut i: usize = 0;
            while i < ips.len()
                invariant
                    i <= ips.len(),
                    addresses@.len() == i,
                    forall|j: int|
                        0 <= j < i ==> #[trigger] addresses@[j] == SocketAddr::spec_new(
                            ips@[j],
                            port,
                        ),
                decreases ips.len() - i,
            {
                addresses.push(SocketAddr::new(ips[i], port));
                i += 1;
            }
            assert(addresses@ =~= at_port(ips@, port));
            Ok(addresses)
        },
        Err(reason) => Err(ResolveError { host: host.to_owned(), elapsed_ms, reason }),
    }
}

impl ResolveError {
    /// The error in words.
    pub fn message(&self) -> (text: String)
        ensures
            text@ == "DNS lookup for "@ + self.host@ + " failed after "@ + decimal(
                self.elapsed_ms as nat,
            ) + " ms: "@ + self.reason@,
    {
        let mut text: String = "DNS lookup for ".to_owned();
        text.append(self.host.as_str());
        text.append(" failed after ");
        push_decimal(&mut text, self.elapsed_ms);
        text.append(" ms: ");
        text.append(self.reason.as_str());
        text
    }
}

/// The addresses of a lookup are distinct and canonical, there is one wherever
/// the server sent one, and each stands for one that the server sent.
pub proof fn distinct_addresses(ips: Seq<IpAddr>)
    ensures
        distinct(ips).no_duplicates(),
        ips.len() > 0 <==> distinct(ips).len() > 0,
        forall|i: int| 0 <= i < ips.len() ==> distinct(ips).contains(#[trigger] ips[i].spec_canonical()),
        forall|ip: IpAddr| #[trigger]
            distinct(ips).contains(ip) ==> exists|i: int|
                0 <= i < ips.len() && #[trigger] ips[i].spec_canonical() == ip,
    decreases ips.len(),
{
    if ips.len() > 0 {
        let before = distinct(ips.drop_last());
        let ip = ips.last().spec_canonical();
        distinct_addresses(ips.drop_last());
        let after = distinct(ips);
        if !before.contains(ip) {
            assert(after.last() == ip);
        }
        assert forall|i: int| 0 <= i < ips.len() implies after.contains(
            #[trigger] ips[i].spec_canonical(),
        ) by {
            if i < ips.len() - 1 {
                assert(ips.drop_last()[i] == ips[i]);
                let j = before.index_of(ips[i].spec_canonical());
                assert(after[j] == ips[i].spec_canonical());
            }
        }
        assert forall|x: IpAddr| #[trigger] after.contains(x) implies exists|i: int|
            0 <= i < ips.len() && #[trigger] ips[i].spec_canonical() == x by {
            if x == ip {
                assert(ips[ips.len() - 1].spec_canonical() == x);
            } else {
                let j = after.index_of(x);
                assert(before[j] == x);
                assert(before.contains(x));
                let i = choose|i: int|
                    0 <= i < ips.drop_last().len() && #[trigger] ips.drop_last()[i].spec_canonical()
                        == x;
                assert(ips[i].spec_canonical() == x);
            }
        }
    }
}

/// A name resolves to one address for each distinct IP address of the answer, in
/// their order, each at the port that was asked for.
pub proof fn lookups_keep_the_port(ips: Seq<IpAddr>, port: u16)
    ensures
        at_port(ips, port).len() == ips.len(),
        forall|i: int|
            0 <= i < ips.len() ==> (#[trigger] at_port(ips, port)[i]).spec_ip() == ips[i]
                && at_port(ips, port)[i].spec_port() == port,
        forall|i: int|
            0 <= i < ips.len() ==> (#[trigger] at_port(ips, port)[i] matches SocketAddr::V6(v6)
                ==> v6.flowinfo == 0 && v6.scope_id == 0),
{
}

/// Addresses come out in the order in which the server sent them first: what
/// stands for a later one was not sent before what stands for an earlier one.
pub proof fn answers_keep_their_order(ips: Seq<IpAddr>, i: int, j: int, sent: int)
    requires
        0 <= i < j < distinct(ips).len(),
        0 <= sent < ips.len(),
        ips[sent].spec_canonical() == distinct(ips)[j],
    ensures
        exists|earlier: int|
            0 <= earlier < sent && (#[trigger] ips[earlier]).spec_canonical() == distinct(ips)[i],
    decreases ips.len(),
{
    let front = ips.drop_last();
    let before = distinct(front);
    let ip = ips.last().spec_canonical();
    distinct_addresses(front);
    distinct_addresses(ips);
    if j < before.len() {
        if sent < front.len() {
            answers_keep_their_order(front, i, j, sent);
            let earlier = choose|earlier: int|
                0 <= earlier < sent && (#[trigger] front[earlier]).spec_canonical() == before[i];
            assert(ips[earlier] == front[earlier]);
        } else {
            assert(before.contains(before[i]));
            let earlier = choose|earlier: int|
                0 <= earlier < front.len() && (#[trigger] front[earlier]).spec_canonical()
                    == before[i];
            assert(ips[earlier] == front[earlier]);
        }
    } else {
        if sent < front.len() {
            assert(front[sent] == ips[sent]);
            assert(before.contains(front[sent].spec_canonical()));
            let k = before.index_of(ip);
            assert(distinct(ips)[k] == distinct(ips)[j]);
        }
        assert(before.contains(before[i]));
        let earlier = choose|earlier: int|
            0 <= earlier < front.len() && (#[trigger] front[earlier]).spec_canonical() == before[i];
        assert(ips[earlier] == front[earlier]);
    }
}

/// A lookup succeeds if and only if the server sent an address; a failure is told
/// in the words of its cause.
pub proof fn lookups_fail_only_for_cause(lookup: Lookup)
    ensures
        lookup_result(lookup) is Ok <==> (lookup matches Lookup::Answer(ips) && ips@.len() > 0),
        lookup matches Lookup::Answer(ips) ==> lookup_result(lookup) == (if ips@.len() > 0 {
            Ok::<Seq<IpAddr>, Seq<char>>(distinct(ips@))
        } else {
            Err::<Seq<IpAddr>, Seq<char>>("no addresses returned"@)
        }),
        lookup is TimedOut ==> lookup_result(lookup) == Err::<Seq<IpAddr>, Seq<char>>(
            "timed out"@,
        ),
        lookup is NoData ==> lookup_result(lookup) == Err::<Seq<IpAddr>, Seq<char>>(
            "no addresses returned (NOERROR)"@,
        ),
        lookup matches Lookup::NoRecords(code, error) ==> lookup_result(lookup) == Err::<
            Seq<IpAddr>,
            Seq<char>,
        >(code@ + ": "@ + error@),
        lookup matches Lookup::Failed(error) ==> lookup_result(lookup) == Err::<
            Seq<IpAddr>,
            Seq<char>,
        >(error@),
{
}

} // verus!
