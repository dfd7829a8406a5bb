//! Choosing among the addresses that a host name resolved to.

use crate::text::{concat3, texts};
use vstd::prelude::*;

verus! {

/// The family of an address.
#[derive(Clone, Copy, Debug, PartialEq, Eq, Structural)]
pub enum AddressFamily {
    V4,
    V6,
}

/// One address that a host name resolved to.
#[derive(Clone, Debug, PartialEq, Eq)]
pub struct ResolvedAddress {
    /// The family of the address.
    pub family: AddressFamily,
    /// The address as text.
    pub text: String,
}

/// Why no address could be chosen.
#[derive(Clone, Copy, Debug, PartialEq, Eq, Structural)]
pub enum ResolveError {
    /// The name resolved to no address at all.
    NoAddress,
    /// The name resolved to no IPv4 address.
    NoIpv4,
    /// The name resolved to no IPv6 address.
    NoIpv6,
}

/// The family that is probed: IPv6 when it is forced, IPv4 otherwise.
pub open spec fn wanted_family(force_ipv6: bool) -> AddressFamily {
    if force_ipv6 {
        AddressFamily::V6
    } else {
        AddressFamily::V4
    }
}

/// The texts of the addresses of `family` among `candidates`, in order.
pub open spec fn of_family(candidates: Seq<ResolvedAddress>, family: AddressFamily) -> Seq<
    Seq<char>,
>
    decreases candidates.len(),
{
    if candidates.len() == 0 {
        Seq::empty()
    } else {
        let before = of_family(candidates.drop_last(), family);
        if candidates.last().family == family {
            before.push(candidates.last().text@)
        } else {
            before
        }
    }
}

/// The error for a list of candidates from which nothing can be chosen, if
/// it is one.
pub open spec fn resolve_error(candidates: Seq<ResolvedAddress>, force_ipv6: bool) -> Option<
    ResolveError,
> {
    if candidates.len() == 0 {
        Some(ResolveError::NoAddress)
    } else if of_family(candidates, wanted_family(force_ipv6)).len() == 0 {
        Some(
            if force_ipv6 {
                ResolveError::NoIpv6
            } else {
                ResolveError::NoIpv4
            },
        )
    } else {
        None
    }
}

/// The first `limit` texts of `list`, or all of them if there are fewer.
pub open spec fn at_most(list: Seq<Seq<char>>, limit: nat) -> Seq<Seq<char>> {
    if list.len() <= limit {
        list
    } else {
        list.take(limit as int)
    }
}

/// What an error says of `host`.
pub open spec fn describe_spec(error: ResolveError, host: Seq<char>) -> Seq<char> {
    match error {
        ResolveError::NoAddress => "Could not resolve host: "@ + host,
        ResolveError::NoIpv4 => "Could not resolve '"@ + host + "' to ipv4"@,
        ResolveError::NoIpv6 => "Could not resolve '"@ + host + "' to ipv6"@,
    }
}

impl ResolveError {
    /// The message for this error about `host`.
    pub fn describe(&self, host: &str) -> (message: String)
        ensures
            message@ == describe_spec(*self, host@),
    {
        match self {
            ResolveError::NoAddress => {
                let message = concat3("Could not resolve host: ", host, "");
                proof {
                    reveal_strlit("");
                    assert(message@ =~= describe_spec(*self, host@));
                }
                message
            },
            ResolveError::NoIpv4 => concat3("Could not resolve '", host, "' to ipv4"),
            ResolveError::NoIpv6 => concat3("Could not resolve '", host, "' to ipv6"),
        }
    }
}

/// The addresses of the wanted family among `candidates`, at most `limit`.
fn select(candidates: &Vec<ResolvedAddress>, force_ipv6: bool, limit: usize) -> (chosen: Vec<
    String,
>)
    ensures
        texts(chosen@) == at_most(of_family(candidates@, wanted_family(force_ipv6)), limit as nat),
        limit > 0 ==> (chosen@.len() == 0 <==> of_family(candidates@, wanted_family(force_ipv6)).len()
            == 0),
        chosen@.len() <= limit,
{
    let ghost family = wanted_family(force_ipv6);
    let mut chosen: Vec<String> = Vec::new();
    let mut i: usize = 0;
    while i < candidates.len()
        invariant
            i <= candidates@.len(),
            family == wanted_family(force_ipv6),
            texts(chosen@) == at_most(of_family(candidates@.take(i as int), family), limit as nat),
            chosen@.len() <= limit,
        decreases candidates@.len() - i,
    {
        proof {
            assert(candidates@.take(i + 1).drop_last() == candidates@.take(i as int));
        }
        let wanted = match candidates[i].family {
            AddressFamily::V4 => !force_ipv6,
            AddressFamily::V6 => force_ipv6,
        };
        if wanted && chosen.len() < limit {
            chosen.push(candidates[i].text.clone());
            proof {
                assert(texts(chosen@) =~= at_most(
                    of_family(candidates@.take(i + 1), family),
                    limit as nat,
                ));
            }
        } else {
            proof {
                let before = of_family(candidates@.take(i as int), family);
                assert(texts(chosen@).len() == chosen@.len());
                if wanted {
                    assert(before.len() >= limit);
                    assert(before.push(candidates@[i as int].text@).take(limit as int)
                        =~= before.take(limit as int));
                }
                assert(texts(chosen@) =~= at_most(
                    of_family(candidates@.take(i + 1), family),
                    limit as nat,
                ));
            }
        }
        i = i + 1;
    }
    proof {
        assert(candidates@.take(candidates@.len() as int) == candidates@);
    }
    chosen
}

/// The address to probe for a host that resolved to `candidates`: the first
/// IPv4 address, or the first IPv6 address when `force_ipv6` is set. It is
/// an error if the host resolved to nothing, or to nothing of that family.
pub fn get_host_ipaddr(candidates: &Vec<ResolvedAddress>, force_ipv6: bool) -> (address: Result<
    String,
    ResolveError,
>)
    ensures
        match resolve_error(candidates@, force_ipv6) {
            Some(error) => address == Err::<String, ResolveError>(error),
            None => address matches Ok(text) && text@ == of_family(
                candidates@,
                wanted_family(force_ipv6),
            )[0],
        },
{
    if candidates.len() == 0 {
        return Err(ResolveError::NoAddress);
    }
    let mut chosen = select(candidates, force_ipv6, 1);
    let ghost found = chosen@;
    match chosen.pop() {
        Some(text) => {
            proof {
                assert(found.len() == 1);
                assert(texts(found)[0] == found[0]@);
            }
            Ok(text)
        },
        None => if force_ipv6 {
            Err(ResolveError::NoIpv6)
        } else {
            Err(ResolveError::NoIpv4)
        },
    }
}

/// The addresses to probe for a host that resolved to `candidates`, when up
/// to `multiple` of them are asked for: the first `multiple` IPv4 addresses,
/// or IPv6 addresses when `force_ipv6` is set, and all of them if there are
/// fewer. It is an error if the host resolved to nothing, or to nothing of
/// that family.
pub fn get_multiple_host_ipaddr(
    candidates: &Vec<ResolvedAddress>,
    force_ipv6: bool,
    multiple: usize,
) -> (addresses: Result<Vec<String>, ResolveError>)
    requires
        multiple > 0,
    ensures
        match resolve_error(candidates@, force_ipv6) {
            Some(error) => addresses == Err::<Vec<String>, ResolveError>(error),
            None => addresses matches Ok(list) && list@.len() > 0 && texts(list@) == at_most(
                of_family(candidates@, wanted_family(force_ipv6)),
                multiple as nat,
            ),
        },
{
    if candidates.len() == 0 {
        return Err(ResolveError::NoAddress);
    }
    let chosen = select(candidates, force_ipv6, multiple);
    if chosen.len() == 0 {
        if force_ipv6 {
            Err(ResolveError::NoIpv6)
        } else {
            Err(ResolveError::NoIpv4)
        }
    } else {
        Ok(chosen)
    }
}

} // verus!
