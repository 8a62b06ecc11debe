//! Host addresses, and the order in which public address services are asked.
use vstd::prelude::*;

verus! {

/// An IPv4 or IPv6 address, held as its numeric value. Two addresses are equal
/// exactly when their values are, whatever text they were read from.
#[derive(Clone, Copy, Debug, PartialEq, Eq, Structural)]
pub enum IpAddress {
    V4(u32),
    V6(u128),
}

/// An address as resolved: its value, and its canonical text, which is what a
/// DNS record holds.
#[derive(Clone, Debug)]
pub struct ResolvedIp {
    pub addr: IpAddress,
    pub text: String,
}

/// No address could be determined.
#[derive(Clone, Debug)]
pub struct ResolutionError {
    pub message: String,
}

/// How many public address services there are.
pub const SERVICE_COUNT: usize = 5;

/// The public address services, in the order they are asked.
pub open spec fn service_spec(i: int) -> Seq<char> {
    if i == 0 {
        "https://api.ipify.org"@
    } else if i == 1 {
        "https://ifconfig.me/ip"@
    } else if i == 2 {
        "https://icanhazip.com"@
    } else if i == 3 {
        "https://ipinfo.io/ip"@
    } else {
        "https://checkip.amazonaws.com"@
    }
}

pub fn service_url(i: usize) -> (r: &'static str)
    requires
        i < SERVICE_COUNT,
    ensures
        r@ == service_spec(i as int),
{
    if i == 0 {
        "https://api.ipify.org"
    } else if i == 1 {
        "https://ifconfig.me/ip"
    } else if i == 2 {
        "https://icanhazip.com"
    } else if i == 3 {
        "https://ipinfo.io/ip"
    } else {
        "https://checkip.amazonaws.com"
    }
}

/// What to do next while looking up the public address.
#[derive(Clone, Debug)]
pub enum LookupStep {
    /// Ask this service.
    Ask(&'static str),
    /// This service answered with an address.
    Found(ResolvedIp),
    /// Every service failed; this is the last failure.
    GiveUp(ResolutionError),
}

/// A lookup of the public address: the services are asked in order, and the
/// first that answers with an address decides.
pub struct ExternalLookup {
    asked: usize,
}

impl ExternalLookup {
    /// The index of the service that was asked last.
    pub closed spec fn current(&self) -> int {
        self.asked as int
    }

    #[verifier::type_invariant]
    closed spec fn inv(&self) -> bool {
        self.asked < SERVICE_COUNT
    }

    /// Starts a lookup: the first service is asked.
    pub fn start() -> (r: (ExternalLookup, LookupStep))
        ensures
            r.0.current() == 0,
            r.1 matches LookupStep::Ask(u) && u@ == service_spec(0),
    {
        (ExternalLookup { asked: 0 }, LookupStep::Ask(service_url(0)))
    }

    /// Takes in the answer of the service asked last.
    pub fn on_reply(&mut self, reply: Result<ResolvedIp, ResolutionError>) -> (r: LookupStep)
        ensures
            reply is Ok ==> final(self).current() == old(self).current() && r == LookupStep::Found(
                reply->Ok_0,
            ),
            reply is Err && old(self).current() + 1 < SERVICE_COUNT ==> final(self).current()
                == old(self).current() + 1 && (r matches LookupStep::Ask(u) && u@ == service_spec(
                old(self).current() + 1,
            )),
            reply is Err && old(self).current() + 1 >= SERVICE_COUNT ==> final(self).current()
                == old(self).current() && r == LookupStep::GiveUp(reply->Err_0),
    {
        proof {
            use_type_invariant(&*self);
        }
        match reply {
            Ok(ip) => LookupStep::Found(ip),
            Err(e) => {
                if self.asked + 1 < SERVICE_COUNT {
                    let next = self.asked + 1;
                    *self = ExternalLookup { asked: next };
                    LookupStep::Ask(service_url(next))
                } else {
                    LookupStep::GiveUp(e)
                }
            },
        }
    }
}

} // verus!
