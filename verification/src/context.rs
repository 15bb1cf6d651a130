//! The execution context handed through the pipeline: the sending domain,
//! a process-unique tag, and a counter that hands out identifiers that are
//! unique within the context's lifetime (message IDs and content IDs).

use vstd::prelude::*;
use vstd::string::*;

verus! {

/// Capability object consumed by rendering, phase transition and delivery:
/// a domain name, a unique tag for this process, and a monotone counter.
///
/// Identifiers drawn from one context are pairwise distinct because each
/// draw increments `counter` and returns its old value.
pub struct MailContext {
    /// Domain name stamped into message IDs and content IDs.
    pub domain: Vec<u8>,
    /// Unique tag shared by all identifiers of this context.
    pub unique: Vec<u8>,
    /// Next identifier to hand out; strictly increases with each draw.
    pub counter: u64,
}

impl MailContext {
    /// Builds a context from a domain and a unique tag, starting the
    /// identifier counter at zero.
    pub fn new(domain: Vec<u8>, unique: Vec<u8>) -> (ctx: MailContext)
        ensures
            ctx.domain == domain,
            ctx.unique == unique,
            ctx.counter == 0,
    {
        MailContext { domain, unique, counter: 0 }
    }

    /// Draws a fresh identifier: returns the current counter and increments it.
    pub fn fresh_id(&mut self) -> (r: u64)
        requires
            old(self).counter < u64::MAX,
        ensures
            r == old(self).counter,
            final(self).counter == old(self).counter + 1,
            final(self).domain == old(self).domain,
            final(self).unique == old(self).unique,
    {
        let id = self.counter;
        self.counter = self.counter + 1;
        id
    }
}

/// Relies on rand::random: draws a value from the thread-local generator.
/// Nothing is promised of the result.
pub assume_specification<T>[ rand::random::<T> ]() -> (r: T)
    where
        rand::distributions::Standard: rand::distributions::Distribution<T>,
;

/// Builds a context with a fixed example domain and a random unique tag,
/// rendered as lowercase hexadecimal. The domain would normally come from
/// configuration; the randomness only has to avoid collisions between
/// processes, uniqueness within the context comes from its counter.
pub fn partial_random_context() -> (ctx: MailContext)
    ensures
        ctx.domain@ == "mail.crate.example.com".spec_bytes(),
        exists|t: u64| ctx.unique@ == crate::spec_hex(t),
        ctx.unique@.len() >= 1,
        ctx.counter == 0,
{
    let domain = crate::lit_bytes("mail.crate.example.com");
    let tag: u64 = rand::random::<u64>();
    let unique = crate::hex_bytes(tag);
    proof {
        assert(unique@ == crate::spec_hex(tag));
    }
    MailContext::new(domain, unique)
}

} // verus!
