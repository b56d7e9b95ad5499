//! The random source. Whoever advances the simulation commits to a value before
//! it is used: each advance reveals the value that the last one committed to,
//! and leaves the commitment to the next.

use vstd::prelude::*;

verus! {

/// What the random source waits for.
#[derive(Clone, Copy, Debug)]
pub enum RandomCommitment {
    /// Nothing was committed to yet: any value is taken.
    NoCommitment,
    /// The digest of the value that must be revealed next.
    AwaitingReveal([u64; 4]),
}

/// What comes with an advance: the value revealed, its digest as the host's
/// hash function gives it, and the digest of the value to reveal next.
#[derive(Clone, Copy, Debug)]
pub struct Reveal {
    pub value: [u64; 4],
    pub digest: [u64; 4],
    pub next_commitment: [u64; 4],
}

/// The seed that a revealed value gives: its words combined bit by bit.
pub open spec fn spec_seed(value: [u64; 4]) -> u64 {
    value[0] ^ value[1] ^ value[2] ^ value[3]
}

/// The seed that a revealed value gives.
pub fn seed_of(value: &[u64; 4]) -> (seed: u64)
    ensures
        seed == spec_seed(*value),
{
    value[0] ^ value[1] ^ value[2] ^ value[3]
}

impl RandomCommitment {
    /// Whether a value with this digest may be revealed now.
    pub open spec fn accepts(self, digest: [u64; 4]) -> bool {
        match self {
            RandomCommitment::NoCommitment => true,
            RandomCommitment::AwaitingReveal(commitment) => commitment == digest,
        }
    }

    /// The state after a reveal: waiting for the next value where the reveal
    /// is accepted, and unchanged where it is not.
    pub open spec fn spec_take_reveal(self, reveal: Reveal) -> RandomCommitment {
        if self.accepts(reveal.digest) {
            RandomCommitment::AwaitingReveal(reveal.next_commitment)
        } else {
            self
        }
    }

    /// Whether a value with this digest may be revealed now.
    pub fn check(&self, digest: &[u64; 4]) -> (accepted: bool)
        ensures
            accepted == self.accepts(*digest),
    {
        match self {
            RandomCommitment::NoCommitment => true,
            RandomCommitment::AwaitingReveal(commitment) => {
                let same = commitment[0] == digest[0] && commitment[1] == digest[1] && commitment[2]
                    == digest[2] && commitment[3] == digest[3];
                proof {
                    if same {
                        assert(*commitment =~= *digest);
                    }
                }
                same
            },
        }
    }

    /// Takes a reveal: where its digest is the one committed to, hands out the
    /// seed of the value and waits for the next; where it is not, hands out
    /// nothing and stays as it is.
    pub fn take_reveal(&mut self, reveal: &Reveal) -> (seed: Option<u64>)
        ensures
            *final(self) == old(self).spec_take_reveal(*reveal),
            seed == if old(self).accepts(reveal.digest) {
                Some(spec_seed(reveal.value))
            } else {
                None
            },
    {
        if self.check(&reveal.digest) {
            *self = RandomCommitment::AwaitingReveal(reveal.next_commitment);
            Some(seed_of(&reveal.value))
        } else {
            None
        }
    }
}

} // verus!
