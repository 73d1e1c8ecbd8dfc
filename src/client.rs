//! The client agent's decisions: which seed to expose, which country to
//! ask for, and the noise generator's position.
use vstd::prelude::*;

use crate::bytes::u32_at;
use crate::country::{names_country, search_country, WORLDWIDE};
use crate::wire::Heartbeat;

verus! {

/// Which seed a request for content uses.
#[derive(Clone, Copy, Debug, PartialEq, Eq, Structural)]
pub enum SeedType {
    /// The agent's own seed, without a round trip.
    Local,
    /// The shared seed of the requested country, from the aggregator.
    Global,
    /// A fresh random seed, which becomes the agent's own.
    NewLocal,
}

impl Default for SeedType {
    fn default() -> (r: SeedType)
        ensures
            r == SeedType::Global,
    {
        SeedType::Global
    }
}

/// A request for content: the position in the note stream, the seed to use
/// and the ISO name of the country to ask for.
#[derive(Clone, Debug)]
pub struct DataForm {
    pub idx: u32,
    pub seed: SeedType,
    pub country: String,
}

impl Default for DataForm {
    fn default() -> (r: DataForm)
        ensures
            r.idx == 0,
            r.seed == SeedType::Global,
            r.country@.len() == 0,
    {
        DataForm { idx: 0, seed: SeedType::Global, country: String::new() }
    }
}

/// The seed a request uses, and the agent's own seed afterwards.
#[derive(Clone, Copy, Debug, PartialEq, Eq, Structural)]
pub struct SeedChoice {
    pub seed: i32,
    pub local_seed: i32,
}

/// Applies the seed policy: `Local` uses `local`, `Global` uses `global`
/// (the aggregator's), `NewLocal` uses `fresh` and keeps it as the agent's
/// own seed.
pub fn resolve_seed(kind: SeedType, local: i32, global: i32, fresh: i32) -> (r: SeedChoice)
    ensures
        kind == SeedType::Local ==> r == (SeedChoice { seed: local, local_seed: local }),
        kind == SeedType::Global ==> r == (SeedChoice { seed: global, local_seed: local }),
        kind == SeedType::NewLocal ==> r == (SeedChoice { seed: fresh, local_seed: fresh }),
{
    match kind {
        SeedType::Local => SeedChoice { seed: local, local_seed: local },
        SeedType::Global => SeedChoice { seed: global, local_seed: local },
        SeedType::NewLocal => SeedChoice { seed: fresh, local_seed: fresh },
    }
}

/// The code a request for the country named `name` asks for: the
/// country's code, or `WORLDWIDE` for a name that no country has.
pub fn requested_country(name: &[u8]) -> (r: u8)
    ensures
        r != WORLDWIDE ==> names_country(r, name@),
        r == WORLDWIDE <==> forall|c: u8| !names_country(c, name@),
{
    match search_country(name) {
        Some(c) => c,
        None => WORLDWIDE,
    }
}

/// The heartbeat that carries `local_seed` and asks for `country`
/// (0: a keep-alive that wants no reply).
pub fn make_heartbeat(local_seed: i32, country: u8) -> (r: Heartbeat)
    ensures
        r == (Heartbeat { seed: local_seed, wants_country: country }),
{
    Heartbeat { seed: local_seed, wants_country: country }
}

/// Relies on `getrandom::fill`: four bytes from the operating system's
/// random source, or `None` where it reports an error. Nothing is promised
/// of their values.
#[verifier::external_body]
fn random_bytes() -> (r: Option<[u8; 4]>) {
    let mut b = [0u8; 4];
    getrandom::fill(&mut b).ok()?;
    Some(b)
}

/// The seed made of four random bytes, least significant first.
pub fn seed_from_bytes(b: [u8; 4]) -> (r: i32)
    ensures
        r == u32_at(b@, 0) as i32,
{
    let v: u32 = (b[0] as u32) | ((b[1] as u32) << 8u32) | ((b[2] as u32) << 16u32) | ((
    b[3] as u32) << 24u32);
    #[verifier::truncate]
    (v as i32)
}

/// A fresh random seed, or `None` where the random source fails.
pub fn generate_seed() -> (r: Option<i32>) {
    match random_bytes() {
        Some(b) => Some(seed_from_bytes(b)),
        None => None,
    }
}

/// Position of the note generator's noise sampler: `x` walks forward one
/// step per sample, `y` is fixed by the seed.
#[derive(Clone, Copy, Debug, PartialEq, Eq, Structural)]
pub struct NoiseRng {
    pub x: u32,
    pub y: i32,
}

impl NoiseRng {
    /// A sampler starting at `start` for `seed`.
    pub fn new(start: u32, seed: i32) -> (r: NoiseRng)
        ensures
            r.x == start,
            r.y == seed,
    {
        NoiseRng { x: start, y: seed }
    }

    /// Moves one step forward, wrapping after `u32::MAX`.
    pub fn advance(&mut self)
        ensures
            final(self).x == old(self).x.wrapping_add(1),
            final(self).y == old(self).y,
    {
        self.x = self.x.wrapping_add(1);
    }
}

} // verus!
