//! Resolution of a source address to a country code through a MaxMind
//! country database.
use vstd::prelude::*;

use crate::country::{search_country, ISO_COUNT};

verus! {

#[verifier::external_type_specification]
#[verifier::external_body]
pub struct ExMmap(memmap2::Mmap);

/// The four octets of an IPv4 address, most significant first, as the
/// address is written (`1.2.3.4` is `0x01020304`).
pub fn ipv4_octets(ip: u32) -> (r: [u8; 4])
    ensures
        r@ == seq![(ip >> 24u32) as u8, (ip >> 16u32) as u8, (ip >> 8u32) as u8, ip as u8],
{
    let r: [u8; 4] = [(ip >> 24u32) as u8, (ip >> 16u32) as u8, (ip >> 8u32) as u8, ip as u8];
    assert(r@ =~= seq![(ip >> 24u32) as u8, (ip >> 16u32) as u8, (ip >> 8u32) as u8, ip as u8]);
    r
}

/// Relies on `maxminddb::Reader::lookup` and `LookupResult::decode_path`:
/// the `country.iso_code` string recorded for the address's network, as
/// bytes; `None` where the lookup fails, the network has no record, or the
/// record has no such string. What comes back depends on the database file,
/// so nothing is promised of it. The lookup result borrows the reader and its
/// type cannot be declared here, so both calls stand in this one function.
#[verifier::external_body]
fn lookup_iso_code(db: &GeoIpDb, ip: [u8; 4]) -> (r: Option<Vec<u8>>) {
    let res = db.reader.lookup(ip.into()).ok()?;
    let path = [maxminddb::PathElement::Key("country"), maxminddb::PathElement::Key("iso_code")];
    let iso = res.decode_path::<&str>(&path).ok()??;
    Some(iso.as_bytes().to_vec())
}

/// The geo-IP resolver: a read-only country database. The reader is
/// opaque here: Verus does not take its type, whose parameter is bound by
/// `AsRef`.
#[verifier::external_body]
pub struct GeoIpDb {
    reader: maxminddb::Reader<memmap2::Mmap>,
}

impl GeoIpDb {
    /// Relies on `maxminddb::Reader::from_source`: a resolver over the
    /// database held by `buf`, if its metadata can be read.
    #[verifier::external_body]
    pub fn from_source(buf: memmap2::Mmap) -> (r: Option<GeoIpDb>) {
        maxminddb::Reader::from_source(buf).ok().map(|reader| GeoIpDb { reader })
    }

    /// The code of the ISO country that the database gives for the IPv4
    /// address `ip`, if it gives one that has a code. The database is asked
    /// for the octets `ipv4_octets(ip)`; its answer is turned into a code by
    /// `search_country`.
    pub fn lookup_ip(&self, ip: u32) -> (r: Option<u8>)
        ensures
            r matches Some(c) ==> 1 <= c <= ISO_COUNT,
    {
        match lookup_iso_code(self, ipv4_octets(ip)) {
            Some(name) => search_country(name.as_slice()),
            None => None,
        }
    }
}

} // verus!
