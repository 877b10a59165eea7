//! Bundles as the node sees them: the fields of the primary block that its
//! logic reads, next to the bytes that travel.

use vstd::prelude::*;

verus! {

/// A bundle: its identifier, source and destination endpoints (as text), its
/// creation timestamp (DTN time in milliseconds and sequence number), its
/// lifetime in milliseconds, and its serialized form.
pub struct Bundle {
    pub id: String,
    pub source: String,
    pub destination: String,
    pub creation_time: u64,
    pub sequence: u64,
    pub lifetime: u64,
    pub bytes: Vec<u8>,
}

/// What a bundle is, as plain values.
pub struct BundleView {
    pub id: Seq<char>,
    pub source: Seq<char>,
    pub destination: Seq<char>,
    pub creation_time: u64,
    pub sequence: u64,
    pub lifetime: u64,
    pub bytes: Seq<u8>,
}

impl View for Bundle {
    type V = BundleView;

    open spec fn view(&self) -> BundleView {
        BundleView {
            id: self.id@,
            source: self.source@,
            destination: self.destination@,
            creation_time: self.creation_time,
            sequence: self.sequence,
            lifetime: self.lifetime,
            bytes: self.bytes@,
        }
    }
}

/// Whether a bundle's lifetime has run out at DTN time `now`. A bundle created
/// without a clock (creation time zero) never runs out.
pub open spec fn lifetime_exceeded(b: BundleView, now: u64) -> bool {
    b.creation_time != 0 && b.creation_time + b.lifetime <= now
}

/// What bp7 reads from serialized bytes: the bundle's identifier, source and
/// destination (as text), creation time, sequence number and lifetime in
/// milliseconds; nothing where the bytes are no bundle.
pub uninterp spec fn bp7_bundle(bytes: Seq<u8>) -> Option<
    (Seq<char>, Seq<char>, Seq<char>, u64, u64, u64),
>;

/// The fields that bp7 reads from a bundle, as one value.
pub open spec fn fields_of(b: BundleView) -> (Seq<char>, Seq<char>, Seq<char>, u64, u64, u64) {
    (b.id, b.source, b.destination, b.creation_time, b.sequence, b.lifetime)
}

/// Relies on bp7's `Bundle::try_from(&[u8])` (CBOR decoding), `Bundle::id`,
/// and the primary block's endpoints, creation timestamp and lifetime.
#[verifier::external_body]
fn bp7_decode(bytes: &[u8]) -> (r: Option<(String, String, String, u64, u64, u64)>)
    ensures
        match r {
            Some(t) => bp7_bundle(bytes@) == Some((t.0@, t.1@, t.2@, t.3, t.4, t.5)),
            None => bp7_bundle(bytes@) is None,
        },
{
    match bp7::Bundle::try_from(bytes) {
        Ok(b) => Some((
            b.id(),
            b.primary.source.to_string(),
            b.primary.destination.to_string(),
            b.primary.creation_timestamp.dtntime(),
            b.primary.creation_timestamp.seqno(),
            b.primary.lifetime.as_millis() as u64,
        )),
        Err(_) => None,
    }
}

/// A copy of a byte vector.
pub fn copy_bytes(v: &Vec<u8>) -> (r: Vec<u8>)
    ensures
        r@ == v@,
{
    let mut r: Vec<u8> = Vec::new();
    let mut i: usize = 0;
    while i < v.len()
        invariant
            i <= v@.len(),
            r@ == v@.subrange(0, i as int),
        decreases v@.len() - i,
    {
        r.push(v[i]);
        i = i + 1;
    }
    assert(r@ =~= v@);
    r
}

/// A copy of a vector of strings.
pub fn copy_strings(v: &Vec<String>) -> (r: Vec<String>)
    ensures
        r@ == v@,
{
    let mut r: Vec<String> = Vec::new();
    let mut i: usize = 0;
    while i < v.len()
        invariant
            i <= v@.len(),
            r@ == v@.subrange(0, i as int),
        decreases v@.len() - i,
    {
        r.push(v[i].clone());
        i = i + 1;
    }
    assert(r@ =~= v@);
    r
}

impl Bundle {
    /// Reads a bundle from its serialized form; `None` where bp7 cannot decode
    /// the bytes. The bundle keeps the bytes it was read from.
    pub fn decode(bytes: Vec<u8>) -> (r: Option<Bundle>)
        ensures
            r is Some <==> bp7_bundle(bytes@) is Some,
            r matches Some(b) ==> bp7_bundle(bytes@) == Some(fields_of(b@)) && b.bytes@ == bytes@,
    {
        match bp7_decode(bytes.as_slice()) {
            Some((id, source, destination, creation_time, sequence, lifetime)) => Some(
                Bundle { id, source, destination, creation_time, sequence, lifetime, bytes },
            ),
            None => None,
        }
    }

    /// Whether the bundle's lifetime has run out at DTN time `now`.
    pub fn is_lifetime_exceeded(&self, now: u64) -> (r: bool)
        ensures
            r == lifetime_exceeded(self@, now),
    {
        if self.creation_time == 0 {
            false
        } else {
            self.lifetime <= now && self.creation_time <= now - self.lifetime
        }
    }

    /// A copy of this bundle.
    pub fn copy(&self) -> (r: Bundle)
        ensures
            r@ == self@,
    {
        Bundle {
            id: self.id.clone(),
            source: self.source.clone(),
            destination: self.destination.clone(),
            creation_time: self.creation_time,
            sequence: self.sequence,
            lifetime: self.lifetime,
            bytes: copy_bytes(&self.bytes),
        }
    }
}

} // verus!
