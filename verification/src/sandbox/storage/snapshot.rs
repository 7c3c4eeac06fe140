//! A copy of the whole store, and the compression of its encoded form.

use crate::base_types::{ObjectID, Owner, TransactionDigest};
use crate::codec::Wire;
use crate::collections::{DeepClone, KeySet, VecMap};
use crate::object::Object;
use crate::rpc_types::TransactionBlockResponse;
use crate::sandbox::storage::indices::TransactionIndices;
use crate::sandbox::storage::timeline::ObjectTimeline;
use crate::sandbox::storage::StorageView;
use std::io::Read;
use std::io::Write;
use vstd::prelude::*;

verus! {

/// Everything that a store holds.
pub struct StorageSnapshot {
    pub objects: VecMap<ObjectID, Object>,
    pub address_objects: VecMap<Owner, KeySet<ObjectID>>,
    pub object_addresses: VecMap<ObjectID, Owner>,
    pub timelines: VecMap<ObjectID, ObjectTimeline>,
    pub transactions: VecMap<TransactionDigest, TransactionBlockResponse>,
    pub transaction_indices: TransactionIndices,
    pub checkpoint: u64,
}

impl View for StorageSnapshot {
    type V = StorageView;

    open spec fn view(&self) -> StorageView {
        StorageView {
            objects: self.objects@,
            address_objects: self.address_objects@,
            object_addresses: self.object_addresses@,
            timelines: self.timelines@,
            transactions: self.transactions@,
            transaction_indices: self.transaction_indices@,
            checkpoint: self.checkpoint,
        }
    }
}

impl StorageSnapshot {
    /// Every part of the snapshot is well formed.
    pub open spec fn wf(&self) -> bool {
        &&& self.objects.wf()
        &&& self.address_objects.wf()
        &&& self.object_addresses.wf()
        &&& self.timelines.wf()
        &&& self.transactions.wf()
        &&& self.transaction_indices.wf()
    }
}

impl DeepClone for StorageSnapshot {
    open spec fn valid(&self) -> bool {
        self.wf()
    }

    fn deep_clone(&self) -> (r: Self) {
        let r = StorageSnapshot {
            objects: self.objects.deep_clone(),
            address_objects: self.address_objects.deep_clone(),
            object_addresses: self.object_addresses.deep_clone(),
            timelines: self.timelines.deep_clone(),
            transactions: self.transactions.deep_clone(),
            transaction_indices: self.transaction_indices.deep_clone(),
            checkpoint: self.checkpoint,
        };
        assert(self.valid() ==> r.valid());
        r
    }
}

/// Why a snapshot cannot be written or read.
#[derive(Clone, Copy, Debug, PartialEq, Eq, Structural)]
pub enum SnapshotError {
    /// The bytes could not be compressed.
    Compression,
    /// The bytes are no compressed stream.
    Decompression,
    /// What was decompressed is not the binary form of a snapshot.
    Decoding,
}

/// The gzip stream that the encoder makes of `data`, at the default level
/// of compression and with an empty header; nothing where the encoder
/// fails.
pub uninterp spec fn gzip_stream(data: Seq<u8>) -> Option<Seq<u8>>;

/// What the decoder reads from a gzip stream; nothing where it fails.
pub uninterp spec fn gunzip_stream(stream: Seq<u8>) -> Option<Seq<u8>>;

/// Compresses with `flate2::write::GzEncoder`, at the default level, into
/// memory. The encoder writes a header without a time or a name, so what it
/// makes, and whether it makes anything, depends on the data alone; and
/// what it makes, its decoder reads back as the data.
#[verifier::external_body]
fn gzip(data: &[u8]) -> (r: Option<Vec<u8>>)
    ensures
        match r {
            Some(stream) => gzip_stream(data@) == Some(stream@) && gunzip_stream(stream@) == Some(
                data@,
            ),
            None => gzip_stream(data@) is None,
        },
{
    let mut encoder = flate2::write::GzEncoder::new(Vec::new(), flate2::Compression::default());
    match encoder.write_all(data) {
        Ok(_) => encoder.finish().ok(),
        Err(_) => None,
    }
}

/// Decompresses with `flate2::read::GzDecoder`, reading to the end of the
/// stream.
#[verifier::external_body]
fn gunzip(stream: &[u8]) -> (r: Option<Vec<u8>>)
    ensures
        match r {
            Some(data) => gunzip_stream(stream@) == Some(data@),
            None => gunzip_stream(stream@) is None,
        },
{
    let mut decoder = flate2::read::GzDecoder::new(stream);
    let mut decompressed = Vec::new();
    match decoder.read_to_end(&mut decompressed) {
        Ok(_) => Some(decompressed),
        Err(_) => None,
    }
}

/// What the binary form of a snapshot decodes to: the store that it
/// holds, where the bytes are the binary form of a snapshot and nothing
/// more.
pub open spec fn decoded(encoded: Seq<u8>) -> Result<StorageView, SnapshotError> {
    match StorageSnapshot::read(encoded) {
        Some((view, rest)) => if rest.len() == 0 {
            Ok(view)
        } else {
            Err(SnapshotError::Decoding)
        },
        None => Err(SnapshotError::Decoding),
    }
}

/// What a compressed snapshot decodes to.
pub open spec fn snapshot_of(stream: Seq<u8>) -> Result<StorageView, SnapshotError> {
    match gunzip_stream(stream) {
        Some(encoded) => decoded(encoded),
        None => Err(SnapshotError::Decompression),
    }
}

/// The binary form of a snapshot decodes to the store that the snapshot
/// holds.
pub proof fn lemma_snapshot_round_trip(snapshot: StorageSnapshot)
    requires
        snapshot.wf(),
        snapshot.fits(),
    ensures
        decoded(snapshot.wire()) == Ok::<StorageView, SnapshotError>(snapshot@),
{
    snapshot.lemma_read_wire(Seq::empty());
    assert(snapshot.wire() + Seq::<u8>::empty() =~= snapshot.wire());
}

/// Compresses the encoded form of a snapshot: the stream that the encoder
/// makes of it, which decompresses to it again; an error exactly where the
/// encoder makes none.
pub fn compress(encoded: &[u8]) -> (r: Result<Vec<u8>, SnapshotError>)
    ensures
        match r {
            Ok(stream) => gzip_stream(encoded@) == Some(stream@) && gunzip_stream(stream@) == Some(
                encoded@,
            ),
            Err(e) => e == SnapshotError::Compression && gzip_stream(encoded@) is None,
        },
{
    match gzip(encoded) {
        Some(stream) => Ok(stream),
        None => Err(SnapshotError::Compression),
    }
}

/// Decompresses to the encoded form of a snapshot.
pub fn decompress(stream: &[u8]) -> (r: Result<Vec<u8>, SnapshotError>)
    ensures
        match r {
            Ok(encoded) => gunzip_stream(stream@) == Some(encoded@),
            Err(e) => e == SnapshotError::Decompression && gunzip_stream(stream@) is None,
        },
{
    match gunzip(stream) {
        Some(encoded) => Ok(encoded),
        None => Err(SnapshotError::Decompression),
    }
}

} // verus!
