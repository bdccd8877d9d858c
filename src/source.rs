//! The data-availability source adapter: it reads a pointer record from the
//! settlement chain, routes Celestia pointers to the Celestia source, and
//! hands each fetched blob to derivation once.
use crate::wire::{le_bytes, le_value, lemma_le_round_trip};
use vstd::prelude::*;

verus! {

/// The version byte that marks a Celestia pointer.
pub const CELESTIA_POINTER_VERSION: u8 = 0x0c;

/// The length of a Celestia pointer: three version bytes, the height and
/// the commitment.
pub const POINTER_LEN: usize = 43;

/// Signals of the source to the derivation pipeline.
#[derive(Debug, Clone, Copy, PartialEq, Eq, Structural)]
pub enum SourceError {
    /// The record is not a Celestia pointer: this source has nothing for it.
    EndOfSource,
    /// The source has no blob left.
    Eof,
    /// A Celestia pointer too short to hold a height and a commitment.
    MalformedPointer,
}

/// Where a pointer record sends the pipeline.
pub open spec fn pointer_target(pointer: Seq<u8>) -> Result<(u64, Seq<u8>), SourceError> {
    if pointer.len() < 3 || pointer[2] != CELESTIA_POINTER_VERSION {
        Err(SourceError::EndOfSource)
    } else if pointer.len() < POINTER_LEN {
        Err(SourceError::MalformedPointer)
    } else {
        Ok((le_value(pointer.subrange(3, 11)), pointer.subrange(11, 43)))
    }
}

/// Reads the Celestia height and blob commitment a pointer record names.
pub fn parse_pointer(pointer: &[u8]) -> (r: Result<(u64, [u8; 32]), SourceError>)
    ensures
        match pointer_target(pointer@) {
            Ok((h, c)) => r matches Ok((rh, rc)) && rh == h && rc@ == c,
            Err(e) => r == Err::<(u64, [u8; 32]), SourceError>(e),
        },
{
    if pointer.len() < 3 || pointer[2] != CELESTIA_POINTER_VERSION {
        return Err(SourceError::EndOfSource);
    }
    if pointer.len() < POINTER_LEN {
        return Err(SourceError::MalformedPointer);
    }
    let mut word = [0u8; 8];
    let mut i: usize = 0;
    while i < 8
        invariant
            pointer@.len() >= 43,
            0 <= i <= 8,
            forall|k: int| 0 <= k < i ==> word@[k] == pointer@[3 + k],
        decreases 8 - i,
    {
        word[i] = pointer[3 + i];
        i = i + 1;
    }
    let height = vstd::bytes::u64_from_le_bytes(word.as_slice());
    let mut commitment = [0u8; 32];
    let mut j: usize = 0;
    while j < 32
        invariant
            pointer@.len() >= 43,
            0 <= j <= 32,
            forall|k: int| 0 <= k < j ==> commitment@[k] == pointer@[11 + k],
        decreases 32 - j,
    {
        commitment[j] = pointer[11 + j];
        j = j + 1;
    }
    proof {
        assert(word@ =~= pointer@.subrange(3, 11));
        assert(commitment@ =~= pointer@.subrange(11, 43));
    }
    Ok((height, commitment))
}

/// A Celestia pointer for a height and commitment.
pub open spec fn celestia_pointer(version: Seq<u8>, height: u64, commitment: Seq<u8>) -> Seq<u8> {
    version + le_bytes(height) + commitment
}

/// A pointer with the Celestia version byte names the height and
/// commitment it was written with.
pub proof fn lemma_pointer_round_trip(version: Seq<u8>, height: u64, commitment: Seq<u8>)
    requires
        version.len() == 3,
        version[2] == CELESTIA_POINTER_VERSION,
        commitment.len() == 32,
    ensures
        pointer_target(celestia_pointer(version, height, commitment)) == Ok::<
            (u64, Seq<u8>),
            SourceError,
        >((height, commitment)),
{
    lemma_le_round_trip();
    let p = celestia_pointer(version, height, commitment);
    assert(p.subrange(3, 11) =~= le_bytes(height));
    assert(p.subrange(11, 43) =~= commitment);
    assert(p[2] == version[2]);
}

/// The Celestia source: the blobs fetched for the current pointer, and
/// whether the fetch has been made.
#[derive(Debug, Clone)]
pub struct CelestiaDASource {
    /// Blobs not yet handed out.
    pub data: Vec<Vec<u8>>,
    /// Whether the blob for the current pointer has been fetched.
    pub open: bool,
}

/// The blobs waiting after a fetch outcome has been taken in.
pub open spec fn queued_after(data: Seq<Seq<u8>>, open: bool, fetched: Option<Seq<u8>>) -> Seq<
    Seq<u8>,
> {
    if open {
        data
    } else {
        match fetched {
            Some(b) => data.push(b),
            None => data,
        }
    }
}

impl CelestiaDASource {
    /// An empty source that has not fetched yet.
    pub fn new() -> (r: CelestiaDASource)
        ensures
            r.data@.len() == 0,
            !r.open,
    {
        CelestiaDASource { data: Vec::new(), open: false }
    }

    /// Whether the next call of `next` takes a fetched blob.
    pub fn needs_fetch(&self) -> (r: bool)
        ensures
            r == !self.open,
    {
        !self.open
    }

    /// Hands out the next blob. Unless the source is open, `fetched` is the
    /// outcome of fetching the current pointer's blob (`None` when the fetch
    /// failed): the source opens, and queues the blob if there is one. The
    /// first queued blob is then handed out, or `Eof` when none is queued.
    pub fn next(&mut self, fetched: Option<Vec<u8>>) -> (r: Result<Vec<u8>, SourceError>)
        ensures
            final(self).open,
            ({
                let q = queued_after(
                    crate::wire::byte_strings(old(self).data@),
                    old(self).open,
                    match fetched {
                        Some(b) => Some(b@),
                        None => None,
                    },
                );
                if q.len() == 0 {
                    &&& r == Err::<Vec<u8>, SourceError>(SourceError::Eof)
                    &&& final(self).data@.len() == 0
                } else {
                    &&& r matches Ok(b) && b@ == q[0]
                    &&& crate::wire::byte_strings(final(self).data@) == q.drop_first()
                }
            }),
    {
        let ghost before = crate::wire::byte_strings(self.data@);
        if !self.open {
            self.open = true;
            match fetched {
                Some(blob) => {
                    let ghost bv = blob@;
                    self.data.push(blob);
                    assert(crate::wire::byte_strings(self.data@) =~= before.push(bv));
                },
                None => {},
            }
        }
        self.next_data()
    }

    /// Hands out the first queued blob, or `Eof`.
    fn next_data(&mut self) -> (r: Result<Vec<u8>, SourceError>)
        ensures
            final(self).open == old(self).open,
            old(self).data@.len() == 0 ==> r == Err::<Vec<u8>, SourceError>(SourceError::Eof)
                && final(self).data@.len() == 0,
            old(self).data@.len() > 0 ==> (r matches Ok(b) && b == old(self).data@[0])
                && final(self).data@ == old(self).data@.drop_first(),
    {
        if self.data.len() == 0 {
            return Err(SourceError::Eof);
        }
        let b = self.data.remove(0);
        proof {
            assert(self.data@ =~= old(self).data@.drop_first());
        }
        Ok(b)
    }

    /// Drops the queued blobs and closes the source, as on a pipeline reset.
    pub fn clear(&mut self)
        ensures
            final(self).data@.len() == 0,
            !final(self).open,
    {
        self.data.clear();
        self.open = false;
    }
}

/// The adapter in front of the settlement-chain source: pointer records
/// select the Celestia source.
#[derive(Debug, Clone)]
pub struct CelestiaDADataSource {
    /// The Celestia source.
    pub celestia_source: CelestiaDASource,
}

impl CelestiaDADataSource {
    /// The adapter over a Celestia source.
    pub fn new(celestia_source: CelestiaDASource) -> (r: CelestiaDADataSource)
        ensures
            r.celestia_source.data@ == celestia_source.data@,
            r.celestia_source.open == celestia_source.open,
    {
        CelestiaDADataSource { celestia_source }
    }

    /// The Celestia blob that a pointer record names: `EndOfSource` for a
    /// record that is not a Celestia pointer, so that no hint is issued.
    pub fn route(&self, pointer: &[u8]) -> (r: Result<(u64, [u8; 32]), SourceError>)
        ensures
            match pointer_target(pointer@) {
                Ok((h, c)) => r matches Ok((rh, rc)) && rh == h && rc@ == c,
                Err(e) => r == Err::<(u64, [u8; 32]), SourceError>(e),
            },
    {
        parse_pointer(pointer)
    }

    /// Handles a pointer record. A record that is not a Celestia pointer
    /// gives its error and leaves the source as it was, so that nothing is
    /// fetched for it. For a Celestia pointer, `fetched` is the outcome of
    /// fetching the blob it names (taken only while the source is not open),
    /// and the next queued blob is handed out.
    pub fn next(&mut self, pointer: &[u8], fetched: Option<Vec<u8>>) -> (r: Result<
        Vec<u8>,
        SourceError,
    >)
        ensures
            match pointer_target(pointer@) {
                Err(e) => {
                    &&& r == Err::<Vec<u8>, SourceError>(e)
                    &&& final(self).celestia_source.data@ == old(self).celestia_source.data@
                    &&& final(self).celestia_source.open == old(self).celestia_source.open
                },
                Ok(_) => {
                    let q = queued_after(
                        crate::wire::byte_strings(old(self).celestia_source.data@),
                        old(self).celestia_source.open,
                        match fetched {
                            Some(b) => Some(b@),
                            None => None,
                        },
                    );
                    &&& final(self).celestia_source.open
                    &&& if q.len() == 0 {
                        &&& r == Err::<Vec<u8>, SourceError>(SourceError::Eof)
                        &&& final(self).celestia_source.data@.len() == 0
                    } else {
                        &&& r matches Ok(b) && b@ == q[0]
                        &&& crate::wire::byte_strings(final(self).celestia_source.data@)
                            == q.drop_first()
                    }
                },
            },
    {
        match parse_pointer(pointer) {
            Ok(_) => self.celestia_source.next(fetched),
            Err(e) => Err(e),
        }
    }

    /// Resets the Celestia source, as on a reorg.
    pub fn clear(&mut self)
        ensures
            final(self).celestia_source.data@.len() == 0,
            !final(self).celestia_source.open,
    {
        self.celestia_source.clear();
    }
}

} // verus!
