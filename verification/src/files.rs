//! The named-resource store.
//!
//! A mapping from resource title to owner, payload bytes and the authority
//! level a reader needs, kept in a durable byte-keyed map so that resources
//! survive a process restart (the ephemeral backing, selectable at
//! construction, forfeits them instead). Upload is an upsert: re-uploading a
//! title replaces the whole record, with no versioning. Reads are gated by
//! the authority ladder; a denial is an explicit outcome, distinguishable
//! from an empty or absent resource.
//!
//! Each record is framed as the owner's principal bytes behind a one-byte
//! length, the required authority, then the payload as the rest of the frame;
//! a principal is at most 29 bytes on the host transport, so the one-byte
//! length never constrains it.

use vstd::prelude::*;
use vstd::slice::{slice_subrange, slice_to_vec};
use vstd::utf8::encode_utf8;
use crate::access::spec_can_read;
use crate::codec::push_slice;
use crate::durable::{blob_map_view, DurableBlobMap};
use crate::identity::Identity;
use crate::store::Backing;

verus! {

/// What the store remembers of one resource.
pub ghost struct FileView {
    pub owner: Seq<u8>,
    pub payload: Seq<u8>,
    pub required_authority: u8,
}

/// The encoded frame of a resource record.
pub open spec fn file_bytes(v: FileView) -> Seq<u8> {
    seq![v.owner.len() as u8] + v.owner + seq![v.required_authority] + v.payload
}

/// What a stored byte string means as a resource record: the owner behind
/// its one-byte length, the required authority, then the payload.
pub open spec fn spec_decode_file(b: Seq<u8>) -> Option<FileView> {
    if b.len() < 1 {
        None
    } else {
        let ol = b[0] as int;
        if b.len() < 2 + ol {
            None
        } else {
            Some(
                (FileView {
                    owner: b.subrange(1, 1 + ol),
                    required_authority: b[1 + ol],
                    payload: b.subrange(2 + ol, b.len() as int),
                }),
            )
        }
    }
}

/// Decoding inverts encoding: the frame of any record whose owner fits the
/// one-byte length parses back to exactly that record.
pub proof fn lemma_file_bytes_decode(v: FileView)
    requires
        v.owner.len() <= 255,
    ensures
        spec_decode_file(file_bytes(v)) == Some(v),
{
    let b = file_bytes(v);
    let ol = v.owner.len() as int;
    assert(b.len() == 2 + ol + v.payload.len());
    assert(b[0] == ol as u8);
    assert(b.subrange(1, 1 + ol) =~= v.owner);
    assert(b[1 + ol] == v.required_authority);
    assert(b.subrange(2 + ol, b.len() as int) =~= v.payload);
}

fn encode_file(owner: &Identity, required_authority: u8, payload: Vec<u8>) -> (r: Vec<u8>)
    requires
        owner@.len() <= 255,
    ensures
        r@ == file_bytes(
            (FileView { owner: owner@, payload: payload@, required_authority }),
        ),
{
    let mut out: Vec<u8> = Vec::new();
    let ghost payload_view = payload@;
    out.push(owner.bytes().len() as u8);
    push_slice(&mut out, owner.bytes().as_slice());
    out.push(required_authority);
    let mut tail = payload;
    out.append(&mut tail);
    proof {
        assert(out@ =~= file_bytes(
            (FileView { owner: owner@, payload: payload_view, required_authority }),
        ));
    }
    out
}

fn decode_file(b: &Vec<u8>) -> (r: Option<(Identity, u8, Vec<u8>)>)
    ensures
        match r {
            Some(parts) => spec_decode_file(b@) == Some(
                (FileView {
                    owner: parts.0@,
                    payload: parts.2@,
                    required_authority: parts.1,
                }),
            ),
            None => spec_decode_file(b@) is None,
        },
{
    let len = b.len();
    if len < 1 {
        return None;
    }
    let ol = b[0] as usize;
    if len < 2 + ol {
        return None;
    }
    let owner = slice_to_vec(slice_subrange(b.as_slice(), 1, 1 + ol));
    let required_authority = b[1 + ol];
    let payload = slice_to_vec(slice_subrange(b.as_slice(), 2 + ol, len));
    Some((Identity::from_bytes(owner), required_authority, payload))
}

/// How a gated read ends: the payload, an explicit denial, or absence.
pub enum ReadOutcome {
    Granted(Vec<u8>),
    Denied,
    NotFound,
}

/// The store of named resources, keyed by the title's UTF-8 bytes.
pub struct FileStore {
    map: DurableBlobMap,
    backing: Backing,
}

impl View for FileStore {
    type V = Map<Seq<u8>, FileView>;

    closed spec fn view(&self) -> Map<Seq<u8>, FileView> {
        Map::new(
            |k: Seq<u8>| self.contents().contains_key(k),
            |k: Seq<u8>| spec_decode_file(self.contents()[k])->Some_0,
        )
    }
}

impl FileStore {
    /// The raw encoded entries currently stored.
    pub closed spec fn contents(&self) -> Map<Seq<u8>, Seq<u8>> {
        blob_map_view(self.map)
    }

    /// The backing medium this store was constructed over.
    pub closed spec fn backing(&self) -> Backing {
        self.backing
    }

    /// Every stored entry is a well-formed resource frame.
    pub closed spec fn wf(&self) -> bool {
        forall|k: Seq<u8>|
            #[trigger] self.contents().contains_key(k) ==> spec_decode_file(
                self.contents()[k],
            ) is Some
    }

    /// An empty store over a fresh region of the chosen backing.
    pub fn new_with(backing: Backing) -> (r: FileStore)
        ensures
            r.wf(),
            r@ == Map::<Seq<u8>, FileView>::empty(),
            r.backing() == backing,
    {
        let r = FileStore { map: DurableBlobMap::new(), backing };
        proof {
            assert(r@ =~= Map::<Seq<u8>, FileView>::empty());
        }
        r
    }

    /// An empty store over the durable backing.
    pub fn new() -> (r: FileStore)
        ensures
            r.wf(),
            r@ == Map::<Seq<u8>, FileView>::empty(),
            r.backing() == Backing::Durable,
    {
        FileStore::new_with(Backing::Durable)
    }

    /// Stores a resource under a title, replacing any previous record for
    /// that title: payload, required authority and owner alike. Always
    /// succeeds; the owner is a host-authenticated principal, whose length
    /// the transport bounds well below the frame's one-byte limit.
    pub fn upload(&mut self, title: &str, content: Vec<u8>, file_authority: u8, owner: &Identity)
        requires
            old(self).wf(),
            owner@.len() <= 255,
        ensures
            final(self).wf(),
            final(self).backing() == old(self).backing(),
            final(self)@ == old(self)@.insert(
                encode_utf8(title@),
                (FileView { owner: owner@, payload: content@, required_authority: file_authority }),
            ),
    {
        let ghost inserted = FileView {
            owner: owner@,
            payload: content@,
            required_authority: file_authority,
        };
        let encoded = encode_file(owner, file_authority, content);
        self.map.insert(slice_to_vec(title.as_bytes()), encoded);
        proof {
            lemma_file_bytes_decode(inserted);
            assert(final(self)@ =~= old(self)@.insert(encode_utf8(title@), inserted));
        }
    }

    /// A gated read. The caller's authority (none, if unregistered) must sit
    /// at or above the level the resource requires on the ladder; otherwise
    /// the read is denied explicitly rather than by an empty result.
    pub fn read(&self, title: &str, caller_authority: Option<u8>) -> (r: ReadOutcome)
        requires
            self.wf(),
        ensures
            !self@.contains_key(encode_utf8(title@)) ==> r is NotFound,
            self@.contains_key(encode_utf8(title@)) && !spec_can_read(
                caller_authority,
                self@[encode_utf8(title@)].required_authority,
            ) ==> r is Denied,
            self@.contains_key(encode_utf8(title@)) && spec_can_read(
                caller_authority,
                self@[encode_utf8(title@)].required_authority,
            ) ==> (r matches ReadOutcome::Granted(payload) && payload@ == self@[encode_utf8(
                title@,
            )].payload),
    {
        match self.map.get(title.as_bytes()) {
            Some(bytes) => {
                match decode_file(&bytes) {
                    Some((_, required_authority, payload)) => {
                        let allowed = crate::access::can_read(caller_authority, required_authority);
                        if allowed {
                            ReadOutcome::Granted(payload)
                        } else {
                            ReadOutcome::Denied
                        }
                    },
                    None => {
                        // Unreachable: every stored frame parses, by wf.
                        proof {
                            assert(false);
                        }
                        ReadOutcome::NotFound
                    },
                }
            },
            None => ReadOutcome::NotFound,
        }
    }

    /// Simulates a process restart. Over the durable backing, every stored
    /// resource is recovered from the backing region; over the ephemeral
    /// backing the contents are forfeited, as its users accepted.
    pub fn reopen(&mut self)
        requires
            old(self).wf(),
        ensures
            final(self).wf(),
            final(self).backing() == old(self).backing(),
            old(self).backing() == Backing::Durable ==> final(self)@ == old(self)@,
            old(self).backing() == Backing::Ephemeral ==> final(self)@ == Map::<
                Seq<u8>,
                FileView,
            >::empty(),
    {
        match self.backing {
            Backing::Durable => self.map.reopen(),
            Backing::Ephemeral => {
                self.map = DurableBlobMap::new();
            },
        }
        proof {
            if old(self).backing() == Backing::Durable {
                assert(final(self)@ =~= old(self)@);
            } else {
                assert(final(self)@ =~= Map::<Seq<u8>, FileView>::empty());
            }
        }
    }
}

} // verus!
