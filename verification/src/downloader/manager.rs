//! The parts of a depot download that decide: the keys it decrypts with,
//! whether it can start, and which manifest it downloads.
use std::collections::HashMap;
use vstd::prelude::*;
use vstd::std_specs::hash::spec_hash_map_iter;
use vstd::std_specs::iter::IteratorSpec;
use vstd::utf8::encode_utf8;

use crate::cdn::client::CdnClient;
use crate::downloader::progress::DownloadProgress;
use crate::manifest::decryption::{ctr_apply, zero_iv, DecryptionError, ManifestDecryptor};
use crate::cdn::server::CdnServer;
use crate::manifest::fetcher::{manifest_hub_url, ManifestHubFetcher};
use crate::manifest::parser::{Manifest, ManifestFormatError, ManifestView};
use crate::manifest::store::{app_dir_name, manifests_dir_name, ManifestStore};
use crate::paths::join_twice_result;
use crate::text::{decimal, push_decimal, push_str};

verus! {

broadcast use {vstd::std_specs::hash::group_hash_axioms, vstd::string::group_string_axioms};

#[verifier::external_type_specification]
#[verifier::external_body]
pub struct ExFromHexError(hex::FromHexError);

/// The value of an ASCII hex digit byte.
pub open spec fn hex_byte_value(b: u8) -> Option<u8> {
    if 0x30 <= b && b <= 0x39 {
        Some((b - 0x30) as u8)
    } else if 0x61 <= b && b <= 0x66 {
        Some((b - 0x61 + 10) as u8)
    } else if 0x41 <= b && b <= 0x46 {
        Some((b - 0x41 + 10) as u8)
    } else {
        None
    }
}

/// What `hex::decode` gives for a byte sequence: nothing for an odd length
/// or a byte that is not a hex digit, else a byte for every two digits.
pub open spec fn hex_decode_spec(text: Seq<u8>) -> Option<Seq<u8>> {
    if text.len() % 2 != 0 {
        None
    } else if exists|i: int| 0 <= i < text.len() && #[trigger] hex_byte_value(text[i]) is None {
        None
    } else {
        Some(
            Seq::new(
                text.len() / 2,
                |i: int|
                    (hex_byte_value(text[2 * i]).unwrap() * 16 + hex_byte_value(
                        text[2 * i + 1],
                    ).unwrap()) as u8,
            ),
        )
    }
}

/// `hex::decode` of the UTF-8 bytes of `text`. Its source (hex 0.4.3)
/// refuses an odd length and any byte outside `0-9`, `a-f`, `A-F`, and
/// otherwise gives `high << 4 | low` for each pair of digits.
#[verifier::external_body]
fn hex_decode(text: &str) -> (r: Result<Vec<u8>, hex::FromHexError>)
    ensures
        match hex_decode_spec(encode_utf8(text@)) {
            Some(bytes) => r matches Ok(v) && v@ == bytes,
            None => r is Err,
        },
{
    hex::decode(text)
}

/// The key that the hex text `text` gives, if it decodes.
pub open spec fn decoded_key(text: Seq<char>) -> Option<Seq<u8>> {
    hex_decode_spec(encode_utf8(text))
}

/// `keys` with the decodable keys of the entries `es` put in, in order.
pub open spec fn add_decoded(keys: Map<u32, Seq<u8>>, es: Seq<(u32, Seq<char>)>) -> Map<
    u32,
    Seq<u8>,
>
    decreases es.len(),
{
    if es.len() == 0 {
        keys
    } else {
        let r = add_decoded(keys, es.drop_last());
        match decoded_key(es.last().1) {
            Some(k) => r.insert(es.last().0, k),
            None => r,
        }
    }
}

/// `keys` with every hex key of `hex_keys` that decodes put in, replacing
/// the key known for that depot.
pub open spec fn merge_decoded(keys: Map<u32, Seq<u8>>, hex_keys: Map<u32, Seq<char>>) -> Map<
    u32,
    Seq<u8>,
> {
    Map::new(
        |id: u32|
            keys.contains_key(id) || (hex_keys.contains_key(id) && decoded_key(hex_keys[id])
                is Some),
        |id: u32|
            if hex_keys.contains_key(id) && decoded_key(hex_keys[id]) is Some {
                decoded_key(hex_keys[id]).unwrap()
            } else {
                keys[id]
            },
    )
}

pub open spec fn entry_views(ps: Seq<(&u32, &String)>) -> Seq<(u32, Seq<char>)> {
    ps.map_values(|p: (&u32, &String)| (*p.0, p.1@))
}

pub open spec fn hex_key_view(m: Map<u32, String>) -> Map<u32, Seq<char>> {
    m.map_values(|s: String| s@)
}

/// Why a depot download cannot go on.
#[derive(Debug, Clone, PartialEq, Eq)]
pub enum DownloadError {
    /// No depot keys have been given.
    NoDepotKeys,
    /// The latest manifest of the depot cannot be found out: it has to be
    /// given.
    ManifestIdUnknown(u32),
    /// Decrypting a manifest or a chunk failed.
    Decryption(DecryptionError),
    /// The manifest could not be read.
    Format(ManifestFormatError),
}

/// `Fetching manifest {manifest} for depot {depot}...`.
pub open spec fn fetching_manifest_text(depot_id: u32, manifest_id: u64) -> Seq<char> {
    "Fetching manifest "@ + decimal(manifest_id as nat) + " for depot "@ + decimal(depot_id as nat)
        + "..."@
}

/// `Fetching latest manifest ID from Steam...`.
pub open spec fn fetching_latest_text() -> Seq<char> {
    "Fetching latest manifest ID from Steam..."@
}

/// `p` only carries the message `text`.
pub open spec fn message_report(p: DownloadProgress, text: Seq<char>) -> bool {
    &&& p.message@ == text
    &&& p.current_file is None
    &&& p.files_downloaded == 0
    &&& p.files_total == 0
    &&& p.bytes_downloaded == 0
    &&& p.bytes_total == 0
    &&& !p.complete
}

/// The report sent before a manifest is fetched from ManifestHub.
pub fn fetching_manifest_report(depot_id: u32, manifest_id: u64) -> (p: DownloadProgress)
    ensures
        message_report(p, fetching_manifest_text(depot_id, manifest_id)),
{
    let mut text = String::new();
    push_str(&mut text, "Fetching manifest ");
    push_decimal(&mut text, manifest_id);
    push_str(&mut text, " for depot ");
    push_decimal(&mut text, depot_id as u64);
    push_str(&mut text, "...");
    DownloadProgress::message(text)
}

/// What a depot download works with.
pub struct DownloadManager {
    pub manifest_fetcher: ManifestHubFetcher,
    pub cdn_client: CdnClient,
    pub decryptor: ManifestDecryptor,
    pub manifest_store: ManifestStore,
    pub depot_keys: HashMap<u32, String>,
}

proof fn lemma_add_decoded_entry(
    keys: Map<u32, Seq<u8>>,
    es: Seq<(u32, Seq<char>)>,
    id: u32,
)
    requires
        forall|i: int, j: int| 0 <= i < j < es.len() ==> es[i].0 != es[j].0,
    ensures
        (exists|i: int|
            0 <= i < es.len() && es[i].0 == id && decoded_key(es[i].1) is Some) ==> {
            let i = choose|i: int|
                0 <= i < es.len() && es[i].0 == id && decoded_key(es[i].1) is Some;
            &&& add_decoded(keys, es).contains_key(id)
            &&& add_decoded(keys, es)[id] == decoded_key(es[i].1).unwrap()
        },
        !(exists|i: int| 0 <= i < es.len() && es[i].0 == id && decoded_key(es[i].1) is Some)
            ==> {
            &&& add_decoded(keys, es).contains_key(id) == keys.contains_key(id)
            &&& keys.contains_key(id) ==> add_decoded(keys, es)[id] == keys[id]
        },
    decreases es.len(),
{
    if es.len() > 0 {
        let front = es.drop_last();
        lemma_add_decoded_entry(keys, front, id);
        let n = es.len() - 1;
        if exists|i: int| 0 <= i < es.len() && es[i].0 == id && decoded_key(es[i].1) is Some {
            let i = choose|i: int|
                0 <= i < es.len() && es[i].0 == id && decoded_key(es[i].1) is Some;
            if i < n {
                assert(front[i] == es[i]);
                assert(es[n].0 != id);
                let i2 = choose|i2: int|
                    0 <= i2 < front.len() && front[i2].0 == id && decoded_key(front[i2].1)
                        is Some;
                assert(front[i2] == es[i2]);
                assert(i2 == i);
            }
        } else {
            assert forall|i: int|
                0 <= i < front.len() && front[i].0 == id implies decoded_key(front[i].1)
                is None by {
                assert(front[i] == es[i]);
            }
        }
    }
}

impl DownloadManager {
    /// Nothing learned yet: the ManifestHub main branch, no content servers,
    /// no keys, manifests kept in the default directory.
    pub fn new() -> (m: Self)
        ensures
            m.decryptor@ == Map::<u32, Seq<u8>>::empty(),
            m.depot_keys@ == Map::<u32, String>::empty(),
            m.manifest_fetcher.base() == manifest_hub_url(),
            m.cdn_client.pool().servers() == Seq::<CdnServer>::empty(),
            m.cdn_client.tokens() == Map::<Seq<char>, Seq<char>>::empty(),
            m.manifest_store.cache() == Map::<(u32, u64), ManifestView>::empty(),
            exists|base: Seq<char>|
                join_twice_result(base, app_dir_name(), manifests_dir_name(), m.manifest_store.base()),
    {
        DownloadManager {
            manifest_fetcher: ManifestHubFetcher::default(),
            cdn_client: CdnClient::new(),
            decryptor: ManifestDecryptor::new(),
            manifest_store: ManifestStore::new(ManifestStore::default_path()),
            depot_keys: HashMap::new(),
        }
    }

    /// Keeps the given hex depot keys and gives the decryptor every one of
    /// them that decodes.
    pub fn set_depot_keys(&mut self, keys: HashMap<u32, String>)
        ensures
            final(self).depot_keys@ == keys@,
            final(self).decryptor@ == merge_decoded(old(self).decryptor@, hex_key_view(keys@)),
    {
        let ghost start = self.decryptor@;
        let ghost hk = hex_key_view(keys@);
        let ghost mut seen: Seq<(u32, Seq<char>)> = Seq::empty();
        let ghost mut all: Seq<(&u32, &String)> = Seq::empty();
        for pair in it: keys.iter()
            invariant
                it.seq() == spec_hash_map_iter(&keys).remaining(),
                seen == entry_views(it.seq().take(it.index() as int)),
                self.decryptor@ == add_decoded(start, seen),
        {
            let (id, key_hex) = pair;
            proof {
                assert(it.seq().take(it.index() + 1) =~= it.seq().take(it.index() as int).push(pair));
                seen = seen.push((*id, key_hex@));
                assert(seen.drop_last() =~= entry_views(it.seq().take(it.index() as int)));
            }
            match hex_decode(key_hex.as_str()) {
                Ok(key) => {
                    self.decryptor.add_depot_key(*id, key);
                },
                Err(_) => {},
            }
        }
        proof {
            let all = spec_hash_map_iter(&keys).remaining();
            assert(all.take(all.len() as int) =~= all);
            assert(seen == entry_views(all));
            assert forall|i: int, j: int| 0 <= i < j < seen.len() implies seen[i].0 != seen[j].0 by {
                if seen[i].0 == seen[j].0 {
                    assert(keys@.contains_key(*all[i].0) && keys@[*all[i].0] == *all[i].1);
                    assert(keys@.contains_key(*all[j].0) && keys@[*all[j].0] == *all[j].1);
                    assert(all[i] == all[j]);
                    assert(!all.no_duplicates());
                }
            }
            let target = merge_decoded(start, hk);
            assert forall|id: u32| #[trigger] self.decryptor@.contains_key(id) == target.contains_key(id)
                && (self.decryptor@.contains_key(id) ==> self.decryptor@[id] == target[id]) by {
                lemma_add_decoded_entry(start, seen, id);
                if exists|i: int| 0 <= i < seen.len() && seen[i].0 == id && decoded_key(seen[i].1) is Some {
                    let i = choose|i: int|
                        0 <= i < seen.len() && seen[i].0 == id && decoded_key(seen[i].1) is Some;
                    assert(keys@.contains_key(*all[i].0) && keys@[*all[i].0] == *all[i].1);
                    assert(hk.contains_key(id) && hk[id] == seen[i].1);
                } else if hk.contains_key(id) {
                    assert(keys@.contains_key(id));
                    assert(all.contains((&id, &keys@[id])));
                    let k = choose|k: int| 0 <= k < all.len() && all[k] == (&id, &keys@[id]);
                    assert(seen[k].0 == id);
                    assert(seen[k].1 == hk[id]);
                }
            }
            assert(self.decryptor@ =~= target);
        }
        self.depot_keys = keys;
    }

    /// Whether a download can start: it needs depot keys.
    pub fn check_depot_keys(&self) -> (r: Result<(), DownloadError>)
        ensures
            r is Ok <==> self.depot_keys@.len() > 0,
            r is Err ==> r == Err::<(), DownloadError>(DownloadError::NoDepotKeys),
    {
        if self.depot_keys.len() == 0 {
            Err(DownloadError::NoDepotKeys)
        } else {
            Ok(())
        }
    }

    /// The latest manifest of a depot, which cannot be found out without a
    /// Steam connection: always an error asking for the manifest id.
    pub fn fetch_latest_manifest_id(&self, depot_id: u32) -> (r: Result<u64, DownloadError>)
        ensures
            r == Err::<u64, DownloadError>(DownloadError::ManifestIdUnknown(depot_id)),
    {
        Err(DownloadError::ManifestIdUnknown(depot_id))
    }

    /// How a depot download starts: it needs depot keys, and then downloads
    /// the manifest given; without one it reports that it looks the latest
    /// up, which fails.
    pub fn prepare(&self, depot_id: u32, manifest_id: Option<u64>) -> (r: (
        Option<DownloadProgress>,
        Result<u64, DownloadError>,
    ))
        ensures
            self.depot_keys@.len() == 0 ==> r.0 is None && r.1 == Err::<u64, DownloadError>(
                DownloadError::NoDepotKeys,
            ),
            self.depot_keys@.len() > 0 && manifest_id is Some ==> r.0 is None && r.1 == Ok::<
                u64,
                DownloadError,
            >(manifest_id.unwrap()),
            self.depot_keys@.len() > 0 && manifest_id is None ==> {
                &&& r.0 matches Some(p) && message_report(p, fetching_latest_text())
                &&& r.1 == Err::<u64, DownloadError>(DownloadError::ManifestIdUnknown(depot_id))
            },
    {
        if self.depot_keys.len() == 0 {
            return (None, Err(DownloadError::NoDepotKeys));
        }
        match manifest_id {
            Some(id) => (None, Ok(id)),
            None => {
                let notice = DownloadProgress::message(
                    String::from_str("Fetching latest manifest ID from Steam..."),
                );
                (Some(notice), self.fetch_latest_manifest_id(depot_id))
            },
        }
    }

    /// Reads a manifest fetched from ManifestHub: it is decrypted with the
    /// depot's key and then parsed.
    pub fn open_manifest(&self, depot_id: u32, encrypted: &[u8]) -> (r: Result<
        Manifest,
        DownloadError,
    >)
        requires
            self.decryptor@.contains_key(depot_id) ==> self.decryptor@[depot_id].len() == 16,
        ensures
            !self.decryptor@.contains_key(depot_id) ==> r == Err::<Manifest, DownloadError>(
                DownloadError::Decryption(DecryptionError::MissingDepotKey(depot_id)),
            ),
            self.decryptor@.contains_key(depot_id) ==> r == Err::<Manifest, DownloadError>(
                DownloadError::Format(ManifestFormatError::ParsingUnsupported),
            ),
    {
        match self.decryptor.decrypt_manifest(depot_id, encrypted) {
            Err(e) => Err(DownloadError::Decryption(e)),
            Ok(plain) => match Manifest::from_bytes(plain.as_slice()) {
                Ok(m) => Ok(m),
                Err(e) => Err(DownloadError::Format(e)),
            },
        }
    }

    /// Decrypts a downloaded chunk with the depot's key and an all-zero
    /// counter block.
    pub fn decrypt_chunk_data(&self, depot_id: u32, data: &[u8]) -> (r: Result<
        Vec<u8>,
        DownloadError,
    >)
        requires
            self.decryptor@.contains_key(depot_id) ==> self.decryptor@[depot_id].len() == 16,
        ensures
            !self.decryptor@.contains_key(depot_id) ==> r == Err::<Vec<u8>, DownloadError>(
                DownloadError::Decryption(DecryptionError::MissingDepotKey(depot_id)),
            ),
            self.decryptor@.contains_key(depot_id) ==> (r matches Ok(v) && v@ == ctr_apply(
                self.decryptor@[depot_id],
                zero_iv(),
                data@,
            )),
    {
        let iv = [0u8; 16];
        assert(iv@ =~= zero_iv());
        match self.decryptor.decrypt_chunk(depot_id, data, &iv) {
            Ok(v) => Ok(v),
            Err(e) => Err(DownloadError::Decryption(e)),
        }
    }

    /// The manifest to download: the one given, else the latest.
    pub fn resolve_manifest_id(&self, depot_id: u32, manifest_id: Option<u64>) -> (r: Result<
        u64,
        DownloadError,
    >)
        ensures
            manifest_id matches Some(m) ==> r == Ok::<u64, DownloadError>(m),
            manifest_id is None ==> r == Err::<u64, DownloadError>(
                DownloadError::ManifestIdUnknown(depot_id),
            ),
    {
        match manifest_id {
            Some(id) => Ok(id),
            None => self.fetch_latest_manifest_id(depot_id),
        }
    }
}

} // verus!
