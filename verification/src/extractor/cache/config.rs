//! The extractor's cache layout: `root/{chain_id}/{block_number}/` holds
//! `block_header.json` and `tx_{hash}.json`, the hash in lowercase hex. Paths
//! are held as their bytes.
use vstd::prelude::*;

use crate::cache_path::{
    block_dir, block_dir_of, header_name, header_name_bytes, lemma_tx_paths_distinct, tx_file,
    tx_file_name, tx_name,
};
use crate::path::{cache_root_under, cache_under, home_dir, home_lookup_gives, join, joined, lemma_home_lookup_gives};

verus! {

/// The lowercase hexadecimal digit `n`.
pub open spec fn hex_digit(n: nat) -> u8 {
    if n < 10 {
        (48 + n) as u8
    } else {
        (87 + n) as u8
    }
}

/// `bytes` in lowercase hexadecimal, two digits a byte, the high one first.
pub open spec fn hex_lower(bytes: Seq<u8>) -> Seq<u8>
    decreases bytes.len(),
{
    if bytes.len() == 0 {
        seq![]
    } else {
        hex_lower(bytes.drop_last()) + seq![
            hex_digit((bytes.last() / 16) as nat),
            hex_digit((bytes.last() % 16) as nat),
        ]
    }
}

/// hex's `encode`: the bytes in lowercase hexadecimal, two digits a byte, the
/// high nibble first; the digits as the bytes of their text.
#[verifier::external_body]
fn hex_encode(bytes: &[u8; 32]) -> (s: Vec<u8>)
    ensures
        s@ == hex_lower(bytes@),
{
    hex::encode(bytes).into_bytes()
}

/// Where the extractor keeps its cache.
pub struct CacheConfig {
    /// The root directory, as the bytes of its path.
    pub root: Vec<u8>,
}

impl CacheConfig {
    /// The cache under `.plexus/cache` in the user's home directory; `None` where
    /// no home directory can be found.
    pub fn default() -> (c: Option<Self>)
        ensures
            c matches Some(c) ==> exists|home: Seq<u8>| c.root@ == cache_under(home),
            c matches Some(c) ==> exists|found: Vec<u8>|
                home_lookup_gives(Some(found)) && c.root@ == cache_under(found@),
            c is None ==> home_lookup_gives(None),
    {
        let lookup = home_dir;
        let found = lookup();
        proof {
            lemma_home_lookup_gives(found);
        }
        match found {
            Some(home) => Some(CacheConfig::with_home(&home)),
            None => None,
        }
    }

    /// The cache under `.plexus/cache` in `home`.
    pub fn with_home(home: &[u8]) -> (c: Self)
        ensures
            c.root@ == cache_under(home@),
    {
        CacheConfig { root: cache_root_under(home) }
    }

    /// A cache rooted at `root`.
    pub fn with_root(root: Vec<u8>) -> (c: Self)
        ensures
            c.root == root,
    {
        CacheConfig { root }
    }

    /// `root/{chain_id}/{block_number}`.
    pub fn block_dir(&self, chain_id: u64, block_number: u64) -> (p: Vec<u8>)
        ensures
            p@ == block_dir_of(self.root@, chain_id, block_number),
    {
        block_dir(&self.root, chain_id, block_number)
    }

    /// `root/{chain_id}/{block_number}/block_header.json`.
    pub fn block_header_path(&self, chain_id: u64, block_number: u64) -> (p: Vec<u8>)
        ensures
            p@ == joined(block_dir_of(self.root@, chain_id, block_number), header_name()),
    {
        join(&self.block_dir(chain_id, block_number), &header_name_bytes())
    }

    /// `root/{chain_id}/{block_number}/tx_{hash}.json`, the hash in lowercase hex.
    pub fn tx_path(&self, chain_id: u64, block_number: u64, tx_hash: &[u8; 32]) -> (p: Vec<u8>)
        ensures
            p@ == joined(
                block_dir_of(self.root@, chain_id, block_number),
                tx_file_name(hex_lower(tx_hash@)),
            ),
    {
        let hash = hex_encode(tx_hash);
        join(&self.block_dir(chain_id, block_number), &tx_name(&hash))
    }
}

proof fn lemma_hex_lower_len(bytes: Seq<u8>)
    ensures
        hex_lower(bytes).len() == 2 * bytes.len(),
    decreases bytes.len(),
{
    if bytes.len() > 0 {
        lemma_hex_lower_len(bytes.drop_last());
    }
}

proof fn lemma_hex_digit_injective(x: nat, y: nat)
    requires
        x < 16,
        y < 16,
        hex_digit(x) == hex_digit(y),
    ensures
        x == y,
{
    if x < 10 {
        assert((hex_digit(x) as int) == 48 + x);
    } else {
        assert((hex_digit(x) as int) == 87 + x);
    }
    if y < 10 {
        assert((hex_digit(y) as int) == 48 + y);
    } else {
        assert((hex_digit(y) as int) == 87 + y);
    }
}

/// Lowercase hex is one to one: equally long byte strings with the same hex are equal.
pub proof fn lemma_hex_lower_injective(a: Seq<u8>, b: Seq<u8>)
    requires
        a.len() == b.len(),
        hex_lower(a) == hex_lower(b),
    ensures
        a == b,
    decreases a.len(),
{
    if a.len() > 0 {
        let pa = hex_lower(a.drop_last());
        let pb = hex_lower(b.drop_last());
        lemma_hex_lower_len(a.drop_last());
        lemma_hex_lower_len(b.drop_last());
        let n = pa.len() as int;
        let ha = hex_digit((a.last() / 16) as nat);
        let la = hex_digit((a.last() % 16) as nat);
        let hb = hex_digit((b.last() / 16) as nat);
        let lb = hex_digit((b.last() % 16) as nat);
        assert(hex_lower(a) == pa + seq![ha, la]);
        assert(hex_lower(b) == pb + seq![hb, lb]);
        assert(hex_lower(a)[n] == ha);
        assert(hex_lower(b)[n] == hb);
        assert(hex_lower(a)[n + 1] == la);
        assert(hex_lower(b)[n + 1] == lb);
        lemma_hex_digit_injective((a.last() / 16) as nat, (b.last() / 16) as nat);
        lemma_hex_digit_injective((a.last() % 16) as nat, (b.last() % 16) as nat);
        assert(pa =~= hex_lower(a).subrange(0, n));
        assert(pb =~= hex_lower(b).subrange(0, n));
        lemma_hex_lower_injective(a.drop_last(), b.drop_last());
        assert(a =~= a.drop_last().push(a.last()));
        assert(b =~= b.drop_last().push(b.last()));
    }
}

/// Within one block, distinct transaction hashes name distinct files, none of
/// them the block's header file.
pub proof fn lemma_extractor_tx_paths_distinct(
    root: Seq<u8>,
    chain_id: u64,
    block_number: u64,
    hash_a: Seq<u8>,
    hash_b: Seq<u8>,
)
    requires
        hash_a.len() == 32,
        hash_b.len() == 32,
    ensures
        joined(block_dir_of(root, chain_id, block_number), tx_file_name(hex_lower(hash_a)))
            == joined(block_dir_of(root, chain_id, block_number), tx_file_name(hex_lower(hash_b)))
            ==> hash_a == hash_b,
        joined(block_dir_of(root, chain_id, block_number), tx_file_name(hex_lower(hash_a)))
            != joined(block_dir_of(root, chain_id, block_number), header_name()),
{
    lemma_tx_paths_distinct(root, chain_id, block_number, hex_lower(hash_a), hex_lower(hash_b));
    if tx_file(root, chain_id, block_number, hex_lower(hash_a)) == tx_file(
        root,
        chain_id,
        block_number,
        hex_lower(hash_b),
    ) {
        lemma_hex_lower_injective(hash_a, hash_b);
    }
}

} // verus!
