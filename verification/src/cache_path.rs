//! The on-disk layout of the block cache: `root/{chain_id}/{block_number}/`
//! holds `block_header.json` and one `tx_{hash}.json` per transaction. Paths
//! are held as their bytes.
use vstd::prelude::*;

use vstd::string::StringSliceAdditionalSpecFns;

use crate::path::{
    ascii, ascii_bytes, cache_root_under, cache_under, decimal, digit_byte, found_home, home_dir,
    home_lookup_gives, join, joined, lemma_home_lookup_gives, u64_to_decimal, SEPARATOR,
};

verus! {

/// `root/{chain_id}/{block_number}`.
pub open spec fn block_dir_of(root: Seq<u8>, chain_id: u64, block_number: u64) -> Seq<u8> {
    joined(joined(root, decimal(chain_id as nat)), decimal(block_number as nat))
}

/// `block_header.json`.
pub open spec fn header_name() -> Seq<u8> {
    ascii("block_header.json"@)
}

/// `root/{chain_id}/{block_number}/block_header.json`.
pub open spec fn block_header_file(root: Seq<u8>, chain_id: u64, block_number: u64) -> Seq<u8> {
    joined(block_dir_of(root, chain_id, block_number), header_name())
}

/// `tx_{tx_hash}.json`, the hash given by its bytes.
pub open spec fn tx_file_name(tx_hash: Seq<u8>) -> Seq<u8> {
    ascii("tx_"@) + tx_hash + ascii(".json"@)
}

/// `root/{chain_id}/{block_number}/tx_{tx_hash}.json`.
pub open spec fn tx_file(root: Seq<u8>, chain_id: u64, block_number: u64, tx_hash: Seq<u8>) -> Seq<
    u8,
> {
    joined(block_dir_of(root, chain_id, block_number), tx_file_name(tx_hash))
}

/// `root/{chain_id}/{block_number}`.
pub(crate) fn block_dir(root: &[u8], chain_id: u64, block_number: u64) -> (p: Vec<u8>)
    ensures
        p@ == block_dir_of(root@, chain_id, block_number),
{
    let chain = join(root, &u64_to_decimal(chain_id));
    join(&chain, &u64_to_decimal(block_number))
}

/// The bytes of `block_header.json`.
pub(crate) fn header_name_bytes() -> (b: Vec<u8>)
    ensures
        b@ == header_name(),
{
    proof {
        reveal_strlit("block_header.json");
    }
    ascii_bytes("block_header.json")
}

/// Returns the path for a block header JSON file.
pub fn block_header_path(root: &[u8], chain_id: u64, block_number: u64) -> (p: Vec<u8>)
    ensures
        p@ == block_header_file(root@, chain_id, block_number),
{
    join(&block_dir(root, chain_id, block_number), &header_name_bytes())
}

/// The file name `tx_{tx_hash}.json`.
pub(crate) fn tx_name(tx_hash: &[u8]) -> (name: Vec<u8>)
    ensures
        name@ == tx_file_name(tx_hash@),
{
    proof {
        reveal_strlit("tx_");
        reveal_strlit(".json");
    }
    let mut name = ascii_bytes("tx_");
    let mut hash: Vec<u8> = Vec::new();
    let mut i: usize = 0;
    while i < tx_hash.len()
        invariant
            i <= tx_hash.len(),
            hash@ == tx_hash@.subrange(0, i as int),
        decreases tx_hash.len() - i,
    {
        hash.push(tx_hash[i]);
        i = i + 1;
        assert(hash@ =~= tx_hash@.subrange(0, i as int));
    }
    assert(hash@ =~= tx_hash@);
    let mut suffix = ascii_bytes(".json");
    name.append(&mut hash);
    name.append(&mut suffix);
    name
}

/// Returns the path for a transaction JSON file, the hash written as its UTF-8 bytes.
pub fn tx_path(root: &[u8], chain_id: u64, block_number: u64, tx_hash: &str) -> (p: Vec<u8>)
    ensures
        p@ == tx_file(root@, chain_id, block_number, tx_hash.spec_bytes()),
{
    join(&block_dir(root, chain_id, block_number), &tx_name(tx_hash.as_bytes()))
}

/// `path.with_extension(extension)`, as `std::path::Path` computes it.
pub uninterp spec fn std_with_extension(path: Seq<char>, extension: Seq<char>) -> Seq<char>;

/// std's `Path::with_extension`: the path with the extension of its file name
/// replaced by `extension` (added where there is none), as text. What counts as
/// an extension is std's rule; the result is named, not spelled out. std
/// documents a panic where `extension` holds a path separator; that input is
/// left out.
#[verifier::external_body]
fn with_extension(path: &str, extension: &str) -> (r: String)
    requires
        !extension@.contains('/'),
    ensures
        r@ == std_with_extension(path@, extension@),
{
    std::path::Path::new(path).with_extension(extension).to_string_lossy().into_owned()
}

/// Where a JSON file is written before it is renamed into place: `path` with
/// the extension `tmp`, next to it. Where `path` already has that extension,
/// or has no file name, this is `path` itself.
pub fn temp_path_for(path: &str) -> (r: String)
    ensures
        r@ == std_with_extension(path@, "tmp"@),
{
    proof {
        reveal_strlit("tmp");
    }
    with_extension(path, "tmp")
}

/// Where the cache lives.
#[derive(Debug, Clone)]
pub struct CacheConfig {
    /// The root directory, as the bytes of its path.
    pub root: Vec<u8>,
}

/// The default root: `.plexus/cache` under the home directory, or under the
/// working directory `.` where no home directory is known.
pub open spec fn default_root(home: Option<Seq<u8>>) -> Seq<u8> {
    match home {
        Some(h) => cache_under(h),
        None => cache_under(ascii("."@)),
    }
}

impl CacheConfig {
    pub fn new(root: Vec<u8>) -> (c: Self)
        ensures
            c.root == root,
    {
        CacheConfig { root }
    }

    /// The configuration whose root is `.plexus/cache` under `home`, or under `.`
    /// where there is no home directory.
    pub fn under_home(home: Option<&[u8]>) -> (c: Self)
        ensures
            c.root@ == default_root(
                match home {
                    Some(h) => Some(h@),
                    None => None,
                },
            ),
    {
        match home {
            Some(h) => CacheConfig { root: cache_root_under(h) },
            None => {
                proof {
                    reveal_strlit(".");
                }
                let dot = ascii_bytes(".");
                CacheConfig { root: cache_root_under(&dot) }
            },
        }
    }

    pub fn block_header_path(&self, chain_id: u64, block_number: u64) -> (p: Vec<u8>)
        ensures
            p@ == block_header_file(self.root@, chain_id, block_number),
    {
        block_header_path(&self.root, chain_id, block_number)
    }

    pub fn tx_path(&self, chain_id: u64, block_number: u64, tx_hash: &str) -> (p: Vec<u8>)
        ensures
            p@ == tx_file(self.root@, chain_id, block_number, tx_hash.spec_bytes()),
    {
        tx_path(&self.root, chain_id, block_number, tx_hash)
    }
}

impl Default for CacheConfig {
    /// `.plexus/cache` under the user's home directory, or under `.` where none is found.
    fn default() -> (c: Self)
        ensures
            exists|home: Option<Seq<u8>>| c.root@ == default_root(home),
            exists|found: Option<Vec<u8>>|
                home_lookup_gives(found) && c.root@ == default_root(found_home(found)),
    {
        let lookup = home_dir;
        let home = lookup();
        proof {
            lemma_home_lookup_gives(home);
        }
        match home {
            Some(h) => {
                let c = CacheConfig::under_home(Some(h.as_slice()));
                assert(c.root@ == default_root(Some(h@)));
                assert(c.root@ == default_root(found_home(Some(h))));
                c
            },
            None => {
                let c = CacheConfig::under_home(None);
                assert(c.root@ == default_root(None));
                assert(c.root@ == default_root(found_home(None)));
                c
            },
        }
    }
}

/// The default root follows the lookup: under the home directory found, and
/// `./.plexus/cache` where none is found.
pub proof fn lemma_default_root(home: Seq<u8>)
    ensures
        default_root(Some(home)) == cache_under(home),
        default_root(None) == ascii("./.plexus/cache"@),
{
    reveal_strlit(".");
    reveal_strlit("./.plexus/cache");
    reveal_strlit(".plexus/cache");
    crate::path::lemma_cache_under_shape(ascii("."@));
    assert(ascii("."@) + seq![SEPARATOR] + ascii(".plexus/cache"@) =~= ascii("./.plexus/cache"@));
    assert(ascii("."@).push(SEPARATOR) + ascii(".plexus/cache"@) =~= ascii("./.plexus/cache"@));
}

/// `base` as `Path::join` extends it before a relative component: with a `/`
/// added unless it is empty or already ends in one.
pub open spec fn dir_prefix(base: Seq<u8>) -> Seq<u8> {
    if base.len() > 0 && base.last() != SEPARATOR {
        base + seq![SEPARATOR]
    } else {
        base
    }
}

proof fn lemma_joined_relative(base: Seq<u8>, component: Seq<u8>)
    requires
        component.len() > 0,
        component[0] != SEPARATOR,
    ensures
        joined(base, component) == dir_prefix(base) + component,
{
    assert(base + seq![SEPARATOR] + component =~= (base + seq![SEPARATOR]) + component);
}

proof fn lemma_decimal_digits(n: nat)
    ensures
        decimal(n).len() >= 1,
        !decimal(n).contains(SEPARATOR),
        decimal(n)[0] != SEPARATOR,
        decimal(n).last() != SEPARATOR,
    decreases n,
{
    if n >= 10 {
        lemma_decimal_digits(n / 10);
        let d = decimal(n / 10);
        assert forall|i: int| 0 <= i < decimal(n).len() implies decimal(n)[i] != SEPARATOR by {
            if i < d.len() {
                assert(decimal(n)[i] == d[i]);
            }
        }
    }
}

proof fn lemma_decimal_injective(n: nat, m: nat)
    requires
        decimal(n) == decimal(m),
    ensures
        n == m,
    decreases n,
{
    if n >= 10 {
        lemma_decimal_digits(n / 10);
    }
    if m >= 10 {
        lemma_decimal_digits(m / 10);
    }
    if n < 10 && m < 10 {
        assert(decimal(n)[0] == digit_byte(n));
        assert(decimal(m)[0] == digit_byte(m));
    } else if n >= 10 && m >= 10 {
        assert(decimal(n / 10) =~= decimal(n).drop_last());
        assert(decimal(m / 10) =~= decimal(m).drop_last());
        lemma_decimal_injective(n / 10, m / 10);
        assert(decimal(n).last() == digit_byte(n % 10));
        assert(decimal(m).last() == digit_byte(m % 10));
    } else if n < 10 {
        assert(decimal(n).len() == 1);
        assert(decimal(m).len() == decimal(m / 10).len() + 1);
    } else {
        assert(decimal(m).len() == 1);
        assert(decimal(n).len() == decimal(n / 10).len() + 1);
    }
}

/// Splitting at the first `/`: where neither `a` nor `c` holds one, `a + "/" + b`
/// determines `a` and `b`.
proof fn lemma_split_at_separator(a: Seq<u8>, b: Seq<u8>, c: Seq<u8>, d: Seq<u8>)
    requires
        !a.contains(SEPARATOR),
        !c.contains(SEPARATOR),
        a + seq![SEPARATOR] + b == c + seq![SEPARATOR] + d,
    ensures
        a == c,
        b == d,
{
    let l = a + seq![SEPARATOR] + b;
    let r = c + seq![SEPARATOR] + d;
    if a.len() < c.len() {
        assert(l[a.len() as int] == SEPARATOR);
        assert(r[a.len() as int] == c[a.len() as int]);
        assert(c.contains(c[a.len() as int]));
    } else if c.len() < a.len() {
        assert(r[c.len() as int] == SEPARATOR);
        assert(l[c.len() as int] == a[c.len() as int]);
        assert(a.contains(a[c.len() as int]));
    }
    assert(a =~= l.subrange(0, a.len() as int));
    assert(c =~= r.subrange(0, c.len() as int));
    assert(b =~= l.subrange(a.len() as int + 1, l.len() as int));
    assert(d =~= r.subrange(c.len() as int + 1, r.len() as int));
}

/// The files of a block lie side by side in its directory: each is the block
/// directory, as `Path::join` extends it, followed by the file's name.
pub proof fn lemma_block_files_share_directory(
    root: Seq<u8>,
    chain_id: u64,
    block_number: u64,
    tx_hash: Seq<u8>,
)
    ensures
        block_header_file(root, chain_id, block_number) == dir_prefix(
            block_dir_of(root, chain_id, block_number),
        ) + header_name(),
        tx_file(root, chain_id, block_number, tx_hash) == dir_prefix(
            block_dir_of(root, chain_id, block_number),
        ) + tx_file_name(tx_hash),
{
    reveal_strlit("block_header.json");
    reveal_strlit("tx_");
    assert(header_name()[0] == 98);
    assert(tx_file_name(tx_hash)[0] == 116);
    lemma_joined_relative(block_dir_of(root, chain_id, block_number), header_name());
    lemma_joined_relative(block_dir_of(root, chain_id, block_number), tx_file_name(tx_hash));
}

/// `root/{chain_id}/{block_number}` spelled out: the root as `Path::join`
/// extends it, the chain id, a `/`, and the block number.
proof fn lemma_block_dir_shape(root: Seq<u8>, chain_id: u64, block_number: u64)
    ensures
        block_dir_of(root, chain_id, block_number) == dir_prefix(root) + decimal(chain_id as nat)
            + seq![SEPARATOR] + decimal(block_number as nat),
        dir_prefix(block_dir_of(root, chain_id, block_number)) == block_dir_of(
            root,
            chain_id,
            block_number,
        ) + seq![SEPARATOR],
{
    let c = decimal(chain_id as nat);
    let b = decimal(block_number as nat);
    lemma_decimal_digits(chain_id as nat);
    lemma_decimal_digits(block_number as nat);
    lemma_joined_relative(root, c);
    let first = dir_prefix(root) + c;
    assert(first.last() == c.last());
    lemma_joined_relative(first, b);
    assert(dir_prefix(first) =~= first + seq![SEPARATOR]);
    assert(block_dir_of(root, chain_id, block_number) =~= dir_prefix(root) + c + seq![SEPARATOR]
        + b);
    let dir = block_dir_of(root, chain_id, block_number);
    assert(dir.last() == b.last());
}

proof fn lemma_header_shape(root: Seq<u8>, chain_id: u64, block_number: u64)
    ensures
        block_header_file(root, chain_id, block_number) == dir_prefix(root) + (decimal(
            chain_id as nat,
        ) + seq![SEPARATOR] + (decimal(block_number as nat) + seq![SEPARATOR] + header_name())),
{
    let name = header_name();
    let dir = block_dir_of(root, chain_id, block_number);
    lemma_block_files_share_directory(root, chain_id, block_number, Seq::empty());
    lemma_block_dir_shape(root, chain_id, block_number);
    assert(dir_prefix(dir) + name =~= dir_prefix(root) + (decimal(chain_id as nat) + seq![SEPARATOR]
        + (decimal(block_number as nat) + seq![SEPARATOR] + name)));
}

/// No two blocks share a header file: under one root, the header path of a
/// block determines its chain id and block number.
pub proof fn lemma_block_header_paths_distinct(
    root: Seq<u8>,
    chain_a: u64,
    block_a: u64,
    chain_b: u64,
    block_b: u64,
)
    requires
        block_header_file(root, chain_a, block_a) == block_header_file(root, chain_b, block_b),
    ensures
        chain_a == chain_b,
        block_a == block_b,
{
    let name = header_name();
    let p = dir_prefix(root);
    let ca = decimal(chain_a as nat);
    let ba = decimal(block_a as nat);
    let cb = decimal(chain_b as nat);
    let bb = decimal(block_b as nat);
    let ta = ca + seq![SEPARATOR] + (ba + seq![SEPARATOR] + name);
    let tb = cb + seq![SEPARATOR] + (bb + seq![SEPARATOR] + name);
    lemma_header_shape(root, chain_a, block_a);
    lemma_header_shape(root, chain_b, block_b);
    assert((p + ta).subrange(p.len() as int, (p + ta).len() as int) =~= ta);
    assert((p + tb).subrange(p.len() as int, (p + tb).len() as int) =~= tb);
    assert(ta == tb);
    lemma_decimal_digits(chain_a as nat);
    lemma_decimal_digits(block_a as nat);
    lemma_decimal_digits(chain_b as nat);
    lemma_decimal_digits(block_b as nat);
    lemma_split_at_separator(ca, ba + seq![SEPARATOR] + name, cb, bb + seq![SEPARATOR] + name);
    lemma_split_at_separator(ba, name, bb, name);
    lemma_decimal_injective(chain_a as nat, chain_b as nat);
    lemma_decimal_injective(block_a as nat, block_b as nat);
}

/// Within one block, distinct transaction hashes name distinct files, and no
/// transaction file is the block's header file.
pub proof fn lemma_tx_paths_distinct(
    root: Seq<u8>,
    chain_id: u64,
    block_number: u64,
    hash_a: Seq<u8>,
    hash_b: Seq<u8>,
)
    ensures
        tx_file(root, chain_id, block_number, hash_a) == tx_file(
            root,
            chain_id,
            block_number,
            hash_b,
        ) ==> hash_a == hash_b,
        tx_file(root, chain_id, block_number, hash_a) != block_header_file(
            root,
            chain_id,
            block_number,
        ),
{
    reveal_strlit("tx_");
    reveal_strlit(".json");
    reveal_strlit("block_header.json");
    let q = dir_prefix(block_dir_of(root, chain_id, block_number));
    lemma_block_files_share_directory(root, chain_id, block_number, hash_a);
    lemma_block_files_share_directory(root, chain_id, block_number, hash_b);
    let fa = q + tx_file_name(hash_a);
    let fb = q + tx_file_name(hash_b);
    assert(ascii("tx_"@).len() == 3);
    assert(ascii(".json"@).len() == 5);
    if fa == fb {
        let start: int = q.len() as int + 3;
        assert(hash_a =~= fa.subrange(start, fa.len() - 5));
        assert(hash_b =~= fb.subrange(start, fb.len() - 5));
    }
    let h = q + header_name();
    assert(fa[q.len() as int] == 116);
    assert(h[q.len() as int] == 98);
}

} // verus!
