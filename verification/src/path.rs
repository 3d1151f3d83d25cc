//! Paths held as their bytes (as Unix keeps them) and joined the way
//! `std::path::Path::join` joins them on Unix, numbers written in decimal, and
//! the user's home directory.
use vstd::prelude::*;

verus! {

/// The path separator, `/`.
pub const SEPARATOR: u8 = 47;

/// The bytes of ASCII text.
pub open spec fn ascii(s: Seq<char>) -> Seq<u8> {
    Seq::new(s.len(), |i: int| s[i] as u8)
}

/// `Path::join` on Unix: an absolute `component` replaces `base`; otherwise it is
/// appended, with a `/` between, unless `base` is empty or already ends in `/`.
pub open spec fn joined(base: Seq<u8>, component: Seq<u8>) -> Seq<u8> {
    if component.len() > 0 && component[0] == SEPARATOR {
        component
    } else if base.len() > 0 && base.last() != SEPARATOR {
        base + seq![SEPARATOR] + component
    } else {
        base + component
    }
}

/// The ASCII decimal digit `d`.
pub open spec fn digit_byte(d: nat) -> u8 {
    (d + 48) as u8
}

/// `n` written in decimal, as `u64::to_string` writes it.
pub open spec fn decimal(n: nat) -> Seq<u8>
    decreases n,
{
    if n < 10 {
        seq![digit_byte(n)]
    } else {
        decimal(n / 10).push(digit_byte(n % 10))
    }
}

/// Appends the bytes of `s`.
fn push_bytes(v: &mut Vec<u8>, s: &[u8])
    ensures
        final(v)@ == old(v)@ + s@,
{
    let ghost start = v@;
    let mut i: usize = 0;
    while i < s.len()
        invariant
            i <= s.len(),
            v@ == start + s@.subrange(0, i as int),
        decreases s.len() - i,
    {
        v.push(s[i]);
        i = i + 1;
        assert(v@ =~= start + s@.subrange(0, i as int));
    }
    assert(s@.subrange(0, s.len() as int) =~= s@);
}

/// The bytes of ASCII text held in a literal.
pub(crate) fn ascii_bytes(s: &str) -> (b: Vec<u8>)
    requires
        vstd::string::is_ascii(s),
    ensures
        b@ == ascii(s@),
{
    broadcast use vstd::string::is_ascii_spec_bytes;

    let mut b: Vec<u8> = Vec::new();
    push_bytes(&mut b, s.as_bytes());
    assert(b@ =~= ascii(s@));
    b
}

/// `base.join(component)`.
pub fn join(base: &[u8], component: &[u8]) -> (p: Vec<u8>)
    ensures
        p@ == joined(base@, component@),
{
    let mut p: Vec<u8> = Vec::new();
    if component.len() > 0 && component[0] == SEPARATOR {
        push_bytes(&mut p, component);
        return p;
    }
    push_bytes(&mut p, base);
    if base.len() > 0 && base[base.len() - 1] != SEPARATOR {
        p.push(SEPARATOR);
    }
    push_bytes(&mut p, component);
    p
}

fn push_decimal(v: &mut Vec<u8>, n: u64)
    ensures
        final(v)@ == old(v)@ + decimal(n as nat),
    decreases n,
{
    if n >= 10 {
        push_decimal(v, n / 10);
    }
    let c: u8 = (n % 10) as u8 + 48;
    assert(c == digit_byte((n % 10) as nat));
    v.push(c);
    assert(old(v)@ + decimal(n as nat) =~= if n >= 10 {
        (old(v)@ + decimal((n / 10) as nat)).push(c)
    } else {
        old(v)@.push(c)
    });
}

/// `n.to_string()`: `n` in decimal.
pub fn u64_to_decimal(n: u64) -> (s: Vec<u8>)
    ensures
        s@ == decimal(n as nat),
{
    let mut s: Vec<u8> = Vec::new();
    push_decimal(&mut s, n);
    assert(s@ =~= decimal(n as nat));
    s
}

/// dirs' `home_dir`: the user's home directory, where one can be found, as the
/// bytes of its path. It depends on the environment, so nothing is stated of it.
#[verifier::external_body]
pub(crate) fn home_dir() -> (r: Option<Vec<u8>>) {
    match dirs::home_dir() {
        Some(p) => Some(p.into_os_string().into_encoded_bytes()),
        None => None,
    }
}

/// `found` is an answer that the home-directory lookup may give.
pub closed spec fn home_lookup_gives(found: Option<Vec<u8>>) -> bool {
    call_ensures(home_dir, (), found)
}

/// What a call of the lookup gave is an answer it may give.
pub(crate) proof fn lemma_home_lookup_gives(found: Option<Vec<u8>>)
    requires
        call_ensures(home_dir, (), found),
    ensures
        home_lookup_gives(found),
{
}

/// The bytes of the home directory that a lookup found, if any.
pub open spec fn found_home(found: Option<Vec<u8>>) -> Option<Seq<u8>> {
    match found {
        Some(h) => Some(h@),
        None => None,
    }
}

/// `home.join(".plexus").join("cache")`: the cache under a home directory.
pub open spec fn cache_under(home: Seq<u8>) -> Seq<u8> {
    joined(joined(home, ascii(".plexus"@)), ascii("cache"@))
}

/// The cache root under `home`.
pub fn cache_root_under(home: &[u8]) -> (p: Vec<u8>)
    ensures
        p@ == cache_under(home@),
{
    proof {
        reveal_strlit(".plexus");
        reveal_strlit("cache");
    }
    let dir = join(home, &ascii_bytes(".plexus"));
    join(&dir, &ascii_bytes("cache"))
}

/// The cache root is the home directory, followed by a `/` where it does not end
/// in one, followed by `.plexus/cache`.
pub proof fn lemma_cache_under_shape(home: Seq<u8>)
    ensures
        cache_under(home) == (if home.len() > 0 && home.last() != SEPARATOR {
            home.push(SEPARATOR)
        } else {
            home
        }) + ascii(".plexus/cache"@),
{
    reveal_strlit(".plexus");
    reveal_strlit("cache");
    reveal_strlit(".plexus/cache");
    let pre = if home.len() > 0 && home.last() != SEPARATOR {
        home.push(SEPARATOR)
    } else {
        home
    };
    let plexus = ascii(".plexus"@);
    let first = joined(home, plexus);
    assert(plexus[0] == 46);
    assert(first =~= pre + plexus);
    assert(first.last() == 115);
    assert(ascii("cache"@)[0] == 99);
    assert(cache_under(home) =~= pre + ascii(".plexus/cache"@));
}

/// The cache root determines the home directory it lies under (up to a
/// trailing `/`): two homes that give one root are the same directory.
pub proof fn lemma_cache_root_determines_home(a: Seq<u8>, b: Seq<u8>)
    requires
        cache_under(a) == cache_under(b),
    ensures
        (if a.len() > 0 && a.last() != SEPARATOR {
            a.push(SEPARATOR)
        } else {
            a
        }) == (if b.len() > 0 && b.last() != SEPARATOR {
            b.push(SEPARATOR)
        } else {
            b
        }),
{
    lemma_cache_under_shape(a);
    lemma_cache_under_shape(b);
    let pa = if a.len() > 0 && a.last() != SEPARATOR {
        a.push(SEPARATOR)
    } else {
        a
    };
    let pb = if b.len() > 0 && b.last() != SEPARATOR {
        b.push(SEPARATOR)
    } else {
        b
    };
    let tail = ascii(".plexus/cache"@);
    assert(pa =~= (pa + tail).subrange(0, pa.len() as int));
    assert(pb =~= (pb + tail).subrange(0, pb.len() as int));
}

} // verus!
