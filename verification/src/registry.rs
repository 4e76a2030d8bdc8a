//! The algorithm registry: the ordered table of magic markers and the
//! first-match-wins resolution of a salt against it.

use vstd::prelude::*;

verus! {

/// How many entries the registry holds.
pub open spec fn registry_len() -> int {
    6
}

/// The identifying names of the registered algorithms, in registry order.
pub open spec fn names() -> Seq<Seq<char>> {
    seq!["md5"@, "blf"@, "nth"@, "sha256"@, "sha512"@, "des"@]
}

/// The magic markers, as character sequences, in registry order.
/// The last entry's empty marker is the catch-all: it is a prefix of every
/// salt, so it must sort last or it would absorb everything.
pub open spec fn magic_strs() -> Seq<Seq<char>> {
    seq!["$1$"@, "$2"@, "$3$"@, "$5$"@, "$6$"@, ""@]
}

/// The magic markers as the bytes they are matched by, in registry order.
/// 0x24 is the ASCII dollar sign; 0x31, 0x32, 0x33, 0x35, 0x36 are the
/// ASCII digits 1, 2, 3, 5 and 6.
pub open spec fn magics() -> Seq<Seq<u8>> {
    seq![
        seq![0x24u8, 0x31u8, 0x24u8],
        seq![0x24u8, 0x32u8],
        seq![0x24u8, 0x33u8, 0x24u8],
        seq![0x24u8, 0x35u8, 0x24u8],
        seq![0x24u8, 0x36u8, 0x24u8],
        Seq::<u8>::empty(),
    ]
}

/// The characters of a marker, read as ASCII codes.
pub open spec fn ascii_codes(s: Seq<char>) -> Seq<u8> {
    s.map_values(|c: char| c as u8)
}

/// Each marker's bytes are exactly its characters, read as ASCII codes.
pub proof fn lemma_markers_ascii()
    ensures
        forall|i: int|
            #![trigger magic_strs()[i]]
            0 <= i < registry_len() ==> ascii_codes(magic_strs()[i]) == magics()[i],
{
    reveal_strlit("$1$");
    reveal_strlit("$2");
    reveal_strlit("$3$");
    reveal_strlit("$5$");
    reveal_strlit("$6$");
    reveal_strlit("");
    assert forall|i: int| #![trigger magic_strs()[i]] 0 <= i < registry_len() implies ascii_codes(
        magic_strs()[i],
    ) == magics()[i] by {
        assert(ascii_codes(magic_strs()[0]) =~= magics()[0]);
        assert(ascii_codes(magic_strs()[1]) =~= magics()[1]);
        assert(ascii_codes(magic_strs()[2]) =~= magics()[2]);
        assert(ascii_codes(magic_strs()[3]) =~= magics()[3]);
        assert(ascii_codes(magic_strs()[4]) =~= magics()[4]);
        assert(ascii_codes(magic_strs()[5]) =~= magics()[5]);
    }
}

/// Whether the salt begins with the marker of registry entry `i`.
pub open spec fn matches_at(salt: Seq<u8>, i: int) -> bool {
    magics()[i].is_prefix_of(salt)
}

/// First-match-wins scan of the registry, from entry `k` on.
pub open spec fn resolve_from(salt: Seq<u8>, k: int) -> Option<int>
    decreases registry_len() - k,
{
    if k < 0 || k >= registry_len() {
        None
    } else if matches_at(salt, k) {
        Some(k)
    } else {
        resolve_from(salt, k + 1)
    }
}

/// The registry entry a salt resolves to, if any: the first, in registry
/// order, whose marker is a prefix of the salt.
pub open spec fn spec_resolve(salt: Seq<u8>) -> Option<int> {
    resolve_from(salt, 0)
}

/// Any salt that begins with the md5 marker resolves to the md5 entry.
pub proof fn lemma_md5_prefix_resolves(salt: Seq<u8>)
    requires
        magics()[0].is_prefix_of(salt),
    ensures
        spec_resolve(salt) == Some(0int),
{
    assert(matches_at(salt, 0));
}

/// Any salt that begins with the sha256 marker resolves to the sha256
/// entry.
pub proof fn lemma_sha256_prefix_resolves(salt: Seq<u8>)
    requires
        magics()[3].is_prefix_of(salt),
    ensures
        spec_resolve(salt) == Some(3int),
{
    assert(salt[1] == 0x35u8) by {
        assert(magics()[3] =~= salt.subrange(0, 3));
        assert(salt.subrange(0, 3)[1] == salt[1]);
    }
    assert(!matches_at(salt, 0)) by {
        if magics()[0].is_prefix_of(salt) {
            assert(salt.subrange(0, 3)[1] == salt[1]);
        }
    }
    assert(!matches_at(salt, 1)) by {
        if magics()[1].is_prefix_of(salt) {
            assert(salt.subrange(0, 2)[1] == salt[1]);
        }
    }
    assert(!matches_at(salt, 2)) by {
        if magics()[2].is_prefix_of(salt) {
            assert(salt.subrange(0, 3)[1] == salt[1]);
        }
    }
    assert(resolve_from(salt, 3) == Some(3int));
    assert(resolve_from(salt, 2) == Some(3int));
    assert(resolve_from(salt, 1) == Some(3int));
    assert(resolve_from(salt, 0) == Some(3int));
}

/// Any salt that begins with the sha512 marker resolves to the sha512
/// entry.
pub proof fn lemma_sha512_prefix_resolves(salt: Seq<u8>)
    requires
        magics()[4].is_prefix_of(salt),
    ensures
        spec_resolve(salt) == Some(4int),
{
    assert(salt[1] == 0x36u8) by {
        assert(magics()[4] =~= salt.subrange(0, 3));
        assert(salt.subrange(0, 3)[1] == salt[1]);
    }
    assert(!matches_at(salt, 0)) by {
        if magics()[0].is_prefix_of(salt) {
            assert(salt.subrange(0, 3)[1] == salt[1]);
        }
    }
    assert(!matches_at(salt, 1)) by {
        if magics()[1].is_prefix_of(salt) {
            assert(salt.subrange(0, 2)[1] == salt[1]);
        }
    }
    assert(!matches_at(salt, 2)) by {
        if magics()[2].is_prefix_of(salt) {
            assert(salt.subrange(0, 3)[1] == salt[1]);
        }
    }
    assert(!matches_at(salt, 3)) by {
        if magics()[3].is_prefix_of(salt) {
            assert(salt.subrange(0, 3)[1] == salt[1]);
        }
    }
    assert(resolve_from(salt, 4) == Some(4int));
    assert(resolve_from(salt, 3) == Some(4int));
    assert(resolve_from(salt, 2) == Some(4int));
    assert(resolve_from(salt, 1) == Some(4int));
    assert(resolve_from(salt, 0) == Some(4int));
}

proof fn lemma_resolve_from_none(salt: Seq<u8>, k: int)
    requires
        0 <= k <= registry_len(),
    ensures
        (resolve_from(salt, k) is None) <==> (forall|i: int|
            k <= i < registry_len() ==> !matches_at(salt, i)),
    decreases registry_len() - k,
{
    if k < registry_len() {
        lemma_resolve_from_none(salt, k + 1);
    }
}

/// Resolution fails exactly when no registry marker is a prefix of the
/// salt.
pub proof fn lemma_no_match_resolves_none(salt: Seq<u8>)
    ensures
        (spec_resolve(salt) is None) <==> (forall|i: int|
            0 <= i < registry_len() ==> !matches_at(salt, i)),
{
    lemma_resolve_from_none(salt, 0);
}

proof fn lemma_resolve_from_first(salt: Seq<u8>, k: int, i: int)
    requires
        0 <= k <= i < registry_len(),
        matches_at(salt, i),
        forall|j: int| k <= j < i ==> !matches_at(salt, j),
    ensures
        resolve_from(salt, k) == Some(i),
    decreases i - k,
{
    if k < i {
        lemma_resolve_from_first(salt, k + 1, i);
    }
}

/// Registry order decides an ambiguous salt: an entry whose marker
/// matches wins exactly when every earlier entry's marker does not.
pub proof fn lemma_first_match_wins(salt: Seq<u8>, i: int)
    requires
        0 <= i < registry_len(),
        matches_at(salt, i),
        forall|j: int| 0 <= j < i ==> !matches_at(salt, j),
    ensures
        spec_resolve(salt) == Some(i),
{
    lemma_resolve_from_first(salt, 0, i);
}

/// The marker bytes of registry entry `i`, for matching against a salt.
fn magic_bytes(i: usize) -> (v: Vec<u8>)
    requires
        i < 6,
    ensures
        v@ == magics()[i as int],
{
    let mut v: Vec<u8> = Vec::new();
    if i == 0 || i == 2 || i == 3 || i == 4 {
        v.push(0x24);
        v.push(if i == 0 {
            0x31
        } else if i == 2 {
            0x33
        } else if i == 3 {
            0x35
        } else {
            0x36
        });
        v.push(0x24);
    } else if i == 1 {
        v.push(0x24);
        v.push(0x32);
    }
    proof {
        assert(v@ =~= magics()[i as int]);
    }
    v
}

/// Whether `pre` is a prefix of `data`.
fn starts_with_bytes(data: &[u8], pre: &Vec<u8>) -> (b: bool)
    ensures
        b == pre@.is_prefix_of(data@),
{
    if pre.len() > data.len() {
        return false;
    }
    let mut k: usize = 0;
    while k < pre.len()
        invariant
            k <= pre@.len(),
            pre@.len() <= data@.len(),
            forall|j: int| 0 <= j < k ==> pre@[j] == data@[j],
        decreases pre@.len() - k,
    {
        if data[k] != pre[k] {
            proof {
                assert(data@.subrange(0, pre@.len() as int)[k as int] == data@[k as int]);
            }
            return false;
        }
        k += 1;
    }
    proof {
        assert(pre@ =~= data@.subrange(0, pre@.len() as int));
    }
    true
}

/// The index of the registry entry the salt resolves to, if any.
pub fn resolve_index(salt: &[u8]) -> (r: Option<usize>)
    ensures
        (match r {
            Some(i) => i < 6 && spec_resolve(salt@) == Some(i as int),
            None => spec_resolve(salt@) is None,
        }),
{
    let mut i: usize = 0;
    while i < 6
        invariant
            i <= 6,
            spec_resolve(salt@) == resolve_from(salt@, i as int),
        decreases 6 - i,
    {
        let magic = magic_bytes(i);
        if starts_with_bytes(salt, &magic) {
            return Some(i);
        }
        i += 1;
    }
    None
}

/// The registered `(name, magic)` entry whose marker the salt begins
/// with, if any: the first such entry in registry order.
pub fn format_from_magic(salt: &[u8]) -> (r: Option<(&'static str, &'static str)>)
    ensures
        r is Some <==> spec_resolve(salt@) is Some,
        r is Some ==> ({
            let entry = r->0;
            let i = spec_resolve(salt@)->0;
            &&& entry.0@ == names()[i]
            &&& entry.1@ == magic_strs()[i]
            &&& ascii_codes(entry.1@) == magics()[i]
        }),
{
    match resolve_index(salt) {
        None => None,
        Some(i) => {
            let entry: (&'static str, &'static str) = if i == 0 {
                ("md5", "$1$")
            } else if i == 1 {
                ("blf", "$2")
            } else if i == 2 {
                ("nth", "$3$")
            } else if i == 3 {
                ("sha256", "$5$")
            } else if i == 4 {
                ("sha512", "$6$")
            } else {
                ("des", "")
            };
            proof {
                lemma_markers_ascii();
                assert(spec_resolve(salt@) == Some(i as int));
                assert(entry.0@ == names()[i as int]);
                assert(entry.1@ == magic_strs()[i as int]);
                assert(ascii_codes(entry.1@) == magics()[i as int]);
            }
            Some(entry)
        },
    }
}

} // verus!
