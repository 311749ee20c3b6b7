//! Hashing of logical asset paths.
//!
//! A path is split on its last `/` into a folder half and a file half; each
//! half is hashed with a CRC-32 whose register starts at all ones and is never
//! xored out at the end (equivalently: the bitwise complement of the usual
//! finalised IEEE CRC-32).  All input bytes are ASCII-lower-cased first, so
//! the hash is case-insensitive.

use vstd::prelude::*;
use vstd::string::StrSliceExecFns;

verus! {

/// The pair of hashes that locates a file inside a pack index: one hash of
/// the folder half of the path, one of the file half.
pub struct PathHash {
    pub folder_hash: u32,
    pub file_hash: u32,
}

/// ASCII lower-casing of one byte.
pub open spec fn lower_byte(b: u8) -> u8 {
    if 65 <= b && b <= 90 {
        (b + 32) as u8
    } else {
        b
    }
}

/// ASCII lower-casing of a byte sequence.
pub open spec fn lower_bytes(s: Seq<u8>) -> Seq<u8> {
    s.map_values(|b: u8| lower_byte(b))
}

/// One shift step of the CRC-32 register (IEEE polynomial, reflected form).
pub open spec fn crc_shift(c: u32) -> u32 {
    if (c & 1) == 1 {
        (c >> 1) ^ 0xEDB88320u32
    } else {
        c >> 1
    }
}

/// `n` shift steps of the CRC-32 register.
pub open spec fn crc_bits(c: u32, n: nat) -> u32
    decreases n,
{
    if n == 0 {
        c
    } else {
        crc_shift(crc_bits(c, (n - 1) as nat))
    }
}

/// Folding one byte into the CRC-32 register.
pub open spec fn crc_push(c: u32, b: u8) -> u32 {
    crc_bits(c ^ (b as u32), 8)
}

/// Folding a byte sequence into the CRC-32 register, first byte first.
pub open spec fn crc_fold(c: u32, s: Seq<u8>) -> u32
    decreases s.len(),
{
    if s.len() == 0 {
        c
    } else {
        crc_fold(crc_push(c, s[0]), s.drop_first())
    }
}

/// The hash of one path half: the CRC-32 register after folding in the
/// lower-cased bytes, starting from all ones, with no final xor.
pub open spec fn hash_of(s: Seq<u8>) -> u32 {
    crc_fold(0xFFFFFFFFu32, lower_bytes(s))
}

/// Index of the last `/` byte of `s`, or `-1` when there is none.
pub open spec fn last_slash(s: Seq<u8>) -> int
    decreases s.len(),
{
    if s.len() == 0 {
        -1
    } else if s[s.len() - 1] == 47u8 {
        s.len() - 1
    } else {
        last_slash(s.drop_last())
    }
}

/// The folder half of a path: everything before the last `/`, or the empty
/// sequence when the path has no `/`.
pub open spec fn folder_half(s: Seq<u8>) -> Seq<u8> {
    if last_slash(s) >= 0 {
        s.take(last_slash(s))
    } else {
        Seq::<u8>::empty()
    }
}

/// The file half of a path: everything after the last `/`, or the whole path
/// when it has no `/`.
pub open spec fn file_half(s: Seq<u8>) -> Seq<u8> {
    s.skip(last_slash(s) + 1)
}

/// Both halves' hashes of a path given as bytes.
pub open spec fn path_hash_of(s: Seq<u8>) -> (u32, u32) {
    (hash_of(folder_half(s)), hash_of(file_half(s)))
}

proof fn lemma_crc_fold_push(c: u32, s: Seq<u8>, x: u8)
    ensures
        crc_fold(c, s.push(x)) == crc_push(crc_fold(c, s), x),
    decreases s.len(),
{
    assert(s.push(x).len() == s.len() + 1);
    assert(crc_fold(c, s.push(x)) == crc_fold(crc_push(c, s.push(x)[0]), s.push(x).drop_first()));
    if s.len() == 0 {
        assert(s.push(x)[0] == x);
        assert(s.push(x).drop_first() =~= Seq::<u8>::empty());
        assert(crc_fold(crc_push(c, x), Seq::<u8>::empty()) == crc_push(c, x));
    } else {
        assert(s.push(x)[0] == s[0]);
        assert(s.push(x).drop_first() =~= s.drop_first().push(x));
        lemma_crc_fold_push(crc_push(c, s[0]), s.drop_first(), x);
        assert(crc_fold(c, s) == crc_fold(crc_push(c, s[0]), s.drop_first()));
    }
}

fn crc_byte(c0: u32, b: u8) -> (r: u32)
    ensures
        r == crc_push(c0, b),
{
    let mut c: u32 = c0 ^ (b as u32);
    let mut k: usize = 0;
    while k < 8
        invariant
            k <= 8,
            c == crc_bits(c0 ^ (b as u32), k as nat),
        decreases 8 - k,
    {
        c = if (c & 1) == 1 {
            (c >> 1) ^ 0xEDB88320u32
        } else {
            c >> 1
        };
        k = k + 1;
    }
    c
}

fn lower_byte_exec(b: u8) -> (r: u8)
    ensures
        r == lower_byte(b),
{
    if 65 <= b && b <= 90 {
        b + 32
    } else {
        b
    }
}

/// The hash of the byte range `[from, to)` of `b`.
fn hash_range(b: &Vec<u8>, from: usize, to: usize) -> (r: u32)
    requires
        from <= to <= b@.len(),
    ensures
        r == hash_of(b@.subrange(from as int, to as int)),
{
    let mut c: u32 = 0xFFFFFFFFu32;
    let mut i: usize = from;
    while i < to
        invariant
            from <= i <= to <= b@.len(),
            c == crc_fold(0xFFFFFFFFu32, lower_bytes(b@.subrange(from as int, i as int))),
        decreases to - i,
    {
        let x = lower_byte_exec(b[i]);
        proof {
            assert(b@.subrange(from as int, i + 1) =~= b@.subrange(from as int, i as int).push(
                b@[i as int],
            ));
            assert(lower_bytes(b@.subrange(from as int, i + 1)) =~= lower_bytes(
                b@.subrange(from as int, i as int),
            ).push(lower_byte(b@[i as int])));
            lemma_crc_fold_push(
                0xFFFFFFFFu32,
                lower_bytes(b@.subrange(from as int, i as int)),
                lower_byte(b@[i as int]),
            );
        }
        c = crc_byte(c, x);
        i = i + 1;
    }
    c
}

/// Hash of a whole name (one path half), lower-cased first.
pub fn compute(s: &String) -> (r: u32)
    ensures
        r == hash_of(vstd::utf8::encode_utf8(s@)),
{
    let b = s.as_str().as_bytes_vec();
    proof {
        assert(b@.subrange(0, b@.len() as int) =~= b@);
    }
    hash_range(&b, 0, b.len())
}

/// Both hashes of a logical path: the folder half before the last `/` and the
/// file half after it.
pub fn compute_path(s: &String) -> (r: PathHash)
    ensures
        (r.folder_hash, r.file_hash) == path_hash_of(vstd::utf8::encode_utf8(s@)),
{
    let b = s.as_str().as_bytes_vec();
    let n = b.len();
    let mut found = false;
    let mut pos: usize = 0;
    let mut i: usize = 0;
    while i < n
        invariant
            i <= n == b@.len(),
            found ==> pos < i && b@[pos as int] == 47u8 && (forall|j: int|
                pos < j < i ==> b@[j] != 47u8),
            !found ==> forall|j: int| 0 <= j < i ==> b@[j] != 47u8,
        decreases n - i,
    {
        if b[i] == 47 {
            found = true;
            pos = i;
        }
        i = i + 1;
    }
    if found {
        proof {
            lemma_last_slash_is(b@, pos as int);
            assert(folder_half(b@) =~= b@.subrange(0, pos as int));
            assert(file_half(b@) =~= b@.subrange(pos + 1, n as int));
        }
        let folder_hash = hash_range(&b, 0, pos);
        let file_hash = hash_range(&b, pos + 1, n);
        PathHash { folder_hash, file_hash }
    } else {
        proof {
            lemma_last_slash_none(b@);
            assert(folder_half(b@) =~= b@.subrange(0, 0));
            assert(file_half(b@) =~= b@.subrange(0, n as int));
        }
        let folder_hash = hash_range(&b, 0, 0);
        let file_hash = hash_range(&b, 0, n);
        PathHash { folder_hash, file_hash }
    }
}

proof fn lemma_last_slash_bounds(s: Seq<u8>)
    ensures
        -1 <= last_slash(s) < s.len(),
    decreases s.len(),
{
    if s.len() > 0 && s[s.len() - 1] != 47u8 {
        lemma_last_slash_bounds(s.drop_last());
    }
}

proof fn lemma_last_slash_is(s: Seq<u8>, p: int)
    requires
        0 <= p < s.len(),
        s[p] == 47u8,
        forall|j: int| p < j < s.len() ==> s[j] != 47u8,
    ensures
        last_slash(s) == p,
    decreases s.len(),
{
    if p == s.len() - 1 {
    } else {
        assert(s.drop_last() =~= s.subrange(0, s.len() - 1));
        lemma_last_slash_is(s.drop_last(), p);
    }
}

proof fn lemma_last_slash_none(s: Seq<u8>)
    requires
        forall|j: int| 0 <= j < s.len() ==> s[j] != 47u8,
    ensures
        last_slash(s) == -1,
    decreases s.len(),
{
    if s.len() > 0 {
        assert(s.drop_last() =~= s.subrange(0, s.len() - 1));
        lemma_last_slash_none(s.drop_last());
    }
}

/// Law: hashing is case-insensitive — ASCII-lower-casing the input leaves the
/// hash of a name unchanged.
pub proof fn lemma_hash_case_insensitive(b: Seq<u8>)
    ensures
        hash_of(lower_bytes(b)) == hash_of(b),
{
    assert forall|i: int| 0 <= i < b.len() implies lower_byte(lower_byte(b[i])) == lower_byte(
        b[i],
    ) by {}
    assert(lower_bytes(lower_bytes(b)) =~= lower_bytes(b));
}

proof fn lemma_last_slash_lower(b: Seq<u8>)
    ensures
        last_slash(lower_bytes(b)) == last_slash(b),
    decreases b.len(),
{
    if b.len() > 0 {
        assert(lower_bytes(b).len() == b.len());
        assert(lower_bytes(b)[b.len() - 1] == lower_byte(b[b.len() - 1]));
        assert((lower_byte(b[b.len() - 1]) == 47u8) == (b[b.len() - 1] == 47u8));
        if b[b.len() - 1] != 47u8 {
            assert(lower_bytes(b).drop_last() =~= lower_bytes(b.drop_last()));
            lemma_last_slash_lower(b.drop_last());
        }
    }
}

/// ASCII lower-casing of one character.
pub open spec fn lower_char(c: char) -> char {
    if 65 <= c as u32 && c as u32 <= 90 {
        ((c as u32 + 32) as u32) as char
    } else {
        c
    }
}

/// ASCII lower-casing of a character sequence.
pub open spec fn lower_chars(s: Seq<char>) -> Seq<char> {
    s.map_values(|c: char| lower_char(c))
}

proof fn lemma_encode_scalar_lower(c: char)
    ensures
        vstd::utf8::encode_scalar(lower_char(c) as u32) == lower_bytes(
            vstd::utf8::encode_scalar(c as u32),
        ),
{
    broadcast use vstd::utf8::char_is_scalar;

    let u = c as u32;
    assert(forall|y: u8|
        ((0x80u8 | y) >= 0x80u8) && ((0xC0u8 | y) >= 0x80u8) && ((0xE0u8 | y) >= 0x80u8) && ((
        0xF0u8 | y) >= 0x80u8)) by (bit_vector);
    assert(forall|v: u32| v < 0x80 ==> (v & 0x7F) == v) by (bit_vector);
    if 65 <= u && u <= 90 {
        let l = (u + 32) as u32;
        assert(lower_char(c) as u32 == l);
        assert(vstd::utf8::encode_scalar(u) =~= seq![u as u8]);
        assert(vstd::utf8::encode_scalar(l) =~= seq![l as u8]);
        assert(lower_bytes(seq![u as u8]) =~= seq![lower_byte(u as u8)]);
        assert(lower_byte(u as u8) == l as u8);
    } else {
        assert(lower_char(c) == c);
        if vstd::utf8::has_width_1_encoding(u) {
            assert(vstd::utf8::encode_scalar(u) =~= seq![u as u8]);
            assert(lower_byte(u as u8) == u as u8);
            assert(lower_bytes(vstd::utf8::encode_scalar(u)) =~= vstd::utf8::encode_scalar(u));
        } else {
            assert forall|i: int|
                0 <= i < vstd::utf8::encode_scalar(u).len() implies lower_byte(
                vstd::utf8::encode_scalar(u)[i],
            ) == vstd::utf8::encode_scalar(u)[i] by {
                assert(vstd::utf8::encode_scalar(u)[i] >= 0x80);
            }
            assert(lower_bytes(vstd::utf8::encode_scalar(u)) =~= vstd::utf8::encode_scalar(u));
        }
    }
}

proof fn lemma_encode_utf8_lower(s: Seq<char>)
    ensures
        vstd::utf8::encode_utf8(lower_chars(s)) == lower_bytes(vstd::utf8::encode_utf8(s)),
    decreases s.len(),
{
    if s.len() == 0 {
        assert(lower_chars(s) =~= Seq::<char>::empty());
        assert(lower_bytes(vstd::utf8::encode_utf8(s)) =~= vstd::utf8::encode_utf8(
            lower_chars(s),
        ));
    } else {
        lemma_encode_utf8_lower(s.drop_first());
        lemma_encode_scalar_lower(s[0]);
        assert(lower_chars(s)[0] == lower_char(s[0]));
        assert(lower_chars(s).drop_first() =~= lower_chars(s.drop_first()));
        assert(vstd::utf8::encode_utf8(lower_chars(s)) == vstd::utf8::encode_scalar(
            lower_chars(s)[0] as u32,
        ) + vstd::utf8::encode_utf8(lower_chars(s).drop_first()));
        assert(vstd::utf8::encode_utf8(s) == vstd::utf8::encode_scalar(s[0] as u32)
            + vstd::utf8::encode_utf8(s.drop_first()));
        assert(lower_bytes(
            vstd::utf8::encode_scalar(s[0] as u32) + vstd::utf8::encode_utf8(s.drop_first()),
        ) =~= lower_bytes(vstd::utf8::encode_scalar(s[0] as u32)) + lower_bytes(
            vstd::utf8::encode_utf8(s.drop_first()),
        ));
        assert(vstd::utf8::encode_utf8(lower_chars(s)) =~= lower_bytes(
            vstd::utf8::encode_utf8(s),
        ));
    }
}

/// Law: the hash of a name is unchanged by ASCII-lower-casing the name's
/// characters, stated at the level of [`compute`]'s own contract.
pub proof fn lemma_compute_case_insensitive(s: Seq<char>)
    ensures
        hash_of(vstd::utf8::encode_utf8(lower_chars(s))) == hash_of(vstd::utf8::encode_utf8(s)),
{
    lemma_encode_utf8_lower(s);
    lemma_hash_case_insensitive(vstd::utf8::encode_utf8(s));
}

/// Law: both path hashes are unchanged by ASCII-lower-casing the path's
/// characters, stated at the level of [`compute_path`]'s own contract.
pub proof fn lemma_compute_path_case_insensitive(s: Seq<char>)
    ensures
        path_hash_of(vstd::utf8::encode_utf8(lower_chars(s))) == path_hash_of(
            vstd::utf8::encode_utf8(s),
        ),
{
    lemma_encode_utf8_lower(s);
    lemma_path_hash_case_insensitive(vstd::utf8::encode_utf8(s));
}

/// Law: the path hash is case-insensitive — ASCII-lower-casing a whole path
/// changes neither the folder hash nor the file hash.
pub proof fn lemma_path_hash_case_insensitive(b: Seq<u8>)
    ensures
        path_hash_of(lower_bytes(b)) == path_hash_of(b),
{
    lemma_last_slash_lower(b);
    lemma_last_slash_bounds(b);
    let l = last_slash(b);
    assert forall|i: int| 0 <= i < b.len() implies lower_bytes(b)[i] == lower_byte(b[i]) by {}
    if l >= 0 {
        assert forall|i: int| 0 <= i < l implies lower_bytes(b).take(l)[i] == lower_bytes(
            b.take(l),
        )[i] by {
            assert(b.take(l)[i] == b[i]);
        }
        assert(folder_half(lower_bytes(b)) =~= lower_bytes(folder_half(b)));
    } else {
        assert(folder_half(lower_bytes(b)) =~= lower_bytes(folder_half(b)));
    }
    assert forall|i: int| 0 <= i < b.len() - (l + 1) implies #[trigger] lower_bytes(b).skip(l + 1)[i]
        == lower_bytes(b.skip(l + 1))[i] by {
        assert(b.skip(l + 1)[i] == b[i + l + 1]);
    }
    assert(file_half(lower_bytes(b)) =~= lower_bytes(file_half(b)));
    lemma_hash_case_insensitive(folder_half(b));
    lemma_hash_case_insensitive(file_half(b));
}

} // verus!
