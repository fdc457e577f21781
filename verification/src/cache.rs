//! The answer cache: one file per exact (code, prompt version, language)
//! triple, named by the SHA-256 of that triple, and at most
//! `MAX_CACHE_ENTRIES` files, the least recently used going first.

use vstd::prelude::*;
use vstd::utf8::encode_utf8;
use sha2::Digest;
use crate::config::spec_codepop_dir;
use crate::paths::{append_bytes, home_dir, is_absolute, join, spec_join};

verus! {

/// The version of the prompt's format; a new version makes every cached
/// answer unreachable.
pub const PROMPT_VERSION: &'static str = "v6";

/// The most answer files that the cache keeps.
pub const MAX_CACHE_ENTRIES: usize = 500;

/// A cached answer.
#[derive(Clone)]
pub struct CacheEntry {
    pub explanation: String,
    pub code: String,
    pub ts: i64,
}

/// The bytes that name a cache entry: the code, `:`, the prompt version,
/// `:`, the language, each in UTF-8.
pub open spec fn hash_input(text: Seq<char>, lang: Seq<char>) -> Seq<u8> {
    encode_utf8(text) + seq![58u8] + encode_utf8(PROMPT_VERSION@) + seq![58u8] + encode_utf8(lang)
}

/// The SHA-256 digest of `data`.
pub uninterp spec fn spec_sha256(data: Seq<u8>) -> Seq<u8>;

/// `sha2::Sha256::digest`: the SHA-256 digest of `data`, 32 bytes, named by
/// `spec_sha256`; the compression function is not written out.
#[verifier::external_body]
fn sha256_digest(data: &[u8]) -> (res: Vec<u8>)
    ensures
        res@ == spec_sha256(data@),
        res@.len() == 32,
{
    sha2::Sha256::digest(data).to_vec()
}

/// The lowercase hexadecimal digit for `d` (below 16).
pub open spec fn hex_char(d: nat) -> char {
    if d == 0 { '0' }
    else if d == 1 { '1' }
    else if d == 2 { '2' }
    else if d == 3 { '3' }
    else if d == 4 { '4' }
    else if d == 5 { '5' }
    else if d == 6 { '6' }
    else if d == 7 { '7' }
    else if d == 8 { '8' }
    else if d == 9 { '9' }
    else if d == 10 { 'a' }
    else if d == 11 { 'b' }
    else if d == 12 { 'c' }
    else if d == 13 { 'd' }
    else if d == 14 { 'e' }
    else { 'f' }
}

/// Each byte as two lowercase hexadecimal digits, high half first.
pub open spec fn spec_hex(data: Seq<u8>) -> Seq<char>
    decreases data.len(),
{
    if data.len() == 0 {
        Seq::<char>::empty()
    } else {
        seq![hex_char((data[0] / 16) as nat), hex_char((data[0] % 16) as nat)]
            + spec_hex(data.drop_first())
    }
}

/// `hex::encode`: each byte as two lowercase hexadecimal digits, high half
/// first, as the crate's documentation states.
#[verifier::external_body]
fn hex_encode(data: &[u8]) -> (res: String)
    ensures
        res@ == spec_hex(data@),
{
    hex::encode(data)
}

/// The hex text is twice as long as the data.
pub proof fn lemma_hex_len(data: Seq<u8>)
    ensures
        spec_hex(data).len() == 2 * data.len(),
    decreases data.len(),
{
    if data.len() > 0 {
        lemma_hex_len(data.drop_first());
    }
}

/// The cache key of `text` in `lang`.
pub open spec fn spec_hash_text(text: Seq<char>, lang: Seq<char>) -> Seq<char> {
    spec_hex(spec_sha256(hash_input(text, lang)))
}

/// The cache key of `text` explained in `lang`: the SHA-256 of
/// `text:PROMPT_VERSION:lang` in lowercase hex, 64 characters.
pub fn hash_text(text: &str, lang: &str) -> (res: String)
    ensures
        res@ == spec_hash_text(text@, lang@),
        res@ == spec_hex(spec_sha256(
            encode_utf8(text@) + seq![58u8, 118u8, 54u8, 58u8] + encode_utf8(lang@),
        )),
        res@.len() == 64,
{
    let mut data: Vec<u8> = Vec::new();
    append_bytes(&mut data, text.as_bytes());
    data.push(58u8);
    append_bytes(&mut data, PROMPT_VERSION.as_bytes());
    data.push(58u8);
    append_bytes(&mut data, lang.as_bytes());
    assert(data@ =~= hash_input(text@, lang@));
    let digest = sha256_digest(data.as_slice());
    let res = hex_encode(digest.as_slice());
    proof {
        lemma_hex_len(digest@);
        law_hash_key_bytes(text@, lang@);
    }
    res
}

/// The cache key is the lowercase hex of the SHA-256 of the code's UTF-8
/// bytes, `:v6:`, and the bytes of the language it is given: the language
/// asked for, whatever the code.
pub proof fn law_hash_key_bytes(text: Seq<char>, lang: Seq<char>)
    ensures
        spec_hash_text(text, lang) == spec_hex(spec_sha256(
            encode_utf8(text) + seq![58u8, 118u8, 54u8, 58u8] + encode_utf8(lang),
        )),
{
    reveal_strlit("v6");
    assert(PROMPT_VERSION@ =~= seq!['v', '6']);
    assert(encode_utf8(seq!['v', '6']) =~= seq![118u8, 54u8]) by {
        assert(seq!['v', '6'].drop_first() =~= seq!['6']);
        assert(seq!['6'].drop_first() =~= Seq::<char>::empty());
        assert(('v' as u32) == 118u32);
        assert(('6' as u32) == 54u32);
        assert(((118u32 & 0x7F) as u8) == 118u8) by (bit_vector);
        assert(((54u32 & 0x7F) as u8) == 54u8) by (bit_vector);
        assert(vstd::utf8::encode_scalar(118u32) =~= seq![118u8]);
        assert(vstd::utf8::encode_scalar(54u32) =~= seq![54u8]);
        assert(encode_utf8(Seq::<char>::empty()) =~= Seq::<u8>::empty());
        assert(encode_utf8(seq!['6']) =~= seq![54u8]);
    }
    assert(hash_input(text, lang) =~= encode_utf8(text) + seq![58u8, 118u8, 54u8, 58u8] + encode_utf8(lang));
}

/// The same code in two languages, or two codes in one language, are
/// hashed from different bytes: the cache never serves an answer for other
/// code, or in the other language, unless SHA-256 collides.
pub proof fn law_hash_input_separates(t1: Seq<char>, l1: Seq<char>, t2: Seq<char>, l2: Seq<char>)
    requires
        t1 == t2 || l1 == l2,
        t1 != t2 || l1 != l2,
    ensures
        hash_input(t1, l1) != hash_input(t2, l2),
{
    broadcast use vstd::utf8::encode_utf8_decode_utf8;
    let a = hash_input(t1, l1);
    let b = hash_input(t2, l2);
    let mid = seq![58u8] + encode_utf8(PROMPT_VERSION@) + seq![58u8];
    assert(a =~= encode_utf8(t1) + mid + encode_utf8(l1));
    assert(b =~= encode_utf8(t2) + mid + encode_utf8(l2));
    if a == b {
        if t1 == t2 {
            let n = encode_utf8(t1).len() + mid.len();
            assert(a.skip(n as int) =~= encode_utf8(l1));
            assert(b.skip(n as int) =~= encode_utf8(l2));
            assert(vstd::utf8::decode_utf8(encode_utf8(l1)) == l1);
            assert(vstd::utf8::decode_utf8(encode_utf8(l2)) == l2);
        } else {
            assert(l1 == l2);
            let n = mid.len() + encode_utf8(l1).len();
            assert(a.len() == encode_utf8(t1).len() + n);
            assert(b.len() == encode_utf8(t2).len() + n);
            assert(a.take(a.len() - n) =~= encode_utf8(t1));
            assert(b.take(b.len() - n) =~= encode_utf8(t2));
            assert(vstd::utf8::decode_utf8(encode_utf8(t1)) == t1);
            assert(vstd::utf8::decode_utf8(encode_utf8(t2)) == t2);
        }
    }
}

/// The cache directory under the home directory `home`.
pub open spec fn spec_cache_dir(home: Seq<u8>) -> Seq<u8> {
    spec_join(spec_codepop_dir(home), encode_utf8("cache"@))
}

/// The file of the cache entry `hash` under the home directory `home`.
pub open spec fn spec_entry_path(home: Seq<u8>, hash: Seq<char>) -> Seq<u8> {
    spec_join(spec_cache_dir(home), encode_utf8(hash) + encode_utf8(".json"@))
}

/// The cache directory under the home directory `home`.
pub fn cache_dir_in(home: &[u8]) -> (res: Vec<u8>)
    ensures
        res@ == spec_cache_dir(home@),
{
    let dir = crate::config::codepop_dir_in(home);
    join(dir.as_slice(), "cache".as_bytes())
}

/// The cache directory, `cache` in Codepop's directory.
pub fn cache_dir() -> (res: Vec<u8>)
    ensures
        exists|h: Seq<u8>| res@ == spec_cache_dir(h),
{
    let h = match home_dir() {
        Some(h) => h,
        None => Vec::new(),
    };
    cache_dir_in(h.as_slice())
}

/// The file of the cache entry `hash` under the home directory `home`.
pub fn entry_path_in(home: &[u8], hash: &str) -> (res: Vec<u8>)
    ensures
        res@ == spec_entry_path(home@, hash@),
{
    let dir = cache_dir_in(home);
    let mut name: Vec<u8> = Vec::new();
    append_bytes(&mut name, hash.as_bytes());
    append_bytes(&mut name, ".json".as_bytes());
    join(dir.as_slice(), name.as_slice())
}

/// The file of the cache entry `hash`: `<hash>.json` in the cache directory.
pub fn entry_path(hash: &str) -> (res: Vec<u8>)
    ensures
        exists|h: Seq<u8>| res@ == spec_entry_path(h, hash@),
{
    let h = match home_dir() {
        Some(h) => h,
        None => Vec::new(),
    };
    entry_path_in(h.as_slice(), hash)
}

/// A character sequence whose UTF-8 encoding begins with the separator
/// byte begins with `/`.
proof fn lemma_first_byte_separator(c: Seq<char>)
    requires
        c.len() > 0,
        encode_utf8(c)[0] == 47u8,
    ensures
        c[0] == '/',
{
    vstd::utf8::encode_utf8_first_scalar(c);
    let b = encode_utf8(c);
    assert((47u8 & 0x7Fu8) as u32 == 47u32) by (bit_vector);
    assert(vstd::utf8::decode_first_scalar(b) == 47u32);
    assert((c[0] as u32) == 47u32);
    assert('/' as u32 == 47u32);
    vstd::utf8::char_u32_cast(c[0], 47u32);
    vstd::utf8::char_u32_cast('/', 47u32);
}

/// The file name of a key that does not begin with `/` is no absolute path.
proof fn lemma_entry_name_relative(h: Seq<char>)
    requires
        h.len() == 0 || h[0] != '/',
    ensures
        !is_absolute(encode_utf8(h) + encode_utf8(".json"@)),
{
    let n = encode_utf8(h) + encode_utf8(".json"@);
    if is_absolute(n) {
        if h.len() > 0 {
            vstd::utf8::encode_utf8_first_scalar(h);
            assert(encode_utf8(h).len() > 0);
            assert(n[0] == encode_utf8(h)[0]);
            lemma_first_byte_separator(h);
        } else {
            assert(encode_utf8(h) =~= Seq::<u8>::empty());
            assert(n =~= encode_utf8(".json"@));
            reveal_strlit(".json");
            lemma_first_byte_separator(".json"@);
        }
    }
}

/// Different keys are stored in different files, for keys that do not
/// begin with `/` (every key that `hash_text` makes is hexadecimal). A key
/// beginning with `/` names an absolute path: with home `/`, the keys `b`
/// and `/.codepop/cache/b` name the same file.
pub proof fn law_entry_paths_distinct(home: Seq<u8>, h1: Seq<char>, h2: Seq<char>)
    requires
        h1 != h2,
        h1.len() == 0 || h1[0] != '/',
        h2.len() == 0 || h2[0] != '/',
    ensures
        spec_entry_path(home, h1) != spec_entry_path(home, h2),
{
    broadcast use vstd::utf8::encode_utf8_decode_utf8;
    lemma_entry_name_relative(h1);
    lemma_entry_name_relative(h2);
    let d = spec_cache_dir(home);
    let j = encode_utf8(".json"@);
    let e1 = encode_utf8(h1);
    let e2 = encode_utf8(h2);
    let p1 = spec_entry_path(home, h1);
    let p2 = spec_entry_path(home, h2);
    if p1 == p2 {
        let n = if d.len() == 0 { 0 } else if d.last() == 47u8 { d.len() } else { d.len() + 1 };
        assert(p1.skip(n as int) =~= e1 + j);
        assert(p2.skip(n as int) =~= e2 + j);
        assert((e1 + j).len() == (e2 + j).len());
        assert(e1 =~= (e1 + j).take(e1.len() as int));
        assert(e2 =~= (e2 + j).take(e2.len() as int));
        assert(vstd::utf8::decode_utf8(e1) == h1);
        assert(vstd::utf8::decode_utf8(e2) == h2);
    }
}

/// A file in the cache directory, by name and modification time (in
/// nanoseconds from the Unix epoch; earlier times are negative).
pub struct CacheFile {
    pub name: String,
    pub mtime: i128,
}

/// Whether `s` ends with `suffix`.
pub open spec fn has_suffix(s: Seq<char>, suffix: Seq<char>) -> bool {
    suffix.len() <= s.len() && s.skip(s.len() - suffix.len()) == suffix
}

/// Whether a file name has the extension `json` (as `Path::extension` sees
/// it: after the last dot, with something before that dot).
pub open spec fn spec_is_entry_file(name: Seq<char>) -> bool {
    name.len() > 5 && has_suffix(name, ".json"@)
}

/// Whether a file in the cache directory holds an entry.
pub fn is_entry_file(name: &str) -> (res: bool)
    ensures
        res == spec_is_entry_file(name@),
{
    let c = crate::text::chars_vec(name);
    let n = c.len();
    if n <= 5 {
        return false;
    }
    let ok = c[n - 5] == '.' && c[n - 4] == 'j' && c[n - 3] == 's' && c[n - 2] == 'o' && c[n - 1] == 'n';
    proof {
        reveal_strlit(".json");
        if ok {
            assert(name@.skip(n - 5) =~= ".json"@);
        } else {
            assert(name@.skip(n - 5) != ".json"@ ) by {
                if name@.skip(n - 5) == ".json"@ {
                    assert(name@.skip(n - 5)[0] == '.');
                    assert(name@.skip(n - 5)[1] == 'j');
                    assert(name@.skip(n - 5)[2] == 's');
                    assert(name@.skip(n - 5)[3] == 'o');
                    assert(name@.skip(n - 5)[4] == 'n');
                }
            }
        }
    }
    ok
}

/// Entry `a` was used before entry `b`: it is older, or as old and listed first.
pub open spec fn older(m: Seq<i128>, a: int, b: int) -> bool {
    m[a] < m[b] || (m[a] == m[b] && a < b)
}

/// A list of distinct numbers that holds all of `0..n` has at least `n` of them.
proof fn lemma_cover(s: Seq<usize>, n: usize)
    requires
        s.no_duplicates(),
        forall|k: usize| k < n ==> s.contains(k),
    ensures
        s.len() >= n,
    decreases n,
{
    if n > 0 {
        let last = (n - 1) as usize;
        assert(s.contains(last));
        let i = choose|i: int| 0 <= i < s.len() && s[i] == last;
        let t = s.remove(i);
        assert forall|k: usize| k < last implies t.contains(k) by {
            assert(s.contains(k));
            let j = choose|j: int| 0 <= j < s.len() && s[j] == k;
            if j < i {
                assert(t[j] == k);
            } else {
                assert(j != i);
                assert(t[j - 1] == k);
            }
        }
        assert forall|a: int, b: int| 0 <= a < t.len() && 0 <= b < t.len() && a != b implies t[a] != t[b] by {
            let a2 = if a < i { a } else { a + 1 };
            let b2 = if b < i { b } else { b + 1 };
            assert(t[a] == s[a2]);
            assert(t[b] == s[b2]);
        }
        lemma_cover(t, last);
    }
}

/// The positions of the `count` entries used longest ago, oldest first.
pub fn oldest(mtimes: &Vec<i128>, count: usize) -> (res: Vec<usize>)
    requires
        count <= mtimes.len(),
    ensures
        res.len() == count,
        forall|i: int| 0 <= i < res.len() ==> res[i] < mtimes.len(),
        forall|i: int, j: int| 0 <= i < j < res.len() ==> older(mtimes@, res[i] as int, res[j] as int),
        forall|i: int, k: int|
            0 <= i < res.len() && 0 <= k < mtimes.len() && !res@.contains(k as usize)
                ==> older(mtimes@, res[i] as int, k),
{
    let n = mtimes.len();
    let mut marked: Vec<bool> = Vec::new();
    let mut z: usize = 0;
    while z < n
        invariant
            z <= n,
            marked.len() == z,
            forall|k: int| 0 <= k < z ==> !marked[k],
        decreases n - z,
    {
        marked.push(false);
        z = z + 1;
    }
    let mut res: Vec<usize> = Vec::new();
    let mut r: usize = 0;
    while r < count
        invariant
            n == mtimes.len(),
            count <= n,
            marked.len() == n,
            r <= count,
            res.len() == r,
            forall|i: int| 0 <= i < res.len() ==> res[i] < n,
            forall|k: int| 0 <= k < n ==> (marked[k] <==> res@.contains(k as usize)),
            forall|i: int, j: int| 0 <= i < j < res.len() ==> older(mtimes@, res[i] as int, res[j] as int),
            forall|i: int, k: int|
                0 <= i < res.len() && 0 <= k < n && !res@.contains(k as usize)
                    ==> older(mtimes@, res[i] as int, k),
        decreases count - r,
    {
        let mut best: usize = n;
        let mut j: usize = 0;
        while j < n
            invariant
                n == mtimes.len(),
                marked.len() == n,
                j <= n,
                best == n || (best < j && !marked[best as int]),
                best == n ==> forall|k: int| 0 <= k < j ==> marked[k],
                best < n ==> forall|k: int| 0 <= k < j && !marked[k] && k != best
                    ==> older(mtimes@, best as int, k),
            decreases n - j,
        {
            if !marked[j] {
                if best == n || mtimes[j] < mtimes[best] {
                    best = j;
                }
            }
            j = j + 1;
        }
        if best == n {
            proof {
                assert(res@.no_duplicates()) by {
                    assert forall|a: int, b: int| 0 <= a < res.len() && 0 <= b < res.len() && a != b
                        implies res[a] != res[b] by {
                        if a < b {
                            assert(older(mtimes@, res[a] as int, res[b] as int));
                        } else {
                            assert(older(mtimes@, res[b] as int, res[a] as int));
                        }
                    }
                }
                assert forall|k: usize| k < n implies res@.contains(k) by {
                    assert(marked[k as int]);
                }
                lemma_cover(res@, n);
            }
        }
        let ghost prev = res@;
        proof {
            assert(!prev.contains(best)) by {
                assert(!marked@[best as int]);
            }
        }
        res.push(best);
        marked.set(best, true);
        proof {
            assert forall|k: int| 0 <= k < n implies (marked[k] <==> res@.contains(k as usize)) by {
                if k == best {
                    assert(res@[r as int] == best);
                } else {
                    if prev.contains(k as usize) {
                        let w = choose|w: int| 0 <= w < prev.len() && prev[w] == k as usize;
                        assert(res@[w] == k as usize);
                    }
                    if res@.contains(k as usize) {
                        let w = choose|w: int| 0 <= w < res@.len() && res@[w] == k as usize;
                        assert(w < prev.len());
                        assert(prev[w] == k as usize);
                    }
                }
            }
            assert forall|i: int, k: int|
                0 <= i < res.len() && 0 <= k < n && !res@.contains(k as usize)
                    implies older(mtimes@, res[i] as int, k) by {
                assert(!marked[k]);
                assert(!prev.contains(k as usize)) by {
                    if prev.contains(k as usize) {
                        let w = choose|w: int| 0 <= w < prev.len() && prev[w] == k as usize;
                        assert(res@[w] == k as usize);
                    }
                }
                if i < r {
                    assert(res[i] == prev[i]);
                } else {
                    assert(k != best);
                }
            }
            assert forall|i: int, j2: int| 0 <= i < j2 < res.len()
                implies older(mtimes@, res[i] as int, res[j2] as int) by {
                if j2 == r {
                    assert(res[i] == prev[i]);
                } else {
                    assert(res[i] == prev[i]);
                    assert(res[j2] == prev[j2]);
                }
            }
        }
        r = r + 1;
    }
    res
}

/// The positions, in order, of the files that hold entries.
pub open spec fn entry_indices(files: Seq<CacheFile>) -> Seq<usize>
    decreases files.len(),
{
    if files.len() == 0 {
        Seq::<usize>::empty()
    } else {
        let prev = entry_indices(files.drop_last());
        if spec_is_entry_file(files.last().name@) {
            prev.push((files.len() - 1) as usize)
        } else {
            prev
        }
    }
}

/// The modification times of the files, in order.
pub open spec fn file_mtimes(files: Seq<CacheFile>) -> Seq<i128> {
    Seq::new(files.len(), |i: int| files[i].mtime)
}

/// The entry positions rise strictly, lie inside the list, name entry
/// files, and miss no entry file.
pub proof fn lemma_entry_indices(files: Seq<CacheFile>)
    requires
        files.len() <= usize::MAX,
    ensures
        forall|a: int, b: int| 0 <= a < b < entry_indices(files).len()
            ==> entry_indices(files)[a] < entry_indices(files)[b],
        forall|a: int| 0 <= a < entry_indices(files).len() ==> {
            &&& entry_indices(files)[a] < files.len()
            &&& spec_is_entry_file(files[entry_indices(files)[a] as int].name@)
        },
        forall|k: int| 0 <= k < files.len() && spec_is_entry_file(files[k].name@)
            ==> entry_indices(files).contains(k as usize),
    decreases files.len(),
{
    if files.len() > 0 {
        let prev = files.drop_last();
        lemma_entry_indices(prev);
        let p = entry_indices(prev);
        assert forall|k: int| 0 <= k < files.len() && spec_is_entry_file(files[k].name@)
            implies entry_indices(files).contains(k as usize) by {
            if k < files.len() - 1 {
                assert(prev[k] == files[k]);
                let w = choose|w: int| 0 <= w < p.len() && p[w] == k as usize;
                assert(entry_indices(files)[w] == k as usize);
            } else {
                assert(entry_indices(files)[p.len() as int] == k as usize);
            }
        }
    }
}

/// The entry files to delete so that at most `MAX_CACHE_ENTRIES` remain:
/// those used longest ago, oldest first, ties going to the one listed first.
/// Files that are no entries are never deleted.
pub fn prune_plan(files: &Vec<CacheFile>) -> (res: Vec<usize>)
    ensures
        entry_indices(files@).len() <= MAX_CACHE_ENTRIES ==> res.len() == 0,
        entry_indices(files@).len() > MAX_CACHE_ENTRIES
            ==> res.len() == entry_indices(files@).len() - MAX_CACHE_ENTRIES,
        forall|i: int| 0 <= i < res.len() ==> entry_indices(files@).contains(res[i]),
        forall|i: int, j: int| 0 <= i < j < res.len()
            ==> older(file_mtimes(files@), res[i] as int, res[j] as int),
        forall|i: int, p: int|
            0 <= i < res.len() && 0 <= p < entry_indices(files@).len()
                && !res@.contains(entry_indices(files@)[p])
                ==> older(file_mtimes(files@), res[i] as int, entry_indices(files@)[p] as int),
{
    let mut idx: Vec<usize> = Vec::new();
    let mut mt: Vec<i128> = Vec::new();
    let mut i: usize = 0;
    while i < files.len()
        invariant
            i <= files.len(),
            idx@ == entry_indices(files@.take(i as int)),
            mt.len() == idx.len(),
            forall|p: int| 0 <= p < idx.len() ==> mt@[p] == files@[idx@[p] as int].mtime,
        decreases files.len() - i,
    {
        assert(files@.take(i + 1).drop_last() =~= files@.take(i as int));
        proof {
            lemma_entry_indices(files@.take(i as int));
        }
        if is_entry_file(files[i].name.as_str()) {
            idx.push(i);
            mt.push(files[i].mtime);
        }
        i = i + 1;
    }
    assert(files@.take(files.len() as int) =~= files@);
    proof {
        lemma_entry_indices(files@);
    }
    let ghost jdx = idx@;
    let ghost m = file_mtimes(files@);
    if idx.len() <= MAX_CACHE_ENTRIES {
        return Vec::new();
    }
    let pos = oldest(&mt, idx.len() - MAX_CACHE_ENTRIES);
    let mut res: Vec<usize> = Vec::new();
    let mut q: usize = 0;
    while q < pos.len()
        invariant
            q <= pos.len(),
            res.len() == q,
            forall|a: int| 0 <= a < pos.len() ==> pos[a] < idx.len(),
            forall|a: int| 0 <= a < q ==> res[a] == idx@[pos[a] as int],
        decreases pos.len() - q,
    {
        res.push(idx[pos[q]]);
        q = q + 1;
    }
    proof {
        assert forall|a: int, b: int| 0 <= a < idx.len() && 0 <= b < idx.len()
            implies (older(mt@, a, b) <==> older(m, jdx[a] as int, jdx[b] as int)) by {
            if a < b {
                assert(jdx[a] < jdx[b]);
            } else if b < a {
                assert(jdx[b] < jdx[a]);
            }
        }
        assert forall|i2: int| 0 <= i2 < res.len() implies jdx.contains(res[i2]) by {
            assert(jdx[pos[i2] as int] == res[i2]);
        }
        assert forall|i2: int, j2: int| 0 <= i2 < j2 < res.len()
            implies older(m, res[i2] as int, res[j2] as int) by {
            assert(older(mt@, pos[i2] as int, pos[j2] as int));
        }
        assert forall|i2: int, p: int|
            0 <= i2 < res.len() && 0 <= p < jdx.len() && !res@.contains(jdx[p])
                implies older(m, res[i2] as int, jdx[p] as int) by {
            assert(!pos@.contains(p as usize)) by {
                if pos@.contains(p as usize) {
                    let w = choose|w: int| 0 <= w < pos.len() && pos[w] == p as usize;
                    assert(res[w] == jdx[p]);
                }
            }
            assert(older(mt@, pos[i2] as int, p));
        }
    }
    res
}

} // verus!
