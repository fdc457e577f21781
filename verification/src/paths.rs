//! File locations under the user's home directory, as the bytes of Unix
//! paths with `/` separators.

use vstd::prelude::*;

verus! {

/// The byte of the path separator `/`.
pub const SEPARATOR: u8 = 47;

/// Whether the path `p` is absolute (begins with a separator, on Unix).
pub open spec fn is_absolute(p: Seq<u8>) -> bool {
    p.len() > 0 && p[0] == SEPARATOR
}

/// `base` extended by the component `comp`, as `PathBuf::join` does on
/// Unix: an absolute `comp` replaces `base`; otherwise a separator goes
/// between them unless `base` is empty or already ends with one.
pub open spec fn spec_join(base: Seq<u8>, comp: Seq<u8>) -> Seq<u8> {
    if is_absolute(comp) {
        comp
    } else if base.len() == 0 {
        comp
    } else if base.last() == SEPARATOR {
        base + comp
    } else {
        base + seq![SEPARATOR] + comp
    }
}

/// Appends the bytes `b` to `v`.
pub fn append_bytes(v: &mut Vec<u8>, b: &[u8])
    ensures
        final(v)@ == old(v)@ + b@,
{
    let mut i: usize = 0;
    while i < b.len()
        invariant
            i <= b.len(),
            v@ == old(v)@ + b@.take(i as int),
        decreases b.len() - i,
    {
        v.push(b[i]);
        assert(b@.take(i + 1) =~= b@.take(i as int).push(b@[i as int]));
        i = i + 1;
    }
    assert(b@.take(b.len() as int) =~= b@);
}

/// Joins the component `comp` onto `base`.
pub fn join(base: &[u8], comp: &[u8]) -> (res: Vec<u8>)
    ensures
        res@ == spec_join(base@, comp@),
{
    let mut out: Vec<u8> = Vec::new();
    if comp.len() > 0 && comp[0] == SEPARATOR {
        append_bytes(&mut out, comp);
        assert(out@ =~= comp@);
        return out;
    }
    append_bytes(&mut out, base);
    let n = base.len();
    if n > 0 && base[n - 1] != SEPARATOR {
        out.push(SEPARATOR);
    }
    append_bytes(&mut out, comp);
    out
}

/// The user's home directory (`dirs::home_dir`), as the bytes of the path
/// (`OsString::into_encoded_bytes`, the raw bytes on Unix). The result
/// depends on the environment: no clause states which directory it is, or
/// that there is one.
#[verifier::external_body]
pub(crate) fn home_dir() -> (res: Option<Vec<u8>>) {
    match dirs::home_dir() {
        Some(p) => Some(p.into_os_string().into_encoded_bytes()),
        None => None,
    }
}

} // verus!
