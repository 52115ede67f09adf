//! The identity of a document: a fingerprint of its content that survives
//! renaming and joins the library, the cache and the reading progress.

use crate::constants::IDENTITY_PREFIX_SIZE;
use crate::format::{format_of_extension, path_extension, DocumentFormat};
use crate::memo::length_bytes;
use crate::text::lowercase;
use std::path::PathBuf;
use sha2::{Digest, Sha256};
use vstd::prelude::*;

verus! {

/// The SHA-256 digest of some bytes in lowercase hexadecimal.
pub uninterp spec fn sha256_hex(data: Seq<u8>) -> Seq<char>;

/// Whether a character is a hexadecimal digit in lowercase.
pub open spec fn is_lower_hex(c: char) -> bool {
    ('0' <= c && c <= '9') || ('a' <= c && c <= 'f')
}

/// Whether a text has the form of an identity: 64 hexadecimal digits in
/// lowercase, two for each of the 32 bytes of a digest.
pub open spec fn is_identity(s: Seq<char>) -> bool {
    s.len() == 64 && forall|i: int| 0 <= i < s.len() ==> is_lower_hex(#[trigger] s[i])
}

/// Calls `Sha256::new`, `update` and `finalize` and prints the digest in
/// lowercase hexadecimal. Trusted: the result is what `sha256_hex` names,
/// and it is 64 hexadecimal digits in lowercase.
#[verifier::external_body]
fn sha256_hex_of(data: &[u8]) -> (r: String)
    ensures
        r@ == sha256_hex(data@),
        is_identity(r@),
{
    let mut hasher = Sha256::new();
    hasher.update(data);
    format!("{:x}", hasher.finalize())
}

/// What of a file enters its identity: its first bytes, as far as they
/// count, and its length in eight bytes, lowest first.
pub open spec fn identity_input(prefix: Seq<u8>, file_size: u64) -> Seq<u8> {
    (if prefix.len() > IDENTITY_PREFIX_SIZE {
        prefix.take(IDENTITY_PREFIX_SIZE as int)
    } else {
        prefix
    }) + length_bytes(file_size as nat, 8)
}

/// Whether a path has the extension of a format.
pub open spec fn is_recognized(path: PathBuf) -> bool {
    match path_extension(&path) {
        Some(e) => format_of_extension(lowercase(e)) is Some,
        None => false,
    }
}

/// Finds the documents of a library and tells them apart.
pub struct LibraryScanner {}

impl LibraryScanner {
    /// The documents among the files that a scan has found: those with the
    /// extension of a format, in the order of the scan.
    pub fn recognized(found: Vec<PathBuf>) -> (r: Vec<PathBuf>)
        ensures
            r@ == found@.filter(|p: PathBuf| is_recognized(p)),
    {
        let ghost all = found@;
        let mut kept: Vec<PathBuf> = Vec::new();
        proof {
            reveal(Seq::filter);
        }
        for path in it: found
            invariant
                it.seq() == all,
                kept@ == all.take(it.index() as int).filter(|p: PathBuf| is_recognized(p)),
        {
            proof {
                reveal(Seq::filter);
                let done = all.take(it.index() + 1);
                assert(done.drop_last() =~= all.take(it.index() as int));
                assert(done.last() == path);
            }
            if DocumentFormat::from_path(&path).is_some() {
                kept.push(path);
            }
        }
        assert(all.take(all.len() as int) =~= all);
        kept
    }

    /// The identity of a file, given its first bytes and its length. Bytes
    /// beyond the first 65536 do not count.
    pub fn compute_identity(prefix: &[u8], file_size: u64) -> (r: String)
        ensures
            r@ == sha256_hex(identity_input(prefix@, file_size)),
            is_identity(r@),
    {
        let mut data: Vec<u8> = Vec::new();
        let count = if prefix.len() > IDENTITY_PREFIX_SIZE {
            IDENTITY_PREFIX_SIZE
        } else {
            prefix.len()
        };
        let mut i: usize = 0;
        while i < count
            invariant
                i <= count <= prefix.len(),
                data@ == prefix@.take(i as int),
            decreases count - i,
        {
            data.push(prefix[i]);
            assert(prefix@.take(i + 1) =~= prefix@.take(i as int).push(prefix@[i as int]));
            i += 1;
        }
        assert(prefix@.take(prefix@.len() as int) =~= prefix@);
        let ghost head = data@;
        let mut n: u64 = file_size;
        let mut k: usize = 0;
        while k < 8
            invariant
                k <= 8,
                data@.len() == head.len() + k,
                data@ + length_bytes(n as nat, (8 - k) as nat) == head + length_bytes(
                    file_size as nat,
                    8,
                ),
            decreases 8 - k,
        {
            let ghost before = data@;
            data.push((n % 256) as u8);
            proof {
                let rest = length_bytes((n / 256) as nat, (8 - k - 1) as nat);
                assert(before.push((n % 256) as u8) + rest =~= before + (seq![(n % 256) as u8]
                    + rest));
            }
            n = n / 256;
            k += 1;
        }
        assert(data@ + Seq::<u8>::empty() =~= data@);
        sha256_hex_of(data.as_slice())
    }
}

} // verus!
