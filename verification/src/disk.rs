//! Disk-encryption detection: parsers for the three platform strategies.

use vstd::prelude::*;
use vstd::slice::slice_to_vec;
use crate::text::{bytes_of, contains_bytes, contains_seq, eq_bytes, trim_bytes, trim_slice};

verus! {

/// What the Windows disk-encryption probe reports for a given BitLocker
/// protection-status read: status code "1" means full protection, "7" the
/// used-space-only variant, anything else no encryption.
pub open spec fn windows_disk_spec(out: Seq<u8>) -> Option<Seq<u8>> {
    let t = trim_bytes(out);
    if t == bytes_of("1") {
        Some(bytes_of("BitLocker"))
    } else if t == bytes_of("7") {
        Some(bytes_of("BitLocker: only space used"))
    } else {
        None
    }
}

/// Maps the textual BitLocker protection-status code of the boot volume.
pub fn windows_disk_encryption(out: &[u8]) -> (r: Option<Vec<u8>>)
    ensures
        r.deep_view() == windows_disk_spec(out@),
{
    let t = trim_slice(out);
    if eq_bytes(t, "1".as_bytes()) {
        Some(slice_to_vec("BitLocker".as_bytes()))
    } else if eq_bytes(t, "7".as_bytes()) {
        Some(slice_to_vec("BitLocker: only space used".as_bytes()))
    } else {
        None
    }
}

/// What the macOS disk-encryption probe reports for a given root-volume
/// metadata dump: the literal marker "FileVault: Yes" decides.
pub open spec fn macos_disk_spec(out: Seq<u8>) -> Option<Seq<u8>> {
    if contains_seq(out, bytes_of("FileVault: Yes")) {
        Some(bytes_of("FileVault"))
    } else {
        None
    }
}

/// Looks for the FileVault marker in the root-volume metadata.
pub fn macos_disk_encryption(out: &[u8]) -> (r: Option<Vec<u8>>)
    ensures
        r.deep_view() == macos_disk_spec(out@),
{
    if contains_bytes(out, "FileVault: Yes".as_bytes()) {
        Some(slice_to_vec("FileVault".as_bytes()))
    } else {
        None
    }
}

/// What the Linux disk-encryption probe reports given the captured mount
/// table and, possibly, the block-device type listing.  `None` arguments
/// mark captures whose process could not be run.  The mount-table check is
/// first and final: when it reports an encrypted home filesystem the
/// block-device listing is never consulted.
pub open spec fn linux_disk_spec(mounts: Option<Seq<u8>>, block_types: Option<Seq<u8>>) -> Option<
    Seq<u8>,
> {
    match mounts {
        Option::None => Option::None,
        Option::Some(m) => if contains_seq(m, bytes_of("ecryptfs")) {
            Some(bytes_of("ecryptfs"))
        } else {
            match block_types {
                Option::None => Option::None,
                Option::Some(b) => if contains_seq(b, bytes_of("crypt")) {
                    Some(bytes_of("LUKS"))
                } else {
                    None
                },
            }
        },
    }
}

/// Runs the two Linux checks in their fixed order, first match wins.
pub fn linux_disk_encryption(mounts: Option<&Vec<u8>>, block_types: Option<&Vec<u8>>) -> (r:
    Option<Vec<u8>>)
    ensures
        r.deep_view() == linux_disk_spec(mounts.deep_view(), block_types.deep_view()),
{
    match mounts {
        Option::None => Option::None,
        Option::Some(m) => {
            proof {
                assert(m.deep_view() =~= m@);
            }
            if contains_bytes(m.as_slice(), "ecryptfs".as_bytes()) {
                Some(slice_to_vec("ecryptfs".as_bytes()))
            } else {
                match block_types {
                    Option::None => Option::None,
                    Option::Some(b) => {
                        proof {
                            assert(b.deep_view() =~= b@);
                        }
                        if contains_bytes(b.as_slice(), "crypt".as_bytes()) {
                            Some(slice_to_vec("LUKS".as_bytes()))
                        } else {
                            None
                        }
                    },
                }
            }
        },
    }
}

/// Law: when the mount table holds the encrypted-home marker, the
/// block-device listing is never consulted — the result is "ecryptfs"
/// whatever that listing holds, and even when it was never captured.
pub proof fn lemma_linux_disk_short_circuit(
    mounts: Seq<u8>,
    block_a: Option<Seq<u8>>,
    block_b: Option<Seq<u8>>,
)
    requires
        contains_seq(mounts, bytes_of("ecryptfs")),
    ensures
        linux_disk_spec(Some(mounts), block_a) == Some(bytes_of("ecryptfs")),
        linux_disk_spec(Some(mounts), block_a) == linux_disk_spec(Some(mounts), block_b),
{
}

} // verus!
