//! Names of the files a run creates, the finalized artifact name, and the
//! arguments handed to the external compression tool.

use vstd::prelude::*;

use crate::error::ArchiveError;
use crate::hashing::{legacy_digest, legacy_digest_of};
use crate::manifest::byte_views;

verus! {

/// `.tgz`
pub open spec fn tgz_suffix() -> Seq<u8> {
    seq![46u8, 116, 103, 122]
}

/// `_checksum.txt`
pub open spec fn checksum_suffix() -> Seq<u8> {
    seq![95u8, 99, 104, 101, 99, 107, 115, 117, 109, 46, 116, 120, 116]
}

/// `_checksum_decompressed.txt`
pub open spec fn unpacked_checksum_suffix() -> Seq<u8> {
    seq![
        95u8, 99, 104, 101, 99, 107, 115, 117, 109, 95, 100, 101, 99, 111, 109, 112, 114, 101,
        115, 115, 101, 100, 46, 116, 120, 116,
    ]
}

/// `temp_verification`
pub open spec fn verification_dir_spec() -> Seq<u8> {
    seq![116u8, 101, 109, 112, 95, 118, 101, 114, 105, 102, 105, 99, 97, 116, 105, 111, 110]
}

/// The artifact's name after finalization: `<legacy digest>_<file name>`.
pub open spec fn finalized_name_of(digest: Seq<u8>, file_name: Seq<u8>) -> Seq<u8> {
    digest + seq![95u8] + file_name
}

fn concat(a: &[u8], b: &[u8]) -> (r: Vec<u8>)
    ensures
        r@ == a@ + b@,
{
    let mut out: Vec<u8> = Vec::new();
    let mut i: usize = 0;
    while i < a.len()
        invariant
            i <= a@.len(),
            out@ == a@.subrange(0, i as int),
        decreases a@.len() - i,
    {
        out.push(a[i]);
        i = i + 1;
        assert(out@ =~= a@.subrange(0, i as int));
    }
    let mut j: usize = 0;
    while j < b.len()
        invariant
            j <= b@.len(),
            out@ == a@ + b@.subrange(0, j as int),
        decreases b@.len() - j,
    {
        out.push(b[j]);
        j = j + 1;
        assert(out@ =~= a@ + b@.subrange(0, j as int));
    }
    assert(a@.subrange(0, a@.len() as int) =~= a@);
    assert(b@.subrange(0, b@.len() as int) =~= b@);
    out
}

/// The artifact's name before finalization: `<folder name>.tgz`.
pub fn artifact_name(folder_name: &[u8]) -> (r: Vec<u8>)
    ensures
        r@ == folder_name@ + tgz_suffix(),
{
    let suffix: Vec<u8> = vec![46u8, 116, 103, 122];
    assert(suffix@ =~= tgz_suffix());
    concat(folder_name, suffix.as_slice())
}

/// The source tree's manifest file name: `<folder name>_checksum.txt`.
pub fn source_manifest_name(folder_name: &[u8]) -> (r: Vec<u8>)
    ensures
        r@ == folder_name@ + checksum_suffix(),
{
    let suffix: Vec<u8> = vec![95u8, 99, 104, 101, 99, 107, 115, 117, 109, 46, 116, 120, 116];
    assert(suffix@ =~= checksum_suffix());
    concat(folder_name, suffix.as_slice())
}

/// The unpacked copy's manifest file name: `<folder name>_checksum_decompressed.txt`.
pub fn unpacked_manifest_name(folder_name: &[u8]) -> (r: Vec<u8>)
    ensures
        r@ == folder_name@ + unpacked_checksum_suffix(),
{
    let suffix: Vec<u8> = vec![
        95u8, 99, 104, 101, 99, 107, 115, 117, 109, 95, 100, 101, 99, 111, 109, 112, 114, 101,
        115, 115, 101, 100, 46, 116, 120, 116,
    ];
    assert(suffix@ =~= unpacked_checksum_suffix());
    concat(folder_name, suffix.as_slice())
}

/// The name of the scratch subdirectory that holds the unpacked copy.
pub fn verification_dir_name() -> (r: Vec<u8>)
    ensures
        r@ == verification_dir_spec(),
{
    let r: Vec<u8> = vec![116u8, 101, 109, 112, 95, 118, 101, 114, 105, 102, 105, 99, 97, 116, 105, 111, 110];
    assert(r@ =~= verification_dir_spec());
    r
}

/// The finalized name for a given legacy digest: `<digest>_<file name>`.
pub fn finalized_name(digest: &[u8], file_name: &[u8]) -> (r: Vec<u8>)
    ensures
        r@ == finalized_name_of(digest@, file_name@),
{
    let sep: Vec<u8> = vec![95u8];
    let with_sep = concat(digest, sep.as_slice());
    concat(with_sep.as_slice(), file_name)
}

/// The name under which an artifact with content `artifact` and name
/// `file_name` is finalized: its legacy digest, `_`, and its name.
pub fn finalize_name(artifact: &[u8], file_name: &[u8]) -> (r: Vec<u8>)
    ensures
        r@ == finalized_name_of(legacy_digest_of(artifact@), file_name@),
{
    let d = legacy_digest(artifact);
    finalized_name(d.as_slice(), file_name)
}

/// The post-copy identity check: `Ok` exactly when the copy has the legacy
/// digest of the artifact, else `CopyMismatch`.
pub fn verify_copy(artifact: &[u8], copied: &[u8]) -> (r: Result<(), ArchiveError>)
    ensures
        r is Ok <==> legacy_digest_of(artifact@) == legacy_digest_of(copied@),
        r is Err ==> r == Err::<(), ArchiveError>(ArchiveError::CopyMismatch),
{
    let a = legacy_digest(artifact);
    let b = legacy_digest(copied);
    let mut i: usize = 0;
    while i < a.len()
        invariant
            a@ == legacy_digest_of(artifact@),
            b@ == legacy_digest_of(copied@),
            a@.len() == 32,
            b@.len() == 32,
            i <= 32,
            forall|k: int| 0 <= k < i ==> a@[k] == b@[k],
        decreases 32 - i,
    {
        if a[i] != b[i] {
            assert(a@[i as int] != b@[i as int]);
            return Err(ArchiveError::CopyMismatch);
        }
        i = i + 1;
    }
    assert(a@ =~= b@);
    Ok(())
}

/// Where and under which names a folder is packed.
pub struct PackPlan {
    /// The folder's last path component; the archive holds the folder under it.
    pub folder_name: Vec<u8>,
    /// The directory the tool runs in: the folder's parent, or `.`.
    pub parent_dir: Vec<u8>,
    /// `<folder name>.tgz`, the artifact's name in the scratch directory.
    pub artifact_name: Vec<u8>,
}

/// Whether a parent path is given and is the empty path.
pub open spec fn parent_is_empty(parent: Option<Vec<u8>>) -> bool {
    match parent {
        Some(pd) => pd@.len() == 0,
        None => false,
    }
}

/// Plans packing a folder from its last path component and its parent path,
/// as the path splits into them (`None` where it has no such part). A folder
/// without a name is refused with `NoFolderName`; one whose parent is the
/// empty path (a bare relative name) with `NoParentDir`. A folder without a
/// parent is packed from `.`.
pub fn plan_pack(folder_name: Option<Vec<u8>>, parent: Option<Vec<u8>>) -> (r: Result<
    PackPlan,
    ArchiveError,
>)
    ensures
        folder_name is None ==> r == Err::<PackPlan, ArchiveError>(ArchiveError::NoFolderName),
        folder_name is Some && parent_is_empty(parent) ==> r == Err::<
            PackPlan,
            ArchiveError,
        >(ArchiveError::NoParentDir),
        r is Ok <==> folder_name is Some && !parent_is_empty(parent),
        r matches Ok(plan) ==> {
            &&& plan.folder_name@ == folder_name.unwrap()@
            &&& plan.artifact_name@ == folder_name.unwrap()@ + tgz_suffix()
            &&& plan.parent_dir@ == match parent {
                Some(pd) => pd@,
                None => seq![46u8],
            }
        },
{
    match folder_name {
        None => Err(ArchiveError::NoFolderName),
        Some(name) => {
            let parent_dir = match parent {
                Some(pd) => {
                    if pd.len() == 0 {
                        return Err(ArchiveError::NoParentDir);
                    }
                    pd
                },
                None => vec![46u8],
            };
            let artifact = artifact_name(name.as_slice());
            Ok(PackPlan { folder_name: name, parent_dir, artifact_name: artifact })
        },
    }
}

fn copy_bytes(src: &[u8]) -> (r: Vec<u8>)
    ensures
        r@ == src@,
{
    let empty: Vec<u8> = Vec::new();
    let r = concat(empty.as_slice(), src);
    assert(r@ =~= src@);
    r
}

/// The arguments that pack `folder_name`, found in `parent_dir`, into
/// `artifact`: `-czf <artifact> -C <parent dir> <folder name>`.
pub fn pack_args(artifact: &[u8], parent_dir: &[u8], folder_name: &[u8]) -> (r: Vec<Vec<u8>>)
    ensures
        byte_views(r@) == seq![
            seq![45u8, 99, 122, 102],
            artifact@,
            seq![45u8, 67],
            parent_dir@,
            folder_name@,
        ],
{
    let mut r: Vec<Vec<u8>> = Vec::new();
    r.push(vec![45u8, 99, 122, 102]);
    r.push(copy_bytes(artifact));
    r.push(vec![45u8, 67]);
    r.push(copy_bytes(parent_dir));
    r.push(copy_bytes(folder_name));
    assert(byte_views(r@) =~= seq![
        seq![45u8, 99, 122, 102],
        artifact@,
        seq![45u8, 67],
        parent_dir@,
        folder_name@,
    ]);
    r
}

/// The arguments that unpack `artifact` into `dest_dir`:
/// `-xzf <artifact> -C <dest dir>`.
pub fn unpack_args(artifact: &[u8], dest_dir: &[u8]) -> (r: Vec<Vec<u8>>)
    ensures
        byte_views(r@) == seq![seq![45u8, 120, 122, 102], artifact@, seq![45u8, 67], dest_dir@],
{
    let mut r: Vec<Vec<u8>> = Vec::new();
    r.push(vec![45u8, 120, 122, 102]);
    r.push(copy_bytes(artifact));
    r.push(vec![45u8, 67]);
    r.push(copy_bytes(dest_dir));
    assert(byte_views(r@) =~= seq![
        seq![45u8, 120, 122, 102],
        artifact@,
        seq![45u8, 67],
        dest_dir@,
    ]);
    r
}

} // verus!
