//! Where artifacts and compute node types live in the blob store.
use vstd::prelude::*;

verus! {

/// The first `k` characters of `id`, each followed by `/`.
pub open spec fn shard_dirs(id: Seq<char>, k: int) -> Seq<char>
    decreases k,
{
    if k <= 0 {
        Seq::empty()
    } else {
        shard_dirs(id, k - 1) + id.subrange(k - 1, k) + "/"@
    }
}

/// The directory of an artifact: `{prefix}/artifacts/` followed by the first
/// six characters of its id as nested directories and then the id itself. An
/// id shorter than six characters sits directly under `artifacts/`, with no
/// trailing `/`.
pub open spec fn artifact_dir(prefix: Seq<char>, id: Seq<char>) -> Seq<char> {
    if id.len() < 6 {
        prefix + "/artifacts/"@ + id
    } else {
        prefix + "/artifacts/"@ + shard_dirs(id, 6) + id + "/"@
    }
}

/// The prefix in use: the one given, or `curio-data`.
pub fn storage_prefix(prefix: Option<String>) -> (r: String)
    ensures
        r@ == match prefix {
            Some(p) => p@,
            None => "curio-data"@,
        },
{
    match prefix {
        Some(p) => p,
        None => String::from_str("curio-data"),
    }
}

/// The directory of the artifact with id `checksum`.
pub fn artifact_path(prefix: &str, checksum: &str) -> (r: String)
    ensures
        r@ == artifact_dir(prefix@, checksum@),
{
    let n = checksum.unicode_len();
    let mut r = String::from_str(prefix);
    r.append("/artifacts/");
    if n < 6 {
        r.append(checksum);
        return r;
    }
    let ghost base = prefix@ + "/artifacts/"@;
    let mut k: usize = 0;
    while k < 6
        invariant
            n == checksum@.len(),
            n >= 6,
            0 <= k <= 6,
            base == prefix@ + "/artifacts/"@,
            r@ == base + shard_dirs(checksum@, k as int),
        decreases 6 - k,
    {
        let ghost r0 = r@;
        r.append(checksum.substring_char(k, k + 1));
        r.append("/");
        proof {
            assert(r@ =~= base + shard_dirs(checksum@, k as int + 1));
        }
        k += 1;
    }
    r.append(checksum);
    r.append("/");
    r
}

/// The key of an artifact's metadata file.
pub fn artifact_metadata_key(prefix: &str, checksum: &str) -> (r: String)
    ensures
        r@ == artifact_dir(prefix@, checksum@) + "artifact.yaml"@,
{
    let mut r = artifact_path(prefix, checksum);
    r.append("artifact.yaml");
    r
}

/// The key of one content file of an artifact.
pub fn artifact_file_key(prefix: &str, checksum: &str, file_name: &str) -> (r: String)
    ensures
        r@ == artifact_dir(prefix@, checksum@) + file_name@,
{
    let mut r = artifact_path(prefix, checksum);
    r.append(file_name);
    r
}

/// The key of a compute node type definition.
pub fn node_type_path(prefix: &str, node_type: &str) -> (r: String)
    ensures
        r@ == prefix@ + "/compute_node_types/"@ + node_type@ + ".yaml"@,
{
    let mut r = String::from_str(prefix);
    r.append("/compute_node_types/");
    r.append(node_type);
    r.append(".yaml");
    r
}

} // verus!
