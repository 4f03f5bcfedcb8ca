//! Naming of output files, and a model of the output directory.
use vstd::prelude::*;

verus! {

/// The output directory as a map from file name to file content.
pub type DirModel = Map<Seq<char>, Seq<u8>>;

/// The name of the file that keeps a stream: the shared prefix followed by
/// the stream's suffix; no file where no suffix is configured.
pub open spec fn target_of(prefix: Seq<char>, suffix: Option<Seq<char>>) -> Option<Seq<char>> {
    match suffix {
        Some(sfx) => Some(prefix + sfx),
        None => None,
    }
}

/// The directory after one best-effort write of `bytes` for a stream
/// (a file is created or truncated; nothing happens without a suffix).
pub open spec fn dir_after_write(
    dir: DirModel,
    prefix: Seq<char>,
    suffix: Option<Seq<char>>,
    bytes: Seq<u8>,
) -> DirModel {
    match target_of(prefix, suffix) {
        Some(name) => dir.insert(name, bytes),
        None => dir,
    }
}

/// A stream without a suffix leaves the directory exactly as it was,
/// whatever the process wrote to it.
pub proof fn lemma_no_suffix_no_file(dir: DirModel, prefix: Seq<char>, bytes: Seq<u8>)
    ensures
        dir_after_write(dir, prefix, None, bytes) == dir,
{
}

/// Writing the same bytes under the same prefix and suffix twice leaves the
/// directory as writing them once does.
pub proof fn lemma_write_idempotent(
    dir: DirModel,
    prefix: Seq<char>,
    suffix: Option<Seq<char>>,
    bytes: Seq<u8>,
)
    ensures
        dir_after_write(dir_after_write(dir, prefix, suffix, bytes), prefix, suffix, bytes)
            == dir_after_write(dir, prefix, suffix, bytes),
{
    if let Some(sfx) = suffix {
        let once = dir_after_write(dir, prefix, suffix, bytes);
        assert(once.insert(prefix + sfx, bytes) =~= once);
    }
}

/// The file name `prefix + suffix` under which a stream is saved.
pub fn output_file_name(prefix: &str, suffix: &str) -> (r: String)
    ensures
        r@ == prefix@ + suffix@,
{
    let mut name = prefix.to_string();
    name.append(suffix);
    name
}

} // verus!
