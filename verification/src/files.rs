//! Which paths name audio files that the player can read.

use vstd::prelude::*;

verus! {

/// The path ends in `.flac`, and the file name, which is what follows the
/// last `/`, has at least one character before that ending.
pub open spec fn has_flac_extension(path: Seq<char>) -> bool {
    let n = path.len() as int;
    &&& n >= 6
    &&& path[n - 6] != '/'
    &&& path[n - 5] == '.'
    &&& path[n - 4] == 'f'
    &&& path[n - 3] == 'l'
    &&& path[n - 2] == 'a'
    &&& path[n - 1] == 'c'
}

/// A path found on the command line or under a directory named there, with
/// what the file system says of it.
#[derive(Debug)]
pub struct Candidate {
    pub path: String,
    /// Something exists at the path.
    pub exists: bool,
}

/// The candidate is a file that the player can read.
pub open spec fn supported(candidate: Candidate) -> bool {
    candidate.exists && has_flac_extension(candidate.path@)
}

/// The paths of the supported candidates, in their order.
pub open spec fn audio_files(candidates: Seq<Candidate>) -> Seq<Seq<char>>
    decreases candidates.len(),
{
    if candidates.len() == 0 {
        Seq::empty()
    } else if supported(candidates.last()) {
        audio_files(candidates.drop_last()).push(candidates.last().path@)
    } else {
        audio_files(candidates.drop_last())
    }
}

/// The texts of a run of strings.
pub open spec fn texts(strings: Seq<String>) -> Seq<Seq<char>> {
    Seq::new(strings.len(), |i: int| strings[i]@)
}

/// Whether the path has the extension `flac`, in lower case.
pub fn is_flac(path: &str) -> (r: bool)
    ensures
        r == has_flac_extension(path@),
{
    let n = path.unicode_len();
    if n < 6 {
        return false;
    }
    path.get_char(n - 6) != '/' && path.get_char(n - 5) == '.' && path.get_char(n - 4) == 'f'
        && path.get_char(n - 3) == 'l' && path.get_char(n - 2) == 'a' && path.get_char(n - 1)
        == 'c'
}

/// Whether the path names a supported audio file: something exists there,
/// and it has the extension `flac`. No other format is supported.
pub fn is_supported_audio_file(path: &str, exists: bool) -> (r: bool)
    ensures
        r == (exists && has_flac_extension(path@)),
{
    exists && is_flac(path)
}

/// Keeps the paths of the supported audio files, in their order.
pub fn only_audio_files(candidates: Vec<Candidate>) -> (kept: Vec<String>)
    ensures
        texts(kept@) == audio_files(candidates@),
{
    let mut kept: Vec<String> = Vec::new();
    let mut i: usize = 0;
    assert(candidates@.take(0) =~= Seq::<Candidate>::empty());
    assert(texts(kept@) =~= Seq::<Seq<char>>::empty());
    while i < candidates.len()
        invariant
            i <= candidates@.len(),
            texts(kept@) == audio_files(candidates@.take(i as int)),
        decreases candidates@.len() - i,
    {
        let candidate = &candidates[i];
        proof {
            let next = candidates@.take(i + 1);
            assert(next.drop_last() =~= candidates@.take(i as int));
            assert(next.last() == candidates@[i as int]);
        }
        if is_supported_audio_file(candidate.path.as_str(), candidate.exists) {
            let path = candidate.path.clone();
            assert(texts(kept@.push(path)) =~= texts(kept@).push(path@));
            kept.push(path);
        }
        i += 1;
    }
    assert(candidates@.take(i as int) =~= candidates@);
    kept
}

} // verus!
