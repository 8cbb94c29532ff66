use vstd::prelude::*;
use crate::calculator::osu_file_path;
use crate::digest::{content_hash, md5_hex_of};

verus! {

/// The name without its `.osu` ending, for names that have it.
pub open spec fn osu_stem(name: Seq<char>) -> Option<Seq<char>> {
    if name.len() >= 4 && name.subrange(name.len() - 4, name.len() as int) == seq!['.', 'o', 's', 'u'] {
        Some(name.subrange(0, name.len() - 4))
    } else {
        None
    }
}

/// The content hash a beatmap file is named after: its name without `.osu`;
/// `None` for a name that does not end so.
pub fn osu_file_stem(name: &str) -> (r: Option<String>)
    ensures
        r matches Some(s) ==> osu_stem(name@) == Some(s@),
        r is None ==> osu_stem(name@) is None,
{
    let n = name.unicode_len();
    if n < 4 {
        return None;
    }
    let tail = name.substring_char(n - 4, n);
    let ending = String::from_str(".osu");
    proof {
        reveal_strlit(".osu");
        assert(ending@ =~= seq!['.', 'o', 's', 'u']);
    }
    let t = String::from_str(tail);
    if t == ending {
        Some(String::from_str(name.substring_char(0, n - 4)))
    } else {
        None
    }
}

/// Whether a preload is big enough to warn about memory: more than 9000 files
/// found and more than 9000 allowed.
pub fn preload_warning(total: usize, max_load: i32) -> (r: bool)
    ensures
        r == (total > 9000 && max_load > 9000),
{
    total > 9000 && max_load > 9000
}

/// How one file of a preload went.
#[derive(Debug, Clone, Copy, PartialEq, Eq, Structural)]
pub enum PreloadOutcome {
    /// Parsed and cached.
    Loaded,
    /// Opened but did not parse: not counted.
    ParseFailed,
    /// Could not be opened.
    Unreadable,
}

/// The preload count after one file, and whether the preload stops: a file that
/// did not parse is not counted, and the preload stops once `max_load` are counted.
pub fn preload_step(success: u64, max_load: i32, outcome: PreloadOutcome) -> (r: (u64, bool))
    requires
        success < u64::MAX,
    ensures
        outcome == PreloadOutcome::ParseFailed ==> r == (success, false),
        outcome != PreloadOutcome::ParseFailed ==> r == ((success + 1) as u64, (success + 1) as int >= max_load as int),
{
    match outcome {
        PreloadOutcome::ParseFailed => (success, false),
        _ => {
            let s = success + 1;
            (s, (s as i128) >= (max_load as i128))
        },
    }
}

/// The path a beatmap file is renamed to by the rehash pass: `<dir>/<md5>.osu`
/// with the md5 of its bytes.
pub fn rehash_target(dir: &str, bytes: &Vec<u8>) -> (r: String)
    ensures
        r@ == dir@ + seq!['/'] + md5_hex_of(bytes@) + seq!['.', 'o', 's', 'u'],
{
    let h = content_hash(bytes);
    osu_file_path(dir, h.as_str())
}

} // verus!
