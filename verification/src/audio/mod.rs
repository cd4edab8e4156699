//! The song library: which directory entries are songs, and their order.

pub mod playback;
pub mod stream;

use std::path::PathBuf;
use vstd::prelude::*;
use crate::text::{
    chars_of, lemma_lex_irreflexive, lemma_lex_transitive, lex_less, lex_lt, spec_to_lowercase,
    string_of_range, to_lowercase,
};

verus! {

#[verifier::external_type_specification]
#[verifier::external_body]
pub struct ExPathBuf(PathBuf);

/// `PathBuf::clone`: a copy of the path. Nothing is stated of the copy, since
/// a path is opaque here.
pub assume_specification[ <PathBuf as Clone>::clone ](p: &PathBuf) -> PathBuf;

/// A playable song: its display name and the WAV file it comes from.
#[derive(Debug, Clone)]
pub struct Song {
    pub name: String,
    pub path: PathBuf,
}

/// One entry of a song directory, as the directory listing gives it.
pub struct DirEntry {
    pub path: PathBuf,
    /// The entry's file name.
    pub file_name: String,
    /// Whether the entry is a regular file.
    pub is_file: bool,
}

/// `d` is the position of the last `.` in `name`.
pub open spec fn is_last_dot(name: Seq<char>, d: int) -> bool {
    &&& 0 <= d < name.len()
    &&& name[d] == '.'
    &&& forall|k: int| d < k < name.len() ==> name[k] != '.'
}

/// The song a file name stands for: a name that is not hidden (does not
/// start with `.`) and whose extension (after its last `.`) is `wav` or
/// `wave` in any case gives its stem (before that `.`) as the song's name.
pub open spec fn song_name(name: Seq<char>) -> Option<Seq<char>> {
    if name.len() > 0 && name[0] == '.' {
        None
    } else if exists|d: int| is_last_dot(name, d) {
        let d = choose|d: int| is_last_dot(name, d);
        let ext = spec_to_lowercase(name.subrange(d + 1, name.len() as int));
        if ext == "wav"@ || ext == "wave"@ {
            Some(name.subrange(0, d))
        } else {
            None
        }
    } else {
        None
    }
}

/// The song a directory entry stands for, if it is one: only regular files
/// count.
pub open spec fn entry_song(e: DirEntry) -> Option<Seq<char>> {
    if e.is_file {
        song_name(e.file_name@)
    } else {
        None
    }
}

/// The positions, in order, of the entries before `n` that are songs.
pub open spec fn song_positions(entries: Seq<DirEntry>, n: int) -> Seq<int>
    decreases n,
{
    if n <= 0 {
        Seq::empty()
    } else if entry_song(entries[n - 1]) is Some {
        song_positions(entries, n - 1).push(n - 1)
    } else {
        song_positions(entries, n - 1)
    }
}

/// `s` is the song entry `e` stands for: named by the entry's stem, with
/// its path.
pub open spec fn entry_gives(e: DirEntry, s: Song) -> bool {
    &&& entry_song(e) == Some(s.name@)
    &&& s.path == e.path
}

/// The key songs are ordered by: the lowercase name.
pub open spec fn sort_key(s: Song) -> Seq<char> {
    spec_to_lowercase(s.name@)
}

/// `output` is `input` sorted by `sort_key`, keeping songs with equal keys in
/// their input order; `perm` maps each output position to its input position.
pub open spec fn is_stable_sort(input: Seq<Song>, output: Seq<Song>, perm: Seq<int>) -> bool {
    &&& output.len() == input.len()
    &&& perm.len() == input.len()
    &&& forall|k: int|
        0 <= k < output.len() ==> 0 <= #[trigger] perm[k] < input.len() && output[k]
            == input[perm[k]]
    &&& forall|j: int, k: int| 0 <= j < k < output.len() ==> perm[j] != perm[k]
    &&& forall|j: int, k: int|
        0 <= j < k < output.len() ==> !lex_lt(sort_key(output[k]), sort_key(output[j]))
    &&& forall|j: int, k: int|
        0 <= j < k < output.len() && sort_key(output[j]) == sort_key(output[k]) ==> perm[j]
            < perm[k]
}

/// The song a file name stands for, as `song_name` defines it.
pub fn classify(name: &String) -> (r: Option<String>)
    ensures
        match song_name(name@) {
            Some(stem) => r matches Some(s) && s@ == stem,
            None => r is None,
        },
{
    let v = chars_of(name.as_str());
    if v.len() > 0 && v[0] == '.' {
        return None;
    }
    let mut d = v.len();
    while d > 0 && v[d - 1] != '.'
        invariant
            d <= v@.len(),
            forall|k: int| d <= k < v@.len() ==> v@[k] != '.',
        decreases d,
    {
        d = d - 1;
    }
    if d == 0 {
        assert forall|j: int| !is_last_dot(name@, j) by {
            if 0 <= j < v@.len() {
                assert(v@[j] != '.');
            }
        }
        return None;
    }
    let dot = d - 1;
    assert(is_last_dot(name@, dot as int));
    assert forall|j: int| is_last_dot(name@, j) implies j == dot by {
        if j < dot {
            assert(v@[dot as int] == '.');
        }
    }
    let ext = string_of_range(&v, dot + 1, v.len());
    let lower = to_lowercase(ext.as_str());
    let wav = String::from_str("wav");
    let wave = String::from_str("wave");
    if lower == wav || lower == wave {
        Some(string_of_range(&v, 0, dot))
    } else {
        None
    }
}

/// The songs among a directory's entries, in listing order: each named by its
/// entry's stem, with the entry's path.
pub fn filter_songs(entries: Vec<DirEntry>) -> (r: Vec<Song>)
    ensures
        r@.len() == song_positions(entries@, entries@.len() as int).len(),
        forall|k: int|
            0 <= k < r@.len() ==> entry_gives(
                entries@[song_positions(entries@, entries@.len() as int)[k]],
                #[trigger] r@[k],
            ),
{
    let ghost all = entries@;
    let n = entries.len();
    let mut out: Vec<Song> = Vec::new();
    let mut rest = entries;
    let mut i: usize = 0;
    while rest.len() > 0
        invariant
            n == all.len(),
            i <= all.len(),
            rest@ == all.subrange(i as int, all.len() as int),
            out@.len() == song_positions(all, i as int).len(),
            forall|k: int|
                0 <= k < out@.len() ==> entry_gives(
                    all[song_positions(all, i as int)[k]],
                    #[trigger] out@[k],
                ),
            forall|k: int|
                0 <= k < song_positions(all, i as int).len() ==> 0 <= #[trigger] song_positions(
                    all,
                    i as int,
                )[k] < i,
        decreases rest@.len(),
    {
        let e = rest.remove(0);
        assert(e == all[i as int]);
        let ghost ge = e;
        let ghost before = song_positions(all, i as int);
        let ghost old_out = out@;
        let is_song = if e.is_file {
            match classify(&e.file_name) {
                Some(stem) => {
                    let ghost gs = stem@;
                    out.push(Song { name: stem, path: e.path });
                    assert(out@[old_out.len() as int].name@ == gs);
                    assert(entry_song(ge) == Some(gs));
                    true
                },
                None => false,
            }
        } else {
            false
        };
        assert(is_song == (entry_song(all[i as int]) is Some));
        i = i + 1;
        assert(rest@ == all.subrange(i as int, all.len() as int));
        let ghost now = song_positions(all, i as int);
        if is_song {
            assert(now == before.push(i - 1));
        } else {
            assert(now == before);
        }
        assert forall|k: int| 0 <= k < out@.len() implies entry_gives(
            all[song_positions(all, i as int)[k]],
            #[trigger] out@[k],
        ) by {
            if k < old_out.len() {
                assert(now[k] == before[k]);
                assert(out@[k] == old_out[k]);
            } else {
                assert(now[k] == i - 1);
                assert(all[i - 1] == ge);
            }
        }
    }
    assert(i == all.len());
    out
}

/// Sort songs by lowercase name, keeping songs with equal keys in their
/// input order.
pub fn sort_songs(songs: Vec<Song>) -> (r: Vec<Song>)
    ensures
        exists|perm: Seq<int>| is_stable_sort(songs@, r@, perm),
{
    let ghost input = songs@;
    let n = songs.len();
    let mut rest = songs;
    let mut out: Vec<Song> = Vec::new();
    let mut keys: Vec<Vec<char>> = Vec::new();
    let ghost mut perm: Seq<int> = Seq::empty();
    let mut i: usize = 0;
    while rest.len() > 0
        invariant
            i <= n == input.len(),
            rest@ == input.subrange(i as int, n as int),
            out@.len() == i,
            keys@.len() == i,
            perm.len() == i,
            forall|k: int| 0 <= k < i ==> (#[trigger] keys@[k])@ == sort_key(out@[k]),
            forall|k: int|
                0 <= k < i ==> 0 <= #[trigger] perm[k] < i && out@[k] == input[perm[k]],
            forall|j: int, k: int| 0 <= j < k < i ==> perm[j] != perm[k],
            forall|j: int, k: int| 0 <= j < k < i ==> !lex_lt(keys@[k]@, keys@[j]@),
            forall|j: int, k: int|
                0 <= j < k < i && keys@[j]@ == keys@[k]@ ==> perm[j] < perm[k],
        decreases rest@.len(),
    {
        let s = rest.remove(0);
        assert(s == input[i as int]);
        let lower = to_lowercase(s.name.as_str());
        let key = chars_of(lower.as_str());
        let mut p: usize = 0;
        while p < out.len() && !lex_less(&key, &keys[p])
            invariant
                p <= keys@.len() == out@.len(),
                forall|m: int| 0 <= m < p ==> !lex_lt(key@, #[trigger] keys@[m]@),
            decreases keys@.len() - p,
        {
            p = p + 1;
        }
        let ghost old_keys = keys@;
        let ghost old_perm = perm;
        let ghost old_out = out@;
        out.insert(p, s);
        keys.insert(p, key);
        proof {
            perm = perm.insert(p as int, i as int);
        }
        let ghost ni = (i + 1) as int;
        assert forall|k: int| 0 <= k < ni implies (#[trigger] keys@[k])@ == sort_key(out@[k]) by {
            if k > p {
                assert(keys@[k] == old_keys[k - 1]);
                assert(out@[k] == old_out[k - 1]);
            } else if k < p {
                assert(keys@[k] == old_keys[k]);
            }
        }
        assert forall|k: int| 0 <= k < ni implies 0 <= #[trigger] perm[k] < ni && out@[k]
            == input[perm[k]] by {
            if k > p {
                assert(perm[k] == old_perm[k - 1]);
                assert(out@[k] == old_out[k - 1]);
            } else if k < p {
                assert(perm[k] == old_perm[k]);
            }
        }
        assert forall|j: int, k: int| 0 <= j < k < ni implies perm[j] != perm[k] by {
            if j != p && k != p {
                let oj = if j < p { j } else { j - 1 };
                let ok = if k < p { k } else { k - 1 };
                assert(perm[j] == old_perm[oj]);
                assert(perm[k] == old_perm[ok]);
            } else if j == p {
                assert(perm[k] == old_perm[k - 1]);
            } else {
                assert(perm[j] == old_perm[j]);
            }
        }
        assert forall|j: int, k: int| 0 <= j < k < ni implies !lex_lt(keys@[k]@, keys@[j]@) by {
            if j != p && k != p {
                let oj = if j < p { j } else { j - 1 };
                let ok = if k < p { k } else { k - 1 };
                assert(keys@[j] == old_keys[oj]);
                assert(keys@[k] == old_keys[ok]);
            } else if j == p {
                // The new key is strictly before the key it was inserted in
                // front of, and no later key comes before that one.
                assert(keys@[k] == old_keys[k - 1]);
                assert(lex_lt(key@, old_keys[p as int]@));
                if lex_lt(old_keys[k - 1]@, key@) {
                    lemma_lex_transitive(old_keys[k - 1]@, key@, old_keys[p as int]@);
                    if k - 1 == p {
                        lemma_lex_irreflexive(old_keys[p as int]@);
                    }
                }
            } else {
                assert(keys@[j] == old_keys[j]);
            }
        }
        assert forall|j: int, k: int| 0 <= j < k < ni && keys@[j]@ == keys@[k]@ implies perm[j]
            < perm[k] by {
            if j != p && k != p {
                let oj = if j < p { j } else { j - 1 };
                let ok = if k < p { k } else { k - 1 };
                assert(keys@[j] == old_keys[oj]);
                assert(keys@[k] == old_keys[ok]);
                assert(perm[j] == old_perm[oj]);
                assert(perm[k] == old_perm[ok]);
            } else if j == p {
                assert(keys@[k] == old_keys[k - 1]);
                assert(lex_lt(key@, old_keys[p as int]@));
                if k - 1 == p {
                    lemma_lex_irreflexive(old_keys[p as int]@);
                }
            } else {
                assert(perm[j] == old_perm[j]);
            }
        }
        i = i + 1;
    }
    assert forall|j: int, k: int| 0 <= j < k < out@.len() implies !lex_lt(
        sort_key(out@[k]),
        sort_key(out@[j]),
    ) by {
        assert(keys@[k]@ == sort_key(out@[k]));
        assert(keys@[j]@ == sort_key(out@[j]));
    }
    assert forall|j: int, k: int|
        0 <= j < k < out@.len() && sort_key(out@[j]) == sort_key(out@[k]) implies perm[j]
        < perm[k] by {
        assert(keys@[k]@ == sort_key(out@[k]));
        assert(keys@[j]@ == sort_key(out@[j]));
    }
    assert(is_stable_sort(input, out@, perm));
    out
}

/// The songs of a directory listing, sorted case-insensitively by name: the
/// regular, non-hidden files with a `wav` or `wave` extension, each named by
/// its stem.
pub fn songs_from_entries(entries: Vec<DirEntry>) -> (r: Vec<Song>)
    ensures
        exists|found: Seq<Song>, perm: Seq<int>| {
            &&& found.len() == song_positions(entries@, entries@.len() as int).len()
            &&& forall|k: int|
                0 <= k < found.len() ==> entry_gives(
                    entries@[song_positions(entries@, entries@.len() as int)[k]],
                    #[trigger] found[k],
                )
            &&& is_stable_sort(found, r@, perm)
        },
{
    let found = filter_songs(entries);
    let ghost g = found@;
    let r = sort_songs(found);
    assert(exists|perm: Seq<int>| is_stable_sort(g, r@, perm));
    r
}

} // verus!
