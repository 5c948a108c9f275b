//! The track catalog: filtering discovered files down to playable
//! tracks, ordering them, summing durations, and converting a resume
//! offset into a track index and an offset within that track.

use vstd::prelude::*;
use vstd::seq_lib::lemma_multiset_commutative;

use rand::seq::SliceRandom;

use crate::util::spec_supported_codec;
use crate::util::is_supported_codec;

verus! {

/// One playable audio file: its path and its duration in seconds.
pub struct Track {
    pub path: String,
    pub duration: u64,
}

/// One file found under the configured directories, as the file system
/// and the tag reader describe it: its path, its extension, and its
/// duration in seconds where the tags could be read.
pub struct FileEntry {
    pub path: String,
    pub extension: String,
    pub duration: Option<u64>,
}

/// A file is playable when its extension names a supported codec and
/// its duration could be read.
pub open spec fn spec_playable(e: FileEntry) -> bool {
    spec_supported_codec(e.extension@) && e.duration is Some
}

/// The track a playable file becomes.
pub open spec fn spec_track_of(e: FileEntry) -> Track {
    Track {
        path: e.path,
        duration: match e.duration {
            Some(d) => d,
            None => 0,
        },
    }
}

/// The tracks of the playable files, in the order given.
pub open spec fn spec_kept(s: Seq<FileEntry>) -> Seq<Track>
    decreases s.len(),
{
    if s.len() == 0 {
        Seq::empty()
    } else if spec_playable(s.last()) {
        spec_kept(s.drop_last()) + seq![spec_track_of(s.last())]
    } else {
        spec_kept(s.drop_last())
    }
}

/// The paths of the files that are skipped, in the order given.
pub open spec fn spec_skipped(s: Seq<FileEntry>) -> Seq<String>
    decreases s.len(),
{
    if s.len() == 0 {
        Seq::empty()
    } else if spec_playable(s.last()) {
        spec_skipped(s.drop_last())
    } else {
        spec_skipped(s.drop_last()) + seq![s.last().path]
    }
}

/// Splits the discovered files into the playable tracks, kept in order,
/// and the paths of the skipped files, for the caller to warn about.
pub fn filter_tracks(entries: Vec<FileEntry>) -> (r: (Vec<Track>, Vec<String>))
    ensures
        r.0@ == spec_kept(entries@),
        r.1@ == spec_skipped(entries@),
{
    let mut tracks: Vec<Track> = Vec::new();
    let mut skipped: Vec<String> = Vec::new();
    let mut entries = entries;
    let n = entries.len();
    let ghost all = entries@;
    let mut i: usize = 0;
    while i < n
        invariant
            all.len() == n,
            i <= n,
            entries@ =~= all.skip(i as int),
            tracks@ == spec_kept(all.take(i as int)),
            skipped@ == spec_skipped(all.take(i as int)),
        decreases n - i,
    {
        let e = entries.remove(0);
        assert(e == all[i as int]);
        proof {
            assert(all.take(i + 1).drop_last() =~= all.take(i as int));
            assert(all.take(i + 1).last() == all[i as int]);
        }
        let supported = is_supported_codec(e.extension.as_str());
        match (supported, e.duration) {
            (true, Some(d)) => {
                let t = Track { path: e.path, duration: d };
                assert(t == spec_track_of(all[i as int]));
                tracks.push(t);
                proof {
                    assert(tracks@ =~= spec_kept(all.take(i + 1)));
                }
            },
            _ => {
                skipped.push(e.path);
                proof {
                    assert(skipped@ =~= spec_skipped(all.take(i + 1)));
                }
            },
        }
        i += 1;
        proof {
            assert(entries@ =~= all.skip(i as int));
        }
    }
    proof {
        assert(all.take(n as int) =~= all);
    }
    (tracks, skipped)
}

/// The total duration of a list of tracks, in seconds.
pub open spec fn spec_total(s: Seq<Track>) -> int
    decreases s.len(),
{
    if s.len() == 0 {
        0
    } else {
        spec_total(s.drop_last()) + s.last().duration
    }
}

/// The summed duration of the tracks before index `i`.
pub open spec fn spec_prefix(s: Seq<Track>, i: int) -> int {
    spec_total(s.take(i))
}

pub proof fn lemma_prefix_step(s: Seq<Track>, i: int)
    requires
        0 <= i < s.len(),
    ensures
        spec_prefix(s, i + 1) == spec_prefix(s, i) + s[i].duration,
{
    assert(s.take(i + 1).drop_last() =~= s.take(i));
    assert(s.take(i + 1).last() == s[i]);
}

pub proof fn lemma_prefix_bounds(s: Seq<Track>, i: int, j: int)
    requires
        0 <= i <= j <= s.len(),
    ensures
        0 <= spec_prefix(s, i) <= spec_prefix(s, j),
    decreases i + j,
{
    if i == j {
        if i == 0 {
            assert(s.take(0) =~= Seq::<Track>::empty());
        } else {
            lemma_prefix_bounds(s, i - 1, i - 1);
            lemma_prefix_step(s, i - 1);
        }
    } else {
        lemma_prefix_bounds(s, i, j - 1);
        lemma_prefix_step(s, j - 1);
    }
}

pub proof fn lemma_prefix_all(s: Seq<Track>)
    ensures
        spec_prefix(s, s.len() as int) == spec_total(s),
{
    assert(s.take(s.len() as int) =~= s);
}

/// Sums the durations of the tracks.
pub fn total_of(tracks: &Vec<Track>) -> (r: u64)
    requires
        spec_total(tracks@) <= u64::MAX,
    ensures
        r == spec_total(tracks@),
{
    let mut acc: u64 = 0;
    let mut i: usize = 0;
    proof {
        lemma_prefix_all(tracks@);
    }
    while i < tracks.len()
        invariant
            i <= tracks@.len(),
            acc == spec_prefix(tracks@, i as int),
            spec_total(tracks@) <= u64::MAX,
            spec_prefix(tracks@, tracks@.len() as int) == spec_total(tracks@),
        decreases tracks@.len() - i,
    {
        proof {
            lemma_prefix_step(tracks@, i as int);
            lemma_prefix_bounds(tracks@, i + 1, tracks@.len() as int);
            lemma_prefix_bounds(tracks@, 0, i + 1);
        }
        acc = acc + tracks[i].duration;
        i += 1;
    }
    acc
}

/// Converts a resume offset, counted in seconds from the start of the
/// whole track list, into the track it falls in and the offset within
/// that track. An offset at or past the end of the list wraps around.
pub fn resume_point(tracks: &Vec<Track>, start_point: u64) -> (r: (usize, u64))
    requires
        spec_total(tracks@) > 0,
        spec_total(tracks@) <= u64::MAX,
    ensures
        r.0 < tracks@.len(),
        (r.1 as int) < tracks@[r.0 as int].duration,
        spec_prefix(tracks@, r.0 as int) + r.1 == start_point as int % spec_total(tracks@),
        start_point < spec_total(tracks@) ==> spec_prefix(tracks@, r.0 as int) + r.1
            == start_point,
{
    let total = total_of(tracks);
    let len = tracks.len();
    let mut rem = start_point % total;
    let mut i: usize = 0;
    proof {
        lemma_prefix_all(tracks@);
        assert(tracks@.len() > 0);
        assert(spec_prefix(tracks@, 0) == 0) by {
            assert(tracks@.take(0) =~= Seq::<Track>::empty());
        }
        if start_point < total {
            vstd::arithmetic::div_mod::lemma_small_mod(start_point as nat, total as nat);
        }
    }
    while rem >= tracks[i].duration
        invariant
            len == tracks@.len(),
            i < len,
            spec_total(tracks@) > 0,
            spec_total(tracks@) <= u64::MAX,
            total == spec_total(tracks@),
            spec_prefix(tracks@, tracks@.len() as int) == spec_total(tracks@),
            spec_prefix(tracks@, i as int) + rem == start_point as int % spec_total(tracks@),
            rem < total,
        decreases tracks@.len() - i,
    {
        proof {
            lemma_prefix_step(tracks@, i as int);
        }
        rem = rem - tracks[i].duration;
        i += 1;
        proof {
            if i == tracks@.len() {
                lemma_prefix_all(tracks@);
                assert(spec_prefix(tracks@, i as int) + rem < spec_total(tracks@));
                assert(false);
            }
        }
    }
    (i, rem)
}

/// A character's code with an upper-case letter folded to lower case.
pub open spec fn spec_lower(c: char) -> int {
    if 'A' <= c && c <= 'Z' {
        c as int + 32
    } else {
        c as int
    }
}

/// Case-insensitive lexicographic order on paths.
pub open spec fn lex_le(a: Seq<char>, b: Seq<char>) -> bool
    decreases a.len(),
{
    if a.len() == 0 {
        true
    } else if b.len() == 0 {
        false
    } else if spec_lower(a[0]) < spec_lower(b[0]) {
        true
    } else if spec_lower(a[0]) > spec_lower(b[0]) {
        false
    } else {
        lex_le(a.drop_first(), b.drop_first())
    }
}

/// Order on tracks: by path, ignoring letter case.
pub open spec fn track_le(a: Track, b: Track) -> bool {
    lex_le(a.path@, b.path@)
}

/// A list of tracks in case-insensitive path order.
pub open spec fn spec_sorted(s: Seq<Track>) -> bool {
    forall|i: int, j: int| 0 <= i < j < s.len() ==> track_le(s[i], s[j])
}

/// The path order relates every pair of paths, one way or the other.
pub proof fn lemma_lex_total(a: Seq<char>, b: Seq<char>)
    ensures
        lex_le(a, b) || lex_le(b, a),
    decreases a.len(),
{
    if a.len() == 0 || b.len() == 0 {
    } else if spec_lower(a[0]) == spec_lower(b[0]) {
        lemma_lex_total(a.drop_first(), b.drop_first());
    }
}

/// The path order is transitive.
pub proof fn lemma_lex_trans(a: Seq<char>, b: Seq<char>, c: Seq<char>)
    requires
        lex_le(a, b),
        lex_le(b, c),
    ensures
        lex_le(a, c),
    decreases a.len(),
{
    if a.len() == 0 {
    } else if b.len() == 0 {
    } else if c.len() == 0 {
    } else if spec_lower(a[0]) == spec_lower(b[0]) && spec_lower(b[0]) == spec_lower(c[0]) {
        lemma_lex_trans(a.drop_first(), b.drop_first(), c.drop_first());
    }
}

proof fn lemma_lex_skip(a: Seq<char>, b: Seq<char>, i: int)
    requires
        0 <= i <= a.len(),
        i <= b.len(),
        forall|j: int| 0 <= j < i ==> spec_lower(a[j]) == spec_lower(b[j]),
    ensures
        lex_le(a, b) == lex_le(a.skip(i), b.skip(i)),
    decreases i,
{
    if i == 0 {
        assert(a.skip(0) =~= a);
        assert(b.skip(0) =~= b);
    } else {
        assert(a.len() > 0 && b.len() > 0);
        assert(spec_lower(a[0]) == spec_lower(b[0]));
        lemma_lex_skip(a.drop_first(), b.drop_first(), i - 1);
        assert(a.drop_first() =~= a.skip(1));
        assert(b.drop_first() =~= b.skip(1));
        assert(a.skip(1).skip(i - 1) =~= a.skip(i));
        assert(b.skip(1).skip(i - 1) =~= b.skip(i));
    }
}

fn lower_code(c: char) -> (r: u32)
    ensures
        r == spec_lower(c),
{
    let x = c as u32;
    if 65 <= x && x <= 90 {
        x + 32
    } else {
        x
    }
}

/// Compares two paths in case-insensitive lexicographic order.
pub fn str_le(a: &str, b: &str) -> (r: bool)
    ensures
        r == lex_le(a@, b@),
{
    let la = a.unicode_len();
    let lb = b.unicode_len();
    let mut i: usize = 0;
    loop
        invariant
            i <= la,
            i <= lb,
            la == a@.len(),
            lb == b@.len(),
            forall|j: int| 0 <= j < i ==> spec_lower(a@[j]) == spec_lower(b@[j]),
        decreases la - i,
    {
        proof {
            lemma_lex_skip(a@, b@, i as int);
        }
        if i == la {
            return true;
        }
        if i == lb {
            return false;
        }
        let ca = lower_code(a.get_char(i));
        let cb = lower_code(b.get_char(i));
        proof {
            assert(a@.skip(i as int)[0] == a@[i as int]);
            assert(b@.skip(i as int)[0] == b@[i as int]);
        }
        if ca < cb {
            return true;
        }
        if ca > cb {
            return false;
        }
        i += 1;
    }
}

proof fn lemma_insert_multiset(s: Seq<Track>, pos: int, elt: Track)
    requires
        0 <= pos <= s.len(),
    ensures
        s.insert(pos, elt).to_multiset() == s.to_multiset().insert(elt),
{
    broadcast use vstd::seq_lib::group_to_multiset_ensures;

    let left = s.take(pos);
    let right = s.skip(pos);
    assert(s =~= left + right);
    assert(s.insert(pos, elt) =~= left.push(elt) + right);
    lemma_multiset_commutative(left.push(elt), right);
    lemma_multiset_commutative(left, right);
    assert(left.push(elt).to_multiset() =~= left.to_multiset().insert(elt));
    assert(s.insert(pos, elt).to_multiset() =~= s.to_multiset().insert(elt));
}

/// Sorts the tracks by path, ignoring letter case, keeping exactly the
/// same collection of tracks.
pub fn sort_tracks(tracks: &mut Vec<Track>)
    ensures
        spec_sorted(final(tracks)@),
        final(tracks)@.to_multiset() == old(tracks)@.to_multiset(),
{
    broadcast use vstd::seq_lib::group_to_multiset_ensures;

    let len = tracks.len();
    if len <= 1 {
        return ;
    }
    let mut i: usize = 1;
    while i < len
        invariant
            1 <= i <= len,
            len == tracks@.len(),
            spec_sorted(tracks@.take(i as int)),
            tracks@.to_multiset() == old(tracks)@.to_multiset(),
        decreases len - i,
    {
        let mut j: usize = i;
        while j > 0 && !str_le(tracks[j - 1].path.as_str(), tracks[i].path.as_str())
            invariant
                j <= i,
                i < len,
                len == tracks@.len(),
                forall|k: int| j <= k < i ==> !track_le(tracks@[k], tracks@[i as int]),
            decreases j,
        {
            j -= 1;
        }
        let ghost before = tracks@;
        let x = tracks.remove(i);
        tracks.insert(j, x);
        proof {
            let after = tracks@;
            assert(after =~= before.remove(i as int).insert(j as int, x));
            lemma_insert_multiset(before.remove(i as int), j as int, x);
            before.to_multiset_ensures();
            assert(x == before[i as int]);
            assert(before.contains(x));
            assert(before.remove(i as int).to_multiset() =~= before.to_multiset().remove(x));
            assert(before.to_multiset().count(x) > 0);
            assert(after.to_multiset() =~= before.to_multiset());

            assert forall|p: int, q: int| 0 <= p < q < i + 1 implies #[trigger] track_le(
                #[trigger] after.take(i + 1)[p],
                after.take(i + 1)[q],
            ) by {
                let ap = after[p];
                let aq = after[q];
                assert(after.take(i + 1)[p] == ap);
                assert(after.take(i + 1)[q] == aq);
                let ghost pre = before.take(i as int);
                if p < j && q < j {
                    assert(ap == pre[p] && aq == pre[q]);
                } else if p < j && q == j {
                    assert(ap == before[p] && aq == x);
                    assert(j >= 1);
                    assert(track_le(before[j - 1], x));
                    if p < j - 1 {
                        assert(pre[p] == before[p] && pre[j - 1] == before[j - 1]);
                        assert(track_le(before[p], before[j - 1]));
                        lemma_lex_trans(before[p].path@, before[j - 1].path@, x.path@);
                    }
                } else if p < j && q > j {
                    assert(ap == pre[p] && aq == pre[q - 1]);
                    assert(j <= q - 1 < i);
                } else if p == j {
                    assert(ap == x);
                    assert(aq == before[q - 1]);
                    assert(j <= q - 1 < i);
                    assert(!track_le(before[q - 1], x));
                    lemma_lex_total(x.path@, before[q - 1].path@);
                } else {
                    assert(ap == pre[p - 1] && aq == pre[q - 1]);
                    assert(j <= p - 1 < q - 1 < i);
                }
            }
        }
        i += 1;
    }
    proof {
        assert(tracks@.take(len as int) =~= tracks@);
    }
}

/// Relies on rand::seq::SliceRandom::shuffle, driven by rand::rng: an
/// in-place permutation of the tracks, chosen at random, so only the
/// collection of tracks is promised to be unchanged.
#[verifier::external_body]
pub(crate) fn shuffle_tracks(tracks: &mut Vec<Track>)
    ensures
        final(tracks)@.to_multiset() == old(tracks)@.to_multiset(),
{
    tracks.shuffle(&mut rand::rng());
}

/// Two track lists with the same collection of tracks have the same
/// total duration: reordering the catalog never changes it.
pub proof fn lemma_total_permutation(a: Seq<Track>, b: Seq<Track>)
    requires
        a.to_multiset() == b.to_multiset(),
    ensures
        spec_total(a) == spec_total(b),
    decreases a.len(),
{
    broadcast use vstd::seq_lib::group_to_multiset_ensures;

    if a.len() == 0 {
        assert(b.to_multiset().len() == 0);
        assert(b.len() == 0);
    } else {
        let x = a.last();
        assert(a.drop_last().push(x) =~= a);
        assert(a.to_multiset().count(x) > 0);
        assert(b.to_multiset().count(x) > 0);
        assert(b.contains(x));
        let i = choose|i: int| 0 <= i < b.len() && b[i] == x;
        lemma_total_remove(b, i);
        assert(a.drop_last().to_multiset() =~= a.to_multiset().remove(x));
        assert(b.remove(i).to_multiset() =~= b.to_multiset().remove(x));
        lemma_total_permutation(a.drop_last(), b.remove(i));
    }
}

proof fn lemma_total_remove(s: Seq<Track>, i: int)
    requires
        0 <= i < s.len(),
    ensures
        spec_total(s.remove(i)) == spec_total(s) - s[i].duration,
    decreases s.len(),
{
    if i == s.len() - 1 {
        assert(s.remove(i) =~= s.drop_last());
    } else {
        assert(s.remove(i).drop_last() =~= s.drop_last().remove(i));
        assert(s.remove(i).last() == s.last());
        lemma_total_remove(s.drop_last(), i);
    }
}

} // verus!
