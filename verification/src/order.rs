//! The orders a folder scan sorts by are strict total orders: tracks by
//! disc, track number and title; directories by path components.

use vstd::prelude::*;
use crate::folder_scan::{
    AlbumView, FileView, GroupView, TrackView, add_to_groups, album_of, comp_less, comp_rank, group_files,
    insert_sorted, opt_less, path_less, scan_albums, seq_less, sort_tracks, track_less, track_of,
};
use crate::folder_scan::opt_tag_number;
use crate::paths::{components, file_name};

verus! {

/// Different characters have different codes.
pub proof fn lemma_char_code_injective(a: char, b: char)
    requires
        a != b,
    ensures
        (a as u32) != (b as u32),
{
}

/// String order: never both ways, and not reflexive.
pub proof fn lemma_seq_less_asym(a: Seq<char>, b: Seq<char>)
    ensures
        seq_less(a, b) ==> !seq_less(b, a),
        !seq_less(a, a),
    decreases a.len(),
{
    if a.len() > 0 && b.len() > 0 && a[0] == b[0] {
        lemma_seq_less_asym(a.drop_first(), b.drop_first());
    }
    if a.len() > 0 {
        lemma_seq_less_asym(a.drop_first(), a.drop_first());
    }
}

/// String order: any two different strings are ordered one way.
pub proof fn lemma_seq_less_total(a: Seq<char>, b: Seq<char>)
    ensures
        a != b ==> seq_less(a, b) || seq_less(b, a),
    decreases a.len(),
{
    if a.len() > 0 && b.len() > 0 && a[0] == b[0] {
        lemma_seq_less_total(a.drop_first(), b.drop_first());
        if a.drop_first() == b.drop_first() {
            assert(a == seq![a[0]] + a.drop_first());
            assert(b == seq![b[0]] + b.drop_first());
        }
    } else if a.len() > 0 && b.len() > 0 {
        lemma_char_code_injective(a[0], b[0]);
    } else if a.len() == 0 && b.len() == 0 {
        assert(a == b);
    }
}

/// String order is transitive.
pub proof fn lemma_seq_less_trans(a: Seq<char>, b: Seq<char>, c: Seq<char>)
    requires
        seq_less(a, b),
        seq_less(b, c),
    ensures
        seq_less(a, c),
    decreases a.len(),
{
    if a.len() > 0 && b.len() > 0 && c.len() > 0 && a[0] == b[0] && b[0] == c[0] {
        lemma_seq_less_trans(a.drop_first(), b.drop_first(), c.drop_first());
    }
}

/// The track order is a strict total order on the sort key (disc number,
/// track number, title): asymmetric, transitive, and total between tracks
/// whose keys differ.
pub open spec fn same_key(a: TrackView, b: TrackView) -> bool {
    a.disc_number == b.disc_number && a.track_number == b.track_number && a.title == b.title
}

pub proof fn lemma_track_less_asym(a: TrackView, b: TrackView)
    ensures
        track_less(a, b) ==> !track_less(b, a),
        !track_less(a, a),
        same_key(a, b) ==> !track_less(a, b),
{
    lemma_seq_less_asym(a.title, b.title);
    lemma_seq_less_asym(a.title, a.title);
}

pub proof fn lemma_track_less_total(a: TrackView, b: TrackView)
    ensures
        !same_key(a, b) ==> track_less(a, b) || track_less(b, a),
{
    lemma_seq_less_total(a.title, b.title);
}

pub proof fn lemma_track_less_trans(a: TrackView, b: TrackView, c: TrackView)
    requires
        track_less(a, b),
        track_less(b, c),
    ensures
        track_less(a, c),
{
    if a.disc_number == b.disc_number && b.disc_number == c.disc_number && a.track_number
        == b.track_number && b.track_number == c.track_number {
        lemma_seq_less_trans(a.title, b.title, c.title);
    }
}

/// "Not after" is transitive: if `b` does not sort before `a`, and `c` not
/// before `b`, then `c` not before `a`.
pub proof fn lemma_track_not_less_trans(a: TrackView, b: TrackView, c: TrackView)
    requires
        !track_less(b, a),
        !track_less(c, b),
    ensures
        !track_less(c, a),
{
    lemma_track_less_total(a, b);
    lemma_track_less_total(b, c);
    lemma_track_less_asym(c, a);
    if track_less(c, a) {
        if !same_key(a, b) {
            // a < b
            if !same_key(b, c) {
                lemma_track_less_trans(a, b, c);
                lemma_track_less_asym(a, c);
            } else {
                assert(track_less(a, b));
                assert(track_less(c, a));
                assert(same_key(b, c));
                lemma_seq_less_asym(a.title, b.title);
            }
        } else {
            if !same_key(b, c) {
                assert(track_less(b, c));
                lemma_seq_less_asym(b.title, c.title);
            } else {
                lemma_track_less_asym(c, a);
            }
        }
    }
}

/// Component order: asymmetric and irreflexive.
pub proof fn lemma_comp_less_asym(a: Seq<char>, b: Seq<char>)
    ensures
        comp_less(a, b) ==> !comp_less(b, a),
        !comp_less(a, a),
{
    lemma_seq_less_asym(a, b);
    lemma_seq_less_asym(a, a);
}

/// Component order: total.
pub proof fn lemma_comp_less_total(a: Seq<char>, b: Seq<char>)
    ensures
        a != b ==> comp_less(a, b) || comp_less(b, a),
{
    lemma_seq_less_total(a, b);
}

/// Component order: transitive.
pub proof fn lemma_comp_less_trans(a: Seq<char>, b: Seq<char>, c: Seq<char>)
    requires
        comp_less(a, b),
        comp_less(b, c),
    ensures
        comp_less(a, c),
{
    if comp_rank(a) == 3 && comp_rank(b) == 3 && comp_rank(c) == 3 {
        lemma_seq_less_trans(a, b, c);
    }
}

/// Path order: asymmetric and irreflexive.
pub proof fn lemma_path_less_asym(a: Seq<Seq<char>>, b: Seq<Seq<char>>)
    ensures
        path_less(a, b) ==> !path_less(b, a),
        !path_less(a, a),
    decreases a.len(),
{
    if a.len() > 0 && b.len() > 0 {
        if a[0] == b[0] {
            lemma_path_less_asym(a.drop_first(), b.drop_first());
        } else {
            lemma_comp_less_asym(a[0], b[0]);
        }
    }
    if a.len() > 0 {
        lemma_path_less_asym(a.drop_first(), a.drop_first());
    }
}

/// Path order: total.
pub proof fn lemma_path_less_total(a: Seq<Seq<char>>, b: Seq<Seq<char>>)
    ensures
        a != b ==> path_less(a, b) || path_less(b, a),
    decreases a.len(),
{
    if a.len() > 0 && b.len() > 0 {
        if a[0] == b[0] {
            lemma_path_less_total(a.drop_first(), b.drop_first());
            if a.drop_first() == b.drop_first() {
                assert(a == seq![a[0]] + a.drop_first());
                assert(b == seq![b[0]] + b.drop_first());
            }
        } else {
            lemma_comp_less_total(a[0], b[0]);
        }
    } else if a.len() == 0 && b.len() == 0 {
        assert(a == b);
    }
}

/// Path order: transitive.
pub proof fn lemma_path_less_trans(a: Seq<Seq<char>>, b: Seq<Seq<char>>, c: Seq<Seq<char>>)
    requires
        path_less(a, b),
        path_less(b, c),
    ensures
        path_less(a, c),
    decreases a.len(),
{
    if a.len() > 0 && b.len() > 0 && c.len() > 0 {
        if a[0] == b[0] && b[0] == c[0] {
            lemma_path_less_trans(a.drop_first(), b.drop_first(), c.drop_first());
        } else if a[0] == b[0] {
        } else if b[0] == c[0] {
        } else {
            lemma_comp_less_trans(a[0], b[0], c[0]);
            lemma_comp_less_asym(a[0], c[0]);
            if a[0] == c[0] {
                lemma_comp_less_asym(a[0], b[0]);
            }
        }
    }
}


// ---------------------------------------------------------------------------
// Sorting
// ---------------------------------------------------------------------------

/// No track sorts before a track ahead of it.
pub open spec fn tracks_sorted(s: Seq<TrackView>) -> bool {
    forall|i: int, j: int| 0 <= i < j < s.len() ==> !track_less(#[trigger] s[j], #[trigger] s[i])
}

proof fn lemma_insert_sorted(s: Seq<TrackView>, x: TrackView)
    requires
        tracks_sorted(s),
    ensures
        tracks_sorted(insert_sorted(s, x)),
        insert_sorted(s, x).to_multiset() == s.to_multiset().insert(x),
    decreases s.len(),
{
    broadcast use vstd::seq_lib::group_to_multiset_ensures;

    if s.len() == 0 {
        assert(insert_sorted(s, x) == Seq::<TrackView>::empty().push(x));
        assert(s == Seq::<TrackView>::empty());
    } else if track_less(x, s.last()) {
        let t = s.drop_last();
        let last = s.last();
        assert forall|i: int, j: int| 0 <= i < j < t.len() implies !track_less(
            #[trigger] t[j],
            #[trigger] t[i],
        ) by {
            assert(t[i] == s[i] && t[j] == s[j]);
        }
        lemma_insert_sorted(t, x);
        let u = insert_sorted(t, x);
        let r = u.push(last);
        assert(s == t.push(last));
        assert(r.to_multiset() =~= s.to_multiset().insert(x));
        assert forall|i: int, j: int| 0 <= i < j < r.len() implies !track_less(
            #[trigger] r[j],
            #[trigger] r[i],
        ) by {
            if j == r.len() - 1 {
                assert(r[j] == last);
                assert(u.contains(r[i])) by {
                    assert(u[i] == r[i]);
                }
                assert(u.to_multiset().count(r[i]) > 0);
                if r[i] == x {
                    lemma_track_less_asym(x, last);
                } else {
                    assert(t.to_multiset().count(r[i]) > 0);
                    assert(t.contains(r[i]));
                    let k = choose|k: int| 0 <= k < t.len() && t[k] == r[i];
                    assert(s[k] == t[k]);
                    assert(!track_less(s[s.len() - 1], s[k]));
                }
            } else {
                assert(r[i] == u[i] && r[j] == u[j]);
            }
        }
    } else {
        let r = s.push(x);
        assert forall|i: int, j: int| 0 <= i < j < r.len() implies !track_less(
            #[trigger] r[j],
            #[trigger] r[i],
        ) by {
            if j == r.len() - 1 {
                if i < s.len() - 1 {
                    assert(!track_less(s[s.len() - 1], s[i]));
                    lemma_track_not_less_trans(s[i], s[s.len() - 1], x);
                }
            } else {
                assert(r[i] == s[i] && r[j] == s[j]);
            }
        }
    }
}

/// Sorting tracks puts them in order and keeps every track, each as often
/// as before.
pub proof fn law_sort_tracks(s: Seq<TrackView>)
    ensures
        tracks_sorted(sort_tracks(s)),
        sort_tracks(s).to_multiset() == s.to_multiset(),
    decreases s.len(),
{
    broadcast use vstd::seq_lib::group_to_multiset_ensures;

    if s.len() > 0 {
        law_sort_tracks(s.drop_last());
        lemma_insert_sorted(sort_tracks(s.drop_last()), s.last());
        assert(s == s.drop_last().push(s.last()));
    }
}

// ---------------------------------------------------------------------------
// Grouping
// ---------------------------------------------------------------------------

/// Groups of the first `n` files, as a folder scan keeps them: each group
/// is non-empty; each member is a file below `n` whose directory has the
/// group's components, members in scan order; groups in strictly increasing
/// directory order; and every file below `n` is a member of some group.
pub open spec fn groups_ok(files: Seq<FileView>, gs: Seq<GroupView>, n: int) -> bool {
    &&& forall|g: int| 0 <= g < gs.len() ==> (#[trigger] gs[g]).1.len() > 0
    &&& forall|g: int, m: int|
        0 <= g < gs.len() && 0 <= m < gs[g].1.len() ==> 0 <= #[trigger] gs[g].1[m] < n
            && components(files[gs[g].1[m]].dir) == gs[g].0
    &&& forall|g: int, m1: int, m2: int|
        0 <= g < gs.len() && 0 <= m1 < m2 < gs[g].1.len() ==> #[trigger] gs[g].1[m1]
            < #[trigger] gs[g].1[m2]
    &&& forall|g1: int, g2: int|
        0 <= g1 < g2 < gs.len() ==> path_less(#[trigger] gs[g1].0, #[trigger] gs[g2].0)
    &&& forall|k: int| 0 <= k < n ==> #[trigger] is_member(gs, k)
}

/// Whether file `k` is a member of some group.
pub open spec fn is_member(gs: Seq<GroupView>, k: int) -> bool {
    exists|g: int, m: int| 0 <= g < gs.len() && 0 <= m < gs[g].1.len() && #[trigger] gs[g].1[m] == k
}

/// Where `add_to_groups` places a key: after the last group whose key is
/// not greater.
pub open spec fn add_pos(gs: Seq<GroupView>, key: Seq<Seq<char>>) -> int
    decreases gs.len(),
{
    if gs.len() == 0 {
        0
    } else if gs.last().0 == key || path_less(gs.last().0, key) {
        gs.len() as int
    } else {
        add_pos(gs.drop_last(), key)
    }
}

proof fn lemma_add_pos(gs: Seq<GroupView>, key: Seq<Seq<char>>)
    ensures
        0 <= add_pos(gs, key) <= gs.len(),
        forall|k: int|
            add_pos(gs, key) <= k < gs.len() ==> (#[trigger] gs[k]).0 != key && !path_less(
                gs[k].0,
                key,
            ),
        add_pos(gs, key) == 0 || gs[add_pos(gs, key) - 1].0 == key || path_less(
            gs[add_pos(gs, key) - 1].0,
            key,
        ),
    decreases gs.len(),
{
    if gs.len() > 0 && !(gs.last().0 == key || path_less(gs.last().0, key)) {
        let t = gs.drop_last();
        lemma_add_pos(t, key);
        let j = add_pos(t, key);
        assert forall|k: int| j <= k < gs.len() implies (#[trigger] gs[k]).0 != key && !path_less(
            gs[k].0,
            key,
        ) by {
            if k < t.len() {
                assert(t[k] == gs[k]);
            }
        }
        if j > 0 {
            assert(t[j - 1] == gs[j - 1]);
        }
    }
}

proof fn lemma_add_keeps_groups_ok(files: Seq<FileView>, gs: Seq<GroupView>, n: int)
    requires
        0 <= n < files.len(),
        groups_ok(files, gs, n),
    ensures
        groups_ok(files, add_to_groups(gs, components(files[n].dir), n), n + 1),
{
    let key = components(files[n].dir);
    lemma_add_pos(gs, key);
    let j = add_pos(gs, key);
    crate::folder_scan::lemma_add_to_groups_at_pub(gs, key, n, j);
    let r = add_to_groups(gs, key, n);
    if j > 0 && gs[j - 1].0 == key {
        assert(r == gs.update(j - 1, (key, gs[j - 1].1.push(n))));
        assert forall|g: int, m: int| 0 <= g < r.len() && 0 <= m < r[g].1.len() implies 0
            <= #[trigger] r[g].1[m] < n + 1 && components(files[r[g].1[m]].dir) == r[g].0 by {
            if g == j - 1 && m < gs[g].1.len() {
                assert(r[g].1[m] == gs[g].1[m]);
            }
        }
        assert forall|g: int, m1: int, m2: int|
            0 <= g < r.len() && 0 <= m1 < m2 < r[g].1.len() implies #[trigger] r[g].1[m1]
            < #[trigger] r[g].1[m2] by {
            if g == j - 1 {
                assert(r[g].1[m1] == gs[g].1[m1]);
                if m2 < gs[g].1.len() {
                    assert(r[g].1[m2] == gs[g].1[m2]);
                }
            }
        }
        assert forall|g1: int, g2: int| 0 <= g1 < g2 < r.len() implies path_less(
            #[trigger] r[g1].0,
            #[trigger] r[g2].0,
        ) by {
            assert(r[g1].0 == gs[g1].0 && r[g2].0 == gs[g2].0);
        }
        assert forall|k: int| 0 <= k < n + 1 implies #[trigger] is_member(r, k) by {
            if k == n {
                let g = j - 1;
                let m = gs[g].1.len() as int;
                assert(r[g].1[m] == n);
            } else {
                assert(is_member(gs, k));
                let (g, m) = choose|g: int, m: int|
                    0 <= g < gs.len() && 0 <= m < gs[g].1.len() && #[trigger] gs[g].1[m] == k;
                assert(r[g].1[m] == k);
            }
        }
        assert forall|g: int| 0 <= g < r.len() implies (#[trigger] r[g]).1.len() > 0 by {}
    } else {
        let ng: GroupView = (key, seq![n]);
        assert(r == gs.insert(j, ng));
        assert forall|g: int, m: int| 0 <= g < r.len() && 0 <= m < r[g].1.len() implies 0
            <= #[trigger] r[g].1[m] < n + 1 && components(files[r[g].1[m]].dir) == r[g].0 by {
            if g < j {
                assert(r[g] == gs[g]);
            } else if g > j {
                assert(r[g] == gs[g - 1]);
            }
        }
        assert forall|g: int, m1: int, m2: int|
            0 <= g < r.len() && 0 <= m1 < m2 < r[g].1.len() implies #[trigger] r[g].1[m1]
            < #[trigger] r[g].1[m2] by {
            if g < j {
                assert(r[g] == gs[g]);
            } else if g > j {
                assert(r[g] == gs[g - 1]);
            }
        }
        assert forall|g1: int, g2: int| 0 <= g1 < g2 < r.len() implies path_less(
            #[trigger] r[g1].0,
            #[trigger] r[g2].0,
        ) by {
            if g2 < j {
                assert(r[g1] == gs[g1] && r[g2] == gs[g2]);
            } else if g1 > j {
                assert(r[g1] == gs[g1 - 1] && r[g2] == gs[g2 - 1]);
            } else if g1 == j {
                assert(r[g2] == gs[g2 - 1]);
                lemma_path_less_total(key, gs[g2 - 1].0);
            } else if g2 == j {
                assert(r[g1] == gs[g1]);
                if g1 < j - 1 {
                    lemma_path_less_trans(gs[g1].0, gs[j - 1].0, key);
                }
            } else {
                assert(r[g1] == gs[g1] && r[g2] == gs[g2 - 1]);
                lemma_path_less_total(key, gs[g2 - 1].0);
                if g1 < j - 1 {
                    lemma_path_less_trans(gs[g1].0, gs[j - 1].0, key);
                }
                lemma_path_less_trans(gs[g1].0, key, gs[g2 - 1].0);
            }
        }
        assert forall|k: int| 0 <= k < n + 1 implies #[trigger] is_member(r, k) by {
            if k == n {
                assert(r[j].1[0] == n);
            } else {
                assert(is_member(gs, k));
                let (g, m) = choose|g: int, m: int|
                    0 <= g < gs.len() && 0 <= m < gs[g].1.len() && #[trigger] gs[g].1[m] == k;
                if g < j {
                    assert(r[g] == gs[g]);
                    assert(r[g].1[m] == k);
                } else {
                    assert(r[g + 1] == gs[g]);
                    assert(r[g + 1].1[m] == k);
                }
            }
        }
        assert forall|g: int| 0 <= g < r.len() implies (#[trigger] r[g]).1.len() > 0 by {
            if g < j {
                assert(r[g] == gs[g]);
            } else if g > j {
                assert(r[g] == gs[g - 1]);
            }
        }
    }
}

/// The groups of a folder scan partition its files by directory: every
/// file is in the group of its own directory, each group lists its files
/// in scan order, and the groups (hence the albums) come in strictly
/// increasing directory order.
pub proof fn law_groups_partition_files(files: Seq<FileView>)
    ensures
        groups_ok(files, group_files(files), files.len() as int),
    decreases files.len(),
{
    if files.len() > 0 {
        let prev = files.drop_last();
        law_groups_partition_files(prev);
        let gs = group_files(prev);
        let n = files.len() - 1;
        assert(groups_ok(files, gs, n)) by {
            assert forall|g: int, m: int| 0 <= g < gs.len() && 0 <= m < gs[g].1.len() implies 0
                <= #[trigger] gs[g].1[m] < n && components(files[gs[g].1[m]].dir) == gs[g].0 by {
                assert(files[gs[g].1[m]] == prev[gs[g].1[m]]);
            }
        }
        lemma_add_keeps_groups_ok(files, gs, n);
        assert(files.last() == files[n]);
    }
}

/// Every album of a folder scan has its tracks in order (disc number, track
/// number, title), and holds exactly the tracks of its group's files.
pub proof fn law_albums_sorted(files: Seq<FileView>)
    ensures
        forall|a: int|
            0 <= a < scan_albums(files).len() ==> tracks_sorted(#[trigger] scan_albums(files)[a].tracks),
        forall|a: int|
            0 <= a < scan_albums(files).len() ==> (#[trigger] scan_albums(files)[a]).tracks.to_multiset()
                == group_files(files)[a].1.map_values(|k: int| track_of(files[k])).to_multiset(),
{
    assert forall|a: int| 0 <= a < scan_albums(files).len() implies tracks_sorted(
        #[trigger] scan_albums(files)[a].tracks,
    ) && scan_albums(files)[a].tracks.to_multiset() == group_files(files)[a].1.map_values(
        |k: int| track_of(files[k]),
    ).to_multiset() by {
        let s = group_files(files)[a].1.map_values(|k: int| track_of(files[k]));
        law_sort_tracks(s);
    }
}

/// `a` comes no later than `b` among optional numbers: a missing number
/// first, then by value.
pub open spec fn number_le(a: Option<i64>, b: Option<i64>) -> bool {
    match a {
        None => true,
        Some(x) => match b {
            None => false,
            Some(y) => x <= y,
        },
    }
}

/// `a` comes no later than `b` among texts: `a` is a prefix of `b`, or at
/// the first position where they differ `a` has the smaller code point.
pub open spec fn text_le(a: Seq<char>, b: Seq<char>) -> bool {
    ||| a.is_prefix_of(b)
    ||| exists|k: int|
        0 <= k < a.len() && k < b.len() && a.take(k) == b.take(k) && (a[k] as u32) < (b[k] as u32)
}

/// Track `x` may stand before track `y`: by disc number first, then by
/// track number, then by title.
pub open spec fn key_in_order(x: TrackView, y: TrackView) -> bool {
    &&& number_le(x.disc_number, y.disc_number)
    &&& x.disc_number == y.disc_number ==> number_le(x.track_number, y.track_number)
    &&& x.disc_number == y.disc_number && x.track_number == y.track_number ==> text_le(x.title, y.title)
}

proof fn lemma_seq_less_text_le(a: Seq<char>, b: Seq<char>)
    requires
        seq_less(a, b),
    ensures
        text_le(a, b),
    decreases a.len(),
{
    if a.len() == 0 {
        assert(a.is_prefix_of(b));
    } else if a[0] != b[0] {
        assert(a.take(0) == b.take(0));
    } else {
        let a1 = a.drop_first();
        let b1 = b.drop_first();
        lemma_seq_less_text_le(a1, b1);
        if a1.is_prefix_of(b1) {
            assert forall|i: int| 0 <= i < a.len() implies a[i] == b[i] by {
                if i > 0 {
                    assert(a[i] == a1[i - 1]);
                    assert(b[i] == b1[i - 1]);
                }
            }
            assert(a.is_prefix_of(b));
        } else {
            let k = choose|k: int|
                0 <= k < a1.len() && k < b1.len() && a1.take(k) == b1.take(k) && (a1[k] as u32) < (
                b1[k] as u32);
            assert(a.take(k + 1) =~= b.take(k + 1)) by {
                assert forall|i: int| 0 <= i < k + 1 implies #[trigger] a.take(k + 1)[i] == b.take(k + 1)[i] by {
                    if i > 0 {
                        assert(a1.take(k)[i - 1] == b1.take(k)[i - 1]);
                    }
                }
            }
            assert(a[k + 1] == a1[k] && b[k + 1] == b1[k]);
        }
    }
}

/// Two tracks that do not sort the other way round are in key order.
proof fn lemma_not_less_key_in_order(x: TrackView, y: TrackView)
    requires
        !track_less(y, x),
    ensures
        key_in_order(x, y),
{
    if x.disc_number == y.disc_number && x.track_number == y.track_number {
        lemma_seq_less_total(x.title, y.title);
        if x.title == y.title {
            assert(x.title.is_prefix_of(y.title));
        } else {
            lemma_seq_less_text_le(x.title, y.title);
        }
    }
}

/// Every album of a folder scan lists its tracks by disc number, then
/// track number, then title (a missing number first): a track on an
/// earlier disc comes before any track on a later disc, whatever their
/// track numbers.
pub proof fn law_album_track_order(files: Seq<FileView>)
    ensures
        forall|a: int, i: int, j: int|
            0 <= a < scan_albums(files).len() && 0 <= i < j < scan_albums(files)[a].tracks.len()
                ==> key_in_order(
                #[trigger] scan_albums(files)[a].tracks[i],
                #[trigger] scan_albums(files)[a].tracks[j],
            ),
{
    law_albums_sorted(files);
    assert forall|a: int, i: int, j: int|
        0 <= a < scan_albums(files).len() && 0 <= i < j < scan_albums(files)[a].tracks.len()
            implies key_in_order(
            #[trigger] scan_albums(files)[a].tracks[i],
            #[trigger] scan_albums(files)[a].tracks[j],
        ) by {
        let t = scan_albums(files)[a].tracks;
        assert(tracks_sorted(t));
        assert(!track_less(t[j], t[i]));
        lemma_not_less_key_in_order(t[i], t[j]);
    }
}

/// File `k` is the first scanned file of its directory.
pub open spec fn first_of_dir(files: Seq<FileView>, k: int) -> bool {
    &&& 0 <= k < files.len()
    &&& forall|m: int| 0 <= m < k ==> components(#[trigger] files[m].dir) != components(files[k].dir)
}

/// An album's metadata as file `f` gives it: the album-artist, genre and
/// year tags (not the track's own artist), the album tag as title or else
/// the directory's name, and the file's directory as source path.
pub open spec fn metadata_from(al: AlbumView, f: FileView) -> bool {
    &&& al.album_artist == f.album_artist
    &&& al.genre == f.genre
    &&& al.year == opt_tag_number(f.year)
    &&& al.source_path == f.dir
    &&& al.title == match f.album {
        Some(t) => t,
        None => match file_name(f.dir) {
            Some(n) => n,
            None => "Unknown Album"@,
        },
    }
}

/// Every album of a folder scan takes its metadata from the first scanned
/// file of its directory.
pub proof fn law_album_metadata(files: Seq<FileView>)
    ensures
        forall|a: int|
            #![trigger scan_albums(files)[a]]
            0 <= a < scan_albums(files).len() ==> exists|k: int|
                #![trigger files[k]]
                first_of_dir(files, k) && metadata_from(scan_albums(files)[a], files[k]),
{
    law_groups_partition_files(files);
    let gs = group_files(files);
    assert forall|a: int|
        #![trigger scan_albums(files)[a]]
        0 <= a < scan_albums(files).len() implies exists|k: int|
        #![trigger files[k]]
        first_of_dir(files, k) && metadata_from(scan_albums(files)[a], files[k]) by {
        let g = gs[a];
        assert(g.1.len() > 0);
        let k = g.1[0];
        assert(0 <= k < files.len() && components(files[k].dir) == g.0);
        assert forall|m: int| 0 <= m < k implies components(#[trigger] files[m].dir) != components(files[k].dir) by {
            assert(is_member(gs, m));
            let (g2, m2) = choose|g2: int, m2: int| 0 <= g2 < gs.len() && 0 <= m2 < gs[g2].1.len() && #[trigger] gs[g2].1[m2] == m;
            assert(components(files[gs[g2].1[m2]].dir) == gs[g2].0);
            if components(files[m].dir) == components(files[k].dir) {
                if g2 != a {
                    lemma_path_less_asym(gs[g2].0, gs[a].0);
                    if g2 < a {
                        assert(path_less(gs[g2].0, gs[a].0));
                    } else {
                        assert(path_less(gs[a].0, gs[g2].0));
                    }
                } else {
                    if m2 > 0 {
                        assert(gs[a].1[0] < gs[a].1[m2]);
                    }
                }
            }
        }
        assert(first_of_dir(files, k));
        assert(scan_albums(files)[a] == album_of(files, g));
        assert(metadata_from(scan_albums(files)[a], files[k]));
    }
}

} // verus!
