use vstd::prelude::*;
use vstd::multiset::Multiset;
use rand::seq::SliceRandom;
use crate::PlayerScope;
use crate::library::{Song, SongModel, Library, LibraryModel, LibraryError};
use crate::order::{lex_le, lemma_lex_le_total, lemma_lex_le_trans, str_lex_le};

verus! {

/// Whether a song falls inside a playback scope.
pub open spec fn song_in_scope(l: LibraryModel, s: SongModel, scope: PlayerScope) -> bool {
    match scope {
        PlayerScope::Library => true,
        PlayerScope::Album(id) => s.album == id,
        PlayerScope::Artist(id) => l.album_of(s.album).artist == id,
    }
}

/// The in-scope songs among the first `n` of the snapshot, in order.
pub open spec fn scope_songs_upto(l: LibraryModel, scope: PlayerScope, n: int) -> Seq<SongModel> {
    l.songs.subrange(0, n).filter(|s: SongModel| song_in_scope(l, s, scope))
}

/// The songs of the snapshot that fall inside the scope, in snapshot order.
pub open spec fn scope_songs(l: LibraryModel, scope: PlayerScope) -> Seq<SongModel> {
    scope_songs_upto(l, scope, l.songs.len() as int)
}

/// The ids of a song sequence, in order.
pub open spec fn ids_of(s: Seq<SongModel>) -> Seq<u64> {
    s.map_values(|s: SongModel| s.id)
}

/// The ids of the songs inside the scope, in snapshot order.
pub open spec fn scope_song_ids(l: LibraryModel, scope: PlayerScope) -> Seq<u64> {
    ids_of(scope_songs(l, scope))
}

/// The mathematical values of a song vector.
pub open spec fn models_of(s: Seq<Song>) -> Seq<SongModel> {
    s.map_values(|s: Song| s@)
}

/// Titles never grow along the sequence: descending lexicographic order.
pub open spec fn sorted_desc(s: Seq<SongModel>) -> bool {
    forall|i: int, j: int|
        0 <= i < j < s.len() ==> lex_le(#[trigger] s[j].title, #[trigger] s[i].title)
}

/// What remains of an ordering after rotating it so position `k` comes
/// first and then dropping position `k`: everything after `k`, wrapping
/// around to everything before it.
pub open spec fn rotation_after(ord: Seq<SongModel>, k: int) -> Seq<u64> {
    ids_of(ord.subrange(k + 1, ord.len() as int) + ord.subrange(0, k))
}

/// A correct refill of the automatic queue seeded from `current`: every
/// song id of the scope except `current`, each exactly once; and, when not
/// shuffled, in descending-title order starting right after `current`'s
/// position and wrapping around.
pub open spec fn valid_refill(
    l: LibraryModel,
    scope: PlayerScope,
    current: u64,
    shuffled: bool,
    q: Seq<u64>,
) -> bool {
    &&& q.to_multiset() == scope_song_ids(l, scope).to_multiset().remove(current)
    &&& !shuffled ==> (exists|ord: Seq<SongModel>, k: int|
        {
            &&& #[trigger] rotation_after(ord, k) == q
            &&& ord.to_multiset() == scope_songs(l, scope).to_multiset()
            &&& sorted_desc(ord)
            &&& 0 <= k < ord.len()
            &&& ord[k].id == current
        })
}

/// Mapping a sequence element by element keeps its multiset through any
/// permutation of the sequence.
proof fn lemma_map_multiset<A, B>(s1: Seq<A>, s2: Seq<A>, f: spec_fn(A) -> B)
    requires
        s1.to_multiset() == s2.to_multiset(),
    ensures
        s1.map_values(f).to_multiset() == s2.map_values(f).to_multiset(),
    decreases s1.len(),
{
    broadcast use vstd::seq_lib::group_to_multiset_ensures;

    if s1.len() == 0 {
        assert(s2.to_multiset().len() == 0);
        assert(s2.len() == 0);
        assert(s1.map_values(f) =~= s2.map_values(f));
    } else {
        let x = s1.last();
        assert(s1.to_multiset().count(x) > 0) by {
            assert(s1.contains(x));
        }
        assert(s2.contains(x));
        let j = choose|j: int| 0 <= j < s2.len() && s2[j] == x;
        assert(s1.drop_last().to_multiset() == s1.to_multiset().remove(x)) by {
            assert(s1 =~= s1.drop_last().push(x));
            assert(s1.drop_last().push(x).to_multiset() =~= s1.drop_last().to_multiset().insert(x));
            assert(s1.drop_last().to_multiset().insert(x).remove(x)
                =~= s1.drop_last().to_multiset());
        }
        assert(s2.remove(j).to_multiset() == s2.to_multiset().remove(x));
        lemma_map_multiset(s1.drop_last(), s2.remove(j), f);
        assert(s1.map_values(f) =~= s1.drop_last().map_values(f).push(f(x)));
        assert(s2.remove(j).map_values(f) =~= s2.map_values(f).remove(j));
        assert(s2.map_values(f).remove(j).to_multiset() == s2.map_values(f).to_multiset().remove(
            f(x),
        )) by {
            assert(s2.map_values(f)[j] == f(x));
        }
        assert(s1.map_values(f).to_multiset() =~= s1.drop_last().map_values(f).to_multiset().insert(
            f(x),
        ));
        assert(s2.map_values(f).to_multiset().contains(f(x))) by {
            assert(s2.map_values(f)[j] == f(x));
            assert(s2.map_values(f).contains(f(x)));
        }
        assert(s2.map_values(f).to_multiset().remove(f(x)).insert(f(x)) =~= s2.map_values(
            f,
        ).to_multiset());
    }
}

/// Stable insertion sort by title, descending. The result holds exactly
/// the given songs, reordered so titles never grow.
fn sort_songs_desc(v: Vec<Song>) -> (r: Vec<Song>)
    ensures
        models_of(r@).to_multiset() == models_of(v@).to_multiset(),
        sorted_desc(models_of(r@)),
{
    broadcast use vstd::seq_lib::group_to_multiset_ensures;

    let mut r: Vec<Song> = Vec::new();
    let n = v.len();
    proof {
        assert(models_of(v@.subrange(0, 0)) =~= models_of(r@));
    }
    for i in 0..n
        invariant
            n == v@.len(),
            models_of(r@).to_multiset() == models_of(v@.subrange(0, i as int)).to_multiset(),
            sorted_desc(models_of(r@)),
            r@.len() == i,
    {
        let song = v[i].clone();
        let mut j: usize = 0;
        while j < r.len() && str_lex_le(&song.title, &r[j].title)
            invariant
                j <= r@.len(),
                forall|p: int| 0 <= p < j ==> lex_le(song.title@, #[trigger] r@[p]@.title),
            decreases r@.len() - j,
        {
            j = j + 1;
        }
        proof {
            if j < r@.len() {
                lemma_lex_le_total(song.title@, r@[j as int]@.title);
                assert(lex_le(r@[j as int]@.title, song.title@));
            }
        }
        let ghost mo = models_of(r@);
        r.insert(j, song);
        proof {
            let mn = models_of(r@);
            assert(mn =~= mo.insert(j as int, song@));
            mo.insert_ensures(j as int, song@);
            assert(sorted_desc(mn)) by {
                assert forall|p: int, q: int|
                    0 <= p < q < mn.len() implies lex_le(
                    #[trigger] mn[q].title,
                    #[trigger] mn[p].title,
                ) by {
                    if q < j {
                        assert(mn[p] == mo[p] && mn[q] == mo[q]);
                    } else if p < j && q == j {
                        assert(mn[p] == mo[p] && mn[q] == song@);
                    } else if p < j && q > j {
                        assert(mn[p] == mo[p] && mn[q] == mo[q - 1]);
                    } else if p == j && q > j {
                        assert(mn[p] == song@ && mn[q] == mo[q - 1]);
                        if q - 1 > j - 1 + 1 {
                        }
                        if j < mo.len() {
                            if q - 1 == j {
                            } else {
                                assert(lex_le(mo[q - 1].title, mo[j as int].title));
                                lemma_lex_le_trans(mo[q - 1].title, mo[j as int].title, song.title@);
                            }
                        } else {
                            assert(q - 1 < mo.len());
                            assert(false);
                        }
                    } else {
                        assert(mn[p] == mo[p - 1] && mn[q] == mo[q - 1]);
                    }
                }
            }
            assert(mn.to_multiset() == mo.to_multiset().insert(song@)) by {
                vstd::seq_lib::to_multiset_insert(mo, j as int, song@);
            }
            assert(models_of(v@.subrange(0, i as int + 1)) =~= models_of(
                v@.subrange(0, i as int),
            ).push(v@[i as int]@));
            assert(models_of(v@.subrange(0, i as int + 1)).to_multiset() == models_of(
                v@.subrange(0, i as int),
            ).to_multiset().insert(v@[i as int]@)) by {
                vstd::seq_lib::to_multiset_build(
                    models_of(v@.subrange(0, i as int)),
                    v@[i as int]@,
                );
            }
        }
    }
    proof {
        assert(v@.subrange(0, n as int) =~= v@);
    }
    r
}

/// Relies on rand's `SliceRandom::shuffle`, a Fisher–Yates pass of
/// in-place swaps: afterwards the vector holds exactly the songs it held
/// before, in some order. Nothing is promised of the order; it is drawn
/// fresh from a thread-local generator on every call.
#[verifier::external_body]
fn shuffle_songs(v: &mut Vec<Song>)
    ensures
        final(v)@.to_multiset() == old(v)@.to_multiset(),
{
    v.as_mut_slice().shuffle(&mut rand::thread_rng());
}

/// Copies out the songs of the snapshot that fall inside the scope, in
/// snapshot order.
fn collect_scope_songs(library: &Library, scope: PlayerScope) -> (r: Vec<Song>)
    requires
        library.wf(),
    ensures
        models_of(r@) == scope_songs(library@, scope),
{
    let mut r: Vec<Song> = Vec::new();
    let n = library.songs.len();
    proof {
        reveal(Seq::filter);
        assert(library@.songs.subrange(0, 0) =~= Seq::<SongModel>::empty());
        assert(models_of(r@) =~= scope_songs_upto(library@, scope, 0));
    }
    for i in 0..n
        invariant
            n == library.songs@.len(),
            library.wf(),
            models_of(r@) == scope_songs_upto(library@, scope, i as int),
    {
        let song = &library.songs[i];
        let keep = match scope {
            PlayerScope::Library => true,
            PlayerScope::Album(id) => song.album == id,
            PlayerScope::Artist(id) => {
                proof {
                    assert(library@.has_album(library@.songs[i as int].album));
                }
                match library.get_album(song.album) {
                    Some(album) => album.artist == id,
                    None => false,
                }
            },
        };
        proof {
            assert(keep == song_in_scope(library@, library@.songs[i as int], scope));
        }
        if keep {
            r.push(song.clone());
        }
        proof {
            reveal(Seq::filter);
            let prefix = library@.songs.subrange(0, i as int);
            let cur = library@.songs.subrange(0, i as int + 1);
            assert(cur.drop_last() =~= prefix);
            assert(cur.last() == library@.songs[i as int]);
            if keep {
                assert(models_of(r@) =~= scope_songs_upto(library@, scope, i as int).push(
                    library@.songs[i as int],
                ));
            }
            assert(models_of(r@) == scope_songs_upto(library@, scope, i as int + 1));
        }
    }
    r
}

/// The position of a song id among the collected songs, if any.
fn position_of_id(v: &Vec<Song>, id: u64) -> (r: Option<usize>)
    ensures
        r matches Some(k) ==> k < v@.len() && v@[k as int].id == id,
        r is None ==> forall|t: int| 0 <= t < v@.len() ==> (#[trigger] v@[t]).id != id,
{
    let n = v.len();
    for i in 0..n
        invariant
            n == v@.len(),
            forall|t: int| 0 <= t < i ==> (#[trigger] v@[t]).id != id,
    {
        if v[i].id == id {
            return Some(i);
        }
    }
    None
}

/// Computes a refill of the automatic queue: every song of the scope
/// except the current one, each exactly once. Without shuffle the order
/// is descending by title, rotated so it starts right after the current
/// song and wraps around; callers pop from the end, so the song played
/// next is the last element. With shuffle the order is drawn fresh each
/// call. A current song outside its own scope — which a race with a
/// rescan can produce — is reported as `SongNotInScope`, never a crash.
pub fn get_automatic_next_songs(
    library: &Library,
    current_song_id: u64,
    is_shuffled: bool,
    scope: PlayerScope,
) -> (r: Result<Vec<u64>, LibraryError>)
    requires
        library.wf(),
    ensures
        r is Ok <==> scope_song_ids(library@, scope).contains(current_song_id),
        r matches Err(e) ==> e == LibraryError::SongNotInScope,
        r matches Ok(v) ==> valid_refill(library@, scope, current_song_id, is_shuffled, v@),
{
    let ghost lm = library@;
    let scoped = collect_scope_songs(library, scope);
    let ghost scoped_models = models_of(scoped@);
    let ordered = if is_shuffled {
        let mut s = scoped;
        let ghost pre = s@;
        shuffle_songs(&mut s);
        proof {
            lemma_map_multiset(s@, pre, |s: Song| s@);
            assert(s@.map_values(|s: Song| s@) =~= models_of(s@));
            assert(pre.map_values(|s: Song| s@) =~= scoped_models);
        }
        s
    } else {
        sort_songs_desc(scoped)
    };
    let ghost oms = models_of(ordered@);
    proof {
        assert(oms.to_multiset() == scope_songs(lm, scope).to_multiset());
    }
    match position_of_id(&ordered, current_song_id) {
        None => {
            proof {
                broadcast use vstd::seq_lib::group_to_multiset_ensures;

                assert forall|t: int| 0 <= t < oms.len() implies (#[trigger] oms[t]).id
                    != current_song_id by {
                    assert(oms[t] == ordered@[t]@);
                }
                assert(!scope_song_ids(lm, scope).contains(current_song_id)) by {
                    if scope_song_ids(lm, scope).contains(current_song_id) {
                        let i = choose|i: int|
                            0 <= i < scope_song_ids(lm, scope).len() && scope_song_ids(lm, scope)[i]
                                == current_song_id;
                        let s = scope_songs(lm, scope)[i];
                        assert(scope_songs(lm, scope).contains(s));
                        assert(scope_songs(lm, scope).to_multiset().count(s) > 0);
                        assert(oms.to_multiset().count(s) > 0);
                        assert(oms.contains(s));
                        let t = choose|t: int| 0 <= t < oms.len() && oms[t] == s;
                        assert(oms[t].id == current_song_id);
                    }
                }
            }
            Err(LibraryError::SongNotInScope)
        },
        Some(k) => {
            let ghost olen = oms.len() as int;
            let n = ordered.len();
            let mut out: Vec<u64> = Vec::new();
            proof {
                assert(out@ =~= ids_of(oms.subrange(k as int + 1, k as int + 1)));
            }
            let mut t: usize = k + 1;
            while t < n
                invariant
                    k < t <= n,
                    n == ordered@.len(),
                    oms == models_of(ordered@),
                    out@ == ids_of(oms.subrange(k as int + 1, t as int)),
                decreases n - t,
            {
                out.push(ordered[t].id);
                proof {
                    assert(oms.subrange(k as int + 1, t as int + 1) =~= oms.subrange(
                        k as int + 1,
                        t as int,
                    ).push(oms[t as int]));
                    assert(out@ =~= ids_of(oms.subrange(k as int + 1, t as int + 1)));
                }
                t = t + 1;
            }
            let ghost tail_ids = ids_of(oms.subrange(k as int + 1, olen));
            let mut t2: usize = 0;
            while t2 < k
                invariant
                    t2 <= k,
                    k < n,
                    n == ordered@.len(),
                    oms == models_of(ordered@),
                    tail_ids == ids_of(oms.subrange(k as int + 1, oms.len() as int)),
                    out@ == tail_ids + ids_of(oms.subrange(0, t2 as int)),
                decreases k - t2,
            {
                out.push(ordered[t2].id);
                proof {
                    assert(oms.subrange(0, t2 as int + 1) =~= oms.subrange(0, t2 as int).push(
                        oms[t2 as int],
                    ));
                    assert(out@ =~= tail_ids + ids_of(oms.subrange(0, t2 as int + 1)));
                }
                t2 = t2 + 1;
            }
            proof {
                broadcast use vstd::seq_lib::group_to_multiset_ensures;

                let ka = k as int;
                let head = oms.subrange(0, ka);
                let tail = oms.subrange(ka + 1, olen);
                assert(out@ =~= ids_of(tail + head)) by {
                    assert(out@ == tail_ids + ids_of(head));
                    assert(ids_of(tail) + ids_of(head) =~= ids_of(tail + head));
                }
                assert(rotation_after(oms, ka) == out@);
                assert(oms[ka].id == current_song_id) by {
                    assert(oms[ka] == ordered@[ka]@);
                }
                // The current song is indeed in scope.
                assert(scope_song_ids(lm, scope).contains(current_song_id)) by {
                    assert(oms.contains(oms[ka]));
                    assert(oms.to_multiset().count(oms[ka]) > 0);
                    assert(scope_songs(lm, scope).to_multiset().count(oms[ka]) > 0);
                    assert(scope_songs(lm, scope).contains(oms[ka]));
                    let i = choose|i: int|
                        0 <= i < scope_songs(lm, scope).len() && scope_songs(lm, scope)[i]
                            == oms[ka];
                    assert(scope_song_ids(lm, scope)[i] == current_song_id);
                }
                // Every id of the scope except the current one, once each.
                assert(out@.to_multiset() =~= scope_song_ids(lm, scope).to_multiset().remove(
                    current_song_id,
                )) by {
                    let c = oms[ka].id;
                    assert(ids_of(oms) =~= (head.map_values(|s: SongModel| s.id) + seq![c])
                        + tail.map_values(|s: SongModel| s.id));
                    vstd::seq_lib::lemma_multiset_commutative(
                        head.map_values(|s: SongModel| s.id) + seq![c],
                        tail.map_values(|s: SongModel| s.id),
                    );
                    vstd::seq_lib::lemma_multiset_commutative(
                        head.map_values(|s: SongModel| s.id),
                        seq![c],
                    );
                    assert(seq![c] =~= Seq::<u64>::empty().push(c));
                    assert(seq![c].to_multiset() =~= Multiset::<u64>::empty().insert(c)) by {
                        assert(Seq::<u64>::empty().to_multiset().len() == 0);
                        assert(Seq::<u64>::empty().to_multiset() =~= Multiset::<u64>::empty());
                        assert(Seq::<u64>::empty().push(c).to_multiset()
                            =~= Seq::<u64>::empty().to_multiset().insert(c));
                    }
                    assert(out@.to_multiset() =~= ids_of(tail + head).to_multiset());
                    assert(ids_of(tail + head) =~= tail.map_values(|s: SongModel| s.id)
                        + head.map_values(|s: SongModel| s.id));
                    vstd::seq_lib::lemma_multiset_commutative(
                        tail.map_values(|s: SongModel| s.id),
                        head.map_values(|s: SongModel| s.id),
                    );
                    lemma_map_multiset(oms, scope_songs(lm, scope), |s: SongModel| s.id);
                    assert(oms.map_values(|s: SongModel| s.id) =~= ids_of(oms));
                    assert(scope_songs(lm, scope).map_values(|s: SongModel| s.id) =~= scope_song_ids(
                        lm,
                        scope,
                    ));
                }
                if !is_shuffled {
                    assert(exists|ord: Seq<SongModel>, kk: int|
                        {
                            &&& #[trigger] rotation_after(ord, kk) == out@
                            &&& ord.to_multiset() == scope_songs(lm, scope).to_multiset()
                            &&& sorted_desc(ord)
                            &&& 0 <= kk < ord.len()
                            &&& ord[kk].id == current_song_id
                        }) by {
                        assert(rotation_after(oms, ka) == out@);
                    }
                }
            }
            Ok(out)
        },
    }
}

/// No two songs of a sequence share an id.
pub open spec fn distinct_ids(s: Seq<SongModel>) -> bool {
    forall|i: int, j: int|
        0 <= i < j < s.len() ==> (#[trigger] s[i]).id != (#[trigger] s[j]).id
}

/// Filtering by scope keeps ids distinct, and every kept song is one of
/// the snapshot's.
pub proof fn lemma_scope_songs_distinct(l: LibraryModel, scope: PlayerScope, n: int)
    requires
        distinct_ids(l.songs),
        0 <= n <= l.songs.len(),
    ensures
        distinct_ids(scope_songs_upto(l, scope, n)),
        forall|p: int|
            0 <= p < scope_songs_upto(l, scope, n).len() ==> exists|u: int|
                0 <= u < n && l.songs[u] == #[trigger] scope_songs_upto(l, scope, n)[p],
    decreases n,
{
    reveal(Seq::filter);
    if n == 0 {
        assert(l.songs.subrange(0, 0) =~= Seq::<SongModel>::empty());
    } else {
        lemma_scope_songs_distinct(l, scope, n - 1);
        let prev = scope_songs_upto(l, scope, n - 1);
        let cur = scope_songs_upto(l, scope, n);
        let last = l.songs[n - 1];
        assert(l.songs.subrange(0, n).drop_last() =~= l.songs.subrange(0, n - 1));
        assert(l.songs.subrange(0, n).last() == last);
        if song_in_scope(l, last, scope) {
            assert(cur == prev.push(last));
            assert forall|p: int, q: int|
                0 <= p < q < cur.len() implies (#[trigger] cur[p]).id != (#[trigger] cur[q]).id by {
                if q < prev.len() {
                } else {
                    assert(cur[q] == last);
                    assert(cur[p] == prev[p]);
                    let u = choose|u: int| 0 <= u < n - 1 && l.songs[u] == prev[p];
                    assert(l.songs[u].id != l.songs[n - 1].id);
                }
            }
            assert forall|p: int| 0 <= p < cur.len() implies exists|u: int|
                0 <= u < n && l.songs[u] == #[trigger] cur[p] by {
                if p < prev.len() {
                    let u = choose|u: int| 0 <= u < n - 1 && l.songs[u] == prev[p];
                    assert(l.songs[u] == cur[p]);
                } else {
                    assert(l.songs[n - 1] == cur[p]);
                }
            }
        } else {
            assert(cur == prev);
            assert forall|p: int| 0 <= p < cur.len() implies exists|u: int|
                0 <= u < n && l.songs[u] == #[trigger] cur[p] by {
                let u = choose|u: int| 0 <= u < n - 1 && l.songs[u] == prev[p];
                assert(l.songs[u] == cur[p]);
            }
        }
    }
}

/// Law: a refill of the automatic queue holds every song id of the scope
/// except the current one exactly once, no other id, and never the
/// current id itself. Its premises are what `get_automatic_next_songs`
/// ensures of a successful call.
pub proof fn lemma_refill_covers_scope(
    l: LibraryModel,
    scope: PlayerScope,
    current: u64,
    ids: Seq<u64>,
)
    requires
        l.wf(),
        scope_song_ids(l, scope).contains(current),
        ids.to_multiset() == scope_song_ids(l, scope).to_multiset().remove(current),
    ensures
        !ids.contains(current),
        forall|id: u64|
            id != current ==> (ids.contains(id) <==> scope_song_ids(l, scope).contains(id)),
        forall|id: u64|
            id != current && scope_song_ids(l, scope).contains(id)
                ==> ids.to_multiset().count(id) == 1,
{
    broadcast use vstd::seq_lib::group_to_multiset_ensures;

    let sids = scope_song_ids(l, scope);
    lemma_scope_songs_distinct(l, scope, l.songs.len() as int);
    assert(sids.no_duplicates()) by {
        let ss = scope_songs(l, scope);
        assert forall|p: int, q: int|
            0 <= p < q < sids.len() implies sids[p] != sids[q] by {
            assert(ss[p].id != ss[q].id);
        }
    }
    sids.lemma_multiset_has_no_duplicates();
    assert(sids.to_multiset().count(current) == 1) by {
        assert(sids.to_multiset().contains(current));
    }
    assert(ids.to_multiset().count(current) == 0);
    assert(!ids.contains(current)) by {
        if ids.contains(current) {
            assert(ids.to_multiset().count(current) > 0);
        }
    }
    assert forall|id: u64|
        id != current implies (ids.contains(id) <==> sids.contains(id)) by {
        assert(ids.to_multiset().count(id) == sids.to_multiset().count(id));
    }
    assert forall|id: u64|
        id != current && sids.contains(id) implies ids.to_multiset().count(id) == 1 by {
        assert(sids.to_multiset().contains(id));
        assert(sids.to_multiset().count(id) == 1);
    }
}

} // verus!
