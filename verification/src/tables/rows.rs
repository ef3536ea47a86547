//! Row selection on the key column: the rows that carry a corporate number,
//! and among them the first row of each corporate number (keep-first
//! deduplication, stable in input order).

use vstd::prelude::*;

use std::collections::HashMap;

verus! {

broadcast use vstd::std_specs::hash::group_hash_axioms;

/// A key cell carries a key: it is neither null nor empty.
pub open spec fn key_present(v: Option<Seq<char>>) -> bool {
    v matches Some(s) && s.len() > 0
}

/// The positions, in increasing order, of the rows whose key is present.
pub open spec fn present_rows(keys: Seq<Option<Seq<char>>>) -> Seq<int>
    decreases keys.len(),
{
    if keys.len() == 0 {
        Seq::empty()
    } else {
        let p = present_rows(keys.drop_last());
        if key_present(keys.last()) {
            p.push(keys.len() - 1)
        } else {
            p
        }
    }
}

/// Row `i` carries a key that no earlier row carries.
pub open spec fn is_first_key(keys: Seq<Option<Seq<char>>>, i: int) -> bool {
    &&& key_present(keys[i])
    &&& forall|j: int| 0 <= j < i ==> #[trigger] keys[j] != keys[i]
}

/// The positions, in increasing order, of the first row of each key.
pub open spec fn first_rows(keys: Seq<Option<Seq<char>>>) -> Seq<int>
    decreases keys.len(),
{
    if keys.len() == 0 {
        Seq::empty()
    } else {
        let p = first_rows(keys.drop_last());
        if is_first_key(keys, keys.len() - 1) {
            p.push(keys.len() - 1)
        } else {
            p
        }
    }
}

/// The row positions as spec integers.
pub open spec fn positions(rows: Seq<usize>) -> Seq<int> {
    rows.map_values(|r: usize| r as int)
}

// ---------------------------------------------------------------------------
// Facts about the two selections

/// `present_rows` lists exactly the rows with a present key, in increasing order.
pub proof fn lemma_present_rows(keys: Seq<Option<Seq<char>>>)
    ensures
        present_rows(keys).len() <= keys.len(),
        forall|a: int|
            0 <= a < present_rows(keys).len() ==> {
                let r = #[trigger] present_rows(keys)[a];
                0 <= r < keys.len() && key_present(keys[r])
            },
        forall|a: int, b: int|
            0 <= a < b < present_rows(keys).len() ==> present_rows(keys)[a]
                < present_rows(keys)[b],
        forall|i: int|
            0 <= i < keys.len() && key_present(#[trigger] keys[i]) ==> present_rows(keys).contains(
                i,
            ),
    decreases keys.len(),
{
    if keys.len() > 0 {
        let init = keys.drop_last();
        lemma_present_rows(init);
        let p = present_rows(init);
        assert forall|i: int| 0 <= i < keys.len() && key_present(#[trigger] keys[i]) implies present_rows(
            keys,
        ).contains(i) by {
            if i < keys.len() - 1 {
                assert(init[i] == keys[i]);
                assert(p.contains(i));
                let a = choose|a: int| 0 <= a < p.len() && p[a] == i;
                assert(present_rows(keys)[a] == i);
            } else {
                assert(present_rows(keys)[p.len() as int] == i);
            }
        }
    }
}

/// `first_rows` lists, in increasing order, rows with a present key that no
/// earlier row carries, and every present key has such a row.
pub proof fn lemma_first_rows(keys: Seq<Option<Seq<char>>>)
    ensures
        first_rows(keys).len() <= keys.len(),
        forall|a: int|
            0 <= a < first_rows(keys).len() ==> {
                let r = #[trigger] first_rows(keys)[a];
                0 <= r < keys.len() && is_first_key(keys, r)
            },
        forall|a: int, b: int|
            0 <= a < b < first_rows(keys).len() ==> first_rows(keys)[a] < first_rows(keys)[b],
        forall|i: int|
            0 <= i < keys.len() && is_first_key(keys, i) ==> #[trigger] first_rows(keys).contains(
                i,
            ),
    decreases keys.len(),
{
    if keys.len() > 0 {
        let init = keys.drop_last();
        lemma_first_rows(init);
        let p = first_rows(init);
        assert forall|a: int| 0 <= a < first_rows(keys).len() implies {
            let r = #[trigger] first_rows(keys)[a];
            0 <= r < keys.len() && is_first_key(keys, r)
        } by {
            if a < p.len() {
                let r = p[a];
                assert(is_first_key(init, r));
                assert forall|j: int| 0 <= j < r implies #[trigger] keys[j] != keys[r] by {
                    assert(init[j] == keys[j]);
                }
            }
        }
        assert forall|i: int| 0 <= i < keys.len() && is_first_key(keys, i) implies #[trigger] first_rows(
            keys,
        ).contains(i) by {
            if i < keys.len() - 1 {
                assert forall|j: int| 0 <= j < i implies #[trigger] init[j] != init[i] by {
                    assert(init[j] == keys[j]);
                }
                assert(is_first_key(init, i));
                assert(p.contains(i));
                let a = choose|a: int| 0 <= a < p.len() && p[a] == i;
                assert(first_rows(keys)[a] == i);
            } else {
                assert(first_rows(keys)[p.len() as int] == i);
            }
        }
    }
}

/// Every row with a present key has, at or before it, a row that carries the
/// same key and that `first_rows` keeps.
pub proof fn lemma_first_row_of_key(keys: Seq<Option<Seq<char>>>, i: int)
    requires
        0 <= i < keys.len(),
        key_present(keys[i]),
    ensures
        exists|a: int|
            0 <= a < first_rows(keys).len() && #[trigger] first_rows(keys)[a] <= i && keys[first_rows(
                keys,
            )[a]] == keys[i],
    decreases i,
{
    lemma_first_rows(keys);
    if is_first_key(keys, i) {
        assert(first_rows(keys).contains(i));
        let a = choose|a: int| 0 <= a < first_rows(keys).len() && first_rows(keys)[a] == i;
        assert(first_rows(keys)[a] <= i);
    } else {
        let j = choose|j: int| 0 <= j < i && #[trigger] keys[j] == keys[i];
        lemma_first_row_of_key(keys, j);
    }
}

/// The kept rows are at most the present rows.
pub proof fn lemma_first_rows_len(keys: Seq<Option<Seq<char>>>)
    ensures
        first_rows(keys).len() <= present_rows(keys).len(),
    decreases keys.len(),
{
    if keys.len() > 0 {
        lemma_first_rows_len(keys.drop_last());
    }
}

/// Removing empty keys (mapping them to null) changes no selection.
pub proof fn lemma_present_rows_map(keys: Seq<Option<Seq<char>>>, f: spec_fn(Option<Seq<char>>) -> Option<Seq<char>>)
    requires
        forall|v: Option<Seq<char>>| key_present(v) ==> #[trigger] f(v) == v,
        forall|v: Option<Seq<char>>| !key_present(v) ==> !key_present(#[trigger] f(v)),
    ensures
        present_rows(keys.map_values(f)) == present_rows(keys),
    decreases keys.len(),
{
    if keys.len() > 0 {
        let m = keys.map_values(f);
        assert(m.drop_last() =~= keys.drop_last().map_values(f));
        lemma_present_rows_map(keys.drop_last(), f);
        assert(m.last() == f(keys.last()));
    }
}


/// Keep-first deduplication leaves each key at most once.
pub proof fn lemma_first_rows_distinct(keys: Seq<Option<Seq<char>>>)
    ensures
        forall|a: int, b: int|
            0 <= a < b < first_rows(keys).len() ==> keys[#[trigger] first_rows(keys)[a]]
                != keys[#[trigger] first_rows(keys)[b]],
{
    lemma_first_rows(keys);
    assert forall|a: int, b: int| 0 <= a < b < first_rows(keys).len() implies keys[#[trigger] first_rows(
        keys,
    )[a]] != keys[#[trigger] first_rows(keys)[b]] by {
        let rb = first_rows(keys)[b];
        assert(is_first_key(keys, rb));
        assert(first_rows(keys)[a] < rb);
    }
}

/// Deduplicating keys that are all present and pairwise distinct keeps
/// every row: deduplication is idempotent.
pub proof fn lemma_first_rows_idempotent(keys: Seq<Option<Seq<char>>>)
    requires
        forall|i: int| 0 <= i < keys.len() ==> key_present(#[trigger] keys[i]),
        forall|i: int, j: int| 0 <= i < j < keys.len() ==> #[trigger] keys[i] != #[trigger] keys[j],
    ensures
        first_rows(keys) == Seq::new(keys.len(), |i: int| i),
    decreases keys.len(),
{
    if keys.len() > 0 {
        let init = keys.drop_last();
        assert forall|i: int| 0 <= i < init.len() implies key_present(#[trigger] init[i]) by {
            assert(init[i] == keys[i]);
        }
        assert forall|i: int, j: int| 0 <= i < j < init.len() implies #[trigger] init[i]
            != #[trigger] init[j] by {
            assert(init[i] == keys[i] && init[j] == keys[j]);
        }
        lemma_first_rows_idempotent(init);
        assert forall|j: int| 0 <= j < keys.len() - 1 implies #[trigger] keys[j]
            != keys[keys.len() - 1] by {}
        assert(is_first_key(keys, keys.len() - 1));
        assert(first_rows(keys) =~= Seq::new(keys.len(), |i: int| i));
    }
}

// ---------------------------------------------------------------------------
// Executable selections

/// The rows whose key is neither null nor empty.
pub fn present_rows_exec(keys: &Vec<Option<String>>) -> (rows: Vec<usize>)
    ensures
        positions(rows@) == present_rows(keys.deep_view()),
{
    let ghost kv = keys.deep_view();
    let mut rows: Vec<usize> = Vec::new();
    let mut i: usize = 0;
    while i < keys.len()
        invariant
            i <= keys@.len(),
            kv == keys.deep_view(),
            positions(rows@) == present_rows(kv.take(i as int)),
        decreases keys@.len() - i,
    {
        assert(kv.take(i + 1).drop_last() =~= kv.take(i as int));
        assert(kv.take(i + 1).last() == kv[i as int]);
        let present = match &keys[i] {
            Some(s) => !s.as_str().is_empty(),
            None => false,
        };
        assert(present == key_present(kv[i as int]));
        if present {
            rows.push(i);
            assert(positions(rows@) =~= present_rows(kv.take(i as int)).push(i as int));
        }
        i = i + 1;
    }
    assert(kv.take(keys@.len() as int) =~= kv);
    rows
}

/// A deterministic hash of a byte string (31-polynomial, wrapping).
pub open spec fn bytes_hash(b: Seq<u8>) -> u64
    decreases b.len(),
{
    if b.len() == 0 {
        0
    } else {
        vstd::wrapping::u64_specs::wrapping_add(
            vstd::wrapping::u64_specs::wrapping_mul(bytes_hash(b.drop_last()), 31),
            b.last() as u64,
        )
    }
}

/// The bucket of a key text.
pub open spec fn key_hash(s: Seq<char>) -> u64 {
    bytes_hash(vstd::utf8::encode_utf8(s))
}

fn hash_key(s: &String) -> (h: u64)
    ensures
        h == key_hash(s@),
{
    let b = s.as_str().as_bytes();
    let ghost bv = b@;
    let mut h: u64 = 0;
    let mut i: usize = 0;
    while i < b.len()
        invariant
            i <= bv.len(),
            bv == b@,
            h == bytes_hash(bv.take(i as int)),
        decreases bv.len() - i,
    {
        assert(bv.take(i + 1).drop_last() =~= bv.take(i as int));
        h = h.wrapping_mul(31).wrapping_add(b[i] as u64);
        i = i + 1;
    }
    assert(bv.take(bv.len() as int) =~= bv);
    h
}

/// Every kept row sits in the bucket of its key's hash, and comes before `i`.
pub open spec fn buckets_sound(
    seen: Map<u64, Vec<usize>>,
    kv: Seq<Option<Seq<char>>>,
    i: int,
) -> bool {
    forall|h: u64, p: int|
        seen.contains_key(h) && 0 <= p < seen[h]@.len() ==> {
            let t = #[trigger] seen[h]@[p] as int;
            &&& 0 <= t < i
            &&& key_present(kv[t])
            &&& key_hash(kv[t]->Some_0) == h
        }
}

/// The bucket of the key `k` holds a row that carries `k`.
pub open spec fn has_rep(seen: Map<u64, Vec<usize>>, kv: Seq<Option<Seq<char>>>, k: Option<Seq<char>>) -> bool {
    let h = key_hash(k->Some_0);
    &&& seen.contains_key(h)
    &&& exists|p: int| 0 <= p < seen[h]@.len() && kv[#[trigger] seen[h]@[p] as int] == k
}

/// Every key present before row `i` has a row in its bucket.
pub open spec fn buckets_complete(
    seen: Map<u64, Vec<usize>>,
    kv: Seq<Option<Seq<char>>>,
    i: int,
) -> bool {
    forall|j: int| 0 <= j < i && key_present(#[trigger] kv[j]) ==> has_rep(seen, kv, kv[j])
}

/// The first row of each key, in input order (keep-first deduplication).
pub fn first_rows_exec(keys: &Vec<Option<String>>) -> (rows: Vec<usize>)
    ensures
        positions(rows@) == first_rows(keys.deep_view()),
{
    let ghost kv = keys.deep_view();
    let mut rows: Vec<usize> = Vec::new();
    // hash of a key -> the kept rows whose key has that hash
    let mut seen: HashMap<u64, Vec<usize>> = HashMap::new();
    let mut i: usize = 0;
    while i < keys.len()
        invariant
            i <= keys@.len(),
            kv == keys.deep_view(),
            kv.len() == keys@.len(),
            positions(rows@) == first_rows(kv.take(i as int)),
            buckets_sound(seen@, kv, i as int),
            buckets_complete(seen@, kv, i as int),
        decreases keys@.len() - i,
    {
        let ghost pre = kv.take(i as int);
        let ghost cur = kv.take(i + 1);
        assert(cur.drop_last() =~= pre);
        assert(cur.last() == kv[i as int]);
        assert(forall|j: int| 0 <= j <= i ==> cur[j] == #[trigger] kv[j]);
        let ghost old_seen = seen@;
        let mut keep = false;
        match &keys[i] {
            Some(s) => {
                if !s.as_str().is_empty() {
                    assert(kv[i as int] == Some(s@));
                    let h = hash_key(s);
                    let mut bucket: Vec<usize> = match seen.remove(&h) {
                        Some(b) => b,
                        None => Vec::new(),
                    };
                    let ghost old_bucket = bucket@;
                    assert(old_seen.contains_key(h) ==> old_bucket == old_seen[h]@);
                    assert(!old_seen.contains_key(h) ==> old_bucket.len() == 0);
                    let mut found = false;
                    let mut p: usize = 0;
                    while p < bucket.len() && !found
                        invariant
                            p <= bucket@.len(),
                            bucket@ == old_bucket,
                            i < keys@.len(),
                            kv == keys.deep_view(),
                            kv[i as int] == Some(s@),
                            old_seen.contains_key(h) ==> old_bucket == old_seen[h]@,
                            !old_seen.contains_key(h) ==> old_bucket.len() == 0,
                            buckets_sound(old_seen, kv, i as int),
                            found ==> exists|q: int|
                                0 <= q < old_bucket.len() && kv[#[trigger] old_bucket[q] as int]
                                    == kv[i as int],
                            !found ==> forall|q: int|
                                0 <= q < p ==> kv[#[trigger] old_bucket[q] as int] != kv[i as int],
                        decreases bucket@.len() - p + (if found { 0int } else { 1int }),
                    {
                        let t = bucket[p];
                        assert(old_bucket[p as int] == old_seen[h]@[p as int]);
                        assert(t < i);
                        let same = match &keys[t] {
                            Some(u) => u.eq(s),
                            None => false,
                        };
                        assert(same == (kv[t as int] == kv[i as int]));
                        if same {
                            found = true;
                        } else {
                            p = p + 1;
                        }
                    }
                    if !found {
                        bucket.push(i);
                        keep = true;
                        proof {
                            if exists|j: int| 0 <= j < i && #[trigger] kv[j] == kv[i as int] {
                                let j = choose|j: int| 0 <= j < i && #[trigger] kv[j] == kv[i as int];
                                assert(key_present(kv[j]));
                                assert(has_rep(old_seen, kv, kv[j]));
                                let q = choose|q: int|
                                    0 <= q < old_seen[h]@.len() && kv[#[trigger] old_seen[h]@[q] as int] == kv[j];
                                assert(old_bucket[q] == old_seen[h]@[q]);
                                assert(false);
                            }
                        }
                    }
                    let ghost new_bucket = bucket@;
                    seen.insert(h, bucket);
                    proof {
                        assert(seen@ == old_seen.remove(h).insert(h, bucket));
                        assert(forall|q: int| 0 <= q < old_bucket.len() ==> #[trigger] new_bucket[q] == old_bucket[q]);
                        assert forall|hh: u64, q: int|
                            seen@.contains_key(hh) && 0 <= q < seen@[hh]@.len() implies {
                                let t = #[trigger] seen@[hh]@[q] as int;
                                &&& 0 <= t < i + 1
                                &&& key_present(kv[t])
                                &&& key_hash(kv[t]->Some_0) == hh
                            } by {
                            if hh != h {
                                assert(old_seen[hh] == seen@[hh]);
                            } else if q < old_bucket.len() {
                                assert(old_seen[h]@[q] == seen@[hh]@[q]);
                            }
                        }
                        assert forall|j: int|
                            0 <= j < i + 1 && key_present(#[trigger] kv[j]) implies has_rep(seen@, kv, kv[j]) by {
                            let hj = key_hash(kv[j]->Some_0);
                            if j == i {
                                if found {
                                    let q = choose|q: int|
                                        0 <= q < old_bucket.len() && kv[#[trigger] old_bucket[q] as int] == kv[i as int];
                                    assert(seen@[h]@[q] == old_bucket[q]);
                                } else {
                                    assert(seen@[h]@[old_bucket.len() as int] == i);
                                }
                            } else {
                                assert(has_rep(old_seen, kv, kv[j]));
                                let q = choose|q: int|
                                    0 <= q < old_seen[hj]@.len() && kv[#[trigger] old_seen[hj]@[q] as int] == kv[j];
                                if hj != h {
                                    assert(seen@[hj] == old_seen[hj]);
                                } else {
                                    assert(old_bucket[q] == old_seen[h]@[q]);
                                    assert(seen@[h]@[q] == old_bucket[q]);
                                }
                            }
                        }
                    }
                }
            },
            None => {},
        }
        proof {
            if !keep {
                assert(seen@ == old_seen);
                if key_present(kv[i as int]) {
                    let j = choose|j: int| 0 <= j < i && #[trigger] kv[j] == kv[i as int];
                    assert(cur[j] == cur[i as int]);
                }
                assert(!is_first_key(cur, i as int));
            } else {
                assert(is_first_key(cur, i as int));
            }
        }
        if keep {
            rows.push(i);
            assert(positions(rows@) =~= first_rows(pre).push(i as int));
        }
        i = i + 1;
    }
    assert(kv.take(keys@.len() as int) =~= kv);
    rows
}

} // verus!
