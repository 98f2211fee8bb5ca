//! The hash tables of the build side, and how a key is looked up in them.
//!
//! One table is built for each partition of the build side. A table maps the
//! hash of a key to the chain of rows whose keys have that hash, in the
//! order of the rows. Once built, a table is only read.
use std::collections::HashMap;
use vstd::prelude::*;
use crate::join::model::{
    lemma_matching_rows_split, lemma_no_match_without_part, lemma_side_keys, matches_of,
    matching_rows, offset_of, participates, side_keys,
};
use crate::keys::JoinKey;
use crate::pool::par_map;
use crate::{IdxSize, IDX_MAX};

verus! {

/// The rows of `keys` in `lo..hi` that take part and whose key hashes to
/// `h`, in ascending order.
pub open spec fn hashed_rows<K: JoinKey>(
    keys: Seq<Option<K::Canon>>,
    h: u64,
    nulls_equal: bool,
    lo: int,
    hi: int,
) -> Seq<IdxSize>
    decreases hi - lo,
{
    if hi <= lo {
        Seq::empty()
    } else {
        let rest = hashed_rows::<K>(keys, h, nulls_equal, lo, hi - 1);
        if participates(keys[hi - 1], nulls_equal) && K::hash_of(keys[hi - 1]) == h {
            rest.push((hi - 1) as IdxSize)
        } else {
            rest
        }
    }
}

/// Every hashed row lies in the range, takes part and has the hash.
pub proof fn lemma_hashed_rows<K: JoinKey>(
    keys: Seq<Option<K::Canon>>,
    h: u64,
    nulls_equal: bool,
    lo: int,
    hi: int,
)
    requires
        0 <= lo <= hi <= keys.len() <= IDX_MAX,
    ensures
        hashed_rows::<K>(keys, h, nulls_equal, lo, hi).len() <= hi - lo,
        forall|t: int|
            0 <= t < hashed_rows::<K>(keys, h, nulls_equal, lo, hi).len() ==> {
                let r = #[trigger] hashed_rows::<K>(keys, h, nulls_equal, lo, hi)[t];
                lo <= r < hi && participates(keys[r as int], nulls_equal) && K::hash_of(
                    keys[r as int]) == h
            },
    decreases hi - lo,
{
    if hi > lo {
        lemma_hashed_rows::<K>(keys, h, nulls_equal, lo, hi - 1);
    }
}

/// Those of the first `c` rows of `chain` whose key equals `k`.
pub open spec fn narrow<C>(chain: Seq<IdxSize>, keys: Seq<Option<C>>, k: Option<C>, c: int) -> Seq<
    IdxSize,
>
    decreases c,
{
    if c <= 0 {
        Seq::empty()
    } else {
        let rest = narrow(chain, keys, k, c - 1);
        if keys[chain[c - 1] as int] == k {
            rest.push(chain[c - 1])
        } else {
            rest
        }
    }
}

/// Narrowing looks at the first `c` rows of the chain only.
pub proof fn lemma_narrow_prefix<C>(
    chain: Seq<IdxSize>,
    longer: Seq<IdxSize>,
    keys: Seq<Option<C>>,
    k: Option<C>,
    c: int,
)
    requires
        0 <= c <= chain.len() <= longer.len(),
        forall|t: int| 0 <= t < chain.len() ==> chain[t] == longer[t],
    ensures
        narrow(chain, keys, k, c) == narrow(longer, keys, k, c),
    decreases c,
{
    if c > 0 {
        lemma_narrow_prefix(chain, longer, keys, k, c - 1);
    }
}

/// Among the rows that share the hash of `k`, those whose key equals `k`
/// are the rows that correspond to `k`.
pub proof fn lemma_narrow_hashed<K: JoinKey>(
    keys: Seq<Option<K::Canon>>,
    k: Option<K::Canon>,
    nulls_equal: bool,
    lo: int,
    hi: int,
)
    requires
        0 <= lo <= hi <= keys.len() <= IDX_MAX,
        participates(k, nulls_equal),
    ensures
        ({
            let chain = hashed_rows::<K>(keys, K::hash_of(k), nulls_equal, lo, hi);
            narrow(chain, keys, k, chain.len() as int) == matching_rows(
                keys,
                k,
                nulls_equal,
                lo,
                hi,
            )
        }),
    decreases hi - lo,
{
    if hi > lo {
        let h = K::hash_of(k);
        lemma_narrow_hashed::<K>(keys, k, nulls_equal, lo, hi - 1);
        let before = hashed_rows::<K>(keys, h, nulls_equal, lo, hi - 1);
        let chain = hashed_rows::<K>(keys, h, nulls_equal, lo, hi);
        lemma_narrow_prefix(before, chain, keys, k, before.len() as int);
    }
}

/// The hash table of one partition.
#[derive(Debug)]
pub struct HashTable {
    map: HashMap<u64, Vec<IdxSize>>,
}

impl HashTable {
    /// The rows that the table holds under the hash `h`.
    pub closed spec fn chain(&self, h: u64) -> Seq<IdxSize> {
        if self.map@.contains_key(h) {
            self.map@[h]@
        } else {
            Seq::empty()
        }
    }

    /// Whether the table holds the rows `lo..hi` of `keys`: under every
    /// hash, the rows of the range that take part and have that hash, in
    /// ascending order.
    pub open spec fn holds<K: JoinKey>(
        &self,
        keys: Seq<Option<K::Canon>>,
        nulls_equal: bool,
        lo: int,
        hi: int,
    ) -> bool {
        forall|h: u64| #[trigger] self.chain(h) == hashed_rows::<K>(keys, h, nulls_equal, lo, hi)
    }

    /// A table without rows.
    pub fn new() -> (t: HashTable)
        ensures
            forall|h: u64| #[trigger] t.chain(h) == Seq::<IdxSize>::empty(),
    {
        HashTable { map: HashMap::new() }
    }

    /// Adds `row` to the end of the chain of `h`.
    pub fn insert(&mut self, h: u64, row: IdxSize)
        ensures
            final(self).chain(h) == old(self).chain(h).push(row),
            forall|g: u64| g != h ==> #[trigger] final(self).chain(g) == old(self).chain(g),
    {
        broadcast use vstd::std_specs::hash::group_hash_axioms;

        let mut chain: Vec<IdxSize> = match self.map.remove(&h) {
            Some(c) => c,
            None => Vec::new(),
        };
        chain.push(row);
        self.map.insert(h, chain);
    }

    /// The chain of `h`, where the table has one.
    pub fn get(&self, h: u64) -> (c: Option<&Vec<IdxSize>>)
        ensures
            match c {
                Some(v) => v@ == self.chain(h),
                None => self.chain(h) == Seq::<IdxSize>::empty(),
            },
    {
        broadcast use vstd::std_specs::hash::group_hash_axioms;

        self.map.get(&h)
    }
}

/// Whether `tables` are the tables of the partitions `parts`, one each.
pub open spec fn tables_hold<K: JoinKey>(
    tables: Seq<HashTable>,
    parts: Seq<&[K]>,
    nulls_equal: bool,
) -> bool {
    &&& tables.len() == parts.len()
    &&& forall|p: int|
        0 <= p < tables.len() ==> (#[trigger] tables[p]).holds::<K>(
            side_keys(parts),
            nulls_equal,
            offset_of(parts, p),
            offset_of(parts, p + 1),
        )
}

/// Builds the hash table of partition `p`, whose first row is row `offset`
/// of the side. Rows that do not take part are left out.
pub fn build_table<K: JoinKey>(
    parts: &Vec<&[K]>,
    p: usize,
    offset: usize,
    nulls_equal: bool,
) -> (table: HashTable)
    requires
        p < parts@.len(),
        offset == offset_of(parts@, p as int),
        side_keys(parts@).len() <= IDX_MAX,
    ensures
        table.holds::<K>(
            side_keys(parts@),
            nulls_equal,
            offset_of(parts@, p as int),
            offset_of(parts@, p + 1),
        ),
{
    let part: &[K] = parts[p];
    let ghost keys = side_keys(parts@);
    proof {
        lemma_side_keys(parts@, p as int);
    }
    let mut table = HashTable::new();
    let mut i: usize = 0;
    while i < part.len()
        invariant
            i <= part@.len(),
            part@ == parts@[p as int]@,
            keys == side_keys(parts@),
            offset == offset_of(parts@, p as int),
            offset + part@.len() <= keys.len() <= IDX_MAX,
            forall|j: int| 0 <= j < part@.len() ==> #[trigger] keys[offset + j] == part@[j].canon(),
            forall|h: u64| #[trigger]
                table.chain(h) == hashed_rows::<K>(keys, h, nulls_equal, offset as int, offset + i),
        decreases part.len() - i,
    {
        let key = &part[i];
        assert(keys[offset + i] == part@[i as int].canon());
        if nulls_equal || !key.is_null() {
            let h = key.dirty_hash();
            table.insert(h, (offset + i) as IdxSize);
        }
        i += 1;
    }
    table
}

/// The rows at which the partitions of a side begin.
pub fn part_offsets<K: JoinKey>(parts: &Vec<&[K]>) -> (offsets: Vec<usize>)
    requires
        side_keys(parts@).len() <= IDX_MAX,
    ensures
        offsets@.len() == parts@.len(),
        forall|p: int| 0 <= p < offsets@.len() ==> #[trigger] offsets@[p] == offset_of(parts@, p),
{
    let mut offsets: Vec<usize> = Vec::with_capacity(parts.len());
    let mut offset: usize = 0;
    let mut p: usize = 0;
    while p < parts.len()
        invariant
            p <= parts@.len(),
            side_keys(parts@).len() <= IDX_MAX,
            offset == offset_of(parts@, p as int),
            offsets@.len() == p,
            forall|q: int| 0 <= q < p ==> #[trigger] offsets@[q] == offset_of(parts@, q),
        decreases parts.len() - p,
    {
        proof {
            lemma_side_keys(parts@, p as int);
        }
        offsets.push(offset);
        offset = offset + parts[p].len();
        p += 1;
    }
    offsets
}

/// Builds the hash tables of a side, one for each partition, each on a
/// worker of the pool.
pub fn build_tables<K: JoinKey>(parts: &Vec<&[K]>, nulls_equal: bool) -> (tables: Vec<
    HashTable,
>)
    requires
        side_keys(parts@).len() <= IDX_MAX,
    ensures
        tables_hold(tables@, parts@, nulls_equal),
{
    let offsets = part_offsets(parts);
    let build = |p: usize| -> (table: HashTable)
        requires
            p < parts@.len(),
        ensures
            table.holds::<K>(
                side_keys(parts@),
                nulls_equal,
                offset_of(parts@, p as int),
                offset_of(parts@, p + 1),
            ),
        { build_table(parts, p, offsets[p], nulls_equal) };
    par_map(parts.len(), build)
}

/// Appends to `out` those of the first `n` rows of partition `p` that
/// correspond to `k`. The table holds these `n` rows; `offset` is the row of
/// the side at which the partition begins.
pub fn probe_table<K: JoinKey>(
    table: &HashTable,
    parts: &Vec<&[K]>,
    p: usize,
    offset: usize,
    n: usize,
    k: &K,
    nulls_equal: bool,
    out: &mut Vec<IdxSize>,
)
    requires
        p < parts@.len(),
        offset == offset_of(parts@, p as int),
        n <= parts@[p as int]@.len(),
        side_keys(parts@).len() <= IDX_MAX,
        participates(k.canon(), nulls_equal),
        table.holds::<K>(side_keys(parts@), nulls_equal, offset as int, offset + n),
    ensures
        final(out)@ == old(out)@ + matching_rows(
            side_keys(parts@),
            k.canon(),
            nulls_equal,
            offset as int,
            offset + n,
        ),
{
    let part: &[K] = parts[p];
    let ghost keys = side_keys(parts@);
    let ghost lo = offset as int;
    let ghost hi = offset + n;
    let ghost before = out@;
    let h = k.dirty_hash();
    proof {
        lemma_side_keys(parts@, p as int);
        lemma_narrow_hashed::<K>(keys, k.canon(), nulls_equal, lo, hi);
        lemma_hashed_rows::<K>(keys, h, nulls_equal, lo, hi);
        assert(table.chain(h) == hashed_rows::<K>(keys, h, nulls_equal, lo, hi));
    }
    match table.get(h) {
        Some(chain) => {
            let mut c: usize = 0;
            while c < chain.len()
                invariant
                    c <= chain@.len(),
                    part@ == parts@[p as int]@,
                    keys == side_keys(parts@),
                    lo == offset,
                    lo <= hi <= lo + part@.len(),
                    chain@ == hashed_rows::<K>(keys, h, nulls_equal, lo, hi),
                    forall|t: int|
                        0 <= t < chain@.len() ==> lo <= (#[trigger] chain@[t]) < hi,
                    forall|j: int| 0 <= j < part@.len() ==> #[trigger] keys[lo + j]
                        == part@[j].canon(),
                    out@ == before + narrow(chain@, keys, k.canon(), c as int),
                decreases chain.len() - c,
            {
                let row = chain[c];
                let key = &part[row as usize - offset];
                assert(keys[lo + (row - offset)] == part@[row - offset].canon());
                if k.tot_eq(key) {
                    out.push(row);
                }
                c += 1;
                assert(out@ =~= before + narrow(chain@, keys, k.canon(), c as int));
            }
        },
        None => {
            assert(out@ =~= before + narrow(Seq::<IdxSize>::empty(), keys, k.canon(), 0));
        },
    }
}

/// Appends to `out` the rows of the partitions that `tables` cover which
/// correspond to `k`, in ascending order. The tables are those of the first
/// partitions of the side, one each.
pub fn probe_tables<K: JoinKey>(
    tables: &Vec<HashTable>,
    parts: &Vec<&[K]>,
    k: &K,
    nulls_equal: bool,
    out: &mut Vec<IdxSize>,
)
    requires
        tables@.len() <= parts@.len(),
        forall|p: int|
            0 <= p < tables@.len() ==> (#[trigger] tables@[p]).holds::<K>(
                side_keys(parts@),
                nulls_equal,
                offset_of(parts@, p),
                offset_of(parts@, p + 1),
            ),
        side_keys(parts@).len() <= IDX_MAX,
        participates(k.canon(), nulls_equal),
    ensures
        final(out)@ == old(out)@ + matching_rows(
            side_keys(parts@),
            k.canon(),
            nulls_equal,
            0,
            offset_of(parts@, tables@.len() as int),
        ),
{
    let ghost keys = side_keys(parts@);
    let ghost before = out@;
    let mut offset: usize = 0;
    let mut p: usize = 0;
    while p < tables.len()
        invariant
            p <= tables@.len() <= parts@.len(),
            forall|p: int|
                0 <= p < tables@.len() ==> (#[trigger] tables@[p]).holds::<K>(
                    side_keys(parts@),
                    nulls_equal,
                    offset_of(parts@, p),
                    offset_of(parts@, p + 1),
                ),
            keys == side_keys(parts@),
            keys.len() <= IDX_MAX,
            participates(k.canon(), nulls_equal),
            offset == offset_of(parts@, p as int),
            out@ == before + matching_rows(keys, k.canon(), nulls_equal, 0, offset as int),
        decreases tables.len() - p,
    {
        proof {
            lemma_side_keys(parts@, p as int);
            lemma_matching_rows_split(
                keys,
                k.canon(),
                nulls_equal,
                0,
                offset as int,
                offset_of(parts@, p + 1),
            );
        }
        probe_table(&tables[p], parts, p, offset, parts[p].len(), k, nulls_equal, out);
        offset = offset + parts[p].len();
        p += 1;
        assert(out@ =~= before + matching_rows(keys, k.canon(), nulls_equal, 0, offset as int));
    }
}

/// Collects in `out` all the rows of the build side that correspond to `k`,
/// in ascending order. What `out` held before is dropped.
pub fn probe_key<K: JoinKey>(
    tables: &Vec<HashTable>,
    parts: &Vec<&[K]>,
    k: &K,
    nulls_equal: bool,
    out: &mut Vec<IdxSize>,
)
    requires
        tables_hold(tables@, parts@, nulls_equal),
        side_keys(parts@).len() <= IDX_MAX,
    ensures
        final(out)@ == matches_of(side_keys(parts@), k.canon(), nulls_equal),
{
    out.clear();
    let ghost keys = side_keys(parts@);
    if !nulls_equal && k.is_null() {
        proof {
            lemma_no_match_without_part(keys, k.canon(), nulls_equal, 0, keys.len() as int);
        }
        return;
    }
    proof {
        if parts@.len() > 0 {
            lemma_side_keys(parts@, 0);
        }
    }
    probe_tables(tables, parts, k, nulls_equal, out);
    assert(out@ =~= matches_of(keys, k.canon(), nulls_equal));
}

/// As more of the chain is looked at, no fewer rows are found.
pub proof fn lemma_narrow_grows<C>(
    chain: Seq<IdxSize>,
    keys: Seq<Option<C>>,
    k: Option<C>,
    c: int,
    d: int,
)
    requires
        c <= d,
    ensures
        narrow(chain, keys, k, c).len() <= narrow(chain, keys, k, d).len(),
    decreases d - c,
{
    if c < d {
        lemma_narrow_grows(chain, keys, k, c, d - 1);
    }
}

/// Whether some row of the build side corresponds to `k`. The search ends
/// with the first such row that is found.
pub fn has_match<K: JoinKey>(
    tables: &Vec<HashTable>,
    parts: &Vec<&[K]>,
    k: &K,
    nulls_equal: bool,
) -> (found: bool)
    requires
        tables_hold(tables@, parts@, nulls_equal),
        side_keys(parts@).len() <= IDX_MAX,
    ensures
        found == (matches_of(side_keys(parts@), k.canon(), nulls_equal).len() > 0),
{
    let ghost keys = side_keys(parts@);
    let ghost total = keys.len() as int;
    if !nulls_equal && k.is_null() {
        proof {
            lemma_no_match_without_part(keys, k.canon(), nulls_equal, 0, total);
        }
        return false;
    }
    let h = k.dirty_hash();
    let mut offset: usize = 0;
    let mut p: usize = 0;
    while p < tables.len()
        invariant
            p <= tables@.len(),
            tables_hold(tables@, parts@, nulls_equal),
            keys == side_keys(parts@),
            total == keys.len() <= IDX_MAX,
            participates(k.canon(), nulls_equal),
            h == K::hash_of(k.canon()),
            offset == offset_of(parts@, p as int),
            matching_rows(keys, k.canon(), nulls_equal, 0, offset as int).len() == 0,
        decreases tables.len() - p,
    {
        let part: &[K] = parts[p];
        let ghost lo = offset as int;
        let ghost hi = offset + part@.len();
        proof {
            lemma_side_keys(parts@, p as int);
            lemma_narrow_hashed::<K>(keys, k.canon(), nulls_equal, lo, hi);
            lemma_hashed_rows::<K>(keys, h, nulls_equal, lo, hi);
            lemma_matching_rows_split(keys, k.canon(), nulls_equal, 0, lo, hi);
            lemma_matching_rows_split(keys, k.canon(), nulls_equal, 0, hi, total);
            assert(tables@[p as int].chain(h) == hashed_rows::<K>(keys, h, nulls_equal, lo, hi));
        }
        match tables[p].get(h) {
            Some(chain) => {
                let mut c: usize = 0;
                while c < chain.len()
                    invariant
                        c <= chain@.len(),
                        p < parts@.len(),
                        part@ == parts@[p as int]@,
                        keys == side_keys(parts@),
                        total == keys.len(),
                        0 <= lo == offset,
                        hi == lo + part@.len() <= total,
                        forall|t: int| 0 <= t < chain@.len() ==> lo <= (#[trigger] chain@[t]) < hi,
                        forall|j: int|
                            0 <= j < part@.len() ==> #[trigger] keys[lo + j] == part@[j].canon(),
                        narrow(chain@, keys, k.canon(), c as int).len() == 0,
                        narrow(chain@, keys, k.canon(), chain@.len() as int) == matching_rows(
                            keys,
                            k.canon(),
                            nulls_equal,
                            lo,
                            hi,
                        ),
                        matching_rows(keys, k.canon(), nulls_equal, 0, total)
                            == matching_rows(keys, k.canon(), nulls_equal, 0, hi) + matching_rows(
                            keys,
                            k.canon(),
                            nulls_equal,
                            hi,
                            total,
                        ),
                        matching_rows(keys, k.canon(), nulls_equal, 0, hi) == matching_rows(
                            keys,
                            k.canon(),
                            nulls_equal,
                            0,
                            lo,
                        ) + matching_rows(keys, k.canon(), nulls_equal, lo, hi),
                    decreases chain.len() - c,
                {
                    let row = chain[c];
                    let key = &part[row as usize - offset];
                    assert(keys[lo + (row - offset)] == part@[row - offset].canon());
                    if k.tot_eq(key) {
                        proof {
                            assert(narrow(chain@, keys, k.canon(), c + 1).len() > 0);
                            lemma_narrow_grows(
                                chain@,
                                keys,
                                k.canon(),
                                c + 1,
                                chain@.len() as int,
                            );
                        }
                        return true;
                    }
                    c += 1;
                }
            },
            None => {
                assert(narrow(Seq::<IdxSize>::empty(), keys, k.canon(), 0).len() == 0);
            },
        }
        offset = offset + part.len();
        p += 1;
    }
    proof {
        if parts@.len() > 0 {
            lemma_side_keys(parts@, 0);
        }
    }
    false
}

} // verus!
