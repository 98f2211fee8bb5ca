//! The validator: the declared cardinality of a join, and the check that the
//! keys keep it.
use vstd::prelude::*;
use crate::error::{JoinError, JoinSide};
use crate::join::model::{
    duplicate_upto, first_duplicate, key_match, keys_unique, lemma_matching_rows,
    lemma_matching_rows_split, lemma_no_match_without_part, lemma_side_keys, matching_rows,
    offset_of, precheck, side_keys,
};
use crate::join::table::{HashTable, probe_table, probe_tables};
use crate::keys::JoinKey;
use crate::{IdxSize, IDX_MAX};

verus! {

/// How many rows of the one side a row of the other may correspond to. The
/// first word speaks of the left side, the second of the right: in a
/// one-to-many join every key occurs at most once on the left.
#[derive(Clone, Copy, Debug, PartialEq, Eq, Structural)]
pub enum JoinValidation {
    /// Nothing is checked.
    ManyToMany,
    /// The keys of the right side are unique.
    ManyToOne,
    /// The keys of the left side are unique.
    OneToMany,
    /// The keys of both sides are unique.
    OneToOne,
}

impl JoinValidation {
    pub open spec fn spec_needs_checks(&self) -> bool {
        *self != JoinValidation::ManyToMany
    }

    /// Whether anything is to be checked.
    #[verifier::when_used_as_spec(spec_needs_checks)]
    pub fn needs_checks(&self) -> (b: bool)
        ensures
            b == self.spec_needs_checks(),
    {
        match self {
            JoinValidation::ManyToMany => false,
            _ => true,
        }
    }

    pub open spec fn spec_swap(self, swap: bool) -> JoinValidation {
        match self {
            JoinValidation::ManyToOne if swap => JoinValidation::OneToMany,
            JoinValidation::OneToMany if swap => JoinValidation::ManyToOne,
            _ => self,
        }
    }

    /// The same contract, seen from the other side if `swap` is set.
    #[verifier::when_used_as_spec(spec_swap)]
    pub fn swap(self, swap: bool) -> (v: JoinValidation)
        ensures
            v == self.spec_swap(swap),
    {
        match self {
            JoinValidation::ManyToOne if swap => JoinValidation::OneToMany,
            JoinValidation::OneToMany if swap => JoinValidation::ManyToOne,
            _ => self,
        }
    }

    pub open spec fn spec_left_unique(self) -> bool {
        self == JoinValidation::OneToMany || self == JoinValidation::OneToOne
    }

    /// Whether the keys of the left side must be unique.
    #[verifier::when_used_as_spec(spec_left_unique)]
    pub fn left_unique(self) -> (b: bool)
        ensures
            b == self.spec_left_unique(),
    {
        match self {
            JoinValidation::OneToMany | JoinValidation::OneToOne => true,
            _ => false,
        }
    }

    pub open spec fn spec_right_unique(self) -> bool {
        self == JoinValidation::ManyToOne || self == JoinValidation::OneToOne
    }

    /// Whether the keys of the right side must be unique.
    #[verifier::when_used_as_spec(spec_right_unique)]
    pub fn right_unique(self) -> (b: bool)
        ensures
            b == self.spec_right_unique(),
    {
        match self {
            JoinValidation::ManyToOne | JoinValidation::OneToOne => true,
            _ => false,
        }
    }
}

/// There is a first duplicate exactly where the keys are not unique, and it
/// is a pair of distinct rows with corresponding keys.
pub proof fn lemma_duplicate_upto<C>(keys: Seq<Option<C>>, nulls_equal: bool, n: int)
    requires
        0 <= n <= keys.len() <= IDX_MAX,
    ensures
        duplicate_upto(keys, nulls_equal, n) is None <==> keys_unique(
            keys.take(n),
            nulls_equal,
        ),
        duplicate_upto(keys, nulls_equal, n) matches Some((a, b)) ==> a < b < n && key_match(
            keys[a as int],
            keys[b as int],
            nulls_equal,
        ),
    decreases n,
{
    if n > 0 {
        lemma_duplicate_upto(keys, nulls_equal, n - 1);
        let k = keys[n - 1];
        let earlier = matching_rows(keys, k, nulls_equal, 0, n - 1);
        lemma_matching_rows(keys, k, nulls_equal, 0, n - 1);
        if duplicate_upto(keys, nulls_equal, n - 1) is Some {
            let i = choose|i: int, j: int|
                0 <= i < j < n - 1 && key_match(
                    #[trigger] keys.take(n - 1)[i],
                    #[trigger] keys.take(n - 1)[j],
                    nulls_equal,
                );
            assert(key_match(keys.take(n)[i.0], keys.take(n)[i.1], nulls_equal));
        } else if earlier.len() > 0 {
            let a = earlier[0];
            assert(key_match(k, keys[a as int], nulls_equal));
            assert(key_match(keys.take(n)[a as int], keys.take(n)[n - 1], nulls_equal));
        } else {
            assert forall|i: int, j: int| 0 <= i < j < n implies !key_match(
                #[trigger] keys.take(n)[i],
                #[trigger] keys.take(n)[j],
                nulls_equal,
            ) by {
                if j < n - 1 {
                    assert(!key_match(keys.take(n - 1)[i], keys.take(n - 1)[j], nulls_equal));
                } else if key_match(keys[i], keys[j], nulls_equal) {
                    assert(earlier.contains(i as IdxSize));
                }
            }
        }
    }
}

/// Looks for two rows of a side that hold corresponding keys. Returns the
/// earliest row that repeats a key, with the first row that held it.
pub fn find_duplicate<K: JoinKey>(parts: &Vec<&[K]>, nulls_equal: bool) -> (d: Option<
    (IdxSize, IdxSize),
>)
    requires
        side_keys(parts@).len() <= IDX_MAX,
    ensures
        d == first_duplicate(side_keys(parts@), nulls_equal),
{
    let ghost keys = side_keys(parts@);
    let mut tables: Vec<HashTable> = Vec::new();
    let mut matches: Vec<IdxSize> = Vec::new();
    let mut offset: usize = 0;
    let mut p: usize = 0;
    while p < parts.len()
        invariant
            p <= parts@.len(),
            keys == side_keys(parts@),
            keys.len() <= IDX_MAX,
            offset == offset_of(parts@, p as int),
            tables@.len() == p,
            forall|q: int|
                0 <= q < p ==> (#[trigger] tables@[q]).holds::<K>(
                    keys,
                    nulls_equal,
                    offset_of(parts@, q),
                    offset_of(parts@, q + 1),
                ),
            duplicate_upto(keys, nulls_equal, offset as int) is None,
        decreases parts.len() - p,
    {
        let part: &[K] = parts[p];
        proof {
            lemma_side_keys(parts@, p as int);
        }
        let mut table = HashTable::new();
        let mut i: usize = 0;
        while i < part.len()
            invariant
                i <= part@.len(),
                p < parts@.len(),
                part@ == parts@[p as int]@,
                keys == side_keys(parts@),
                offset == offset_of(parts@, p as int),
                offset + part@.len() <= keys.len() <= IDX_MAX,
                forall|j: int| 0 <= j < part@.len() ==> #[trigger] keys[offset + j]
                    == part@[j].canon(),
                tables@.len() == p,
                forall|q: int|
                    0 <= q < p ==> (#[trigger] tables@[q]).holds::<K>(
                        keys,
                        nulls_equal,
                        offset_of(parts@, q),
                        offset_of(parts@, q + 1),
                    ),
                table.holds::<K>(keys, nulls_equal, offset as int, offset + i),
                duplicate_upto(keys, nulls_equal, offset + i) is None,
            decreases part.len() - i,
        {
            let key = &part[i];
            assert(keys[offset + i] == part@[i as int].canon());
            if nulls_equal || !key.is_null() {
                matches.clear();
                probe_tables(&tables, parts, key, nulls_equal, &mut matches);
                probe_table(&table, parts, p, offset, i, key, nulls_equal, &mut matches);
                proof {
                    lemma_matching_rows_split(
                        keys,
                        key.canon(),
                        nulls_equal,
                        0,
                        offset as int,
                        offset + i,
                    );
                    assert(matches@ =~= matching_rows(keys, key.canon(), nulls_equal, 0,
                        offset + i));
                }
                if matches.len() > 0 {
                    let found = Some((matches[0], (offset + i) as IdxSize));
                    proof {
                        lemma_duplicate_found(keys, nulls_equal, offset + i + 1);
                    }
                    return found;
                }
                table.insert(key.dirty_hash(), (offset + i) as IdxSize);
            } else {
                proof {
                    lemma_no_match_without_part(keys, key.canon(), nulls_equal, 0, offset + i);
                }
            }
            i += 1;
        }
        tables.push(table);
        offset = offset + part.len();
        p += 1;
    }
    proof {
        if parts@.len() > 0 {
            lemma_side_keys(parts@, 0);
        }
    }
    None
}

/// A duplicate among the first `n` rows is the first duplicate of them all.
pub proof fn lemma_duplicate_found<C>(keys: Seq<Option<C>>, nulls_equal: bool, n: int)
    requires
        0 <= n <= keys.len(),
        duplicate_upto(keys, nulls_equal, n) is Some,
    ensures
        first_duplicate(keys, nulls_equal) == duplicate_upto(keys, nulls_equal, n),
    decreases keys.len() - n,
{
    if n < keys.len() {
        lemma_duplicate_found(keys, nulls_equal, n + 1);
    }
}

/// The number of rows of a side, or `None` if there are more than an index
/// can address.
pub fn side_len<K: JoinKey>(parts: &Vec<&[K]>) -> (n: Option<usize>)
    ensures
        n is Some <==> side_keys(parts@).len() <= IDX_MAX,
        n matches Some(t) ==> t == side_keys(parts@).len(),
{
    let mut total: usize = 0;
    let mut p: usize = 0;
    while p < parts.len()
        invariant
            p <= parts@.len(),
            total == offset_of(parts@, p as int),
            total <= IDX_MAX,
        decreases parts.len() - p,
    {
        let len = parts[p].len();
        proof {
            lemma_side_keys(parts@, p as int);
        }
        if len > IDX_MAX - total {
            return None;
        }
        total = total + len;
        p += 1;
    }
    proof {
        if parts@.len() > 0 {
            lemma_side_keys(parts@, 0);
        }
    }
    Some(total)
}

/// Checks the two sides before a join probes: their sizes, and the
/// declared cardinality.
pub fn check_sides<K: JoinKey>(
    probe: &Vec<&[K]>,
    build: &Vec<&[K]>,
    swapped: bool,
    validate: JoinValidation,
    nulls_equal: bool,
) -> (r: Result<(), JoinError>)
    ensures
        match r {
            Ok(_) => precheck(side_keys(probe@), side_keys(build@), swapped, validate,
                nulls_equal) is None,
            Err(e) => precheck(side_keys(probe@), side_keys(build@), swapped, validate, nulls_equal)
                == Some(e),
        },
{
    if side_len(probe).is_none() || side_len(build).is_none() {
        return Err(JoinError::IndexOverflow);
    }
    let seen = validate.swap(swapped);
    if seen.left_unique() {
        match find_duplicate(probe, nulls_equal) {
            Some((first, second)) => {
                let side = if swapped {
                    JoinSide::Right
                } else {
                    JoinSide::Left
                };
                return Err(
                    JoinError::ValidationError { validation: validate, side, first, second },
                );
            },
            None => {},
        }
    }
    if seen.right_unique() {
        match find_duplicate(build, nulls_equal) {
            Some((first, second)) => {
                let side = if swapped {
                    JoinSide::Left
                } else {
                    JoinSide::Right
                };
                return Err(
                    JoinError::ValidationError { validation: validate, side, first, second },
                );
            },
            None => {},
        }
    }
    Ok(())
}

} // verus!
