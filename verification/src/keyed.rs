use vstd::prelude::*;

verus! {

/// The value of the first of `entries` whose key meets `wanted`.
pub open spec fn first_where<T>(
    entries: Seq<(Seq<char>, T)>,
    wanted: spec_fn(Seq<char>) -> bool,
) -> Option<T>
    decreases entries.len(),
{
    if entries.len() == 0 {
        None
    } else if wanted(entries[0].0) {
        Some(entries[0].1)
    } else {
        first_where(entries.drop_first(), wanted)
    }
}

/// Entries at the front whose keys do not meet `wanted` change nothing in what `first_where` finds.
pub proof fn lemma_first_where_skips<T>(
    entries: Seq<(Seq<char>, T)>,
    wanted: spec_fn(Seq<char>) -> bool,
    i: int,
)
    requires
        0 <= i <= entries.len(),
        forall|k: int| 0 <= k < i ==> !wanted((#[trigger] entries[k]).0),
    ensures
        first_where(entries, wanted) == first_where(entries.skip(i), wanted),
        i < entries.len() && wanted(entries[i].0) ==> first_where(entries, wanted) == Some(
            entries[i].1,
        ),
        i == entries.len() ==> first_where(entries, wanted) is None,
    decreases i,
{
    if i == 0 {
        assert(entries.skip(0) == entries);
    } else {
        assert(!wanted(entries[0].0));
        let rest = entries.drop_first();
        assert forall|k: int| 0 <= k < i - 1 implies !wanted((#[trigger] rest[k]).0) by {
            assert(rest[k] == entries[k + 1]);
        }
        lemma_first_where_skips(rest, wanted, i - 1);
        assert(rest.skip(i - 1) == entries.skip(i));
        if i < entries.len() {
            assert(rest[i - 1] == entries[i]);
        }
    }
}

/// The test that a key is `key`.
pub open spec fn is_key(key: Seq<char>) -> spec_fn(Seq<char>) -> bool {
    |k: Seq<char>| k == key
}

/// The test that a key begins with `prefix`.
pub open spec fn begins_with(prefix: Seq<char>) -> spec_fn(Seq<char>) -> bool {
    |k: Seq<char>| prefix.is_prefix_of(k)
}

} // verus!
