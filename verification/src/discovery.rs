use vstd::prelude::*;
use vstd::string::*;

verus! {

/// Whether a directory entry of this name is a plugin library on a platform
/// whose dynamic libraries carry `extension`: the name is a stem that is not
/// empty, a dot, and the extension, letter for letter.
pub open spec fn plugin_file(name: Seq<char>, extension: Seq<char>) -> bool {
    &&& name.len() > extension.len() + 1
    &&& name[name.len() - extension.len() - 1] == '.'
    &&& name.subrange(name.len() - extension.len(), name.len() as int) == extension
}

/// Tells whether the entry `name` is a plugin library, see [`plugin_file`].
pub fn is_plugin_file(name: &str, extension: &str) -> (verdict: bool)
    ensures
        verdict == plugin_file(name@, extension@),
{
    let length = name.unicode_len();
    let tail = extension.unicode_len();
    if length <= tail || length - tail < 2 {
        return false;
    }
    let start = length - tail;
    if name.get_char(start - 1) != '.' {
        return false;
    }
    let mut i: usize = 0;
    while i < tail
        invariant
            0 <= i <= tail,
            tail == extension@.len(),
            length == name@.len(),
            start == length - tail,
            start >= 2,
            forall|k: int| 0 <= k < i ==> name@[start + k] == extension@[k],
        decreases tail - i,
    {
        if name.get_char(start + i) != extension.get_char(i) {
            assert(name@.subrange(start as int, length as int)[i as int] != extension@[i as int]);
            return false;
        }
        i = i + 1;
    }
    assert(name@.subrange(start as int, length as int) =~= extension@);
    true
}

/// How many of these entries are plugin libraries.
pub open spec fn plugin_file_count(entries: Seq<String>, extension: Seq<char>) -> nat
    decreases entries.len(),
{
    if entries.len() == 0 {
        0
    } else {
        plugin_file_count(entries.drop_last(), extension) + if plugin_file(
            entries.last()@,
            extension,
        ) {
            1nat
        } else {
            0nat
        }
    }
}

/// Whether two names agree on their first `k` letters.
pub open spec fn common_prefix(a: Seq<char>, b: Seq<char>, k: int) -> bool {
    &&& 0 <= k <= a.len()
    &&& k <= b.len()
    &&& forall|i: int| 0 <= i < k ==> a[i] == b[i]
}

/// Lexicographic order on names: `a` comes before `b` when `a` is a proper
/// prefix of `b`, or when `a` has the smaller letter at the first place where
/// the two differ.
pub open spec fn comes_before(a: Seq<char>, b: Seq<char>) -> bool {
    exists|k: int| #[trigger]
        common_prefix(a, b, k) && k < b.len() && (k == a.len() || a[k] < b[k])
}

/// Tells whether the name `a` comes before the name `b`, see [`comes_before`].
pub fn precedes(a: &str, b: &str) -> (verdict: bool)
    ensures
        verdict == comes_before(a@, b@),
{
    let a_length = a.unicode_len();
    let b_length = b.unicode_len();
    let mut k: usize = 0;
    while k < a_length && k < b_length
        invariant
            a_length == a@.len(),
            b_length == b@.len(),
            common_prefix(a@, b@, k as int),
        decreases a_length - k,
    {
        let x = a.get_char(k);
        let y = b.get_char(k);
        if x != y {
            proof {
                if x < y {
                    assert(common_prefix(a@, b@, k as int));
                } else {
                    assert forall|j: int| #[trigger] common_prefix(a@, b@, j) implies !(j < b@.len()
                        && (j == a@.len() || a@[j] < b@[j])) by {
                        if j > k {
                            assert(a@[k as int] == b@[k as int]);
                        }
                    }
                }
            }
            return x < y;
        }
        k = k + 1;
    }
    proof {
        if a_length < b_length {
            assert(common_prefix(a@, b@, k as int));
        } else {
            assert forall|j: int| #[trigger] common_prefix(a@, b@, j) implies !(j < b@.len() && (j
                == a@.len() || a@[j] < b@[j])) by {}
        }
    }
    a_length < b_length
}

/// The order on names is transitive.
pub proof fn comes_before_is_transitive(a: Seq<char>, b: Seq<char>, c: Seq<char>)
    requires
        comes_before(a, b),
        comes_before(b, c),
    ensures
        comes_before(a, c),
{
    let first = choose|k: int| #[trigger]
        common_prefix(a, b, k) && k < b.len() && (k == a.len() || a[k] < b[k]);
    let second = choose|k: int| #[trigger]
        common_prefix(b, c, k) && k < c.len() && (k == b.len() || b[k] < c[k]);
    if first <= second {
        assert(common_prefix(a, c, first));
    } else {
        assert(common_prefix(a, c, second));
    }
}

/// No name comes before itself.
pub proof fn comes_before_is_irreflexive(a: Seq<char>)
    ensures
        !comes_before(a, a),
{
}

/// Of two names that differ, one comes before the other.
pub proof fn any_two_names_compare(a: Seq<char>, b: Seq<char>)
    ensures
        comes_before(a, b) || comes_before(b, a) || a == b,
{
    compare_behind_a_common_prefix(a, b, 0);
}

/// Two names that agree on their first `k` letters compare by what follows.
proof fn compare_behind_a_common_prefix(a: Seq<char>, b: Seq<char>, k: int)
    requires
        common_prefix(a, b, k),
    ensures
        comes_before(a, b) || comes_before(b, a) || a == b,
    decreases a.len() - k,
{
    if k == a.len() || k == b.len() {
        if a.len() == b.len() {
            assert(a =~= b);
        } else {
            assert(common_prefix(b, a, k));
        }
    } else if a[k] == b[k] {
        compare_behind_a_common_prefix(a, b, k + 1);
    } else {
        assert(common_prefix(b, a, k));
    }
}

/// Whether these names stand in lexicographic order: none comes before one
/// that stands in front of it.
pub open spec fn in_order(listing: Seq<String>) -> bool {
    forall|i: int, j: int|
        0 <= i < j < listing.len() ==> !comes_before(
            (#[trigger] listing[j])@,
            (#[trigger] listing[i])@,
        )
}

/// Whether `listing` is `entries` put into load order: the same names, each as
/// often as before, in lexicographic order.
pub open spec fn load_order(entries: Seq<String>, listing: Seq<String>) -> bool {
    &&& listing.to_multiset() == entries.to_multiset()
    &&& in_order(listing)
}

/// Puts the entries of a directory into the order in which they are loaded.
pub fn in_load_order(entries: Vec<String>) -> (listing: Vec<String>)
    ensures
        load_order(entries@, listing@),
{
    let mut rest = entries;
    let mut listing: Vec<String> = Vec::new();
    proof {
        nothing_counts_in_no_names(listing@);
        assert(listing@.to_multiset().add(rest@.to_multiset()) =~= entries@.to_multiset());
    }
    while rest.len() > 0
        invariant
            in_order(listing@),
            listing@.to_multiset().add(rest@.to_multiset()) == entries@.to_multiset(),
        decreases rest@.len(),
    {
        let ghost unsorted = rest@;
        let ghost sorted = listing@;
        let name = rest.pop().unwrap();
        let mut at: usize = 0;
        while at < listing.len() && !precedes(name.as_str(), listing[at].as_str())
            invariant
                0 <= at <= listing@.len(),
                listing@ == sorted,
                forall|i: int| 0 <= i < at ==> !comes_before(name@, (#[trigger] sorted[i])@),
            decreases listing@.len() - at,
        {
            at = at + 1;
        }
        listing.insert(at, name);
        proof {
            broadcast use {vstd::seq_lib::to_multiset_build, vstd::seq_lib::to_multiset_insert};

            assert(unsorted =~= rest@.push(name));
            assert(listing@.to_multiset().add(rest@.to_multiset()) =~= sorted.to_multiset().add(
                unsorted.to_multiset(),
            ));
            assert forall|i: int, j: int| 0 <= i < j < listing@.len() implies !comes_before(
                (#[trigger] listing@[j])@,
                (#[trigger] listing@[i])@,
            ) by {
                if i == at {
                    let later = sorted[j - 1];
                    if comes_before(later@, name@) {
                        comes_before_is_transitive(later@, name@, sorted[at as int]@);
                        comes_before_is_irreflexive(later@);
                    }
                } else if j == at {
                } else {
                    let front = if i < at { i } else { i - 1 };
                    let back = if j < at { j } else { j - 1 };
                    assert(listing@[i] == sorted[front] && listing@[j] == sorted[back]);
                }
            }
        }
    }
    proof {
        nothing_counts_in_no_names(rest@);
        assert(listing@.to_multiset().add(rest@.to_multiset()) =~= listing@.to_multiset());
    }
    listing
}

/// A listing without names holds no name at all.
proof fn nothing_counts_in_no_names(listing: Seq<String>)
    requires
        listing.len() == 0,
    ensures
        forall|name: String| listing.to_multiset().count(name) == 0,
{
    assert forall|name: String| listing.to_multiset().count(name) == 0 by {
        vstd::seq_lib::to_multiset_contains(listing, name);
    }
}

/// Taking one entry out of a listing lowers the number of plugin libraries by
/// one if the entry was one, and not at all if it was none.
pub proof fn plugin_file_count_without_one(entries: Seq<String>, extension: Seq<char>, at: int)
    requires
        0 <= at < entries.len(),
    ensures
        plugin_file_count(entries, extension) == plugin_file_count(entries.remove(at), extension)
            + if plugin_file(entries[at]@, extension) {
            1nat
        } else {
            0nat
        },
    decreases entries.len(),
{
    if at == entries.len() - 1 {
        assert(entries.remove(at) =~= entries.drop_last());
    } else {
        plugin_file_count_without_one(entries.drop_last(), extension, at);
        assert(entries.remove(at).drop_last() =~= entries.drop_last().remove(at));
        assert(entries.remove(at).last() == entries.last());
    }
}

/// How many plugin libraries a listing holds does not depend on its order.
pub proof fn plugin_file_count_of_a_rearrangement(
    entries: Seq<String>,
    listing: Seq<String>,
    extension: Seq<char>,
)
    requires
        listing.to_multiset() == entries.to_multiset(),
    ensures
        plugin_file_count(listing, extension) == plugin_file_count(entries, extension),
    decreases entries.len(),
{
    broadcast use {
        vstd::seq_lib::to_multiset_len,
        vstd::seq_lib::to_multiset_build,
        vstd::seq_lib::to_multiset_remove,
    };

    if entries.len() > 0 {
        let name = entries.last();
        assert(entries =~= entries.drop_last().push(name));
        vstd::seq_lib::to_multiset_contains(entries, name);
        vstd::seq_lib::to_multiset_contains(listing, name);
        assert(entries.contains(name));
        let at = listing.index_of(name);
        assert(listing.remove(at).to_multiset() =~= entries.drop_last().to_multiset());
        plugin_file_count_of_a_rearrangement(
            entries.drop_last(),
            listing.remove(at),
            extension,
        );
        plugin_file_count_without_one(listing, extension, at);
    } else {
        vstd::seq_lib::to_multiset_len(entries);
        vstd::seq_lib::to_multiset_len(listing);
        assert(listing.len() == 0);
    }
}

} // verus!
