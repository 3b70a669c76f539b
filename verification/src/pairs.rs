//! Headers and query parameters: lists of names and values, in the order of the
//! names.

use crate::text::{chars_of, text_eq};
use vstd::prelude::*;
use vstd::string::*;

verus! {

/// Name and value of each header or query parameter of a list.
pub open spec fn pairs_view(pairs: Seq<(String, String)>) -> Seq<(Seq<char>, Seq<char>)> {
    pairs.map_values(|pair: (String, String)| (pair.0@, pair.1@))
}

/// Copies a list of headers or query parameters.
pub fn copy_pairs(pairs: &Vec<(String, String)>) -> (copy: Vec<(String, String)>)
    ensures
        pairs_view(copy@) == pairs_view(pairs@),
{
    let mut copy: Vec<(String, String)> = Vec::new();
    let mut i: usize = 0;
    while i < pairs.len()
        invariant
            i <= pairs.len(),
            copy@.len() == i,
            forall|j: int|
                0 <= j < i ==> (#[trigger] copy@[j]).0@ == pairs@[j].0@ && copy@[j].1@
                    == pairs@[j].1@,
        decreases pairs.len() - i,
    {
        let pair: &(String, String) = &pairs[i];
        copy.push((pair.0.clone(), pair.1.clone()));
        i = i + 1;
    }
    assert(pairs_view(copy@) =~= pairs_view(pairs@));
    copy
}

/// A text comes before another: at the first place where they differ, or as
/// its beginning.
pub open spec fn precedes(a: Seq<char>, b: Seq<char>) -> bool
    decreases a.len(),
{
    if b.len() == 0 {
        false
    } else if a.len() == 0 {
        true
    } else if a[0] == b[0] {
        precedes(a.drop_first(), b.drop_first())
    } else {
        a[0] < b[0]
    }
}

/// The names of a list ascend, so none stands twice.
pub open spec fn names_ascend(pairs: Seq<(Seq<char>, Seq<char>)>) -> bool {
    forall|i: int, j: int|
        0 <= i < j < pairs.len() ==> precedes(#[trigger] pairs[i].0, #[trigger] pairs[j].0)
}

/// The first place of a list whose name does not come before `name`.
pub open spec fn place_of(pairs: Seq<(Seq<char>, Seq<char>)>, name: Seq<char>) -> int
    decreases pairs.len(),
{
    if pairs.len() == 0 || !precedes(pairs[0].0, name) {
        0
    } else {
        1 + place_of(pairs.drop_first(), name)
    }
}

/// A list with one more pair at the place of its name. A pair of that name is
/// replaced.
pub open spec fn with_pair(
    pairs: Seq<(Seq<char>, Seq<char>)>,
    pair: (Seq<char>, Seq<char>),
) -> Seq<(Seq<char>, Seq<char>)> {
    let at = place_of(pairs, pair.0);
    if at < pairs.len() && pairs[at].0 == pair.0 {
        pairs.update(at, pair)
    } else {
        pairs.insert(at, pair)
    }
}

/// The first `n` pairs of a list in the order of their names; of two pairs with
/// one name the later counts.
pub open spec fn collated(pairs: Seq<(Seq<char>, Seq<char>)>, n: nat) -> Seq<
    (Seq<char>, Seq<char>),
>
    decreases n,
{
    if n == 0 || n > pairs.len() {
        Seq::empty()
    } else {
        with_pair(collated(pairs, (n - 1) as nat), pairs[n - 1])
    }
}

/// No text comes before itself.
pub proof fn lemma_not_before_itself(a: Seq<char>)
    ensures
        !precedes(a, a),
    decreases a.len(),
{
    if a.len() > 0 {
        lemma_not_before_itself(a.drop_first());
    }
}

/// What comes before a text comes before what the text comes before.
proof fn lemma_before_chains(a: Seq<char>, b: Seq<char>, c: Seq<char>)
    requires
        precedes(a, b),
        precedes(b, c),
    ensures
        precedes(a, c),
    decreases a.len(),
{
    if a.len() > 0 && a[0] == b[0] && b[0] == c[0] {
        lemma_before_chains(a.drop_first(), b.drop_first(), c.drop_first());
    }
}

/// Of two texts one comes before the other, or they are the same.
proof fn lemma_before_or_after(a: Seq<char>, b: Seq<char>)
    ensures
        precedes(a, b) || a == b || precedes(b, a),
    decreases a.len(),
{
    if a.len() == 0 && b.len() == 0 {
        assert(a =~= b);
    } else if a.len() > 0 && b.len() > 0 && a[0] == b[0] {
        lemma_before_or_after(a.drop_first(), b.drop_first());
        if a.drop_first() == b.drop_first() {
            assert(a =~= seq![a[0]] + a.drop_first());
            assert(b =~= seq![b[0]] + b.drop_first());
        }
    }
}

/// What stands before the place of a name comes before it, and what stands
/// there does not.
pub proof fn lemma_place(pairs: Seq<(Seq<char>, Seq<char>)>, name: Seq<char>)
    ensures
        0 <= place_of(pairs, name) <= pairs.len(),
        forall|i: int| 0 <= i < place_of(pairs, name) ==> precedes(#[trigger] pairs[i].0, name),
        place_of(pairs, name) < pairs.len() ==> !precedes(
            pairs[place_of(pairs, name)].0,
            name,
        ),
    decreases pairs.len(),
{
    if pairs.len() > 0 && precedes(pairs[0].0, name) {
        let rest = pairs.drop_first();
        lemma_place(rest, name);
        assert forall|i: int| 0 <= i < place_of(pairs, name) implies precedes(
            #[trigger] pairs[i].0,
            name,
        ) by {
            if i > 0 {
                assert(rest[i - 1] == pairs[i]);
            }
        }
    }
}

/// A place is that of a name where all before it come before the name, and it
/// does not.
proof fn lemma_is_place(pairs: Seq<(Seq<char>, Seq<char>)>, name: Seq<char>, at: int)
    requires
        0 <= at <= pairs.len(),
        forall|i: int| 0 <= i < at ==> precedes(#[trigger] pairs[i].0, name),
        at < pairs.len() ==> !precedes(pairs[at].0, name),
    ensures
        place_of(pairs, name) == at,
{
    lemma_place(pairs, name);
    let found = place_of(pairs, name);
    if found < at {
        assert(precedes(pairs[found].0, name));
    }
    if at < found {
        assert(precedes(pairs[at].0, name));
    }
}

/// One more pair at its place keeps the names ascending.
proof fn lemma_with_pair_ascends(
    pairs: Seq<(Seq<char>, Seq<char>)>,
    pair: (Seq<char>, Seq<char>),
)
    requires
        names_ascend(pairs),
    ensures
        names_ascend(with_pair(pairs, pair)),
{
    let name = pair.0;
    let at = place_of(pairs, name);
    lemma_place(pairs, name);
    let after = with_pair(pairs, pair);
    if at < pairs.len() && pairs[at].0 == name {
        assert forall|i: int, j: int| 0 <= i < j < after.len() implies precedes(
            #[trigger] after[i].0,
            #[trigger] after[j].0,
        ) by {
            assert(after[i].0 == pairs[i].0);
            assert(after[j].0 == pairs[j].0);
        }
    } else {
        assert forall|i: int, j: int| 0 <= i < j < after.len() implies precedes(
            #[trigger] after[i].0,
            #[trigger] after[j].0,
        ) by {
            if at < pairs.len() {
                lemma_before_or_after(pairs[at].0, name);
            }
            if j == at {
                assert(after[i] == pairs[i]);
            } else if i == at {
                assert(after[j] == pairs[j - 1]);
                if j - 1 > at {
                    assert(precedes(pairs[at].0, pairs[j - 1].0));
                    lemma_before_chains(name, pairs[at].0, pairs[j - 1].0);
                }
            } else {
                let k = if i < at {
                    i
                } else {
                    i - 1
                };
                let l = if j < at {
                    j
                } else {
                    j - 1
                };
                assert(after[i] == pairs[k]);
                assert(after[j] == pairs[l]);
            }
        }
    }
}

/// A collated list has ascending names: no name stands twice in it.
pub proof fn law_collated_names_ascend(pairs: Seq<(Seq<char>, Seq<char>)>, n: nat)
    ensures
        names_ascend(collated(pairs, n)),
    decreases n,
{
    if n > 0 && n <= pairs.len() {
        law_collated_names_ascend(pairs, (n - 1) as nat);
        lemma_with_pair_ascends(collated(pairs, (n - 1) as nat), pairs[n - 1]);
    }
}

/// A list whose names ascend is collated already.
pub proof fn law_ascending_is_collated(pairs: Seq<(Seq<char>, Seq<char>)>, n: nat)
    requires
        names_ascend(pairs),
        n <= pairs.len(),
    ensures
        collated(pairs, n) == pairs.take(n as int),
    decreases n,
{
    if n > 0 {
        let before = pairs.take(n - 1);
        law_ascending_is_collated(pairs, (n - 1) as nat);
        assert forall|i: int| 0 <= i < n - 1 implies precedes(
            #[trigger] before[i].0,
            pairs[n - 1].0,
        ) by {
            assert(before[i] == pairs[i]);
        }
        lemma_is_place(before, pairs[n - 1].0, n - 1);
        assert(before.insert(n - 1, pairs[n - 1]) =~= pairs.take(n as int));
    } else {
        assert(pairs.take(0) =~= Seq::empty());
    }
}

/// Names that ascend differ.
pub proof fn lemma_ascending_names_differ(pairs: Seq<(Seq<char>, Seq<char>)>)
    requires
        names_ascend(pairs),
    ensures
        forall|i: int, j: int|
            0 <= i < j < pairs.len() ==> #[trigger] pairs[i].0 != #[trigger] pairs[j].0,
{
    assert forall|i: int, j: int| 0 <= i < j < pairs.len() implies #[trigger] pairs[i].0
        != #[trigger] pairs[j].0 by {
        assert(precedes(pairs[i].0, pairs[j].0));
        lemma_not_before_itself(pairs[i].0);
    }
}

/// Whether a string comes before another.
pub fn text_precedes(a: &str, b: &str) -> (before: bool)
    ensures
        before == precedes(a@, b@),
{
    let first: Vec<char> = chars_of(a);
    let second: Vec<char> = chars_of(b);
    let mut i: usize = 0;
    assert(a@.skip(0) =~= a@);
    assert(b@.skip(0) =~= b@);
    while i < first.len() && i < second.len()
        invariant
            first@ == a@,
            second@ == b@,
            i <= first.len(),
            i <= second.len(),
            precedes(a@, b@) == precedes(a@.skip(i as int), b@.skip(i as int)),
        decreases first.len() - i,
    {
        let x: char = first[i];
        let y: char = second[i];
        assert(a@.skip(i as int)[0] == x);
        assert(b@.skip(i as int)[0] == y);
        if x != y {
            return x < y;
        }
        assert(a@.skip(i as int).drop_first() =~= a@.skip(i + 1));
        assert(b@.skip(i as int).drop_first() =~= b@.skip(i + 1));
        i = i + 1;
    }
    i < second.len()
}

/// Puts a pair at the place of its name.
fn put_pair(sorted: &mut Vec<(String, String)>, name: &str, value: &str)
    ensures
        pairs_view(final(sorted)@) == with_pair(pairs_view(old(sorted)@), (name@, value@)),
{
    let ghost before = pairs_view(sorted@);
    let mut i: usize = 0;
    while i < sorted.len() && text_precedes(sorted[i].0.as_str(), name)
        invariant
            before == pairs_view(sorted@),
            i <= sorted.len(),
            forall|j: int| 0 <= j < i ==> precedes(#[trigger] before[j].0, name@),
        decreases sorted.len() - i,
    {
        assert(before[i as int].0 == sorted@[i as int].0@);
        i = i + 1;
    }
    proof {
        if i < sorted.len() {
            assert(before[i as int].0 == sorted@[i as int].0@);
        }
        lemma_is_place(before, name@, i as int);
    }
    let pair: (String, String) = (name.to_owned(), value.to_owned());
    if i < sorted.len() && text_eq(sorted[i].0.as_str(), name) {
        sorted.set(i, pair);
        assert(pairs_view(sorted@) =~= before.update(i as int, (name@, value@)));
    } else {
        sorted.insert(i, pair);
        assert(pairs_view(sorted@) =~= before.insert(i as int, (name@, value@)));
    }
}

/// Puts a list in the order of its names; of two pairs with one name the later
/// counts.
pub fn collate(pairs: &Vec<(String, String)>) -> (sorted: Vec<(String, String)>)
    ensures
        pairs_view(sorted@) == collated(pairs_view(pairs@), pairs@.len()),
        names_ascend(pairs_view(sorted@)),
{
    let mut sorted: Vec<(String, String)> = Vec::new();
    let mut i: usize = 0;
    assert(pairs_view(sorted@) =~= Seq::empty());
    while i < pairs.len()
        invariant
            i <= pairs.len(),
            pairs_view(sorted@) == collated(pairs_view(pairs@), i as nat),
        decreases pairs.len() - i,
    {
        let pair: &(String, String) = &pairs[i];
        put_pair(&mut sorted, pair.0.as_str(), pair.1.as_str());
        i = i + 1;
    }
    proof {
        law_collated_names_ascend(pairs_view(pairs@), pairs@.len());
    }
    sorted
}

/// The pairs of a list stand at their places, each with its name and its value.
pub proof fn law_pairs_keep_their_places(pairs: Seq<(String, String)>)
    ensures
        pairs_view(pairs).len() == pairs.len(),
        forall|i: int|
            0 <= i < pairs.len() ==> #[trigger] pairs_view(pairs)[i] == (pairs[i].0@, pairs[i].1@),
{
}

/// One text comes before another exactly where, behind what both begin with,
/// the first has ended and the second has not, or the first has the smaller
/// character.
pub proof fn law_order_of_texts(a: Seq<char>, b: Seq<char>)
    ensures
        precedes(a, b) <==> exists|k: int|
            0 <= k <= a.len() && k < b.len() && #[trigger] a.take(k) == b.take(k) && (k == a.len()
                || a[k] < b[k]),
    decreases a.len(),
{
    if a.len() > 0 && b.len() > 0 && a[0] == b[0] {
        let rest_a = a.drop_first();
        let rest_b = b.drop_first();
        law_order_of_texts(rest_a, rest_b);
        if precedes(a, b) {
            let k = choose|k: int|
                0 <= k <= rest_a.len() && k < rest_b.len() && #[trigger] rest_a.take(k)
                    == rest_b.take(k) && (k == rest_a.len() || rest_a[k] < rest_b[k]);
            assert forall|i: int| 0 <= i < k + 1 implies #[trigger] a[i] == b[i] by {
                if i > 0 {
                    assert(rest_a.take(k)[i - 1] == rest_b.take(k)[i - 1]);
                }
            }
            assert(a.take(k + 1) =~= b.take(k + 1));
        }
        if exists|k: int|
            0 <= k <= a.len() && k < b.len() && #[trigger] a.take(k) == b.take(k) && (k == a.len()
                || a[k] < b[k]) {
            let k = choose|k: int|
                0 <= k <= a.len() && k < b.len() && #[trigger] a.take(k) == b.take(k) && (k
                    == a.len() || a[k] < b[k]);
            assert(k > 0);
            assert forall|i: int| 0 <= i < k - 1 implies #[trigger] rest_a[i] == rest_b[i] by {
                assert(a.take(k)[i + 1] == b.take(k)[i + 1]);
            }
            assert(rest_a.take(k - 1) =~= rest_b.take(k - 1));
        }
    } else {
        assert(a.take(0) =~= b.take(0));
        if exists|k: int|
            0 <= k <= a.len() && k < b.len() && #[trigger] a.take(k) == b.take(k) && (k == a.len()
                || a[k] < b[k]) {
            let k = choose|k: int|
                0 <= k <= a.len() && k < b.len() && #[trigger] a.take(k) == b.take(k) && (k
                    == a.len() || a[k] < b[k]);
            if k > 0 {
                assert(a.take(k)[0] == b.take(k)[0]);
            }
        }
    }
}

/// A list with one more pair holds that pair and every pair of another name,
/// and nothing else.
proof fn lemma_with_pair_holds(
    pairs: Seq<(Seq<char>, Seq<char>)>,
    pair: (Seq<char>, Seq<char>),
)
    requires
        names_ascend(pairs),
    ensures
        with_pair(pairs, pair).contains(pair),
        forall|i: int|
            0 <= i < pairs.len() && (#[trigger] pairs[i]).0 != pair.0 ==> with_pair(
                pairs,
                pair,
            ).contains(pairs[i]),
        forall|k: int|
            0 <= k < with_pair(pairs, pair).len() ==> {
                let held = #[trigger] with_pair(pairs, pair)[k];
                held == pair || (held.0 != pair.0 && pairs.contains(held))
            },
{
    let at = place_of(pairs, pair.0);
    let after = with_pair(pairs, pair);
    let replaced = at < pairs.len() && pairs[at].0 == pair.0;
    lemma_place(pairs, pair.0);
    lemma_with_pair_ascends(pairs, pair);
    lemma_ascending_names_differ(after);
    assert(after[at] == pair);
    assert forall|i: int| 0 <= i < pairs.len() && (#[trigger] pairs[i]).0 != pair.0 implies
        after.contains(pairs[i]) by {
        let k = if replaced || i < at {
            i
        } else {
            i + 1
        };
        assert(after[k] == pairs[i]);
    }
    assert forall|k: int| 0 <= k < after.len() implies ({
        let held = #[trigger] after[k];
        held == pair || (held.0 != pair.0 && pairs.contains(held))
    }) by {
        if k != at {
            let i = if replaced || k < at {
                k
            } else {
                k - 1
            };
            assert(after[k] == pairs[i]);
            if k < at {
                assert(after[k].0 != after[at].0);
            } else {
                assert(after[at].0 != after[k].0);
            }
        }
    }
}

/// A pair stands in the collated list unless a later one has its name.
pub proof fn law_collated_keeps_the_last(pairs: Seq<(Seq<char>, Seq<char>)>, n: nat, i: int)
    requires
        0 <= i < n <= pairs.len(),
        forall|j: int| i < j < n ==> (#[trigger] pairs[j]).0 != pairs[i].0,
    ensures
        collated(pairs, n).contains(pairs[i]),
    decreases n,
{
    let before = collated(pairs, (n - 1) as nat);
    law_collated_names_ascend(pairs, (n - 1) as nat);
    lemma_with_pair_holds(before, pairs[n - 1]);
    if i < n - 1 {
        law_collated_keeps_the_last(pairs, (n - 1) as nat, i);
        let k = choose|k: int| 0 <= k < before.len() && before[k] == pairs[i];
        assert(before[k].0 != pairs[n - 1].0);
    }
}

/// Nothing else stands in the collated list: each pair of it is one of the list
/// whose name no later one has.
pub proof fn law_collated_adds_nothing(pairs: Seq<(Seq<char>, Seq<char>)>, n: nat, k: int)
    requires
        n <= pairs.len(),
        0 <= k < collated(pairs, n).len(),
    ensures
        exists|i: int|
            0 <= i < n && #[trigger] pairs[i] == collated(pairs, n)[k] && forall|j: int|
                i < j < n ==> (#[trigger] pairs[j]).0 != pairs[i].0,
    decreases n,
{
    if n > 0 {
        let before = collated(pairs, (n - 1) as nat);
        let held = collated(pairs, n)[k];
        law_collated_names_ascend(pairs, (n - 1) as nat);
        lemma_with_pair_holds(before, pairs[n - 1]);
        if held == pairs[n - 1] {
            assert(pairs[n - 1] == held);
        } else {
            let l = choose|l: int| 0 <= l < before.len() && before[l] == held;
            law_collated_adds_nothing(pairs, (n - 1) as nat, l);
            let i = choose|i: int|
                0 <= i < n - 1 && #[trigger] pairs[i] == before[l] && forall|j: int|
                    i < j < n - 1 ==> (#[trigger] pairs[j]).0 != pairs[i].0;
            assert forall|j: int| i < j < n implies (#[trigger] pairs[j]).0 != pairs[i].0 by {}
            assert(pairs[i] == held);
        }
    }
}

/// A list is made of the items at some places of another, in order.
pub open spec fn taken_from<T>(taken: Seq<T>, from: Seq<T>, at: Seq<int>) -> bool {
    &&& at.len() == taken.len()
    &&& forall|k: int|
        0 <= k < at.len() ==> 0 <= #[trigger] at[k] < from.len() && taken[k] == from[at[k]]
    &&& forall|j: int, k: int| 0 <= j < k < at.len() ==> #[trigger] at[j] < #[trigger] at[k]
}

/// A filtered list is taken from the places where the predicate holds.
pub proof fn lemma_filter_takes<T>(from: Seq<T>, wanted: spec_fn(T) -> bool) -> (at: Seq<int>)
    ensures
        taken_from(from.filter(wanted), from, at),
        forall|i: int| 0 <= i < from.len() ==> (#[trigger] at.contains(i) <==> wanted(from[i])),
    decreases from.len(),
{
    reveal(Seq::filter);
    if from.len() == 0 {
        Seq::empty()
    } else {
        let last = from.len() - 1;
        let rest = from.drop_last();
        let before = lemma_filter_takes(rest, wanted);
        let taken = from.filter(wanted);
        let at = if wanted(from[last]) {
            before.push(last)
        } else {
            before
        };
        assert forall|k: int| 0 <= k < at.len() implies 0 <= #[trigger] at[k] < from.len()
            && taken[k] == from[at[k]] by {
            if k < before.len() {
                assert(at[k] == before[k]);
                assert(rest.filter(wanted)[k] == rest[before[k]]);
            }
        }
        assert forall|j: int, k: int| 0 <= j < k < at.len() implies #[trigger] at[j]
            < #[trigger] at[k] by {
            assert(at[j] == before[j]);
            if k < before.len() {
                assert(at[k] == before[k]);
            }
        }
        assert forall|i: int| 0 <= i < from.len() implies (#[trigger] at.contains(i) <==> wanted(
            from[i],
        )) by {
            if i < last {
                assert(before.contains(i) <==> wanted(rest[i]));
                if before.contains(i) {
                    let k = choose|k: int| 0 <= k < before.len() && before[k] == i;
                    assert(at[k] == i);
                }
                if at.contains(i) {
                    let k = choose|k: int| 0 <= k < at.len() && at[k] == i;
                    assert(before[k] == i);
                }
            } else if wanted(from[i]) {
                assert(at[before.len() as int] == i);
            } else if at.contains(i) {
                let k = choose|k: int| 0 <= k < at.len() && at[k] == i;
                assert(0 <= before[k] < rest.len());
            }
        }
        at
    }
}

/// A collated list is sorted: of two names the one that stands first comes
/// before the other, in the order of texts.
pub proof fn law_collated_list_is_sorted(
    pairs: Seq<(Seq<char>, Seq<char>)>,
    n: nat,
    i: int,
    j: int,
)
    requires
        0 <= i < j < collated(pairs, n).len(),
    ensures
        precedes(collated(pairs, n)[i].0, collated(pairs, n)[j].0),
        collated(pairs, n)[i].0 != collated(pairs, n)[j].0,
{
    law_collated_names_ascend(pairs, n);
    lemma_not_before_itself(collated(pairs, n)[i].0);
}

} // verus!
