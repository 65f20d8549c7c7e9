//! Texts in order, and rows in the order of their mapping ids.

use vstd::prelude::*;

use crate::model::{models, MeterModel, MeterOf, SnapshotLineModel, SnapshotLineOf};
use crate::text::{chars_of, Text};

verus! {

/// The order of texts by their characters, the shorter first where one begins the other.
pub open spec fn text_less(a: Text, b: Text) -> bool
    decreases a.len(),
{
    if b.len() == 0 {
        false
    } else if a.len() == 0 {
        true
    } else if a[0] != b[0] {
        a[0] < b[0]
    } else {
        text_less(a.drop_first(), b.drop_first())
    }
}

/// No text stands before itself.
pub proof fn law_text_order_is_irreflexive(a: Text)
    ensures
        !text_less(a, a),
    decreases a.len(),
{
    if a.len() > 0 {
        law_text_order_is_irreflexive(a.drop_first());
    }
}

/// What stands before a text stands before all that follow it.
pub proof fn law_text_order_is_transitive(a: Text, b: Text, c: Text)
    requires
        text_less(a, b),
        text_less(b, c),
    ensures
        text_less(a, c),
    decreases a.len(),
{
    if a.len() > 0 && a[0] == b[0] && b[0] == c[0] {
        law_text_order_is_transitive(a.drop_first(), b.drop_first(), c.drop_first());
    }
}

/// Of two different texts one stands before the other.
pub proof fn law_text_order_is_total(a: Text, b: Text)
    ensures
        a == b || text_less(a, b) || text_less(b, a),
    decreases a.len(),
{
    if a.len() == 0 || b.len() == 0 {
        if a.len() == 0 && b.len() == 0 {
            assert(a =~= b);
        }
    } else if a[0] == b[0] {
        law_text_order_is_total(a.drop_first(), b.drop_first());
        if a.drop_first() == b.drop_first() {
            assert(a =~= seq![a[0]] + a.drop_first());
            assert(b =~= seq![b[0]] + b.drop_first());
        }
    }
}

/// Whether `left` stands before `right`, character by character.
pub fn text_before(left: &str, right: &str) -> (r: bool)
    ensures
        r == text_less(left@, right@),
{
    let a = chars_of(left);
    let b = chars_of(right);
    let mut i: usize = 0;
    assert(left@.skip(0) =~= left@);
    assert(right@.skip(0) =~= right@);
    while i < a.len() && i < b.len() && a[i] == b[i]
        invariant
            i <= a.len(),
            i <= b.len(),
            a@ == left@,
            b@ == right@,
            text_less(left@, right@) == text_less(left@.skip(i as int), right@.skip(i as int)),
        decreases a.len() - i,
    {
        assert(left@.skip(i as int).drop_first() =~= left@.skip(i + 1));
        assert(right@.skip(i as int).drop_first() =~= right@.skip(i + 1));
        i = i + 1;
    }
    if i >= b.len() {
        false
    } else if i >= a.len() {
        true
    } else {
        a[i] < b[i]
    }
}

/// A row that belongs to a meter mapping.
pub trait Mapped: View + Sized {
    spec fn mapping(row: Self::V) -> Text;

    fn mapping_text(&self) -> (r: &str)
        ensures
            r@ == Self::mapping(self@),
    ;
}

impl Mapped for MeterOf<String> {
    open spec fn mapping(row: MeterModel) -> Text {
        row.mapping_id
    }

    fn mapping_text(&self) -> (r: &str) {
        self.mapping_id.as_str()
    }
}

impl Mapped for SnapshotLineOf<String> {
    open spec fn mapping(row: SnapshotLineModel) -> Text {
        row.mapping_id
    }

    fn mapping_text(&self) -> (r: &str) {
        self.mapping_id.as_str()
    }
}

/// The rows with `row` put in, before the rows at the end that have to follow it.
pub open spec fn placed<M: Mapped>(rows: Seq<M::V>, row: M::V) -> Seq<M::V>
    decreases rows.len(),
{
    if rows.len() == 0 || !text_less(M::mapping(row), M::mapping(rows.last())) {
        rows.push(row)
    } else {
        placed::<M>(rows.drop_last(), row).push(rows.last())
    }
}

/// The rows in the order of their mapping ids.
pub open spec fn in_order<M: Mapped>(rows: Seq<M::V>) -> Seq<M::V>
    decreases rows.len(),
{
    if rows.len() == 0 {
        rows
    } else {
        placed::<M>(in_order::<M>(rows.drop_last()), rows.last())
    }
}

/// No row is followed by one whose mapping id stands before its own.
pub open spec fn ordered<M: Mapped>(rows: Seq<M::V>) -> bool {
    forall|i: int, j: int|
        0 <= i < j < rows.len() ==> !text_less(
            M::mapping(#[trigger] rows[j]),
            M::mapping(#[trigger] rows[i]),
        )
}

proof fn lemma_placed<M: Mapped>(rows: Seq<M::V>, row: M::V)
    requires
        ordered::<M>(rows),
    ensures
        ordered::<M>(placed::<M>(rows, row)),
        placed::<M>(rows, row).to_multiset() == rows.to_multiset().insert(row),
    decreases rows.len(),
{
    broadcast use vstd::seq_lib::group_to_multiset_ensures;

    let after = placed::<M>(rows, row);
    if rows.len() == 0 {
    } else if !text_less(M::mapping(row), M::mapping(rows.last())) {
        assert forall|i: int, j: int| 0 <= i < j < after.len() implies !text_less(
            M::mapping(#[trigger] after[j]),
            M::mapping(#[trigger] after[i]),
        ) by {
            if j == rows.len() && i < rows.len() - 1 {
                let last = M::mapping(rows.last());
                let first = M::mapping(rows[i]);
                if text_less(M::mapping(row), first) {
                    law_text_order_is_total(first, last);
                    assert(!text_less(last, first));
                    if first != last {
                        law_text_order_is_transitive(M::mapping(row), first, last);
                    }
                }
            }
        }
    } else {
        let front = rows.drop_last();
        let last = rows.last();
        assert forall|i: int, j: int| 0 <= i < j < front.len() implies !text_less(
            M::mapping(#[trigger] front[j]),
            M::mapping(#[trigger] front[i]),
        ) by {
            assert(front[i] == rows[i] && front[j] == rows[j]);
        }
        lemma_placed::<M>(front, row);
        let inner = placed::<M>(front, row);
        assert forall|i: int, j: int| 0 <= i < j < after.len() implies !text_less(
            M::mapping(#[trigger] after[j]),
            M::mapping(#[trigger] after[i]),
        ) by {
            if j == after.len() - 1 {
                assert(inner.to_multiset().count(inner[i]) > 0) by {
                    assert(inner.contains(inner[i]));
                }
                let x = inner[i];
                if x == row {
                    if text_less(M::mapping(last), M::mapping(row)) {
                        law_text_order_is_transitive(
                            M::mapping(row),
                            M::mapping(last),
                            M::mapping(row),
                        );
                        law_text_order_is_irreflexive(M::mapping(row));
                    }
                } else {
                    assert(front.to_multiset().count(x) > 0);
                    assert(front.contains(x));
                    let k = choose|k: int| 0 <= k < front.len() && front[k] == x;
                    assert(rows[k] == x);
                    assert(rows[rows.len() - 1] == last);
                }
            } else {
                assert(after[i] == inner[i] && after[j] == inner[j]);
            }
        }
        assert(rows =~= front.push(last));
        assert(after.to_multiset() =~= rows.to_multiset().insert(row));
    }
}

/// Putting rows in order loses none, adds none, and leaves them ordered.
pub proof fn law_rows_are_put_in_order<M: Mapped>(rows: Seq<M::V>)
    ensures
        ordered::<M>(in_order::<M>(rows)),
        in_order::<M>(rows).to_multiset() == rows.to_multiset(),
        in_order::<M>(rows).len() == rows.len(),
    decreases rows.len(),
{
    broadcast use vstd::seq_lib::group_to_multiset_ensures;

    if rows.len() > 0 {
        let front = rows.drop_last();
        law_rows_are_put_in_order::<M>(front);
        lemma_placed::<M>(in_order::<M>(front), rows.last());
        assert(rows =~= front.push(rows.last()));
    }
    assert(in_order::<M>(rows).to_multiset().len() == in_order::<M>(rows).len());
    assert(rows.to_multiset().len() == rows.len());
}

/// Where the row is put in.
proof fn lemma_placed_at<M: Mapped>(rows: Seq<M::V>, row: M::V, at: int)
    requires
        0 <= at <= rows.len(),
        at == 0 || !text_less(M::mapping(row), M::mapping(rows[at - 1])),
        forall|k: int|
            at <= k < rows.len() ==> text_less(M::mapping(row), M::mapping(#[trigger] rows[k])),
    ensures
        placed::<M>(rows, row) == rows.insert(at, row),
    decreases rows.len(),
{
    if at == rows.len() {
        assert(rows.insert(at, row) =~= rows.push(row));
    } else {
        let front = rows.drop_last();
        assert(text_less(M::mapping(row), M::mapping(rows.last())));
        assert forall|k: int| at <= k < front.len() implies text_less(
            M::mapping(row),
            M::mapping(#[trigger] front[k]),
        ) by {
            assert(front[k] == rows[k]);
        }
        lemma_placed_at::<M>(front, row, at);
        assert(rows.insert(at, row) =~= front.insert(at, row).push(rows.last()));
    }
}

fn place<M: Mapped>(rows: &mut Vec<M>, row: M)
    ensures
        models(final(rows)@) == placed::<M>(models(old(rows)@), row@),
{
    let ghost before = models(rows@);
    let mut at: usize = rows.len();
    while at > 0 && text_before(row.mapping_text(), rows[at - 1].mapping_text())
        invariant
            at <= rows.len(),
            before == models(rows@),
            forall|k: int|
                at <= k < rows@.len() ==> text_less(
                    M::mapping(row@),
                    M::mapping(#[trigger] before[k]),
                ),
        decreases at,
    {
        assert(before[at - 1] == rows@[at - 1]@);
        at = at - 1;
    }
    let ghost added = row@;
    proof {
        if at > 0 {
            assert(before[at - 1] == rows@[at - 1]@);
        }
        lemma_placed_at::<M>(before, added, at as int);
    }
    rows.insert(at, row);
    assert(models(rows@) =~= before.insert(at as int, added));
}

/// The rows in the order of their mapping ids.
pub fn sort_rows<M: Mapped>(rows: Vec<M>) -> (r: Vec<M>)
    ensures
        models(r@) == in_order::<M>(models(rows@)),
{
    let ghost all = models(rows@);
    let mut left = rows;
    let mut out: Vec<M> = Vec::new();
    let ghost mut taken: int = 0;
    assert(all.take(0) =~= models(out@));
    assert(all.skip(0) =~= models(left@));
    while left.len() > 0
        invariant
            0 <= taken <= all.len(),
            models(left@) == all.skip(taken),
            models(out@) == in_order::<M>(all.take(taken)),
        decreases left.len(),
    {
        let ghost rest = models(left@);
        assert(rest.len() == all.len() - taken);
        let row = left.remove(0);
        proof {
            assert forall|i: int| 0 <= i < left@.len() implies (#[trigger] left@[i])@ == all[taken
                + 1 + i] by {
                assert(rest[i + 1] == all[taken + 1 + i]);
            }
            assert(row@ == rest[0]);
            assert(models(left@) =~= all.skip(taken + 1));
            assert(all.take(taken + 1).drop_last() =~= all.take(taken));
            assert(all.take(taken + 1).last() == row@);
            taken = taken + 1;
        }
        place(&mut out, row);
    }
    assert(all.skip(taken).len() == 0);
    assert(all.take(taken) =~= all);
    out
}

/// Each text stands before all that follow it.
pub open spec fn strictly_ordered(texts: Seq<Text>) -> bool {
    forall|i: int, j: int|
        0 <= i < j < texts.len() ==> text_less(#[trigger] texts[i], #[trigger] texts[j])
}

/// The wanted texts, each once and in order.
pub open spec fn is_listing(texts: Seq<Text>, wanted: Set<Text>) -> bool {
    strictly_ordered(texts) && forall|text: Text| #[trigger]
        texts.contains(text) <==> wanted.contains(text)
}

/// The wanted texts, each once and in order.
pub open spec fn listing(wanted: Set<Text>) -> Seq<Text> {
    choose|texts: Seq<Text>| is_listing(texts, wanted)
}

/// There is one way only to list texts in order.
pub proof fn law_listing_is_unique(a: Seq<Text>, b: Seq<Text>, wanted: Set<Text>)
    requires
        is_listing(a, wanted),
        is_listing(b, wanted),
    ensures
        a == b,
    decreases a.len(),
{
    if a.len() == 0 {
        if b.len() > 0 {
            assert(b.contains(b[0]));
            assert(a.contains(b[0]));
        }
        assert(a =~= b);
    } else {
        let (x, y) = (a.last(), b.last());
        assert(a.contains(x));
        assert(b.contains(x));
        assert(b.contains(y));
        assert(a.contains(y));
        let i = choose|i: int| 0 <= i < b.len() && b[i] == x;
        let j = choose|j: int| 0 <= j < a.len() && a[j] == y;
        if x != y {
            assert(text_less(b[i], b[b.len() - 1]));
            assert(text_less(a[j], a[a.len() - 1]));
            law_text_order_is_transitive(x, y, x);
            law_text_order_is_irreflexive(x);
        }
        let rest = wanted.remove(x);
        lemma_listing_front(a, wanted);
        lemma_listing_front(b, wanted);
        law_listing_is_unique(a.drop_last(), b.drop_last(), rest);
        assert(a =~= a.drop_last().push(x));
        assert(b =~= b.drop_last().push(x));
    }
}

proof fn lemma_listing_front(texts: Seq<Text>, wanted: Set<Text>)
    requires
        texts.len() > 0,
        is_listing(texts, wanted),
    ensures
        is_listing(texts.drop_last(), wanted.remove(texts.last())),
{
    let front = texts.drop_last();
    assert forall|i: int, j: int| 0 <= i < j < front.len() implies text_less(
        #[trigger] front[i],
        #[trigger] front[j],
    ) by {
        assert(front[i] == texts[i] && front[j] == texts[j]);
    }
    assert forall|text: Text| #[trigger] front.contains(text) <==> wanted.remove(
        texts.last(),
    ).contains(text) by {
        if front.contains(text) {
            let i = choose|i: int| 0 <= i < front.len() && front[i] == text;
            assert(texts[i] == text);
            assert(texts.contains(text));
            law_text_order_is_irreflexive(text);
            assert(text_less(texts[i], texts[texts.len() - 1]));
        }
        if wanted.contains(text) && text != texts.last() {
            assert(texts.contains(text));
            let i = choose|i: int| 0 <= i < texts.len() && texts[i] == text;
            assert(front[i] == text);
        }
    }
}

/// What follows a text in a listing are the wanted texts behind it.
pub proof fn law_listing_goes_on_behind(texts: Seq<Text>, wanted: Set<Text>, at: int)
    requires
        is_listing(texts, wanted),
        0 <= at < texts.len(),
    ensures
        is_listing(
            texts.skip(at + 1),
            wanted.intersect(Set::new(|text: Text| text_less(texts[at], text))),
        ),
{
    let rest = texts.skip(at + 1);
    let behind = Set::new(|text: Text| text_less(texts[at], text));
    assert forall|i: int, j: int| 0 <= i < j < rest.len() implies text_less(
        #[trigger] rest[i],
        #[trigger] rest[j],
    ) by {
        assert(rest[i] == texts[at + 1 + i] && rest[j] == texts[at + 1 + j]);
    }
    assert forall|text: Text| #[trigger] rest.contains(text) <==> wanted.intersect(
        behind,
    ).contains(text) by {
        if rest.contains(text) {
            let i = choose|i: int| 0 <= i < rest.len() && rest[i] == text;
            assert(texts[at + 1 + i] == text);
            assert(texts.contains(text));
            assert(text_less(texts[at], texts[at + 1 + i]));
        }
        if wanted.contains(text) && text_less(texts[at], text) {
            assert(texts.contains(text));
            let i = choose|i: int| 0 <= i < texts.len() && texts[i] == text;
            if i <= at {
                if i < at {
                    assert(text_less(texts[i], texts[at]));
                    law_text_order_is_transitive(text, texts[at], text);
                }
                law_text_order_is_irreflexive(text);
            }
            assert(rest[i - at - 1] == text);
        }
    }
}

/// Puts a further text into a listing.
pub(crate) fn insert_text(texts: &mut Vec<String>, text: String, Ghost(wanted): Ghost<Set<Text>>)
    requires
        is_listing(models(old(texts)@), wanted),
        !wanted.contains(text@),
    ensures
        is_listing(models(final(texts)@), wanted.insert(text@)),
{
    let ghost before = models(texts@);
    let ghost added = text@;
    let mut at: usize = texts.len();
    while at > 0 && text_before(text.as_str(), texts[at - 1].as_str())
        invariant
            at <= texts.len(),
            before == models(texts@),
            added == text@,
            forall|k: int| at <= k < texts@.len() ==> text_less(added, #[trigger] before[k]),
        decreases at,
    {
        assert(before[at - 1] == texts@[at - 1]@);
        at = at - 1;
    }
    texts.insert(at, text);
    proof {
        let after = models(texts@);
        let cut = at as int;
        assert(after =~= before.insert(cut, added));
        if at > 0 {
            assert(before[at - 1] == texts@[at - 1]@);
            assert(before.contains(before[at - 1]));
            law_text_order_is_total(before[at - 1], added);
            assert(text_less(before[at - 1], added));
        }
        assert forall|i: int| 0 <= i < cut implies text_less(#[trigger] before[i], added) by {
            if i < cut - 1 {
                law_text_order_is_transitive(before[i], before[cut - 1], added);
            }
        }
        assert forall|i: int, j: int| 0 <= i < j < after.len() implies text_less(
            #[trigger] after[i],
            #[trigger] after[j],
        ) by {
            if i < cut {
                assert(after[i] == before[i]);
            } else if i > cut {
                assert(after[i] == before[i - 1]);
            }
            if j < cut {
                assert(after[j] == before[j]);
            } else if j > cut {
                assert(after[j] == before[j - 1]);
            }
        }
        assert forall|one: Text| #[trigger] after.contains(one) <==> wanted.insert(added).contains(
            one,
        ) by {
            if after.contains(one) {
                let i = choose|i: int| 0 <= i < after.len() && after[i] == one;
                if i < cut {
                    assert(before[i] == one);
                    assert(before.contains(one));
                } else if i > cut {
                    assert(before[i - 1] == one);
                    assert(before.contains(one));
                }
            }
            if one == added {
                assert(after[cut] == one);
            } else if wanted.contains(one) {
                assert(before.contains(one));
                let i = choose|i: int| 0 <= i < before.len() && before[i] == one;
                if i < cut {
                    assert(after[i] == one);
                } else {
                    assert(after[i + 1] == one);
                }
            }
        }
    }
}

/// Of two texts with the same beginning the one that ends there stands first; else the one with the
/// lesser character behind it does.
pub proof fn law_text_order_is_by_the_first_difference(
    start: Text,
    a: char,
    rest_a: Text,
    b: char,
    rest_b: Text,
)
    ensures
        a < b ==> text_less(start.push(a) + rest_a, start.push(b) + rest_b),
        text_less(start, start.push(a) + rest_a),
    decreases start.len(),
{
    let (x, y) = (start.push(a) + rest_a, start.push(b) + rest_b);
    if start.len() > 0 {
        let tail = start.drop_first();
        law_text_order_is_by_the_first_difference(tail, a, rest_a, b, rest_b);
        assert(x.drop_first() =~= tail.push(a) + rest_a);
        assert(y.drop_first() =~= tail.push(b) + rest_b);
        assert(x[0] == start[0] && y[0] == start[0]);
    } else {
        assert(x[0] == a && y[0] == b);
    }
}

} // verus!
