//! What every operation of the history keeps, and how operations relate.
use std::time::SystemTime;

use vstd::multiset::Multiset;
use vstd::prelude::*;

use crate::protocol::{Category, ItemId};
use crate::stack::{
    any_item, delete_spec, first_index, get_spec, has_hash, has_id, insert_spec, is_first,
    is_new_text_item, lemma_first_index, lemma_first_index_is, pin_spec, push_text_spec,
    set_category_spec, text_hash, touch_spec, unpin_spec, with_category, with_time, Item,
    PushOutcome, StackView, UnpinOutcome, MAX_ITEMS, MAX_PINS,
};

verus! {

broadcast use {
    vstd::seq_lib::group_to_multiset_ensures,
    vstd::multiset::group_multiset_axioms,
    vstd::seq_lib::lemma_multiset_commutative,
};

/// At most `MAX_ITEMS` recent items and at most `MAX_PINS` pins.
pub open spec fn within_limits(s: StackView) -> bool {
    s.0.len() <= MAX_ITEMS && s.1.len() <= MAX_PINS
}

/// All the items of the history, recent and pinned.
pub open spec fn contents(s: StackView) -> Multiset<Item> {
    s.0.to_multiset().add(s.1.to_multiset())
}

/// The items of an optional item.
pub open spec fn opt_items(o: Option<Item>) -> Multiset<Item> {
    match o {
        Some(x) => Multiset::singleton(x),
        None => Multiset::empty(),
    }
}

/// Inserting keeps the history within its limits, and keeps every item but
/// the evicted one.
pub proof fn law_insert(s: StackView, item: Item)
    ensures
        within_limits(s) ==> within_limits(insert_spec(s, item).0),
        contents(insert_spec(s, item).0).add(opt_items(insert_spec(s, item).1)) =~= contents(
            s,
        ).insert(item),
        insert_spec(s, item).0.0[0] == item,
        insert_spec(s, item).0.1 == s.1,
{
    let grown = seq![item] + s.0;
    assert(grown.to_multiset() =~= s.0.to_multiset().insert(item)) by {
        assert(seq![item].to_multiset() =~= Multiset::empty().insert(item)) by {
            assert(seq![item] =~= Seq::<Item>::empty().push(item));
        }
    }
    if grown.len() > MAX_ITEMS {
        let kept = grown.drop_last();
        assert(kept.push(grown.last()) =~= grown);
        assert(grown.to_multiset() =~= kept.to_multiset().insert(grown.last()));
        assert(kept.to_multiset().insert(grown.last()) =~= kept.to_multiset().add(
            Multiset::singleton(grown.last()),
        ));
        assert(kept.to_multiset().add(s.1.to_multiset()).add(Multiset::singleton(grown.last()))
            =~= grown.to_multiset().add(s.1.to_multiset()));
    } else {
        assert(grown.to_multiset().add(s.1.to_multiset()).add(Multiset::empty())
            =~= grown.to_multiset().add(s.1.to_multiset()));
    }
    assert(s.0.to_multiset().insert(item).add(s.1.to_multiset()) =~= s.0.to_multiset().add(
        s.1.to_multiset(),
    ).insert(item));
}

/// Touching keeps the number of recent items and of pins.
pub proof fn law_touch_keeps_sizes(s: StackView, h: Seq<u8>, t: SystemTime)
    ensures
        touch_spec(s, h, t).0.0.len() == s.0.len(),
        touch_spec(s, h, t).0.1.len() == s.1.len(),
        within_limits(s) ==> within_limits(touch_spec(s, h, t).0),
{
    lemma_first_index(s.0, has_hash(h));
    lemma_first_index(s.1, has_hash(h));
}

/// Touching finds exactly the contents already in the history.
pub proof fn law_touch_finds_known_content(s: StackView, h: Seq<u8>, t: SystemTime)
    ensures
        touch_spec(s, h, t).1 <==> (any_item(s.0, has_hash(h)) || any_item(s.1, has_hash(h))),
{
    lemma_first_index(s.0, has_hash(h));
    lemma_first_index(s.1, has_hash(h));
}

/// An inserted item is found again by its hash.
pub proof fn law_touch_after_insert(s: StackView, item: Item, t: SystemTime)
    ensures
        touch_spec(insert_spec(s, item).0, item.content_hash@, t).1,
{
    let after = insert_spec(s, item).0;
    law_insert(s, item);
    assert(has_hash(item.content_hash@)(after.0[0]));
    law_touch_finds_known_content(after, item.content_hash@, t);
}

/// Pushing a text whose content is already in the history touches it: nothing
/// is added. Pushing any text keeps the history within its limits, and the
/// text can be found by its hash afterwards.
pub proof fn law_push_text(s: StackView, content: String, t: SystemTime, fresh: Item)
    requires
        is_new_text_item(fresh, content),
    ensures
        (any_item(s.0, has_hash(text_hash(content@))) || any_item(s.1, has_hash(text_hash(content@))))
            ==> ({
            let (after, outcome) = push_text_spec(s, text_hash(content@), t, fresh);
            &&& outcome == PushOutcome::Touched
            &&& after.0.len() == s.0.len()
            &&& after.1.len() == s.1.len()
        }),
        within_limits(s) ==> within_limits(push_text_spec(s, text_hash(content@), t, fresh).0),
        ({
            let after = push_text_spec(s, text_hash(content@), t, fresh).0;
            any_item(after.0, has_hash(text_hash(content@))) || any_item(after.1, has_hash(text_hash(content@)))
        }),
{
    let h = text_hash(content@);
    law_touch_keeps_sizes(s, h, t);
    law_touch_finds_known_content(s, h, t);
    law_insert(s, fresh);
    let (touched, found) = touch_spec(s, h, t);
    if found {
        lemma_first_index(s.0, has_hash(h));
        lemma_first_index(s.1, has_hash(h));
        match first_index(s.0, has_hash(h)) {
            Some(p) => {
                assert(has_hash(h)(touched.0[0]));
            },
            None => {
                let q = first_index(s.1, has_hash(h)).unwrap();
                assert(touched.1[q] == with_time(s.1[q], t));
                assert(has_hash(h)(touched.1[q]));
            },
        }
    } else {
        let after = insert_spec(s, fresh).0;
        assert(has_hash(h)(after.0[0]));
    }
}

/// Pinning keeps the history within its limits and keeps all its items.
pub proof fn law_pin(s: StackView, id: ItemId)
    ensures
        within_limits(s) ==> within_limits(pin_spec(s, id).0),
        contents(pin_spec(s, id).0) =~= contents(s),
        pin_spec(s, id).1 is Err ==> pin_spec(s, id).0 == s,
{
    lemma_first_index(s.0, has_id(id));
    match first_index(s.0, has_id(id)) {
        Some(p) => {
            if s.1.len() < MAX_PINS {
                assert(s.0.remove(p).to_multiset() =~= s.0.to_multiset().remove(s.0[p]));
            }
        },
        None => {},
    }
}

/// Unpinning keeps the history within its limits, and keeps every item but
/// the evicted one.
pub proof fn law_unpin(s: StackView, id: ItemId)
    ensures
        within_limits(s) ==> within_limits(unpin_spec(s, id).0),
        contents(unpin_spec(s, id).0).add(
            match unpin_spec(s, id).1 {
                UnpinOutcome::Unpinned { evicted } => opt_items(evicted),
                UnpinOutcome::NotPinned => Multiset::empty(),
            },
        ) =~= contents(s),
        unpin_spec(s, id).1 == UnpinOutcome::NotPinned ==> unpin_spec(s, id).0 == s,
{
    lemma_first_index(s.1, has_id(id));
    match first_index(s.1, has_id(id)) {
        Some(q) => {
            let x = s.1[q];
            let rest = (s.0, s.1.remove(q));
            law_insert(rest, x);
            assert(s.1.remove(q).to_multiset() =~= s.1.to_multiset().remove(x));
        },
        None => {},
    }
}

/// Setting a category keeps the sizes of the history.
pub proof fn law_set_category_keeps_sizes(s: StackView, id: ItemId, c: Category)
    ensures
        set_category_spec(s, id, c).0.0.len() == s.0.len(),
        set_category_spec(s, id, c).0.1.len() == s.1.len(),
        within_limits(s) ==> within_limits(set_category_spec(s, id, c).0),
{
    lemma_first_index(s.0, has_id(id));
    lemma_first_index(s.1, has_id(id));
}

/// Setting a category succeeds exactly for the ids in the history, and the
/// item then read back by that id has the category set.
pub proof fn law_set_category_then_get(s: StackView, id: ItemId, c: Category)
    ensures
        set_category_spec(s, id, c).1 is Ok <==> get_spec(s, id) is Some,
        get_spec(s, id) is Some ==> get_spec(set_category_spec(s, id, c).0, id) == Some(
            with_category(get_spec(s, id).unwrap(), c),
        ),
{
    let after = set_category_spec(s, id, c).0;
    lemma_first_index(s.0, has_id(id));
    lemma_first_index(s.1, has_id(id));
    match first_index(s.0, has_id(id)) {
        Some(p) => {
            assert(is_first(after.0, has_id(id), p));
            lemma_first_index_is(after.0, has_id(id), p);
        },
        None => {
            match first_index(s.1, has_id(id)) {
                Some(q) => {
                    assert(after.0 == s.0);
                    assert(is_first(after.1, has_id(id), q));
                    lemma_first_index_is(after.1, has_id(id), q);
                },
                None => {},
            }
        },
    }
}

/// Deleting removes exactly the item that `get` gives for that id, and keeps
/// every other item.
pub proof fn law_delete(s: StackView, id: ItemId)
    ensures
        delete_spec(s, id).1 == get_spec(s, id),
        contents(delete_spec(s, id).0).add(opt_items(delete_spec(s, id).1)) =~= contents(s),
        within_limits(s) ==> within_limits(delete_spec(s, id).0),
{
    lemma_first_index(s.0, has_id(id));
    lemma_first_index(s.1, has_id(id));
    match first_index(s.0, has_id(id)) {
        Some(p) => {
            assert(s.0.remove(p).to_multiset() =~= s.0.to_multiset().remove(s.0[p]));
        },
        None => {
            match first_index(s.1, has_id(id)) {
                Some(q) => {
                    assert(s.1.remove(q).to_multiset() =~= s.1.to_multiset().remove(s.1[q]));
                },
                None => {},
            }
        },
    }
}

/// No two items of the history share an id.
pub open spec fn ids_distinct(s: StackView) -> bool {
    let all = s.0 + s.1;
    forall|i: int, j: int| 0 <= i < j < all.len() ==> #[trigger] all[i].id != #[trigger] all[j].id
}

/// When ids are distinct, an item once deleted is no longer found.
pub proof fn law_delete_then_get(s: StackView, id: ItemId)
    requires
        ids_distinct(s),
    ensures
        get_spec(delete_spec(s, id).0, id) is None,
{
    let after = delete_spec(s, id).0;
    let all = s.0 + s.1;
    lemma_first_index(s.0, has_id(id));
    lemma_first_index(s.1, has_id(id));
    lemma_first_index(after.0, has_id(id));
    lemma_first_index(after.1, has_id(id));
    match first_index(s.0, has_id(id)) {
        Some(p) => {
            assert forall|i: int| 0 <= i < after.0.len() implies !has_id(id)(#[trigger] after.0[i]) by {
                if i < p {
                    assert(all[i] == s.0[i]);
                    assert(all[p] == s.0[p]);
                } else {
                    assert(all[i + 1] == s.0[i + 1]);
                    assert(all[p] == s.0[p]);
                }
            }
            assert forall|i: int| 0 <= i < after.1.len() implies !has_id(id)(#[trigger] after.1[i]) by {
                assert(all[s.0.len() + i] == s.1[i]);
                assert(all[p] == s.0[p]);
            }
        },
        None => {
            match first_index(s.1, has_id(id)) {
                Some(q) => {
                    assert forall|i: int| 0 <= i < after.1.len() implies !has_id(id)(#[trigger] after.1[i]) by {
                        if i < q {
                            assert(all[s.0.len() + i] == s.1[i]);
                            assert(all[s.0.len() + q] == s.1[q]);
                        } else {
                            assert(all[s.0.len() + i + 1] == s.1[i + 1]);
                            assert(all[s.0.len() + q] == s.1[q]);
                        }
                    }
                },
                None => {},
            }
        },
    }
}

/// Pinning an item and unpinning it again puts it back on top of the recent
/// items and gives back the pins as they were (when the id was not pinned
/// already and the history was within its limits, so that nothing is
/// evicted).
pub proof fn law_pin_then_unpin(s: StackView, id: ItemId)
    requires
        within_limits(s),
        !any_item(s.1, has_id(id)),
        pin_spec(s, id).1 is Ok,
    ensures
        ({
            let p = first_index(s.0, has_id(id)).unwrap();
            let (after, outcome) = unpin_spec(pin_spec(s, id).0, id);
            &&& after.0 == seq![s.0[p]] + s.0.remove(p)
            &&& after.1 == s.1
            &&& outcome == UnpinOutcome::Unpinned { evicted: None }
        }),
{
    lemma_first_index(s.0, has_id(id));
    let p = first_index(s.0, has_id(id)).unwrap();
    let pinned = pin_spec(s, id).0;
    let q = s.1.len() as int;
    assert(pinned.1[q] == s.0[p]);
    assert forall|j: int| 0 <= j < q implies !has_id(id)(#[trigger] pinned.1[j]) by {
        assert(pinned.1[j] == s.1[j]);
    }
    assert(is_first(pinned.1, has_id(id), q));
    lemma_first_index_is(pinned.1, has_id(id), q);
    assert(pinned.1.remove(q) =~= s.1);
}

// ---------------------------------------------------------------------------
// Content hashes stay unique

/// No two items of `items` have the same content hash.
pub open spec fn distinct_hashes(items: Seq<Item>) -> bool {
    forall|i: int, j: int|
        0 <= i < items.len() && 0 <= j < items.len() && i != j
            ==> #[trigger] items[i].content_hash@ != #[trigger] items[j].content_hash@
}

/// No two items of the history, recent or pinned, have the same content hash.
pub open spec fn hashes_distinct(s: StackView) -> bool {
    distinct_hashes(s.0 + s.1)
}

/// `b` takes its hashes from distinct positions of `a`, through `f`.
proof fn lemma_hashes_by_map(a: Seq<Item>, b: Seq<Item>, f: spec_fn(int) -> int)
    requires
        distinct_hashes(a),
        forall|i: int|
            0 <= i < b.len() ==> 0 <= #[trigger] f(i) < a.len() && b[i].content_hash@
                == a[f(i)].content_hash@,
        forall|i: int, j: int|
            0 <= i < b.len() && 0 <= j < b.len() && i != j ==> #[trigger] f(i) != #[trigger] f(j),
    ensures
        distinct_hashes(b),
{
    assert forall|i: int, j: int|
        0 <= i < b.len() && 0 <= j < b.len() && i != j implies #[trigger] b[i].content_hash@
        != #[trigger] b[j].content_hash@ by {
        assert(f(i) != f(j));
        assert(a[f(i)].content_hash@ != a[f(j)].content_hash@);
    }
}

/// Putting in front an item whose hash `b` lacks keeps hashes distinct.
proof fn lemma_hashes_push_front(x: Item, b: Seq<Item>)
    requires
        distinct_hashes(b),
        forall|k: int| 0 <= k < b.len() ==> (#[trigger] b[k]).content_hash@ != x.content_hash@,
    ensures
        distinct_hashes(seq![x] + b),
{
    let c = seq![x] + b;
    assert forall|i: int, j: int|
        0 <= i < c.len() && 0 <= j < c.len() && i != j implies #[trigger] c[i].content_hash@
        != #[trigger] c[j].content_hash@ by {
        if i == 0 {
            assert(c[j] == b[j - 1]);
        } else if j == 0 {
            assert(c[i] == b[i - 1]);
        } else {
            assert(c[i] == b[i - 1]);
            assert(c[j] == b[j - 1]);
        }
    }
}

/// Touching keeps the content hashes of the history unique.
pub proof fn law_touch_keeps_hashes_distinct(s: StackView, h: Seq<u8>, t: SystemTime)
    ensures
        hashes_distinct(s) ==> hashes_distinct(touch_spec(s, h, t).0),
{
    if hashes_distinct(s) {
        lemma_first_index(s.0, has_hash(h));
        lemma_first_index(s.1, has_hash(h));
        let a = s.0 + s.1;
        let b = touch_spec(s, h, t).0.0 + touch_spec(s, h, t).0.1;
        match first_index(s.0, has_hash(h)) {
            Some(p) => {
                let f = |k: int| if k == 0 {
                    p
                } else if k <= p {
                    k - 1
                } else {
                    k
                };
                assert forall|i: int| 0 <= i < b.len() implies 0 <= #[trigger] f(i) < a.len()
                    && b[i].content_hash@ == a[f(i)].content_hash@ by {
                    if i >= s.0.len() {
                        assert(b[i] == s.1[i - s.0.len()]);
                        assert(a[i] == s.1[i - s.0.len()]);
                    } else if i > 0 {
                        assert(b[i] == s.0.remove(p)[i - 1]);
                    }
                }
                lemma_hashes_by_map(a, b, f);
            },
            None => {
                match first_index(s.1, has_hash(h)) {
                    Some(q) => {
                        let f = |k: int| k;
                        assert forall|i: int| 0 <= i < b.len() implies 0 <= #[trigger] f(i) < a.len()
                            && b[i].content_hash@ == a[f(i)].content_hash@ by {
                            if i >= s.0.len() {
                                assert(b[i] == s.1.update(q, with_time(s.1[q], t))[i - s.0.len()]);
                                assert(a[i] == s.1[i - s.0.len()]);
                            }
                        }
                        lemma_hashes_by_map(a, b, f);
                    },
                    None => {},
                }
            },
        }
    }
}

/// Inserting an item whose content is not in the history keeps the content
/// hashes unique.
pub proof fn law_insert_new_content_keeps_hashes_distinct(s: StackView, item: Item)
    requires
        hashes_distinct(s),
        !any_item(s.0, has_hash(item.content_hash@)),
        !any_item(s.1, has_hash(item.content_hash@)),
    ensures
        hashes_distinct(insert_spec(s, item).0),
{
    let a = s.0 + s.1;
    let grown = seq![item] + s.0;
    let kept = if grown.len() > MAX_ITEMS {
        s.0.drop_last()
    } else {
        s.0
    };
    assert(insert_spec(s, item).0.0 == seq![item] + kept) by {
        if grown.len() > MAX_ITEMS {
            assert(grown.drop_last() =~= seq![item] + s.0.drop_last());
        }
    }
    let b = kept + s.1;
    let shift = s.0.len() - kept.len();
    let f = |k: int| if k < kept.len() {
        k
    } else {
        k + shift
    };
    assert forall|i: int| 0 <= i < b.len() implies 0 <= #[trigger] f(i) < a.len()
        && b[i].content_hash@ == a[f(i)].content_hash@ by {
        if i < kept.len() {
            assert(b[i] == s.0[i]);
            assert(a[i] == s.0[i]);
        } else {
            assert(b[i] == s.1[i - kept.len()]);
            assert(a[i + shift] == s.1[i - kept.len()]);
        }
    }
    lemma_hashes_by_map(a, b, f);
    assert forall|k: int| 0 <= k < b.len() implies (#[trigger] b[k]).content_hash@
        != item.content_hash@ by {
        assert(0 <= f(k) < a.len());
        if f(k) < s.0.len() {
            assert(a[f(k)] == s.0[f(k)]);
            assert(!has_hash(item.content_hash@)(s.0[f(k)]));
        } else {
            assert(a[f(k)] == s.1[f(k) - s.0.len()]);
            assert(!has_hash(item.content_hash@)(s.1[f(k) - s.0.len()]));
        }
    }
    lemma_hashes_push_front(item, b);
    assert(insert_spec(s, item).0.0 + insert_spec(s, item).0.1 =~= seq![item] + b);
}

/// Pushing a text keeps the content hashes of the history unique: a known
/// content is touched, a new one is inserted.
pub proof fn law_push_text_keeps_hashes_distinct(s: StackView, content: String, t: SystemTime, fresh: Item)
    requires
        is_new_text_item(fresh, content),
    ensures
        hashes_distinct(s) ==> hashes_distinct(push_text_spec(s, text_hash(content@), t, fresh).0),
{
    let h = text_hash(content@);
    law_touch_keeps_hashes_distinct(s, h, t);
    law_touch_finds_known_content(s, h, t);
    if hashes_distinct(s) && !touch_spec(s, h, t).1 {
        law_insert_new_content_keeps_hashes_distinct(s, fresh);
    }
}

/// Setting a category keeps the content hashes of the history unique.
pub proof fn law_set_category_keeps_hashes_distinct(s: StackView, id: ItemId, c: Category)
    ensures
        hashes_distinct(s) ==> hashes_distinct(set_category_spec(s, id, c).0),
{
    if hashes_distinct(s) {
        lemma_first_index(s.0, has_id(id));
        lemma_first_index(s.1, has_id(id));
        let a = s.0 + s.1;
        let after = set_category_spec(s, id, c).0;
        let b = after.0 + after.1;
        let f = |k: int| k;
        assert forall|i: int| 0 <= i < b.len() implies 0 <= #[trigger] f(i) < a.len()
            && b[i].content_hash@ == a[f(i)].content_hash@ by {
            if i < s.0.len() {
                assert(b[i] == after.0[i]);
                assert(a[i] == s.0[i]);
            } else {
                assert(b[i] == after.1[i - s.0.len()]);
                assert(a[i] == s.1[i - s.0.len()]);
            }
        }
        lemma_hashes_by_map(a, b, f);
    }
}

/// Pinning keeps the content hashes of the history unique.
pub proof fn law_pin_keeps_hashes_distinct(s: StackView, id: ItemId)
    ensures
        hashes_distinct(s) ==> hashes_distinct(pin_spec(s, id).0),
{
    lemma_first_index(s.0, has_id(id));
    if hashes_distinct(s) && pin_spec(s, id).1 is Ok {
        let p = first_index(s.0, has_id(id)).unwrap();
        let a = s.0 + s.1;
        let after = pin_spec(s, id).0;
        let b = after.0 + after.1;
        let n0 = s.0.len() - 1;
        let f = |k: int| if k < p {
            k
        } else if k < n0 + s.1.len() {
            k + 1
        } else {
            p
        };
        assert forall|i: int| 0 <= i < b.len() implies 0 <= #[trigger] f(i) < a.len()
            && b[i].content_hash@ == a[f(i)].content_hash@ by {
            if i < n0 {
                assert(b[i] == s.0.remove(p)[i]);
                assert(a[f(i)] == s.0[f(i)]);
            } else if i < n0 + s.1.len() {
                assert(b[i] == s.1.push(s.0[p])[i - n0]);
                assert(a[i + 1] == s.1[i - n0]);
            } else {
                assert(b[i] == s.1.push(s.0[p])[i - n0]);
                assert(a[p] == s.0[p]);
            }
        }
        lemma_hashes_by_map(a, b, f);
    }
}

/// Unpinning keeps the content hashes of the history unique.
pub proof fn law_unpin_keeps_hashes_distinct(s: StackView, id: ItemId)
    ensures
        hashes_distinct(s) ==> hashes_distinct(unpin_spec(s, id).0),
{
    lemma_first_index(s.1, has_id(id));
    if hashes_distinct(s) && first_index(s.1, has_id(id)) is Some {
        let q = first_index(s.1, has_id(id)).unwrap();
        let x = s.1[q];
        let a = s.0 + s.1;
        let after = unpin_spec(s, id).0;
        let grown = seq![x] + s.0;
        let kept = if grown.len() > MAX_ITEMS {
            s.0.drop_last()
        } else {
            s.0
        };
        assert(after.0 == seq![x] + kept) by {
            if grown.len() > MAX_ITEMS {
                assert(grown.drop_last() =~= seq![x] + s.0.drop_last());
            }
        }
        let b = after.0 + after.1;
        let n = kept.len();
        let f = |k: int| if k == 0 {
            s.0.len() + q
        } else if k <= n {
            k - 1
        } else if k - 1 - n < q {
            s.0.len() + (k - 1 - n)
        } else {
            s.0.len() + (k - n)
        };
        assert forall|i: int| 0 <= i < b.len() implies 0 <= #[trigger] f(i) < a.len()
            && b[i].content_hash@ == a[f(i)].content_hash@ by {
            if i == 0 {
                assert(b[0] == x);
                assert(a[s.0.len() + q] == s.1[q]);
            } else if i <= n {
                assert(b[i] == kept[i - 1]);
                assert(a[i - 1] == s.0[i - 1]);
            } else {
                let m = i - 1 - n;
                assert(b[i] == s.1.remove(q)[m]);
                if m < q {
                    assert(a[s.0.len() + m] == s.1[m]);
                } else {
                    assert(a[s.0.len() + m + 1] == s.1[m + 1]);
                }
            }
        }
        lemma_hashes_by_map(a, b, f);
    }
}

/// Deleting keeps the content hashes of the history unique.
pub proof fn law_delete_keeps_hashes_distinct(s: StackView, id: ItemId)
    ensures
        hashes_distinct(s) ==> hashes_distinct(delete_spec(s, id).0),
{
    lemma_first_index(s.0, has_id(id));
    lemma_first_index(s.1, has_id(id));
    if hashes_distinct(s) && delete_spec(s, id).1 is Some {
        let a = s.0 + s.1;
        let after = delete_spec(s, id).0;
        let b = after.0 + after.1;
        let r = match first_index(s.0, has_id(id)) {
            Some(p) => p,
            None => s.0.len() + first_index(s.1, has_id(id)).unwrap(),
        };
        assert(b =~= a.remove(r));
        let f = |k: int| if k < r {
            k
        } else {
            k + 1
        };
        lemma_hashes_by_map(a, b, f);
    }
}

} // verus!
