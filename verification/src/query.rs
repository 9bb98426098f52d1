//! The choice of the notes that a list shows, and their order.

use vstd::prelude::*;
use crate::errors::{Error, ErrorView};
use crate::item::{Item, ItemView, Status, views};
use crate::utils::{parse_last_touched, spec_parse_last_touched};
use crate::BoolFlags;

verus! {

/// The number by which a list is sorted: the moment of the last change, in
/// seconds since the Unix epoch, where the list is sorted by date, else the
/// id of the note.
pub open spec fn sort_key(datesort: bool) -> spec_fn(ItemView) -> int {
    |note: ItemView|
        if datesort {
            spec_parse_last_touched(note.last_touched)->0 as int
        } else {
            note.id as int
        }
}

/// The test "the key of the note is `k`".
pub open spec fn has_key(key: spec_fn(ItemView) -> int, k: int) -> spec_fn(ItemView) -> bool {
    |note: ItemView| key(note) == k
}

/// The notes of `notes` whose key is `k`, in their order.
pub open spec fn with_key(notes: Seq<ItemView>, key: spec_fn(ItemView) -> int, k: int) -> Seq<
    ItemView,
> {
    notes.filter(has_key(key, k))
}

/// The keys of the notes never decrease.
pub open spec fn is_sorted_by(notes: Seq<ItemView>, key: spec_fn(ItemView) -> int) -> bool {
    forall|i: int, j: int| 0 <= i < j < notes.len() ==> key(notes[i]) <= key(notes[j])
}

/// `sorted` holds the notes of `notes` in the order of their keys, and
/// notes of one key in the order that they have in `notes`.
pub open spec fn is_stable_sort(
    sorted: Seq<ItemView>,
    notes: Seq<ItemView>,
    key: spec_fn(ItemView) -> int,
) -> bool {
    &&& is_sorted_by(sorted, key)
    &&& forall|k: int| #[trigger] with_key(sorted, key, k) == with_key(notes, key, k)
}

/// The test "the note has the status that was asked for"; every note
/// passes where none was asked for.
pub open spec fn has_status(status: Option<Status>) -> spec_fn(ItemView) -> bool {
    |note: ItemView|
        match status {
            Some(s) => note.status == s,
            None => true,
        }
}

/// At most `limit` notes from the front, all of them where `limit` is 0.
pub open spec fn limited(notes: Seq<ItemView>, limit: usize) -> Seq<ItemView> {
    if limit == 0 || limit >= notes.len() {
        notes
    } else {
        notes.take(limit as int)
    }
}

/// The notes in the direction that was asked for.
pub open spec fn directed(notes: Seq<ItemView>, reverse: bool) -> Seq<ItemView> {
    if reverse {
        notes.reverse()
    } else {
        notes
    }
}

/// Whether the time of last change of every note can be read.
pub open spec fn all_dated(notes: Seq<ItemView>) -> bool {
    forall|i: int|
        0 <= i < notes.len() ==> spec_parse_last_touched(#[trigger] notes[i].last_touched) is Some
}

/// Whether `shown` is what a list of `notes` shows: the notes with the
/// status asked for, in the stable order of their keys, turned round where
/// that was asked for, and then cut to the limit.
pub open spec fn is_selection(
    shown: Seq<ItemView>,
    notes: Seq<ItemView>,
    limit: usize,
    flags: BoolFlags,
    status: Option<Status>,
) -> bool {
    exists|sorted: Seq<ItemView>|
        #![trigger is_stable_sort(sorted, notes.filter(has_status(status)), sort_key(flags.datesort))]
        is_stable_sort(sorted, notes.filter(has_status(status)), sort_key(flags.datesort))
            && shown == limited(directed(sorted, flags.reverse), limit)
}

/// Two sorted lists that hold, for every key, the same notes in the same
/// order are one list.
proof fn lemma_same_groups(a: Seq<ItemView>, b: Seq<ItemView>, key: spec_fn(ItemView) -> int)
    requires
        is_sorted_by(a, key),
        is_sorted_by(b, key),
        forall|k: int| #[trigger] with_key(a, key, k) == with_key(b, key, k),
    ensures
        a == b,
    decreases a.len(),
{
    if a.len() == 0 {
        if b.len() > 0 {
            let k = key(b[0]);
            b.lemma_filter_contains(has_key(key, k), 0);
            assert(with_key(a, key, k) == with_key(b, key, k));
            a.lemma_filter_len(has_key(key, k));
            assert(with_key(b, key, k).len() == 0);
            assert(false);
        }
        assert(a =~= b);
    } else {
        let x = a.last();
        let k = key(x);
        let pred = has_key(key, k);
        let a1 = a.drop_last();
        assert(a =~= a1.push(x));
        a1.lemma_filter_push(x, pred);
        let group = with_key(a, key, k);
        assert(group == a1.filter(pred).push(x));
        assert(group.last() == x);
        assert(with_key(b, key, k) == group);
        b.lemma_filter_len(pred);
        let y = b.last();
        let k2 = key(y);
        let b1 = b.drop_last();
        assert(b =~= b1.push(y));
        // The key of x is not larger than that of y: x is a note of b.
        assert(group[group.len() - 1] == x);
        assert(group.contains(x));
        b.lemma_filter_contains_rev(pred, x);
        let m = choose|m: int| 0 <= m < b.len() && b[m] == x;
        assert(key(b[m]) <= key(b[b.len() - 1]));
        // And the other way round: y is a note of a.
        b.lemma_filter_contains(has_key(key, k2), b.len() - 1);
        assert(with_key(a, key, k2) == with_key(b, key, k2));
        a.lemma_filter_contains_rev(has_key(key, k2), y);
        let n = choose|n: int| 0 <= n < a.len() && a[n] == y;
        assert(key(a[n]) <= key(a[a.len() - 1]));
        assert(k == k2);
        b1.lemma_filter_push(y, pred);
        assert(group == b1.filter(pred).push(y));
        assert(x == y);
        assert(a1.filter(pred) =~= group.drop_last());
        assert(b1.filter(pred) =~= group.drop_last());
        assert forall|j: int| #[trigger] with_key(a1, key, j) == with_key(b1, key, j) by {
            a1.lemma_filter_push(x, has_key(key, j));
            b1.lemma_filter_push(y, has_key(key, j));
            assert(with_key(a, key, j) == with_key(b, key, j));
        }
        assert forall|i: int, j: int| 0 <= i < j < a1.len() implies key(a1[i]) <= key(a1[j]) by {
            assert(a1[i] == a[i] && a1[j] == a[j]);
        }
        assert forall|i: int, j: int| 0 <= i < j < b1.len() implies key(b1[i]) <= key(b1[j]) by {
            assert(b1[i] == b[i] && b1[j] == b[j]);
        }
        lemma_same_groups(a1, b1, key);
        assert(a =~= b);
    }
}

/// A list has one stable order only.
pub proof fn lemma_stable_sort_is_unique(
    a: Seq<ItemView>,
    b: Seq<ItemView>,
    notes: Seq<ItemView>,
    key: spec_fn(ItemView) -> int,
)
    requires
        is_stable_sort(a, notes, key),
        is_stable_sort(b, notes, key),
    ensures
        a == b,
{
    assert forall|k: int| #[trigger] with_key(a, key, k) == with_key(b, key, k) by {
        assert(with_key(a, key, k) == with_key(notes, key, k));
        assert(with_key(b, key, k) == with_key(notes, key, k));
    }
    lemma_same_groups(a, b, key);
}

/// What a list shows is settled by the notes, the limit, the flags and the
/// status that was asked for.
pub proof fn lemma_selection_is_unique(
    first: Seq<ItemView>,
    second: Seq<ItemView>,
    notes: Seq<ItemView>,
    limit: usize,
    flags: BoolFlags,
    status: Option<Status>,
)
    requires
        is_selection(first, notes, limit, flags, status),
        is_selection(second, notes, limit, flags, status),
    ensures
        first == second,
{
    let wanted = notes.filter(has_status(status));
    let a = choose|sorted: Seq<ItemView>|
        #![trigger is_stable_sort(sorted, notes.filter(has_status(status)), sort_key(flags.datesort))]
        is_stable_sort(sorted, wanted, sort_key(flags.datesort)) && first == limited(
            directed(sorted, flags.reverse),
            limit,
        );
    let b = choose|sorted: Seq<ItemView>|
        #![trigger is_stable_sort(sorted, notes.filter(has_status(status)), sort_key(flags.datesort))]
        is_stable_sort(sorted, wanted, sort_key(flags.datesort)) && second == limited(
            directed(sorted, flags.reverse),
            limit,
        );
    lemma_stable_sort_is_unique(a, b, wanted, sort_key(flags.datesort));
}

/// Putting a note into a sorted list behind every note whose key is not
/// larger keeps, for every key, the notes of that key in the order in which
/// they came.
proof fn lemma_insert_filter(
    acc: Seq<ItemView>,
    x: ItemView,
    p: int,
    key: spec_fn(ItemView) -> int,
    k: int,
)
    requires
        0 <= p <= acc.len(),
        forall|i: int| p <= i < acc.len() ==> key(acc[i]) > key(x),
    ensures
        with_key(acc.insert(p, x), key, k) == with_key(acc.push(x), key, k),
{
    let pred = has_key(key, k);
    let front = acc.take(p);
    let back = acc.skip(p);
    assert(acc.insert(p, x) =~= front.push(x) + back);
    assert(acc =~= front + back);
    Seq::filter_distributes_over_add(front.push(x), back, pred);
    Seq::filter_distributes_over_add(front, back, pred);
    front.lemma_filter_push(x, pred);
    acc.lemma_filter_push(x, pred);
    if key(x) == k {
        assert forall|i: int| 0 <= i < back.len() implies !pred(#[trigger] back[i]) by {
            assert(back[i] == acc[p + i]);
        }
        assert(back.all(|n: ItemView| !pred(n)));
        back.lemma_all_neg_filter_empty(pred);
        assert(back.filter(pred) =~= Seq::<ItemView>::empty());
        assert(front.filter(pred).push(x) + back.filter(pred) =~= (front.filter(pred)
            + back.filter(pred)).push(x));
    }
}

/// Putting a note into a sorted list between the notes whose key is not
/// larger and those whose key is larger keeps the list sorted.
proof fn lemma_insert_sorted(acc: Seq<ItemView>, x: ItemView, p: int, key: spec_fn(ItemView) -> int)
    requires
        is_sorted_by(acc, key),
        0 <= p <= acc.len(),
        forall|i: int| 0 <= i < p ==> key(acc[i]) <= key(x),
        forall|i: int| p <= i < acc.len() ==> key(acc[i]) > key(x),
    ensures
        is_sorted_by(acc.insert(p, x), key),
{
    let after = acc.insert(p, x);
    assert forall|i: int, j: int| 0 <= i < j < after.len() implies key(after[i]) <= key(
        after[j],
    ) by {
        if j < p {
            assert(after[i] == acc[i] && after[j] == acc[j]);
        } else if j == p {
            assert(after[i] == acc[i]);
        } else if i < p {
            assert(after[i] == acc[i] && after[j] == acc[j - 1]);
        } else if i == p {
            assert(after[j] == acc[j - 1]);
        } else {
            assert(after[i] == acc[i - 1] && after[j] == acc[j - 1]);
        }
    }
}

/// The notes of `items` in the stable order of `keys`, where `keys[i]` is
/// the key of `items[i]`.
fn sort_by_keys(items: &Vec<Item>, keys: &Vec<i128>, Ghost(key): Ghost<spec_fn(ItemView) -> int>) -> (r:
    Vec<Item>)
    requires
        items.len() == keys.len(),
        forall|i: int| 0 <= i < items.len() ==> keys[i] as int == key(#[trigger] items[i]@),
    ensures
        is_stable_sort(views(r@), views(items@), key),
{
    let mut out: Vec<Item> = Vec::new();
    let mut out_keys: Vec<i128> = Vec::new();
    let mut n: usize = 0;
    proof {
        assert(views(items@.take(0)) =~= Seq::<ItemView>::empty());
        assert(views(out@) =~= Seq::<ItemView>::empty());
    }
    while n < items.len()
        invariant
            n <= items.len(),
            items.len() == keys.len(),
            forall|i: int| 0 <= i < items.len() ==> keys[i] as int == key(#[trigger] items[i]@),
            out.len() == n,
            out_keys.len() == n,
            forall|i: int| 0 <= i < n ==> out_keys[i] as int == key(#[trigger] out[i]@),
            is_sorted_by(views(out@), key),
            forall|k: int|
                #[trigger] with_key(views(out@), key, k) == with_key(
                    views(items@.take(n as int)),
                    key,
                    k,
                ),
        decreases items.len() - n,
    {
        let k = keys[n];
        let mut p: usize = out.len();
        while p > 0 && out_keys[p - 1] > k
            invariant
                p <= out.len(),
                out.len() == out_keys.len(),
                forall|i: int| p <= i < out.len() ==> out_keys[i] > k,
            decreases p,
        {
            p -= 1;
        }
        let item = items[n].duplicate();
        let ghost acc = views(out@);
        let ghost prefix = views(items@.take(n as int));
        proof {
            assert(key(item@) == k as int);
            assert forall|i: int| 0 <= i < p implies key(acc[i]) <= key(item@) by {
                if p > 0 {
                    assert(acc[i] == out[i]@);
                    assert(acc[p - 1] == out[p - 1]@);
                    assert(key(acc[i]) <= key(acc[p - 1]));
                }
            }
            assert forall|i: int| p <= i < acc.len() implies key(acc[i]) > key(item@) by {
                assert(acc[i] == out[i]@);
            }
            lemma_insert_sorted(acc, item@, p as int, key);
            assert forall|kk: int| #[trigger]
                with_key(acc.insert(p as int, item@), key, kk) == with_key(
                    prefix.push(item@),
                    key,
                    kk,
                ) by {
                lemma_insert_filter(acc, item@, p as int, key, kk);
                acc.lemma_filter_push(item@, has_key(key, kk));
                prefix.lemma_filter_push(item@, has_key(key, kk));
                assert(with_key(acc, key, kk) == with_key(prefix, key, kk));
            }
        }
        out.insert(p, item);
        out_keys.insert(p, k);
        n += 1;
        proof {
            assert(views(out@) =~= acc.insert(p as int, item@));
            assert(views(items@.take(n as int)) =~= prefix.push(item@));
        }
    }
    proof {
        assert(items@.take(items.len() as int) =~= items@);
    }
    out
}

/// The key of every note, or `InvalidTimestamp` with the first time of last
/// change that cannot be read where the list is sorted by date.
fn keys_of(notes: &Vec<Item>, datesort: bool) -> (r: Result<Vec<i128>, Error>)
    ensures
        r is Ok <==> !datesort || all_dated(views(notes@)),
        r is Ok ==> r->Ok_0.len() == notes.len() && forall|i: int|
            0 <= i < notes.len() ==> r->Ok_0[i] as int == sort_key(datesort)(#[trigger] notes[i]@),
        r is Err ==> exists|i: int|
            0 <= i < notes.len() && spec_parse_last_touched(#[trigger] notes[i]@.last_touched)
                is None && r->Err_0@ == ErrorView::InvalidTimestamp(notes[i]@.last_touched),
{
    let mut keys: Vec<i128> = Vec::new();
    let mut i: usize = 0;
    while i < notes.len()
        invariant
            i <= notes.len(),
            keys.len() == i,
            datesort ==> forall|j: int|
                0 <= j < i ==> spec_parse_last_touched(#[trigger] notes[j]@.last_touched) is Some,
            forall|j: int| 0 <= j < i ==> keys[j] as int == sort_key(datesort)(#[trigger] notes[j]@),
        decreases notes.len() - i,
    {
        if datesort {
            match parse_last_touched(notes[i].last_touched.as_str()) {
                Ok(unix) => {
                    keys.push(unix as i128);
                },
                Err(e) => {
                    proof {
                        let all = views(notes@);
                        assert(all[i as int] == notes[i as int]@);
                        assert(notes[i as int]@.last_touched == notes[i as int].last_touched@);
                        assert(spec_parse_last_touched(all[i as int].last_touched) is None);
                        assert(e@ == ErrorView::InvalidTimestamp(notes[i as int]@.last_touched));
                    }
                    return Err(e);
                },
            }
        } else {
            keys.push(notes[i].id as i128);
        }
        i += 1;
    }
    proof {
        if datesort {
            assert forall|j: int| 0 <= j < notes.len() implies spec_parse_last_touched(
                #[trigger] views(notes@)[j].last_touched,
            ) is Some by {
                assert(views(notes@)[j] == notes[j]@);
            }
        }
    }
    Ok(keys)
}

/// The notes that have the status asked for, in their order.
fn filter_status(notes: &[Item], status: Option<Status>) -> (r: Vec<Item>)
    ensures
        views(r@) == views(notes@).filter(has_status(status)),
{
    let mut out: Vec<Item> = Vec::new();
    let mut i: usize = 0;
    proof {
        reveal(Seq::filter);
        assert(views(notes@.take(0)) =~= Seq::<ItemView>::empty());
        assert(views(out@) =~= Seq::<ItemView>::empty());
    }
    while i < notes.len()
        invariant
            i <= notes.len(),
            views(out@) == views(notes@.take(i as int)).filter(has_status(status)),
        decreases notes.len() - i,
    {
        let keep = match status {
            Some(s) => notes[i].status == s,
            None => true,
        };
        let ghost before = views(out@);
        proof {
            let prefix = views(notes@.take(i as int));
            prefix.lemma_filter_push(notes[i as int]@, has_status(status));
            assert(views(notes@.take(i + 1)) =~= prefix.push(notes[i as int]@));
        }
        if keep {
            out.push(notes[i].duplicate());
            assert(views(out@) =~= before.push(notes[i as int]@));
        }
        i += 1;
    }
    proof {
        assert(notes@.take(notes.len() as int) =~= notes@);
    }
    out
}

/// The notes back to front.
fn reversed(notes: &Vec<Item>) -> (r: Vec<Item>)
    ensures
        views(r@) == views(notes@).reverse(),
{
    let mut out: Vec<Item> = Vec::new();
    let mut i: usize = notes.len();
    while i > 0
        invariant
            i <= notes.len(),
            out.len() == notes.len() - i,
            forall|j: int| 0 <= j < out.len() ==> #[trigger] out[j]@ == notes[notes.len() - 1 - j]@,
        decreases i,
    {
        i -= 1;
        out.push(notes[i].duplicate());
    }
    assert(views(out@) =~= views(notes@).reverse());
    out
}

/// The notes that a list shows, in the order in which it shows them: those
/// with the status asked for, sorted by date or by id, turned round where
/// `reverse` is set, and at most `limit` of them where `limit` is not 0.
/// Fails with `InvalidTimestamp` where the list is sorted by date and the
/// time of last change of a note with that status cannot be read.
pub fn select_notes(notes: &[Item], limit: usize, flags: BoolFlags, status: Option<Status>) -> (r:
    Result<Vec<Item>, Error>)
    ensures
        r is Ok <==> !flags.datesort || all_dated(views(notes@).filter(has_status(status))),
        r is Ok ==> is_selection(views(r->Ok_0@), views(notes@), limit, flags, status),
        r is Err ==> r->Err_0@ is InvalidTimestamp,
{
    let wanted = filter_status(notes, status);
    let keys = match keys_of(&wanted, flags.datesort) {
        Ok(keys) => keys,
        Err(e) => {
            return Err(e);
        },
    };
    let sorted = sort_by_keys(&wanted, &keys, Ghost(sort_key(flags.datesort)));
    let ghost in_order = views(sorted@);
    let mut shown = if flags.reverse {
        reversed(&sorted)
    } else {
        sorted
    };
    let ghost whole = views(shown@);
    if limit != 0 && limit < shown.len() {
        shown.truncate(limit);
        assert(views(shown@) =~= whole.take(limit as int));
    }
    proof {
        assert(views(shown@) == limited(directed(in_order, flags.reverse), limit));
        assert(is_stable_sort(
            in_order,
            views(notes@).filter(has_status(status)),
            sort_key(flags.datesort),
        ));
    }
    Ok(shown)
}

} // verus!
