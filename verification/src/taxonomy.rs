//! Groups of documents: by tag, by category, by year and by month.

use crate::text::{copy_range, index_of, lemma_lex_asymmetric, lemma_lex_total, lemma_lex_transitive, lemma_texts_push, lex_lt, precedes, same_text, string_from_chars, texts, find_char};
use vstd::prelude::*;

verus! {

/// Whether each name is before all that follow it.
pub open spec fn ascending(names: Seq<Seq<char>>) -> bool {
    forall|i: int, j: int| 0 <= i < j < names.len() ==> lex_lt(#[trigger] names[i], #[trigger] names[j])
}

/// How many names at the head of `names` are before `x`.
pub open spec fn rank(names: Seq<Seq<char>>, x: Seq<char>) -> nat
    decreases names.len(),
{
    if names.len() > 0 && lex_lt(names[0], x) {
        1 + rank(names.skip(1), x)
    } else {
        0
    }
}

/// `names` with `x` at its place, unless it is there already.
pub open spec fn with_name(names: Seq<Seq<char>>, x: Seq<char>) -> Seq<Seq<char>> {
    let at = rank(names, x) as int;
    if at < names.len() && names[at] == x {
        names
    } else {
        names.insert(at, x)
    }
}

/// The names that occur in `keys`, each once, in ascending order.
pub open spec fn sorted_names(keys: Seq<Seq<char>>) -> Seq<Seq<char>>
    decreases keys.len(),
{
    if keys.len() == 0 {
        Seq::empty()
    } else {
        with_name(sorted_names(keys.drop_last()), keys.last())
    }
}

pub proof fn lemma_rank(names: Seq<Seq<char>>, x: Seq<char>)
    ensures
        rank(names, x) <= names.len(),
        forall|j: int| 0 <= j < rank(names, x) ==> lex_lt(#[trigger] names[j], x),
        rank(names, x) < names.len() ==> !lex_lt(names[rank(names, x) as int], x),
    decreases names.len(),
{
    if names.len() > 0 && lex_lt(names[0], x) {
        lemma_rank(names.skip(1), x);
        let k = rank(names.skip(1), x);
        assert forall|j: int| 0 <= j < 1 + k implies lex_lt(#[trigger] names[j], x) by {
            if j > 0 {
                assert(names.skip(1)[j - 1] == names[j]);
            }
        }
        if 1 + k < names.len() {
            assert(names.skip(1)[k as int] == names[1 + k as int]);
        }
    }
}

/// Putting a name at its place keeps the order, and adds that name and no
/// other.
pub proof fn lemma_with_name(names: Seq<Seq<char>>, x: Seq<char>)
    requires
        ascending(names),
    ensures
        ascending(with_name(names, x)),
        forall|y: Seq<char>| #[trigger] with_name(names, x).contains(y) <==> names.contains(y) || y == x,
{
    lemma_rank(names, x);
    let at = rank(names, x) as int;
    let r = with_name(names, x);
    if at < names.len() && names[at] == x {
        assert forall|y: Seq<char>| #[trigger] r.contains(y) <==> names.contains(y) || y == x by {
            if y == x {
                assert(names[at] == y);
            }
        }
    } else {
        assert forall|i: int, j: int| 0 <= i < j < r.len() implies lex_lt(
            #[trigger] r[i],
            #[trigger] r[j],
        ) by {
            if j < at {
                assert(r[i] == names[i] && r[j] == names[j]);
            } else if j == at {
                assert(r[i] == names[i]);
            } else {
                assert(r[j] == names[j - 1]);
                lemma_lex_total(names[at], x);
                if at < j - 1 {
                    assert(lex_lt(names[at], names[j - 1]));
                    lemma_lex_transitive(x, names[at], names[j - 1]);
                }
                if i < at {
                    assert(r[i] == names[i]);
                    lemma_lex_transitive(names[i], x, names[j - 1]);
                } else if i > at {
                    assert(r[i] == names[i - 1]);
                }
            }
        }
        assert forall|y: Seq<char>| #[trigger] r.contains(y) <==> names.contains(y) || y == x by {
            if r.contains(y) {
                let k = choose|k: int| 0 <= k < r.len() && r[k] == y;
                if k < at {
                    assert(names[k] == y);
                } else if k > at {
                    assert(names[k - 1] == y);
                }
            }
            if names.contains(y) {
                let k = choose|k: int| 0 <= k < names.len() && names[k] == y;
                if k < at {
                    assert(r[k] == y);
                } else {
                    assert(r[k + 1] == y);
                }
            }
            if y == x {
                assert(r[at] == y);
            }
        }
    }
}

/// The sorted names are in ascending order, so none occurs twice, and they
/// are the names that occur in `keys`.
pub proof fn lemma_sorted_names(keys: Seq<Seq<char>>)
    ensures
        ascending(sorted_names(keys)),
        forall|y: Seq<char>| #[trigger] sorted_names(keys).contains(y) <==> keys.contains(y),
    decreases keys.len(),
{
    if keys.len() > 0 {
        let before = sorted_names(keys.drop_last());
        lemma_sorted_names(keys.drop_last());
        lemma_with_name(before, keys.last());
        assert forall|y: Seq<char>| #[trigger] sorted_names(keys).contains(y) <==> keys.contains(
            y,
        ) by {
            if keys.contains(y) {
                let k = choose|k: int| 0 <= k < keys.len() && keys[k] == y;
                if k < keys.len() - 1 {
                    assert(keys.drop_last()[k] == y);
                }
            }
            if keys.drop_last().contains(y) {
                let k = choose|k: int| 0 <= k < keys.drop_last().len() && keys.drop_last()[k] == y;
                assert(keys[k] == y);
            }
            if y == keys.last() {
                assert(keys[keys.len() - 1] == y);
            }
        }
    }
}

/// Puts `x` at its place in `names`, unless it is there already.
pub fn insert_name(names: &mut Vec<Vec<char>>, x: Vec<char>)
    ensures
        texts(final(names)@) == with_name(texts(old(names)@), x@),
{
    let ghost all = texts(names@);
    let mut at: usize = 0;
    assert(all.skip(0) =~= all);
    while at < names.len() && precedes(&names[at], &x)
        invariant
            at <= names@.len(),
            names@ == old(names)@,
            all == texts(names@),
            rank(all, x@) == at + rank(all.skip(at as int), x@),
        decreases names@.len() - at,
    {
        assert(all.skip(at as int)[0] == names@[at as int]@);
        assert(all.skip(at as int).skip(1) =~= all.skip(at + 1));
        at += 1;
    }
    proof {
        if at < names@.len() {
            assert(all.skip(at as int)[0] == names@[at as int]@);
        }
    }
    if at < names.len() && same_text(&names[at], &x) {
    } else {
        names.insert(at, x);
        assert(texts(names@) =~= all.insert(at as int, x@));
    }
}

/// The names that occur in `keys`, each once, in ascending order.
pub fn sorted_distinct(keys: &Vec<Vec<char>>) -> (r: Vec<Vec<char>>)
    ensures
        texts(r@) == sorted_names(texts(keys@)),
{
    let mut out: Vec<Vec<char>> = Vec::new();
    let ghost all = texts(keys@);
    let mut i: usize = 0;
    assert(texts(out@) =~= Seq::<Seq<char>>::empty());
    assert(all.take(0) =~= Seq::<Seq<char>>::empty());
    while i < keys.len()
        invariant
            i <= keys@.len(),
            all == texts(keys@),
            texts(out@) == sorted_names(all.take(i as int)),
        decreases keys@.len() - i,
    {
        let key = copy_range(&keys[i], 0, keys[i].len());
        proof {
            assert(key@ =~= keys@[i as int]@);
            assert(all.take(i + 1).drop_last() =~= all.take(i as int));
            assert(all.take(i + 1).last() == key@);
        }
        insert_name(&mut out, key);
        i += 1;
    }
    assert(all.take(keys@.len() as int) =~= all);
    out
}

/// A group of documents under a name. The documents are given by their
/// indices in the list of all documents.
#[derive(Debug)]
pub struct Bucket {
    pub name: String,
    pub posts: Vec<usize>,
}

/// A group of documents as a plain value.
pub struct BucketView {
    pub name: Seq<char>,
    pub posts: Seq<int>,
}

/// A list of indices as integers.
pub open spec fn indices(v: Seq<usize>) -> Seq<int> {
    Seq::new(v.len(), |i: int| v[i] as int)
}

impl View for Bucket {
    type V = BucketView;

    open spec fn view(&self) -> BucketView {
        BucketView { name: self.name@, posts: indices(self.posts@) }
    }
}

/// The views of a list of groups.
pub open spec fn bucket_views(v: Seq<Bucket>) -> Seq<BucketView> {
    Seq::new(v.len(), |i: int| v[i]@)
}

/// The views of the lists of labels of a list of documents.
pub open spec fn label_sets(v: Seq<Vec<Vec<char>>>) -> Seq<Seq<Seq<char>>> {
    Seq::new(v.len(), |i: int| texts(v[i]@))
}

/// Whether document `i` carries the label `name`.
pub open spec fn carries(labels: Seq<Seq<Seq<char>>>, i: int, name: Seq<char>) -> bool {
    0 <= i < labels.len() && labels[i].contains(name)
}

/// Whether any document carries the label `name`.
pub open spec fn used(labels: Seq<Seq<Seq<char>>>, name: Seq<char>) -> bool {
    exists|i: int| carries(labels, i, name)
}

/// All labels of all documents, one list after the other.
pub open spec fn flatten(labels: Seq<Seq<Seq<char>>>) -> Seq<Seq<char>>
    decreases labels.len(),
{
    if labels.len() == 0 {
        Seq::empty()
    } else {
        flatten(labels.drop_last()) + labels.last()
    }
}

/// The documents that carry the label `name`, in their order.
pub open spec fn members(labels: Seq<Seq<Seq<char>>>, name: Seq<char>) -> Seq<int>
    decreases labels.len(),
{
    if labels.len() == 0 {
        Seq::empty()
    } else if labels.last().contains(name) {
        members(labels.drop_last(), name).push(labels.len() - 1)
    } else {
        members(labels.drop_last(), name)
    }
}

/// The groups of a list of documents by label: one group for each label
/// that a document carries, the groups in ascending order of their names,
/// in each the documents that carry the label. A document that names a
/// label twice is in its group once.
pub open spec fn buckets_of(labels: Seq<Seq<Seq<char>>>) -> Seq<BucketView> {
    let names = sorted_names(flatten(labels));
    Seq::new(names.len(), |k: int| BucketView { name: names[k], posts: members(labels, names[k]) })
}

/// The names of a list of groups.
pub open spec fn names_of(buckets: Seq<BucketView>) -> Seq<Seq<char>> {
    Seq::new(buckets.len(), |k: int| buckets[k].name)
}

/// A label is among all labels exactly if a document carries it.
pub proof fn lemma_flatten(labels: Seq<Seq<Seq<char>>>, name: Seq<char>)
    ensures
        flatten(labels).contains(name) <==> used(labels, name),
    decreases labels.len(),
{
    if labels.len() > 0 {
        let head = labels.drop_last();
        lemma_flatten(head, name);
        let all = flatten(labels);
        if all.contains(name) {
            let k = choose|k: int| 0 <= k < all.len() && all[k] == name;
            if k < flatten(head).len() {
                assert(flatten(head)[k] == name);
                let i = choose|i: int| carries(head, i, name);
                assert(carries(labels, i, name));
            } else {
                assert(labels.last()[k - flatten(head).len()] == name);
                assert(carries(labels, labels.len() - 1, name));
            }
        }
        if used(labels, name) {
            let i = choose|i: int| carries(labels, i, name);
            if i < labels.len() - 1 {
                assert(carries(head, i, name));
                let k = choose|k: int| 0 <= k < flatten(head).len() && flatten(head)[k] == name;
                assert(all[k] == name);
            } else {
                let j = choose|j: int| 0 <= j < labels.last().len() && labels.last()[j] == name;
                assert(all[flatten(head).len() + j] == name);
            }
        }
    } else {
        if used(labels, name) {
            let i = choose|i: int| carries(labels, i, name);
        }
    }
}

/// The members of a group are the documents that carry its label, each
/// once and in ascending order.
pub proof fn lemma_members(labels: Seq<Seq<Seq<char>>>, name: Seq<char>)
    ensures
        members(labels, name).len() <= labels.len(),
        forall|k: int|
            0 <= k < members(labels, name).len() ==> carries(
                labels,
                #[trigger] members(labels, name)[k],
                name,
            ),
        forall|k: int, l: int|
            0 <= k < l < members(labels, name).len() ==> #[trigger] members(labels, name)[k]
                < #[trigger] members(labels, name)[l],
        forall|i: int| carries(labels, i, name) ==> members(labels, name).contains(i),
    decreases labels.len(),
{
    if labels.len() > 0 {
        let head = labels.drop_last();
        lemma_members(head, name);
        let m = members(labels, name);
        let before = members(head, name);
        assert forall|k: int| 0 <= k < m.len() implies carries(labels, #[trigger] m[k], name) by {
            if k < before.len() {
                assert(carries(head, before[k], name));
                assert(head[before[k]] == labels[before[k]]);
            }
        }
        assert forall|k: int, l: int| 0 <= k < l < m.len() implies #[trigger] m[k] < #[trigger] m[l] by {
            assert(carries(head, before[k], name));
        }
        assert forall|i: int| carries(labels, i, name) implies m.contains(i) by {
            if i < labels.len() - 1 {
                assert(carries(head, i, name));
                let k = choose|k: int| 0 <= k < before.len() && before[k] == i;
                assert(m[k] == i);
            } else {
                assert(m[m.len() - 1] == i);
            }
        }
    }
}

/// What the groups by label are. Their names ascend, so no two groups
/// share a name. Every group has a document, and its label is one that a
/// document carries; every label that a document carries has its group.
/// The number of groups is therefore the number of labels in use.
pub proof fn lemma_buckets_of(labels: Seq<Seq<Seq<char>>>)
    ensures
        ascending(names_of(buckets_of(labels))),
        forall|k: int|
            0 <= k < buckets_of(labels).len() ==> used(labels, (#[trigger] buckets_of(labels)[k]).name)
                && buckets_of(labels)[k].posts.len() >= 1 && buckets_of(labels)[k].posts == members(
                labels,
                buckets_of(labels)[k].name,
            ),
        forall|name: Seq<char>|
            used(labels, name) ==> exists|k: int|
                0 <= k < buckets_of(labels).len() && (#[trigger] buckets_of(labels)[k]).name == name,
{
    let names = sorted_names(flatten(labels));
    let buckets = buckets_of(labels);
    lemma_sorted_names(flatten(labels));
    assert(names_of(buckets) =~= names);
    assert forall|k: int| 0 <= k < buckets.len() implies used(labels, (#[trigger] buckets[k]).name)
        && buckets[k].posts.len() >= 1 && buckets[k].posts == members(labels, buckets[k].name) by {
        assert(names.contains(names[k]));
        lemma_flatten(labels, names[k]);
        let i = choose|i: int| carries(labels, i, names[k]);
        lemma_members(labels, names[k]);
        assert(members(labels, names[k]).contains(i));
    }
    assert forall|name: Seq<char>| used(labels, name) implies exists|k: int|
        0 <= k < buckets.len() && (#[trigger] buckets[k]).name == name by {
        lemma_flatten(labels, name);
        assert(names.contains(name));
        let k = choose|k: int| 0 <= k < names.len() && names[k] == name;
        assert(buckets[k].name == name);
    }
}

/// All labels of all documents, one list after the other.
fn all_labels(labels: &Vec<Vec<Vec<char>>>) -> (r: Vec<Vec<char>>)
    ensures
        texts(r@) == flatten(label_sets(labels@)),
{
    let ghost sets = label_sets(labels@);
    let mut out: Vec<Vec<char>> = Vec::new();
    let mut i: usize = 0;
    assert(texts(out@) =~= Seq::<Seq<char>>::empty());
    assert(sets.take(0) =~= Seq::<Seq<Seq<char>>>::empty());
    while i < labels.len()
        invariant
            i <= labels@.len(),
            sets == label_sets(labels@),
            texts(out@) == flatten(sets.take(i as int)),
        decreases labels@.len() - i,
    {
        let list = &labels[i];
        let ghost before = texts(out@);
        let mut j: usize = 0;
        assert(before + sets[i as int].take(0) =~= before);
        while j < list.len()
            invariant
                j <= list@.len(),
                i < labels@.len(),
                list@ == labels@[i as int]@,
                sets == label_sets(labels@),
                texts(out@) == before + sets[i as int].take(j as int),
            decreases list@.len() - j,
        {
            let label = copy_range(&list[j], 0, list[j].len());
            proof {
                assert(label@ =~= list@[j as int]@);
                lemma_texts_push(out@, label);
                assert(before + sets[i as int].take(j + 1) =~= (before + sets[i as int].take(
                    j as int,
                )).push(label@));
            }
            out.push(label);
            j += 1;
        }
        proof {
            assert(sets[i as int].take(list@.len() as int) =~= sets[i as int]);
            assert(sets.take(i + 1).drop_last() =~= sets.take(i as int));
            assert(sets.take(i + 1).last() == sets[i as int]);
        }
        i += 1;
    }
    assert(sets.take(labels@.len() as int) =~= sets);
    out
}

/// Whether `name` is in `list`.
pub fn has_label(list: &Vec<Vec<char>>, name: &Vec<char>) -> (r: bool)
    ensures
        r == texts(list@).contains(name@),
{
    let mut j: usize = 0;
    while j < list.len()
        invariant
            j <= list@.len(),
            forall|k: int| 0 <= k < j ==> #[trigger] texts(list@)[k] != name@,
        decreases list@.len() - j,
    {
        if same_text(&list[j], name) {
            assert(texts(list@)[j as int] == name@);
            return true;
        }
        j += 1;
    }
    false
}

/// The documents that carry the label `name`, in their order.
fn members_of(labels: &Vec<Vec<Vec<char>>>, name: &Vec<char>) -> (r: Vec<usize>)
    ensures
        indices(r@) == members(label_sets(labels@), name@),
{
    let ghost sets = label_sets(labels@);
    let mut out: Vec<usize> = Vec::new();
    let mut i: usize = 0;
    assert(indices(out@) =~= Seq::<int>::empty());
    assert(sets.take(0) =~= Seq::<Seq<Seq<char>>>::empty());
    while i < labels.len()
        invariant
            i <= labels@.len(),
            sets == label_sets(labels@),
            indices(out@) == members(sets.take(i as int), name@),
        decreases labels@.len() - i,
    {
        proof {
            assert(sets.take(i + 1).drop_last() =~= sets.take(i as int));
            assert(sets.take(i + 1).last() == texts(labels@[i as int]@));
        }
        if has_label(&labels[i], name) {
            let ghost before = indices(out@);
            out.push(i);
            assert(indices(out@) =~= before.push(i as int));
        }
        i += 1;
    }
    assert(sets.take(labels@.len() as int) =~= sets);
    out
}

/// Groups the documents by label. `labels[i]` holds the labels of
/// document `i`.
pub fn group(labels: &Vec<Vec<Vec<char>>>) -> (r: Vec<Bucket>)
    ensures
        bucket_views(r@) == buckets_of(label_sets(labels@)),
{
    let flat = all_labels(labels);
    let names = sorted_distinct(&flat);
    let ghost sets = label_sets(labels@);
    let mut out: Vec<Bucket> = Vec::new();
    let mut k: usize = 0;
    while k < names.len()
        invariant
            k <= names@.len(),
            sets == label_sets(labels@),
            texts(names@) == sorted_names(flatten(sets)),
            out@.len() == k,
            forall|l: int| 0 <= l < k ==> (#[trigger] out@[l])@ == buckets_of(sets)[l],
        decreases names@.len() - k,
    {
        let posts = members_of(labels, &names[k]);
        let name = string_from_chars(&names[k]);
        assert(texts(names@)[k as int] == names@[k as int]@);
        out.push(Bucket { name, posts });
        k += 1;
    }
    assert(bucket_views(out@) =~= buckets_of(sets));
    out
}

/// Whether group `a` stands before group `b` in a ranking: it has more
/// documents, or as many and a name that is before `b`'s.
pub open spec fn outranks(a: BucketView, b: BucketView) -> bool {
    a.posts.len() > b.posts.len() || (a.posts.len() == b.posts.len() && lex_lt(a.name, b.name))
}

/// How many groups at the head of `order` stand before group `b`.
pub open spec fn place(order: Seq<int>, buckets: Seq<BucketView>, b: int) -> nat
    decreases order.len(),
{
    if order.len() > 0 && outranks(buckets[order[0]], buckets[b]) {
        1 + place(order.skip(1), buckets, b)
    } else {
        0
    }
}

/// The ranking of those of the first `upto` groups that have at least
/// `min` documents, as indices into `buckets`.
pub open spec fn ranking(buckets: Seq<BucketView>, min: nat, upto: nat) -> Seq<int>
    decreases upto,
{
    if upto == 0 {
        Seq::empty()
    } else {
        let before = ranking(buckets, min, (upto - 1) as nat);
        let b = upto - 1;
        if b < buckets.len() && buckets[b].posts.len() >= min {
            before.insert(place(before, buckets, b) as int, b)
        } else {
            before
        }
    }
}

/// The popular groups, as indices into `buckets`: the groups with at least
/// `min` documents, those with more documents first and those with as many
/// in the order of their names, cut after `max` groups.
pub open spec fn popular(buckets: Seq<BucketView>, min: nat, max: nat) -> Seq<int> {
    let all = ranking(buckets, min, buckets.len());
    if max < all.len() {
        all.take(max as int)
    } else {
        all
    }
}

pub proof fn lemma_place(order: Seq<int>, buckets: Seq<BucketView>, b: int)
    ensures
        place(order, buckets, b) <= order.len(),
        forall|k: int|
            0 <= k < place(order, buckets, b) ==> outranks(buckets[#[trigger] order[k]], buckets[b]),
        place(order, buckets, b) < order.len() ==> !outranks(
            buckets[order[place(order, buckets, b) as int]],
            buckets[b],
        ),
    decreases order.len(),
{
    if order.len() > 0 && outranks(buckets[order[0]], buckets[b]) {
        lemma_place(order.skip(1), buckets, b);
        let k = place(order.skip(1), buckets, b);
        assert forall|j: int| 0 <= j < 1 + k implies outranks(
            buckets[#[trigger] order[j]],
            buckets[b],
        ) by {
            if j > 0 {
                assert(order.skip(1)[j - 1] == order[j]);
            }
        }
        if 1 + k < order.len() {
            assert(order.skip(1)[k as int] == order[1 + k as int]);
        }
    }
}

/// Ranking is transitive.
pub proof fn lemma_outranks_transitive(a: BucketView, b: BucketView, c: BucketView)
    requires
        outranks(a, b),
        outranks(b, c),
    ensures
        outranks(a, c),
{
    if a.posts.len() == b.posts.len() && b.posts.len() == c.posts.len() {
        lemma_lex_transitive(a.name, b.name, c.name);
    }
}

/// Of two groups with different names one stands before the other.
pub proof fn lemma_outranks_total(a: BucketView, b: BucketView)
    requires
        a.name != b.name,
    ensures
        outranks(a, b) || outranks(b, a),
{
    lemma_lex_total(a.name, b.name);
}

/// The ranking holds each of the first `upto` groups with at least `min`
/// documents, and no other; each group in it stands before all that follow.
pub proof fn lemma_ranking(buckets: Seq<BucketView>, min: nat, upto: nat)
    requires
        ascending(names_of(buckets)),
        upto <= buckets.len(),
    ensures
        forall|k: int|
            0 <= k < ranking(buckets, min, upto).len() ==> 0 <= #[trigger] ranking(
                buckets,
                min,
                upto,
            )[k] < upto && buckets[ranking(buckets, min, upto)[k]].posts.len() >= min,
        forall|k: int, l: int|
            0 <= k < l < ranking(buckets, min, upto).len() ==> outranks(
                buckets[#[trigger] ranking(buckets, min, upto)[k]],
                buckets[#[trigger] ranking(buckets, min, upto)[l]],
            ),
        forall|b: int|
            0 <= b < upto && buckets[b].posts.len() >= min ==> #[trigger] ranking(
                buckets,
                min,
                upto,
            ).contains(b),
    decreases upto,
{
    if upto > 0 {
        let before = ranking(buckets, min, (upto - 1) as nat);
        let b = upto - 1;
        let r = ranking(buckets, min, upto);
        lemma_ranking(buckets, min, (upto - 1) as nat);
        if buckets[b].posts.len() >= min {
            lemma_place(before, buckets, b);
            let at = place(before, buckets, b) as int;
            assert forall|k: int| 0 <= k < r.len() implies 0 <= #[trigger] r[k] < upto
                && buckets[r[k]].posts.len() >= min by {
                if k < at {
                    assert(r[k] == before[k]);
                } else if k > at {
                    assert(r[k] == before[k - 1]);
                }
            }
            assert forall|j: int| at <= j < before.len() implies outranks(
                buckets[b],
                buckets[#[trigger] before[j]],
            ) by {
                let first = before[at];
                assert(names_of(buckets)[first] == buckets[first].name);
                assert(names_of(buckets)[b] == buckets[b].name);
                lemma_lex_asymmetric(buckets[first].name, buckets[b].name);
                lemma_outranks_total(buckets[first], buckets[b]);
                if at < j {
                    lemma_outranks_transitive(buckets[b], buckets[first], buckets[before[j]]);
                }
            }
            assert forall|k: int, l: int| 0 <= k < l < r.len() implies outranks(
                buckets[#[trigger] r[k]],
                buckets[#[trigger] r[l]],
            ) by {
                if l < at {
                    assert(r[k] == before[k] && r[l] == before[l]);
                } else if l == at {
                    assert(r[k] == before[k]);
                } else {
                    assert(r[l] == before[l - 1]);
                    if k < at {
                        assert(r[k] == before[k]);
                        if at < l - 1 || at == l - 1 {
                            lemma_outranks_transitive(
                                buckets[before[k]],
                                buckets[b],
                                buckets[before[l - 1]],
                            );
                        }
                    } else if k > at {
                        assert(r[k] == before[k - 1]);
                    }
                }
            }
            assert forall|c: int| 0 <= c < upto && buckets[c].posts.len() >= min implies r.contains(
                c,
            ) by {
                if c == b {
                    assert(r[at] == c);
                } else {
                    assert(before.contains(c));
                    let k = choose|k: int| 0 <= k < before.len() && before[k] == c;
                    if k < at {
                        assert(r[k] == c);
                    } else {
                        assert(r[k + 1] == c);
                    }
                }
            }
        }
    }
}

/// What the popular groups are. There are at most `max`, each has at least
/// `min` documents, and each stands before all that follow. A group with
/// at least `min` documents is left out only when `max` groups, all
/// standing before it, are in.
pub proof fn lemma_popular(buckets: Seq<BucketView>, min: nat, max: nat)
    requires
        ascending(names_of(buckets)),
    ensures
        popular(buckets, min, max).len() <= max,
        forall|k: int|
            0 <= k < popular(buckets, min, max).len() ==> 0 <= #[trigger] popular(buckets, min, max)[k]
                < buckets.len() && buckets[popular(buckets, min, max)[k]].posts.len() >= min,
        forall|k: int, l: int|
            0 <= k < l < popular(buckets, min, max).len() ==> outranks(
                buckets[#[trigger] popular(buckets, min, max)[k]],
                buckets[#[trigger] popular(buckets, min, max)[l]],
            ),
        forall|b: int|
            0 <= b < buckets.len() && buckets[b].posts.len() >= min && !(#[trigger] popular(
                buckets,
                min,
                max,
            ).contains(b)) ==> popular(buckets, min, max).len() == max && forall|k: int|
                0 <= k < max ==> outranks(buckets[#[trigger] popular(buckets, min, max)[k]], buckets[b]),
{
    let all = ranking(buckets, min, buckets.len());
    let p = popular(buckets, min, max);
    lemma_ranking(buckets, min, buckets.len());
    assert forall|b: int|
        0 <= b < buckets.len() && buckets[b].posts.len() >= min && !(#[trigger] p.contains(
            b,
        )) implies p.len() == max && forall|k: int|
        0 <= k < max ==> outranks(buckets[#[trigger] p[k]], buckets[b]) by {
        assert(all.contains(b));
        let j = choose|j: int| 0 <= j < all.len() && all[j] == b;
        if max >= all.len() {
            assert(p[j] == b);
        } else if j < max {
            assert(p[j] == b);
        }
    }
}

/// Whether group `a` stands before group `b` in a ranking.
fn stands_before(a: &Bucket, b: &Bucket) -> (r: bool)
    ensures
        r == outranks(a@, b@),
{
    if a.posts.len() != b.posts.len() {
        a.posts.len() > b.posts.len()
    } else {
        let x = crate::text::to_chars(a.name.as_str());
        let y = crate::text::to_chars(b.name.as_str());
        precedes(&x, &y)
    }
}

/// The popular groups among `buckets`, as indices into it.
pub fn rank_buckets(buckets: &Vec<Bucket>, min: usize, max: usize) -> (r: Vec<usize>)
    ensures
        indices(r@) == popular(bucket_views(buckets@), min as nat, max as nat),
        forall|k: int| 0 <= k < r@.len() ==> #[trigger] r@[k] < buckets@.len(),
{
    let ghost views = bucket_views(buckets@);
    let mut order: Vec<usize> = Vec::new();
    let mut b: usize = 0;
    assert(indices(order@) =~= Seq::<int>::empty());
    while b < buckets.len()
        invariant
            b <= buckets@.len(),
            views == bucket_views(buckets@),
            indices(order@) == ranking(views, min as nat, b as nat),
            forall|k: int| 0 <= k < order@.len() ==> #[trigger] order@[k] < b,
        decreases buckets@.len() - b,
    {
        if buckets[b].posts.len() >= min {
            let ghost before = indices(order@);
            let mut at: usize = 0;
            assert(before.skip(0) =~= before);
            while at < order.len() && stands_before(&buckets[order[at]], &buckets[b])
                invariant
                    at <= order@.len(),
                    b < buckets@.len(),
                    views == bucket_views(buckets@),
                    before == indices(order@),
                    forall|k: int| 0 <= k < order@.len() ==> #[trigger] order@[k] < b,
                    place(before, views, b as int) == at + place(
                        before.skip(at as int),
                        views,
                        b as int,
                    ),
                decreases order@.len() - at,
            {
                assert(before.skip(at as int)[0] == order@[at as int]);
                assert(before.skip(at as int).skip(1) =~= before.skip(at + 1));
                at += 1;
            }
            proof {
                if at < order@.len() {
                    assert(before.skip(at as int)[0] == order@[at as int]);
                }
            }
            order.insert(at, b);
            assert(indices(order@) =~= before.insert(at as int, b as int));
            assert forall|k: int| 0 <= k < order@.len() implies #[trigger] order@[k] < b + 1 by {
                if k < at {
                    assert(order@[k] == before[k]);
                } else if k > at {
                    assert(order@[k] == before[k - 1]);
                }
            }
        } else {
            assert forall|k: int| 0 <= k < order@.len() implies #[trigger] order@[k] < b + 1 by {
                assert(order@[k] < b);
            }
        }
        b += 1;
    }
    let ghost all = indices(order@);
    let ghost full = order@;
    if max < order.len() {
        order.truncate(max);
        assert(indices(order@) =~= all.take(max as int));
        assert forall|k: int| 0 <= k < order@.len() implies #[trigger] order@[k] < buckets@.len() by {
            assert(order@[k] == full[k]);
        }
    }
    order
}

/// Whether a date has a year and a month: it holds a hyphen.
pub open spec fn dated(date: Seq<char>) -> bool {
    index_of(date, '-') < date.len()
}

/// The year of a date: what stands before its first hyphen.
pub open spec fn year_of(date: Seq<char>) -> Seq<char> {
    date.take(index_of(date, '-'))
}

/// The month of a date: what stands between its first hyphen and its
/// second, or after its first where it has no second.
pub open spec fn month_of(date: Seq<char>) -> Seq<char> {
    let rest = date.skip(index_of(date, '-') + 1);
    rest.take(index_of(rest, '-'))
}

/// For each document its year as its one label, or no label where its
/// date has no year and month.
pub open spec fn year_labels(dates: Seq<Seq<char>>) -> Seq<Seq<Seq<char>>> {
    Seq::new(
        dates.len(),
        |i: int|
            if dated(dates[i]) {
                seq![year_of(dates[i])]
            } else {
                Seq::empty()
            },
    )
}

/// For each document of the year `year` its month as its one label, and
/// no label for the others.
pub open spec fn month_labels(dates: Seq<Seq<char>>, year: Seq<char>) -> Seq<Seq<Seq<char>>> {
    Seq::new(
        dates.len(),
        |i: int|
            if dated(dates[i]) && year_of(dates[i]) == year {
                seq![month_of(dates[i])]
            } else {
                Seq::empty()
            },
    )
}

/// The documents of one year, month by month.
#[derive(Debug)]
pub struct ArchiveYear {
    pub year: String,
    pub months: Vec<Bucket>,
}

/// The documents of one year as a plain value.
pub struct YearView {
    pub year: Seq<char>,
    pub months: Seq<BucketView>,
}

impl View for ArchiveYear {
    type V = YearView;

    open spec fn view(&self) -> YearView {
        YearView { year: self.year@, months: bucket_views(self.months@) }
    }
}

/// The views of a list of years.
pub open spec fn year_views(v: Seq<ArchiveYear>) -> Seq<YearView> {
    Seq::new(v.len(), |i: int| v[i]@)
}

/// The archive of a list of documents, given by their dates: the years in
/// descending order, in each year its months in descending order, in each
/// month its documents in their order. A document whose date has no year
/// and month is in no year.
pub open spec fn archive_of(dates: Seq<Seq<char>>) -> Seq<YearView> {
    let years = buckets_of(year_labels(dates)).reverse();
    Seq::new(
        years.len(),
        |k: int|
            YearView {
                year: years[k].name,
                months: buckets_of(month_labels(dates, years[k].name)).reverse(),
            },
    )
}

/// The documents of a year, month after month.
pub open spec fn year_posts(months: Seq<BucketView>) -> Seq<int>
    decreases months.len(),
{
    if months.len() == 0 {
        Seq::empty()
    } else {
        year_posts(months.drop_last()) + months.last().posts
    }
}

/// The year and the month of `date`, where it has them.
pub fn split_date(date: &Vec<char>) -> (r: Option<(Vec<char>, Vec<char>)>)
    ensures
        r is Some == dated(date@),
        r is Some ==> r->Some_0.0@ == year_of(date@) && r->Some_0.1@ == month_of(date@),
{
    let first = find_char(date, 0, '-');
    assert(date@.skip(0) =~= date@);
    if first >= date.len() {
        return None;
    }
    let second = find_char(date, first + 1, '-');
    let year = copy_range(date, 0, first);
    let month = copy_range(date, first + 1, second);
    proof {
        let rest = date@.skip(first + 1);
        assert(year@ =~= year_of(date@));
        assert(month@ =~= rest.take(second - (first + 1)));
    }
    Some((year, month))
}

/// The groups in reverse order.
pub fn reversed(buckets: Vec<Bucket>) -> (r: Vec<Bucket>)
    ensures
        bucket_views(r@) == bucket_views(buckets@).reverse(),
{
    let ghost all = bucket_views(buckets@);
    let mut rest = buckets;
    let mut out: Vec<Bucket> = Vec::new();
    while rest.len() > 0
        invariant
            rest@.len() + out@.len() == all.len(),
            bucket_views(rest@) == all.take(rest@.len() as int),
            forall|k: int| 0 <= k < out@.len() ==> (#[trigger] out@[k])@ == all[all.len() - 1 - k],
        decreases rest@.len(),
    {
        let ghost before = rest@;
        let last = rest.pop().unwrap();
        proof {
            assert(last@ == bucket_views(before)[before.len() - 1]);
            assert(bucket_views(rest@) =~= all.take(rest@.len() as int));
        }
        out.push(last);
    }
    assert(bucket_views(out@) =~= all.reverse());
    out
}

/// The archive of the documents with the dates `dates`.
pub fn archive(dates: &Vec<Vec<char>>) -> (r: Vec<ArchiveYear>)
    ensures
        year_views(r@) == archive_of(texts(dates@)),
{
    let ghost all = texts(dates@);
    let mut by_year: Vec<Vec<Vec<char>>> = Vec::new();
    let mut i: usize = 0;
    while i < dates.len()
        invariant
            i <= dates@.len(),
            all == texts(dates@),
            by_year@.len() == i,
            forall|k: int| 0 <= k < i ==> texts((#[trigger] by_year@[k])@) == year_labels(all)[k],
        decreases dates@.len() - i,
    {
        let mut own: Vec<Vec<char>> = Vec::new();
        match split_date(&dates[i]) {
            Some((year, _)) => {
                own.push(year);
                assert(texts(own@) =~= seq![year_of(all[i as int])]);
            },
            None => {
                assert(texts(own@) =~= Seq::<Seq<char>>::empty());
            },
        }
        by_year.push(own);
        i += 1;
    }
    assert(label_sets(by_year@) =~= year_labels(all));
    let years = reversed(group(&by_year));
    let ghost year_buckets = buckets_of(year_labels(all)).reverse();
    let mut out: Vec<ArchiveYear> = Vec::new();
    let mut k: usize = 0;
    while k < years.len()
        invariant
            k <= years@.len(),
            all == texts(dates@),
            bucket_views(years@) == year_buckets,
            year_buckets == buckets_of(year_labels(all)).reverse(),
            out@.len() == k,
            forall|l: int| 0 <= l < k ==> (#[trigger] out@[l])@ == archive_of(all)[l],
        decreases years@.len() - k,
    {
        let year = crate::text::to_chars(years[k].name.as_str());
        assert(year@ == year_buckets[k as int].name) by {
            assert(bucket_views(years@)[k as int] == years@[k as int]@);
        }
        let mut by_month: Vec<Vec<Vec<char>>> = Vec::new();
        let mut i: usize = 0;
        while i < dates.len()
            invariant
                i <= dates@.len(),
                all == texts(dates@),
                by_month@.len() == i,
                forall|j: int|
                    0 <= j < i ==> texts((#[trigger] by_month@[j])@) == month_labels(all, year@)[j],
            decreases dates@.len() - i,
        {
            let mut own: Vec<Vec<char>> = Vec::new();
            match split_date(&dates[i]) {
                Some((y, month)) => {
                    if same_text(&y, &year) {
                        own.push(month);
                        assert(texts(own@) =~= seq![month_of(all[i as int])]);
                    } else {
                        assert(texts(own@) =~= Seq::<Seq<char>>::empty());
                    }
                },
                None => {
                    assert(texts(own@) =~= Seq::<Seq<char>>::empty());
                },
            }
            by_month.push(own);
            i += 1;
        }
        assert(label_sets(by_month@) =~= month_labels(all, year@));
        let months = reversed(group(&by_month));
        out.push(ArchiveYear { year: string_from_chars(&year), months });
        k += 1;
    }
    assert(year_views(out@) =~= archive_of(all));
    out
}

/// Whether every document of every group is one of the first `n`.
pub open spec fn within(buckets: Seq<BucketView>, n: int) -> bool {
    forall|k: int, l: int|
        0 <= k < buckets.len() && 0 <= l < buckets[k].posts.len() ==> 0 <= (#[trigger] buckets[k].posts[l])
            < n
}

/// The groups by label hold documents of the list only.
pub proof fn lemma_buckets_within(labels: Seq<Seq<Seq<char>>>)
    ensures
        within(buckets_of(labels), labels.len() as int),
        within(buckets_of(labels).reverse(), labels.len() as int),
{
    let buckets = buckets_of(labels);
    assert forall|k: int, l: int|
        0 <= k < buckets.len() && 0 <= l < buckets[k].posts.len() implies 0 <= (
    #[trigger] buckets[k].posts[l]) < labels.len() by {
        lemma_members(labels, buckets[k].name);
        assert(carries(labels, members(labels, buckets[k].name)[l], buckets[k].name));
    }
    let back = buckets.reverse();
    assert forall|k: int, l: int|
        0 <= k < back.len() && 0 <= l < back[k].posts.len() implies 0 <= (#[trigger] back[k].posts[l])
        < labels.len() by {
        assert(back[k] == buckets[buckets.len() - 1 - k]);
        assert(0 <= buckets[buckets.len() - 1 - k].posts[l] < labels.len());
    }
}

/// The documents of a year are documents of the list.
pub proof fn lemma_year_posts_within(months: Seq<BucketView>, n: int)
    requires
        within(months, n),
    ensures
        forall|k: int| 0 <= k < year_posts(months).len() ==> 0 <= #[trigger] year_posts(months)[k] < n,
    decreases months.len(),
{
    if months.len() > 0 {
        let head = months.drop_last();
        assert(within(head, n)) by {
            assert forall|k: int, l: int|
                0 <= k < head.len() && 0 <= l < head[k].posts.len() implies 0 <= (
            #[trigger] head[k].posts[l]) < n by {
                assert(head[k] == months[k]);
                assert(0 <= months[k].posts[l] < n);
            }
        }
        lemma_year_posts_within(head, n);
        assert forall|k: int| 0 <= k < year_posts(months).len() implies 0 <= #[trigger] year_posts(
            months,
        )[k] < n by {
            if k >= year_posts(head).len() {
                let l = k - year_posts(head).len();
                assert(year_posts(months)[k] == months[months.len() - 1].posts[l]);
            }
        }
    }
}

/// Every month of the archive holds documents of the list only.
pub proof fn lemma_archive_within(dates: Seq<Seq<char>>)
    ensures
        forall|y: int|
            0 <= y < archive_of(dates).len() ==> within(
                (#[trigger] archive_of(dates)[y]).months,
                dates.len() as int,
            ),
{
    assert forall|y: int| 0 <= y < archive_of(dates).len() implies within(
        (#[trigger] archive_of(dates)[y]).months,
        dates.len() as int,
    ) by {
        let years = buckets_of(year_labels(dates)).reverse();
        lemma_buckets_within(month_labels(dates, years[y].name));
    }
}

/// Which labels the popular groups hold. A label of the popular groups has
/// at least `min` documents, so one with fewer is never among them. A
/// label with at least `min` documents, `min` itself included, is among
/// them unless `max` groups that stand before it fill the list.
pub proof fn lemma_label_filtering(labels: Seq<Seq<Seq<char>>>, min: nat, max: nat, name: Seq<char>)
    ensures
        forall|k: int|
            0 <= k < popular(buckets_of(labels), min, max).len() ==> members(
                labels,
                buckets_of(labels)[#[trigger] popular(buckets_of(labels), min, max)[k]].name,
            ).len() >= min,
        members(labels, name).len() < min ==> forall|k: int|
            0 <= k < popular(buckets_of(labels), min, max).len() ==> buckets_of(
                labels,
            )[#[trigger] popular(buckets_of(labels), min, max)[k]].name != name,
        used(labels, name) && members(labels, name).len() >= min && popular(
            buckets_of(labels),
            min,
            max,
        ).len() < max ==> exists|k: int|
            0 <= k < popular(buckets_of(labels), min, max).len() && buckets_of(
                labels,
            )[#[trigger] popular(buckets_of(labels), min, max)[k]].name == name,
{
    let buckets = buckets_of(labels);
    let p = popular(buckets, min, max);
    lemma_buckets_of(labels);
    lemma_popular(buckets, min, max);
    assert forall|k: int| 0 <= k < p.len() implies members(labels, buckets[#[trigger] p[k]].name).len()
        >= min by {
        assert(buckets[p[k]].posts == members(labels, buckets[p[k]].name));
    }
    if members(labels, name).len() < min {
        assert forall|k: int| 0 <= k < p.len() implies buckets[#[trigger] p[k]].name != name by {
            assert(buckets[p[k]].posts == members(labels, buckets[p[k]].name));
        }
    }
    if used(labels, name) && members(labels, name).len() >= min && p.len() < max {
        let b = choose|b: int| 0 <= b < buckets.len() && (#[trigger] buckets[b]).name == name;
        assert(buckets[b].posts == members(labels, name));
        assert(p.contains(b));
        let k = choose|k: int| 0 <= k < p.len() && p[k] == b;
        assert(buckets[p[k]].name == name);
    }
}

/// Whether document `i` belongs to the month `month` of the year `year`.
pub open spec fn falls_in(dates: Seq<Seq<char>>, i: int, year: Seq<char>, month: Seq<char>) -> bool {
    &&& 0 <= i < dates.len()
    &&& dated(dates[i])
    &&& year_of(dates[i]) == year
    &&& month_of(dates[i]) == month
}

/// What a year of the archive is: see `lemma_archive`.
pub proof fn lemma_archive_year(dates: Seq<Seq<char>>, y: int)
    requires
        0 <= y < archive_of(dates).len(),
    ensures
        forall|m: int, n: int|
            0 <= m < n < archive_of(dates)[y].months.len() ==> lex_lt(
                (#[trigger] archive_of(dates)[y].months[n]).name,
                (#[trigger] archive_of(dates)[y].months[m]).name,
            ),
        forall|m: int|
            0 <= m < archive_of(dates)[y].months.len() ==> (
            #[trigger] archive_of(dates)[y].months[m]).posts == members(
                month_labels(dates, archive_of(dates)[y].year),
                archive_of(dates)[y].months[m].name,
            ) && archive_of(dates)[y].months[m].posts.len() >= 1,
        forall|m: int, i: int|
            0 <= m < archive_of(dates)[y].months.len() ==> ((
            #[trigger] archive_of(dates)[y].months[m]).posts.contains(i) <==> #[trigger] falls_in(
                dates,
                i,
                archive_of(dates)[y].year,
                archive_of(dates)[y].months[m].name,
            )),
{
    let all = archive_of(dates);
    let year = all[y].year;
    let labels = month_labels(dates, year);
    let by_month = buckets_of(labels);
    let months = all[y].months;
    lemma_buckets_of(labels);
    assert forall|m: int, n: int| 0 <= m < n < months.len() implies lex_lt(
        (#[trigger] months[n]).name,
        (#[trigger] months[m]).name,
    ) by {
        let a = by_month.len() - 1 - n;
        let b = by_month.len() - 1 - m;
        assert(names_of(by_month)[a] == months[n].name);
        assert(names_of(by_month)[b] == months[m].name);
    }
    assert forall|m: int| 0 <= m < months.len() implies (#[trigger] months[m]).posts == members(
        labels,
        months[m].name,
    ) && months[m].posts.len() >= 1 by {
        assert(months[m] == by_month[by_month.len() - 1 - m]);
    }
    assert forall|m: int, i: int| 0 <= m < months.len() implies ((#[trigger] months[m]).posts.contains(
        i,
    ) <==> #[trigger] falls_in(dates, i, year, months[m].name)) by {
        let name = months[m].name;
        assert(months[m] == by_month[by_month.len() - 1 - m]);
        assert(months[m].posts == members(labels, name));
        lemma_members(labels, name);
        if months[m].posts.contains(i) {
            let l = choose|l: int| 0 <= l < months[m].posts.len() && months[m].posts[l] == i;
            assert(carries(labels, members(labels, name)[l], name));
            let k = choose|k: int| 0 <= k < labels[i].len() && labels[i][k] == name;
        }
        if falls_in(dates, i, year, name) {
            assert(labels[i][0] == name);
            assert(carries(labels, i, name));
        }
    }
}

/// What the archive is. Its years descend, and in each year its months
/// descend. A month holds exactly the documents whose dates fall in it,
/// in their order, and at least one. Every document whose date has a year
/// and a month is in the month of its year that its date names.
pub proof fn lemma_archive(dates: Seq<Seq<char>>)
    ensures
        forall|y: int, z: int|
            0 <= y < z < archive_of(dates).len() ==> lex_lt(
                (#[trigger] archive_of(dates)[z]).year,
                (#[trigger] archive_of(dates)[y]).year,
            ),
        forall|y: int, m: int, n: int|
            0 <= y < archive_of(dates).len() && 0 <= m < n < archive_of(dates)[y].months.len()
                ==> lex_lt(
                (#[trigger] archive_of(dates)[y].months[n]).name,
                (#[trigger] archive_of(dates)[y].months[m]).name,
            ),
        forall|y: int, m: int|
            0 <= y < archive_of(dates).len() && 0 <= m < archive_of(dates)[y].months.len() ==> (
            #[trigger] archive_of(dates)[y].months[m]).posts == members(
                month_labels(dates, archive_of(dates)[y].year),
                archive_of(dates)[y].months[m].name,
            ) && archive_of(dates)[y].months[m].posts.len() >= 1,
        forall|y: int, m: int, i: int|
            0 <= y < archive_of(dates).len() && 0 <= m < archive_of(dates)[y].months.len() ==> (
            (#[trigger] archive_of(dates)[y].months[m]).posts.contains(i) <==> #[trigger] falls_in(
                dates,
                i,
                archive_of(dates)[y].year,
                archive_of(dates)[y].months[m].name,
            )),
        forall|i: int|
            0 <= i < dates.len() && dated(#[trigger] dates[i]) ==> exists|y: int, m: int|
                0 <= y < archive_of(dates).len() && 0 <= m < archive_of(dates)[y].months.len()
                    && archive_of(dates)[y].year == year_of(dates[i]) && (
                #[trigger] archive_of(dates)[y].months[m]).name == month_of(dates[i]),
{
    let all = archive_of(dates);
    let by_year = buckets_of(year_labels(dates));
    let years = by_year.reverse();
    lemma_buckets_of(year_labels(dates));
    assert forall|y: int, z: int| 0 <= y < z < all.len() implies lex_lt(
        (#[trigger] all[z]).year,
        (#[trigger] all[y]).year,
    ) by {
        let a = by_year.len() - 1 - z;
        let b = by_year.len() - 1 - y;
        assert(names_of(by_year)[a] == all[z].year);
        assert(names_of(by_year)[b] == all[y].year);
    }
    assert forall|y: int, m: int, n: int|
        0 <= y < all.len() && 0 <= m < n < all[y].months.len() implies lex_lt(
        (#[trigger] all[y].months[n]).name,
        (#[trigger] all[y].months[m]).name,
    ) by {
        lemma_archive_year(dates, y);
    }
    assert forall|y: int, m: int| 0 <= y < all.len() && 0 <= m < all[y].months.len() implies (
    #[trigger] all[y].months[m]).posts == members(
        month_labels(dates, all[y].year),
        all[y].months[m].name,
    ) && all[y].months[m].posts.len() >= 1 by {
        lemma_archive_year(dates, y);
    }
    assert forall|y: int, m: int, i: int|
        0 <= y < all.len() && 0 <= m < all[y].months.len() implies ((
    #[trigger] all[y].months[m]).posts.contains(i) <==> #[trigger] falls_in(
        dates,
        i,
        all[y].year,
        all[y].months[m].name,
    )) by {
        lemma_archive_year(dates, y);
    }
    assert forall|i: int| 0 <= i < dates.len() && dated(#[trigger] dates[i]) implies exists|
        y: int,
        m: int,
    |
        0 <= y < all.len() && 0 <= m < all[y].months.len() && all[y].year == year_of(dates[i]) && (
        #[trigger] all[y].months[m]).name == month_of(dates[i]) by {
        let year = year_of(dates[i]);
        let month = month_of(dates[i]);
        assert(year_labels(dates)[i][0] == year);
        assert(carries(year_labels(dates), i, year));
        assert(used(year_labels(dates), year));
        let k = choose|k: int| 0 <= k < by_year.len() && (#[trigger] by_year[k]).name == year;
        let y = by_year.len() - 1 - k;
        assert(all[y].year == year);
        let labels = month_labels(dates, year);
        let by_month = buckets_of(labels);
        lemma_buckets_of(labels);
        assert(labels[i][0] == month);
        assert(carries(labels, i, month));
        assert(used(labels, month));
        let j = choose|j: int| 0 <= j < by_month.len() && (#[trigger] by_month[j]).name == month;
        let m = by_month.len() - 1 - j;
        assert(all[y].months[m] == by_month[j]);
    }
}

} // verus!
