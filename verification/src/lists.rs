//! Lists of names in which order matters and a repeated name means nothing
//! more: packages, excluded packages, unstable feature identifiers and
//! forwarded arguments.
//!
//! A list is modelled as a `Seq<Seq<char>>`, one inner sequence per name.

use vstd::prelude::*;

verus! {

/// The names that do not occur in `names`.
pub open spec fn absent_from(names: Seq<Seq<char>>) -> spec_fn(Seq<char>) -> bool {
    |name: Seq<char>| !names.contains(name)
}

/// The names that occur in `names`.
pub open spec fn present_in(names: Seq<Seq<char>>) -> spec_fn(Seq<char>) -> bool {
    |name: Seq<char>| names.contains(name)
}

/// The names of `extra` that `base` lacks, in the order of `extra`.
pub open spec fn novel(base: Seq<Seq<char>>, extra: Seq<Seq<char>>) -> Seq<Seq<char>> {
    extra.filter(absent_from(base))
}

/// `base`, followed by the names of `extra` that `base` lacks.
pub open spec fn accumulate(base: Seq<Seq<char>>, extra: Seq<Seq<char>>) -> Seq<Seq<char>> {
    base + novel(base, extra)
}

/// The names of `items` that `banned` does not hold, in the order of `items`.
pub open spec fn without(items: Seq<Seq<char>>, banned: Seq<Seq<char>>) -> Seq<Seq<char>> {
    items.filter(absent_from(banned))
}

/// The names of `items` that `banned` holds, in the order of `items`.
pub open spec fn struck(items: Seq<Seq<char>>, banned: Seq<Seq<char>>) -> Seq<Seq<char>> {
    items.filter(present_in(banned))
}

/// No name of `items` occurs in `banned`.
pub open spec fn disjoint(items: Seq<Seq<char>>, banned: Seq<Seq<char>>) -> bool {
    forall|i: int| 0 <= i < items.len() ==> !banned.contains(#[trigger] items[i])
}

/// Filtering a prefix extended by one name either keeps that name at the end
/// or leaves the filtered prefix as it was.
proof fn lemma_filter_step(
    names: Seq<Seq<char>>,
    keep: spec_fn(Seq<char>) -> bool,
    i: int,
)
    requires
        0 <= i < names.len(),
    ensures
        names.take(i + 1).filter(keep) == if keep(names[i]) {
            names.take(i).filter(keep).push(names[i])
        } else {
            names.take(i).filter(keep)
        },
{
    reveal(Seq::filter);
    assert(names.take(i + 1).drop_last() =~= names.take(i));
}

/// A filter lets nothing through when no name of the list passes it.
proof fn lemma_filter_of_none(names: Seq<Seq<char>>, keep: spec_fn(Seq<char>) -> bool)
    requires
        forall|i: int| 0 <= i < names.len() ==> !keep(#[trigger] names[i]),
    ensures
        names.filter(keep) == Seq::<Seq<char>>::empty(),
    decreases names.len(),
{
    reveal(Seq::filter);
    if names.len() > 0 {
        lemma_filter_of_none(names.drop_last(), keep);
    }
}

/// A filter changes nothing when every name of the list passes it.
proof fn lemma_filter_of_all(names: Seq<Seq<char>>, keep: spec_fn(Seq<char>) -> bool)
    requires
        forall|i: int| 0 <= i < names.len() ==> keep(#[trigger] names[i]),
    ensures
        names.filter(keep) == names,
    decreases names.len(),
{
    reveal(Seq::filter);
    if names.len() > 0 {
        lemma_filter_of_all(names.drop_last(), keep);
        assert(names.drop_last().push(names.last()) =~= names);
    }
}

/// A filtered list holds a name exactly if the list holds it and it passes
/// the filter.
proof fn lemma_filter_holds(
    names: Seq<Seq<char>>,
    keep: spec_fn(Seq<char>) -> bool,
    name: Seq<char>,
)
    ensures
        names.filter(keep).contains(name) <==> names.contains(name) && keep(name),
{
    let kept = names.filter(keep);
    if kept.contains(name) {
        let k = choose|k: int| 0 <= k < kept.len() && kept[k] == name;
        names.lemma_filter_pred(keep, k);
        names.lemma_filter_contains_rev(keep, name);
    }
    if names.contains(name) && keep(name) {
        let i = choose|i: int| 0 <= i < names.len() && names[i] == name;
        names.lemma_filter_contains(keep, i);
    }
}

/// A filter of a list without repeated names has no repeated names.
proof fn lemma_filter_keeps_distinct(names: Seq<Seq<char>>, keep: spec_fn(Seq<char>) -> bool)
    requires
        names.no_duplicates(),
    ensures
        names.filter(keep).no_duplicates(),
    decreases names.len(),
{
    reveal(Seq::filter);
    if names.len() > 0 {
        let front = names.drop_last();
        lemma_filter_keeps_distinct(front, keep);
        if keep(names.last()) {
            let kept = front.filter(keep);
            assert forall|i: int| 0 <= i < kept.len() implies kept[i] != names.last() by {
                assert(kept.contains(kept[i]));
                front.lemma_filter_contains_rev(keep, kept[i]);
                let j = choose|j: int| 0 <= j < front.len() && front[j] == kept[i];
                assert(names[j] == kept[i]);
            }
        }
    }
}

/// Accumulation keeps the base list in front, unchanged: what it adds comes
/// behind.
pub proof fn accumulate_keeps_base_in_front(base: Seq<Seq<char>>, extra: Seq<Seq<char>>)
    ensures
        base.is_prefix_of(accumulate(base, extra)),
        accumulate(base, extra).skip(base.len() as int) == novel(base, extra),
{
}

/// The accumulated list holds a name exactly if one of the two lists does.
pub proof fn accumulate_holds_both(base: Seq<Seq<char>>, extra: Seq<Seq<char>>, name: Seq<char>)
    ensures
        accumulate(base, extra).contains(name) <==> base.contains(name) || extra.contains(name),
{
    let added = novel(base, extra);
    let all = accumulate(base, extra);
    if base.contains(name) {
        let i = choose|i: int| 0 <= i < base.len() && base[i] == name;
        assert(all[i] == name);
    } else if extra.contains(name) {
        let j = choose|j: int| 0 <= j < extra.len() && extra[j] == name;
        extra.lemma_filter_contains(absent_from(base), j);
        let k = choose|k: int| 0 <= k < added.len() && added[k] == name;
        assert(all[base.len() + k] == name);
    }
    if all.contains(name) {
        let i = choose|i: int| 0 <= i < all.len() && all[i] == name;
        if i < base.len() {
            assert(base[i] == name);
        } else {
            assert(added[i - base.len()] == name);
            extra.lemma_filter_contains_rev(absent_from(base), name);
        }
    }
}

/// Two lists without repeated names accumulate to a list without repeated
/// names.
pub proof fn accumulate_keeps_distinct(base: Seq<Seq<char>>, extra: Seq<Seq<char>>)
    requires
        base.no_duplicates(),
        extra.no_duplicates(),
    ensures
        accumulate(base, extra).no_duplicates(),
{
    let added = novel(base, extra);
    lemma_filter_keeps_distinct(extra, absent_from(base));
    assert forall|i: int, j: int| 0 <= i < base.len() && 0 <= j < added.len() implies base[i]
        != added[j] by {
        extra.lemma_filter_pred(absent_from(base), j);
    }
    vstd::seq_lib::lemma_no_dup_in_concat(base, added);
}

/// Accumulating a list whose names the base list holds already changes
/// nothing.
pub proof fn accumulate_of_known(base: Seq<Seq<char>>, extra: Seq<Seq<char>>)
    requires
        forall|i: int| 0 <= i < extra.len() ==> base.contains(#[trigger] extra[i]),
    ensures
        accumulate(base, extra) == base,
{
    lemma_filter_of_none(extra, absent_from(base));
    assert(base + Seq::<Seq<char>>::empty() =~= base);
}

/// Accumulating the same list a second time changes nothing.
pub proof fn accumulate_again(base: Seq<Seq<char>>, extra: Seq<Seq<char>>)
    ensures
        accumulate(accumulate(base, extra), extra) == accumulate(base, extra),
{
    assert forall|i: int| 0 <= i < extra.len() implies accumulate(base, extra).contains(
        #[trigger] extra[i],
    ) by {
        accumulate_holds_both(base, extra, extra[i]);
    }
    accumulate_of_known(accumulate(base, extra), extra);
}

/// What is left of `items` without the names of `banned` holds none of them.
pub proof fn without_is_disjoint(items: Seq<Seq<char>>, banned: Seq<Seq<char>>)
    ensures
        disjoint(without(items, banned), banned),
{
    let rest = without(items, banned);
    assert forall|i: int| 0 <= i < rest.len() implies !banned.contains(#[trigger] rest[i]) by {
        items.lemma_filter_pred(absent_from(banned), i);
    }
}

/// A list that holds no name of `banned` loses nothing to it.
pub proof fn without_of_disjoint(items: Seq<Seq<char>>, banned: Seq<Seq<char>>)
    requires
        disjoint(items, banned),
    ensures
        without(items, banned) == items,
        struck(items, banned) == Seq::<Seq<char>>::empty(),
{
    lemma_filter_of_all(items, absent_from(banned));
    lemma_filter_of_none(items, present_in(banned));
}

/// A name is kept exactly if `items` holds it and `banned` does not, and
/// struck exactly if both hold it.
pub proof fn purge_sorts_by_ban(items: Seq<Seq<char>>, banned: Seq<Seq<char>>, name: Seq<char>)
    ensures
        without(items, banned).contains(name) <==> items.contains(name) && !banned.contains(name),
        struck(items, banned).contains(name) <==> items.contains(name) && banned.contains(name),
{
    lemma_filter_holds(items, absent_from(banned), name);
    lemma_filter_holds(items, present_in(banned), name);
}

/// The split loses no name and doubles none: what is kept and what is struck
/// are together as long as `items`.
pub proof fn without_and_struck_split(items: Seq<Seq<char>>, banned: Seq<Seq<char>>)
    ensures
        without(items, banned).len() + struck(items, banned).len() == items.len(),
    decreases items.len(),
{
    reveal(Seq::filter);
    if items.len() > 0 {
        without_and_struck_split(items.drop_last(), banned);
    }
}

/// Whether `name` occurs in `items`.
pub fn contains(items: &Vec<String>, name: &String) -> (found: bool)
    ensures
        found == items.deep_view().contains(name@),
{
    let mut i: usize = 0;
    while i < items.len()
        invariant
            i <= items.len(),
            forall|j: int| 0 <= j < i ==> items.deep_view()[j] != name@,
        decreases items.len() - i,
    {
        if items[i] == *name {
            assert(items.deep_view()[i as int] == name@);
            return true;
        }
        i += 1;
    }
    false
}

/// Appends to `base` the names of `extra` that it does not hold yet, in the
/// order of `extra`. A name is looked up in `base` as it was before the call,
/// so a name that `extra` repeats and `base` lacks is appended each time.
pub fn append_novel(base: &mut Vec<String>, extra: &Vec<String>)
    ensures
        final(base).deep_view() == accumulate(old(base).deep_view(), extra.deep_view()),
{
    let ghost lacking = absent_from(base.deep_view());
    let mut additional: Vec<String> = Vec::new();
    let mut i: usize = 0;
    while i < extra.len()
        invariant
            i <= extra.len(),
            *base == *old(base),
            lacking == absent_from(base.deep_view()),
            additional.deep_view() == extra.deep_view().take(i as int).filter(lacking),
        decreases extra.len() - i,
    {
        let ghost before = additional.deep_view();
        if !contains(base, &extra[i]) {
            additional.push(extra[i].clone());
            assert(additional.deep_view() =~= before.push(extra.deep_view()[i as int]));
        }
        proof {
            lemma_filter_step(extra.deep_view(), lacking, i as int);
        }
        i += 1;
    }
    assert(extra.deep_view().take(i as int) =~= extra.deep_view());
    let ghost start = base.deep_view();
    let ghost tail = additional.deep_view();
    base.append(&mut additional);
    assert(base.deep_view() =~= start + tail);
}

/// Removes from `items` every name that `banned` holds and returns the names
/// removed. Both what stays and what is returned keep the order of `items`.
pub fn purge(items: &mut Vec<String>, banned: &Vec<String>) -> (removed: Vec<String>)
    ensures
        final(items).deep_view() == without(old(items).deep_view(), banned.deep_view()),
        removed.deep_view() == struck(old(items).deep_view(), banned.deep_view()),
{
    let ghost allowed = absent_from(banned.deep_view());
    let ghost refused = present_in(banned.deep_view());
    let mut kept: Vec<String> = Vec::new();
    let mut removed: Vec<String> = Vec::new();
    let mut i: usize = 0;
    while i < items.len()
        invariant
            i <= items.len(),
            *items == *old(items),
            allowed == absent_from(banned.deep_view()),
            refused == present_in(banned.deep_view()),
            kept.deep_view() == items.deep_view().take(i as int).filter(allowed),
            removed.deep_view() == items.deep_view().take(i as int).filter(refused),
        decreases items.len() - i,
    {
        let ghost kept_before = kept.deep_view();
        let ghost removed_before = removed.deep_view();
        if contains(banned, &items[i]) {
            removed.push(items[i].clone());
            assert(removed.deep_view() =~= removed_before.push(items.deep_view()[i as int]));
        } else {
            kept.push(items[i].clone());
            assert(kept.deep_view() =~= kept_before.push(items.deep_view()[i as int]));
        }
        proof {
            lemma_filter_step(items.deep_view(), allowed, i as int);
            lemma_filter_step(items.deep_view(), refused, i as int);
        }
        i += 1;
    }
    assert(items.deep_view().take(i as int) =~= items.deep_view());
    *items = kept;
    removed
}

} // verus!
