//! The display order of sounds: categories listed in the configured order
//! come first, in that order; the remaining categories follow alphabetically;
//! within a category sounds are ordered by id. Sorting is stable.

use vstd::prelude::*;
use crate::sound::{str_views, views, Sound, SoundView};
use crate::text::{chars_less, chars_of, chars_lt, lemma_chars_lt_asymmetric, lemma_chars_lt_irreflexive, lemma_chars_lt_total, lemma_chars_lt_transitive};

verus! {

/// Position of the first occurrence of `cat` in `order`, if any.
pub open spec fn rank_in(order: Seq<Seq<char>>, cat: Seq<char>) -> Option<nat>
    decreases order.len(),
{
    if order.len() == 0 {
        None
    } else if order[0] == cat {
        Some(0)
    } else {
        match rank_in(order.drop_first(), cat) {
            Some(r) => Some(r + 1),
            None => None,
        }
    }
}

/// Whether `a` is displayed strictly before `b` under the category order `order`.
pub open spec fn sound_before(order: Seq<Seq<char>>, a: SoundView, b: SoundView) -> bool {
    match (rank_in(order, a.category), rank_in(order, b.category)) {
        (Some(ia), Some(ib)) => ia < ib || (ia == ib && chars_lt(a.id, b.id)),
        (Some(_), None) => true,
        (None, Some(_)) => false,
        (None, None) => chars_lt(a.category, b.category) || (a.category == b.category
            && chars_lt(a.id, b.id)),
    }
}

/// No element of `s` is displayed before an element that precedes it.
pub open spec fn is_display_sorted(order: Seq<Seq<char>>, s: Seq<SoundView>) -> bool {
    forall|i: int, j: int|
        0 <= i < j < s.len() ==> !sound_before(order, #[trigger] s[j], #[trigger] s[i])
}

/// `x` put into `s` just after the last element that it is not displayed before.
pub open spec fn insert_in_order(order: Seq<Seq<char>>, s: Seq<SoundView>, x: SoundView) -> Seq<
    SoundView,
>
    decreases s.len(),
{
    if s.len() == 0 {
        seq![x]
    } else if sound_before(order, x, s.last()) {
        insert_in_order(order, s.drop_last(), x).push(s.last())
    } else {
        s.push(x)
    }
}

/// The stable sort of `s` by display order.
pub open spec fn display_sorted(order: Seq<Seq<char>>, s: Seq<SoundView>) -> Seq<SoundView>
    decreases s.len(),
{
    if s.len() == 0 {
        s
    } else {
        insert_in_order(order, display_sorted(order, s.drop_last()), s.last())
    }
}

/// The rank, when present, points at the category, and nothing before it does.
pub proof fn lemma_rank_in(order: Seq<Seq<char>>, cat: Seq<char>)
    ensures
        rank_in(order, cat) matches Some(r) ==> r < order.len() && order[r as int] == cat
            && forall|j: int| 0 <= j < r ==> order[j] != cat,
        rank_in(order, cat) is None ==> forall|j: int| 0 <= j < order.len() ==> order[j] != cat,
    decreases order.len(),
{
    if order.len() > 0 {
        lemma_rank_in(order.drop_first(), cat);
        if order[0] != cat {
            assert forall|j: int| 1 <= j < order.len() implies order[j] == order.drop_first()[j
                - 1] by {}
        }
    }
}

/// Display order is a strict weak order: irreflexive, transitive, and
/// "not before" is transitive too.
pub proof fn lemma_before_strict_weak(
    order: Seq<Seq<char>>,
    a: SoundView,
    b: SoundView,
    c: SoundView,
)
    ensures
        !sound_before(order, a, a),
        sound_before(order, a, b) && sound_before(order, b, c) ==> sound_before(order, a, c),
        !sound_before(order, a, b) && !sound_before(order, b, c) ==> !sound_before(order, a, c),
        sound_before(order, a, b) ==> !sound_before(order, b, a),
{
    lemma_chars_lt_irreflexive(a.id);
    lemma_chars_lt_irreflexive(a.category);
    lemma_chars_lt_irreflexive(b.id);
    lemma_chars_lt_irreflexive(b.category);
    lemma_chars_lt_irreflexive(c.id);
    lemma_chars_lt_irreflexive(c.category);
    lemma_chars_lt_total(a.id, b.id);
    lemma_chars_lt_total(b.id, c.id);
    lemma_chars_lt_total(a.id, c.id);
    lemma_chars_lt_total(a.category, b.category);
    lemma_chars_lt_total(b.category, c.category);
    lemma_chars_lt_total(a.category, c.category);
    lemma_chars_lt_asymmetric(a.id, b.id);
    lemma_chars_lt_asymmetric(b.id, c.id);
    lemma_chars_lt_asymmetric(a.id, c.id);
    lemma_chars_lt_asymmetric(a.category, b.category);
    lemma_chars_lt_asymmetric(b.category, c.category);
    lemma_chars_lt_asymmetric(a.category, c.category);
    if chars_lt(a.id, b.id) && chars_lt(b.id, c.id) {
        lemma_chars_lt_transitive(a.id, b.id, c.id);
    }
    if chars_lt(c.id, b.id) && chars_lt(b.id, a.id) {
        lemma_chars_lt_transitive(c.id, b.id, a.id);
    }
    if chars_lt(a.category, b.category) && chars_lt(b.category, c.category) {
        lemma_chars_lt_transitive(a.category, b.category, c.category);
    }
    if chars_lt(c.category, b.category) && chars_lt(b.category, a.category) {
        lemma_chars_lt_transitive(c.category, b.category, a.category);
    }
    if chars_lt(a.id, b.id) && chars_lt(b.id, a.id) {
        lemma_chars_lt_transitive(a.id, b.id, a.id);
        lemma_chars_lt_irreflexive(a.id);
    }
    if chars_lt(a.category, b.category) && chars_lt(b.category, a.category) {
        lemma_chars_lt_transitive(a.category, b.category, a.category);
    }
    if chars_lt(b.id, c.id) && chars_lt(c.id, a.id) {
        lemma_chars_lt_transitive(b.id, c.id, a.id);
    }
    if chars_lt(c.id, a.id) && chars_lt(a.id, b.id) {
        lemma_chars_lt_transitive(c.id, a.id, b.id);
    }
    if chars_lt(b.category, c.category) && chars_lt(c.category, a.category) {
        lemma_chars_lt_transitive(b.category, c.category, a.category);
    }
    if chars_lt(c.category, a.category) && chars_lt(a.category, b.category) {
        lemma_chars_lt_transitive(c.category, a.category, b.category);
    }
}

/// Inserting keeps the length and adds exactly one element.
pub proof fn lemma_insert_shape(order: Seq<Seq<char>>, s: Seq<SoundView>, x: SoundView)
    ensures
        insert_in_order(order, s, x).len() == s.len() + 1,
        insert_in_order(order, s, x).to_multiset() == s.to_multiset().insert(x),
        forall|i: int|
            0 <= i < s.len() + 1 ==> #[trigger] insert_in_order(order, s, x)[i] == x || exists|
                j: int,
            | 0 <= j < s.len() && insert_in_order(order, s, x)[i] == s[j],
    decreases s.len(),
{
    broadcast use vstd::seq_lib::group_seq_properties;
    broadcast use vstd::multiset::group_multiset_axioms;

    if s.len() == 0 {
        assert(seq![x].to_multiset() =~= s.to_multiset().insert(x)) by {
            assert(seq![x] =~= s.push(x));
        }
    } else if sound_before(order, x, s.last()) {
        let r = insert_in_order(order, s.drop_last(), x);
        lemma_insert_shape(order, s.drop_last(), x);
        assert(s =~= s.drop_last().push(s.last()));
        assert(r.push(s.last()).to_multiset() =~= s.to_multiset().insert(x));
        assert forall|i: int| 0 <= i < s.len() + 1 implies #[trigger] insert_in_order(
            order,
            s,
            x,
        )[i] == x || exists|j: int| 0 <= j < s.len() && insert_in_order(order, s, x)[i] == s[j] by {
            if i == s.len() {
                assert(insert_in_order(order, s, x)[i] == s[s.len() - 1]);
            } else {
                assert(insert_in_order(order, s, x)[i] == r[i]);
                if r[i] != x {
                    let j = choose|j: int| 0 <= j < s.len() - 1 && r[i] == s.drop_last()[j];
                    assert(r[i] == s[j]);
                }
            }
        }
    } else {
        assert forall|i: int| 0 <= i < s.len() + 1 implies #[trigger] insert_in_order(
            order,
            s,
            x,
        )[i] == x || exists|j: int| 0 <= j < s.len() && insert_in_order(order, s, x)[i] == s[j] by {
            if i < s.len() {
                assert(insert_in_order(order, s, x)[i] == s[i]);
            }
        }
    }
}

/// Inserting into a display-sorted sequence keeps it display-sorted.
pub proof fn lemma_insert_sorted(order: Seq<Seq<char>>, s: Seq<SoundView>, x: SoundView)
    requires
        is_display_sorted(order, s),
    ensures
        is_display_sorted(order, insert_in_order(order, s, x)),
    decreases s.len(),
{
    lemma_insert_shape(order, s, x);
    if s.len() == 0 {
    } else if sound_before(order, x, s.last()) {
        let r = insert_in_order(order, s.drop_last(), x);
        let last = s.last();
        assert(is_display_sorted(order, s.drop_last())) by {
            assert forall|i: int, j: int|
                0 <= i < j < s.drop_last().len() implies !sound_before(
                order,
                #[trigger] s.drop_last()[j],
                #[trigger] s.drop_last()[i],
            ) by {
                assert(s.drop_last()[j] == s[j] && s.drop_last()[i] == s[i]);
            }
        }
        lemma_insert_sorted(order, s.drop_last(), x);
        lemma_insert_shape(order, s.drop_last(), x);
        let res = insert_in_order(order, s, x);
        assert(res == r.push(last));
        assert forall|i: int, j: int|
            0 <= i < j < res.len() implies !sound_before(
            order,
            #[trigger] res[j],
            #[trigger] res[i],
        ) by {
            if j == res.len() - 1 {
                assert(res[j] == last);
                assert(res[i] == r[i]);
                if r[i] == x {
                    lemma_before_strict_weak(order, x, last, x);
                } else {
                    let k = choose|k: int| 0 <= k < s.len() - 1 && r[i] == s.drop_last()[k];
                    assert(r[i] == s[k]);
                    assert(!sound_before(order, s[s.len() - 1], s[k]));
                }
            } else {
                assert(res[j] == r[j] && res[i] == r[i]);
            }
        }
    } else {
        let res = insert_in_order(order, s, x);
        assert(res == s.push(x));
        assert forall|i: int, j: int|
            0 <= i < j < res.len() implies !sound_before(
            order,
            #[trigger] res[j],
            #[trigger] res[i],
        ) by {
            if j == res.len() - 1 {
                assert(res[j] == x);
                assert(res[i] == s[i]);
                if i < s.len() - 1 {
                    assert(!sound_before(order, s[s.len() - 1], s[i]));
                }
                lemma_before_strict_weak(order, x, s.last(), s[i]);
            } else {
                assert(res[j] == s[j] && res[i] == s[i]);
            }
        }
    }
}

/// The stable sort is display-sorted and holds exactly the elements it was given.
pub proof fn lemma_display_sorted(order: Seq<Seq<char>>, s: Seq<SoundView>)
    ensures
        is_display_sorted(order, display_sorted(order, s)),
        display_sorted(order, s).len() == s.len(),
        display_sorted(order, s).to_multiset() == s.to_multiset(),
    decreases s.len(),
{
    broadcast use vstd::seq_lib::group_seq_properties;

    if s.len() > 0 {
        lemma_display_sorted(order, s.drop_last());
        lemma_insert_sorted(order, display_sorted(order, s.drop_last()), s.last());
        lemma_insert_shape(order, display_sorted(order, s.drop_last()), s.last());
        assert(s =~= s.drop_last().push(s.last()));
    }
}

/// Inserting at the position found by scanning back from the end.
pub proof fn lemma_insert_at(order: Seq<Seq<char>>, s: Seq<SoundView>, x: SoundView, p: int)
    requires
        0 <= p <= s.len(),
        p == 0 || !sound_before(order, x, s[p - 1]),
        forall|k: int| p <= k < s.len() ==> sound_before(order, x, #[trigger] s[k]),
    ensures
        insert_in_order(order, s, x) == s.insert(p, x),
    decreases s.len(),
{
    if s.len() == 0 {
        assert(s.insert(p, x) =~= seq![x]);
    } else if p == s.len() {
        assert(s.insert(p, x) =~= s.push(x));
    } else {
        assert(sound_before(order, x, s[s.len() - 1]));
        lemma_insert_at(order, s.drop_last(), x, p);
        assert(s.drop_last().insert(p, x).push(s.last()) =~= s.insert(p, x));
    }
}

/// Sounds of one category stand next to each other.
pub open spec fn categories_grouped(s: Seq<SoundView>) -> bool {
    forall|i: int, j: int, k: int|
        0 <= i < j < k < s.len() && #[trigger] s[i].category == #[trigger] s[k].category
            ==> #[trigger] s[j].category == s[i].category
}

/// In a display-sorted sequence every category forms one contiguous group.
pub proof fn lemma_sorted_groups_categories(order: Seq<Seq<char>>, s: Seq<SoundView>)
    requires
        is_display_sorted(order, s),
    ensures
        categories_grouped(s),
{
    assert forall|i: int, j: int, k: int|
        0 <= i < j < k < s.len() && #[trigger] s[i].category == #[trigger] s[k].category
            implies #[trigger] s[j].category == s[i].category by {
        assert(!sound_before(order, s[j], s[i]));
        assert(!sound_before(order, s[k], s[j]));
        lemma_rank_in(order, s[i].category);
        lemma_rank_in(order, s[j].category);
        lemma_chars_lt_total(s[i].category, s[j].category);
    }
}

/// In a display-sorted sequence, sounds whose category is configured come
/// before all others, and configured categories keep the configured order.
pub proof fn lemma_sorted_respects_configuration(order: Seq<Seq<char>>, s: Seq<SoundView>)
    requires
        is_display_sorted(order, s),
    ensures
        forall|i: int, j: int|
            0 <= i < j < s.len() && rank_in(order, #[trigger] s[i].category) is None ==> rank_in(
                order,
                #[trigger] s[j].category,
            ) is None,
        forall|i: int, j: int|
            0 <= i < j < s.len() && rank_in(order, #[trigger] s[i].category) is Some && rank_in(
                order,
                #[trigger] s[j].category,
            ) is Some ==> rank_in(order, s[i].category)->0 <= rank_in(order, s[j].category)->0,
{
    assert forall|i: int, j: int|
        0 <= i < j < s.len() && rank_in(order, #[trigger] s[i].category) is None implies rank_in(
            order,
            #[trigger] s[j].category,
        ) is None by {
        assert(!sound_before(order, s[j], s[i]));
    }
    assert forall|i: int, j: int|
        0 <= i < j < s.len() && rank_in(order, #[trigger] s[i].category) is Some && rank_in(
            order,
            #[trigger] s[j].category,
        ) is Some implies rank_in(order, s[i].category)->0 <= rank_in(order, s[j].category)->0 by {
        assert(!sound_before(order, s[j], s[i]));
    }
}

/// The rank is the first index holding the category.
proof fn lemma_rank_is(order: Seq<Seq<char>>, cat: Seq<char>, i: int)
    requires
        0 <= i < order.len(),
        order[i] == cat,
        forall|j: int| 0 <= j < i ==> order[j] != cat,
    ensures
        rank_in(order, cat) == Some(i as nat),
{
    lemma_rank_in(order, cat);
}

/// The rank of `cat` in `order`.
fn rank_of(order: &Vec<String>, cat: &String) -> (r: Option<usize>)
    ensures
        match r {
            Some(i) => rank_in(str_views(order@), cat@) == Some(i as nat),
            None => rank_in(str_views(order@), cat@) is None,
        },
{
    let ghost ov = str_views(order@);
    for i in 0..order.len()
        invariant
            ov == str_views(order@),
            forall|j: int| 0 <= j < i ==> ov[j] != cat@,
    {
        if order[i] == *cat {
            proof {
                lemma_rank_is(ov, cat@, i as int);
            }
            return Some(i);
        }
    }
    proof {
        lemma_rank_in(ov, cat@);
        if rank_in(ov, cat@) is Some {
            let r = rank_in(ov, cat@)->0;
            assert(ov[r as int] == cat@);
        }
    }
    None
}

/// Whether `a` is displayed strictly before `b` under `order`.
pub fn sound_is_before(order: &Vec<String>, a: &Sound, b: &Sound) -> (r: bool)
    ensures
        r == sound_before(str_views(order@), a@, b@),
{
    let ra = rank_of(order, &a.category);
    let rb = rank_of(order, &b.category);
    match (ra, rb) {
        (Some(ia), Some(ib)) => {
            if ia < ib {
                true
            } else if ia == ib {
                chars_less(&chars_of(a.id.as_str()), &chars_of(b.id.as_str()))
            } else {
                false
            }
        },
        (Some(_), None) => true,
        (None, Some(_)) => false,
        (None, None) => {
            let ca = chars_of(a.category.as_str());
            let cb = chars_of(b.category.as_str());
            if chars_less(&ca, &cb) {
                true
            } else if a.category == b.category {
                chars_less(&chars_of(a.id.as_str()), &chars_of(b.id.as_str()))
            } else {
                false
            }
        },
    }
}

/// Stably sorts `sounds` into display order under the category order `order`.
pub fn sort_in_display_order(order: &Vec<String>, sounds: &mut Vec<Sound>)
    ensures
        views(final(sounds)@) == display_sorted(str_views(order@), views(old(sounds)@)),
{
    let ghost ov = str_views(order@);
    let mut input: Vec<Sound> = Vec::new();
    std::mem::swap(&mut input, sounds);
    let ghost orig = input@;
    let mut out: Vec<Sound> = Vec::new();
    let ghost mut i: int = 0;
    assert(orig.skip(0) =~= orig);
    assert(views(orig.take(0)) =~= Seq::<SoundView>::empty());
    while input.len() > 0
        invariant
            ov == str_views(order@),
            0 <= i <= orig.len(),
            input@ == orig.skip(i),
            views(out@) == display_sorted(ov, views(orig.take(i))),
        decreases input.len(),
    {
        let x = input.remove(0);
        let mut p = out.len();
        while p > 0 && sound_is_before(order, &x, &out[p - 1])
            invariant
                ov == str_views(order@),
                p <= out.len(),
                forall|k: int| p <= k < out.len() ==> sound_before(ov, x@, #[trigger] out@[k]@),
            decreases p,
        {
            p = p - 1;
        }
        proof {
            let so = views(out@);
            assert forall|k: int| p <= k < so.len() implies sound_before(ov, x@, #[trigger] so[k]) by {
                assert(so[k] == out@[k]@);
            }
            if p > 0 {
                assert(so[p - 1] == out@[p - 1]@);
            }
            lemma_insert_at(ov, so, x@, p as int);
            assert(views(orig.take(i + 1)) =~= views(orig.take(i)).push(x@));
            assert(views(orig.take(i + 1)).drop_last() =~= views(orig.take(i)));
        }
        let ghost before_insert = out@;
        out.insert(p, x);
        proof {
            assert(views(out@) =~= views(before_insert).insert(p as int, x@));
            assert(orig.skip(i).remove(0) =~= orig.skip(i + 1));
            i = i + 1;
        }
    }
    assert(orig.take(i) =~= orig);
    *sounds = out;
}

/// Sorting an already display-sorted sequence leaves it as it is.
pub proof fn lemma_sorted_is_fixed(order: Seq<Seq<char>>, s: Seq<SoundView>)
    requires
        is_display_sorted(order, s),
    ensures
        display_sorted(order, s) == s,
    decreases s.len(),
{
    if s.len() > 0 {
        let t = s.drop_last();
        assert(is_display_sorted(order, t)) by {
            assert forall|i: int, j: int| 0 <= i < j < t.len() implies !sound_before(
                order,
                #[trigger] t[j],
                #[trigger] t[i],
            ) by {
                assert(t[i] == s[i] && t[j] == s[j]);
            }
        }
        lemma_sorted_is_fixed(order, t);
        if t.len() > 0 {
            assert(!sound_before(order, s[s.len() - 1], s[s.len() - 2]));
            assert(t.last() == s[s.len() - 2]);
        }
        assert(t.push(s.last()) =~= s);
    }
}

/// Sorting twice gives what sorting once gives.
pub proof fn law_display_sort_idempotent(order: Seq<Seq<char>>, s: Seq<SoundView>)
    ensures
        display_sorted(order, display_sorted(order, s)) == display_sorted(order, s),
{
    lemma_display_sorted(order, s);
    lemma_sorted_is_fixed(order, display_sorted(order, s));
}

} // verus!
