//! The canonical order of threat categories.
use vstd::prelude::*;

use crate::text::{
    lemma_text_before_irreflexive, lemma_text_before_total, lemma_text_before_transitive,
    precedes, same_text, text_before,
};

verus! {

/// Whether every text comes before all that follow it.
pub open spec fn is_ascending(texts: Seq<Seq<char>>) -> bool {
    forall|i: int, j: int|
        0 <= i < j < texts.len() ==> text_before(#[trigger] texts[i], #[trigger] texts[j])
}

/// Whether two lists hold the same texts, however often.
pub open spec fn same_texts(a: Seq<Seq<char>>, b: Seq<Seq<char>>) -> bool {
    forall|text: Seq<char>| #[trigger] a.contains(text) <==> #[trigger] b.contains(text)
}

/// Whether `sorted` holds the texts of `texts`, each once and in order.
pub open spec fn is_sorted_set_of(sorted: Seq<Seq<char>>, texts: Seq<Seq<char>>) -> bool {
    is_ascending(sorted) && same_texts(sorted, texts)
}

/// Put a text in its place, unless it is there already.
fn insert_category(sorted: &mut Vec<String>, category: String)
    requires
        is_ascending(old(sorted).deep_view()),
    ensures
        is_ascending(final(sorted).deep_view()),
        same_texts(final(sorted).deep_view(), old(sorted).deep_view().push(category@)),
{
    let ghost before = sorted.deep_view();
    let mut i: usize = 0;
    while i < sorted.len() && precedes(&sorted[i], &category)
        invariant
            i <= sorted@.len(),
            before == sorted.deep_view(),
            forall|j: int| 0 <= j < i ==> text_before(#[trigger] before[j], category@),
        decreases sorted@.len() - i,
    {
        i = i + 1;
    }
    if i < sorted.len() && same_text(&sorted[i], &category) {
        proof {
            assert(before[i as int] == category@);
            assert(before.contains(category@));
            lemma_push_contains(before, category@);
        }
        return;
    }
    proof {
        assert forall|j: int| i <= j < before.len() implies text_before(
            category@,
            #[trigger] before[j],
        ) by {
            lemma_text_before_total(before[i as int], category@);
            if i < j {
                lemma_text_before_transitive(category@, before[i as int], before[j]);
            }
        }
    }
    let ghost text = category@;
    sorted.insert(i, category);
    proof {
        let after = sorted.deep_view();
        assert(after =~= before.insert(i as int, text));
        lemma_push_contains(before, text);
        assert forall|other: Seq<char>| #[trigger] after.contains(other) <==> before.push(
            text,
        ).contains(other) by {
            if before.contains(other) {
                let k = before.index_of(other);
                assert(after[if k < i {
                    k
                } else {
                    k + 1
                }] == other);
            }
            if after.contains(other) {
                let k = after.index_of(other);
                assert(k == i || before[if k < i {
                    k
                } else {
                    k - 1
                }] == other);
            }
            assert(after[i as int] == text);
        }
    }
}

/// What a list holds after a push.
proof fn lemma_push_contains(texts: Seq<Seq<char>>, text: Seq<char>)
    ensures
        forall|other: Seq<char>| #[trigger]
            texts.push(text).contains(other) <==> texts.contains(other) || other == text,
{
    assert forall|other: Seq<char>| #[trigger] texts.push(text).contains(other) <==> texts.contains(
        other,
    ) || other == text by {
        if texts.contains(other) {
            assert(texts.push(text)[texts.index_of(other)] == other);
        }
        assert(texts.push(text)[texts.len() as int] == text);
        if texts.push(text).contains(other) && other != text {
            assert(texts[texts.push(text).index_of(other)] == other);
        }
    }
}

/// Deduplicate and sort the flagged view's categories: the deterministic
/// order in which the ban thresholds are resolved.
pub fn sort_categories(categories: Vec<String>) -> (sorted: Vec<String>)
    ensures
        is_sorted_set_of(sorted.deep_view(), categories.deep_view()),
{
    let ghost all = categories.deep_view();
    let mut rest: Vec<String> = categories;
    let mut sorted: Vec<String> = Vec::new();
    assert(all.skip(all.len() as int) =~= Seq::empty());
    assert(sorted.deep_view() =~= Seq::empty());
    while rest.len() > 0
        invariant
            is_ascending(sorted.deep_view()),
            rest@.len() <= all.len(),
            rest.deep_view() == all.take(rest@.len() as int),
            same_texts(sorted.deep_view(), all.skip(rest@.len() as int)),
        decreases rest@.len(),
    {
        let ghost back = all.skip(rest@.len() as int);
        let ghost last = rest.deep_view().last();
        let ghost held = sorted.deep_view();
        if let Some(category) = rest.pop() {
            insert_category(&mut sorted, category);
        }
        proof {
            let n = rest@.len() as int;
            assert(rest.deep_view() =~= all.take(n));
            assert(last == all[n]);
            assert(all.skip(n) =~= seq![last] + back);
            lemma_push_contains(held, last);
            assert forall|text: Seq<char>| #[trigger]
                sorted.deep_view().contains(text) <==> #[trigger] all.skip(n).contains(text) by {
                assert(held.push(last).contains(text) <==> held.contains(text) || text == last);
                assert(held.contains(text) <==> back.contains(text));
                if back.contains(text) {
                    assert(all.skip(n)[back.index_of(text) + 1] == text);
                }
                assert(all.skip(n)[0] == last);
                if all.skip(n).contains(text) && text != last {
                    assert(back[all.skip(n).index_of(text) - 1] == text);
                }
            }
        }
    }
    assert(all.skip(0) =~= all);
    sorted
}

/// The head of an ascending list comes before everything else in it, so the
/// rest of the list is what differs from the head.
proof fn lemma_ascending_rest(texts: Seq<Seq<char>>, text: Seq<char>)
    requires
        is_ascending(texts),
        texts.len() > 0,
    ensures
        is_ascending(texts.drop_first()),
        texts.drop_first().contains(text) <==> texts.contains(text) && text != texts[0],
{
    let rest = texts.drop_first();
    assert forall|i: int, j: int| 0 <= i < j < rest.len() implies text_before(
        #[trigger] rest[i],
        #[trigger] rest[j],
    ) by {
        assert(text_before(texts[i + 1], texts[j + 1]));
    }
    if rest.contains(text) {
        let i = rest.index_of(text);
        assert(texts[i + 1] == text);
        assert(text_before(texts[0], texts[i + 1]));
        lemma_text_before_irreflexive(text);
    }
    if texts.contains(text) && text != texts[0] {
        assert(rest[texts.index_of(text) - 1] == text);
    }
}

/// Two ascending lists that hold the same texts are the same list.
proof fn lemma_ascending_unique(a: Seq<Seq<char>>, b: Seq<Seq<char>>)
    requires
        is_ascending(a),
        is_ascending(b),
        same_texts(a, b),
    ensures
        a == b,
    decreases a.len(),
{
    if a.len() == 0 {
        if b.len() > 0 {
            assert(b.contains(b[0]));
            assert(a.contains(b[0]));
        }
        assert(a =~= b);
    } else {
        assert(a.contains(a[0]));
        assert(b.contains(a[0]));
        let i = b.index_of(a[0]);
        assert(b.contains(b[0]));
        assert(a.contains(b[0]));
        let j = a.index_of(b[0]);
        if a[0] != b[0] {
            assert(text_before(b[0], b[i]));
            assert(text_before(a[0], a[j]));
            lemma_text_before_transitive(a[0], b[0], a[0]);
            lemma_text_before_irreflexive(a[0]);
        }
        assert forall|text: Seq<char>| #[trigger]
            a.drop_first().contains(text) <==> #[trigger] b.drop_first().contains(text) by {
            lemma_ascending_rest(a, text);
            lemma_ascending_rest(b, text);
            assert(a.contains(text) <==> b.contains(text));
        }
        lemma_ascending_rest(a, a[0]);
        lemma_ascending_rest(b, b[0]);
        lemma_ascending_unique(a.drop_first(), b.drop_first());
        assert(a =~= seq![a[0]] + a.drop_first());
        assert(b =~= seq![b[0]] + b.drop_first());
    }
}

/// Sorting depends neither on the order of the categories nor on how often one
/// occurs: lists that hold the same categories are sorted to the same list.
pub proof fn sorting_ignores_order_and_repetition(
    a: Seq<Seq<char>>,
    sorted_a: Seq<Seq<char>>,
    b: Seq<Seq<char>>,
    sorted_b: Seq<Seq<char>>,
)
    requires
        is_sorted_set_of(sorted_a, a),
        is_sorted_set_of(sorted_b, b),
        same_texts(a, b),
    ensures
        sorted_a == sorted_b,
{
    assert forall|text: Seq<char>| #[trigger] sorted_a.contains(text) <==> #[trigger]
        sorted_b.contains(text) by {
        assert(a.contains(text) <==> b.contains(text));
    }
    lemma_ascending_unique(sorted_a, sorted_b);
}

/// A sorted list holds no category twice.
pub proof fn sorting_removes_repetition(texts: Seq<Seq<char>>, sorted: Seq<Seq<char>>)
    requires
        is_sorted_set_of(sorted, texts),
    ensures
        sorted.no_duplicates(),
{
    assert forall|i: int, j: int|
        0 <= i < sorted.len() && 0 <= j < sorted.len() && i != j implies sorted[i] != sorted[j] by {
        lemma_text_before_irreflexive(sorted[i]);
        if i < j {
            assert(text_before(sorted[i], sorted[j]));
        } else {
            assert(text_before(sorted[j], sorted[i]));
        }
    }
}

/// Sorting what is sorted changes nothing.
pub proof fn sorting_twice_is_sorting_once(
    texts: Seq<Seq<char>>,
    once: Seq<Seq<char>>,
    twice: Seq<Seq<char>>,
)
    requires
        is_sorted_set_of(once, texts),
        is_sorted_set_of(twice, once),
    ensures
        twice == once,
{
    lemma_ascending_unique(twice, once);
}

} // verus!
