use vstd::prelude::*;
use crate::cache::{StrCache, intern_post};
use crate::id::{StrID, empty_id};

verus! {

/// Interning never removes or changes an entry: what the cache held before,
/// it holds afterwards.
pub proof fn law_entries_persist(before: StrCache, after: StrCache, s: Seq<char>, r: Option<StrID>)
    requires
        before.wf(),
        intern_post(before, after, s, r),
    ensures
        after.wf(),
        before@.submap_of(after@),
{
}

/// Text the cache already holds keeps its identifier: interning it again
/// returns that identifier and changes nothing.
pub proof fn law_known_text_keeps_id(
    before: StrCache,
    after: StrCache,
    s: Seq<char>,
    id: StrID,
    r: Option<StrID>,
)
    requires
        before.wf(),
        before@.contains_key(id@),
        before@[id@] == s,
        intern_post(before, after, s, r),
    ensures
        r == Some(id),
        after@ == before@,
{
    let found = r.unwrap();
    assert(before@[found@] == before@[id@]);
    StrID::lemma_view_injective(found, id);
}

/// Interning the same text twice, through either entry point, gives the same
/// identifier both times, and the second call adds nothing.
pub proof fn law_intern_twice(
    c0: StrCache,
    c1: StrCache,
    c2: StrCache,
    s: Seq<char>,
    r1: Option<StrID>,
    r2: Option<StrID>,
)
    requires
        c0.wf(),
        intern_post(c0, c1, s, r1),
        intern_post(c1, c2, s, r2),
        r1 is Some,
    ensures
        r2 == r1,
        c2@ == c1@,
{
    law_known_text_keeps_id(c1, c2, s, r1.unwrap(), r2);
}

/// Different texts interned one after the other get different identifiers.
pub proof fn law_distinct_texts(
    c0: StrCache,
    c1: StrCache,
    c2: StrCache,
    s1: Seq<char>,
    s2: Seq<char>,
    r1: Option<StrID>,
    r2: Option<StrID>,
)
    requires
        c0.wf(),
        s1 != s2,
        intern_post(c0, c1, s1, r1),
        intern_post(c1, c2, s2, r2),
        r1 is Some,
        r2 is Some,
    ensures
        r1.unwrap()@ != r2.unwrap()@,
{
    assert(c1@.submap_of(c2@));
    assert(c2@[r1.unwrap()@] == s1);
}

/// The identifier that interning returns resolves to the interned text.
pub proof fn law_round_trip(before: StrCache, after: StrCache, s: Seq<char>, r: Option<StrID>)
    requires
        before.wf(),
        intern_post(before, after, s, r),
        r is Some,
    ensures
        after.text_of(r.unwrap()) == s,
{
}

/// Interning the empty text returns the default identifier.
pub proof fn law_empty_is_default(before: StrCache, after: StrCache, r: Option<StrID>)
    requires
        before.wf(),
        intern_post(before, after, Seq::<char>::empty(), r),
    ensures
        r matches Some(id) && id@ == empty_id(),
        after@ == before@,
{
    let id = r.unwrap();
    assert(before@[id@] == before@[empty_id()]);
}

/// The calls in `texts` made one at a time, as the cache's lock orders them:
/// call `i` interns `texts[i]` into `caches[i]`, leaving `caches[i + 1]` and
/// returning `results[i]`.
pub open spec fn is_run(caches: Seq<StrCache>, texts: Seq<Seq<char>>, results: Seq<Option<StrID>>) -> bool {
    &&& caches.len() == texts.len() + 1
    &&& results.len() == texts.len()
    &&& caches[0].wf()
    &&& forall|i: int|
        0 <= i < texts.len() ==> #[trigger] intern_post(caches[i], caches[i + 1], texts[i], results[i])
}

proof fn lemma_run_wf(caches: Seq<StrCache>, texts: Seq<Seq<char>>, results: Seq<Option<StrID>>, j: int)
    requires
        is_run(caches, texts, results),
        0 <= j < caches.len(),
    ensures
        caches[j].wf(),
    decreases j,
{
    if j > 0 {
        let k = j - 1;
        lemma_run_wf(caches, texts, results, k);
        assert(intern_post(caches[k], caches[k + 1], texts[k], results[k]));
    }
}

proof fn lemma_run_grows(
    caches: Seq<StrCache>,
    texts: Seq<Seq<char>>,
    results: Seq<Option<StrID>>,
    i: int,
    j: int,
)
    requires
        is_run(caches, texts, results),
        0 <= i <= j < caches.len(),
    ensures
        caches[j].wf(),
        caches[i]@.submap_of(caches[j]@),
    decreases j - i,
{
    lemma_run_wf(caches, texts, results, j);
    if i < j {
        let k = j - 1;
        lemma_run_grows(caches, texts, results, i, k);
        assert(intern_post(caches[k], caches[k + 1], texts[k], results[k]));
        law_entries_persist(caches[k], caches[k + 1], texts[k], results[k]);
    }
}

proof fn lemma_run_result_kept(
    caches: Seq<StrCache>,
    texts: Seq<Seq<char>>,
    results: Seq<Option<StrID>>,
    i: int,
)
    requires
        is_run(caches, texts, results),
        0 <= i < texts.len(),
        results[i] is Some,
    ensures
        caches.last().wf(),
        caches.last()@.contains_key(results[i].unwrap()@),
        caches.last()@[results[i].unwrap()@] == texts[i],
{
    lemma_run_wf(caches, texts, results, i);
    assert(intern_post(caches[i], caches[i + 1], texts[i], results[i]));
    let id = results[i].unwrap();
    assert(caches[i + 1]@.contains_key(id@) && caches[i + 1]@[id@] == texts[i]);
    lemma_run_grows(caches, texts, results, i + 1, caches.len() - 1);
    assert(caches.last() == caches[caches.len() - 1]);
    assert(caches[i + 1]@.contains_key(id@) ==> caches.last()@.contains_key(id@)
        && caches[i + 1]@[id@] == caches.last()@[id@]);
}

/// However calls for other texts interleave with them, all calls for the
/// same text that succeed return the same identifier, and afterwards the
/// cache holds that text under that one identifier and no other.
pub proof fn law_same_text_converges(
    caches: Seq<StrCache>,
    texts: Seq<Seq<char>>,
    results: Seq<Option<StrID>>,
    i: int,
    j: int,
)
    requires
        is_run(caches, texts, results),
        0 <= i < texts.len(),
        0 <= j < texts.len(),
        texts[i] == texts[j],
        results[i] is Some,
        results[j] is Some,
    ensures
        results[i] == results[j],
        caches.last()@[results[i].unwrap()@] == texts[i],
        forall|k: usize|
            caches.last()@.contains_key(k) && #[trigger] caches.last()@[k] == texts[i] ==> k
                == results[i].unwrap()@,
{
    lemma_run_result_kept(caches, texts, results, i);
    lemma_run_result_kept(caches, texts, results, j);
    let last = caches.last();
    assert(last@[results[i].unwrap()@] == last@[results[j].unwrap()@]);
    StrID::lemma_view_injective(results[i].unwrap(), results[j].unwrap());
    assert forall|k: usize| last@.contains_key(k) && #[trigger] last@[k] == texts[i] implies k
        == results[i].unwrap()@ by {
        assert(last@[k] == last@[results[i].unwrap()@]);
    }
}

/// In any order of calls, two different texts never receive the same
/// identifier.
pub proof fn law_distinct_texts_in_any_order(
    caches: Seq<StrCache>,
    texts: Seq<Seq<char>>,
    results: Seq<Option<StrID>>,
    i: int,
    j: int,
)
    requires
        is_run(caches, texts, results),
        0 <= i < texts.len(),
        0 <= j < texts.len(),
        texts[i] != texts[j],
        results[i] is Some,
        results[j] is Some,
    ensures
        results[i].unwrap()@ != results[j].unwrap()@,
{
    lemma_run_result_kept(caches, texts, results, i);
    lemma_run_result_kept(caches, texts, results, j);
}

} // verus!
