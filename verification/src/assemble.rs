//! From the capture sets of all matches to the tags of a document.

use crate::order::{in_source_order, insert_in_order, lemma_put_in_order, put_in_order};
use crate::tag::{alike, all_alike, lemma_tag_is_well_formed, CaptureSet, Tag};
use vstd::prelude::*;

verus! {

/// The tags that `captures` make, in the order of the capture sets. Those
/// that make no tag are passed over.
pub open spec fn tags_made(captures: Seq<CaptureSet>, source: Seq<u8>) -> Seq<Tag>
    decreases captures.len(),
{
    if captures.len() == 0 {
        Seq::empty()
    } else {
        let front = tags_made(captures.drop_last(), source);
        match captures.last().tag(source) {
            Some(tag) => front.push(tag),
            None => front,
        }
    }
}

/// The tags of a document: those that `captures` make, put in source order.
pub open spec fn assembled(captures: Seq<CaptureSet>, source: Seq<u8>) -> Seq<Tag> {
    put_in_order(tags_made(captures, source))
}

/// Every tag made is the tag of one of the capture sets, and is well formed.
pub proof fn lemma_tags_made(captures: Seq<CaptureSet>, source: Seq<u8>)
    ensures
        tags_made(captures, source).len() <= captures.len(),
        forall|k: int|
            0 <= k < tags_made(captures, source).len() ==> {
                &&& (#[trigger] tags_made(captures, source)[k]).well_formed(source)
                &&& exists|i: int|
                    0 <= i < captures.len() && (#[trigger] captures[i]).tag(source) == Some(
                        tags_made(captures, source)[k],
                    )
            },
    decreases captures.len(),
{
    if captures.len() != 0 {
        let front = captures.drop_last();
        lemma_tags_made(front, source);
        let made = tags_made(captures, source);
        assert forall|k: int| 0 <= k < made.len() implies {
            &&& (#[trigger] made[k]).well_formed(source)
            &&& exists|i: int|
                0 <= i < captures.len() && (#[trigger] captures[i]).tag(source) == Some(made[k])
        } by {
            if k < tags_made(front, source).len() {
                assert(made[k] == tags_made(front, source)[k]);
                let i = choose|i: int|
                    0 <= i < front.len() && (#[trigger] front[i]).tag(source) == Some(made[k]);
                assert(captures[i] == front[i]);
            } else {
                lemma_tag_is_well_formed(captures.last(), source);
                assert(captures[captures.len() - 1].tag(source) == Some(made[k]));
            }
        }
    }
}

/// The tags that two runs of capture sets make, one run after the other, are
/// the tags of the first followed by the tags of the second.
pub proof fn lemma_tags_made_of_both(
    first: Seq<CaptureSet>,
    second: Seq<CaptureSet>,
    source: Seq<u8>,
)
    ensures
        tags_made(first + second, source) == tags_made(first, source) + tags_made(second, source),
    decreases second.len(),
{
    if second.len() == 0 {
        assert(first + second =~= first);
        assert(tags_made(first, source) + tags_made(second, source) =~= tags_made(first, source));
    } else {
        lemma_tags_made_of_both(first, second.drop_last(), source);
        assert((first + second).drop_last() =~= first + second.drop_last());
        assert((first + second).last() == second.last());
        let front = tags_made(first, source) + tags_made(second.drop_last(), source);
        match second.last().tag(source) {
            Some(tag) => {
                assert(front.push(tag) =~= tags_made(first, source) + tags_made(
                    second.drop_last(),
                    source,
                ).push(tag));
            },
            None => {},
        }
    }
}

/// Capture sets that hold the same make the same tags.
pub proof fn lemma_alike_make_the_same(
    first: Seq<CaptureSet>,
    second: Seq<CaptureSet>,
    source: Seq<u8>,
)
    requires
        all_alike(first, second),
    ensures
        tags_made(first, source) == tags_made(second, source),
        assembled(first, source) == assembled(second, source),
    decreases first.len(),
{
    if first.len() != 0 {
        let one = first.drop_last();
        let other = second.drop_last();
        assert(all_alike(one, other)) by {
            assert forall|i: int| 0 <= i < one.len() implies alike(#[trigger] one[i], other[i]) by {
                assert(alike(first[i], second[i]));
            }
        }
        lemma_alike_make_the_same(one, other, source);
        assert(alike(first[first.len() - 1], second[second.len() - 1]));
        assert(first.last().tag(source) == second.last().tag(source));
    }
}

/// The tags of a document are in source order, each of them is well formed,
/// each is the tag of one of the capture sets, and they are the tags that the
/// capture sets make: each as often as it was made.
pub proof fn lemma_assembled(captures: Seq<CaptureSet>, source: Seq<u8>)
    ensures
        in_source_order(assembled(captures, source)),
        assembled(captures, source).len() == tags_made(captures, source).len(),
        assembled(captures, source).to_multiset() == tags_made(captures, source).to_multiset(),
        forall|k: int|
            0 <= k < assembled(captures, source).len() ==> {
                &&& (#[trigger] assembled(captures, source)[k]).well_formed(source)
                &&& exists|i: int|
                    0 <= i < captures.len() && (#[trigger] captures[i]).tag(source) == Some(
                        assembled(captures, source)[k],
                    )
            },
{
    let made = tags_made(captures, source);
    let tags = assembled(captures, source);
    lemma_tags_made(captures, source);
    lemma_put_in_order(made);
    assert forall|k: int| 0 <= k < tags.len() implies {
        &&& (#[trigger] tags[k]).well_formed(source)
        &&& exists|i: int|
            0 <= i < captures.len() && (#[trigger] captures[i]).tag(source) == Some(tags[k])
    } by {
        tags.to_multiset_ensures();
        made.to_multiset_ensures();
        assert(tags.contains(tags[k]));
        assert(tags.to_multiset().count(tags[k]) > 0);
        assert(made.contains(tags[k]));
        let m = choose|m: int| 0 <= m < made.len() && made[m] == tags[k];
        assert(made[m].well_formed(source));
    }
}

/// A capture set without a name adds nothing to the tags of a document,
/// wherever among the others it stands.
pub proof fn lemma_nameless_adds_nothing(
    captures: Seq<CaptureSet>,
    at: int,
    nameless: CaptureSet,
    source: Seq<u8>,
)
    requires
        0 <= at <= captures.len(),
        nameless.name_range is None,
    ensures
        assembled(captures.insert(at, nameless), source) == assembled(captures, source),
{
    let before = captures.take(at);
    let after = captures.skip(at);
    let one = seq![nameless];
    assert(captures.insert(at, nameless) =~= before + one + after);
    assert(captures =~= before + after);
    lemma_tags_made_of_both(before + one, after, source);
    lemma_tags_made_of_both(before, one, source);
    lemma_tags_made_of_both(before, after, source);
    assert(tags_made(one, source) =~= Seq::empty()) by {
        assert(one.drop_last() =~= Seq::empty());
        assert(one.last() == nameless);
        assert(tags_made(one.drop_last(), source) =~= Seq::empty());
    }
    assert(tags_made(before, source) + tags_made(one, source) =~= tags_made(before, source));
}

/// Makes the tags of a document from what the matches captured: each capture
/// set that holds a name, stands for a kind and has its ranges within
/// `source` gives one tag, and the tags come in source order.
pub fn assemble_tags(captures: &[CaptureSet], source: &[u8]) -> (tags: Vec<Tag>)
    ensures
        tags@ == assembled(captures@, source@),
        in_source_order(tags@),
        forall|k: int| 0 <= k < tags@.len() ==> (#[trigger] tags@[k]).well_formed(source@),
{
    let mut tags: Vec<Tag> = Vec::new();
    let mut i: usize = 0;
    assert(captures@.take(0) =~= Seq::empty());
    while i < captures.len()
        invariant
            i <= captures@.len(),
            tags@ == assembled(captures@.take(i as int), source@),
        decreases captures@.len() - i,
    {
        assert(captures@.take(i + 1).drop_last() =~= captures@.take(i as int));
        assert(captures@.take(i + 1).last() == captures@[i as int]);
        match captures[i].to_tag(source) {
            Some(tag) => {
                assert(tags_made(captures@.take(i as int), source@).push(tag).drop_last()
                    =~= tags_made(captures@.take(i as int), source@));
                insert_in_order(&mut tags, tag);
            },
            None => {},
        }
        i = i + 1;
    }
    assert(captures@.take(i as int) =~= captures@);
    proof {
        lemma_assembled(captures@, source@);
    }
    tags
}

} // verus!
