//! Source order: the order in which tags are handed out.

use crate::tag::Tag;
use std::ops::Range;
use vstd::prelude::*;

verus! {

/// Whether a construct with span `first` stands at or before one with span
/// `second` in a walk of the syntax tree that visits a node before its
/// children: `first` starts earlier, or the two start at the same byte and
/// `first` ends no earlier, as a node that encloses the other does.
pub open spec fn at_or_before(first: Range<usize>, second: Range<usize>) -> bool {
    first.start < second.start || (first.start == second.start && first.end >= second.end)
}

/// Whether `tags` are in source order: no tag stands after one that follows it.
pub open spec fn in_source_order(tags: Seq<Tag>) -> bool {
    forall|i: int, j: int|
        0 <= i < j < tags.len() ==> at_or_before(#[trigger] tags[i].span, #[trigger] tags[j].span)
}

/// In source order the starts of the spans ascend, and of two tags that start
/// at the same byte the one that ends later comes first.
pub proof fn lemma_source_order_ascends(tags: Seq<Tag>, i: int, j: int)
    requires
        in_source_order(tags),
        0 <= i < j < tags.len(),
    ensures
        tags[i].span.start <= tags[j].span.start,
        tags[i].span.start == tags[j].span.start ==> tags[i].span.end >= tags[j].span.end,
{
}

/// Where a tag with span `span` goes into `tags`: behind the last tag that
/// stands at or before it.
pub open spec fn place_for(tags: Seq<Tag>, span: Range<usize>) -> int
    decreases tags.len(),
{
    if tags.len() == 0 || at_or_before(tags.last().span, span) {
        tags.len() as int
    } else {
        place_for(tags.drop_last(), span)
    }
}

/// `tags` with `tag` put in at its place.
pub open spec fn with_tag(tags: Seq<Tag>, tag: Tag) -> Seq<Tag> {
    tags.insert(place_for(tags, tag.span), tag)
}

/// `tags` put in source order, one after the other: tags that stand at the
/// same place, with the same span, keep the order in which they came.
pub open spec fn put_in_order(tags: Seq<Tag>) -> Seq<Tag>
    decreases tags.len(),
{
    if tags.len() == 0 {
        Seq::empty()
    } else {
        with_tag(put_in_order(tags.drop_last()), tags.last())
    }
}

/// The place for a tag lies within the sequence; every tag from there on
/// stands after the new one, and the tag just before it does not.
pub proof fn lemma_place_for(tags: Seq<Tag>, span: Range<usize>)
    ensures
        0 <= place_for(tags, span) <= tags.len(),
        forall|i: int|
            place_for(tags, span) <= i < tags.len() ==> !at_or_before(
                (#[trigger] tags[i]).span,
                span,
            ),
        place_for(tags, span) > 0 ==> at_or_before(tags[place_for(tags, span) - 1].span, span),
    decreases tags.len(),
{
    if tags.len() != 0 && !at_or_before(tags.last().span, span) {
        let front = tags.drop_last();
        lemma_place_for(front, span);
        assert forall|i: int| place_for(tags, span) <= i < tags.len() implies !at_or_before(
            (#[trigger] tags[i]).span,
            span,
        ) by {
            if i < front.len() {
                assert(tags[i] == front[i]);
            }
        }
    }
}

/// Putting a tag in at its place keeps source order.
pub proof fn lemma_with_tag_keeps_order(tags: Seq<Tag>, tag: Tag)
    requires
        in_source_order(tags),
    ensures
        in_source_order(with_tag(tags, tag)),
{
    lemma_place_for(tags, tag.span);
    let place = place_for(tags, tag.span);
    let after = with_tag(tags, tag);
    assert forall|i: int, j: int| 0 <= i < j < after.len() implies at_or_before(
        #[trigger] after[i].span,
        #[trigger] after[j].span,
    ) by {
        if j < place {
            assert(after[i] == tags[i] && after[j] == tags[j]);
        } else if j == place {
            assert(after[i] == tags[i]);
            if i < place - 1 {
                assert(at_or_before(tags[i].span, tags[place - 1].span));
            }
        } else if i < place {
            assert(after[i] == tags[i] && after[j] == tags[j - 1]);
        } else if i == place {
            assert(after[j] == tags[j - 1]);
            assert(!at_or_before(tags[j - 1].span, tag.span));
        } else {
            assert(after[i] == tags[i - 1] && after[j] == tags[j - 1]);
        }
    }
}

/// Putting a tag in adds that tag and no other.
pub proof fn lemma_with_tag_adds_one(tags: Seq<Tag>, tag: Tag)
    ensures
        with_tag(tags, tag).len() == tags.len() + 1,
        with_tag(tags, tag).to_multiset() == tags.to_multiset().insert(tag),
{
    broadcast use vstd::seq_lib::group_to_multiset_ensures;

    lemma_place_for(tags, tag.span);
    let place = place_for(tags, tag.span);
    let after = with_tag(tags, tag);
    assert(after.remove(place) =~= tags);
    assert(after.to_multiset().remove(tag) == tags.to_multiset());
    assert(after.contains(tag)) by {
        assert(after[place] == tag);
    }
    assert(after.to_multiset() =~= tags.to_multiset().insert(tag));
}

/// Tags put in order are in source order, and they are the tags that were
/// given: each as often as it was given, none added and none lost.
pub proof fn lemma_put_in_order(tags: Seq<Tag>)
    ensures
        in_source_order(put_in_order(tags)),
        put_in_order(tags).len() == tags.len(),
        put_in_order(tags).to_multiset() == tags.to_multiset(),
    decreases tags.len(),
{
    broadcast use vstd::seq_lib::group_to_multiset_ensures;

    if tags.len() == 0 {
        assert(tags =~= Seq::empty());
    } else {
        let before = put_in_order(tags.drop_last());
        lemma_put_in_order(tags.drop_last());
        lemma_with_tag_keeps_order(before, tags.last());
        lemma_with_tag_adds_one(before, tags.last());
        assert(tags.drop_last().push(tags.last()) =~= tags);
    }
}

/// Tags that are in source order already stay as they are.
pub proof fn lemma_ordered_stays(tags: Seq<Tag>)
    requires
        in_source_order(tags),
    ensures
        put_in_order(tags) == tags,
    decreases tags.len(),
{
    if tags.len() != 0 {
        let front = tags.drop_last();
        assert(in_source_order(front)) by {
            assert forall|i: int, j: int| 0 <= i < j < front.len() implies at_or_before(
                #[trigger] front[i].span,
                #[trigger] front[j].span,
            ) by {
                assert(front[i] == tags[i] && front[j] == tags[j]);
            }
        }
        lemma_ordered_stays(front);
        if front.len() > 0 {
            assert(front.last() == tags[front.len() - 1]);
            assert(at_or_before(tags[front.len() - 1].span, tags[tags.len() - 1].span));
        }
        assert(place_for(front, tags.last().span) == front.len());
        assert(front.insert(front.len() as int, tags.last()) =~= tags);
    }
}

/// Whether a construct with span `first` stands at or before one with span
/// `second`.
pub fn stands_at_or_before(first: &Range<usize>, second: &Range<usize>) -> (holds: bool)
    ensures
        holds == at_or_before(*first, *second),
{
    first.start < second.start || (first.start == second.start && first.end >= second.end)
}

/// Puts `tag` into `tags` at its place in source order.
pub fn insert_in_order(tags: &mut Vec<Tag>, tag: Tag)
    ensures
        final(tags)@ == with_tag(old(tags)@, tag),
{
    let mut place: usize = tags.len();
    assert(tags@.take(place as int) =~= tags@);
    while place > 0 && !stands_at_or_before(&tags[place - 1].span, &tag.span)
        invariant
            place <= tags@.len(),
            tags@ == old(tags)@,
            place_for(tags@, tag.span) == place_for(tags@.take(place as int), tag.span),
        decreases place,
    {
        assert(tags@.take(place as int).drop_last() =~= tags@.take(place - 1));
        place = place - 1;
    }
    tags.insert(place, tag);
}

} // verus!
