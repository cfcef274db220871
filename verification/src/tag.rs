//! Tags, and the capture sets that they are made from.

use crate::kind::TagKind;
use crate::lines::{is_line_around, lemma_line_bounds, line_end, line_range, line_start};
use std::ops::Range;
use vstd::prelude::*;

verus! {

/// One symbol found in a source file.
#[derive(Debug)]
pub struct Tag {
    /// What the tag marks.
    pub kind: TagKind,
    /// The bytes of the symbol's name.
    pub name_range: Range<usize>,
    /// The bytes of the line on which the name starts, without its newline.
    pub line_range: Range<usize>,
    /// The bytes of the whole construct, such as a function with its body.
    pub span: Range<usize>,
    /// The documentation that belongs to the construct, without comment
    /// markers, if any was found.
    pub docs: Option<String>,
}

/// What one match of a pattern captured, after the pattern's directives have
/// been applied.
#[derive(Debug)]
pub struct CaptureSet {
    /// The name of the capture around the whole match, without its
    /// `definition.` or `reference.` prefix.
    pub kind_name: String,
    /// Whether that prefix was `definition.`.
    pub is_definition: bool,
    /// The bytes of the node captured as `name`, if the pattern captured one.
    pub name_range: Option<Range<usize>>,
    /// The bytes of the whole match.
    pub span: Range<usize>,
    /// The texts captured as `doc` that the directives left, joined by
    /// newlines; `None` if they left none.
    pub docs: Option<String>,
}

/// One tag as the matcher hands it out.
#[derive(Debug)]
pub struct MatchedTag {
    /// The bytes of the tagged node and of the name together.
    pub range: Range<usize>,
    /// The bytes of the node captured as `name`.
    pub name_range: Range<usize>,
    /// The texts captured as `doc` that the directives left, joined by
    /// newlines.
    pub docs: Option<String>,
    /// Whether the tagged node was captured as a definition.
    pub is_definition: bool,
    /// The number of the syntax type in the table of the tag query.
    pub syntax_type_id: u32,
}

/// Whether `range` is a range of bytes of a source of `len` bytes.
pub open spec fn range_within(range: Range<usize>, len: int) -> bool {
    range.start <= range.end <= len
}

/// Whether `inner` lies inside `outer`.
pub open spec fn range_inside(inner: Range<usize>, outer: Range<usize>) -> bool {
    outer.start <= inner.start && inner.end <= outer.end
}

/// A copy of `text`, if there is one.
pub(crate) fn copy_of(text: &Option<String>) -> (copy: Option<String>)
    ensures
        copy == *text,
{
    match text {
        Some(text) => Some(text.clone()),
        None => None,
    }
}

impl Clone for Tag {
    fn clone(&self) -> (copy: Tag)
        ensures
            copy == *self,
    {
        Tag {
            kind: self.kind,
            name_range: self.name_range.start..self.name_range.end,
            line_range: self.line_range.start..self.line_range.end,
            span: self.span.start..self.span.end,
            docs: copy_of(&self.docs),
        }
    }
}

impl Clone for CaptureSet {
    fn clone(&self) -> (copy: CaptureSet)
        ensures
            copy == *self,
    {
        CaptureSet {
            kind_name: self.kind_name.clone(),
            is_definition: self.is_definition,
            name_range: match &self.name_range {
                Some(name) => Some(name.start..name.end),
                None => None,
            },
            span: self.span.start..self.span.end,
            docs: copy_of(&self.docs),
        }
    }
}

impl MatchedTag {
    /// Whether this stands for a name that a pattern captured as `@ignore`:
    /// the matcher gives such a tag an extent that starts at `usize::MAX`,
    /// and no syntax type.
    pub open spec fn is_placeholder(self) -> bool {
        self.range.start == usize::MAX
    }

    /// The capture set that this tag stands for, its syntax type being named
    /// `kind_name`: the name as it was captured, the extent as the span of
    /// the whole match, and the documentation as it is.
    pub open spec fn captured(self, kind_name: String) -> CaptureSet {
        CaptureSet {
            kind_name,
            is_definition: self.is_definition,
            name_range: Some(self.name_range),
            span: self.range,
            docs: self.docs,
        }
    }

    /// Whether this stands for a name that a pattern captured as `@ignore`.
    pub fn stands_for_ignored_name(&self) -> (ignored: bool)
        ensures
            ignored == self.is_placeholder(),
    {
        self.range.start == usize::MAX
    }

    /// The capture set that this tag stands for, its syntax type being named
    /// `kind_name`.
    pub fn capture_set(&self, kind_name: String) -> (captured: CaptureSet)
        ensures
            captured == self.captured(kind_name),
    {
        CaptureSet {
            kind_name,
            is_definition: self.is_definition,
            name_range: Some(self.name_range.start..self.name_range.end),
            span: self.range.start..self.range.end,
            docs: copy_of(&self.docs),
        }
    }
}

/// The capture sets that the matched tags stand for, in their order, `names`
/// being the table of syntax type names of the query: a tag that stands for
/// an ignored name gives none, and so does one whose syntax type is not in
/// the table; every other gives its capture set under the name at the place
/// of its syntax type.
pub open spec fn captured_of(matched: Seq<MatchedTag>, names: Seq<String>) -> Seq<CaptureSet>
    decreases matched.len(),
{
    if matched.len() == 0 {
        Seq::empty()
    } else {
        let front = captured_of(matched.drop_last(), names);
        let last = matched.last();
        if last.is_placeholder() || last.syntax_type_id >= names.len() {
            front
        } else {
            front.push(last.captured(names[last.syntax_type_id as int]))
        }
    }
}

/// Whether two capture sets hold the same: kind names of the same
/// characters, and everything else equal.
pub open spec fn alike(first: CaptureSet, second: CaptureSet) -> bool {
    &&& first.kind_name@ == second.kind_name@
    &&& first.is_definition == second.is_definition
    &&& first.name_range == second.name_range
    &&& first.span == second.span
    &&& first.docs == second.docs
}

/// Whether two runs of capture sets hold the same, one for one.
pub open spec fn all_alike(first: Seq<CaptureSet>, second: Seq<CaptureSet>) -> bool {
    &&& first.len() == second.len()
    &&& forall|i: int| 0 <= i < first.len() ==> alike(#[trigger] first[i], second[i])
}

impl Tag {
    /// Whether this is a tag of `source`: the name lies inside the construct,
    /// the construct inside the source, and the line is the source line on
    /// which the name starts.
    pub open spec fn well_formed(self, source: Seq<u8>) -> bool {
        &&& range_within(self.name_range, source.len() as int)
        &&& range_within(self.span, source.len() as int)
        &&& range_inside(self.name_range, self.span)
        &&& is_line_around(
            source,
            self.name_range.start as int,
            self.line_range.start as int,
            self.line_range.end as int,
        )
    }
}

impl CaptureSet {
    /// Whether this capture set makes a tag of `source`: a name was captured,
    /// the whole match stands for a kind, and the ranges are ranges of the
    /// source with the name inside the match. The source is one that fits in
    /// memory.
    pub open spec fn makes_tag(self, source: Seq<u8>) -> bool {
        &&& source.len() <= usize::MAX
        &&& self.name_range is Some
        &&& TagKind::of_capture(self.kind_name@, self.is_definition) is Some
        &&& range_within(self.name_range->0, source.len() as int)
        &&& range_within(self.span, source.len() as int)
        &&& range_inside(self.name_range->0, self.span)
    }

    /// The tag that this capture set makes, if it makes one: the kind from
    /// the capture around the whole match, the name and the span as they were
    /// captured, the line around the start of the name, and the documentation
    /// as it is.
    pub open spec fn tag(self, source: Seq<u8>) -> Option<Tag> {
        if self.makes_tag(source) {
            let name = self.name_range->0;
            Some(
                Tag {
                    kind: TagKind::of_capture(self.kind_name@, self.is_definition)->0,
                    name_range: name,
                    line_range: Range {
                        start: line_start(source, name.start as int) as usize,
                        end: line_end(source, name.start as int) as usize,
                    },
                    span: self.span,
                    docs: self.docs,
                },
            )
        } else {
            None
        }
    }

    /// Makes the tag of this capture set. A capture set without a name, of no
    /// kind, or with ranges that are no ranges of `source`, makes no tag.
    pub fn to_tag(&self, source: &[u8]) -> (made: Option<Tag>)
        ensures
            made == self.tag(source@),
            made is Some <==> self.makes_tag(source@),
            made matches Some(tag) ==> tag.well_formed(source@),
    {
        let name = match &self.name_range {
            Some(name) => name,
            None => { return None; },
        };
        let kind = match TagKind::from_capture(self.kind_name.as_str(), self.is_definition) {
            Some(kind) => kind,
            None => { return None; },
        };
        if name.start <= name.end && name.end <= source.len() && self.span.start <= self.span.end
            && self.span.end <= source.len() && self.span.start <= name.start && name.end
            <= self.span.end {
            Some(
                Tag {
                    kind,
                    name_range: name.start..name.end,
                    line_range: line_range(source, name.start),
                    span: self.span.start..self.span.end,
                    docs: copy_of(&self.docs),
                },
            )
        } else {
            None
        }
    }
}

/// A capture set that makes a tag makes a well-formed one.
pub proof fn lemma_tag_is_well_formed(captured: CaptureSet, source: Seq<u8>)
    requires
        captured.makes_tag(source),
    ensures
        captured.tag(source) is Some,
        (captured.tag(source)->0).well_formed(source),
{
    lemma_line_bounds(source, (captured.name_range->0).start as int);
}

/// A capture set without a name makes no tag, whatever else it holds.
pub proof fn lemma_no_name_no_tag(captured: CaptureSet, source: Seq<u8>)
    requires
        captured.name_range is None,
    ensures
        captured.tag(source) is None,
{
}

} // verus!
