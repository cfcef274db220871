//! The parser and query matcher of `tree_sitter_tags`, as this crate sees
//! them. What is stated here of their behaviour is taken on trust.

use crate::directive::{same_directives, Argument, Quantifier, WrittenDirective, WrittenPattern};
use crate::error::Failure;
use crate::tag::MatchedTag;
use vstd::prelude::*;

verus! {

/// `tree_sitter::Language`: a grammar. Nothing is known of what it holds.
#[verifier::external_type_specification]
#[verifier::external_body]
pub struct ExLanguage(tree_sitter::Language);

/// `tree_sitter_tags::TagsConfiguration`: a compiled tag query.
#[verifier::external_type_specification]
#[verifier::external_body]
pub struct ExTagsConfiguration(tree_sitter_tags::TagsConfiguration);

/// `tree_sitter_tags::TagsContext`: a parser and a query cursor, kept between
/// documents.
#[verifier::external_type_specification]
#[verifier::external_body]
pub struct ExTagsContext(tree_sitter_tags::TagsContext);

/// `tree_sitter_tags::Error`.
#[verifier::external_type_specification]
#[verifier::external_body]
pub struct ExError(tree_sitter_tags::Error);

/// The table of syntax type names that a compiled tag query holds: the names
/// of its `definition.` and `reference.` captures without that prefix, each
/// at the place of the number by which tags refer to it.
pub uninterp spec fn syntax_types(config: tree_sitter_tags::TagsConfiguration) -> Seq<String>;

/// What `TagsConfiguration::new` returns for a language, a tag query and the
/// patterns for locals: the compiled query, or why the texts do not compile.
pub uninterp spec fn query_compiled(
    language: tree_sitter::Language,
    tags_query: Seq<char>,
    locals_query: Seq<char>,
) -> Result<tree_sitter_tags::TagsConfiguration, tree_sitter_tags::Error>;

/// What `TagsContext::generate_tags`, run to its end without a cancellation
/// flag, hands out for a context as it stands before the call, a compiled tag
/// query and a document: of each tag the fields that this crate reads, in the
/// order in which they come, or why the document was not tagged.
pub uninterp spec fn tags_matched(
    context: tree_sitter_tags::TagsContext,
    config: tree_sitter_tags::TagsConfiguration,
    source: Seq<u8>,
) -> Result<Seq<MatchedTag>, tree_sitter_tags::Error>;

/// What `failure_from` makes of an error of `tree_sitter_tags`.
pub uninterp spec fn failure_of(error: tree_sitter_tags::Error) -> Failure;

/// The patterns that a compiled tag query holds, in their order, those for
/// locals first, as far as they show: of each pattern its captures and the
/// directives that the matcher does not evaluate itself, as they are written.
pub uninterp spec fn patterns_in(config: tree_sitter_tags::TagsConfiguration) -> Seq<WrittenPattern>;

/// `TagsConfiguration::new` compiles a tag query for a language. What it
/// returns depends on the language and the two texts alone. Nothing is
/// claimed of when it succeeds.
pub assume_specification[ tree_sitter_tags::TagsConfiguration::new ](
    language: tree_sitter::Language,
    tags_query: &str,
    locals_query: &str,
) -> (made: Result<tree_sitter_tags::TagsConfiguration, tree_sitter_tags::Error>)
    ensures
        made == query_compiled(language, tags_query@, locals_query@),
;

/// `TagsConfiguration::syntax_type_name` looks a syntax type's name up by its
/// number. It indexes the table of names and panics beyond its end, so the
/// number must lie within the table.
pub assume_specification<'a>[ tree_sitter_tags::TagsConfiguration::syntax_type_name ](
    config: &'a tree_sitter_tags::TagsConfiguration,
    id: u32,
) -> (name: &'a str)
    requires
        id < syntax_types(*config).len(),
    ensures
        name@ == syntax_types(*config)[id as int]@,
;

/// `TagsContext::new` makes a context with a fresh parser and cursor.
pub assume_specification[ tree_sitter_tags::TagsContext::new ]() -> tree_sitter_tags::TagsContext
;

/// `TagsContext::generate_tags`, run to its end without a cancellation flag:
/// of each tag that it hands out the fields that this crate reads. What comes
/// back depends on the context as it stands, on the compiled query and on the
/// document alone: the parser is reset and takes the language of the query,
/// and the cursor starts anew. Nothing is claimed of which tags come back,
/// but this: a tag that is no placeholder was built from a `definition.` or
/// `reference.` capture, and carries the number that the tag query gave that
/// capture's syntax type, which lies within its table.
#[verifier::external_body]
pub(crate) fn matched_tags(
    context: &mut tree_sitter_tags::TagsContext,
    config: &tree_sitter_tags::TagsConfiguration,
    source: &[u8],
) -> (found: Result<Vec<MatchedTag>, tree_sitter_tags::Error>)
    ensures
        found matches Ok(tags) ==> (tags_matched(*old(context), *config, source@) matches Ok(
            matched,
        ) && matched == tags@),
        found matches Err(error) ==> (tags_matched(*old(context), *config, source@) matches Err(
            failed,
        ) && failed == error),
        found matches Ok(tags) ==> forall|i: int|
            0 <= i < tags@.len() && !(#[trigger] tags@[i]).is_placeholder()
                ==> tags@[i].syntax_type_id < syntax_types(*config).len(),
{
    let (tags, _) = context.generate_tags(config, source, None)?;
    let mut found = Vec::new();
    for tag in tags {
        let tag = tag?;
        found.push(MatchedTag {
            range: tag.range,
            name_range: tag.name_range,
            docs: tag.docs,
            is_definition: tag.is_definition,
            syntax_type_id: tag.syntax_type_id,
        });
    }
    Ok(found)
}

/// `Query::pattern_count`, asked of the query that the configuration holds:
/// the number of its patterns, those for locals and those for tags together.
#[verifier::external_body]
pub(crate) fn pattern_count(config: &tree_sitter_tags::TagsConfiguration) -> (count: usize)
    ensures
        count == patterns_in(*config).len(),
{
    config.query.pattern_count()
}

/// `Query::general_predicates`, asked of the query that the configuration
/// holds: the directives of one pattern that the matcher does not evaluate
/// itself, as they are written and in their order. It indexes the patterns
/// and panics beyond the last, so the number must be that of a pattern. It
/// hands out what the query holds, so the directives are those of the
/// pattern, whenever it is asked.
#[verifier::external_body]
pub(crate) fn directives_of_pattern(
    config: &tree_sitter_tags::TagsConfiguration,
    pattern: usize,
) -> (written: Vec<WrittenDirective>)
    requires
        pattern < patterns_in(*config).len(),
    ensures
        same_directives(written@, patterns_in(*config)[pattern as int].directives@),
{
    config.query.general_predicates(pattern).iter().map(|predicate| WrittenDirective {
        name: predicate.operator.to_string(),
        arguments: predicate.args.iter().map(|argument| match argument {
            tree_sitter::QueryPredicateArg::Capture(index) => Argument::Capture(*index),
            tree_sitter::QueryPredicateArg::String(text) => Argument::Text(text.to_string()),
        }).collect(),
    }).collect()
}

/// `Query::capture_quantifiers`, asked of the query that the configuration
/// holds: for each capture of the query, in the order of their numbers, how
/// often one pattern captures under its name. It indexes the patterns and
/// panics beyond the last, so the number must be that of a pattern. It hands
/// out what the query holds, so the quantifiers are those of the pattern,
/// whenever it is asked.
#[verifier::external_body]
pub(crate) fn captures_of_pattern(
    config: &tree_sitter_tags::TagsConfiguration,
    pattern: usize,
) -> (captures: Vec<Quantifier>)
    requires
        pattern < patterns_in(*config).len(),
    ensures
        captures@ == patterns_in(*config)[pattern as int].captures@,
{
    config.query.capture_quantifiers(pattern).iter().map(|quantifier| match quantifier {
        tree_sitter::CaptureQuantifier::Zero => Quantifier::Zero,
        tree_sitter::CaptureQuantifier::ZeroOrOne => Quantifier::ZeroOrOne,
        tree_sitter::CaptureQuantifier::ZeroOrMore => Quantifier::ZeroOrMore,
        tree_sitter::CaptureQuantifier::One => Quantifier::One,
        tree_sitter::CaptureQuantifier::OneOrMore => Quantifier::OneOrMore,
    }).collect()
}

/// Tells the variants of `tree_sitter_tags::Error` apart. A query error keeps
/// its position and is worded as `tree_sitter::QueryError` words itself; the
/// other errors keep their own wording. What comes back depends on the error
/// alone.
#[verifier::external_body]
pub(crate) fn failure_from(error: tree_sitter_tags::Error) -> (failure: Failure)
    ensures
        failure == failure_of(error),
{
    match error {
        tree_sitter_tags::Error::Query(e) => Failure::Query {
            row: e.row,
            column: e.column,
            offset: e.offset,
            message: e.to_string(),
        },
        tree_sitter_tags::Error::Regex(e) => Failure::Regex(e.to_string()),
        tree_sitter_tags::Error::Cancelled => Failure::Cancelled,
        tree_sitter_tags::Error::InvalidLanguage(e) => Failure::InvalidLanguage(e.to_string()),
        tree_sitter_tags::Error::InvalidCapture(name) => Failure::InvalidCapture(name),
    }
}

} // verus!
