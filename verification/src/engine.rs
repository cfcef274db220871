//! Tagging a document: the parser and the matcher find what the patterns of
//! a tag query capture, and the tags are assembled from that.

use crate::assemble::{assemble_tags, assembled, lemma_alike_make_the_same, lemma_assembled};
use crate::directive::{
    all_well_formed, compile_patterns, compiled_from, first_fault_of, lemma_compiled_from_same,
    lemma_compiled_is_well_formed, lemma_first_fault_is_unique, lemma_first_fault_of_same,
    lemma_well_formed_same, same_patterns, CompiledPattern, WrittenPattern,
};
use crate::error::{same_error, TagsError};
use crate::kind::TagKind;
use crate::matcher::{
    captures_of_pattern, directives_of_pattern, failure_from, failure_of, matched_tags,
    pattern_count, patterns_in, query_compiled, syntax_types, tags_matched,
};
use crate::order::in_source_order;
use crate::tag::{all_alike, captured_of, CaptureSet, Tag};
use vstd::prelude::*;
use vstd::string::StringSliceAdditionalSpecFns;

verus! {

/// A compiled tag query: the patterns that find tags in the documents of one
/// language. It is not changed by use and may serve any number of documents.
pub struct TagQuery {
    config: tree_sitter_tags::TagsConfiguration,
    text: Vec<u8>,
    patterns: Vec<CompiledPattern>,
}

/// The text of a tag query as it is compiled: the patterns for locals, then
/// those for tags.
pub open spec fn query_text(tags_query: &str, locals_query: &str) -> Seq<u8> {
    locals_query.spec_bytes() + tags_query.spec_bytes()
}

/// The patterns of a compiled query as they are written, in their order.
fn written_patterns(config: &tree_sitter_tags::TagsConfiguration) -> (written: Vec<WrittenPattern>)
    ensures
        same_patterns(written@, patterns_in(*config)),
{
    let count = pattern_count(config);
    let mut written: Vec<WrittenPattern> = Vec::new();
    let mut number: usize = 0;
    while number < count
        invariant
            number <= count == patterns_in(*config).len(),
            same_patterns(written@, patterns_in(*config).take(number as int)),
        decreases count - number,
    {
        let captures = captures_of_pattern(config, number);
        let directives = directives_of_pattern(config, number);
        written.push(WrittenPattern { captures, directives });
        number = number + 1;
    }
    assert(patterns_in(*config).take(number as int) =~= patterns_in(*config));
    written
}

/// Whether `names` holds the name of the capture around the whole match of
/// `captured`.
pub open spec fn named_in(captured: CaptureSet, names: Seq<String>) -> bool {
    exists|id: int| 0 <= id < names.len() && (#[trigger] names[id])@ == captured.kind_name@
}

/// Whether `compiled` is what compiling the tag query `tags_query` with the
/// patterns for locals `locals_query` for `language` gives. Where the parser
/// of queries refuses the texts, it is the parser's failure, a fault in the
/// text with its pattern. Where the parser takes them and each directive of
/// each pattern is well formed, it is a query that holds the parser's
/// configuration, the text, and what the patterns compile to. Where a
/// directive is not well formed, it is the first fault among the patterns.
pub open spec fn is_compiled(
    language: tree_sitter::Language,
    tags_query: &str,
    locals_query: &str,
    compiled: Result<TagQuery, TagsError>,
) -> bool {
    match query_compiled(language, tags_query@, locals_query@) {
        Ok(config) => {
            if all_well_formed(patterns_in(config)) {
                compiled matches Ok(query) && query.holds(
                    config,
                    query_text(tags_query, locals_query),
                )
            } else {
                compiled matches Err(TagsError::Directive(fault)) && first_fault_of(
                    fault,
                    patterns_in(config),
                )
            }
        },
        Err(failed) => compiled matches Err(error) && error == failure_of(failed).error_in(
            query_text(tags_query, locals_query),
        ),
    }
}

/// What tagging the document `source` with `query` gives, `context` being
/// the working state of the matcher before: if the matcher hands out tags,
/// the tags assembled from the capture sets that these stand for; if it
/// fails, its failure.
pub open spec fn tags_found(
    context: tree_sitter_tags::TagsContext,
    query: TagQuery,
    source: Seq<u8>,
) -> Result<Seq<Tag>, TagsError> {
    match tags_matched(context, query.configuration(), source) {
        Ok(matched) => Ok(assembled(captured_of(matched, query.syntax_type_names()), source)),
        Err(failed) => Err(failure_of(failed).error_in(query.text())),
    }
}

impl TagQuery {
    /// Compiles the tag query `tags_query` for `language`. `locals_query`
    /// holds the patterns that mark local scopes and definitions; it may be
    /// empty.
    ///
    /// A pattern captures the name of a construct as `@name`, its
    /// documentation as `@doc`, and the construct itself under the name of
    /// its kind: `@definition.function`, `@definition.method`,
    /// `@definition.class`, `@definition.module` or `@reference.call`. The
    /// directive `#strip!` removes what a regular expression matches from
    /// each text captured as `@doc`, and `#select-adjacent!` keeps of these
    /// texts only the run that reaches the construct without a gap.
    ///
    /// A query that does not compile gives an error and no query, also where
    /// only one of its patterns is at fault. Whether the texts are in order
    /// is for the parser of queries to say; where they are not, the error is
    /// the parser's failure, with the pattern that the fault belongs to.
    /// Where they are in order, there is a query exactly if each directive of
    /// each pattern is well formed, and if not, the first directive that is
    /// not well formed is the error.
    pub fn new(language: tree_sitter::Language, tags_query: &str, locals_query: &str) -> (compiled:
        Result<TagQuery, TagsError>)
        ensures
            is_compiled(language, tags_query, locals_query, compiled),
            compiled matches Ok(query) ==> query.well_formed(),
    {
        let mut text: Vec<u8> = Vec::new();
        text.extend_from_slice(locals_query.as_bytes());
        text.extend_from_slice(tags_query.as_bytes());
        assert(text@ =~= query_text(tags_query, locals_query));
        let config = match tree_sitter_tags::TagsConfiguration::new(
            language,
            tags_query,
            locals_query,
        ) {
            Ok(config) => config,
            Err(e) => { return Err(failure_from(e).into_error(text.as_slice())); },
        };
        let written = written_patterns(&config);
        proof {
            lemma_well_formed_same(written@, patterns_in(config));
        }
        match compile_patterns(written.as_slice()) {
            Ok(patterns) => {
                proof {
                    lemma_compiled_from_same(patterns@, written@, patterns_in(config));
                }
                Ok(TagQuery { config, text, patterns })
            },
            Err(fault) => {
                proof {
                    lemma_first_fault_of_same(fault, written@, patterns_in(config));
                }
                Err(TagsError::Directive(fault))
            },
        }
    }

    /// The configuration that the parser of queries made of the query.
    pub closed spec fn configuration(self) -> tree_sitter_tags::TagsConfiguration {
        self.config
    }

    /// The text that the query was compiled from: the patterns for locals,
    /// then those for tags.
    pub closed spec fn text(self) -> Seq<u8> {
        self.text@
    }

    /// The compiled patterns of the query in their order, those for locals
    /// first.
    pub closed spec fn compiled_patterns(self) -> Seq<CompiledPattern> {
        self.patterns@
    }

    /// The patterns of the query as they are written, as the matcher holds
    /// them, in their order.
    pub open spec fn written_patterns(self) -> Seq<WrittenPattern> {
        patterns_in(self.configuration())
    }

    /// The names of the syntax types of the query: the names of its
    /// `definition.` and `reference.` captures without that prefix.
    pub open spec fn syntax_type_names(self) -> Seq<String> {
        syntax_types(self.configuration())
    }

    /// Whether the query holds the configuration `config`, the text `text`,
    /// and what the patterns of that configuration compile to.
    pub open spec fn holds(self, config: tree_sitter_tags::TagsConfiguration, text: Seq<u8>) -> bool {
        &&& self.configuration() == config
        &&& self.text() == text
        &&& compiled_from(self.compiled_patterns(), patterns_in(config))
    }

    /// Whether the query has a capture that stands for the kind `kind`, so
    /// that it can give tags of that kind.
    pub open spec fn names_kind(self, kind: TagKind) -> bool {
        exists|id: int, is_definition: bool|
            0 <= id < self.syntax_type_names().len() && #[trigger] TagKind::of_capture(
                self.syntax_type_names()[id]@,
                is_definition,
            ) == Some(kind)
    }

    /// Whether the query is in order: no directive of a pattern speaks of a
    /// capture that the pattern does not declare.
    pub open spec fn well_formed(self) -> bool {
        forall|p: int|
            0 <= p < self.compiled_patterns().len() ==> (
            #[trigger] self.compiled_patterns()[p]).well_formed()
    }

    /// The compiled patterns of the query in their order, those for locals
    /// first.
    pub fn patterns(&self) -> (patterns: &[CompiledPattern])
        ensures
            patterns@ == self.compiled_patterns(),
    {
        self.patterns.as_slice()
    }

    /// The number of patterns of the query, those for locals and those for
    /// tags together.
    pub fn pattern_count(&self) -> (count: usize)
        ensures
            count == self.compiled_patterns().len(),
    {
        self.patterns.len()
    }
}

/// The working state of the parser and the matcher, to be used for one
/// document after another, with one tag query or with several.
pub struct TagContext {
    inner: tree_sitter_tags::TagsContext,
}

impl TagContext {
    /// A fresh context.
    pub fn new() -> (context: TagContext) {
        TagContext { inner: tree_sitter_tags::TagsContext::new() }
    }

    /// The working state of the matcher that the context holds.
    pub closed spec fn matcher(self) -> tree_sitter_tags::TagsContext {
        self.inner
    }
}

/// Finds the tags of one document: parses `source` in the language of
/// `query`, matches the patterns of `query` against the syntax tree, and
/// assembles the tags from what the matches captured. Names that a pattern
/// captured as `@ignore` give no tag.
///
/// There are tags exactly if the parser and the matcher do not fail. The
/// tags are those assembled, as `assemble_tags` does it, from the capture
/// sets that the matched tags stand for; so each is well formed, they are in
/// source order, and each is of a kind that a capture of the query stands
/// for. Where the parser or the matcher fails, the error is their failure.
pub fn generate_tags(context: &mut TagContext, query: &TagQuery, source: &[u8]) -> (outcome: Result<
    Vec<Tag>,
    TagsError,
>)
    ensures
        outcome matches Ok(tags) ==> (tags_found(old(context).matcher(), *query, source@) matches Ok(
            found,
        ) && found == tags@),
        outcome matches Err(error) ==> (tags_found(
            old(context).matcher(),
            *query,
            source@,
        ) matches Err(failed) && failed == error),
        outcome matches Ok(tags) ==> {
            &&& in_source_order(tags@)
            &&& forall|k: int| 0 <= k < tags@.len() ==> (#[trigger] tags@[k]).well_formed(source@)
            &&& forall|k: int| 0 <= k < tags@.len() ==> query.names_kind((#[trigger] tags@[k]).kind)
        },
{
    let matched = match matched_tags(&mut context.inner, &query.config, source) {
        Ok(matched) => matched,
        Err(e) => { return Err(failure_from(e).into_error(query.text.as_slice())); },
    };
    let ghost names = syntax_types(query.config);
    let mut captured: Vec<CaptureSet> = Vec::new();
    let mut i: usize = 0;
    assert(matched@.take(0) =~= Seq::empty());
    while i < matched.len()
        invariant
            i <= matched@.len(),
            names == syntax_types(query.config),
            forall|k: int|
                0 <= k < matched@.len() && !(#[trigger] matched@[k]).is_placeholder()
                    ==> matched@[k].syntax_type_id < names.len(),
            forall|c: int| 0 <= c < captured@.len() ==> named_in(#[trigger] captured@[c], names),
            all_alike(captured@, captured_of(matched@.take(i as int), names)),
        decreases matched@.len() - i,
    {
        assert(matched@.take(i + 1).drop_last() =~= matched@.take(i as int));
        assert(matched@.take(i + 1).last() == matched@[i as int]);
        let found = &matched[i];
        if !found.stands_for_ignored_name() {
            let kind_name = query.config.syntax_type_name(found.syntax_type_id);
            let one = found.capture_set(kind_name.to_owned());
            assert(names[found.syntax_type_id as int]@ == one.kind_name@);
            captured.push(one);
        }
        i = i + 1;
    }
    assert(matched@.take(i as int) =~= matched@);
    let tags = assemble_tags(captured.as_slice(), source);
    proof {
        lemma_alike_make_the_same(captured@, captured_of(matched@, names), source@);
        lemma_assembled(captured@, source@);
        assert forall|k: int| 0 <= k < tags@.len() implies query.names_kind(
            (#[trigger] tags@[k]).kind,
        ) by {
            let c = choose|c: int|
                0 <= c < captured@.len() && (#[trigger] captured@[c]).tag(source@) == Some(
                    assembled(captured@, source@)[k],
                );
            assert(named_in(captured@[c], names));
            let id = choose|id: int|
                0 <= id < names.len() && (#[trigger] names[id])@ == captured@[c].kind_name@;
            assert(TagKind::of_capture(
                query.syntax_type_names()[id]@,
                captured@[c].is_definition,
            ) == Some(tags@[k].kind));
        }
    }
    Ok(tags)
}

/// Compiling the same texts for the same language twice gives the same: a
/// query both times or an error both times; the same error; and queries that
/// hold the same configuration and text, and find the same tags in every
/// document.
pub proof fn lemma_compiling_is_fixed(
    language: tree_sitter::Language,
    tags_query: &str,
    locals_query: &str,
    first: Result<TagQuery, TagsError>,
    second: Result<TagQuery, TagsError>,
    context: tree_sitter_tags::TagsContext,
    source: Seq<u8>,
)
    requires
        is_compiled(language, tags_query, locals_query, first),
        is_compiled(language, tags_query, locals_query, second),
    ensures
        first is Ok <==> second is Ok,
        first matches Err(one) ==> (second matches Err(other) && same_error(one, other)),
        first matches Ok(one) ==> (second matches Ok(other) && one.configuration()
            == other.configuration() && one.text() == other.text() && tags_found(
            context,
            one,
            source,
        ) == tags_found(context, other, source)),
{
    match query_compiled(language, tags_query@, locals_query@) {
        Ok(config) => {
            if !all_well_formed(patterns_in(config)) {
                let one = first->Err_0->Directive_0;
                let other = second->Err_0->Directive_0;
                lemma_first_fault_is_unique(
                    patterns_in(config)[one.pattern as int],
                    one.pattern,
                    one,
                    other,
                );
            }
        },
        Err(failed) => {},
    }
}

} // verus!
