//! The patterns of a tag query as far as their directives go: `strip!` and
//! `select-adjacent!`, what makes a directive well formed, and how the
//! directives of a query are compiled.

use crate::text::same_text;
use vstd::prelude::*;

verus! {

/// How often one match of a pattern captures under one name.
#[derive(Clone, Copy, Debug, PartialEq, Eq, Structural)]
pub enum Quantifier {
    /// Never: the pattern does not declare the capture.
    Zero,
    /// Once or not at all.
    ZeroOrOne,
    /// Any number of times.
    ZeroOrMore,
    /// Once.
    One,
    /// Once or more often.
    OneOrMore,
}

/// One argument of a directive as it is written in a tag query.
#[derive(Debug, PartialEq, Eq)]
pub enum Argument {
    /// A capture, by its number among the captures of the query.
    Capture(u32),
    /// A string.
    Text(String),
}

/// A directive as it is written in a tag query.
#[derive(Debug, PartialEq, Eq)]
pub struct WrittenDirective {
    /// The name of the directive, with the `!` that ends it.
    pub name: String,
    /// The arguments in the order in which they are written.
    pub arguments: Vec<Argument>,
}

/// A pattern as it is written in a tag query: its captures and its
/// directives.
#[derive(Debug, PartialEq, Eq)]
pub struct WrittenPattern {
    /// For each capture of the query, at the place of its number, how often
    /// this pattern captures under its name.
    pub captures: Vec<Quantifier>,
    /// The directives of the pattern in the order in which they are written.
    pub directives: Vec<WrittenDirective>,
}

/// What a pattern does to the texts captured as documentation.
#[derive(Debug, PartialEq, Eq)]
pub enum Directive {
    /// `strip!`: whatever the regular expression `pattern` matches is taken
    /// out of each text of `capture`.
    Strip { capture: u32, pattern: String },
    /// `select-adjacent!`: of the nodes of `docs` only the run that reaches
    /// the node of `anchor` without a gap is kept.
    SelectAdjacent { docs: u32, anchor: u32 },
}

/// A compiled pattern: its captures, and its directives in the order in which
/// they are applied.
#[derive(Debug, PartialEq, Eq)]
pub struct CompiledPattern {
    /// For each capture of the query, at the place of its number, how often
    /// this pattern captures under its name.
    pub captures: Vec<Quantifier>,
    /// What the pattern does to the texts captured as documentation.
    pub directives: Vec<Directive>,
}

/// What is wrong with a directive.
#[derive(Clone, Copy, Debug, PartialEq, Eq, Structural)]
pub enum DirectiveFaultKind {
    /// There is no directive of this name.
    UnknownName,
    /// The directive has not got two arguments.
    WrongArity,
    /// An argument is a string where a capture belongs, or a capture where a
    /// string belongs.
    WrongArgument,
    /// An argument is a capture that the pattern of the directive does not
    /// declare.
    UndeclaredCapture,
}

/// A directive that is not well formed, and where it stands.
#[derive(Debug, PartialEq, Eq)]
pub struct DirectiveFault {
    /// The number of the pattern that holds the directive, counted from zero.
    pub pattern: usize,
    /// The number of the directive among the directives of its pattern,
    /// counted from zero.
    pub directive: usize,
    /// The name of the directive as it is written.
    pub name: String,
    /// What is wrong with it.
    pub kind: DirectiveFaultKind,
}

/// Whether a pattern with the captures `captures` declares the capture with
/// the number `capture`.
pub open spec fn declares(captures: Seq<Quantifier>, capture: u32) -> bool {
    capture < captures.len() && captures[capture as int] != Quantifier::Zero
}

/// Whether a pattern with the captures `captures` declares the capture with
/// the number `capture`.
pub fn is_declared(captures: &[Quantifier], capture: u32) -> (declared: bool)
    ensures
        declared == declares(captures@, capture),
{
    let at = capture as usize;
    if at < captures.len() {
        match captures[at] {
            Quantifier::Zero => false,
            _ => true,
        }
    } else {
        false
    }
}

impl Directive {
    /// Whether the directive speaks of captures of its own pattern only.
    pub open spec fn refers_within(self, captures: Seq<Quantifier>) -> bool {
        match self {
            Directive::Strip { capture, pattern } => declares(captures, capture),
            Directive::SelectAdjacent { docs, anchor } => declares(captures, docs) && declares(
                captures,
                anchor,
            ),
        }
    }
}

impl WrittenDirective {
    /// What the directive means in a pattern with the captures `captures`, or
    /// what is wrong with it. `strip!` takes a capture and a string,
    /// `select-adjacent!` takes two captures, the captures are such as the
    /// pattern declares, and there is no other directive.
    pub open spec fn meaning(self, captures: Seq<Quantifier>) -> Result<
        Directive,
        DirectiveFaultKind,
    > {
        if self.name@ != "strip!"@ && self.name@ != "select-adjacent!"@ {
            Err(DirectiveFaultKind::UnknownName)
        } else if self.arguments@.len() != 2 {
            Err(DirectiveFaultKind::WrongArity)
        } else if self.name@ == "strip!"@ {
            match (self.arguments@[0], self.arguments@[1]) {
                (Argument::Capture(capture), Argument::Text(pattern)) => {
                    if declares(captures, capture) {
                        Ok(Directive::Strip { capture, pattern })
                    } else {
                        Err(DirectiveFaultKind::UndeclaredCapture)
                    }
                },
                _ => Err(DirectiveFaultKind::WrongArgument),
            }
        } else {
            match (self.arguments@[0], self.arguments@[1]) {
                (Argument::Capture(docs), Argument::Capture(anchor)) => {
                    if declares(captures, docs) && declares(captures, anchor) {
                        Ok(Directive::SelectAdjacent { docs, anchor })
                    } else {
                        Err(DirectiveFaultKind::UndeclaredCapture)
                    }
                },
                _ => Err(DirectiveFaultKind::WrongArgument),
            }
        }
    }

    /// Whether the directive is well formed in a pattern with the captures
    /// `captures`.
    pub open spec fn is_well_formed(self, captures: Seq<Quantifier>) -> bool {
        self.meaning(captures) is Ok
    }

    /// Compiles the directive: finds what it means in a pattern with the
    /// captures `captures`, or what is wrong with it.
    pub fn compile(&self, captures: &[Quantifier]) -> (compiled: Result<
        Directive,
        DirectiveFaultKind,
    >)
        ensures
            compiled == self.meaning(captures@),
            compiled matches Ok(directive) ==> directive.refers_within(captures@),
    {
        let is_strip = same_text(self.name.as_str(), "strip!");
        if !is_strip && !same_text(self.name.as_str(), "select-adjacent!") {
            return Err(DirectiveFaultKind::UnknownName);
        }
        if self.arguments.len() != 2 {
            return Err(DirectiveFaultKind::WrongArity);
        }
        if is_strip {
            match (&self.arguments[0], &self.arguments[1]) {
                (Argument::Capture(capture), Argument::Text(pattern)) => {
                    if is_declared(captures, *capture) {
                        Ok(Directive::Strip { capture: *capture, pattern: pattern.clone() })
                    } else {
                        Err(DirectiveFaultKind::UndeclaredCapture)
                    }
                },
                _ => Err(DirectiveFaultKind::WrongArgument),
            }
        } else {
            match (&self.arguments[0], &self.arguments[1]) {
                (Argument::Capture(docs), Argument::Capture(anchor)) => {
                    if is_declared(captures, *docs) && is_declared(captures, *anchor) {
                        Ok(Directive::SelectAdjacent { docs: *docs, anchor: *anchor })
                    } else {
                        Err(DirectiveFaultKind::UndeclaredCapture)
                    }
                },
                _ => Err(DirectiveFaultKind::WrongArgument),
            }
        }
    }
}

impl WrittenPattern {
    /// Whether each directive of the pattern is well formed.
    pub open spec fn is_well_formed(self) -> bool {
        forall|i: int|
            0 <= i < self.directives@.len() ==> (#[trigger] self.directives@[i]).is_well_formed(
                self.captures@,
            )
    }

    /// Whether `fault` tells of the first directive of this pattern that is
    /// not well formed, the pattern being the one with the number `number`.
    pub open spec fn first_fault_is(self, number: usize, fault: DirectiveFault) -> bool {
        &&& fault.pattern == number
        &&& fault.directive < self.directives@.len()
        &&& forall|i: int|
            0 <= i < fault.directive ==> (#[trigger] self.directives@[i]).is_well_formed(
                self.captures@,
            )
        &&& self.directives@[fault.directive as int].meaning(self.captures@) == Err::<
            Directive,
            DirectiveFaultKind,
        >(fault.kind)
        &&& fault.name@ == self.directives@[fault.directive as int].name@
    }

    /// Compiles the pattern with the number `number`. If each of its
    /// directives is well formed, the compiled pattern holds what they mean,
    /// in their order; if not, the first that is not well formed is reported.
    pub fn compile(&self, number: usize) -> (outcome: Result<CompiledPattern, DirectiveFault>)
        ensures
            outcome is Ok <==> self.is_well_formed(),
            outcome matches Ok(compiled) ==> compiled.is_compiled_from(*self),
            outcome matches Err(fault) ==> self.first_fault_is(number, fault),
    {
        let mut directives: Vec<Directive> = Vec::new();
        let mut i: usize = 0;
        while i < self.directives.len()
            invariant
                i <= self.directives@.len(),
                directives@.len() == i,
                forall|k: int|
                    0 <= k < i ==> (#[trigger] self.directives@[k]).meaning(self.captures@) == Ok::<
                        Directive,
                        DirectiveFaultKind,
                    >(directives@[k]),
            decreases self.directives@.len() - i,
        {
            match self.directives[i].compile(self.captures.as_slice()) {
                Ok(directive) => {
                    directives.push(directive);
                },
                Err(kind) => {
                    return Err(
                        DirectiveFault {
                            pattern: number,
                            directive: i,
                            name: self.directives[i].name.clone(),
                            kind,
                        },
                    );
                },
            }
            i = i + 1;
        }
        let captures = copy_of_captures(self.captures.as_slice());
        Ok(CompiledPattern { captures, directives })
    }
}

impl CompiledPattern {
    /// Whether this is what the pattern `written` compiles to: the same
    /// captures, and what each of its directives means.
    pub open spec fn is_compiled_from(self, written: WrittenPattern) -> bool {
        &&& self.captures@ == written.captures@
        &&& self.directives@.len() == written.directives@.len()
        &&& forall|i: int|
            0 <= i < written.directives@.len() ==> (#[trigger] written.directives@[i]).meaning(
                written.captures@,
            ) == Ok::<Directive, DirectiveFaultKind>(self.directives@[i])
    }

    /// Whether each directive of the pattern speaks of captures that the
    /// pattern declares.
    pub open spec fn well_formed(self) -> bool {
        forall|i: int|
            0 <= i < self.directives@.len() ==> (#[trigger] self.directives@[i]).refers_within(
                self.captures@,
            )
    }
}

/// A copy of `captures`.
fn copy_of_captures(captures: &[Quantifier]) -> (copy: Vec<Quantifier>)
    ensures
        copy@ == captures@,
{
    let mut copy: Vec<Quantifier> = Vec::new();
    let mut i: usize = 0;
    while i < captures.len()
        invariant
            i <= captures@.len(),
            copy@ == captures@.take(i as int),
        decreases captures@.len() - i,
    {
        copy.push(captures[i]);
        assert(captures@.take(i + 1) =~= captures@.take(i as int).push(captures@[i as int]));
        i = i + 1;
    }
    assert(captures@.take(i as int) =~= captures@);
    copy
}

/// Whether two runs of directives are written alike: the same names with the
/// same arguments, in the same order.
pub open spec fn same_directives(first: Seq<WrittenDirective>, second: Seq<WrittenDirective>) -> bool {
    &&& first.len() == second.len()
    &&& forall|i: int|
        0 <= i < first.len() ==> (#[trigger] first[i]).name@ == second[i].name@
            && first[i].arguments@ == second[i].arguments@
}

/// Whether two runs of patterns are written alike: the same captures and
/// directives that are written alike, pattern for pattern.
pub open spec fn same_patterns(first: Seq<WrittenPattern>, second: Seq<WrittenPattern>) -> bool {
    &&& first.len() == second.len()
    &&& forall|p: int|
        0 <= p < first.len() ==> (#[trigger] first[p]).captures@ == second[p].captures@
            && same_directives(first[p].directives@, second[p].directives@)
}

/// Whether each directive of each of the patterns is well formed.
pub open spec fn all_well_formed(written: Seq<WrittenPattern>) -> bool {
    forall|p: int| 0 <= p < written.len() ==> (#[trigger] written[p]).is_well_formed()
}

/// Of patterns that are written alike, the ones are well formed exactly when
/// the others are.
pub proof fn lemma_well_formed_same(first: Seq<WrittenPattern>, second: Seq<WrittenPattern>)
    requires
        same_patterns(first, second),
    ensures
        all_well_formed(first) <==> all_well_formed(second),
{
    if all_well_formed(first) {
        assert forall|p: int| 0 <= p < second.len() implies (#[trigger] second[p]).is_well_formed() by {
            assert(first[p].is_well_formed());
            assert(first[p].captures@ == second[p].captures@);
            assert forall|i: int| 0 <= i < second[p].directives@.len() implies (
            #[trigger] second[p].directives@[i]).is_well_formed(second[p].captures@) by {
                assert(first[p].directives@[i].is_well_formed(first[p].captures@));
            }
        }
    }
    if all_well_formed(second) {
        assert forall|p: int| 0 <= p < first.len() implies (#[trigger] first[p]).is_well_formed() by {
            assert(second[p].is_well_formed());
            assert(first[p].captures@ == second[p].captures@);
            assert forall|i: int| 0 <= i < first[p].directives@.len() implies (
            #[trigger] first[p].directives@[i]).is_well_formed(first[p].captures@) by {
                assert(second[p].directives@[i].is_well_formed(second[p].captures@));
            }
        }
    }
}

/// Patterns that are written alike compile to the same.
pub proof fn lemma_compiled_from_same(
    compiled: Seq<CompiledPattern>,
    first: Seq<WrittenPattern>,
    second: Seq<WrittenPattern>,
)
    requires
        compiled_from(compiled, first),
        same_patterns(first, second),
    ensures
        compiled_from(compiled, second),
{
    assert forall|p: int| 0 <= p < second.len() implies (#[trigger] compiled[p]).is_compiled_from(
        second[p],
    ) by {
        assert(compiled[p].is_compiled_from(first[p]));
        assert(first[p].captures@ == second[p].captures@);
        let one = first[p].directives@;
        let other = second[p].directives@;
        assert forall|i: int| 0 <= i < other.len() implies (#[trigger] other[i]).meaning(
            second[p].captures@,
        ) == Ok::<Directive, DirectiveFaultKind>(compiled[p].directives@[i]) by {
            assert(one[i].name@ == other[i].name@ && one[i].arguments@ == other[i].arguments@);
            assert(one[i].meaning(first[p].captures@) == Ok::<Directive, DirectiveFaultKind>(
                compiled[p].directives@[i],
            ));
        }
    }
}

/// Patterns that are written alike have the same first fault.
pub proof fn lemma_first_fault_of_same(
    fault: DirectiveFault,
    first: Seq<WrittenPattern>,
    second: Seq<WrittenPattern>,
)
    requires
        first_fault_of(fault, first),
        same_patterns(first, second),
    ensures
        first_fault_of(fault, second),
{
    assert forall|p: int| 0 <= p < fault.pattern implies (#[trigger] second[p]).is_well_formed() by {
        assert(first[p].is_well_formed());
        assert(first[p].captures@ == second[p].captures@);
        assert forall|i: int| 0 <= i < second[p].directives@.len() implies (
        #[trigger] second[p].directives@[i]).is_well_formed(second[p].captures@) by {
            assert(first[p].directives@[i].is_well_formed(first[p].captures@));
        }
    }
    let one = first[fault.pattern as int];
    let other = second[fault.pattern as int];
    assert(one.captures@ == other.captures@);
    assert forall|i: int| 0 <= i < fault.directive implies (
    #[trigger] other.directives@[i]).is_well_formed(other.captures@) by {
        assert(one.directives@[i].is_well_formed(one.captures@));
    }
    assert(one.directives@[fault.directive as int].name@
        == other.directives@[fault.directive as int].name@);
}

/// A directive that means something speaks of captures of its own pattern.
pub proof fn lemma_meaning_refers_within(written: WrittenDirective, captures: Seq<Quantifier>)
    requires
        written.is_well_formed(captures),
    ensures
        (written.meaning(captures)->Ok_0).refers_within(captures),
{
}

/// What a pattern compiles to is well formed: no directive of it speaks of a
/// capture that the pattern does not declare.
pub proof fn lemma_compiled_is_well_formed(compiled: CompiledPattern, written: WrittenPattern)
    requires
        compiled.is_compiled_from(written),
    ensures
        compiled.well_formed(),
        written.is_well_formed(),
{
    assert forall|i: int| 0 <= i < compiled.directives@.len() implies (
    #[trigger] compiled.directives@[i]).refers_within(compiled.captures@) by {
        lemma_meaning_refers_within(written.directives@[i], written.captures@);
    }
}

/// A pattern compiles to one thing only: the directives are fixed by what is
/// written.
pub proof fn lemma_compiled_is_unique(
    first: CompiledPattern,
    second: CompiledPattern,
    written: WrittenPattern,
)
    requires
        first.is_compiled_from(written),
        second.is_compiled_from(written),
    ensures
        first.captures@ == second.captures@,
        first.directives@ == second.directives@,
{
    assert forall|i: int| 0 <= i < first.directives@.len() implies first.directives@[i]
        == second.directives@[i] by {
        assert(written.directives@[i].meaning(written.captures@) == Ok::<
            Directive,
            DirectiveFaultKind,
        >(first.directives@[i]));
        assert(written.directives@[i].meaning(written.captures@) == Ok::<
            Directive,
            DirectiveFaultKind,
        >(second.directives@[i]));
    }
    assert(first.directives@ =~= second.directives@);
}

/// A pattern has one first fault only, and it has one exactly when it is not
/// well formed.
pub proof fn lemma_first_fault_is_unique(
    written: WrittenPattern,
    number: usize,
    first: DirectiveFault,
    second: DirectiveFault,
)
    requires
        written.first_fault_is(number, first),
        written.first_fault_is(number, second),
    ensures
        first.pattern == second.pattern,
        first.directive == second.directive,
        first.kind == second.kind,
        first.name@ == second.name@,
        !written.is_well_formed(),
{
    if first.directive < second.directive {
        assert(written.directives@[first.directive as int].is_well_formed(written.captures@));
    }
    if second.directive < first.directive {
        assert(written.directives@[second.directive as int].is_well_formed(written.captures@));
    }
    assert(!written.directives@[first.directive as int].is_well_formed(written.captures@));
}

/// Whether `compiled` holds what the patterns `written` compile to, one for
/// one.
pub open spec fn compiled_from(compiled: Seq<CompiledPattern>, written: Seq<WrittenPattern>) -> bool {
    &&& compiled.len() == written.len()
    &&& forall|p: int|
        0 <= p < written.len() ==> (#[trigger] compiled[p]).is_compiled_from(written[p])
}

/// Whether `fault` tells of the first directive of the patterns `written`
/// that is not well formed: the first of the first pattern that has one.
pub open spec fn first_fault_of(fault: DirectiveFault, written: Seq<WrittenPattern>) -> bool {
    &&& fault.pattern < written.len()
    &&& forall|p: int| 0 <= p < fault.pattern ==> (#[trigger] written[p]).is_well_formed()
    &&& written[fault.pattern as int].first_fault_is(fault.pattern, fault)
}

/// Compiles the patterns of a tag query. If each directive of each pattern is
/// well formed, the result holds the compiled patterns in their order; if
/// not, the first directive that is not well formed is reported and nothing
/// is compiled.
pub fn compile_patterns(written: &[WrittenPattern]) -> (outcome: Result<
    Vec<CompiledPattern>,
    DirectiveFault,
>)
    ensures
        outcome is Ok <==> forall|p: int|
            0 <= p < written@.len() ==> (#[trigger] written@[p]).is_well_formed(),
        outcome matches Ok(compiled) ==> {
            &&& compiled_from(compiled@, written@)
            &&& forall|p: int| 0 <= p < compiled@.len() ==> (#[trigger] compiled@[p]).well_formed()
        },
        outcome matches Err(fault) ==> first_fault_of(fault, written@),
{
    let mut compiled: Vec<CompiledPattern> = Vec::new();
    let mut number: usize = 0;
    while number < written.len()
        invariant
            number <= written@.len(),
            compiled@.len() == number,
            forall|p: int|
                0 <= p < number ==> (#[trigger] compiled@[p]).is_compiled_from(written@[p]),
            forall|p: int| 0 <= p < number ==> (#[trigger] compiled@[p]).well_formed(),
            forall|p: int| 0 <= p < number ==> (#[trigger] written@[p]).is_well_formed(),
        decreases written@.len() - number,
    {
        match written[number].compile(number) {
            Ok(pattern) => {
                proof {
                    lemma_compiled_is_well_formed(pattern, written@[number as int]);
                }
                compiled.push(pattern);
            },
            Err(fault) => {
                proof {
                    lemma_first_fault_is_unique(written@[number as int], number, fault, fault);
                }
                return Err(fault);
            },
        }
        number = number + 1;
    }
    Ok(compiled)
}

} // verus!
