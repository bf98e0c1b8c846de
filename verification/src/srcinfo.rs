//! The document, its write cursor and the parse driver.
//!
//! [`parse_spec`] says what [`ParsedSrcinfo::parse`] returns: a state machine over the
//! non-blank lines of the text. Its state is the document built so far and the
//! section that is being written; [`step`] takes one line.
use crate::field::ParsedField;
use crate::field_name::AnyFieldName;
use crate::field_name::BaseFieldName;
use crate::field_name::DerivativeFieldName;
use crate::field_name::lemma_of_literal;
use crate::field_name::FieldName;
use crate::laws::error_taken_from;
use crate::laws::lemma_parse_names_distinct;
use crate::laws::lemma_parse_takes_from_text;
use crate::laws::lemma_parse_wf;
use crate::laws::taken_from;
use crate::ordered_map::entries;
use crate::ordered_map::entry_or_default;
use crate::ordered_map::lemma_position;
use crate::ordered_map::lemma_position_is;
use crate::ordered_map::lemma_position_push;
use crate::ordered_map::lemma_position_update;
use crate::ordered_map::map_get;
use crate::ordered_map::map_get_index;
use crate::ordered_map::map_len;
use crate::ordered_map::new_map;
use crate::ordered_map::position;
use crate::partial::PartialParseResult;
use crate::section::base_section_wf;
use crate::section::derivative_section_wf;
use crate::section::empty_section;
use crate::section::insert_value;
use crate::section::AlreadySet;
use crate::section::ParsedDerivativeAlreadySetError;
use crate::section::ParsedSrcinfoAlreadySetError;
use crate::section::ParsedSrcinfoBaseSection;
use crate::section::ParsedSrcinfoDerivativeSection;
use crate::text::key_value;
use crate::text::non_blank_trimmed_lines;
use crate::text::parse_line;
use crate::text::trim;
use crate::text::non_blank_lines;
use crate::value::Name;
use indexmap::IndexMap;
use vstd::prelude::*;

verus! {

/// A document as the contracts see it.
pub struct SrcinfoView {
    /// The fields of the base section.
    pub base: Map<BaseFieldName, Seq<Seq<char>>>,
    /// The derivative sections, name and fields, in the order in which their names first
    /// came up.
    pub derivatives: Seq<(Seq<char>, Map<DerivativeFieldName, Seq<Seq<char>>>)>,
}

/// Which section is written: the view of a [`Section`].
pub enum SectionView {
    Base,
    Derivative(Seq<char>),
}

/// The view of a [`SrcinfoParseError`].
pub enum SrcinfoParseErrorView {
    BaseFieldAlreadySet(AlreadySet<BaseFieldName>),
    DerivativeFieldAlreadySet(Seq<char>, AlreadySet<DerivativeFieldName>),
    InvalidLine(Seq<char>),
}

/// The view of an [`AddFailure`].
pub enum AddFailureView {
    MeetHeader(Seq<char>),
    Error(SrcinfoParseErrorView),
}

/// The state of the parse: the document so far and the section that is written.
pub struct ParseState {
    pub doc: SrcinfoView,
    pub section: SectionView,
}

/// What one line does to the parse.
pub enum Step {
    /// The parse goes on in this state.
    Next(ParseState),
    /// The parse stops with this error; the document stays as it was before the line.
    Halt(SrcinfoParseErrorView),
}

/// The base section after `value` was assigned to `field`, and what the assignment came to.
///
/// `pkgname` stores nothing and announces a section of that name. A field that the base
/// section does not hold (`pkgbase`) is passed over. Any other field is stored, unless it
/// is single-valued and set.
pub open spec fn add_to_base(
    section: Map<BaseFieldName, Seq<Seq<char>>>,
    field: AnyFieldName,
    value: Seq<char>,
) -> (Map<BaseFieldName, Seq<Seq<char>>>, Result<(), AddFailureView>) {
    if field == AnyFieldName::Name {
        (section, Err(AddFailureView::MeetHeader(value)))
    } else {
        match BaseFieldName::of_any(field) {
            None => (section, Ok(())),
            Some(own) => match insert_value(section, field.single_valued(), own, value) {
                Ok(stored) => (stored, Ok(())),
                Err(refused) => (
                    section,
                    Err(AddFailureView::Error(SrcinfoParseErrorView::BaseFieldAlreadySet(refused))),
                ),
            },
        }
    }
}

/// The derivative section called `name` after `value` was assigned to `field`, and what the
/// assignment came to.
///
/// `pkgname` stores nothing and announces a section of that name. A field that a derivative
/// section does not hold (`pkgbase` and the base-only fields) is passed over. Any other
/// field is stored, unless it is single-valued and set.
pub open spec fn add_to_derivative(
    name: Seq<char>,
    section: Map<DerivativeFieldName, Seq<Seq<char>>>,
    field: AnyFieldName,
    value: Seq<char>,
) -> (Map<DerivativeFieldName, Seq<Seq<char>>>, Result<(), AddFailureView>) {
    if field == AnyFieldName::Name {
        (section, Err(AddFailureView::MeetHeader(value)))
    } else {
        match DerivativeFieldName::of_any(field) {
            None => (section, Ok(())),
            Some(own) => match insert_value(section, field.single_valued(), own, value) {
                Ok(stored) => (stored, Ok(())),
                Err(refused) => (
                    section,
                    Err(
                        AddFailureView::Error(
                            SrcinfoParseErrorView::DerivativeFieldAlreadySet(name, refused),
                        ),
                    ),
                ),
            },
        }
    }
}

/// `doc` with a derivative section called `name`: `doc` itself where it has one, else `doc`
/// with an empty section of that name appended.
pub open spec fn enter(doc: SrcinfoView, name: Seq<char>) -> SrcinfoView {
    if position(doc.derivatives, name) is Some {
        doc
    } else {
        SrcinfoView {
            base: doc.base,
            derivatives: doc.derivatives.push((name, empty_section::<DerivativeFieldName>())),
        }
    }
}

/// What the assignment of `value` to `field` does to the parse.
pub open spec fn assign(state: ParseState, field: AnyFieldName, value: Seq<char>) -> Step {
    match state.section {
        SectionView::Base => {
            let (section, outcome) = add_to_base(state.doc.base, field, value);
            settle(
                SrcinfoView { base: section, derivatives: state.doc.derivatives },
                state.section,
                outcome,
            )
        },
        SectionView::Derivative(name) => {
            let at = position(state.doc.derivatives, name).unwrap();
            let (section, outcome) = add_to_derivative(
                name,
                state.doc.derivatives[at].1,
                field,
                value,
            );
            settle(
                SrcinfoView {
                    base: state.doc.base,
                    derivatives: state.doc.derivatives.update(at, (name, section)),
                },
                state.section,
                outcome,
            )
        },
    }
}

/// The parse after an assignment that left the document as `doc`: it goes on in the same
/// section, moves to the section that a header announced, or stops.
pub open spec fn settle(
    doc: SrcinfoView,
    section: SectionView,
    outcome: Result<(), AddFailureView>,
) -> Step {
    match outcome {
        Ok(()) => Step::Next(ParseState { doc, section }),
        Err(AddFailureView::MeetHeader(name)) => Step::Next(
            ParseState { doc: enter(doc, name), section: SectionView::Derivative(name) },
        ),
        Err(AddFailureView::Error(error)) => Step::Halt(error),
    }
}

/// What one non-blank line does to the parse.
///
/// The line is trimmed and split into key and value. A line without `=` stops the parse; the
/// error carries the line as it stands in the text. A line whose key is no field name, or
/// whose value is empty, changes nothing. Any other line is an assignment.
pub open spec fn step(state: ParseState, line: Seq<char>) -> Step {
    match key_value(trim(line)) {
        None => Step::Halt(SrcinfoParseErrorView::InvalidLine(line)),
        Some((key, value)) => match AnyFieldName::of_literal(key) {
            None => Step::Next(state),
            Some(field) => if value.len() == 0 {
                Step::Next(state)
            } else {
                assign(state, field, value)
            },
        },
    }
}

/// The document and the error that the parse ends with when it takes `lines` from `state`.
pub open spec fn run(state: ParseState, lines: Seq<Seq<char>>) -> (
    SrcinfoView,
    Option<SrcinfoParseErrorView>,
)
    decreases lines.len(),
{
    if lines.len() == 0 {
        (state.doc, None)
    } else {
        match step(state, lines.first()) {
            Step::Next(next) => run(next, lines.drop_first()),
            Step::Halt(error) => (state.doc, Some(error)),
        }
    }
}

/// The document without a value and without a derivative section.
pub open spec fn empty_doc() -> SrcinfoView {
    SrcinfoView { base: empty_section::<BaseFieldName>(), derivatives: Seq::empty() }
}

/// The state in which every parse starts: nothing stored, the base section written.
pub open spec fn initial() -> ParseState {
    ParseState { doc: empty_doc(), section: SectionView::Base }
}

/// The document that the parse of `text` builds, and the error that stopped it if one did.
pub open spec fn parse_spec(text: Seq<char>) -> (SrcinfoView, Option<SrcinfoParseErrorView>) {
    run(initial(), non_blank_lines(text))
}

/// Every field of every section has an entry, and no single-valued field holds more than one
/// value.
pub open spec fn doc_wf(doc: SrcinfoView) -> bool {
    &&& base_section_wf(doc.base)
    &&& forall|i: int|
        0 <= i < doc.derivatives.len() ==> derivative_section_wf(#[trigger] doc.derivatives[i].1)
}

/// No two sections of `doc` have the same name.
pub open spec fn distinct_names(doc: SrcinfoView) -> bool {
    forall|i: int, j: int|
        0 <= i < j < doc.derivatives.len() ==> doc.derivatives[i].0 != doc.derivatives[j].0
}

/// The first of `values`, if there is one.
pub open spec fn first_of(values: Seq<Seq<char>>) -> Option<Seq<char>> {
    if values.len() > 0 {
        Some(values.first())
    } else {
        None
    }
}

/// The raw text that `doc` holds for `field` in `section`: the first value stored under the
/// field. `None` where the document has no such section, where the section does not hold
/// the field, and where the field has no value.
pub open spec fn raw_text(doc: SrcinfoView, section: SectionView, field: AnyFieldName) -> Option<
    Seq<char>,
> {
    match section {
        SectionView::Base => match BaseFieldName::of_any(field) {
            Some(own) => first_of(doc.base[own]),
            None => None,
        },
        SectionView::Derivative(name) => match (
            position(doc.derivatives, name),
            DerivativeFieldName::of_any(field),
        ) {
            (Some(at), Some(own)) => first_of(doc.derivatives[at].1[own]),
            _ => None,
        },
    }
}

/// The section that `state` writes to is in the document.
pub open spec fn in_doc(state: ParseState) -> bool {
    state.section matches SectionView::Derivative(name) ==> position(state.doc.derivatives, name)
        is Some
}

/// A section of the document.
#[derive(Debug, Clone, Copy)]
pub enum Section<'a> {
    /// The base section.
    Base,
    /// The derivative section of a package.
    Derivative(Name<'a>),
}

impl<'a> View for Section<'a> {
    type V = SectionView;

    open spec fn view(&self) -> SectionView {
        match self {
            Section::Base => SectionView::Base,
            Section::Derivative(name) => SectionView::Derivative(name@),
        }
    }
}

/// Why a parse stopped before the end of its input.
#[derive(Debug, Clone, Copy)]
pub enum SrcinfoParseError<'a> {
    /// A single-valued field of the base section was assigned a second time.
    BaseFieldAlreadySet(ParsedSrcinfoAlreadySetError<'a>),
    /// A single-valued field of the derivative section of the named package was assigned a
    /// second time.
    DerivativeFieldAlreadySet(Name<'a>, ParsedDerivativeAlreadySetError<'a>),
    /// A line holds no `=`. The line is given as it stands in the text, untrimmed, without
    /// what ends it.
    InvalidLine(&'a str),
}

impl<'a> View for SrcinfoParseError<'a> {
    type V = SrcinfoParseErrorView;

    open spec fn view(&self) -> SrcinfoParseErrorView {
        match self {
            SrcinfoParseError::BaseFieldAlreadySet(error) => {
                SrcinfoParseErrorView::BaseFieldAlreadySet(error@)
            },
            SrcinfoParseError::DerivativeFieldAlreadySet(name, error) => {
                SrcinfoParseErrorView::DerivativeFieldAlreadySet(name@, error@)
            },
            SrcinfoParseError::InvalidLine(line) => SrcinfoParseErrorView::InvalidLine(line@),
        }
    }
}

/// Why an assignment stored nothing.
#[derive(Debug, Clone, Copy)]
pub enum AddFailure<'a> {
    /// The line was a `pkgname` header: the section of that package is to be written from
    /// here on. This is no error.
    MeetHeader(Name<'a>),
    /// The assignment is an error that stops the parse.
    Error(SrcinfoParseError<'a>),
}

impl<'a> View for AddFailure<'a> {
    type V = AddFailureView;

    open spec fn view(&self) -> AddFailureView {
        match self {
            AddFailure::MeetHeader(name) => AddFailureView::MeetHeader(name@),
            AddFailure::Error(error) => AddFailureView::Error(error@),
        }
    }
}

/// The view of what an assignment came to.
pub open spec fn outcome_view(outcome: Result<(), AddFailure<'_>>) -> Result<(), AddFailureView> {
    match outcome {
        Ok(()) => Ok(()),
        Err(failure) => Err(failure@),
    }
}

/// The view of the error that a parse ended with.
pub open spec fn error_view(error: Option<SrcinfoParseError<'_>>) -> Option<
    SrcinfoParseErrorView,
> {
    match error {
        Some(error) => Some(error@),
        None => None,
    }
}

impl<'a> ParsedSrcinfoBaseSection<'a> {
    /// Assigns `value` to `field` in the base section.
    pub fn add(&mut self, field: ParsedField<'a>, value: &'a str) -> (r: Result<
        (),
        AddFailure<'a>,
    >)
        ensures
            (final(self)@, outcome_view(r)) == add_to_base(
                old(self)@,
                field.field_name(),
                value@,
            ),
            old(self).wf() ==> final(self).wf(),
    {
        let name = field.name();
        if let AnyFieldName::Name = name {
            return Err(AddFailure::MeetHeader(Name(value)));
        }
        match BaseFieldName::from_any(name) {
            Err(_) => Ok(()),
            Ok(own) => match self.insert(own, value) {
                Ok(()) => Ok(()),
                Err(refused) => Err(
                    AddFailure::Error(SrcinfoParseError::BaseFieldAlreadySet(refused)),
                ),
            },
        }
    }
}

/// A derivative section under its name, open for writing.
pub struct ParsedSrcinfoDerivativeSectionEntry<'a, 'r> {
    /// The name of the package.
    pub name: Name<'a>,
    /// The fields of the section.
    pub data: &'r mut ParsedSrcinfoDerivativeSection<'a>,
}

impl<'a, 'r> ParsedSrcinfoDerivativeSectionEntry<'a, 'r> {
    /// The section `data` under the name `name`.
    pub fn new(name: Name<'a>, data: &'r mut ParsedSrcinfoDerivativeSection<'a>) -> (r: Self)
        ensures
            r.name == name,
            *r.data == *old(data),
            *final(r.data) == *final(data),
    {
        ParsedSrcinfoDerivativeSectionEntry { name, data }
    }

    /// Assigns `value` to `field` in the section.
    pub fn add(&mut self, field: ParsedField<'a>, value: &'a str) -> (r: Result<
        (),
        AddFailure<'a>,
    >)
        ensures
            final(self).name == old(self).name,
            *final(final(self).data) == *final(old(self).data),
            (final(self).data@, outcome_view(r)) == add_to_derivative(
                old(self).name@,
                old(self).data@,
                field.field_name(),
                value@,
            ),
            old(self).data.wf() ==> final(self).data.wf(),
    {
        let name = field.name();
        if let AnyFieldName::Name = name {
            return Err(AddFailure::MeetHeader(Name(value)));
        }
        match DerivativeFieldName::from_any(name) {
            Err(_) => Ok(()),
            Ok(own) => match self.data.insert(own, value) {
                Ok(()) => Ok(()),
                Err(refused) => Err(
                    AddFailure::Error(
                        SrcinfoParseError::DerivativeFieldAlreadySet(self.name, refused),
                    ),
                ),
            },
        }
    }

    /// Gives back the storage that the section holds beyond its values.
    pub fn shrink_to_fit(&mut self)
        ensures
            final(self).name == old(self).name,
            *final(final(self).data) == *final(old(self).data),
            final(self).data@ == old(self).data@,
    {
        self.data.shrink_to_fit()
    }
}

/// The write cursor of a document: the section that assignments go to.
pub enum ParsedSrcinfoSectionMut<'a, 'r> {
    /// The base section is written.
    Base(&'r mut ParsedSrcinfoBaseSection<'a>),
    /// The derivative section of a package is written.
    Derivative(ParsedSrcinfoDerivativeSectionEntry<'a, 'r>),
}

impl<'a, 'r> ParsedSrcinfoSectionMut<'a, 'r> {
    /// Assigns `value` to `field` in the section that the cursor stands on.
    ///
    /// The cursor stays on its section whatever the outcome. The section changes as
    /// [`add_to_base`] or [`add_to_derivative`] says, and `r` is the outcome that they give.
    pub fn add(&mut self, field: ParsedField<'a>, value: &'a str) -> (r: Result<
        (),
        AddFailure<'a>,
    >)
        ensures
            match (*old(self), *final(self)) {
                (ParsedSrcinfoSectionMut::Base(before), ParsedSrcinfoSectionMut::Base(after)) => {
                    &&& *final(after) == *final(before)
                    &&& (after@, outcome_view(r)) == add_to_base(
                        before@,
                        field.field_name(),
                        value@,
                    )
                    &&& before.wf() ==> after.wf()
                },
                (
                    ParsedSrcinfoSectionMut::Derivative(before),
                    ParsedSrcinfoSectionMut::Derivative(after),
                ) => {
                    &&& after.name == before.name
                    &&& *final(after.data) == *final(before.data)
                    &&& (after.data@, outcome_view(r)) == add_to_derivative(
                        before.name@,
                        before.data@,
                        field.field_name(),
                        value@,
                    )
                    &&& before.data.wf() ==> after.data.wf()
                },
                _ => false,
            },
    {
        match self {
            ParsedSrcinfoSectionMut::Base(section) => section.add(field, value),
            ParsedSrcinfoSectionMut::Derivative(section) => section.add(field, value),
        }
    }

    /// Gives back the storage that the section holds beyond its values. The cursor stays on
    /// its section and the section keeps its values.
    pub fn shrink_to_fit(&mut self)
        ensures
            match (*old(self), *final(self)) {
                (ParsedSrcinfoSectionMut::Base(before), ParsedSrcinfoSectionMut::Base(after)) => {
                    &&& *final(after) == *final(before)
                    &&& after@ == before@
                },
                (
                    ParsedSrcinfoSectionMut::Derivative(before),
                    ParsedSrcinfoSectionMut::Derivative(after),
                ) => {
                    &&& after.name == before.name
                    &&& *final(after.data) == *final(before.data)
                    &&& after.data@ == before.data@
                },
                _ => false,
            },
    {
        match self {
            ParsedSrcinfoSectionMut::Base(section) => section.shrink_to_fit(),
            ParsedSrcinfoSectionMut::Derivative(section) => section.shrink_to_fit(),
        }
    }
}

/// The parsed content of a `.SRCINFO` text.
#[derive(Debug, Clone)]
pub struct ParsedSrcinfo<'a> {
    /// The base section: what stands before the first `pkgname` line.
    pub base: ParsedSrcinfoBaseSection<'a>,
    /// The derivative sections by package name, in the order in which the names first came
    /// up.
    pub derivatives: IndexMap<&'a str, ParsedSrcinfoDerivativeSection<'a>>,
}

impl<'a> View for ParsedSrcinfo<'a> {
    type V = SrcinfoView;

    open spec fn view(&self) -> SrcinfoView {
        SrcinfoView { base: self.base@, derivatives: entries(self.derivatives) }
    }
}

impl<'a> ParsedSrcinfo<'a> {
    /// No single-valued field holds more than one value, and no two derivative sections
    /// have the same name.
    pub open spec fn wf(&self) -> bool {
        doc_wf(self@) && distinct_names(self@)
    }
}

impl<'a> Default for ParsedSrcinfo<'a> {
    /// The document without a value and without a derivative section.
    fn default() -> (r: Self)
        ensures
            r@ == empty_doc(),
    {
        ParsedSrcinfo { base: ParsedSrcinfoBaseSection::default(), derivatives: new_map() }
    }
}

/// The return type of [`ParsedSrcinfo::parse`].
pub type SrcinfoParseReturn<'a> = PartialParseResult<ParsedSrcinfo<'a>, SrcinfoParseError<'a>>;

impl<'a> ParsedSrcinfo<'a> {
    /// The cursor on `section`. A derivative section that the document does not hold yet is
    /// created empty, after the sections that it holds; one that it holds is written on.
    ///
    /// The cursor starts with what the section holds. What is written through the cursor is
    /// what the document holds in that section afterwards; the rest of the document is
    /// [`enter`] of what it was.
    pub fn get_or_insert<'r>(&'r mut self, section: Section<'a>) -> (cursor:
        ParsedSrcinfoSectionMut<'a, 'r>)
        ensures
            match section {
                Section::Base => {
                    &&& cursor matches ParsedSrcinfoSectionMut::Base(data)
                    &&& data@ == old(self)@.base
                    &&& final(self)@ == SrcinfoView {
                        base: final(data)@,
                        derivatives: old(self)@.derivatives,
                    }
                },
                Section::Derivative(name) => {
                    let doc = enter(old(self)@, name@);
                    &&& cursor matches ParsedSrcinfoSectionMut::Derivative(entry)
                    &&& entry.name@ == name@
                    &&& position(doc.derivatives, name@) matches Some(at)
                    &&& entry.data@ == doc.derivatives[at].1
                    &&& final(self)@ == SrcinfoView {
                        base: doc.base,
                        derivatives: doc.derivatives.update(at, (name@, final(entry.data)@)),
                    }
                },
            },
    {
        match section {
            Section::Base => ParsedSrcinfoSectionMut::Base(&mut self.base),
            Section::Derivative(name) => {
                let ghost before = self@;
                let data = entry_or_default(&mut self.derivatives, name.as_str());
                proof {
                    lemma_position(before.derivatives, name@);
                    let doc = enter(before, name@);
                    if position(before.derivatives, name@) is None {
                        let at = before.derivatives.len() as int;
                        lemma_position_is(doc.derivatives, name@, at);
                        assert(doc.derivatives.update(at, (name@, final(data)@))
                            =~= before.derivatives.push((name@, final(data)@)));
                    }
                }
                ParsedSrcinfoSectionMut::Derivative(
                    ParsedSrcinfoDerivativeSectionEntry::new(name, data),
                )
            },
        }
    }

    /// The number of derivative sections.
    pub fn derivative_count(&self) -> (r: usize)
        ensures
            r == self@.derivatives.len(),
    {
        map_len(&self.derivatives)
    }

    /// The name and the fields of the derivative section at `index`, counted in the order in
    /// which the names first came up. `None` past the last section.
    pub fn derivative_at(&self, index: usize) -> (r: Option<
        (Name<'a>, &ParsedSrcinfoDerivativeSection<'a>),
    >)
        ensures
            match r {
                Some((name, section)) => index < self@.derivatives.len() && (name@, section@)
                    == self@.derivatives[index as int],
                None => index >= self@.derivatives.len(),
            },
    {
        match map_get_index(&self.derivatives, index) {
            Some((name, section)) => Some((Name(name), section)),
            None => None,
        }
    }

    /// The fields of the derivative section called `name`, if the document holds one.
    pub fn derivative(&self, name: &str) -> (r: Option<&ParsedSrcinfoDerivativeSection<'a>>)
        ensures
            match r {
                Some(section) => position(self@.derivatives, name@) matches Some(at) && section@
                    == self@.derivatives[at].1,
                None => position(self@.derivatives, name@) is None,
            },
    {
        map_get(&self.derivatives, name)
    }

    /// The raw text stored for `field` in `section`, if any.
    pub fn query_raw_text(&self, section: Section<'_>, field: ParsedField<'_>) -> (r: Option<
        &'a str,
    >)
        ensures
            match r {
                Some(text) => raw_text(self@, section@, field.field_name()) == Some(text@),
                None => raw_text(self@, section@, field.field_name()) is None,
            },
    {
        match section {
            Section::Base => match BaseFieldName::from_any(field.name()) {
                Ok(own) => self.base.query_raw_text(own),
                Err(_) => None,
            },
            Section::Derivative(name) => match self.derivative(name.as_str()) {
                Some(fields) => match DerivativeFieldName::from_any(field.name()) {
                    Ok(own) => fields.query_raw_text(own),
                    Err(_) => None,
                },
                None => None,
            },
        }
    }

    /// Parses the text of a `.SRCINFO` file.
    ///
    /// The result holds the document that the lines up to the end of the text, or up to the
    /// first offending line, build, and the error of that line if there is one:
    /// [`parse_spec`] of the text. The document is well-formed, and whatever it and the
    /// error hold is a part of the text.
    pub fn parse(text: &'a str) -> (r: SrcinfoParseReturn<'a>)
        ensures
            r.parsed@ == parse_spec(text@).0,
            error_view(r.error) == parse_spec(text@).1,
            r.parsed.wf(),
            taken_from(r.parsed@, text@),
            r.error matches Some(error) ==> error_taken_from(error@, text@),
    {
        proof {
            lemma_parse_wf(text@);
            lemma_parse_names_distinct(text@);
            lemma_parse_takes_from_text(text@);
        }
        let mut parsed = ParsedSrcinfo::default();
        let mut lines = non_blank_trimmed_lines(text);
        let ghost mut state = initial();
        let mut section_mut = parsed.get_or_insert(Section::Base);

        loop
            invariant
                parse_spec(text@) == run(state, lines@),
                doc_wf(parse_spec(text@).0),
                distinct_names(parse_spec(text@).0),
                taken_from(parse_spec(text@).0, text@),
                parse_spec(text@).1 matches Some(error) ==> error_taken_from(error, text@),
                in_doc(state),
                match section_mut {
                    ParsedSrcinfoSectionMut::Base(data) => {
                        &&& state.section == SectionView::Base
                        &&& data@ == state.doc.base
                        &&& after_borrow(parsed)@ == SrcinfoView {
                            base: final(data)@,
                            derivatives: state.doc.derivatives,
                        }
                    },
                    ParsedSrcinfoSectionMut::Derivative(entry) => {
                        &&& state.section == SectionView::Derivative(entry.name@)
                        &&& position(state.doc.derivatives, entry.name@) matches Some(at)
                        &&& entry.data@ == state.doc.derivatives[at].1
                        &&& after_borrow(parsed)@ == SrcinfoView {
                            base: state.doc.base,
                            derivatives: state.doc.derivatives.update(
                                at,
                                (entry.name@, final(entry.data)@),
                            ),
                        }
                    },
                },
            decreases lines@.len(),
        {
            proof {
                lemma_written(state);
            }
            let line = match lines.next() {
                Some(line) => line,
                None => {
                    return SrcinfoParseReturn::new_complete(parsed);
                },
            };
            let (key, value) = match parse_line(line.trimmed) {
                Some(pair) => pair,
                None => {
                    return SrcinfoParseReturn::new_partial(
                        parsed,
                        SrcinfoParseError::InvalidLine(line.raw),
                    );
                },
            };
            proof {
                lemma_of_literal(key@);
            }
            let field = match ParsedField::parse(key) {
                Some(field) => field,
                None => {
                    continue ;
                },
            };
            if value.is_empty() {
                continue ;
            }
            match section_mut.add(field, value) {
                Ok(()) => {
                    proof {
                        let next = step(state, line.raw@)->Next_0;
                        lemma_step_in_doc(state, line.raw@);
                        if let SectionView::Derivative(name) = state.section {
                            let at = position(state.doc.derivatives, name).unwrap();
                            lemma_position_update(
                                state.doc.derivatives,
                                at,
                                next.doc.derivatives[at].1,
                                name,
                            );
                            assert forall|fields: Map<DerivativeFieldName, Seq<Seq<char>>>|
                                #![auto]
                                next.doc.derivatives.update(at, (name, fields))
                                    == state.doc.derivatives.update(at, (name, fields)) by {
                                assert(next.doc.derivatives.update(at, (name, fields))
                                    =~= state.doc.derivatives.update(at, (name, fields)));
                            }
                        }
                        state = next;
                    }
                },
                Err(AddFailure::MeetHeader(name)) => {
                    section_mut.shrink_to_fit();
                    assert(parsed@ == state.doc);
                    section_mut = parsed.get_or_insert(Section::Derivative(name));
                    proof {
                        assert(step(state, line.raw@) == Step::Next(
                            ParseState {
                                doc: enter(state.doc, name@),
                                section: SectionView::Derivative(name@),
                            },
                        ));
                        state = step(state, line.raw@)->Next_0;
                    }
                },
                Err(AddFailure::Error(error)) => {
                    return SrcinfoParseReturn::new_partial(parsed, error);
                },
            }
        }
    }
}

/// A state that writes to a section of its document goes over to such a state.
pub proof fn lemma_step_in_doc(state: ParseState, line: Seq<char>)
    requires
        in_doc(state),
    ensures
        step(state, line) matches Step::Next(next) ==> in_doc(next),
{
    if let Step::Next(next) = step(state, line) {
        lemma_written(state);
        if let SectionView::Derivative(name) = next.section {
            if let SectionView::Derivative(current) = state.section {
                let at = position(state.doc.derivatives, current).unwrap();
                lemma_position_update(
                    state.doc.derivatives,
                    at,
                    next.doc.derivatives[at].1,
                    name,
                );
            }
            lemma_position_push(
                state.doc.derivatives,
                name,
                empty_section::<DerivativeFieldName>(),
                name,
            );
        }
    }
}

/// The section that is written has a place in the document, and writing to it what it holds
/// leaves the document as it is.
proof fn lemma_written(state: ParseState)
    requires
        in_doc(state),
    ensures
        state.section matches SectionView::Derivative(name) ==> {
            let at = position(state.doc.derivatives, name).unwrap();
            &&& 0 <= at < state.doc.derivatives.len()
            &&& state.doc.derivatives[at].0 == name
            &&& state.doc.derivatives.update(at, (name, state.doc.derivatives[at].1))
                == state.doc.derivatives
        },
{
    if let SectionView::Derivative(name) = state.section {
        lemma_position(state.doc.derivatives, name);
        let at = position(state.doc.derivatives, name).unwrap();
        assert(state.doc.derivatives.update(at, (name, state.doc.derivatives[at].1))
            =~= state.doc.derivatives);
    }
}

} // verus!
