//! What holds of every parse, stated over [`run`] and [`step`] and proved.
//!
//! A parse is [`run`] from [`initial`] over the non-blank lines of the text, so what
//! is shown here of every state and every sequence of lines holds of every text.
use crate::field_name::AnyFieldName;
use crate::field_name::BaseFieldName;
use crate::field_name::DerivativeFieldName;
use crate::field_name::lemma_literal_injective;
use crate::ordered_map::lemma_position;
use crate::ordered_map::lemma_position_push;
use crate::ordered_map::lemma_position_update;
use crate::ordered_map::names;
use crate::ordered_map::position;
use crate::section::empty_section;
use crate::section::insert_value;
use crate::section::base_section_wf;
use crate::section::derivative_section_wf;
use crate::section::AlreadySet;
use crate::srcinfo::distinct_names;
use crate::srcinfo::doc_wf;
use crate::srcinfo::enter;
use crate::srcinfo::in_doc;
use crate::srcinfo::initial;
use crate::field_name::lemma_of_literal;
use crate::srcinfo::lemma_step_in_doc;
use crate::srcinfo::parse_spec;
use crate::srcinfo::run;
use crate::srcinfo::step;
use crate::srcinfo::ParseState;
use crate::srcinfo::SectionView;
use crate::srcinfo::SrcinfoParseErrorView;
use crate::srcinfo::SrcinfoView;
use crate::srcinfo::Step;
use crate::text::is_part;
use crate::text::key_value;
use crate::text::lemma_part_holds_no_more;
use crate::text::lemma_trim_is_part;
use crate::text::trim;
use crate::text::lemma_key_value_is_part;
use crate::text::lemma_lines_are_parts;
use crate::text::lemma_part_of_part;
use crate::text::non_blank_lines;
use crate::text::ASSIGN;
use vstd::prelude::*;

verus! {

/// `line` assigns the non-empty `value` to `field`.
pub open spec fn assigns(line: Seq<char>, field: AnyFieldName, value: Seq<char>) -> bool {
    key_value(trim(line)) == Some((field.literal(), value)) && value.len() > 0
}

/// A line that assigns to a field has that field as the meaning of its key.
pub proof fn lemma_assigns(line: Seq<char>, field: AnyFieldName, value: Seq<char>)
    requires
        assigns(line, field, value),
    ensures
        AnyFieldName::of_literal(field.literal()) == Some(field),
{
    lemma_of_literal(field.literal());
}

/// The parse takes its lines one after the other: a line on which it goes on hands the rest
/// of the lines to the state that it leads to, and a line on which it stops ends the parse
/// with the document as it was before that line.
pub proof fn lemma_run_first(state: ParseState, line: Seq<char>, rest: Seq<Seq<char>>)
    ensures
        run(state, seq![line] + rest) == match step(state, line) {
            Step::Next(next) => run(next, rest),
            Step::Halt(error) => (state.doc, Some(error)),
        },
{
    let lines = seq![line] + rest;
    assert(lines.first() == line);
    assert(lines.drop_first() =~= rest);
}

/// Parsing is a function of the text: two parses of the same text end with the same document
/// and the same error.
pub proof fn lemma_parse_is_deterministic(
    text: Seq<char>,
    first: (SrcinfoView, Option<SrcinfoParseErrorView>),
    second: (SrcinfoView, Option<SrcinfoParseErrorView>),
)
    requires
        first == parse_spec(text),
        second == parse_spec(text),
    ensures
        first == second,
{
}

/// A line whose key is no field name is ignored, whatever its value: the state after the line
/// is the state before it, and the parse goes on with the lines that follow as if the line
/// had not been there.
pub proof fn lemma_unrecognized_key_is_ignored(
    state: ParseState,
    line: Seq<char>,
    rest: Seq<Seq<char>>,
)
    requires
        key_value(trim(line)) matches Some((key, _)) && forall|name: AnyFieldName|
            name.literal() != key,
    ensures
        step(state, line) == Step::Next(state),
        run(state, seq![line] + rest) == run(state, rest),
{
    lemma_of_literal(key_value(trim(line)).unwrap().0);
    lemma_run_first(state, line, rest);
}

/// A line whose value is empty is ignored, whatever its key.
pub proof fn lemma_empty_value_is_ignored(state: ParseState, line: Seq<char>, rest: Seq<Seq<char>>)
    requires
        key_value(trim(line)) matches Some((_, value)) && value.len() == 0,
    ensures
        step(state, line) == Step::Next(state),
        run(state, seq![line] + rest) == run(state, rest),
{
    lemma_run_first(state, line, rest);
}

/// A line without `=` stops the parse at once: the error carries the line, the document is
/// what it was before the line, and the lines that follow are not looked at.
pub proof fn lemma_line_without_delimiter_halts(
    state: ParseState,
    line: Seq<char>,
    rest: Seq<Seq<char>>,
)
    requires
        !line.contains(ASSIGN),
    ensures
        step(state, line) == Step::Halt(SrcinfoParseErrorView::InvalidLine(line)),
        run(state, seq![line] + rest) == (
            state.doc,
            Some(SrcinfoParseErrorView::InvalidLine(line)),
        ),
{
    lemma_trim_is_part(line);
    lemma_part_holds_no_more(trim(line), line, ASSIGN);
    crate::text::lemma_split_once_none(trim(line), ASSIGN);
    lemma_run_first(state, line, rest);
}

/// The parse stops with `InvalidLine` on no other line than one that, trimmed, holds no
/// `=`, and the error carries that line as it stands in the text.
pub proof fn lemma_invalid_line_has_no_delimiter(state: ParseState, line: Seq<char>)
    requires
        step(state, line) matches Step::Halt(SrcinfoParseErrorView::InvalidLine(_)),
    ensures
        !trim(line).contains(ASSIGN),
        step(state, line) == Step::Halt(SrcinfoParseErrorView::InvalidLine(line)),
{
    trim(line).index_of_first_ensures(ASSIGN);
}

/// A second assignment to a single-valued field of the base section stops the parse. The
/// error names the value that the field holds and the value that was refused; the document
/// is what it was before the line.
pub proof fn lemma_second_assignment_halts(
    state: ParseState,
    field: BaseFieldName,
    line: Seq<char>,
    value: Seq<char>,
    rest: Seq<Seq<char>>,
)
    requires
        state.section == SectionView::Base,
        field.any().single_valued(),
        state.doc.base[field].len() > 0,
        assigns(line, field.any(), value),
    ensures
        run(state, seq![line] + rest) == (
            state.doc,
            Some(
                SrcinfoParseErrorView::BaseFieldAlreadySet(
                    AlreadySet { field, previous: state.doc.base[field].first(), attempted: value },
                ),
            ),
        ),
{
    lemma_assigns(line, field.any(), value);
    lemma_run_first(state, line, rest);
}

/// Two assignments to the same single-valued field of the base section, one after the other:
/// the first is stored, the second stops the parse with an error that names both values, and
/// the document holds the first value and nothing of the second.
pub proof fn lemma_single_valued_field_set_twice(
    state: ParseState,
    field: BaseFieldName,
    first: Seq<char>,
    first_value: Seq<char>,
    second: Seq<char>,
    second_value: Seq<char>,
    rest: Seq<Seq<char>>,
)
    requires
        state.section == SectionView::Base,
        field.any().single_valued(),
        state.doc.base.dom().contains(field),
        state.doc.base[field].len() == 0,
        assigns(first, field.any(), first_value),
        assigns(second, field.any(), second_value),
    ensures
        run(state, seq![first, second] + rest) == (
            SrcinfoView {
                base: state.doc.base.insert(field, seq![first_value]),
                derivatives: state.doc.derivatives,
            },
            Some(
                SrcinfoParseErrorView::BaseFieldAlreadySet(
                    AlreadySet { field, previous: first_value, attempted: second_value },
                ),
            ),
        ),
{
    lemma_assigns(first, field.any(), first_value);
    let stored = SrcinfoView {
        base: state.doc.base.insert(field, seq![first_value]),
        derivatives: state.doc.derivatives,
    };
    let next = ParseState { doc: stored, section: SectionView::Base };
    assert(state.doc.base[field].push(first_value) =~= seq![first_value]);
    assert(step(state, first) == Step::Next(next));
    assert(seq![first, second] + rest =~= seq![first] + (seq![second] + rest));
    lemma_run_first(state, first, seq![second] + rest);
    lemma_second_assignment_halts(next, field, second, second_value, rest);
}

/// An assignment to a multi-valued field of the base section is stored behind the values
/// that the field holds, whether or not the value is among them.
pub proof fn lemma_multi_valued_field_appends(
    state: ParseState,
    field: BaseFieldName,
    line: Seq<char>,
    value: Seq<char>,
)
    requires
        state.section == SectionView::Base,
        !field.any().single_valued(),
        assigns(line, field.any(), value),
    ensures
        step(state, line) == Step::Next(
            ParseState {
                doc: SrcinfoView {
                    base: state.doc.base.insert(field, state.doc.base[field].push(value)),
                    derivatives: state.doc.derivatives,
                },
                section: SectionView::Base,
            },
        ),
{
    lemma_assigns(line, field.any(), value);
}

/// Two assignments to the same multi-valued field of the base section, one after the other:
/// the field holds what it held, then the first value, then the second; nothing is dropped
/// and nothing is overwritten.
pub proof fn lemma_multi_valued_field_set_twice(
    state: ParseState,
    field: BaseFieldName,
    first: Seq<char>,
    first_value: Seq<char>,
    second: Seq<char>,
    second_value: Seq<char>,
    rest: Seq<Seq<char>>,
)
    requires
        state.section == SectionView::Base,
        !field.any().single_valued(),
        assigns(first, field.any(), first_value),
        assigns(second, field.any(), second_value),
    ensures
        run(state, seq![first, second] + rest) == run(
            ParseState {
                doc: SrcinfoView {
                    base: state.doc.base.insert(
                        field,
                        state.doc.base[field] + seq![first_value, second_value],
                    ),
                    derivatives: state.doc.derivatives,
                },
                section: SectionView::Base,
            },
            rest,
        ),
{
    lemma_multi_valued_field_appends(state, field, first, first_value);
    let middle = step(state, first)->Next_0;
    lemma_multi_valued_field_appends(middle, field, second, second_value);
    let last = step(middle, second)->Next_0;
    assert(state.doc.base[field].push(first_value).push(second_value) =~= state.doc.base[field]
        + seq![first_value, second_value]);
    assert(last.doc.base =~= state.doc.base.insert(
        field,
        state.doc.base[field] + seq![first_value, second_value],
    ));
    assert(seq![first, second] + rest =~= seq![first] + (seq![second] + rest));
    lemma_run_first(state, first, seq![second] + rest);
    lemma_run_first(middle, second, rest);
}

/// An assignment to a field of a derivative section is stored behind the values that the
/// field holds in the section that is written, and in no other section.
pub proof fn lemma_derivative_field_appends(
    state: ParseState,
    name: Seq<char>,
    field: DerivativeFieldName,
    line: Seq<char>,
    value: Seq<char>,
)
    requires
        state.section == SectionView::Derivative(name),
        in_doc(state),
        assigns(line, field.any(), value),
    ensures
        ({
            let at = position(state.doc.derivatives, name).unwrap();
            let fields = state.doc.derivatives[at].1;
            step(state, line) == Step::Next(
                ParseState {
                    doc: SrcinfoView {
                        base: state.doc.base,
                        derivatives: state.doc.derivatives.update(
                            at,
                            (name, fields.insert(field, fields[field].push(value))),
                        ),
                    },
                    section: state.section,
                },
            )
        }),
{
    lemma_assigns(line, field.any(), value);
}

/// In a derivative section no assignment is refused: every field that such a section holds
/// is multi-valued, so the parse stops there on no line but one without `=`.
pub proof fn lemma_derivative_section_refuses_nothing(state: ParseState, line: Seq<char>)
    requires
        state.section is Derivative,
    ensures
        step(state, line) matches Step::Halt(error) ==> error
            == SrcinfoParseErrorView::InvalidLine(line),
{
}

/// A `pkgname` line moves the parse to the section of that package, in whatever section it
/// stands. A package that the document holds keeps its section and its place; a new one gets
/// an empty section behind the others. Nothing else changes.
pub proof fn lemma_header_enters_section(state: ParseState, line: Seq<char>, name: Seq<char>)
    requires
        in_doc(state),
        assigns(line, AnyFieldName::Name, name),
    ensures
        step(state, line) == Step::Next(
            ParseState { doc: enter(state.doc, name), section: SectionView::Derivative(name) },
        ),
{
    lemma_assigns(line, AnyFieldName::Name, name);
    if let SectionView::Derivative(current) = state.section {
        lemma_position(state.doc.derivatives, current);
        let at = position(state.doc.derivatives, current).unwrap();
        assert(state.doc.derivatives.update(at, (current, state.doc.derivatives[at].1))
            =~= state.doc.derivatives);
    }
}

/// A header that names a package a second time adds no section: the document is what it was,
/// and what is assigned from there on goes to the section that the first header made.
pub proof fn lemma_repeated_header_adds_nothing(doc: SrcinfoView, name: Seq<char>)
    ensures
        position(enter(doc, name).derivatives, name) is Some,
        enter(enter(doc, name), name) == enter(doc, name),
        position(doc.derivatives, name) is Some ==> enter(doc, name) == doc,
{
    lemma_position_push(doc.derivatives, name, empty_section::<DerivativeFieldName>(), name);
}

/// One line leaves the names of the sections as they are, or puts one name that was not
/// among them behind them; it does so only where it moves the parse to that name.
pub proof fn lemma_step_names(state: ParseState, line: Seq<char>)
    requires
        in_doc(state),
    ensures
        step(state, line) matches Step::Next(next) ==> {
            let before = names(state.doc.derivatives);
            let after = names(next.doc.derivatives);
            ||| after == before
            ||| next.section matches SectionView::Derivative(name) && !before.contains(name)
                && after == before.push(name)
        },
{
    if let Step::Next(next) = step(state, line) {
        let before = state.doc.derivatives;
        let written = match state.section {
            SectionView::Base => before,
            SectionView::Derivative(current) => {
                let at = position(before, current).unwrap();
                before.update(at, (current, next.doc.derivatives[at].1))
            },
        };
        if let SectionView::Derivative(current) = state.section {
            lemma_position(before, current);
        }
        assert(names(written) =~= names(before));
        if next.doc.derivatives.len() == before.len() {
            assert(names(next.doc.derivatives) =~= names(before));
        } else {
            let name = next.section->Derivative_0;
            lemma_position(before, name);
            assert(!names(before).contains(name)) by {
                if names(before).contains(name) {
                    let i = choose|i: int| 0 <= i < names(before).len() && names(before)[i] == name;
                    assert(before[i].0 == name);
                }
            }
            assert(names(next.doc.derivatives) =~= names(before).push(name));
        }
    }
}

/// One line adds no second section of a name.
pub proof fn lemma_step_keeps_names_distinct(state: ParseState, line: Seq<char>)
    requires
        in_doc(state),
        distinct_names(state.doc),
    ensures
        step(state, line) matches Step::Next(next) ==> distinct_names(next.doc),
{
    if let Step::Next(next) = step(state, line) {
        lemma_step_names(state, line);
        let before = names(state.doc.derivatives);
        let after = names(next.doc.derivatives);
        let sections = next.doc.derivatives;
        assert forall|i: int, j: int| 0 <= i < j < sections.len() implies sections[i].0
            != sections[j].0 by {
            assert(after.len() == next.doc.derivatives.len());
            assert(before.len() == state.doc.derivatives.len());
            assert(after[i] == next.doc.derivatives[i].0);
            assert(after[j] == next.doc.derivatives[j].0);
            if after == before {
                assert(before[i] == state.doc.derivatives[i].0);
                assert(before[j] == state.doc.derivatives[j].0);
            } else {
                let name = next.section->Derivative_0;
                assert(after == before.push(name));
                if j < before.len() {
                    assert(before[i] == state.doc.derivatives[i].0);
                    assert(before[j] == state.doc.derivatives[j].0);
                } else {
                    assert(before[i] == after[i]);
                    assert(before.contains(after[i]));
                }
            }
        }
    }
}

/// The parse ends with a document in which no two sections have the same name: whatever is
/// assigned under headers of one name is found in one section.
pub proof fn lemma_run_keeps_names_distinct(state: ParseState, lines: Seq<Seq<char>>)
    requires
        in_doc(state),
        distinct_names(state.doc),
    ensures
        distinct_names(run(state, lines).0),
    decreases lines.len(),
{
    if lines.len() > 0 {
        lemma_step_in_doc(state, lines.first());
        lemma_step_keeps_names_distinct(state, lines.first());
        if let Step::Next(next) = step(state, lines.first()) {
            lemma_run_keeps_names_distinct(next, lines.drop_first());
        }
    }
}

/// The document of every parse has at most one section of a name.
pub proof fn lemma_parse_names_distinct(text: Seq<char>)
    ensures
        distinct_names(parse_spec(text).0),
{
    lemma_run_keeps_names_distinct(initial(), non_blank_lines(text));
}

/// The non-empty value that `line` assigns to `field`, if it assigns one.
pub open spec fn assigned(line: Seq<char>, field: AnyFieldName) -> Option<Seq<char>> {
    match key_value(trim(line)) {
        Some((key, value)) => if key == field.literal() && value.len() > 0 {
            Some(value)
        } else {
            None
        },
        None => None,
    }
}

/// The package that `line` announces, if it is a `pkgname` line with a value.
pub open spec fn header_of(line: Seq<char>) -> Option<Seq<char>> {
    assigned(line, AnyFieldName::Name)
}

/// An assignment keeps the base section well-formed.
pub proof fn lemma_base_insert_wf(
    section: Map<BaseFieldName, Seq<Seq<char>>>,
    field: BaseFieldName,
    value: Seq<char>,
)
    requires
        base_section_wf(section),
    ensures
        insert_value(section, field.any().single_valued(), field, value) matches Ok(after)
            ==> base_section_wf(after),
{
    if let Ok(after) = insert_value(section, field.any().single_valued(), field, value) {
        assert forall|other: BaseFieldName|
            #![trigger after[other]]
            #![trigger after.dom().contains(other)]
            after.dom().contains(other) && (other.any().single_valued() ==> after[other].len()
                <= 1) by {
            let held = section[other];
            assert(section.dom().contains(other));
            if other != field {
                assert(after[other] == held);
            }
        }
    }
}

/// An assignment keeps a derivative section well-formed.
pub proof fn lemma_derivative_insert_wf(
    section: Map<DerivativeFieldName, Seq<Seq<char>>>,
    field: DerivativeFieldName,
    value: Seq<char>,
)
    requires
        derivative_section_wf(section),
    ensures
        insert_value(section, field.any().single_valued(), field, value) matches Ok(after)
            ==> derivative_section_wf(after),
{
    if let Ok(after) = insert_value(section, field.any().single_valued(), field, value) {
        assert forall|other: DerivativeFieldName|
            #![trigger after[other]]
            #![trigger after.dom().contains(other)]
            after.dom().contains(other) && (other.any().single_valued() ==> after[other].len()
                <= 1) by {
            let held = section[other];
            assert(section.dom().contains(other));
            if other != field {
                assert(after[other] == held);
            }
        }
    }
}

/// One line keeps the document well-formed.
pub proof fn lemma_step_wf(state: ParseState, line: Seq<char>)
    requires
        in_doc(state),
        doc_wf(state.doc),
    ensures
        step(state, line) matches Step::Next(next) ==> doc_wf(next.doc),
{
    if let Step::Next(next) = step(state, line) {
        let before = state.doc.derivatives;
        let (key, value) = key_value(trim(line)).unwrap();
        let field = AnyFieldName::of_literal(key);
        assert(derivative_section_wf(empty_section::<DerivativeFieldName>()));
        match state.section {
            SectionView::Base => {
                if field is Some && value.len() > 0 {
                    if let Some(own) = BaseFieldName::of_any(field.unwrap()) {
                        lemma_base_insert_wf(state.doc.base, own, value);
                    }
                }
                assert(base_section_wf(next.doc.base));
                assert forall|i: int|
                    0 <= i < next.doc.derivatives.len() implies derivative_section_wf(
                    #[trigger] next.doc.derivatives[i].1,
                ) by {
                    if i < before.len() {
                        assert(next.doc.derivatives[i] == before[i]);
                    }
                }
            },
            SectionView::Derivative(current) => {
                lemma_position(before, current);
                let at = position(before, current).unwrap();
                assert(derivative_section_wf(before[at].1));
                if field is Some && value.len() > 0 {
                    if let Some(own) = DerivativeFieldName::of_any(field.unwrap()) {
                        lemma_derivative_insert_wf(before[at].1, own, value);
                    }
                }
                assert forall|i: int|
                    0 <= i < next.doc.derivatives.len() implies derivative_section_wf(
                    #[trigger] next.doc.derivatives[i].1,
                ) by {
                    if i < before.len() && i != at {
                        assert(next.doc.derivatives[i] == before[i]);
                    }
                }
            },
        }
    }
}

/// The parse ends with a well-formed document: no single-valued field was overwritten or
/// given a second value.
pub proof fn lemma_run_wf(state: ParseState, lines: Seq<Seq<char>>)
    requires
        in_doc(state),
        doc_wf(state.doc),
    ensures
        doc_wf(run(state, lines).0),
    decreases lines.len(),
{
    if lines.len() > 0 {
        lemma_step_in_doc(state, lines.first());
        lemma_step_wf(state, lines.first());
        if let Step::Next(next) = step(state, lines.first()) {
            lemma_run_wf(next, lines.drop_first());
        }
    }
}

/// The document of every parse is well-formed.
pub proof fn lemma_parse_wf(text: Seq<char>)
    ensures
        doc_wf(parse_spec(text).0),
{
    lemma_run_wf(initial(), non_blank_lines(text));
}

/// Where one line leaves the parse: in the section of the package that the line announces,
/// else in the section in which it stood. The names of the sections stay, but for the name
/// of a package that is announced for the first time, which comes last.
pub proof fn lemma_step_section(state: ParseState, line: Seq<char>)
    requires
        in_doc(state),
    ensures
        step(state, line) matches Step::Next(next) ==> {
            let before = names(state.doc.derivatives);
            &&& next.section == match header_of(line) {
                Some(name) => SectionView::Derivative(name),
                None => state.section,
            }
            &&& names(next.doc.derivatives) == match header_of(line) {
                Some(name) => if before.contains(name) {
                    before
                } else {
                    before.push(name)
                },
                None => before,
            }
        },
{
    if let Step::Next(next) = step(state, line) {
        lemma_step_names(state, line);
        let (key, value) = key_value(trim(line)).unwrap();
        lemma_of_literal(key);
        lemma_of_literal(AnyFieldName::Name.literal());
        let before = state.doc.derivatives;
        if let SectionView::Derivative(current) = state.section {
            lemma_position(before, current);
        }
        assert(names(before).len() == before.len());
        assert(names(next.doc.derivatives).len() == next.doc.derivatives.len());
        match header_of(line) {
            Some(name) => {
                lemma_header_enters_section(state, line, name);
                lemma_position(before, name);
                if names(before).contains(name) {
                    let i = choose|i: int| 0 <= i < names(before).len() && names(before)[i] == name;
                    assert(before[i].0 == name);
                } else {
                    if let Some(at) = position(before, name) {
                        assert(names(before)[at] == name);
                    }
                }
            },
            None => {},
        }
    }
}

/// The names of `seen`, then the packages that the lines announce and that are not yet among
/// the names, each at the place of its first header.
pub open spec fn first_headers(seen: Seq<Seq<char>>, lines: Seq<Seq<char>>) -> Seq<Seq<char>>
    decreases lines.len(),
{
    if lines.len() == 0 {
        seen
    } else {
        match header_of(lines.first()) {
            Some(name) => if seen.contains(name) {
                first_headers(seen, lines.drop_first())
            } else {
                first_headers(seen.push(name), lines.drop_first())
            },
            None => first_headers(seen, lines.drop_first()),
        }
    }
}

/// A parse that reads its lines to the end has one section for each package that a header
/// announced, in the order in which the packages were first announced, behind the sections
/// that it started with.
pub proof fn lemma_sections_in_order_of_first_header(state: ParseState, lines: Seq<Seq<char>>)
    requires
        in_doc(state),
        run(state, lines).1 is None,
    ensures
        names(run(state, lines).0.derivatives) == first_headers(
            names(state.doc.derivatives),
            lines,
        ),
    decreases lines.len(),
{
    if lines.len() > 0 {
        lemma_step_in_doc(state, lines.first());
        lemma_step_section(state, lines.first());
        let next = step(state, lines.first())->Next_0;
        lemma_sections_in_order_of_first_header(next, lines.drop_first());
    }
}

/// The values that the lines before the first header assign to `field`, in the order of the
/// lines.
pub open spec fn base_values(lines: Seq<Seq<char>>, field: BaseFieldName) -> Seq<Seq<char>>
    decreases lines.len(),
{
    if lines.len() == 0 || header_of(lines.first()) is Some {
        Seq::empty()
    } else {
        match assigned(lines.first(), field.any()) {
            Some(value) => seq![value] + base_values(lines.drop_first(), field),
            None => base_values(lines.drop_first(), field),
        }
    }
}

/// Once a derivative section is written, the base section stays as it is: the cursor does not
/// go back.
pub proof fn lemma_base_is_closed(state: ParseState, lines: Seq<Seq<char>>)
    requires
        in_doc(state),
        state.section is Derivative,
    ensures
        run(state, lines).0.base == state.doc.base,
    decreases lines.len(),
{
    if lines.len() > 0 {
        lemma_step_in_doc(state, lines.first());
        lemma_step_section(state, lines.first());
        if let Step::Next(next) = step(state, lines.first()) {
            lemma_base_is_closed(next, lines.drop_first());
        }
    }
}

/// A parse that starts in the base section and reads its lines to the end leaves in each
/// field of the base section what the field held, then the values that the lines before the
/// first header assigned to it, in their order. A single-valued field is assigned at most
/// once there, so it holds its only value.
pub proof fn lemma_base_holds_assigned_values(
    state: ParseState,
    lines: Seq<Seq<char>>,
    field: BaseFieldName,
)
    requires
        state.section == SectionView::Base,
        doc_wf(state.doc),
        run(state, lines).1 is None,
    ensures
        run(state, lines).0.base[field] == state.doc.base[field] + base_values(lines, field),
        field.any().single_valued() ==> state.doc.base[field].len() + base_values(
            lines,
            field,
        ).len() <= 1,
    decreases lines.len(),
{
    lemma_run_wf(state, lines);
    if lines.len() == 0 {
        assert(state.doc.base[field] + Seq::<Seq<char>>::empty() =~= state.doc.base[field]);
    } else {
        let line = lines.first();
        let rest = lines.drop_first();
        let next = step(state, line)->Next_0;
        lemma_step_in_doc(state, line);
        lemma_step_wf(state, line);
        lemma_step_section(state, line);
        let (key, value) = key_value(trim(line)).unwrap();
        lemma_of_literal(key);
        lemma_literal_injective();
        if header_of(line) is Some {
            lemma_header_enters_section(state, line, header_of(line).unwrap());
            lemma_base_is_closed(next, rest);
            assert(state.doc.base[field] + Seq::<Seq<char>>::empty() =~= state.doc.base[field]);
        } else {
            lemma_base_holds_assigned_values(next, rest, field);
            match assigned(line, field.any()) {
                Some(stored) => {
                    assert(next.doc.base[field] == state.doc.base[field].push(stored));
                    assert(state.doc.base[field].push(stored) + base_values(rest, field)
                        =~= state.doc.base[field] + (seq![stored] + base_values(rest, field)));
                },
                None => {
                    assert(next.doc.base[field] == state.doc.base[field]);
                },
            }
        }
    }
}

/// Every line holds a `=`, and no single-valued field is assigned by two of the lines.
pub open spec fn well_formed(lines: Seq<Seq<char>>) -> bool {
    &&& forall|i: int| 0 <= i < lines.len() ==> key_value(trim(#[trigger] lines[i])) is Some
    &&& forall|i: int, j: int, field: AnyFieldName|
        0 <= i < j < lines.len() && field.single_valued() ==> !(#[trigger] assigned(
            lines[i],
            field,
        ) is Some && #[trigger] assigned(lines[j], field) is Some)
}

/// No line of `lines` assigns to a single-valued field that holds a value in the base section
/// of `doc`.
pub open spec fn fresh(doc: SrcinfoView, lines: Seq<Seq<char>>) -> bool {
    forall|i: int, field: BaseFieldName|
        0 <= i < lines.len() && field.any().single_valued() && #[trigger] assigned(
            lines[i],
            field.any(),
        ) is Some ==> doc.base[field].len() == 0
}

/// Well-formed lines are read to the end: the parse does not stop on them.
pub proof fn lemma_well_formed_lines_complete(state: ParseState, lines: Seq<Seq<char>>)
    requires
        in_doc(state),
        doc_wf(state.doc),
        well_formed(lines),
        state.section is Base ==> fresh(state.doc, lines),
    ensures
        run(state, lines).1 is None,
    decreases lines.len(),
{
    if lines.len() > 0 {
        let line = lines.first();
        let rest = lines.drop_first();
        assert(key_value(trim(lines[0])) is Some);
        let (key, value) = key_value(trim(line)).unwrap();
        lemma_of_literal(key);
        lemma_literal_injective();
        lemma_step_in_doc(state, line);
        lemma_step_wf(state, line);
        lemma_step_section(state, line);
        if let SectionView::Derivative(name) = state.section {
            lemma_position(state.doc.derivatives, name);
        }
        if let Some(field) = AnyFieldName::of_literal(key) {
            if value.len() > 0 && state.section is Base {
                if let Some(own) = BaseFieldName::of_any(field) {
                    if field.single_valued() {
                        assert(assigned(lines[0], own.any()) is Some);
                    }
                }
            }
        }
        assert(step(state, line) is Next);
        let next = step(state, line)->Next_0;
        assert(well_formed(rest)) by {
            assert forall|i: int| 0 <= i < rest.len() implies key_value(trim(#[trigger] rest[i]))
                is Some by {
                assert(rest[i] == lines[i + 1]);
            }
            assert forall|i: int, j: int, field: AnyFieldName|
                0 <= i < j < rest.len() && field.single_valued() implies !(#[trigger] assigned(
                rest[i],
                field,
            ) is Some && #[trigger] assigned(rest[j], field) is Some) by {
                assert(rest[i] == lines[i + 1]);
                assert(rest[j] == lines[j + 1]);
            }
        }
        if next.section is Base {
            assert forall|i: int, field: BaseFieldName|
                0 <= i < rest.len() && field.any().single_valued() && #[trigger] assigned(
                    rest[i],
                    field.any(),
                ) is Some implies next.doc.base[field].len() == 0 by {
                assert(rest[i] == lines[i + 1]);
                assert(assigned(lines[i + 1], field.any()) is Some);
                if assigned(lines[0], field.any()) is Some {
                    assert(!(assigned(lines[0], field.any()) is Some && assigned(
                        lines[i + 1],
                        field.any(),
                    ) is Some));
                }
                assert(state.doc.base[field].len() == 0);
            }
        }
        lemma_well_formed_lines_complete(next, rest);
    }
}

/// A text whose lines are well-formed parses to the end: the result carries no error, its
/// base section holds for each field the values assigned before the first header, and its
/// derivative sections stand in the order in which their packages were first announced.
pub proof fn lemma_well_formed_text_parses(text: Seq<char>, field: BaseFieldName)
    requires
        well_formed(non_blank_lines(text)),
    ensures
        parse_spec(text).1 is None,
        parse_spec(text).0.base[field] == base_values(non_blank_lines(text), field),
        names(parse_spec(text).0.derivatives) == first_headers(
            Seq::empty(),
            non_blank_lines(text),
        ),
{
    let lines = non_blank_lines(text);
    lemma_well_formed_lines_complete(initial(), lines);
    lemma_base_holds_assigned_values(initial(), lines, field);
    lemma_sections_in_order_of_first_header(initial(), lines);
    assert(names(initial().doc.derivatives) =~= Seq::<Seq<char>>::empty());
    assert(Seq::<Seq<char>>::empty() + base_values(lines, field) =~= base_values(lines, field));
}

/// The values that `doc` holds in `field` of the section called `name`; none where it has no
/// such section.
pub open spec fn stored(doc: SrcinfoView, name: Seq<char>, field: DerivativeFieldName) -> Seq<
    Seq<char>,
> {
    match position(doc.derivatives, name) {
        Some(at) => doc.derivatives[at].1[field],
        None => Seq::empty(),
    }
}

/// The value that `line` adds to `field` of the section called `name` when the parse stands
/// in `section`: the value that it assigns, if `section` is that section and the line is no
/// header.
pub open spec fn added(
    section: SectionView,
    line: Seq<char>,
    name: Seq<char>,
    field: DerivativeFieldName,
) -> Seq<Seq<char>> {
    if section == SectionView::Derivative(name) && header_of(line) is None {
        match assigned(line, field.any()) {
            Some(value) => seq![value],
            None => Seq::empty(),
        }
    } else {
        Seq::empty()
    }
}

/// The values that the lines assign to `field` under headers of `name`, in the order of the
/// lines, when the first of them is read in `section`.
pub open spec fn derivative_values(
    section: SectionView,
    lines: Seq<Seq<char>>,
    name: Seq<char>,
    field: DerivativeFieldName,
) -> Seq<Seq<char>>
    decreases lines.len(),
{
    if lines.len() == 0 {
        Seq::empty()
    } else {
        let after = match header_of(lines.first()) {
            Some(announced) => SectionView::Derivative(announced),
            None => section,
        };
        added(section, lines.first(), name, field) + derivative_values(
            after,
            lines.drop_first(),
            name,
            field,
        )
    }
}

/// One line adds to a field of a derivative section the value that it assigns there, behind
/// what the field holds, and leaves every other field of every section as it is.
pub proof fn lemma_step_stores(
    state: ParseState,
    line: Seq<char>,
    name: Seq<char>,
    field: DerivativeFieldName,
)
    requires
        in_doc(state),
        doc_wf(state.doc),
    ensures
        step(state, line) matches Step::Next(next) ==> stored(next.doc, name, field) == stored(
            state.doc,
            name,
            field,
        ) + added(state.section, line, name, field),
{
    if let Step::Next(next) = step(state, line) {
        let before = state.doc.derivatives;
        let (key, value) = key_value(trim(line)).unwrap();
        lemma_of_literal(key);
        lemma_literal_injective();
        lemma_position(before, name);
        assert(stored(state.doc, name, field) + Seq::<Seq<char>>::empty() =~= stored(
            state.doc,
            name,
            field,
        ));
        match header_of(line) {
            Some(announced) => {
                lemma_header_enters_section(state, line, announced);
                lemma_position_push(
                    before,
                    announced,
                    empty_section::<DerivativeFieldName>(),
                    name,
                );
            },
            None => {
                if let SectionView::Derivative(current) = state.section {
                    lemma_position(before, current);
                    let at = position(before, current).unwrap();
                    lemma_position_update(before, at, next.doc.derivatives[at].1, name);
                    assert(derivative_section_wf(before[at].1));
                    if current == name {
                        match assigned(line, field.any()) {
                            Some(kept) => {
                                assert(before[at].1[field].push(kept) =~= before[at].1[field]
                                    + seq![kept]);
                            },
                            None => {
                                assert(next.doc.derivatives[at].1[field] == before[at].1[field]);
                            },
                        }
                    }
                } else {
                    assert(next.doc.derivatives == before);
                }
            },
        }
    }
}

/// A parse that reads its lines to the end leaves in each field of each derivative section
/// what the field held, then the values that the lines assigned to it under the headers of
/// that section's package, in their order. What stands under a second header of a package is
/// found in the same section as what stands under the first.
pub proof fn lemma_derivative_holds_assigned_values(
    state: ParseState,
    lines: Seq<Seq<char>>,
    name: Seq<char>,
    field: DerivativeFieldName,
)
    requires
        in_doc(state),
        doc_wf(state.doc),
        run(state, lines).1 is None,
    ensures
        stored(run(state, lines).0, name, field) == stored(state.doc, name, field)
            + derivative_values(state.section, lines, name, field),
    decreases lines.len(),
{
    if lines.len() == 0 {
        assert(stored(state.doc, name, field) + Seq::<Seq<char>>::empty() =~= stored(
            state.doc,
            name,
            field,
        ));
    } else {
        let line = lines.first();
        let rest = lines.drop_first();
        let next = step(state, line)->Next_0;
        lemma_step_in_doc(state, line);
        lemma_step_wf(state, line);
        lemma_step_section(state, line);
        lemma_step_stores(state, line, name, field);
        lemma_derivative_holds_assigned_values(next, rest, name, field);
        assert((stored(state.doc, name, field) + added(state.section, line, name, field))
            + derivative_values(next.section, rest, name, field) =~= stored(
            state.doc,
            name,
            field,
        ) + (added(state.section, line, name, field) + derivative_values(
            next.section,
            rest,
            name,
            field,
        )));
    }
}

/// `value` is not empty and stands in `text`.
pub open spec fn kept(value: Seq<char>, text: Seq<char>) -> bool {
    value.len() > 0 && is_part(value, text)
}

/// Every value that `doc` stores, and the name of every section, is a non-empty part of
/// `text`.
pub open spec fn taken_from(doc: SrcinfoView, text: Seq<char>) -> bool {
    &&& forall|field: BaseFieldName, i: int|
        0 <= i < doc.base[field].len() ==> kept(#[trigger] doc.base[field][i], text)
    &&& forall|at: int|
        0 <= at < doc.derivatives.len() ==> kept((#[trigger] doc.derivatives[at]).0, text)
    &&& forall|at: int, field: DerivativeFieldName, i: int|
        0 <= at < doc.derivatives.len() && 0 <= i < doc.derivatives[at].1[field].len() ==> kept(
            #[trigger] doc.derivatives[at].1[field][i],
            text,
        )
}

/// The texts that `error` carries stand in `text`.
pub open spec fn error_taken_from(error: SrcinfoParseErrorView, text: Seq<char>) -> bool {
    match error {
        SrcinfoParseErrorView::BaseFieldAlreadySet(refused) => kept(refused.previous, text)
            && kept(refused.attempted, text),
        SrcinfoParseErrorView::DerivativeFieldAlreadySet(name, refused) => kept(name, text)
            && kept(refused.previous, text) && kept(refused.attempted, text),
        SrcinfoParseErrorView::InvalidLine(line) => is_part(line, text),
    }
}

/// One line of a text stores nothing but non-empty parts of the text, and stops the parse
/// with nothing but parts of the text in the error.
pub proof fn lemma_step_takes_from_text(state: ParseState, line: Seq<char>, text: Seq<char>)
    requires
        in_doc(state),
        doc_wf(state.doc),
        taken_from(state.doc, text),
        is_part(line, text),
    ensures
        match step(state, line) {
            Step::Next(next) => taken_from(next.doc, text),
            Step::Halt(error) => error_taken_from(error, text),
        },
{
    let before = state.doc.derivatives;
    lemma_key_value_is_part(trim(line));
    lemma_trim_is_part(line);
    if let SectionView::Derivative(current) = state.section {
        lemma_position(before, current);
    }
    if let Some((key, value)) = key_value(trim(line)) {
        lemma_part_of_part(value, trim(line), line);
        lemma_part_of_part(value, line, text);
        lemma_of_literal(key);
    }
    match step(state, line) {
        Step::Next(next) => {
            let (key, value) = key_value(trim(line)).unwrap();
            assert forall|field: BaseFieldName, i: int|
                0 <= i < next.doc.base[field].len() implies kept(
                #[trigger] next.doc.base[field][i],
                text,
            ) by {
                let held = state.doc.base[field];
                assert(state.doc.base.dom().contains(field));
                if i < held.len() {
                    assert(next.doc.base[field][i] == held[i]);
                } else {
                    assert(next.doc.base[field][i] == value);
                }
            }
            assert forall|at: int| 0 <= at < next.doc.derivatives.len() implies kept(
                (#[trigger] next.doc.derivatives[at]).0,
                text,
            ) by {
                if at < before.len() {
                    assert(next.doc.derivatives[at].0 == before[at].0);
                } else {
                    assert(next.doc.derivatives[at].0 == value);
                }
            }
            assert forall|at: int, field: DerivativeFieldName, i: int|
                0 <= at < next.doc.derivatives.len() && 0 <= i
                    < next.doc.derivatives[at].1[field].len() implies kept(
                #[trigger] next.doc.derivatives[at].1[field][i],
                text,
            ) by {
                if at < before.len() {
                    let held = before[at].1[field];
                    assert(derivative_section_wf(before[at].1));
                    assert(before[at].1.dom().contains(field));
                    if i < held.len() {
                        assert(next.doc.derivatives[at].1[field][i] == held[i]);
                    } else {
                        assert(next.doc.derivatives[at].1[field][i] == value);
                    }
                }
            }
        },
        Step::Halt(error) => {
            match error {
                SrcinfoParseErrorView::BaseFieldAlreadySet(refused) => {
                    assert(refused.previous == state.doc.base[refused.field][0]);
                },
                SrcinfoParseErrorView::DerivativeFieldAlreadySet(name, refused) => {
                    let at = position(before, name).unwrap();
                    assert(kept(before[at].0, text));
                    assert(refused.previous == before[at].1[refused.field][0]);
                },
                SrcinfoParseErrorView::InvalidLine(_) => {},
            }
        },
    }
}

/// A parse over lines of a text ends with a document and an error that hold nothing but parts
/// of the text.
pub proof fn lemma_run_takes_from_text(state: ParseState, lines: Seq<Seq<char>>, text: Seq<char>)
    requires
        in_doc(state),
        doc_wf(state.doc),
        taken_from(state.doc, text),
        forall|i: int| 0 <= i < lines.len() ==> is_part(#[trigger] lines[i], text),
    ensures
        taken_from(run(state, lines).0, text),
        run(state, lines).1 matches Some(error) ==> error_taken_from(error, text),
    decreases lines.len(),
{
    if lines.len() > 0 {
        let rest = lines.drop_first();
        assert(is_part(lines[0], text));
        lemma_step_in_doc(state, lines.first());
        lemma_step_wf(state, lines.first());
        lemma_step_takes_from_text(state, lines.first(), text);
        if let Step::Next(next) = step(state, lines.first()) {
            assert forall|i: int| 0 <= i < rest.len() implies is_part(#[trigger] rest[i], text) by {
                assert(rest[i] == lines[i + 1]);
            }
            lemma_run_takes_from_text(next, rest, text);
        }
    }
}

/// Whatever a parse stores or reports stands in the text that was parsed: every value, every
/// package name and every text of the error is a part of the input, and no stored value is
/// empty.
pub proof fn lemma_parse_takes_from_text(text: Seq<char>)
    ensures
        taken_from(parse_spec(text).0, text),
        parse_spec(text).1 matches Some(error) ==> error_taken_from(error, text),
{
    lemma_lines_are_parts(text);
    let doc = initial().doc;
    assert(base_section_wf(doc.base));
    lemma_run_takes_from_text(initial(), non_blank_lines(text), text);
}

} // verus!
