use srcinfo_parser::field::ParsedField;
use srcinfo_parser::field_name::AnyFieldName;
use srcinfo_parser::field_name::BaseFieldName;
use srcinfo_parser::field_name::DerivativeFieldName;
use srcinfo_parser::partial::PartialParseResult;
use srcinfo_parser::section::ParsedSrcinfoBaseSection;
use srcinfo_parser::section::ParsedSrcinfoDerivativeSection;
use srcinfo_parser::srcinfo::AddFailure;
use srcinfo_parser::srcinfo::ParsedSrcinfo;
use srcinfo_parser::srcinfo::ParsedSrcinfoDerivativeSectionEntry;
use srcinfo_parser::srcinfo::ParsedSrcinfoSectionMut;
use srcinfo_parser::srcinfo::Section;
use srcinfo_parser::srcinfo::SrcinfoParseError;
use srcinfo_parser::value::Name;

fn field(name: AnyFieldName) -> ParsedField<'static> {
    ParsedField::new(name)
}

#[test]
fn new_sections_hold_nothing() {
    let base = ParsedSrcinfoBaseSection::default();
    assert!(base.values(BaseFieldName::Version).is_empty());
    assert!(base.values(BaseFieldName::Sha512Checksums).is_empty());
    assert_eq!(base.query_raw_text(BaseFieldName::Epoch), None);
    let derivative = ParsedSrcinfoDerivativeSection::default();
    assert!(derivative.values(DerivativeFieldName::Architecture).is_empty());
    assert!(derivative.values(DerivativeFieldName::Sha512Checksums).is_empty());
    let doc = ParsedSrcinfo::default();
    assert_eq!(doc.derivative_count(), 0);
    assert!(doc.derivative_at(0).is_none());
    assert!(doc.derivative("any").is_none());
}

#[test]
fn insert_refuses_a_second_value_of_a_single_valued_field() {
    let mut base = ParsedSrcinfoBaseSection::default();
    assert!(base.insert(BaseFieldName::Version, "1").is_ok());
    let refused = base.insert(BaseFieldName::Version, "2").unwrap_err();
    assert_eq!(refused.field, BaseFieldName::Version);
    assert_eq!(refused.previous, "1");
    assert_eq!(refused.attempted, "2");
    assert_eq!(base.values(BaseFieldName::Version), &vec!["1"]);
    assert!(base.values(BaseFieldName::Release).is_empty());
}

#[test]
fn insert_appends_to_a_multi_valued_field() {
    let mut base = ParsedSrcinfoBaseSection::default();
    assert!(base.insert(BaseFieldName::ValidPgpKeys, "A").is_ok());
    assert!(base.insert(BaseFieldName::ValidPgpKeys, "A").is_ok());
    assert!(base.insert(BaseFieldName::Source, "s").is_ok());
    assert_eq!(base.values(BaseFieldName::ValidPgpKeys), &vec!["A", "A"]);
    assert_eq!(base.values(BaseFieldName::Source), &vec!["s"]);
    assert_eq!(base.query_raw_text(BaseFieldName::ValidPgpKeys), Some("A"));
    let mut derivative = ParsedSrcinfoDerivativeSection::default();
    assert!(derivative.insert(DerivativeFieldName::Description, "one").is_ok());
    assert!(derivative.insert(DerivativeFieldName::Description, "two").is_ok());
    assert_eq!(derivative.values(DerivativeFieldName::Description), &vec!["one", "two"]);
    assert!(derivative.values(DerivativeFieldName::Url).is_empty());
}

#[test]
fn shrinking_keeps_the_values() {
    let mut base = ParsedSrcinfoBaseSection::default();
    for value in ["a", "b", "c"] {
        assert!(base.insert(BaseFieldName::Dependencies, value).is_ok());
    }
    base.shrink_to_fit();
    assert_eq!(base.values(BaseFieldName::Dependencies), &vec!["a", "b", "c"]);
    assert_eq!(base.values(BaseFieldName::Dependencies).capacity(), 3);
    let mut derivative = ParsedSrcinfoDerivativeSection::default();
    assert!(derivative.insert(DerivativeFieldName::Provides, "p").is_ok());
    derivative.shrink_to_fit();
    assert_eq!(derivative.values(DerivativeFieldName::Provides), &vec!["p"]);
    assert_eq!(derivative.values(DerivativeFieldName::Provides).capacity(), 1);
}

#[test]
fn base_section_add_stores_signals_and_passes_over() {
    let mut base = ParsedSrcinfoBaseSection::default();
    assert!(base.add(field(AnyFieldName::Version), "1").is_ok());
    assert!(base.add(field(AnyFieldName::Base), "demo").is_ok());
    match base.add(field(AnyFieldName::Name), "demo") {
        Err(AddFailure::MeetHeader(name)) => assert_eq!(name.as_str(), "demo"),
        other => panic!("unexpected outcome: {:?}", other),
    }
    match base.add(field(AnyFieldName::Version), "2") {
        Err(AddFailure::Error(SrcinfoParseError::BaseFieldAlreadySet(error))) => {
            assert_eq!((error.previous, error.attempted), ("1", "2"));
        }
        other => panic!("unexpected outcome: {:?}", other),
    }
    assert_eq!(base.values(BaseFieldName::Version), &vec!["1"]);
}

#[test]
fn cursor_on_the_base_section_writes_to_it() {
    let mut doc = ParsedSrcinfo::default();
    {
        let mut cursor = doc.get_or_insert(Section::Base);
        assert!(matches!(cursor, ParsedSrcinfoSectionMut::Base(_)));
        assert!(cursor.add(field(AnyFieldName::Architecture), "any").is_ok());
        assert!(cursor.add(field(AnyFieldName::Architecture), "x86_64").is_ok());
        cursor.shrink_to_fit();
    }
    assert_eq!(doc.base.values(BaseFieldName::Architecture), &vec!["any", "x86_64"]);
    assert_eq!(doc.derivative_count(), 0);
}

#[test]
fn cursor_on_a_derivative_section_creates_it_once() {
    let mut doc = ParsedSrcinfo::default();
    {
        let mut cursor = doc.get_or_insert(Section::Derivative(Name("a")));
        assert!(cursor.add(field(AnyFieldName::Dependencies), "x").is_ok());
    }
    {
        let mut cursor = doc.get_or_insert(Section::Derivative(Name("b")));
        assert!(cursor.add(field(AnyFieldName::Dependencies), "y").is_ok());
    }
    {
        let mut cursor = doc.get_or_insert(Section::Derivative(Name("a")));
        assert!(cursor.add(field(AnyFieldName::Dependencies), "z").is_ok());
        assert!(cursor.add(field(AnyFieldName::Version), "ignored").is_ok());
        assert!(cursor.add(field(AnyFieldName::Base), "ignored").is_ok());
        match cursor.add(field(AnyFieldName::Name), "c") {
            Err(AddFailure::MeetHeader(name)) => assert_eq!(name.as_str(), "c"),
            other => panic!("unexpected outcome: {:?}", other),
        }
        cursor.shrink_to_fit();
    }
    assert_eq!(doc.derivative_count(), 2);
    assert_eq!(doc.derivative_at(0).unwrap().0.as_str(), "a");
    assert_eq!(doc.derivative_at(1).unwrap().0.as_str(), "b");
    assert_eq!(
        doc.derivative("a").unwrap().values(DerivativeFieldName::Dependencies),
        &vec!["x", "z"]
    );
    assert_eq!(doc.derivative("b").unwrap().values(DerivativeFieldName::Dependencies), &vec!["y"]);
    assert!(doc.derivative("c").is_none());
    assert!(doc.base.values(BaseFieldName::Version).is_empty());
}

#[test]
fn entry_writes_to_the_section_it_was_made_for() {
    let mut section = ParsedSrcinfoDerivativeSection::default();
    {
        let mut entry = ParsedSrcinfoDerivativeSectionEntry::new(Name("pkg"), &mut section);
        assert_eq!(entry.name.as_str(), "pkg");
        assert!(entry.add(field(AnyFieldName::License), "MIT").is_ok());
        assert!(entry.add(field(AnyFieldName::License), "MIT").is_ok());
        assert!(entry.add(field(AnyFieldName::Epoch), "1").is_ok());
        entry.shrink_to_fit();
    }
    assert_eq!(section.values(DerivativeFieldName::License), &vec!["MIT", "MIT"]);
}

#[test]
fn partial_result_is_complete_without_an_error() {
    let complete: PartialParseResult<u8, &str> = PartialParseResult::new_complete(7);
    assert!(complete.is_complete());
    assert_eq!(complete.parsed, 7);
    assert_eq!(complete.error, None);
    assert_eq!(complete.try_into_complete(), Ok(7));
    assert_eq!(complete.into_partial(), 7);
    let partial: PartialParseResult<u8, &str> = PartialParseResult::new_partial(7, "stopped");
    assert!(!partial.is_complete());
    assert_eq!(partial.parsed, 7);
    assert_eq!(partial.error, Some("stopped"));
    assert_eq!(partial.try_into_complete(), Err("stopped"));
    assert_eq!(partial.into_partial(), 7);
}
