use srcinfo_parser::field::ParsedField;
use srcinfo_parser::field_name::AnyFieldName;
use srcinfo_parser::field_name::BaseFieldName;
use srcinfo_parser::field_name::DerivativeFieldName;
use srcinfo_parser::srcinfo::ParsedSrcinfo;
use srcinfo_parser::srcinfo::Section;
use srcinfo_parser::srcinfo::SrcinfoParseError;
use srcinfo_parser::value::Name;

const SAMPLE: &str = "\
pkgbase = demo
\tpkgdesc = A demonstration
\tpkgver = 1.2.3
\tpkgrel = 4
\tepoch = 1
\turl = https://example.org
\tarch = x86_64
\tarch = aarch64
\tlicense = MIT
\tdepends = glibc
\tdepends = zlib>=1.2
\tsource = demo-1.2.3.tar.gz
\tsha256sums = abcdef
\tvalidpgpkeys = AAAA
\tvalidpgpkeys = BBBB

pkgname = demo
\tpkgdesc = The program

pkgname = demo-doc
\tpkgdesc = The manual
\tarch = any
\tdepends = demo
";

#[test]
fn complete_document() {
    let result = ParsedSrcinfo::parse(SAMPLE);
    assert!(result.error.is_none());
    assert!(result.is_complete());
    let doc = &result.parsed;
    assert_eq!(doc.base.values(BaseFieldName::Version), &vec!["1.2.3"]);
    assert_eq!(doc.base.values(BaseFieldName::Release), &vec!["4"]);
    assert_eq!(doc.base.values(BaseFieldName::Epoch), &vec!["1"]);
    assert_eq!(doc.base.values(BaseFieldName::Description), &vec!["A demonstration"]);
    assert_eq!(doc.base.values(BaseFieldName::Url), &vec!["https://example.org"]);
    assert_eq!(doc.base.values(BaseFieldName::Architecture), &vec!["x86_64", "aarch64"]);
    assert_eq!(doc.base.values(BaseFieldName::License), &vec!["MIT"]);
    assert_eq!(doc.base.values(BaseFieldName::Dependencies), &vec!["glibc", "zlib>=1.2"]);
    assert_eq!(doc.base.values(BaseFieldName::Source), &vec!["demo-1.2.3.tar.gz"]);
    assert_eq!(doc.base.values(BaseFieldName::Sha256Checksums), &vec!["abcdef"]);
    assert_eq!(doc.base.values(BaseFieldName::ValidPgpKeys), &vec!["AAAA", "BBBB"]);
    assert!(doc.base.values(BaseFieldName::Groups).is_empty());
    assert_eq!(doc.base.query_raw_text(BaseFieldName::Version), Some("1.2.3"));
    assert_eq!(doc.base.query_raw_text(BaseFieldName::Groups), None);
}

#[test]
fn derivative_sections_keep_the_order_of_their_headers() {
    let result = ParsedSrcinfo::parse(SAMPLE);
    let doc = &result.parsed;
    assert_eq!(doc.derivative_count(), 2);
    let (first, first_fields) = doc.derivative_at(0).unwrap();
    let (second, second_fields) = doc.derivative_at(1).unwrap();
    assert_eq!(first.as_str(), "demo");
    assert_eq!(second.as_str(), "demo-doc");
    assert!(doc.derivative_at(2).is_none());
    assert_eq!(first_fields.values(DerivativeFieldName::Description), &vec!["The program"]);
    assert_eq!(second_fields.values(DerivativeFieldName::Description), &vec!["The manual"]);
    assert_eq!(second_fields.values(DerivativeFieldName::Architecture), &vec!["any"]);
    assert_eq!(second_fields.values(DerivativeFieldName::Dependencies), &vec!["demo"]);
    let names: Vec<&str> = doc.derivatives.keys().copied().collect();
    assert_eq!(names, vec!["demo", "demo-doc"]);
}

#[test]
fn derivative_is_found_by_name() {
    let result = ParsedSrcinfo::parse(SAMPLE);
    let doc = &result.parsed;
    let manual = doc.derivative("demo-doc").unwrap();
    assert_eq!(manual.query_raw_text(DerivativeFieldName::Description), Some("The manual"));
    assert_eq!(manual.query_raw_text(DerivativeFieldName::Url), None);
    assert!(doc.derivative("missing").is_none());
}

#[test]
fn raw_text_is_the_first_value_of_a_field() {
    let result = ParsedSrcinfo::parse(SAMPLE);
    let doc = &result.parsed;
    let arch = ParsedField::new(AnyFieldName::Architecture);
    let version = ParsedField::new(AnyFieldName::Version);
    let header = ParsedField::new(AnyFieldName::Name);
    let groups = ParsedField::new(AnyFieldName::Groups);
    assert_eq!(doc.query_raw_text(Section::Base, arch), Some("x86_64"));
    assert_eq!(doc.query_raw_text(Section::Base, version), Some("1.2.3"));
    assert_eq!(doc.query_raw_text(Section::Base, header), None);
    assert_eq!(doc.query_raw_text(Section::Base, groups), None);
    let manual = Section::Derivative(Name("demo-doc"));
    assert_eq!(doc.query_raw_text(manual, arch), Some("any"));
    assert_eq!(doc.query_raw_text(manual, version), None);
    assert_eq!(doc.query_raw_text(manual, groups), None);
    assert_eq!(doc.query_raw_text(Section::Derivative(Name("missing")), arch), None);
}

#[test]
fn empty_text_is_an_empty_document() {
    let result = ParsedSrcinfo::parse("");
    assert!(result.error.is_none());
    assert_eq!(result.parsed.derivative_count(), 0);
    assert!(result.parsed.base.values(BaseFieldName::Version).is_empty());
    let blank = ParsedSrcinfo::parse("\n  \n\t\n\r\n");
    assert!(blank.error.is_none());
    assert_eq!(blank.parsed.derivative_count(), 0);
}

#[test]
fn second_version_stops_the_parse() {
    let text = "pkgdesc = first\npkgver = 1.0\narch = any\npkgver = 2.0\narch = x86_64\n";
    let result = ParsedSrcinfo::parse(text);
    match result.error {
        Some(SrcinfoParseError::BaseFieldAlreadySet(error)) => {
            assert_eq!(error.field, BaseFieldName::Version);
            assert_eq!(error.previous, "1.0");
            assert_eq!(error.attempted, "2.0");
        }
        other => panic!("unexpected outcome: {:?}", other),
    }
    assert!(!result.is_complete());
    let doc = &result.parsed;
    assert_eq!(doc.base.values(BaseFieldName::Version), &vec!["1.0"]);
    assert_eq!(doc.base.values(BaseFieldName::Description), &vec!["first"]);
    assert_eq!(doc.base.values(BaseFieldName::Architecture), &vec!["any"]);
}

#[test]
fn second_release_and_second_epoch_stop_the_parse() {
    let release = ParsedSrcinfo::parse("pkgrel = 1\npkgrel = 2\n");
    match release.error {
        Some(SrcinfoParseError::BaseFieldAlreadySet(error)) => {
            assert_eq!(error.field, BaseFieldName::Release);
            assert_eq!((error.previous, error.attempted), ("1", "2"));
        }
        other => panic!("unexpected outcome: {:?}", other),
    }
    let epoch = ParsedSrcinfo::parse("epoch = 1\nepoch = 1\n");
    match epoch.error {
        Some(SrcinfoParseError::BaseFieldAlreadySet(error)) => {
            assert_eq!(error.field, BaseFieldName::Epoch);
            assert_eq!((error.previous, error.attempted), ("1", "1"));
        }
        other => panic!("unexpected outcome: {:?}", other),
    }
}

#[test]
fn unknown_key_leaves_no_trace() {
    let with = ParsedSrcinfo::parse("pkgver = 1\nfrobnicate = yes\npkgrel = 2\n");
    let without = ParsedSrcinfo::parse("pkgver = 1\npkgrel = 2\n");
    assert!(with.error.is_none());
    assert_eq!(with.parsed.base.values(BaseFieldName::Version), &vec!["1"]);
    assert_eq!(with.parsed.base.values(BaseFieldName::Release), &vec!["2"]);
    for field in all_base_fields() {
        assert_eq!(with.parsed.base.values(field), without.parsed.base.values(field));
    }
    assert_eq!(with.parsed.derivative_count(), 0);
}

#[test]
fn keys_are_case_sensitive_and_whole() {
    let result = ParsedSrcinfo::parse("PKGVER = 1\npkgver_x86_64 = 2\nsource_x86_64 = a\n");
    assert!(result.error.is_none());
    assert!(result.parsed.base.values(BaseFieldName::Version).is_empty());
    assert!(result.parsed.base.values(BaseFieldName::Source).is_empty());
}

#[test]
fn empty_value_leaves_no_trace() {
    let result = ParsedSrcinfo::parse("pkgver =\npkgver = 1\npkgname =\npkgdesc =   \n");
    assert!(result.error.is_none());
    assert_eq!(result.parsed.base.values(BaseFieldName::Version), &vec!["1"]);
    assert!(result.parsed.base.values(BaseFieldName::Description).is_empty());
    assert_eq!(result.parsed.derivative_count(), 0);
}

#[test]
fn line_without_delimiter_stops_the_parse() {
    let text = "pkgver = 1\n\n   this line is wrong  \npkgrel = 2\n";
    let result = ParsedSrcinfo::parse(text);
    match result.error {
        Some(SrcinfoParseError::InvalidLine(line)) => assert_eq!(line, "   this line is wrong  "),
        other => panic!("unexpected outcome: {:?}", other),
    }
    assert_eq!(result.parsed.base.values(BaseFieldName::Version), &vec!["1"]);
    assert!(result.parsed.base.values(BaseFieldName::Release).is_empty());
}

#[test]
fn invalid_line_is_reported_as_it_stands_in_the_text() {
    let result = ParsedSrcinfo::parse("pkgver = 1\r\n\tno delimiter \r\npkgrel = 2\r\n");
    match result.error {
        Some(SrcinfoParseError::InvalidLine(line)) => assert_eq!(line, "\tno delimiter "),
        other => panic!("unexpected outcome: {:?}", other),
    }
    let result = ParsedSrcinfo::parse("last line without end");
    match result.error {
        Some(SrcinfoParseError::InvalidLine(line)) => assert_eq!(line, "last line without end"),
        other => panic!("unexpected outcome: {:?}", other),
    }
}

#[test]
fn line_without_delimiter_in_a_derivative_section_keeps_the_sections() {
    let text = "pkgver = 1\npkgname = a\narch = any\nbroken\npkgname = b\n";
    let result = ParsedSrcinfo::parse(text);
    match result.error {
        Some(SrcinfoParseError::InvalidLine(line)) => assert_eq!(line, "broken"),
        other => panic!("unexpected outcome: {:?}", other),
    }
    assert_eq!(result.parsed.derivative_count(), 1);
    let section = result.parsed.derivative("a").unwrap();
    assert_eq!(section.values(DerivativeFieldName::Architecture), &vec!["any"]);
}

#[test]
fn multi_valued_field_keeps_every_value_in_order() {
    let text = "depends = b\ndepends = a\ndepends = b\n";
    let result = ParsedSrcinfo::parse(text);
    assert!(result.error.is_none());
    assert_eq!(result.parsed.base.values(BaseFieldName::Dependencies), &vec!["b", "a", "b"]);
}

#[test]
fn shared_fields_are_multi_valued_in_a_derivative_section() {
    let text = "pkgname = a\npkgdesc = one\npkgdesc = two\nurl = x\nurl = y\n";
    let result = ParsedSrcinfo::parse(text);
    assert!(result.error.is_none());
    let section = result.parsed.derivative("a").unwrap();
    assert_eq!(section.values(DerivativeFieldName::Description), &vec!["one", "two"]);
    assert_eq!(section.values(DerivativeFieldName::Url), &vec!["x", "y"]);
}

#[test]
fn repeated_header_writes_to_the_same_section() {
    let text = "pkgname = a\ndepends = x\npkgname = b\ndepends = y\npkgname = a\ndepends = z\n";
    let result = ParsedSrcinfo::parse(text);
    assert!(result.error.is_none());
    let doc = &result.parsed;
    assert_eq!(doc.derivative_count(), 2);
    assert_eq!(doc.derivative_at(0).unwrap().0.as_str(), "a");
    assert_eq!(doc.derivative_at(1).unwrap().0.as_str(), "b");
    assert_eq!(
        doc.derivative("a").unwrap().values(DerivativeFieldName::Dependencies),
        &vec!["x", "z"]
    );
    assert_eq!(doc.derivative("b").unwrap().values(DerivativeFieldName::Dependencies), &vec!["y"]);
}

#[test]
fn base_only_fields_are_passed_over_in_a_derivative_section() {
    let text = "pkgver = 1\npkgname = a\npkgver = 2\npkgbase = other\nepoch = 3\narch = any\n";
    let result = ParsedSrcinfo::parse(text);
    assert!(result.error.is_none());
    assert_eq!(result.parsed.base.values(BaseFieldName::Version), &vec!["1"]);
    assert!(result.parsed.base.values(BaseFieldName::Epoch).is_empty());
    let section = result.parsed.derivative("a").unwrap();
    assert_eq!(section.values(DerivativeFieldName::Architecture), &vec!["any"]);
}

#[test]
fn the_cursor_never_returns_to_the_base_section() {
    let text = "pkgname = a\npkgbase = demo\narch = any\n";
    let result = ParsedSrcinfo::parse(text);
    assert!(result.error.is_none());
    assert!(result.parsed.base.values(BaseFieldName::Architecture).is_empty());
    let section = result.parsed.derivative("a").unwrap();
    assert_eq!(section.values(DerivativeFieldName::Architecture), &vec!["any"]);
}

#[test]
fn value_may_hold_the_delimiter() {
    let result = ParsedSrcinfo::parse("source = name::https://host/path?a=b\n");
    assert!(result.error.is_none());
    assert_eq!(
        result.parsed.base.values(BaseFieldName::Source),
        &vec!["name::https://host/path?a=b"]
    );
}

#[test]
fn stored_values_are_slices_of_the_input() {
    let text = String::from("pkgver = 1.0\npkgname = pkg\narch = any\n");
    let result = ParsedSrcinfo::parse(&text);
    let start = text.as_ptr() as usize;
    let end = start + text.len();
    let version = result.parsed.base.values(BaseFieldName::Version)[0];
    let at = version.as_ptr() as usize;
    assert!(start <= at && at + version.len() <= end);
    let (name, section) = result.parsed.derivative_at(0).unwrap();
    let at = name.as_str().as_ptr() as usize;
    assert!(start <= at && at + name.as_str().len() <= end);
    let arch = section.values(DerivativeFieldName::Architecture)[0];
    let at = arch.as_ptr() as usize;
    assert!(start <= at && at + arch.len() <= end);
}

#[test]
fn parsing_twice_gives_the_same_document() {
    let first = ParsedSrcinfo::parse(SAMPLE);
    let second = ParsedSrcinfo::parse(SAMPLE);
    assert_eq!(first.error.is_none(), second.error.is_none());
    for field in all_base_fields() {
        assert_eq!(first.parsed.base.values(field), second.parsed.base.values(field));
    }
    assert_eq!(first.parsed.derivative_count(), second.parsed.derivative_count());
    for index in 0..first.parsed.derivative_count() {
        let (left_name, left) = first.parsed.derivative_at(index).unwrap();
        let (right_name, right) = second.parsed.derivative_at(index).unwrap();
        assert_eq!(left_name.as_str(), right_name.as_str());
        for field in all_derivative_fields() {
            assert_eq!(left.values(field), right.values(field));
        }
    }
    let failed = "pkgver = 1\npkgver = 2\n";
    let first = ParsedSrcinfo::parse(failed);
    let second = ParsedSrcinfo::parse(failed);
    assert_eq!(format!("{:?}", first.error), format!("{:?}", second.error));
    assert_eq!(format!("{:?}", first.parsed), format!("{:?}", second.parsed));
}

#[test]
fn complete_and_partial_results_convert() {
    let complete = ParsedSrcinfo::parse("pkgver = 1\n");
    assert!(complete.try_into_complete().is_ok());
    let partial = ParsedSrcinfo::parse("pkgver = 1\nnonsense\n");
    match partial.try_into_complete() {
        Err(SrcinfoParseError::InvalidLine(line)) => assert_eq!(line, "nonsense"),
        other => panic!("unexpected outcome: {:?}", other.map(|_| ())),
    }
    let partial = ParsedSrcinfo::parse("pkgver = 1\nnonsense\n");
    assert_eq!(partial.into_partial().base.values(BaseFieldName::Version), &vec!["1"]);
}

fn all_base_fields() -> Vec<BaseFieldName> {
    let mut fields = vec![
        BaseFieldName::Epoch,
        BaseFieldName::Release,
        BaseFieldName::ValidPgpKeys,
        BaseFieldName::Version,
    ];
    for field in all_derivative_fields() {
        fields.push(field.into_base());
    }
    fields
}

fn all_derivative_fields() -> Vec<DerivativeFieldName> {
    vec![
        DerivativeFieldName::Architecture,
        DerivativeFieldName::Backup,
        DerivativeFieldName::ChangeLog,
        DerivativeFieldName::Description,
        DerivativeFieldName::Groups,
        DerivativeFieldName::Install,
        DerivativeFieldName::License,
        DerivativeFieldName::NoExtract,
        DerivativeFieldName::Options,
        DerivativeFieldName::Source,
        DerivativeFieldName::Url,
        DerivativeFieldName::Dependencies,
        DerivativeFieldName::CheckDependencies,
        DerivativeFieldName::MakeDependencies,
        DerivativeFieldName::OptionalDependencies,
        DerivativeFieldName::Provides,
        DerivativeFieldName::Conflicts,
        DerivativeFieldName::Replaces,
        DerivativeFieldName::Md5Checksums,
        DerivativeFieldName::Sha1Checksums,
        DerivativeFieldName::Sha224Checksums,
        DerivativeFieldName::Sha256Checksums,
        DerivativeFieldName::Sha384Checksums,
        DerivativeFieldName::Sha512Checksums,
    ]
}
