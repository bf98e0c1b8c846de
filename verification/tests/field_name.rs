use srcinfo_parser::field::ParsedField;
use srcinfo_parser::field_name::AnyFieldName;
use srcinfo_parser::field_name::BaseFieldName;
use srcinfo_parser::field_name::DerivativeFieldName;
use srcinfo_parser::field_name::FieldName;
use srcinfo_parser::field_name::HeaderFieldName;

const LITERALS: [(AnyFieldName, &str); 30] = [
    (AnyFieldName::Base, "pkgbase"),
    (AnyFieldName::Name, "pkgname"),
    (AnyFieldName::Epoch, "epoch"),
    (AnyFieldName::Release, "pkgrel"),
    (AnyFieldName::ValidPgpKeys, "validpgpkeys"),
    (AnyFieldName::Version, "pkgver"),
    (AnyFieldName::Architecture, "arch"),
    (AnyFieldName::Backup, "backup"),
    (AnyFieldName::ChangeLog, "changelog"),
    (AnyFieldName::Description, "pkgdesc"),
    (AnyFieldName::Groups, "groups"),
    (AnyFieldName::Install, "install"),
    (AnyFieldName::License, "license"),
    (AnyFieldName::NoExtract, "noextract"),
    (AnyFieldName::Options, "options"),
    (AnyFieldName::Source, "source"),
    (AnyFieldName::Url, "url"),
    (AnyFieldName::Dependencies, "depends"),
    (AnyFieldName::CheckDependencies, "checkdepends"),
    (AnyFieldName::MakeDependencies, "makedepends"),
    (AnyFieldName::OptionalDependencies, "optdepends"),
    (AnyFieldName::Provides, "provides"),
    (AnyFieldName::Conflicts, "conflicts"),
    (AnyFieldName::Replaces, "replaces"),
    (AnyFieldName::Md5Checksums, "md5sums"),
    (AnyFieldName::Sha1Checksums, "sha1sums"),
    (AnyFieldName::Sha224Checksums, "sha224sums"),
    (AnyFieldName::Sha256Checksums, "sha256sums"),
    (AnyFieldName::Sha384Checksums, "sha384sums"),
    (AnyFieldName::Sha512Checksums, "sha512sums"),
];

#[test]
fn every_name_has_its_literal() {
    for (name, literal) in LITERALS {
        assert_eq!(name.as_str(), literal);
        assert_eq!(AnyFieldName::parse(literal), Some(name));
        assert_eq!(<AnyFieldName as FieldName>::parse(literal), Some(name));
        assert_eq!(FieldName::as_str(name), literal);
    }
}

#[test]
fn literals_are_pairwise_distinct() {
    for (i, (_, left)) in LITERALS.iter().enumerate() {
        for (j, (_, right)) in LITERALS.iter().enumerate() {
            assert_eq!(i == j, left == right);
        }
    }
}

#[test]
fn unknown_keys_are_not_names() {
    let keys = ["", "pkg", "pkgver ", " pkgver", "PKGVER", "Pkgver", "pkgver_x86_64", "frobnicate"];
    for key in keys {
        assert_eq!(AnyFieldName::parse(key), None, "{:?}", key);
        assert!(ParsedField::parse(key).is_none(), "{:?}", key);
    }
}

#[test]
fn headers_and_base_names_partition_the_vocabulary() {
    for (name, _) in LITERALS {
        let header = HeaderFieldName::from_any(name);
        let base = BaseFieldName::from_any(name);
        assert_ne!(header.is_ok(), base.is_ok(), "{:?}", name);
    }
    assert_eq!(HeaderFieldName::from_any(AnyFieldName::Base), Ok(HeaderFieldName::Base));
    assert_eq!(HeaderFieldName::from_any(AnyFieldName::Name), Ok(HeaderFieldName::Name));
    assert_eq!(HeaderFieldName::from_any(AnyFieldName::Version), Err(AnyFieldName::Version));
    assert_eq!(BaseFieldName::from_any(AnyFieldName::Name), Err(AnyFieldName::Name));
}

#[test]
fn shared_names_are_the_base_names_without_the_base_only_ones() {
    let base_only = [
        AnyFieldName::Epoch,
        AnyFieldName::Release,
        AnyFieldName::ValidPgpKeys,
        AnyFieldName::Version,
    ];
    for (name, _) in LITERALS {
        let base = BaseFieldName::from_any(name).is_ok();
        let shared = DerivativeFieldName::from_any(name).is_ok();
        assert_eq!(shared, base && !base_only.contains(&name), "{:?}", name);
    }
}

#[test]
fn narrowing_gives_back_what_does_not_fit() {
    assert_eq!(DerivativeFieldName::from_any(AnyFieldName::Version), Err(AnyFieldName::Version));
    assert_eq!(DerivativeFieldName::from_any(AnyFieldName::Base), Err(AnyFieldName::Base));
    assert_eq!(DerivativeFieldName::from_base(BaseFieldName::Epoch), Err(BaseFieldName::Epoch));
    assert_eq!(
        DerivativeFieldName::from_base(BaseFieldName::Source),
        Ok(DerivativeFieldName::Source)
    );
    assert_eq!(DerivativeFieldName::try_from(AnyFieldName::Release), Err(AnyFieldName::Release));
    assert_eq!(BaseFieldName::try_from(AnyFieldName::Release), Ok(BaseFieldName::Release));
    assert_eq!(HeaderFieldName::try_from(AnyFieldName::Release), Err(AnyFieldName::Release));
    assert_eq!(
        DerivativeFieldName::try_from(BaseFieldName::ValidPgpKeys),
        Err(BaseFieldName::ValidPgpKeys)
    );
}

#[test]
fn widening_then_narrowing_gives_the_name_back() {
    for (name, literal) in LITERALS {
        if let Ok(header) = HeaderFieldName::from_any(name) {
            assert_eq!(header.into_any(), name);
            assert_eq!(AnyFieldName::from(header), name);
            assert_eq!(header.as_str(), literal);
            assert_eq!(HeaderFieldName::parse(literal), Some(header));
            assert_eq!(Option::<HeaderFieldName>::from(name), Some(header));
        } else {
            assert_eq!(HeaderFieldName::parse(literal), None);
            assert_eq!(Option::<HeaderFieldName>::from(name), None);
        }
        if let Ok(base) = BaseFieldName::from_any(name) {
            assert_eq!(base.into_any(), name);
            assert_eq!(AnyFieldName::from(base), name);
            assert_eq!(base.as_str(), literal);
            assert_eq!(BaseFieldName::parse(literal), Some(base));
            assert_eq!(Option::<BaseFieldName>::from(name), Some(base));
        } else {
            assert_eq!(BaseFieldName::parse(literal), None);
            assert_eq!(Option::<BaseFieldName>::from(name), None);
        }
        if let Ok(shared) = DerivativeFieldName::from_any(name) {
            assert_eq!(shared.into_any(), name);
            assert_eq!(AnyFieldName::from(shared), name);
            assert_eq!(shared.into_base().into_any(), name);
            assert_eq!(BaseFieldName::from(shared), shared.into_base());
            assert_eq!(DerivativeFieldName::from_base(shared.into_base()), Ok(shared));
            assert_eq!(Option::<DerivativeFieldName>::from(shared.into_base()), Some(shared));
            assert_eq!(shared.as_str(), literal);
            assert_eq!(DerivativeFieldName::parse(literal), Some(shared));
        } else {
            assert_eq!(DerivativeFieldName::parse(literal), None);
            assert_eq!(Option::<DerivativeFieldName>::from(name), None);
        }
        assert_eq!(AnyFieldName::from_any(name), Ok(name));
        assert_eq!(name.into_any(), name);
    }
}

#[test]
fn version_release_and_epoch_are_single_valued() {
    for (name, _) in LITERALS {
        let expected = matches!(
            name,
            AnyFieldName::Version | AnyFieldName::Release | AnyFieldName::Epoch
        );
        assert_eq!(name.is_single_valued(), expected, "{:?}", name);
    }
}

#[test]
fn slots_are_dense_and_distinct() {
    let mut base = Vec::new();
    let mut shared = Vec::new();
    for (name, _) in LITERALS {
        if let Ok(field) = BaseFieldName::from_any(name) {
            base.push(field.index());
        }
        if let Ok(field) = DerivativeFieldName::from_any(name) {
            shared.push(field.index());
        }
    }
    base.sort();
    shared.sort();
    assert_eq!(base, (0..28).collect::<Vec<usize>>());
    assert_eq!(shared, (0..24).collect::<Vec<usize>>());
}

#[test]
fn parsed_field_keeps_the_key() {
    let text = String::from("pkgver");
    let field = ParsedField::parse(&text).unwrap();
    assert_eq!(field.name(), AnyFieldName::Version);
    assert_eq!(field.raw(), "pkgver");
    assert_eq!(field.raw().as_ptr(), text.as_ptr());
    let made = ParsedField::new(AnyFieldName::Source);
    assert_eq!(made.name(), AnyFieldName::Source);
    assert_eq!(made.raw(), "source");
}
