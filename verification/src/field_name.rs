//! The closed vocabulary of field names.
//!
//! Four enums share one table of literals. [`AnyFieldName`] holds every name;
//! [`HeaderFieldName`], [`BaseFieldName`] and [`DerivativeFieldName`] are subsets of it.
//! Going up to [`AnyFieldName`] is total and loses nothing; going down succeeds exactly
//! on the members of the subset and otherwise hands the input back.
use crate::sealed::Sealed;
use crate::text::str_eq;
use vstd::prelude::*;
use vstd::std_specs::convert::FromSpecImpl;
use vstd::std_specs::convert::TryFromSpecImpl;

verus! {

/// Any field name of the vocabulary: a header, a base-only or a shared one.
#[derive(Debug, Clone, Copy, PartialEq, Eq, Hash, Structural)]
pub enum AnyFieldName {
    /// `pkgbase`
    Base,
    /// `pkgname`
    Name,
    /// `epoch`
    Epoch,
    /// `pkgrel`
    Release,
    /// `validpgpkeys`
    ValidPgpKeys,
    /// `pkgver`
    Version,
    /// `arch`
    Architecture,
    /// `backup`
    Backup,
    /// `changelog`
    ChangeLog,
    /// `pkgdesc`
    Description,
    /// `groups`
    Groups,
    /// `install`
    Install,
    /// `license`
    License,
    /// `noextract`
    NoExtract,
    /// `options`
    Options,
    /// `source`
    Source,
    /// `url`
    Url,
    /// `depends`
    Dependencies,
    /// `checkdepends`
    CheckDependencies,
    /// `makedepends`
    MakeDependencies,
    /// `optdepends`
    OptionalDependencies,
    /// `provides`
    Provides,
    /// `conflicts`
    Conflicts,
    /// `replaces`
    Replaces,
    /// `md5sums`
    Md5Checksums,
    /// `sha1sums`
    Sha1Checksums,
    /// `sha224sums`
    Sha224Checksums,
    /// `sha256sums`
    Sha256Checksums,
    /// `sha384sums`
    Sha384Checksums,
    /// `sha512sums`
    Sha512Checksums,
}

/// A header field name: it names or switches a section and stores nothing.
#[derive(Debug, Clone, Copy, PartialEq, Eq, Hash, Structural)]
pub enum HeaderFieldName {
    /// `pkgbase`
    Base,
    /// `pkgname`
    Name,
}

/// A field name that the base section stores: base-only or shared.
#[derive(Debug, Clone, Copy, PartialEq, Eq, Hash, Structural)]
pub enum BaseFieldName {
    /// `epoch`
    Epoch,
    /// `pkgrel`
    Release,
    /// `validpgpkeys`
    ValidPgpKeys,
    /// `pkgver`
    Version,
    /// `arch`
    Architecture,
    /// `backup`
    Backup,
    /// `changelog`
    ChangeLog,
    /// `pkgdesc`
    Description,
    /// `groups`
    Groups,
    /// `install`
    Install,
    /// `license`
    License,
    /// `noextract`
    NoExtract,
    /// `options`
    Options,
    /// `source`
    Source,
    /// `url`
    Url,
    /// `depends`
    Dependencies,
    /// `checkdepends`
    CheckDependencies,
    /// `makedepends`
    MakeDependencies,
    /// `optdepends`
    OptionalDependencies,
    /// `provides`
    Provides,
    /// `conflicts`
    Conflicts,
    /// `replaces`
    Replaces,
    /// `md5sums`
    Md5Checksums,
    /// `sha1sums`
    Sha1Checksums,
    /// `sha224sums`
    Sha224Checksums,
    /// `sha256sums`
    Sha256Checksums,
    /// `sha384sums`
    Sha384Checksums,
    /// `sha512sums`
    Sha512Checksums,
}

/// A field name that a derivative section stores: the shared ones.
#[derive(Debug, Clone, Copy, PartialEq, Eq, Hash, Structural)]
pub enum DerivativeFieldName {
    /// `arch`
    Architecture,
    /// `backup`
    Backup,
    /// `changelog`
    ChangeLog,
    /// `pkgdesc`
    Description,
    /// `groups`
    Groups,
    /// `install`
    Install,
    /// `license`
    License,
    /// `noextract`
    NoExtract,
    /// `options`
    Options,
    /// `source`
    Source,
    /// `url`
    Url,
    /// `depends`
    Dependencies,
    /// `checkdepends`
    CheckDependencies,
    /// `makedepends`
    MakeDependencies,
    /// `optdepends`
    OptionalDependencies,
    /// `provides`
    Provides,
    /// `conflicts`
    Conflicts,
    /// `replaces`
    Replaces,
    /// `md5sums`
    Md5Checksums,
    /// `sha1sums`
    Sha1Checksums,
    /// `sha224sums`
    Sha224Checksums,
    /// `sha256sums`
    Sha256Checksums,
    /// `sha384sums`
    Sha384Checksums,
    /// `sha512sums`
    Sha512Checksums,
}

impl AnyFieldName {
    /// The literal that stands for this name in the text.
    pub open spec fn literal(self) -> Seq<char> {
        match self {
            AnyFieldName::Base => "pkgbase"@,
            AnyFieldName::Name => "pkgname"@,
            AnyFieldName::Epoch => "epoch"@,
            AnyFieldName::Release => "pkgrel"@,
            AnyFieldName::ValidPgpKeys => "validpgpkeys"@,
            AnyFieldName::Version => "pkgver"@,
            AnyFieldName::Architecture => "arch"@,
            AnyFieldName::Backup => "backup"@,
            AnyFieldName::ChangeLog => "changelog"@,
            AnyFieldName::Description => "pkgdesc"@,
            AnyFieldName::Groups => "groups"@,
            AnyFieldName::Install => "install"@,
            AnyFieldName::License => "license"@,
            AnyFieldName::NoExtract => "noextract"@,
            AnyFieldName::Options => "options"@,
            AnyFieldName::Source => "source"@,
            AnyFieldName::Url => "url"@,
            AnyFieldName::Dependencies => "depends"@,
            AnyFieldName::CheckDependencies => "checkdepends"@,
            AnyFieldName::MakeDependencies => "makedepends"@,
            AnyFieldName::OptionalDependencies => "optdepends"@,
            AnyFieldName::Provides => "provides"@,
            AnyFieldName::Conflicts => "conflicts"@,
            AnyFieldName::Replaces => "replaces"@,
            AnyFieldName::Md5Checksums => "md5sums"@,
            AnyFieldName::Sha1Checksums => "sha1sums"@,
            AnyFieldName::Sha224Checksums => "sha224sums"@,
            AnyFieldName::Sha256Checksums => "sha256sums"@,
            AnyFieldName::Sha384Checksums => "sha384sums"@,
            AnyFieldName::Sha512Checksums => "sha512sums"@,
        }
    }

    /// Whether a section keeps at most one value of this field.
    pub open spec fn single_valued(self) -> bool {
        matches!(self, AnyFieldName::Epoch | AnyFieldName::Release | AnyFieldName::Version)
    }

    /// The name that `key` is the literal of, if it is one. Keys are compared as a whole and
    /// case-sensitively.
    pub open spec fn of_literal(key: Seq<char>) -> Option<AnyFieldName> {
        if key == "pkgbase"@ {
            Some(AnyFieldName::Base)
        } else if key == "pkgname"@ {
            Some(AnyFieldName::Name)
        } else if key == "epoch"@ {
            Some(AnyFieldName::Epoch)
        } else if key == "pkgrel"@ {
            Some(AnyFieldName::Release)
        } else if key == "validpgpkeys"@ {
            Some(AnyFieldName::ValidPgpKeys)
        } else if key == "pkgver"@ {
            Some(AnyFieldName::Version)
        } else if key == "arch"@ {
            Some(AnyFieldName::Architecture)
        } else if key == "backup"@ {
            Some(AnyFieldName::Backup)
        } else if key == "changelog"@ {
            Some(AnyFieldName::ChangeLog)
        } else if key == "pkgdesc"@ {
            Some(AnyFieldName::Description)
        } else if key == "groups"@ {
            Some(AnyFieldName::Groups)
        } else if key == "install"@ {
            Some(AnyFieldName::Install)
        } else if key == "license"@ {
            Some(AnyFieldName::License)
        } else if key == "noextract"@ {
            Some(AnyFieldName::NoExtract)
        } else if key == "options"@ {
            Some(AnyFieldName::Options)
        } else if key == "source"@ {
            Some(AnyFieldName::Source)
        } else if key == "url"@ {
            Some(AnyFieldName::Url)
        } else if key == "depends"@ {
            Some(AnyFieldName::Dependencies)
        } else if key == "checkdepends"@ {
            Some(AnyFieldName::CheckDependencies)
        } else if key == "makedepends"@ {
            Some(AnyFieldName::MakeDependencies)
        } else if key == "optdepends"@ {
            Some(AnyFieldName::OptionalDependencies)
        } else if key == "provides"@ {
            Some(AnyFieldName::Provides)
        } else if key == "conflicts"@ {
            Some(AnyFieldName::Conflicts)
        } else if key == "replaces"@ {
            Some(AnyFieldName::Replaces)
        } else if key == "md5sums"@ {
            Some(AnyFieldName::Md5Checksums)
        } else if key == "sha1sums"@ {
            Some(AnyFieldName::Sha1Checksums)
        } else if key == "sha224sums"@ {
            Some(AnyFieldName::Sha224Checksums)
        } else if key == "sha256sums"@ {
            Some(AnyFieldName::Sha256Checksums)
        } else if key == "sha384sums"@ {
            Some(AnyFieldName::Sha384Checksums)
        } else if key == "sha512sums"@ {
            Some(AnyFieldName::Sha512Checksums)
        } else {
            None
        }
    }

    /// The literal of this name.
    pub fn as_str(self) -> (r: &'static str)
        ensures
            r@ == self.literal(),
    {
        match self {
            AnyFieldName::Base => "pkgbase",
            AnyFieldName::Name => "pkgname",
            AnyFieldName::Epoch => "epoch",
            AnyFieldName::Release => "pkgrel",
            AnyFieldName::ValidPgpKeys => "validpgpkeys",
            AnyFieldName::Version => "pkgver",
            AnyFieldName::Architecture => "arch",
            AnyFieldName::Backup => "backup",
            AnyFieldName::ChangeLog => "changelog",
            AnyFieldName::Description => "pkgdesc",
            AnyFieldName::Groups => "groups",
            AnyFieldName::Install => "install",
            AnyFieldName::License => "license",
            AnyFieldName::NoExtract => "noextract",
            AnyFieldName::Options => "options",
            AnyFieldName::Source => "source",
            AnyFieldName::Url => "url",
            AnyFieldName::Dependencies => "depends",
            AnyFieldName::CheckDependencies => "checkdepends",
            AnyFieldName::MakeDependencies => "makedepends",
            AnyFieldName::OptionalDependencies => "optdepends",
            AnyFieldName::Provides => "provides",
            AnyFieldName::Conflicts => "conflicts",
            AnyFieldName::Replaces => "replaces",
            AnyFieldName::Md5Checksums => "md5sums",
            AnyFieldName::Sha1Checksums => "sha1sums",
            AnyFieldName::Sha224Checksums => "sha224sums",
            AnyFieldName::Sha256Checksums => "sha256sums",
            AnyFieldName::Sha384Checksums => "sha384sums",
            AnyFieldName::Sha512Checksums => "sha512sums",
        }
    }

    /// Resolves a key against the table of literals, case-sensitively and as a whole.
    pub fn parse(key: &str) -> (r: Option<AnyFieldName>)
        ensures
            r == AnyFieldName::of_literal(key@),
    {
        if str_eq(key, "pkgbase") {
            Some(AnyFieldName::Base)
        } else if str_eq(key, "pkgname") {
            Some(AnyFieldName::Name)
        } else if str_eq(key, "epoch") {
            Some(AnyFieldName::Epoch)
        } else if str_eq(key, "pkgrel") {
            Some(AnyFieldName::Release)
        } else if str_eq(key, "validpgpkeys") {
            Some(AnyFieldName::ValidPgpKeys)
        } else if str_eq(key, "pkgver") {
            Some(AnyFieldName::Version)
        } else if str_eq(key, "arch") {
            Some(AnyFieldName::Architecture)
        } else if str_eq(key, "backup") {
            Some(AnyFieldName::Backup)
        } else if str_eq(key, "changelog") {
            Some(AnyFieldName::ChangeLog)
        } else if str_eq(key, "pkgdesc") {
            Some(AnyFieldName::Description)
        } else if str_eq(key, "groups") {
            Some(AnyFieldName::Groups)
        } else if str_eq(key, "install") {
            Some(AnyFieldName::Install)
        } else if str_eq(key, "license") {
            Some(AnyFieldName::License)
        } else if str_eq(key, "noextract") {
            Some(AnyFieldName::NoExtract)
        } else if str_eq(key, "options") {
            Some(AnyFieldName::Options)
        } else if str_eq(key, "source") {
            Some(AnyFieldName::Source)
        } else if str_eq(key, "url") {
            Some(AnyFieldName::Url)
        } else if str_eq(key, "depends") {
            Some(AnyFieldName::Dependencies)
        } else if str_eq(key, "checkdepends") {
            Some(AnyFieldName::CheckDependencies)
        } else if str_eq(key, "makedepends") {
            Some(AnyFieldName::MakeDependencies)
        } else if str_eq(key, "optdepends") {
            Some(AnyFieldName::OptionalDependencies)
        } else if str_eq(key, "provides") {
            Some(AnyFieldName::Provides)
        } else if str_eq(key, "conflicts") {
            Some(AnyFieldName::Conflicts)
        } else if str_eq(key, "replaces") {
            Some(AnyFieldName::Replaces)
        } else if str_eq(key, "md5sums") {
            Some(AnyFieldName::Md5Checksums)
        } else if str_eq(key, "sha1sums") {
            Some(AnyFieldName::Sha1Checksums)
        } else if str_eq(key, "sha224sums") {
            Some(AnyFieldName::Sha224Checksums)
        } else if str_eq(key, "sha256sums") {
            Some(AnyFieldName::Sha256Checksums)
        } else if str_eq(key, "sha384sums") {
            Some(AnyFieldName::Sha384Checksums)
        } else if str_eq(key, "sha512sums") {
            Some(AnyFieldName::Sha512Checksums)
        } else {
            None
        }
    }

    /// Whether a section keeps at most one value of this field.
    pub fn is_single_valued(self) -> (r: bool)
        ensures
            r == self.single_valued(),
    {
        match self {
            AnyFieldName::Epoch | AnyFieldName::Release | AnyFieldName::Version => true,
            _ => false,
        }
    }
}

impl HeaderFieldName {
    /// This name as a member of [`AnyFieldName`].
    pub open spec fn any(self) -> AnyFieldName {
        match self {
            HeaderFieldName::Base => AnyFieldName::Base,
            HeaderFieldName::Name => AnyFieldName::Name,
        }
    }

    /// The member of this subset that `name` is, if it is one.
    pub open spec fn of_any(name: AnyFieldName) -> Option<HeaderFieldName> {
        match name {
            AnyFieldName::Base => Some(HeaderFieldName::Base),
            AnyFieldName::Name => Some(HeaderFieldName::Name),
            _ => None,
        }
    }
}

impl BaseFieldName {
    /// This name as a member of [`AnyFieldName`].
    pub open spec fn any(self) -> AnyFieldName {
        match self {
            BaseFieldName::Epoch => AnyFieldName::Epoch,
            BaseFieldName::Release => AnyFieldName::Release,
            BaseFieldName::ValidPgpKeys => AnyFieldName::ValidPgpKeys,
            BaseFieldName::Version => AnyFieldName::Version,
            BaseFieldName::Architecture => AnyFieldName::Architecture,
            BaseFieldName::Backup => AnyFieldName::Backup,
            BaseFieldName::ChangeLog => AnyFieldName::ChangeLog,
            BaseFieldName::Description => AnyFieldName::Description,
            BaseFieldName::Groups => AnyFieldName::Groups,
            BaseFieldName::Install => AnyFieldName::Install,
            BaseFieldName::License => AnyFieldName::License,
            BaseFieldName::NoExtract => AnyFieldName::NoExtract,
            BaseFieldName::Options => AnyFieldName::Options,
            BaseFieldName::Source => AnyFieldName::Source,
            BaseFieldName::Url => AnyFieldName::Url,
            BaseFieldName::Dependencies => AnyFieldName::Dependencies,
            BaseFieldName::CheckDependencies => AnyFieldName::CheckDependencies,
            BaseFieldName::MakeDependencies => AnyFieldName::MakeDependencies,
            BaseFieldName::OptionalDependencies => AnyFieldName::OptionalDependencies,
            BaseFieldName::Provides => AnyFieldName::Provides,
            BaseFieldName::Conflicts => AnyFieldName::Conflicts,
            BaseFieldName::Replaces => AnyFieldName::Replaces,
            BaseFieldName::Md5Checksums => AnyFieldName::Md5Checksums,
            BaseFieldName::Sha1Checksums => AnyFieldName::Sha1Checksums,
            BaseFieldName::Sha224Checksums => AnyFieldName::Sha224Checksums,
            BaseFieldName::Sha256Checksums => AnyFieldName::Sha256Checksums,
            BaseFieldName::Sha384Checksums => AnyFieldName::Sha384Checksums,
            BaseFieldName::Sha512Checksums => AnyFieldName::Sha512Checksums,
        }
    }

    /// The member of this subset that `name` is, if it is one.
    pub open spec fn of_any(name: AnyFieldName) -> Option<BaseFieldName> {
        match name {
            AnyFieldName::Epoch => Some(BaseFieldName::Epoch),
            AnyFieldName::Release => Some(BaseFieldName::Release),
            AnyFieldName::ValidPgpKeys => Some(BaseFieldName::ValidPgpKeys),
            AnyFieldName::Version => Some(BaseFieldName::Version),
            AnyFieldName::Architecture => Some(BaseFieldName::Architecture),
            AnyFieldName::Backup => Some(BaseFieldName::Backup),
            AnyFieldName::ChangeLog => Some(BaseFieldName::ChangeLog),
            AnyFieldName::Description => Some(BaseFieldName::Description),
            AnyFieldName::Groups => Some(BaseFieldName::Groups),
            AnyFieldName::Install => Some(BaseFieldName::Install),
            AnyFieldName::License => Some(BaseFieldName::License),
            AnyFieldName::NoExtract => Some(BaseFieldName::NoExtract),
            AnyFieldName::Options => Some(BaseFieldName::Options),
            AnyFieldName::Source => Some(BaseFieldName::Source),
            AnyFieldName::Url => Some(BaseFieldName::Url),
            AnyFieldName::Dependencies => Some(BaseFieldName::Dependencies),
            AnyFieldName::CheckDependencies => Some(BaseFieldName::CheckDependencies),
            AnyFieldName::MakeDependencies => Some(BaseFieldName::MakeDependencies),
            AnyFieldName::OptionalDependencies => Some(BaseFieldName::OptionalDependencies),
            AnyFieldName::Provides => Some(BaseFieldName::Provides),
            AnyFieldName::Conflicts => Some(BaseFieldName::Conflicts),
            AnyFieldName::Replaces => Some(BaseFieldName::Replaces),
            AnyFieldName::Md5Checksums => Some(BaseFieldName::Md5Checksums),
            AnyFieldName::Sha1Checksums => Some(BaseFieldName::Sha1Checksums),
            AnyFieldName::Sha224Checksums => Some(BaseFieldName::Sha224Checksums),
            AnyFieldName::Sha256Checksums => Some(BaseFieldName::Sha256Checksums),
            AnyFieldName::Sha384Checksums => Some(BaseFieldName::Sha384Checksums),
            AnyFieldName::Sha512Checksums => Some(BaseFieldName::Sha512Checksums),
            _ => None,
        }
    }
}

impl DerivativeFieldName {
    /// This name as a member of [`AnyFieldName`].
    pub open spec fn any(self) -> AnyFieldName {
        match self {
            DerivativeFieldName::Architecture => AnyFieldName::Architecture,
            DerivativeFieldName::Backup => AnyFieldName::Backup,
            DerivativeFieldName::ChangeLog => AnyFieldName::ChangeLog,
            DerivativeFieldName::Description => AnyFieldName::Description,
            DerivativeFieldName::Groups => AnyFieldName::Groups,
            DerivativeFieldName::Install => AnyFieldName::Install,
            DerivativeFieldName::License => AnyFieldName::License,
            DerivativeFieldName::NoExtract => AnyFieldName::NoExtract,
            DerivativeFieldName::Options => AnyFieldName::Options,
            DerivativeFieldName::Source => AnyFieldName::Source,
            DerivativeFieldName::Url => AnyFieldName::Url,
            DerivativeFieldName::Dependencies => AnyFieldName::Dependencies,
            DerivativeFieldName::CheckDependencies => AnyFieldName::CheckDependencies,
            DerivativeFieldName::MakeDependencies => AnyFieldName::MakeDependencies,
            DerivativeFieldName::OptionalDependencies => AnyFieldName::OptionalDependencies,
            DerivativeFieldName::Provides => AnyFieldName::Provides,
            DerivativeFieldName::Conflicts => AnyFieldName::Conflicts,
            DerivativeFieldName::Replaces => AnyFieldName::Replaces,
            DerivativeFieldName::Md5Checksums => AnyFieldName::Md5Checksums,
            DerivativeFieldName::Sha1Checksums => AnyFieldName::Sha1Checksums,
            DerivativeFieldName::Sha224Checksums => AnyFieldName::Sha224Checksums,
            DerivativeFieldName::Sha256Checksums => AnyFieldName::Sha256Checksums,
            DerivativeFieldName::Sha384Checksums => AnyFieldName::Sha384Checksums,
            DerivativeFieldName::Sha512Checksums => AnyFieldName::Sha512Checksums,
        }
    }

    /// The member of this subset that `name` is, if it is one.
    pub open spec fn of_any(name: AnyFieldName) -> Option<DerivativeFieldName> {
        match name {
            AnyFieldName::Architecture => Some(DerivativeFieldName::Architecture),
            AnyFieldName::Backup => Some(DerivativeFieldName::Backup),
            AnyFieldName::ChangeLog => Some(DerivativeFieldName::ChangeLog),
            AnyFieldName::Description => Some(DerivativeFieldName::Description),
            AnyFieldName::Groups => Some(DerivativeFieldName::Groups),
            AnyFieldName::Install => Some(DerivativeFieldName::Install),
            AnyFieldName::License => Some(DerivativeFieldName::License),
            AnyFieldName::NoExtract => Some(DerivativeFieldName::NoExtract),
            AnyFieldName::Options => Some(DerivativeFieldName::Options),
            AnyFieldName::Source => Some(DerivativeFieldName::Source),
            AnyFieldName::Url => Some(DerivativeFieldName::Url),
            AnyFieldName::Dependencies => Some(DerivativeFieldName::Dependencies),
            AnyFieldName::CheckDependencies => Some(DerivativeFieldName::CheckDependencies),
            AnyFieldName::MakeDependencies => Some(DerivativeFieldName::MakeDependencies),
            AnyFieldName::OptionalDependencies => Some(DerivativeFieldName::OptionalDependencies),
            AnyFieldName::Provides => Some(DerivativeFieldName::Provides),
            AnyFieldName::Conflicts => Some(DerivativeFieldName::Conflicts),
            AnyFieldName::Replaces => Some(DerivativeFieldName::Replaces),
            AnyFieldName::Md5Checksums => Some(DerivativeFieldName::Md5Checksums),
            AnyFieldName::Sha1Checksums => Some(DerivativeFieldName::Sha1Checksums),
            AnyFieldName::Sha224Checksums => Some(DerivativeFieldName::Sha224Checksums),
            AnyFieldName::Sha256Checksums => Some(DerivativeFieldName::Sha256Checksums),
            AnyFieldName::Sha384Checksums => Some(DerivativeFieldName::Sha384Checksums),
            AnyFieldName::Sha512Checksums => Some(DerivativeFieldName::Sha512Checksums),
            _ => None,
        }
    }
}

impl DerivativeFieldName {
    /// This name as a member of [`BaseFieldName`].
    pub open spec fn base(self) -> BaseFieldName {
        match self {
            DerivativeFieldName::Architecture => BaseFieldName::Architecture,
            DerivativeFieldName::Backup => BaseFieldName::Backup,
            DerivativeFieldName::ChangeLog => BaseFieldName::ChangeLog,
            DerivativeFieldName::Description => BaseFieldName::Description,
            DerivativeFieldName::Groups => BaseFieldName::Groups,
            DerivativeFieldName::Install => BaseFieldName::Install,
            DerivativeFieldName::License => BaseFieldName::License,
            DerivativeFieldName::NoExtract => BaseFieldName::NoExtract,
            DerivativeFieldName::Options => BaseFieldName::Options,
            DerivativeFieldName::Source => BaseFieldName::Source,
            DerivativeFieldName::Url => BaseFieldName::Url,
            DerivativeFieldName::Dependencies => BaseFieldName::Dependencies,
            DerivativeFieldName::CheckDependencies => BaseFieldName::CheckDependencies,
            DerivativeFieldName::MakeDependencies => BaseFieldName::MakeDependencies,
            DerivativeFieldName::OptionalDependencies => BaseFieldName::OptionalDependencies,
            DerivativeFieldName::Provides => BaseFieldName::Provides,
            DerivativeFieldName::Conflicts => BaseFieldName::Conflicts,
            DerivativeFieldName::Replaces => BaseFieldName::Replaces,
            DerivativeFieldName::Md5Checksums => BaseFieldName::Md5Checksums,
            DerivativeFieldName::Sha1Checksums => BaseFieldName::Sha1Checksums,
            DerivativeFieldName::Sha224Checksums => BaseFieldName::Sha224Checksums,
            DerivativeFieldName::Sha256Checksums => BaseFieldName::Sha256Checksums,
            DerivativeFieldName::Sha384Checksums => BaseFieldName::Sha384Checksums,
            DerivativeFieldName::Sha512Checksums => BaseFieldName::Sha512Checksums,
        }
    }

    /// The shared name that `name` is, if it is one.
    pub open spec fn of_base(name: BaseFieldName) -> Option<DerivativeFieldName> {
        match name {
            BaseFieldName::Architecture => Some(DerivativeFieldName::Architecture),
            BaseFieldName::Backup => Some(DerivativeFieldName::Backup),
            BaseFieldName::ChangeLog => Some(DerivativeFieldName::ChangeLog),
            BaseFieldName::Description => Some(DerivativeFieldName::Description),
            BaseFieldName::Groups => Some(DerivativeFieldName::Groups),
            BaseFieldName::Install => Some(DerivativeFieldName::Install),
            BaseFieldName::License => Some(DerivativeFieldName::License),
            BaseFieldName::NoExtract => Some(DerivativeFieldName::NoExtract),
            BaseFieldName::Options => Some(DerivativeFieldName::Options),
            BaseFieldName::Source => Some(DerivativeFieldName::Source),
            BaseFieldName::Url => Some(DerivativeFieldName::Url),
            BaseFieldName::Dependencies => Some(DerivativeFieldName::Dependencies),
            BaseFieldName::CheckDependencies => Some(DerivativeFieldName::CheckDependencies),
            BaseFieldName::MakeDependencies => Some(DerivativeFieldName::MakeDependencies),
            BaseFieldName::OptionalDependencies => Some(DerivativeFieldName::OptionalDependencies),
            BaseFieldName::Provides => Some(DerivativeFieldName::Provides),
            BaseFieldName::Conflicts => Some(DerivativeFieldName::Conflicts),
            BaseFieldName::Replaces => Some(DerivativeFieldName::Replaces),
            BaseFieldName::Md5Checksums => Some(DerivativeFieldName::Md5Checksums),
            BaseFieldName::Sha1Checksums => Some(DerivativeFieldName::Sha1Checksums),
            BaseFieldName::Sha224Checksums => Some(DerivativeFieldName::Sha224Checksums),
            BaseFieldName::Sha256Checksums => Some(DerivativeFieldName::Sha256Checksums),
            BaseFieldName::Sha384Checksums => Some(DerivativeFieldName::Sha384Checksums),
            BaseFieldName::Sha512Checksums => Some(DerivativeFieldName::Sha512Checksums),
            _ => None,
        }
    }

    /// Widens a shared name to the base vocabulary.
    pub fn into_base(self) -> (r: BaseFieldName)
        ensures
            r == self.base(),
    {
        match self {
            DerivativeFieldName::Architecture => BaseFieldName::Architecture,
            DerivativeFieldName::Backup => BaseFieldName::Backup,
            DerivativeFieldName::ChangeLog => BaseFieldName::ChangeLog,
            DerivativeFieldName::Description => BaseFieldName::Description,
            DerivativeFieldName::Groups => BaseFieldName::Groups,
            DerivativeFieldName::Install => BaseFieldName::Install,
            DerivativeFieldName::License => BaseFieldName::License,
            DerivativeFieldName::NoExtract => BaseFieldName::NoExtract,
            DerivativeFieldName::Options => BaseFieldName::Options,
            DerivativeFieldName::Source => BaseFieldName::Source,
            DerivativeFieldName::Url => BaseFieldName::Url,
            DerivativeFieldName::Dependencies => BaseFieldName::Dependencies,
            DerivativeFieldName::CheckDependencies => BaseFieldName::CheckDependencies,
            DerivativeFieldName::MakeDependencies => BaseFieldName::MakeDependencies,
            DerivativeFieldName::OptionalDependencies => BaseFieldName::OptionalDependencies,
            DerivativeFieldName::Provides => BaseFieldName::Provides,
            DerivativeFieldName::Conflicts => BaseFieldName::Conflicts,
            DerivativeFieldName::Replaces => BaseFieldName::Replaces,
            DerivativeFieldName::Md5Checksums => BaseFieldName::Md5Checksums,
            DerivativeFieldName::Sha1Checksums => BaseFieldName::Sha1Checksums,
            DerivativeFieldName::Sha224Checksums => BaseFieldName::Sha224Checksums,
            DerivativeFieldName::Sha256Checksums => BaseFieldName::Sha256Checksums,
            DerivativeFieldName::Sha384Checksums => BaseFieldName::Sha384Checksums,
            DerivativeFieldName::Sha512Checksums => BaseFieldName::Sha512Checksums,
        }
    }

    /// Narrows a base name to the shared vocabulary, handing it back where it is base-only.
    pub fn from_base(name: BaseFieldName) -> (r: Result<DerivativeFieldName, BaseFieldName>)
        ensures
            r == match DerivativeFieldName::of_base(name) {
                Some(d) => Ok::<DerivativeFieldName, BaseFieldName>(d),
                None => Err(name),
            },
    {
        match name {
            BaseFieldName::Architecture => Ok(DerivativeFieldName::Architecture),
            BaseFieldName::Backup => Ok(DerivativeFieldName::Backup),
            BaseFieldName::ChangeLog => Ok(DerivativeFieldName::ChangeLog),
            BaseFieldName::Description => Ok(DerivativeFieldName::Description),
            BaseFieldName::Groups => Ok(DerivativeFieldName::Groups),
            BaseFieldName::Install => Ok(DerivativeFieldName::Install),
            BaseFieldName::License => Ok(DerivativeFieldName::License),
            BaseFieldName::NoExtract => Ok(DerivativeFieldName::NoExtract),
            BaseFieldName::Options => Ok(DerivativeFieldName::Options),
            BaseFieldName::Source => Ok(DerivativeFieldName::Source),
            BaseFieldName::Url => Ok(DerivativeFieldName::Url),
            BaseFieldName::Dependencies => Ok(DerivativeFieldName::Dependencies),
            BaseFieldName::CheckDependencies => Ok(DerivativeFieldName::CheckDependencies),
            BaseFieldName::MakeDependencies => Ok(DerivativeFieldName::MakeDependencies),
            BaseFieldName::OptionalDependencies => Ok(DerivativeFieldName::OptionalDependencies),
            BaseFieldName::Provides => Ok(DerivativeFieldName::Provides),
            BaseFieldName::Conflicts => Ok(DerivativeFieldName::Conflicts),
            BaseFieldName::Replaces => Ok(DerivativeFieldName::Replaces),
            BaseFieldName::Md5Checksums => Ok(DerivativeFieldName::Md5Checksums),
            BaseFieldName::Sha1Checksums => Ok(DerivativeFieldName::Sha1Checksums),
            BaseFieldName::Sha224Checksums => Ok(DerivativeFieldName::Sha224Checksums),
            BaseFieldName::Sha256Checksums => Ok(DerivativeFieldName::Sha256Checksums),
            BaseFieldName::Sha384Checksums => Ok(DerivativeFieldName::Sha384Checksums),
            BaseFieldName::Sha512Checksums => Ok(DerivativeFieldName::Sha512Checksums),
            other => Err(other),
        }
    }

    /// The slot of this name in a derivative section's storage.
    pub open spec fn ordinal(self) -> int {
        match self {
            DerivativeFieldName::Architecture => 0,
            DerivativeFieldName::Backup => 1,
            DerivativeFieldName::ChangeLog => 2,
            DerivativeFieldName::Description => 3,
            DerivativeFieldName::Groups => 4,
            DerivativeFieldName::Install => 5,
            DerivativeFieldName::License => 6,
            DerivativeFieldName::NoExtract => 7,
            DerivativeFieldName::Options => 8,
            DerivativeFieldName::Source => 9,
            DerivativeFieldName::Url => 10,
            DerivativeFieldName::Dependencies => 11,
            DerivativeFieldName::CheckDependencies => 12,
            DerivativeFieldName::MakeDependencies => 13,
            DerivativeFieldName::OptionalDependencies => 14,
            DerivativeFieldName::Provides => 15,
            DerivativeFieldName::Conflicts => 16,
            DerivativeFieldName::Replaces => 17,
            DerivativeFieldName::Md5Checksums => 18,
            DerivativeFieldName::Sha1Checksums => 19,
            DerivativeFieldName::Sha224Checksums => 20,
            DerivativeFieldName::Sha256Checksums => 21,
            DerivativeFieldName::Sha384Checksums => 22,
            DerivativeFieldName::Sha512Checksums => 23,
        }
    }

    /// The slot of this name in a derivative section's storage.
    pub fn index(self) -> (r: usize)
        ensures
            r == self.ordinal(),
            r < 24,
    {
        match self {
            DerivativeFieldName::Architecture => 0,
            DerivativeFieldName::Backup => 1,
            DerivativeFieldName::ChangeLog => 2,
            DerivativeFieldName::Description => 3,
            DerivativeFieldName::Groups => 4,
            DerivativeFieldName::Install => 5,
            DerivativeFieldName::License => 6,
            DerivativeFieldName::NoExtract => 7,
            DerivativeFieldName::Options => 8,
            DerivativeFieldName::Source => 9,
            DerivativeFieldName::Url => 10,
            DerivativeFieldName::Dependencies => 11,
            DerivativeFieldName::CheckDependencies => 12,
            DerivativeFieldName::MakeDependencies => 13,
            DerivativeFieldName::OptionalDependencies => 14,
            DerivativeFieldName::Provides => 15,
            DerivativeFieldName::Conflicts => 16,
            DerivativeFieldName::Replaces => 17,
            DerivativeFieldName::Md5Checksums => 18,
            DerivativeFieldName::Sha1Checksums => 19,
            DerivativeFieldName::Sha224Checksums => 20,
            DerivativeFieldName::Sha256Checksums => 21,
            DerivativeFieldName::Sha384Checksums => 22,
            DerivativeFieldName::Sha512Checksums => 23,
        }
    }
}

impl BaseFieldName {
    /// The slot of this name in the base section's storage.
    pub open spec fn ordinal(self) -> int {
        match self {
            BaseFieldName::Epoch => 0,
            BaseFieldName::Release => 1,
            BaseFieldName::ValidPgpKeys => 2,
            BaseFieldName::Version => 3,
            BaseFieldName::Architecture => 4,
            BaseFieldName::Backup => 5,
            BaseFieldName::ChangeLog => 6,
            BaseFieldName::Description => 7,
            BaseFieldName::Groups => 8,
            BaseFieldName::Install => 9,
            BaseFieldName::License => 10,
            BaseFieldName::NoExtract => 11,
            BaseFieldName::Options => 12,
            BaseFieldName::Source => 13,
            BaseFieldName::Url => 14,
            BaseFieldName::Dependencies => 15,
            BaseFieldName::CheckDependencies => 16,
            BaseFieldName::MakeDependencies => 17,
            BaseFieldName::OptionalDependencies => 18,
            BaseFieldName::Provides => 19,
            BaseFieldName::Conflicts => 20,
            BaseFieldName::Replaces => 21,
            BaseFieldName::Md5Checksums => 22,
            BaseFieldName::Sha1Checksums => 23,
            BaseFieldName::Sha224Checksums => 24,
            BaseFieldName::Sha256Checksums => 25,
            BaseFieldName::Sha384Checksums => 26,
            BaseFieldName::Sha512Checksums => 27,
        }
    }

    /// The slot of this name in the base section's storage.
    pub fn index(self) -> (r: usize)
        ensures
            r == self.ordinal(),
            r < 28,
    {
        match self {
            BaseFieldName::Epoch => 0,
            BaseFieldName::Release => 1,
            BaseFieldName::ValidPgpKeys => 2,
            BaseFieldName::Version => 3,
            BaseFieldName::Architecture => 4,
            BaseFieldName::Backup => 5,
            BaseFieldName::ChangeLog => 6,
            BaseFieldName::Description => 7,
            BaseFieldName::Groups => 8,
            BaseFieldName::Install => 9,
            BaseFieldName::License => 10,
            BaseFieldName::NoExtract => 11,
            BaseFieldName::Options => 12,
            BaseFieldName::Source => 13,
            BaseFieldName::Url => 14,
            BaseFieldName::Dependencies => 15,
            BaseFieldName::CheckDependencies => 16,
            BaseFieldName::MakeDependencies => 17,
            BaseFieldName::OptionalDependencies => 18,
            BaseFieldName::Provides => 19,
            BaseFieldName::Conflicts => 20,
            BaseFieldName::Replaces => 21,
            BaseFieldName::Md5Checksums => 22,
            BaseFieldName::Sha1Checksums => 23,
            BaseFieldName::Sha224Checksums => 24,
            BaseFieldName::Sha256Checksums => 25,
            BaseFieldName::Sha384Checksums => 26,
            BaseFieldName::Sha512Checksums => 27,
        }
    }
}

/// A name of the vocabulary: one of the four enums of this module.
pub trait FieldName: Sealed + Copy + Sized {
    /// This name as a member of [`AnyFieldName`].
    spec fn as_any(self) -> AnyFieldName;

    /// Widens the name to [`AnyFieldName`]. Total, and no two names widen to the same one.
    fn into_any(self) -> (r: AnyFieldName)
        ensures
            r == self.as_any(),
    ;

    /// Narrows `name` to this subset. Succeeds exactly where `name` belongs to the subset;
    /// otherwise `name` comes back unchanged.
    fn from_any(name: AnyFieldName) -> (r: Result<Self, AnyFieldName>)
        ensures
            match r {
                Ok(narrow) => narrow.as_any() == name,
                Err(same) => same == name && forall|narrow: Self| narrow.as_any() != name,
            },
    ;

    /// The literal of this name.
    fn as_str(self) -> (r: &'static str)
        ensures
            r@ == self.as_any().literal(),
    ;

    /// Resolves a key against the literals of this subset.
    fn parse(key: &str) -> (r: Option<Self>)
        ensures
            match r {
                Some(name) => name.as_any().literal() == key@,
                None => forall|name: Self| name.as_any().literal() != key@,
            },
    ;
}

impl Sealed for AnyFieldName {
}

impl FieldName for AnyFieldName {
    open spec fn as_any(self) -> AnyFieldName {
        self
    }

    fn into_any(self) -> (r: AnyFieldName) {
        self
    }

    fn from_any(name: AnyFieldName) -> (r: Result<Self, AnyFieldName>) {
        Ok(name)
    }

    fn as_str(self) -> (r: &'static str) {
        AnyFieldName::as_str(self)
    }

    fn parse(key: &str) -> (r: Option<Self>)
        ensures
            r == AnyFieldName::of_literal(key@),
    {
        proof {
            lemma_of_literal(key@);
        }
        AnyFieldName::parse(key)
    }
}

impl Sealed for HeaderFieldName {
}

impl FieldName for HeaderFieldName {
    open spec fn as_any(self) -> AnyFieldName {
        self.any()
    }

    fn into_any(self) -> (r: AnyFieldName) {
        match self {
            HeaderFieldName::Base => AnyFieldName::Base,
            HeaderFieldName::Name => AnyFieldName::Name,
        }
    }

    fn from_any(name: AnyFieldName) -> (r: Result<Self, AnyFieldName>)
        ensures
            r == match HeaderFieldName::of_any(name) {
                Some(narrow) => Ok::<HeaderFieldName, AnyFieldName>(narrow),
                None => Err(name),
            },
    {
        match name {
            AnyFieldName::Base => Ok(HeaderFieldName::Base),
            AnyFieldName::Name => Ok(HeaderFieldName::Name),
            other => Err(other),
        }
    }

    fn as_str(self) -> (r: &'static str) {
        self.into_any().as_str()
    }

    fn parse(key: &str) -> (r: Option<Self>)
        ensures
            r == match AnyFieldName::of_literal(key@) {
                Some(name) => HeaderFieldName::of_any(name),
                None => None,
            },
    {
        proof {
            lemma_of_literal(key@);
        }
        match AnyFieldName::parse(key) {
            Some(name) => match Self::from_any(name) {
                Ok(narrow) => Some(narrow),
                Err(_) => None,
            },
            None => None,
        }
    }
}

impl Sealed for BaseFieldName {
}

impl FieldName for BaseFieldName {
    open spec fn as_any(self) -> AnyFieldName {
        self.any()
    }

    fn into_any(self) -> (r: AnyFieldName) {
        match self {
            BaseFieldName::Epoch => AnyFieldName::Epoch,
            BaseFieldName::Release => AnyFieldName::Release,
            BaseFieldName::ValidPgpKeys => AnyFieldName::ValidPgpKeys,
            BaseFieldName::Version => AnyFieldName::Version,
            BaseFieldName::Architecture => AnyFieldName::Architecture,
            BaseFieldName::Backup => AnyFieldName::Backup,
            BaseFieldName::ChangeLog => AnyFieldName::ChangeLog,
            BaseFieldName::Description => AnyFieldName::Description,
            BaseFieldName::Groups => AnyFieldName::Groups,
            BaseFieldName::Install => AnyFieldName::Install,
            BaseFieldName::License => AnyFieldName::License,
            BaseFieldName::NoExtract => AnyFieldName::NoExtract,
            BaseFieldName::Options => AnyFieldName::Options,
            BaseFieldName::Source => AnyFieldName::Source,
            BaseFieldName::Url => AnyFieldName::Url,
            BaseFieldName::Dependencies => AnyFieldName::Dependencies,
            BaseFieldName::CheckDependencies => AnyFieldName::CheckDependencies,
            BaseFieldName::MakeDependencies => AnyFieldName::MakeDependencies,
            BaseFieldName::OptionalDependencies => AnyFieldName::OptionalDependencies,
            BaseFieldName::Provides => AnyFieldName::Provides,
            BaseFieldName::Conflicts => AnyFieldName::Conflicts,
            BaseFieldName::Replaces => AnyFieldName::Replaces,
            BaseFieldName::Md5Checksums => AnyFieldName::Md5Checksums,
            BaseFieldName::Sha1Checksums => AnyFieldName::Sha1Checksums,
            BaseFieldName::Sha224Checksums => AnyFieldName::Sha224Checksums,
            BaseFieldName::Sha256Checksums => AnyFieldName::Sha256Checksums,
            BaseFieldName::Sha384Checksums => AnyFieldName::Sha384Checksums,
            BaseFieldName::Sha512Checksums => AnyFieldName::Sha512Checksums,
        }
    }

    fn from_any(name: AnyFieldName) -> (r: Result<Self, AnyFieldName>)
        ensures
            r == match BaseFieldName::of_any(name) {
                Some(narrow) => Ok::<BaseFieldName, AnyFieldName>(narrow),
                None => Err(name),
            },
    {
        match name {
            AnyFieldName::Epoch => Ok(BaseFieldName::Epoch),
            AnyFieldName::Release => Ok(BaseFieldName::Release),
            AnyFieldName::ValidPgpKeys => Ok(BaseFieldName::ValidPgpKeys),
            AnyFieldName::Version => Ok(BaseFieldName::Version),
            AnyFieldName::Architecture => Ok(BaseFieldName::Architecture),
            AnyFieldName::Backup => Ok(BaseFieldName::Backup),
            AnyFieldName::ChangeLog => Ok(BaseFieldName::ChangeLog),
            AnyFieldName::Description => Ok(BaseFieldName::Description),
            AnyFieldName::Groups => Ok(BaseFieldName::Groups),
            AnyFieldName::Install => Ok(BaseFieldName::Install),
            AnyFieldName::License => Ok(BaseFieldName::License),
            AnyFieldName::NoExtract => Ok(BaseFieldName::NoExtract),
            AnyFieldName::Options => Ok(BaseFieldName::Options),
            AnyFieldName::Source => Ok(BaseFieldName::Source),
            AnyFieldName::Url => Ok(BaseFieldName::Url),
            AnyFieldName::Dependencies => Ok(BaseFieldName::Dependencies),
            AnyFieldName::CheckDependencies => Ok(BaseFieldName::CheckDependencies),
            AnyFieldName::MakeDependencies => Ok(BaseFieldName::MakeDependencies),
            AnyFieldName::OptionalDependencies => Ok(BaseFieldName::OptionalDependencies),
            AnyFieldName::Provides => Ok(BaseFieldName::Provides),
            AnyFieldName::Conflicts => Ok(BaseFieldName::Conflicts),
            AnyFieldName::Replaces => Ok(BaseFieldName::Replaces),
            AnyFieldName::Md5Checksums => Ok(BaseFieldName::Md5Checksums),
            AnyFieldName::Sha1Checksums => Ok(BaseFieldName::Sha1Checksums),
            AnyFieldName::Sha224Checksums => Ok(BaseFieldName::Sha224Checksums),
            AnyFieldName::Sha256Checksums => Ok(BaseFieldName::Sha256Checksums),
            AnyFieldName::Sha384Checksums => Ok(BaseFieldName::Sha384Checksums),
            AnyFieldName::Sha512Checksums => Ok(BaseFieldName::Sha512Checksums),
            other => Err(other),
        }
    }

    fn as_str(self) -> (r: &'static str) {
        self.into_any().as_str()
    }

    fn parse(key: &str) -> (r: Option<Self>)
        ensures
            r == match AnyFieldName::of_literal(key@) {
                Some(name) => BaseFieldName::of_any(name),
                None => None,
            },
    {
        proof {
            lemma_of_literal(key@);
        }
        match AnyFieldName::parse(key) {
            Some(name) => match Self::from_any(name) {
                Ok(narrow) => Some(narrow),
                Err(_) => None,
            },
            None => None,
        }
    }
}

impl Sealed for DerivativeFieldName {
}

impl FieldName for DerivativeFieldName {
    open spec fn as_any(self) -> AnyFieldName {
        self.any()
    }

    fn into_any(self) -> (r: AnyFieldName) {
        match self {
            DerivativeFieldName::Architecture => AnyFieldName::Architecture,
            DerivativeFieldName::Backup => AnyFieldName::Backup,
            DerivativeFieldName::ChangeLog => AnyFieldName::ChangeLog,
            DerivativeFieldName::Description => AnyFieldName::Description,
            DerivativeFieldName::Groups => AnyFieldName::Groups,
            DerivativeFieldName::Install => AnyFieldName::Install,
            DerivativeFieldName::License => AnyFieldName::License,
            DerivativeFieldName::NoExtract => AnyFieldName::NoExtract,
            DerivativeFieldName::Options => AnyFieldName::Options,
            DerivativeFieldName::Source => AnyFieldName::Source,
            DerivativeFieldName::Url => AnyFieldName::Url,
            DerivativeFieldName::Dependencies => AnyFieldName::Dependencies,
            DerivativeFieldName::CheckDependencies => AnyFieldName::CheckDependencies,
            DerivativeFieldName::MakeDependencies => AnyFieldName::MakeDependencies,
            DerivativeFieldName::OptionalDependencies => AnyFieldName::OptionalDependencies,
            DerivativeFieldName::Provides => AnyFieldName::Provides,
            DerivativeFieldName::Conflicts => AnyFieldName::Conflicts,
            DerivativeFieldName::Replaces => AnyFieldName::Replaces,
            DerivativeFieldName::Md5Checksums => AnyFieldName::Md5Checksums,
            DerivativeFieldName::Sha1Checksums => AnyFieldName::Sha1Checksums,
            DerivativeFieldName::Sha224Checksums => AnyFieldName::Sha224Checksums,
            DerivativeFieldName::Sha256Checksums => AnyFieldName::Sha256Checksums,
            DerivativeFieldName::Sha384Checksums => AnyFieldName::Sha384Checksums,
            DerivativeFieldName::Sha512Checksums => AnyFieldName::Sha512Checksums,
        }
    }

    fn from_any(name: AnyFieldName) -> (r: Result<Self, AnyFieldName>)
        ensures
            r == match DerivativeFieldName::of_any(name) {
                Some(narrow) => Ok::<DerivativeFieldName, AnyFieldName>(narrow),
                None => Err(name),
            },
    {
        match name {
            AnyFieldName::Architecture => Ok(DerivativeFieldName::Architecture),
            AnyFieldName::Backup => Ok(DerivativeFieldName::Backup),
            AnyFieldName::ChangeLog => Ok(DerivativeFieldName::ChangeLog),
            AnyFieldName::Description => Ok(DerivativeFieldName::Description),
            AnyFieldName::Groups => Ok(DerivativeFieldName::Groups),
            AnyFieldName::Install => Ok(DerivativeFieldName::Install),
            AnyFieldName::License => Ok(DerivativeFieldName::License),
            AnyFieldName::NoExtract => Ok(DerivativeFieldName::NoExtract),
            AnyFieldName::Options => Ok(DerivativeFieldName::Options),
            AnyFieldName::Source => Ok(DerivativeFieldName::Source),
            AnyFieldName::Url => Ok(DerivativeFieldName::Url),
            AnyFieldName::Dependencies => Ok(DerivativeFieldName::Dependencies),
            AnyFieldName::CheckDependencies => Ok(DerivativeFieldName::CheckDependencies),
            AnyFieldName::MakeDependencies => Ok(DerivativeFieldName::MakeDependencies),
            AnyFieldName::OptionalDependencies => Ok(DerivativeFieldName::OptionalDependencies),
            AnyFieldName::Provides => Ok(DerivativeFieldName::Provides),
            AnyFieldName::Conflicts => Ok(DerivativeFieldName::Conflicts),
            AnyFieldName::Replaces => Ok(DerivativeFieldName::Replaces),
            AnyFieldName::Md5Checksums => Ok(DerivativeFieldName::Md5Checksums),
            AnyFieldName::Sha1Checksums => Ok(DerivativeFieldName::Sha1Checksums),
            AnyFieldName::Sha224Checksums => Ok(DerivativeFieldName::Sha224Checksums),
            AnyFieldName::Sha256Checksums => Ok(DerivativeFieldName::Sha256Checksums),
            AnyFieldName::Sha384Checksums => Ok(DerivativeFieldName::Sha384Checksums),
            AnyFieldName::Sha512Checksums => Ok(DerivativeFieldName::Sha512Checksums),
            other => Err(other),
        }
    }

    fn as_str(self) -> (r: &'static str) {
        self.into_any().as_str()
    }

    fn parse(key: &str) -> (r: Option<Self>)
        ensures
            r == match AnyFieldName::of_literal(key@) {
                Some(name) => DerivativeFieldName::of_any(name),
                None => None,
            },
    {
        proof {
            lemma_of_literal(key@);
        }
        match AnyFieldName::parse(key) {
            Some(name) => match Self::from_any(name) {
                Ok(narrow) => Some(narrow),
                Err(_) => None,
            },
            None => None,
        }
    }
}

impl From<HeaderFieldName> for AnyFieldName {
    fn from(name: HeaderFieldName) -> (r: AnyFieldName) {
        name.into_any()
    }
}

impl FromSpecImpl<HeaderFieldName> for AnyFieldName {
    open spec fn obeys_from_spec() -> bool {
        true
    }

    open spec fn from_spec(name: HeaderFieldName) -> AnyFieldName {
        name.any()
    }
}

impl TryFrom<AnyFieldName> for HeaderFieldName {
    type Error = AnyFieldName;

    fn try_from(name: AnyFieldName) -> (r: Result<HeaderFieldName, AnyFieldName>) {
        HeaderFieldName::from_any(name)
    }
}

impl TryFromSpecImpl<AnyFieldName> for HeaderFieldName {
    open spec fn obeys_try_from_spec() -> bool {
        true
    }

    open spec fn try_from_spec(name: AnyFieldName) -> Result<HeaderFieldName, AnyFieldName> {
        match HeaderFieldName::of_any(name) {
            Some(narrow) => Ok(narrow),
            None => Err(name),
        }
    }
}

impl From<AnyFieldName> for Option<HeaderFieldName> {
    fn from(name: AnyFieldName) -> (r: Option<HeaderFieldName>) {
        match HeaderFieldName::from_any(name) {
            Ok(narrow) => Some(narrow),
            Err(_) => None,
        }
    }
}

impl FromSpecImpl<AnyFieldName> for Option<HeaderFieldName> {
    open spec fn obeys_from_spec() -> bool {
        true
    }

    open spec fn from_spec(name: AnyFieldName) -> Option<HeaderFieldName> {
        HeaderFieldName::of_any(name)
    }
}

impl From<BaseFieldName> for AnyFieldName {
    fn from(name: BaseFieldName) -> (r: AnyFieldName) {
        name.into_any()
    }
}

impl FromSpecImpl<BaseFieldName> for AnyFieldName {
    open spec fn obeys_from_spec() -> bool {
        true
    }

    open spec fn from_spec(name: BaseFieldName) -> AnyFieldName {
        name.any()
    }
}

impl TryFrom<AnyFieldName> for BaseFieldName {
    type Error = AnyFieldName;

    fn try_from(name: AnyFieldName) -> (r: Result<BaseFieldName, AnyFieldName>) {
        BaseFieldName::from_any(name)
    }
}

impl TryFromSpecImpl<AnyFieldName> for BaseFieldName {
    open spec fn obeys_try_from_spec() -> bool {
        true
    }

    open spec fn try_from_spec(name: AnyFieldName) -> Result<BaseFieldName, AnyFieldName> {
        match BaseFieldName::of_any(name) {
            Some(narrow) => Ok(narrow),
            None => Err(name),
        }
    }
}

impl From<AnyFieldName> for Option<BaseFieldName> {
    fn from(name: AnyFieldName) -> (r: Option<BaseFieldName>) {
        match BaseFieldName::from_any(name) {
            Ok(narrow) => Some(narrow),
            Err(_) => None,
        }
    }
}

impl FromSpecImpl<AnyFieldName> for Option<BaseFieldName> {
    open spec fn obeys_from_spec() -> bool {
        true
    }

    open spec fn from_spec(name: AnyFieldName) -> Option<BaseFieldName> {
        BaseFieldName::of_any(name)
    }
}

impl From<DerivativeFieldName> for AnyFieldName {
    fn from(name: DerivativeFieldName) -> (r: AnyFieldName) {
        name.into_any()
    }
}

impl FromSpecImpl<DerivativeFieldName> for AnyFieldName {
    open spec fn obeys_from_spec() -> bool {
        true
    }

    open spec fn from_spec(name: DerivativeFieldName) -> AnyFieldName {
        name.any()
    }
}

impl TryFrom<AnyFieldName> for DerivativeFieldName {
    type Error = AnyFieldName;

    fn try_from(name: AnyFieldName) -> (r: Result<DerivativeFieldName, AnyFieldName>) {
        DerivativeFieldName::from_any(name)
    }
}

impl TryFromSpecImpl<AnyFieldName> for DerivativeFieldName {
    open spec fn obeys_try_from_spec() -> bool {
        true
    }

    open spec fn try_from_spec(name: AnyFieldName) -> Result<DerivativeFieldName, AnyFieldName> {
        match DerivativeFieldName::of_any(name) {
            Some(narrow) => Ok(narrow),
            None => Err(name),
        }
    }
}

impl From<AnyFieldName> for Option<DerivativeFieldName> {
    fn from(name: AnyFieldName) -> (r: Option<DerivativeFieldName>) {
        match DerivativeFieldName::from_any(name) {
            Ok(narrow) => Some(narrow),
            Err(_) => None,
        }
    }
}

impl FromSpecImpl<AnyFieldName> for Option<DerivativeFieldName> {
    open spec fn obeys_from_spec() -> bool {
        true
    }

    open spec fn from_spec(name: AnyFieldName) -> Option<DerivativeFieldName> {
        DerivativeFieldName::of_any(name)
    }
}

impl From<DerivativeFieldName> for BaseFieldName {
    fn from(name: DerivativeFieldName) -> (r: BaseFieldName) {
        name.into_base()
    }
}

impl FromSpecImpl<DerivativeFieldName> for BaseFieldName {
    open spec fn obeys_from_spec() -> bool {
        true
    }

    open spec fn from_spec(name: DerivativeFieldName) -> BaseFieldName {
        name.base()
    }
}

impl TryFrom<BaseFieldName> for DerivativeFieldName {
    type Error = BaseFieldName;

    fn try_from(name: BaseFieldName) -> (r: Result<DerivativeFieldName, BaseFieldName>) {
        DerivativeFieldName::from_base(name)
    }
}

impl TryFromSpecImpl<BaseFieldName> for DerivativeFieldName {
    open spec fn obeys_try_from_spec() -> bool {
        true
    }

    open spec fn try_from_spec(name: BaseFieldName) -> Result<DerivativeFieldName, BaseFieldName> {
        match DerivativeFieldName::of_base(name) {
            Some(narrow) => Ok(narrow),
            None => Err(name),
        }
    }
}

impl From<BaseFieldName> for Option<DerivativeFieldName> {
    fn from(name: BaseFieldName) -> (r: Option<DerivativeFieldName>) {
        match DerivativeFieldName::from_base(name) {
            Ok(narrow) => Some(narrow),
            Err(_) => None,
        }
    }
}

impl FromSpecImpl<BaseFieldName> for Option<DerivativeFieldName> {
    open spec fn obeys_from_spec() -> bool {
        true
    }

    open spec fn from_spec(name: BaseFieldName) -> Option<DerivativeFieldName> {
        DerivativeFieldName::of_base(name)
    }
}

/// A key is the literal of the name that [`AnyFieldName::of_literal`] gives it, and of no
/// other name.
pub proof fn lemma_of_literal(key: Seq<char>)
    ensures
        match AnyFieldName::of_literal(key) {
            Some(name) => name.literal() == key && forall|other: AnyFieldName|
                other.literal() == key ==> other == name,
            None => forall|other: AnyFieldName| other.literal() != key,
        },
{
    lemma_literal_injective();
    match AnyFieldName::of_literal(key) {
        Some(name) => {
            assert(name.literal() == key);
            assert forall|other: AnyFieldName| other.literal() == key implies other == name by {
                assert(other.literal() == name.literal());
            }
        },
        None => {
            assert forall|other: AnyFieldName| other.literal() != key by {
                assert(AnyFieldName::of_literal(other.literal()) is Some);
            }
        },
    }
}

/// Every name is found again under its literal.
pub proof fn lemma_of_literal_of_name(name: AnyFieldName)
    ensures
        AnyFieldName::of_literal(name.literal()) == Some(name),
{
    lemma_of_literal(name.literal());
}

/// No two names share a literal.
pub proof fn lemma_literal_injective()
    ensures
        forall|a: AnyFieldName, b: AnyFieldName| a.literal() == b.literal() ==> a == b,
{
    assert forall|a: AnyFieldName, b: AnyFieldName| a.literal() == b.literal() implies a == b by {
        lemma_literal_shape(a);
        lemma_literal_shape(b);
    }
}

/// The length and the telling characters of each literal.
proof fn lemma_literal_shape(name: AnyFieldName)
    ensures
        name.literal() == literal_chars(name),
{

    reveal_strlit("pkgbase");
    reveal_strlit("pkgname");
    reveal_strlit("epoch");
    reveal_strlit("pkgrel");
    reveal_strlit("validpgpkeys");
    reveal_strlit("pkgver");
    reveal_strlit("arch");
    reveal_strlit("backup");
    reveal_strlit("changelog");
    reveal_strlit("pkgdesc");
    reveal_strlit("groups");
    reveal_strlit("install");
    reveal_strlit("license");
    reveal_strlit("noextract");
    reveal_strlit("options");
    reveal_strlit("source");
    reveal_strlit("url");
    reveal_strlit("depends");
    reveal_strlit("checkdepends");
    reveal_strlit("makedepends");
    reveal_strlit("optdepends");
    reveal_strlit("provides");
    reveal_strlit("conflicts");
    reveal_strlit("replaces");
    reveal_strlit("md5sums");
    reveal_strlit("sha1sums");
    reveal_strlit("sha224sums");
    reveal_strlit("sha256sums");
    reveal_strlit("sha384sums");
    reveal_strlit("sha512sums");
    match name {
        AnyFieldName::Base => assert("pkgbase"@ =~= literal_chars(name)),
        AnyFieldName::Name => assert("pkgname"@ =~= literal_chars(name)),
        AnyFieldName::Epoch => assert("epoch"@ =~= literal_chars(name)),
        AnyFieldName::Release => assert("pkgrel"@ =~= literal_chars(name)),
        AnyFieldName::ValidPgpKeys => assert("validpgpkeys"@ =~= literal_chars(name)),
        AnyFieldName::Version => assert("pkgver"@ =~= literal_chars(name)),
        AnyFieldName::Architecture => assert("arch"@ =~= literal_chars(name)),
        AnyFieldName::Backup => assert("backup"@ =~= literal_chars(name)),
        AnyFieldName::ChangeLog => assert("changelog"@ =~= literal_chars(name)),
        AnyFieldName::Description => assert("pkgdesc"@ =~= literal_chars(name)),
        AnyFieldName::Groups => assert("groups"@ =~= literal_chars(name)),
        AnyFieldName::Install => assert("install"@ =~= literal_chars(name)),
        AnyFieldName::License => assert("license"@ =~= literal_chars(name)),
        AnyFieldName::NoExtract => assert("noextract"@ =~= literal_chars(name)),
        AnyFieldName::Options => assert("options"@ =~= literal_chars(name)),
        AnyFieldName::Source => assert("source"@ =~= literal_chars(name)),
        AnyFieldName::Url => assert("url"@ =~= literal_chars(name)),
        AnyFieldName::Dependencies => assert("depends"@ =~= literal_chars(name)),
        AnyFieldName::CheckDependencies => assert("checkdepends"@ =~= literal_chars(name)),
        AnyFieldName::MakeDependencies => assert("makedepends"@ =~= literal_chars(name)),
        AnyFieldName::OptionalDependencies => assert("optdepends"@ =~= literal_chars(name)),
        AnyFieldName::Provides => assert("provides"@ =~= literal_chars(name)),
        AnyFieldName::Conflicts => assert("conflicts"@ =~= literal_chars(name)),
        AnyFieldName::Replaces => assert("replaces"@ =~= literal_chars(name)),
        AnyFieldName::Md5Checksums => assert("md5sums"@ =~= literal_chars(name)),
        AnyFieldName::Sha1Checksums => assert("sha1sums"@ =~= literal_chars(name)),
        AnyFieldName::Sha224Checksums => assert("sha224sums"@ =~= literal_chars(name)),
        AnyFieldName::Sha256Checksums => assert("sha256sums"@ =~= literal_chars(name)),
        AnyFieldName::Sha384Checksums => assert("sha384sums"@ =~= literal_chars(name)),
        AnyFieldName::Sha512Checksums => assert("sha512sums"@ =~= literal_chars(name)),
    }
}

/// Every name is a header name or a base name, and none is both.
pub proof fn lemma_header_and_base_names_partition(name: AnyFieldName)
    ensures
        HeaderFieldName::of_any(name) is Some <==> BaseFieldName::of_any(name) is None,
{
}

/// Widening loses nothing: narrowing a widened header name gives the name back, and a name
/// narrows to no header name but the one that widens to it.
pub proof fn lemma_header_name_round_trip(narrow: HeaderFieldName, name: AnyFieldName)
    ensures
        HeaderFieldName::of_any(narrow.any()) == Some(narrow),
        HeaderFieldName::of_any(name) == Some(narrow) <==> narrow.any() == name,
{
}

/// Widening loses nothing: narrowing a widened base name gives the name back, and a name
/// narrows to no base name but the one that widens to it.
pub proof fn lemma_base_name_round_trip(narrow: BaseFieldName, name: AnyFieldName)
    ensures
        BaseFieldName::of_any(narrow.any()) == Some(narrow),
        BaseFieldName::of_any(name) == Some(narrow) <==> narrow.any() == name,
{
}

/// Widening loses nothing: narrowing a widened shared name gives the name back, and a name
/// narrows to no shared name but the one that widens to it.
pub proof fn lemma_derivative_name_round_trip(narrow: DerivativeFieldName, name: AnyFieldName)
    ensures
        DerivativeFieldName::of_any(narrow.any()) == Some(narrow),
        DerivativeFieldName::of_any(name) == Some(narrow) <==> narrow.any() == name,
{
}

/// The shared names are the base names that a derivative section holds too: a shared name
/// is the same name whether it is widened at once or by way of the base names, and no
/// shared name is single-valued.
pub proof fn lemma_shared_names_are_base_names(shared: DerivativeFieldName)
    ensures
        shared.base().any() == shared.any(),
        BaseFieldName::of_any(shared.any()) == Some(shared.base()),
        DerivativeFieldName::of_base(shared.base()) == Some(shared),
        !shared.any().single_valued(),
{
}


/// The literal of each name, character by character.
pub open spec fn literal_chars(name: AnyFieldName) -> Seq<char> {
    match name {
        AnyFieldName::Base => seq!['p', 'k', 'g', 'b', 'a', 's', 'e'],
        AnyFieldName::Name => seq!['p', 'k', 'g', 'n', 'a', 'm', 'e'],
        AnyFieldName::Epoch => seq!['e', 'p', 'o', 'c', 'h'],
        AnyFieldName::Release => seq!['p', 'k', 'g', 'r', 'e', 'l'],
        AnyFieldName::ValidPgpKeys => seq![
            'v', 'a', 'l', 'i', 'd', 'p', 'g', 'p', 'k', 'e', 'y', 's',
        ],
        AnyFieldName::Version => seq!['p', 'k', 'g', 'v', 'e', 'r'],
        AnyFieldName::Architecture => seq!['a', 'r', 'c', 'h'],
        AnyFieldName::Backup => seq!['b', 'a', 'c', 'k', 'u', 'p'],
        AnyFieldName::ChangeLog => seq!['c', 'h', 'a', 'n', 'g', 'e', 'l', 'o', 'g'],
        AnyFieldName::Description => seq!['p', 'k', 'g', 'd', 'e', 's', 'c'],
        AnyFieldName::Groups => seq!['g', 'r', 'o', 'u', 'p', 's'],
        AnyFieldName::Install => seq!['i', 'n', 's', 't', 'a', 'l', 'l'],
        AnyFieldName::License => seq!['l', 'i', 'c', 'e', 'n', 's', 'e'],
        AnyFieldName::NoExtract => seq!['n', 'o', 'e', 'x', 't', 'r', 'a', 'c', 't'],
        AnyFieldName::Options => seq!['o', 'p', 't', 'i', 'o', 'n', 's'],
        AnyFieldName::Source => seq!['s', 'o', 'u', 'r', 'c', 'e'],
        AnyFieldName::Url => seq!['u', 'r', 'l'],
        AnyFieldName::Dependencies => seq!['d', 'e', 'p', 'e', 'n', 'd', 's'],
        AnyFieldName::CheckDependencies => seq![
            'c', 'h', 'e', 'c', 'k', 'd', 'e', 'p', 'e', 'n', 'd', 's',
        ],
        AnyFieldName::MakeDependencies => seq![
            'm', 'a', 'k', 'e', 'd', 'e', 'p', 'e', 'n', 'd', 's',
        ],
        AnyFieldName::OptionalDependencies => seq![
            'o', 'p', 't', 'd', 'e', 'p', 'e', 'n', 'd', 's',
        ],
        AnyFieldName::Provides => seq!['p', 'r', 'o', 'v', 'i', 'd', 'e', 's'],
        AnyFieldName::Conflicts => seq!['c', 'o', 'n', 'f', 'l', 'i', 'c', 't', 's'],
        AnyFieldName::Replaces => seq!['r', 'e', 'p', 'l', 'a', 'c', 'e', 's'],
        AnyFieldName::Md5Checksums => seq!['m', 'd', '5', 's', 'u', 'm', 's'],
        AnyFieldName::Sha1Checksums => seq!['s', 'h', 'a', '1', 's', 'u', 'm', 's'],
        AnyFieldName::Sha224Checksums => seq!['s', 'h', 'a', '2', '2', '4', 's', 'u', 'm', 's'],
        AnyFieldName::Sha256Checksums => seq!['s', 'h', 'a', '2', '5', '6', 's', 'u', 'm', 's'],
        AnyFieldName::Sha384Checksums => seq!['s', 'h', 'a', '3', '8', '4', 's', 'u', 'm', 's'],
        AnyFieldName::Sha512Checksums => seq!['s', 'h', 'a', '5', '1', '2', 's', 'u', 'm', 's'],
    }
}

} // verus!
