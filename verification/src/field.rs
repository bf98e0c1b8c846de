//! A key of the text that was recognized as a field name.
use crate::field_name::AnyFieldName;
use vstd::prelude::*;

verus! {

/// A recognized field name together with the key of the text that spells it.
#[derive(Debug, Clone, Copy)]
pub struct ParsedField<'a> {
    name: AnyFieldName,
    raw: &'a str,
}

impl<'a> ParsedField<'a> {
    /// The raw text is the literal of the name.
    #[verifier::type_invariant]
    spec fn spelled(self) -> bool {
        self.raw@ == self.name.literal()
    }

    /// The name that the key stands for.
    pub closed spec fn field_name(self) -> AnyFieldName {
        self.name
    }

    /// Resolves `key` against the vocabulary. An unknown key gives `None`: it is no error.
    pub fn parse(key: &'a str) -> (r: Option<ParsedField<'a>>)
        ensures
            match r {
                Some(field) => AnyFieldName::of_literal(key@) == Some(field.field_name()),
                None => AnyFieldName::of_literal(key@) is None,
            },
    {
        proof {
            crate::field_name::lemma_of_literal(key@);
        }
        match AnyFieldName::parse(key) {
            Some(name) => Some(ParsedField { name, raw: key }),
            None => None,
        }
    }

    /// The field of a name, spelled by the name's own literal.
    pub fn new(name: AnyFieldName) -> (r: ParsedField<'static>)
        ensures
            r.field_name() == name,
    {
        ParsedField { name, raw: name.as_str() }
    }

    /// The name that the key stands for.
    pub fn name(&self) -> (r: AnyFieldName)
        ensures
            r == self.field_name(),
    {
        self.name
    }

    /// The key as it stands in the text.
    pub fn raw(&self) -> (r: &'a str)
        ensures
            r@ == self.field_name().literal(),
    {
        proof {
            use_type_invariant(self);
        }
        self.raw
    }
}

} // verus!
