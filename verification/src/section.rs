//! What a section stores: for each field the values assigned to it.
//!
//! A section is seen as a map from every field name of its vocabulary to the texts stored
//! under that name, oldest first; a name without a value maps to the empty sequence.
use crate::field_name::BaseFieldName;
use crate::field_name::DerivativeFieldName;
use crate::field_name::FieldName;
use vstd::prelude::*;

verus! {

/// The characters of each text of `values`.
pub open spec fn texts(values: Seq<&str>) -> Seq<Seq<char>> {
    Seq::new(values.len(), |i: int| values[i]@)
}

/// The section in which no field has a value.
pub open spec fn empty_section<F>() -> Map<F, Seq<Seq<char>>> {
    Map::new(|field: F| true, |field: F| Seq::<Seq<char>>::empty())
}

/// A second value for a single-valued field: the field, the value it holds and the value
/// that was refused.
pub struct AlreadySet<F> {
    pub field: F,
    pub previous: Seq<char>,
    pub attempted: Seq<char>,
}

/// `section` after `value` was assigned to `field`. Where the field is single-valued and
/// holds a value, the assignment is refused; otherwise `value` is appended to what the
/// field holds.
pub open spec fn insert_value<F>(
    section: Map<F, Seq<Seq<char>>>,
    single_valued: bool,
    field: F,
    value: Seq<char>,
) -> Result<Map<F, Seq<Seq<char>>>, AlreadySet<F>> {
    if single_valued && section[field].len() > 0 {
        Err(AlreadySet { field, previous: section[field].first(), attempted: value })
    } else {
        Ok(section.insert(field, section[field].push(value)))
    }
}

/// `Vec::shrink_to_fit`. Of the std function this claims what its documentation says: it
/// lowers the capacity; the elements stay.
#[verifier::external_body]
fn shrink_values<'a>(values: &mut Vec<&'a str>)
    ensures
        final(values)@ == old(values)@,
{
    values.shrink_to_fit()
}

/// Whether every field of the base section has an entry and no single-valued field
/// holds more than one value.
pub open spec fn base_section_wf(section: Map<BaseFieldName, Seq<Seq<char>>>) -> bool {
    forall|field: BaseFieldName|
        #![trigger section[field]]
        #![trigger section.dom().contains(field)]
        section.dom().contains(field) && (field.any().single_valued() ==> section[field].len()
            <= 1)
}

/// The fields of the base section.
///
/// For each name of [`BaseFieldName`] it holds the values assigned to that name,
/// in the order in which they were assigned.
#[derive(Debug, Clone)]
pub struct ParsedSrcinfoBaseSection<'a> {
    slots: [Vec<&'a str>; 28],
}

impl<'a> View for ParsedSrcinfoBaseSection<'a> {
    type V = Map<BaseFieldName, Seq<Seq<char>>>;

    /// For every name the texts stored under it, oldest first.
    closed spec fn view(&self) -> Map<BaseFieldName, Seq<Seq<char>>> {
        Map::new(
            |field: BaseFieldName| true,
            |field: BaseFieldName| texts(self.slots@[field.ordinal()]@),
        )
    }
}

impl<'a> Default for ParsedSrcinfoBaseSection<'a> {
    /// A section with no value.
    fn default() -> (r: Self)
        ensures
            r@ == empty_section::<BaseFieldName>(),
    {
        let r = ParsedSrcinfoBaseSection {
            slots: [
                Vec::new(),
                Vec::new(),
                Vec::new(),
                Vec::new(),
                Vec::new(),
                Vec::new(),
                Vec::new(),
                Vec::new(),
                Vec::new(),
                Vec::new(),
                Vec::new(),
                Vec::new(),
                Vec::new(),
                Vec::new(),
                Vec::new(),
                Vec::new(),
                Vec::new(),
                Vec::new(),
                Vec::new(),
                Vec::new(),
                Vec::new(),
                Vec::new(),
                Vec::new(),
                Vec::new(),
                Vec::new(),
                Vec::new(),
                Vec::new(),
                Vec::new(),
            ],
        };
        assert forall|field: BaseFieldName| #[trigger]
            r@[field] == Seq::<Seq<char>>::empty() by {
            assert(r.slots@[field.ordinal()]@.len() == 0);
            assert(texts(r.slots@[field.ordinal()]@) =~= Seq::empty());
        }
        assert(r@ =~= empty_section::<BaseFieldName>());
        r
    }
}

impl<'a> ParsedSrcinfoBaseSection<'a> {
    /// No single-valued field holds more than one value.
    pub open spec fn wf(self) -> bool {
        base_section_wf(self@)
    }

    /// Stores `value` under `field`. A single-valued field that already holds a value keeps
    /// it, and the error names that value and the refused one; any other field gets `value`
    /// appended.
    pub fn insert(&mut self, field: BaseFieldName, value: &'a str) -> (r: Result<
        (),
        ParsedSrcinfoAlreadySetError<'a>,
    >)
        ensures
            match insert_value(old(self)@, field.any().single_valued(), field, value@) {
                Ok(section) => r is Ok && final(self)@ == section,
                Err(refused) => r matches Err(e) && e@ == refused && final(self)@ == old(self)@,
            },
            old(self).wf() ==> final(self).wf(),
    {
        let slot = field.index();
        if field.into_any().is_single_valued() && self.slots[slot].len() > 0 {
            let previous = self.slots[slot][0];
            return Err(ParsedSrcinfoAlreadySetError { field, previous, attempted: value });
        }
        self.slots[slot].push(value);
        proof {
            let stored = old(self)@[field].push(value@);
            assert(texts(self.slots@[field.ordinal()]@) =~= stored);
            assert(self@ =~= old(self)@.insert(field, stored));
        }
        Ok(())
    }

    /// The values stored under `field`, oldest first.
    pub fn values(&self, field: BaseFieldName) -> (r: &Vec<&'a str>)
        ensures
            texts(r@) == self@[field],
    {
        &self.slots[field.index()]
    }

    /// The raw text stored under `field`, if any: its first value.
    pub fn query_raw_text(&self, field: BaseFieldName) -> (r: Option<&'a str>)
        ensures
            match r {
                Some(text) => self@[field].len() > 0 && text@ == self@[field].first(),
                None => self@[field].len() == 0,
            },
    {
        let values = &self.slots[field.index()];
        if values.len() > 0 {
            Some(values[0])
        } else {
            None
        }
    }

    /// Gives back the storage that the section holds beyond its values. The values stay as
    /// they are.
    pub fn shrink_to_fit(&mut self)
        ensures
            final(self)@ == old(self)@,
    {
        let mut slot: usize = 0;
        while slot < 28
            invariant
                slot <= 28,
                forall|i: int|
                    0 <= i < 28 ==> self.slots@[i]@ == #[trigger] old(self).slots@[i]@,
            decreases 28 - slot,
        {
            shrink_values(&mut self.slots[slot]);
            slot += 1;
        }
        assert(self@ =~= old(self)@);
    }
}

/// A second value for a single-valued field of the base section.
#[derive(Debug, Clone, Copy)]
pub struct ParsedSrcinfoAlreadySetError<'a> {
    /// The field that was assigned twice.
    pub field: BaseFieldName,
    /// The value that the field holds.
    pub previous: &'a str,
    /// The value that was refused.
    pub attempted: &'a str,
}

impl<'a> View for ParsedSrcinfoAlreadySetError<'a> {
    type V = AlreadySet<BaseFieldName>;

    open spec fn view(&self) -> AlreadySet<BaseFieldName> {
        AlreadySet { field: self.field, previous: self.previous@, attempted: self.attempted@ }
    }
}

/// Whether every field of a derivative section has an entry and no single-valued field
/// holds more than one value.
pub open spec fn derivative_section_wf(section: Map<DerivativeFieldName, Seq<Seq<char>>>) -> bool {
    forall|field: DerivativeFieldName|
        #![trigger section[field]]
        #![trigger section.dom().contains(field)]
        section.dom().contains(field) && (field.any().single_valued() ==> section[field].len()
            <= 1)
}

/// The fields of a derivative section.
///
/// For each name of [`DerivativeFieldName`] it holds the values assigned to that name,
/// in the order in which they were assigned.
#[derive(Debug, Clone)]
pub struct ParsedSrcinfoDerivativeSection<'a> {
    slots: [Vec<&'a str>; 24],
}

impl<'a> View for ParsedSrcinfoDerivativeSection<'a> {
    type V = Map<DerivativeFieldName, Seq<Seq<char>>>;

    /// For every name the texts stored under it, oldest first.
    closed spec fn view(&self) -> Map<DerivativeFieldName, Seq<Seq<char>>> {
        Map::new(
            |field: DerivativeFieldName| true,
            |field: DerivativeFieldName| texts(self.slots@[field.ordinal()]@),
        )
    }
}

impl<'a> Default for ParsedSrcinfoDerivativeSection<'a> {
    /// A section with no value.
    fn default() -> (r: Self)
        ensures
            r@ == empty_section::<DerivativeFieldName>(),
    {
        let r = ParsedSrcinfoDerivativeSection {
            slots: [
                Vec::new(),
                Vec::new(),
                Vec::new(),
                Vec::new(),
                Vec::new(),
                Vec::new(),
                Vec::new(),
                Vec::new(),
                Vec::new(),
                Vec::new(),
                Vec::new(),
                Vec::new(),
                Vec::new(),
                Vec::new(),
                Vec::new(),
                Vec::new(),
                Vec::new(),
                Vec::new(),
                Vec::new(),
                Vec::new(),
                Vec::new(),
                Vec::new(),
                Vec::new(),
                Vec::new(),
            ],
        };
        assert forall|field: DerivativeFieldName| #[trigger]
            r@[field] == Seq::<Seq<char>>::empty() by {
            assert(r.slots@[field.ordinal()]@.len() == 0);
            assert(texts(r.slots@[field.ordinal()]@) =~= Seq::empty());
        }
        assert(r@ =~= empty_section::<DerivativeFieldName>());
        r
    }
}

impl<'a> ParsedSrcinfoDerivativeSection<'a> {
    /// No single-valued field holds more than one value.
    pub open spec fn wf(self) -> bool {
        derivative_section_wf(self@)
    }

    /// Stores `value` under `field`. A single-valued field that already holds a value keeps
    /// it, and the error names that value and the refused one; any other field gets `value`
    /// appended.
    pub fn insert(&mut self, field: DerivativeFieldName, value: &'a str) -> (r: Result<
        (),
        ParsedDerivativeAlreadySetError<'a>,
    >)
        ensures
            match insert_value(old(self)@, field.any().single_valued(), field, value@) {
                Ok(section) => r is Ok && final(self)@ == section,
                Err(refused) => r matches Err(e) && e@ == refused && final(self)@ == old(self)@,
            },
            old(self).wf() ==> final(self).wf(),
    {
        let slot = field.index();
        if field.into_any().is_single_valued() && self.slots[slot].len() > 0 {
            let previous = self.slots[slot][0];
            return Err(ParsedDerivativeAlreadySetError { field, previous, attempted: value });
        }
        self.slots[slot].push(value);
        proof {
            let stored = old(self)@[field].push(value@);
            assert(texts(self.slots@[field.ordinal()]@) =~= stored);
            assert(self@ =~= old(self)@.insert(field, stored));
        }
        Ok(())
    }

    /// The values stored under `field`, oldest first.
    pub fn values(&self, field: DerivativeFieldName) -> (r: &Vec<&'a str>)
        ensures
            texts(r@) == self@[field],
    {
        &self.slots[field.index()]
    }

    /// The raw text stored under `field`, if any: its first value.
    pub fn query_raw_text(&self, field: DerivativeFieldName) -> (r: Option<&'a str>)
        ensures
            match r {
                Some(text) => self@[field].len() > 0 && text@ == self@[field].first(),
                None => self@[field].len() == 0,
            },
    {
        let values = &self.slots[field.index()];
        if values.len() > 0 {
            Some(values[0])
        } else {
            None
        }
    }

    /// Gives back the storage that the section holds beyond its values. The values stay as
    /// they are.
    pub fn shrink_to_fit(&mut self)
        ensures
            final(self)@ == old(self)@,
    {
        let mut slot: usize = 0;
        while slot < 24
            invariant
                slot <= 24,
                forall|i: int|
                    0 <= i < 24 ==> self.slots@[i]@ == #[trigger] old(self).slots@[i]@,
            decreases 24 - slot,
        {
            shrink_values(&mut self.slots[slot]);
            slot += 1;
        }
        assert(self@ =~= old(self)@);
    }
}

/// A second value for a single-valued field of a derivative section.
#[derive(Debug, Clone, Copy)]
pub struct ParsedDerivativeAlreadySetError<'a> {
    /// The field that was assigned twice.
    pub field: DerivativeFieldName,
    /// The value that the field holds.
    pub previous: &'a str,
    /// The value that was refused.
    pub attempted: &'a str,
}

impl<'a> View for ParsedDerivativeAlreadySetError<'a> {
    type V = AlreadySet<DerivativeFieldName>;

    open spec fn view(&self) -> AlreadySet<DerivativeFieldName> {
        AlreadySet { field: self.field, previous: self.previous@, attempted: self.attempted@ }
    }
}

} // verus!
