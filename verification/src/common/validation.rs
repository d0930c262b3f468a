//! Field-level validation failures of request DTOs.
use vstd::prelude::*;
use crate::common::text::str_eq;

verus! {

/// The names of the fields that failed validation, in the order checked.
#[derive(Debug)]
pub struct FieldErrors {
    fields: Vec<&'static str>,
}

impl FieldErrors {
    /// The failing field names.
    pub closed spec fn names(&self) -> Seq<Seq<char>> {
        self.fields@.map_values(|f: &'static str| f@)
    }

    /// Whether the field named `field` failed validation.
    pub fn contains_key(&self, field: &str) -> (r: bool)
        ensures
            r == self.names().contains(field@),
    {
        let mut i: usize = 0;
        while i < self.fields.len()
            invariant
                i <= self.fields@.len(),
                forall|k: int| 0 <= k < i ==> self.fields@[k]@ != field@,
            decreases self.fields@.len() - i,
        {
            if str_eq(self.fields[i], field) {
                assert(self.names()[i as int] == field@);
                return true;
            }
            i = i + 1;
        }
        proof {
            if self.names().contains(field@) {
                let k = choose|k: int| 0 <= k < self.names().len() && self.names()[k] == field@;
                assert(self.fields@[k]@ == field@);
            }
        }
        false
    }

    /// The failing field names, in the order checked.
    pub fn field_names(&self) -> (r: &Vec<&'static str>)
        ensures
            r@.map_values(|f: &'static str| f@) == self.names(),
    {
        &self.fields
    }

    /// Number of failing fields.
    pub fn len(&self) -> (r: usize)
        ensures
            r == self.names().len(),
    {
        self.fields.len()
    }
}

/// The outcome of validating a DTO that did not pass.
#[derive(Debug)]
pub struct ValidationErrors {
    field_errors: FieldErrors,
}

impl ValidationErrors {
    /// The failing field names.
    pub closed spec fn names(&self) -> Seq<Seq<char>> {
        self.field_errors.names()
    }

    /// Failures per field.
    pub fn field_errors(&self) -> (r: &FieldErrors)
        ensures
            r.names() == self.names(),
    {
        &self.field_errors
    }
}

/// Collects failing field names while a DTO is checked.
pub struct FieldCollector {
    fields: Vec<&'static str>,
}

impl FieldCollector {
    pub closed spec fn names(&self) -> Seq<Seq<char>> {
        self.fields@.map_values(|f: &'static str| f@)
    }

    pub fn new() -> (r: FieldCollector)
        ensures
            r.names() == Seq::<Seq<char>>::empty(),
    {
        let r = FieldCollector { fields: Vec::new() };
        assert(r.names() =~= Seq::<Seq<char>>::empty());
        r
    }

    /// Records `field` as failing when `ok` is false.
    pub fn check(&mut self, ok: bool, field: &'static str)
        ensures
            final(self).names() == if ok { old(self).names() } else { old(self).names().push(
                field@,
            ) },
    {
        if !ok {
            self.fields.push(field);
            assert(self.names() =~= old(self).names().push(field@));
        }
    }

    /// `Ok(())` when nothing failed, otherwise the failing fields.
    pub fn finish(self) -> (r: Result<(), ValidationErrors>)
        ensures
            match r {
                Ok(()) => self.names().len() == 0,
                Err(e) => self.names().len() > 0 && e.names() == self.names(),
            },
    {
        if self.fields.len() == 0 {
            Ok(())
        } else {
            let e = ValidationErrors { field_errors: FieldErrors { fields: self.fields } };
            Err(e)
        }
    }
}


/// A single rule that a value broke, named by its code.
#[derive(Debug)]
pub struct ValidationError {
    code: &'static str,
}

impl ValidationError {
    pub closed spec fn code_view(&self) -> Seq<char> {
        self.code@
    }

    pub fn new(code: &'static str) -> (r: ValidationError)
        ensures
            r.code_view() == code@,
    {
        ValidationError { code }
    }

    /// The code of the broken rule.
    pub fn code(&self) -> (r: &'static str)
        ensures
            r@ == self.code_view(),
    {
        self.code
    }
}

/// Whether `validator` judges `s` to be an e-mail address (HTML5 rules,
/// length limits of RFC 5321, internationalised domains).
pub uninterp spec fn is_valid_email(s: Seq<char>) -> bool;

/// `validator::ValidateEmail::validate_email` on a string. The result is
/// named `is_valid_email`; the source rejects any text without an `@` before
/// any other check. The rest of its rules are left unsaid.
#[verifier::external_body]
pub(crate) fn validate_email(s: &str) -> (r: bool)
    ensures
        r == is_valid_email(s@),
        !s@.contains('@') ==> !r,
{
    validator::ValidateEmail::validate_email(&s)
}

/// `validator`'s length rule: the number of characters lies in `min..=max`.
pub open spec fn length_within(s: Seq<char>, min: nat, max: nat) -> bool {
    min <= s.len() && s.len() <= max
}

} // verus!
