//! Wizard forms: collect named values, blocking completion until every
//! required field is filled.

use vstd::prelude::*;

use crate::domain::models::str_map::StrMap;
use crate::text::{concat2, is_blank, is_blank_str, join, join_strings, owned, str_eq};

verus! {

/// A single field in a wizard form.
#[derive(Debug, PartialEq, Eq)]
pub struct FieldSpec {
    /// Field key.
    pub name: String,
    /// Whether the field must be filled before completion.
    pub required: bool,
}

impl FieldSpec {
    /// A required field.
    pub fn required(name: &str) -> (r: Self)
        ensures
            r.name@ == name@,
            r.required,
    {
        FieldSpec { name: owned(name), required: true }
    }

    /// An optional field.
    pub fn optional(name: &str) -> (r: Self)
        ensures
            r.name@ == name@,
            !r.required,
    {
        FieldSpec { name: owned(name), required: false }
    }
}

/// The name and requiredness of each field.
pub open spec fn field_views(fields: Seq<FieldSpec>) -> Seq<(Seq<char>, bool)> {
    fields.map_values(|f: FieldSpec| (f.name@, f.required))
}

/// Some field is named `name`.
pub open spec fn declares(fields: Seq<(Seq<char>, bool)>, name: Seq<char>) -> bool {
    exists|i: int| 0 <= i < fields.len() && #[trigger] fields[i].0 == name
}

/// The names of the required fields without a value, in field order.
pub open spec fn missing_of(fields: Seq<(Seq<char>, bool)>, values: Map<Seq<char>, Seq<char>>) -> Seq<Seq<char>>
    decreases fields.len(),
{
    if fields.len() == 0 {
        Seq::empty()
    } else {
        let rest = missing_of(fields.drop_last(), values);
        let f = fields.last();
        if f.1 && !values.contains_key(f.0) {
            rest.push(f.0)
        } else {
            rest
        }
    }
}

/// Wizard completion failures.
#[derive(Debug, PartialEq, Eq)]
pub enum WizardError {
    /// One or more required fields are still empty; lists them, comma-separated.
    MissingRequired(String),
}

impl WizardError {
    /// The human-readable message of this error.
    pub fn message(&self) -> (r: String)
        ensures
            self matches WizardError::MissingRequired(m) && r@ == "required field(s) missing: "@ + m@,
    {
        match self {
            WizardError::MissingRequired(m) => concat2("required field(s) missing: ", m.as_str()),
        }
    }
}

/// A wizard form that blocks completion until required fields are filled.
#[derive(Debug)]
pub struct WizardForm {
    fields: Vec<FieldSpec>,
    values: StrMap<String>,
}

impl WizardForm {
    #[verifier::type_invariant]
    spec fn known_and_filled(self) -> bool {
        forall|k: Seq<char>| #[trigger] self.values@.contains_key(k) ==> declares(
            field_views(self.fields@),
            k,
        ) && !is_blank(self.values@[k]@)
    }

    /// The form's fields, in order: name and whether it is required.
    pub closed spec fn fields(&self) -> Seq<(Seq<char>, bool)> {
        field_views(self.fields@)
    }

    /// The values collected so far, by field name.
    pub closed spec fn values(&self) -> Map<Seq<char>, Seq<char>> {
        self.values@.map_values(|v: String| v@)
    }

    /// The required fields still without a value.
    pub open spec fn missing(&self) -> Seq<Seq<char>> {
        missing_of(self.fields(), self.values())
    }

    /// Build a form from its field specification; no value is set.
    pub fn new(fields: Vec<FieldSpec>) -> (r: Self)
        ensures
            r.fields() == field_views(fields@),
            r.values() == Map::<Seq<char>, Seq<char>>::empty(),
    {
        let r = WizardForm { fields, values: StrMap::new() };
        assert(r.values() =~= Map::<Seq<char>, Seq<char>>::empty());
        r
    }

    fn declares_field(&self, name: &str) -> (r: bool)
        ensures
            r == declares(self.fields(), name@),
    {
        let mut i: usize = 0;
        while i < self.fields.len()
            invariant
                i <= self.fields@.len(),
                forall|j: int| 0 <= j < i ==> (#[trigger] self.fields()[j]).0 != name@,
            decreases self.fields.len() - i,
        {
            if str_eq(self.fields[i].name.as_str(), name) {
                assert(self.fields()[i as int].0 == name@);
                return true;
            }
            i = i + 1;
        }
        false
    }

    /// Set a known field's value. Unknown fields are ignored; a blank value
    /// clears the field.
    pub fn set(&mut self, name: &str, value: &str)
        ensures
            final(self).fields() == old(self).fields(),
            final(self).values() == if !declares(old(self).fields(), name@) {
                old(self).values()
            } else if is_blank(value@) {
                old(self).values().remove(name@)
            } else {
                old(self).values().insert(name@, value@)
            },
    {
        proof {
            use_type_invariant(&*self);
        }
        if self.declares_field(name) {
            let mut values: StrMap<String> = StrMap::new();
            std::mem::swap(&mut values, &mut self.values);
            let blank = is_blank_str(value);
            if blank {
                values.remove(name);
            } else {
                values.insert(owned(name), owned(value));
            }
            self.values = values;
            if blank {
                assert(self.values() =~= old(self).values().remove(name@));
            } else {
                assert(self.values() =~= old(self).values().insert(name@, value@));
            }
        }
    }

    /// Required fields that are still empty.
    pub fn missing_required(&self) -> (r: Vec<String>)
        ensures
            r.deep_view() == self.missing(),
    {
        let mut out: Vec<String> = Vec::new();
        let n = self.fields.len();
        let mut i: usize = 0;
        while i < n
            invariant
                n == self.fields().len(),
                i <= n,
                out.deep_view() == missing_of(self.fields().subrange(0, i as int), self.values()),
            decreases n - i,
        {
            proof {
                assert(self.fields().subrange(0, i + 1).drop_last() =~= self.fields().subrange(0, i as int));
            }
            let f = &self.fields[i];
            if f.required && !self.values.contains_key(f.name.as_str()) {
                out.push(f.name.clone());
            }
            i = i + 1;
        }
        assert(self.fields().subrange(0, n as int) =~= self.fields());
        out
    }

    /// Whether the form may be completed.
    pub fn can_complete(&self) -> (r: bool)
        ensures
            r == (self.missing().len() == 0),
    {
        self.missing_required().len() == 0
    }

    /// Complete the wizard, returning the collected values or the blocking error.
    pub fn complete(self) -> (r: Result<StrMap<String>, WizardError>)
        ensures
            r is Ok <==> self.missing().len() == 0,
            r matches Ok(v) ==> v@.map_values(|s: String| s@) == self.values(),
            r matches Err(WizardError::MissingRequired(m)) ==> m@ == join(self.missing(), ", "@),
    {
        let missing = self.missing_required();
        if missing.len() == 0 {
            Ok(self.values)
        } else {
            Err(WizardError::MissingRequired(join_strings(&missing, ", ")))
        }
    }
}

/// The persona-creation wizard's fields: name and responsibility are
/// required, skills optional.
pub open spec fn persona_fields() -> Seq<(Seq<char>, bool)> {
    seq![("name"@, true), ("responsibility"@, true), ("skills"@, false)]
}

/// The persona-creation wizard: name + responsibility are required.
pub fn persona_wizard() -> (r: WizardForm)
    ensures
        r.fields() == persona_fields(),
        r.values() == Map::<Seq<char>, Seq<char>>::empty(),
{
    let mut fields: Vec<FieldSpec> = Vec::new();
    fields.push(FieldSpec::required("name"));
    fields.push(FieldSpec::required("responsibility"));
    fields.push(FieldSpec::optional("skills"));
    assert(field_views(fields@) =~= persona_fields());
    WizardForm::new(fields)
}

/// Completion is allowed exactly when every required field has a value.
pub proof fn lemma_can_complete_iff_required_filled(
    fields: Seq<(Seq<char>, bool)>,
    values: Map<Seq<char>, Seq<char>>,
)
    ensures
        (missing_of(fields, values).len() == 0) <==> (forall|i: int|
            0 <= i < fields.len() && (#[trigger] fields[i]).1 ==> values.contains_key(fields[i].0)),
    decreases fields.len(),
{
    if fields.len() > 0 {
        let init = fields.drop_last();
        lemma_can_complete_iff_required_filled(init, values);
        assert forall|i: int| 0 <= i < init.len() implies #[trigger] init[i] == fields[i] by {}
        if missing_of(fields, values).len() == 0 {
            assert forall|i: int| 0 <= i < fields.len() && (#[trigger] fields[i]).1 implies values.contains_key(
                fields[i].0,
            ) by {
                if i < init.len() {
                    assert(init[i] == fields[i]);
                }
            }
        }
        if forall|i: int| 0 <= i < fields.len() && (#[trigger] fields[i]).1 ==> values.contains_key(fields[i].0) {
            assert forall|i: int| 0 <= i < init.len() && (#[trigger] init[i]).1 implies values.contains_key(
                init[i].0,
            ) by {
                assert(init[i] == fields[i]);
            }
            assert(fields[fields.len() - 1] == fields.last());
        }
    }
}

} // verus!
