//! The contact form of the website: what a visitor may send.
//!
//! The rules on lengths and on the e-mail address are checked by the
//! `validator` crate; which fields it is asked about, and with which bounds,
//! is decided here.

use crate::bytes::copy_text;
use validator::ValidateEmail;
use validator::ValidateLength;
use vstd::prelude::*;

verus! {

/// The most characters that a name may have.
pub const NAME_MAX: u64 = 100;

/// The most characters that a country or region may have.
pub const COUNTRY_REGION_MAX: u64 = 50;

/// The most characters that a phone number may have.
pub const PHONE_NUMBER_MAX: u64 = 20;

/// The most characters that a company may have.
pub const COMPANY_MAX: u64 = 100;

/// The most characters that a message may have.
pub const MESSAGE_MAX: u64 = 2000;

/// A contact request as a visitor fills it in.
#[derive(Debug)]
pub struct ContactForm {
    pub name: String,
    pub email: String,
    pub country_region: String,
    pub phone_number: String,
    pub company: String,
    pub message: String,
}

/// What a [`ContactForm`] holds.
pub ghost struct ContactFormView {
    pub name: Seq<char>,
    pub email: Seq<char>,
    pub country_region: Seq<char>,
    pub phone_number: Seq<char>,
    pub company: Seq<char>,
    pub message: Seq<char>,
}

impl View for ContactForm {
    type V = ContactFormView;

    open spec fn view(&self) -> ContactFormView {
        ContactFormView {
            name: self.name@,
            email: self.email@,
            country_region: self.country_region@,
            phone_number: self.phone_number@,
            company: self.company@,
            message: self.message@,
        }
    }
}

impl Clone for ContactForm {
    fn clone(&self) -> (copy: ContactForm)
        ensures
            copy@ == self@,
    {
        ContactForm {
            name: copy_text(self.name.as_str()),
            email: copy_text(self.email.as_str()),
            country_region: copy_text(self.country_region.as_str()),
            phone_number: copy_text(self.phone_number.as_str()),
            company: copy_text(self.company.as_str()),
            message: copy_text(self.message.as_str()),
        }
    }
}

/// A field of the contact form.
#[derive(Clone, Copy, Debug, PartialEq, Eq, Structural)]
pub enum ContactField {
    Name,
    Email,
    CountryRegion,
    PhoneNumber,
    Company,
    Message,
}

/// Whether the `validator` crate takes `text` for an e-mail address.
pub uninterp spec fn email_accepted(text: Seq<char>) -> bool;

/// Whether a text has at least `min` and at most `max` characters, each bound
/// counting only where it is given.
pub open spec fn length_within(text: Seq<char>, min: Option<u64>, max: Option<u64>) -> bool {
    &&& min is Some ==> text.len() >= min->0
    &&& max is Some ==> text.len() <= max->0
}

/// `ValidateEmail::validate_email` of the `validator` crate, on a text.
/// Nothing is claimed but that the answer depends on the text alone.
#[verifier::external_body]
fn validator_email(text: &str) -> (ok: bool)
    ensures
        ok == email_accepted(text@),
{
    text.validate_email()
}

/// `ValidateLength::validate_length` of the `validator` crate, on a text and
/// without its `equal` bound: it counts the characters of the text and holds
/// the count against each bound that is given.
#[verifier::external_body]
fn validator_length(text: &str, min: Option<u64>, max: Option<u64>) -> (ok: bool)
    ensures
        ok == length_within(text@, min, max),
{
    text.validate_length(min, max, None)
}

impl ContactFormView {
    /// Whether a field holds what the form allows.
    pub open spec fn field_ok(self, field: ContactField) -> bool {
        match field {
            ContactField::Name => length_within(self.name, Some(1), Some(NAME_MAX)),
            ContactField::Email => email_accepted(self.email),
            ContactField::CountryRegion => length_within(
                self.country_region,
                None,
                Some(COUNTRY_REGION_MAX),
            ),
            ContactField::PhoneNumber => length_within(
                self.phone_number,
                None,
                Some(PHONE_NUMBER_MAX),
            ),
            ContactField::Company => length_within(self.company, None, Some(COMPANY_MAX)),
            ContactField::Message => length_within(self.message, Some(1), Some(MESSAGE_MAX)),
        }
    }

    /// Whether every field holds what the form allows.
    pub open spec fn valid(self) -> bool {
        forall|field: ContactField| self.field_ok(field)
    }

    /// The fields that do not hold what the form allows, in the order of the
    /// form.
    pub open spec fn refused_fields(self) -> Seq<ContactField> {
        all_fields().filter(|field: ContactField| !self.field_ok(field))
    }
}

/// The fields of the form, in its order.
pub open spec fn all_fields() -> Seq<ContactField> {
    seq![
        ContactField::Name,
        ContactField::Email,
        ContactField::CountryRegion,
        ContactField::PhoneNumber,
        ContactField::Company,
        ContactField::Message,
    ]
}

/// A form is valid exactly if none of its fields is refused.
pub proof fn valid_means_no_field_refused(form: ContactFormView)
    ensures
        form.valid() <==> form.refused_fields().len() == 0,
{
    let refused = |field: ContactField| !form.field_ok(field);
    let fields = all_fields();
    if form.valid() {
        if fields.filter(refused).len() > 0 {
            fields.lemma_filter_pred(refused, 0);
            assert(refused(fields.filter(refused)[0]));
        }
    }
    if fields.filter(refused).len() == 0 {
        assert forall|field: ContactField| form.field_ok(field) by {
            let i: int = match field {
                ContactField::Name => 0,
                ContactField::Email => 1,
                ContactField::CountryRegion => 2,
                ContactField::PhoneNumber => 3,
                ContactField::Company => 4,
                ContactField::Message => 5,
            };
            assert(fields[i] == field);
            if !form.field_ok(field) {
                fields.lemma_filter_contains(refused, i);
                assert(fields.filter(refused).contains(fields[i]));
            }
        }
    }
}

impl ContactForm {
    /// Whether one field holds what the form allows.
    pub fn field_ok(&self, field: ContactField) -> (ok: bool)
        ensures
            ok == self@.field_ok(field),
    {
        match field {
            ContactField::Name => validator_length(self.name.as_str(), Some(1), Some(NAME_MAX)),
            ContactField::Email => validator_email(self.email.as_str()),
            ContactField::CountryRegion => validator_length(
                self.country_region.as_str(),
                None,
                Some(COUNTRY_REGION_MAX),
            ),
            ContactField::PhoneNumber => validator_length(
                self.phone_number.as_str(),
                None,
                Some(PHONE_NUMBER_MAX),
            ),
            ContactField::Company => validator_length(
                self.company.as_str(),
                None,
                Some(COMPANY_MAX),
            ),
            ContactField::Message => validator_length(
                self.message.as_str(),
                Some(1),
                Some(MESSAGE_MAX),
            ),
        }
    }

    /// Checks the form. A form that is refused comes back with the fields
    /// that are at fault, in the order of the form.
    pub fn validate(&self) -> (result: Result<(), Vec<ContactField>>)
        ensures
            result is Ok <==> self@.valid(),
            result is Err ==> result->Err_0@ == self@.refused_fields(),
    {
        let fields = [
            ContactField::Name,
            ContactField::Email,
            ContactField::CountryRegion,
            ContactField::PhoneNumber,
            ContactField::Company,
            ContactField::Message,
        ];
        let ghost refused = |field: ContactField| !self@.field_ok(field);
        let mut at_fault: Vec<ContactField> = Vec::new();
        let mut i: usize = 0;
        proof {
            reveal(Seq::filter);
            assert(fields@ =~= all_fields());
            assert(fields@.take(0).filter(refused) =~= at_fault@);
        }
        while i < 6
            invariant
                i <= 6,
                fields@ == all_fields(),
                refused == (|field: ContactField| !self@.field_ok(field)),
                at_fault@ == fields@.take(i as int).filter(refused),
            decreases 6 - i,
        {
            proof {
                reveal(Seq::filter);
                let front = fields@.take(i + 1);
                assert(front.drop_last() =~= fields@.take(i as int));
                assert(front.last() == fields@[i as int]);
            }
            if !self.field_ok(fields[i]) {
                at_fault.push(fields[i]);
            }
            i += 1;
        }
        proof {
            assert(fields@.take(6) =~= fields@);
            valid_means_no_field_refused(self@);
        }
        if at_fault.len() == 0 {
            Ok(())
        } else {
            Err(at_fault)
        }
    }
}

} // verus!
