use crate::decimal::{parse_unsigned, parsed_unsigned};
use crate::field::{
    field_named, lemma_names_differ, parse_flag, parsed_flag, Field, FieldKind, FIELD_COUNT,
};
use crate::form::{form_pairs, pairs_view, parse_form, Pairs};
use crate::text::optional_view;
use vstd::prelude::*;

verus! {

/// One inbound WhatsApp message, as the sending platform notifies it.
#[derive(Clone, Debug, PartialEq, Eq)]
pub struct WhatsappMessage {
    /// Unique identifier of the message.
    pub message_sid: String,
    /// Identifier of the account that the message belongs to.
    pub account_sid: String,
    /// Identifier of the messaging service, where one is in use.
    pub messaging_service_sid: Option<String>,
    /// The sender's phone number or channel address.
    pub from: String,
    /// The recipient's phone number or channel address.
    pub to: String,
    /// The text of the message.
    pub body: String,
    /// Number of media items that come with the message.
    pub num_media: u32,
    /// Number of segments that the message was sent in.
    pub num_segments: u32,
    /// The sender's WhatsApp profile name.
    pub profile_name: String,
    /// The sender's WhatsApp identifier.
    pub wa_id: String,
    /// Whether the message has been forwarded once.
    pub forwarded: bool,
    /// Whether the message has been forwarded many times.
    pub frequently_forwarded: bool,
    /// The text of the quick-reply button that was pressed, if one was.
    pub button_text: Option<String>,
}

/// A message as a mathematical value: its texts as sequences of characters.
pub ghost struct MessageView {
    pub message_sid: Seq<char>,
    pub account_sid: Seq<char>,
    pub messaging_service_sid: Option<Seq<char>>,
    pub from: Seq<char>,
    pub to: Seq<char>,
    pub body: Seq<char>,
    pub num_media: u32,
    pub num_segments: u32,
    pub profile_name: Seq<char>,
    pub wa_id: Seq<char>,
    pub forwarded: bool,
    pub frequently_forwarded: bool,
    pub button_text: Option<Seq<char>>,
}

impl View for WhatsappMessage {
    type V = MessageView;

    open spec fn view(&self) -> MessageView {
        MessageView {
            message_sid: self.message_sid@,
            account_sid: self.account_sid@,
            messaging_service_sid: optional_view(self.messaging_service_sid),
            from: self.from@,
            to: self.to@,
            body: self.body@,
            num_media: self.num_media,
            num_segments: self.num_segments,
            profile_name: self.profile_name@,
            wa_id: self.wa_id@,
            forwarded: self.forwarded,
            frequently_forwarded: self.frequently_forwarded,
            button_text: optional_view(self.button_text),
        }
    }
}

/// Why a form is not a message.
#[derive(Clone, Copy, Debug, PartialEq, Eq, Structural)]
pub enum DecodeError {
    /// The form gives the field a second time.
    DuplicateField(Field),
    /// The form gives the field a value that it cannot hold.
    InvalidValue(Field),
    /// The form lacks a field that a message must have.
    MissingField(Field),
}

/// Where a form first gives `key`, if it does.
pub open spec fn position(pairs: Pairs, key: Seq<char>) -> Option<int>
    decreases pairs.len(),
{
    if pairs.len() == 0 {
        None
    } else {
        match position(pairs.drop_last(), key) {
            Some(i) => Some(i),
            None => if pairs.last().0 == key {
                Some(pairs.len() - 1)
            } else {
                None
            },
        }
    }
}

/// The value that a form gives a field, where it gives one.
pub open spec fn value_of(pairs: Pairs, field: Field) -> Option<Seq<char>> {
    match position(pairs, field.key()) {
        Some(i) => Some(pairs[i].1),
        None => None,
    }
}

/// What is wrong with pair `i` of a form, given the pairs before it: it
/// names a field that an earlier pair named already, or it gives a field a
/// value that the field cannot hold. A pair that names no field of the
/// message is passed over, whatever its value.
pub open spec fn fault_at(pairs: Pairs, i: int) -> Option<DecodeError>
    recommends
        0 <= i < pairs.len(),
{
    match field_named(pairs[i].0) {
        None => None,
        Some(field) => if position(pairs.take(i), field.key()) is Some {
            Some(DecodeError::DuplicateField(field))
        } else if !field.accepts(pairs[i].1) {
            Some(DecodeError::InvalidValue(field))
        } else {
            None
        },
    }
}

/// The fault of the first faulty pair among those from `start` on.
pub open spec fn first_fault_from(pairs: Pairs, start: int) -> Option<DecodeError>
    decreases pairs.len() - start,
{
    if start < 0 || start >= pairs.len() {
        None
    } else {
        match fault_at(pairs, start) {
            Some(fault) => Some(fault),
            None => first_fault_from(pairs, start + 1),
        }
    }
}

/// The fault of the first faulty pair of a form.
pub open spec fn first_fault(pairs: Pairs) -> Option<DecodeError> {
    first_fault_from(pairs, 0)
}

/// The first field, in the order of the fields, that a message must have and
/// the form does not give.
pub open spec fn first_missing(pairs: Pairs) -> Option<Field> {
    if value_of(pairs, Field::MessageSid) is None {
        Some(Field::MessageSid)
    } else if value_of(pairs, Field::AccountSid) is None {
        Some(Field::AccountSid)
    } else if value_of(pairs, Field::From) is None {
        Some(Field::From)
    } else if value_of(pairs, Field::To) is None {
        Some(Field::To)
    } else if value_of(pairs, Field::Body) is None {
        Some(Field::Body)
    } else if value_of(pairs, Field::NumMedia) is None {
        Some(Field::NumMedia)
    } else if value_of(pairs, Field::NumSegments) is None {
        Some(Field::NumSegments)
    } else if value_of(pairs, Field::ProfileName) is None {
        Some(Field::ProfileName)
    } else if value_of(pairs, Field::WaId) is None {
        Some(Field::WaId)
    } else {
        None
    }
}

/// The number that a form gives a count field.
pub open spec fn count_of(pairs: Pairs, field: Field) -> u32
    recommends
        value_of(pairs, field) is Some,
        field.accepts(value_of(pairs, field)->0),
{
    parsed_unsigned(value_of(pairs, field)->0, u32::MAX as nat)->0 as u32
}

/// The flag that a form gives: false where the form does not give it.
pub open spec fn flag_of(pairs: Pairs, field: Field) -> bool {
    match value_of(pairs, field) {
        Some(value) => parsed_flag(value) == Some(true),
        None => false,
    }
}

/// The message whose fields are what a form gives them.
pub open spec fn gathered(pairs: Pairs) -> MessageView {
    MessageView {
        message_sid: value_of(pairs, Field::MessageSid)->0,
        account_sid: value_of(pairs, Field::AccountSid)->0,
        messaging_service_sid: value_of(pairs, Field::MessagingServiceSid),
        from: value_of(pairs, Field::From)->0,
        to: value_of(pairs, Field::To)->0,
        body: value_of(pairs, Field::Body)->0,
        num_media: count_of(pairs, Field::NumMedia),
        num_segments: count_of(pairs, Field::NumSegments),
        profile_name: value_of(pairs, Field::ProfileName)->0,
        wa_id: value_of(pairs, Field::WaId)->0,
        forwarded: flag_of(pairs, Field::Forwarded),
        frequently_forwarded: flag_of(pairs, Field::FrequentlyForwarded),
        button_text: value_of(pairs, Field::ButtonText),
    }
}

/// What a form is as a message. The pairs are read in their order and the
/// first faulty one decides; a form without a faulty pair fails on the first
/// field that a message must have and the form lacks; any other form is the
/// message that it gives.
pub open spec fn decoded(pairs: Pairs) -> Result<MessageView, DecodeError> {
    match first_fault(pairs) {
        Some(fault) => Err(fault),
        None => match first_missing(pairs) {
            Some(field) => Err(DecodeError::MissingField(field)),
            None => Ok(gathered(pairs)),
        },
    }
}

/// A form is a message just when none of its pairs is faulty and it gives
/// every field that a message must have.
pub proof fn lemma_decoded_ok(pairs: Pairs)
    ensures
        decoded(pairs) is Ok <==> first_fault(pairs) is None && forall|field: Field|
            field.required() ==> #[trigger] value_of(pairs, field) is Some,
{
    if first_fault(pairs) is None && first_missing(pairs) is Some {
        assert(first_missing(pairs)->0.required());
    }
}

/// What the scan of the first `upto` pairs of a form has found: for each
/// field the pair that first gives it, which holds a value that the field
/// accepts.
spec fn records(found: Seq<Option<usize>>, pairs: Pairs, upto: int) -> bool {
    &&& found.len() == FIELD_COUNT
    &&& forall|field: Field| #[trigger]
        found[field.slot()] is Some <==> position(pairs.take(upto), field.key()) is Some
    &&& forall|field: Field| #[trigger]
        found[field.slot()] matches Some(at) ==> {
            &&& at < upto
            &&& position(pairs.take(upto), field.key()) == Some(at as int)
            &&& field.accepts(pairs[at as int].1)
        }
}

/// Adding a pair to a form leaves each field where the form gave it first,
/// and makes the new pair the place of a field that it is the first to name.
proof fn lemma_position_step(pairs: Pairs, upto: int, key: Seq<char>)
    requires
        0 <= upto < pairs.len(),
    ensures
        position(pairs.take(upto + 1), key) == match position(pairs.take(upto), key) {
            Some(i) => Some(i),
            None => if pairs[upto].0 == key {
                Some(upto)
            } else {
                None
            },
        },
{
    assert(pairs.take(upto + 1).drop_last() =~= pairs.take(upto));
}

/// The text of the pair that the scan found for a field.
fn text_at(pairs: &Vec<(String, String)>, found: &Vec<Option<usize>>, field: Field) -> (text:
    Option<String>)
    requires
        records(found@, pairs_view(pairs@), pairs@.len() as int),
    ensures
        optional_view(text) == value_of(pairs_view(pairs@), field),
{
    let ghost model = pairs_view(pairs@);
    proof {
        assert(model.take(pairs@.len() as int) =~= model);
    }
    match found[field.index()] {
        Some(at) => Some(pairs[at].1.clone()),
        None => None,
    }
}

/// The number of the pair that the scan found for a count field.
fn count_at(pairs: &Vec<(String, String)>, found: &Vec<Option<usize>>, field: Field) -> (count:
    Option<u32>)
    requires
        records(found@, pairs_view(pairs@), pairs@.len() as int),
        field.kind() == FieldKind::Count,
    ensures
        count is Some <==> value_of(pairs_view(pairs@), field) is Some,
        count matches Some(n) ==> n == count_of(pairs_view(pairs@), field),
{
    let ghost model = pairs_view(pairs@);
    proof {
        assert(model.take(pairs@.len() as int) =~= model);
    }
    match found[field.index()] {
        Some(at) => parse_unsigned(pairs[at].1.as_str(), u32::MAX),
        None => None,
    }
}

/// The flag of the pair that the scan found for a flag field, false where it
/// found none.
fn flag_at(pairs: &Vec<(String, String)>, found: &Vec<Option<usize>>, field: Field) -> (flag: bool)
    requires
        records(found@, pairs_view(pairs@), pairs@.len() as int),
    ensures
        flag == flag_of(pairs_view(pairs@), field),
{
    let ghost model = pairs_view(pairs@);
    proof {
        assert(model.take(pairs@.len() as int) =~= model);
    }
    match found[field.index()] {
        Some(at) => match parse_flag(pairs[at].1.as_str()) {
            Some(flag) => flag,
            None => false,
        },
        None => false,
    }
}

/// Reads the pairs in their order and notes for each field the pair that
/// gives it, stopping at the first faulty pair.
fn scan(pairs: &Vec<(String, String)>) -> (outcome: Result<Vec<Option<usize>>, DecodeError>)
    ensures
        match first_fault(pairs_view(pairs@)) {
            Some(fault) => outcome == Err::<Vec<Option<usize>>, DecodeError>(fault),
            None => outcome matches Ok(found) && records(
                found@,
                pairs_view(pairs@),
                pairs@.len() as int,
            ),
        },
{
    let ghost model = pairs_view(pairs@);
    let mut found: Vec<Option<usize>> = Vec::new();
    let mut filled: usize = 0;
    while filled < FIELD_COUNT
        invariant
            filled <= FIELD_COUNT,
            found@.len() == filled,
            forall|k: int| 0 <= k < filled ==> found@[k] is None,
        decreases FIELD_COUNT - filled,
    {
        found.push(None);
        filled = filled + 1;
    }
    let mut i: usize = 0;
    while i < pairs.len()
        invariant
            model == pairs_view(pairs@),
            0 <= i <= pairs@.len(),
            first_fault(model) == first_fault_from(model, i as int),
            records(found@, model, i as int),
        decreases pairs@.len() - i,
    {
        let key = pairs[i].0.as_str();
        let value = pairs[i].1.as_str();
        proof {
            assert(model[i as int] == (key@, value@));
            assert forall|field: Field|
                position(model.take(i + 1), field.key()) == match #[trigger] position(
                    model.take(i as int),
                    field.key(),
                ) {
                    Some(at) => Some(at),
                    None => if key@ == field.key() {
                        Some(i as int)
                    } else {
                        None
                    },
                } by {
                lemma_position_step(model, i as int, field.key());
            }
        }
        match Field::from_name(key) {
            None => {
                proof {
                    assert forall|field: Field| key@ != #[trigger] field.key() by {
                        lemma_names_differ(field, field);
                    }
                }
            },
            Some(field) => {
                proof {
                    assert forall|other: Field| key@ == #[trigger] other.key() <==> other
                        == field by {
                        lemma_names_differ(other, field);
                    }
                }
                if found[field.index()].is_some() {
                    return Err(DecodeError::DuplicateField(field));
                }
                if !field.admits(value) {
                    return Err(DecodeError::InvalidValue(field));
                }
                let ghost before = found@;
                found.set(field.index(), Some(i));
                proof {
                    assert forall|other: Field| other != field implies found@[other.slot()]
                        == before[other.slot()] by {}
                }
            },
        }
        i = i + 1;
    }
    Ok(found)
}

impl WhatsappMessage {
    /// Reads a message from the pairs of a form.
    pub fn from_pairs(pairs: &Vec<(String, String)>) -> (outcome: Result<
        WhatsappMessage,
        DecodeError,
    >)
        ensures
            match decoded(pairs_view(pairs@)) {
                Ok(message) => outcome matches Ok(read) && read@ == message,
                Err(fault) => outcome == Err::<WhatsappMessage, DecodeError>(fault),
            },
    {
        let found = match scan(pairs) {
            Ok(found) => found,
            Err(fault) => {
                return Err(fault);
            },
        };
        let message_sid = match text_at(pairs, &found, Field::MessageSid) {
            Some(text) => text,
            None => {
                return Err(DecodeError::MissingField(Field::MessageSid));
            },
        };
        let account_sid = match text_at(pairs, &found, Field::AccountSid) {
            Some(text) => text,
            None => {
                return Err(DecodeError::MissingField(Field::AccountSid));
            },
        };
        let from = match text_at(pairs, &found, Field::From) {
            Some(text) => text,
            None => {
                return Err(DecodeError::MissingField(Field::From));
            },
        };
        let to = match text_at(pairs, &found, Field::To) {
            Some(text) => text,
            None => {
                return Err(DecodeError::MissingField(Field::To));
            },
        };
        let body = match text_at(pairs, &found, Field::Body) {
            Some(text) => text,
            None => {
                return Err(DecodeError::MissingField(Field::Body));
            },
        };
        let num_media = match count_at(pairs, &found, Field::NumMedia) {
            Some(count) => count,
            None => {
                return Err(DecodeError::MissingField(Field::NumMedia));
            },
        };
        let num_segments = match count_at(pairs, &found, Field::NumSegments) {
            Some(count) => count,
            None => {
                return Err(DecodeError::MissingField(Field::NumSegments));
            },
        };
        let profile_name = match text_at(pairs, &found, Field::ProfileName) {
            Some(text) => text,
            None => {
                return Err(DecodeError::MissingField(Field::ProfileName));
            },
        };
        let wa_id = match text_at(pairs, &found, Field::WaId) {
            Some(text) => text,
            None => {
                return Err(DecodeError::MissingField(Field::WaId));
            },
        };
        Ok(
            WhatsappMessage {
                message_sid,
                account_sid,
                messaging_service_sid: text_at(pairs, &found, Field::MessagingServiceSid),
                from,
                to,
                body,
                num_media,
                num_segments,
                profile_name,
                wa_id,
                forwarded: flag_at(pairs, &found, Field::Forwarded),
                frequently_forwarded: flag_at(pairs, &found, Field::FrequentlyForwarded),
                button_text: text_at(pairs, &found, Field::ButtonText),
            },
        )
    }

    /// Reads a message from a form in the `application/x-www-form-urlencoded`
    /// syntax.
    pub fn decode(input: &[u8]) -> (outcome: Result<WhatsappMessage, DecodeError>)
        ensures
            match decoded(form_pairs(input@)) {
                Ok(message) => outcome matches Ok(read) && read@ == message,
                Err(fault) => outcome == Err::<WhatsappMessage, DecodeError>(fault),
            },
    {
        let pairs = parse_form(input);
        WhatsappMessage::from_pairs(&pairs)
    }
}

} // verus!
