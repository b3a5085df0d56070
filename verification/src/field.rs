use crate::decimal::{parse_unsigned, parsed_unsigned};
use crate::text::same_text;
use vstd::prelude::*;

verus! {

/// The fields of an inbound message that the webhook reads from a form, in
/// the order in which a message lists them.
#[derive(Clone, Copy, Debug, PartialEq, Eq, Structural)]
pub enum Field {
    MessageSid,
    AccountSid,
    MessagingServiceSid,
    From,
    To,
    Body,
    NumMedia,
    NumSegments,
    ProfileName,
    WaId,
    Forwarded,
    FrequentlyForwarded,
    ButtonText,
}

/// What the value of a field has to be.
#[derive(Clone, Copy, Debug, PartialEq, Eq, Structural)]
pub enum FieldKind {
    /// Any text.
    Text,
    /// A non-negative whole number that fits 32 bits.
    Count,
    /// `true` or `false`.
    Flag,
}

/// How many fields there are.
pub const FIELD_COUNT: usize = 13;

/// The field that a form names with `key`, if it is one of the message's.
/// Names are matched exactly, capital letters included.
pub open spec fn field_named(key: Seq<char>) -> Option<Field> {
    if key == Field::MessageSid.key() {
        Some(Field::MessageSid)
    } else if key == Field::AccountSid.key() {
        Some(Field::AccountSid)
    } else if key == Field::MessagingServiceSid.key() {
        Some(Field::MessagingServiceSid)
    } else if key == Field::From.key() {
        Some(Field::From)
    } else if key == Field::To.key() {
        Some(Field::To)
    } else if key == Field::Body.key() {
        Some(Field::Body)
    } else if key == Field::NumMedia.key() {
        Some(Field::NumMedia)
    } else if key == Field::NumSegments.key() {
        Some(Field::NumSegments)
    } else if key == Field::ProfileName.key() {
        Some(Field::ProfileName)
    } else if key == Field::WaId.key() {
        Some(Field::WaId)
    } else if key == Field::Forwarded.key() {
        Some(Field::Forwarded)
    } else if key == Field::FrequentlyForwarded.key() {
        Some(Field::FrequentlyForwarded)
    } else if key == Field::ButtonText.key() {
        Some(Field::ButtonText)
    } else {
        None
    }
}

/// The two spellings of a flag.
pub open spec fn parsed_flag(value: Seq<char>) -> Option<bool> {
    if value == "true"@ {
        Some(true)
    } else if value == "false"@ {
        Some(false)
    } else {
        None
    }
}

/// Reads a flag: `true` or `false`, in lower case and with nothing around it.
pub fn parse_flag(value: &str) -> (flag: Option<bool>)
    ensures
        flag == parsed_flag(value@),
{
    if same_text(value, "true") {
        Some(true)
    } else if same_text(value, "false") {
        Some(false)
    } else {
        None
    }
}

impl Field {
    /// The name under which the sending platform submits the field.
    pub open spec fn key(self) -> Seq<char> {
        match self {
            Field::MessageSid => "MessageSid"@,
            Field::AccountSid => "AccountSid"@,
            Field::MessagingServiceSid => "MessagingServiceSid"@,
            Field::From => "From"@,
            Field::To => "To"@,
            Field::Body => "Body"@,
            Field::NumMedia => "NumMedia"@,
            Field::NumSegments => "NumSegments"@,
            Field::ProfileName => "ProfileName"@,
            Field::WaId => "WaId"@,
            Field::Forwarded => "Forwarded"@,
            Field::FrequentlyForwarded => "FrequentlyForwarded"@,
            Field::ButtonText => "ButtonText"@,
        }
    }

    /// What the field's value has to be.
    pub open spec fn kind(self) -> FieldKind {
        match self {
            Field::NumMedia | Field::NumSegments => FieldKind::Count,
            Field::Forwarded | Field::FrequentlyForwarded => FieldKind::Flag,
            _ => FieldKind::Text,
        }
    }

    /// Whether a message cannot be read from a form that lacks the field.
    /// A flag that is absent is false, and the messaging service and the
    /// button text may be absent.
    pub open spec fn required(self) -> bool {
        match self {
            Field::MessagingServiceSid | Field::ButtonText => false,
            _ => self.kind() != FieldKind::Flag,
        }
    }

    /// The field's place in the order of the fields, counted from zero.
    pub open spec fn slot(self) -> int {
        match self {
            Field::MessageSid => 0,
            Field::AccountSid => 1,
            Field::MessagingServiceSid => 2,
            Field::From => 3,
            Field::To => 4,
            Field::Body => 5,
            Field::NumMedia => 6,
            Field::NumSegments => 7,
            Field::ProfileName => 8,
            Field::WaId => 9,
            Field::Forwarded => 10,
            Field::FrequentlyForwarded => 11,
            Field::ButtonText => 12,
        }
    }

    /// Whether `value` is one that the field can hold.
    pub open spec fn accepts(self, value: Seq<char>) -> bool {
        match self.kind() {
            FieldKind::Text => true,
            FieldKind::Count => parsed_unsigned(value, u32::MAX as nat) is Some,
            FieldKind::Flag => parsed_flag(value) is Some,
        }
    }

    /// The name under which the sending platform submits the field.
    pub fn name(self) -> (name: &'static str)
        ensures
            name@ == self.key(),
    {
        match self {
            Field::MessageSid => "MessageSid",
            Field::AccountSid => "AccountSid",
            Field::MessagingServiceSid => "MessagingServiceSid",
            Field::From => "From",
            Field::To => "To",
            Field::Body => "Body",
            Field::NumMedia => "NumMedia",
            Field::NumSegments => "NumSegments",
            Field::ProfileName => "ProfileName",
            Field::WaId => "WaId",
            Field::Forwarded => "Forwarded",
            Field::FrequentlyForwarded => "FrequentlyForwarded",
            Field::ButtonText => "ButtonText",
        }
    }

    /// The field that a form names with `key`, if it is one of the message's.
    pub fn from_name(key: &str) -> (field: Option<Field>)
        ensures
            field == field_named(key@),
    {
        if same_text(key, "MessageSid") {
            Some(Field::MessageSid)
        } else if same_text(key, "AccountSid") {
            Some(Field::AccountSid)
        } else if same_text(key, "MessagingServiceSid") {
            Some(Field::MessagingServiceSid)
        } else if same_text(key, "From") {
            Some(Field::From)
        } else if same_text(key, "To") {
            Some(Field::To)
        } else if same_text(key, "Body") {
            Some(Field::Body)
        } else if same_text(key, "NumMedia") {
            Some(Field::NumMedia)
        } else if same_text(key, "NumSegments") {
            Some(Field::NumSegments)
        } else if same_text(key, "ProfileName") {
            Some(Field::ProfileName)
        } else if same_text(key, "WaId") {
            Some(Field::WaId)
        } else if same_text(key, "Forwarded") {
            Some(Field::Forwarded)
        } else if same_text(key, "FrequentlyForwarded") {
            Some(Field::FrequentlyForwarded)
        } else if same_text(key, "ButtonText") {
            Some(Field::ButtonText)
        } else {
            None
        }
    }

    /// The field's place in the order of the fields, counted from zero.
    pub fn index(self) -> (index: usize)
        ensures
            index == self.slot(),
            index < FIELD_COUNT,
    {
        match self {
            Field::MessageSid => 0,
            Field::AccountSid => 1,
            Field::MessagingServiceSid => 2,
            Field::From => 3,
            Field::To => 4,
            Field::Body => 5,
            Field::NumMedia => 6,
            Field::NumSegments => 7,
            Field::ProfileName => 8,
            Field::WaId => 9,
            Field::Forwarded => 10,
            Field::FrequentlyForwarded => 11,
            Field::ButtonText => 12,
        }
    }

    /// Tells whether `value` is one that the field can hold.
    pub fn admits(self, value: &str) -> (ok: bool)
        ensures
            ok == self.accepts(value@),
    {
        match self {
            Field::NumMedia | Field::NumSegments => parse_unsigned(value, u32::MAX).is_some(),
            Field::Forwarded | Field::FrequentlyForwarded => parse_flag(value).is_some(),
            _ => true,
        }
    }
}

/// No two fields share a name, so a name stands for one field only.
pub proof fn lemma_names_differ(f: Field, g: Field)
    ensures
        f.key() == g.key() <==> f == g,
        field_named(f.key()) == Some(f),
{
    reveal_strlit("MessageSid");
    reveal_strlit("AccountSid");
    reveal_strlit("MessagingServiceSid");
    reveal_strlit("From");
    reveal_strlit("To");
    reveal_strlit("Body");
    reveal_strlit("NumMedia");
    reveal_strlit("NumSegments");
    reveal_strlit("ProfileName");
    reveal_strlit("WaId");
    reveal_strlit("Forwarded");
    reveal_strlit("FrequentlyForwarded");
    reveal_strlit("ButtonText");
    // The length and the first letter together tell the names apart.
    assert(Field::MessageSid.key().len() == 10 && Field::MessageSid.key()[0] == 'M');
    assert(Field::AccountSid.key().len() == 10 && Field::AccountSid.key()[0] == 'A');
    assert(Field::MessagingServiceSid.key().len() == 19);
    assert(Field::MessagingServiceSid.key()[0] == 'M');
    assert(Field::From.key().len() == 4 && Field::From.key()[0] == 'F');
    assert(Field::To.key().len() == 2);
    assert(Field::Body.key().len() == 4 && Field::Body.key()[0] == 'B');
    assert(Field::NumMedia.key().len() == 8);
    assert(Field::NumSegments.key().len() == 11 && Field::NumSegments.key()[0] == 'N');
    assert(Field::ProfileName.key().len() == 11 && Field::ProfileName.key()[0] == 'P');
    assert(Field::WaId.key().len() == 4 && Field::WaId.key()[0] == 'W');
    assert(Field::Forwarded.key().len() == 9);
    assert(Field::FrequentlyForwarded.key().len() == 19);
    assert(Field::FrequentlyForwarded.key()[0] == 'F');
    assert(Field::ButtonText.key().len() == 10 && Field::ButtonText.key()[0] == 'B');
}

} // verus!
