//! The messages that viewers exchange, and their form on the wire: JSON
//! text, one object whose single member is named after the kind of message.

use std::collections::BTreeMap;
use vstd::prelude::*;

use crate::component::EntityId;
use crate::numeral::{append_decimal, decimal};

verus! {

/// What one viewer tells the others.
#[derive(Clone, Copy, Debug, PartialEq, Eq, Structural)]
pub enum MessageType {
    /// A raw click at a grid coordinate. It informs; a receiver does nothing
    /// on it.
    Click { x: usize, y: usize },
    /// The colour of `entity` is now exactly `(r, g, b)`.
    ColorUpdate { entity: EntityId, r: u8, g: u8, b: u8 },
}

/// One member of a message's body: its name, and its value where that is an
/// unsigned integer of at most 64 bits.
#[derive(Debug, PartialEq, Eq)]
pub struct Field {
    pub name: String,
    pub value: Option<u64>,
}

/// One member of the outer object of a payload: its name, and the members
/// of the object that is its value.
#[derive(Debug, PartialEq, Eq)]
pub struct Record {
    pub tag: String,
    pub fields: Vec<Field>,
}

/// A field as contracts see it.
pub struct FieldView {
    pub name: Seq<char>,
    pub value: Option<u64>,
}

/// A record as contracts see it.
pub struct RecordView {
    pub tag: Seq<char>,
    pub fields: Seq<FieldView>,
}

impl View for Field {
    type V = FieldView;

    open spec fn view(&self) -> FieldView {
        FieldView { name: self.name@, value: self.value }
    }
}

impl View for Record {
    type V = RecordView;

    open spec fn view(&self) -> RecordView {
        RecordView { tag: self.tag@, fields: self.fields@.map_values(|f: Field| f@) }
    }
}

/// The records of a table, each by its view.
pub open spec fn table_view(table: Seq<Record>) -> Seq<RecordView> {
    table.map_values(|r: Record| r@)
}

/// The value of the first field from index `from` on that is named `name`,
/// where that field holds an unsigned integer.
pub open spec fn unsigned_field_from(fields: Seq<FieldView>, name: Seq<char>, from: int) -> Option<
    u64,
>
    decreases fields.len() - from,
{
    if from < 0 || from >= fields.len() {
        None
    } else if fields[from].name == name {
        fields[from].value
    } else {
        unsigned_field_from(fields, name, from + 1)
    }
}

/// The value of the first field named `name`, where that field holds an
/// unsigned integer.
pub open spec fn unsigned_field(fields: Seq<FieldView>, name: Seq<char>) -> Option<u64> {
    unsigned_field_from(fields, name, 0)
}

/// The click that the fields of a `Click` body describe: `x` and `y`, each
/// an unsigned integer that fits the machine word.
pub open spec fn click_of(fields: Seq<FieldView>) -> Option<MessageType> {
    match (unsigned_field(fields, "x"@), unsigned_field(fields, "y"@)) {
        (Some(x), Some(y)) => if x <= usize::MAX && y <= usize::MAX {
            Some(MessageType::Click { x: x as usize, y: y as usize })
        } else {
            None
        },
        _ => None,
    }
}

/// The update that the fields of a `ColorUpdate` body describe: `entity`, an
/// unsigned integer of at most 32 bits, and `r`, `g`, `b`, each of at most 8.
pub open spec fn color_update_of(fields: Seq<FieldView>) -> Option<MessageType> {
    match (
        unsigned_field(fields, "entity"@),
        unsigned_field(fields, "r"@),
        unsigned_field(fields, "g"@),
        unsigned_field(fields, "b"@),
    ) {
        (Some(entity), Some(r), Some(g), Some(b)) => if entity <= u32::MAX && r <= u8::MAX && g
            <= u8::MAX && b <= u8::MAX {
            Some(
                MessageType::ColorUpdate {
                    entity: entity as EntityId,
                    r: r as u8,
                    g: g as u8,
                    b: b as u8,
                },
            )
        } else {
            None
        },
        _ => None,
    }
}

/// What the JSON text `text` holds, read as an object of objects: for each
/// member of the outer object, in the order of their names, its name and the
/// members of its value, again in the order of their names, each with its
/// value where that is an unsigned integer of at most 64 bits. `None` where
/// `text` is no JSON text, or not an object whose members are all objects.
pub uninterp spec fn wire_table(text: Seq<char>) -> Option<Seq<RecordView>>;

/// Reads `text` with `serde_json::from_str`, as a map from names to maps from
/// names to `serde_json::Value`, and each of the inner values with
/// `serde_json::Value::as_u64`. The contract claims one thing only: that
/// what comes back depends on nothing but the characters of `text`.
#[verifier::external_body]
fn parse_table(text: &str) -> (table: Option<Vec<Record>>)
    ensures
        match table {
            Some(t) => wire_table(text@) == Some(table_view(t@)),
            None => wire_table(text@) is None,
        },
{
    let doc: BTreeMap<String, BTreeMap<String, serde_json::Value>> =
        serde_json::from_str(text).ok()?;
    Some(
        doc.into_iter().map(
            |(tag, body)| Record {
                tag,
                fields: body.into_iter().map(
                    |(name, value)| Field { name, value: value.as_u64() },
                ).collect(),
            },
        ).collect(),
    )
}

/// Whether `text` reads as `literal`.
fn text_is(text: &String, literal: &str) -> (b: bool)
    ensures
        b == (text@ == literal@),
{
    let want = String::from_str(literal);
    *text == want
}

/// The value of the first of `fields` named `name`, where that field holds
/// an unsigned integer.
fn find_unsigned(fields: &Vec<Field>, name: &str) -> (value: Option<u64>)
    ensures
        value == unsigned_field(fields@.map_values(|f: Field| f@), name@),
{
    let ghost views = fields@.map_values(|f: Field| f@);
    let mut i: usize = 0;
    while i < fields.len()
        invariant
            i <= fields.len(),
            views == fields@.map_values(|f: Field| f@),
            unsigned_field(views, name@) == unsigned_field_from(views, name@, i as int),
        decreases fields.len() - i,
    {
        if text_is(&fields[i].name, name) {
            return fields[i].value;
        }
        i += 1;
    }
    None
}

impl MessageType {
    /// The message that a table of records stands for. The table must hold
    /// exactly one record, named `Click` or `ColorUpdate`, and its fields
    /// must name every member of that kind of message with a value of its
    /// type. Other fields are passed over.
    pub open spec fn of_table(table: Seq<RecordView>) -> Option<MessageType> {
        if table.len() != 1 {
            None
        } else if table[0].tag == "ColorUpdate"@ {
            color_update_of(table[0].fields)
        } else if table[0].tag == "Click"@ {
            click_of(table[0].fields)
        } else {
            None
        }
    }

    /// The message that the payload `text` stands for, if it stands for one.
    pub open spec fn parsed(text: Seq<char>) -> Option<MessageType> {
        match wire_table(text) {
            Some(table) => MessageType::of_table(table),
            None => None,
        }
    }

    /// The payload of this message: compact JSON, the members in the order
    /// of their declaration.
    pub open spec fn wire(self) -> Seq<char> {
        match self {
            MessageType::Click { x, y } => "{\"Click\":{\"x\":"@ + decimal(x as nat) + ",\"y\":"@
                + decimal(y as nat) + "}}"@,
            MessageType::ColorUpdate { entity, r, g, b } => "{\"ColorUpdate\":{\"entity\":"@
                + decimal(entity as nat) + ",\"r\":"@ + decimal(r as nat) + ",\"g\":"@ + decimal(
                g as nat,
            ) + ",\"b\":"@ + decimal(b as nat) + "}}"@,
        }
    }

    /// The message that `table` stands for, if it stands for one.
    pub fn from_table(table: &Vec<Record>) -> (m: Option<MessageType>)
        ensures
            m == MessageType::of_table(table_view(table@)),
    {
        if table.len() != 1 {
            return None;
        }
        let record = &table[0];
        assert(table_view(table@)[0] == record@);
        if text_is(&record.tag, "ColorUpdate") {
            let entity = find_unsigned(&record.fields, "entity");
            let r = find_unsigned(&record.fields, "r");
            let g = find_unsigned(&record.fields, "g");
            let b = find_unsigned(&record.fields, "b");
            match (entity, r, g, b) {
                (Some(entity), Some(r), Some(g), Some(b)) => {
                    if entity <= u32::MAX as u64 && r <= u8::MAX as u64 && g <= u8::MAX as u64 && b
                        <= u8::MAX as u64 {
                        Some(
                            MessageType::ColorUpdate {
                                entity: entity as EntityId,
                                r: r as u8,
                                g: g as u8,
                                b: b as u8,
                            },
                        )
                    } else {
                        None
                    }
                },
                _ => None,
            }
        } else if text_is(&record.tag, "Click") {
            let x = find_unsigned(&record.fields, "x");
            let y = find_unsigned(&record.fields, "y");
            match (x, y) {
                (Some(x), Some(y)) => {
                    if x <= usize::MAX as u64 && y <= usize::MAX as u64 {
                        Some(MessageType::Click { x: x as usize, y: y as usize })
                    } else {
                        None
                    }
                },
                _ => None,
            }
        } else {
            None
        }
    }

    /// Reads a payload. `None` where it is no JSON text, has another shape
    /// than a message has, names no kind of message, or lacks a member or
    /// holds one of another type.
    pub fn decode(text: &str) -> (m: Option<MessageType>)
        ensures
            m == MessageType::parsed(text@),
    {
        match parse_table(text) {
            Some(table) => MessageType::from_table(&table),
            None => None,
        }
    }

    /// Writes this message as a payload.
    pub fn encode(&self) -> (text: String)
        ensures
            text@ == self.wire(),
    {
        match *self {
            MessageType::Click { x, y } => {
                let mut text = String::from_str("{\"Click\":{\"x\":");
                append_decimal(&mut text, x as u64);
                text.append(",\"y\":");
                append_decimal(&mut text, y as u64);
                text.append("}}");
                text
            },
            MessageType::ColorUpdate { entity, r, g, b } => {
                let mut text = String::from_str("{\"ColorUpdate\":{\"entity\":");
                append_decimal(&mut text, entity as u64);
                text.append(",\"r\":");
                append_decimal(&mut text, r as u64);
                text.append(",\"g\":");
                append_decimal(&mut text, g as u64);
                text.append(",\"b\":");
                append_decimal(&mut text, b as u64);
                text.append("}}");
                text
            },
        }
    }
}

} // verus!
