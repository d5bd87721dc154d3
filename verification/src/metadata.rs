//! The TCP section of a deployment's JSON metadata.

use crate::config::texts_of;
use crate::text::same_text;
use vstd::prelude::*;
use vstd::string::*;

verus! {

/// The JSON value of `serde_json`, carried as an opaque value.
#[verifier::external_type_specification]
#[verifier::external_body]
pub struct ExValue(serde_json::Value);

/// What a JSON object holds, by member name; nothing where the value is no
/// object.
pub uninterp spec fn json_members(value: serde_json::Value) -> Option<Map<Seq<char>, serde_json::Value>>;

/// What a JSON array holds, in order; nothing where the value is no array.
pub uninterp spec fn json_items(value: serde_json::Value) -> Option<Seq<serde_json::Value>>;

/// The characters of a JSON string; nothing where the value is no string.
pub uninterp spec fn json_text(value: serde_json::Value) -> Option<Seq<char>>;

/// A JSON number that is an integer from zero to `u64::MAX`; nothing where the
/// value is anything else.
pub uninterp spec fn json_unsigned(value: serde_json::Value) -> Option<u64>;

/// Calls `serde_json::Value::get` with a member name. Claims that it gives the
/// member of that name where the value is an object that has one, and nothing
/// otherwise.
#[verifier::external_body]
fn member<'a>(value: &'a serde_json::Value, name: &str) -> (found: Option<&'a serde_json::Value>)
    ensures
        found is Some <==> (json_members(*value) is Some && json_members(*value)->0.contains_key(name@)),
        found is Some ==> *found->0 == json_members(*value)->0[name@],
{
    value.get(name)
}

/// Calls `serde_json::Value::as_object` and copies the names that
/// `serde_json::Map::keys` walks. Claims that a list comes back exactly for an
/// object, and that it holds the names of the members and no others. In which
/// order they come is left open.
#[verifier::external_body]
fn member_names(value: &serde_json::Value) -> (names: Option<Vec<String>>)
    ensures
        names is Some <==> json_members(*value) is Some,
        names is Some ==> texts_of(names->0@).to_set() == json_members(*value)->0.dom(),
{
    value.as_object().map(|members| members.keys().cloned().collect())
}

/// `serde_json::Value::as_array`: the items of an array, in order, and nothing
/// where the value is no array.
pub assume_specification[ serde_json::Value::as_array ](value: &serde_json::Value) -> (items: Option<&Vec<serde_json::Value>>)
    ensures
        items is Some <==> json_items(*value) is Some,
        items is Some ==> items->0@ == json_items(*value)->0,
;

/// `serde_json::Value::as_str`: the text of a string, and nothing where the
/// value is no string.
pub assume_specification[ serde_json::Value::as_str ](value: &serde_json::Value) -> (text: Option<&str>)
    ensures
        text is Some <==> json_text(*value) is Some,
        text is Some ==> text->0@ == json_text(*value)->0,
;

/// `serde_json::Value::as_u64`: the number, where the value is an integer that
/// is not negative and fits, and nothing otherwise.
pub assume_specification[ serde_json::Value::as_u64 ](value: &serde_json::Value) -> (number: Option<u64>)
    ensures
        number == json_unsigned(*value),
;

/// A JSON value as a route's field takes it.
#[derive(Debug, PartialEq, Eq)]
pub enum Field {
    Text(String),
    Unsigned(u64),
    /// Neither a text nor an unsigned integer: no field takes it.
    Other,
}

/// The mathematical value of a [`Field`].
pub enum FieldView {
    Text(Seq<char>),
    Unsigned(u64),
    Other,
}

impl View for Field {
    type V = FieldView;

    open spec fn view(&self) -> FieldView {
        match self {
            Field::Text(text) => FieldView::Text(text@),
            Field::Unsigned(number) => FieldView::Unsigned(*number),
            Field::Other => FieldView::Other,
        }
    }
}

/// The fields that one entry of the section gives.
#[derive(Debug, PartialEq, Eq)]
pub struct Entry {
    pub listen_port: Option<Field>,
    pub class_name: Option<Field>,
    pub object_name: Option<Field>,
    pub container_port: Option<Field>,
    pub startup_path: Option<Field>,
    pub connect_timeout_ms: Option<Field>,
    pub max_connections: Option<Field>,
    /// The entry gives something besides these.
    pub surplus: bool,
}

/// The mathematical value of an [`Entry`].
pub struct EntryView {
    pub listen_port: Option<FieldView>,
    pub class_name: Option<FieldView>,
    pub object_name: Option<FieldView>,
    pub container_port: Option<FieldView>,
    pub startup_path: Option<FieldView>,
    pub connect_timeout_ms: Option<FieldView>,
    pub max_connections: Option<FieldView>,
    pub surplus: bool,
}

/// The value of a field that may be missing.
pub open spec fn given(field: Option<Field>) -> Option<FieldView> {
    match field {
        Some(field) => Some(field@),
        None => None,
    }
}

impl View for Entry {
    type V = EntryView;

    open spec fn view(&self) -> EntryView {
        EntryView {
            listen_port: given(self.listen_port),
            class_name: given(self.class_name),
            object_name: given(self.object_name),
            container_port: given(self.container_port),
            startup_path: given(self.startup_path),
            connect_timeout_ms: given(self.connect_timeout_ms),
            max_connections: given(self.max_connections),
            surplus: self.surplus,
        }
    }
}

/// The TCP section of the metadata, as far as its form goes.
#[derive(Debug, PartialEq, Eq)]
pub enum Section {
    /// The metadata has no such section.
    Absent,
    /// The section is no list, or an entry of it is neither an object nor a
    /// list of fields.
    Misshapen,
    Entries(Vec<Entry>),
}

/// The mathematical value of a [`Section`].
pub enum SectionView {
    Absent,
    Misshapen,
    Entries(Seq<EntryView>),
}

/// The values of a list of entries.
pub open spec fn entries_of(entries: Seq<Entry>) -> Seq<EntryView> {
    entries.map_values(|entry: Entry| entry@)
}

impl View for Section {
    type V = SectionView;

    open spec fn view(&self) -> SectionView {
        match self {
            Section::Absent => SectionView::Absent,
            Section::Misshapen => SectionView::Misshapen,
            Section::Entries(entries) => SectionView::Entries(entries_of(entries@)),
        }
    }
}

/// A JSON value as a field takes it.
pub open spec fn field_view(value: serde_json::Value) -> FieldView {
    if json_text(value) is Some {
        FieldView::Text(json_text(value)->0)
    } else if json_unsigned(value) is Some {
        FieldView::Unsigned(json_unsigned(value)->0)
    } else {
        FieldView::Other
    }
}

/// The field of that name in an object.
pub open spec fn named_field(members: Map<Seq<char>, serde_json::Value>, name: Seq<char>) -> Option<FieldView> {
    if members.contains_key(name) {
        Some(field_view(members[name]))
    } else {
        None
    }
}

/// The field at that place in a list.
pub open spec fn placed_field(items: Seq<serde_json::Value>, place: int) -> Option<FieldView> {
    if place < items.len() {
        Some(field_view(items[place]))
    } else {
        None
    }
}

/// The names of a route's fields.
pub open spec fn is_field_name(name: Seq<char>) -> bool {
    ||| name == "listen_port"@
    ||| name == "class_name"@
    ||| name == "object_name"@
    ||| name == "container_port"@
    ||| name == "startup_path"@
    ||| name == "connect_timeout_ms"@
    ||| name == "max_connections"@
}

/// A set of names that holds one besides those of a route's fields.
pub open spec fn has_unknown(names: Set<Seq<char>>) -> bool {
    exists|name: Seq<char>| #[trigger] names.contains(name) && !is_field_name(name)
}

/// An entry that names its fields.
pub open spec fn named_entry(members: Map<Seq<char>, serde_json::Value>) -> EntryView {
    EntryView {
        listen_port: named_field(members, "listen_port"@),
        class_name: named_field(members, "class_name"@),
        object_name: named_field(members, "object_name"@),
        container_port: named_field(members, "container_port"@),
        startup_path: named_field(members, "startup_path"@),
        connect_timeout_ms: named_field(members, "connect_timeout_ms"@),
        max_connections: named_field(members, "max_connections"@),
        surplus: has_unknown(members.dom()),
    }
}

/// An entry that lists its fields in order.
pub open spec fn placed_entry(items: Seq<serde_json::Value>) -> EntryView {
    EntryView {
        listen_port: placed_field(items, 0),
        class_name: placed_field(items, 1),
        object_name: placed_field(items, 2),
        container_port: placed_field(items, 3),
        startup_path: placed_field(items, 4),
        connect_timeout_ms: placed_field(items, 5),
        max_connections: placed_field(items, 6),
        surplus: items.len() > 7,
    }
}

/// The fields of an entry, which either names them or lists them.
pub open spec fn entry_view(value: serde_json::Value) -> Option<EntryView> {
    if json_members(value) is Some {
        Some(named_entry(json_members(value)->0))
    } else if json_items(value) is Some {
        Some(placed_entry(json_items(value)->0))
    } else {
        None
    }
}

/// The TCP section of the metadata: its member `tcp`.
pub open spec fn section_view(metadata: serde_json::Value) -> SectionView {
    if json_members(metadata) is Some && json_members(metadata)->0.contains_key("tcp"@) {
        let section = json_members(metadata)->0["tcp"@];
        if json_items(section) is Some && (forall|i: int|
            0 <= i < json_items(section)->0.len() ==> (#[trigger] entry_view(json_items(section)->0[i])) is Some) {
            SectionView::Entries(json_items(section)->0.map_values(|value: serde_json::Value| entry_view(value)->0))
        } else {
            SectionView::Misshapen
        }
    } else {
        SectionView::Absent
    }
}

/// Opens a JSON value as a field takes it.
fn open_field(value: &serde_json::Value) -> (field: Field)
    ensures
        field@ == field_view(*value),
{
    match value.as_str() {
        Some(text) => Field::Text(text.to_string()),
        None => match value.as_u64() {
            Some(number) => Field::Unsigned(number),
            None => Field::Other,
        },
    }
}

fn open_named_field(value: &serde_json::Value, name: &str) -> (field: Option<Field>)
    requires
        json_members(*value) is Some,
    ensures
        given(field) == named_field(json_members(*value)->0, name@),
{
    match member(value, name) {
        Some(value) => Some(open_field(value)),
        None => None,
    }
}

fn open_placed_field(items: &[serde_json::Value], place: usize) -> (field: Option<Field>)
    ensures
        given(field) == placed_field(items@, place as int),
{
    if place < items.len() {
        Some(open_field(&items[place]))
    } else {
        None
    }
}

/// Whether `name` is that of a route's field.
fn names_field(name: &str) -> (known: bool)
    ensures
        known == is_field_name(name@),
{
    same_text(name, "listen_port") || same_text(name, "class_name") || same_text(name, "object_name")
        || same_text(name, "container_port") || same_text(name, "startup_path")
        || same_text(name, "connect_timeout_ms") || same_text(name, "max_connections")
}

/// Whether a list holds a name that is not that of a route's field.
fn has_surplus(names: &[String]) -> (surplus: bool)
    ensures
        surplus == has_unknown(texts_of(names@).to_set()),
{
    let mut i: usize = 0;
    while i < names.len()
        invariant
            i <= names@.len(),
            forall|j: int| 0 <= j < i ==> is_field_name((#[trigger] names@[j])@),
        decreases names@.len() - i,
    {
        if !names_field(names[i].as_str()) {
            assert(texts_of(names@)[i as int] == names@[i as int]@);
            assert(texts_of(names@).to_set().contains(names@[i as int]@));
            return true;
        }
        i += 1;
    }
    assert forall|name: Seq<char>| #[trigger] texts_of(names@).to_set().contains(name) implies is_field_name(name) by {
        let k = choose|k: int| 0 <= k < texts_of(names@).len() && texts_of(names@)[k] == name;
        assert(is_field_name(names@[k]@));
    }
    false
}

/// Opens one entry of the section.
fn open_entry(value: &serde_json::Value) -> (entry: Option<Entry>)
    ensures
        entry is Some <==> entry_view(*value) is Some,
        entry is Some ==> entry->0@ == entry_view(*value)->0,
{
    match member_names(value) {
        Some(names) => {
            let surplus = has_surplus(names.as_slice());
            Some(
                Entry {
                    listen_port: open_named_field(value, "listen_port"),
                    class_name: open_named_field(value, "class_name"),
                    object_name: open_named_field(value, "object_name"),
                    container_port: open_named_field(value, "container_port"),
                    startup_path: open_named_field(value, "startup_path"),
                    connect_timeout_ms: open_named_field(value, "connect_timeout_ms"),
                    max_connections: open_named_field(value, "max_connections"),
                    surplus,
                },
            )
        },
        None => match value.as_array() {
            Some(items) => {
                let items = items.as_slice();
                Some(
                    Entry {
                        listen_port: open_placed_field(items, 0),
                        class_name: open_placed_field(items, 1),
                        object_name: open_placed_field(items, 2),
                        container_port: open_placed_field(items, 3),
                        startup_path: open_placed_field(items, 4),
                        connect_timeout_ms: open_placed_field(items, 5),
                        max_connections: open_placed_field(items, 6),
                        surplus: items.len() > 7,
                    },
                )
            },
            None => None,
        },
    }
}

/// Opens the TCP section of the metadata.
pub fn open_section(metadata: &serde_json::Value) -> (section: Section)
    ensures
        section@ == section_view(*metadata),
{
    let value = match member(metadata, "tcp") {
        Some(value) => value,
        None => return Section::Absent,
    };
    let items = match value.as_array() {
        Some(items) => items,
        None => return Section::Misshapen,
    };
    let mut entries: Vec<Entry> = Vec::new();
    let mut i: usize = 0;
    while i < items.len()
        invariant
            i <= items@.len(),
            entries@.len() == i,
            json_items(*value) == Some(items@),
            json_members(*metadata) is Some,
            json_members(*metadata)->0.contains_key("tcp"@),
            *value == json_members(*metadata)->0["tcp"@],
            forall|j: int| 0 <= j < i ==> (#[trigger] entry_view(items@[j])) == Some(entries@[j]@),
        decreases items@.len() - i,
    {
        match open_entry(&items[i]) {
            Some(entry) => entries.push(entry),
            None => {
                assert(entry_view(json_items(*value)->0[i as int]) is None);
                return Section::Misshapen;
            },
        }
        i += 1;
    }
    assert(entries_of(entries@) =~= json_items(*value)->0.map_values(
        |value: serde_json::Value| entry_view(value)->0,
    )) by {
        assert forall|j: int| 0 <= j < entries@.len() implies #[trigger] entries_of(entries@)[j] == entry_view(
            items@[j],
        )->0 by {
            assert(entry_view(items@[j]) == Some(entries@[j]@));
        }
    }
    Section::Entries(entries)
}

/// What a JSON value gives to a field: a string its text, a number without a sign
/// or a fraction itself, and anything else nothing that a field takes.
pub open spec fn gives(value: serde_json::Value, field: FieldView) -> bool {
    match field {
        FieldView::Text(text) => json_text(value) == Some(text),
        FieldView::Unsigned(number) => json_text(value) is None && json_unsigned(value) == Some(number),
        FieldView::Other => json_text(value) is None && json_unsigned(value) is None,
    }
}

/// A field is what the JSON member of that name gives, and is missing exactly
/// where the member is.
pub open spec fn is_member(
    members: Map<Seq<char>, serde_json::Value>,
    name: Seq<char>,
    field: Option<FieldView>,
) -> bool {
    match field {
        Some(field) => members.contains_key(name) && gives(members[name], field),
        None => !members.contains_key(name),
    }
}

/// A field is what the JSON item at that place gives, and is missing exactly
/// where the list is too short for it.
pub open spec fn is_item(items: Seq<serde_json::Value>, place: int, field: Option<FieldView>) -> bool {
    match field {
        Some(field) => place < items.len() && gives(items[place], field),
        None => items.len() <= place,
    }
}

/// An entry that is an object has its fields from the members of these names, and
/// something besides exactly where there is a member of another name.
pub proof fn objects_give_fields_by_name(value: serde_json::Value)
    requires
        json_members(value) is Some,
    ensures
        entry_view(value) is Some,
        ({
            let members = json_members(value)->0;
            let entry = entry_view(value)->0;
            &&& is_member(members, "listen_port"@, entry.listen_port)
            &&& is_member(members, "class_name"@, entry.class_name)
            &&& is_member(members, "object_name"@, entry.object_name)
            &&& is_member(members, "container_port"@, entry.container_port)
            &&& is_member(members, "startup_path"@, entry.startup_path)
            &&& is_member(members, "connect_timeout_ms"@, entry.connect_timeout_ms)
            &&& is_member(members, "max_connections"@, entry.max_connections)
            &&& entry.surplus <==> exists|name: Seq<char>|
                {
                    &&& #[trigger] members.dom().contains(name)
                    &&& name != "listen_port"@ && name != "class_name"@ && name != "object_name"@
                    &&& name != "container_port"@ && name != "startup_path"@
                    &&& name != "connect_timeout_ms"@ && name != "max_connections"@
                }
        }),
{
    let members = json_members(value)->0;
    assert forall|name: Seq<char>| #[trigger] members.dom().contains(name) implies is_field_name(name) == !{
        &&& name != "listen_port"@ && name != "class_name"@ && name != "object_name"@
        &&& name != "container_port"@ && name != "startup_path"@
        &&& name != "connect_timeout_ms"@ && name != "max_connections"@
    } by {}
}

/// An entry that is a list has its fields by their places, and something besides
/// exactly where it has more than seven items.
pub proof fn lists_give_fields_by_place(value: serde_json::Value)
    requires
        json_members(value) is None,
        json_items(value) is Some,
    ensures
        entry_view(value) is Some,
        ({
            let items = json_items(value)->0;
            let entry = entry_view(value)->0;
            &&& is_item(items, 0, entry.listen_port)
            &&& is_item(items, 1, entry.class_name)
            &&& is_item(items, 2, entry.object_name)
            &&& is_item(items, 3, entry.container_port)
            &&& is_item(items, 4, entry.startup_path)
            &&& is_item(items, 5, entry.connect_timeout_ms)
            &&& is_item(items, 6, entry.max_connections)
            &&& entry.surplus <==> items.len() > 7
        }),
{
}

/// The section is the member `tcp` of the metadata and is absent exactly where
/// there is none. It has entries exactly where it is a list of objects and lists:
/// one for each item, in order.
pub proof fn sections_hold_their_items(metadata: serde_json::Value)
    ensures
        section_view(metadata) is Absent <==> !(json_members(metadata) is Some && json_members(
            metadata,
        )->0.contains_key("tcp"@)),
        !(section_view(metadata) is Absent) ==> {
            let section = json_members(metadata)->0["tcp"@];
            let items = json_items(section)->0;
            &&& section_view(metadata) is Entries <==> json_items(section) is Some && forall|i: int|
                0 <= i < items.len() ==> json_members(#[trigger] items[i]) is Some || json_items(items[i]) is Some
            &&& section_view(metadata) matches SectionView::Entries(entries) ==> {
                &&& entries.len() == items.len()
                &&& forall|i: int| 0 <= i < items.len() ==> Some(#[trigger] entries[i]) == entry_view(items[i])
            }
        },
{
    if !(section_view(metadata) is Absent) {
        let section = json_members(metadata)->0["tcp"@];
        let items = json_items(section)->0;
        assert forall|i: int| 0 <= i < items.len() implies (#[trigger] entry_view(items[i]) is Some <==> json_members(
            items[i],
        ) is Some || json_items(items[i]) is Some) by {}
        if section_view(metadata) is Entries {
            let entries = section_view(metadata)->Entries_0;
            assert forall|i: int| 0 <= i < items.len() implies Some(#[trigger] entries[i]) == entry_view(items[i]) by {
                assert(entry_view(json_items(section)->0[i]) is Some);
            }
            assert forall|i: int| 0 <= i < items.len() implies json_members(#[trigger] items[i]) is Some || json_items(
                items[i],
            ) is Some by {
                assert(entry_view(items[i]) is Some);
            }
        } else if json_items(section) is Some {
            let i = choose|i: int| 0 <= i < items.len() && (#[trigger] entry_view(items[i])) is None;
            assert(json_members(items[i]) is None && json_items(items[i]) is None);
        }
    }
}

/// Fields, entries and sections are seen as they are.
pub proof fn sections_are_seen_as_they_are(field: Field, entry: Entry, section: Section)
    ensures
        field matches Field::Text(text) ==> field@ == FieldView::Text(text@),
        field matches Field::Unsigned(number) ==> field@ == FieldView::Unsigned(number),
        field is Other ==> field@ is Other,
        entry@.listen_port == given(entry.listen_port),
        entry@.class_name == given(entry.class_name),
        entry@.object_name == given(entry.object_name),
        entry@.container_port == given(entry.container_port),
        entry@.startup_path == given(entry.startup_path),
        entry@.connect_timeout_ms == given(entry.connect_timeout_ms),
        entry@.max_connections == given(entry.max_connections),
        entry@.surplus == entry.surplus,
        given(None) is None,
        given(Some(field)) == Some(field@),
        section is Absent ==> section@ is Absent,
        section is Misshapen ==> section@ is Misshapen,
        section matches Section::Entries(entries) ==> {
            &&& section@ matches SectionView::Entries(seen)
            &&& seen.len() == entries@.len()
            &&& forall|i: int| 0 <= i < entries@.len() ==> #[trigger] seen[i] == entries@[i]@
        },
{
}

} // verus!
