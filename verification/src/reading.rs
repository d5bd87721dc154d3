//! From the metadata of a deployment to its TCP routes.

use crate::config::{
    acceptable, check_routes, connect_timeout, fault_at, first_fault, max_connections, routes_of,
    same_target, startup_path, texts_of, valid_startup_path, within_limits, ConfigError, Fault,
    Route, TcpIngress, MAX_OBJECT_NAME,
};
use crate::metadata::{
    entries_of, entry_view, given, is_member, json_items, json_members, objects_give_fields_by_name,
    open_section, section_view, sections_hold_their_items, Entry, EntryView, Field, FieldView,
    Section, SectionView,
};
use vstd::prelude::*;
use vstd::string::*;
use vstd::utf8::*;

verus! {

/// A field that has to be there and to be a port number.
pub open spec fn port_of(field: Option<FieldView>) -> Option<u16> {
    match field {
        Some(FieldView::Unsigned(number)) if number <= u16::MAX => Some(number as u16),
        _ => None,
    }
}

/// A field that has to be there and to be a text.
pub open spec fn text_of(field: Option<FieldView>) -> Option<Seq<char>> {
    match field {
        Some(FieldView::Text(text)) => Some(text),
        _ => None,
    }
}

/// A text that may be left out.
pub open spec fn text_or(field: Option<FieldView>, default: Seq<char>) -> Option<Seq<char>> {
    if field is None {
        Some(default)
    } else {
        text_of(field)
    }
}

/// A number that may be left out.
pub open spec fn number_or(field: Option<FieldView>, default: u64) -> Option<u64> {
    match field {
        None => Some(default),
        Some(FieldView::Unsigned(number)) => Some(number),
        _ => None,
    }
}

/// A count of things in memory that may be left out.
pub open spec fn count_or(field: Option<FieldView>, default: usize) -> Option<usize> {
    match field {
        None => Some(default),
        Some(FieldView::Unsigned(number)) if number <= usize::MAX => Some(number as usize),
        _ => None,
    }
}

/// The fields of an entry are those of a route: each that has to be there is,
/// each is of its kind, and there is none besides.
pub open spec fn well_formed(entry: EntryView) -> bool {
    &&& !entry.surplus
    &&& port_of(entry.listen_port) is Some
    &&& text_of(entry.class_name) is Some
    &&& text_of(entry.object_name) is Some
    &&& port_of(entry.container_port) is Some
    &&& text_or(entry.startup_path, "/start-tcp"@) is Some
    &&& number_or(entry.connect_timeout_ms, 30_000) is Some
    &&& count_or(entry.max_connections, 1024) is Some
}

/// The route that an entry describes, with the defaults filled in.
pub open spec fn route_of(entry: EntryView) -> Route {
    Route {
        listen_port: port_of(entry.listen_port)->0,
        class_name: text_of(entry.class_name)->0,
        object_name: text_of(entry.object_name)->0,
        container_port: port_of(entry.container_port)->0,
        startup_path: text_or(entry.startup_path, "/start-tcp"@)->0,
        connect_timeout_ms: number_or(entry.connect_timeout_ms, 30_000)->0,
        max_connections: count_or(entry.max_connections, 1024)->0,
    }
}

/// The routes that a section describes, where it is well formed throughout.
pub open spec fn decoded(section: SectionView) -> Option<Seq<Route>> {
    match section {
        SectionView::Absent => Some(Seq::empty()),
        SectionView::Misshapen => None,
        SectionView::Entries(entries) => {
            if forall|i: int| 0 <= i < entries.len() ==> well_formed(#[trigger] entries[i]) {
                Some(entries.map_values(|entry: EntryView| route_of(entry)))
            } else {
                None
            }
        },
    }
}

/// What reading a section gives: its routes, where it is well formed and no
/// route has a fault, and otherwise the first fault.
pub open spec fn reads_as(section: SectionView, classes: Seq<Seq<char>>, outcome: Result<Seq<Route>, Fault>) -> bool {
    match decoded(section) {
        None => outcome == Err::<Seq<Route>, Fault>(Fault::Malformed),
        Some(routes) => match outcome {
            Ok(read) => read == routes && acceptable(routes, classes),
            Err(fault) => first_fault(routes, classes, fault),
        },
    }
}

/// The value of what reading returns.
pub open spec fn outcome_of(outcome: Result<Vec<TcpIngress>, ConfigError>) -> Result<Seq<Route>, Fault> {
    match outcome {
        Ok(routes) => Ok(routes_of(routes@)),
        Err(error) => Err(error@),
    }
}

fn take_port(field: &Option<Field>) -> (port: Option<u16>)
    ensures
        port == port_of(given(*field)),
{
    match field {
        Some(Field::Unsigned(number)) => {
            if *number <= 65_535 {
                Some(*number as u16)
            } else {
                None
            }
        },
        _ => None,
    }
}

fn take_text(field: &Option<Field>) -> (text: Option<String>)
    ensures
        text is Some <==> text_of(given(*field)) is Some,
        text is Some ==> text->0@ == text_of(given(*field))->0,
{
    match field {
        Some(Field::Text(text)) => Some(text.clone()),
        _ => None,
    }
}

fn take_number(field: &Option<Field>, default: u64) -> (number: Option<u64>)
    ensures
        number == number_or(given(*field), default),
{
    match field {
        None => Some(default),
        Some(Field::Unsigned(number)) => Some(*number),
        _ => None,
    }
}

fn take_count(field: &Option<Field>, default: usize) -> (count: Option<usize>)
    ensures
        count == count_or(given(*field), default),
{
    match field {
        None => Some(default),
        Some(Field::Unsigned(number)) => {
            if *number <= usize::MAX as u64 {
                Some(*number as usize)
            } else {
                None
            }
        },
        _ => None,
    }
}

/// The route that an entry describes, where the entry is well formed.
pub fn decode_entry(entry: &Entry) -> (route: Option<TcpIngress>)
    ensures
        route is Some <==> well_formed(entry@),
        route is Some ==> route->0@ == route_of(entry@),
{
    if entry.surplus {
        return None;
    }
    let listen_port = match take_port(&entry.listen_port) {
        Some(port) => port,
        None => return None,
    };
    let container_port = match take_port(&entry.container_port) {
        Some(port) => port,
        None => return None,
    };
    let connect_timeout_ms = match take_number(&entry.connect_timeout_ms, connect_timeout()) {
        Some(number) => number,
        None => return None,
    };
    let max_connections = match take_count(&entry.max_connections, max_connections()) {
        Some(count) => count,
        None => return None,
    };
    let class_name = match take_text(&entry.class_name) {
        Some(text) => text,
        None => return None,
    };
    let object_name = match take_text(&entry.object_name) {
        Some(text) => text,
        None => return None,
    };
    let startup_path = if entry.startup_path.is_none() {
        startup_path()
    } else {
        match take_text(&entry.startup_path) {
            Some(text) => text,
            None => return None,
        }
    };
    Some(
        TcpIngress {
            listen_port,
            class_name,
            object_name,
            container_port,
            startup_path,
            connect_timeout_ms,
            max_connections,
        },
    )
}

/// Reads the routes of an opened section. The classes are those that declare a
/// container.
pub fn read_section(section: &Section, classes: &[String]) -> (outcome: Result<Vec<TcpIngress>, ConfigError>)
    ensures
        reads_as(section@, texts_of(classes@), outcome_of(outcome)),
{
    let entries = match section {
        Section::Absent => {
            let routes: Vec<TcpIngress> = Vec::new();
            assert(routes_of(routes@) =~= Seq::<Route>::empty());
            return Ok(routes);
        },
        Section::Misshapen => return Err(ConfigError::Malformed),
        Section::Entries(entries) => entries,
    };
    let ghost views = entries_of(entries@);
    let mut routes: Vec<TcpIngress> = Vec::new();
    let mut i: usize = 0;
    while i < entries.len()
        invariant
            i <= entries@.len(),
            views == entries_of(entries@),
            routes@.len() == i,
            forall|j: int| 0 <= j < i ==> well_formed(#[trigger] views[j]) && routes@[j]@ == route_of(views[j]),
            section@ == SectionView::Entries(views),
        decreases entries@.len() - i,
    {
        assert(views[i as int] == entries@[i as int]@);
        match decode_entry(&entries[i]) {
            Some(route) => routes.push(route),
            None => {
                assert(!well_formed(views[i as int]));
                return Err(ConfigError::Malformed);
            },
        }
        i += 1;
    }
    assert(routes_of(routes@) =~= views.map_values(|entry: EntryView| route_of(entry)));
    match check_routes(routes.as_slice(), classes) {
        Ok(()) => Ok(routes),
        Err(error) => Err(error),
    }
}

/// Reads the TCP routes of a deployment from its metadata. The classes are
/// those that declare a container. Metadata without a TCP section has no
/// routes.
pub fn read(metadata: &serde_json::Value, classes: &[String]) -> (outcome: Result<Vec<TcpIngress>, ConfigError>)
    ensures
        reads_as(section_view(*metadata), texts_of(classes@), outcome_of(outcome)),
{
    read_section(&open_section(metadata), classes)
}

/// A section and a set of classes read in exactly one way.
pub proof fn reading_is_determined(section: SectionView, classes: Seq<Seq<char>>)
    ensures
        exists|outcome: Result<Seq<Route>, Fault>| reads_as(section, classes, outcome),
        forall|one: Result<Seq<Route>, Fault>, other: Result<Seq<Route>, Fault>|
            reads_as(section, classes, one) && reads_as(section, classes, other) ==> one == other,
{
    match decoded(section) {
        None => {
            assert(reads_as(section, classes, Err(Fault::Malformed)));
        },
        Some(routes) => {
            if acceptable(routes, classes) {
                assert(reads_as(section, classes, Ok(routes)));
            } else {
                let i = choose|i: int| 0 <= i < routes.len() && (#[trigger] fault_at(routes, i, classes)) is Some;
                let first = least_fault(routes, classes, i);
                let fault = fault_at(routes, first, classes)->0;
                assert(first_fault(routes, classes, fault));
                assert(reads_as(section, classes, Err(fault)));
            }
        },
    }
    assert forall|one: Result<Seq<Route>, Fault>, other: Result<Seq<Route>, Fault>|
        reads_as(section, classes, one) && reads_as(section, classes, other) implies one == other by {
        if let Some(routes) = decoded(section) {
            if let Err(fault) = one {
                let i = choose|i: int|
                    {
                        &&& 0 <= i < routes.len()
                        &&& #[trigger] fault_at(routes, i, classes) == Some(fault)
                        &&& forall|j: int| 0 <= j < i ==> (#[trigger] fault_at(routes, j, classes)) is None
                    };
                if let Err(again) = other {
                    let k = choose|k: int|
                        {
                            &&& 0 <= k < routes.len()
                            &&& #[trigger] fault_at(routes, k, classes) == Some(again)
                            &&& forall|j: int| 0 <= j < k ==> (#[trigger] fault_at(routes, j, classes)) is None
                        };
                    assert(i == k);
                }
            }
        }
    }
}

/// The first of the routes up to `i` that has a fault, where the one at `i` has.
proof fn least_fault(routes: Seq<Route>, classes: Seq<Seq<char>>, i: int) -> (first: int)
    requires
        0 <= i < routes.len(),
        fault_at(routes, i, classes) is Some,
    ensures
        0 <= first <= i,
        fault_at(routes, first, classes) is Some,
        forall|j: int| 0 <= j < first ==> (#[trigger] fault_at(routes, j, classes)) is None,
    decreases i,
{
    if exists|j: int| 0 <= j < i && (#[trigger] fault_at(routes, j, classes)) is Some {
        let j = choose|j: int| 0 <= j < i && (#[trigger] fault_at(routes, j, classes)) is Some;
        least_fault(routes, classes, j)
    } else {
        i
    }
}

/// Of the routes that are read, no two listen on one port and no two lead to
/// one target. Each leads to a class that declares a container, and has nonzero
/// ports, an object name that is not too long, a startup path that can be
/// invoked, and limits within their ranges.
pub proof fn read_routes_are_sound(section: SectionView, classes: Seq<Seq<char>>, routes: Seq<Route>)
    requires
        reads_as(section, classes, Ok(routes)),
    ensures
        forall|i: int, j: int|
            #![trigger routes[i], routes[j]]
            0 <= i < j < routes.len() ==> routes[i].listen_port != routes[j].listen_port && !same_target(
                routes[i],
                routes[j],
            ),
        forall|i: int|
            #![trigger routes[i]]
            0 <= i < routes.len() ==> {
                &&& routes[i].listen_port != 0
                &&& routes[i].container_port != 0
                &&& classes.contains(routes[i].class_name)
                &&& encode_utf8(routes[i].object_name).len() <= MAX_OBJECT_NAME
                &&& valid_startup_path(routes[i].startup_path)
                &&& within_limits(routes[i])
            },
{
    assert forall|i: int| #![trigger routes[i]] 0 <= i < routes.len() implies fault_at(routes, i, classes) is None by {}
}

/// The places are some of those in a list of that length, none twice.
pub open spec fn distinct_places(places: Seq<int>, length: nat) -> bool {
    &&& forall|i: int| 0 <= i < places.len() ==> 0 <= #[trigger] places[i] < length
    &&& forall|i: int, j: int|
        #![trigger places[i], places[j]]
        0 <= i < j < places.len() ==> places[i] != places[j]
}

/// The routes at the given places, in their order.
pub open spec fn routes_at(routes: Seq<Route>, places: Seq<int>) -> Seq<Route> {
    places.map_values(|place: int| routes[place])
}

/// The entries at the given places, in their order.
pub open spec fn entries_at(entries: Seq<EntryView>, places: Seq<int>) -> Seq<EntryView> {
    places.map_values(|place: int| entries[place])
}

/// Leaving out routes of an acceptable list, or changing their order, never makes
/// a fault.
pub proof fn chosen_routes_are_acceptable(routes: Seq<Route>, classes: Seq<Seq<char>>, places: Seq<int>)
    requires
        acceptable(routes, classes),
        distinct_places(places, routes.len()),
    ensures
        acceptable(routes_at(routes, places), classes),
{
    let chosen = routes_at(routes, places);
    assert forall|i: int| 0 <= i < chosen.len() implies (#[trigger] fault_at(chosen, i, classes)) is None by {
        assert(fault_at(routes, places[i], classes) is None);
        assert forall|j: int| 0 <= j < i implies (#[trigger] chosen[j]).listen_port != chosen[i].listen_port
            && !same_target(chosen[j], chosen[i]) by {
            assert(places[j] != places[i]);
            assert(chosen[j] == routes[places[j]] && chosen[i] == routes[places[i]]);
            assert(fault_at(routes, places[j], classes) is None);
        }
    }
}

/// What is read of a section of entries without a fault is read too of any of
/// these entries, in any order.
pub proof fn chosen_entries_are_read(
    entries: Seq<EntryView>,
    classes: Seq<Seq<char>>,
    routes: Seq<Route>,
    places: Seq<int>,
)
    requires
        reads_as(SectionView::Entries(entries), classes, Ok(routes)),
        distinct_places(places, entries.len()),
    ensures
        reads_as(SectionView::Entries(entries_at(entries, places)), classes, Ok(routes_at(routes, places))),
{
    chosen_routes_are_acceptable(routes, classes, places);
    let chosen = entries_at(entries, places);
    assert forall|i: int| 0 <= i < chosen.len() implies well_formed(#[trigger] chosen[i]) by {
        assert(well_formed(entries[places[i]]));
    }
    assert(chosen.map_values(|entry: EntryView| route_of(entry)) =~= routes_at(routes, places));
}

/// More classes that declare a container never make a fault: what is read
/// without one is read the same.
pub proof fn more_classes_refuse_nothing(
    section: SectionView,
    classes: Seq<Seq<char>>,
    more: Seq<Seq<char>>,
    routes: Seq<Route>,
)
    requires
        reads_as(section, classes, Ok(routes)),
        forall|name: Seq<char>| #[trigger] classes.contains(name) ==> more.contains(name),
    ensures
        reads_as(section, more, Ok(routes)),
{
    assert forall|i: int| 0 <= i < routes.len() implies (#[trigger] fault_at(routes, i, more)) is None by {
        assert(fault_at(routes, i, classes) is None);
        assert(classes.contains(routes[i].class_name));
    }
}

/// The field that holds a text.
pub open spec fn text_field(text: Seq<char>) -> Option<FieldView> {
    Some(FieldView::Text(text))
}

/// The field that holds a number.
pub open spec fn number_field(number: u64) -> Option<FieldView> {
    Some(FieldView::Unsigned(number))
}

/// The entry that gives every field of a route.
pub open spec fn full_entry(route: Route) -> EntryView {
    EntryView {
        listen_port: number_field(route.listen_port as u64),
        class_name: text_field(route.class_name),
        object_name: text_field(route.object_name),
        container_port: number_field(route.container_port as u64),
        startup_path: text_field(route.startup_path),
        connect_timeout_ms: number_field(route.connect_timeout_ms),
        max_connections: number_field(route.max_connections as u64),
        surplus: false,
    }
}

/// Routes that are written out in full and are acceptable read back as they
/// are, in their order.
pub proof fn full_entries_read_back(routes: Seq<Route>, classes: Seq<Seq<char>>)
    requires
        acceptable(routes, classes),
    ensures
        reads_as(
            SectionView::Entries(routes.map_values(|route: Route| full_entry(route))),
            classes,
            Ok(routes),
        ),
{
    let entries = routes.map_values(|route: Route| full_entry(route));
    assert forall|i: int| 0 <= i < entries.len() implies well_formed(#[trigger] entries[i]) && route_of(entries[i])
        == routes[i] by {
        assert(entries[i] == full_entry(routes[i]));
    }
    assert(entries.map_values(|entry: EntryView| route_of(entry)) =~= routes);
}

/// An entry that gives something besides the fields of a route makes the whole
/// section malformed, and so does one that leaves out a field without a
/// default.
pub proof fn strange_entries_are_refused(
    entries: Seq<EntryView>,
    classes: Seq<Seq<char>>,
    place: int,
    outcome: Result<Seq<Route>, Fault>,
)
    requires
        0 <= place < entries.len(),
        entries[place].surplus || entries[place].listen_port is None || entries[place].class_name is None
            || entries[place].object_name is None || entries[place].container_port is None,
        reads_as(SectionView::Entries(entries), classes, outcome),
    ensures
        outcome == Err::<Seq<Route>, Fault>(Fault::Malformed),
{
    assert(!well_formed(entries[place]));
}

/// Ingress is opt-in: metadata without a section for it has no routes, and that
/// is no fault.
pub proof fn absent_section_has_no_routes(classes: Seq<Seq<char>>, outcome: Result<Seq<Route>, Fault>)
    ensures
        reads_as(SectionView::Absent, classes, outcome) <==> outcome == Ok::<Seq<Route>, Fault>(
            Seq::<Route>::empty(),
        ),
{
    let none = Seq::<Route>::empty();
    assert(acceptable(none, classes));
    if let Err(fault) = outcome {
        assert(!first_fault(none, classes, fault));
    }
}

/// What an entry may leave out gets a value that no rule refuses.
pub proof fn defaults_are_valid(entry: EntryView)
    requires
        well_formed(entry),
    ensures
        entry.startup_path is None ==> route_of(entry).startup_path == "/start-tcp"@ && valid_startup_path(
            route_of(entry).startup_path,
        ),
        entry.connect_timeout_ms is None && entry.max_connections is None ==> {
            &&& route_of(entry).connect_timeout_ms == 30_000
            &&& route_of(entry).max_connections == 1024
            &&& within_limits(route_of(entry))
        },
{
    reveal_strlit("/start-tcp");
    let path = "/start-tcp"@;
    assert(is_ascii_chars(path));
    is_ascii_chars_encode_utf8(path);
}

/// An entry describes a route exactly where it gives nothing besides its fields,
/// both ports and both names are there and of their kinds, the ports being at
/// most 65535, and what may be left out is left out or of its kind.
pub proof fn entries_are_judged_by_their_fields(entry: EntryView)
    ensures
        well_formed(entry) <==> {
            &&& !entry.surplus
            &&& (entry.listen_port matches Some(FieldView::Unsigned(port)) && port <= 65_535)
            &&& (entry.class_name matches Some(FieldView::Text(_)))
            &&& (entry.object_name matches Some(FieldView::Text(_)))
            &&& (entry.container_port matches Some(FieldView::Unsigned(port)) && port <= 65_535)
            &&& (entry.startup_path is None || entry.startup_path->0 is Text)
            &&& (entry.connect_timeout_ms is None || entry.connect_timeout_ms->0 is Unsigned)
            &&& (entry.max_connections is None || (entry.max_connections->0 is Unsigned
                && entry.max_connections->0->Unsigned_0 <= usize::MAX))
        },
{
}

/// A route has what its entry gives, field by field, and for what is left out the
/// path `/start-tcp`, 30000 milliseconds and 1024 connections, each by itself.
pub proof fn routes_have_what_entries_give(entry: EntryView)
    requires
        well_formed(entry),
    ensures
        entry.listen_port == Some(FieldView::Unsigned(route_of(entry).listen_port as u64)),
        entry.class_name == Some(FieldView::Text(route_of(entry).class_name)),
        entry.object_name == Some(FieldView::Text(route_of(entry).object_name)),
        entry.container_port == Some(FieldView::Unsigned(route_of(entry).container_port as u64)),
        entry.startup_path is Some ==> entry.startup_path == Some(FieldView::Text(route_of(entry).startup_path)),
        entry.startup_path is None ==> route_of(entry).startup_path == "/start-tcp"@,
        entry.connect_timeout_ms is Some ==> entry.connect_timeout_ms == Some(
            FieldView::Unsigned(route_of(entry).connect_timeout_ms),
        ),
        entry.connect_timeout_ms is None ==> route_of(entry).connect_timeout_ms == 30_000,
        entry.max_connections is Some ==> entry.max_connections == Some(
            FieldView::Unsigned(route_of(entry).max_connections as u64),
        ),
        entry.max_connections is None ==> route_of(entry).max_connections == 1024,
{
}

/// What is read of a section of entries is a list of routes exactly where every
/// entry describes one and these are acceptable: one for each entry, in order.
pub proof fn entries_are_read_in_order(entries: Seq<EntryView>, classes: Seq<Seq<char>>, routes: Seq<Route>)
    ensures
        reads_as(SectionView::Entries(entries), classes, Ok(routes)) <==> {
            &&& routes.len() == entries.len()
            &&& forall|i: int|
                0 <= i < entries.len() ==> well_formed(#[trigger] entries[i]) && routes[i] == route_of(entries[i])
            &&& acceptable(routes, classes)
        },
{
    let all = entries.map_values(|entry: EntryView| route_of(entry));
    if forall|i: int| 0 <= i < entries.len() ==> well_formed(#[trigger] entries[i]) {
        if routes.len() == entries.len() && (forall|i: int|
            0 <= i < entries.len() ==> well_formed(#[trigger] entries[i]) && routes[i] == route_of(entries[i])) {
            assert(routes =~= all);
        }
    }
}

/// A section is reported as malformed exactly where it is misshapen or an entry
/// of it describes no route. Every other report is that of the first fault of its
/// routes.
pub proof fn reports_have_their_reasons(section: SectionView, classes: Seq<Seq<char>>, fault: Fault)
    ensures
        reads_as(section, classes, Err(Fault::Malformed)) <==> section is Misshapen || (section is Entries && exists|i: int|
            0 <= i < section->Entries_0.len() && !well_formed(#[trigger] section->Entries_0[i])),
        !(fault is Malformed) && section is Entries ==> (reads_as(section, classes, Err(fault)) <==> (forall|i: int|
            0 <= i < section->Entries_0.len() ==> well_formed(#[trigger] section->Entries_0[i])) && first_fault(
            section->Entries_0.map_values(|entry: EntryView| route_of(entry)),
            classes,
            fault,
        )),
{
    if let Some(routes) = decoded(section) {
        assert forall|i: int| 0 <= i < routes.len() implies #[trigger] fault_at(routes, i, classes) != Some(
            Fault::Malformed,
        ) by {}
    }
}

/// What reading returns is seen as it is.
pub proof fn outcomes_are_seen_as_they_are(outcome: Result<Vec<TcpIngress>, ConfigError>)
    ensures
        outcome matches Ok(routes) ==> outcome_of(outcome) == Ok::<Seq<Route>, Fault>(routes_of(routes@)),
        outcome matches Err(error) ==> outcome_of(outcome) == Err::<Seq<Route>, Fault>(error@),
        outcome matches Err(ConfigError::NotAContainer(name)) ==> outcome_of(outcome) == Err::<Seq<Route>, Fault>(
            Fault::NotAContainer(name@),
        ),
        outcome matches Err(ConfigError::DuplicateListenPort(port)) ==> outcome_of(outcome) == Err::<Seq<Route>, Fault>(
            Fault::DuplicateListenPort(port),
        ),
{
}

/// From the JSON metadata to the routes: where the section is a list of objects
/// that give each field of a route by its name and nothing besides, and these
/// routes are acceptable, they are what is read, in order.
pub proof fn objects_in_full_are_read(metadata: serde_json::Value, classes: Seq<Seq<char>>, routes: Seq<Route>)
    requires
        json_members(metadata) is Some,
        json_members(metadata)->0.contains_key("tcp"@),
        json_items(json_members(metadata)->0["tcp"@]) is Some,
        json_items(json_members(metadata)->0["tcp"@])->0.len() == routes.len(),
        forall|i: int|
            0 <= i < routes.len() ==> is_full_object(
                json_items(json_members(metadata)->0["tcp"@])->0[i],
                #[trigger] routes[i],
            ),
        acceptable(routes, classes),
    ensures
        reads_as(section_view(metadata), classes, Ok(routes)),
{
    let items = json_items(json_members(metadata)->0["tcp"@])->0;
    assert forall|i: int| 0 <= i < items.len() implies json_members(#[trigger] items[i]) is Some by {
        assert(is_full_object(items[i], routes[i]));
    }
    sections_hold_their_items(metadata);
    let entries = section_view(metadata)->Entries_0;
    assert forall|i: int| 0 <= i < entries.len() implies well_formed(#[trigger] entries[i]) && routes[i] == route_of(
        entries[i],
    ) by {
        assert(is_full_object(items[i], routes[i]));
        objects_give_fields_by_name(items[i]);
        assert(Some(entries[i]) == entry_view(items[i]));
        entries_are_judged_by_their_fields(entries[i]);
        routes_have_what_entries_give(entries[i]);
    }
    entries_are_read_in_order(entries, classes, routes);
}

/// The JSON value is an object that gives each field of the route by its name and
/// has no other member.
pub open spec fn is_full_object(value: serde_json::Value, route: Route) -> bool {
    &&& json_members(value) matches Some(members)
    &&& is_member(members, "listen_port"@, number_field(route.listen_port as u64))
    &&& is_member(members, "class_name"@, text_field(route.class_name))
    &&& is_member(members, "object_name"@, text_field(route.object_name))
    &&& is_member(members, "container_port"@, number_field(route.container_port as u64))
    &&& is_member(members, "startup_path"@, text_field(route.startup_path))
    &&& is_member(members, "connect_timeout_ms"@, number_field(route.connect_timeout_ms))
    &&& is_member(members, "max_connections"@, number_field(route.max_connections as u64))
    &&& forall|name: Seq<char>| #[trigger]
        members.dom().contains(name) ==> name == "listen_port"@ || name == "class_name"@ || name == "object_name"@
            || name == "container_port"@ || name == "startup_path"@ || name == "connect_timeout_ms"@ || name
            == "max_connections"@
}

} // verus!
