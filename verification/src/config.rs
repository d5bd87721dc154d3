//! The TCP routes of a deployment: their defaults and the rules they obey.

use crate::text::{
    decimal, decimal_text, decimal_value, decimals_stand_for_their_number, is_control,
    is_control_char, join, same_text,
};
use vstd::prelude::*;
use vstd::string::*;
use vstd::utf8::*;

verus! {

/// The most bytes that an object name may have.
pub const MAX_OBJECT_NAME: usize = 1024;

/// The most bytes that a startup path may have.
pub const MAX_STARTUP_PATH: usize = 4096;

/// The longest time that establishing a connection may take, in milliseconds.
pub const MAX_CONNECT_TIMEOUT_MS: u64 = 300_000;

/// The most connections that one route may serve at a time.
pub const MAX_CONNECTIONS: usize = 65_536;

/// A fixed TCP endpoint that leads to a port of a named container object.
#[derive(Debug, PartialEq, Eq)]
pub struct TcpIngress {
    pub listen_port: u16,
    pub class_name: String,
    pub object_name: String,
    pub container_port: u16,
    pub startup_path: String,
    pub connect_timeout_ms: u64,
    pub max_connections: usize,
}

/// The mathematical value of a [`TcpIngress`].
pub struct Route {
    pub listen_port: u16,
    pub class_name: Seq<char>,
    pub object_name: Seq<char>,
    pub container_port: u16,
    pub startup_path: Seq<char>,
    pub connect_timeout_ms: u64,
    pub max_connections: usize,
}

impl View for TcpIngress {
    type V = Route;

    open spec fn view(&self) -> Route {
        Route {
            listen_port: self.listen_port,
            class_name: self.class_name@,
            object_name: self.object_name@,
            container_port: self.container_port,
            startup_path: self.startup_path@,
            connect_timeout_ms: self.connect_timeout_ms,
            max_connections: self.max_connections,
        }
    }
}

impl Clone for TcpIngress {
    fn clone(&self) -> (copy: Self)
        ensures
            copy@ == self@,
    {
        TcpIngress {
            listen_port: self.listen_port,
            class_name: self.class_name.clone(),
            object_name: self.object_name.clone(),
            container_port: self.container_port,
            startup_path: self.startup_path.clone(),
            connect_timeout_ms: self.connect_timeout_ms,
            max_connections: self.max_connections,
        }
    }
}

/// The values of a list of routes.
pub open spec fn routes_of(routes: Seq<TcpIngress>) -> Seq<Route> {
    routes.map_values(|route: TcpIngress| route@)
}

/// The values of a list of texts.
pub open spec fn texts_of(texts: Seq<String>) -> Seq<Seq<char>> {
    texts.map_values(|text: String| text@)
}

/// The startup path of a route that gives none.
pub fn startup_path() -> (path: String)
    ensures
        path@ == "/start-tcp"@,
{
    "/start-tcp".to_string()
}

/// The establishment timeout of a route that gives none, in milliseconds.
pub fn connect_timeout() -> (millis: u64)
    ensures
        millis == 30_000,
{
    30_000
}

/// The connection limit of a route that gives none.
pub fn max_connections() -> (limit: usize)
    ensures
        limit == 1024,
{
    1024
}

/// Why the TCP section of a deployment is refused.
#[derive(Debug, PartialEq, Eq)]
pub enum ConfigError {
    /// The section does not have the form of a list of routes; the parser's error
    /// is the one to report.
    Malformed,
    ZeroPort,
    /// The class of this name declares no container.
    NotAContainer(String),
    ObjectNameTooLong,
    StartupPath,
    Limits,
    DuplicateListenPort(u16),
    DuplicateTarget,
}

/// The mathematical value of a [`ConfigError`].
pub enum Fault {
    Malformed,
    ZeroPort,
    NotAContainer(Seq<char>),
    ObjectNameTooLong,
    StartupPath,
    Limits,
    DuplicateListenPort(u16),
    DuplicateTarget,
}

impl View for ConfigError {
    type V = Fault;

    open spec fn view(&self) -> Fault {
        match self {
            ConfigError::Malformed => Fault::Malformed,
            ConfigError::ZeroPort => Fault::ZeroPort,
            ConfigError::NotAContainer(name) => Fault::NotAContainer(name@),
            ConfigError::ObjectNameTooLong => Fault::ObjectNameTooLong,
            ConfigError::StartupPath => Fault::StartupPath,
            ConfigError::Limits => Fault::Limits,
            ConfigError::DuplicateListenPort(port) => Fault::DuplicateListenPort(*port),
            ConfigError::DuplicateTarget => Fault::DuplicateTarget,
        }
    }
}

/// A text as Rust's `Debug` writes it: quoted, with what needs it escaped.
pub uninterp spec fn debug_text(text: Seq<char>) -> Seq<char>;

/// Calls `format!` with `{:?}` on a `str`. Claims only that what it writes
/// depends on the text alone.
#[verifier::external_body]
fn quoted(text: &str) -> (written: String)
    ensures
        written@ == debug_text(text@),
{
    format!("{:?}", text)
}

/// The words that report a fault, where they are this library's own. Those for
/// a malformed section are the parser's.
pub open spec fn fault_message(fault: Fault) -> Option<Seq<char>> {
    match fault {
        Fault::Malformed => None,
        Fault::ZeroPort => Some("TCP ports must be nonzero"@),
        Fault::NotAContainer(name) => Some("TCP class "@ + debug_text(name) + " must declare a container"@),
        Fault::ObjectNameTooLong => Some("TCP object_name exceeds 1024 bytes"@),
        Fault::StartupPath => Some(
            "TCP startup_path must be an absolute path without query or fragment (at most 4096 bytes)"@,
        ),
        Fault::Limits => Some("TCP connect_timeout_ms must be 1..=300000 and max_connections 1..=65536"@),
        Fault::DuplicateListenPort(port) => Some("duplicate TCP listen_port "@ + decimal_text(port as nat)),
        Fault::DuplicateTarget => Some("duplicate TCP target"@),
    }
}

impl ConfigError {
    /// The words that report the error, where they are this library's own.
    pub fn message(&self) -> (message: Option<String>)
        ensures
            message is Some <==> fault_message(self@) is Some,
            message is Some ==> message->0@ == fault_message(self@)->0,
    {
        match self {
            ConfigError::Malformed => None,
            ConfigError::ZeroPort => Some("TCP ports must be nonzero".to_string()),
            ConfigError::NotAContainer(name) => {
                let start = join("TCP class ", quoted(name.as_str()).as_str());
                Some(join(start.as_str(), " must declare a container"))
            },
            ConfigError::ObjectNameTooLong => Some("TCP object_name exceeds 1024 bytes".to_string()),
            ConfigError::StartupPath => Some(
                "TCP startup_path must be an absolute path without query or fragment (at most 4096 bytes)".to_string(),
            ),
            ConfigError::Limits => Some(
                "TCP connect_timeout_ms must be 1..=300000 and max_connections 1..=65536".to_string(),
            ),
            ConfigError::DuplicateListenPort(port) => {
                Some(join("duplicate TCP listen_port ", decimal(*port as u64).as_str()))
            },
            ConfigError::DuplicateTarget => Some("duplicate TCP target".to_string()),
        }
    }
}

/// An absolute path without query or fragment, short enough to be invoked.
pub open spec fn valid_startup_path(path: Seq<char>) -> bool {
    &&& path.len() >= 1 && path[0] == '/'
    &&& !(path.len() >= 2 && path[1] == '/')
    &&& encode_utf8(path).len() <= MAX_STARTUP_PATH
    &&& forall|i: int| 0 <= i < path.len() ==> allowed_in_path(#[trigger] path[i])
}

/// A character that a startup path may hold.
pub open spec fn allowed_in_path(c: char) -> bool {
    !is_control_char(c) && c != '?' && c != '#' && c != '\\'
}

/// The timeout and the connection limit lie in their ranges.
pub open spec fn within_limits(route: Route) -> bool {
    &&& 1 <= route.connect_timeout_ms <= MAX_CONNECT_TIMEOUT_MS
    &&& 1 <= route.max_connections <= MAX_CONNECTIONS
}

/// Two routes that lead to one place by one startup hook.
pub open spec fn same_target(a: Route, b: Route) -> bool {
    &&& a.class_name == b.class_name
    &&& a.object_name == b.object_name
    &&& a.container_port == b.container_port
    &&& a.startup_path == b.startup_path
}

/// What is wrong with the route at `index`, seen by itself and against the
/// routes before it.
pub open spec fn fault_at(routes: Seq<Route>, index: int, classes: Seq<Seq<char>>) -> Option<Fault> {
    let route = routes[index];
    if route.listen_port == 0 || route.container_port == 0 {
        Some(Fault::ZeroPort)
    } else if !classes.contains(route.class_name) {
        Some(Fault::NotAContainer(route.class_name))
    } else if encode_utf8(route.object_name).len() > MAX_OBJECT_NAME {
        Some(Fault::ObjectNameTooLong)
    } else if !valid_startup_path(route.startup_path) {
        Some(Fault::StartupPath)
    } else if !within_limits(route) {
        Some(Fault::Limits)
    } else if exists|j: int| 0 <= j < index && (#[trigger] routes[j]).listen_port == route.listen_port {
        Some(Fault::DuplicateListenPort(route.listen_port))
    } else if exists|j: int| 0 <= j < index && same_target(#[trigger] routes[j], route) {
        Some(Fault::DuplicateTarget)
    } else {
        None
    }
}

/// No route has a fault.
pub open spec fn acceptable(routes: Seq<Route>, classes: Seq<Seq<char>>) -> bool {
    forall|i: int| 0 <= i < routes.len() ==> (#[trigger] fault_at(routes, i, classes)) is None
}

/// `fault` is that of the first route that has one.
pub open spec fn first_fault(routes: Seq<Route>, classes: Seq<Seq<char>>, fault: Fault) -> bool {
    exists|i: int|
        {
            &&& 0 <= i < routes.len()
            &&& #[trigger] fault_at(routes, i, classes) == Some(fault)
            &&& forall|j: int| 0 <= j < i ==> (#[trigger] fault_at(routes, j, classes)) is None
        }
}

/// Whether a path may be invoked as a startup hook.
pub fn startup_path_is_valid(path: &str) -> (valid: bool)
    ensures
        valid == valid_startup_path(path@),
        valid ==> encode_utf8(path@).len() <= 4096 && path@.len() >= 1 && path@[0] == '/',
{
    let mut good = true;
    let mut count: usize = 0;
    let bytes = path.as_bytes().len();
    if bytes > MAX_STARTUP_PATH {
        return false;
    }
    let mut first_slash = false;
    let mut second_slash = false;
    for c in it: path.chars()
        invariant
            it.seq() == path@,
            count == (if it.index() < 2 { it.index() } else { 2 }),
            good == (forall|i: int| 0 <= i < it.index() ==> allowed_in_path(#[trigger] path@[i])),
            first_slash == (it.index() >= 1 && path@[0] == '/'),
            second_slash == (it.index() >= 2 && path@[1] == '/'),
    {
        if count == 0 {
            first_slash = c == '/';
            count = 1;
        } else if count == 1 {
            second_slash = c == '/';
            count = 2;
        }
        if is_control(c) || c == '?' || c == '#' || c == '\\' {
            good = false;
        }
    }
    first_slash && !second_slash && good
}

/// Whether a list of texts holds `text`.
fn has_text(texts: &[String], text: &str) -> (has: bool)
    ensures
        has == texts_of(texts@).contains(text@),
{
    let mut i: usize = 0;
    while i < texts.len()
        invariant
            i <= texts@.len(),
            forall|j: int| 0 <= j < i ==> (#[trigger] texts@[j])@ != text@,
        decreases texts@.len() - i,
    {
        if same_text(texts[i].as_str(), text) {
            assert(texts_of(texts@)[i as int] == text@);
            return true;
        }
        i += 1;
    }
    proof {
        if texts_of(texts@).contains(text@) {
            let k = choose|k: int| 0 <= k < texts_of(texts@).len() && texts_of(texts@)[k] == text@;
            assert(texts@[k]@ == text@);
        }
    }
    false
}

/// Whether two routes lead to one place by one startup hook.
fn shares_target(a: &TcpIngress, b: &TcpIngress) -> (shares: bool)
    ensures
        shares == same_target(a@, b@),
        shares <==> a.class_name@ == b.class_name@ && a.object_name@ == b.object_name@ && a.container_port
            == b.container_port && a.startup_path@ == b.startup_path@,
{
    same_text(a.class_name.as_str(), b.class_name.as_str())
        && same_text(a.object_name.as_str(), b.object_name.as_str())
        && a.container_port == b.container_port
        && same_text(a.startup_path.as_str(), b.startup_path.as_str())
}

/// What is wrong with the route at `index`.
fn check_route(routes: &[TcpIngress], index: usize, classes: &[String]) -> (checked: Result<(), ConfigError>)
    requires
        index < routes@.len(),
    ensures
        checked is Ok <==> fault_at(routes_of(routes@), index as int, texts_of(classes@)) is None,
        checked matches Err(error) ==> fault_at(routes_of(routes@), index as int, texts_of(classes@)) == Some(error@),
{
    let route = &routes[index];
    let ghost all = routes_of(routes@);
    assert(all[index as int] == route@);
    if route.listen_port == 0 || route.container_port == 0 {
        return Err(ConfigError::ZeroPort);
    }
    if !has_text(classes, route.class_name.as_str()) {
        return Err(ConfigError::NotAContainer(route.class_name.clone()));
    }
    if route.object_name.as_str().as_bytes().len() > MAX_OBJECT_NAME {
        return Err(ConfigError::ObjectNameTooLong);
    }
    if !startup_path_is_valid(route.startup_path.as_str()) {
        return Err(ConfigError::StartupPath);
    }
    if route.connect_timeout_ms < 1 || route.connect_timeout_ms > MAX_CONNECT_TIMEOUT_MS
        || route.max_connections < 1 || route.max_connections > MAX_CONNECTIONS {
        return Err(ConfigError::Limits);
    }
    let mut j: usize = 0;
    while j < index
        invariant
            j <= index < routes@.len(),
            all == routes_of(routes@),
            *route == routes@[index as int],
            forall|k: int| 0 <= k < j ==> (#[trigger] all[k]).listen_port != route.listen_port,
        ensures
            j < index ==> all[j as int].listen_port == route.listen_port,
            j == index ==> forall|k: int| 0 <= k < index ==> (#[trigger] all[k]).listen_port != route.listen_port,
            j <= index,
        decreases index - j,
    {
        assert(all[j as int] == routes@[j as int]@);
        if routes[j].listen_port == route.listen_port {
            break;
        }
        j += 1;
    }
    if j < index {
        return Err(ConfigError::DuplicateListenPort(route.listen_port));
    }
    j = 0;
    while j < index
        invariant
            j <= index < routes@.len(),
            all == routes_of(routes@),
            *route == routes@[index as int],
            forall|k: int| 0 <= k < j ==> !same_target(#[trigger] all[k], route@),
        ensures
            j < index ==> same_target(all[j as int], route@),
            j == index ==> forall|k: int| 0 <= k < index ==> !same_target(#[trigger] all[k], route@),
            j <= index,
        decreases index - j,
    {
        assert(all[j as int] == routes@[j as int]@);
        if shares_target(&routes[j], route) {
            break;
        }
        j += 1;
    }
    if j < index {
        return Err(ConfigError::DuplicateTarget);
    }
    Ok(())
}

/// Holds a list of routes to the rules, and reports the first fault.
pub fn check_routes(routes: &[TcpIngress], classes: &[String]) -> (checked: Result<(), ConfigError>)
    ensures
        checked is Ok <==> acceptable(routes_of(routes@), texts_of(classes@)),
        checked matches Err(error) ==> first_fault(routes_of(routes@), texts_of(classes@), error@),
{
    let ghost all = routes_of(routes@);
    let mut index: usize = 0;
    while index < routes.len()
        invariant
            index <= routes@.len(),
            all == routes_of(routes@),
            forall|j: int| 0 <= j < index ==> (#[trigger] fault_at(all, j, texts_of(classes@))) is None,
        decreases routes@.len() - index,
    {
        match check_route(routes, index, classes) {
            Ok(()) => {},
            Err(error) => {
                assert(fault_at(all, index as int, texts_of(classes@)) == Some(error@));
                return Err(error);
            },
        }
        index += 1;
    }
    Ok(())
}

/// A route is seen with all of its fields, and a list with all of its members.
pub proof fn routes_are_seen_as_they_are(route: TcpIngress, routes: Seq<TcpIngress>, texts: Seq<String>)
    ensures
        route@.listen_port == route.listen_port,
        route@.class_name == route.class_name@,
        route@.object_name == route.object_name@,
        route@.container_port == route.container_port,
        route@.startup_path == route.startup_path@,
        route@.connect_timeout_ms == route.connect_timeout_ms,
        route@.max_connections == route.max_connections,
        routes_of(routes).len() == routes.len(),
        forall|i: int| 0 <= i < routes.len() ==> #[trigger] routes_of(routes)[i] == routes[i]@,
        texts_of(texts).len() == texts.len(),
        forall|i: int| 0 <= i < texts.len() ==> #[trigger] texts_of(texts)[i] == texts[i]@,
{
}

/// A startup path is valid exactly where it begins with one slash, has at most
/// 4096 bytes, and holds no control character, question mark, number sign or
/// backslash.
pub proof fn startup_paths_are_judged_by_their_characters(path: Seq<char>)
    ensures
        valid_startup_path(path) <==> {
            &&& path.len() >= 1 && path[0] == '/'
            &&& path.len() >= 2 ==> path[1] != '/'
            &&& encode_utf8(path).len() <= 4096
            &&& forall|k: int|
                0 <= k < path.len() ==> {
                    &&& 32 <= (#[trigger] path[k]) as int
                    &&& !(127 <= (path[k] as int) && (path[k] as int) <= 159)
                    &&& path[k] != '?' && path[k] != '#' && path[k] != '\\'
                }
        },
{
    assert forall|k: int| 0 <= k < path.len() implies allowed_in_path(#[trigger] path[k]) == {
        &&& 32 <= path[k] as int
        &&& !(127 <= (path[k] as int) && (path[k] as int) <= 159)
        &&& path[k] != '?' && path[k] != '#' && path[k] != '\\'
    } by {}
}

/// A list of routes is accepted exactly where each route has nonzero ports, a
/// class that declares a container, an object name of at most 1024 bytes, a valid
/// startup path, a timeout of 1 to 300000 milliseconds and a limit of 1 to 65536
/// connections, no two routes share a listening port, and every two differ in
/// class name, object name, container port or startup path.
pub proof fn lists_are_judged_by_their_fields(routes: Seq<Route>, classes: Seq<Seq<char>>)
    ensures
        acceptable(routes, classes) <==> {
            &&& forall|i: int|
                #![trigger routes[i]]
                0 <= i < routes.len() ==> {
                    &&& routes[i].listen_port != 0
                    &&& routes[i].container_port != 0
                    &&& classes.contains(routes[i].class_name)
                    &&& encode_utf8(routes[i].object_name).len() <= 1024
                    &&& valid_startup_path(routes[i].startup_path)
                    &&& 1 <= routes[i].connect_timeout_ms <= 300_000
                    &&& 1 <= routes[i].max_connections <= 65_536
                }
            &&& forall|i: int, j: int|
                #![trigger routes[i], routes[j]]
                0 <= i < j < routes.len() ==> {
                    &&& routes[i].listen_port != routes[j].listen_port
                    &&& routes[i].class_name != routes[j].class_name || routes[i].object_name != routes[j].object_name
                        || routes[i].container_port != routes[j].container_port || routes[i].startup_path
                        != routes[j].startup_path
                }
        },
{
    if acceptable(routes, classes) {
        assert forall|i: int| #![trigger routes[i]] 0 <= i < routes.len() implies fault_at(routes, i, classes) is None by {}
        assert forall|i: int, j: int|
            #![trigger routes[i], routes[j]]
            0 <= i < j < routes.len() implies routes[i].listen_port != routes[j].listen_port && !same_target(
            routes[i],
            routes[j],
        ) by {
            assert(fault_at(routes, j, classes) is None);
        }
    } else {
        let i = choose|i: int| 0 <= i < routes.len() && (#[trigger] fault_at(routes, i, classes)) is Some;
        if exists|j: int| 0 <= j < i && (#[trigger] routes[j]).listen_port == routes[i].listen_port {
            let j = choose|j: int| 0 <= j < i && (#[trigger] routes[j]).listen_port == routes[i].listen_port;
            assert(0 <= j < i);
        }
        if exists|j: int| 0 <= j < i && same_target(#[trigger] routes[j], routes[i]) {
            let j = choose|j: int| 0 <= j < i && same_target(#[trigger] routes[j], routes[i]);
            assert(0 <= j < i);
        }
    }
}

/// Each fault has its reason in the fields of the route, and comes where that
/// reason holds and none before it: a zero port, a class without a container, a
/// long object name, a bad path, a limit out of range, a listening port that an
/// earlier route has, a target that an earlier route has in all four fields.
pub proof fn faults_have_their_reasons(routes: Seq<Route>, index: int, classes: Seq<Seq<char>>)
    requires
        0 <= index < routes.len(),
    ensures
        ({
            let route = routes[index];
            let fault = fault_at(routes, index, classes);
            let zero = route.listen_port == 0 || route.container_port == 0;
            let stranger = !classes.contains(route.class_name);
            let long = encode_utf8(route.object_name).len() > 1024;
            let path = !valid_startup_path(route.startup_path);
            let limits = route.connect_timeout_ms < 1 || route.connect_timeout_ms > 300_000 || route.max_connections < 1
                || route.max_connections > 65_536;
            let port = exists|j: int| 0 <= j < index && (#[trigger] routes[j]).listen_port == route.listen_port;
            let target = exists|j: int|
                {
                    &&& 0 <= j < index
                    &&& (#[trigger] routes[j]).class_name == route.class_name
                    &&& routes[j].object_name == route.object_name
                    &&& routes[j].container_port == route.container_port
                    &&& routes[j].startup_path == route.startup_path
                };
            &&& fault == Some(Fault::ZeroPort) <==> zero
            &&& fault == Some(Fault::NotAContainer(route.class_name)) <==> !zero && stranger
            &&& fault == Some(Fault::ObjectNameTooLong) <==> !zero && !stranger && long
            &&& fault == Some(Fault::StartupPath) <==> !zero && !stranger && !long && path
            &&& fault == Some(Fault::Limits) <==> !zero && !stranger && !long && !path && limits
            &&& fault == Some(Fault::DuplicateListenPort(route.listen_port)) <==> !zero && !stranger && !long && !path
                && !limits && port
            &&& fault == Some(Fault::DuplicateTarget) <==> !zero && !stranger && !long && !path && !limits && !port
                && target
            &&& fault is None <==> !zero && !stranger && !long && !path && !limits && !port && !target
        }),
{
    let route = routes[index];
    assert forall|j: int| 0 <= j < index implies same_target(#[trigger] routes[j], route) == {
        &&& routes[j].class_name == route.class_name
        &&& routes[j].object_name == route.object_name
        &&& routes[j].container_port == route.container_port
        &&& routes[j].startup_path == route.startup_path
    } by {}
}

/// The fault that is reported is that of the route with which an acceptable list
/// stops being one.
pub proof fn first_fault_ends_an_acceptable_list(routes: Seq<Route>, classes: Seq<Seq<char>>, fault: Fault)
    ensures
        first_fault(routes, classes, fault) <==> exists|i: int|
            {
                &&& 0 <= i < routes.len()
                &&& acceptable(routes.take(i), classes)
                &&& #[trigger] fault_at(routes, i, classes) == Some(fault)
            },
{
    assert forall|i: int| 0 <= i <= routes.len() implies (acceptable(#[trigger] routes.take(i), classes) <==> forall|
        j: int,
    |
        0 <= j < i ==> (#[trigger] fault_at(routes, j, classes)) is None) by {
        let fewer = routes.take(i);
        assert forall|j: int| 0 <= j < i implies #[trigger] fault_at(fewer, j, classes) == fault_at(routes, j, classes) by {
            assert(fewer[j] == routes[j]);
            assert forall|k: int| 0 <= k < j implies #[trigger] fewer[k] == routes[k] by {}
            if exists|k: int| 0 <= k < j && (#[trigger] routes[k]).listen_port == routes[j].listen_port {
                let k = choose|k: int| 0 <= k < j && (#[trigger] routes[k]).listen_port == routes[j].listen_port;
                assert(fewer[k] == routes[k]);
            }
            if exists|k: int| 0 <= k < j && same_target(#[trigger] routes[k], routes[j]) {
                let k = choose|k: int| 0 <= k < j && same_target(#[trigger] routes[k], routes[j]);
                assert(fewer[k] == routes[k]);
            }
        }
        if acceptable(fewer, classes) {
            assert forall|j: int| 0 <= j < i implies (#[trigger] fault_at(routes, j, classes)) is None by {
                assert(fault_at(fewer, j, classes) is None);
            }
        }
    }
    if first_fault(routes, classes, fault) {
        let i = choose|i: int|
            {
                &&& 0 <= i < routes.len()
                &&& #[trigger] fault_at(routes, i, classes) == Some(fault)
                &&& forall|j: int| 0 <= j < i ==> (#[trigger] fault_at(routes, j, classes)) is None
            };
        assert(acceptable(routes.take(i), classes));
    }
    if exists|i: int|
        {
            &&& 0 <= i < routes.len()
            &&& acceptable(routes.take(i), classes)
            &&& #[trigger] fault_at(routes, i, classes) == Some(fault)
        } {
        let i = choose|i: int|
            {
                &&& 0 <= i < routes.len()
                &&& acceptable(routes.take(i), classes)
                &&& #[trigger] fault_at(routes, i, classes) == Some(fault)
            };
        assert(acceptable(routes.take(i), classes));
        assert(forall|j: int| 0 <= j < i ==> (#[trigger] fault_at(routes, j, classes)) is None);
    }
}

/// The words of a fault name what it is about: the class as it is written in
/// quotes, the port as a number.
pub proof fn words_name_the_fault(name: Seq<char>, port: u16)
    ensures
        fault_message(Fault::NotAContainer(name)) == Some(
            "TCP class "@ + debug_text(name) + " must declare a container"@,
        ),
        fault_message(Fault::DuplicateListenPort(port)) is Some,
        ({
            let words = fault_message(Fault::DuplicateListenPort(port))->0;
            let start = "duplicate TCP listen_port "@;
            &&& words.len() > start.len()
            &&& words.take(start.len() as int) == start
            &&& decimal_value(words.skip(start.len() as int)) == port
        }),
{
    decimals_stand_for_their_number(port as nat);
    let start = "duplicate TCP listen_port "@;
    let words = fault_message(Fault::DuplicateListenPort(port))->0;
    assert(words.take(start.len() as int) =~= start);
    assert(words.skip(start.len() as int) =~= decimal_text(port as nat));
}

} // verus!
