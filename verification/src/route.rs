//! Routes and the route table: which inbound path is relayed to which target.

use crate::config::{Config, WebhookConfig};
use vstd::prelude::*;

verus! {

/// A route as contracts see it.
pub struct RouteView {
    pub name: Seq<char>,
    pub path: Seq<char>,
    pub target_url: Seq<char>,
    pub logging_enabled: bool,
}

/// A path that a route may have: not empty, and beginning with a slash.
pub open spec fn valid_path(path: Seq<char>) -> bool {
    path.len() > 0 && path[0] == '/'
}

/// Whether `text` is an absolute URL: the verdict of the URL parser on it.
pub uninterp spec fn url_parses(text: Seq<char>) -> bool;

/// `reqwest::Url::parse`: whether `text` parses as an absolute URL. The parser
/// returns its error where it does not, and that is all that is read of it.
#[verifier::external_body]
fn parses_as_url(text: &str) -> (r: bool)
    ensures
        r == url_parses(text@),
{
    match reqwest::Url::parse(text) {
        Ok(_) => true,
        Err(_) => false,
    }
}

/// A target that a route may have: not empty, and an absolute URL.
pub open spec fn valid_target(target_url: Seq<char>) -> bool {
    target_url.len() > 0 && url_parses(target_url)
}

impl RouteView {
    pub open spec fn valid(self) -> bool {
        valid_path(self.path) && valid_target(self.target_url)
    }
}

/// Why a configured webhook cannot be a route.
#[derive(Clone, Copy, Debug, PartialEq, Eq, Structural)]
pub enum RouteError {
    /// The path is empty or does not begin with a slash.
    PathWithoutSlash,
    /// The target URL is empty.
    EmptyTarget,
    /// The target is not an absolute URL.
    TargetNotUrl,
}

/// What is wrong with a path and a target, if anything, given whether the
/// target parses as a URL: the path is judged first, then whether there is a
/// target at all, then whether it is a URL.
pub open spec fn fault_given(path: Seq<char>, target_url: Seq<char>, target_parses: bool) -> Option<
    RouteError,
> {
    if !valid_path(path) {
        Some(RouteError::PathWithoutSlash)
    } else if target_url.len() == 0 {
        Some(RouteError::EmptyTarget)
    } else if !target_parses {
        Some(RouteError::TargetNotUrl)
    } else {
        None
    }
}

/// What is wrong with a path and a target, if anything.
pub open spec fn route_fault(path: Seq<char>, target_url: Seq<char>) -> Option<RouteError> {
    fault_given(path, target_url, url_parses(target_url))
}

/// One forwarding rule: requests to `path` are relayed to `target_url`. The path
/// begins with a slash and the target is an absolute URL.
#[derive(Debug)]
pub struct WebhookRoute {
    name: String,
    path: String,
    target_url: String,
    logging_enabled: bool,
}

impl View for WebhookRoute {
    type V = RouteView;

    closed spec fn view(&self) -> RouteView {
        RouteView {
            name: self.name@,
            path: self.path@,
            target_url: self.target_url@,
            logging_enabled: self.logging_enabled,
        }
    }
}

impl WebhookRoute {
    #[verifier::type_invariant]
    spec fn well_formed(self) -> bool {
        valid_path(self.path@) && valid_target(self.target_url@)
    }

    /// What is wrong with a path and a target, if anything, where
    /// `target_parses` says whether the target parses as a URL.
    pub fn fault(path: &str, target_url: &str, target_parses: bool) -> (r: Option<RouteError>)
        ensures
            r == fault_given(path@, target_url@, target_parses),
    {
        if path.unicode_len() == 0 || path.get_char(0) != '/' {
            Some(RouteError::PathWithoutSlash)
        } else if target_url.unicode_len() == 0 {
            Some(RouteError::EmptyTarget)
        } else if !target_parses {
            Some(RouteError::TargetNotUrl)
        } else {
            None
        }
    }

    /// Makes a route, or says what is wrong with the path or the target.
    pub fn new(name: String, path: String, target_url: String, logging_enabled: bool) -> (r: Result<
        WebhookRoute,
        RouteError,
    >)
        ensures
            match route_fault(path@, target_url@) {
                Some(fault) => r == Err::<WebhookRoute, RouteError>(fault),
                None => r matches Ok(route) && route@ == (RouteView {
                    name: name@,
                    path: path@,
                    target_url: target_url@,
                    logging_enabled,
                }),
            },
    {
        let target_parses = parses_as_url(target_url.as_str());
        match WebhookRoute::fault(path.as_str(), target_url.as_str(), target_parses) {
            Some(fault) => Err(fault),
            None => Ok(WebhookRoute { name, path, target_url, logging_enabled }),
        }
    }

    /// The route that a configured webhook stands for. Logging is off where the
    /// configuration leaves it out.
    pub fn from_config(entry: &WebhookConfig) -> (r: Result<WebhookRoute, RouteError>)
        ensures
            match route_fault(entry.path@, entry.url@) {
                Some(fault) => r == Err::<WebhookRoute, RouteError>(fault),
                None => r matches Ok(route) && route@ == (RouteView {
                    name: entry.name@,
                    path: entry.path@,
                    target_url: entry.url@,
                    logging_enabled: entry.logging_enabled(),
                }),
            },
    {
        WebhookRoute::new(
            entry.name.clone(),
            entry.path.clone(),
            entry.url.clone(),
            entry.wants_logging(),
        )
    }

    /// The label of the route.
    pub fn name(&self) -> (r: &str)
        ensures
            r@ == self@.name,
    {
        self.name.as_str()
    }

    /// The path that the route answers to.
    pub fn path(&self) -> (r: &str)
        ensures
            r@ == self@.path,
            valid_path(r@),
    {
        proof {
            use_type_invariant(self);
        }
        self.path.as_str()
    }

    /// Where the route relays to.
    pub fn target_url(&self) -> (r: &str)
        ensures
            r@ == self@.target_url,
            valid_target(r@),
    {
        proof {
            use_type_invariant(self);
        }
        self.target_url.as_str()
    }

    /// Whether requests on this route are recorded.
    pub fn logging_enabled(&self) -> (r: bool)
        ensures
            r == self@.logging_enabled,
    {
        self.logging_enabled
    }
}

/// The key under which a request is looked up: a slash, then the path that the
/// request was made to below the mount point.
pub open spec fn route_key(request_path: Seq<char>) -> Seq<char> {
    seq!['/'] + request_path
}

/// The first route, in table order, whose path is `key`.
pub open spec fn matched_route(routes: Seq<RouteView>, key: Seq<char>) -> Option<RouteView>
    decreases routes.len(),
{
    if routes.len() == 0 {
        None
    } else if routes[0].path == key {
        Some(routes[0])
    } else {
        matched_route(routes.drop_first(), key)
    }
}

/// Whether `index` is the first place of `routes` that holds a route with the
/// path `key`.
pub open spec fn first_match_at(routes: Seq<RouteView>, key: Seq<char>, index: int) -> bool {
    &&& 0 <= index < routes.len()
    &&& routes[index].path == key
    &&& forall|j: int| 0 <= j < index ==> (#[trigger] routes[j]).path != key
}

/// The lookup finds the first route with the path `key`, and finds none only
/// where no route has that path: of two routes with one path, the later is
/// never found.
pub proof fn lemma_matched_route_is_first(routes: Seq<RouteView>, key: Seq<char>)
    ensures
        match matched_route(routes, key) {
            Some(route) => exists|i: int| first_match_at(routes, key, i) && routes[i] == route,
            None => forall|j: int| 0 <= j < routes.len() ==> (#[trigger] routes[j]).path != key,
        },
    decreases routes.len(),
{
    if routes.len() == 0 {
    } else if routes[0].path == key {
        assert(first_match_at(routes, key, 0));
    } else {
        let rest = routes.drop_first();
        lemma_matched_route_is_first(rest, key);
        match matched_route(rest, key) {
            Some(route) => {
                let i = choose|i: int| first_match_at(rest, key, i) && rest[i] == route;
                assert forall|j: int| 0 <= j < i + 1 implies (#[trigger] routes[j]).path != key by {
                    if j > 0 {
                        assert(routes[j] == rest[j - 1]);
                    }
                }
                assert(routes[i + 1] == rest[i]);
                assert(first_match_at(routes, key, i + 1));
            },
            None => {
                assert forall|j: int| 0 <= j < routes.len() implies (#[trigger] routes[j]).path
                    != key by {
                    if j > 0 {
                        assert(routes[j] == rest[j - 1]);
                    }
                }
            },
        }
    }
}

/// A request to the path of any configured route is matched: by that route, or
/// by an earlier one with the same path.
pub proof fn lemma_configured_path_matches(routes: Seq<RouteView>, index: int, key: Seq<char>)
    requires
        0 <= index < routes.len(),
        routes[index].path == key,
    ensures
        matched_route(routes, key) matches Some(route) && route.path == key,
{
    lemma_matched_route_is_first(routes, key);
}

/// Whether the route at `index` can never be found: an earlier route has its
/// path.
pub open spec fn shadowed_at(routes: Seq<RouteView>, index: int) -> bool {
    &&& 0 <= index < routes.len()
    &&& exists|j: int| 0 <= j < index && (#[trigger] routes[j]).path == routes[index].path
}

/// A route that no earlier route shadows is the one found under its own path.
pub proof fn lemma_unshadowed_route_is_found(routes: Seq<RouteView>, index: int)
    requires
        0 <= index < routes.len(),
        !shadowed_at(routes, index),
    ensures
        matched_route(routes, routes[index].path) == Some(routes[index]),
{
    let key = routes[index].path;
    lemma_matched_route_is_first(routes, key);
    let i = choose|i: int| first_match_at(routes, key, i) && Some(routes[i]) == matched_route(routes, key);
    if i < index {
        assert(routes[i].path == routes[index].path);
    }
}

/// A webhook of a configuration that cannot be a route.
#[derive(Clone, Copy, Debug, PartialEq, Eq, Structural)]
pub struct ConfigError {
    /// The position of the webhook in the configuration.
    pub index: usize,
    /// What is wrong with it.
    pub fault: RouteError,
}

/// The routes that a list of configured webhooks stands for, in the same order.
pub open spec fn routes_of(entries: Seq<WebhookConfig>) -> Seq<RouteView> {
    Seq::new(
        entries.len(),
        |i: int|
            RouteView {
                name: entries[i].name@,
                path: entries[i].path@,
                target_url: entries[i].url@,
                logging_enabled: entries[i].logging_enabled(),
            },
    )
}

/// Whether `index` is the first webhook of `entries` that cannot be a route.
pub open spec fn first_fault_at(entries: Seq<WebhookConfig>, index: int) -> bool {
    &&& 0 <= index < entries.len()
    &&& route_fault(entries[index].path@, entries[index].url@) is Some
    &&& forall|j: int|
        0 <= j < index ==> route_fault(#[trigger] entries[j].path@, entries[j].url@) is None
}

/// The routes of the relay, in the order of the configuration. It is made once
/// and only read after that.
#[derive(Debug)]
pub struct RouteTable {
    routes: Vec<WebhookRoute>,
}

impl View for RouteTable {
    type V = Seq<RouteView>;

    closed spec fn view(&self) -> Seq<RouteView> {
        Seq::new(self.routes@.len(), |i: int| self.routes@[i]@)
    }
}

impl RouteTable {
    /// The table for a configuration: one route for each webhook, in order. It
    /// fails on the first webhook that cannot be a route.
    pub fn from_config(config: &Config) -> (r: Result<RouteTable, ConfigError>)
        ensures
            match r {
                Ok(table) => {
                    &&& table@ == routes_of(config.discord@)
                    &&& forall|j: int|
                        0 <= j < config.discord@.len() ==> route_fault(
                            #[trigger] config.discord@[j].path@,
                            config.discord@[j].url@,
                        ) is None
                },
                Err(e) => {
                    &&& first_fault_at(config.discord@, e.index as int)
                    &&& route_fault(
                        config.discord@[e.index as int].path@,
                        config.discord@[e.index as int].url@,
                    ) == Some(e.fault)
                },
            },
    {
        let mut routes: Vec<WebhookRoute> = Vec::new();
        let n: usize = config.discord.len();
        let mut i: usize = 0;
        while i < n
            invariant
                i <= n,
                n == config.discord@.len(),
                routes@.len() == i,
                forall|j: int| 0 <= j < i ==> (#[trigger] routes@[j])@ == routes_of(config.discord@)[j],
                forall|j: int|
                    0 <= j < i ==> route_fault(
                        #[trigger] config.discord@[j].path@,
                        config.discord@[j].url@,
                    ) is None,
            decreases n - i,
        {
            match WebhookRoute::from_config(&config.discord[i]) {
                Ok(route) => {
                    routes.push(route);
                },
                Err(fault) => {
                    return Err(ConfigError { index: i, fault });
                },
            }
            i = i + 1;
        }
        let table = RouteTable { routes };
        assert(table@ =~= routes_of(config.discord@));
        Ok(table)
    }

    /// How many routes the table has.
    pub fn len(&self) -> (n: usize)
        ensures
            n == self@.len(),
    {
        self.routes.len()
    }

    /// The route at `index`, in table order.
    pub fn get(&self, index: usize) -> (r: Option<&WebhookRoute>)
        ensures
            match r {
                Some(route) => index < self@.len() && route@ == self@[index as int],
                None => index >= self@.len(),
            },
    {
        if index < self.routes.len() {
            Some(&self.routes[index])
        } else {
            None
        }
    }

    /// The first route that can never be found because an earlier one has its
    /// path, if there is such a route.
    pub fn first_shadowed(&self) -> (r: Option<usize>)
        ensures
            match r {
                Some(index) => {
                    &&& shadowed_at(self@, index as int)
                    &&& forall|k: int| 0 <= k < index ==> !shadowed_at(self@, k)
                },
                None => forall|k: int| 0 <= k < self@.len() ==> !shadowed_at(self@, k),
            },
    {
        let n: usize = self.routes.len();
        let mut i: usize = 0;
        while i < n
            invariant
                i <= n,
                n == self.routes@.len(),
                n == self@.len(),
                forall|k: int| 0 <= k < i ==> !shadowed_at(self@, k),
            decreases n - i,
        {
            let mut j: usize = 0;
            while j < i
                invariant
                    j <= i < n,
                    n == self.routes@.len(),
                    n == self@.len(),
                    forall|k: int| 0 <= k < i ==> !shadowed_at(self@, k),
                    forall|k: int| 0 <= k < j ==> (#[trigger] self@[k]).path != self@[i as int].path,
                decreases i - j,
            {
                if self.routes[j].path == self.routes[i].path {
                    assert(self@[j as int].path == self@[i as int].path);
                    return Some(i);
                }
                j = j + 1;
            }
            i = i + 1;
        }
        None
    }

    /// The route for a request made to `request_path` below the mount point:
    /// the first one, in table order, whose path is a slash followed by
    /// `request_path`. Later routes with the same path are never found.
    pub fn lookup(&self, request_path: &str) -> (r: Option<&WebhookRoute>)
        ensures
            match r {
                Some(route) => matched_route(self@, route_key(request_path@)) == Some(route@),
                None => matched_route(self@, route_key(request_path@)) is None,
            },
    {
        proof {
            reveal_strlit("/");
        }
        let key: String = String::from_str("/").concat(request_path);
        assert(key@ =~= route_key(request_path@));
        let n: usize = self.routes.len();
        let mut i: usize = 0;
        assert(self@.skip(0) =~= self@);
        while i < n
            invariant
                i <= n,
                n == self.routes@.len(),
                n == self@.len(),
                key@ == route_key(request_path@),
                matched_route(self@, key@) == matched_route(self@.skip(i as int), key@),
            decreases n - i,
        {
            assert(self@.skip(i as int)[0] == self@[i as int]);
            assert(self@.skip(i as int).drop_first() =~= self@.skip(i + 1));
            if self.routes[i].path == key {
                return Some(&self.routes[i]);
            }
            i = i + 1;
        }
        None
    }
}

} // verus!
