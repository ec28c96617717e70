//! The HTTP surface: the port, the path prefix, the address published for the
//! service, and the three endpoints with their methods and paths.

use vstd::prelude::*;

verus! {

/// The port that the service listens on.
pub const PORT: u16 = 80;

/// The prefix under which all endpoints stand.
pub open spec fn prefix_text() -> Seq<char> {
    "/api"@
}

/// The prefix under which all endpoints stand.
pub fn api_prefix() -> (prefix: &'static str)
    ensures
        prefix@ == prefix_text(),
{
    "/api"
}

/// The character of a decimal digit.
pub open spec fn digit_char(digit: nat) -> char
    recommends
        digit < 10,
{
    if digit == 0 {
        '0'
    } else if digit == 1 {
        '1'
    } else if digit == 2 {
        '2'
    } else if digit == 3 {
        '3'
    } else if digit == 4 {
        '4'
    } else if digit == 5 {
        '5'
    } else if digit == 6 {
        '6'
    } else if digit == 7 {
        '7'
    } else if digit == 8 {
        '8'
    } else {
        '9'
    }
}

/// A number in decimal, without leading zeros.
pub open spec fn decimal_text(n: nat) -> Seq<char>
    decreases n,
{
    if n < 10 {
        seq![digit_char(n)]
    } else {
        decimal_text(n / 10).push(digit_char(n % 10))
    }
}

/// The address under which the service is published: the local host, the
/// port and the prefix.
pub open spec fn server_url_text(port: u16) -> Seq<char> {
    "http://localhost:"@ + decimal_text(port as nat) + prefix_text()
}

/// A decimal digit as text.
fn digit_str(digit: u16) -> (text: &'static str)
    requires
        digit < 10,
    ensures
        text@ == seq![digit_char(digit as nat)],
{
    proof {
        reveal_strlit("0");
        reveal_strlit("1");
        reveal_strlit("2");
        reveal_strlit("3");
        reveal_strlit("4");
        reveal_strlit("5");
        reveal_strlit("6");
        reveal_strlit("7");
        reveal_strlit("8");
        reveal_strlit("9");
    }
    let text: &'static str = if digit == 0 {
        "0"
    } else if digit == 1 {
        "1"
    } else if digit == 2 {
        "2"
    } else if digit == 3 {
        "3"
    } else if digit == 4 {
        "4"
    } else if digit == 5 {
        "5"
    } else if digit == 6 {
        "6"
    } else if digit == 7 {
        "7"
    } else if digit == 8 {
        "8"
    } else {
        "9"
    };
    assert(text@ =~= seq![digit_char(digit as nat)]);
    text
}

/// Appends `n` in decimal to `text`.
fn push_decimal(text: &mut String, n: u16)
    ensures
        final(text)@ == old(text)@ + decimal_text(n as nat),
    decreases n,
{
    if n >= 10 {
        push_decimal(text, n / 10);
    }
    let digit = digit_str(n % 10);
    text.append(digit);
    proof {
        if n >= 10 {
            assert(final(text)@ =~= old(text)@ + decimal_text(n as nat));
        } else {
            assert(final(text)@ =~= old(text)@ + decimal_text(n as nat));
        }
    }
}

/// The address under which the service is published when it listens on
/// `port`.
pub fn server_url(port: u16) -> (url: String)
    ensures
        url@ == server_url_text(port),
{
    let mut url = String::from_str("http://localhost:");
    push_decimal(&mut url, port);
    url.append(api_prefix());
    url
}

/// The address published for the port that the service listens on.
pub proof fn lemma_published_url()
    ensures
        server_url_text(PORT) == "http://localhost:80/api"@,
{
    reveal_strlit("http://localhost:");
    reveal_strlit("/api");
    reveal_strlit("http://localhost:80/api");
    reveal_with_fuel(decimal_text, 3);
    assert(decimal_text(80) =~= seq!['8', '0']);
    assert(server_url_text(PORT) =~= "http://localhost:80/api"@);
}

/// The method of a request.
#[derive(Clone, Copy, Debug, PartialEq, Eq, Structural)]
pub enum Method {
    Get,
    Put,
}

/// The three endpoints of the service.
#[derive(Clone, Copy, Debug, PartialEq, Eq, Structural)]
pub enum Endpoint {
    /// The liveness probe.
    Ping,
    /// The read of one key, given as the query parameter `key`.
    GetValue,
    /// The write of one key, given as the query parameters `key` and `value`.
    SetValue,
}

impl Endpoint {
    /// The method that the endpoint answers.
    pub open spec fn method_of(self) -> Method {
        match self {
            Endpoint::Ping => Method::Get,
            Endpoint::GetValue => Method::Get,
            Endpoint::SetValue => Method::Put,
        }
    }

    /// The path of the endpoint below the prefix.
    pub open spec fn path_text(self) -> Seq<char> {
        match self {
            Endpoint::Ping => "/ping"@,
            Endpoint::GetValue => "/get"@,
            Endpoint::SetValue => "/set"@,
        }
    }

    /// The path of the endpoint from the root.
    pub open spec fn full_path_text(self) -> Seq<char> {
        prefix_text() + self.path_text()
    }

    /// The names of the query parameters that the endpoint takes, in their
    /// order.
    pub open spec fn parameter_names(self) -> Seq<Seq<char>> {
        match self {
            Endpoint::Ping => seq![],
            Endpoint::GetValue => seq!["key"@],
            Endpoint::SetValue => seq!["key"@, "value"@],
        }
    }

    /// The method that the endpoint answers.
    pub fn method(self) -> (method: Method)
        ensures
            method == self.method_of(),
    {
        match self {
            Endpoint::Ping => Method::Get,
            Endpoint::GetValue => Method::Get,
            Endpoint::SetValue => Method::Put,
        }
    }

    /// The path of the endpoint below the prefix.
    pub fn path(self) -> (path: &'static str)
        ensures
            path@ == self.path_text(),
    {
        match self {
            Endpoint::Ping => "/ping",
            Endpoint::GetValue => "/get",
            Endpoint::SetValue => "/set",
        }
    }

    /// The path of the endpoint from the root.
    pub fn full_path(self) -> (path: String)
        ensures
            path@ == self.full_path_text(),
    {
        String::from_str(api_prefix()).concat(self.path())
    }

    /// The names of the query parameters that the endpoint takes, in their
    /// order. Each is a text.
    pub fn parameters(self) -> (names: Vec<&'static str>)
        ensures
            names.deep_view() == self.parameter_names(),
    {
        let mut names: Vec<&'static str> = Vec::new();
        match self {
            Endpoint::Ping => {},
            Endpoint::GetValue => {
                names.push("key");
            },
            Endpoint::SetValue => {
                names.push("key");
                names.push("value");
            },
        }
        assert(names.deep_view() =~= self.parameter_names());
        names
    }

    /// Whether the endpoint answers `method` at `path`, taken from the root.
    pub open spec fn answers(self, method: Method, path: Seq<char>) -> bool {
        self.method_of() == method && self.full_path_text() == path
    }
}

/// The endpoint that answers `method` at `path`, if there is one.
pub open spec fn route_of(method: Method, path: Seq<char>) -> Option<Endpoint> {
    if Endpoint::Ping.answers(method, path) {
        Some(Endpoint::Ping)
    } else if Endpoint::GetValue.answers(method, path) {
        Some(Endpoint::GetValue)
    } else if Endpoint::SetValue.answers(method, path) {
        Some(Endpoint::SetValue)
    } else {
        None
    }
}

/// Whether `endpoint` answers `method` at `path`.
fn matches_request(endpoint: Endpoint, method: Method, path: &String) -> (matched: bool)
    ensures
        matched == endpoint.answers(method, path@),
{
    endpoint.method() == method && endpoint.full_path() == *path
}

/// Finds the endpoint that answers `method` at `path`, taken from the root
/// and without its query.
pub fn route(method: Method, path: &str) -> (found: Option<Endpoint>)
    ensures
        found == route_of(method, path@),
{
    let path = String::from_str(path);
    if matches_request(Endpoint::Ping, method, &path) {
        Some(Endpoint::Ping)
    } else if matches_request(Endpoint::GetValue, method, &path) {
        Some(Endpoint::GetValue)
    } else if matches_request(Endpoint::SetValue, method, &path) {
        Some(Endpoint::SetValue)
    } else {
        None
    }
}

/// No two endpoints answer the same request: each endpoint is the one that
/// its own method and path are routed to.
pub proof fn lemma_routes_are_distinct(endpoint: Endpoint)
    ensures
        route_of(endpoint.method_of(), endpoint.full_path_text()) == Some(endpoint),
{
    reveal_strlit("/api");
    reveal_strlit("/ping");
    reveal_strlit("/get");
    reveal_strlit("/set");
    let ping = Endpoint::Ping.full_path_text();
    let get = Endpoint::GetValue.full_path_text();
    assert(ping.len() == 9);
    assert(get.len() == 8);
}

} // verus!
