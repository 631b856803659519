//! The product client: where its API and its session file are, and how its requests are sent.

use crate::json::{Json, Tree};
use crate::product::{
    authorization, authorization_token, HttpRequest, Method, Plan, Session, DEFAULT_API_BASE_URL,
};
use crate::product_requests::{execute, product_plan};
use crate::product_values::{ProductError, ProductFault};
use crate::text::{blank, is_blank, texts, trim_end_char, without_trailing};
use crate::url_text::{extend_url, opt_view, pair_views, url_room, url_parse, url_with_pairs};
use vstd::prelude::*;
use vstd::string::*;

verus! {

/// The client of the product API. Every shell that uses the same session file observes the same
/// account.
#[derive(Debug, PartialEq, Eq)]
pub struct MahayanaProductClient {
    api_base_url: String,
    session_path: String,
}

/// The address of a request below the API's address.
pub open spec fn request_address(base: Seq<char>, path: Seq<char>) -> Seq<char> {
    base + path
}

impl MahayanaProductClient {
    /// The address of the API.
    pub closed spec fn base(&self) -> Seq<char> {
        self.api_base_url@
    }

    /// Where the session is stored.
    pub closed spec fn stored_at(&self) -> Seq<char> {
        self.session_path@
    }

    /// The client of an API; its address is taken without slashes at its end.
    pub fn new(api_base_url: String, session_path: String) -> (out: MahayanaProductClient)
        ensures
            out.base() == without_trailing(api_base_url@, '/'),
            out.stored_at() == session_path@,
    {
        MahayanaProductClient {
            api_base_url: trim_end_char(api_base_url.as_str(), '/'),
            session_path,
        }
    }

    /// The client of the API that is set, or of the usual one.
    pub fn with_setting(api_base_url: Option<String>, session_path: String) -> (out:
        MahayanaProductClient)
        ensures
            out.stored_at() == session_path@,
            out.base() == base_for(opt_view(api_base_url)),
    {
        let url = match api_base_url {
            Some(url) => if blank(url.as_str()) {
                DEFAULT_API_BASE_URL.to_owned()
            } else {
                url
            },
            None => DEFAULT_API_BASE_URL.to_owned(),
        };
        MahayanaProductClient::new(url, session_path)
    }

    /// The address of the API.
    pub fn api_base_url(&self) -> (out: &str)
        ensures
            out@ == self.base(),
    {
        self.api_base_url.as_str()
    }

    /// Where the session is stored.
    pub fn session_path(&self) -> (out: &str)
        ensures
            out@ == self.stored_at(),
    {
        self.session_path.as_str()
    }

    /// The token of the stored session. It stays in memory.
    pub fn session_token(&self, session: &Session) -> (out: Result<String, ProductError>)
        ensures
            match out {
                Ok(token) => authorization(Tree::Null, session@) == Ok::<Seq<char>, ProductFault>(
                    token@,
                ),
                Err(error) => authorization(Tree::Null, session@) == Err::<
                    Seq<char>,
                    ProductFault,
                >(error@),
            },
    {
        authorization_token(&Json::Null, session)
    }

    /// Decides what a request takes, given the session as it is stored.
    pub fn execute(&self, request_type: &str, request: &Json, session: &Session) -> (out: Plan)
        ensures
            out@ == product_plan(request_type@, request@, session@),
    {
        execute(request_type, request, session)
    }

    /// The full address of a request: a query is written into it, and must go to an address that
    /// can be read.
    pub fn request_url(&self, http: &HttpRequest) -> (out: Result<String, ProductError>)
        requires
            http.method == Method::Get ==> url_room(
                self.base().len() + http.path@.len(),
                http@.query,
            ) < 0x1_0000_0000,
        ensures
            match out {
                Ok(url) => match http.method {
                    Method::Get => url_parse(request_address(self.base(), http.path@)) is Ok && url@
                        == url_with_pairs(
                        request_address(self.base(), http.path@),
                        pair_views(http.query@),
                    ),
                    Method::Post => url@ == request_address(self.base(), http.path@),
                },
                Err(error) => http.method == Method::Get && match url_parse(
                    request_address(self.base(), http.path@),
                ) {
                    Ok(_) => false,
                    Err(message) => error@ == ProductFault::Configuration(message),
                },
            },
    {
        let address = self.api_base_url.clone().concat(http.path.as_str());
        match http.method {
            Method::Get => match extend_url(address.as_str(), &http.query) {
                Ok(url) => Ok(url),
                Err(message) => Err(ProductError::Configuration(message)),
            },
            Method::Post => Ok(address),
        }
    }
}

/// The headers of a request, by name and value.
pub open spec fn header_views(method: Method, token: Option<Seq<char>>) -> Seq<
    (Seq<char>, Seq<char>),
> {
    let accept = seq![("Accept"@, "application/json"@)];
    let typed = match method {
        Method::Get => accept,
        Method::Post => accept.push(("Content-Type"@, "application/json"@)),
    };
    match token {
        Some(token) => typed.push(("Authorization"@, "Bearer "@ + token)),
        None => typed,
    }
}

/// The headers of a request.
pub fn request_headers(http: &HttpRequest) -> (out: Vec<(String, String)>)
    ensures
        pair_views(out@) == header_views(http.method, opt_view(http.token)),
{
    let mut out: Vec<(String, String)> = Vec::new();
    out.push(("Accept".to_owned(), "application/json".to_owned()));
    match http.method {
        Method::Get => {},
        Method::Post => {
            out.push(("Content-Type".to_owned(), "application/json".to_owned()));
        },
    }
    match &http.token {
        Some(token) => {
            out.push(("Authorization".to_owned(), "Bearer ".to_owned().concat(token.as_str())));
        },
        None => {},
    }
    proof {
        assert(pair_views(out@) =~= header_views(http.method, opt_view(http.token)));
    }
    out
}

/// The address of the product API for a setting; a blank one counts as none.
pub open spec fn base_for(setting: Option<Seq<char>>) -> Seq<char> {
    without_trailing(
        match setting {
            Some(url) => if is_blank(url) {
                DEFAULT_API_BASE_URL@
            } else {
                url
            },
            None => DEFAULT_API_BASE_URL@,
        },
        '/',
    )
}

/// The kind of system that the data directory is looked up on.
#[derive(Debug, Clone, Copy, PartialEq, Eq, Structural)]
pub enum Platform {
    Macos,
    Windows,
    Other,
}

/// What the environment says about where data belongs.
#[derive(Debug, PartialEq, Eq)]
pub struct HomeFacts {
    pub platform: Platform,
    pub mahayana_home: Option<String>,
    pub home: Option<String>,
    pub app_data: Option<String>,
}

/// The data directory as a directory and the names that lead down from it.
pub open spec fn home_parts(facts: HomeFacts) -> Seq<Seq<char>> {
    match opt_view(facts.mahayana_home) {
        Some(path) if path.len() > 0 => seq![path],
        _ => match (facts.platform, opt_view(facts.home), opt_view(facts.app_data)) {
            (Platform::Macos, Some(home), _) => seq![
                home,
                "Library"@,
                "Group Containers"@,
                "group.com.ombhrum.fabushi.share"@,
                "mahayana"@,
            ],
            (Platform::Windows, _, Some(app_data)) => seq![app_data, "Fabushi"@, "Mahayana"@],
            (_, Some(home), _) => seq![home, ".mahayana"@],
            (_, None, _) => seq![".mahayana"@],
        },
    }
}

/// The data directory that the application and the command line share, as a directory and the
/// names that lead down from it.
pub fn default_mahayana_home(facts: HomeFacts) -> (out: Vec<String>)
    ensures
        texts(out@) == home_parts(facts),
{
    let ghost wanted = home_parts(facts);
    match facts.mahayana_home {
        Some(path) => if !path.as_str().is_empty() {
            let out = vec![path];
            proof {
                assert(texts(out@) =~= wanted);
            }
            return out;
        },
        None => {},
    }
    let mut out: Vec<String> = Vec::new();
    match (facts.platform, facts.home, facts.app_data) {
        (Platform::Macos, Some(home), _) => {
            out.push(home);
            out.push("Library".to_owned());
            out.push("Group Containers".to_owned());
            out.push("group.com.ombhrum.fabushi.share".to_owned());
            out.push("mahayana".to_owned());
        },
        (Platform::Windows, _, Some(app_data)) => {
            out.push(app_data);
            out.push("Fabushi".to_owned());
            out.push("Mahayana".to_owned());
        },
        (_, Some(home), _) => {
            out.push(home);
            out.push(".mahayana".to_owned());
        },
        (_, None, _) => {
            out.push(".mahayana".to_owned());
        },
    }
    proof {
        assert(texts(out@) =~= wanted);
    }
    out
}

} // verus!
