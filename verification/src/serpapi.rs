//! The client: default parameters, and one request per endpoint.

use crate::params::ParameterSet;
use crate::query::merge;
use crate::query::merged_query;
use crate::json::read_json;
use crate::response::decode;
use crate::response::outcome;
use crate::response::ClientError;
use crate::response::Format;
use crate::response::Reply;
use crate::response::ResponseValue;
use crate::text::join;
use vstd::prelude::*;

verus! {

/// The host that every request goes to, with its scheme.
pub open spec fn base_url() -> Seq<char> {
    "http://serpapi.com"@
}

/// The path under which the search `search_id` is archived.
pub open spec fn archive_endpoint(search_id: Seq<char>) -> Seq<char> {
    "/searches/"@ + search_id + ".json"@
}

/// A client of the service. It holds the parameters that every call starts
/// from, such as the API key or the engine.
#[derive(Debug)]
pub struct Client {
    /// The default parameters.
    pub parameter: ParameterSet,
}

/// One GET, ready to be sent.
#[derive(Debug)]
pub struct Request {
    /// The absolute address, without the query.
    pub url: String,
    /// The query parameters, still to be URL-encoded.
    pub query: ParameterSet,
    /// How the body of the reply is to be read.
    pub format: Format,
}

impl Request {
    /// Whether this is the request of a client with the defaults `defaults`
    /// for `endpoint`, with the call's parameters `overrides`, to be read as
    /// `format`.
    pub open spec fn is_for(
        &self,
        defaults: Map<Seq<char>, Seq<char>>,
        endpoint: Seq<char>,
        overrides: Map<Seq<char>, Seq<char>>,
        format: Format,
    ) -> bool {
        &&& self.url@ == base_url() + endpoint
        &&& self.query@ == merged_query(defaults, overrides)
        &&& self.format == format
    }

    /// Ends the call: makes of the transport's `reply` to this request the
    /// value or the error that the caller gets.
    pub fn receive(&self, reply: Reply) -> (result: Result<ResponseValue, ClientError>)
        ensures
            result == outcome(self.format, reply),
    {
        match reply {
            Reply::Failed(account) => Err(ClientError::Transport(account)),
            Reply::Body(body) => match self.format {
                Format::Text => Ok(ResponseValue::Text(body)),
                Format::Json => decode(read_json(body.as_str())),
            },
        }
    }
}

impl Client {
    /// A client with the default parameters `parameter`. Nothing is asked of
    /// them: an empty set will do.
    pub fn new(parameter: ParameterSet) -> (client: Client)
        ensures
            client.parameter == parameter,
    {
        Client { parameter }
    }

    /// The request for `endpoint` with the call's parameters merged over the
    /// defaults, its body to be read as `format`.
    fn request(&self, endpoint: &str, parameter: ParameterSet, format: Format) -> (request: Request)
        ensures
            request.is_for(self.parameter@, endpoint@, parameter@, format),
    {
        Request {
            url: join("http://serpapi.com", endpoint),
            query: merge(&self.parameter, &parameter),
            format,
        }
    }

    /// A search: `/search`, read as JSON.
    pub fn search(&self, parameter: ParameterSet) -> (request: Request)
        ensures
            request.is_for(self.parameter@, "/search"@, parameter@, Format::Json),
    {
        self.json("/search", parameter)
    }

    /// A search whose result is the raw HTML: `/html`, read as text.
    pub fn html(&self, parameter: ParameterSet) -> (request: Request)
        ensures
            request.is_for(self.parameter@, "/html"@, parameter@, Format::Text),
    {
        self.get("/html", parameter)
    }

    /// The locations that the service knows: `/locations.json`, read as JSON.
    pub fn location(&self, parameter: ParameterSet) -> (request: Request)
        ensures
            request.is_for(self.parameter@, "/locations.json"@, parameter@, Format::Json),
    {
        self.json("/locations.json", parameter)
    }

    /// An earlier search, from the archive: `/searches/` followed by
    /// `search_id` and `.json`, read as JSON. The call adds no parameters of
    /// its own; the defaults are sent.
    pub fn search_archive(&self, search_id: &str) -> (request: Request)
        ensures
            request.is_for(
                self.parameter@,
                archive_endpoint(search_id@),
                Map::<Seq<char>, Seq<char>>::empty(),
                Format::Json,
            ),
    {
        let mut endpoint = join("/searches/", search_id);
        endpoint = join(endpoint.as_str(), ".json");
        self.json(endpoint.as_str(), ParameterSet::new())
    }

    /// The account that the API key belongs to: `/account`, read as JSON.
    pub fn account(&self, parameter: ParameterSet) -> (request: Request)
        ensures
            request.is_for(self.parameter@, "/account"@, parameter@, Format::Json),
    {
        self.json("/account", parameter)
    }

    /// A GET of `endpoint` whose body is read as JSON.
    pub fn json(&self, endpoint: &str, parameter: ParameterSet) -> (request: Request)
        ensures
            request.is_for(self.parameter@, endpoint@, parameter@, Format::Json),
    {
        self.request(endpoint, parameter, Format::Json)
    }

    /// A GET of `endpoint` whose body is handed on as text.
    pub fn get(&self, endpoint: &str, parameter: ParameterSet) -> (request: Request)
        ensures
            request.is_for(self.parameter@, endpoint@, parameter@, Format::Text),
    {
        self.request(endpoint, parameter, Format::Text)
    }
}

} // verus!
