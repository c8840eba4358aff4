//! The request contract: what every endpoint states about itself, and what
//! the crate makes of it: a URI, a request for the transport, a decoded
//! response.
use crate::error::{outcome_view, EncodingError, Error, ErrorModel};
use crate::json::document_value;
use crate::query::{
    encode_query, holds_nothing, lemma_nothing_present_renders_empty, query_text, QueryParam,
    QueryParamModel, QueryValueModel,
};
use crate::response::{parse_response, response_outcome, Cursor, Item, Response};
use crate::scope::{check, missing_scopes, Scope};
use crate::text::{option_view, push_char, views};
use crate::transport::{Header, HeaderModel, HttpRequest, HttpRequestModel, HttpResponse, Method};
use vstd::prelude::*;
use vstd::string::*;

verus! {

/// The longest URI that is rendered, in characters.
pub const MAX_URI_LEN: usize = 65534;

/// The address under which every endpoint lives.
pub open spec fn base_uri() -> Seq<char> {
    "https://api.twitch.tv/helix/"@
}

/// The full text of a URI: the base, the path as it is, a `?`, and the
/// query text. A request without any present parameter ends in the bare `?`.
pub open spec fn uri_text(path: Seq<char>, params: Seq<QueryParamModel>) -> Seq<char> {
    base_uri() + path + seq!['?'] + query_text(params)
}

/// The URI of a path and its parameters, or the error for one that is too
/// long.
pub open spec fn rendered_uri(path: Seq<char>, params: Seq<QueryParamModel>) -> Result<
    Seq<char>,
    EncodingError,
> {
    if uri_text(path, params).len() > MAX_URI_LEN {
        Err(EncodingError::TooLong)
    } else {
        Ok(uri_text(path, params))
    }
}

/// Renders the URI of a path and its parameters. Every name and value can
/// be rendered, whatever it holds; the one request that cannot is the one
/// whose URI would be longer than [`MAX_URI_LEN`] characters, and it fails
/// here, before anything is sent.
pub fn build_uri(path: &str, params: &Vec<QueryParam>) -> (r: Result<String, EncodingError>)
    ensures
        match r {
            Ok(uri) => rendered_uri(path@, views(params@)) == Ok::<Seq<char>, EncodingError>(uri@),
            Err(e) => rendered_uri(path@, views(params@)) == Err::<Seq<char>, EncodingError>(e),
        },
{
    let query = encode_query(params);
    let mut uri = "https://api.twitch.tv/helix/".to_owned();
    uri.append(path);
    push_char(&mut uri, '?');
    uri.append(query.as_str());
    assert(uri@ == uri_text(path@, views(params@)));
    if uri.as_str().unicode_len() > MAX_URI_LEN {
        Err(EncodingError::TooLong)
    } else {
        Ok(uri)
    }
}

/// A request whose parameters all hold nothing, absent scalars and empty
/// lists, renders as the base, the bare path and a trailing `?` with no pair
/// after it.
pub proof fn lemma_defaults_render_bare_path(path: Seq<char>, params: Seq<QueryParamModel>)
    requires
        forall|i: int| 0 <= i < params.len() ==> holds_nothing(#[trigger] params[i]),
    ensures
        uri_text(path, params) == base_uri() + path + seq!['?'],
        (base_uri() + path + seq!['?']).len() <= MAX_URI_LEN ==> rendered_uri(path, params) == Ok::<
            Seq<char>,
            EncodingError,
        >(base_uri() + path + seq!['?']),
{
    lemma_nothing_present_renders_empty(params);
    assert(base_uri() + path + seq!['?'] + Seq::<char>::empty() == base_uri() + path + seq!['?']);
}

/// A bearer token, the client it was issued to, and the scopes it was
/// granted. The crate only reads it.
#[derive(Debug, PartialEq, Eq)]
pub struct Credential {
    token: String,
    client_id: String,
    scopes: Vec<Scope>,
}

/// Mathematical model of a [`Credential`].
pub ghost struct CredentialModel {
    pub token: Seq<char>,
    pub client_id: Seq<char>,
    pub scopes: Seq<Seq<char>>,
}

impl View for Credential {
    type V = CredentialModel;

    closed spec fn view(&self) -> CredentialModel {
        CredentialModel {
            token: self.token@,
            client_id: self.client_id@,
            scopes: views(self.scopes@),
        }
    }
}

impl Credential {
    /// The credential with the given token, client identifier and scopes.
    pub fn new(token: &str, client_id: &str, scopes: Vec<Scope>) -> (credential: Credential)
        ensures
            credential@ == (CredentialModel {
                token: token@,
                client_id: client_id@,
                scopes: views(scopes@),
            }),
    {
        Credential { token: token.to_owned(), client_id: client_id.to_owned(), scopes }
    }

    /// The bearer token.
    pub fn bearer_token(&self) -> (token: &str)
        ensures
            token@ == self@.token,
    {
        self.token.as_str()
    }

    /// The client identifier.
    pub fn client_id(&self) -> (id: &str)
        ensures
            id@ == self@.client_id,
    {
        self.client_id.as_str()
    }

    /// The scopes that the credential was granted.
    pub fn granted_scopes(&self) -> (scopes: &Vec<Scope>)
        ensures
            views(scopes@) == self@.scopes,
    {
        &self.scopes
    }
}

/// The headers that every request carries: the bearer token and the client
/// identifier.
pub open spec fn request_headers(credential: CredentialModel) -> Seq<HeaderModel> {
    seq![
        HeaderModel { name: "Authorization"@, value: "Bearer "@ + credential.token },
        HeaderModel { name: "Client-Id"@, value: credential.client_id },
    ]
}

/// The request that goes to the transport, or the error that keeps it from
/// being sent. The scopes are checked first, then the URI is rendered.
pub open spec fn prepared_request(
    method: Method,
    path: Seq<char>,
    params: Seq<QueryParamModel>,
    required: Seq<Seq<char>>,
    credential: CredentialModel,
) -> Result<HttpRequestModel, ErrorModel> {
    let missing = missing_scopes(required, credential.scopes);
    if missing.len() > 0 {
        Err(ErrorModel::Scope(missing))
    } else {
        match rendered_uri(path, params) {
            Err(e) => Err(ErrorModel::Encoding(e)),
            Ok(uri) => Ok(
                HttpRequestModel {
                    method,
                    uri,
                    headers: request_headers(credential),
                    body: Seq::empty(),
                },
            ),
        }
    }
}

/// What every endpoint states about itself. The statements are fixed values
/// of the request; everything else follows from them.
pub trait Request: Sized {
    /// The type of the items that the endpoint answers with.
    type Item: Item;

    /// The HTTP method of the endpoint.
    spec fn spec_method(&self) -> Method;

    /// The path of the endpoint, relative to the base.
    spec fn spec_path(&self) -> Seq<char>;

    /// The scopes that the endpoint requires.
    spec fn spec_scopes(&self) -> Seq<Seq<char>>;

    /// The query parameters, in the order in which the request declares its
    /// fields.
    spec fn spec_query(&self) -> Seq<QueryParamModel>;

    /// The HTTP method of the endpoint.
    fn method(&self) -> (method: Method)
        ensures
            method == self.spec_method(),
    ;

    /// The path of the endpoint, relative to the base.
    fn path(&self) -> (path: &'static str)
        ensures
            path@ == self.spec_path(),
    ;

    /// The scopes that the endpoint requires.
    fn required_scopes(&self) -> (scopes: Vec<Scope>)
        ensures
            views(scopes@) == self.spec_scopes(),
    ;

    /// The query parameters, in the order in which the request declares its
    /// fields.
    fn query(&self) -> (params: Vec<QueryParam>)
        ensures
            views(params@) == self.spec_query(),
    ;

    /// The URI of the request.
    fn get_uri(&self) -> (r: Result<String, EncodingError>)
        ensures
            match r {
                Ok(uri) => rendered_uri(self.spec_path(), self.spec_query()) == Ok::<
                    Seq<char>,
                    EncodingError,
                >(uri@),
                Err(e) => rendered_uri(self.spec_path(), self.spec_query()) == Err::<
                    Seq<char>,
                    EncodingError,
                >(e),
            },
    {
        let params = self.query();
        build_uri(self.path(), &params)
    }

    /// The request for the transport. Fails, before anything is sent, with
    /// [`Error::Scope`] where the credential lacks a required scope, and
    /// else with [`Error::Encoding`] where the URI cannot be rendered.
    fn create_request(&self, credential: &Credential) -> (r: Result<HttpRequest, Error>)
        ensures
            outcome_view(r) == prepared_request(
                self.spec_method(),
                self.spec_path(),
                self.spec_query(),
                self.spec_scopes(),
                credential@,
            ),
    {
        let required = self.required_scopes();
        match check(&required, credential.granted_scopes()) {
            Err(e) => Err(Error::Scope(e)),
            Ok(()) => match self.get_uri() {
                Err(e) => Err(Error::Encoding(e)),
                Ok(uri) => {
                    let mut bearer = "Bearer ".to_owned();
                    bearer.append(credential.bearer_token());
                    let mut headers: Vec<Header> = Vec::new();
                    headers.push(Header { name: "Authorization".to_owned(), value: bearer });
                    headers.push(
                        Header {
                            name: "Client-Id".to_owned(),
                            value: credential.client_id().to_owned(),
                        },
                    );
                    assert(views(headers@) =~= request_headers(credential@));
                    let request = HttpRequest {
                        method: self.method(),
                        uri,
                        headers,
                        body: Vec::new(),
                    };
                    assert(request@ =~= prepared_request(
                        self.spec_method(),
                        self.spec_path(),
                        self.spec_query(),
                        self.spec_scopes(),
                        credential@,
                    )->Ok_0);
                    Ok(request)
                },
            },
        }
    }

    /// Turns the response to this request into typed items or an error.
    /// Unknown members are passed over.
    fn parse_response(&self, response: HttpResponse) -> (r: Result<Response<Self::Item>, Error>)
        ensures
            outcome_view(r) == response_outcome::<Self::Item>(
                response.status,
                views(response.headers@),
                response.body@,
                document_value(response.body@),
                false,
            ),
    {
        parse_response::<Self::Item>(response, false)
    }
}

/// The parameters with the one named `key` set to `cursor`, and the others
/// as they were.
pub open spec fn with_cursor(
    params: Seq<QueryParamModel>,
    key: Seq<char>,
    cursor: Option<Seq<char>>,
) -> Seq<QueryParamModel> {
    Seq::new(
        params.len(),
        |i: int|
            if params[i].name == key {
                QueryParamModel { name: key, value: QueryValueModel::Absentable(cursor) }
            } else {
                params[i]
            },
    )
}

/// A request whose listing is paged forward by a cursor.
pub trait Paginated: Request {
    /// The name of the query parameter that carries the cursor.
    spec fn spec_cursor_key(&self) -> Seq<char>;

    /// Sets the cursor from which the next page starts. Nothing else about
    /// the request changes.
    fn set_pagination(&mut self, cursor: Option<Cursor>)
        ensures
            final(self).spec_method() == old(self).spec_method(),
            final(self).spec_path() == old(self).spec_path(),
            final(self).spec_scopes() == old(self).spec_scopes(),
            final(self).spec_cursor_key() == old(self).spec_cursor_key(),
            final(self).spec_query() == with_cursor(
                old(self).spec_query(),
                old(self).spec_cursor_key(),
                option_view(cursor),
            ),
    ;
}

} // verus!
