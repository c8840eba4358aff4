//! Endpoints regarding games.
use crate::decimal::{decimal_text, render_u64};
use crate::query::{QueryParam, QueryParamModel, QueryValue, QueryValueModel};
use crate::request::{with_cursor, Paginated, Request};
use crate::response::Cursor;
use crate::scope::Scope;
use crate::text::{copy_texts, option_view, views};
use crate::transport::Method;
use crate::types::TwitchCategory;
use vstd::prelude::*;
use vstd::string::*;

verus! {

/// What the games endpoints answer with.
pub type Game = TwitchCategory;

/// Query parameters of Get Games: game information by game ID or name.
#[derive(Clone, Debug, PartialEq, Eq)]
#[non_exhaustive]
pub struct GetGamesRequest {
    /// Game ID. At most 100 id values can be specified.
    pub id: Vec<String>,
    /// Game name. The name must be an exact match. At most 100 name values
    /// can be specified.
    pub name: Vec<String>,
}

/// Collects the fields of a [`GetGamesRequest`]. A field that is not set
/// stays empty.
pub struct GetGamesRequestBuilder {
    id: Vec<String>,
    name: Vec<String>,
}

impl GetGamesRequestBuilder {
    /// The request that [`GetGamesRequestBuilder::build`] would give now.
    pub closed spec fn pending(self) -> GetGamesRequest {
        GetGamesRequest { id: self.id, name: self.name }
    }

    /// Sets the game IDs.
    pub fn id(self, id: Vec<String>) -> (builder: GetGamesRequestBuilder)
        ensures
            builder.pending().id == id,
            builder.pending().name == self.pending().name,
    {
        GetGamesRequestBuilder { id, name: self.name }
    }

    /// Sets the game names.
    pub fn name(self, name: Vec<String>) -> (builder: GetGamesRequestBuilder)
        ensures
            builder.pending().id == self.pending().id,
            builder.pending().name == name,
    {
        GetGamesRequestBuilder { id: self.id, name }
    }

    /// The request with the fields as they were set.
    pub fn build(self) -> (request: GetGamesRequest)
        ensures
            request == self.pending(),
    {
        GetGamesRequest { id: self.id, name: self.name }
    }
}

impl GetGamesRequest {
    /// A builder with every field empty.
    pub fn builder() -> (builder: GetGamesRequestBuilder)
        ensures
            builder.pending().id@.len() == 0,
            builder.pending().name@.len() == 0,
    {
        GetGamesRequestBuilder { id: Vec::new(), name: Vec::new() }
    }
}

impl Request for GetGamesRequest {
    type Item = Game;

    open spec fn spec_method(&self) -> Method {
        Method::Get
    }

    open spec fn spec_path(&self) -> Seq<char> {
        "games"@
    }

    open spec fn spec_scopes(&self) -> Seq<Seq<char>> {
        Seq::empty()
    }

    open spec fn spec_query(&self) -> Seq<QueryParamModel> {
        seq![
            QueryParamModel { name: "id"@, value: QueryValueModel::Repeated(views(self.id@)) },
            QueryParamModel { name: "name"@, value: QueryValueModel::Repeated(views(self.name@)) },
        ]
    }

    fn method(&self) -> (method: Method) {
        Method::Get
    }

    fn path(&self) -> (path: &'static str) {
        "games"
    }

    fn required_scopes(&self) -> (scopes: Vec<Scope>) {
        let scopes: Vec<Scope> = Vec::new();
        assert(views(scopes@) =~= self.spec_scopes());
        scopes
    }

    fn query(&self) -> (params: Vec<QueryParam>) {
        let params = vec![
            QueryParam { name: "id".to_owned(), value: QueryValue::Repeated(copy_texts(&self.id)) },
            QueryParam {
                name: "name".to_owned(),
                value: QueryValue::Repeated(copy_texts(&self.name)),
            },
        ];
        assert(views(params@) =~= self.spec_query());
        params
    }
}

/// Query parameters of Get Top Games: games sorted by number of current
/// viewers, most popular first.
#[derive(Debug, PartialEq, Eq)]
#[non_exhaustive]
pub struct GetTopGamesRequest {
    /// Cursor for forward pagination: where the server starts the next page.
    pub after: Option<Cursor>,
    /// Cursor for backward pagination.
    pub before: Option<Cursor>,
    /// Maximum number of objects to return. Maximum: 100. Default: 20.
    pub first: Option<usize>,
}

/// Collects the fields of a [`GetTopGamesRequest`]. A field that is not set
/// stays absent.
pub struct GetTopGamesRequestBuilder {
    after: Option<Cursor>,
    before: Option<Cursor>,
    first: Option<usize>,
}

impl GetTopGamesRequestBuilder {
    /// The request that [`GetTopGamesRequestBuilder::build`] would give now.
    pub closed spec fn pending(self) -> GetTopGamesRequest {
        GetTopGamesRequest { after: self.after, before: self.before, first: self.first }
    }

    /// Sets the cursor for forward pagination.
    pub fn after(self, after: Option<Cursor>) -> (builder: GetTopGamesRequestBuilder)
        ensures
            builder.pending() == (GetTopGamesRequest { after, ..self.pending() }),
    {
        GetTopGamesRequestBuilder { after, before: self.before, first: self.first }
    }

    /// Sets the cursor for backward pagination.
    pub fn before(self, before: Option<Cursor>) -> (builder: GetTopGamesRequestBuilder)
        ensures
            builder.pending() == (GetTopGamesRequest { before, ..self.pending() }),
    {
        GetTopGamesRequestBuilder { after: self.after, before, first: self.first }
    }

    /// Sets the maximum number of objects to return.
    pub fn first(self, first: usize) -> (builder: GetTopGamesRequestBuilder)
        ensures
            builder.pending() == (GetTopGamesRequest { first: Some(first), ..self.pending() }),
    {
        GetTopGamesRequestBuilder { after: self.after, before: self.before, first: Some(first) }
    }

    /// The request with the fields as they were set.
    pub fn build(self) -> (request: GetTopGamesRequest)
        ensures
            request == self.pending(),
    {
        GetTopGamesRequest { after: self.after, before: self.before, first: self.first }
    }
}

impl GetTopGamesRequest {
    /// A builder with every field absent.
    pub fn builder() -> (builder: GetTopGamesRequestBuilder)
        ensures
            builder.pending() == (GetTopGamesRequest { after: None, before: None, first: None }),
    {
        GetTopGamesRequestBuilder { after: None, before: None, first: None }
    }
}

/// The text of a count, where there is one.
pub open spec fn count_text(count: Option<usize>) -> Option<Seq<char>> {
    match count {
        Some(n) => Some(decimal_text(n as nat)),
        None => None,
    }
}

impl Request for GetTopGamesRequest {
    type Item = Game;

    open spec fn spec_method(&self) -> Method {
        Method::Get
    }

    open spec fn spec_path(&self) -> Seq<char> {
        "games/top"@
    }

    open spec fn spec_scopes(&self) -> Seq<Seq<char>> {
        Seq::empty()
    }

    open spec fn spec_query(&self) -> Seq<QueryParamModel> {
        seq![
            QueryParamModel {
                name: "after"@,
                value: QueryValueModel::Absentable(option_view(self.after)),
            },
            QueryParamModel {
                name: "before"@,
                value: QueryValueModel::Absentable(option_view(self.before)),
            },
            QueryParamModel {
                name: "first"@,
                value: QueryValueModel::Absentable(count_text(self.first)),
            },
        ]
    }

    fn method(&self) -> (method: Method) {
        Method::Get
    }

    fn path(&self) -> (path: &'static str) {
        "games/top"
    }

    fn required_scopes(&self) -> (scopes: Vec<Scope>) {
        let scopes: Vec<Scope> = Vec::new();
        assert(views(scopes@) =~= self.spec_scopes());
        scopes
    }

    fn query(&self) -> (params: Vec<QueryParam>) {
        let after = match &self.after {
            Some(cursor) => Some(cursor.as_str().to_owned()),
            None => None,
        };
        let before = match &self.before {
            Some(cursor) => Some(cursor.as_str().to_owned()),
            None => None,
        };
        let first = match self.first {
            Some(n) => Some(render_u64(n as u64)),
            None => None,
        };
        let params = vec![
            QueryParam { name: "after".to_owned(), value: QueryValue::Absentable(after) },
            QueryParam { name: "before".to_owned(), value: QueryValue::Absentable(before) },
            QueryParam { name: "first".to_owned(), value: QueryValue::Absentable(first) },
        ];
        assert(views(params@) =~= self.spec_query());
        params
    }
}

impl Paginated for GetTopGamesRequest {
    open spec fn spec_cursor_key(&self) -> Seq<char> {
        "after"@
    }

    fn set_pagination(&mut self, cursor: Option<Cursor>) {
        proof {
            reveal_strlit("after");
            reveal_strlit("before");
            reveal_strlit("first");
        }
        self.after = cursor;
        proof {
            let before = old(self).spec_query();
            let after = with_cursor(before, "after"@, option_view(cursor));
            assert("before"@.len() != "after"@.len());
            assert("first"@[0] != "after"@[0]);
            assert(before[1].name != "after"@);
            assert(before[2].name != "after"@);
            assert(after[0] == self.spec_query()[0]);
            assert(after[1] == self.spec_query()[1]);
            assert(after[2] == self.spec_query()[2]);
        }
        assert(self.spec_query() =~= with_cursor(
            old(self).spec_query(),
            "after"@,
            option_view(cursor),
        ));
    }
}

} // verus!
