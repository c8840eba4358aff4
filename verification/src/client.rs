//! The dispatcher: what is sent, what is made of the answer, and how a paged
//! listing is walked. The caller owns the transport: it sends what
//! [`PageWalk::next_request`] hands out and gives the answer to
//! [`PageWalk::on_response`]. Nothing is fetched ahead, cached or retried.
use crate::error::{outcome_view, Error, ErrorModel};
use crate::json::{document_value, JsonValue};
use crate::request::{prepared_request, with_cursor, Credential, Paginated, Request};
use crate::response::{parse_response, response_outcome, Cursor, Item, Response, ResponseModel};
use crate::text::{option_view, views};
use crate::transport::{HeaderModel, HttpRequest, HttpResponse, TransportError};
use vstd::prelude::*;
use vstd::string::*;

verus! {

/// What the transport handed back, as a model: a response or the message of
/// its failure.
pub ghost enum ExchangeModel {
    Answered { status: u16, headers: Seq<HeaderModel>, body: Seq<u8> },
    Failed { message: Seq<char> },
}

/// The model of what the transport handed back.
pub open spec fn exchange_model(exchange: Result<HttpResponse, TransportError>) -> ExchangeModel {
    match exchange {
        Ok(response) => ExchangeModel::Answered {
            status: response.status,
            headers: views(response.headers@),
            body: response.body@,
        },
        Err(e) => ExchangeModel::Failed { message: e.message@ },
    }
}

/// What one exchange comes to, given what the body parses to: the failure of
/// the transport as it came, else what the response comes to.
pub open spec fn exchange_outcome<T: Item>(
    exchange: ExchangeModel,
    document: Option<JsonValue>,
    strict: bool,
) -> Result<ResponseModel<T::V>, ErrorModel> {
    match exchange {
        ExchangeModel::Failed { message } => Err(ErrorModel::Transport(message)),
        ExchangeModel::Answered { status, headers, body } => response_outcome::<T>(
            status,
            headers,
            body,
            document,
            strict,
        ),
    }
}

/// The body that the transport handed back; empty where it failed.
pub open spec fn exchange_body(exchange: ExchangeModel) -> Seq<u8> {
    match exchange {
        ExchangeModel::Failed { .. } => Seq::empty(),
        ExchangeModel::Answered { body, .. } => body,
    }
}

/// Makes typed items or an error of what the transport handed back for one
/// request. A failure of the transport is handed on as it came.
pub fn receive<T: Item>(exchange: Result<HttpResponse, TransportError>, strict: bool) -> (r: Result<
    Response<T>,
    Error,
>)
    ensures
        outcome_view(r) == exchange_outcome::<T>(
            exchange_model(exchange),
            document_value(exchange_body(exchange_model(exchange))),
            strict,
        ),
{
    match exchange {
        Err(e) => Err(Error::Transport(e)),
        Ok(response) => parse_response::<T>(response, strict),
    }
}

/// What a walk does with a page that holds no item but still carries a
/// cursor. A server that answers so for ever must not keep a walk going for
/// ever.
#[derive(Clone, Copy, Debug, PartialEq, Eq, Structural)]
pub enum EmptyPagePolicy {
    /// The walk ends with the first empty page.
    Stop,
    /// The walk goes on after an empty page, and ends with the second empty
    /// page in a row.
    ContinueOnce,
}

impl Default for EmptyPagePolicy {
    /// The walk goes on once after an empty page.
    fn default() -> (policy: EmptyPagePolicy)
        ensures
            policy == EmptyPagePolicy::ContinueOnce,
    {
        EmptyPagePolicy::ContinueOnce
    }
}

/// Where a walk stands.
pub ghost struct WalkState {
    /// Another page is wanted.
    pub active: bool,
    /// The page before was empty.
    pub after_empty: bool,
}

/// Where a walk starts: the first page is wanted.
pub open spec fn initial_state() -> WalkState {
    WalkState { active: true, after_empty: false }
}

/// Where a walk stands after an error, or after its last page.
pub open spec fn ended(state: WalkState) -> WalkState {
    WalkState { active: false, after_empty: state.after_empty }
}

/// Where a walk stands after a page with `items` items that does or does not
/// carry a cursor. It ends with a page without a cursor; with an empty page
/// under [`EmptyPagePolicy::Stop`]; and with the second empty page in a row
/// under [`EmptyPagePolicy::ContinueOnce`]. A walk that has ended stays where
/// it is.
pub open spec fn after_page(
    policy: EmptyPagePolicy,
    state: WalkState,
    items: nat,
    has_cursor: bool,
) -> WalkState {
    if !state.active {
        state
    } else if !has_cursor {
        ended(state)
    } else if items > 0 {
        WalkState { active: true, after_empty: false }
    } else if policy == EmptyPagePolicy::Stop || state.after_empty {
        ended(state)
    } else {
        WalkState { active: true, after_empty: true }
    }
}

/// A walk through the pages of a listing, one exchange at a time.
pub struct PageWalk<R> {
    request: R,
    policy: EmptyPagePolicy,
    strict: bool,
    active: bool,
    after_empty: bool,
}

impl<R: Paginated> PageWalk<R> {
    /// The request as it stands: the one the walk began with, carrying the
    /// cursor of the last page that it went on from.
    pub closed spec fn request(&self) -> R {
        self.request
    }

    /// The policy for empty pages.
    pub closed spec fn policy(&self) -> EmptyPagePolicy {
        self.policy
    }

    /// Whether unknown members are refused.
    pub closed spec fn strict(&self) -> bool {
        self.strict
    }

    /// Where the walk stands.
    pub closed spec fn state(&self) -> WalkState {
        WalkState { active: self.active, after_empty: self.after_empty }
    }

    /// `true` when `self` is `before` with nothing changed.
    pub open spec fn same_as(&self, before: &Self) -> bool {
        &&& self.request() == before.request()
        &&& self.policy() == before.policy()
        &&& self.strict() == before.strict()
        &&& self.state() == before.state()
    }

    /// `true` when `self` is `before` after it has ended: the request, the
    /// policy and the mode are as they were.
    pub open spec fn ended_from(&self, before: &Self) -> bool {
        &&& self.request() == before.request()
        &&& self.policy() == before.policy()
        &&& self.strict() == before.strict()
        &&& self.state() == ended(before.state())
    }

    /// `true` when `self` is `before` after a page with `items` items and the
    /// cursor `cursor`: it stands where [`after_page`] says, and where it
    /// goes on, its request is the one of `before` with the cursor set to the
    /// page's and nothing else changed.
    pub open spec fn follows_page(&self, before: &Self, items: nat, cursor: Option<Seq<char>>)
        -> bool {
        &&& self.policy() == before.policy()
        &&& self.strict() == before.strict()
        &&& self.state() == after_page(before.policy(), before.state(), items, cursor is Some)
        &&& if self.state().active {
            &&& self.request().spec_method() == before.request().spec_method()
            &&& self.request().spec_path() == before.request().spec_path()
            &&& self.request().spec_scopes() == before.request().spec_scopes()
            &&& self.request().spec_cursor_key() == before.request().spec_cursor_key()
            &&& self.request().spec_query() == with_cursor(
                before.request().spec_query(),
                before.request().spec_cursor_key(),
                cursor,
            )
        } else {
            self.request() == before.request()
        }
    }

    /// A walk that starts with `request` as it is. In strict mode unknown
    /// members in a response are refused.
    pub fn new(request: R, policy: EmptyPagePolicy, strict: bool) -> (walk: PageWalk<R>)
        ensures
            walk.request() == request,
            walk.policy() == policy,
            walk.strict() == strict,
            walk.state() == initial_state(),
    {
        PageWalk { request, policy, strict, active: true, after_empty: false }
    }

    /// `true` once the walk has ended: no further request will be handed out.
    pub fn is_finished(&self) -> (finished: bool)
        ensures
            finished == !self.state().active,
    {
        !self.active
    }

    /// The request, carrying the cursor of the last page the walk went on
    /// from.
    pub fn into_request(self) -> (request: R)
        ensures
            request == self.request(),
    {
        self.request
    }

    /// The next request to send, if the walk wants another page.
    ///
    /// A walk that has ended hands out nothing. Otherwise the request is
    /// prepared for the credential as [`Request::create_request`] does; where
    /// that fails, the error is handed out and the walk ends.
    pub fn next_request(&mut self, credential: &Credential) -> (r: Option<
        Result<HttpRequest, Error>,
    >)
        ensures
            r is Some <==> old(self).state().active,
            r matches Some(prepared) ==> outcome_view(prepared) == prepared_request(
                old(self).request().spec_method(),
                old(self).request().spec_path(),
                old(self).request().spec_query(),
                old(self).request().spec_scopes(),
                credential@,
            ),
            if r matches Some(Err(_)) {
                final(self).ended_from(old(self))
            } else {
                final(self).same_as(old(self))
            },
    {
        if !self.active {
            return None;
        }
        let prepared = self.request.create_request(credential);
        if prepared.is_err() {
            self.active = false;
        }
        Some(prepared)
    }

    /// Takes one page, or the error that came in its place, and hands out its
    /// items.
    ///
    /// A walk that has ended passes over what it is given: no item comes of
    /// it. An error ends the walk and is handed on. A page hands out all its
    /// items in order; the walk then ends or goes on as [`after_page`] says,
    /// and where it goes on the request carries the page's cursor.
    pub fn on_page(&mut self, page: Result<Response<R::Item>, Error>) -> (r: Result<
        Vec<R::Item>,
        Error,
    >)
        ensures
            !old(self).state().active ==> {
                &&& r matches Ok(items) && items@.len() == 0
                &&& final(self).same_as(old(self))
            },
            old(self).state().active ==> match page {
                Err(e) => {
                    &&& r matches Err(handed) && handed@ == e@
                    &&& final(self).ended_from(old(self))
                },
                Ok(response) => {
                    &&& r matches Ok(items) && views(items@) == response@.data
                    &&& final(self).follows_page(
                        old(self),
                        response@.data.len(),
                        response@.cursor,
                    )
                },
            },
    {
        if !self.active {
            return Ok(Vec::new());
        }
        match page {
            Err(e) => {
                self.active = false;
                Err(e)
            },
            Ok(response) => {
                let Response { data, pagination, total: _ } = response;
                let empty = data.len() == 0;
                match pagination {
                    None => {
                        self.active = false;
                    },
                    Some(cursor) => {
                        if !empty {
                            self.after_empty = false;
                            self.request.set_pagination(Some(cursor));
                        } else if self.policy == EmptyPagePolicy::Stop || self.after_empty {
                            self.active = false;
                        } else {
                            self.after_empty = true;
                            self.request.set_pagination(Some(cursor));
                        }
                    },
                }
                Ok(data)
            },
        }
    }

    /// Takes what the transport handed back for the last request, and hands
    /// out the items of the page.
    ///
    /// What came back is made into a page or an error as [`receive`] does,
    /// and taken as [`PageWalk::on_page`] takes it.
    pub fn on_response(&mut self, exchange: Result<HttpResponse, TransportError>) -> (r: Result<
        Vec<R::Item>,
        Error,
    >)
        ensures
            !old(self).state().active ==> {
                &&& r matches Ok(items) && items@.len() == 0
                &&& final(self).same_as(old(self))
            },
            old(self).state().active ==> match exchange_outcome::<R::Item>(
                exchange_model(exchange),
                document_value(exchange_body(exchange_model(exchange))),
                old(self).strict(),
            ) {
                Err(e) => {
                    &&& r matches Err(handed) && handed@ == e
                    &&& final(self).ended_from(old(self))
                },
                Ok(response) => {
                    &&& r matches Ok(items) && views(items@) == response.data
                    &&& final(self).follows_page(old(self), response.data.len(), response.cursor)
                },
            },
    {
        if !self.active {
            return Ok(Vec::new());
        }
        let page = receive::<R::Item>(exchange, self.strict);
        self.on_page(page)
    }
}

/// Where a walk stands after it was handed `pages`, one after the other.
pub open spec fn state_after<V>(policy: EmptyPagePolicy, pages: Seq<ResponseModel<V>>) -> WalkState
    decreases pages.len(),
{
    if pages.len() == 0 {
        initial_state()
    } else {
        after_page(
            policy,
            state_after(policy, pages.drop_last()),
            pages.last().data.len(),
            pages.last().cursor is Some,
        )
    }
}

/// The items that a walk hands out when it is handed `pages`, one after the
/// other: those of each page that it still wanted.
pub open spec fn yielded<V>(policy: EmptyPagePolicy, pages: Seq<ResponseModel<V>>) -> Seq<V>
    decreases pages.len(),
{
    if pages.len() == 0 {
        Seq::empty()
    } else if state_after(policy, pages.drop_last()).active {
        yielded(policy, pages.drop_last()) + pages.last().data
    } else {
        yielded(policy, pages.drop_last())
    }
}

/// The number of `pages` that a walk asks for: a page is fetched only while
/// the walk still wants one.
pub open spec fn fetches<V>(policy: EmptyPagePolicy, pages: Seq<ResponseModel<V>>) -> nat
    decreases pages.len(),
{
    if pages.len() == 0 {
        0
    } else if state_after(policy, pages.drop_last()).active {
        fetches(policy, pages.drop_last()) + 1
    } else {
        fetches(policy, pages.drop_last())
    }
}

/// The items of all pages, page after page.
pub open spec fn all_items<V>(pages: Seq<ResponseModel<V>>) -> Seq<V>
    decreases pages.len(),
{
    if pages.len() == 0 {
        Seq::empty()
    } else {
        all_items(pages.drop_last()) + pages.last().data
    }
}

/// `true` when page `k` is an empty page at which the walk ends although it
/// carries a cursor: any empty page under [`EmptyPagePolicy::Stop`], one that
/// follows an empty page under [`EmptyPagePolicy::ContinueOnce`].
pub open spec fn ends_early<V>(policy: EmptyPagePolicy, pages: Seq<ResponseModel<V>>, k: int)
    -> bool {
    &&& pages[k].data.len() == 0
    &&& policy == EmptyPagePolicy::Stop || (k > 0 && pages[k - 1].data.len() == 0)
}

/// `true` when every page but the last carries a cursor and is no empty page
/// at which the walk ends, and the last page carries no cursor.
pub open spec fn runs_to_last<V>(policy: EmptyPagePolicy, pages: Seq<ResponseModel<V>>) -> bool {
    &&& pages.len() > 0
    &&& pages.last().cursor is None
    &&& forall|k: int|
        0 <= k < pages.len() - 1 ==> (#[trigger] pages[k]).cursor is Some && !ends_early(
            policy,
            pages,
            k,
        )
}

/// Up to the last page the walk is still going, has handed out every item
/// so far, and has fetched every page so far.
proof fn lemma_walk_prefix<V>(policy: EmptyPagePolicy, pages: Seq<ResponseModel<V>>, k: int)
    requires
        runs_to_last(policy, pages),
        0 <= k < pages.len(),
    ensures
        state_after(policy, pages.take(k)).active,
        state_after(policy, pages.take(k)).after_empty == (k > 0 && pages[k - 1].data.len() == 0),
        yielded(policy, pages.take(k)) == all_items(pages.take(k)),
        fetches(policy, pages.take(k)) == k,
    decreases k,
{
    if k > 0 {
        lemma_walk_prefix(policy, pages, k - 1);
        let prefix = pages.take(k);
        assert(prefix.drop_last() == pages.take(k - 1));
        assert(prefix.last() == pages[k - 1]);
        assert(pages[k - 1].cursor is Some && !ends_early(policy, pages, k - 1));
    }
}

/// A walk over `N` pages of which only the last is without a cursor hands
/// out exactly the items of all pages, in the order of the pages and within
/// each page, asks for a page `N` times, and has ended after the last: there
/// is no further fetch. Before each of the `N` pages it still wants one.
///
/// An empty page that carries a cursor can end a walk before the last page
/// (see [`ends_early`]); the statement is about sequences without such a
/// page.
pub proof fn lemma_walk_yields_all_pages<V>(
    policy: EmptyPagePolicy,
    pages: Seq<ResponseModel<V>>,
)
    requires
        runs_to_last(policy, pages),
    ensures
        yielded(policy, pages) == all_items(pages),
        fetches(policy, pages) == pages.len(),
        !state_after(policy, pages).active,
        forall|k: int|
            0 <= k < pages.len() ==> (#[trigger] state_after(policy, pages.take(k))).active,
{
    let n = pages.len() as int;
    lemma_walk_prefix(policy, pages, n - 1);
    assert(pages.drop_last() == pages.take(n - 1));
    assert forall|k: int| 0 <= k < pages.len() implies (#[trigger] state_after(
        policy,
        pages.take(k),
    )).active by {
        lemma_walk_prefix(policy, pages, k);
    }
}

/// A walk that has ended stays ended, hands out nothing more and fetches
/// nothing more, whatever pages follow.
pub proof fn lemma_ended_walk_stays_ended<V>(
    policy: EmptyPagePolicy,
    pages: Seq<ResponseModel<V>>,
    more: Seq<ResponseModel<V>>,
)
    requires
        !state_after(policy, pages).active,
    ensures
        !state_after(policy, pages + more).active,
        yielded(policy, pages + more) == yielded(policy, pages),
        fetches(policy, pages + more) == fetches(policy, pages),
    decreases more.len(),
{
    if more.len() == 0 {
        assert(pages + more == pages);
    } else {
        lemma_ended_walk_stays_ended(policy, pages, more.drop_last());
        assert((pages + more).drop_last() == pages + more.drop_last());
    }
}

} // verus!
