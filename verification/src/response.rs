//! The response envelope: `data`, an optional pagination cursor and an
//! optional total, decoded from a response body all or nothing.
use crate::error::{
    outcome_view, Error, ErrorModel, HttpStatusError, HttpStatusModel, ParseError, StatusKind,
    StatusKindModel,
};
use crate::decimal::{decimal_text, lemma_decimal_round_trip, render_u64};
use crate::json::{document_value, first_with_key, parse_json, Json, JsonValue};
use crate::text::{option_view, views};
use crate::transport::{first_header, header_value, Header, HeaderModel, HttpResponse};
use vstd::prelude::*;
use vstd::string::*;

verus! {

/// An opaque token that the server hands out to continue a listing. It is
/// passed back as it came.
#[derive(Debug, PartialEq, Eq)]
pub struct Cursor {
    token: String,
}

impl View for Cursor {
    type V = Seq<char>;

    closed spec fn view(&self) -> Seq<char> {
        self.token@
    }
}

impl Cursor {
    /// The cursor with the given token.
    pub fn new(token: &str) -> (cursor: Cursor)
        ensures
            cursor@ == token@,
    {
        Cursor { token: token.to_owned() }
    }

    /// The token.
    pub fn as_str(&self) -> (token: &str)
        ensures
            token@ == self@,
    {
        self.token.as_str()
    }

    /// A copy of the cursor.
    pub fn duplicate(&self) -> (copy: Cursor)
        ensures
            copy@ == self@,
    {
        Cursor { token: self.token.clone() }
    }
}

/// A type of items that a response carries under `data`.
pub trait Item: View + Sized {
    /// The item that a JSON value stands for, if it stands for one. In
    /// strict mode a value with a member that the item does not have stands
    /// for none.
    spec fn decoded(value: JsonValue, strict: bool) -> Option<Self::V>;

    /// The JSON value that stands for an item.
    spec fn encoded(item: Self::V) -> JsonValue;

    /// Decodes one item.
    fn from_json(value: &Json, strict: bool) -> (r: Option<Self>)
        ensures
            option_view(r) == Self::decoded(value@, strict),
    ;

    /// Encodes one item.
    fn to_json(&self) -> (json: Json)
        ensures
            json@ == Self::encoded(self@),
    ;

    /// An item that is encoded and decoded again is the same item, in either
    /// mode.
    proof fn lemma_round_trip(item: Self::V, strict: bool)
        ensures
            Self::decoded(Self::encoded(item), strict) == Some(item),
    ;
}

/// One decoded response.
#[derive(Debug, PartialEq, Eq)]
pub struct Response<T> {
    /// The items, in the order in which the server sent them.
    pub data: Vec<T>,
    /// The cursor of the next page, where the server sent one.
    pub pagination: Option<Cursor>,
    /// The total count, where the server sent one.
    pub total: Option<u64>,
}

/// Mathematical model of a [`Response`].
#[verifier::ext_equal]
pub ghost struct ResponseModel<V> {
    pub data: Seq<V>,
    pub cursor: Option<Seq<char>>,
    pub total: Option<u64>,
}

impl<T: View> View for Response<T> {
    type V = ResponseModel<T::V>;

    open spec fn view(&self) -> ResponseModel<T::V> {
        ResponseModel {
            data: views(self.data@),
            cursor: option_view(self.pagination),
            total: self.total,
        }
    }
}

/// The keys that an envelope may have.
pub open spec fn envelope_keys() -> Seq<Seq<char>> {
    seq!["data"@, "pagination"@, "total"@]
}

/// The keys that the `pagination` member may have.
pub open spec fn pagination_keys() -> Seq<Seq<char>> {
    seq!["cursor"@]
}

/// The array under `data`.
pub open spec fn data_array(value: JsonValue) -> Option<Seq<JsonValue>> {
    match value.member("data"@) {
        Some(data) => data.as_array(),
        None => None,
    }
}

/// The cursor of an envelope: `Some(None)` where it has none (no
/// `pagination`, or one without a `cursor`; `null` counts as left out), and
/// `None` where `pagination` is no object, `cursor` is no string, or, in
/// strict mode, `pagination` has another key.
pub open spec fn decoded_cursor(value: JsonValue, strict: bool) -> Option<Option<Seq<char>>> {
    match value.present_member("pagination"@) {
        None => Some(None),
        Some(pagination) => {
            if !(pagination is Object) || (strict && !pagination.is_object_within(
                pagination_keys(),
            )) {
                None
            } else {
                match pagination.present_member("cursor"@) {
                    None => Some(None),
                    Some(JsonValue::Text(token)) => Some(Some(token)),
                    Some(_) => None,
                }
            }
        },
    }
}

/// The total of an envelope: `Some(None)` where it has none, and `None`
/// where `total` is anything but a whole number from 0 to `u64::MAX`.
pub open spec fn decoded_total(value: JsonValue) -> Option<Option<u64>> {
    match value.present_member("total"@) {
        None => Some(None),
        Some(total) => match total.as_u64() {
            Some(n) => Some(Some(n)),
            None => None,
        },
    }
}

/// The index of the first of `items` that stands for no item.
pub open spec fn first_undecodable<T: Item>(items: Seq<JsonValue>, strict: bool) -> Option<int>
    decreases items.len(),
{
    if items.len() == 0 {
        None
    } else {
        match first_undecodable::<T>(items.drop_last(), strict) {
            Some(i) => Some(i),
            None => if T::decoded(items.last(), strict) is None {
                Some(items.len() - 1)
            } else {
                None
            },
        }
    }
}

/// The items that `items` stand for, one for one.
pub open spec fn decoded_all<T: Item>(items: Seq<JsonValue>, strict: bool) -> Seq<T::V> {
    Seq::new(items.len(), |i: int| T::decoded(items[i], strict).unwrap())
}

/// What an envelope decodes to. Either every item under `data` is decoded,
/// in order, or the whole is an error.
pub open spec fn decoded_envelope<T: Item>(value: JsonValue, strict: bool) -> Result<
    ResponseModel<T::V>,
    ParseError,
> {
    if strict && !value.is_object_within(envelope_keys()) {
        Err(ParseError::Envelope)
    } else {
        match (data_array(value), decoded_cursor(value, strict), decoded_total(value)) {
            (Some(items), Some(cursor), Some(total)) => {
                match first_undecodable::<T>(items, strict) {
                    Some(i) => Err(ParseError::Item { index: i as usize }),
                    None => Ok(
                        ResponseModel { data: decoded_all::<T>(items, strict), cursor, total },
                    ),
                }
            },
            _ => Err(ParseError::Envelope),
        }
    }
}

/// The first undecodable item of a prefix is the first of the whole.
proof fn lemma_first_undecodable_prefix<T: Item>(items: Seq<JsonValue>, strict: bool, k: int)
    requires
        0 <= k <= items.len(),
        first_undecodable::<T>(items.take(k), strict) is Some,
    ensures
        first_undecodable::<T>(items, strict) == first_undecodable::<T>(items.take(k), strict),
    decreases items.len() - k,
{
    if k == items.len() {
        assert(items.take(k) == items);
    } else {
        assert(items.take(k + 1).drop_last() == items.take(k));
        lemma_first_undecodable_prefix::<T>(items, strict, k + 1);
    }
}

/// Where no item is undecodable, each one stands for an item.
proof fn lemma_all_decodable<T: Item>(items: Seq<JsonValue>, strict: bool, i: int)
    requires
        first_undecodable::<T>(items, strict) is None,
        0 <= i < items.len(),
    ensures
        T::decoded(items[i], strict) is Some,
    decreases items.len(),
{
    if i < items.len() - 1 {
        lemma_all_decodable::<T>(items.drop_last(), strict, i);
    }
}

fn decode_cursor(value: &Json, strict: bool) -> (r: Option<Option<Cursor>>)
    ensures
        match r {
            Some(cursor) => decoded_cursor(value@, strict) == Some(option_view(cursor)),
            None => decoded_cursor(value@, strict) is None,
        },
{
    match value.present_member("pagination") {
        None => Some(None),
        Some(pagination) => {
            match pagination {
                Json::Object(_) => {},
                _ => {
                    return None;
                },
            }
            if strict {
                let known: Vec<&str> = vec!["cursor"];
                assert(views(known@) == pagination_keys());
                if !pagination.is_object_within(&known) {
                    return None;
                }
            }
            match pagination.present_member("cursor") {
                None => Some(None),
                Some(Json::Text(token)) => Some(Some(Cursor::new(token.as_str()))),
                Some(_) => None,
            }
        },
    }
}

fn decode_total(value: &Json) -> (r: Option<Option<u64>>)
    ensures
        r == decoded_total(value@),
{
    match value.present_member("total") {
        None => Some(None),
        Some(total) => match total.as_u64() {
            Some(n) => Some(Some(n)),
            None => None,
        },
    }
}

/// Decodes an envelope, all or nothing: the response with every item of
/// `data` in order, its cursor and its total, or the error that says what
/// stood in the way. In strict mode unknown keys are refused, in the
/// envelope, under `pagination` and in each item; otherwise they are passed
/// over.
pub fn decode_envelope<T: Item>(value: &Json, strict: bool) -> (r: Result<Response<T>, ParseError>)
    ensures
        match r {
            Ok(response) => decoded_envelope::<T>(value@, strict) == Ok::<
                ResponseModel<T::V>,
                ParseError,
            >(response@),
            Err(e) => decoded_envelope::<T>(value@, strict) == Err::<
                ResponseModel<T::V>,
                ParseError,
            >(e),
        },
{
    if strict {
        let known: Vec<&str> = vec!["data", "pagination", "total"];
        assert(views(known@) == envelope_keys());
        if !value.is_object_within(&known) {
            return Err(ParseError::Envelope);
        }
    }
    let items = match value.member("data") {
        Some(data) => match data.as_array() {
            Some(items) => items,
            None => {
                return Err(ParseError::Envelope);
            },
        },
        None => {
            return Err(ParseError::Envelope);
        },
    };
    let pagination = match decode_cursor(value, strict) {
        Some(cursor) => cursor,
        None => {
            return Err(ParseError::Envelope);
        },
    };
    let total = match decode_total(value) {
        Some(total) => total,
        None => {
            return Err(ParseError::Envelope);
        },
    };
    let ghost models = views(items@);
    let mut data: Vec<T> = Vec::new();
    let mut i: usize = 0;
    while i < items.len()
        invariant
            i <= items.len(),
            models == views(items@),
            !(strict && !value@.is_object_within(envelope_keys())),
            data_array(value@) == Some(models),
            decoded_cursor(value@, strict) is Some,
            decoded_total(value@) is Some,
            data@.len() == i,
            first_undecodable::<T>(models.take(i as int), strict) is None,
            views(data@) == decoded_all::<T>(models.take(i as int), strict),
        decreases items.len() - i,
    {
        proof {
            assert(models.take(i + 1).drop_last() == models.take(i as int));
            assert(models.take(i + 1).last() == items@[i as int]@);
        }
        let ghost before = views(data@);
        match T::from_json(&items[i], strict) {
            Some(item) => {
                data.push(item);
                proof {
                    let after = decoded_all::<T>(models.take(i + 1), strict);
                    assert(views(data@).len() == after.len());
                    assert forall|k: int| 0 <= k < after.len() implies views(data@)[k]
                        == after[k] by {
                        if k < i {
                            assert(views(data@)[k] == before[k]);
                            assert(models.take(i as int)[k] == models.take(i + 1)[k]);
                        }
                    }
                    assert(views(data@) =~= after);
                }
            },
            None => {
                proof {
                    assert(T::decoded(models.take(i + 1).last(), strict) is None);
                    assert(first_undecodable::<T>(models.take(i + 1), strict) == Some(i as int));
                    lemma_first_undecodable_prefix::<T>(models, strict, i + 1);
                }
                return Err(ParseError::Item { index: i });
            },
        }
        i += 1;
    }
    proof {
        assert(models.take(items.len() as int) == models);
    }
    Ok(Response { data, pagination, total })
}

/// Where any item under `data` stands for no item, the envelope decodes to
/// an error: never to a response with some of the items.
pub proof fn lemma_all_or_nothing<T: Item>(value: JsonValue, strict: bool, i: int)
    requires
        data_array(value) is Some,
        0 <= i < data_array(value).unwrap().len(),
        T::decoded(data_array(value).unwrap()[i], strict) is None,
    ensures
        decoded_envelope::<T>(value, strict) is Err,
{
    let items = data_array(value).unwrap();
    if first_undecodable::<T>(items, strict) is None {
        lemma_all_decodable::<T>(items, strict, i);
    }
}

/// A decoded response holds one item for each element of `data`, in the
/// order of `data`, with the cursor and the total as they were sent.
pub proof fn lemma_decoded_in_order<T: Item>(value: JsonValue, strict: bool)
    requires
        decoded_envelope::<T>(value, strict) is Ok,
    ensures
        data_array(value) is Some,
        decoded_envelope::<T>(value, strict).unwrap().data.len() == data_array(
            value,
        ).unwrap().len(),
        forall|i: int|
            0 <= i < data_array(value).unwrap().len() ==> T::decoded(
                #[trigger] data_array(value).unwrap()[i],
                strict,
            ) == Some(decoded_envelope::<T>(value, strict).unwrap().data[i]),
        decoded_cursor(value, strict) == Some(decoded_envelope::<T>(value, strict).unwrap().cursor),
        decoded_total(value) == Some(decoded_envelope::<T>(value, strict).unwrap().total),
{
    let items = data_array(value).unwrap();
    assert forall|i: int| 0 <= i < items.len() implies T::decoded(#[trigger] items[i], strict)
        == Some(decoded_envelope::<T>(value, strict).unwrap().data[i]) by {
        lemma_all_decodable::<T>(items, strict, i);
    }
}

/// `true` for the statuses 200 to 299.
pub open spec fn is_success(status: u16) -> bool {
    200 <= status <= 299
}

/// The kind of a status that is not a success: rate-limited for 429, with
/// the value of the first `Retry-After` header if there is one; unauthorized
/// for 401; other for the rest. Nothing for a success.
pub open spec fn status_kind(status: u16, headers: Seq<HeaderModel>) -> Option<StatusKindModel> {
    if is_success(status) {
        None
    } else if status == 429 {
        Some(StatusKindModel::RateLimited { retry_after: first_header(headers, "retry-after"@) })
    } else if status == 401 {
        Some(StatusKindModel::Unauthorized)
    } else {
        Some(StatusKindModel::Other)
    }
}

/// What a document decodes to: an error where the body was no document,
/// else what its envelope decodes to.
pub open spec fn decoded_document<T: Item>(document: Option<JsonValue>, strict: bool) -> Result<
    ResponseModel<T::V>,
    ParseError,
> {
    match document {
        None => Err(ParseError::Document),
        Some(value) => decoded_envelope::<T>(value, strict),
    }
}

/// What a response comes to, given what its body parses to. The status is
/// looked at first: a response that is no success is an error whatever its
/// body holds.
pub open spec fn response_outcome<T: Item>(
    status: u16,
    headers: Seq<HeaderModel>,
    body: Seq<u8>,
    document: Option<JsonValue>,
    strict: bool,
) -> Result<ResponseModel<T::V>, ErrorModel> {
    match status_kind(status, headers) {
        Some(kind) => Err(ErrorModel::HttpStatus(HttpStatusModel { status, kind, body })),
        None => match decoded_document::<T>(document, strict) {
            Ok(response) => Ok(response),
            Err(e) => Err(ErrorModel::Parse(e)),
        },
    }
}

/// Classifies a status: nothing for a success, else the kind of failure.
pub fn classify(status: u16, headers: &Vec<Header>) -> (r: Option<StatusKind>)
    ensures
        option_view(r) == status_kind(status, views(headers@)),
{
    if 200 <= status && status <= 299 {
        None
    } else if status == 429 {
        let retry_after = match header_value(headers, "retry-after") {
            Some(value) => Some(value.clone()),
            None => None,
        };
        Some(StatusKind::RateLimited { retry_after })
    } else if status == 401 {
        Some(StatusKind::Unauthorized)
    } else {
        Some(StatusKind::Other)
    }
}

/// Decodes what a body was parsed into: an error where it was no document,
/// else the envelope, all or nothing.
pub fn decode_document<T: Item>(document: Option<Json>, strict: bool) -> (r: Result<
    Response<T>,
    ParseError,
>)
    ensures
        match r {
            Ok(response) => decoded_document::<T>(option_view(document), strict) == Ok::<
                ResponseModel<T::V>,
                ParseError,
            >(response@),
            Err(e) => decoded_document::<T>(option_view(document), strict) == Err::<
                ResponseModel<T::V>,
                ParseError,
            >(e),
        },
{
    match document {
        None => Err(ParseError::Document),
        Some(value) => decode_envelope::<T>(&value, strict),
    }
}

/// Turns a response into typed items or an error.
///
/// A status outside 200 to 299 is an [`Error::HttpStatus`] with the status,
/// its kind and the body as it came; the body is not parsed. The body of a
/// success is parsed as JSON and decoded as an envelope, all or nothing.
pub fn parse_response<T: Item>(response: HttpResponse, strict: bool) -> (r: Result<
    Response<T>,
    Error,
>)
    ensures
        outcome_view(r) == response_outcome::<T>(
            response.status,
            views(response.headers@),
            response.body@,
            document_value(response.body@),
            strict,
        ),
{
    match classify(response.status, &response.headers) {
        Some(kind) => Err(
            Error::HttpStatus(
                HttpStatusError { status: response.status, kind, body: response.body },
            ),
        ),
        None => {
            let document = parse_json(response.body.as_slice());
            match decode_document::<T>(document, strict) {
                Ok(decoded) => Ok(decoded),
                Err(e) => Err(Error::Parse(e)),
            }
        },
    }
}

/// The JSON value of a cursor: its token, or `null` where there is none.
pub open spec fn encoded_cursor(cursor: Option<Seq<char>>) -> JsonValue {
    match cursor {
        Some(token) => JsonValue::Text(token),
        None => JsonValue::Null,
    }
}

/// The JSON value of a total: the number, or `null` where there is none.
pub open spec fn encoded_total(total: Option<u64>) -> JsonValue {
    match total {
        Some(n) => JsonValue::Number(decimal_text(n as nat)),
        None => JsonValue::Null,
    }
}

/// The JSON values of the items, one for one.
pub open spec fn encoded_all<T: Item>(items: Seq<T::V>) -> Seq<JsonValue> {
    Seq::new(items.len(), |i: int| T::encoded(items[i]))
}

/// The envelope of a response: `data`, `pagination` with its `cursor`, and
/// `total`, in this order.
pub open spec fn encoded_envelope<T: Item>(response: ResponseModel<T::V>) -> JsonValue {
    JsonValue::Object(
        envelope_keys(),
        seq![
            JsonValue::Array(encoded_all::<T>(response.data)),
            JsonValue::Object(pagination_keys(), seq![encoded_cursor(response.cursor)]),
            encoded_total(response.total),
        ],
    )
}

/// Encodes a response as its envelope.
pub fn encode_envelope<T: Item>(response: &Response<T>) -> (json: Json)
    ensures
        json@ == encoded_envelope::<T>(response@),
{
    let mut items: Vec<Json> = Vec::new();
    let mut i: usize = 0;
    while i < response.data.len()
        invariant
            i <= response.data.len(),
            items@.len() == i,
            forall|k: int| 0 <= k < i ==> #[trigger] items@[k]@ == T::encoded(response.data@[k]@),
        decreases response.data.len() - i,
    {
        items.push(response.data[i].to_json());
        i += 1;
    }
    let cursor = match &response.pagination {
        Some(cursor) => Json::Text(cursor.as_str().to_owned()),
        None => Json::Null,
    };
    let total = match response.total {
        Some(n) => Json::Number(render_u64(n)),
        None => Json::Null,
    };
    proof {
        assert(cursor@ == encoded_cursor(response@.cursor));
        assert(total@ == encoded_total(response@.total));
    }
    let ghost item_values = Seq::new(items@.len(), |k: int| items@[k]@);
    let ghost cursor_value = cursor@;
    let ghost total_value = total@;
    let data = Json::Array(items);
    proof {
        assert(data@ is Array);
        assert(data@->Array_0 =~= item_values);
        assert(item_values =~= encoded_all::<T>(response@.data));
    }
    let ghost data_value = data@;
    let pagination = Json::Object(vec![("cursor".to_owned(), cursor)]);
    proof {
        assert(pagination@ is Object);
        assert(pagination@->Object_0 =~= pagination_keys());
        assert(pagination@->Object_1.len() == 1);
        assert(pagination@->Object_1[0] == cursor_value);
        assert(pagination@->Object_1 =~= seq![cursor_value]);
    }
    let ghost pagination_value = pagination@;
    let json = Json::Object(
        vec![("data".to_owned(), data), ("pagination".to_owned(), pagination), ("total".to_owned(), total)],
    );
    proof {
        assert(json@ is Object);
        assert(json@->Object_0 =~= envelope_keys());
        assert(json@->Object_1.len() == 3);
        assert(json@->Object_1[0] == data_value);
        assert(json@->Object_1[1] == pagination_value);
        assert(json@->Object_1[2] == total_value);
        assert(json@->Object_1 =~= seq![data_value, pagination_value, total_value]);
    }
    json
}

/// Every encoded item stands for an item.
proof fn lemma_encoded_all_decodable<T: Item>(items: Seq<T::V>, strict: bool)
    ensures
        first_undecodable::<T>(encoded_all::<T>(items), strict) is None,
        decoded_all::<T>(encoded_all::<T>(items), strict) == items,
    decreases items.len(),
{
    let encoded = encoded_all::<T>(items);
    if items.len() > 0 {
        lemma_encoded_all_decodable::<T>(items.drop_last(), strict);
        assert(encoded.drop_last() == encoded_all::<T>(items.drop_last()));
        T::lemma_round_trip(items.last(), strict);
    }
    assert forall|i: int| 0 <= i < items.len() implies decoded_all::<T>(encoded, strict)[i]
        == items[i] by {
        T::lemma_round_trip(items[i], strict);
    }
    assert(decoded_all::<T>(encoded, strict) =~= items);
}

/// A response that is encoded as its envelope and decoded again is the same
/// response, in either mode.
pub proof fn lemma_envelope_round_trip<T: Item>(response: ResponseModel<T::V>, strict: bool)
    ensures
        decoded_envelope::<T>(encoded_envelope::<T>(response), strict) == Ok::<
            ResponseModel<T::V>,
            ParseError,
        >(response),
{
    reveal_strlit("data");
    reveal_strlit("pagination");
    reveal_strlit("total");
    reveal_strlit("cursor");
    reveal_with_fuel(first_with_key, 4);
    let value = encoded_envelope::<T>(response);
    let keys = envelope_keys();
    let pagination = JsonValue::Object(pagination_keys(), seq![encoded_cursor(response.cursor)]);
    assert(keys[0] == "data"@ && keys[1] == "pagination"@ && keys[2] == "total"@);
    assert(pagination_keys()[0] == "cursor"@);
    assert(value.is_object_within(keys));
    assert(pagination.is_object_within(pagination_keys()));
    assert(keys.drop_first() == seq!["pagination"@, "total"@]);
    assert(keys.drop_first().drop_first() == seq!["total"@]);
    assert("data"@ != "pagination"@ && "data"@ != "total"@ && "pagination"@ != "total"@) by {
        assert("data"@.len() == 4 && "pagination"@.len() == 10 && "total"@.len() == 5);
    }
    assert(value.member("data"@) == Some(JsonValue::Array(encoded_all::<T>(response.data))));
    assert(value.member("pagination"@) == Some(pagination));
    assert(value.member("total"@) == Some(encoded_total(response.total)));
    assert(pagination.member("cursor"@) == Some(encoded_cursor(response.cursor)));
    assert(decoded_cursor(value, strict) == Some(response.cursor));
    if response.total is Some {
        lemma_decimal_round_trip(response.total.unwrap());
    }
    assert(decoded_total(value) == Some(response.total));
    lemma_encoded_all_decodable::<T>(response.data, strict);
}

} // verus!
