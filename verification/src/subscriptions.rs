//! Checks if a specific user is subscribed to a specific channel.
use crate::json::{lemma_member_at, member_keys, member_values, Json, JsonValue};
use crate::query::{QueryParam, QueryParamModel, QueryValue, QueryValueModel};
use crate::request::Request;
use crate::response::Item;
use crate::scope::Scope;
use crate::text::{copy_texts, option_view, views};
use crate::transport::Method;
use crate::types::SubscriptionTier;
use vstd::prelude::*;
use vstd::string::*;

verus! {

/// Return values of Check User Subscription.
#[derive(Clone, Debug, PartialEq, Eq)]
#[non_exhaustive]
pub struct UserSubscription {
    /// User ID of the broadcaster.
    pub broadcaster_id: String,
    /// Login of the broadcaster.
    pub broadcaster_login: String,
    /// Display name of the broadcaster.
    pub broadcaster_name: String,
    /// Indicates if the subscription is a gift.
    pub is_gift: bool,
    /// Login of the gifter (if `is_gift` is true).
    pub gifter_login: Option<String>,
    /// Display name of the gifter (if `is_gift` is true).
    pub gifter_name: Option<String>,
    /// Subscription tier. 1000 is tier 1, 2000 is tier 2, and 3000 is tier 3.
    pub tier: SubscriptionTier,
}

/// Mathematical model of a [`UserSubscription`]. The tier is its text on
/// the wire.
pub ghost struct UserSubscriptionModel {
    pub broadcaster_id: Seq<char>,
    pub broadcaster_login: Seq<char>,
    pub broadcaster_name: Seq<char>,
    pub is_gift: bool,
    pub gifter_login: Option<Seq<char>>,
    pub gifter_name: Option<Seq<char>>,
    pub tier: Seq<char>,
}

impl View for UserSubscription {
    type V = UserSubscriptionModel;

    open spec fn view(&self) -> UserSubscriptionModel {
        UserSubscriptionModel {
            broadcaster_id: self.broadcaster_id@,
            broadcaster_login: self.broadcaster_login@,
            broadcaster_name: self.broadcaster_name@,
            is_gift: self.is_gift,
            gifter_login: option_view(self.gifter_login),
            gifter_name: option_view(self.gifter_name),
            tier: self.tier@,
        }
    }
}

impl UserSubscription {
    /// The subscription with the given fields.
    pub fn new(
        broadcaster_id: String,
        broadcaster_login: String,
        broadcaster_name: String,
        is_gift: bool,
        gifter_login: Option<String>,
        gifter_name: Option<String>,
        tier: SubscriptionTier,
    ) -> (subscription: UserSubscription)
        ensures
            subscription == (UserSubscription {
                broadcaster_id,
                broadcaster_login,
                broadcaster_name,
                is_gift,
                gifter_login,
                gifter_name,
                tier,
            }),
    {
        UserSubscription {
            broadcaster_id,
            broadcaster_login,
            broadcaster_name,
            is_gift,
            gifter_login,
            gifter_name,
            tier,
        }
    }
}

/// The members of a subscription.
pub open spec fn subscription_keys() -> Seq<Seq<char>> {
    seq![
        "broadcaster_id"@,
        "broadcaster_login"@,
        "broadcaster_name"@,
        "is_gift"@,
        "gifter_login"@,
        "gifter_name"@,
        "tier"@,
    ]
}

/// The JSON value of a text that may be absent: `null` where it is.
pub open spec fn optional_text_value(text: Option<Seq<char>>) -> JsonValue {
    match text {
        Some(t) => JsonValue::Text(t),
        None => JsonValue::Null,
    }
}

impl Item for UserSubscription {
    open spec fn decoded(value: JsonValue, strict: bool) -> Option<UserSubscriptionModel> {
        if strict && !value.is_object_within(subscription_keys()) {
            None
        } else {
            match (
                value.text_member("broadcaster_id"@),
                value.text_member("broadcaster_login"@),
                value.text_member("broadcaster_name"@),
                value.bool_member("is_gift"@),
                value.optional_text_member("gifter_login"@),
                value.optional_text_member("gifter_name"@),
                value.text_member("tier"@),
            ) {
                (
                    Some(broadcaster_id),
                    Some(broadcaster_login),
                    Some(broadcaster_name),
                    Some(is_gift),
                    Some(gifter_login),
                    Some(gifter_name),
                    Some(tier),
                ) => Some(
                    UserSubscriptionModel {
                        broadcaster_id,
                        broadcaster_login,
                        broadcaster_name,
                        is_gift,
                        gifter_login,
                        gifter_name,
                        tier,
                    },
                ),
                _ => None,
            }
        }
    }

    open spec fn encoded(item: UserSubscriptionModel) -> JsonValue {
        JsonValue::Object(
            subscription_keys(),
            seq![
                JsonValue::Text(item.broadcaster_id),
                JsonValue::Text(item.broadcaster_login),
                JsonValue::Text(item.broadcaster_name),
                JsonValue::Bool(item.is_gift),
                optional_text_value(item.gifter_login),
                optional_text_value(item.gifter_name),
                JsonValue::Text(item.tier),
            ],
        )
    }

    fn from_json(value: &Json, strict: bool) -> (r: Option<UserSubscription>) {
        if strict {
            let known: Vec<&str> = vec![
                "broadcaster_id",
                "broadcaster_login",
                "broadcaster_name",
                "is_gift",
                "gifter_login",
                "gifter_name",
                "tier",
            ];
            assert(views(known@) == subscription_keys());
            if !value.is_object_within(&known) {
                return None;
            }
        }
        let broadcaster_id = match value.text_member("broadcaster_id") {
            Some(text) => text,
            None => {
                return None;
            },
        };
        let broadcaster_login = match value.text_member("broadcaster_login") {
            Some(text) => text,
            None => {
                return None;
            },
        };
        let broadcaster_name = match value.text_member("broadcaster_name") {
            Some(text) => text,
            None => {
                return None;
            },
        };
        let is_gift = match value.bool_member("is_gift") {
            Some(flag) => flag,
            None => {
                return None;
            },
        };
        let gifter_login = match value.optional_text_member("gifter_login") {
            Some(text) => text,
            None => {
                return None;
            },
        };
        let gifter_name = match value.optional_text_member("gifter_name") {
            Some(text) => text,
            None => {
                return None;
            },
        };
        let tier = match value.text_member("tier") {
            Some(text) => SubscriptionTier::from_text(text.as_str()),
            None => {
                return None;
            },
        };
        Some(
            UserSubscription {
                broadcaster_id,
                broadcaster_login,
                broadcaster_name,
                is_gift,
                gifter_login,
                gifter_name,
                tier,
            },
        )
    }

    fn to_json(&self) -> (json: Json) {
        let gifter_login = match &self.gifter_login {
            Some(text) => Json::text(text.as_str()),
            None => Json::Null,
        };
        let gifter_name = match &self.gifter_name {
            Some(text) => Json::text(text.as_str()),
            None => Json::Null,
        };
        let members = vec![
            ("broadcaster_id".to_owned(), Json::text(self.broadcaster_id.as_str())),
            ("broadcaster_login".to_owned(), Json::text(self.broadcaster_login.as_str())),
            ("broadcaster_name".to_owned(), Json::text(self.broadcaster_name.as_str())),
            ("is_gift".to_owned(), Json::Bool(self.is_gift)),
            ("gifter_login".to_owned(), gifter_login),
            ("gifter_name".to_owned(), gifter_name),
            ("tier".to_owned(), Json::text(self.tier.as_str())),
        ];
        proof {
            assert(member_keys(members@) =~= subscription_keys());
            assert(member_values(members@) =~= Self::encoded(self@)->Object_1);
        }
        Json::object(members)
    }

    proof fn lemma_round_trip(item: UserSubscriptionModel, strict: bool) {
        reveal_strlit("broadcaster_id");
        reveal_strlit("broadcaster_login");
        reveal_strlit("broadcaster_name");
        reveal_strlit("is_gift");
        reveal_strlit("gifter_login");
        reveal_strlit("gifter_name");
        reveal_strlit("tier");
        let value = Self::encoded(item);
        let keys = subscription_keys();
        let values = value->Object_1;
        assert(keys[0].len() == 14 && keys[1].len() == 17 && keys[2].len() == 16 && keys[3].len()
            == 7 && keys[4].len() == 12 && keys[5].len() == 11 && keys[6].len() == 4);
        assert(value.is_object_within(keys));
        lemma_member_at(keys, values, 0);
        lemma_member_at(keys, values, 1);
        lemma_member_at(keys, values, 2);
        lemma_member_at(keys, values, 3);
        lemma_member_at(keys, values, 4);
        lemma_member_at(keys, values, 5);
        lemma_member_at(keys, values, 6);
    }
}

/// Query parameters of Check User Subscription.
#[derive(Clone, Debug, PartialEq, Eq)]
#[non_exhaustive]
pub struct CheckUserSubscriptionRequest {
    /// User ID of the broadcaster.
    pub broadcaster_id: String,
    /// User IDs to check, of users that granted the scope.
    pub user_id: Vec<String>,
}

/// Collects the fields of a [`CheckUserSubscriptionRequest`] until the
/// broadcaster is set, without which there is no request.
pub struct CheckUserSubscriptionRequestStart {
    user_id: Vec<String>,
}

/// Collects the fields of a [`CheckUserSubscriptionRequest`] once the
/// broadcaster is set.
pub struct CheckUserSubscriptionRequestBuilder {
    broadcaster_id: String,
    user_id: Vec<String>,
}

impl CheckUserSubscriptionRequestStart {
    /// The user IDs that were set so far.
    pub closed spec fn pending_user_id(self) -> Vec<String> {
        self.user_id
    }

    /// Sets the user IDs.
    pub fn user_id(self, user_id: Vec<String>) -> (start: CheckUserSubscriptionRequestStart)
        ensures
            start.pending_user_id() == user_id,
    {
        CheckUserSubscriptionRequestStart { user_id }
    }

    /// Sets the broadcaster.
    pub fn broadcaster_id(self, broadcaster_id: &str) -> (builder:
        CheckUserSubscriptionRequestBuilder)
        ensures
            builder.pending().broadcaster_id@ == broadcaster_id@,
            builder.pending().user_id == self.pending_user_id(),
    {
        CheckUserSubscriptionRequestBuilder {
            broadcaster_id: broadcaster_id.to_owned(),
            user_id: self.user_id,
        }
    }
}

impl CheckUserSubscriptionRequestBuilder {
    /// The request that [`CheckUserSubscriptionRequestBuilder::build`] would
    /// give now.
    pub closed spec fn pending(self) -> CheckUserSubscriptionRequest {
        CheckUserSubscriptionRequest { broadcaster_id: self.broadcaster_id, user_id: self.user_id }
    }

    /// Sets the user IDs.
    pub fn user_id(self, user_id: Vec<String>) -> (builder: CheckUserSubscriptionRequestBuilder)
        ensures
            builder.pending().broadcaster_id == self.pending().broadcaster_id,
            builder.pending().user_id == user_id,
    {
        CheckUserSubscriptionRequestBuilder { broadcaster_id: self.broadcaster_id, user_id }
    }

    /// The request with the fields as they were set.
    pub fn build(self) -> (request: CheckUserSubscriptionRequest)
        ensures
            request == self.pending(),
    {
        CheckUserSubscriptionRequest { broadcaster_id: self.broadcaster_id, user_id: self.user_id }
    }
}

impl CheckUserSubscriptionRequest {
    /// A builder with no user IDs and the broadcaster still to be set.
    pub fn builder() -> (start: CheckUserSubscriptionRequestStart)
        ensures
            start.pending_user_id()@.len() == 0,
    {
        CheckUserSubscriptionRequestStart { user_id: Vec::new() }
    }
}

impl Request for CheckUserSubscriptionRequest {
    type Item = UserSubscription;

    open spec fn spec_method(&self) -> Method {
        Method::Get
    }

    open spec fn spec_path(&self) -> Seq<char> {
        "subscriptions/user"@
    }

    open spec fn spec_scopes(&self) -> Seq<Seq<char>> {
        seq!["user:read:subscriptions"@]
    }

    open spec fn spec_query(&self) -> Seq<QueryParamModel> {
        seq![
            QueryParamModel {
                name: "broadcaster_id"@,
                value: QueryValueModel::Absentable(Some(self.broadcaster_id@)),
            },
            QueryParamModel {
                name: "user_id"@,
                value: QueryValueModel::Repeated(views(self.user_id@)),
            },
        ]
    }

    fn method(&self) -> (method: Method) {
        Method::Get
    }

    fn path(&self) -> (path: &'static str) {
        "subscriptions/user"
    }

    fn required_scopes(&self) -> (scopes: Vec<Scope>) {
        let scopes = vec![Scope::new("user:read:subscriptions")];
        assert(views(scopes@) =~= self.spec_scopes());
        scopes
    }

    fn query(&self) -> (params: Vec<QueryParam>) {
        let params = vec![
            QueryParam {
                name: "broadcaster_id".to_owned(),
                value: QueryValue::Absentable(Some(self.broadcaster_id.clone())),
            },
            QueryParam {
                name: "user_id".to_owned(),
                value: QueryValue::Repeated(copy_texts(&self.user_id)),
            },
        ];
        assert(views(params@) =~= self.spec_query());
        params
    }
}

} // verus!
