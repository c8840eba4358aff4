//! Types that several endpoints share.
use crate::json::{first_with_key, member_keys, member_values, Json, JsonValue};
use crate::response::Item;
use crate::text::{option_view, same_text, views};
use vstd::prelude::*;
use vstd::string::*;

verus! {

/// A game or category on Twitch.
#[derive(Clone, Debug, PartialEq, Eq)]
pub struct TwitchCategory {
    /// Template URL for the box art.
    pub box_art_url: String,
    /// The identifier of the category.
    pub id: String,
    /// The name of the category.
    pub name: String,
}

/// Mathematical model of a [`TwitchCategory`].
pub ghost struct TwitchCategoryModel {
    pub box_art_url: Seq<char>,
    pub id: Seq<char>,
    pub name: Seq<char>,
}

impl View for TwitchCategory {
    type V = TwitchCategoryModel;

    open spec fn view(&self) -> TwitchCategoryModel {
        TwitchCategoryModel { box_art_url: self.box_art_url@, id: self.id@, name: self.name@ }
    }
}

/// The members of a category.
pub open spec fn category_keys() -> Seq<Seq<char>> {
    seq!["box_art_url"@, "id"@, "name"@]
}

impl Item for TwitchCategory {
    open spec fn decoded(value: JsonValue, strict: bool) -> Option<TwitchCategoryModel> {
        if strict && !value.is_object_within(category_keys()) {
            None
        } else {
            match (
                value.text_member("box_art_url"@),
                value.text_member("id"@),
                value.text_member("name"@),
            ) {
                (Some(box_art_url), Some(id), Some(name)) => Some(
                    TwitchCategoryModel { box_art_url, id, name },
                ),
                _ => None,
            }
        }
    }

    open spec fn encoded(item: TwitchCategoryModel) -> JsonValue {
        JsonValue::Object(
            category_keys(),
            seq![
                JsonValue::Text(item.box_art_url),
                JsonValue::Text(item.id),
                JsonValue::Text(item.name),
            ],
        )
    }

    fn from_json(value: &Json, strict: bool) -> (r: Option<TwitchCategory>) {
        if strict {
            let known: Vec<&str> = vec!["box_art_url", "id", "name"];
            assert(views(known@) == category_keys());
            if !value.is_object_within(&known) {
                return None;
            }
        }
        let box_art_url = match value.text_member("box_art_url") {
            Some(text) => text,
            None => {
                return None;
            },
        };
        let id = match value.text_member("id") {
            Some(text) => text,
            None => {
                return None;
            },
        };
        let name = match value.text_member("name") {
            Some(text) => text,
            None => {
                return None;
            },
        };
        Some(TwitchCategory { box_art_url, id, name })
    }

    fn to_json(&self) -> (json: Json) {
        let members = vec![
            ("box_art_url".to_owned(), Json::text(self.box_art_url.as_str())),
            ("id".to_owned(), Json::text(self.id.as_str())),
            ("name".to_owned(), Json::text(self.name.as_str())),
        ];
        proof {
            assert(member_keys(members@) =~= category_keys());
            assert(member_values(members@) =~= Self::encoded(self@)->Object_1);
        }
        Json::object(members)
    }

    proof fn lemma_round_trip(item: TwitchCategoryModel, strict: bool) {
        reveal_strlit("box_art_url");
        reveal_strlit("id");
        reveal_strlit("name");
        reveal_with_fuel(first_with_key, 4);
        let value = Self::encoded(item);
        let keys = category_keys();
        assert(keys[0] == "box_art_url"@ && keys[1] == "id"@ && keys[2] == "name"@);
        assert(value.is_object_within(keys));
        assert(keys.drop_first() == seq!["id"@, "name"@]);
        assert(keys.drop_first().drop_first() == seq!["name"@]);
        assert("box_art_url"@.len() == 11 && "id"@.len() == 2 && "name"@.len() == 4);
        assert(value.member("box_art_url"@) == Some(JsonValue::Text(item.box_art_url)));
        assert(value.member("id"@) == Some(JsonValue::Text(item.id)));
        assert(value.member("name"@) == Some(JsonValue::Text(item.name)));
    }
}

/// The tier of a subscription. A tier is known by its text on the wire:
/// `Other` holding the text of a named tier stands for that tier.
#[derive(Clone, Debug, PartialEq, Eq)]
pub enum SubscriptionTier {
    /// Tier 1, `1000` on the wire.
    Tier1,
    /// Tier 2, `2000` on the wire.
    Tier2,
    /// Tier 3, `3000` on the wire.
    Tier3,
    /// A Prime subscription, `Prime` on the wire.
    Prime,
    /// A tier that this crate has no name for.
    Other(String),
}

impl View for SubscriptionTier {
    type V = Seq<char>;

    open spec fn view(&self) -> Seq<char> {
        match self {
            SubscriptionTier::Tier1 => "1000"@,
            SubscriptionTier::Tier2 => "2000"@,
            SubscriptionTier::Tier3 => "3000"@,
            SubscriptionTier::Prime => "Prime"@,
            SubscriptionTier::Other(text) => text@,
        }
    }
}

impl SubscriptionTier {
    /// The tier that a text on the wire stands for: the named tier where
    /// there is one for the text, else `Other` with the text.
    pub fn from_text(text: &str) -> (tier: SubscriptionTier)
        ensures
            tier@ == text@,
            text@ == "1000"@ <==> tier is Tier1,
            text@ == "2000"@ <==> tier is Tier2,
            text@ == "3000"@ <==> tier is Tier3,
            text@ == "Prime"@ <==> tier is Prime,
    {
        proof {
            reveal_strlit("1000");
            reveal_strlit("2000");
            reveal_strlit("3000");
            reveal_strlit("Prime");
            assert("1000"@[0] == '1' && "2000"@[0] == '2' && "3000"@[0] == '3' && "Prime"@[0]
                == 'P');
        }
        if same_text(text, "1000") {
            SubscriptionTier::Tier1
        } else if same_text(text, "2000") {
            SubscriptionTier::Tier2
        } else if same_text(text, "3000") {
            SubscriptionTier::Tier3
        } else if same_text(text, "Prime") {
            SubscriptionTier::Prime
        } else {
            SubscriptionTier::Other(text.to_owned())
        }
    }

    /// The text of the tier on the wire.
    pub fn as_str(&self) -> (text: &str)
        ensures
            text@ == self@,
    {
        match self {
            SubscriptionTier::Tier1 => "1000",
            SubscriptionTier::Tier2 => "2000",
            SubscriptionTier::Tier3 => "3000",
            SubscriptionTier::Prime => "Prime",
            SubscriptionTier::Other(text) => text.as_str(),
        }
    }
}

} // verus!
