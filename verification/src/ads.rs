//! The recommended-content list: which entries of a downloaded ad list are shown.
use vstd::prelude::*;

use crate::json_model::{
    json_array_at, json_array_field, json_str_at, json_str_field, json_u64_at, json_u64_field,
    json_value, json_values, JsonModel,
};
use crate::text::{str_eq, trim_spec, trim_str};

verus! {

/// The list as it is handed to the page.
#[derive(Debug)]
pub struct NormalizedAds {
    pub version: u64,
    pub ads: Vec<serde_json::Value>,
}

/// A field that is present as a string and not blank.
pub open spec fn is_filled(field: Option<Seq<char>>) -> bool {
    field matches Some(v) && trim_spec(v).len() > 0
}

/// An entry is shown when its `type` is `sponsor` or `normal` and its
/// `title`, `description` and `url` are strings that are not blank.
pub open spec fn ad_is_shown(ad: JsonModel) -> bool {
    &&& json_str_field(ad, "type"@) matches Some(t) && (t == "sponsor"@ || t == "normal"@)
    &&& is_filled(json_str_field(ad, "title"@))
    &&& is_filled(json_str_field(ad, "description"@))
    &&& is_filled(json_str_field(ad, "url"@))
}

/// The shown entries, in order.
pub open spec fn shown_ads(ads: Seq<JsonModel>) -> Seq<JsonModel>
    decreases ads.len(),
{
    if ads.len() == 0 {
        Seq::empty()
    } else if ad_is_shown(ads.last()) {
        shown_ads(ads.drop_last()).push(ads.last())
    } else {
        shown_ads(ads.drop_last())
    }
}

/// An entry is complete: its `type` is `sponsor` or `normal`, and its
/// `title`, `description` and `url` are strings that are not blank.
proof fn lemma_shown_iff_complete(ad: JsonModel)
    ensures
        ad_is_shown(ad) <==> {
            &&& json_str_field(ad, "type"@) matches Some(t) && (t == "sponsor"@ || t == "normal"@)
            &&& json_str_field(ad, "title"@) matches Some(v) && trim_spec(v).len() > 0
            &&& json_str_field(ad, "description"@) matches Some(v) && trim_spec(v).len() > 0
            &&& json_str_field(ad, "url"@) matches Some(v) && trim_spec(v).len() > 0
        },
{
}

/// The shown entries are exactly the complete entries of the list, in their
/// order: each shown entry is one of the list's entries, with a `type` of
/// `sponsor` or `normal` and a `title`, `description` and `url` that are
/// strings and not blank; and every such entry of the list is shown.
pub proof fn shown_ads_are_the_complete_entries(ads: Seq<JsonModel>)
    ensures
        forall|i: int|
            0 <= i < shown_ads(ads).len() ==> {
                let e = #[trigger] shown_ads(ads)[i];
                &&& ads.contains(e)
                &&& json_str_field(e, "type"@) matches Some(t) && (t == "sponsor"@ || t == "normal"@)
                &&& json_str_field(e, "title"@) matches Some(v) && trim_spec(v).len() > 0
                &&& json_str_field(e, "description"@) matches Some(v) && trim_spec(v).len() > 0
                &&& json_str_field(e, "url"@) matches Some(v) && trim_spec(v).len() > 0
            },
        forall|i: int|
            0 <= i < ads.len() && (json_str_field(#[trigger] ads[i], "type"@) matches Some(t) && (t
                == "sponsor"@ || t == "normal"@)) && (json_str_field(ads[i], "title"@) matches Some(
                v,
            ) && trim_spec(v).len() > 0) && (json_str_field(ads[i], "description"@) matches Some(v)
                && trim_spec(v).len() > 0) && (json_str_field(ads[i], "url"@) matches Some(v)
                && trim_spec(v).len() > 0) ==> shown_ads(ads).contains(ads[i]),
        shown_ads(ads).len() <= ads.len(),
    decreases ads.len(),
{
    if ads.len() > 0 {
        let rest = ads.drop_last();
        shown_ads_are_the_complete_entries(rest);
        lemma_shown_iff_complete(ads.last());
        let sr = shown_ads(rest);
        assert forall|i: int| 0 <= i < sr.len() implies ads.contains(#[trigger] sr[i]) by {
            let j = choose|j: int| 0 <= j < rest.len() && rest[j] == sr[i];
            assert(ads[j] == rest[j]);
        }
        assert forall|i: int|
            0 <= i < ads.len() && (json_str_field(#[trigger] ads[i], "type"@) matches Some(t) && (t
                == "sponsor"@ || t == "normal"@)) && (json_str_field(ads[i], "title"@) matches Some(
                v,
            ) && trim_spec(v).len() > 0) && (json_str_field(ads[i], "description"@) matches Some(v)
                && trim_spec(v).len() > 0) && (json_str_field(ads[i], "url"@) matches Some(v)
                && trim_spec(v).len() > 0) implies shown_ads(ads).contains(ads[i]) by {
            lemma_shown_iff_complete(ads[i]);
            if i < ads.len() - 1 {
                assert(ads[i] == rest[i]);
                let j = choose|j: int| 0 <= j < sr.len() && sr[j] == rest[i];
                if ad_is_shown(ads.last()) {
                    assert(shown_ads(ads)[j] == sr[j]);
                } else {
                    assert(shown_ads(ads)[j] == sr[j]);
                }
            } else {
                assert(shown_ads(ads).last() == ads.last());
                assert(shown_ads(ads)[shown_ads(ads).len() - 1] == ads[i]);
            }
        }
    }
}

/// Filtering keeps the list's order: an entry added at the end of the list is
/// shown last where it is complete (a `sponsor` or `normal` ad with a title, a
/// description and a URL that are not blank), and changes nothing otherwise.
pub proof fn shown_ads_keep_the_list_order(ads: Seq<JsonModel>, ad: JsonModel)
    ensures
        shown_ads(ads.push(ad)) == if (json_str_field(ad, "type"@) matches Some(t) && (t
            == "sponsor"@ || t == "normal"@)) && (json_str_field(ad, "title"@) matches Some(v)
            && trim_spec(v).len() > 0) && (json_str_field(ad, "description"@) matches Some(v)
            && trim_spec(v).len() > 0) && (json_str_field(ad, "url"@) matches Some(v) && trim_spec(
            v,
        ).len() > 0) {
            shown_ads(ads).push(ad)
        } else {
            shown_ads(ads)
        },
{
    lemma_shown_iff_complete(ad);
    assert(ads.push(ad).drop_last() =~= ads);
}

fn filled(field: Option<&str>) -> (res: bool)
    ensures
        res == is_filled(match field {
            Some(v) => Some(v@),
            None => None,
        }),
{
    match field {
        Some(v) => !trim_str(v).as_str().is_empty(),
        None => false,
    }
}

fn shown(ad: &serde_json::Value) -> (res: bool)
    ensures
        res == ad_is_shown(json_value(*ad)),
{
    let kind_ok = match json_str_at(ad, "type") {
        Some(t) => str_eq(t, "sponsor") || str_eq(t, "normal"),
        None => false,
    };
    kind_ok && filled(json_str_at(ad, "title")) && filled(json_str_at(ad, "description")) && filled(
        json_str_at(ad, "url"),
    )
}

/// `serde_json::Value::clone` (derived): an equal value.
pub assume_specification[ <serde_json::Value as Clone>::clone ](v: &serde_json::Value) -> (res:
    serde_json::Value)
    ensures
        res == *v,
;

/// The ad list as it is shown: its `version` (1 where it is not an unsigned
/// integer) and the entries of its `ads` array that are complete `sponsor` or
/// `normal` ads, in order and unchanged.
pub fn normalize_ad_payload(payload: &serde_json::Value) -> (res: NormalizedAds)
    ensures
        res.version == match json_u64_field(json_value(*payload), "version"@) {
            Some(v) => v,
            None => 1,
        },
        json_values(res.ads@) == match json_array_field(json_value(*payload), "ads"@) {
            Some(a) => shown_ads(a),
            None => Seq::empty(),
        },
{
    let version = match json_u64_at(payload, "version") {
        Some(v) => v,
        None => 1,
    };
    let mut ads: Vec<serde_json::Value> = Vec::new();
    if let Some(entries) = json_array_at(payload, "ads") {
        let ghost items = json_values(entries@);
        let mut i: usize = 0;
        while i < entries.len()
            invariant
                i <= entries.len(),
                items == json_values(entries@),
                json_values(ads@) == shown_ads(items.take(i as int)),
            decreases entries.len() - i,
        {
            assert(items.take(i + 1).drop_last() =~= items.take(i as int));
            assert(items.take(i + 1).last() == json_value(entries@[i as int]));
            if shown(&entries[i]) {
                let ghost before = ads@;
                ads.push(entries[i].clone());
                assert(json_values(ads@) =~= json_values(before).push(json_value(entries@[i as int])));
            }
            i = i + 1;
        }
        assert(items.take(entries.len() as int) =~= items);
    } else {
        assert(json_values(ads@) =~= Seq::<JsonModel>::empty());
    }
    NormalizedAds { version, ads }
}

} // verus!
