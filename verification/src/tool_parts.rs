//! The parts of tool definitions: locations, search filters, containers,
//! network policies, environments, skills, MCP rules, input formats and
//! namespace entries, each read from JSON as its derived `Deserialize`
//! reads it (see [`crate::fields`]).
//!
//! A choice between shapes (a container, a filter, a format) takes the
//! first shape that reads. A choice by a `type` tag reads the tag, then
//! the rest of the object (or of the array, after its first element) as
//! the tagged variant.
use vstd::prelude::*;
use crate::fields::{
    field_at, field_of, float_member, o_view, oo_view, opt_any, opt_any_member, opt_bool,
    opt_float, opt_float_member, opt_string, opt_strings, opt_strings_member, opt_vec_view,
    req_float, req_string, req_strings, req_value, strings_member, struct_form, struct_form_ok,
    value_member, vec_view,
};
use crate::items::{opt_string_member, string_member};
use crate::json::{copy_json, fields_remove, owned, remove_field, str_eq};
use crate::value::{fields_view, group_json_view, seq_view, Json, JsonV, Number, NumberV};
use crate::ws::{opt_bool_member, opt_ref_view};

verus! {

broadcast use group_json_view;

// ─── Structs that refuse members they do not know ───────────────────────

/// The member names of a struct that refuses any other member.
#[derive(Clone, Copy)]
pub enum KnownKeys {
    ContainerAuto,
    ContainerReference,
    FormatText,
    NamespaceFunction,
    NamespaceCustom,
}

pub open spec fn known_key(ks: KnownKeys, k: Seq<char>) -> bool {
    match ks {
        KnownKeys::ContainerAuto => k == "type"@ || k == "file_ids"@ || k == "memory_limit"@
            || k == "network_policy"@,
        KnownKeys::ContainerReference => k == "type"@ || k == "container_id"@,
        KnownKeys::FormatText => k == "type"@,
        KnownKeys::NamespaceFunction => k == "name"@ || k == "description"@ || k == "parameters"@
            || k == "strict"@,
        KnownKeys::NamespaceCustom => k == "name"@ || k == "description"@ || k == "format"@,
    }
}

/// The members of an object; other values have none.
pub open spec fn members(v: JsonV) -> Seq<(Seq<char>, JsonV)> {
    match v {
        JsonV::Object(f) => f,
        _ => Seq::empty(),
    }
}

/// Every member of an object is known; an array has no member names.
pub open spec fn keys_within(v: JsonV, ks: KnownKeys) -> bool {
    forall|i: int| 0 <= i < members(v).len() ==> known_key(ks, (#[trigger] members(v)[i]).0)
}

pub(crate) fn is_known_key(ks: KnownKeys, k: &str) -> (r: bool)
    ensures
        r == known_key(ks, k@),
{
    match ks {
        KnownKeys::ContainerAuto => str_eq(k, "type") || str_eq(k, "file_ids") || str_eq(
            k,
            "memory_limit",
        ) || str_eq(k, "network_policy"),
        KnownKeys::ContainerReference => str_eq(k, "type") || str_eq(k, "container_id"),
        KnownKeys::FormatText => str_eq(k, "type"),
        KnownKeys::NamespaceFunction => str_eq(k, "name") || str_eq(k, "description") || str_eq(
            k,
            "parameters",
        ) || str_eq(k, "strict"),
        KnownKeys::NamespaceCustom => str_eq(k, "name") || str_eq(k, "description") || str_eq(
            k,
            "format",
        ),
    }
}

pub(crate) fn keys_within_ok(v: &Json, ks: KnownKeys) -> (r: bool)
    ensures
        r == keys_within(v@, ks),
{
    match v {
        Json::Object(f) => {
            let ghost fv = fields_view(f@);
            let mut i: usize = 0;
            while i < f.len()
                invariant
                    i <= f@.len(),
                    fv == fields_view(f@),
                    members(v@) == fv,
                    forall|j: int| 0 <= j < i ==> known_key(ks, (#[trigger] fv[j]).0),
                decreases f.len() - i,
            {
                assert(fv[i as int].0 == f@[i as int].0@);
                if !is_known_key(ks, f[i].0.as_str()) {
                    assert((i as int) < fv.len() && !known_key(ks, fv[i as int].0));
                    return false;
                }
                i = i + 1;
            }
            true
        },
        _ => true,
    }
}

// ─── Choices by a `type` tag ────────────────────────────────────────────

/// The tag and the rest: an object's `type` member and its other members,
/// or an array's first element and the elements after it.
pub open spec fn tag_and_body(v: JsonV) -> Option<(JsonV, JsonV)> {
    match v {
        JsonV::Object(f) => match v.get("type"@) {
            Some(t) => Some((t, JsonV::Object(fields_remove(f, "type"@)))),
            None => None,
        },
        JsonV::Array(a) => if a.len() >= 1 {
            Some((a[0], JsonV::Array(a.skip(1))))
        } else {
            None
        },
        _ => None,
    }
}

pub(crate) fn split_tag(v: &Json) -> (r: Option<(Json, Json)>)
    ensures
        match r {
            Some(p) => tag_and_body(v@) == Some((p.0@, p.1@)),
            None => tag_and_body(v@) is None,
        },
{
    match v {
        Json::Object(f) => {
            let mut rest: Vec<(String, Json)> = Vec::new();
            let mut i: usize = 0;
            while i < f.len()
                invariant
                    i <= f@.len(),
                    rest@.len() == i,
                    forall|k: int| 0 <= k < i ==> (#[trigger] rest@[k]).0@ == f@[k].0@
                        && rest@[k].1@ == f@[k].1@,
                decreases f.len() - i,
            {
                rest.push((f[i].0.clone(), copy_json(&f[i].1)));
                i = i + 1;
            }
            assert(fields_view(rest@) =~= fields_view(f@)) by {
                assert forall|k: int| 0 <= k < rest@.len() implies fields_view(rest@)[k]
                    == fields_view(f@)[k] by {
                    assert(rest@[k].0@ == f@[k].0@);
                }
            }
            match remove_field(&mut rest, "type") {
                Some(t) => Some((t, Json::Object(rest))),
                None => None,
            }
        },
        Json::Array(a) => {
            if a.len() == 0 {
                return None;
            }
            let mut rest: Vec<Json> = Vec::new();
            let mut i: usize = 1;
            while i < a.len()
                invariant
                    1 <= i <= a@.len(),
                    rest@.len() == i - 1,
                    forall|k: int| 0 <= k < i - 1 ==> (#[trigger] rest@[k])@ == a@[k + 1]@,
                decreases a.len() - i,
            {
                rest.push(copy_json(&a[i]));
                i = i + 1;
            }
            assert(seq_view(rest@) =~= seq_view(a@).skip(1));
            Some((copy_json(&a[0]), Json::Array(rest)))
        },
        _ => None,
    }
}

/// A tag names a variant by its name or, where the tag is read from a
/// buffered value, by the variant's position.
pub open spec fn tag_is(t: JsonV, name: Seq<char>, pos: u64, by_position: bool) -> bool {
    t == JsonV::Str(name) || (by_position && t == JsonV::Number(NumberV::PosInt(pos)))
}

pub(crate) fn tag_matches(t: &Json, name: &str, pos: u64, by_position: bool) -> (r: bool)
    ensures
        r == tag_is(t@, name@, pos, by_position),
{
    match t {
        Json::String(s) => str_eq(s.as_str(), name),
        Json::Number(Number::PosInt(n)) => by_position && *n == pos,
        _ => false,
    }
}

/// The rest after the tag of a variant without fields: any object, or an
/// empty array.
pub open spec fn unit_body(b: JsonV) -> bool {
    match b {
        JsonV::Object(_) => true,
        JsonV::Array(a) => a.len() == 0,
        _ => false,
    }
}

pub(crate) fn unit_body_ok(b: &Json) -> (r: bool)
    ensures
        r == unit_body(b@),
{
    match b {
        Json::Object(_) => true,
        Json::Array(a) => a.len() == 0,
        _ => false,
    }
}


// ─── Locations, masks, secrets, skills, ranking ─────────────────────────

/// The user's approximate location, for tuning search results.
#[derive(Debug)]
pub struct UserLocation {
    pub location_type: Option<String>,
    pub city: Option<String>,
    pub country: Option<String>,
    pub region: Option<String>,
    pub timezone: Option<String>,
}

pub ghost struct UserLocationV {
    pub location_type: Option<Seq<char>>,
    pub city: Option<Seq<char>>,
    pub country: Option<Seq<char>>,
    pub region: Option<Seq<char>>,
    pub timezone: Option<Seq<char>>,
}

impl View for UserLocation {
    type V = UserLocationV;

    open spec fn view(&self) -> UserLocationV {
        UserLocationV {
            location_type: o_view(self.location_type),
            city: o_view(self.city),
            country: o_view(self.country),
            region: o_view(self.region),
            timezone: o_view(self.timezone),
        }
    }
}

/// How `UserLocation` reads from `v`; `None` where it does not.
pub open spec fn user_location_of(v: JsonV) -> Option<UserLocationV> {
    let location_type = opt_string_member(field_at(v, "type"@, 0));
    let city = opt_string_member(field_at(v, "city"@, 1));
    let country = opt_string_member(field_at(v, "country"@, 2));
    let region = opt_string_member(field_at(v, "region"@, 3));
    let timezone = opt_string_member(field_at(v, "timezone"@, 4));
    if struct_form(v, 5, 5)
        && location_type is Some
        && city is Some
        && country is Some
        && region is Some
        && timezone is Some {
        Some(
            UserLocationV {
                location_type: location_type->0,
                city: city->0,
                country: country->0,
                region: region->0,
                timezone: timezone->0,
            },
        )
    } else {
        None
    }
}

impl UserLocation {
    /// Reads a `UserLocation` (see [`user_location_of`]).
    pub fn from_json(v: &Json) -> (r: Option<UserLocation>)
        ensures
            o_view(r) == user_location_of(v@),
    {
        if !struct_form_ok(v, 5, 5) {
            return None;
        }
        let location_type = match opt_string(field_of(v, "type", 0)) {
            Some(x) => x,
            None => {
                return None;
            },
        };
        let city = match opt_string(field_of(v, "city", 1)) {
            Some(x) => x,
            None => {
                return None;
            },
        };
        let country = match opt_string(field_of(v, "country", 2)) {
            Some(x) => x,
            None => {
                return None;
            },
        };
        let region = match opt_string(field_of(v, "region", 3)) {
            Some(x) => x,
            None => {
                return None;
            },
        };
        let timezone = match opt_string(field_of(v, "timezone", 4)) {
            Some(x) => x,
            None => {
                return None;
            },
        };
        Some(UserLocation { location_type, city, country, region, timezone })
    }
}

/// A mask image for guided generation: an uploaded file or an image URL.
#[derive(Debug)]
pub struct ImageMask {
    pub file_id: Option<String>,
    pub image_url: Option<String>,
}

pub ghost struct ImageMaskV {
    pub file_id: Option<Seq<char>>,
    pub image_url: Option<Seq<char>>,
}

impl View for ImageMask {
    type V = ImageMaskV;

    open spec fn view(&self) -> ImageMaskV {
        ImageMaskV { file_id: o_view(self.file_id), image_url: o_view(self.image_url) }
    }
}

/// How `ImageMask` reads from `v`; `None` where it does not.
pub open spec fn image_mask_of(v: JsonV) -> Option<ImageMaskV> {
    let file_id = opt_string_member(field_at(v, "file_id"@, 0));
    let image_url = opt_string_member(field_at(v, "image_url"@, 1));
    if struct_form(v, 0, 2)
        && file_id is Some
        && image_url is Some {
        Some(ImageMaskV { file_id: file_id->0, image_url: image_url->0 })
    } else {
        None
    }
}

impl ImageMask {
    /// Reads a `ImageMask` (see [`image_mask_of`]).
    pub fn from_json(v: &Json) -> (r: Option<ImageMask>)
        ensures
            o_view(r) == image_mask_of(v@),
    {
        if !struct_form_ok(v, 0, 2) {
            return None;
        }
        let file_id = match opt_string(field_of(v, "file_id", 0)) {
            Some(x) => x,
            None => {
                return None;
            },
        };
        let image_url = match opt_string(field_of(v, "image_url", 1)) {
            Some(x) => x,
            None => {
                return None;
            },
        };
        Some(ImageMask { file_id, image_url })
    }
}

/// A secret injected into requests to one domain.
#[derive(Debug)]
pub struct DomainSecret {
    pub domain: String,
    pub name: String,
    pub value: String,
}

pub ghost struct DomainSecretV {
    pub domain: Seq<char>,
    pub name: Seq<char>,
    pub value: Seq<char>,
}

impl View for DomainSecret {
    type V = DomainSecretV;

    open spec fn view(&self) -> DomainSecretV {
        DomainSecretV { domain: self.domain@, name: self.name@, value: self.value@ }
    }
}

/// How `DomainSecret` reads from `v`; `None` where it does not.
pub open spec fn domain_secret_of(v: JsonV) -> Option<DomainSecretV> {
    let domain = string_member(field_at(v, "domain"@, 0));
    let name = string_member(field_at(v, "name"@, 1));
    let value = string_member(field_at(v, "value"@, 2));
    if struct_form(v, 3, 3)
        && domain is Some
        && name is Some
        && value is Some {
        Some(DomainSecretV { domain: domain->0, name: name->0, value: value->0 })
    } else {
        None
    }
}

impl DomainSecret {
    /// Reads a `DomainSecret` (see [`domain_secret_of`]).
    pub fn from_json(v: &Json) -> (r: Option<DomainSecret>)
        ensures
            o_view(r) == domain_secret_of(v@),
    {
        if !struct_form_ok(v, 3, 3) {
            return None;
        }
        let domain = match req_string(field_of(v, "domain", 0)) {
            Some(x) => x,
            None => {
                return None;
            },
        };
        let name = match req_string(field_of(v, "name", 1)) {
            Some(x) => x,
            None => {
                return None;
            },
        };
        let value = match req_string(field_of(v, "value", 2)) {
            Some(x) => x,
            None => {
                return None;
            },
        };
        Some(DomainSecret { domain, name, value })
    }
}

/// A skill defined on the local machine.
#[derive(Debug)]
pub struct LocalSkill {
    pub name: String,
    pub description: String,
    pub path: String,
}

pub ghost struct LocalSkillV {
    pub name: Seq<char>,
    pub description: Seq<char>,
    pub path: Seq<char>,
}

impl View for LocalSkill {
    type V = LocalSkillV;

    open spec fn view(&self) -> LocalSkillV {
        LocalSkillV { name: self.name@, description: self.description@, path: self.path@ }
    }
}

/// How `LocalSkill` reads from `v`; `None` where it does not.
pub open spec fn local_skill_of(v: JsonV) -> Option<LocalSkillV> {
    let name = string_member(field_at(v, "name"@, 0));
    let description = string_member(field_at(v, "description"@, 1));
    let path = string_member(field_at(v, "path"@, 2));
    if struct_form(v, 3, 3)
        && name is Some
        && description is Some
        && path is Some {
        Some(LocalSkillV { name: name->0, description: description->0, path: path->0 })
    } else {
        None
    }
}

impl LocalSkill {
    /// Reads a `LocalSkill` (see [`local_skill_of`]).
    pub fn from_json(v: &Json) -> (r: Option<LocalSkill>)
        ensures
            o_view(r) == local_skill_of(v@),
    {
        if !struct_form_ok(v, 3, 3) {
            return None;
        }
        let name = match req_string(field_of(v, "name", 0)) {
            Some(x) => x,
            None => {
                return None;
            },
        };
        let description = match req_string(field_of(v, "description", 1)) {
            Some(x) => x,
            None => {
                return None;
            },
        };
        let path = match req_string(field_of(v, "path", 2)) {
            Some(x) => x,
            None => {
                return None;
            },
        };
        Some(LocalSkill { name, description, path })
    }
}

/// Weights of embedding and keyword matching in a hybrid search; each
/// weight is kept as the number it was given.
#[derive(Debug)]
pub struct HybridSearchWeights {
    pub embedding_weight: Number,
    pub text_weight: Number,
}

pub ghost struct HybridSearchWeightsV {
    pub embedding_weight: NumberV,
    pub text_weight: NumberV,
}

impl View for HybridSearchWeights {
    type V = HybridSearchWeightsV;

    open spec fn view(&self) -> HybridSearchWeightsV {
        HybridSearchWeightsV {
            embedding_weight: self.embedding_weight@,
            text_weight: self.text_weight@,
        }
    }
}

/// How `HybridSearchWeights` reads from `v`; `None` where it does not.
pub open spec fn hybrid_search_weights_of(v: JsonV) -> Option<HybridSearchWeightsV> {
    let embedding_weight = float_member(field_at(v, "embedding_weight"@, 0));
    let text_weight = float_member(field_at(v, "text_weight"@, 1));
    if struct_form(v, 2, 2)
        && embedding_weight is Some
        && text_weight is Some {
        Some(
            HybridSearchWeightsV {
                embedding_weight: embedding_weight->0,
                text_weight: text_weight->0,
            },
        )
    } else {
        None
    }
}

impl HybridSearchWeights {
    /// Reads a `HybridSearchWeights` (see [`hybrid_search_weights_of`]).
    pub fn from_json(v: &Json) -> (r: Option<HybridSearchWeights>)
        ensures
            o_view(r) == hybrid_search_weights_of(v@),
    {
        if !struct_form_ok(v, 2, 2) {
            return None;
        }
        let embedding_weight = match req_float(field_of(v, "embedding_weight", 0)) {
            Some(x) => x,
            None => {
                return None;
            },
        };
        let text_weight = match req_float(field_of(v, "text_weight", 1)) {
            Some(x) => x,
            None => {
                return None;
            },
        };
        Some(HybridSearchWeights { embedding_weight, text_weight })
    }
}

/// How search results are ranked; the score threshold is kept as the
/// number it was given.
#[derive(Debug)]
pub struct RankingOptions {
    pub ranker: Option<String>,
    pub score_threshold: Option<Number>,
    pub hybrid_search: Option<HybridSearchWeights>,
}

pub ghost struct RankingOptionsV {
    pub ranker: Option<Seq<char>>,
    pub score_threshold: Option<NumberV>,
    pub hybrid_search: Option<HybridSearchWeightsV>,
}

impl View for RankingOptions {
    type V = RankingOptionsV;

    open spec fn view(&self) -> RankingOptionsV {
        RankingOptionsV {
            ranker: o_view(self.ranker),
            score_threshold: o_view(self.score_threshold),
            hybrid_search: o_view(self.hybrid_search),
        }
    }
}

/// How `RankingOptions` reads from `v`; `None` where it does not.
pub open spec fn ranking_options_of(v: JsonV) -> Option<RankingOptionsV> {
    let ranker = opt_string_member(field_at(v, "ranker"@, 0));
    let score_threshold = opt_float_member(field_at(v, "score_threshold"@, 1));
    let hybrid_search = opt_hybrid_search_weights_member(field_at(v, "hybrid_search"@, 2));
    if struct_form(v, 3, 3)
        && ranker is Some
        && score_threshold is Some
        && hybrid_search is Some {
        Some(
            RankingOptionsV {
                ranker: ranker->0,
                score_threshold: score_threshold->0,
                hybrid_search: hybrid_search->0,
            },
        )
    } else {
        None
    }
}

impl RankingOptions {
    /// Reads a `RankingOptions` (see [`ranking_options_of`]).
    pub fn from_json(v: &Json) -> (r: Option<RankingOptions>)
        ensures
            o_view(r) == ranking_options_of(v@),
    {
        if !struct_form_ok(v, 3, 3) {
            return None;
        }
        let ranker = match opt_string(field_of(v, "ranker", 0)) {
            Some(x) => x,
            None => {
                return None;
            },
        };
        let score_threshold = match opt_float(field_of(v, "score_threshold", 1)) {
            Some(x) => x,
            None => {
                return None;
            },
        };
        let hybrid_search = match opt_hybrid_search_weights_at(field_of(v, "hybrid_search", 2)) {
            Some(x) => x,
            None => {
                return None;
            },
        };
        Some(RankingOptions { ranker, score_threshold, hybrid_search })
    }
}

// ─── Network policy, environments and skills ────────────────────────────

/// The network a code container may reach.
#[derive(Debug)]
pub enum NetworkPolicy {
    /// No network access.
    Disabled,
    /// Only the listed domains, with secrets injected for some of them.
    Allowlist { allowed_domains: Vec<String>, domain_secrets: Option<Vec<DomainSecret>> },
}

pub ghost enum NetworkPolicyV {
    Disabled,
    Allowlist { allowed_domains: Seq<Seq<char>>, domain_secrets: Option<Seq<DomainSecretV>> },
}

impl View for NetworkPolicy {
    type V = NetworkPolicyV;

    open spec fn view(&self) -> NetworkPolicyV {
        match self {
            NetworkPolicy::Disabled => NetworkPolicyV::Disabled,
            NetworkPolicy::Allowlist { allowed_domains, domain_secrets } => NetworkPolicyV::Allowlist {
                allowed_domains: vec_view(*allowed_domains),
                domain_secrets: opt_vec_view(*domain_secrets),
            },
        }
    }
}

/// How a network policy reads: by its tag, `disabled` or `allowlist`
/// (or their positions, as it is always read from a buffered value).
pub open spec fn network_policy_of(v: JsonV) -> Option<NetworkPolicyV> {
    match tag_and_body(v) {
        None => None,
        Some((t, body)) => if tag_is(t, "disabled"@, 0, true) {
            if unit_body(body) {
                Some(NetworkPolicyV::Disabled)
            } else {
                None
            }
        } else if tag_is(t, "allowlist"@, 1, true) {
            let allowed_domains = strings_member(field_at(body, "allowed_domains"@, 0));
            let domain_secrets = opt_domain_secret_list_member(field_at(body, "domain_secrets"@, 1));
            if struct_form(body, 1, 2) && allowed_domains is Some && domain_secrets is Some {
                Some(
                    NetworkPolicyV::Allowlist {
                        allowed_domains: allowed_domains->0,
                        domain_secrets: domain_secrets->0,
                    },
                )
            } else {
                None
            }
        } else {
            None
        },
    }
}

impl NetworkPolicy {
    /// Reads a network policy (see [`network_policy_of`]).
    pub fn from_json(v: &Json) -> (r: Option<NetworkPolicy>)
        ensures
            o_view(r) == network_policy_of(v@),
    {
        let (t, body) = match split_tag(v) {
            Some(p) => p,
            None => {
                return None;
            },
        };
        if tag_matches(&t, "disabled", 0, true) {
            if unit_body_ok(&body) {
                Some(NetworkPolicy::Disabled)
            } else {
                None
            }
        } else if tag_matches(&t, "allowlist", 1, true) {
            if !struct_form_ok(&body, 1, 2) {
                return None;
            }
            let allowed_domains = match req_strings(field_of(&body, "allowed_domains", 0)) {
                Some(x) => x,
                None => {
                    return None;
                },
            };
            let domain_secrets = match opt_domain_secret_list_at(field_of(&body, "domain_secrets", 1)) {
                Some(x) => x,
                None => {
                    return None;
                },
            };
            Some(NetworkPolicy::Allowlist { allowed_domains, domain_secrets })
        } else {
            None
        }
    }
}

/// A skill: a stored one by reference, or one given inline.
#[derive(Debug)]
pub enum Skill {
    SkillReference { skill_id: String, version: Option<String> },
    Inline { name: String, description: String, source: Json },
}

pub ghost enum SkillV {
    SkillReference { skill_id: Seq<char>, version: Option<Seq<char>> },
    Inline { name: Seq<char>, description: Seq<char>, source: JsonV },
}

impl View for Skill {
    type V = SkillV;

    open spec fn view(&self) -> SkillV {
        match self {
            Skill::SkillReference { skill_id, version } => SkillV::SkillReference {
                skill_id: skill_id@,
                version: o_view(*version),
            },
            Skill::Inline { name, description, source } => SkillV::Inline {
                name: name@,
                description: description@,
                source: source@,
            },
        }
    }
}

/// How a skill reads: by its tag, `skill_reference` or `inline` (or their
/// positions, as it is always read from a buffered value).
pub open spec fn skill_of(v: JsonV) -> Option<SkillV> {
    match tag_and_body(v) {
        None => None,
        Some((t, body)) => if tag_is(t, "skill_reference"@, 0, true) {
            let skill_id = string_member(field_at(body, "skill_id"@, 0));
            let version = opt_string_member(field_at(body, "version"@, 1));
            if struct_form(body, 1, 2) && skill_id is Some && version is Some {
                Some(SkillV::SkillReference { skill_id: skill_id->0, version: version->0 })
            } else {
                None
            }
        } else if tag_is(t, "inline"@, 1, true) {
            let name = string_member(field_at(body, "name"@, 0));
            let description = string_member(field_at(body, "description"@, 1));
            let source = value_member(field_at(body, "source"@, 2));
            if struct_form(body, 3, 3) && name is Some && description is Some && source is Some {
                Some(SkillV::Inline { name: name->0, description: description->0, source: source->0 })
            } else {
                None
            }
        } else {
            None
        },
    }
}

impl Skill {
    /// Reads a skill (see [`skill_of`]).
    pub fn from_json(v: &Json) -> (r: Option<Skill>)
        ensures
            o_view(r) == skill_of(v@),
    {
        let (t, body) = match split_tag(v) {
            Some(p) => p,
            None => {
                return None;
            },
        };
        if tag_matches(&t, "skill_reference", 0, true) {
            if !struct_form_ok(&body, 1, 2) {
                return None;
            }
            let skill_id = match req_string(field_of(&body, "skill_id", 0)) {
                Some(x) => x,
                None => {
                    return None;
                },
            };
            let version = match opt_string(field_of(&body, "version", 1)) {
                Some(x) => x,
                None => {
                    return None;
                },
            };
            Some(Skill::SkillReference { skill_id, version })
        } else if tag_matches(&t, "inline", 1, true) {
            if !struct_form_ok(&body, 3, 3) {
                return None;
            }
            let name = match req_string(field_of(&body, "name", 0)) {
                Some(x) => x,
                None => {
                    return None;
                },
            };
            let description = match req_string(field_of(&body, "description", 1)) {
                Some(x) => x,
                None => {
                    return None;
                },
            };
            let source = match req_value(field_of(&body, "source", 2)) {
                Some(x) => x,
                None => {
                    return None;
                },
            };
            Some(Skill::Inline { name, description, source })
        } else {
            None
        }
    }
}

/// Where a shell tool runs its commands.
#[derive(Debug)]
pub enum Environment {
    /// A container created for the purpose.
    ContainerAuto {
        file_ids: Option<Vec<String>>,
        memory_limit: Option<String>,
        network_policy: Option<NetworkPolicy>,
        skills: Option<Vec<Skill>>,
    },
    /// The local machine.
    Local { skills: Option<Vec<LocalSkill>> },
    /// An existing container.
    ContainerReference { container_id: String },
}

pub ghost enum EnvironmentV {
    ContainerAuto {
        file_ids: Option<Seq<Seq<char>>>,
        memory_limit: Option<Seq<char>>,
        network_policy: Option<NetworkPolicyV>,
        skills: Option<Seq<SkillV>>,
    },
    Local { skills: Option<Seq<LocalSkillV>> },
    ContainerReference { container_id: Seq<char> },
}

impl View for Environment {
    type V = EnvironmentV;

    open spec fn view(&self) -> EnvironmentV {
        match self {
            Environment::ContainerAuto { file_ids, memory_limit, network_policy, skills } =>
                EnvironmentV::ContainerAuto {
                file_ids: opt_vec_view(*file_ids),
                memory_limit: o_view(*memory_limit),
                network_policy: o_view(*network_policy),
                skills: opt_vec_view(*skills),
            },
            Environment::Local { skills } => EnvironmentV::Local { skills: opt_vec_view(*skills) },
            Environment::ContainerReference { container_id } => EnvironmentV::ContainerReference {
                container_id: container_id@,
            },
        }
    }
}

/// How an environment reads: by its tag, `container_auto`, `local` or
/// `container_reference` (or, read from a buffered value, their positions).
pub open spec fn environment_of(v: JsonV, by_position: bool) -> Option<EnvironmentV> {
    match tag_and_body(v) {
        None => None,
        Some((t, body)) => if tag_is(t, "container_auto"@, 0, by_position) {
            let file_ids = opt_strings_member(field_at(body, "file_ids"@, 0));
            let memory_limit = opt_string_member(field_at(body, "memory_limit"@, 1));
            let network_policy = opt_network_policy_member(field_at(body, "network_policy"@, 2));
            let skills = opt_skill_list_member(field_at(body, "skills"@, 3));
            if struct_form(body, 0, 4) && file_ids is Some && memory_limit is Some
                && network_policy is Some && skills is Some {
                Some(
                    EnvironmentV::ContainerAuto {
                        file_ids: file_ids->0,
                        memory_limit: memory_limit->0,
                        network_policy: network_policy->0,
                        skills: skills->0,
                    },
                )
            } else {
                None
            }
        } else if tag_is(t, "local"@, 1, by_position) {
            let skills = opt_local_skill_list_member(field_at(body, "skills"@, 0));
            if struct_form(body, 0, 1) && skills is Some {
                Some(EnvironmentV::Local { skills: skills->0 })
            } else {
                None
            }
        } else if tag_is(t, "container_reference"@, 2, by_position) {
            let container_id = string_member(field_at(body, "container_id"@, 0));
            if struct_form(body, 1, 1) && container_id is Some {
                Some(EnvironmentV::ContainerReference { container_id: container_id->0 })
            } else {
                None
            }
        } else {
            None
        },
    }
}

impl Environment {
    /// Reads an environment from a value of its own (see [`environment_of`]).
    pub fn from_json(v: &Json) -> (r: Option<Environment>)
        ensures
            o_view(r) == environment_of(v@, false),
    {
        Self::read(v, false)
    }

    /// Reads an environment, naming variants by position too where
    /// `by_position` (see [`environment_of`]).
    pub fn read(v: &Json, by_position: bool) -> (r: Option<Environment>)
        ensures
            o_view(r) == environment_of(v@, by_position),
    {
        let (t, body) = match split_tag(v) {
            Some(p) => p,
            None => {
                return None;
            },
        };
        if tag_matches(&t, "container_auto", 0, by_position) {
            if !struct_form_ok(&body, 0, 4) {
                return None;
            }
            let file_ids = match opt_strings(field_of(&body, "file_ids", 0)) {
                Some(x) => x,
                None => {
                    return None;
                },
            };
            let memory_limit = match opt_string(field_of(&body, "memory_limit", 1)) {
                Some(x) => x,
                None => {
                    return None;
                },
            };
            let network_policy = match opt_network_policy_at(field_of(&body, "network_policy", 2)) {
                Some(x) => x,
                None => {
                    return None;
                },
            };
            let skills = match opt_skill_list_at(field_of(&body, "skills", 3)) {
                Some(x) => x,
                None => {
                    return None;
                },
            };
            Some(Environment::ContainerAuto { file_ids, memory_limit, network_policy, skills })
        } else if tag_matches(&t, "local", 1, by_position) {
            if !struct_form_ok(&body, 0, 1) {
                return None;
            }
            let skills = match opt_local_skill_list_at(field_of(&body, "skills", 0)) {
                Some(x) => x,
                None => {
                    return None;
                },
            };
            Some(Environment::Local { skills })
        } else if tag_matches(&t, "container_reference", 2, by_position) {
            if !struct_form_ok(&body, 1, 1) {
                return None;
            }
            let container_id = match req_string(field_of(&body, "container_id", 0)) {
                Some(x) => x,
                None => {
                    return None;
                },
            };
            Some(Environment::ContainerReference { container_id })
        } else {
            None
        }
    }
}


// ─── Code interpreter containers ────────────────────────────────────────

/// A container the platform creates and manages.
#[derive(Debug)]
pub struct CodeInterpreterContainerAuto {
    pub container_type: String,
    pub file_ids: Option<Vec<String>>,
    pub memory_limit: Option<String>,
    pub network_policy: Option<NetworkPolicy>,
}

pub ghost struct CodeInterpreterContainerAutoV {
    pub container_type: Seq<char>,
    pub file_ids: Option<Seq<Seq<char>>>,
    pub memory_limit: Option<Seq<char>>,
    pub network_policy: Option<NetworkPolicyV>,
}

impl View for CodeInterpreterContainerAuto {
    type V = CodeInterpreterContainerAutoV;

    open spec fn view(&self) -> CodeInterpreterContainerAutoV {
        CodeInterpreterContainerAutoV {
            container_type: self.container_type@,
            file_ids: opt_vec_view(self.file_ids),
            memory_limit: o_view(self.memory_limit),
            network_policy: o_view(self.network_policy),
        }
    }
}

/// How `CodeInterpreterContainerAuto` reads from `v`; `None` where it does not.
pub open spec fn code_interpreter_container_auto_of(v: JsonV) -> Option<CodeInterpreterContainerAutoV> {
    let container_type = string_member(field_at(v, "type"@, 0));
    let file_ids = opt_strings_member(field_at(v, "file_ids"@, 1));
    let memory_limit = opt_string_member(field_at(v, "memory_limit"@, 2));
    let network_policy = opt_network_policy_member(field_at(v, "network_policy"@, 3));
    if struct_form(v, 1, 4)
        && keys_within(v, KnownKeys::ContainerAuto)
        && container_type is Some
        && file_ids is Some
        && memory_limit is Some
        && network_policy is Some {
        Some(
            CodeInterpreterContainerAutoV {
                container_type: container_type->0,
                file_ids: file_ids->0,
                memory_limit: memory_limit->0,
                network_policy: network_policy->0,
            },
        )
    } else {
        None
    }
}

impl CodeInterpreterContainerAuto {
    /// Reads a `CodeInterpreterContainerAuto` (see [`code_interpreter_container_auto_of`]).
    pub fn from_json(v: &Json) -> (r: Option<CodeInterpreterContainerAuto>)
        ensures
            o_view(r) == code_interpreter_container_auto_of(v@),
    {
        if !struct_form_ok(v, 1, 4) || !keys_within_ok(v, KnownKeys::ContainerAuto) {
            return None;
        }
        let container_type = match req_string(field_of(v, "type", 0)) {
            Some(x) => x,
            None => {
                return None;
            },
        };
        let file_ids = match opt_strings(field_of(v, "file_ids", 1)) {
            Some(x) => x,
            None => {
                return None;
            },
        };
        let memory_limit = match opt_string(field_of(v, "memory_limit", 2)) {
            Some(x) => x,
            None => {
                return None;
            },
        };
        let network_policy = match opt_network_policy_at(field_of(v, "network_policy", 3)) {
            Some(x) => x,
            None => {
                return None;
            },
        };
        Some(
            CodeInterpreterContainerAuto {
                container_type,
                file_ids,
                memory_limit,
                network_policy,
            },
        )
    }
}

/// An existing container, by its id.
#[derive(Debug)]
pub struct CodeInterpreterContainerReference {
    pub container_type: String,
    pub container_id: String,
}

pub ghost struct CodeInterpreterContainerReferenceV {
    pub container_type: Seq<char>,
    pub container_id: Seq<char>,
}

impl View for CodeInterpreterContainerReference {
    type V = CodeInterpreterContainerReferenceV;

    open spec fn view(&self) -> CodeInterpreterContainerReferenceV {
        CodeInterpreterContainerReferenceV {
            container_type: self.container_type@,
            container_id: self.container_id@,
        }
    }
}

/// How `CodeInterpreterContainerReference` reads from `v`; `None` where it does not.
pub open spec fn code_interpreter_container_reference_of(v: JsonV) -> Option<CodeInterpreterContainerReferenceV> {
    let container_type = string_member(field_at(v, "type"@, 0));
    let container_id = string_member(field_at(v, "container_id"@, 1));
    if struct_form(v, 2, 2)
        && keys_within(v, KnownKeys::ContainerReference)
        && container_type is Some
        && container_id is Some {
        Some(
            CodeInterpreterContainerReferenceV {
                container_type: container_type->0,
                container_id: container_id->0,
            },
        )
    } else {
        None
    }
}

impl CodeInterpreterContainerReference {
    /// Reads a `CodeInterpreterContainerReference` (see [`code_interpreter_container_reference_of`]).
    pub fn from_json(v: &Json) -> (r: Option<CodeInterpreterContainerReference>)
        ensures
            o_view(r) == code_interpreter_container_reference_of(v@),
    {
        if !struct_form_ok(v, 2, 2) || !keys_within_ok(v, KnownKeys::ContainerReference) {
            return None;
        }
        let container_type = match req_string(field_of(v, "type", 0)) {
            Some(x) => x,
            None => {
                return None;
            },
        };
        let container_id = match req_string(field_of(v, "container_id", 1)) {
            Some(x) => x,
            None => {
                return None;
            },
        };
        Some(CodeInterpreterContainerReference { container_type, container_id })
    }
}

/// Where the code interpreter runs.
#[derive(Debug)]
pub enum CodeInterpreterContainer {
    /// A container the platform manages.
    Auto(CodeInterpreterContainerAuto),
    /// An existing container.
    Reference(CodeInterpreterContainerReference),
}

pub ghost enum CodeInterpreterContainerV {
    Auto(CodeInterpreterContainerAutoV),
    Reference(CodeInterpreterContainerReferenceV),
}

impl View for CodeInterpreterContainer {
    type V = CodeInterpreterContainerV;

    open spec fn view(&self) -> CodeInterpreterContainerV {
        match self {
            CodeInterpreterContainer::Auto(x) => CodeInterpreterContainerV::Auto(x@),
            CodeInterpreterContainer::Reference(x) => CodeInterpreterContainerV::Reference(x@),
        }
    }
}

/// How `CodeInterpreterContainer` reads: the first of its shapes that reads.
pub open spec fn code_interpreter_container_of(v: JsonV) -> Option<CodeInterpreterContainerV> {
    match code_interpreter_container_auto_of(v) {
        Some(x) => Some(CodeInterpreterContainerV::Auto(x)),
        None => match code_interpreter_container_reference_of(v) {
            Some(y) => Some(CodeInterpreterContainerV::Reference(y)),
            None => None,
        },
    }
}

impl CodeInterpreterContainer {
    /// Reads a `CodeInterpreterContainer` (see [`code_interpreter_container_of`]).
    pub fn from_json(v: &Json) -> (r: Option<CodeInterpreterContainer>)
        ensures
            o_view(r) == code_interpreter_container_of(v@),
    {
        match CodeInterpreterContainerAuto::from_json(v) {
            Some(x) => Some(CodeInterpreterContainer::Auto(x)),
            None => match CodeInterpreterContainerReference::from_json(v) {
                Some(y) => Some(CodeInterpreterContainer::Reference(y)),
                None => None,
            },
        }
    }
}

// ─── MCP tool lists and approvals ───────────────────────────────────────

/// The MCP tools allowed, by a read-only flag and by name.
#[derive(Debug)]
pub struct McpAllowedToolsFilter {
    pub read_only: Option<bool>,
    pub tool_names: Vec<String>,
}

pub ghost struct McpAllowedToolsFilterV {
    pub read_only: Option<bool>,
    pub tool_names: Seq<Seq<char>>,
}

impl View for McpAllowedToolsFilter {
    type V = McpAllowedToolsFilterV;

    open spec fn view(&self) -> McpAllowedToolsFilterV {
        McpAllowedToolsFilterV { read_only: self.read_only, tool_names: vec_view(self.tool_names) }
    }
}

/// How `McpAllowedToolsFilter` reads from `v`; `None` where it does not.
pub open spec fn mcp_allowed_tools_filter_of(v: JsonV) -> Option<McpAllowedToolsFilterV> {
    let read_only = opt_bool_member(field_at(v, "read_only"@, 0));
    let tool_names = strings_member(field_at(v, "tool_names"@, 1));
    if struct_form(v, 2, 2)
        && read_only is Some
        && tool_names is Some {
        Some(McpAllowedToolsFilterV { read_only: read_only->0, tool_names: tool_names->0 })
    } else {
        None
    }
}

impl McpAllowedToolsFilter {
    /// Reads a `McpAllowedToolsFilter` (see [`mcp_allowed_tools_filter_of`]).
    pub fn from_json(v: &Json) -> (r: Option<McpAllowedToolsFilter>)
        ensures
            o_view(r) == mcp_allowed_tools_filter_of(v@),
    {
        if !struct_form_ok(v, 2, 2) {
            return None;
        }
        let read_only = match opt_bool(field_of(v, "read_only", 0)) {
            Some(x) => x,
            None => {
                return None;
            },
        };
        let tool_names = match req_strings(field_of(v, "tool_names", 1)) {
            Some(x) => x,
            None => {
                return None;
            },
        };
        Some(McpAllowedToolsFilter { read_only, tool_names })
    }
}

/// The tools of an MCP server that may be used.
#[derive(Debug)]
pub enum McpAllowedTools {
    /// These tools, by name.
    All(Vec<String>),
    /// The tools a filter selects.
    Filter(McpAllowedToolsFilter),
}

pub ghost enum McpAllowedToolsV {
    All(Seq<Seq<char>>),
    Filter(McpAllowedToolsFilterV),
}

impl View for McpAllowedTools {
    type V = McpAllowedToolsV;

    open spec fn view(&self) -> McpAllowedToolsV {
        match self {
            McpAllowedTools::All(x) => McpAllowedToolsV::All(vec_view(*x)),
            McpAllowedTools::Filter(x) => McpAllowedToolsV::Filter(x@),
        }
    }
}

/// How `McpAllowedTools` reads: the first of its shapes that reads.
pub open spec fn mcp_allowed_tools_of(v: JsonV) -> Option<McpAllowedToolsV> {
    match strings_member(Some(v)) {
        Some(x) => Some(McpAllowedToolsV::All(x)),
        None => match mcp_allowed_tools_filter_of(v) {
            Some(y) => Some(McpAllowedToolsV::Filter(y)),
            None => None,
        },
    }
}

impl McpAllowedTools {
    /// Reads a `McpAllowedTools` (see [`mcp_allowed_tools_of`]).
    pub fn from_json(v: &Json) -> (r: Option<McpAllowedTools>)
        ensures
            o_view(r) == mcp_allowed_tools_of(v@),
    {
        match req_strings(Some(v)) {
            Some(x) => Some(McpAllowedTools::All(x)),
            None => match McpAllowedToolsFilter::from_json(v) {
                Some(y) => Some(McpAllowedTools::Filter(y)),
                None => None,
            },
        }
    }
}

/// The MCP tools an approval rule applies to.
#[derive(Debug)]
pub struct McpApprovalFilter {
    pub read_only: Option<bool>,
    pub tool_names: Vec<String>,
}

pub ghost struct McpApprovalFilterV {
    pub read_only: Option<bool>,
    pub tool_names: Seq<Seq<char>>,
}

impl View for McpApprovalFilter {
    type V = McpApprovalFilterV;

    open spec fn view(&self) -> McpApprovalFilterV {
        McpApprovalFilterV { read_only: self.read_only, tool_names: vec_view(self.tool_names) }
    }
}

/// How `McpApprovalFilter` reads from `v`; `None` where it does not.
pub open spec fn mcp_approval_filter_of(v: JsonV) -> Option<McpApprovalFilterV> {
    let read_only = opt_bool_member(field_at(v, "read_only"@, 0));
    let tool_names = strings_member(field_at(v, "tool_names"@, 1));
    if struct_form(v, 2, 2)
        && read_only is Some
        && tool_names is Some {
        Some(McpApprovalFilterV { read_only: read_only->0, tool_names: tool_names->0 })
    } else {
        None
    }
}

impl McpApprovalFilter {
    /// Reads a `McpApprovalFilter` (see [`mcp_approval_filter_of`]).
    pub fn from_json(v: &Json) -> (r: Option<McpApprovalFilter>)
        ensures
            o_view(r) == mcp_approval_filter_of(v@),
    {
        if !struct_form_ok(v, 2, 2) {
            return None;
        }
        let read_only = match opt_bool(field_of(v, "read_only", 0)) {
            Some(x) => x,
            None => {
                return None;
            },
        };
        let tool_names = match req_strings(field_of(v, "tool_names", 1)) {
            Some(x) => x,
            None => {
                return None;
            },
        };
        Some(McpApprovalFilter { read_only, tool_names })
    }
}

/// Which MCP tools always need approval and which never do.
#[derive(Debug)]
pub struct McpRequireApprovalFilter {
    pub always: McpApprovalFilter,
    pub never: McpApprovalFilter,
}

pub ghost struct McpRequireApprovalFilterV {
    pub always: McpApprovalFilterV,
    pub never: McpApprovalFilterV,
}

impl View for McpRequireApprovalFilter {
    type V = McpRequireApprovalFilterV;

    open spec fn view(&self) -> McpRequireApprovalFilterV {
        McpRequireApprovalFilterV { always: self.always@, never: self.never@ }
    }
}

/// How `McpRequireApprovalFilter` reads from `v`; `None` where it does not.
pub open spec fn mcp_require_approval_filter_of(v: JsonV) -> Option<McpRequireApprovalFilterV> {
    let always = mcp_approval_filter_member(field_at(v, "always"@, 0));
    let never = mcp_approval_filter_member(field_at(v, "never"@, 1));
    if struct_form(v, 2, 2)
        && always is Some
        && never is Some {
        Some(McpRequireApprovalFilterV { always: always->0, never: never->0 })
    } else {
        None
    }
}

impl McpRequireApprovalFilter {
    /// Reads a `McpRequireApprovalFilter` (see [`mcp_require_approval_filter_of`]).
    pub fn from_json(v: &Json) -> (r: Option<McpRequireApprovalFilter>)
        ensures
            o_view(r) == mcp_require_approval_filter_of(v@),
    {
        if !struct_form_ok(v, 2, 2) {
            return None;
        }
        let always = match mcp_approval_filter_at(field_of(v, "always", 0)) {
            Some(x) => x,
            None => {
                return None;
            },
        };
        let never = match mcp_approval_filter_at(field_of(v, "never", 1)) {
            Some(x) => x,
            None => {
                return None;
            },
        };
        Some(McpRequireApprovalFilter { always, never })
    }
}

/// When MCP tool calls need approval.
#[derive(Debug)]
pub enum McpRequireApproval {
    /// One rule for all tools, such as `always` or `never`.
    Setting(String),
    /// Rules by tool.
    Filter(McpRequireApprovalFilter),
}

pub ghost enum McpRequireApprovalV {
    Setting(Seq<char>),
    Filter(McpRequireApprovalFilterV),
}

impl View for McpRequireApproval {
    type V = McpRequireApprovalV;

    open spec fn view(&self) -> McpRequireApprovalV {
        match self {
            McpRequireApproval::Setting(x) => McpRequireApprovalV::Setting(x@),
            McpRequireApproval::Filter(x) => McpRequireApprovalV::Filter(x@),
        }
    }
}

/// How `McpRequireApproval` reads: the first of its shapes that reads.
pub open spec fn mcp_require_approval_of(v: JsonV) -> Option<McpRequireApprovalV> {
    match string_member(Some(v)) {
        Some(x) => Some(McpRequireApprovalV::Setting(x)),
        None => match mcp_require_approval_filter_of(v) {
            Some(y) => Some(McpRequireApprovalV::Filter(y)),
            None => None,
        },
    }
}

impl McpRequireApproval {
    /// Reads a `McpRequireApproval` (see [`mcp_require_approval_of`]).
    pub fn from_json(v: &Json) -> (r: Option<McpRequireApproval>)
        ensures
            o_view(r) == mcp_require_approval_of(v@),
    {
        match req_string(Some(v)) {
            Some(x) => Some(McpRequireApproval::Setting(x)),
            None => match McpRequireApprovalFilter::from_json(v) {
                Some(y) => Some(McpRequireApproval::Filter(y)),
                None => None,
            },
        }
    }
}

// ─── Custom tool formats ────────────────────────────────────────────────

/// Free text input.
#[derive(Debug)]
pub struct CustomToolFormatText {
    pub format_type: String,
}

pub ghost struct CustomToolFormatTextV {
    pub format_type: Seq<char>,
}

impl View for CustomToolFormatText {
    type V = CustomToolFormatTextV;

    open spec fn view(&self) -> CustomToolFormatTextV {
        CustomToolFormatTextV { format_type: self.format_type@ }
    }
}

/// How `CustomToolFormatText` reads from `v`; `None` where it does not.
pub open spec fn custom_tool_format_text_of(v: JsonV) -> Option<CustomToolFormatTextV> {
    let format_type = string_member(field_at(v, "type"@, 0));
    if struct_form(v, 1, 1)
        && keys_within(v, KnownKeys::FormatText)
        && format_type is Some {
        Some(CustomToolFormatTextV { format_type: format_type->0 })
    } else {
        None
    }
}

impl CustomToolFormatText {
    /// Reads a `CustomToolFormatText` (see [`custom_tool_format_text_of`]).
    pub fn from_json(v: &Json) -> (r: Option<CustomToolFormatText>)
        ensures
            o_view(r) == custom_tool_format_text_of(v@),
    {
        if !struct_form_ok(v, 1, 1) || !keys_within_ok(v, KnownKeys::FormatText) {
            return None;
        }
        let format_type = match req_string(field_of(v, "type", 0)) {
            Some(x) => x,
            None => {
                return None;
            },
        };
        Some(CustomToolFormatText { format_type })
    }
}

/// Input constrained by a grammar.
#[derive(Debug)]
pub struct CustomToolFormatGrammar {
    pub format_type: String,
    pub definition: String,
    pub syntax: String,
}

pub ghost struct CustomToolFormatGrammarV {
    pub format_type: Seq<char>,
    pub definition: Seq<char>,
    pub syntax: Seq<char>,
}

impl View for CustomToolFormatGrammar {
    type V = CustomToolFormatGrammarV;

    open spec fn view(&self) -> CustomToolFormatGrammarV {
        CustomToolFormatGrammarV {
            format_type: self.format_type@,
            definition: self.definition@,
            syntax: self.syntax@,
        }
    }
}

/// How `CustomToolFormatGrammar` reads from `v`; `None` where it does not.
pub open spec fn custom_tool_format_grammar_of(v: JsonV) -> Option<CustomToolFormatGrammarV> {
    let format_type = string_member(field_at(v, "type"@, 0));
    let definition = string_member(field_at(v, "definition"@, 1));
    let syntax = string_member(field_at(v, "syntax"@, 2));
    if struct_form(v, 3, 3)
        && format_type is Some
        && definition is Some
        && syntax is Some {
        Some(
            CustomToolFormatGrammarV {
                format_type: format_type->0,
                definition: definition->0,
                syntax: syntax->0,
            },
        )
    } else {
        None
    }
}

impl CustomToolFormatGrammar {
    /// Reads a `CustomToolFormatGrammar` (see [`custom_tool_format_grammar_of`]).
    pub fn from_json(v: &Json) -> (r: Option<CustomToolFormatGrammar>)
        ensures
            o_view(r) == custom_tool_format_grammar_of(v@),
    {
        if !struct_form_ok(v, 3, 3) {
            return None;
        }
        let format_type = match req_string(field_of(v, "type", 0)) {
            Some(x) => x,
            None => {
                return None;
            },
        };
        let definition = match req_string(field_of(v, "definition", 1)) {
            Some(x) => x,
            None => {
                return None;
            },
        };
        let syntax = match req_string(field_of(v, "syntax", 2)) {
            Some(x) => x,
            None => {
                return None;
            },
        };
        Some(CustomToolFormatGrammar { format_type, definition, syntax })
    }
}

/// The input format of a custom tool.
#[derive(Debug)]
pub enum CustomToolFormat {
    /// Free text.
    Text(CustomToolFormatText),
    /// Text that a grammar accepts.
    Grammar(CustomToolFormatGrammar),
}

pub ghost enum CustomToolFormatV {
    Text(CustomToolFormatTextV),
    Grammar(CustomToolFormatGrammarV),
}

impl View for CustomToolFormat {
    type V = CustomToolFormatV;

    open spec fn view(&self) -> CustomToolFormatV {
        match self {
            CustomToolFormat::Text(x) => CustomToolFormatV::Text(x@),
            CustomToolFormat::Grammar(x) => CustomToolFormatV::Grammar(x@),
        }
    }
}

/// How `CustomToolFormat` reads: the first of its shapes that reads.
pub open spec fn custom_tool_format_of(v: JsonV) -> Option<CustomToolFormatV> {
    match custom_tool_format_text_of(v) {
        Some(x) => Some(CustomToolFormatV::Text(x)),
        None => match custom_tool_format_grammar_of(v) {
            Some(y) => Some(CustomToolFormatV::Grammar(y)),
            None => None,
        },
    }
}

impl CustomToolFormat {
    /// Reads a `CustomToolFormat` (see [`custom_tool_format_of`]).
    pub fn from_json(v: &Json) -> (r: Option<CustomToolFormat>)
        ensures
            o_view(r) == custom_tool_format_of(v@),
    {
        match CustomToolFormatText::from_json(v) {
            Some(x) => Some(CustomToolFormat::Text(x)),
            None => match CustomToolFormatGrammar::from_json(v) {
                Some(y) => Some(CustomToolFormat::Grammar(y)),
                None => None,
            },
        }
    }
}

/// A filter that compares one attribute with a value (`eq`, `ne`, `gt`,
/// `gte`, `lt`, `lte`).
#[derive(Debug)]
pub struct FileSearchComparisonFilter {
    pub filter_type: String,
    pub key: String,
    pub value: Json,
}

pub ghost struct FileSearchComparisonFilterV {
    pub filter_type: Seq<char>,
    pub key: Seq<char>,
    pub value: JsonV,
}

impl View for FileSearchComparisonFilter {
    type V = FileSearchComparisonFilterV;

    open spec fn view(&self) -> FileSearchComparisonFilterV {
        FileSearchComparisonFilterV {
            filter_type: self.filter_type@,
            key: self.key@,
            value: self.value@,
        }
    }
}

/// How `FileSearchComparisonFilter` reads from `v`; `None` where it does not.
pub open spec fn file_search_comparison_filter_of(v: JsonV) -> Option<FileSearchComparisonFilterV> {
    let filter_type = string_member(field_at(v, "type"@, 0));
    let key = string_member(field_at(v, "key"@, 1));
    let value = value_member(field_at(v, "value"@, 2));
    if struct_form(v, 3, 3)
        && filter_type is Some
        && key is Some
        && value is Some {
        Some(
            FileSearchComparisonFilterV {
                filter_type: filter_type->0,
                key: key->0,
                value: value->0,
            },
        )
    } else {
        None
    }
}

impl FileSearchComparisonFilter {
    /// Reads a `FileSearchComparisonFilter` (see [`file_search_comparison_filter_of`]).
    pub fn from_json(v: &Json) -> (r: Option<FileSearchComparisonFilter>)
        ensures
            o_view(r) == file_search_comparison_filter_of(v@),
    {
        if !struct_form_ok(v, 3, 3) {
            return None;
        }
        let filter_type = match req_string(field_of(v, "type", 0)) {
            Some(x) => x,
            None => {
                return None;
            },
        };
        let key = match req_string(field_of(v, "key", 1)) {
            Some(x) => x,
            None => {
                return None;
            },
        };
        let value = match req_value(field_of(v, "value", 2)) {
            Some(x) => x,
            None => {
                return None;
            },
        };
        Some(FileSearchComparisonFilter { filter_type, key, value })
    }
}

// ─── File search filters ────────────────────────────────────────────────

/// A filter that joins other filters with a logical operator (`and`, `or`).
#[derive(Debug)]
pub struct FileSearchCompoundFilter {
    pub filter_type: String,
    pub filters: Vec<FileSearchFilters>,
}

/// A file search filter: one comparison, or a compound of filters.
#[derive(Debug)]
pub enum FileSearchFilters {
    Comparison(FileSearchComparisonFilter),
    Compound(FileSearchCompoundFilter),
}

pub ghost struct FileSearchCompoundFilterV {
    pub filter_type: Seq<char>,
    pub filters: Seq<FileSearchFiltersV>,
}

pub ghost enum FileSearchFiltersV {
    Comparison(FileSearchComparisonFilterV),
    Compound(FileSearchCompoundFilterV),
}

pub open spec fn filters_view(f: FileSearchFilters) -> FileSearchFiltersV
    decreases f, 0nat,
{
    match f {
        FileSearchFilters::Comparison(c) => FileSearchFiltersV::Comparison(c@),
        FileSearchFilters::Compound(c) => FileSearchFiltersV::Compound(
            FileSearchCompoundFilterV { filter_type: c.filter_type@, filters: filters_seq_view(c.filters@) },
        ),
    }
}

pub open spec fn filters_seq_view(s: Seq<FileSearchFilters>) -> Seq<FileSearchFiltersV>
    decreases s, 1nat,
{
    if s.len() == 0 {
        Seq::empty()
    } else {
        filters_seq_view(s.drop_last()).push(filters_view(s.last()))
    }
}

impl View for FileSearchFilters {
    type V = FileSearchFiltersV;

    open spec fn view(&self) -> FileSearchFiltersV {
        filters_view(*self)
    }
}

impl View for FileSearchCompoundFilter {
    type V = FileSearchCompoundFilterV;

    open spec fn view(&self) -> FileSearchCompoundFilterV {
        FileSearchCompoundFilterV { filter_type: self.filter_type@, filters: filters_seq_view(self.filters@) }
    }
}

proof fn lemma_filters_seq_view(s: Seq<FileSearchFilters>)
    ensures
        filters_seq_view(s).len() == s.len(),
        forall|i: int| 0 <= i < s.len() ==> #[trigger] filters_seq_view(s)[i] == filters_view(s[i]),
    decreases s.len(),
{
    if s.len() > 0 {
        lemma_filters_seq_view(s.drop_last());
    }
}

/// A member found in `v` is a part of `v`, and so is every element of an
/// array found there.
pub proof fn lemma_field_is_part(v: JsonV, name: Seq<char>, i: int)
    ensures
        match field_at(v, name, i) {
            Some(JsonV::Array(a)) => decreases_to!(v => a)
                && forall|j: int| 0 <= j < a.len() ==> decreases_to!(v => #[trigger] a[j]),
            _ => true,
        },
{
    match field_at(v, name, i) {
        Some(JsonV::Array(a)) => {
            match v {
                JsonV::Object(f) => {
                    crate::json::lemma_fields_find(f, name);
                    let k = crate::json::fields_find(f, name)->0;
                    assert(decreases_to!(v => f));
                    assert(decreases_to!(f => f[k]));
                    assert(decreases_to!(f[k] => f[k].1));
                    assert(decreases_to!(JsonV::Array(a) => a));
                },
                JsonV::Array(b) => {
                    assert(decreases_to!(v => b));
                    assert(decreases_to!(b => b[i]));
                    assert(decreases_to!(JsonV::Array(a) => a));
                },
                _ => {},
            }
            assert forall|j: int| 0 <= j < a.len() implies decreases_to!(v => #[trigger] a[j]) by {
                assert(decreases_to!(a => a[j]));
            }
        },
        _ => {},
    }
}

/// How a file search filter reads: as a comparison if it reads as one,
/// else as a compound filter.
pub open spec fn file_search_filters_of(v: JsonV) -> Option<FileSearchFiltersV>
    decreases v, 2nat, 0int,
{
    match file_search_comparison_filter_of(v) {
        Some(c) => Some(FileSearchFiltersV::Comparison(c)),
        None => match file_search_compound_filter_of(v) {
            Some(c) => Some(FileSearchFiltersV::Compound(c)),
            None => None,
        },
    }
}

/// How a compound filter reads: its operator, then its list of filters.
pub open spec fn file_search_compound_filter_of(v: JsonV) -> Option<FileSearchCompoundFilterV>
    decreases v, 1nat, 0int,
{
    let filter_type = string_member(field_at(v, "type"@, 0));
    let filters = match field_at(v, "filters"@, 1) {
        Some(JsonV::Array(a)) => {
            proof {
                lemma_field_is_part(v, "filters"@, 1);
            }
            file_search_filters_prefix(a, a.len() as int)
        },
        _ => None,
    };
    if struct_form(v, 2, 2) && filter_type is Some && filters is Some {
        Some(FileSearchCompoundFilterV { filter_type: filter_type->0, filters: filters->0 })
    } else {
        None
    }
}

pub open spec fn file_search_filters_prefix(a: Seq<JsonV>, n: int) -> Option<Seq<FileSearchFiltersV>>
    decreases a, 0nat, n,
{
    if n <= 0 {
        Some(Seq::empty())
    } else if n > a.len() {
        None
    } else {
        match (file_search_filters_prefix(a, n - 1), file_search_filters_of(a[n - 1])) {
            (Some(t), Some(x)) => Some(t.push(x)),
            _ => None,
        }
    }
}

proof fn lemma_file_search_filters_prefix_none(a: Seq<JsonV>, n: int, m: int)
    requires
        1 <= n <= m <= a.len(),
        file_search_filters_prefix(a, n) is None,
    ensures
        file_search_filters_prefix(a, m) is None,
    decreases m - n,
{
    if n < m {
        lemma_file_search_filters_prefix_none(a, n, m - 1);
    }
}

impl FileSearchFilters {
    /// Reads a file search filter (see [`file_search_filters_of`]).
    pub fn from_json(v: &Json) -> (r: Option<FileSearchFilters>)
        ensures
            o_view(r) == file_search_filters_of(v@),
        decreases v@, 1nat,
    {
        match FileSearchComparisonFilter::from_json(v) {
            Some(c) => Some(FileSearchFilters::Comparison(c)),
            None => match FileSearchCompoundFilter::from_json(v) {
                Some(c) => Some(FileSearchFilters::Compound(c)),
                None => None,
            },
        }
    }
}

impl FileSearchCompoundFilter {
    /// Reads a compound filter (see [`file_search_compound_filter_of`]).
    pub fn from_json(v: &Json) -> (r: Option<FileSearchCompoundFilter>)
        ensures
            o_view(r) == file_search_compound_filter_of(v@),
        decreases v@, 0nat,
    {
        if !struct_form_ok(v, 2, 2) {
            return None;
        }
        let filter_type = match req_string(field_of(v, "type", 0)) {
            Some(x) => x,
            None => {
                return None;
            },
        };
        proof {
            lemma_field_is_part(v@, "filters"@, 1);
        }
        match field_of(v, "filters", 1) {
            Some(Json::Array(a)) => {
                let ghost av = seq_view(a@);
                let mut out: Vec<FileSearchFilters> = Vec::new();
                let mut i: usize = 0;
                while i < a.len()
                    invariant
                        i <= a@.len(),
                        av == seq_view(a@),
                        field_at(v@, "filters"@, 1) == Some(JsonV::Array(av)),
                        forall|j: int| 0 <= j < av.len() ==> decreases_to!(v@ => #[trigger] av[j]),
                        file_search_filters_prefix(av, i as int) == Some(filters_seq_view(out@)),
                    decreases a.len() - i,
                {
                    assert(av[i as int] == a@[i as int]@);
                    assert(decreases_to!(v@ => av[i as int]));
                    match FileSearchFilters::from_json(&a[i]) {
                        Some(x) => {
                            let ghost before = out@;
                            out.push(x);
                            proof {
                                lemma_filters_seq_view(before);
                                lemma_filters_seq_view(out@);
                                assert(out@.drop_last() == before);
                            }
                        },
                        None => {
                            proof {
                                lemma_file_search_filters_prefix_none(av, i as int + 1, av.len() as int);
                            }
                            return None;
                        },
                    }
                    i = i + 1;
                }
                Some(FileSearchCompoundFilter { filter_type, filters: out })
            },
            _ => None,
        }
    }
}


// ─── Namespace entries ──────────────────────────────────────────────────

/// A function in a namespace; its `item_type` is always `function`.
#[derive(Debug)]
pub struct NamespaceToolFunction {
    pub item_type: String,
    pub name: String,
    pub description: Option<String>,
    pub parameters: Option<Json>,
    pub strict: Option<bool>,
}

pub ghost struct NamespaceToolFunctionV {
    pub item_type: Seq<char>,
    pub name: Seq<char>,
    pub description: Option<Seq<char>>,
    pub parameters: Option<JsonV>,
    pub strict: Option<bool>,
}

impl View for NamespaceToolFunction {
    type V = NamespaceToolFunctionV;

    open spec fn view(&self) -> NamespaceToolFunctionV {
        NamespaceToolFunctionV {
            item_type: self.item_type@,
            name: self.name@,
            description: o_view(self.description),
            parameters: o_view(self.parameters),
            strict: self.strict,
        }
    }
}

/// How `NamespaceToolFunction` reads from `v`; `None` where it does not.
pub open spec fn namespace_tool_function_of(v: JsonV) -> Option<NamespaceToolFunctionV> {
    let name = string_member(field_at(v, "name"@, 0));
    let description = opt_string_member(field_at(v, "description"@, 1));
    let parameters = opt_any_member(field_at(v, "parameters"@, 2));
    let strict = opt_bool_member(field_at(v, "strict"@, 3));
    if struct_form(v, 4, 4)
        && keys_within(v, KnownKeys::NamespaceFunction)
        && name is Some
        && description is Some
        && parameters is Some
        && strict is Some {
        Some(
            NamespaceToolFunctionV {
                item_type: "function"@,
                name: name->0,
                description: description->0,
                parameters: parameters->0,
                strict: strict->0,
            },
        )
    } else {
        None
    }
}

impl NamespaceToolFunction {
    /// Reads a `NamespaceToolFunction` (see [`namespace_tool_function_of`]).
    pub fn from_json(v: &Json) -> (r: Option<NamespaceToolFunction>)
        ensures
            o_view(r) == namespace_tool_function_of(v@),
    {
        if !struct_form_ok(v, 4, 4) || !keys_within_ok(v, KnownKeys::NamespaceFunction) {
            return None;
        }
        let name = match req_string(field_of(v, "name", 0)) {
            Some(x) => x,
            None => {
                return None;
            },
        };
        let description = match opt_string(field_of(v, "description", 1)) {
            Some(x) => x,
            None => {
                return None;
            },
        };
        let parameters = match opt_any(field_of(v, "parameters", 2)) {
            Some(x) => x,
            None => {
                return None;
            },
        };
        let strict = match opt_bool(field_of(v, "strict", 3)) {
            Some(x) => x,
            None => {
                return None;
            },
        };
        Some(
            NamespaceToolFunction {
                item_type: default_item_type_function(),
                name,
                description,
                parameters,
                strict,
            },
        )
    }
}

/// A custom tool in a namespace; its `item_type` is always `custom`.
#[derive(Debug)]
pub struct NamespaceToolCustom {
    pub item_type: String,
    pub name: String,
    pub description: Option<String>,
    pub format: Option<CustomToolFormat>,
}

pub ghost struct NamespaceToolCustomV {
    pub item_type: Seq<char>,
    pub name: Seq<char>,
    pub description: Option<Seq<char>>,
    pub format: Option<CustomToolFormatV>,
}

impl View for NamespaceToolCustom {
    type V = NamespaceToolCustomV;

    open spec fn view(&self) -> NamespaceToolCustomV {
        NamespaceToolCustomV {
            item_type: self.item_type@,
            name: self.name@,
            description: o_view(self.description),
            format: o_view(self.format),
        }
    }
}

/// How `NamespaceToolCustom` reads from `v`; `None` where it does not.
pub open spec fn namespace_tool_custom_of(v: JsonV) -> Option<NamespaceToolCustomV> {
    let name = string_member(field_at(v, "name"@, 0));
    let description = opt_string_member(field_at(v, "description"@, 1));
    let format = opt_custom_tool_format_member(field_at(v, "format"@, 2));
    if struct_form(v, 3, 3)
        && keys_within(v, KnownKeys::NamespaceCustom)
        && name is Some
        && description is Some
        && format is Some {
        Some(
            NamespaceToolCustomV {
                item_type: "custom"@,
                name: name->0,
                description: description->0,
                format: format->0,
            },
        )
    } else {
        None
    }
}

impl NamespaceToolCustom {
    /// Reads a `NamespaceToolCustom` (see [`namespace_tool_custom_of`]).
    pub fn from_json(v: &Json) -> (r: Option<NamespaceToolCustom>)
        ensures
            o_view(r) == namespace_tool_custom_of(v@),
    {
        if !struct_form_ok(v, 3, 3) || !keys_within_ok(v, KnownKeys::NamespaceCustom) {
            return None;
        }
        let name = match req_string(field_of(v, "name", 0)) {
            Some(x) => x,
            None => {
                return None;
            },
        };
        let description = match opt_string(field_of(v, "description", 1)) {
            Some(x) => x,
            None => {
                return None;
            },
        };
        let format = match opt_custom_tool_format_at(field_of(v, "format", 2)) {
            Some(x) => x,
            None => {
                return None;
            },
        };
        Some(
            NamespaceToolCustom {
                item_type: default_item_type_custom(),
                name,
                description,
                format,
            },
        )
    }
}

fn default_item_type_function() -> (r: String)
    ensures
        r@ == "function"@,
{
    owned("function")
}

fn default_item_type_custom() -> (r: String)
    ensures
        r@ == "custom"@,
{
    owned("custom")
}

/// One tool of a namespace.
#[derive(Debug)]
pub enum NamespaceToolItem {
    Function(NamespaceToolFunction),
    Custom(NamespaceToolCustom),
}

pub ghost enum NamespaceToolItemV {
    Function(NamespaceToolFunctionV),
    Custom(NamespaceToolCustomV),
}

impl View for NamespaceToolItem {
    type V = NamespaceToolItemV;

    open spec fn view(&self) -> NamespaceToolItemV {
        match self {
            NamespaceToolItem::Function(x) => NamespaceToolItemV::Function(x@),
            NamespaceToolItem::Custom(x) => NamespaceToolItemV::Custom(x@),
        }
    }
}

/// How a namespace entry reads: by its tag, `function` or `custom` (or,
/// read from a buffered value, their positions).
pub open spec fn namespace_tool_item_of(v: JsonV, by_position: bool) -> Option<NamespaceToolItemV> {
    match tag_and_body(v) {
        None => None,
        Some((t, body)) => if tag_is(t, "function"@, 0, by_position) {
            match namespace_tool_function_of(body) {
                Some(x) => Some(NamespaceToolItemV::Function(x)),
                None => None,
            }
        } else if tag_is(t, "custom"@, 1, by_position) {
            match namespace_tool_custom_of(body) {
                Some(x) => Some(NamespaceToolItemV::Custom(x)),
                None => None,
            }
        } else {
            None
        },
    }
}

impl NamespaceToolItem {
    /// Reads a namespace entry from a value of its own (see
    /// [`namespace_tool_item_of`]).
    pub fn from_json(v: &Json) -> (r: Option<NamespaceToolItem>)
        ensures
            o_view(r) == namespace_tool_item_of(v@, false),
    {
        Self::read(v, false)
    }

    /// Reads a namespace entry, naming variants by position too where
    /// `by_position` (see [`namespace_tool_item_of`]).
    pub fn read(v: &Json, by_position: bool) -> (r: Option<NamespaceToolItem>)
        ensures
            o_view(r) == namespace_tool_item_of(v@, by_position),
    {
        let (t, body) = match split_tag(v) {
            Some(p) => p,
            None => {
                return None;
            },
        };
        if tag_matches(&t, "function", 0, by_position) {
            match NamespaceToolFunction::from_json(&body) {
                Some(x) => Some(NamespaceToolItem::Function(x)),
                None => None,
            }
        } else if tag_matches(&t, "custom", 1, by_position) {
            match NamespaceToolCustom::from_json(&body) {
                Some(x) => Some(NamespaceToolItem::Custom(x)),
                None => None,
            }
        } else {
            None
        }
    }
}


// ─── Reading nested members ─────────────────────────────────────────────

pub open spec fn opt_hybrid_search_weights_member(o: Option<JsonV>) -> Option<Option<HybridSearchWeightsV>> {
    match o {
        None => Some(None),
        Some(JsonV::Null) => Some(None),
        Some(v) => match hybrid_search_weights_of(v) {
            Some(x) => Some(Some(x)),
            None => None,
        },
    }
}

pub(crate) fn opt_hybrid_search_weights_at(o: Option<&Json>) -> (r: Option<Option<HybridSearchWeights>>)
    ensures
        oo_view(r) == opt_hybrid_search_weights_member(opt_ref_view(o)),
{
    match o {
        None => Some(None),
        Some(Json::Null) => Some(None),
        Some(v) => match HybridSearchWeights::from_json(v) {
            Some(x) => Some(Some(x)),
            None => None,
        },
    }
}

pub open spec fn opt_network_policy_member(o: Option<JsonV>) -> Option<Option<NetworkPolicyV>> {
    match o {
        None => Some(None),
        Some(JsonV::Null) => Some(None),
        Some(v) => match network_policy_of(v) {
            Some(x) => Some(Some(x)),
            None => None,
        },
    }
}

pub(crate) fn opt_network_policy_at(o: Option<&Json>) -> (r: Option<Option<NetworkPolicy>>)
    ensures
        oo_view(r) == opt_network_policy_member(opt_ref_view(o)),
{
    match o {
        None => Some(None),
        Some(Json::Null) => Some(None),
        Some(v) => match NetworkPolicy::from_json(v) {
            Some(x) => Some(Some(x)),
            None => None,
        },
    }
}

pub open spec fn domain_secret_prefix(a: Seq<JsonV>, n: int) -> Option<Seq<DomainSecretV>>
    decreases n,
{
    if n <= 0 {
        Some(Seq::empty())
    } else {
        match (domain_secret_prefix(a, n - 1), domain_secret_of(a[n - 1])) {
            (Some(t), Some(x)) => Some(t.push(x)),
            _ => None,
        }
    }
}

proof fn lemma_domain_secret_prefix_none(a: Seq<JsonV>, n: int, m: int)
    requires
        1 <= n <= m,
        domain_secret_prefix(a, n) is None,
    ensures
        domain_secret_prefix(a, m) is None,
    decreases m - n,
{
    if n < m {
        lemma_domain_secret_prefix_none(a, n, m - 1);
    }
}

pub open spec fn domain_secret_list_member(o: Option<JsonV>) -> Option<Seq<DomainSecretV>> {
    match o {
        Some(JsonV::Array(a)) => domain_secret_prefix(a, a.len() as int),
        _ => None,
    }
}

pub(crate) fn domain_secret_list_at(o: Option<&Json>) -> (r: Option<Vec<DomainSecret>>)
    ensures
        opt_vec_view(r) == domain_secret_list_member(opt_ref_view(o)),
{
    match o {
        Some(Json::Array(a)) => {
            let ghost av = seq_view(a@);
            let mut out: Vec<DomainSecret> = Vec::new();
            let mut i: usize = 0;
            while i < a.len()
                invariant
                    i <= a@.len(),
                    av == seq_view(a@),
                    opt_ref_view(o) == Some(JsonV::Array(av)),
                    domain_secret_prefix(av, i as int) == Some(vec_view(out)),
                decreases a.len() - i,
            {
                assert(av[i as int] == a@[i as int]@);
                match DomainSecret::from_json(&a[i]) {
                    Some(x) => {
                        let ghost before = out@;
                        out.push(x);
                        assert(vec_view(out) =~= before.map_values(|y: DomainSecret| y@).push(x@));
                    },
                    None => {
                        proof {
                            lemma_domain_secret_prefix_none(av, i as int + 1, av.len() as int);
                        }
                        return None;
                    },
                }
                i = i + 1;
            }
            Some(out)
        },
        _ => None,
    }
}

pub open spec fn opt_domain_secret_list_member(o: Option<JsonV>) -> Option<Option<Seq<DomainSecretV>>> {
    match o {
        None => Some(None),
        Some(JsonV::Null) => Some(None),
        Some(v) => match domain_secret_list_member(Some(v)) {
            Some(x) => Some(Some(x)),
            None => None,
        },
    }
}

pub(crate) fn opt_domain_secret_list_at(o: Option<&Json>) -> (r: Option<Option<Vec<DomainSecret>>>)
    ensures
        match r {
            Some(x) => opt_domain_secret_list_member(opt_ref_view(o)) == Some(opt_vec_view(x)),
            None => opt_domain_secret_list_member(opt_ref_view(o)) is None,
        },
{
    match o {
        None => Some(None),
        Some(Json::Null) => Some(None),
        Some(v) => match domain_secret_list_at(Some(v)) {
            Some(x) => Some(Some(x)),
            None => None,
        },
    }
}

pub open spec fn skill_prefix(a: Seq<JsonV>, n: int) -> Option<Seq<SkillV>>
    decreases n,
{
    if n <= 0 {
        Some(Seq::empty())
    } else {
        match (skill_prefix(a, n - 1), skill_of(a[n - 1])) {
            (Some(t), Some(x)) => Some(t.push(x)),
            _ => None,
        }
    }
}

proof fn lemma_skill_prefix_none(a: Seq<JsonV>, n: int, m: int)
    requires
        1 <= n <= m,
        skill_prefix(a, n) is None,
    ensures
        skill_prefix(a, m) is None,
    decreases m - n,
{
    if n < m {
        lemma_skill_prefix_none(a, n, m - 1);
    }
}

pub open spec fn skill_list_member(o: Option<JsonV>) -> Option<Seq<SkillV>> {
    match o {
        Some(JsonV::Array(a)) => skill_prefix(a, a.len() as int),
        _ => None,
    }
}

pub(crate) fn skill_list_at(o: Option<&Json>) -> (r: Option<Vec<Skill>>)
    ensures
        opt_vec_view(r) == skill_list_member(opt_ref_view(o)),
{
    match o {
        Some(Json::Array(a)) => {
            let ghost av = seq_view(a@);
            let mut out: Vec<Skill> = Vec::new();
            let mut i: usize = 0;
            while i < a.len()
                invariant
                    i <= a@.len(),
                    av == seq_view(a@),
                    opt_ref_view(o) == Some(JsonV::Array(av)),
                    skill_prefix(av, i as int) == Some(vec_view(out)),
                decreases a.len() - i,
            {
                assert(av[i as int] == a@[i as int]@);
                match Skill::from_json(&a[i]) {
                    Some(x) => {
                        let ghost before = out@;
                        out.push(x);
                        assert(vec_view(out) =~= before.map_values(|y: Skill| y@).push(x@));
                    },
                    None => {
                        proof {
                            lemma_skill_prefix_none(av, i as int + 1, av.len() as int);
                        }
                        return None;
                    },
                }
                i = i + 1;
            }
            Some(out)
        },
        _ => None,
    }
}

pub open spec fn opt_skill_list_member(o: Option<JsonV>) -> Option<Option<Seq<SkillV>>> {
    match o {
        None => Some(None),
        Some(JsonV::Null) => Some(None),
        Some(v) => match skill_list_member(Some(v)) {
            Some(x) => Some(Some(x)),
            None => None,
        },
    }
}

pub(crate) fn opt_skill_list_at(o: Option<&Json>) -> (r: Option<Option<Vec<Skill>>>)
    ensures
        match r {
            Some(x) => opt_skill_list_member(opt_ref_view(o)) == Some(opt_vec_view(x)),
            None => opt_skill_list_member(opt_ref_view(o)) is None,
        },
{
    match o {
        None => Some(None),
        Some(Json::Null) => Some(None),
        Some(v) => match skill_list_at(Some(v)) {
            Some(x) => Some(Some(x)),
            None => None,
        },
    }
}

pub open spec fn local_skill_prefix(a: Seq<JsonV>, n: int) -> Option<Seq<LocalSkillV>>
    decreases n,
{
    if n <= 0 {
        Some(Seq::empty())
    } else {
        match (local_skill_prefix(a, n - 1), local_skill_of(a[n - 1])) {
            (Some(t), Some(x)) => Some(t.push(x)),
            _ => None,
        }
    }
}

proof fn lemma_local_skill_prefix_none(a: Seq<JsonV>, n: int, m: int)
    requires
        1 <= n <= m,
        local_skill_prefix(a, n) is None,
    ensures
        local_skill_prefix(a, m) is None,
    decreases m - n,
{
    if n < m {
        lemma_local_skill_prefix_none(a, n, m - 1);
    }
}

pub open spec fn local_skill_list_member(o: Option<JsonV>) -> Option<Seq<LocalSkillV>> {
    match o {
        Some(JsonV::Array(a)) => local_skill_prefix(a, a.len() as int),
        _ => None,
    }
}

pub(crate) fn local_skill_list_at(o: Option<&Json>) -> (r: Option<Vec<LocalSkill>>)
    ensures
        opt_vec_view(r) == local_skill_list_member(opt_ref_view(o)),
{
    match o {
        Some(Json::Array(a)) => {
            let ghost av = seq_view(a@);
            let mut out: Vec<LocalSkill> = Vec::new();
            let mut i: usize = 0;
            while i < a.len()
                invariant
                    i <= a@.len(),
                    av == seq_view(a@),
                    opt_ref_view(o) == Some(JsonV::Array(av)),
                    local_skill_prefix(av, i as int) == Some(vec_view(out)),
                decreases a.len() - i,
            {
                assert(av[i as int] == a@[i as int]@);
                match LocalSkill::from_json(&a[i]) {
                    Some(x) => {
                        let ghost before = out@;
                        out.push(x);
                        assert(vec_view(out) =~= before.map_values(|y: LocalSkill| y@).push(x@));
                    },
                    None => {
                        proof {
                            lemma_local_skill_prefix_none(av, i as int + 1, av.len() as int);
                        }
                        return None;
                    },
                }
                i = i + 1;
            }
            Some(out)
        },
        _ => None,
    }
}

pub open spec fn opt_local_skill_list_member(o: Option<JsonV>) -> Option<Option<Seq<LocalSkillV>>> {
    match o {
        None => Some(None),
        Some(JsonV::Null) => Some(None),
        Some(v) => match local_skill_list_member(Some(v)) {
            Some(x) => Some(Some(x)),
            None => None,
        },
    }
}

pub(crate) fn opt_local_skill_list_at(o: Option<&Json>) -> (r: Option<Option<Vec<LocalSkill>>>)
    ensures
        match r {
            Some(x) => opt_local_skill_list_member(opt_ref_view(o)) == Some(opt_vec_view(x)),
            None => opt_local_skill_list_member(opt_ref_view(o)) is None,
        },
{
    match o {
        None => Some(None),
        Some(Json::Null) => Some(None),
        Some(v) => match local_skill_list_at(Some(v)) {
            Some(x) => Some(Some(x)),
            None => None,
        },
    }
}

pub open spec fn mcp_approval_filter_member(o: Option<JsonV>) -> Option<McpApprovalFilterV> {
    match o {
        Some(v) => mcp_approval_filter_of(v),
        None => None,
    }
}

pub(crate) fn mcp_approval_filter_at(o: Option<&Json>) -> (r: Option<McpApprovalFilter>)
    ensures
        o_view(r) == mcp_approval_filter_member(opt_ref_view(o)),
{
    match o {
        Some(v) => McpApprovalFilter::from_json(v),
        None => None,
    }
}

pub open spec fn opt_custom_tool_format_member(o: Option<JsonV>) -> Option<Option<CustomToolFormatV>> {
    match o {
        None => Some(None),
        Some(JsonV::Null) => Some(None),
        Some(v) => match custom_tool_format_of(v) {
            Some(x) => Some(Some(x)),
            None => None,
        },
    }
}

pub(crate) fn opt_custom_tool_format_at(o: Option<&Json>) -> (r: Option<Option<CustomToolFormat>>)
    ensures
        oo_view(r) == opt_custom_tool_format_member(opt_ref_view(o)),
{
    match o {
        None => Some(None),
        Some(Json::Null) => Some(None),
        Some(v) => match CustomToolFormat::from_json(v) {
            Some(x) => Some(Some(x)),
            None => None,
        },
    }
}

pub open spec fn opt_user_location_member(o: Option<JsonV>) -> Option<Option<UserLocationV>> {
    match o {
        None => Some(None),
        Some(JsonV::Null) => Some(None),
        Some(v) => match user_location_of(v) {
            Some(x) => Some(Some(x)),
            None => None,
        },
    }
}

pub(crate) fn opt_user_location_at(o: Option<&Json>) -> (r: Option<Option<UserLocation>>)
    ensures
        oo_view(r) == opt_user_location_member(opt_ref_view(o)),
{
    match o {
        None => Some(None),
        Some(Json::Null) => Some(None),
        Some(v) => match UserLocation::from_json(v) {
            Some(x) => Some(Some(x)),
            None => None,
        },
    }
}

pub open spec fn opt_image_mask_member(o: Option<JsonV>) -> Option<Option<ImageMaskV>> {
    match o {
        None => Some(None),
        Some(JsonV::Null) => Some(None),
        Some(v) => match image_mask_of(v) {
            Some(x) => Some(Some(x)),
            None => None,
        },
    }
}

pub(crate) fn opt_image_mask_at(o: Option<&Json>) -> (r: Option<Option<ImageMask>>)
    ensures
        oo_view(r) == opt_image_mask_member(opt_ref_view(o)),
{
    match o {
        None => Some(None),
        Some(Json::Null) => Some(None),
        Some(v) => match ImageMask::from_json(v) {
            Some(x) => Some(Some(x)),
            None => None,
        },
    }
}

pub open spec fn opt_file_search_filters_member(o: Option<JsonV>) -> Option<Option<FileSearchFiltersV>> {
    match o {
        None => Some(None),
        Some(JsonV::Null) => Some(None),
        Some(v) => match file_search_filters_of(v) {
            Some(x) => Some(Some(x)),
            None => None,
        },
    }
}

pub(crate) fn opt_file_search_filters_at(o: Option<&Json>) -> (r: Option<Option<FileSearchFilters>>)
    ensures
        oo_view(r) == opt_file_search_filters_member(opt_ref_view(o)),
{
    match o {
        None => Some(None),
        Some(Json::Null) => Some(None),
        Some(v) => match FileSearchFilters::from_json(v) {
            Some(x) => Some(Some(x)),
            None => None,
        },
    }
}

pub open spec fn opt_ranking_options_member(o: Option<JsonV>) -> Option<Option<RankingOptionsV>> {
    match o {
        None => Some(None),
        Some(JsonV::Null) => Some(None),
        Some(v) => match ranking_options_of(v) {
            Some(x) => Some(Some(x)),
            None => None,
        },
    }
}

pub(crate) fn opt_ranking_options_at(o: Option<&Json>) -> (r: Option<Option<RankingOptions>>)
    ensures
        oo_view(r) == opt_ranking_options_member(opt_ref_view(o)),
{
    match o {
        None => Some(None),
        Some(Json::Null) => Some(None),
        Some(v) => match RankingOptions::from_json(v) {
            Some(x) => Some(Some(x)),
            None => None,
        },
    }
}

pub open spec fn opt_mcp_allowed_tools_member(o: Option<JsonV>) -> Option<Option<McpAllowedToolsV>> {
    match o {
        None => Some(None),
        Some(JsonV::Null) => Some(None),
        Some(v) => match mcp_allowed_tools_of(v) {
            Some(x) => Some(Some(x)),
            None => None,
        },
    }
}

pub(crate) fn opt_mcp_allowed_tools_at(o: Option<&Json>) -> (r: Option<Option<McpAllowedTools>>)
    ensures
        oo_view(r) == opt_mcp_allowed_tools_member(opt_ref_view(o)),
{
    match o {
        None => Some(None),
        Some(Json::Null) => Some(None),
        Some(v) => match McpAllowedTools::from_json(v) {
            Some(x) => Some(Some(x)),
            None => None,
        },
    }
}

pub open spec fn opt_mcp_require_approval_member(o: Option<JsonV>) -> Option<Option<McpRequireApprovalV>> {
    match o {
        None => Some(None),
        Some(JsonV::Null) => Some(None),
        Some(v) => match mcp_require_approval_of(v) {
            Some(x) => Some(Some(x)),
            None => None,
        },
    }
}

pub(crate) fn opt_mcp_require_approval_at(o: Option<&Json>) -> (r: Option<Option<McpRequireApproval>>)
    ensures
        oo_view(r) == opt_mcp_require_approval_member(opt_ref_view(o)),
{
    match o {
        None => Some(None),
        Some(Json::Null) => Some(None),
        Some(v) => match McpRequireApproval::from_json(v) {
            Some(x) => Some(Some(x)),
            None => None,
        },
    }
}

pub open spec fn opt_environment_member(o: Option<JsonV>, by_position: bool) -> Option<Option<EnvironmentV>> {
    match o {
        None => Some(None),
        Some(JsonV::Null) => Some(None),
        Some(v) => match environment_of(v, by_position) {
            Some(x) => Some(Some(x)),
            None => None,
        },
    }
}

pub(crate) fn opt_environment_at(o: Option<&Json>, by_position: bool) -> (r: Option<Option<Environment>>)
    ensures
        oo_view(r) == opt_environment_member(opt_ref_view(o), by_position),
{
    match o {
        None => Some(None),
        Some(Json::Null) => Some(None),
        Some(v) => match Environment::read(v, by_position) {
            Some(x) => Some(Some(x)),
            None => None,
        },
    }
}

pub open spec fn namespace_tool_item_prefix(a: Seq<JsonV>, n: int, by_position: bool) -> Option<Seq<NamespaceToolItemV>>
    decreases n,
{
    if n <= 0 {
        Some(Seq::empty())
    } else {
        match (namespace_tool_item_prefix(a, n - 1, by_position), namespace_tool_item_of(a[n - 1], by_position)) {
            (Some(t), Some(x)) => Some(t.push(x)),
            _ => None,
        }
    }
}

proof fn lemma_namespace_tool_item_prefix_none(a: Seq<JsonV>, n: int, m: int, by_position: bool)
    requires
        1 <= n <= m,
        namespace_tool_item_prefix(a, n, by_position) is None,
    ensures
        namespace_tool_item_prefix(a, m, by_position) is None,
    decreases m - n,
{
    if n < m {
        lemma_namespace_tool_item_prefix_none(a, n, m - 1, by_position);
    }
}

pub open spec fn namespace_tool_item_list_member(o: Option<JsonV>, by_position: bool) -> Option<Seq<NamespaceToolItemV>> {
    match o {
        Some(JsonV::Array(a)) => namespace_tool_item_prefix(a, a.len() as int, by_position),
        _ => None,
    }
}

pub(crate) fn namespace_tool_item_list_at(o: Option<&Json>, by_position: bool) -> (r: Option<Vec<NamespaceToolItem>>)
    ensures
        opt_vec_view(r) == namespace_tool_item_list_member(opt_ref_view(o), by_position),
{
    match o {
        Some(Json::Array(a)) => {
            let ghost av = seq_view(a@);
            let mut out: Vec<NamespaceToolItem> = Vec::new();
            let mut i: usize = 0;
            while i < a.len()
                invariant
                    i <= a@.len(),
                    av == seq_view(a@),
                    opt_ref_view(o) == Some(JsonV::Array(av)),
                    namespace_tool_item_prefix(av, i as int, by_position) == Some(vec_view(out)),
                decreases a.len() - i,
            {
                assert(av[i as int] == a@[i as int]@);
                match NamespaceToolItem::read(&a[i], by_position) {
                    Some(x) => {
                        let ghost before = out@;
                        out.push(x);
                        assert(vec_view(out) =~= before.map_values(|y: NamespaceToolItem| y@).push(x@));
                    },
                    None => {
                        proof {
                            lemma_namespace_tool_item_prefix_none(av, i as int + 1, av.len() as int, by_position);
                        }
                        return None;
                    },
                }
                i = i + 1;
            }
            Some(out)
        },
        _ => None,
    }
}

pub open spec fn opt_namespace_tool_item_list_member(o: Option<JsonV>, by_position: bool) -> Option<Option<Seq<NamespaceToolItemV>>> {
    match o {
        None => Some(None),
        Some(JsonV::Null) => Some(None),
        Some(v) => match namespace_tool_item_list_member(Some(v), by_position) {
            Some(x) => Some(Some(x)),
            None => None,
        },
    }
}

pub(crate) fn opt_namespace_tool_item_list_at(o: Option<&Json>, by_position: bool) -> (r: Option<Option<Vec<NamespaceToolItem>>>)
    ensures
        match r {
            Some(x) => opt_namespace_tool_item_list_member(opt_ref_view(o), by_position) == Some(opt_vec_view(x)),
            None => opt_namespace_tool_item_list_member(opt_ref_view(o), by_position) is None,
        },
{
    match o {
        None => Some(None),
        Some(Json::Null) => Some(None),
        Some(v) => match namespace_tool_item_list_at(Some(v), by_position) {
            Some(x) => Some(Some(x)),
            None => None,
        },
    }
}

pub open spec fn code_interpreter_container_member(o: Option<JsonV>) -> Option<CodeInterpreterContainerV> {
    match o {
        Some(v) => code_interpreter_container_of(v),
        None => None,
    }
}

pub(crate) fn code_interpreter_container_at(o: Option<&Json>) -> (r: Option<CodeInterpreterContainer>)
    ensures
        o_view(r) == code_interpreter_container_member(opt_ref_view(o)),
{
    match o {
        Some(v) => CodeInterpreterContainer::from_json(v),
        None => None,
    }
}

pub open spec fn opt_code_interpreter_container_member(o: Option<JsonV>) -> Option<Option<CodeInterpreterContainerV>> {
    match o {
        None => Some(None),
        Some(JsonV::Null) => Some(None),
        Some(v) => match code_interpreter_container_of(v) {
            Some(x) => Some(Some(x)),
            None => None,
        },
    }
}

pub(crate) fn opt_code_interpreter_container_at(o: Option<&Json>) -> (r: Option<Option<CodeInterpreterContainer>>)
    ensures
        oo_view(r) == opt_code_interpreter_container_member(opt_ref_view(o)),
{
    match o {
        None => Some(None),
        Some(Json::Null) => Some(None),
        Some(v) => match CodeInterpreterContainer::from_json(v) {
            Some(x) => Some(Some(x)),
            None => None,
        },
    }
}

} // verus!
