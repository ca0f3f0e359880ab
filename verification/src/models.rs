//! Descriptions of language models: what is known of a model from its
//! identifier, which models are offered by default, and how long a fetched
//! list stays fresh.

use vstd::multiset::Multiset;
use vstd::prelude::*;
use vstd::string::*;
use crate::cache::unix_time_secs;
use crate::text::{
    contains, contains_str, has_prefix, is_digit, lex_less, starts_with, str_eq, str_less,
    to_chars,
};
use crate::types::{CachedModels, ModelInfo, ModelValidation};

verus! {

/// Hours for which a fetched list of models stays fresh.
pub const DEFAULT_TTL_HOURS: u32 = 4;

/// What a model description says, with its texts as sequences of
/// characters.
pub ghost struct ModelInfoView {
    pub id: Seq<char>,
    pub display_name: Seq<char>,
    pub provider: Seq<char>,
    pub model_type: Seq<char>,
    pub context_window: Option<u32>,
    pub created_at: Option<i64>,
}

impl View for ModelInfo {
    type V = ModelInfoView;

    open spec fn view(&self) -> ModelInfoView {
        ModelInfoView {
            id: self.id@,
            display_name: self.display_name@,
            provider: self.provider@,
            model_type: self.model_type@,
            context_window: self.context_window,
            created_at: self.created_at,
        }
    }
}

/// The views of a list of model descriptions, in order.
pub open spec fn model_views(models: Seq<ModelInfo>) -> Seq<ModelInfoView> {
    models.map_values(|m: ModelInfo| m@)
}

/// What `s` holds behind its last hyphen; all of it where it has none.
pub open spec fn last_segment(s: Seq<char>) -> Seq<char>
    decreases s.len(),
{
    if s.len() == 0 || s.last() == '-' {
        Seq::empty()
    } else {
        last_segment(s.drop_last()).push(s.last())
    }
}

/// Whether `s` writes a date as eight ASCII digits.
pub open spec fn is_date_stamp(s: Seq<char>) -> bool {
    s.len() == 8 && forall|i: int| 0 <= i < s.len() ==> is_digit(#[trigger] s[i])
}

/// Whether a model identifier is an alias: one that does not end in a date
/// stamp, as snapshots do.
pub open spec fn alias_id(model_id: Seq<char>) -> bool {
    !is_date_stamp(last_segment(model_id))
}

/// The last segment starts behind the last hyphen.
pub proof fn lemma_last_segment(s: Seq<char>, start: int)
    requires
        0 <= start <= s.len(),
        forall|j: int| start <= j < s.len() ==> s[j] != '-',
        start == 0 || s[start - 1] == '-',
    ensures
        last_segment(s) == s.subrange(start, s.len() as int),
    decreases s.len(),
{
    if s.len() == 0 || start == s.len() {
        assert(s.subrange(start, s.len() as int) =~= Seq::<char>::empty());
    } else {
        lemma_last_segment(s.drop_last(), start);
        assert(s.subrange(start, s.len() as int) =~= s.drop_last().subrange(
            start,
            s.len() - 1,
        ).push(s.last()));
    }
}

/// Whether a model identifier is an alias.
pub fn is_alias(model_id: &str) -> (r: bool)
    ensures
        r == alias_id(model_id@),
{
    let v = to_chars(model_id);
    let mut start: usize = v.len();
    while start > 0 && v[start - 1] != '-'
        invariant
            start <= v.len(),
            forall|j: int| start <= j < v.len() ==> v@[j] != '-',
        decreases start,
    {
        start -= 1;
    }
    proof {
        lemma_last_segment(v@, start as int);
    }
    let ghost segment = v@.subrange(start as int, v.len() as int);
    if v.len() - start != 8 {
        return true;
    }
    let mut i: usize = start;
    while i < v.len()
        invariant
            start <= i <= v.len(),
            segment == v@.subrange(start as int, v.len() as int),
            segment == last_segment(model_id@),
            segment.len() == 8,
            forall|j: int| 0 <= j < i - start ==> is_digit(#[trigger] segment[j]),
        decreases v.len() - i,
    {
        let c = v[i];
        if !('0' <= c && c <= '9') {
            assert(!is_digit(segment[i - start]));
            return true;
        }
        i += 1;
    }
    false
}

/// What is known of a model beyond what a provider reports: the name to
/// display it under and the size of its context window.
#[derive(Debug)]
pub struct KnownModel {
    pub id: String,
    pub display_name: String,
    pub context_window: Option<u32>,
}

/// Display name and context window of the first entry of `catalogue` with
/// identifier `id`.
pub open spec fn known_metadata(catalogue: Seq<KnownModel>, id: Seq<char>) -> Option<
    (Seq<char>, Option<u32>),
>
    decreases catalogue.len(),
{
    if catalogue.len() == 0 {
        None
    } else if catalogue[0].id@ == id {
        Some((catalogue[0].display_name@, catalogue[0].context_window))
    } else {
        known_metadata(catalogue.drop_first(), id)
    }
}

/// What `catalogue` knows of the model with the given identifier.
pub fn known_model<'a>(catalogue: &'a Vec<KnownModel>, id: &str) -> (r: Option<&'a KnownModel>)
    ensures
        match r {
            Some(m) => known_metadata(catalogue@, id@) == Some(
                (m.display_name@, m.context_window),
            ),
            None => known_metadata(catalogue@, id@) is None,
        },
{
    let mut i: usize = 0;
    assert(catalogue@.skip(0) =~= catalogue@);
    while i < catalogue.len()
        invariant
            i <= catalogue.len(),
            known_metadata(catalogue@, id@) == known_metadata(catalogue@.skip(i as int), id@),
        decreases catalogue.len() - i,
    {
        let ghost rest = catalogue@.skip(i as int);
        assert(rest[0] == catalogue@[i as int]);
        assert(rest.drop_first() =~= catalogue@.skip(i + 1));
        if str_eq(catalogue[i].id.as_str(), id) {
            return Some(&catalogue[i]);
        }
        i += 1;
    }
    None
}

/// The kind of a model by its identifier: alias or snapshot.
pub open spec fn model_type_of(id: Seq<char>) -> Seq<char> {
    if alias_id(id) {
        "alias"@
    } else {
        "snapshot"@
    }
}

/// The description of a model from what a provider reports of it, with the
/// display name and context window of a known model in place of the
/// reported name.
pub open spec fn normalized(
    catalogue: Seq<KnownModel>,
    id: Seq<char>,
    reported_name: Seq<char>,
    provider: Seq<char>,
    created_at: Option<i64>,
) -> ModelInfoView {
    ModelInfoView {
        id,
        display_name: match known_metadata(catalogue, id) {
            Some((name, _)) => name,
            None => reported_name,
        },
        provider,
        model_type: model_type_of(id),
        context_window: match known_metadata(catalogue, id) {
            Some((_, window)) => window,
            None => None,
        },
        created_at,
    }
}

fn normalize(
    catalogue: &Vec<KnownModel>,
    id: String,
    reported_name: String,
    provider: &str,
    created_at: Option<i64>,
) -> (r: ModelInfo)
    ensures
        r@ == normalized(catalogue@, id@, reported_name@, provider@, created_at),
{
    let (display_name, context_window) = match known_model(catalogue, id.as_str()) {
        Some(m) => (m.display_name.clone(), m.context_window),
        None => (reported_name, None),
    };
    let model_type = if is_alias(id.as_str()) { "alias" } else { "snapshot" };
    ModelInfo {
        id,
        display_name,
        provider: provider.to_string(),
        model_type: model_type.to_string(),
        context_window,
        created_at,
    }
}

/// The description of an OpenAI model from its identifier and the time of
/// its creation; it is displayed under its identifier unless it is known.
pub fn normalize_openai_model(catalogue: &Vec<KnownModel>, id: String, created: Option<i64>) -> (r:
    ModelInfo)
    ensures
        r@ == normalized(catalogue@, id@, id@, "openai"@, created),
{
    let name = id.clone();
    normalize(catalogue, id, name, "openai", created)
}

/// Seconds since the Unix epoch of the moment that `text` writes in the
/// format of RFC 3339, where it writes one.
pub uninterp spec fn rfc3339_timestamp(text: Seq<char>) -> Option<i64>;

/// `chrono::DateTime::parse_from_rfc3339` on the text, and
/// `DateTime::timestamp` of the moment it gives; `None` where the text is
/// refused.
#[verifier::external_body]
fn parse_rfc3339(text: &str) -> (r: Option<i64>)
    ensures
        r == rfc3339_timestamp(text@),
{
    chrono::DateTime::parse_from_rfc3339(text).ok().map(|moment| moment.timestamp())
}

/// The creation time of a model from the text that reports it.
pub open spec fn created_at_of(reported: Option<String>) -> Option<i64> {
    match reported {
        Some(text) => rfc3339_timestamp(text@),
        None => None,
    }
}

/// The description of an Anthropic model from its identifier, the name it
/// is reported under and the reported time of its creation.
pub fn normalize_anthropic_model(
    catalogue: &Vec<KnownModel>,
    id: String,
    display_name: String,
    created_at: Option<String>,
) -> (r: ModelInfo)
    ensures
        r@ == normalized(
            catalogue@,
            id@,
            display_name@,
            "anthropic"@,
            created_at_of(created_at),
        ),
{
    let created = match &created_at {
        Some(text) => parse_rfc3339(text.as_str()),
        None => None,
    };
    normalize(catalogue, id, display_name, "anthropic", created)
}

/// Whether an OpenAI model is offered: one of the o-series or of GPT-5,
/// and no search or chat variant.
pub open spec fn relevant_openai_id(id: Seq<char>) -> bool {
    &&& !contains(id, "search"@)
    &&& !contains(id, "chat"@)
    &&& (has_prefix(id, "o"@) && id.len() > 1 && is_digit(id[1])) || has_prefix(id, "gpt-5"@)
}

/// Whether an OpenAI model is offered.
pub fn is_relevant_openai_model(id: &str) -> (r: bool)
    ensures
        r == relevant_openai_id(id@),
{
    let v = to_chars(id);
    if contains_str(&v, "search") || contains_str(&v, "chat") {
        return false;
    }
    let is_o_series = starts_with(&v, "o") && v.len() > 1 && '0' <= v[1] && v[1] <= '9';
    is_o_series || starts_with(&v, "gpt-5")
}

/// Whether a list fetched at `fetched_at` and fresh for `ttl_hours` hours
/// is still fresh at `now`, both in seconds since the Unix epoch.
pub open spec fn fresh_at(fetched_at: i64, ttl_hours: u32, now: i64) -> bool {
    now < fetched_at + ttl_hours * 3600
}

/// Whether a cached list of models is still fresh at `now`.
pub fn is_cache_valid_at(cached: &CachedModels, now: i64) -> (r: bool)
    ensures
        r == fresh_at(cached.fetched_at, cached.ttl_hours, now),
{
    let expires_at: i128 = cached.fetched_at as i128 + (cached.ttl_hours as i128) * 3600;
    (now as i128) < expires_at
}

/// The current time in whole seconds since the Unix epoch.
pub fn current_timestamp() -> i64 {
    #[verifier::truncate]
    (unix_time_secs() as i64)
}

/// Whether a cached list of models is still fresh now. A list that would
/// be stale at every moment is stale now, and one that would be fresh at
/// every moment is fresh now.
pub fn is_cache_valid(cached: &CachedModels) -> (r: bool)
    ensures
        exists|now: i64| r == #[trigger] fresh_at(cached.fetched_at, cached.ttl_hours, now),
{
    let now = current_timestamp();
    let r = is_cache_valid_at(cached, now);
    assert(r == fresh_at(cached.fetched_at, cached.ttl_hours, now));
    r
}

/// Age in whole minutes at `now` of a list fetched at `fetched_at`, as an
/// unsigned number: the minutes between the two, and for a list fetched in
/// the future their negative in two's complement.
pub open spec fn age_minutes(fetched_at: i64, now: i64) -> int {
    if now >= fetched_at {
        (now - fetched_at) / 60
    } else if (fetched_at - now) / 60 == 0 {
        0
    } else {
        0x1_0000_0000_0000_0000 - (fetched_at - now) / 60
    }
}

/// Age in whole minutes at `now` of a list fetched at `fetched_at`.
pub fn cache_age_minutes(fetched_at: i64, now: i64) -> (r: u64)
    requires
        i64::MIN <= now - fetched_at <= i64::MAX,
    ensures
        r == age_minutes(fetched_at, now),
{
    if now >= fetched_at {
        ((now - fetched_at) / 60) as u64
    } else {
        let behind: u64 = ((fetched_at as i128 - now as i128) / 60) as u64;
        if behind == 0 {
            0
        } else {
            u64::MAX - behind + 1
        }
    }
}

/// The greater of the ages seen so far and a further one.
pub fn oldest_age(seen: Option<u64>, age_minutes: u64) -> (r: Option<u64>)
    ensures
        r == Some(
            match seen {
                Some(a) => if a >= age_minutes {
                    a
                } else {
                    age_minutes
                },
                None => age_minutes,
            },
        ),
{
    match seen {
        Some(a) => if a >= age_minutes {
            Some(a)
        } else {
            Some(age_minutes)
        },
        None => Some(age_minutes),
    }
}

/// An alias that is offered before any list was fetched.
#[derive(Debug)]
pub struct DefaultAlias {
    pub id: String,
    pub display_name: String,
    pub provider: String,
}

/// The description of a default alias.
pub open spec fn default_alias_info(catalogue: Seq<KnownModel>, alias: DefaultAlias)
    -> ModelInfoView {
    ModelInfoView {
        id: alias.id@,
        display_name: alias.display_name@,
        provider: alias.provider@,
        model_type: "alias"@,
        context_window: match known_metadata(catalogue, alias.id@) {
            Some((_, window)) => window,
            None => None,
        },
        created_at: None,
    }
}

/// Whether `providers` names `provider`.
pub open spec fn offers(providers: Seq<String>, provider: Seq<char>) -> bool {
    exists|i: int| 0 <= i < providers.len() && (#[trigger] providers[i])@ == provider
}

/// The descriptions of those of `defaults` whose provider is among
/// `providers`, in order.
pub open spec fn offered_defaults(
    defaults: Seq<DefaultAlias>,
    catalogue: Seq<KnownModel>,
    providers: Seq<String>,
) -> Seq<ModelInfoView>
    decreases defaults.len(),
{
    if defaults.len() == 0 {
        Seq::empty()
    } else {
        offered_defaults(defaults.drop_last(), catalogue, providers) + if offers(
            providers,
            defaults.last().provider@,
        ) {
            seq![default_alias_info(catalogue, defaults.last())]
        } else {
            Seq::empty()
        }
    }
}

/// Whether `providers` names `provider`.
pub fn has_provider(providers: &Vec<String>, provider: &str) -> (r: bool)
    ensures
        r == offers(providers@, provider@),
{
    let mut i: usize = 0;
    while i < providers.len()
        invariant
            i <= providers.len(),
            forall|j: int| 0 <= j < i ==> (#[trigger] providers@[j])@ != provider@,
        decreases providers.len() - i,
    {
        if str_eq(providers[i].as_str(), provider) {
            return true;
        }
        i += 1;
    }
    false
}

/// The aliases that are offered before any list was fetched: those of
/// `defaults` that belong to one of the given providers, each with the
/// context window that the catalogue knows for it.
pub fn get_default_aliases(
    defaults: &Vec<DefaultAlias>,
    catalogue: &Vec<KnownModel>,
    providers: &Vec<String>,
) -> (r: Vec<ModelInfo>)
    ensures
        model_views(r@) == offered_defaults(defaults@, catalogue@, providers@),
{
    let mut out: Vec<ModelInfo> = Vec::new();
    let mut i: usize = 0;
    assert(defaults@.take(0) =~= Seq::<DefaultAlias>::empty());
    assert(model_views(out@) =~= offered_defaults(defaults@.take(0), catalogue@, providers@));
    while i < defaults.len()
        invariant
            i <= defaults.len(),
            model_views(out@) == offered_defaults(
                defaults@.take(i as int),
                catalogue@,
                providers@,
            ),
        decreases defaults.len() - i,
    {
        let alias = &defaults[i];
        let ghost before = out@;
        assert(defaults@.take(i + 1).drop_last() =~= defaults@.take(i as int));
        assert(defaults@.take(i + 1).last() == *alias);
        if has_provider(providers, alias.provider.as_str()) {
            let context_window = match known_model(catalogue, alias.id.as_str()) {
                Some(m) => m.context_window,
                None => None,
            };
            let info = ModelInfo {
                id: alias.id.clone(),
                display_name: alias.display_name.clone(),
                provider: alias.provider.clone(),
                model_type: "alias".to_string(),
                context_window,
                created_at: None,
            };
            assert(info@ == default_alias_info(catalogue@, *alias));
            out.push(info);
            assert(model_views(out@) =~= model_views(before) + seq![
                default_alias_info(catalogue@, *alias),
            ]);
        } else {
            assert(model_views(out@) =~= model_views(before) + Seq::<ModelInfoView>::empty());
        }
        i += 1;
    }
    assert(defaults@.take(defaults.len() as int) =~= defaults@);
    out
}

/// Whether one of `defaults` has identifier `id`.
pub open spec fn is_default_alias(defaults: Seq<DefaultAlias>, id: Seq<char>) -> bool {
    exists|i: int| 0 <= i < defaults.len() && (#[trigger] defaults[i]).id@ == id
}

/// Whether `id` is one of the default aliases, which always work.
pub fn is_known_alias(defaults: &Vec<DefaultAlias>, id: &str) -> (r: bool)
    ensures
        r == is_default_alias(defaults@, id@),
{
    let mut i: usize = 0;
    while i < defaults.len()
        invariant
            i <= defaults.len(),
            forall|j: int| 0 <= j < i ==> (#[trigger] defaults@[j]).id@ != id@,
        decreases defaults.len() - i,
    {
        if str_eq(defaults[i].id.as_str(), id) {
            return true;
        }
        i += 1;
    }
    false
}

/// Whether one of `models` has identifier `id`.
pub open spec fn lists_model(models: Seq<ModelInfo>, id: Seq<char>) -> bool {
    exists|i: int| 0 <= i < models.len() && (#[trigger] models[i]).id@ == id
}

/// Whether one of `models` has identifier `id`.
pub fn has_model(models: &Vec<ModelInfo>, id: &str) -> (r: bool)
    ensures
        r == lists_model(models@, id@),
{
    let mut i: usize = 0;
    while i < models.len()
        invariant
            i <= models.len(),
            forall|j: int| 0 <= j < i ==> (#[trigger] models@[j]).id@ != id@,
        decreases models.len() - i,
    {
        if str_eq(models[i].id.as_str(), id) {
            return true;
        }
        i += 1;
    }
    false
}

/// The model to fall back on for a model that no list holds: a fixed one
/// where the identifier starts like those of OpenAI, else `other`.
pub open spec fn fallback_for(id: Seq<char>, other: Seq<char>) -> Seq<char> {
    if has_prefix(id, "gpt"@) || has_prefix(id, "o1"@) || has_prefix(id, "o3"@) {
        "gpt-4o"@
    } else {
        other
    }
}

/// The verdict on a model that no list holds: invalid, with the model to
/// fall back on.
pub fn unknown_model(model_id: String, other_fallback: &str) -> (r: ModelValidation)
    ensures
        !r.is_valid,
        r.model_id == model_id,
        r.fallback_model matches Some(f) && f@ == fallback_for(model_id@, other_fallback@),
        r.message matches Some(m) && m@
            == "Model not found or no longer available. Suggested fallback: "@ + fallback_for(
            model_id@,
            other_fallback@,
        ),
{
    let v = to_chars(model_id.as_str());
    let fallback = if starts_with(&v, "gpt") || starts_with(&v, "o1") || starts_with(&v, "o3") {
        "gpt-4o"
    } else {
        other_fallback
    };
    ModelValidation {
        is_valid: false,
        model_id,
        fallback_model: Some(fallback.to_string()),
        message: Some(
            "Model not found or no longer available. Suggested fallback: ".to_string().concat(
                fallback,
            ),
        ),
    }
}

/// The verdict on a model that is known to work.
pub fn valid_model(model_id: String) -> (r: ModelValidation)
    ensures
        r.is_valid,
        r.model_id == model_id,
        r.fallback_model is None,
        r.message is None,
{
    ModelValidation { is_valid: true, model_id, fallback_model: None, message: None }
}

/// Whether `a` is listed before `b`: models are grouped by provider in
/// dictionary order; within a provider aliases come first; within those,
/// models without a creation time come first, in the dictionary order of
/// their display names, and then the others from the newest to the oldest.
pub open spec fn listed_before(a: ModelInfoView, b: ModelInfoView) -> bool {
    if a.provider != b.provider {
        lex_less(a.provider, b.provider)
    } else if (a.model_type == "alias"@) != (b.model_type == "alias"@) {
        a.model_type == "alias"@
    } else {
        match (a.created_at, b.created_at) {
            (Some(at), Some(bt)) => at > bt,
            (None, Some(_)) => true,
            (Some(_), None) => false,
            (None, None) => lex_less(a.display_name, b.display_name),
        }
    }
}

/// Whether `a` is listed before `b`.
pub fn is_listed_before(a: &ModelInfo, b: &ModelInfo) -> (r: bool)
    ensures
        r == listed_before(a@, b@),
{
    if !str_eq(a.provider.as_str(), b.provider.as_str()) {
        return str_less(a.provider.as_str(), b.provider.as_str());
    }
    let a_is_alias = str_eq(a.model_type.as_str(), "alias");
    let b_is_alias = str_eq(b.model_type.as_str(), "alias");
    if a_is_alias != b_is_alias {
        return a_is_alias;
    }
    match (a.created_at, b.created_at) {
        (Some(at), Some(bt)) => at > bt,
        (None, Some(_)) => true,
        (Some(_), None) => false,
        (None, None) => str_less(a.display_name.as_str(), b.display_name.as_str()),
    }
}

/// The ordered list `list` with `model` put in front of the first entry
/// that is not listed before it.
pub open spec fn placed(list: Seq<ModelInfoView>, model: ModelInfoView) -> Seq<ModelInfoView>
    decreases list.len(),
{
    if list.len() > 0 && listed_before(list[0], model) {
        seq![list[0]] + placed(list.drop_first(), model)
    } else {
        seq![model] + list
    }
}

/// `models` in the order in which they are listed. Models of which none is
/// listed before the other keep the order they came in.
pub open spec fn listed(models: Seq<ModelInfoView>) -> Seq<ModelInfoView>
    decreases models.len(),
{
    if models.len() == 0 {
        Seq::empty()
    } else {
        placed(listed(models.drop_first()), models[0])
    }
}

/// Placing a model puts it behind the entries that are listed before it.
pub proof fn lemma_placed(list: Seq<ModelInfoView>, model: ModelInfoView, n: int)
    requires
        0 <= n <= list.len(),
        forall|j: int| 0 <= j < n ==> listed_before(#[trigger] list[j], model),
        n == list.len() || !listed_before(list[n], model),
    ensures
        placed(list, model) == list.take(n) + seq![model] + list.skip(n),
    decreases n,
{
    if n == 0 {
        assert(list.take(0) + seq![model] + list.skip(0) =~= seq![model] + list);
    } else {
        let rest = list.drop_first();
        assert forall|j: int| 0 <= j < n - 1 implies listed_before(#[trigger] rest[j], model) by {
            assert(rest[j] == list[j + 1]);
        }
        lemma_placed(rest, model, n - 1);
        assert(seq![list[0]] + (rest.take(n - 1) + seq![model] + rest.skip(n - 1)) =~= list.take(n)
            + seq![model] + list.skip(n));
    }
}

/// A placed model adds one entry to the list and takes none away.
pub proof fn lemma_placed_keeps(list: Seq<ModelInfoView>, model: ModelInfoView)
    ensures
        placed(list, model).len() == list.len() + 1,
        placed(list, model).to_multiset() == list.to_multiset().insert(model),
    decreases list.len(),
{
    broadcast use vstd::seq_lib::group_to_multiset_ensures;

    if list.len() > 0 && listed_before(list[0], model) {
        let rest = list.drop_first();
        lemma_placed_keeps(rest, model);
        let tail = placed(rest, model);
        assert(list =~= seq![list[0]] + rest);
        vstd::seq_lib::lemma_multiset_commutative(seq![list[0]], tail);
        vstd::seq_lib::lemma_multiset_commutative(seq![list[0]], rest);
        assert(seq![list[0]].to_multiset().add(rest.to_multiset().insert(model)) =~= seq![
            list[0],
        ].to_multiset().add(rest.to_multiset()).insert(model));
    } else {
        vstd::seq_lib::lemma_multiset_commutative(seq![model], list);
        assert(seq![model] =~= Seq::<ModelInfoView>::empty().push(model));
        assert(seq![model].to_multiset() =~= Multiset::<ModelInfoView>::empty().insert(model));
        assert(seq![model].to_multiset().add(list.to_multiset()) =~= list.to_multiset().insert(
            model,
        ));
    }
}

/// The listing holds the models that were given, each as often as it was
/// given.
pub proof fn lemma_listed_keeps(models: Seq<ModelInfoView>)
    ensures
        listed(models).len() == models.len(),
        listed(models).to_multiset() == models.to_multiset(),
    decreases models.len(),
{
    broadcast use vstd::seq_lib::group_to_multiset_ensures;

    if models.len() == 0 {
        assert(listed(models).to_multiset() =~= models.to_multiset());
    } else {
        let rest = models.drop_first();
        lemma_listed_keeps(rest);
        lemma_placed_keeps(listed(rest), models[0]);
        assert(models =~= seq![models[0]] + rest);
        vstd::seq_lib::lemma_multiset_commutative(seq![models[0]], rest);
        assert(seq![models[0]] =~= Seq::<ModelInfoView>::empty().push(models[0]));
        assert(seq![models[0]].to_multiset() =~= Multiset::<ModelInfoView>::empty().insert(
            models[0],
        ));
        assert(seq![models[0]].to_multiset().add(rest.to_multiset()) =~= rest.to_multiset().insert(
            models[0],
        ));
    }
}

/// Puts `models` in the order in which they are listed.
pub fn sort_models(models: Vec<ModelInfo>) -> (r: Vec<ModelInfo>)
    ensures
        model_views(r@) == listed(model_views(models@)),
{
    let ghost given = model_views(models@);
    let mut rest = models;
    let mut out: Vec<ModelInfo> = Vec::new();
    assert(given.skip(given.len() as int) =~= Seq::<ModelInfoView>::empty());
    assert(model_views(out@) =~= listed(given.skip(given.len() as int)));
    while rest.len() > 0
        invariant
            rest@.len() <= given.len(),
            model_views(rest@) == given.take(rest@.len() as int),
            model_views(out@) == listed(given.skip(rest@.len() as int)),
        decreases rest@.len(),
    {
        let ghost n = rest@.len() as int;
        let ghost sorted = model_views(out@);
        let model = rest.pop().unwrap();
        proof {
            assert(model@ == given.take(n)[n - 1]);
            assert(model_views(rest@) =~= given.take(n - 1));
            assert(given.skip(n - 1)[0] == model@);
            assert(given.skip(n - 1).drop_first() =~= given.skip(n));
        }
        let mut i: usize = 0;
        while i < out.len() && is_listed_before(&out[i], &model)
            invariant
                i <= out.len(),
                sorted == model_views(out@),
                forall|j: int| 0 <= j < i ==> listed_before(#[trigger] sorted[j], model@),
            decreases out.len() - i,
        {
            i += 1;
        }
        proof {
            lemma_placed(sorted, model@, i as int);
        }
        out.insert(i, model);
        assert(model_views(out@) =~= sorted.take(i as int) + seq![model@] + sorted.skip(i as int));
    }
    assert(given.skip(0) =~= given);
    out
}

} // verus!
