//! The configuration as the operator writes it.
use vstd::prelude::*;

verus! {

/// `pdk`'s compiled selector. It is carried from the configuration to the place where it is
/// evaluated; nothing here looks inside.
#[verifier::external_type_specification]
#[verifier::external_body]
pub struct ExScript(pdk::script::Script);

/// The whole configuration.
#[derive(Debug)]
pub struct Config {
    pub upstream_binding: String,
    pub prompt_selector: pdk::script::Script,
    /// The master switch of task continuation. Where it is off, every request stands alone.
    pub enable_task_continuation: bool,
    pub continuation_mode: String,
    /// The settings of the cache mode; absent where the operator left them all out.
    pub cache_config: Option<CacheConfig>,
    /// The settings of the explicit mode.
    pub explicit_config: Option<ExplicitConfig>,
    pub response_type: String,
    /// Where the operator sets it, this decides in place of `response_type`: off means that the
    /// response passes as it is, on that it is shaped by the fields, or, where there are none, by
    /// the mapping.
    pub custom_response: Option<bool>,
    /// The settings of response shaping.
    pub response_config: Option<ResponseConfig>,
    pub a2a_configuration: Option<A2aConfiguration>,
    pub metadata_selector: Option<pdk::script::Script>,
    pub request_error_status: i64,
}

/// The settings of the cache mode.
#[derive(Debug)]
pub struct CacheConfig {
    pub context_key_selector: Option<pdk::script::Script>,
    pub distributed: bool,
    pub conversation_ttl_seconds: i64,
}

/// The settings of the explicit mode.
#[derive(Debug)]
pub struct ExplicitConfig {
    pub task_id_selector: Option<pdk::script::Script>,
    pub context_id_selector: Option<pdk::script::Script>,
}

/// The settings of response shaping.
#[derive(Debug)]
pub struct ResponseConfig {
    pub response_mapping: Option<pdk::script::Script>,
    pub response_fields: Vec<ResponseField>,
}

/// A field of a shaped response: the dotted name of its place, and the path of its value in the
/// upstream agent's result.
#[derive(Debug, Clone, PartialEq, Eq)]
pub struct ResponseField {
    pub name: String,
    pub selector: String,
}

/// The `configuration` that every send carries.
#[derive(Debug, Clone)]
pub struct A2aConfiguration {
    pub accepted_output_modes: Option<Vec<String>>,
    pub blocking: bool,
}

impl Default for CacheConfig {
    fn default() -> (config: CacheConfig)
        ensures
            config.context_key_selector is None,
            !config.distributed,
            config.conversation_ttl_seconds == 3600,
    {
        CacheConfig {
            context_key_selector: None,
            distributed: default_distributed(),
            conversation_ttl_seconds: default_conversation_ttl_seconds(),
        }
    }
}

impl Default for ExplicitConfig {
    fn default() -> (config: ExplicitConfig)
        ensures
            config.task_id_selector is None,
            config.context_id_selector is None,
    {
        ExplicitConfig { task_id_selector: None, context_id_selector: None }
    }
}

impl Default for ResponseConfig {
    fn default() -> (config: ResponseConfig)
        ensures
            config.response_mapping is None,
            config.response_fields@.len() == 0,
    {
        ResponseConfig { response_mapping: None, response_fields: Vec::new() }
    }
}

/// The binding where none is named.
pub fn default_upstream_binding() -> (name: String)
    ensures
        name@ == "jsonrpc"@,
{
    "jsonrpc".to_owned()
}

/// Whether tasks are continued where nothing is said of it.
pub fn default_enable_task_continuation() -> (enabled: bool)
    ensures
        enabled,
{
    true
}

/// The mode of continuation where none is named.
pub fn default_continuation_mode() -> (name: String)
    ensures
        name@ == "cache"@,
{
    "cache".to_owned()
}

/// Whether the store is shared between replicas where nothing is said of it.
pub fn default_distributed() -> (distributed: bool)
    ensures
        !distributed,
{
    false
}

/// The shape of the response where none is named.
pub fn default_response_type() -> (name: String)
    ensures
        name@ == "raw"@,
{
    "raw".to_owned()
}

/// How long a conversation is kept where nothing is said of it.
pub fn default_conversation_ttl_seconds() -> (seconds: i64)
    ensures
        seconds == 3600,
{
    3600
}

/// The status of a refused request where none is given.
pub fn default_request_error_status() -> (status: i64)
    ensures
        status == 400,
{
    400
}

/// Whether a send waits for its result where nothing is said of it.
pub fn default_blocking() -> (blocking: bool)
    ensures
        blocking,
{
    true
}

/// The settings of the cache mode as they are written in one place, each of them or not.
#[derive(Debug)]
pub struct CacheSettings {
    pub context_key_selector: Option<pdk::script::Script>,
    pub distributed: Option<bool>,
    pub conversation_ttl_seconds: Option<i64>,
}

/// The settings of response shaping as they are written in one place, each of them or not.
#[derive(Debug)]
pub struct ResponseSettings {
    pub response_mapping: Option<pdk::script::Script>,
    pub response_fields: Option<Vec<ResponseField>>,
}

/// The first of two settings that is there.
pub open spec fn first_set<T>(first: Option<T>, second: Option<T>) -> Option<T> {
    match first {
        Some(setting) => Some(setting),
        None => second,
    }
}

/// A setting, or its default.
pub open spec fn set_or<T>(setting: Option<T>, default: T) -> T {
    match setting {
        Some(setting) => setting,
        None => default,
    }
}

/// The first of two settings that is there.
fn either<T>(first: Option<T>, second: Option<T>) -> (setting: Option<T>)
    ensures
        setting == first_set(first, second),
{
    match first {
        Some(setting) => Some(setting),
        None => second,
    }
}

/// The settings of the cache mode. What its group says goes before what stands beside it.
pub fn merge_cache(group: CacheSettings, beside: CacheSettings) -> (config: CacheConfig)
    ensures
        config.context_key_selector == first_set(
            group.context_key_selector,
            beside.context_key_selector,
        ),
        config.distributed == set_or(first_set(group.distributed, beside.distributed), false),
        config.conversation_ttl_seconds == set_or(
            first_set(group.conversation_ttl_seconds, beside.conversation_ttl_seconds),
            3600,
        ),
{
    CacheConfig {
        context_key_selector: either(group.context_key_selector, beside.context_key_selector),
        distributed: match either(group.distributed, beside.distributed) {
            Some(distributed) => distributed,
            None => default_distributed(),
        },
        conversation_ttl_seconds: match either(
            group.conversation_ttl_seconds,
            beside.conversation_ttl_seconds,
        ) {
            Some(seconds) => seconds,
            None => default_conversation_ttl_seconds(),
        },
    }
}

/// The settings of the explicit mode. What its group says goes before what stands beside it.
pub fn merge_explicit(group: ExplicitConfig, beside: ExplicitConfig) -> (config: ExplicitConfig)
    ensures
        config.task_id_selector == first_set(group.task_id_selector, beside.task_id_selector),
        config.context_id_selector == first_set(
            group.context_id_selector,
            beside.context_id_selector,
        ),
{
    ExplicitConfig {
        task_id_selector: either(group.task_id_selector, beside.task_id_selector),
        context_id_selector: either(group.context_id_selector, beside.context_id_selector),
    }
}

/// The settings of response shaping. What the group of the mapping, or that of the fields, says
/// goes before what the common group says, and that before what stands beside them.
pub fn merge_response(
    mapping: Option<pdk::script::Script>,
    fields: Option<Vec<ResponseField>>,
    group: ResponseSettings,
    beside: ResponseSettings,
) -> (config: ResponseConfig)
    ensures
        config.response_mapping == first_set(
            mapping,
            first_set(group.response_mapping, beside.response_mapping),
        ),
        match first_set(fields, first_set(group.response_fields, beside.response_fields)) {
            Some(fields) => config.response_fields == fields,
            None => config.response_fields@.len() == 0,
        },
{
    ResponseConfig {
        response_mapping: either(mapping, either(group.response_mapping, beside.response_mapping)),
        response_fields: match either(
            fields,
            either(group.response_fields, beside.response_fields),
        ) {
            Some(fields) => fields,
            None => Vec::new(),
        },
    }
}

/// Of two settings the first goes before the second, and a default comes only where there is none.
pub proof fn law_first_setting_wins<T>(first: T, second: Option<T>, default: T)
    ensures
        first_set(Some(first), second) == Some(first),
        first_set(None, second) == second,
        set_or(Some(first), default) == first,
        set_or(None, default) == default,
{
}

} // verus!
