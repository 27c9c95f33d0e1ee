//! The configuration as the filters use it: names resolved, numbers brought into range.
use vstd::prelude::*;

use crate::a2a::SendConfiguration;
use crate::binding::{binding_of, UnknownBinding, UpstreamBinding};
use crate::config::{
    default_continuation_mode, default_response_type, default_upstream_binding, CacheConfig, Config,
    ExplicitConfig, ResponseConfig, ResponseField,
};
use crate::text::{lemma_trimmed_is_whole, lowered, same_text, trimmed};

verus! {

/// How a task is carried from one turn to the next.
#[derive(Debug, Clone, Copy, PartialEq, Eq, Structural)]
pub enum ContinuationMode {
    /// The bridge keeps the identifiers under a key that it derives from the conversation.
    Cache,
    /// The caller sends the identifiers; nothing is kept.
    Explicit,
    /// Every request stands alone. Its name is `none`.
    SingleShot,
}

/// How the upstream agent's reply is handed to the caller.
#[derive(Debug, Clone, Copy, PartialEq, Eq, Structural)]
pub enum ResponseType {
    /// As it is, byte for byte.
    Raw,
    /// As the mapping selects it.
    Mapping,
    /// As an object assembled from the fields.
    Fields,
}

/// What is wrong with a configuration.
#[derive(Debug, Clone, PartialEq, Eq)]
pub enum ConfigError {
    Binding(UnknownBinding),
    ContinuationMode(String),
    ResponseType(String),
}

impl ConfigError {
    /// What is wrong, for the operator.
    pub fn message(&self) -> (text: String)
        ensures
            text@ == match *self {
                ConfigError::Binding(unknown) => "unknown upstream binding '"@ + unknown.0@
                    + "' (expected 'jsonrpc' or 'httpjson')"@,
                ConfigError::ContinuationMode(name) => "unknown continuationMode '"@ + name@
                    + "' (expected 'cache', 'explicit', or 'none')"@,
                ConfigError::ResponseType(name) => "unknown responseType '"@ + name@
                    + "' (expected 'raw', 'mapping', or 'fields')"@,
            },
    {
        match self {
            ConfigError::Binding(unknown) => unknown.message(),
            ConfigError::ContinuationMode(name) => {
                let mut text = "unknown continuationMode '".to_owned();
                text.append(name.as_str());
                text.append("' (expected 'cache', 'explicit', or 'none')");
                text
            },
            ConfigError::ResponseType(name) => {
                let mut text = "unknown responseType '".to_owned();
                text.append(name.as_str());
                text.append("' (expected 'raw', 'mapping', or 'fields')");
                text
            },
        }
    }
}

/// The mode that a name stands for. Case and white space around the name do not matter.
pub open spec fn mode_of(name: Seq<char>) -> Option<ContinuationMode> {
    let name = lowered(trimmed(name));
    if name == "cache"@ {
        Some(ContinuationMode::Cache)
    } else if name == "explicit"@ {
        Some(ContinuationMode::Explicit)
    } else if name == "none"@ {
        Some(ContinuationMode::SingleShot)
    } else {
        None
    }
}

/// The shape that a name stands for. Case and white space around the name do not matter.
pub open spec fn response_type_of(name: Seq<char>) -> Option<ResponseType> {
    let name = lowered(trimmed(name));
    if name == "raw"@ {
        Some(ResponseType::Raw)
    } else if name == "mapping"@ {
        Some(ResponseType::Mapping)
    } else if name == "fields"@ {
        Some(ResponseType::Fields)
    } else {
        None
    }
}

impl ContinuationMode {
    /// The mode that `name` stands for.
    pub fn from_name(name: &str) -> (mode: Result<ContinuationMode, ConfigError>)
        ensures
            match mode {
                Ok(mode) => mode_of(name@) == Some(mode),
                Err(error) => mode_of(name@) is None && error is ContinuationMode
                    && error->ContinuationMode_0@ == lowered(trimmed(name@)),
            },
    {
        let name = name.trim().to_ascii_lowercase();
        if same_text(name.as_str(), "cache") {
            Ok(ContinuationMode::Cache)
        } else if same_text(name.as_str(), "explicit") {
            Ok(ContinuationMode::Explicit)
        } else if same_text(name.as_str(), "none") {
            Ok(ContinuationMode::SingleShot)
        } else {
            Err(ConfigError::ContinuationMode(name))
        }
    }
}

impl ResponseType {
    /// The shape that `name` stands for.
    pub fn from_name(name: &str) -> (shape: Result<ResponseType, ConfigError>)
        ensures
            match shape {
                Ok(shape) => response_type_of(name@) == Some(shape),
                Err(error) => response_type_of(name@) is None && error is ResponseType
                    && error->ResponseType_0@ == lowered(trimmed(name@)),
            },
    {
        let name = name.trim().to_ascii_lowercase();
        if same_text(name.as_str(), "raw") {
            Ok(ResponseType::Raw)
        } else if same_text(name.as_str(), "mapping") {
            Ok(ResponseType::Mapping)
        } else if same_text(name.as_str(), "fields") {
            Ok(ResponseType::Fields)
        } else {
            Err(ConfigError::ResponseType(name))
        }
    }
}

impl std::str::FromStr for ContinuationMode {
    type Err = ConfigError;

    fn from_str(s: &str) -> (mode: Result<ContinuationMode, ConfigError>)
        ensures
            match mode {
                Ok(mode) => mode_of(s@) == Some(mode),
                Err(error) => mode_of(s@) is None && error is ContinuationMode
                    && error->ContinuationMode_0@ == lowered(trimmed(s@)),
            },
    {
        ContinuationMode::from_name(s)
    }
}

impl std::str::FromStr for ResponseType {
    type Err = ConfigError;

    fn from_str(s: &str) -> (shape: Result<ResponseType, ConfigError>)
        ensures
            match shape {
                Ok(shape) => response_type_of(s@) == Some(shape),
                Err(error) => response_type_of(s@) is None && error is ResponseType
                    && error->ResponseType_0@ == lowered(trimmed(s@)),
            },
    {
        ResponseType::from_name(s)
    }
}

/// The configuration that the filters use.
#[derive(Debug)]
pub struct PolicyConfig {
    pub binding: UpstreamBinding,
    pub continuation_mode: ContinuationMode,
    pub prompt_selector: pdk::script::Script,
    pub context_key_selector: Option<pdk::script::Script>,
    pub task_id_selector: Option<pdk::script::Script>,
    pub context_id_selector: Option<pdk::script::Script>,
    pub response_type: ResponseType,
    pub response_mapping: Option<pdk::script::Script>,
    pub response_fields: Vec<ResponseField>,
    pub metadata_selector: Option<pdk::script::Script>,
    pub send_configuration: Option<SendConfiguration>,
    pub distributed: bool,
    pub conversation_ttl_seconds: u32,
    pub request_error_status: u32,
}

/// `value`, or the bound that it lies beyond.
pub open spec fn clamped(value: int, low: int, high: int) -> int {
    if value < low {
        low
    } else if value > high {
        high
    } else {
        value
    }
}

/// The mode of continuation: none where the master switch is off.
pub open spec fn effective_mode(enabled: bool, mode: ContinuationMode) -> ContinuationMode {
    if enabled {
        mode
    } else {
        ContinuationMode::SingleShot
    }
}

/// The shape of the response: `custom`, where it is set, decides in place of the named shape.
pub open spec fn effective_shape(
    named: ResponseType,
    custom: Option<bool>,
    fields: nat,
) -> ResponseType {
    match custom {
        None => named,
        Some(false) => ResponseType::Raw,
        Some(true) => if fields > 0 {
            ResponseType::Fields
        } else {
            ResponseType::Mapping
        },
    }
}

/// The fields that a configuration lists.
pub open spec fn listed_fields(config: Config) -> Seq<ResponseField> {
    match config.response_config {
        Some(response) => response.response_fields@,
        None => Seq::empty(),
    }
}

/// Whether `policy` is what the valid configuration `config` comes to.
pub open spec fn is_policy_of(policy: PolicyConfig, config: Config) -> bool {
    &&& Some(policy.binding) == binding_of(config.upstream_binding@)
    &&& policy.continuation_mode == effective_mode(
        config.enable_task_continuation,
        mode_of(config.continuation_mode@)->0,
    )
    &&& policy.response_type == effective_shape(
        response_type_of(config.response_type@)->0,
        config.custom_response,
        listed_fields(config).len(),
    )
    &&& policy.prompt_selector == config.prompt_selector
    &&& policy.context_key_selector == match config.cache_config {
        Some(cache) => cache.context_key_selector,
        None => None,
    }
    &&& policy.task_id_selector == match config.explicit_config {
        Some(explicit) => explicit.task_id_selector,
        None => None,
    }
    &&& policy.context_id_selector == match config.explicit_config {
        Some(explicit) => explicit.context_id_selector,
        None => None,
    }
    &&& policy.response_mapping == match config.response_config {
        Some(response) => response.response_mapping,
        None => None,
    }
    &&& policy.response_fields@ == listed_fields(config)
    &&& policy.metadata_selector == config.metadata_selector
    &&& match (policy.send_configuration, config.a2a_configuration) {
        (Some(send), Some(a2a)) => {
            &&& send.accepted_output_modes == a2a.accepted_output_modes
            &&& send.blocking == a2a.blocking
        },
        (None, None) => true,
        _ => false,
    }
    &&& policy.distributed == match config.cache_config {
        Some(cache) => cache.distributed,
        None => false,
    }
    &&& policy.conversation_ttl_seconds == clamped(
        match config.cache_config {
            Some(cache) => cache.conversation_ttl_seconds as int,
            None => 3600,
        },
        60,
        86400,
    )
    &&& policy.request_error_status == clamped(config.request_error_status as int, 400, 599)
}

/// `value`, or the bound that it lies beyond.
fn clamp(value: i64, low: u32, high: u32) -> (within: u32)
    requires
        low <= high,
    ensures
        within == clamped(value as int, low as int, high as int),
{
    if value < low as i64 {
        low
    } else if value > high as i64 {
        high
    } else {
        value as u32
    }
}

/// The store that the filters need.
#[derive(Debug, Clone, Copy, PartialEq, Eq, Structural)]
pub enum StoragePlan {
    /// None at all.
    Nothing,
    /// One per replica.
    Local,
    /// One that the replicas share, whose entries live that long.
    Remote { ttl_millis: u32 },
}

impl PolicyConfig {
    /// What every policy configuration satisfies.
    pub open spec fn in_range(&self) -> bool {
        &&& 60 <= self.conversation_ttl_seconds <= 86400
        &&& 400 <= self.request_error_status <= 599
    }

    /// Resolves the names of a configuration and brings its numbers into range. It fails on the
    /// first name that stands for nothing, in the order: binding, mode of continuation, shape of
    /// the response. A mode is looked at also where the master switch is off.
    pub fn from_generated(config: Config) -> (policy: Result<PolicyConfig, ConfigError>)
        ensures
            match policy {
                Ok(policy) => {
                    &&& binding_of(config.upstream_binding@) is Some
                    &&& mode_of(config.continuation_mode@) is Some
                    &&& response_type_of(config.response_type@) is Some
                    &&& is_policy_of(policy, config)
                    &&& policy.in_range()
                },
                Err(ConfigError::Binding(unknown)) => {
                    &&& binding_of(config.upstream_binding@) is None
                    &&& unknown.0@ == lowered(trimmed(config.upstream_binding@))
                },
                Err(ConfigError::ContinuationMode(name)) => {
                    &&& binding_of(config.upstream_binding@) is Some
                    &&& mode_of(config.continuation_mode@) is None
                    &&& name@ == lowered(trimmed(config.continuation_mode@))
                },
                Err(ConfigError::ResponseType(name)) => {
                    &&& binding_of(config.upstream_binding@) is Some
                    &&& mode_of(config.continuation_mode@) is Some
                    &&& response_type_of(config.response_type@) is None
                    &&& name@ == lowered(trimmed(config.response_type@))
                },
            },
    {
        let binding = match UpstreamBinding::from_name(config.upstream_binding.as_str()) {
            Ok(binding) => binding,
            Err(unknown) => {
                return Err(ConfigError::Binding(unknown));
            },
        };
        let mode = match ContinuationMode::from_name(config.continuation_mode.as_str()) {
            Ok(mode) => mode,
            Err(error) => {
                return Err(error);
            },
        };
        let named = match ResponseType::from_name(config.response_type.as_str()) {
            Ok(named) => named,
            Err(error) => {
                return Err(error);
            },
        };
        let cache = match config.cache_config {
            Some(cache) => cache,
            None => CacheConfig::default(),
        };
        let explicit = match config.explicit_config {
            Some(explicit) => explicit,
            None => ExplicitConfig::default(),
        };
        let response = match config.response_config {
            Some(response) => response,
            None => ResponseConfig::default(),
        };
        let continuation_mode = if config.enable_task_continuation {
            mode
        } else {
            ContinuationMode::SingleShot
        };
        let response_type = match config.custom_response {
            None => named,
            Some(false) => ResponseType::Raw,
            Some(true) => if response.response_fields.len() > 0 {
                ResponseType::Fields
            } else {
                ResponseType::Mapping
            },
        };
        let send_configuration = match config.a2a_configuration {
            Some(a2a) => Some(
                SendConfiguration {
                    accepted_output_modes: a2a.accepted_output_modes,
                    blocking: a2a.blocking,
                },
            ),
            None => None,
        };
        assert(response.response_fields@ =~= listed_fields(config));
        Ok(
            PolicyConfig {
                binding,
                continuation_mode,
                prompt_selector: config.prompt_selector,
                context_key_selector: cache.context_key_selector,
                task_id_selector: explicit.task_id_selector,
                context_id_selector: explicit.context_id_selector,
                response_type,
                response_mapping: response.response_mapping,
                response_fields: response.response_fields,
                metadata_selector: config.metadata_selector,
                send_configuration,
                distributed: cache.distributed,
                conversation_ttl_seconds: clamp(cache.conversation_ttl_seconds, 60, 86400),
                request_error_status: clamp(config.request_error_status, 400, 599),
            },
        )
    }

    /// Whether the bridge keeps conversations.
    pub fn uses_cache(&self) -> (yes: bool)
        ensures
            yes == (self.continuation_mode == ContinuationMode::Cache),
    {
        self.continuation_mode == ContinuationMode::Cache
    }

    /// Whether the reply passes as it is.
    pub fn uses_raw_response(&self) -> (yes: bool)
        ensures
            yes == (self.response_type == ResponseType::Raw),
    {
        self.response_type == ResponseType::Raw
    }

    /// Whether the response is assembled from the fields.
    pub fn uses_response_fields(&self) -> (yes: bool)
        ensures
            yes == (self.response_type == ResponseType::Fields),
    {
        self.response_type == ResponseType::Fields
    }

    /// The store that the filters need: one only where conversations are kept. The time to live of
    /// a shared one is that of its entries, as far as it can be told.
    pub fn storage_plan(&self) -> (plan: StoragePlan)
        ensures
            plan == (if self.continuation_mode != ContinuationMode::Cache {
                StoragePlan::Nothing
            } else if self.distributed {
                StoragePlan::Remote {
                    ttl_millis: clamped(
                        self.conversation_ttl_seconds * 1000,
                        0,
                        u32::MAX as int,
                    ) as u32,
                }
            } else {
                StoragePlan::Local
            }),
    {
        if !self.uses_cache() {
            StoragePlan::Nothing
        } else if self.distributed {
            let ttl_millis: u32 = if self.conversation_ttl_seconds > u32::MAX / 1000 {
                u32::MAX
            } else {
                self.conversation_ttl_seconds * 1000
            };
            StoragePlan::Remote { ttl_millis }
        } else {
            StoragePlan::Local
        }
    }
}

/// Where the master switch is off every request stands alone, whatever mode is named.
pub proof fn law_master_switch_overrides_the_mode(policy: PolicyConfig, config: Config)
    requires
        is_policy_of(policy, config),
        !config.enable_task_continuation,
    ensures
        policy.continuation_mode == ContinuationMode::SingleShot,
{
}

/// A configuration that leaves response shaping off passes every reply as it is, and one that
/// turns it on with fields listed uses them in place of a mapping, whatever shape is named.
pub proof fn law_response_switch_overrides_the_shape(policy: PolicyConfig, config: Config)
    requires
        is_policy_of(policy, config),
    ensures
        config.custom_response == Some(false) ==> policy.response_type == ResponseType::Raw,
        config.custom_response == Some(true) && policy.response_fields@.len() > 0
            ==> policy.response_type == ResponseType::Fields,
        config.custom_response == Some(true) && policy.response_fields@.len() == 0
            ==> policy.response_type == ResponseType::Mapping,
{
}

/// The names of the modes and of the shapes: each of these, and no other, after trimming and in
/// lower case.
pub proof fn law_modes_and_shapes_by_name(name: Seq<char>)
    ensures
        ({
            let known = lowered(trimmed(name));
            &&& mode_of(name) == Some(ContinuationMode::Cache) <==> known == "cache"@
            &&& mode_of(name) == Some(ContinuationMode::Explicit) <==> known == "explicit"@
            &&& mode_of(name) == Some(ContinuationMode::SingleShot) <==> known == "none"@
            &&& response_type_of(name) == Some(ResponseType::Raw) <==> known == "raw"@
            &&& response_type_of(name) == Some(ResponseType::Mapping) <==> known == "mapping"@
            &&& response_type_of(name) == Some(ResponseType::Fields) <==> known == "fields"@
        }),
{
    reveal_strlit("cache");
    reveal_strlit("explicit");
    reveal_strlit("none");
    reveal_strlit("raw");
    reveal_strlit("mapping");
    reveal_strlit("fields");
    assert("cache"@.len() == 5 && "explicit"@.len() == 8 && "none"@.len() == 4);
    assert("raw"@.len() == 3 && "mapping"@.len() == 7 && "fields"@.len() == 6);
}

/// A number that is brought into a range lies in it, and is the number itself where that does.
pub proof fn law_range_keeps_what_lies_in_it(value: int, low: int, high: int)
    requires
        low <= high,
    ensures
        low <= clamped(value, low, high) <= high,
        low <= value <= high ==> clamped(value, low, high) == value,
        value < low ==> clamped(value, low, high) == low,
        value > high ==> clamped(value, low, high) == high,
{
}

/// What a valid configuration comes to, setting by setting: the selectors, the fields and the
/// send's settings as they were given; the mode by its name unless tasks are not continued; the
/// shape by its name unless it is switched; the defaults of a missing group; the numbers within
/// their ranges.
pub proof fn law_settings_are_taken_over(policy: PolicyConfig, config: Config)
    requires
        is_policy_of(policy, config),
    ensures
        Some(policy.binding) == binding_of(config.upstream_binding@),
        config.enable_task_continuation && mode_of(config.continuation_mode@) is Some ==> Some(
            policy.continuation_mode,
        ) == mode_of(config.continuation_mode@),
        !config.enable_task_continuation ==> policy.continuation_mode
            == ContinuationMode::SingleShot,
        config.custom_response is None && response_type_of(config.response_type@) is Some ==> Some(
            policy.response_type,
        ) == response_type_of(config.response_type@),
        policy.prompt_selector == config.prompt_selector,
        policy.metadata_selector == config.metadata_selector,
        config.cache_config matches Some(cache) ==> {
            &&& policy.context_key_selector == cache.context_key_selector
            &&& policy.distributed == cache.distributed
            &&& 60 <= cache.conversation_ttl_seconds <= 86400 ==> policy.conversation_ttl_seconds
                == cache.conversation_ttl_seconds
            &&& cache.conversation_ttl_seconds < 60 ==> policy.conversation_ttl_seconds == 60
            &&& cache.conversation_ttl_seconds > 86400 ==> policy.conversation_ttl_seconds == 86400
        },
        config.cache_config is None ==> policy.context_key_selector is None && !policy.distributed
            && policy.conversation_ttl_seconds == 3600,
        config.explicit_config matches Some(explicit) ==> policy.task_id_selector
            == explicit.task_id_selector && policy.context_id_selector
            == explicit.context_id_selector,
        config.explicit_config is None ==> policy.task_id_selector is None
            && policy.context_id_selector is None,
        config.response_config matches Some(response) ==> policy.response_mapping
            == response.response_mapping && policy.response_fields@ == response.response_fields@,
        config.response_config is None ==> policy.response_mapping is None
            && policy.response_fields@.len() == 0,
        policy.send_configuration is Some <==> config.a2a_configuration is Some,
        config.a2a_configuration matches Some(a2a) ==> policy.send_configuration->0.blocking
            == a2a.blocking && policy.send_configuration->0.accepted_output_modes
            == a2a.accepted_output_modes,
        400 <= config.request_error_status <= 599 ==> policy.request_error_status
            == config.request_error_status,
        config.request_error_status < 400 ==> policy.request_error_status == 400,
        config.request_error_status > 599 ==> policy.request_error_status == 599,
{
}

/// A name in lower case without white space at its ends is known as it stands.
proof fn lemma_name_is_known_as_it_stands(name: Seq<char>)
    requires
        forall|i: int| 0 <= i < name.len() ==> 0x61 <= (#[trigger] name[i]) as int <= 0x7a,
    ensures
        lowered(trimmed(name)) == name,
{
    if name.len() > 0 {
        assert(0x61 <= name[0] as int <= 0x7a && 0x61 <= name.last() as int <= 0x7a);
    }
    lemma_trimmed_is_whole(name);
    assert(lowered(name) =~= name);
}

/// The names that are taken where the operator gives none are known: JSON-RPC, the cache mode, and
/// the reply as it is.
pub proof fn law_default_names_are_known(binding: String, mode: String, shape: String)
    requires
        call_ensures(default_upstream_binding, (), binding),
        call_ensures(default_continuation_mode, (), mode),
        call_ensures(default_response_type, (), shape),
    ensures
        binding_of(binding@) == Some(UpstreamBinding::JsonRpc),
        mode_of(mode@) == Some(ContinuationMode::Cache),
        response_type_of(shape@) == Some(ResponseType::Raw),
{
    reveal_strlit("jsonrpc");
    reveal_strlit("cache");
    reveal_strlit("raw");
    lemma_name_is_known_as_it_stands("jsonrpc"@);
    lemma_name_is_known_as_it_stands("cache"@);
    lemma_name_is_known_as_it_stands("raw"@);
}

/// A store is asked for exactly where conversations are kept, and a shared one exactly where it is
/// to be shared. Its entries live as long there as the conversations do, for every time to live
/// that a configuration comes to.
pub proof fn law_store_fits_the_conversations(config: &PolicyConfig, plan: StoragePlan)
    requires
        call_ensures(PolicyConfig::storage_plan, (config,), plan),
    ensures
        plan == StoragePlan::Nothing <==> config.continuation_mode != ContinuationMode::Cache,
        plan is Remote <==> config.continuation_mode == ContinuationMode::Cache
            && config.distributed,
        plan is Remote && config.in_range() ==> plan->ttl_millis
            == config.conversation_ttl_seconds * 1000,
{
}

} // verus!
