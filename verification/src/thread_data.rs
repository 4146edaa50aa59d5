//! The thread-synchronization data shapes the sibling mock endpoints
//! exchange. They are plain records; dynamic JSON payloads are carried as
//! [`JsonValue`] trees.

use vstd::prelude::*;

use crate::json::JsonValue;

verus! {

/// An internal API call: a method name and its parameters.
pub struct InternalRequest {
    pub method: String,
    pub params: InternalParams,
}

pub struct InternalParams {
    pub thread: ThreadData,
    pub created_on_server: bool,
}

/// One synchronized conversation thread.
pub struct ThreadData {
    pub v: u32,
    pub id: String,
    pub created: u64,
    pub messages: Vec<ThreadMessage>,
    pub env: ThreadEnvironment,
    pub title: String,
    pub debug: Option<ThreadDebug>,
}

/// One message of a thread.
pub struct ThreadMessage {
    pub role: String,
    pub content: Vec<MessageContent>,
    pub user_state: Option<UserState>,
    pub meta: Option<MessageMeta>,
    pub state: Option<MessageState>,
    pub usage: Option<MessageUsage>,
}

/// One content block of a message.
pub struct MessageContent {
    pub content_type: String,
    pub data: MessageContentData,
}

/// The payload of a content block.
pub enum MessageContentData {
    Text { text: String },
    Thinking { thinking: String, signature: String },
}

/// What the user had open while the message was written.
pub struct UserState {
    pub currently_visible_files: Vec<String>,
    pub running_terminal_commands: Vec<String>,
}

pub struct MessageMeta {
    pub sent_at: u64,
}

pub struct MessageState {
    pub state_type: String,
    pub stop_reason: String,
}

/// Token accounting of one inference.
pub struct MessageUsage {
    pub max_input_tokens: u64,
    pub input_tokens: u64,
    pub output_tokens: u64,
    pub cache_creation_input_tokens: u64,
    pub cache_read_input_tokens: u64,
    pub total_input_tokens: u64,
    pub thinking_budget: u64,
}

pub struct ThreadDebug {
    pub last_inference_usage: MessageUsage,
    pub last_inference_input: JsonValue,
}

pub struct ThreadEnvironment {
    pub initial: InitialEnvironment,
    pub system_prompt_data: SystemPromptData,
}

pub struct InitialEnvironment {
    pub trees: Vec<TreeInfo>,
    pub platform: PlatformInfo,
    pub interactive: bool,
    pub tags: Vec<String>,
}

/// One workspace tree of the environment.
pub struct TreeInfo {
    pub display_name: String,
    pub fs_path: String,
    pub uri: String,
    pub repository: RepositoryInfo,
}

pub struct RepositoryInfo {
    pub repo_type: String,
    pub url: String,
    pub git_ref: String,
    pub sha: String,
}

pub struct PlatformInfo {
    pub os: String,
    pub os_version: String,
    pub cpu_architecture: String,
    pub web_browser: bool,
    pub client: String,
    pub client_version: String,
    pub client_type: String,
    pub config: ConfigInfo,
}

pub struct ConfigInfo {
    pub settings: Vec<ConfigSetting>,
    pub environment: Vec<JsonValue>,
}

/// One configuration setting as a key/value pair.
pub struct ConfigSetting {
    pub key: String,
    pub value: String,
}

pub struct SystemPromptData {
    pub workspace_paths: Vec<String>,
    pub working_directory: String,
    pub root_directory_listing: String,
}

} // verus!
