use vstd::prelude::*;

verus! {

/// Transport that carries the MQTT frames.
#[derive(Clone, Copy, Debug, PartialEq, Eq, Structural)]
pub enum TransportProtocol {
    Mqtt,
    Mqtts,
    Ws,
    Wss,
}

/// Live status of one connection.
#[derive(Clone, Copy, Debug, PartialEq, Eq, Structural)]
pub enum ConnectionStatus {
    Disconnected,
    Connecting,
    Connected,
    Error,
}

/// Whether a message was received from or sent to the broker.
#[derive(Clone, Copy, Debug, PartialEq, Eq, Structural)]
pub enum MessageDirection {
    In,
    Out,
}

/// Intended use of a catalogued topic.
#[derive(Clone, Copy, Debug, PartialEq, Eq, Structural)]
pub enum TopicDirection {
    Publish,
    Subscribe,
    Both,
}

/// A broker entry that connection profiles may refer to.
#[derive(Clone, Debug)]
pub struct BrokerConfig {
    pub id: String,
    pub name: String,
    pub host: String,
    pub port: u16,
    pub protocol: TransportProtocol,
    pub path: Option<String>,
    pub ssl: bool,
}

/// Credentials that connection profiles may refer to.
#[derive(Clone, Debug)]
pub struct AuthIdentity {
    pub id: String,
    pub name: String,
    pub username: Option<String>,
    pub password: Option<String>,
    pub client_id: Option<String>,
}

/// A connection as the user configured it.
#[derive(Clone, Debug)]
pub struct ConnectionProfile {
    pub id: String,
    pub name: String,
    pub group: Option<String>,
    pub color_tag: Option<String>,
    pub broker_id: Option<String>,
    pub identity_id: Option<String>,
    pub host: String,
    pub port: u16,
    pub protocol: TransportProtocol,
    pub protocol_version: Option<u8>,
    pub path: Option<String>,
    pub ssl: bool,
    pub username: Option<String>,
    pub password: Option<String>,
    pub client_id: String,
    pub clean: bool,
}

/// Settings of the payload-generation service.
#[derive(Clone, Debug)]
pub struct AiConfig {
    pub base_url: Option<String>,
    pub api_key: Option<String>,
    pub model: Option<String>,
}

/// Notification sent on every status transition of a connection.
#[derive(Clone, Debug)]
pub struct MqttStatusPayload {
    pub connection_id: String,
    pub status: ConnectionStatus,
    pub last_error: Option<String>,
}

/// Notification carrying one flushed batch of messages.
#[derive(Clone, Debug)]
pub struct MqttMessageBatchPayload {
    pub connection_id: String,
    pub messages: Vec<MqttBatchItem>,
}

/// One message as it travels through a session.
#[derive(Clone, Debug)]
pub struct MqttBatchItem {
    pub topic: String,
    pub payload: String,
    pub qos: u8,
    pub retain: bool,
    pub direction: MessageDirection,
    pub timestamp: u64,
}

/// A reusable publish template.
#[derive(Clone, Debug)]
pub struct PayloadTemplate {
    pub id: String,
    pub name: String,
    pub topic: String,
    pub payload: String,
}

/// A documented topic of a connection.
#[derive(Clone, Debug)]
pub struct TopicCatalogItem {
    pub id: String,
    pub name: String,
    pub topic: String,
    pub direction: TopicDirection,
    pub qos: u8,
    pub retain: bool,
    pub content_type: Option<String>,
    pub description: Option<String>,
    pub tags: Vec<String>,
    pub payload_template: Option<String>,
    pub payload_example: Option<String>,
    pub schema: Option<String>,
}

/// The topic catalogue of one connection.
#[derive(Clone, Debug)]
pub struct ConnectionTopicDocument {
    pub version: String,
    pub updated_at: u64,
    pub topics: Vec<TopicCatalogItem>,
}

/// Everything the application keeps between runs.
#[derive(Clone, Debug)]
pub struct NativeAppConfig {
    pub connections: Vec<ConnectionProfile>,
    pub brokers: Vec<BrokerConfig>,
    pub identities: Vec<AuthIdentity>,
    pub ai_config: Option<AiConfig>,
    pub sidebar_open: Option<bool>,
    pub language: Option<String>,
    pub theme: Option<String>,
    pub active_connection_id: Option<String>,
    pub publisher_templates: Vec<PayloadTemplate>,
    pub connection_topic_docs: std::collections::HashMap<String, ConnectionTopicDocument>,
    pub updated_at: Option<u64>,
}

impl Default for NativeAppConfig {
    fn default() -> (r: Self)
        ensures
            r.connections@.len() == 0,
            r.brokers@.len() == 0,
            r.identities@.len() == 0,
            r.ai_config is None,
            r.sidebar_open is None,
            r.language is None,
            r.theme is None,
            r.active_connection_id is None,
            r.publisher_templates@.len() == 0,
            r.connection_topic_docs@.len() == 0,
            r.updated_at is None,
    {
        NativeAppConfig {
            connections: Vec::new(),
            brokers: Vec::new(),
            identities: Vec::new(),
            ai_config: None,
            sidebar_open: None,
            language: None,
            theme: None,
            active_connection_id: None,
            publisher_templates: Vec::new(),
            connection_topic_docs: std::collections::HashMap::new(),
            updated_at: None,
        }
    }
}

/// Where the configuration lives on disk.
#[derive(Clone, Debug)]
pub struct AppConfigPaths {
    pub config_dir: String,
    pub config_file: String,
}

/// A stored message: a batch item plus the id the store gave it.
#[derive(Clone, Debug)]
pub struct HistoryMessageRecord {
    pub id: i64,
    pub timestamp: u64,
    pub topic: String,
    pub payload: String,
    pub qos: u8,
    pub retain: bool,
    pub direction: MessageDirection,
}

/// What an export produced: where it went and how many rows it holds.
#[derive(Clone, Debug)]
pub struct HistoryExportResult {
    pub path: String,
    pub count: u64,
}

/// Fully resolved parameters of one session.
#[derive(Clone, Debug)]
pub struct ResolvedConnection {
    pub id: String,
    pub host: String,
    pub port: u16,
    pub protocol: TransportProtocol,
    pub protocol_version: u8,
    pub path: String,
    pub username: Option<String>,
    pub password: Option<String>,
    pub client_id: String,
    pub clean: bool,
}

} // verus!
