pub mod asynch_mutex;
pub mod asyncify;
pub mod asyncify_mqtt;
pub mod asyncify_mqtt_client;
pub mod asyncs;
pub mod asyncs_signal;
pub mod atomic_swap;
pub mod captive;
pub mod channel;
pub mod cookies;
pub mod event_bus;
pub mod executor;
pub mod ghota;
pub mod http;
pub mod http_server;
pub mod io;
pub mod mqtt;
pub mod nonblocking_mqtt;
pub mod nonblocking_signal;
pub mod pinned_timer;
pub mod rest_captive;
pub mod rest_ota;
pub mod rest_role;
pub mod seqs;
pub mod strs;
pub mod timer;
pub mod waker;
pub mod wifi;
pub mod ws;
pub mod ws_server;
pub mod zerocopy;
