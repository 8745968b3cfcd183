pub mod acp_client;
pub mod acp_laws;
pub mod acp_wire_laws;
pub mod diff;
pub mod diff_laws;
pub mod divergence;
pub mod finding_laws;
pub mod json;
pub mod key_set;
pub mod lines;
pub mod model_laws;
pub mod pair;
pub mod probe;
pub mod probe_laws;
pub mod probe_run_laws;
pub mod qr;
pub mod qr_laws;
pub mod report;
pub mod report_laws;
pub mod schema;
pub mod schema_laws;
pub mod text;
pub mod text_laws;
pub mod text_map;
pub mod token;
pub mod transcript;
