use vstd::prelude::*;

verus! {

/// Default destination port when the settings name none.
pub const DEFAULT_DB_PORT: u16 = 5432;

/// Largest number of undelivered records the process will hold in memory:
/// the pending queue's capacity, the lossy-backpressure bound.
pub const DB_INSERT_QUEUE_MAX_SIZE: usize = 1_000_000;

/// Seconds allowed for acquiring the destination connection.
pub const DB_CONNECT_TIMEOUT_SECS: u64 = 60;

/// Connection parameters for the destination database.
pub struct Database {
    pub host: String,
    pub port: Option<u16>,
    pub user: Option<String>,
    pub password: Option<String>,
    pub name: String,
}

impl Database {
    /// The port to connect to: the configured one, or the default.
    pub fn effective_port(&self) -> (p: u16)
        ensures
            p == match self.port {
                Option::Some(q) => q,
                Option::None => DEFAULT_DB_PORT,
            },
    {
        match self.port {
            Some(q) => q,
            None => DEFAULT_DB_PORT,
        }
    }
}

/// Port for the tool's own HTTP endpoint.
pub struct Http {
    pub port: u16,
}

/// Credentials for the telemetry source API.
pub struct Samsara {
    /// The source calls it an API token; some client generators call the
    /// same value an API key.
    pub api_token: String,
}

/// Settings for reaching the Transporter application's store.
pub struct Transporter {
    pub database: Database,
}

/// The tool's settings: loaded once at process start, immutable after.
pub struct Settings {
    pub http: Http,
    pub samsara: Samsara,
    pub transporter: Transporter,
}

/// The stat kinds requested from the telemetry source each cycle.
pub fn vehicle_stat_names() -> (v: Vec<String>)
    ensures
        v@.len() == 3,
        v@[0]@ == "gps"@,
        v@[1]@ == "engineStates"@,
        v@[2]@ == "obdOdometerMeters"@,
{
    let mut v: Vec<String> = Vec::new();
    v.push(String::from_str("gps"));
    v.push(String::from_str("engineStates"));
    v.push(String::from_str("obdOdometerMeters"));
    v
}

} // verus!
