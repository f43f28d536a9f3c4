//! The decoded diagnostics documents and the uniform activity record.

use vstd::prelude::*;

verus! {

/// One SQL backend process of a node.
///
/// The optional fields are present only while a query or transaction runs on
/// the process; their absence means "not applicable".
#[derive(Debug)]
pub struct Connection {
    pub process_start_time: String,
    pub application_name: String,
    pub backend_type: String,
    /// Empty for a process that serves no user session.
    pub backend_status: String,
    pub db_oid: Option<u32>,
    pub db_name: Option<String>,
    pub host: Option<String>,
    pub port: Option<String>,
    pub query: Option<String>,
    pub query_start_time: Option<String>,
    pub transaction_start_time: Option<String>,
    pub process_running_for_ms: Option<u32>,
    pub transaction_running_for_ms: Option<u32>,
    pub query_running_for_ms: Option<u32>,
}

/// One CQL client socket of a node.
#[derive(Debug)]
pub struct InboundConnection {
    pub remote_ip: String,
    pub state: String,
    pub processed_call_count: u32,
    pub connection_details: Option<ConnectionDetails>,
    pub calls_in_flight: Option<Vec<CallsInFlight>>,
}

#[derive(Debug)]
pub struct ConnectionDetails {
    pub cql_connection_details: CqlConnectionDetails,
}

#[derive(Debug)]
pub struct CqlConnectionDetails {
    pub keyspace: String,
}

/// One call in progress on an inbound connection.
#[derive(Debug)]
pub struct CallsInFlight {
    pub elapsed_millis: u32,
    pub cql_details: CqlDetails,
}

#[derive(Debug)]
pub struct CqlDetails {
    /// The kind of call, such as `QUERY` or `BATCH`.
    pub call_type: String,
    /// The statements of the call: one for a query, several for a batch.
    pub call_details: Vec<CallDetails>,
}

#[derive(Debug, Clone)]
pub struct CallDetails {
    pub sql_id: Option<String>,
    pub sql_string: String,
    pub params: Option<String>,
}

/// What one node's diagnostics document holds.
#[derive(Debug)]
pub enum AllConnections {
    Connections { connections: Vec<Connection> },
    InboundConnections { inbound_connections: Vec<InboundConnection> },
    Empty,
}

/// One running query or call, whichever interface it came through.
#[derive(Debug)]
pub struct GeneralPresentation {
    /// `SQL` or `CQL`.
    pub api: String,
    /// The node that reported it.
    pub server: String,
    pub client: String,
    pub keyspace_db_name: String,
    pub status: String,
    pub query_time_ms: u32,
    pub query: String,
}

/// The contents of a [`GeneralPresentation`].
pub struct ActivityView {
    pub api: Seq<char>,
    pub server: Seq<char>,
    pub client: Seq<char>,
    pub keyspace_db_name: Seq<char>,
    pub status: Seq<char>,
    pub query_time_ms: u32,
    pub query: Seq<char>,
}

impl View for GeneralPresentation {
    type V = ActivityView;

    open spec fn view(&self) -> ActivityView {
        ActivityView {
            api: self.api@,
            server: self.server@,
            client: self.client@,
            keyspace_db_name: self.keyspace_db_name@,
            status: self.status@,
            query_time_ms: self.query_time_ms,
            query: self.query@,
        }
    }
}

/// The contents of each record of a sequence.
pub open spec fn views(records: Seq<GeneralPresentation>) -> Seq<ActivityView> {
    records.map_values(|g: GeneralPresentation| g@)
}

} // verus!
