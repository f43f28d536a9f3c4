//! Recognising the shape of a diagnostics document and decoding it.
//!
//! A member whose value has the wrong type makes the whole object fail to
//! decode; members that no field names are ignored. An optional member may be
//! missing or `null`.

use vstd::prelude::*;
use crate::json::{JsonValue, json_field};
use crate::model::{
    AllConnections, CallDetails, CallsInFlight, Connection, ConnectionDetails,
    CqlConnectionDetails, CqlDetails, InboundConnection,
};

verus! {

// ---- members of one object ----

/// A member that is missing or `null`.
pub open spec fn absent(f: Option<JsonValue>) -> bool {
    f is None || f == Some(JsonValue::Null)
}

pub open spec fn is_text(f: Option<JsonValue>) -> bool {
    f matches Some(JsonValue::Str(_))
}

pub open spec fn is_opt_text(f: Option<JsonValue>) -> bool {
    absent(f) || is_text(f)
}

/// A number that fits in a `u32`.
pub open spec fn is_count(f: Option<JsonValue>) -> bool {
    f matches Some(JsonValue::Number(Some(n))) && n <= u32::MAX
}

pub open spec fn is_opt_count(f: Option<JsonValue>) -> bool {
    absent(f) || is_count(f)
}

pub open spec fn text_of(s: String, f: Option<JsonValue>) -> bool {
    f matches Some(JsonValue::Str(t)) && s@ == t@
}

pub open spec fn opt_text_of(o: Option<String>, f: Option<JsonValue>) -> bool {
    match o {
        Some(s) => text_of(s, f),
        None => absent(f),
    }
}

pub open spec fn count_of(n: u32, f: Option<JsonValue>) -> bool {
    f == Some(JsonValue::Number(Some(n as u64)))
}

pub open spec fn opt_count_of(o: Option<u32>, f: Option<JsonValue>) -> bool {
    match o {
        Some(n) => count_of(n, f),
        None => absent(f),
    }
}

fn text_field(v: &JsonValue, key: &str) -> (r: Option<String>)
    ensures
        match r {
            Some(s) => text_of(s, json_field(*v, key@)),
            None => !is_text(json_field(*v, key@)),
        },
{
    match v.field(key) {
        Some(JsonValue::Str(s)) => Some(s.clone()),
        _ => None,
    }
}

/// `Some(o)` where the member is an optional text, `o` being its value.
fn opt_text_field(v: &JsonValue, key: &str) -> (r: Option<Option<String>>)
    ensures
        match r {
            Some(o) => opt_text_of(o, json_field(*v, key@)),
            None => !is_opt_text(json_field(*v, key@)),
        },
{
    match v.field(key) {
        None => Some(None),
        Some(JsonValue::Null) => Some(None),
        Some(JsonValue::Str(s)) => Some(Some(s.clone())),
        _ => None,
    }
}

fn count_field(v: &JsonValue, key: &str) -> (r: Option<u32>)
    ensures
        match r {
            Some(n) => count_of(n, json_field(*v, key@)),
            None => !is_count(json_field(*v, key@)),
        },
{
    match v.field(key) {
        Some(JsonValue::Number(Some(n))) => {
            if *n <= u32::MAX as u64 {
                Some(*n as u32)
            } else {
                None
            }
        },
        _ => None,
    }
}

/// `Some(o)` where the member is an optional count, `o` being its value.
fn opt_count_field(v: &JsonValue, key: &str) -> (r: Option<Option<u32>>)
    ensures
        match r {
            Some(o) => opt_count_of(o, json_field(*v, key@)),
            None => !is_opt_count(json_field(*v, key@)),
        },
{
    match v.field(key) {
        None => Some(None),
        Some(JsonValue::Null) => Some(None),
        Some(JsonValue::Number(Some(n))) => {
            if *n <= u32::MAX as u64 {
                Some(Some(*n as u32))
            } else {
                None
            }
        },
        _ => None,
    }
}

// ---- SQL backend processes ----

pub open spec fn is_backend(v: JsonValue) -> bool {
    &&& is_text(json_field(v, "process_start_time"@))
    &&& is_text(json_field(v, "application_name"@))
    &&& is_text(json_field(v, "backend_type"@))
    &&& is_text(json_field(v, "backend_status"@))
    &&& is_opt_count(json_field(v, "db_oid"@))
    &&& is_opt_text(json_field(v, "db_name"@))
    &&& is_opt_text(json_field(v, "host"@))
    &&& is_opt_text(json_field(v, "port"@))
    &&& is_opt_text(json_field(v, "query"@))
    &&& is_opt_text(json_field(v, "query_start_time"@))
    &&& is_opt_text(json_field(v, "transaction_start_time"@))
    &&& is_opt_count(json_field(v, "process_running_for_ms"@))
    &&& is_opt_count(json_field(v, "transaction_running_for_ms"@))
    &&& is_opt_count(json_field(v, "query_running_for_ms"@))
}

/// `c` holds what the object `v` says of a backend process.
pub open spec fn decodes_backend(c: Connection, v: JsonValue) -> bool {
    &&& text_of(c.process_start_time, json_field(v, "process_start_time"@))
    &&& text_of(c.application_name, json_field(v, "application_name"@))
    &&& text_of(c.backend_type, json_field(v, "backend_type"@))
    &&& text_of(c.backend_status, json_field(v, "backend_status"@))
    &&& opt_count_of(c.db_oid, json_field(v, "db_oid"@))
    &&& opt_text_of(c.db_name, json_field(v, "db_name"@))
    &&& opt_text_of(c.host, json_field(v, "host"@))
    &&& opt_text_of(c.port, json_field(v, "port"@))
    &&& opt_text_of(c.query, json_field(v, "query"@))
    &&& opt_text_of(c.query_start_time, json_field(v, "query_start_time"@))
    &&& opt_text_of(c.transaction_start_time, json_field(v, "transaction_start_time"@))
    &&& opt_count_of(c.process_running_for_ms, json_field(v, "process_running_for_ms"@))
    &&& opt_count_of(c.transaction_running_for_ms, json_field(v, "transaction_running_for_ms"@))
    &&& opt_count_of(c.query_running_for_ms, json_field(v, "query_running_for_ms"@))
}

/// Decodes one backend process.
pub fn decode_connection(v: &JsonValue) -> (r: Option<Connection>)
    ensures
        match r {
            Some(c) => decodes_backend(c, *v),
            None => !is_backend(*v),
        },
{
    let process_start_time = text_field(v, "process_start_time")?;
    let application_name = text_field(v, "application_name")?;
    let backend_type = text_field(v, "backend_type")?;
    let backend_status = text_field(v, "backend_status")?;
    let db_oid = opt_count_field(v, "db_oid")?;
    let db_name = opt_text_field(v, "db_name")?;
    let host = opt_text_field(v, "host")?;
    let port = opt_text_field(v, "port")?;
    let query = opt_text_field(v, "query")?;
    let query_start_time = opt_text_field(v, "query_start_time")?;
    let transaction_start_time = opt_text_field(v, "transaction_start_time")?;
    let process_running_for_ms = opt_count_field(v, "process_running_for_ms")?;
    let transaction_running_for_ms = opt_count_field(v, "transaction_running_for_ms")?;
    let query_running_for_ms = opt_count_field(v, "query_running_for_ms")?;
    Some(
        Connection {
            process_start_time,
            application_name,
            backend_type,
            backend_status,
            db_oid,
            db_name,
            host,
            port,
            query,
            query_start_time,
            transaction_start_time,
            process_running_for_ms,
            transaction_running_for_ms,
            query_running_for_ms,
        },
    )
}

pub open spec fn all_backends(items: Seq<JsonValue>) -> bool {
    forall|i: int| 0 <= i < items.len() ==> is_backend(#[trigger] items[i])
}

pub open spec fn decodes_backends(cs: Seq<Connection>, items: Seq<JsonValue>) -> bool {
    &&& cs.len() == items.len()
    &&& forall|i: int| 0 <= i < items.len() ==> decodes_backend(#[trigger] cs[i], items[i])
}

fn decode_connections(items: &Vec<JsonValue>) -> (r: Option<Vec<Connection>>)
    ensures
        match r {
            Some(cs) => decodes_backends(cs@, items@),
            None => !all_backends(items@),
        },
{
    let mut out: Vec<Connection> = Vec::new();
    let mut i: usize = 0;
    while i < items.len()
        invariant
            i <= items@.len(),
            out@.len() == i,
            forall|j: int| 0 <= j < i ==> decodes_backend(#[trigger] out@[j], items@[j]),
        decreases items@.len() - i,
    {
        match decode_connection(&items[i]) {
            Some(c) => out.push(c),
            None => return None,
        }
        i = i + 1;
    }
    Some(out)
}

// ---- CQL inbound connections ----

pub open spec fn is_statement(v: JsonValue) -> bool {
    &&& is_opt_text(json_field(v, "sql_id"@))
    &&& is_text(json_field(v, "sql_string"@))
    &&& is_opt_text(json_field(v, "params"@))
}

pub open spec fn decodes_statement(d: CallDetails, v: JsonValue) -> bool {
    &&& opt_text_of(d.sql_id, json_field(v, "sql_id"@))
    &&& text_of(d.sql_string, json_field(v, "sql_string"@))
    &&& opt_text_of(d.params, json_field(v, "params"@))
}

pub open spec fn all_statements(items: Seq<JsonValue>) -> bool {
    forall|i: int| 0 <= i < items.len() ==> is_statement(#[trigger] items[i])
}

pub open spec fn decodes_statements(ds: Seq<CallDetails>, items: Seq<JsonValue>) -> bool {
    &&& ds.len() == items.len()
    &&& forall|i: int| 0 <= i < items.len() ==> decodes_statement(#[trigger] ds[i], items[i])
}

/// The `cql_details` block of a call: its type and its list of statements.
pub open spec fn is_cql_details(f: Option<JsonValue>) -> bool {
    &&& f is Some
    &&& is_text(json_field(f->0, "type"@))
    &&& json_field(f->0, "call_details"@) matches Some(JsonValue::Array(items))
    &&& all_statements(items@)
}

pub open spec fn decodes_cql_details(d: CqlDetails, f: Option<JsonValue>) -> bool {
    &&& f is Some
    &&& text_of(d.call_type, json_field(f->0, "type"@))
    &&& json_field(f->0, "call_details"@) matches Some(JsonValue::Array(items))
    &&& decodes_statements(d.call_details@, items@)
}

pub open spec fn is_call(v: JsonValue) -> bool {
    &&& is_count(json_field(v, "elapsed_millis"@))
    &&& is_cql_details(json_field(v, "cql_details"@))
}

pub open spec fn decodes_call(c: CallsInFlight, v: JsonValue) -> bool {
    &&& count_of(c.elapsed_millis, json_field(v, "elapsed_millis"@))
    &&& decodes_cql_details(c.cql_details, json_field(v, "cql_details"@))
}

pub open spec fn all_calls(items: Seq<JsonValue>) -> bool {
    forall|i: int| 0 <= i < items.len() ==> is_call(#[trigger] items[i])
}

pub open spec fn decodes_calls(cs: Seq<CallsInFlight>, items: Seq<JsonValue>) -> bool {
    &&& cs.len() == items.len()
    &&& forall|i: int| 0 <= i < items.len() ==> decodes_call(#[trigger] cs[i], items[i])
}

/// The optional `connection_details` block: it names the keyspace in use.
pub open spec fn is_opt_details(f: Option<JsonValue>) -> bool {
    ||| absent(f)
    ||| f matches Some(d) && json_field(d, "cql_connection_details"@) matches Some(c) && is_text(
        json_field(c, "keyspace"@),
    )
}

pub open spec fn decodes_opt_details(o: Option<ConnectionDetails>, f: Option<JsonValue>) -> bool {
    match o {
        None => absent(f),
        Some(d) => f matches Some(dv) && json_field(dv, "cql_connection_details"@) matches Some(
            cv,
        ) && text_of(d.cql_connection_details.keyspace, json_field(cv, "keyspace"@)),
    }
}

/// The optional `calls_in_flight` list.
pub open spec fn is_opt_calls(f: Option<JsonValue>) -> bool {
    absent(f) || (f matches Some(JsonValue::Array(items)) && all_calls(items@))
}

pub open spec fn decodes_opt_calls(o: Option<Vec<CallsInFlight>>, f: Option<JsonValue>) -> bool {
    match o {
        None => absent(f),
        Some(cs) => f matches Some(JsonValue::Array(items)) && decodes_calls(cs@, items@),
    }
}

pub open spec fn is_inbound(v: JsonValue) -> bool {
    &&& is_text(json_field(v, "remote_ip"@))
    &&& is_text(json_field(v, "state"@))
    &&& is_count(json_field(v, "processed_call_count"@))
    &&& is_opt_details(json_field(v, "connection_details"@))
    &&& is_opt_calls(json_field(v, "calls_in_flight"@))
}

/// `c` holds what the object `v` says of an inbound connection.
pub open spec fn decodes_inbound(c: InboundConnection, v: JsonValue) -> bool {
    &&& text_of(c.remote_ip, json_field(v, "remote_ip"@))
    &&& text_of(c.state, json_field(v, "state"@))
    &&& count_of(c.processed_call_count, json_field(v, "processed_call_count"@))
    &&& decodes_opt_details(c.connection_details, json_field(v, "connection_details"@))
    &&& decodes_opt_calls(c.calls_in_flight, json_field(v, "calls_in_flight"@))
}

pub open spec fn all_inbounds(items: Seq<JsonValue>) -> bool {
    forall|i: int| 0 <= i < items.len() ==> is_inbound(#[trigger] items[i])
}

pub open spec fn decodes_inbounds(cs: Seq<InboundConnection>, items: Seq<JsonValue>) -> bool {
    &&& cs.len() == items.len()
    &&& forall|i: int| 0 <= i < items.len() ==> decodes_inbound(#[trigger] cs[i], items[i])
}

fn decode_statement(v: &JsonValue) -> (r: Option<CallDetails>)
    ensures
        match r {
            Some(d) => decodes_statement(d, *v),
            None => !is_statement(*v),
        },
{
    let sql_id = opt_text_field(v, "sql_id")?;
    let sql_string = text_field(v, "sql_string")?;
    let params = opt_text_field(v, "params")?;
    Some(CallDetails { sql_id, sql_string, params })
}

fn decode_statements(items: &Vec<JsonValue>) -> (r: Option<Vec<CallDetails>>)
    ensures
        match r {
            Some(ds) => decodes_statements(ds@, items@),
            None => !all_statements(items@),
        },
{
    let mut out: Vec<CallDetails> = Vec::new();
    let mut i: usize = 0;
    while i < items.len()
        invariant
            i <= items@.len(),
            out@.len() == i,
            forall|j: int| 0 <= j < i ==> decodes_statement(#[trigger] out@[j], items@[j]),
        decreases items@.len() - i,
    {
        match decode_statement(&items[i]) {
            Some(d) => out.push(d),
            None => return None,
        }
        i = i + 1;
    }
    Some(out)
}

fn decode_cql_details(f: Option<&JsonValue>) -> (r: Option<CqlDetails>)
    ensures
        match f {
            Some(v) => match r {
                Some(d) => decodes_cql_details(d, Some(*v)),
                None => !is_cql_details(Some(*v)),
            },
            None => r is None,
        },
{
    let v = f?;
    let call_type = text_field(v, "type")?;
    match v.field("call_details") {
        Some(JsonValue::Array(items)) => {
            let call_details = decode_statements(items)?;
            Some(CqlDetails { call_type, call_details })
        },
        _ => None,
    }
}

fn decode_call(v: &JsonValue) -> (r: Option<CallsInFlight>)
    ensures
        match r {
            Some(c) => decodes_call(c, *v),
            None => !is_call(*v),
        },
{
    let elapsed_millis = count_field(v, "elapsed_millis")?;
    let cql_details = decode_cql_details(v.field("cql_details"))?;
    Some(CallsInFlight { elapsed_millis, cql_details })
}

fn decode_calls(items: &Vec<JsonValue>) -> (r: Option<Vec<CallsInFlight>>)
    ensures
        match r {
            Some(cs) => decodes_calls(cs@, items@),
            None => !all_calls(items@),
        },
{
    let mut out: Vec<CallsInFlight> = Vec::new();
    let mut i: usize = 0;
    while i < items.len()
        invariant
            i <= items@.len(),
            out@.len() == i,
            forall|j: int| 0 <= j < i ==> decodes_call(#[trigger] out@[j], items@[j]),
        decreases items@.len() - i,
    {
        match decode_call(&items[i]) {
            Some(c) => out.push(c),
            None => return None,
        }
        i = i + 1;
    }
    Some(out)
}

/// `Some(o)` where the `connection_details` member is well formed.
fn decode_opt_details(f: Option<&JsonValue>) -> (r: Option<Option<ConnectionDetails>>)
    ensures
        match f {
            Some(v) => match r {
                Some(o) => decodes_opt_details(o, Some(*v)),
                None => !is_opt_details(Some(*v)),
            },
            None => r == Some(None::<ConnectionDetails>),
        },
{
    match f {
        None => Some(None),
        Some(JsonValue::Null) => Some(None),
        Some(v) => match v.field("cql_connection_details") {
            Some(c) => {
                let keyspace = text_field(c, "keyspace")?;
                Some(Some(ConnectionDetails { cql_connection_details: CqlConnectionDetails { keyspace } }))
            },
            None => None,
        },
    }
}

/// `Some(o)` where the `calls_in_flight` member is well formed.
fn decode_opt_calls(f: Option<&JsonValue>) -> (r: Option<Option<Vec<CallsInFlight>>>)
    ensures
        match f {
            Some(v) => match r {
                Some(o) => decodes_opt_calls(o, Some(*v)),
                None => !is_opt_calls(Some(*v)),
            },
            None => r == Some(None::<Vec<CallsInFlight>>),
        },
{
    match f {
        None => Some(None),
        Some(JsonValue::Null) => Some(None),
        Some(JsonValue::Array(items)) => {
            let calls = decode_calls(items)?;
            Some(Some(calls))
        },
        Some(_) => None,
    }
}

/// Decodes one inbound connection.
pub fn decode_inbound_connection(v: &JsonValue) -> (r: Option<InboundConnection>)
    ensures
        match r {
            Some(c) => decodes_inbound(c, *v),
            None => !is_inbound(*v),
        },
{
    let remote_ip = text_field(v, "remote_ip")?;
    let state = text_field(v, "state")?;
    let processed_call_count = count_field(v, "processed_call_count")?;
    let connection_details = decode_opt_details(v.field("connection_details"))?;
    let calls_in_flight = decode_opt_calls(v.field("calls_in_flight"))?;
    Some(
        InboundConnection {
            remote_ip,
            state,
            processed_call_count,
            connection_details,
            calls_in_flight,
        },
    )
}

fn decode_inbound_connections(items: &Vec<JsonValue>) -> (r: Option<Vec<InboundConnection>>)
    ensures
        match r {
            Some(cs) => decodes_inbounds(cs@, items@),
            None => !all_inbounds(items@),
        },
{
    let mut out: Vec<InboundConnection> = Vec::new();
    let mut i: usize = 0;
    while i < items.len()
        invariant
            i <= items@.len(),
            out@.len() == i,
            forall|j: int| 0 <= j < i ==> decodes_inbound(#[trigger] out@[j], items@[j]),
        decreases items@.len() - i,
    {
        match decode_inbound_connection(&items[i]) {
            Some(c) => out.push(c),
            None => return None,
        }
        i = i + 1;
    }
    Some(out)
}

proof fn lemma_decoded_call_is_call(c: CallsInFlight, v: JsonValue)
    requires
        decodes_call(c, v),
    ensures
        is_call(v),
{
    let f = json_field(v, "cql_details"@);
    if let Some(JsonValue::Array(items)) = json_field(f->0, "call_details"@) {
        assert forall|i: int| 0 <= i < items@.len() implies is_statement(#[trigger] items@[i]) by {
            assert(decodes_statement(c.cql_details.call_details@[i], items@[i]));
        }
    }
}

proof fn lemma_decoded_inbound_is_inbound(c: InboundConnection, v: JsonValue)
    requires
        decodes_inbound(c, v),
    ensures
        is_inbound(v),
{
    if let Some(cs) = c.calls_in_flight {
        if let Some(JsonValue::Array(items)) = json_field(v, "calls_in_flight"@) {
            assert forall|i: int| 0 <= i < items@.len() implies is_call(#[trigger] items@[i]) by {
                lemma_decoded_call_is_call(cs@[i], items@[i]);
            }
        }
    }
}

// ---- whole documents ----

/// The document has a `connections` list of backend processes.
pub open spec fn is_backend_payload(doc: JsonValue) -> bool {
    json_field(doc, "connections"@) matches Some(JsonValue::Array(items)) && all_backends(items@)
}

/// The document has an `inbound_connections` list of inbound connections.
pub open spec fn is_inbound_payload(doc: JsonValue) -> bool {
    json_field(doc, "inbound_connections"@) matches Some(JsonValue::Array(items)) && all_inbounds(
        items@,
    )
}

pub open spec fn decodes_backend_payload(cs: Seq<Connection>, doc: JsonValue) -> bool {
    json_field(doc, "connections"@) matches Some(JsonValue::Array(items)) && decodes_backends(
        cs,
        items@,
    )
}

pub open spec fn decodes_inbound_payload(cs: Seq<InboundConnection>, doc: JsonValue) -> bool {
    json_field(doc, "inbound_connections"@) matches Some(JsonValue::Array(items))
        && decodes_inbounds(cs, items@)
}

/// Recognises and decodes a diagnostics document.
///
/// The backend shape is tried first, then the inbound shape; a document of
/// neither shape, whatever it holds, is `Empty`.
pub fn classify(doc: &JsonValue) -> (r: AllConnections)
    ensures
        r is Connections <==> is_backend_payload(*doc),
        r is InboundConnections <==> !is_backend_payload(*doc) && is_inbound_payload(*doc),
        r is Empty <==> !is_backend_payload(*doc) && !is_inbound_payload(*doc),
        r matches AllConnections::Connections { connections } ==> decodes_backend_payload(
            connections@,
            *doc,
        ),
        r matches AllConnections::InboundConnections { inbound_connections }
            ==> decodes_inbound_payload(inbound_connections@, *doc),
        json_field(*doc, "connections"@) is None && is_inbound_payload(*doc)
            ==> r is InboundConnections,
        (*doc matches JsonValue::Object(entries) && entries@.len() == 0) ==> r is Empty,
{
    if let Some(JsonValue::Array(items)) = doc.field("connections") {
        if let Some(connections) = decode_connections(items) {
            assert(all_backends(items@)) by {
                assert forall|i: int| 0 <= i < items@.len() implies is_backend(
                    #[trigger] items@[i],
                ) by {
                    assert(decodes_backend(connections@[i], items@[i]));
                }
            }
            return AllConnections::Connections { connections };
        }
    }
    if let Some(JsonValue::Array(items)) = doc.field("inbound_connections") {
        if let Some(inbound_connections) = decode_inbound_connections(items) {
            assert(all_inbounds(items@)) by {
                assert forall|i: int| 0 <= i < items@.len() implies is_inbound(
                    #[trigger] items@[i],
                ) by {
                    lemma_decoded_inbound_is_inbound(inbound_connections@[i], items@[i]);
                }
            }
            return AllConnections::InboundConnections { inbound_connections };
        }
    }
    AllConnections::Empty
}

} // verus!
