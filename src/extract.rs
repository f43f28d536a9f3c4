//! Turning decoded documents into activity records.

use vstd::prelude::*;
use crate::model::{
    ActivityView, AllConnections, CallsInFlight, Connection, CqlDetails, GeneralPresentation,
    InboundConnection, views,
};

verus! {

/// The decimal digit `d`.
pub open spec fn digit(d: nat) -> char {
    seq!['0', '1', '2', '3', '4', '5', '6', '7', '8', '9'][d as int]
}

/// The decimal rendering of `n`, without leading zeros.
pub open spec fn decimal(n: nat) -> Seq<char>
    decreases n,
{
    if n < 10 {
        seq![digit(n)]
    } else {
        decimal(n / 10).push(digit(n % 10))
    }
}

/// Renders `n` in decimal.
pub fn decimal_text(n: usize) -> (r: String)
    ensures
        r@ == decimal(n as nat),
    decreases n,
{
    let mut s = if n >= 10 {
        decimal_text(n / 10)
    } else {
        String::new()
    };
    let d = n % 10;
    let digits = "0123456789";
    proof {
        reveal_strlit("0123456789");
    }
    let one = digits.substring_char(d, d + 1);
    assert(one@ =~= seq![digit(d as nat)]);
    s.append(one);
    proof {
        if n < 10 {
            assert(s@ =~= seq![digit(n as nat)]);
        } else {
            assert(s@ =~= decimal((n / 10) as nat).push(digit((n % 10) as nat)));
        }
    }
    s
}

/// What a call shows as its query: the text of its one statement, or, for a
/// batch, how many statements it holds.
pub open spec fn statement_summary(d: CqlDetails) -> Seq<char> {
    if d.call_details@.len() == 1 {
        d.call_details@[0].sql_string@
    } else {
        "Number of statements: "@ + decimal(d.call_details@.len())
    }
}

/// The text shown for a call with the given statements.
pub fn statement_text(d: &CqlDetails) -> (r: String)
    ensures
        r@ == statement_summary(*d),
{
    if d.call_details.len() == 1 {
        d.call_details[0].sql_string.clone()
    } else {
        let mut s = String::from_str("Number of statements: ");
        let n = decimal_text(d.call_details.len());
        s.append(n.as_str());
        s
    }
}

/// The value of an optional text, empty where it is missing.
pub open spec fn opt_text(o: Option<String>) -> Seq<char> {
    match o {
        Some(s) => s@,
        None => Seq::empty(),
    }
}

fn opt_string(o: &Option<String>) -> (r: String)
    ensures
        r@ == opt_text(*o),
{
    match o {
        Some(s) => s.clone(),
        None => String::new(),
    }
}

/// A backend process serving no user session, or one that waits idle.
pub open spec fn is_idle_status(status: Seq<char>) -> bool {
    status.len() == 0 || status == "idle"@
}

pub open spec fn is_shown(c: Connection, show_idle: bool) -> bool {
    show_idle || !is_idle_status(c.backend_status@)
}

/// The record of a backend process reported by `server`.
pub open spec fn backend_record(server: Seq<char>, c: Connection) -> ActivityView {
    ActivityView {
        api: "SQL"@,
        server,
        client: opt_text(c.host) + ":"@ + opt_text(c.port),
        keyspace_db_name: opt_text(c.db_name),
        status: c.backend_status@,
        query_time_ms: match c.query_running_for_ms {
            Some(n) => n,
            None => 0,
        },
        query: opt_text(c.query),
    }
}

/// The records of the processes shown, in their order.
pub open spec fn backend_records(server: Seq<char>, cs: Seq<Connection>, show_idle: bool) -> Seq<
    ActivityView,
> {
    cs.filter(|c: Connection| is_shown(c, show_idle)).map_values(
        |c: Connection| backend_record(server, c),
    )
}

fn backend_presentation(server: &str, c: &Connection) -> (r: GeneralPresentation)
    ensures
        r@ == backend_record(server@, *c),
{
    let mut client = opt_string(&c.host);
    client.append(":");
    let port = opt_string(&c.port);
    client.append(port.as_str());
    GeneralPresentation {
        api: String::from_str("SQL"),
        server: String::from_str(server),
        client,
        keyspace_db_name: opt_string(&c.db_name),
        status: c.backend_status.clone(),
        query_time_ms: match c.query_running_for_ms {
            Some(n) => n,
            None => 0,
        },
        query: opt_string(&c.query),
    }
}

/// The activity of the backend processes that `server` reported.
///
/// A process whose status is empty or `idle` is left out unless `show_idle`
/// is set.
pub fn backend_activity(server: &str, connections: &Vec<Connection>, show_idle: bool) -> (r: Vec<
    GeneralPresentation,
>)
    ensures
        views(r@) == backend_records(server@, connections@, show_idle),
{
    let idle = String::from_str("idle");
    let mut out: Vec<GeneralPresentation> = Vec::new();
    let mut i: usize = 0;
    while i < connections.len()
        invariant
            i <= connections@.len(),
            idle@ == "idle"@,
            views(out@) == backend_records(server@, connections@.take(i as int), show_idle),
        decreases connections@.len() - i,
    {
        let c = &connections[i];
        let ghost before = connections@.take(i as int);
        let ghost shown = |x: Connection| is_shown(x, show_idle);
        assert(connections@.take(i + 1) =~= before.push(*c));
        proof {
            before.lemma_filter_push(*c, shown);
        }
        let status = &c.backend_status;
        if show_idle || !(status.as_str().is_empty() || *status == idle) {
            let g = backend_presentation(server, c);
            let ghost prev = out@;
            out.push(g);
            assert(views(out@) =~= views(prev).push(g@));
            assert(before.push(*c).filter(shown).map_values(
                |x: Connection| backend_record(server@, x),
            ) =~= before.filter(shown).map_values(|x: Connection| backend_record(server@, x)).push(
                backend_record(server@, *c),
            ));
        }
        i = i + 1;
    }
    assert(connections@.take(connections@.len() as int) =~= connections@);
    out
}

/// The keyspace in use on an inbound connection, empty where none is named.
pub open spec fn keyspace_of(c: InboundConnection) -> Seq<char> {
    match c.connection_details {
        Some(d) => d.cql_connection_details.keyspace@,
        None => Seq::empty(),
    }
}

/// The record of one call in flight on `c`, reported by `server`.
pub open spec fn call_record(server: Seq<char>, c: InboundConnection, call: CallsInFlight) -> ActivityView {
    ActivityView {
        api: "CQL"@,
        server,
        client: c.remote_ip@,
        keyspace_db_name: keyspace_of(c),
        status: call.cql_details.call_type@,
        query_time_ms: call.elapsed_millis,
        query: statement_summary(call.cql_details),
    }
}

/// One record for each call in flight on `c`, in their order.
pub open spec fn connection_records(server: Seq<char>, c: InboundConnection) -> Seq<ActivityView> {
    match c.calls_in_flight {
        Some(calls) => calls@.map_values(|call: CallsInFlight| call_record(server, c, call)),
        None => Seq::empty(),
    }
}

/// The records of all calls in flight, connection by connection.
pub open spec fn inbound_records(server: Seq<char>, cs: Seq<InboundConnection>) -> Seq<ActivityView> {
    cs.map_values(|c: InboundConnection| connection_records(server, c)).flatten()
}

fn call_presentation(server: &str, c: &InboundConnection, call: &CallsInFlight) -> (r: GeneralPresentation)
    ensures
        r@ == call_record(server@, *c, *call),
{
    let keyspace_db_name = match &c.connection_details {
        Some(d) => d.cql_connection_details.keyspace.clone(),
        None => String::new(),
    };
    GeneralPresentation {
        api: String::from_str("CQL"),
        server: String::from_str(server),
        client: c.remote_ip.clone(),
        keyspace_db_name,
        status: call.cql_details.call_type.clone(),
        query_time_ms: call.elapsed_millis,
        query: statement_text(&call.cql_details),
    }
}

/// The activity of the inbound connections that `server` reported: one
/// record per call in flight. A connection with no call in flight adds none.
pub fn inbound_activity(server: &str, connections: &Vec<InboundConnection>) -> (r: Vec<
    GeneralPresentation,
>)
    ensures
        views(r@) == inbound_records(server@, connections@),
{
    let mut out: Vec<GeneralPresentation> = Vec::new();
    let mut i: usize = 0;
    while i < connections.len()
        invariant
            i <= connections@.len(),
            views(out@) == inbound_records(server@, connections@.take(i as int)),
        decreases connections@.len() - i,
    {
        let c = &connections[i];
        let ghost before = connections@.take(i as int);
        let ghost done = views(out@);
        let ghost per = |x: InboundConnection| connection_records(server@, x);
        assert(connections@.take(i + 1) =~= before.push(*c));
        assert(connections@.take(i + 1).map_values(per) =~= before.map_values(per).push(per(*c)));
        proof {
            before.map_values(per).lemma_flatten_push(per(*c));
        }
        match &c.calls_in_flight {
            Some(calls) => {
                let ghost rec = |call: CallsInFlight| call_record(server@, *c, call);
                let mut j: usize = 0;
                while j < calls.len()
                    invariant
                        j <= calls@.len(),
                        c.calls_in_flight == Some(*calls),
                        rec == (|call: CallsInFlight| call_record(server@, *c, call)),
                        views(out@) == done + calls@.take(j as int).map_values(rec),
                    decreases calls@.len() - j,
                {
                    let g = call_presentation(server, c, &calls[j]);
                    let ghost prev = out@;
                    out.push(g);
                    assert(views(out@) =~= views(prev).push(g@));
                    assert(calls@.take(j + 1).map_values(rec) =~= calls@.take(j as int).map_values(
                        rec,
                    ).push(rec(calls@[j as int])));
                    assert(views(out@) =~= done + calls@.take(j + 1).map_values(rec));
                    j = j + 1;
                }
                assert(calls@.take(calls@.len() as int) =~= calls@);
                assert(views(out@) =~= done + per(*c));
            },
            None => {
                assert(views(out@) =~= done + per(*c));
            },
        }
        i = i + 1;
    }
    assert(connections@.take(connections@.len() as int) =~= connections@);
    out
}

/// The activity in one node's document.
pub open spec fn host_records(server: Seq<char>, payload: AllConnections, show_idle: bool) -> Seq<
    ActivityView,
> {
    match payload {
        AllConnections::Connections { connections } => backend_records(
            server,
            connections@,
            show_idle,
        ),
        AllConnections::InboundConnections { inbound_connections } => inbound_records(
            server,
            inbound_connections@,
        ),
        AllConnections::Empty => Seq::empty(),
    }
}

/// The activity in one node's document; `show_idle` applies to backend
/// processes alone.
pub fn host_activity(server: &str, payload: &AllConnections, show_idle: bool) -> (r: Vec<
    GeneralPresentation,
>)
    ensures
        views(r@) == host_records(server@, *payload, show_idle),
{
    match payload {
        AllConnections::Connections { connections } => backend_activity(
            server,
            connections,
            show_idle,
        ),
        AllConnections::InboundConnections { inbound_connections } => inbound_activity(
            server,
            inbound_connections,
        ),
        AllConnections::Empty => {
            let out: Vec<GeneralPresentation> = Vec::new();
            assert(views(out@) =~= Seq::<ActivityView>::empty());
            out
        },
    }
}

} // verus!
