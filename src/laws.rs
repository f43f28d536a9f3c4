//! Properties that hold across calls and inputs of the library.

use vstd::prelude::*;
use crate::extract::{
    backend_record, backend_records, host_records, inbound_records, is_idle_status, is_shown,
    connection_records,
};
use crate::model::{ActivityView, AllConnections, Connection, InboundConnection};

verus! {

proof fn lemma_filter_all(cs: Seq<Connection>, pred: spec_fn(Connection) -> bool)
    requires
        forall|c: Connection| #[trigger] pred(c),
    ensures
        cs.filter(pred) == cs,
    decreases cs.len(),
{
    reveal(Seq::filter);
    if cs.len() > 0 {
        lemma_filter_all(cs.drop_last(), pred);
        assert(cs.drop_last().push(cs.last()) =~= cs);
    }
}

/// The idle filter: with `show_idle` set every backend process has its record,
/// in order; without it no record shows an empty or `idle` status.
pub proof fn idle_backends_shown_only_on_request(server: Seq<char>, cs: Seq<Connection>)
    ensures
        backend_records(server, cs, true) == cs.map_values(
            |c: Connection| backend_record(server, c),
        ),
        forall|i: int|
            0 <= i < backend_records(server, cs, false).len() ==> !is_idle_status(
                #[trigger] backend_records(server, cs, false)[i].status,
            ),
{
    lemma_filter_all(cs, |c: Connection| is_shown(c, true));
    let shown = |c: Connection| is_shown(c, false);
    assert forall|i: int| 0 <= i < backend_records(server, cs, false).len() implies !is_idle_status(
        #[trigger] backend_records(server, cs, false)[i].status,
    ) by {
        cs.lemma_filter_pred(shown, i);
    }
}

/// No call is in flight on `c`: it lists none, or an empty list.
pub open spec fn has_no_calls(c: InboundConnection) -> bool {
    match c.calls_in_flight {
        Some(calls) => calls@.len() == 0,
        None => true,
    }
}

/// An inbound connection with no call in flight adds no record, whether idle
/// backend processes are shown or not.
pub proof fn idle_inbound_adds_nothing(
    server: Seq<char>,
    payload: AllConnections,
    show_idle: bool,
)
    requires
        payload matches AllConnections::InboundConnections { inbound_connections }
            && forall|i: int|
            0 <= i < inbound_connections@.len() ==> has_no_calls(
                #[trigger] inbound_connections@[i],
            ),
    ensures
        host_records(server, payload, show_idle) == Seq::<ActivityView>::empty(),
{
    if let AllConnections::InboundConnections { inbound_connections } = payload {
        lemma_no_calls_no_records(server, inbound_connections@);
    }
}

proof fn lemma_no_calls_no_records(server: Seq<char>, cs: Seq<InboundConnection>)
    requires
        forall|i: int| 0 <= i < cs.len() ==> has_no_calls(#[trigger] cs[i]),
    ensures
        inbound_records(server, cs) == Seq::<ActivityView>::empty(),
    decreases cs.len(),
{
    let per = |c: InboundConnection| connection_records(server, c);
    if cs.len() > 0 {
        let init = cs.drop_last();
        lemma_no_calls_no_records(server, init);
        assert(cs.map_values(per) =~= init.map_values(per).push(per(cs.last())));
        init.map_values(per).lemma_flatten_push(per(cs.last()));
        assert(has_no_calls(cs[cs.len() - 1]));
        if let Some(calls) = cs.last().calls_in_flight {
            assert(per(cs.last()) =~= Seq::<ActivityView>::empty());
        }
        assert(inbound_records(server, cs) =~= Seq::<ActivityView>::empty());
    } else {
        assert(cs.map_values(per) =~= Seq::<Seq<ActivityView>>::empty());
    }
}

} // verus!
