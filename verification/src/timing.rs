use vstd::prelude::*;
use crate::state::{Action, NylonEvent, NylonState};
use crate::network::NetworkEvent;
use crate::metric::MetricEvent;

verus! {

/// The three periodic timers: metric probing, routing updates, and the
/// system route (tunnel) refresh. Each fires every ten seconds.
pub enum TimedEvent {
    MetricUpdate,
    RouteUpdate,
    SysRouteUpdate,
}

/// What `handle_timed_event` leaves behind for each timer.
pub open spec fn timed_event_post(
    pre: NylonState,
    post: NylonState,
    event: TimedEvent,
) -> bool {
    match event {
        TimedEvent::MetricUpdate => {
            &&& post.mq.events@.len() == pre.mq.events@.len() + pre.os.links@.len()
            &&& (forall|k: int|
                0 <= k < pre.os.links@.len() ==> post.mq.events@[pre.mq.events@.len() + k]
                    == NylonEvent::Network(
                    NetworkEvent::EMetric(MetricEvent::PingLink(#[trigger] pre.os.links@[k].id)),
                ))
            &&& post.mq.events@.subrange(0, pre.mq.events@.len() as int) == pre.mq.events@
            &&& post.mq.actions@ == pre.mq.actions@
        },
        TimedEvent::RouteUpdate => {
            &&& post.mq.events@ == pre.mq.events@
            &&& post.mq.actions@ == pre.mq.actions@.push(Action::EngineFullUpdate)
        },
        TimedEvent::SysRouteUpdate => {
            &&& post.mq.events@ == pre.mq.events@
            &&& post.mq.actions@ == pre.mq.actions@.push(Action::SysRouteRefresh)
        },
    }
}

/// Dispatch one timer tick: fan out a ping per active link, run the
/// engine's periodic full update, or refresh the system routes.
pub fn handle_timed_event(state: &mut NylonState, event: TimedEvent)
    requires
        old(state).wf(),
    ensures
        final(state).wf(),
        timed_event_post(*old(state), *final(state), event),
        final(state).os.links@ == old(state).os.links@,
        final(state).ps.routes@ == old(state).ps.routes@,
        final(state).mq.cancelled == old(state).mq.cancelled,
{
    match event {
        TimedEvent::MetricUpdate => {
            let n = state.os.links.len();
            let mut i: usize = 0;
            while i < n
                invariant
                    n == state.os.links@.len(),
                    0 <= i <= n,
                    state.os.links@ == old(state).os.links@,
                    state.ps == old(state).ps,
                    state.os == old(state).os,
                    state.mq.actions@ == old(state).mq.actions@,
                    state.mq.cancelled == old(state).mq.cancelled,
                    state.mq.events@.len() == old(state).mq.events@.len() + i,
                    state.mq.events@.subrange(0, old(state).mq.events@.len() as int) == old(
                        state,
                    ).mq.events@,
                    forall|k: int|
                        0 <= k < i ==> state.mq.events@[old(state).mq.events@.len() + k]
                            == NylonEvent::Network(
                            NetworkEvent::EMetric(
                                MetricEvent::PingLink(#[trigger] old(state).os.links@[k].id),
                            ),
                        ),
                decreases n - i,
            {
                let id = state.os.links[i].id;
                state.mq.send(
                    NylonEvent::Network(NetworkEvent::EMetric(MetricEvent::PingLink(id))),
                );
                proof {
                    assert(state.mq.events@.subrange(0, old(state).mq.events@.len() as int)
                        =~= old(state).mq.events@);
                }
                i += 1;
            }
        },
        TimedEvent::RouteUpdate => {
            crate::routing::timed_routing_update(state);
        },
        TimedEvent::SysRouteUpdate => {
            state.mq.actions.push(Action::SysRouteRefresh);
        },
    }
}

} // verus!
