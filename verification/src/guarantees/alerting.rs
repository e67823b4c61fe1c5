//! Which alerts are left, refused, given and kept.
use vstd::prelude::*;

use crate::alerts::{after_alert, other_alerts, session_alerts};
use crate::error::Failure;
use crate::record::{AlertModel, StoreModel};
use crate::text::trim;

verus! {

/// An alert is left for its session after all that are there, both texts without the white space
/// around them, under the next identifier. It is refused where the session or the content is blank,
/// and where the identifiers have run out; nothing else changes.
pub proof fn law_alerts_are_left_as_given(
    store: StoreModel,
    session: Seq<char>,
    content: Seq<char>,
)
    ensures
        ({
            let after = after_alert(store, session, content);
            if trim(session).len() == 0 {
                after == Err::<StoreModel, Failure<Seq<char>>>(
                    Failure::EmptyField("alert session_ref"@),
                )
            } else if trim(content).len() == 0 {
                after == Err::<StoreModel, Failure<Seq<char>>>(
                    Failure::EmptyField("alert content"@),
                )
            } else if store.last_alert_id == i64::MAX {
                after is Err && after->Err_0 is StoreFull
            } else {
                &&& after is Ok
                &&& after->Ok_0.alerts.len() == store.alerts.len() + 1
                &&& after->Ok_0.alerts.drop_last() == store.alerts
                &&& after->Ok_0.alerts.last().0 == store.last_alert_id + 1
                &&& after->Ok_0.alerts.last().1.session_ref == trim(session)
                &&& after->Ok_0.alerts.last().1.content == trim(content)
                &&& after->Ok_0.last_alert_id == store.last_alert_id + 1
                &&& after->Ok_0.memories == store.memories
                &&& after->Ok_0.last_id == store.last_id
            }
        }),
{
    if after_alert(store, session, content) is Ok {
        assert(after_alert(store, session, content)->Ok_0.alerts.drop_last() =~= store.alerts);
    }
}

/// A session gets the alerts that were left for it, and no others, in the order in which they were
/// left; those of the other sessions stay as they are and where they are.
pub proof fn law_alerts_go_to_their_session_in_order(
    alerts: Seq<(i64, AlertModel)>,
    alert: (i64, AlertModel),
    session: Seq<char>,
)
    ensures
        session_alerts(Seq::empty(), session).len() == 0,
        other_alerts(Seq::empty(), session).len() == 0,
        alert.1.session_ref == session ==> session_alerts(alerts.push(alert), session)
            == session_alerts(alerts, session).push(alert.1) && other_alerts(
            alerts.push(alert),
            session,
        ) == other_alerts(alerts, session),
        alert.1.session_ref != session ==> session_alerts(alerts.push(alert), session)
            == session_alerts(alerts, session) && other_alerts(alerts.push(alert), session)
            == other_alerts(alerts, session).push(alert),
{
    reveal(Seq::filter);
    let all = alerts.push(alert);
    assert(all.drop_last() =~= alerts);
    assert(session_alerts(all, session) =~= if alert.1.session_ref == session {
        session_alerts(alerts, session).push(alert.1)
    } else {
        session_alerts(alerts, session)
    });
}

} // verus!
