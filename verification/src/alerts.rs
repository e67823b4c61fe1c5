//! Alerts: messages for a session, each given once.
use vstd::prelude::*;

use crate::error::{Error, Failure};
use crate::input::normalize_required_text;
use crate::record::{alert_records, Alert, AlertModel, AlertRecord, MemoryStore, StoreModel};
use crate::text::{same_text, trim};

verus! {

/// What a list of alerts says.
pub open spec fn alerts_of(list: Seq<Alert>) -> Seq<AlertModel> {
    list.map_values(|alert: Alert| alert@)
}

/// The alerts of a session, in order.
pub open spec fn session_alerts(alerts: Seq<(i64, AlertModel)>, session: Seq<char>) -> Seq<
    AlertModel,
> {
    alerts.filter(|alert: (i64, AlertModel)| alert.1.session_ref == session).map_values(
        |alert: (i64, AlertModel)| alert.1,
    )
}

/// The alerts of the other sessions, in order.
pub open spec fn other_alerts(alerts: Seq<(i64, AlertModel)>, session: Seq<char>) -> Seq<
    (i64, AlertModel),
> {
    alerts.filter(|alert: (i64, AlertModel)| alert.1.session_ref != session)
}

/// The store after an alert was left for a session, or why it was refused.
pub open spec fn after_alert(store: StoreModel, session: Seq<char>, content: Seq<char>) -> Result<
    StoreModel,
    Failure<Seq<char>>,
> {
    if trim(session).len() == 0 {
        Err(Failure::EmptyField("alert session_ref"@))
    } else if trim(content).len() == 0 {
        Err(Failure::EmptyField("alert content"@))
    } else if store.last_alert_id == i64::MAX {
        Err(Failure::StoreFull)
    } else {
        let id = (store.last_alert_id + 1) as i64;
        Ok(
            StoreModel {
                alerts: store.alerts.push(
                    (id, AlertModel { session_ref: trim(session), content: trim(content) }),
                ),
                last_alert_id: id,
                ..store
            },
        )
    }
}

impl MemoryStore {
    /// Leaves an alert for a session and gives its identifier. An alert that is refused leaves the
    /// store as it was.
    pub fn set_alert(&mut self, session_ref: String, content: String) -> (r: Result<i64, Error>)
        requires
            old(self)@.well_formed(),
        ensures
            match r {
                Ok(id) => after_alert(old(self)@, session_ref@, content@) == Ok::<
                    StoreModel,
                    Failure<Seq<char>>,
                >(final(self)@) && id == final(self)@.last_alert_id,
                Err(error) => after_alert(old(self)@, session_ref@, content@) == Err::<
                    StoreModel,
                    Failure<Seq<char>>,
                >(error@) && final(self)@ == old(self)@,
            },
            final(self)@.well_formed(),
    {
        let session_ref = match normalize_required_text(session_ref, "alert session_ref") {
            Ok(text) => text,
            Err(error) => return Err(error),
        };
        let content = match normalize_required_text(content, "alert content") {
            Ok(text) => text,
            Err(error) => return Err(error),
        };
        if self.last_alert_id == i64::MAX {
            return Err(Failure::StoreFull);
        }
        let id: i64 = self.last_alert_id + 1;
        let ghost before = self.alerts@;
        self.alerts.push(AlertRecord { id, alert: Alert { session_ref, content } });
        self.last_alert_id = id;
        proof {
            assert(alert_records(self.alerts@) =~= alert_records(before).push(
                (id, self.alerts@.last().alert@),
            ));
        }
        Ok(id)
    }

    /// Gives the alerts of a session, in the order in which they were left, and forgets them.
    pub fn get_alerts(&mut self, session_ref: String) -> (r: Result<Vec<Alert>, Error>)
        requires
            old(self)@.well_formed(),
        ensures
            match r {
                Ok(alerts) => {
                    &&& trim(session_ref@).len() > 0
                    &&& alerts_of(alerts@) == session_alerts(old(self)@.alerts, trim(session_ref@))
                    &&& final(self)@ == (StoreModel {
                        alerts: other_alerts(old(self)@.alerts, trim(session_ref@)),
                        ..old(self)@
                    })
                },
                Err(error) => {
                    &&& trim(session_ref@).len() == 0
                    &&& error@ == Failure::EmptyField("alert session_ref"@)
                    &&& final(self)@ == old(self)@
                },
            },
            final(self)@.well_formed(),
    {
        let session = match normalize_required_text(session_ref, "alert session_ref") {
            Ok(text) => text,
            Err(error) => return Err(error),
        };
        let ghost all = alert_records(self.alerts@);
        let mut given: Vec<Alert> = Vec::new();
        let mut rest: Vec<AlertRecord> = Vec::new();
        let mut i: usize = 0;
        proof {
            reveal(Seq::filter);
            assert(all.take(0) =~= Seq::empty());
            assert(alerts_of(given@) =~= session_alerts(all.take(0), session@));
            assert(alert_records(rest@) =~= other_alerts(all.take(0), session@));
        }
        while i < self.alerts.len()
            invariant
                i <= self.alerts@.len(),
                all == alert_records(self.alerts@),
                alerts_of(given@) == session_alerts(all.take(i as int), session@),
                alert_records(rest@) == other_alerts(all.take(i as int), session@),
            decreases self.alerts@.len() - i,
        {
            let ghost given_before = given@;
            let ghost rest_before = rest@;
            proof {
                assert(all[i as int] == (self.alerts@[i as int].id, self.alerts@[i as int].alert@));
                lemma_next_alert(all, i as int, session@);
            }
            let record = &self.alerts[i];
            let alert = record.alert.clone();
            if same_text(&alert.session_ref, &session) {
                given.push(alert);
                proof {
                    assert(alerts_of(given@) =~= alerts_of(given_before).push(all[i as int].1));
                }
            } else {
                rest.push(AlertRecord { id: record.id, alert });
                proof {
                    assert(alert_records(rest@) =~= alert_records(rest_before).push(all[i as int]));
                }
            }
            i = i + 1;
        }
        proof {
            assert(all.take(i as int) =~= all);
            lemma_other_alerts_in_order(all, session@, self.last_alert_id);
        }
        self.alerts = rest;
        Ok(given)
    }
}

proof fn lemma_next_alert(alerts: Seq<(i64, AlertModel)>, i: int, session: Seq<char>)
    requires
        0 <= i < alerts.len(),
    ensures
        session_alerts(alerts.take(i + 1), session) == if alerts[i].1.session_ref == session {
            session_alerts(alerts.take(i), session).push(alerts[i].1)
        } else {
            session_alerts(alerts.take(i), session)
        },
        other_alerts(alerts.take(i + 1), session) == if alerts[i].1.session_ref == session {
            other_alerts(alerts.take(i), session)
        } else {
            other_alerts(alerts.take(i), session).push(alerts[i])
        },
{
    reveal(Seq::filter);
    assert(alerts.take(i + 1).drop_last() =~= alerts.take(i));
    assert(session_alerts(alerts.take(i + 1), session) =~= if alerts[i].1.session_ref == session {
        session_alerts(alerts.take(i), session).push(alerts[i].1)
    } else {
        session_alerts(alerts.take(i), session)
    });
}

proof fn lemma_other_alerts_in_order(
    alerts: Seq<(i64, AlertModel)>,
    session: Seq<char>,
    last: i64,
)
    requires
        forall|i: int, j: int|
            0 <= i < j < alerts.len() ==> (#[trigger] alerts[i]).0 < (#[trigger] alerts[j]).0,
        forall|i: int| 0 <= i < alerts.len() ==> (#[trigger] alerts[i]).0 <= last,
    ensures
        ({
            let rest = other_alerts(alerts, session);
            &&& forall|i: int, j: int|
                0 <= i < j < rest.len() ==> (#[trigger] rest[i]).0 < (#[trigger] rest[j]).0
            &&& forall|i: int| 0 <= i < rest.len() ==> (#[trigger] rest[i]).0 <= last
        }),
    decreases alerts.len(),
{
    reveal(Seq::filter);
    if alerts.len() > 0 {
        let front = alerts.drop_last();
        let newest = alerts.last();
        if front.len() > 0 {
            assert(alerts[front.len() - 1].0 < newest.0);
            assert forall|i: int| 0 <= i < front.len() implies (#[trigger] front[i]).0 <= alerts[
            front.len() - 1].0 by {
                assert(front[i] == alerts[i]);
            }
            lemma_other_alerts_in_order(front, session, alerts[front.len() - 1].0);
        }
        let rest = other_alerts(alerts, session);
        let some = other_alerts(front, session);
        assert(rest == if newest.1.session_ref != session {
            some.push(newest)
        } else {
            some
        });
    }
}

} // verus!
