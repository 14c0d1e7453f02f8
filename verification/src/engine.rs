//! The alert engine: the rules, their evaluation against observed values,
//! and the history of breaches with its acknowledgment workflow.

use vstd::prelude::*;
use crate::alerts::{
    breach_of,
    breach_views,
    breaches_of,
    configuration_views,
    entry_of,
    history_views,
    Acknowledgment,
    AcknowledgmentView,
    AlertConfiguration,
    AlertHistory,
    Breach,
    BreachView,
    ConfigurationView,
    HistoryView,
    MetricValues,
};
use crate::database::{lemma_filter_last, lemma_filter_member, Database, DatabaseManager};
use crate::ids::fresh_id;
use crate::numbers::Milli;
use crate::records::TelemetryError;
use crate::text::texts;
use crate::time::{current_time, Timestamp};

verus! {

/// Whether one of `rules` has the id `id`.
pub open spec fn holds_rule(rules: Seq<ConfigurationView>, id: Seq<char>) -> bool {
    exists|i: int| 0 <= i < rules.len() && (#[trigger] rules[i]).id == id
}

/// Whether one of `entries` has the id `id`.
pub open spec fn holds_entry(entries: Seq<HistoryView>, id: Seq<char>) -> bool {
    exists|i: int| 0 <= i < entries.len() && (#[trigger] entries[i]).id == id
}

/// The entry `e` once `by` acknowledged it at `at`: only its acknowledgment
/// differs.
pub open spec fn acknowledged(e: HistoryView, by: Seq<char>, at: Timestamp) -> HistoryView {
    HistoryView { acknowledgment: AcknowledgmentView::Acknowledged { by, at }, ..e }
}

/// The entries that a list of breaches makes at `at` under the ids `ids`.
pub open spec fn entries_of(breaches: Seq<BreachView>, ids: Seq<Seq<char>>, at: Timestamp) -> Seq<
    HistoryView,
> {
    Seq::new(breaches.len(), |i: int| entry_of(breaches[i], ids[i], at))
}

/// Whether `entries` are what a pass over the rules of `db` with `values`
/// raises under the ids `ids` at `at`: one id for each breach, the ids new
/// to the history and no two the same, and one entry for each breach.
pub open spec fn alerts_raised(
    db: Database,
    values: MetricValues,
    ids: Seq<Seq<char>>,
    at: Timestamp,
    entries: Seq<HistoryView>,
) -> bool {
    &&& ids.len() == breaches_of(db.configurations, values).len()
    &&& db.ids_are_new(ids)
    &&& entries == entries_of(breaches_of(db.configurations, values), ids, at)
}

impl Database {
    /// Whether a rule with the id `id` is held.
    pub open spec fn has_configuration(self, id: Seq<char>) -> bool {
        holds_rule(self.configurations, id)
    }

    /// Whether the history holds an entry with the id `id`.
    pub open spec fn has_entry(self, id: Seq<char>) -> bool {
        holds_entry(self.history, id)
    }

    /// Whether the history holds an entry with the id `id` that nobody has
    /// acknowledged.
    pub open spec fn has_open_entry(self, id: Seq<char>) -> bool {
        exists|i: int|
            0 <= i < self.history.len() && (#[trigger] self.history[i]).id == id
                && self.history[i].acknowledgment is Unacknowledged
    }

    /// The tables with `rule` added as the last rule.
    pub open spec fn with_rule(self, rule: ConfigurationView) -> Database {
        Database { configurations: self.configurations.push(rule), ..self }
    }

    /// The tables with the rule `id` replaced by `rule`, which keeps the id.
    pub open spec fn with_rule_replaced(self, id: Seq<char>, rule: ConfigurationView) -> Database {
        Database {
            configurations: self.configurations.map_values(
                |held: ConfigurationView|
                    if held.id == id {
                        rule.with_id(id)
                    } else {
                        held
                    },
            ),
            ..self
        }
    }

    /// The tables without the rule `id`.
    pub open spec fn without_rule(self, id: Seq<char>) -> Database {
        Database {
            configurations: self.configurations.filter(|held: ConfigurationView| held.id != id),
            ..self
        }
    }

    /// The tables with `entries` added at the end of the history.
    pub open spec fn with_entries(self, entries: Seq<HistoryView>) -> Database {
        Database { history: self.history + entries, ..self }
    }

    /// The tables with the entry `id` acknowledged by `by` at `at`.
    pub open spec fn with_acknowledged(
        self,
        id: Seq<char>,
        by: Seq<char>,
        at: Timestamp,
    ) -> Database {
        Database {
            history: self.history.map_values(
                |e: HistoryView|
                    if e.id == id {
                        acknowledged(e, by, at)
                    } else {
                        e
                    },
            ),
            ..self
        }
    }

    /// One page of the history, the entry added last first: `offset`
    /// entries are passed over and at most `limit` returned.
    pub open spec fn history_page(self, limit: nat, offset: nat) -> Seq<HistoryView> {
        let newest_first = self.history.reverse();
        if offset >= newest_first.len() {
            Seq::empty()
        } else if offset + limit >= newest_first.len() {
            newest_first.skip(offset as int)
        } else {
            newest_first.subrange(offset as int, (offset + limit) as int)
        }
    }

    /// Whether `ids` can name new history entries: no two of them are the
    /// same, and the history holds none of them.
    pub open spec fn ids_are_new(self, ids: Seq<Seq<char>>) -> bool {
        &&& forall|i: int, j: int| 0 <= i < j < ids.len() ==> #[trigger] ids[i] != #[trigger] ids[j]
        &&& forall|i: int| 0 <= i < ids.len() ==> !self.has_entry(#[trigger] ids[i])
    }
}

fn rule_position(rules: &Vec<AlertConfiguration>, id: &String) -> (r: Option<usize>)
    ensures
        r.is_some() == holds_rule(configuration_views(rules@), id@),
        r matches Some(i) ==> i < rules.len() && rules@[i as int]@.id == id@,
{
    let mut i: usize = 0;
    while i < rules.len()
        invariant
            i <= rules.len(),
            forall|j: int| 0 <= j < i ==> (#[trigger] configuration_views(rules@)[j]).id != id@,
        decreases rules.len() - i,
    {
        if rules[i].id == *id {
            assert(configuration_views(rules@)[i as int].id == id@);
            return Some(i);
        }
        i += 1;
    }
    None
}

fn entry_position(entries: &Vec<AlertHistory>, id: &String) -> (r: Option<usize>)
    ensures
        r.is_some() == holds_entry(history_views(entries@), id@),
        r matches Some(i) ==> i < entries.len() && entries@[i as int]@.id == id@,
{
    let mut i: usize = 0;
    while i < entries.len()
        invariant
            i <= entries.len(),
            forall|j: int| 0 <= j < i ==> (#[trigger] history_views(entries@)[j]).id != id@,
        decreases entries.len() - i,
    {
        if entries[i].id == *id {
            assert(history_views(entries@)[i as int].id == id@);
            return Some(i);
        }
        i += 1;
    }
    None
}

impl DatabaseManager {
    /// The rules, in the order in which they were added.
    pub fn get_alert_configurations(&self) -> (r: Vec<AlertConfiguration>)
        ensures
            configuration_views(r@) == self@.configurations,
    {
        let mut r: Vec<AlertConfiguration> = Vec::new();
        let mut i: usize = 0;
        while i < self.configurations.len()
            invariant
                i <= self.configurations.len(),
                r@ == self.configurations@.take(i as int),
            decreases self.configurations.len() - i,
        {
            r.push(self.configurations[i].clone());
            assert(r@ =~= self.configurations@.take(i + 1));
            i += 1;
        }
        assert(self.configurations@.take(i as int) =~= self.configurations@);
        r
    }

    /// Adds `config` as a rule under the id `id`. An id that a rule has
    /// already is refused.
    pub fn insert_alert_configuration(&mut self, id: String, config: &AlertConfiguration) -> (r:
        Result<(), TelemetryError>)
        requires
            old(self).wf(),
        ensures
            final(self).wf(),
            match r {
                Ok(()) => {
                    &&& !old(self)@.has_configuration(id@)
                    &&& final(self)@ == old(self)@.with_rule(config@.with_id(id@))
                },
                Err(error) => {
                    &&& old(self)@.has_configuration(id@)
                    &&& error == TelemetryError::StorageFailure
                    &&& final(self)@ == old(self)@
                },
            },
    {
        if rule_position(&self.configurations, &id).is_some() {
            return Err(TelemetryError::StorageFailure);
        }
        let ghost before = self@;
        let rule = AlertConfiguration {
            id,
            metric: config.metric,
            operator: config.operator,
            threshold: config.threshold,
            enabled: config.enabled,
            severity: config.severity,
        };
        self.configurations.push(rule);
        proof {
            let after = before.configurations.push(config@.with_id(id@));
            assert(self@.samples == before.samples);
            assert(self@.disks == before.disks);
            assert(self@.networks == before.networks);
            assert(self@.configurations =~= after);
            assert forall|a: int, b: int| 0 <= a < b < after.len() implies (#[trigger] after[a]).id
                != (#[trigger] after[b]).id by {
                if b < before.configurations.len() {
                    assert(before.configurations[a].id != before.configurations[b].id);
                } else {
                    assert(before.configurations[a].id != id@);
                }
            }
        }
        Ok(())
    }

    /// Adds `config` as a rule under a fresh id, which is returned. The id
    /// that `config` carries is not used. Fails, with nothing changed, where
    /// the fresh id is one that a rule has already; so it cannot fail while
    /// no rule is held.
    pub fn add_alert_configuration(&mut self, config: &AlertConfiguration) -> (r: Result<
        String,
        TelemetryError,
    >)
        requires
            old(self).wf(),
        ensures
            final(self).wf(),
            match r {
                Ok(id) => {
                    &&& !old(self)@.has_configuration(id@)
                    &&& final(self)@ == old(self)@.with_rule(config@.with_id(id@))
                },
                Err(error) => {
                    &&& error == TelemetryError::StorageFailure
                    &&& final(self)@ == old(self)@
                },
            },
            old(self)@.configurations.len() == 0 ==> r is Ok,
    {
        let id = fresh_id();
        match self.insert_alert_configuration(id.clone(), config) {
            Ok(()) => Ok(id),
            Err(error) => Err(error),
        }
    }

    /// Replaces the rule `id` by `config`; the rule keeps its id and its
    /// place. Fails where no rule has that id.
    pub fn update_alert_configuration(&mut self, id: &str, config: &AlertConfiguration) -> (r:
        Result<(), TelemetryError>)
        requires
            old(self).wf(),
        ensures
            final(self).wf(),
            match r {
                Ok(()) => {
                    &&& old(self)@.has_configuration(id@)
                    &&& final(self)@ == old(self)@.with_rule_replaced(id@, config@)
                },
                Err(error) => {
                    &&& !old(self)@.has_configuration(id@)
                    &&& error == TelemetryError::NotFound
                    &&& final(self)@ == old(self)@
                },
            },
    {
        let ghost before = self@;
        let key = id.to_owned();
        match rule_position(&self.configurations, &key) {
            None => Err(TelemetryError::NotFound),
            Some(i) => {
                let rule = AlertConfiguration {
                    id: key,
                    metric: config.metric,
                    operator: config.operator,
                    threshold: config.threshold,
                    enabled: config.enabled,
                    severity: config.severity,
                };
                self.configurations.set(i, rule);
                proof {
                    let after = before.with_rule_replaced(id@, config@).configurations;
                    assert(self@.configurations.len() == after.len());
                    assert forall|j: int| 0 <= j < after.len() implies self@.configurations[j]
                        == after[j] by {
                        if j != i {
                            assert(before.configurations[j].id != before.configurations[i as int].id);
                        }
                    }
                    assert(self@.configurations =~= after);
                }
                Ok(())
            },
        }
    }

    /// Removes the rule `id`. Entries of the history that name it stay.
    /// Fails where no rule has that id.
    pub fn delete_alert_configuration(&mut self, id: &str) -> (r: Result<(), TelemetryError>)
        requires
            old(self).wf(),
        ensures
            final(self).wf(),
            match r {
                Ok(()) => {
                    &&& old(self)@.has_configuration(id@)
                    &&& final(self)@ == old(self)@.without_rule(id@)
                },
                Err(error) => {
                    &&& !old(self)@.has_configuration(id@)
                    &&& error == TelemetryError::NotFound
                    &&& final(self)@ == old(self)@
                },
            },
    {
        let ghost before = self@;
        let key = id.to_owned();
        if rule_position(&self.configurations, &key).is_none() {
            return Err(TelemetryError::NotFound);
        }
        let ghost keep = |held: ConfigurationView| held.id != id@;
        let mut kept: Vec<AlertConfiguration> = Vec::new();
        let mut i: usize = 0;
        proof {
            before.configurations.take(0).lemma_filter_len(keep);
            assert(configuration_views(kept@) =~= before.configurations.take(0).filter(keep));
        }
        while i < self.configurations.len()
            invariant
                i <= self.configurations.len(),
                self@ == before,
                key@ == id@,
                keep == |held: ConfigurationView| held.id != id@,
                configuration_views(kept@) == before.configurations.take(i as int).filter(keep),
            decreases self.configurations.len() - i,
        {
            proof {
                assert(before.configurations.take(i + 1).drop_last()
                    =~= before.configurations.take(i as int));
                lemma_filter_last(before.configurations.take(i + 1), keep);
            }
            let ghost done = kept@;
            if self.configurations[i].id != key {
                kept.push(self.configurations[i].clone());
                assert(configuration_views(kept@) =~= configuration_views(done).push(
                    self.configurations@[i as int]@,
                ));
            }
            i += 1;
        }
        self.configurations = kept;
        proof {
            assert(before.configurations.take(i as int) =~= before.configurations);
            lemma_filter_rules_distinct(before.configurations, keep);
            let after = before.configurations.filter(keep);
            assert(self@.samples == before.samples);
            assert(self@.disks == before.disks);
            assert(self@.networks == before.networks);
            assert(self@.configurations == after);
            assert forall|a: int, b: int| 0 <= a < b < after.len() implies (#[trigger] after[a]).id
                != (#[trigger] after[b]).id by {
            }
        }
        Ok(())
    }

    /// One page of the history, the entry added last first: `offset`
    /// entries are passed over and at most `limit` returned.
    pub fn get_alert_history(&self, limit: u32, offset: u32) -> (r: Vec<AlertHistory>)
        ensures
            history_views(r@) == self@.history_page(limit as nat, offset as nat),
    {
        let mut r: Vec<AlertHistory> = Vec::new();
        let count = self.history.len();
        if offset as u64 >= count as u64 {
            assert(history_views(r@) =~= Seq::<HistoryView>::empty());
            return r;
        }
        let first: usize = count - 1 - offset as usize;
        let ghost newest_first = self@.history.reverse();
        let ghost page = self@.history_page(limit as nat, offset as nat);
        let mut taken: usize = 0;
        assert(history_views(r@) =~= page.take(0));
        while taken < limit as usize && taken <= first
            invariant
                first == count - 1 - offset,
                count == self.history.len(),
                offset < count,
                newest_first == self@.history.reverse(),
                page == self@.history_page(limit as nat, offset as nat),
                taken <= limit,
                taken <= first + 1,
                history_views(r@) == page.take(taken as int),
            decreases first + 1 - taken,
        {
            let ghost before = r@;
            r.push(self.history[first - taken].clone());
            proof {
                assert(newest_first[offset + taken] == self@.history[first - taken]);
                assert(page[taken as int] == newest_first[offset + taken]);
                assert(history_views(r@) =~= history_views(before).push(
                    self.history@[first - taken]@,
                ));
                assert(page.take(taken + 1) =~= page.take(taken as int).push(page[taken as int]));
            }
            taken += 1;
        }
        assert(page.take(taken as int) =~= page);
        r
    }

    /// Marks the entry `id` as acknowledged by `acknowledged_by` at `at`.
    /// Nothing else of the entry changes. Fails where no entry has that id,
    /// and where the entry is acknowledged already.
    pub fn acknowledge_at(&mut self, id: &str, acknowledged_by: &str, at: Timestamp) -> (r: Result<
        (),
        TelemetryError,
    >)
        requires
            old(self).wf(),
        ensures
            final(self).wf(),
            match r {
                Ok(()) => {
                    &&& old(self)@.has_open_entry(id@)
                    &&& final(self)@ == old(self)@.with_acknowledged(id@, acknowledged_by@, at)
                },
                Err(error) => {
                    &&& !old(self)@.has_open_entry(id@)
                    &&& error == TelemetryError::NotFound
                    &&& final(self)@ == old(self)@
                },
            },
    {
        let ghost before = self@;
        let key = id.to_owned();
        match entry_position(&self.history, &key) {
            None => Err(TelemetryError::NotFound),
            Some(i) => {
                proof {
                    assert forall|j: int|
                        0 <= j < before.history.len() && before.history[j].id == id@ implies j
                        == i by {
                        if j < i {
                            assert(before.history[j].id != before.history[i as int].id);
                        }
                        if i < j {
                            assert(before.history[i as int].id != before.history[j].id);
                        }
                    }
                    assert(before.history[i as int] == self.history@[i as int]@);
                }
                let open = match &self.history[i].acknowledgment {
                    Acknowledgment::Unacknowledged => true,
                    Acknowledgment::Acknowledged { .. } => false,
                };
                if !open {
                    return Err(TelemetryError::NotFound);
                }
                let entry = AlertHistory {
                    id: self.history[i].id.clone(),
                    config_id: self.history[i].config_id.clone(),
                    triggered_at: self.history[i].triggered_at,
                    value: self.history[i].value,
                    acknowledgment: Acknowledgment::Acknowledged {
                        by: acknowledged_by.to_owned(),
                        at,
                    },
                };
                self.history.set(i, entry);
                proof {
                    let after = before.with_acknowledged(id@, acknowledged_by@, at).history;
                    assert(self@.history.len() == after.len());
                    assert forall|j: int| 0 <= j < after.len() implies self@.history[j]
                        == after[j] by {
                        if j != i {
                            assert(before.history[j].id != id@);
                        }
                    }
                    assert(self@.history =~= after);
                    assert forall|a: int, b: int| 0 <= a < b < after.len() implies (
                    #[trigger] after[a]).id != (#[trigger] after[b]).id by {
                        assert(before.history[a].id != before.history[b].id);
                    }
                }
                Ok(())
            },
        }
    }

    /// Marks the entry `id` as acknowledged by `acknowledged_by` at the
    /// time of the call.
    pub fn acknowledge_alert(&mut self, id: &str, acknowledged_by: &str) -> (r: Result<
        (),
        TelemetryError,
    >)
        requires
            old(self).wf(),
        ensures
            final(self).wf(),
            match r {
                Ok(()) => {
                    &&& old(self)@.has_open_entry(id@)
                    &&& exists|at: Timestamp|
                        final(self)@ == #[trigger] old(self)@.with_acknowledged(
                            id@,
                            acknowledged_by@,
                            at,
                        )
                },
                Err(error) => {
                    &&& !old(self)@.has_open_entry(id@)
                    &&& error == TelemetryError::NotFound
                    &&& final(self)@ == old(self)@
                },
            },
    {
        let at = current_time();
        self.acknowledge_at(id, acknowledged_by, at)
    }
}

/// Whether none of `entries` has the id `id`.
fn id_is_unused(entries: &Vec<AlertHistory>, ids: &Vec<String>, upto: usize, id: &String) -> (r:
    bool)
    requires
        upto <= ids.len(),
    ensures
        r == (!holds_entry(history_views(entries@), id@) && forall|j: int|
            0 <= j < upto ==> (#[trigger] ids@[j])@ != id@),
{
    if entry_position(entries, id).is_some() {
        return false;
    }
    let mut j: usize = 0;
    while j < upto
        invariant
            j <= upto <= ids.len(),
            forall|k: int| 0 <= k < j ==> (#[trigger] ids@[k])@ != id@,
        decreases upto - j,
    {
        if ids[j] == *id {
            return false;
        }
        j += 1;
    }
    true
}

impl DatabaseManager {
    /// The rules that `values` breach, in the order of the rules, each with
    /// the value observed for its metric. Rules that are not enabled are
    /// passed over.
    pub fn triggered(&self, values: &MetricValues) -> (r: Vec<Breach>)
        ensures
            breach_views(r@) == breaches_of(self@.configurations, *values),
    {
        let ghost f = |rule: ConfigurationView| breach_of(rule, *values);
        let mut r: Vec<Breach> = Vec::new();
        let mut i: usize = 0;
        assert(breach_views(r@) =~= self@.configurations.take(0).filter_map(f));
        while i < self.configurations.len()
            invariant
                i <= self.configurations.len(),
                f == |rule: ConfigurationView| breach_of(rule, *values),
                breach_views(r@) == self@.configurations.take(i as int).filter_map(f),
            decreases self.configurations.len() - i,
        {
            proof {
                self@.configurations.lemma_filter_map_take_succ(f, i as int);
            }
            let ghost before = r@;
            let rule = &self.configurations[i];
            if rule.is_breached_by(values) {
                let breach = Breach {
                    config_id: rule.id.clone(),
                    value: values.value_of(rule.metric),
                };
                r.push(breach);
                assert(breach_views(r@) =~= breach_views(before).push(
                    breach_of(rule@, *values).unwrap(),
                ));
            }
            i += 1;
        }
        assert(self@.configurations.take(i as int) =~= self@.configurations);
        r
    }

    /// Adds one unacknowledged entry to the history for each of `breaches`,
    /// under the ids `ids` and with the time `at`, and returns the entries.
    /// Ids of which two are the same, or of which the history holds one, or
    /// which are not as many as the breaches, are refused, and nothing is
    /// added.
    pub fn record_breaches(
        &mut self,
        breaches: &Vec<Breach>,
        ids: Vec<String>,
        at: Timestamp,
    ) -> (r: Result<Vec<AlertHistory>, TelemetryError>)
        requires
            old(self).wf(),
        ensures
            final(self).wf(),
            match r {
                Ok(entries) => {
                    &&& ids.len() == breaches.len()
                    &&& old(self)@.ids_are_new(texts(ids@))
                    &&& history_views(entries@) == entries_of(
                        breach_views(breaches@),
                        texts(ids@),
                        at,
                    )
                    &&& final(self)@ == old(self)@.with_entries(history_views(entries@))
                },
                Err(error) => {
                    &&& ids.len() != breaches.len() || !old(self)@.ids_are_new(texts(ids@))
                    &&& error == TelemetryError::StorageFailure
                    &&& final(self)@ == old(self)@
                },
            },
    {
        if ids.len() != breaches.len() {
            return Err(TelemetryError::StorageFailure);
        }
        let ghost before = self@;
        let ghost names = texts(ids@);
        let mut i: usize = 0;
        while i < ids.len()
            invariant
                i <= ids.len(),
                self@ == before,
                before.wf(),
                names == texts(ids@),
                forall|a: int, b: int| 0 <= a < b < i ==> #[trigger] names[a] != #[trigger] names[b],
                forall|a: int| 0 <= a < i ==> !before.has_entry(#[trigger] names[a]),
            decreases ids.len() - i,
        {
            if !id_is_unused(&self.history, &ids, i, &ids[i]) {
                proof {
                    if before.has_entry(names[i as int]) {
                    } else {
                        let j = choose|j: int| 0 <= j < i && (#[trigger] ids@[j])@ == ids@[i as int]@;
                        assert(names[j] == names[i as int]);
                    }
                }
                return Err(TelemetryError::StorageFailure);
            }
            proof {
                assert forall|a: int, b: int| 0 <= a < b < i + 1 implies #[trigger] names[a]
                    != #[trigger] names[b] by {
                    if b == i {
                        assert(ids@[a]@ != ids@[i as int]@);
                    }
                }
            }
            i += 1;
        }
        assert(before.ids_are_new(names));
        let ghost made = entries_of(breach_views(breaches@), names, at);
        let mut entries: Vec<AlertHistory> = Vec::new();
        let mut k: usize = 0;
        while k < breaches.len()
            invariant
                k <= breaches.len(),
                ids.len() == breaches.len(),
                before.wf(),
                before.ids_are_new(names),
                names == texts(ids@),
                made == entries_of(breach_views(breaches@), names, at),
                self@.samples == before.samples,
                self@.disks == before.disks,
                self@.networks == before.networks,
                self@.configurations == before.configurations,
                self@.history == before.history + made.take(k as int),
                history_views(entries@) == made.take(k as int),
            decreases breaches.len() - k,
        {
            let ghost held = self.history@;
            let ghost listed = entries@;
            let entry = AlertHistory {
                id: ids[k].clone(),
                config_id: breaches[k].config_id.clone(),
                triggered_at: at,
                value: breaches[k].value,
                acknowledgment: Acknowledgment::Unacknowledged,
            };
            proof {
                assert(breach_views(breaches@)[k as int] == breaches@[k as int]@);
                assert(names[k as int] == ids@[k as int]@);
                assert(entry@ == made[k as int]);
                assert(made.take(k + 1) =~= made.take(k as int).push(made[k as int]));
            }
            entries.push(entry.clone());
            self.history.push(entry);
            proof {
                assert(history_views(entries@) =~= history_views(listed).push(made[k as int]));
                assert(history_views(self.history@) =~= history_views(held).push(made[k as int]));
                assert(self@.history =~= before.history + made.take(k + 1));
            }
            k += 1;
        }
        proof {
            assert(made.take(k as int) =~= made);
            let after = before.history + made;
            assert forall|a: int, b: int| 0 <= a < b < after.len() implies (#[trigger] after[a]).id
                != (#[trigger] after[b]).id by {
                let n = before.history.len() as int;
                if b < n {
                    assert(before.history[a].id != before.history[b].id);
                } else if a < n {
                    assert(after[b].id == names[b - n]);
                    assert(!before.has_entry(names[b - n]));
                    assert(before.history[a].id != names[b - n]);
                } else {
                    assert(after[a].id == names[a - n]);
                    assert(after[b].id == names[b - n]);
                }
            }
        }
        Ok(entries)
    }

    /// Tests the four metric values against every enabled rule and adds one
    /// unacknowledged entry to the history for each breach, which it
    /// returns in the order of the rules. The entries carry fresh ids and
    /// the time of the call. Fails, with nothing added, where the fresh ids
    /// cannot name new entries; so it cannot fail where no rule is breached,
    /// nor where one rule is breached and the history is empty.
    pub fn check_alerts(&mut self, cpu: Milli, memory: Milli, disk: Milli, network: Milli) -> (r:
        Result<Vec<AlertHistory>, TelemetryError>)
        requires
            old(self).wf(),
        ensures
            final(self).wf(),
            match r {
                Ok(entries) => final(self)@ == old(self)@.with_entries(history_views(entries@))
                    && exists|ids: Seq<Seq<char>>, at: Timestamp|
                    #[trigger] alerts_raised(
                        old(self)@,
                        MetricValues { cpu, memory, disk, network },
                        ids,
                        at,
                        history_views(entries@),
                    ),
                Err(error) => error == TelemetryError::StorageFailure && final(self)@ == old(self)@,
            },
            breaches_of(
                old(self)@.configurations,
                MetricValues { cpu, memory, disk, network },
            ).len() == 0 ==> r is Ok,
            old(self)@.history.len() == 0 && breaches_of(
                old(self)@.configurations,
                MetricValues { cpu, memory, disk, network },
            ).len() == 1 ==> r is Ok,
    {
        let values = MetricValues { cpu, memory, disk, network };
        let breaches = self.triggered(&values);
        let mut ids: Vec<String> = Vec::new();
        let mut i: usize = 0;
        while i < breaches.len()
            invariant
                i <= breaches.len(),
                ids.len() == i,
            decreases breaches.len() - i,
        {
            ids.push(fresh_id());
            i += 1;
        }
        let at = current_time();
        proof {
            if breaches.len() == 0 || (breaches.len() == 1 && old(self)@.history.len() == 0) {
                assert(old(self)@.ids_are_new(texts(ids@)));
            }
            assert(breach_views(breaches@).len() == breaches.len());
            assert(texts(ids@).len() == ids.len());
        }
        let r = self.record_breaches(&breaches, ids, at);
        proof {
            if r is Ok {
                assert(alerts_raised(
                    old(self)@,
                    values,
                    texts(ids@),
                    at,
                    history_views(r->Ok_0@),
                ));
            }
        }
        r
    }
}

/// A filter of rules with distinct ids has distinct ids.
proof fn lemma_filter_rules_distinct(
    rules: Seq<ConfigurationView>,
    keep: spec_fn(ConfigurationView) -> bool,
)
    requires
        forall|i: int, j: int|
            0 <= i < j < rules.len() ==> (#[trigger] rules[i]).id != (#[trigger] rules[j]).id,
    ensures
        forall|i: int, j: int|
            0 <= i < j < rules.filter(keep).len() ==> (#[trigger] rules.filter(keep)[i]).id != (
            #[trigger] rules.filter(keep)[j]).id,
    decreases rules.len(),
{
    let f = rules.filter(keep);
    if rules.len() == 0 {
        rules.lemma_filter_len(keep);
    } else {
        let head = rules.drop_last();
        let fh = head.filter(keep);
        assert forall|i: int, j: int| 0 <= i < j < head.len() implies (#[trigger] head[i]).id != (
        #[trigger] head[j]).id by {
            assert(head[i] == rules[i] && head[j] == rules[j]);
        }
        lemma_filter_rules_distinct(head, keep);
        lemma_filter_last(rules, keep);
        if keep(rules.last()) {
            assert forall|i: int, j: int| 0 <= i < j < f.len() implies (#[trigger] f[i]).id != (
            #[trigger] f[j]).id by {
                if j < fh.len() {
                    assert(f[i] == fh[i] && f[j] == fh[j]);
                } else {
                    lemma_filter_member(head, keep, i);
                    let a = choose|a: int| 0 <= a < head.len() && head[a] == fh[i];
                    assert(rules[a] == f[i]);
                    assert(rules[rules.len() - 1] == f[j]);
                }
            }
        }
    }
}

} // verus!
