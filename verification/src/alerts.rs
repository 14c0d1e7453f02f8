//! Alert rules and alert history entries, and the test of a rule against
//! observed metric values.

use vstd::prelude::*;
use crate::numbers::Milli;
use crate::text::{chars_of, same_text};
use crate::time::Timestamp;

verus! {

/// The metric that a rule watches.
#[derive(Clone, Copy, Debug, PartialEq, Eq, Structural)]
pub enum AlertMetric {
    Cpu,
    Memory,
    Disk,
    Network,
}

/// How a rule compares the observed value with its threshold.
#[derive(Clone, Copy, Debug, PartialEq, Eq, Structural)]
pub enum Comparison {
    Greater,
    GreaterOrEqual,
    Less,
    LessOrEqual,
    Equal,
    NotEqual,
}

/// How grave a breach of a rule is.
#[derive(Clone, Copy, Debug, PartialEq, Eq, Structural)]
pub enum Severity {
    Info,
    Warning,
    Critical,
}

impl AlertMetric {
    /// The name of the metric.
    pub open spec fn label(self) -> Seq<char> {
        match self {
            AlertMetric::Cpu => "cpu"@,
            AlertMetric::Memory => "memory"@,
            AlertMetric::Disk => "disk"@,
            AlertMetric::Network => "network"@,
        }
    }

    /// The metric that a name stands for.
    pub open spec fn of_name(name: Seq<char>) -> Option<AlertMetric> {
        if name == "cpu"@ {
            Some(AlertMetric::Cpu)
        } else if name == "memory"@ {
            Some(AlertMetric::Memory)
        } else if name == "disk"@ {
            Some(AlertMetric::Disk)
        } else if name == "network"@ {
            Some(AlertMetric::Network)
        } else {
            None
        }
    }

    /// One of `cpu`, `memory`, `disk` and `network`.
    pub fn name(&self) -> (r: &'static str)
        ensures
            r@ == self.label(),
    {
        match self {
            AlertMetric::Cpu => "cpu",
            AlertMetric::Memory => "memory",
            AlertMetric::Disk => "disk",
            AlertMetric::Network => "network",
        }
    }

    /// Reads one of `cpu`, `memory`, `disk` and `network`.
    pub fn from_name(name: &str) -> (r: Option<AlertMetric>)
        ensures
            r == Self::of_name(name@),
    {
        let v = chars_of(name);
        if same_text(&v, "cpu") {
            Some(AlertMetric::Cpu)
        } else if same_text(&v, "memory") {
            Some(AlertMetric::Memory)
        } else if same_text(&v, "disk") {
            Some(AlertMetric::Disk)
        } else if same_text(&v, "network") {
            Some(AlertMetric::Network)
        } else {
            None
        }
    }
}

impl Severity {
    /// The name of the severity.
    pub open spec fn label(self) -> Seq<char> {
        match self {
            Severity::Info => "info"@,
            Severity::Warning => "warning"@,
            Severity::Critical => "critical"@,
        }
    }

    /// The severity that a name stands for.
    pub open spec fn of_name(name: Seq<char>) -> Option<Severity> {
        if name == "info"@ {
            Some(Severity::Info)
        } else if name == "warning"@ {
            Some(Severity::Warning)
        } else if name == "critical"@ {
            Some(Severity::Critical)
        } else {
            None
        }
    }

    /// One of `info`, `warning` and `critical`.
    pub fn name(&self) -> (r: &'static str)
        ensures
            r@ == self.label(),
    {
        match self {
            Severity::Info => "info",
            Severity::Warning => "warning",
            Severity::Critical => "critical",
        }
    }

    /// Reads one of `info`, `warning` and `critical`.
    pub fn from_name(name: &str) -> (r: Option<Severity>)
        ensures
            r == Self::of_name(name@),
    {
        let v = chars_of(name);
        if same_text(&v, "info") {
            Some(Severity::Info)
        } else if same_text(&v, "warning") {
            Some(Severity::Warning)
        } else if same_text(&v, "critical") {
            Some(Severity::Critical)
        } else {
            None
        }
    }
}

/// The metric values of one evaluation pass.
#[derive(Clone, Copy, Debug, PartialEq, Eq, Structural)]
pub struct MetricValues {
    pub cpu: Milli,
    pub memory: Milli,
    pub disk: Milli,
    pub network: Milli,
}

impl MetricValues {
    /// The value of `metric`.
    pub open spec fn of(self, metric: AlertMetric) -> Milli {
        match metric {
            AlertMetric::Cpu => self.cpu,
            AlertMetric::Memory => self.memory,
            AlertMetric::Disk => self.disk,
            AlertMetric::Network => self.network,
        }
    }

    /// The value of `metric`.
    pub fn value_of(&self, metric: AlertMetric) -> (r: Milli)
        ensures
            r == self.of(metric),
    {
        match metric {
            AlertMetric::Cpu => self.cpu,
            AlertMetric::Memory => self.memory,
            AlertMetric::Disk => self.disk,
            AlertMetric::Network => self.network,
        }
    }
}

impl Comparison {
    /// Whether `observed` stands to `threshold` as the operator says.
    pub open spec fn holds(self, observed: Milli, threshold: Milli) -> bool {
        match self {
            Comparison::Greater => observed.0 > threshold.0,
            Comparison::GreaterOrEqual => observed.0 >= threshold.0,
            Comparison::Less => observed.0 < threshold.0,
            Comparison::LessOrEqual => observed.0 <= threshold.0,
            Comparison::Equal => observed.0 == threshold.0,
            Comparison::NotEqual => observed.0 != threshold.0,
        }
    }

    /// Whether `observed` stands to `threshold` as the operator says.
    pub fn test(&self, observed: Milli, threshold: Milli) -> (r: bool)
        ensures
            r == self.holds(observed, threshold),
    {
        match self {
            Comparison::Greater => observed.0 > threshold.0,
            Comparison::GreaterOrEqual => observed.0 >= threshold.0,
            Comparison::Less => observed.0 < threshold.0,
            Comparison::LessOrEqual => observed.0 <= threshold.0,
            Comparison::Equal => observed.0 == threshold.0,
            Comparison::NotEqual => observed.0 != threshold.0,
        }
    }

    /// The symbol of the operator.
    pub open spec fn sign(self) -> Seq<char> {
        match self {
            Comparison::Greater => ">"@,
            Comparison::GreaterOrEqual => ">="@,
            Comparison::Less => "<"@,
            Comparison::LessOrEqual => "<="@,
            Comparison::Equal => "=="@,
            Comparison::NotEqual => "!="@,
        }
    }

    /// One of `>`, `>=`, `<`, `<=`, `==` and `!=`.
    pub fn symbol(&self) -> (r: &'static str)
        ensures
            r@ == self.sign(),
    {
        match self {
            Comparison::Greater => ">",
            Comparison::GreaterOrEqual => ">=",
            Comparison::Less => "<",
            Comparison::LessOrEqual => "<=",
            Comparison::Equal => "==",
            Comparison::NotEqual => "!=",
        }
    }

    /// The operator that a symbol writes.
    pub open spec fn of_symbol(symbol: Seq<char>) -> Option<Comparison> {
        if symbol == ">"@ {
            Some(Comparison::Greater)
        } else if symbol == ">="@ {
            Some(Comparison::GreaterOrEqual)
        } else if symbol == "<"@ {
            Some(Comparison::Less)
        } else if symbol == "<="@ {
            Some(Comparison::LessOrEqual)
        } else if symbol == "=="@ {
            Some(Comparison::Equal)
        } else if symbol == "!="@ {
            Some(Comparison::NotEqual)
        } else {
            None
        }
    }

    /// Reads one of `>`, `>=`, `<`, `<=`, `==` and `!=`.
    pub fn from_symbol(symbol: &str) -> (r: Option<Comparison>)
        ensures
            r == Self::of_symbol(symbol@),
    {
        let v = chars_of(symbol);
        if same_text(&v, ">") {
            Some(Comparison::Greater)
        } else if same_text(&v, ">=") {
            Some(Comparison::GreaterOrEqual)
        } else if same_text(&v, "<") {
            Some(Comparison::Less)
        } else if same_text(&v, "<=") {
            Some(Comparison::LessOrEqual)
        } else if same_text(&v, "==") {
            Some(Comparison::Equal)
        } else if same_text(&v, "!=") {
            Some(Comparison::NotEqual)
        } else {
            None
        }
    }
}

/// One alert rule.
#[derive(Debug)]
pub struct AlertConfiguration {
    pub id: String,
    pub metric: AlertMetric,
    pub operator: Comparison,
    pub threshold: Milli,
    pub enabled: bool,
    pub severity: Severity,
}

/// An alert rule, its id as characters.
pub struct ConfigurationView {
    pub id: Seq<char>,
    pub metric: AlertMetric,
    pub operator: Comparison,
    pub threshold: Milli,
    pub enabled: bool,
    pub severity: Severity,
}

impl View for AlertConfiguration {
    type V = ConfigurationView;

    open spec fn view(&self) -> ConfigurationView {
        ConfigurationView {
            id: self.id@,
            metric: self.metric,
            operator: self.operator,
            threshold: self.threshold,
            enabled: self.enabled,
            severity: self.severity,
        }
    }
}

impl Clone for AlertConfiguration {
    fn clone(&self) -> (r: Self)
        ensures
            r == *self,
    {
        AlertConfiguration {
            id: self.id.clone(),
            metric: self.metric,
            operator: self.operator,
            threshold: self.threshold,
            enabled: self.enabled,
            severity: self.severity,
        }
    }
}

impl ConfigurationView {
    /// Whether the rule is enabled and `values` breach it.
    pub open spec fn breached_by(self, values: MetricValues) -> bool {
        self.enabled && self.operator.holds(values.of(self.metric), self.threshold)
    }

    /// The rule under another id.
    pub open spec fn with_id(self, id: Seq<char>) -> ConfigurationView {
        ConfigurationView { id, ..self }
    }
}

impl AlertConfiguration {
    /// Whether the rule is enabled and `values` breach it.
    pub fn is_breached_by(&self, values: &MetricValues) -> (r: bool)
        ensures
            r == self@.breached_by(*values),
    {
        self.enabled && self.operator.test(values.value_of(self.metric), self.threshold)
    }
}

/// Whether, by whom and when a history entry was acknowledged.
#[derive(Debug)]
pub enum Acknowledgment {
    Unacknowledged,
    Acknowledged { by: String, at: Timestamp },
}

/// An acknowledgment, its name as characters.
pub enum AcknowledgmentView {
    Unacknowledged,
    Acknowledged { by: Seq<char>, at: Timestamp },
}

impl View for Acknowledgment {
    type V = AcknowledgmentView;

    open spec fn view(&self) -> AcknowledgmentView {
        match self {
            Acknowledgment::Unacknowledged => AcknowledgmentView::Unacknowledged,
            Acknowledgment::Acknowledged { by, at } => AcknowledgmentView::Acknowledged {
                by: by@,
                at: *at,
            },
        }
    }
}

impl Clone for Acknowledgment {
    fn clone(&self) -> (r: Self)
        ensures
            r == *self,
    {
        match self {
            Acknowledgment::Unacknowledged => Acknowledgment::Unacknowledged,
            Acknowledgment::Acknowledged { by, at } => Acknowledgment::Acknowledged {
                by: by.clone(),
                at: *at,
            },
        }
    }
}

/// One breach of a rule, as kept in the alert history.
#[derive(Debug)]
pub struct AlertHistory {
    pub id: String,
    pub config_id: String,
    pub triggered_at: Timestamp,
    pub value: Milli,
    pub acknowledgment: Acknowledgment,
}

/// A history entry, its texts as characters.
pub struct HistoryView {
    pub id: Seq<char>,
    pub config_id: Seq<char>,
    pub triggered_at: Timestamp,
    pub value: Milli,
    pub acknowledgment: AcknowledgmentView,
}

impl View for AlertHistory {
    type V = HistoryView;

    open spec fn view(&self) -> HistoryView {
        HistoryView {
            id: self.id@,
            config_id: self.config_id@,
            triggered_at: self.triggered_at,
            value: self.value,
            acknowledgment: self.acknowledgment@,
        }
    }
}

impl Clone for AlertHistory {
    fn clone(&self) -> (r: Self)
        ensures
            r == *self,
    {
        AlertHistory {
            id: self.id.clone(),
            config_id: self.config_id.clone(),
            triggered_at: self.triggered_at,
            value: self.value,
            acknowledgment: self.acknowledgment.clone(),
        }
    }
}

/// The views of a list of rules.
pub open spec fn configuration_views(configurations: Seq<AlertConfiguration>) -> Seq<
    ConfigurationView,
> {
    configurations.map_values(|c: AlertConfiguration| c@)
}

/// The views of a list of history entries.
pub open spec fn history_views(entries: Seq<AlertHistory>) -> Seq<HistoryView> {
    entries.map_values(|e: AlertHistory| e@)
}

/// A rule that the values of a pass breach, with the value observed.
#[derive(Debug)]
pub struct Breach {
    pub config_id: String,
    pub value: Milli,
}

/// A breach, the id of its rule as characters.
pub struct BreachView {
    pub config_id: Seq<char>,
    pub value: Milli,
}

impl View for Breach {
    type V = BreachView;

    open spec fn view(&self) -> BreachView {
        BreachView { config_id: self.config_id@, value: self.value }
    }
}

/// The views of a list of breaches.
pub open spec fn breach_views(breaches: Seq<Breach>) -> Seq<BreachView> {
    breaches.map_values(|b: Breach| b@)
}

/// The breach that `values` make of one rule.
pub open spec fn breach_of(rule: ConfigurationView, values: MetricValues) -> Option<BreachView> {
    if rule.breached_by(values) {
        Some(BreachView { config_id: rule.id, value: values.of(rule.metric) })
    } else {
        None
    }
}

/// The breaches that `values` make of a list of rules, in the order of the
/// rules.
pub open spec fn breaches_of(rules: Seq<ConfigurationView>, values: MetricValues) -> Seq<
    BreachView,
> {
    rules.filter_map(|rule: ConfigurationView| breach_of(rule, values))
}

/// The history entry that a breach makes: unacknowledged, with the observed
/// value.
pub open spec fn entry_of(breach: BreachView, id: Seq<char>, at: Timestamp) -> HistoryView {
    HistoryView {
        id,
        config_id: breach.config_id,
        triggered_at: at,
        value: breach.value,
        acknowledgment: AcknowledgmentView::Unacknowledged,
    }
}

} // verus!
