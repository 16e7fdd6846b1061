//! Temperature sensor resolution.
//!
//! The operating system reports a variable, unordered collection of
//! temperature sensors.  Every readable entry is put into a [`SensorTable`]
//! keyed by its label (entries without a label go under `"unknown"`, and a
//! later reading overwrites an earlier one with the same label), and a single
//! best-effort CPU temperature is then selected by a fixed priority:
//! `"Composite"` first, `"CPU"` second, and a default of 0 °C when neither
//! label is present.  Resolution is total: it never fails, for any finite
//! sensor enumeration.

use vstd::prelude::*;

verus! {

/// A temperature in degrees Celsius, held exactly as thousandths of a degree.
#[derive(Clone, Copy, Debug, PartialEq, Eq, Structural)]
pub struct Temperature {
    /// Thousandths of a degree Celsius; `45_000` is 45 °C.
    pub millidegrees: i64,
}

impl Temperature {
    /// The fixed fallback reading, 0 °C, used when no preferred sensor exists.
    pub fn default_reading() -> (t: Temperature)
        ensures
            t == (Temperature { millidegrees: 0 }),
    {
        Temperature { millidegrees: 0 }
    }
}

/// A single sensor whose current value could not be read.  Such entries are
/// skipped during table construction; the failure carries no further data.
#[derive(Clone, Copy, Debug)]
pub struct SensorReadError {}

/// One entry of the operating system's sensor enumeration: an optional label
/// and the current reading, which may itself have failed.
#[derive(Debug)]
pub struct SensorEntry {
    /// The sensor's label, absent on some platforms.
    pub label: Option<String>,
    /// The current reading, or the per-sensor read failure.
    pub reading: Result<Temperature, SensorReadError>,
}

/// The label under which an entry is stored: its own label, or `"unknown"`
/// when it has none.
pub open spec fn entry_label(e: SensorEntry) -> Seq<char> {
    match e.label {
        Some(l) => l@,
        None => "unknown"@,
    }
}

/// The mapping that a sequence of label/reading pairs denotes: each pair is
/// inserted in order, so a later pair overwrites an earlier one with the same
/// label.
pub open spec fn map_of(entries: Seq<(String, Temperature)>) -> Map<Seq<char>, Temperature>
    decreases entries.len(),
{
    if entries.len() == 0 {
        Map::empty()
    } else {
        map_of(entries.drop_last()).insert(entries.last().0@, entries.last().1)
    }
}

/// The table that a sensor enumeration denotes: every readable entry is
/// inserted under its label in enumeration order (last write wins), and every
/// failed entry is skipped.
pub open spec fn table_spec(entries: Seq<SensorEntry>) -> Map<Seq<char>, Temperature>
    decreases entries.len(),
{
    if entries.len() == 0 {
        Map::empty()
    } else {
        let rest = table_spec(entries.drop_last());
        match entries.last().reading {
            Ok(t) => rest.insert(entry_label(entries.last()), t),
            Err(_) => rest,
        }
    }
}

/// The fixed selection policy over a finished table: the `"Composite"`
/// reading when present, else the `"CPU"` reading, else 0 °C.  Total by
/// construction: every table yields a value.
pub open spec fn resolution_spec(table: Map<Seq<char>, Temperature>) -> Temperature {
    if table.contains_key("Composite"@) {
        table["Composite"@]
    } else if table.contains_key("CPU"@) {
        table["CPU"@]
    } else {
        Temperature { millidegrees: 0 }
    }
}

/// Mapping from sensor label to its latest reading, rebuilt from scratch on
/// every tick.  Viewed as a `Map<Seq<char>, Temperature>`; a later insertion
/// under an existing label overwrites the earlier reading.
pub struct SensorTable {
    entries: Vec<(String, Temperature)>,
}

impl View for SensorTable {
    type V = Map<Seq<char>, Temperature>;

    closed spec fn view(&self) -> Map<Seq<char>, Temperature> {
        map_of(self.entries@)
    }
}

/// The pair at position `i` is the last one with label `k`, so the denoted
/// mapping holds exactly its reading under `k`.
proof fn lemma_map_of_match(entries: Seq<(String, Temperature)>, k: Seq<char>, i: int)
    requires
        0 <= i < entries.len(),
        entries[i].0@ == k,
        forall|j: int| i < j < entries.len() ==> entries[j].0@ != k,
    ensures
        map_of(entries).contains_key(k),
        map_of(entries)[k] == entries[i].1,
    decreases entries.len(),
{
    if i < entries.len() - 1 {
        lemma_map_of_match(entries.drop_last(), k, i);
    }
}

/// No pair carries label `k`, so the denoted mapping has no entry under `k`.
proof fn lemma_map_of_no_match(entries: Seq<(String, Temperature)>, k: Seq<char>)
    requires
        forall|j: int| 0 <= j < entries.len() ==> entries[j].0@ != k,
    ensures
        !map_of(entries).contains_key(k),
    decreases entries.len(),
{
    if entries.len() > 0 {
        lemma_map_of_no_match(entries.drop_last(), k);
    }
}

impl SensorTable {
    /// The empty table, holding no readings at all.
    pub fn new() -> (table: SensorTable)
        ensures
            table@ == Map::<Seq<char>, Temperature>::empty(),
    {
        SensorTable { entries: Vec::new() }
    }

    /// Record `reading` under `label`, overwriting any earlier reading that
    /// was stored under the same label.
    pub fn insert(&mut self, label: String, reading: Temperature)
        ensures
            final(self)@ == old(self)@.insert(label@, reading),
    {
        let ghost prior = self.entries@;
        self.entries.push((label, reading));
        proof {
            assert(self.entries@.drop_last() =~= prior);
        }
    }

    /// Look up the latest reading stored under `label`.
    pub fn get(&self, label: &String) -> (r: Option<Temperature>)
        ensures
            match r {
                Some(t) => self@.contains_key(label@) && self@[label@] == t,
                None => !self@.contains_key(label@),
            },
    {
        let mut i: usize = self.entries.len();
        while i > 0
            invariant
                i <= self.entries.len(),
                forall|j: int| i <= j < self.entries@.len() ==> self.entries@[j].0@ != label@,
            decreases i,
        {
            i = i - 1;
            if self.entries[i].0 == *label {
                proof {
                    lemma_map_of_match(self.entries@, label@, i as int);
                }
                return Some(self.entries[i].1);
            }
        }
        proof {
            lemma_map_of_no_match(self.entries@, label@);
        }
        None
    }

    /// Select the best available reading by the fixed priority: `"Composite"`
    /// first, then `"CPU"`, then the 0 °C default.  Total: never fails.
    pub fn resolve(&self) -> (t: Temperature)
        ensures
            t == resolution_spec(self@),
    {
        let composite = String::from_str("Composite");
        if let Some(t) = self.get(&composite) {
            return t;
        }
        let cpu = String::from_str("CPU");
        if let Some(t) = self.get(&cpu) {
            return t;
        }
        Temperature::default_reading()
    }
}

/// Consume a full sensor enumeration into a fresh table: readable entries are
/// keyed by their label (or `"unknown"`), failed entries are silently
/// skipped, and a later entry overwrites an earlier one with the same label.
pub fn build_sensor_table(entries: &Vec<SensorEntry>) -> (table: SensorTable)
    ensures
        table@ == table_spec(entries@),
{
    let mut table = SensorTable::new();
    let mut i: usize = 0;
    while i < entries.len()
        invariant
            i <= entries.len(),
            table@ == table_spec(entries@.take(i as int)),
        decreases entries.len() - i,
    {
        match &entries[i].reading {
            Ok(t) => {
                let label: String = match &entries[i].label {
                    Some(l) => l.clone(),
                    None => String::from_str("unknown"),
                };
                table.insert(label, *t);
            },
            Err(_) => {},
        }
        proof {
            assert(entries@.take(i + 1).drop_last() =~= entries@.take(i as int));
            assert(entries@.take(i + 1).last() == entries@[i as int]);
        }
        i = i + 1;
    }
    proof {
        assert(entries@.take(entries@.len() as int) =~= entries@);
    }
    table
}

/// Sensor priority: a table holding both a `"Composite"` and a `"CPU"`
/// reading resolves to the `"Composite"` one.
pub proof fn lemma_sensor_priority(table: Map<Seq<char>, Temperature>)
    requires
        table.contains_key("Composite"@),
        table.contains_key("CPU"@),
    ensures
        resolution_spec(table) == table["Composite"@],
{
}

/// Fallback: a table holding a `"CPU"` reading but no `"Composite"` reading
/// resolves to the `"CPU"` one.
pub proof fn lemma_sensor_fallback(table: Map<Seq<char>, Temperature>)
    requires
        !table.contains_key("Composite"@),
        table.contains_key("CPU"@),
    ensures
        resolution_spec(table) == table["CPU"@],
{
}

/// Default: a table with neither preferred label — the empty table included —
/// resolves to 0 °C.
pub proof fn lemma_sensor_default(table: Map<Seq<char>, Temperature>)
    requires
        !table.contains_key("Composite"@),
        !table.contains_key("CPU"@),
    ensures
        resolution_spec(table) == (Temperature { millidegrees: 0 }),
{
}

/// An entry with no label whose reading succeeded is stored under the literal
/// label `"unknown"`.
pub proof fn lemma_unlabeled_stored_as_unknown(entries: Seq<SensorEntry>, i: int)
    requires
        0 <= i < entries.len(),
        entries[i].label is None,
        entries[i].reading is Ok,
    ensures
        table_spec(entries).contains_key("unknown"@),
    decreases entries.len(),
{
    if i < entries.len() - 1 {
        lemma_unlabeled_stored_as_unknown(entries.drop_last(), i);
    }
}

/// `"unknown"` matches neither priority label, so an unlabeled entry is never
/// selected over an explicit `"Composite"` or `"CPU"` entry: whenever either
/// preferred label is present, resolution returns that explicit reading,
/// whatever is stored under `"unknown"`.
pub proof fn lemma_unknown_never_selected(table: Map<Seq<char>, Temperature>)
    requires
        table.contains_key("Composite"@) || table.contains_key("CPU"@),
    ensures
        "unknown"@ != "Composite"@,
        "unknown"@ != "CPU"@,
        resolution_spec(table) == if table.contains_key("Composite"@) {
            table["Composite"@]
        } else {
            table["CPU"@]
        },
{
    reveal_strlit("unknown");
    reveal_strlit("Composite");
    reveal_strlit("CPU");
    assert("unknown"@.len() == 7);
    assert("Composite"@.len() == 9);
    assert("CPU"@.len() == 3);
}

/// Per-sensor failure isolation: an entry whose reading failed contributes
/// nothing — the table, and hence resolution, is exactly what it would be
/// with that entry absent.  A `"Composite"` or `"CPU"` entry after the
/// failure is therefore still found.
pub proof fn lemma_failure_isolation(entries: Seq<SensorEntry>, i: int)
    requires
        0 <= i < entries.len(),
        entries[i].reading is Err,
    ensures
        table_spec(entries) == table_spec(entries.remove(i)),
        resolution_spec(table_spec(entries)) == resolution_spec(table_spec(entries.remove(i))),
    decreases entries.len(),
{
    if i == entries.len() - 1 {
        assert(entries.remove(i) =~= entries.drop_last());
    } else {
        lemma_failure_isolation(entries.drop_last(), i);
        assert(entries.remove(i).drop_last() =~= entries.drop_last().remove(i));
        assert(entries.remove(i).last() == entries.last());
    }
}

/// The Sensor Resolver's whole operation: drain the enumeration into a table,
/// then select by priority.  Total for every finite sensor sequence — it has
/// no precondition and never fails, the empty sequence included.
pub fn resolve_temperature(entries: &Vec<SensorEntry>) -> (t: Temperature)
    ensures
        t == resolution_spec(table_spec(entries@)),
{
    build_sensor_table(entries).resolve()
}

} // verus!
