//! The chart of machine states: for each state, the intervals that machines spent in it.

use crate::chart_data::{AccumulateError, ChartHandler};
use crate::influxdb::flux_value::{list_literal, quoted_all, quoted_pairs, FluxValue};
use crate::ordered_map::{has_key, insert_pair, keys, keys_of, map_pairs, new_map, pairs_of};
use indexmap::IndexMap;
use crate::shift::DAY_MS;
use crate::text::{
    decimal_digits, decimal_i64, decimal_text, decimal_u64, lemma_decimal_digits_differ,
};
use crate::timestamp::Timestamp;
use crate::ui_customization::{Machine, UiCustomizationData};
use vstd::prelude::*;

verus! {

/// The data of the chart: one serie for each state.
pub type ChartData = Vec<DataSerie>;

/// The intervals that machines spent in one state.
#[derive(Debug)]
pub struct DataSerie {
    pub name: String,
    pub data: Vec<DataPoint>,
}

/// An interval that a machine spent in a state.
#[derive(Debug)]
pub struct DataPoint {
    /// The name of the machine.
    pub x: String,
    /// The start and the end of the interval, in milliseconds since the Unix epoch.
    pub y: (i64, i64),
}

/// A `DataPoint` as plain values.
pub struct DataPointView {
    pub x: Seq<char>,
    pub y: (int, int),
}

/// A `DataSerie` as plain values.
pub struct DataSerieView {
    pub name: Seq<char>,
    pub data: Seq<DataPointView>,
}

impl DeepView for DataPoint {
    type V = DataPointView;

    open spec fn deep_view(&self) -> DataPointView {
        DataPointView { x: self.x@, y: (self.y.0 as int, self.y.1 as int) }
    }
}

impl DeepView for DataSerie {
    type V = DataSerieView;

    open spec fn deep_view(&self) -> DataSerieView {
        DataSerieView { name: self.name@, data: self.data.deep_view() }
    }
}

/// One row of the result: a machine entered a state at an instant and stayed in it for
/// a number of seconds.
#[derive(Debug)]
pub struct ResultRow {
    time: Timestamp,
    duration: i64,
    machine_name: String,
    state_index: usize,
}

/// A `ResultRow` as plain values.
pub struct ResultRowView {
    /// When the machine entered the state, in milliseconds since the Unix epoch.
    pub time: int,
    /// How long it stayed, in seconds.
    pub duration: int,
    pub machine_name: Seq<char>,
    /// Which serie of the seed stands for the state.
    pub state_index: usize,
}

/// When the interval of a row ends, in milliseconds since the Unix epoch.
pub open spec fn interval_end(time: int, duration: int) -> int {
    time + duration * 1000
}

impl DeepView for ResultRow {
    type V = ResultRowView;

    closed spec fn deep_view(&self) -> ResultRowView {
        ResultRowView {
            time: self.time.spec_millis(),
            duration: self.duration as int,
            machine_name: self.machine_name@,
            state_index: self.state_index,
        }
    }
}

impl ResultRow {
    #[verifier::type_invariant]
    spec fn end_is_representable(self) -> bool {
        i64::MIN <= interval_end(self.time.spec_millis(), self.duration as int) <= i64::MAX
    }

    /// A row, unless the end of its interval is further from the Unix epoch than a
    /// number of milliseconds can say.
    pub fn new(time: Timestamp, duration: i64, machine_name: String, state_index: usize) -> (r:
        Option<ResultRow>)
        ensures
            r is Some <==> i64::MIN <= interval_end(time.spec_millis(), duration as int)
                <= i64::MAX,
            r matches Some(row) ==> row.deep_view() == (ResultRowView {
                time: time.spec_millis(),
                duration: duration as int,
                machine_name: machine_name@,
                state_index,
            }),
    {
        let start = time.timestamp_millis();
        let end: i128 = (start as i128) + (duration as i128) * 1000;
        if end < (i64::MIN as i128) || end > (i64::MAX as i128) {
            None
        } else {
            Some(ResultRow { time, duration, machine_name, state_index })
        }
    }
}

/// The data with the interval of `row` added to the serie of its state; an error where
/// the data has no such serie.
pub open spec fn with_interval(acc: Seq<DataSerieView>, row: ResultRowView) -> Result<
    Seq<DataSerieView>,
    AccumulateError,
> {
    if row.state_index < acc.len() {
        let serie = acc[row.state_index as int];
        let point = DataPointView {
            x: row.machine_name,
            y: (row.time, interval_end(row.time, row.duration)),
        };
        Ok(
            acc.update(
                row.state_index as int,
                DataSerieView { name: serie.name, data: serie.data.push(point) },
            ),
        )
    } else {
        Err(AccumulateError::MissingState { index: row.state_index })
    }
}

/// The machines among the first `n` of `machines` that take part in the chart, each
/// as its index, written in decimal, and its name.
pub open spec fn charted(machines: Seq<Machine>, n: int) -> Seq<(Seq<char>, Seq<char>)>
    decreases n,
{
    if n <= 0 {
        Seq::empty()
    } else if machines[n - 1].state_chart {
        charted(machines, n - 1).push((decimal_text(n - 1), machines[n - 1].name@))
    } else {
        charted(machines, n - 1)
    }
}

/// Whether `text` is a number below `n`, written in decimal.
pub open spec fn is_index_below(text: Seq<char>, n: int) -> bool {
    exists|k: int| 0 <= k < n && text == #[trigger] decimal_text(k)
}

/// The index of each charted machine is that of one of the first `n` machines, and no
/// two are the same.
pub proof fn lemma_charted_indices(machines: Seq<Machine>, n: int)
    requires
        0 <= n <= machines.len(),
    ensures
        forall|i: int|
            0 <= i < charted(machines, n).len() ==> is_index_below(
                (#[trigger] charted(machines, n)[i]).0,
                n,
            ),
        forall|i: int, j: int|
            0 <= i < j < charted(machines, n).len() ==> (#[trigger] charted(machines, n)[i]).0 != (
            #[trigger] charted(machines, n)[j]).0,
    decreases n,
{
    if n > 0 {
        lemma_charted_indices(machines, n - 1);
        let before = charted(machines, n - 1);
        let now = charted(machines, n);
        assert forall|i: int| 0 <= i < now.len() implies is_index_below(
            (#[trigger] now[i]).0,
            n,
        ) by {
            if i < before.len() {
                assert(is_index_below(before[i].0, n - 1));
                let k = choose|k: int| 0 <= k < n - 1 && before[i].0 == #[trigger] decimal_text(k);
                assert(now[i].0 == decimal_text(k));
            } else {
                assert(now[i].0 == decimal_text(n - 1));
            }
        }
        if machines[n - 1].state_chart {
            assert forall|i: int, j: int| 0 <= i < j < now.len() implies (#[trigger] now[i]).0 != (
            #[trigger] now[j]).0 by {
                if j == before.len() {
                    assert(is_index_below(before[i].0, n - 1));
                    let k = choose|k: int|
                        0 <= k < n - 1 && before[i].0 == #[trigger] decimal_text(k);
                    if decimal_digits(k as nat) == decimal_digits((n - 1) as nat) {
                        lemma_decimal_digits_differ(k as nat, (n - 1) as nat);
                    }
                }
            }
        }
    }
}

/// The handler of the chart of machine states.
pub struct Handler {
    machine_set: Vec<String>,
    machine_dict: IndexMap<String, String>,
    template: String,
}

impl Handler {
    #[verifier::type_invariant]
    spec fn consistent(self) -> bool {
        self.machine_set.deep_view() == keys_of(map_pairs(self.machine_dict))
    }

    /// The machines of the chart, each as its index, written in decimal, and its name.
    pub closed spec fn machines(self) -> Seq<(Seq<char>, Seq<char>)> {
        map_pairs(self.machine_dict)
    }

    /// The template of the chart's query.
    pub closed spec fn query_template(self) -> Seq<char> {
        self.template@
    }

    /// The handler for the machines of `ui_customization` that take part in the chart,
    /// with `template` for its query.
    pub fn new(ui_customization: &UiCustomizationData, template: &str) -> (handler: Handler)
        ensures
            handler.machines() == charted(
                ui_customization.machines@,
                ui_customization.machines@.len() as int,
            ),
            handler.query_template() == template@,
    {
        let machines = &ui_customization.machines;
        let mut machine_dict = new_map();
        let mut index: usize = 0;
        while index < machines.len()
            invariant
                index <= machines.len(),
                map_pairs(machine_dict) == charted(machines@, index as int),
            decreases machines.len() - index,
        {
            if machines[index].state_chart {
                let key = decimal_u64(index as u64);
                let ghost before = map_pairs(machine_dict);
                proof {
                    lemma_charted_indices(machines@, index as int);
                    if has_key(before, key@) {
                        let i = choose|i: int|
                            0 <= i < before.len() && (#[trigger] before[i]).0 == key@;
                        assert(is_index_below(before[i].0, index as int));
                        let k = choose|k: int|
                            0 <= k < index && before[i].0 == #[trigger] decimal_text(k);
                        lemma_decimal_digits_differ(k as nat, index as nat);
                    }
                }
                insert_pair(&mut machine_dict, key, machines[index].name.clone());
            }
            index += 1;
        }
        Handler::with_machines(machine_dict, template)
    }

    /// The handler for the machines `machines`, which holds the name of each under its
    /// index, with `template` for its query.
    pub fn with_machines(machines: IndexMap<String, String>, template: &str) -> (handler: Handler)
        ensures
            handler.machines() == map_pairs(machines),
            handler.query_template() == template@,
    {
        let machine_set = keys(&machines);
        Handler { machine_set, machine_dict: machines, template: template.to_owned() }
    }
}

impl ChartHandler for Handler {
    type ChartData = ChartData;

    type ResultRow = ResultRow;

    open spec fn accumulated(&self, acc: Seq<DataSerieView>, row: ResultRowView) -> Result<
        Seq<DataSerieView>,
        AccumulateError,
    > {
        with_interval(acc, row)
    }

    open spec fn template(&self) -> Seq<char> {
        self.query_template()
    }

    open spec fn param_literals(&self) -> Seq<(Seq<char>, Seq<char>)> {
        seq![
            ("machine_set"@, list_literal(quoted_all(keys_of(self.machines())))),
            ("machine_dict"@, list_literal(quoted_pairs(self.machines()))),
        ]
    }

    /// The last twenty-four hours before `now`.
    open spec fn time_window(&self, now: Timestamp) -> (int, int) {
        (now.spec_millis() - DAY_MS, now.spec_millis())
    }

    fn time_bounds(&self, now: Timestamp) -> (r: (String, String)) {
        let end = now.timestamp_millis();
        let start = end - DAY_MS;
        (decimal_i64(start), decimal_i64(end))
    }

    fn flux_template(&self) -> (r: &str) {
        self.template.as_str()
    }

    fn flux_params(&self) -> (r: Vec<(String, FluxValue)>) {
        proof {
            use_type_invariant(self);
        }
        let machine_set = FluxValue::string_array(&self.machine_set);
        let pairs = pairs_of(&self.machine_dict);
        assert forall|i: int, j: int| 0 <= i < j < pairs@.len() implies (#[trigger] pairs@[i]).0@
            != (#[trigger] pairs@[j]).0@ by {
            assert(pairs.deep_view()[i].0 == pairs@[i].0@);
            assert(pairs.deep_view()[j].0 == pairs@[j].0@);
        }
        let machine_dict = FluxValue::string_dictionary(&pairs);
        let mut params: Vec<(String, FluxValue)> = Vec::new();
        params.push(("machine_set".to_owned(), machine_set));
        params.push(("machine_dict".to_owned(), machine_dict));
        assert(crate::chart_data::literal_pairs(params@) =~= self.param_literals());
        params
    }

    fn accumulate(&self, acc: ChartData, row: ResultRow) -> (r: Result<
        ChartData,
        AccumulateError,
    >) {
        proof {
            use_type_invariant(&row);
        }
        let mut acc = acc;
        if row.state_index >= acc.len() {
            return Err(AccumulateError::MissingState { index: row.state_index });
        }
        let ghost before = acc.deep_view();
        let start_time = row.time.timestamp_millis();
        let end_time = ((start_time as i128) + (row.duration as i128) * 1000) as i64;
        let point = DataPoint { x: row.machine_name, y: (start_time, end_time) };
        acc[row.state_index].data.push(point);
        proof {
            let expected = with_interval(before, row.deep_view())->Ok_0;
            assert(acc.deep_view() =~= expected) by {
                let index = row.state_index as int;
                assert(acc.deep_view()[index].data =~= expected[index].data);
            }
        }
        Ok(acc)
    }
}

} // verus!
