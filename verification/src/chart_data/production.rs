//! The chart of production: the total that the machines made, as a step over each
//! interval of the result.

use crate::chart_data::{AccumulateError, ChartHandler};
use crate::influxdb::flux_value::{
    joined, lemma_joined_push, list_literal, quoted_all, Comparable, FluxValue,
};
use crate::shift::{
    is_running_shift_end, no_boundary_after, shift_window, ShiftError, SHIFT_LENGTH_MS,
};
use crate::text::{decimal_i64, decimal_text, decimal_u64};
use crate::timestamp::{millis_in_range, Timestamp};
use crate::ui_customization::{Machine, UiCustomizationData};
use vstd::prelude::*;
use vstd::string::StringExecFns;

verus! {

/// The data of the chart: the serie of totals comes first.
pub type ChartData = Vec<DataSerie>;

/// Totals over time: each point is an instant, in milliseconds since the Unix epoch,
/// and the total at that instant.
#[derive(Debug)]
pub struct DataSerie {
    pub name: String,
    pub data: Vec<(i64, u32)>,
}

/// A `DataSerie` as plain values.
pub struct DataSerieView {
    pub name: Seq<char>,
    pub data: Seq<(int, int)>,
}

impl DeepView for DataSerie {
    type V = DataSerieView;

    open spec fn deep_view(&self) -> DataSerieView {
        DataSerieView {
            name: self.name@,
            data: Seq::new(
                self.data@.len(),
                |i: int| (self.data@[i].0 as int, self.data@[i].1 as int),
            ),
        }
    }
}

/// One row of the result: the total made between two instants.
#[derive(Debug)]
pub struct ResultRow {
    pub start: Timestamp,
    pub stop: Timestamp,
    pub total: u32,
}

/// A `ResultRow` as plain values, its instants in milliseconds since the Unix epoch.
pub struct ResultRowView {
    pub start: int,
    pub stop: int,
    pub total: int,
}

impl DeepView for ResultRow {
    type V = ResultRowView;

    open spec fn deep_view(&self) -> ResultRowView {
        ResultRowView {
            start: self.start.spec_millis(),
            stop: self.stop.spec_millis(),
            total: self.total as int,
        }
    }
}

/// The data with two points added to its first serie: the total of `row` at its start
/// and at its stop, in that order; an error where the data has no serie.
pub open spec fn with_total(acc: Seq<DataSerieView>, row: ResultRowView) -> Result<
    Seq<DataSerieView>,
    AccumulateError,
> {
    if acc.len() > 0 {
        Ok(
            acc.update(
                0,
                DataSerieView {
                    name: acc[0].name,
                    data: acc[0].data.push((row.start, row.total)).push((row.stop, row.total)),
                },
            ),
        )
    } else {
        Err(AccumulateError::MissingSerie)
    }
}

/// The indices, written in decimal, of the machines among the first `n` of `machines`
/// whose production is counted.
pub open spec fn producing(machines: Seq<Machine>, n: int) -> Seq<Seq<char>>
    decreases n,
{
    if n <= 0 {
        Seq::empty()
    } else if machines[n - 1].production {
        producing(machines, n - 1).push(decimal_text(n - 1))
    } else {
        producing(machines, n - 1)
    }
}

/// The expression that reads the field `index` of a record `r`.
pub open spec fn field_reference(index: Seq<char>) -> Seq<char> {
    "r[\""@ + index + "\"]"@
}

/// The field references of `indices`, in order.
pub open spec fn field_references(indices: Seq<Seq<char>>) -> Seq<Seq<char>> {
    Seq::new(indices.len(), |i: int| field_reference(indices[i]))
}

/// The function of the query language that adds up the fields `indices` of a record.
pub open spec fn total_function(indices: Seq<Seq<char>>) -> Seq<char> {
    "(r) => "@ + joined(field_references(indices), " + "@)
}

/// The handler of the chart of production.
pub struct Handler {
    start_time: Timestamp,
    end_time: Timestamp,
    machine_set: Vec<String>,
    total_function: String,
    template: String,
}

impl Handler {
    #[verifier::type_invariant]
    spec fn consistent(self) -> bool {
        self.total_function@ == total_function(self.machine_set.deep_view())
    }

    /// The indices, written in decimal, of the machines whose production is counted.
    pub closed spec fn machines(self) -> Seq<Seq<char>> {
        self.machine_set.deep_view()
    }

    /// The template of the chart's query.
    pub closed spec fn query_template(self) -> Seq<char> {
        self.template@
    }

    /// The start of the shift that the chart shows.
    pub closed spec fn start(self) -> Timestamp {
        self.start_time
    }

    /// The end of the shift that the chart shows.
    pub closed spec fn end(self) -> Timestamp {
        self.end_time
    }

    /// The handler for the machines of `ui_customization` whose production is counted,
    /// with `template` for its query. Its shift starts and ends at the Unix epoch
    /// until the time is first updated.
    pub fn new(ui_customization: &UiCustomizationData, template: &str) -> (handler: Handler)
        ensures
            handler.machines() == producing(
                ui_customization.machines@,
                ui_customization.machines@.len() as int,
            ),
            handler.query_template() == template@,
            handler.start().spec_millis() == 0,
            handler.end().spec_millis() == 0,
    {
        let machines = &ui_customization.machines;
        let mut machine_set: Vec<String> = Vec::new();
        let mut index: usize = 0;
        while index < machines.len()
            invariant
                index <= machines.len(),
                machine_set.deep_view() == producing(machines@, index as int),
            decreases machines.len() - index,
        {
            if machines[index].production {
                let key = decimal_u64(index as u64);
                let ghost before = machine_set.deep_view();
                machine_set.push(key);
                assert(machine_set.deep_view() =~= before.push(key@));
            }
            index += 1;
        }
        Handler::with_machine_set(machine_set, template)
    }

    /// The handler for the machines with the indices `machine_set`, with `template`
    /// for its query. Its shift starts and ends at the Unix epoch until the time is
    /// first updated.
    pub fn with_machine_set(machine_set: Vec<String>, template: &str) -> (handler: Handler)
        ensures
            handler.machines() == machine_set.deep_view(),
            handler.query_template() == template@,
            handler.start().spec_millis() == 0,
            handler.end().spec_millis() == 0,
    {
        let ghost indices = machine_set.deep_view();
        let mut function = String::from_str("(r) => ");
        let mut i: usize = 0;
        assert(function@ =~= total_function(indices.take(0)));
        while i < machine_set.len()
            invariant
                i <= machine_set.len(),
                indices == machine_set.deep_view(),
                function@ == total_function(indices.take(i as int)),
            decreases machine_set.len() - i,
        {
            let ghost before = indices.take(i as int);
            if i > 0 {
                function.append(" + ");
            }
            function.append("r[\"");
            function.append(machine_set[i].as_str());
            function.append("\"]");
            proof {
                let key = indices[i as int];
                assert(key == machine_set@[i as int]@);
                assert(indices.take(i + 1) =~= before.push(key));
                assert(field_references(before.push(key)) =~= field_references(before).push(
                    field_reference(key),
                ));
                lemma_joined_push(field_references(before), field_reference(key), " + "@);
                assert(function@ =~= total_function(indices.take(i + 1)));
            }
            i += 1;
        }
        assert(indices.take(machine_set.len() as int) =~= indices);
        let epoch = Timestamp::epoch();
        Handler {
            start_time: epoch,
            end_time: epoch,
            machine_set,
            total_function: function,
            template: template.to_owned(),
        }
    }

    /// Sets the shift that the chart shows to the one that runs at `now`, where the
    /// first shift of the day of `now` ends at `first_shift_end` and each shift lasts
    /// eight hours. Where no shift is found, or where it starts or ends outside the
    /// years that an instant can lie in, the handler stays as it was.
    pub fn update_time(&mut self, now: Timestamp, first_shift_end: Timestamp) -> (r: Result<
        (),
        ShiftError,
    >)
        ensures
            final(self).machines() == old(self).machines(),
            final(self).query_template() == old(self).query_template(),
            match r {
                Ok(()) => {
                    &&& is_running_shift_end(
                        now.spec_millis(),
                        first_shift_end.spec_millis(),
                        SHIFT_LENGTH_MS as int,
                        final(self).end().spec_millis(),
                    )
                    &&& final(self).start().spec_millis() == final(self).end().spec_millis()
                        - SHIFT_LENGTH_MS
                },
                Err(ShiftError::NoShift) => {
                    &&& no_boundary_after(
                        now.spec_millis(),
                        first_shift_end.spec_millis(),
                        SHIFT_LENGTH_MS as int,
                    )
                    &&& final(self).start() == old(self).start()
                    &&& final(self).end() == old(self).end()
                },
                Err(ShiftError::OutOfRange) => {
                    &&& exists|end: int|
                        {
                            &&& #[trigger] is_running_shift_end(
                                now.spec_millis(),
                                first_shift_end.spec_millis(),
                                SHIFT_LENGTH_MS as int,
                                end,
                            )
                            &&& !(millis_in_range(end) && millis_in_range(end - SHIFT_LENGTH_MS))
                        }
                    &&& final(self).start() == old(self).start()
                    &&& final(self).end() == old(self).end()
                },
            },
    {
        proof {
            use_type_invariant(&*self);
        }
        let window = shift_window(
            now.timestamp_millis(),
            first_shift_end.timestamp_millis(),
            SHIFT_LENGTH_MS,
        );
        match window {
            None => Err(ShiftError::NoShift),
            Some(window) => {
                match (Timestamp::from_millis(window.start), Timestamp::from_millis(window.end)) {
                    (Some(start), Some(end)) => {
                        self.start_time = start;
                        self.end_time = end;
                        Ok(())
                    },
                    _ => {
                        assert(is_running_shift_end(
                            now.spec_millis(),
                            first_shift_end.spec_millis(),
                            SHIFT_LENGTH_MS as int,
                            window.end as int,
                        ));
                        Err(ShiftError::OutOfRange)
                    },
                }
            },
        }
    }
}

impl ChartHandler for Handler {
    type ChartData = ChartData;

    type ResultRow = ResultRow;

    open spec fn accumulated(&self, acc: Seq<DataSerieView>, row: ResultRowView) -> Result<
        Seq<DataSerieView>,
        AccumulateError,
    > {
        with_total(acc, row)
    }

    open spec fn template(&self) -> Seq<char> {
        self.query_template()
    }

    open spec fn param_literals(&self) -> Seq<(Seq<char>, Seq<char>)> {
        seq![
            ("start"@, self.start().rendered()),
            ("machine_set"@, list_literal(quoted_all(self.machines()))),
            ("total_function"@, total_function(self.machines())),
        ]
    }

    /// The shift that the handler was last set to, whenever the request is made.
    open spec fn time_window(&self, now: Timestamp) -> (int, int) {
        (self.start().spec_millis(), self.end().spec_millis())
    }

    fn time_bounds(&self, now: Timestamp) -> (r: (String, String)) {
        (
            decimal_i64(self.start_time.timestamp_millis()),
            decimal_i64(self.end_time.timestamp_millis()),
        )
    }

    fn flux_template(&self) -> (r: &str) {
        self.template.as_str()
    }

    fn flux_params(&self) -> (r: Vec<(String, FluxValue)>) {
        proof {
            use_type_invariant(self);
        }
        let mut params: Vec<(String, FluxValue)> = Vec::new();
        params.push(("start".to_owned(), FluxValue::Comparable(Comparable::Time(self.start_time))));
        params.push(("machine_set".to_owned(), FluxValue::string_array(&self.machine_set)));
        params.push(
            ("total_function".to_owned(), FluxValue::RawExpression(self.total_function.clone())),
        );
        assert(crate::chart_data::literal_pairs(params@) =~= self.param_literals());
        params
    }

    fn accumulate(&self, acc: ChartData, row: ResultRow) -> (r: Result<
        ChartData,
        AccumulateError,
    >) {
        let mut acc = acc;
        if acc.len() == 0 {
            return Err(AccumulateError::MissingSerie);
        }
        let ghost before = acc.deep_view();
        let start_ms = row.start.timestamp_millis();
        let stop_ms = row.stop.timestamp_millis();
        acc[0].data.push((start_ms, row.total));
        acc[0].data.push((stop_ms, row.total));
        proof {
            let expected = with_total(before, row.deep_view())->Ok_0;
            assert(acc.deep_view() =~= expected) by {
                assert(acc.deep_view()[0].data =~= expected[0].data);
            }
        }
        Ok(acc)
    }
}

} // verus!
