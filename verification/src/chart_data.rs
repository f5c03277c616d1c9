//! Chart data: what every chart has in common, and the fold of result rows into a seed.

use crate::influxdb::client::{
    Client, QueryRequest, QUERY_CONTENT_TYPE, QUERY_PATH, RESULT_CONTENT_TYPE,
};
use crate::influxdb::flux_query::{extended, literals, rendered_query, FluxParams, TemplateError};
use crate::influxdb::flux_value::{quoted, FluxValue};
use crate::text::{decimal_text, decimal_u64};
use crate::timestamp::Timestamp;
use vstd::prelude::*;

pub mod machine_state;
pub mod production;

verus! {

/// A row names a place in the seed that the seed does not have.
#[derive(Clone, Copy, Debug, PartialEq, Eq, Structural)]
pub enum AccumulateError {
    /// The seed has no state with this index.
    MissingState { index: usize },
    /// The seed has no data serie at all.
    MissingSerie,
}

/// A row of the result could not be read as the chart expects it.
#[derive(Debug)]
pub struct DecodeError {
    /// What the decoder said.
    pub message: String,
}

/// Why a fold failed.
#[derive(Debug)]
pub enum FoldError {
    Decode(DecodeError),
    Accumulate(AccumulateError),
}

/// Why a fold failed, as plain values.
pub enum FoldFailure {
    Decode(Seq<char>),
    Accumulate(AccumulateError),
}

impl AccumulateError {
    /// The words of the error.
    pub open spec fn spec_message(self) -> Seq<char> {
        match self {
            AccumulateError::MissingState { index } => "seed is missing state with index "@
                + decimal_text(index as int),
            AccumulateError::MissingSerie => "missing data serie in seed"@,
        }
    }

    /// Says what the seed lacks.
    pub fn message(&self) -> (text: String)
        ensures
            text@ == self.spec_message(),
    {
        match self {
            AccumulateError::MissingState { index } => {
                let mut text = "seed is missing state with index ".to_owned();
                let number = decimal_u64(*index as u64);
                vstd::string::StringExecFns::append(&mut text, number.as_str());
                text
            },
            AccumulateError::MissingSerie => "missing data serie in seed".to_owned(),
        }
    }
}

impl FoldError {
    /// The failure as plain values.
    pub open spec fn failure(self) -> FoldFailure {
        match self {
            FoldError::Decode(e) => FoldFailure::Decode(e.message@),
            FoldError::Accumulate(e) => FoldFailure::Accumulate(e),
        }
    }

    /// The words of the error: those of the decoder, or what the seed lacks.
    pub open spec fn spec_message(self) -> Seq<char> {
        match self {
            FoldError::Decode(e) => e.message@,
            FoldError::Accumulate(e) => e.spec_message(),
        }
    }

    /// Says why the fold failed.
    pub fn message(&self) -> (text: String)
        ensures
            text@ == self.spec_message(),
    {
        match self {
            FoldError::Decode(e) => e.message.clone(),
            FoldError::Accumulate(e) => e.message(),
        }
    }
}

/// What a chart needs from its kind: the bounds of its time axis, its query, and how
/// one row of the result changes the chart's data.
pub trait ChartHandler {
    /// The data of the chart: the seed, and what the fold makes of it.
    type ChartData: DeepView;

    /// One row of the query's result.
    type ResultRow: DeepView;

    /// The data after `row`, or the reason why `row` does not fit the data.
    spec fn accumulated(
        &self,
        acc: <Self::ChartData as DeepView>::V,
        row: <Self::ResultRow as DeepView>::V,
    ) -> Result<<Self::ChartData as DeepView>::V, AccumulateError>;

    /// The template of the chart's query.
    spec fn template(&self) -> Seq<char>;

    /// The parameters that the chart adds to its query, each as its identifier and its
    /// literal, in order.
    spec fn param_literals(&self) -> Seq<(Seq<char>, Seq<char>)>;

    /// The bounds of the chart's time axis for a request made at `now`, both in
    /// milliseconds since the Unix epoch.
    spec fn time_window(&self, now: Timestamp) -> (int, int);

    /// The bounds of the chart's time axis for a request made at `now`, each written
    /// in decimal as milliseconds since the Unix epoch.
    fn time_bounds(&self, now: Timestamp) -> (r: (String, String))
        ensures
            r.0@ == decimal_text(self.time_window(now).0),
            r.1@ == decimal_text(self.time_window(now).1),
    ;

    /// The template of the chart's query.
    fn flux_template(&self) -> (r: &str)
        ensures
            r@ == self.template(),
    ;

    /// The parameters that the chart adds to its query.
    fn flux_params(&self) -> (r: Vec<(String, FluxValue)>)
        ensures
            literal_pairs(r@) == self.param_literals(),
    ;

    /// Takes one row into the data.
    fn accumulate(&self, acc: Self::ChartData, row: Self::ResultRow) -> (r: Result<
        Self::ChartData,
        AccumulateError,
    >)
        ensures
            match r {
                Ok(next) => self.accumulated(acc.deep_view(), row.deep_view()) == Ok::<
                    <Self::ChartData as DeepView>::V,
                    AccumulateError,
                >(next.deep_view()),
                Err(e) => self.accumulated(acc.deep_view(), row.deep_view()) == Err::<
                    <Self::ChartData as DeepView>::V,
                    AccumulateError,
                >(e),
            },
    ;
}

/// Each parameter as its identifier and its literal.
pub open spec fn literal_pairs(params: Seq<(String, FluxValue)>) -> Seq<(Seq<char>, Seq<char>)> {
    Seq::new(params.len(), |i: int| (params[i].0@, params[i].1.rendered()))
}

/// What the decoder made of each row, as plain values.
pub open spec fn decoded<R: DeepView>(rows: Seq<Result<R, DecodeError>>) -> Seq<
    Result<R::V, Seq<char>>,
> {
    Seq::new(
        rows.len(),
        |i: int| decoded_item(rows[i]),
    )
}

/// The data after one item of the result: a row is taken into the data, unless it
/// could not be decoded or does not fit the data.
pub open spec fn stepped<H: ChartHandler>(
    handler: H,
    acc: <H::ChartData as DeepView>::V,
    item: Result<<H::ResultRow as DeepView>::V, Seq<char>>,
) -> Result<<H::ChartData as DeepView>::V, FoldFailure> {
    match item {
        Err(message) => Err(FoldFailure::Decode(message)),
        Ok(row) => match handler.accumulated(acc, row) {
            Ok(next) => Ok(next),
            Err(e) => Err(FoldFailure::Accumulate(e)),
        },
    }
}

/// The seed after all of `rows`, taken in order; or the first failure, be it a row
/// that could not be decoded or a row that does not fit the data.
pub open spec fn folded<H: ChartHandler>(
    handler: H,
    seed: <H::ChartData as DeepView>::V,
    rows: Seq<Result<<H::ResultRow as DeepView>::V, Seq<char>>>,
) -> Result<<H::ChartData as DeepView>::V, FoldFailure>
    decreases rows.len(),
{
    if rows.len() == 0 {
        Ok(seed)
    } else {
        match folded(handler, seed, rows.drop_last()) {
            Err(failure) => Err(failure),
            Ok(acc) => stepped(handler, acc, rows.last()),
        }
    }
}

/// Once a fold has failed, further rows change nothing.
pub proof fn lemma_folded_failure_stays<H: ChartHandler>(
    handler: H,
    seed: <H::ChartData as DeepView>::V,
    rows: Seq<Result<<H::ResultRow as DeepView>::V, Seq<char>>>,
    n: int,
)
    requires
        0 <= n <= rows.len(),
        folded(handler, seed, rows.take(n)) is Err,
    ensures
        folded(handler, seed, rows) == folded(handler, seed, rows.take(n)),
    decreases rows.len() - n,
{
    if n < rows.len() {
        assert(rows.take(n + 1).drop_last() =~= rows.take(n));
        lemma_folded_failure_stays(handler, seed, rows, n + 1);
    } else {
        assert(rows.take(n) =~= rows);
    }
}

/// One item of the result as plain values.
pub open spec fn decoded_item<R: DeepView>(item: Result<R, DecodeError>) -> Result<
    R::V,
    Seq<char>,
> {
    match item {
        Ok(row) => Ok(row.deep_view()),
        Err(e) => Err(e.message@),
    }
}

/// One step of a fold: takes the next item of the result into the data. An item that
/// could not be decoded, or a row that does not fit the data, gives its error and
/// nothing of the data.
pub fn fold_step<H: ChartHandler>(
    handler: &H,
    acc: H::ChartData,
    item: Result<H::ResultRow, DecodeError>,
) -> (r: Result<H::ChartData, FoldError>)
    ensures
        match r {
            Ok(data) => stepped(*handler, acc.deep_view(), decoded_item(item)) == Ok::<
                <H::ChartData as DeepView>::V,
                FoldFailure,
            >(data.deep_view()),
            Err(e) => stepped(*handler, acc.deep_view(), decoded_item(item)) == Err::<
                <H::ChartData as DeepView>::V,
                FoldFailure,
            >(e.failure()),
        },
{
    match item {
        Err(e) => Err(FoldError::Decode(e)),
        Ok(row) => match handler.accumulate(acc, row) {
            Ok(next) => Ok(next),
            Err(e) => Err(FoldError::Accumulate(e)),
        },
    }
}

/// Folds the rows of a result into the seed: each row in turn, in the order in which
/// they came, is taken into the data. The first row that could not be decoded, or that
/// does not fit the data, ends the fold with its error, and nothing of the data is
/// handed back.
pub fn fold_rows<H: ChartHandler>(
    handler: &H,
    seed: H::ChartData,
    rows: Vec<Result<H::ResultRow, DecodeError>>,
) -> (r: Result<H::ChartData, FoldError>)
    ensures
        match r {
            Ok(data) => folded(*handler, seed.deep_view(), decoded(rows@)) == Ok::<
                <H::ChartData as DeepView>::V,
                FoldFailure,
            >(data.deep_view()),
            Err(e) => folded(*handler, seed.deep_view(), decoded(rows@)) == Err::<
                <H::ChartData as DeepView>::V,
                FoldFailure,
            >(e.failure()),
        },
{
    let ghost all = decoded(rows@);
    let ghost start = seed.deep_view();
    let mut acc = seed;
    for item in it: rows
        invariant
            it.seq() == rows@,
            all == decoded(rows@),
            start == seed.deep_view(),
            folded(*handler, start, all.take(it.index() as int)) == Ok::<
                <H::ChartData as DeepView>::V,
                FoldFailure,
            >(acc.deep_view()),
    {
        let ghost next_rows = all.take(it.index() + 1);
        proof {
            assert(next_rows.drop_last() =~= all.take(it.index() as int));
            assert(next_rows.last() == all[it.index() as int]);
            assert(rows@[it.index() as int] == item);
        }
        match fold_step(handler, acc, item) {
            Ok(next) => {
                acc = next;
            },
            Err(e) => {
                proof {
                    assert(folded(*handler, start, next_rows) == Err::<
                        <H::ChartData as DeepView>::V,
                        FoldFailure,
                    >(e.failure()));
                    lemma_folded_failure_stays(*handler, start, all, it.index() + 1);
                }
                return Err(e);
            },
        }
    }
    assert(all.take(all.len() as int) =~= all);
    Ok(acc)
}

/// A fold over no rows hands the seed back as it is.
pub proof fn law_fold_of_nothing<H: ChartHandler>(handler: H, seed: <H::ChartData as DeepView>::V)
    ensures
        folded(handler, seed, Seq::empty()) == Ok::<<H::ChartData as DeepView>::V, FoldFailure>(
            seed,
        ),
{
}

/// The charts that can be asked for.
#[derive(Clone, Copy, Debug, PartialEq, Eq, Structural)]
pub enum Chart {
    MachinesState,
    Production,
}

/// No chart goes by this name.
#[derive(Debug)]
pub struct UnknownChart {
    /// The name that was asked for.
    pub name: String,
}

impl UnknownChart {
    /// The words of the error.
    pub open spec fn spec_message(self) -> Seq<char> {
        "unknown route parameter: "@ + self.name@
    }

    /// Says which name was asked for.
    pub fn message(&self) -> (text: String)
        ensures
            text@ == self.spec_message(),
    {
        let mut text = "unknown route parameter: ".to_owned();
        vstd::string::StringExecFns::append(&mut text, self.name.as_str());
        text
    }
}

impl Chart {
    /// The chart that goes by the name `s` in a route: `machines-state` or
    /// `production`.
    pub fn parse(s: &str) -> (r: Result<Chart, UnknownChart>)
        ensures
            names_chart(s@, r),
    {
        proof {
            reveal_strlit("machines-state");
            reveal_strlit("production");
            assert("machines-state"@.len() == 14);
            assert("production"@.len() == 10);
        }
        let name = s.to_owned();
        if name == "machines-state".to_owned() {
            Ok(Chart::MachinesState)
        } else if name == "production".to_owned() {
            Ok(Chart::Production)
        } else {
            Err(UnknownChart { name })
        }
    }
}

impl core::str::FromStr for Chart {
    type Err = UnknownChart;

    /// The chart that goes by the name `s` in a route: `machines-state` or
    /// `production`.
    fn from_str(s: &str) -> (r: Result<Chart, UnknownChart>)
        ensures
            names_chart(s@, r),
    {
        Chart::parse(s)
    }
}

/// Whether `r` is what the name `name` of a route stands for: the chart of machine
/// states for `machines-state`, the chart of production for `production`, and for any
/// other name the error that holds it.
pub open spec fn names_chart(name: Seq<char>, r: Result<Chart, UnknownChart>) -> bool {
    if name == "machines-state"@ {
        r == Ok::<Chart, UnknownChart>(Chart::MachinesState)
    } else if name == "production"@ {
        r == Ok::<Chart, UnknownChart>(Chart::Production)
    } else {
        r matches Err(e) && e.name@ == name
    }
}

/// `literals` with each pair of `more` set in turn.
pub open spec fn with_literals(
    literals: Map<Seq<char>, Seq<char>>,
    more: Seq<(Seq<char>, Seq<char>)>,
) -> Map<Seq<char>, Seq<char>>
    decreases more.len(),
{
    if more.len() == 0 {
        literals
    } else {
        with_literals(literals, more.drop_last()).insert(more.last().0, more.last().1)
    }
}

/// Setting parameters and then taking the literals gives what setting the literals
/// gives.
pub proof fn lemma_literals_of_extended(
    params: Map<Seq<char>, FluxValue>,
    more: Seq<(String, FluxValue)>,
)
    ensures
        literals(extended(params, more)) == with_literals(literals(params), literal_pairs(more)),
    decreases more.len(),
{
    if more.len() > 0 {
        lemma_literals_of_extended(params, more.drop_last());
        assert(literal_pairs(more).drop_last() =~= literal_pairs(more.drop_last()));
        assert(literals(extended(params, more)) =~= literals(
            extended(params, more.drop_last()),
        ).insert(more.last().0@, more.last().1.rendered()));
    }
}

/// The literals with which the query of a chart is rendered: those that the handler
/// adds, and the bucket of the client.
pub open spec fn chart_literals<H: ChartHandler>(handler: H, client: Client) -> Map<
    Seq<char>,
    Seq<char>,
> {
    with_literals(Map::empty(), handler.param_literals()).insert(
        "bucket"@,
        quoted(client.bucket()),
    )
}

/// Makes the request for the query of a chart: the handler's template, rendered with
/// the handler's parameters and the client's bucket.
pub fn chart_query<H: ChartHandler>(handler: &H, client: &Client) -> (r: Result<
    QueryRequest,
    TemplateError,
>)
    ensures
        match r {
            Ok(request) => {
                &&& rendered_query(
                    handler.template(),
                    chart_literals(*handler, *client),
                ) == Ok::<Seq<char>, Seq<char>>(request.body@)
                &&& request.path@ == QUERY_PATH@
                &&& request.org@ == client.org()
                &&& request.content_type@ == QUERY_CONTENT_TYPE@
                &&& request.accept@ == RESULT_CONTENT_TYPE@
                &&& request.authorization@ == "Token "@ + client.read_token()
            },
            Err(e) => rendered_query(
                handler.template(),
                chart_literals(*handler, *client),
            ) == Err::<Seq<char>, Seq<char>>(e.identifier@),
        },
{
    let mut params = FluxParams::new();
    let more = handler.flux_params();
    proof {
        lemma_literals_of_extended(params@, more@);
        assert(literals(params@) =~= Map::<Seq<char>, Seq<char>>::empty());
    }
    params.extend(more);
    client.flux_query(handler.flux_template(), params)
}

/// The name of the header that holds the start of a chart's time axis.
pub const START_TIME_HEADER: &'static str = "Chart-Start-Time";

/// The name of the header that holds the end of a chart's time axis.
pub const END_TIME_HEADER: &'static str = "Chart-End-Time";

/// The headers that tell the bounds of a chart's time axis for a request made at
/// `now`: first the start, then the end.
pub fn time_headers<H: ChartHandler>(handler: &H, now: Timestamp) -> (r: Vec<(String, String)>)
    ensures
        r@.len() == 2,
        r@[0].0@ == START_TIME_HEADER@,
        r@[0].1@ == decimal_text(handler.time_window(now).0),
        r@[1].0@ == END_TIME_HEADER@,
        r@[1].1@ == decimal_text(handler.time_window(now).1),
{
    let (start, end) = handler.time_bounds(now);
    let mut headers: Vec<(String, String)> = Vec::new();
    headers.push((START_TIME_HEADER.to_owned(), start));
    headers.push((END_TIME_HEADER.to_owned(), end));
    headers
}

} // verus!
