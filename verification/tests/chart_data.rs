use chart_pipeline::chart_data::machine_state;
use chart_pipeline::chart_data::production;
use chart_pipeline::chart_data::{
    chart_query, fold_rows, time_headers, AccumulateError, Chart, ChartHandler, DecodeError,
    FoldError,
};
use chart_pipeline::influxdb::client::Client;
use chart_pipeline::influxdb::flux_query::FluxParams;
use chart_pipeline::influxdb::flux_value::FluxValue;
use chart_pipeline::shift::ShiftError;
use chart_pipeline::timestamp::Timestamp;
use chart_pipeline::ui_customization::{
    Coordinates, Dimensions, Machine, Synoptics, UiCustomizationData,
};

fn machine(name: &str, production: bool, state_chart: bool) -> Machine {
    Machine {
        name: name.to_string(),
        path: String::new(),
        tag_pos: Coordinates { x: 0, y: 0 },
        card_pos: Coordinates { x: 0, y: 0 },
        campaign: false,
        production,
        state_chart,
    }
}

fn floor() -> UiCustomizationData {
    UiCustomizationData {
        html_title: "Floor".to_string(),
        app_title: "Floor".to_string(),
        synoptics: Synoptics { viewbox: Dimensions { width: 100, height: 50 } },
        machines: vec![
            machine("press", true, true),
            machine("oven", false, false),
            machine("saw", true, true),
            machine("lathe", false, true),
        ],
    }
}

fn instant(millis: i64) -> Timestamp {
    Timestamp::from_millis(millis).unwrap()
}

const T: i64 = 1_589_469_798_000;

fn state_seed(names: &[&str]) -> machine_state::ChartData {
    names
        .iter()
        .map(|name| machine_state::DataSerie { name: name.to_string(), data: vec![] })
        .collect()
}

#[test]
fn state_interval_fold() {
    let handler = machine_state::Handler::new(&floor(), "");
    let row = machine_state::ResultRow::new(instant(T), 5, "m1".to_string(), 0).unwrap();
    let data = fold_rows(&handler, state_seed(&["A"]), vec![Ok(row)]).unwrap();
    assert_eq!(data.len(), 1);
    assert_eq!(data[0].name, "A");
    assert_eq!(data[0].data.len(), 1);
    assert_eq!(data[0].data[0].x, "m1");
    assert_eq!(data[0].data[0].y, (T, T + 5000));
}

#[test]
fn state_interval_fold_missing_state() {
    let handler = machine_state::Handler::new(&floor(), "");
    let row = machine_state::ResultRow::new(instant(T), 5, "m1".to_string(), 1).unwrap();
    match fold_rows(&handler, state_seed(&["A"]), vec![Ok(row)]) {
        Err(FoldError::Accumulate(e)) => assert_eq!(e, AccumulateError::MissingState { index: 1 }),
        _ => panic!("the fold should fail on the missing state"),
    }
}

#[test]
fn state_interval_rows_keep_their_order() {
    let handler = machine_state::Handler::new(&floor(), "");
    let rows = vec![
        Ok(machine_state::ResultRow::new(instant(T), 1, "m1".to_string(), 1).unwrap()),
        Ok(machine_state::ResultRow::new(instant(T + 10), 2, "m2".to_string(), 0).unwrap()),
        Ok(machine_state::ResultRow::new(instant(T + 20), -3, "m3".to_string(), 1).unwrap()),
    ];
    let data = fold_rows(&handler, state_seed(&["A", "B"]), rows).unwrap();
    assert_eq!(data[0].data.len(), 1);
    assert_eq!(data[0].data[0].y, (T + 10, T + 2010));
    let names: Vec<&str> = data[1].data.iter().map(|p| p.x.as_str()).collect();
    assert_eq!(names, vec!["m1", "m3"]);
    assert_eq!(data[1].data[1].y, (T + 20, T - 2980));
}

#[test]
fn production_fold() {
    let handler = production::Handler::new(&floor(), "");
    let seed = vec![production::DataSerie { name: "Total".to_string(), data: vec![] }];
    let row = production::ResultRow { start: instant(T), stop: instant(T + 60_000), total: 42 };
    let data = fold_rows(&handler, seed, vec![Ok(row)]).unwrap();
    assert_eq!(data.len(), 1);
    assert_eq!(data[0].name, "Total");
    assert_eq!(data[0].data, vec![(T, 42), (T + 60_000, 42)]);
}

#[test]
fn production_fold_without_serie() {
    let handler = production::Handler::new(&floor(), "");
    let row = production::ResultRow { start: instant(T), stop: instant(T + 1), total: 1 };
    match fold_rows(&handler, vec![], vec![Ok(row)]) {
        Err(FoldError::Accumulate(e)) => assert_eq!(e, AccumulateError::MissingSerie),
        _ => panic!("the fold should fail on the missing serie"),
    }
}

#[test]
fn fold_of_no_rows_returns_the_seed() {
    let handler = production::Handler::new(&floor(), "");
    let seed = vec![production::DataSerie { name: "Total".to_string(), data: vec![(1, 2)] }];
    let data = fold_rows(&handler, seed, vec![]).unwrap();
    assert_eq!(data.len(), 1);
    assert_eq!(data[0].name, "Total");
    assert_eq!(data[0].data, vec![(1, 2)]);
    let states = machine_state::Handler::new(&floor(), "");
    assert!(fold_rows(&states, vec![], vec![]).unwrap().is_empty());
}

#[test]
fn fold_stops_at_the_first_error() {
    let handler = production::Handler::new(&floor(), "");
    let seed = vec![production::DataSerie { name: "Total".to_string(), data: vec![] }];
    let rows = vec![
        Ok(production::ResultRow { start: instant(0), stop: instant(1), total: 1 }),
        Err(DecodeError { message: "bad row".to_string() }),
        Err(DecodeError { message: "worse row".to_string() }),
    ];
    match fold_rows(&handler, seed, rows) {
        Err(FoldError::Decode(e)) => assert_eq!(e.message, "bad row"),
        _ => panic!("the fold should fail on the row that could not be decoded"),
    }
    let rows = vec![
        Ok(production::ResultRow { start: instant(0), stop: instant(1), total: 1 }),
        Err(DecodeError { message: "bad row".to_string() }),
    ];
    match fold_rows(&handler, vec![], rows) {
        Err(FoldError::Accumulate(e)) => assert_eq!(e, AccumulateError::MissingSerie),
        _ => panic!("the first failure is the missing serie"),
    }
}

#[test]
fn row_with_unrepresentable_end_is_refused() {
    assert!(machine_state::ResultRow::new(instant(T), i64::MAX, "m".to_string(), 0).is_none());
    assert!(machine_state::ResultRow::new(instant(T), i64::MIN, "m".to_string(), 0).is_none());
    assert!(machine_state::ResultRow::new(instant(0), i64::MAX / 1000, "m".to_string(), 0).is_some());
    assert!(machine_state::ResultRow::new(instant(1000), i64::MAX / 1000, "m".to_string(), 0).is_none());
}

#[test]
fn machine_state_handler_parameters() {
    let handler = machine_state::Handler::new(&floor(), "template text");
    assert_eq!(handler.flux_template(), "template text");
    let params = handler.flux_params();
    let rendered: Vec<(String, String)> =
        params.iter().map(|(name, value)| (name.clone(), value.to_flux_repr())).collect();
    assert_eq!(
        rendered,
        vec![
            ("machine_set".to_string(), "[\"0\", \"2\", \"3\"]".to_string()),
            (
                "machine_dict".to_string(),
                "[\"0\": \"press\", \"2\": \"saw\", \"3\": \"lathe\"]".to_string()
            ),
        ]
    );
}

#[test]
fn machine_state_time_bounds_are_the_last_day() {
    let handler = machine_state::Handler::new(&floor(), "");
    let (start, end) = handler.time_bounds(instant(T));
    assert_eq!(start, (T - 86_400_000).to_string());
    assert_eq!(end, T.to_string());
    let (start, end) = handler.time_bounds(instant(1_000));
    assert_eq!((start.as_str(), end.as_str()), ("-86399000", "1000"));
}

#[test]
fn production_handler_parameters() {
    let mut handler = production::Handler::new(&floor(), "");
    let params = handler.flux_params();
    let rendered: Vec<(String, String)> =
        params.iter().map(|(name, value)| (name.clone(), value.to_flux_repr())).collect();
    assert_eq!(
        rendered,
        vec![
            ("start".to_string(), "1970-01-01T00:00:00Z".to_string()),
            ("machine_set".to_string(), "[\"0\", \"2\"]".to_string()),
            ("total_function".to_string(), "(r) => r[\"0\"] + r[\"2\"]".to_string()),
        ]
    );
    let first_end = T - T % 86_400_000 + 19_800_000;
    handler.update_time(instant(first_end - 1), instant(first_end)).unwrap();
    let params = handler.flux_params();
    let start = Timestamp::from_millis(first_end - 28_800_000).unwrap().to_rfc3339();
    assert_eq!(params[0].1.to_flux_repr(), start);
}

#[test]
fn production_handler_without_machines() {
    let mut floor = floor();
    floor.machines.clear();
    let handler = production::Handler::new(&floor, "");
    let params = handler.flux_params();
    assert_eq!(params[1].1.to_flux_repr(), "[]");
    assert_eq!(params[2].1.to_flux_repr(), "(r) => ");
}

#[test]
fn production_time_follows_the_shift() {
    let mut handler = production::Handler::new(&floor(), "");
    assert_eq!(handler.time_bounds(instant(T)), ("0".to_string(), "0".to_string()));
    let first_end = 1_000_000_000;
    assert_eq!(handler.update_time(instant(first_end + 5), instant(first_end)), Ok(()));
    let (start, end) = handler.time_bounds(instant(T));
    assert_eq!(start, first_end.to_string());
    assert_eq!(end, (first_end + 28_800_000).to_string());
    assert_eq!(
        handler.update_time(instant(first_end + 3 * 28_800_000), instant(first_end)),
        Err(ShiftError::NoShift)
    );
    assert_eq!(handler.time_bounds(instant(T)).0, first_end.to_string());
    let last = 253_402_300_799_999;
    assert_eq!(handler.update_time(instant(last), instant(last)), Err(ShiftError::OutOfRange));
}

#[test]
fn chart_query_renders_with_handler_and_bucket() {
    let template = "__note__ = \"nothing\"\nfrom(bucket: __bucket__)\n  |> filter(fn: (r) => contains(value: r.m, set: __machine_set__))\n  |> map(fn: __total_function__)\n  |> range(start: __start__)\n";
    let handler = production::Handler::new(&floor(), template);
    let client = Client::new("secret", "acme", "floor-data");
    let request = chart_query(&handler, &client).unwrap();
    assert_eq!(
        request.body,
        "from(bucket: \"floor-data\")\n  |> filter(fn: (r) => contains(value: r.m, set: [\"0\", \"2\"]))\n  |> map(fn: (r) => r[\"0\"] + r[\"2\"])\n  |> range(start: 1970-01-01T00:00:00Z)\n"
    );
    assert_eq!(request.path, "api/v2/query");
    assert_eq!(request.org, "acme");
    assert_eq!(request.content_type, "application/vnd.flux");
    assert_eq!(request.accept, "application/csv");
    assert_eq!(request.authorization, "Token secret");
}

#[test]
fn chart_query_names_the_missing_parameter() {
    let handler = machine_state::Handler::new(&floor(), "__machine_dict__ __stop__ __other__");
    let client = Client::new("secret", "acme", "floor-data");
    assert_eq!(chart_query(&handler, &client).unwrap_err().identifier, "stop");
}

#[test]
fn time_headers_name_start_and_end() {
    let handler = machine_state::Handler::new(&floor(), "");
    let headers = time_headers(&handler, instant(T));
    assert_eq!(
        headers,
        vec![
            ("Chart-Start-Time".to_string(), (T - 86_400_000).to_string()),
            ("Chart-End-Time".to_string(), T.to_string()),
        ]
    );
}

#[test]
fn chart_from_route_name() {
    assert_eq!(Chart::parse("machines-state").unwrap(), Chart::MachinesState);
    assert_eq!("production".parse::<Chart>().unwrap(), Chart::Production);
    let error = Chart::parse("machines").unwrap_err();
    assert_eq!(error.name, "machines");
    assert_eq!(error.message(), "unknown route parameter: machines");
}

#[test]
fn client_bucket_replaces_a_parameter_of_that_name() {
    let client = Client::new("t", "o", "b");
    let mut params = FluxParams::new();
    params.insert("bucket", FluxValue::RawExpression("other".to_string()));
    let request = client.flux_query("__bucket__", params).unwrap();
    assert_eq!(request.body, "\"b\"");
    let error = client.flux_query("__bucket__ __x__", FluxParams::new()).unwrap_err();
    assert_eq!(error.identifier, "x");
}

#[test]
fn response_of_the_query_service() {
    assert!(Client::check_response(true, Some("ignored".to_string())).is_ok());
    assert!(Client::check_response(true, None).is_ok());
    let error = Client::check_response(false, Some("bucket not found".to_string())).unwrap_err();
    assert_eq!(error.message, "error response from InfluxDB: bucket not found");
    let error = Client::check_response(false, None).unwrap_err();
    assert_eq!(error.message, "error response from InfluxDB: ");
}

#[test]
fn fold_error_messages() {
    let missing = AccumulateError::MissingState { index: 12 };
    assert_eq!(missing.message(), "seed is missing state with index 12");
    assert_eq!(AccumulateError::MissingSerie.message(), "missing data serie in seed");
    let decode = FoldError::Decode(DecodeError { message: "bad".to_string() });
    assert_eq!(decode.message(), "bad");
    assert_eq!(FoldError::Accumulate(missing).message(), "seed is missing state with index 12");
}

#[test]
fn fold_step_takes_one_item() {
    let handler = production::Handler::new(&floor(), "");
    let seed = vec![production::DataSerie { name: "Total".to_string(), data: vec![] }];
    let row = production::ResultRow { start: instant(1), stop: instant(2), total: 3 };
    let data = chart_pipeline::chart_data::fold_step(&handler, seed, Ok(row)).unwrap();
    assert_eq!(data[0].data, vec![(1, 3), (2, 3)]);
    let failed = chart_pipeline::chart_data::fold_step(
        &handler,
        data,
        Err(DecodeError { message: "bad".to_string() }),
    );
    assert!(matches!(failed, Err(FoldError::Decode(_))));
}

#[test]
fn handlers_for_machines_of_a_request() {
    let mut machines = indexmap::IndexMap::new();
    machines.insert("7".to_string(), "mill".to_string());
    machines.insert("3".to_string(), "drill".to_string());
    let handler = machine_state::Handler::with_machines(machines, "t");
    let params = handler.flux_params();
    assert_eq!(params[0].1.to_flux_repr(), "[\"7\", \"3\"]");
    assert_eq!(params[1].1.to_flux_repr(), "[\"7\": \"mill\", \"3\": \"drill\"]");
    let handler = production::Handler::with_machine_set(vec!["7".to_string(), "3".to_string()], "t");
    let params = handler.flux_params();
    assert_eq!(params[1].1.to_flux_repr(), "[\"7\", \"3\"]");
    assert_eq!(params[2].1.to_flux_repr(), "(r) => r[\"7\"] + r[\"3\"]");
    assert_eq!(handler.flux_template(), "t");
}
