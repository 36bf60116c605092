use navop_core::json_value::JsonValue;
use navop_core::workbench_state::{
    OperationInfo, PageInput, PageState, PageTemplate, QueryStep, WorkbenchPage, WorkbenchState,
};

fn page(id: &str, template: PageTemplate, load: Option<&str>, execute: Option<&str>) -> WorkbenchPage {
    WorkbenchPage {
        id: id.to_string(),
        template,
        load: load.map(str::to_string),
        execute: execute.map(str::to_string),
        inputs: vec![
            PageInput { id: "topic".to_string(), required: true },
            PageInput { id: "limit".to_string(), required: false },
        ],
    }
}

fn pages() -> Vec<WorkbenchPage> {
    vec![
        page("indices", PageTemplate::Collection, Some("listIndices"), None),
        page("search", PageTemplate::Query, Some("ignored"), Some("search")),
        page("purge", PageTemplate::Query, None, Some("purge")),
        page("tasks", PageTemplate::Tasks, Some("ignored"), None),
        page("about", PageTemplate::Detail, None, None),
    ]
}

fn operations() -> Vec<(String, OperationInfo)> {
    vec![
        ("search".to_string(), OperationInfo { is_job: false, needs_confirmation: false }),
        ("purge".to_string(), OperationInfo { is_job: true, needs_confirmation: true }),
    ]
}

fn values(topic: &str) -> Vec<(String, String)> {
    vec![("topic".to_string(), topic.to_string())]
}

fn failure(state: &WorkbenchState) -> Option<String> {
    match &state.query_result {
        Some(Err(message)) => Some(message.clone()),
        _ => None,
    }
}

#[test]
fn collection_pages_load_and_late_results_are_dropped() {
    let pages = pages();
    let mut state = WorkbenchState::new("indices");
    let first = state.load_current_page(&pages).expect("collection pages load");
    assert_eq!(("listIndices", 1), (first.operation.as_str(), first.revision));
    assert!(matches!(state.page_state, PageState::Loading));
    let (known, second) = state.navigate(&pages, "indices", JsonValue::Text("logs".into()));
    assert!(known);
    let second = second.expect("reloads");
    assert_eq!(2, second.revision);
    state.page_loaded(first.revision, Ok(JsonValue::Bool(true)));
    assert!(matches!(state.page_state, PageState::Loading));
    state.page_loaded(second.revision, Err("boom".to_string()));
    assert!(matches!(&state.page_state, PageState::Failed(m) if m == "boom"));
}

#[test]
fn query_and_tasks_pages_wait_and_unknown_pages_fail() {
    let pages = pages();
    let mut state = WorkbenchState::new("search");
    assert!(state.load_current_page(&pages).is_none());
    assert!(matches!(state.page_state, PageState::Idle));
    let (known, call) = state.select_page(&pages, "tasks");
    assert!(known && call.is_none());
    let (known, call) = state.select_page(&pages, "about");
    assert!(known && call.is_none());
    assert!(!state.select_page(&pages, "missing").0);
    assert_eq!("about", state.selected_page);
    let selection = state.selection();
    assert_eq!("about", selection.page_id);
    assert!(matches!(selection.route, JsonValue::Null));
    let mut lost = WorkbenchState::new("missing");
    assert!(lost.load_current_page(&pages).is_none());
    assert!(matches!(&lost.page_state, PageState::Failed(m) if m == "unknown workbench page"));
}

#[test]
fn queries_check_required_inputs_and_carry_the_typed_values() {
    let pages = pages();
    let ops = operations();
    let mut state = WorkbenchState::new("search");
    assert!(matches!(state.execute_query(&pages, &ops, None), QueryStep::NoInputs));
    assert_eq!(Some("query inputs are not initialized".to_string()), failure(&state));
    assert!(matches!(state.execute_query(&pages, &ops, Some(&values(""))), QueryStep::MissingInput));
    assert_eq!(Some("`topic` is required".to_string()), failure(&state));
    let step = state.execute_query(&pages, &ops, Some(&values("orders")));
    let QueryStep::Run(call) = step else { panic!("the query runs") };
    assert!(!call.is_job && !call.confirmed);
    match &call.input {
        JsonValue::Object(members) => {
            let pairs: Vec<(String, String)> = members
                .iter()
                .map(|(k, v)| match v {
                    JsonValue::Text(t) => (k.clone(), t.clone()),
                    _ => panic!("inputs are text"),
                })
                .collect();
            assert_eq!(
                vec![("topic".to_string(), "orders".to_string()), ("limit".to_string(), String::new())],
                pairs
            );
        }
        _ => panic!("the input is an object"),
    }
    assert!(state.query_running);
    assert!(matches!(state.execute_query(&pages, &ops, Some(&values("x"))), QueryStep::Nothing));
    state.query_finished(call.revision, Ok(JsonValue::Null));
    assert!(!state.query_running);
    assert!(matches!(state.query_result, Some(Ok(JsonValue::Null))));
}

#[test]
fn operations_that_change_data_wait_for_confirmation() {
    let pages = pages();
    let ops = operations();
    let mut state = WorkbenchState::new("purge");
    assert!(matches!(state.execute_query(&pages, &ops, Some(&values("orders"))), QueryStep::AskConfirmation));
    assert_eq!(Some("purge".to_string()), state.pending_confirm);
    state.cancel_pending();
    assert!(matches!(state.confirm_pending(&pages, &ops, Some(&values("orders"))), QueryStep::Nothing));
    state.execute_query(&pages, &ops, Some(&values("orders")));
    let QueryStep::Run(call) = state.confirm_pending(&pages, &ops, Some(&values("orders"))) else {
        panic!("the confirmed operation runs")
    };
    assert!(call.is_job && call.confirmed);
    assert_eq!(None, state.pending_confirm);
}

#[test]
fn undeclared_operations_fail_and_pages_without_one_do_nothing() {
    let pages = pages();
    let mut state = WorkbenchState::new("search");
    assert!(matches!(state.execute_query(&pages, &Vec::new(), Some(&values("x"))), QueryStep::UnknownOperation));
    assert_eq!(Some("unknown operation".to_string()), failure(&state));
    let mut detail = WorkbenchState::new("about");
    assert!(matches!(detail.execute_query(&pages, &operations(), Some(&values("x"))), QueryStep::Nothing));
}

#[test]
fn a_page_load_drops_the_result_of_a_running_query() {
    let pages = pages();
    let ops = operations();
    let mut state = WorkbenchState::new("search");
    let QueryStep::Run(call) = state.execute_query(&pages, &ops, Some(&values("orders"))) else {
        panic!("runs")
    };
    let (_, _) = state.navigate(&pages, "indices", JsonValue::Null);
    state.query_finished(call.revision, Ok(JsonValue::Bool(true)));
    assert!(state.query_result.is_none());
}
