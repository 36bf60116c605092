//! The state of a resource workbench and its decisions: which page is
//! open with which route, whether its data is loading, loaded or failed,
//! and how a query page runs, with confirmation for operations that change
//! data.  The owner performs the provider calls and reports back; a result
//! that arrives after a newer request was made is dropped.
use vstd::prelude::*;
use crate::json_value::{json_view, members_view, set_member, set_member_in, JsonValue, JsonView};
use crate::text::{copy_string, owned, string_of, text_eq};
use crate::text_build::push_str;
use crate::text_sets::{find_key, value_of};

verus! {

/// How a page shows its data.
#[derive(Debug, Clone, Copy, PartialEq, Eq, Structural)]
pub enum PageTemplate {
    Collection,
    Detail,
    Query,
    Tasks,
}

/// A declared input of a query page.
#[derive(Debug, Clone, PartialEq, Eq)]
pub struct PageInput {
    pub id: String,
    pub required: bool,
}

/// What the workbench reads of a page declaration.
#[derive(Debug, Clone, PartialEq, Eq)]
pub struct WorkbenchPage {
    pub id: String,
    pub template: PageTemplate,
    /// The operation that loads the page's data.
    pub load: Option<String>,
    /// The operation a query page runs.
    pub execute: Option<String>,
    pub inputs: Vec<PageInput>,
}

/// What the workbench reads of a declared operation.
#[derive(Debug, Clone, Copy, PartialEq, Eq)]
pub struct OperationInfo {
    /// Runs as a background job rather than a call.
    pub is_job: bool,
    /// Changes data, so the user confirms it first.
    pub needs_confirmation: bool,
}

/// The load state of the open page.
#[derive(Debug)]
pub enum PageState {
    Idle,
    Loading,
    Loaded(JsonValue),
    Failed(String),
}

/// A provider call the owner is asked to make, tagged with the revision its
/// result must carry.
#[derive(Debug)]
pub struct ProviderCall {
    pub revision: u64,
    pub operation: String,
    pub input: JsonValue,
    /// Run as a job.
    pub is_job: bool,
    /// The user confirmed this operation.
    pub confirmed: bool,
}

/// The open page and its route.
#[derive(Debug)]
pub struct PageSelection {
    pub page_id: String,
    pub route: JsonValue,
}

/// The state of a workbench.
pub struct WorkbenchState {
    pub selected_page: String,
    pub route: JsonValue,
    pub page_state: PageState,
    pub load_revision: u64,
    pub query_result: Option<Result<JsonValue, String>>,
    pub query_running: bool,
    pub pending_confirm: Option<String>,
}

/// The index of the first page with this id.
pub open spec fn page_index(pages: Seq<WorkbenchPage>, id: Seq<char>) -> Option<int>
    decreases pages.len(),
{
    if pages.len() == 0 {
        None
    } else {
        match page_index(pages.drop_last(), id) {
            Some(i) => Some(i),
            None => if pages.last().id@ == id {
                Some(pages.len() - 1)
            } else {
                None
            },
        }
    }
}

/// The page with this id, if one is declared.
pub open spec fn page_named(pages: Seq<WorkbenchPage>, id: Seq<char>) -> Option<WorkbenchPage> {
    match page_index(pages, id) {
        Some(i) => Some(pages[i]),
        None => None,
    }
}

/// Finds the first page with an id.
fn find_page<'a>(pages: &'a Vec<WorkbenchPage>, id: &str) -> (r: Option<&'a WorkbenchPage>)
    ensures
        match r {
            Some(p) => page_named(pages@, id@) == Some(*p),
            None => page_named(pages@, id@) is None,
        },
{
    let mut i: usize = 0;
    while i < pages.len()
        invariant
            i <= pages@.len(),
            page_index(pages@.subrange(0, i as int), id@) is None,
        decreases pages@.len() - i,
    {
        assert(pages@.subrange(0, i + 1).drop_last() =~= pages@.subrange(0, i as int));
        if text_eq(pages[i].id.as_str(), id) {
            proof {
                lemma_page_found(pages@, id@, i as int);
            }
            return Some(&pages[i]);
        }
        i = i + 1;
    }
    assert(pages@.subrange(0, pages@.len() as int) =~= pages@);
    None
}

/// The first page with an id, when the first `i` pages have another.
proof fn lemma_page_found(pages: Seq<WorkbenchPage>, id: Seq<char>, i: int)
    requires
        0 <= i < pages.len(),
        page_index(pages.subrange(0, i), id) is None,
        pages[i].id@ == id,
    ensures
        page_index(pages, id) == Some(i),
    decreases pages.len(),
{
    let next = pages.subrange(0, i + 1);
    assert(next.drop_last() =~= pages.subrange(0, i));
    if pages.len() > i + 1 {
        assert(pages.drop_last().subrange(0, i) =~= pages.subrange(0, i));
        lemma_page_found(pages.drop_last(), id, i);
    } else {
        assert(pages =~= next);
    }
}

/// What opening the selected page does: an undeclared page fails; a query
/// or tasks page, or one without a load operation, waits idle; any other
/// starts loading.
pub enum LoadPlan {
    Unknown,
    Idle,
    Load(Seq<char>),
}

/// How the selected page loads.
pub open spec fn load_plan(pages: Seq<WorkbenchPage>, selected: Seq<char>) -> LoadPlan {
    match page_named(pages, selected) {
        None => LoadPlan::Unknown,
        Some(p) => if p.template == PageTemplate::Tasks || p.template == PageTemplate::Query {
            LoadPlan::Idle
        } else {
            match p.load {
                Some(op) => LoadPlan::Load(op@),
                None => LoadPlan::Idle,
            }
        },
    }
}

/// What a run of the query page does.
#[derive(Debug)]
pub enum QueryStep {
    /// Nothing: a query is running, or the page has nothing to run.
    Nothing,
    /// The operation is not declared; the failure is shown.
    UnknownOperation,
    /// The user is asked to confirm the operation first.
    AskConfirmation,
    /// The page's input state is missing; the failure is shown.
    NoInputs,
    /// A required input is empty; the failure is shown.
    MissingInput,
    /// The owner makes this call.
    Run(ProviderCall),
}

/// The message for an empty required input.
pub open spec fn required_message(id: Seq<char>) -> Seq<char> {
    "`"@ + id + "` is required"@
}

/// The first declared input that is required but empty, given the typed
/// values (an input without a value is empty).
pub open spec fn missing_input(inputs: Seq<PageInput>, values: Seq<(String, String)>) -> Option<Seq<char>>
    decreases inputs.len(),
{
    if inputs.len() == 0 {
        None
    } else if inputs[0].required && match value_of(values, inputs[0].id@) {
        Some(v) => v@.len() == 0,
        None => true,
    } {
        Some(inputs[0].id@)
    } else {
        missing_input(inputs.drop_first(), values)
    }
}

/// The typed value of an input: its value, or the empty text.
pub open spec fn typed_value(values: Seq<(String, String)>, id: Seq<char>) -> Seq<char> {
    match value_of(values, id) {
        Some(v) => v@,
        None => Seq::empty(),
    }
}

/// The members of the input object of a query from the first `n` declared
/// inputs: each sets its id to its typed value, as text.
pub open spec fn input_members(inputs: Seq<PageInput>, values: Seq<(String, String)>, n: int) -> Seq<
    (Seq<char>, JsonView),
>
    decreases n,
{
    if n <= 0 {
        Seq::empty()
    } else {
        set_member(
            input_members(inputs, values, n - 1),
            inputs[n - 1].id@,
            JsonView::Text(typed_value(values, inputs[n - 1].id@)),
        )
    }
}

/// Whether an operation is declared to run as a job.
pub open spec fn runs_as_job(operations: Seq<(String, OperationInfo)>, op: Seq<char>) -> bool {
    match value_of(operations, op) {
        Some(info) => info.is_job,
        None => false,
    }
}

/// The state is the same but for the query result.
pub open spec fn same_but_result(a: WorkbenchState, b: WorkbenchState) -> bool {
    &&& b.selected_page == a.selected_page
    &&& b.route == a.route
    &&& b.page_state == a.page_state
    &&& b.load_revision == a.load_revision
    &&& b.query_running == a.query_running
}

/// A failure shown as the query result.
pub open spec fn shows_failure(s: WorkbenchState, message: Seq<char>) -> bool {
    s.query_result matches Some(Err(m)) && m@ == message
}

/// What a run of operation `op` of a page does, given the typed values:
/// without input state it fails; with an empty required input it fails
/// naming the first; otherwise it marks the query running, clears the last
/// result and asks for the call under a new revision.
pub open spec fn run_effect(
    old: WorkbenchState,
    new: WorkbenchState,
    r: QueryStep,
    op: Seq<char>,
    page: WorkbenchPage,
    operations: Seq<(String, OperationInfo)>,
    values: Option<Seq<(String, String)>>,
    confirmed: bool,
) -> bool {
    match values {
        None => r is NoInputs && same_but_result(old, new) && shows_failure(new, "query inputs are not initialized"@),
        Some(v) => match missing_input(page.inputs@, v) {
            Some(id) => r is MissingInput && same_but_result(old, new) && shows_failure(new, required_message(id)),
            None => new.query_running && new.query_result is None && new.load_revision == old.load_revision + 1
                && new.selected_page == old.selected_page && new.route == old.route && new.page_state
                == old.page_state && (r matches QueryStep::Run(
                call,
            ) && call.revision == new.load_revision && call.operation@ == op && json_view(call.input)
                == JsonView::Object(input_members(page.inputs@, v, page.inputs@.len() as int)) && call.is_job
                == runs_as_job(operations, op) && call.confirmed == confirmed),
        },
    }
}

/// The view of optional typed values.
pub open spec fn opt_values(values: Option<&Vec<(String, String)>>) -> Option<Seq<(String, String)>> {
    match values {
        Some(v) => Some(v@),
        None => None,
    }
}

/// Finds the first empty required input.
fn first_missing(inputs: &Vec<PageInput>, values: &Vec<(String, String)>) -> (r: Option<usize>)
    ensures
        match missing_input(inputs@, values@) {
            Some(id) => r matches Some(i) && i < inputs@.len() && inputs@[i as int].id@ == id,
            None => r is None,
        },
{
    let mut i: usize = 0;
    assert(inputs@.subrange(0, inputs@.len() as int) =~= inputs@);
    while i < inputs.len()
        invariant
            i <= inputs@.len(),
            missing_input(inputs@, values@) == missing_input(inputs@.subrange(i as int, inputs@.len() as int), values@),
        decreases inputs@.len() - i,
    {
        let ghost rest = inputs@.subrange(i as int, inputs@.len() as int);
        assert(rest.drop_first() =~= inputs@.subrange(i + 1, inputs@.len() as int));
        assert(rest[0] == inputs@[i as int]);
        let input = &inputs[i];
        if input.required {
            let empty = match find_key(values, input.id.as_str()) {
                Some(k) => values[k].1.unicode_len() == 0,
                None => true,
            };
            if empty {
                return Some(i);
            }
        }
        i = i + 1;
    }
    None
}

/// The typed value of an input.
fn typed_value_of(values: &Vec<(String, String)>, id: &str) -> (r: String)
    ensures
        r@ == typed_value(values@, id@),
{
    match find_key(values, id) {
        Some(k) => copy_string(&values[k].1),
        None => String::new(),
    }
}

/// Whether an operation runs as a job.
fn is_job_operation(operations: &Vec<(String, OperationInfo)>, op: &str) -> (r: bool)
    ensures
        r == runs_as_job(operations@, op@),
{
    match find_key(operations, op) {
        Some(k) => operations[k].1.is_job,
        None => false,
    }
}

/// The failure for an empty required input.
fn required_text(id: &str) -> (r: String)
    ensures
        r@ == required_message(id@),
{
    let mut text: Vec<char> = Vec::new();
    push_str(&mut text, "`");
    push_str(&mut text, id);
    push_str(&mut text, "` is required");
    string_of(text.as_slice())
}

impl WorkbenchState {
    /// Runs operation `op` of a page with the typed values.
    fn run_query(
        &mut self,
        op: String,
        page: &WorkbenchPage,
        operations: &Vec<(String, OperationInfo)>,
        values: Option<&Vec<(String, String)>>,
        confirmed: bool,
    ) -> (r: QueryStep)
        requires
            old(self).load_revision < u64::MAX,
        ensures
            run_effect(*old(self), *final(self), r, op@, *page, operations@, opt_values(values), confirmed),
            final(self).pending_confirm == old(self).pending_confirm,
    {
        let values = match values {
            Some(v) => v,
            None => {
                self.query_result = Some(Err(owned("query inputs are not initialized")));
                return QueryStep::NoInputs;
            },
        };
        match first_missing(&page.inputs, values) {
            Some(i) => {
                self.query_result = Some(Err(required_text(page.inputs[i].id.as_str())));
                return QueryStep::MissingInput;
            },
            None => {},
        }
        let is_job = is_job_operation(operations, op.as_str());
        let mut members: Vec<(String, JsonValue)> = Vec::new();
        let mut i: usize = 0;
        assert(members_view(members@) =~= input_members(page.inputs@, values@, 0));
        while i < page.inputs.len()
            invariant
                i <= page.inputs@.len(),
                members_view(members@) == input_members(page.inputs@, values@, i as int),
            decreases page.inputs@.len() - i,
        {
            let id = &page.inputs[i].id;
            let value = typed_value_of(values, id.as_str());
            set_member_in(&mut members, id, JsonValue::Text(value));
            i = i + 1;
        }
        let input = JsonValue::Object(members);
        assert(json_view(input)->Object_0 =~= members_view(members@));
        self.query_running = true;
        self.query_result = None;
        self.load_revision = self.load_revision + 1;
        QueryStep::Run(ProviderCall { revision: self.load_revision, operation: op, input, is_job, confirmed })
    }
}

/// What opening a page leaves: an undeclared page failed, a page with
/// nothing to load idle, any other loading under the next revision, with
/// the call to make.
pub open spec fn load_outcome(
    pages: Seq<WorkbenchPage>,
    page: Seq<char>,
    revision: u64,
    new: WorkbenchState,
    r: Option<ProviderCall>,
) -> bool {
    match load_plan(pages, page) {
        LoadPlan::Unknown => r is None && new.load_revision == revision && (new.page_state matches PageState::Failed(
            m,
        ) && m@ == "unknown workbench page"@),
        LoadPlan::Idle => r is None && new.load_revision == revision && new.page_state is Idle,
        LoadPlan::Load(op) => new.load_revision == revision + 1 && new.page_state is Loading && (r matches Some(
            call,
        ) && call.revision == new.load_revision && call.operation@ == op && json_view(call.input) is Null
            && !call.is_job && !call.confirmed),
    }
}

impl WorkbenchState {
    /// A workbench on its default page, with nothing loaded yet.
    pub fn new(default_page: &str) -> (r: Self)
        ensures
            r.selected_page@ == default_page@,
            json_view(r.route) is Null,
            r.page_state is Idle,
            r.load_revision == 0,
            r.query_result is None,
            !r.query_running,
            r.pending_confirm is None,
    {
        WorkbenchState {
            selected_page: owned(default_page),
            route: JsonValue::Null,
            page_state: PageState::Idle,
            load_revision: 0,
            query_result: None,
            query_running: false,
            pending_confirm: None,
        }
    }

    /// Opens the selected page: fails it when undeclared, leaves it idle
    /// when it has nothing to load, else marks it loading under a new
    /// revision and returns the call for the owner to make.
    pub fn load_current_page(&mut self, pages: &Vec<WorkbenchPage>) -> (r: Option<ProviderCall>)
        requires
            old(self).load_revision < u64::MAX,
        ensures
            final(self).selected_page == old(self).selected_page,
            final(self).route == old(self).route,
            final(self).query_result == old(self).query_result,
            final(self).query_running == old(self).query_running,
            final(self).pending_confirm == old(self).pending_confirm,
            load_outcome(pages@, old(self).selected_page@, old(self).load_revision, *final(self), r),
    {
        let page = match find_page(pages, self.selected_page.as_str()) {
            Some(p) => p,
            None => {
                self.page_state = PageState::Failed(owned("unknown workbench page"));
                return None;
            },
        };
        if page.template == PageTemplate::Tasks || page.template == PageTemplate::Query {
            self.page_state = PageState::Idle;
            return None;
        }
        match &page.load {
            None => {
                self.page_state = PageState::Idle;
                None
            },
            Some(op) => {
                self.load_revision = self.load_revision + 1;
                self.page_state = PageState::Loading;
                Some(
                    ProviderCall {
                        revision: self.load_revision,
                        operation: copy_string(op),
                        input: JsonValue::Null,
                        is_job: false,
                        confirmed: false,
                    },
                )
            },
        }
    }

    /// Records the result of a page load; a result of an older revision is
    /// dropped.
    pub fn page_loaded(&mut self, revision: u64, result: Result<JsonValue, String>)
        ensures
            revision != old(self).load_revision ==> *final(self) == *old(self),
            revision == old(self).load_revision ==> match result {
                Ok(v) => final(self).page_state == PageState::Loaded(v),
                Err(e) => final(self).page_state == PageState::Failed(e),
            },
            final(self).selected_page == old(self).selected_page,
            final(self).route == old(self).route,
            final(self).load_revision == old(self).load_revision,
            final(self).query_result == old(self).query_result,
            final(self).query_running == old(self).query_running,
            final(self).pending_confirm == old(self).pending_confirm,
    {
        if revision != self.load_revision {
            return;
        }
        self.page_state = match result {
            Ok(v) => PageState::Loaded(v),
            Err(e) => PageState::Failed(e),
        };
    }

    /// Opens a declared page with a route, dropping the last query result,
    /// and returns the load to make, if any; an undeclared page changes
    /// nothing (`None`, with `false`).
    pub fn navigate(&mut self, pages: &Vec<WorkbenchPage>, page_id: &str, route: JsonValue) -> (r: (
        bool,
        Option<ProviderCall>,
    ))
        requires
            old(self).load_revision < u64::MAX,
        ensures
            r.0 == page_named(pages@, page_id@) is Some,
            !r.0 ==> *final(self) == *old(self) && r.1 is None,
            r.0 ==> final(self).selected_page@ == page_id@ && final(self).route == route
                && final(self).query_result is None && final(self).query_running == old(self).query_running
                && final(self).pending_confirm == old(self).pending_confirm && load_outcome(
                pages@,
                page_id@,
                old(self).load_revision,
                *final(self),
                r.1,
            ),
    {
        if find_page(pages, page_id).is_none() {
            return (false, None);
        }
        self.selected_page = owned(page_id);
        self.route = route;
        self.query_result = None;
        let call = self.load_current_page(pages);
        (true, call)
    }

    /// Opens a declared page from the navigation, with no route.
    pub fn select_page(&mut self, pages: &Vec<WorkbenchPage>, page_id: &str) -> (r: (bool, Option<ProviderCall>))
        requires
            old(self).load_revision < u64::MAX,
        ensures
            r.0 == page_named(pages@, page_id@) is Some,
            !r.0 ==> *final(self) == *old(self) && r.1 is None,
            r.0 ==> final(self).selected_page@ == page_id@ && json_view(final(self).route) is Null
                && final(self).query_result is None && final(self).query_running == old(self).query_running
                && final(self).pending_confirm == old(self).pending_confirm && load_outcome(
                pages@,
                page_id@,
                old(self).load_revision,
                *final(self),
                r.1,
            ),
    {
        self.navigate(pages, page_id, JsonValue::Null)
    }
}

/// The operation the selected page runs, if the page is declared and has
/// one.
pub open spec fn page_operation(pages: Seq<WorkbenchPage>, selected: Seq<char>) -> Option<(WorkbenchPage, Seq<char>)> {
    match page_named(pages, selected) {
        Some(p) => match p.execute {
            Some(op) => Some((p, op@)),
            None => None,
        },
        None => None,
    }
}

impl WorkbenchState {
    /// Runs the query of the selected page: nothing while one runs or when
    /// the page has no operation; an undeclared operation fails; one that
    /// changes data waits for confirmation; any other runs.
    pub fn execute_query(
        &mut self,
        pages: &Vec<WorkbenchPage>,
        operations: &Vec<(String, OperationInfo)>,
        values: Option<&Vec<(String, String)>>,
    ) -> (r: QueryStep)
        requires
            old(self).load_revision < u64::MAX,
        ensures
            old(self).query_running ==> r is Nothing && *final(self) == *old(self),
            !old(self).query_running ==> match page_operation(pages@, old(self).selected_page@) {
                None => r is Nothing && *final(self) == *old(self),
                Some((page, op)) => match value_of(operations@, op) {
                    None => r is UnknownOperation && same_but_result(*old(self), *final(self))
                        && final(self).pending_confirm == old(self).pending_confirm && shows_failure(
                        *final(self),
                        "unknown operation"@,
                    ),
                    Some(info) => if info.needs_confirmation {
                        r is AskConfirmation && (final(self).pending_confirm matches Some(p) && p@ == op)
                            && same_but_result(*old(self), *final(self)) && final(self).query_result
                            == old(self).query_result
                    } else {
                        run_effect(*old(self), *final(self), r, op, page, operations@, opt_values(values), false)
                            && final(self).pending_confirm == old(self).pending_confirm
                    },
                },
            },
    {
        if self.query_running {
            return QueryStep::Nothing;
        }
        let page = match find_page(pages, self.selected_page.as_str()) {
            Some(p) => p,
            None => {
                return QueryStep::Nothing;
            },
        };
        let op = match &page.execute {
            Some(op) => op,
            None => {
                return QueryStep::Nothing;
            },
        };
        let info = match find_key(operations, op.as_str()) {
            Some(k) => operations[k].1,
            None => {
                self.query_result = Some(Err(owned("unknown operation")));
                return QueryStep::UnknownOperation;
            },
        };
        if info.needs_confirmation {
            self.pending_confirm = Some(copy_string(op));
            return QueryStep::AskConfirmation;
        }
        self.run_query(copy_string(op), page, operations, values, false)
    }

    /// Runs the operation the user confirmed, if the selected page still
    /// runs it; the confirmation is used up either way.
    pub fn confirm_pending(
        &mut self,
        pages: &Vec<WorkbenchPage>,
        operations: &Vec<(String, OperationInfo)>,
        values: Option<&Vec<(String, String)>>,
    ) -> (r: QueryStep)
        requires
            old(self).load_revision < u64::MAX,
        ensures
            final(self).pending_confirm is None,
            match old(self).pending_confirm {
                None => r is Nothing && *final(self) == *old(self),
                Some(pending) => match page_operation(pages@, old(self).selected_page@) {
                    Some((page, op)) => if op == pending@ {
                        run_effect(*old(self), *final(self), r, op, page, operations@, opt_values(values), true)
                    } else {
                        r is Nothing && same_but_result(*old(self), *final(self)) && final(self).query_result
                            == old(self).query_result
                    },
                    None => r is Nothing && same_but_result(*old(self), *final(self)) && final(self).query_result
                        == old(self).query_result,
                },
            },
    {
        let pending = match self.pending_confirm.take() {
            Some(op) => op,
            None => {
                return QueryStep::Nothing;
            },
        };
        let page = match find_page(pages, self.selected_page.as_str()) {
            Some(p) => p,
            None => {
                return QueryStep::Nothing;
            },
        };
        match &page.execute {
            Some(op) => {
                if !text_eq(op.as_str(), pending.as_str()) {
                    return QueryStep::Nothing;
                }
            },
            None => {
                return QueryStep::Nothing;
            },
        }
        self.run_query(pending, page, operations, values, true)
    }

    /// The open page and its route.
    pub fn selection(&self) -> (r: PageSelection)
        ensures
            r.page_id@ == self.selected_page@,
            json_view(r.route) == json_view(self.route),
    {
        PageSelection { page_id: copy_string(&self.selected_page), route: crate::json_value::json_clone(&self.route) }
    }

    /// Drops a pending confirmation.
    pub fn cancel_pending(&mut self)
        ensures
            final(self).pending_confirm is None,
            same_but_result(*old(self), *final(self)),
            final(self).query_result == old(self).query_result,
    {
        self.pending_confirm = None;
    }

    /// Records the result of a query; a result of an older revision is
    /// dropped.
    pub fn query_finished(&mut self, revision: u64, result: Result<JsonValue, String>)
        ensures
            revision != old(self).load_revision ==> *final(self) == *old(self),
            revision == old(self).load_revision ==> !final(self).query_running && final(self).query_result
                == Some(result) && final(self).selected_page == old(self).selected_page && final(self).route
                == old(self).route && final(self).page_state == old(self).page_state
                && final(self).load_revision == old(self).load_revision && final(self).pending_confirm
                == old(self).pending_confirm,
    {
        if revision != self.load_revision {
            return;
        }
        self.query_running = false;
        self.query_result = Some(result);
    }
}

} // verus!
