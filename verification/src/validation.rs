//! The lint pass over a workflow: a list of issues, never a failure.

use crate::gather::{gather, lemma_flatten_step};
use crate::models::connection::{Connection, ConnectionView};
use crate::models::index_model::index_edges;
use crate::models::node::{is_trigger_type, Node};
use crate::models::workflow::{any_trigger, has_name, TypedWorkflow};
use crate::text::{is_blank, is_blank_str, joined, lemma_joined_push};
use vstd::prelude::*;
use vstd::string::*;

verus! {

/// How much an issue weighs: an error makes the workflow invalid, a
/// warning does not.
#[derive(Debug, Clone, Copy, PartialEq, Eq, Structural)]
pub enum ValidationSeverity {
    Error,
    Warning,
}

/// One finding of the lint pass.
#[derive(Debug)]
pub struct ValidationIssue {
    pub severity: ValidationSeverity,
    pub message: String,
    /// The node the finding is about, where it is about one.
    pub node: Option<String>,
}

/// A [`ValidationIssue`] with its texts as sequences of characters.
pub struct IssueView {
    pub severity: ValidationSeverity,
    pub message: Seq<char>,
    pub node: Option<Seq<char>>,
}

impl DeepView for ValidationIssue {
    type V = IssueView;

    open spec fn deep_view(&self) -> IssueView {
        IssueView {
            severity: self.severity,
            message: self.message@,
            node: match self.node {
                Some(n) => Some(n@),
                None => None,
            },
        }
    }
}

impl View for ValidationIssue {
    type V = IssueView;

    open spec fn view(&self) -> IssueView {
        self.deep_view()
    }
}

/// What the lint pass found.
#[derive(Debug)]
pub struct ValidationResult {
    pub issues: Vec<ValidationIssue>,
}

impl DeepView for ValidationResult {
    type V = Seq<IssueView>;

    open spec fn deep_view(&self) -> Seq<IssueView> {
        self.issues.deep_view()
    }
}

impl View for ValidationResult {
    type V = Seq<IssueView>;

    open spec fn view(&self) -> Seq<IssueView> {
        self.deep_view()
    }
}

/// An error about the node `node`.
pub open spec fn error_about(message: Seq<char>, node: Seq<char>) -> IssueView {
    IssueView { severity: ValidationSeverity::Error, message, node: Some(node) }
}

/// A warning about the node `node`.
pub open spec fn warning_about(message: Seq<char>, node: Seq<char>) -> IssueView {
    IssueView { severity: ValidationSeverity::Warning, message, node: Some(node) }
}

/// An error about the workflow as a whole.
pub open spec fn general_error(message: Seq<char>) -> IssueView {
    IssueView { severity: ValidationSeverity::Error, message, node: None }
}

/// A warning about the workflow as a whole.
pub open spec fn general_warning(message: Seq<char>) -> IssueView {
    IssueView { severity: ValidationSeverity::Warning, message, node: None }
}

/// A node before position `i` has the identifier of the node at `i`.
pub open spec fn id_seen_before(nodes: Seq<Node>, i: int) -> bool {
    exists|j: int| 0 <= j < i && (#[trigger] nodes[j]).id@ == nodes[i].id@
}

/// A node before position `i` has the name of the node at `i`.
pub open spec fn name_seen_before(nodes: Seq<Node>, i: int) -> bool {
    exists|j: int| 0 <= j < i && (#[trigger] nodes[j]).name@ == nodes[i].name@
}

/// Every node whose identifier an earlier node has is an error.
pub open spec fn duplicate_id_rule(nodes: Seq<Node>) -> spec_fn(int) -> Seq<IssueView> {
    |i: int|
        if id_seen_before(nodes, i) {
            seq![error_about("Duplicate node ID: "@ + nodes[i].id@, nodes[i].name@)]
        } else {
            Seq::empty()
        }
}

/// Every node whose name an earlier node has is an error.
pub open spec fn duplicate_name_rule(nodes: Seq<Node>) -> spec_fn(int) -> Seq<IssueView> {
    |i: int|
        if name_seen_before(nodes, i) {
            seq![error_about("Duplicate node name: "@ + nodes[i].name@, nodes[i].name@)]
        } else {
            Seq::empty()
        }
}

/// A workflow without an entry point gets a warning.
pub open spec fn trigger_issues(nodes: Seq<Node>) -> Seq<IssueView> {
    if any_trigger(nodes) {
        Seq::empty()
    } else {
        seq![
            general_warning("No trigger node found. Workflow can only be executed manually."@),
        ]
    }
}

/// The error for a connection whose source names no node.
pub open spec fn dangling_source(nodes: Seq<Node>, c: ConnectionView) -> Seq<IssueView> {
    if has_name(nodes, c.source_node) {
        Seq::empty()
    } else {
        seq![
            error_about(
                "Connection references non-existent source node: "@ + c.source_node,
                c.source_node,
            ),
        ]
    }
}

/// The error for a connection whose target names no node.
pub open spec fn dangling_target(nodes: Seq<Node>, c: ConnectionView) -> Seq<IssueView> {
    if has_name(nodes, c.target_node) {
        Seq::empty()
    } else {
        seq![
            error_about(
                "Connection references non-existent target node: "@ + c.target_node,
                c.target_node,
            ),
        ]
    }
}

/// Every end of a connection that names no node is an error: the source
/// end first, then the target end.
pub open spec fn dangling_rule(nodes: Seq<Node>, edges: Seq<ConnectionView>) -> spec_fn(int) -> Seq<
    IssueView,
> {
    |k: int| dangling_source(nodes, edges[k]) + dangling_target(nodes, edges[k])
}

/// Some connection starts at `name` or leads to it.
pub open spec fn is_connected(edges: Seq<ConnectionView>, name: Seq<char>) -> bool {
    exists|k: int|
        0 <= k < edges.len() && ((#[trigger] edges[k]).source_node == name || edges[k].target_node
            == name)
}

/// Every node that is no entry point and has no connection gets a warning.
pub open spec fn orphan_rule(nodes: Seq<Node>, edges: Seq<ConnectionView>) -> spec_fn(int) -> Seq<
    IssueView,
> {
    |i: int|
        if !is_trigger_type(nodes[i].node_type@) && !is_connected(edges, nodes[i].name@) {
            seq![
                warning_about(
                    "Node '"@ + nodes[i].name@ + "' is not connected to any other node"@,
                    nodes[i].name@,
                ),
            ]
        } else {
            Seq::empty()
        }
}

/// Every connection from a node to itself gets a warning.
pub open spec fn self_loop_rule(edges: Seq<ConnectionView>) -> spec_fn(int) -> Seq<IssueView> {
    |k: int|
        if edges[k].source_node == edges[k].target_node {
            seq![
                warning_about(
                    "Node '"@ + edges[k].source_node + "' has a self-loop connection"@,
                    edges[k].source_node,
                ),
            ]
        } else {
            Seq::empty()
        }
}

/// Every node with a blank name is an error, reported under its identifier.
pub open spec fn blank_name_rule(nodes: Seq<Node>) -> spec_fn(int) -> Seq<IssueView> {
    |i: int|
        if is_blank(nodes[i].name@) {
            seq![error_about("Node has empty name"@, nodes[i].id@)]
        } else {
            Seq::empty()
        }
}

/// A blank workflow name is an error.
pub open spec fn workflow_name_issues(name: Seq<char>) -> Seq<IssueView> {
    if is_blank(name) {
        seq![general_error("Workflow has empty name"@)]
    } else {
        Seq::empty()
    }
}

/// Everything the lint pass reports for a workflow with the given name,
/// nodes and flat list of connections. A workflow without nodes gets one
/// warning and nothing else; for any other, every rule speaks in turn.
pub open spec fn issues_of(
    name: Seq<char>,
    nodes: Seq<Node>,
    edges: Seq<ConnectionView>,
) -> Seq<IssueView> {
    if nodes.len() == 0 {
        seq![general_warning("Workflow has no nodes"@)]
    } else {
        gather(nodes.len() as int, duplicate_id_rule(nodes)) + gather(
            nodes.len() as int,
            duplicate_name_rule(nodes),
        ) + trigger_issues(nodes) + gather(edges.len() as int, dangling_rule(nodes, edges))
            + gather(nodes.len() as int, orphan_rule(nodes, edges)) + gather(
            edges.len() as int,
            self_loop_rule(edges),
        ) + gather(nodes.len() as int, blank_name_rule(nodes)) + workflow_name_issues(name)
    }
}

/// Some issue is an error.
pub open spec fn has_error(issues: Seq<IssueView>) -> bool {
    exists|i: int| 0 <= i < issues.len() && (#[trigger] issues[i]).severity == ValidationSeverity::Error
}

fn push_issue(
    out: &mut Vec<ValidationIssue>,
    severity: ValidationSeverity,
    message: String,
    node: Option<String>,
)
    ensures
        final(out).deep_view() == old(out).deep_view().push(
            (ValidationIssue { severity, message, node }).deep_view(),
        ),
{
    let ghost before = out.deep_view();
    let issue = ValidationIssue { severity, message, node };
    let ghost v = issue.deep_view();
    out.push(issue);
    assert(out.deep_view() =~= before.push(v));
}

fn id_seen(nodes: &Vec<Node>, i: usize) -> (r: bool)
    requires
        i < nodes.len(),
    ensures
        r == id_seen_before(nodes@, i as int),
{
    let mut j: usize = 0;
    while j < i
        invariant
            j <= i < nodes.len(),
            forall|x: int| 0 <= x < j ==> (#[trigger] nodes@[x]).id@ != nodes@[i as int].id@,
        decreases i - j,
    {
        if nodes[j].id == nodes[i].id {
            return true;
        }
        j += 1;
    }
    false
}

fn name_seen(nodes: &Vec<Node>, i: usize) -> (r: bool)
    requires
        i < nodes.len(),
    ensures
        r == name_seen_before(nodes@, i as int),
{
    let mut j: usize = 0;
    while j < i
        invariant
            j <= i < nodes.len(),
            forall|x: int| 0 <= x < j ==> (#[trigger] nodes@[x]).name@ != nodes@[i as int].name@,
        decreases i - j,
    {
        if nodes[j].name == nodes[i].name {
            return true;
        }
        j += 1;
    }
    false
}

fn names_node(nodes: &Vec<Node>, name: &String) -> (r: bool)
    ensures
        r == has_name(nodes@, name@),
{
    let mut i: usize = 0;
    while i < nodes.len()
        invariant
            i <= nodes.len(),
            forall|x: int| 0 <= x < i ==> (#[trigger] nodes@[x]).name@ != name@,
        decreases nodes.len() - i,
    {
        if nodes[i].name == *name {
            return true;
        }
        i += 1;
    }
    false
}

fn touched(edges: &Vec<Connection>, name: &String) -> (r: bool)
    ensures
        r == is_connected(edges.deep_view(), name@),
{
    let mut k: usize = 0;
    while k < edges.len()
        invariant
            k <= edges.len(),
            forall|x: int|
                0 <= x < k ==> (#[trigger] edges.deep_view()[x]).source_node != name@
                    && edges.deep_view()[x].target_node != name@,
        decreases edges.len() - k,
    {
        assert(edges.deep_view()[k as int] == edges@[k as int]@);
        if edges[k].source_node == *name || edges[k].target_node == *name {
            return true;
        }
        k += 1;
    }
    false
}

fn check_duplicate_ids(nodes: &Vec<Node>, out: &mut Vec<ValidationIssue>)
    ensures
        final(out).deep_view() == old(out).deep_view() + gather(
            nodes@.len() as int,
            duplicate_id_rule(nodes@),
        ),
{
    let ghost base = out.deep_view();
    let ghost rule = duplicate_id_rule(nodes@);
    proof {
        lemma_flatten_step(0, rule);
        assert(out.deep_view() =~= base + gather(0, rule));
    }
    let mut i: usize = 0;
    while i < nodes.len()
        invariant
            i <= nodes.len(),
            rule == duplicate_id_rule(nodes@),
            out.deep_view() == base + gather(i as int, rule),
        decreases nodes.len() - i,
    {
        proof {
            lemma_flatten_step(i as nat, rule);
        }
        if id_seen(nodes, i) {
            let message = crate::text::join2("Duplicate node ID: ", nodes[i].id.as_str());
            push_issue(out, ValidationSeverity::Error, message, Some(nodes[i].name.clone()));
        }
        i += 1;
        assert(out.deep_view() =~= base + gather(i as int, rule));
    }
}

fn check_duplicate_names(nodes: &Vec<Node>, out: &mut Vec<ValidationIssue>)
    ensures
        final(out).deep_view() == old(out).deep_view() + gather(
            nodes@.len() as int,
            duplicate_name_rule(nodes@),
        ),
{
    let ghost base = out.deep_view();
    let ghost rule = duplicate_name_rule(nodes@);
    proof {
        lemma_flatten_step(0, rule);
        assert(out.deep_view() =~= base + gather(0, rule));
    }
    let mut i: usize = 0;
    while i < nodes.len()
        invariant
            i <= nodes.len(),
            rule == duplicate_name_rule(nodes@),
            out.deep_view() == base + gather(i as int, rule),
        decreases nodes.len() - i,
    {
        proof {
            lemma_flatten_step(i as nat, rule);
        }
        if name_seen(nodes, i) {
            let message = crate::text::join2("Duplicate node name: ", nodes[i].name.as_str());
            push_issue(out, ValidationSeverity::Error, message, Some(nodes[i].name.clone()));
        }
        i += 1;
        assert(out.deep_view() =~= base + gather(i as int, rule));
    }
}

fn check_dangling(nodes: &Vec<Node>, edges: &Vec<Connection>, out: &mut Vec<ValidationIssue>)
    ensures
        final(out).deep_view() == old(out).deep_view() + gather(
            edges.deep_view().len() as int,
            dangling_rule(nodes@, edges.deep_view()),
        ),
{
    let ghost base = out.deep_view();
    let ghost rule = dangling_rule(nodes@, edges.deep_view());
    proof {
        lemma_flatten_step(0, rule);
        assert(out.deep_view() =~= base + gather(0, rule));
    }
    let mut k: usize = 0;
    while k < edges.len()
        invariant
            k <= edges.len(),
            rule == dangling_rule(nodes@, edges.deep_view()),
            out.deep_view() == base + gather(k as int, rule),
        decreases edges.len() - k,
    {
        proof {
            lemma_flatten_step(k as nat, rule);
            assert(edges.deep_view()[k as int] == edges@[k as int]@);
        }
        let conn = &edges[k];
        if !names_node(nodes, &conn.source_node) {
            let message = crate::text::join2(
                "Connection references non-existent source node: ",
                conn.source_node.as_str(),
            );
            push_issue(out, ValidationSeverity::Error, message, Some(conn.source_node.clone()));
        }
        if !names_node(nodes, &conn.target_node) {
            let message = crate::text::join2(
                "Connection references non-existent target node: ",
                conn.target_node.as_str(),
            );
            push_issue(out, ValidationSeverity::Error, message, Some(conn.target_node.clone()));
        }
        k += 1;
        assert(out.deep_view() =~= base + gather(k as int, rule));
    }
}

fn check_orphans(nodes: &Vec<Node>, edges: &Vec<Connection>, out: &mut Vec<ValidationIssue>)
    ensures
        final(out).deep_view() == old(out).deep_view() + gather(
            nodes@.len() as int,
            orphan_rule(nodes@, edges.deep_view()),
        ),
{
    let ghost base = out.deep_view();
    let ghost rule = orphan_rule(nodes@, edges.deep_view());
    proof {
        lemma_flatten_step(0, rule);
        assert(out.deep_view() =~= base + gather(0, rule));
    }
    let mut i: usize = 0;
    while i < nodes.len()
        invariant
            i <= nodes.len(),
            rule == orphan_rule(nodes@, edges.deep_view()),
            out.deep_view() == base + gather(i as int, rule),
        decreases nodes.len() - i,
    {
        proof {
            lemma_flatten_step(i as nat, rule);
        }
        let node = &nodes[i];
        if !node.is_trigger() && !touched(edges, &node.name) {
            let message = crate::text::join3(
                "Node '",
                node.name.as_str(),
                "' is not connected to any other node",
            );
            push_issue(out, ValidationSeverity::Warning, message, Some(node.name.clone()));
        }
        i += 1;
        assert(out.deep_view() =~= base + gather(i as int, rule));
    }
}

fn check_self_loops(edges: &Vec<Connection>, out: &mut Vec<ValidationIssue>)
    ensures
        final(out).deep_view() == old(out).deep_view() + gather(
            edges.deep_view().len() as int,
            self_loop_rule(edges.deep_view()),
        ),
{
    let ghost base = out.deep_view();
    let ghost rule = self_loop_rule(edges.deep_view());
    proof {
        lemma_flatten_step(0, rule);
        assert(out.deep_view() =~= base + gather(0, rule));
    }
    let mut k: usize = 0;
    while k < edges.len()
        invariant
            k <= edges.len(),
            rule == self_loop_rule(edges.deep_view()),
            out.deep_view() == base + gather(k as int, rule),
        decreases edges.len() - k,
    {
        proof {
            lemma_flatten_step(k as nat, rule);
            assert(edges.deep_view()[k as int] == edges@[k as int]@);
        }
        let conn = &edges[k];
        if conn.source_node == conn.target_node {
            let message = crate::text::join3(
                "Node '",
                conn.source_node.as_str(),
                "' has a self-loop connection",
            );
            push_issue(out, ValidationSeverity::Warning, message, Some(conn.source_node.clone()));
        }
        k += 1;
        assert(out.deep_view() =~= base + gather(k as int, rule));
    }
}

fn check_blank_names(nodes: &Vec<Node>, out: &mut Vec<ValidationIssue>)
    ensures
        final(out).deep_view() == old(out).deep_view() + gather(
            nodes@.len() as int,
            blank_name_rule(nodes@),
        ),
{
    let ghost base = out.deep_view();
    let ghost rule = blank_name_rule(nodes@);
    proof {
        lemma_flatten_step(0, rule);
        assert(out.deep_view() =~= base + gather(0, rule));
    }
    let mut i: usize = 0;
    while i < nodes.len()
        invariant
            i <= nodes.len(),
            rule == blank_name_rule(nodes@),
            out.deep_view() == base + gather(i as int, rule),
        decreases nodes.len() - i,
    {
        proof {
            lemma_flatten_step(i as nat, rule);
        }
        if is_blank_str(nodes[i].name.as_str()) {
            push_issue(
                out,
                ValidationSeverity::Error,
                "Node has empty name".to_owned(),
                Some(nodes[i].id.clone()),
            );
        }
        i += 1;
        assert(out.deep_view() =~= base + gather(i as int, rule));
    }
}

/// Checks a workflow against every rule and lists what it finds, in the
/// order of the rules. Nothing is changed and nothing can fail.
pub fn validate_workflow(workflow: &TypedWorkflow) -> (r: ValidationResult)
    ensures
        r@ == issues_of(workflow.name@, workflow.nodes@, index_edges(workflow.connections@)),
{
    let mut issues: Vec<ValidationIssue> = Vec::new();
    assert(issues.deep_view() =~= Seq::<IssueView>::empty());
    if workflow.nodes.len() == 0 {
        push_issue(
            &mut issues,
            ValidationSeverity::Warning,
            "Workflow has no nodes".to_owned(),
            None,
        );
        assert(issues.deep_view() =~= seq![general_warning("Workflow has no nodes"@)]);
        return ValidationResult { issues };
    }
    check_duplicate_ids(&workflow.nodes, &mut issues);
    check_duplicate_names(&workflow.nodes, &mut issues);
    if !workflow.has_trigger() {
        push_issue(
            &mut issues,
            ValidationSeverity::Warning,
            "No trigger node found. Workflow can only be executed manually.".to_owned(),
            None,
        );
    }
    let ghost after_trigger = issues.deep_view();
    assert(after_trigger =~= gather(
        workflow.nodes@.len() as int,
        duplicate_id_rule(workflow.nodes@),
    ) + gather(workflow.nodes@.len() as int, duplicate_name_rule(workflow.nodes@))
        + trigger_issues(workflow.nodes@));
    let edges = workflow.connections_flat();
    check_dangling(&workflow.nodes, &edges, &mut issues);
    check_orphans(&workflow.nodes, &edges, &mut issues);
    check_self_loops(&edges, &mut issues);
    check_blank_names(&workflow.nodes, &mut issues);
    if is_blank_str(workflow.name.as_str()) {
        push_issue(
            &mut issues,
            ValidationSeverity::Error,
            "Workflow has empty name".to_owned(),
            None,
        );
    }
    assert(issues.deep_view() =~= issues_of(
        workflow.name@,
        workflow.nodes@,
        index_edges(workflow.connections@),
    ));
    ValidationResult { issues }
}

/// The issues of error severity.
pub open spec fn is_error() -> spec_fn(IssueView) -> bool {
    |i: IssueView| i.severity == ValidationSeverity::Error
}

/// The issues of warning severity.
pub open spec fn is_warning() -> spec_fn(IssueView) -> bool {
    |i: IssueView| i.severity == ValidationSeverity::Warning
}

/// The issues that a report shows: errors always, warnings on request.
pub open spec fn is_shown(include_warnings: bool) -> spec_fn(IssueView) -> bool {
    |i: IssueView| include_warnings || i.severity == ValidationSeverity::Error
}

/// The severity as a report writes it.
pub open spec fn severity_label(severity: ValidationSeverity) -> Seq<char> {
    match severity {
        ValidationSeverity::Error => "ERROR"@,
        ValidationSeverity::Warning => "WARNING"@,
    }
}

/// One line of a report: the severity, directly behind it the node in
/// square brackets where the issue is about one, a colon and the message.
pub open spec fn issue_line(issue: IssueView) -> Seq<char> {
    severity_label(issue.severity) + (match issue.node {
        Some(n) => "["@ + n + "]"@,
        None => Seq::empty(),
    }) + ": "@ + issue.message
}

/// The lines of a report, one per issue shown.
pub open spec fn report_lines(issues: Seq<IssueView>, include_warnings: bool) -> Seq<Seq<char>> {
    let shown = issues.filter(is_shown(include_warnings));
    Seq::new(shown.len(), |k: int| issue_line(shown[k]))
}

/// The report of a list of issues, one line per issue shown.
pub open spec fn report_of(issues: Seq<IssueView>, include_warnings: bool) -> Seq<char> {
    joined(report_lines(issues, include_warnings), "\n"@)
}

/// The issues of `all` that satisfy `wanted`, by reference and in order.
fn select<'a>(
    all: &'a Vec<ValidationIssue>,
    severity: ValidationSeverity,
    Ghost(wanted): Ghost<spec_fn(IssueView) -> bool>,
) -> (r: Vec<&'a ValidationIssue>)
    requires
        forall|i: IssueView| #[trigger] wanted(i) == (i.severity == severity),
    ensures
        r.deep_view() == all.deep_view().filter(wanted),
{
    let ghost views = all.deep_view();
    let mut found: Vec<&ValidationIssue> = Vec::new();
    proof {
        views.subrange(0, 0).lemma_filter_len(wanted);
        assert(found.deep_view() =~= views.subrange(0, 0).filter(wanted));
    }
    let mut i: usize = 0;
    while i < all.len()
        invariant
            i <= all.len(),
            views == all.deep_view(),
            forall|x: IssueView| #[trigger] wanted(x) == (x.severity == severity),
            found.deep_view() == views.subrange(0, i as int).filter(wanted),
        decreases all.len() - i,
    {
        let ghost prev = found.deep_view();
        proof {
            views.subrange(0, i as int).lemma_filter_push(views[i as int], wanted);
            assert(views.subrange(0, i + 1) =~= views.subrange(0, i as int).push(views[i as int]));
            assert(views[i as int] == all@[i as int].deep_view());
        }
        if all[i].severity == severity {
            found.push(&all[i]);
            assert(found.deep_view() =~= prev.push(views[i as int]));
        }
        i += 1;
    }
    assert(views.subrange(0, i as int) =~= views);
    found
}

impl ValidationResult {
    /// Whether the workflow may be used: no issue is an error. Warnings do
    /// not count.
    pub fn is_valid(&self) -> (r: bool)
        ensures
            r == !has_error(self@),
    {
        let mut i: usize = 0;
        while i < self.issues.len()
            invariant
                i <= self.issues.len(),
                forall|k: int| 0 <= k < i ==> (#[trigger] self@[k]).severity != ValidationSeverity::Error,
            decreases self.issues.len() - i,
        {
            assert(self@[i as int] == self.issues@[i as int].deep_view());
            if self.issues[i].severity == ValidationSeverity::Error {
                return false;
            }
            i += 1;
        }
        true
    }

    /// The errors, in the order found.
    pub fn errors(&self) -> (r: Vec<&ValidationIssue>)
        ensures
            r.deep_view() == self@.filter(is_error()),
    {
        select(&self.issues, ValidationSeverity::Error, Ghost(is_error()))
    }

    /// The warnings, in the order found.
    pub fn warnings(&self) -> (r: Vec<&ValidationIssue>)
        ensures
            r.deep_view() == self@.filter(is_warning()),
    {
        select(&self.issues, ValidationSeverity::Warning, Ghost(is_warning()))
    }

    /// The issues as text, one line each. Warnings are left out unless
    /// `include_warnings` is set.
    pub fn format(&self, include_warnings: bool) -> (r: String)
        ensures
            r@ == report_of(self@, include_warnings),
    {
        let ghost views = self@;
        let ghost shows = is_shown(include_warnings);
        let mut text = String::new();
        let mut first = true;
        proof {
            views.subrange(0, 0).lemma_filter_len(shows);
            assert(report_lines(views.subrange(0, 0), include_warnings) =~= Seq::<Seq<char>>::empty());
        }
        let mut i: usize = 0;
        while i < self.issues.len()
            invariant
                i <= self.issues.len(),
                views == self@,
                shows == is_shown(include_warnings),
                first == (report_lines(views.subrange(0, i as int), include_warnings).len() == 0),
                text@ == report_of(views.subrange(0, i as int), include_warnings),
            decreases self.issues.len() - i,
        {
            let issue = &self.issues[i];
            proof {
                lemma_report_step(views, i as int, include_warnings);
                assert(views[i as int] == issue.deep_view());
            }
            if include_warnings || issue.severity == ValidationSeverity::Error {
                push_line(&mut text, issue, first);
                first = false;
            }
            i += 1;
        }
        assert(views.subrange(0, i as int) =~= views);
        text
    }
}

/// What one more issue adds to a report.
pub proof fn lemma_report_step(issues: Seq<IssueView>, i: int, include_warnings: bool)
    requires
        0 <= i < issues.len(),
    ensures
        report_lines(issues.subrange(0, i + 1), include_warnings) == if is_shown(include_warnings)(
            issues[i],
        ) {
            report_lines(issues.subrange(0, i), include_warnings).push(issue_line(issues[i]))
        } else {
            report_lines(issues.subrange(0, i), include_warnings)
        },
        report_of(issues.subrange(0, i + 1), include_warnings) == if !is_shown(include_warnings)(
            issues[i],
        ) {
            report_of(issues.subrange(0, i), include_warnings)
        } else if report_lines(issues.subrange(0, i), include_warnings).len() == 0 {
            issue_line(issues[i])
        } else {
            report_of(issues.subrange(0, i), include_warnings) + "\n"@ + issue_line(issues[i])
        },
{
    let before = issues.subrange(0, i);
    let shows = is_shown(include_warnings);
    before.lemma_filter_push(issues[i], shows);
    assert(issues.subrange(0, i + 1) =~= before.push(issues[i]));
    let lines = report_lines(before, include_warnings);
    let next = report_lines(issues.subrange(0, i + 1), include_warnings);
    if shows(issues[i]) {
        assert(next =~= lines.push(issue_line(issues[i])));
        lemma_joined_push(lines, "\n"@, issue_line(issues[i]));
    }
}

/// Appends the line of one issue, behind a line feed unless it is the
/// first line.
fn push_line(text: &mut String, issue: &ValidationIssue, first: bool)
    ensures
        final(text)@ == if first {
            old(text)@ + issue_line(issue@)
        } else {
            old(text)@ + "\n"@ + issue_line(issue@)
        },
{
    if !first {
        text.append("\n");
    }
    let ghost lead = text@;
    match issue.severity {
        ValidationSeverity::Error => text.append("ERROR"),
        ValidationSeverity::Warning => text.append("WARNING"),
    }
    match &issue.node {
        Some(n) => {
            text.append("[");
            text.append(n.as_str());
            text.append("]");
        },
        None => {},
    }
    text.append(": ");
    text.append(issue.message.as_str());
    assert(text@ =~= lead + issue_line(issue@));
}

/// A workflow of one entry point named `A`, without connections, has
/// nothing wrong with its graph: the one thing that can be reported is a
/// blank workflow name.
pub proof fn lemma_lone_trigger_is_clean(
    name: Seq<char>,
    nodes: Seq<Node>,
    edges: Seq<ConnectionView>,
)
    requires
        nodes.len() == 1,
        nodes[0].name@ == "A"@,
        is_trigger_type(nodes[0].node_type@),
        edges.len() == 0,
    ensures
        issues_of(name, nodes, edges) == workflow_name_issues(name),
        !is_blank(name) ==> !has_error(issues_of(name, nodes, edges)),
{
    reveal_strlit("A");
    assert("A"@[0] == 'A');
    assert(!crate::text::is_space('A'));
    assert(!is_blank(nodes[0].name@));
    assert(any_trigger(nodes));
    lemma_flatten_step(0, duplicate_id_rule(nodes));
    lemma_flatten_step(0, duplicate_name_rule(nodes));
    lemma_flatten_step(0, dangling_rule(nodes, edges));
    lemma_flatten_step(0, orphan_rule(nodes, edges));
    lemma_flatten_step(0, self_loop_rule(edges));
    lemma_flatten_step(0, blank_name_rule(nodes));
    assert(issues_of(name, nodes, edges) =~= workflow_name_issues(name));
}

} // verus!
