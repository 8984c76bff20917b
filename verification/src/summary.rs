//! What a finished experiment says of its failures.
use crate::text;
use serde_json::Value;
use vstd::prelude::*;
use vstd::string::*;

verus! {

/// The failures that a datapoint is shown with.
pub const MAX_FAILURE_SAMPLES: usize = 16;

/// The characters of a failure that are shown.
pub const MAX_FAILURE_CHARS: usize = 800;

// ---------------------------------------------------------------------------------------------
// JSON
// ---------------------------------------------------------------------------------------------
/// A JSON value of a report.
#[derive(Debug)]
pub enum JsonNode {
    Null,
    Bool(bool),
    /// A number as an unsigned integer, where it is one, and as it is shown.
    Number { unsigned: Option<u64>, shown: Option<String> },
    Text(String),
    Array(Vec<JsonNode>),
    Object(Vec<JsonMember>),
}

#[derive(Debug)]
pub struct JsonMember {
    pub key: String,
    pub value: JsonNode,
}

/// A JSON value by views.
pub enum NodeTree {
    Null,
    Bool(bool),
    Number { unsigned: Option<u64>, shown: Option<Seq<char>> },
    Text(Seq<char>),
    Array(Seq<NodeTree>),
    Object(Seq<(Seq<char>, NodeTree)>),
}

impl JsonNode {
    pub open spec fn tree(self) -> NodeTree
        decreases self,
    {
        match self {
            JsonNode::Null => NodeTree::Null,
            JsonNode::Bool(b) => NodeTree::Bool(b),
            JsonNode::Number { unsigned, shown } => NodeTree::Number {
                unsigned,
                shown: text::option_view(shown),
            },
            JsonNode::Text(s) => NodeTree::Text(s@),
            JsonNode::Array(v) => NodeTree::Array(
                Seq::new(
                    v@.len(),
                    |i: int|
                        if 0 <= i < v@.len() {
                            v@[i].tree()
                        } else {
                            NodeTree::Null
                        },
                ),
            ),
            JsonNode::Object(v) => NodeTree::Object(
                Seq::new(
                    v@.len(),
                    |i: int|
                        if 0 <= i < v@.len() {
                            (v@[i].key@, v@[i].value.tree())
                        } else {
                            (Seq::empty(), NodeTree::Null)
                        },
                ),
            ),
        }
    }
}

/// `serde_json::Value`, which holds what was read from a JSON text.
#[verifier::external_type_specification]
#[verifier::external_body]
pub struct ExValue(serde_json::Value);

/// What a `serde_json::Value` holds, values within values included.
pub uninterp spec fn value_tree(value: Value) -> NodeTree;

/// What `serde_json` reads from a text: the value, or the text of the error.
pub uninterp spec fn json_text(text: Seq<char>) -> Result<NodeTree, Seq<char>>;

/// Calls `serde_json::from_str` for a `serde_json::Value`. The contract names the outcome as a
/// function of the text. It does not say which texts are JSON, nor what a given text holds.
#[verifier::external_body]
pub(crate) fn parse_json(text: &str) -> (r: Result<Value, String>)
    ensures
        match r {
            Ok(value) => json_text(text@) == Ok::<NodeTree, Seq<char>>(value_tree(value)),
            Err(m) => json_text(text@) == Err::<NodeTree, Seq<char>>(m@),
        },
{
    serde_json::from_str(text).map_err(|err| err.to_string())
}

/// Takes a `serde_json::Value` apart, one for one, down to the values within it. A number is kept
/// as what `serde_json::Number::as_u64` and `serde_json::Number::as_f64` say of it.
#[verifier::external_body]
pub(crate) fn take_apart(value: Value) -> (r: JsonNode)
    ensures
        r.tree() == value_tree(value),
{
    match value {
        Value::Null => JsonNode::Null,
        Value::Bool(b) => JsonNode::Bool(b),
        Value::Number(n) => JsonNode::Number {
            unsigned: n.as_u64(),
            shown: n.as_f64().map(|x| x.to_string()),
        },
        Value::String(s) => JsonNode::Text(s),
        Value::Array(v) => JsonNode::Array(v.into_iter().map(take_apart).collect()),
        Value::Object(m) => JsonNode::Object(
            m.into_iter().map(|(key, x)| JsonMember { key, value: take_apart(x) }).collect(),
        ),
    }
}

// ---------------------------------------------------------------------------------------------
// Reading members
// ---------------------------------------------------------------------------------------------
pub open spec fn member_from(
    members: Seq<(Seq<char>, NodeTree)>,
    key: Seq<char>,
    i: int,
) -> NodeTree
    decreases members.len() - i,
{
    if i < 0 || i >= members.len() {
        NodeTree::Null
    } else if members[i].0 == key {
        members[i].1
    } else {
        member_from(members, key, i + 1)
    }
}

/// The member of an object under a key; `null` where there is none.
pub open spec fn node_at(node: NodeTree, key: Seq<char>) -> NodeTree {
    match node {
        NodeTree::Object(members) => member_from(members, key, 0),
        _ => NodeTree::Null,
    }
}

pub open spec fn text_in(node: NodeTree) -> Option<Seq<char>> {
    match node {
        NodeTree::Text(s) => Some(s),
        _ => None,
    }
}

pub open spec fn unsigned_in(node: NodeTree) -> Option<u64> {
    match node {
        NodeTree::Number { unsigned, .. } => unsigned,
        _ => None,
    }
}

pub open spec fn shown_in(node: NodeTree) -> Option<Seq<char>> {
    match node {
        NodeTree::Number { shown, .. } => shown,
        _ => None,
    }
}

pub open spec fn items_in(node: NodeTree) -> Option<Seq<NodeTree>> {
    match node {
        NodeTree::Array(items) => Some(items),
        _ => None,
    }
}

/// The items of an array; none where it is no array.
pub open spec fn items_or_none(node: NodeTree) -> Seq<NodeTree> {
    match node {
        NodeTree::Array(items) => items,
        _ => Seq::empty(),
    }
}

/// The place of a member under a key.
fn place_of(members: &Vec<JsonMember>, key: &str) -> (r: Option<usize>)
    ensures
        match r {
            Some(i) => i < members@.len() && node_at(JsonNode::Object(*members).tree(), key@)
                == members@[i as int].value.tree(),
            None => node_at(JsonNode::Object(*members).tree(), key@) is Null,
        },
{
    let ghost views = JsonNode::Object(*members).tree()->Object_0;
    let mut i: usize = 0;
    while i < members.len()
        invariant
            i <= members@.len(),
            views == JsonNode::Object(*members).tree()->Object_0,
            views.len() == members@.len(),
            member_from(views, key@, 0) == member_from(views, key@, i as int),
        decreases members.len() - i,
    {
        assert(views[i as int] == (members@[i as int].key@, members@[i as int].value.tree()));
        if text::same(members[i].key.as_str(), key) {
            return Some(i);
        }
        i = i + 1;
    }
    None
}

impl JsonNode {
    fn text_at(&self, key: &str) -> (r: Option<String>)
        ensures
            text::option_view(r) == text_in(node_at(self.tree(), key@)),
    {
        if let JsonNode::Object(members) = self {
            if let Some(i) = place_of(members, key) {
                return members[i].value.as_text();
            }
        }
        None
    }

    fn unsigned_at(&self, key: &str) -> (r: Option<u64>)
        ensures
            r == unsigned_in(node_at(self.tree(), key@)),
    {
        if let JsonNode::Object(members) = self {
            if let Some(i) = place_of(members, key) {
                if let JsonNode::Number { unsigned, .. } = &members[i].value {
                    return *unsigned;
                }
            }
        }
        None
    }

    fn shown_at(&self, key: &str) -> (r: Option<String>)
        ensures
            text::option_view(r) == shown_in(node_at(self.tree(), key@)),
    {
        if let JsonNode::Object(members) = self {
            if let Some(i) = place_of(members, key) {
                if let JsonNode::Number { shown, .. } = &members[i].value {
                    return text::clone_option(shown);
                }
            }
        }
        None
    }

    fn as_text(&self) -> (r: Option<String>)
        ensures
            text::option_view(r) == text_in(self.tree()),
    {
        match self {
            JsonNode::Text(s) => Some(s.clone()),
            _ => None,
        }
    }
}

// ---------------------------------------------------------------------------------------------
// What a report says of failures
// ---------------------------------------------------------------------------------------------
/// A failed task that a report names.
#[derive(Debug)]
pub struct FailureSample {
    pub index: Option<u64>,
    pub message: Option<String>,
}

/// What a report says of one datapoint.
#[derive(Debug)]
pub struct PointFigures {
    pub datapoint_index: Option<u64>,
    pub resource_id: Option<String>,
    pub target_ops: Option<String>,
    pub failed_tasks: Option<u64>,
    pub failures: Vec<FailureSample>,
    pub failure_messages: Vec<Option<String>>,
}

/// What the report of an experiment says of failures.
#[derive(Debug)]
pub struct FailureReport {
    pub run_id: Option<String>,
    pub workload: Option<String>,
    pub backend: Option<String>,
    pub points: Vec<PointFigures>,
}

#[verifier::ext_equal]
pub struct PointModel {
    pub datapoint_index: Option<u64>,
    pub resource_id: Option<Seq<char>>,
    pub target_ops: Option<Seq<char>>,
    pub failed_tasks: Option<u64>,
    pub failures: Seq<(Option<u64>, Option<Seq<char>>)>,
    pub failure_messages: Seq<Option<Seq<char>>>,
}

#[verifier::ext_equal]
pub struct ReportModel {
    pub run_id: Option<Seq<char>>,
    pub workload: Option<Seq<char>>,
    pub backend: Option<Seq<char>>,
    pub points: Seq<PointModel>,
}

pub open spec fn sample_views(samples: Seq<FailureSample>) -> Seq<(Option<u64>, Option<Seq<char>>)> {
    samples.map_values(|f: FailureSample| (f.index, text::option_view(f.message)))
}

pub open spec fn option_views(messages: Seq<Option<String>>) -> Seq<Option<Seq<char>>> {
    messages.map_values(|m: Option<String>| text::option_view(m))
}

impl PointFigures {
    pub open spec fn model(self) -> PointModel {
        PointModel {
            datapoint_index: self.datapoint_index,
            resource_id: text::option_view(self.resource_id),
            target_ops: text::option_view(self.target_ops),
            failed_tasks: self.failed_tasks,
            failures: sample_views(self.failures@),
            failure_messages: option_views(self.failure_messages@),
        }
    }
}

pub open spec fn point_models(points: Seq<PointFigures>) -> Seq<PointModel> {
    points.map_values(|p: PointFigures| p.model())
}

impl FailureReport {
    pub open spec fn model(self) -> ReportModel {
        ReportModel {
            run_id: text::option_view(self.run_id),
            workload: text::option_view(self.workload),
            backend: text::option_view(self.backend),
            points: point_models(self.points@),
        }
    }

    pub open spec fn outcome(r: Result<FailureReport, String>) -> Result<ReportModel, Seq<char>> {
        match r {
            Ok(report) => Ok(report.model()),
            Err(m) => Err(m@),
        }
    }
}

/// The failed task that a value describes.
pub open spec fn sample_of(node: NodeTree) -> (Option<u64>, Option<Seq<char>>) {
    (unsigned_in(node_at(node, "index"@)), text_in(node_at(node, "message"@)))
}

pub open spec fn samples_of(nodes: Seq<NodeTree>) -> Seq<(Option<u64>, Option<Seq<char>>)> {
    nodes.map_values(|n: NodeTree| sample_of(n))
}

pub open spec fn messages_of(nodes: Seq<NodeTree>) -> Seq<Option<Seq<char>>> {
    nodes.map_values(|n: NodeTree| text_in(n))
}

/// The datapoint that a value describes.
pub open spec fn point_of(node: NodeTree) -> PointModel {
    let paced = node_at(node, "paced"@);
    PointModel {
        datapoint_index: unsigned_in(node_at(node, "datapoint_index"@)),
        resource_id: text_in(node_at(node, "resource_id"@)),
        target_ops: shown_in(node_at(paced, "target_ops_per_s"@)),
        failed_tasks: unsigned_in(node_at(paced, "failed_tasks"@)),
        failures: samples_of(items_or_none(node_at(paced, "failures"@))),
        failure_messages: messages_of(items_or_none(node_at(paced, "failure_messages"@))),
    }
}

pub open spec fn points_of(nodes: Seq<NodeTree>) -> Seq<PointModel> {
    nodes.map_values(|n: NodeTree| point_of(n))
}

/// What the value of a report says, or what is wrong with it.
pub open spec fn report_of(node: NodeTree) -> Result<ReportModel, Seq<char>> {
    match items_in(node_at(node, "datapoints"@)) {
        None => Err("experiment result JSON missing datapoints[]"@),
        Some(nodes) => Ok(
            ReportModel {
                run_id: text_in(node_at(node, "run_id"@)),
                workload: text_in(node_at(node, "workload"@)),
                backend: text_in(node_at(node, "backend"@)),
                points: points_of(nodes),
            },
        ),
    }
}

/// What the text of a report says, or what is wrong with it.
pub open spec fn text_report(text: Seq<char>) -> Result<ReportModel, Seq<char>> {
    match json_text(text) {
        Err(e) => Err("experiment result is not valid JSON: "@ + e),
        Ok(node) => report_of(node),
    }
}

fn read_samples(nodes: &Vec<JsonNode>) -> (r: Vec<FailureSample>)
    ensures
        sample_views(r@) == samples_of(JsonNode::Array(*nodes).tree()->Array_0),
{
    let ghost trees = JsonNode::Array(*nodes).tree()->Array_0;
    let mut out: Vec<FailureSample> = Vec::new();
    let mut i: usize = 0;
    while i < nodes.len()
        invariant
            i <= nodes@.len(),
            out@.len() == i,
            forall|j: int|
                0 <= j < i ==> ((#[trigger] out@[j]).index, text::option_view(out@[j].message))
                    == sample_of(nodes@[j].tree()),
        decreases nodes.len() - i,
    {
        let index: Option<u64> = nodes[i].unsigned_at("index");
        let message = nodes[i].text_at("message");
        out.push(FailureSample { index, message });
        i = i + 1;
    }
    assert(sample_views(out@) =~= samples_of(trees));
    out
}

fn read_messages(nodes: &Vec<JsonNode>) -> (r: Vec<Option<String>>)
    ensures
        option_views(r@) == messages_of(JsonNode::Array(*nodes).tree()->Array_0),
{
    let ghost trees = JsonNode::Array(*nodes).tree()->Array_0;
    let mut out: Vec<Option<String>> = Vec::new();
    let mut i: usize = 0;
    while i < nodes.len()
        invariant
            i <= nodes@.len(),
            out@.len() == i,
            forall|j: int|
                0 <= j < i ==> text::option_view(#[trigger] out@[j]) == text_in(nodes@[j].tree()),
        decreases nodes.len() - i,
    {
        out.push(nodes[i].as_text());
        i = i + 1;
    }
    assert(option_views(out@) =~= messages_of(trees));
    out
}

impl JsonNode {
    /// The failed tasks that are listed under a key.
    fn samples_at(&self, key: &str) -> (r: Vec<FailureSample>)
        ensures
            sample_views(r@) == samples_of(items_or_none(node_at(self.tree(), key@))),
    {
        if let JsonNode::Object(members) = self {
            if let Some(i) = place_of(members, key) {
                if let JsonNode::Array(nodes) = &members[i].value {
                    return read_samples(nodes);
                }
            }
        }
        let none: Vec<FailureSample> = Vec::new();
        assert(sample_views(none@) =~= samples_of(Seq::empty()));
        none
    }

    /// The messages that are listed under a key.
    fn messages_at(&self, key: &str) -> (r: Vec<Option<String>>)
        ensures
            option_views(r@) == messages_of(items_or_none(node_at(self.tree(), key@))),
    {
        if let JsonNode::Object(members) = self {
            if let Some(i) = place_of(members, key) {
                if let JsonNode::Array(nodes) = &members[i].value {
                    return read_messages(nodes);
                }
            }
        }
        let none: Vec<Option<String>> = Vec::new();
        assert(option_views(none@) =~= messages_of(Seq::empty()));
        none
    }
}

impl PointFigures {
    /// Reads a datapoint and its paced run.
    fn of(node: &JsonNode, paced: &JsonNode) -> (r: PointFigures)
        requires
            paced.tree() == node_at(node.tree(), "paced"@),
        ensures
            r.model() == point_of(node.tree()),
    {
        PointFigures {
            datapoint_index: node.unsigned_at("datapoint_index"),
            resource_id: node.text_at("resource_id"),
            target_ops: paced.shown_at("target_ops_per_s"),
            failed_tasks: paced.unsigned_at("failed_tasks"),
            failures: paced.samples_at("failures"),
            failure_messages: paced.messages_at("failure_messages"),
        }
    }
}

fn read_point(node: &JsonNode) -> (r: PointFigures)
    ensures
        r.model() == point_of(node.tree()),
{
    if let JsonNode::Object(members) = node {
        if let Some(i) = place_of(members, "paced") {
            return PointFigures::of(node, &members[i].value);
        }
    }
    PointFigures::of(node, &JsonNode::Null)
}

fn read_points(nodes: &Vec<JsonNode>) -> (r: Vec<PointFigures>)
    ensures
        point_models(r@) == points_of(JsonNode::Array(*nodes).tree()->Array_0),
{
    let ghost trees = JsonNode::Array(*nodes).tree()->Array_0;
    let mut out: Vec<PointFigures> = Vec::new();
    let mut i: usize = 0;
    while i < nodes.len()
        invariant
            i <= nodes@.len(),
            out@.len() == i,
            forall|j: int| 0 <= j < i ==> (#[trigger] out@[j]).model() == point_of(nodes@[j].tree()),
        decreases nodes.len() - i,
    {
        out.push(read_point(&nodes[i]));
        i = i + 1;
    }
    assert(point_models(out@) =~= points_of(trees));
    out
}

impl FailureReport {
    /// Reads the value of a report.
    pub fn of(node: &JsonNode) -> (r: Result<FailureReport, String>)
        ensures
            FailureReport::outcome(r) == report_of(node.tree()),
    {
        if let JsonNode::Object(members) = node {
            if let Some(i) = place_of(members, "datapoints") {
                if let JsonNode::Array(nodes) = &members[i].value {
                    return Ok(
                        FailureReport {
                            run_id: node.text_at("run_id"),
                            workload: node.text_at("workload"),
                            backend: node.text_at("backend"),
                            points: read_points(nodes),
                        },
                    );
                }
            }
        }
        Err("experiment result JSON missing datapoints[]".to_owned())
    }

    /// Reads the text of a report.
    pub fn read(report_json: &str) -> (r: Result<FailureReport, String>)
        ensures
            FailureReport::outcome(r) == text_report(report_json@),
    {
        match parse_json(report_json) {
            Ok(value) => FailureReport::of(&take_apart(value)),
            Err(e) => Err(text::cat2("experiment result is not valid JSON: ", e.as_str())),
        }
    }
}

// ---------------------------------------------------------------------------------------------
// Lines
// ---------------------------------------------------------------------------------------------
pub open spec fn flat_char_spec(c: char) -> char {
    if c == '\n' || c == '\r' || c == '\t' {
        ' '
    } else {
        c
    }
}

/// A message on one line, cut where it is long.
pub open spec fn one_line_spec(message: Seq<char>, max_chars: nat) -> Seq<char> {
    let flat = message.map_values(|c: char| flat_char_spec(c));
    if flat.len() > max_chars {
        flat.take(max_chars as int) + "..."@
    } else {
        flat
    }
}

pub fn one_line(message: &str, max_chars: usize) -> (r: String)
    ensures
        r@ == one_line_spec(message@, max_chars as nat),
{
    let chars = text::chars_of(message);
    let ghost flat = message@.map_values(|c: char| flat_char_spec(c));
    let mut out = String::new();
    let mut i: usize = 0;
    assert(out@ =~= flat.take(0));
    while i < chars.len() && i < max_chars
        invariant
            i <= chars@.len(),
            i <= max_chars,
            chars@ == message@,
            flat == message@.map_values(|c: char| flat_char_spec(c)),
            out@ == flat.take(i as int),
        decreases chars.len() - i,
    {
        let c = chars[i];
        let c = if c == '\n' || c == '\r' || c == '\t' {
            ' '
        } else {
            c
        };
        out.push(c);
        assert(out@ =~= flat.take(i + 1));
        i = i + 1;
    }
    if i < chars.len() {
        out.append("...");
    } else {
        assert(out@ =~= flat);
    }
    out
}

/// No line shown is longer than its limit and the three dots, nor broken.
pub proof fn lemma_one_line_is_short(message: Seq<char>, max_chars: nat)
    ensures
        one_line_spec(message, max_chars).len() <= max_chars + 3,
        forall|i: int|
            0 <= i < one_line_spec(message, max_chars).len() ==> {
                let c = #[trigger] one_line_spec(message, max_chars)[i];
                c != '\n' && c != '\r' && c != '\t'
            },
{
    reveal_strlit("...");
}

pub open spec fn or_dash(value: Option<Seq<char>>) -> Seq<char> {
    match value {
        Some(v) => v,
        None => "-"@,
    }
}

fn text_or_dash(value: &Option<String>) -> (r: String)
    ensures
        r@ == or_dash(text::option_view(*value)),
{
    match value {
        Some(v) => v.clone(),
        None => "-".to_owned(),
    }
}

pub open spec fn failed_or_zero(p: PointModel) -> u64 {
    match p.failed_tasks {
        Some(n) => n,
        None => 0,
    }
}

/// Whether a datapoint has failures to show.
pub open spec fn has_failures(p: PointModel) -> bool {
    !(failed_or_zero(p) == 0 && p.failures.len() == 0 && p.failure_messages.len() == 0)
}

pub open spec fn longer(p: PointModel) -> nat {
    if p.failures.len() > p.failure_messages.len() {
        p.failures.len()
    } else {
        p.failure_messages.len()
    }
}

/// The line that introduces a datapoint.
pub open spec fn point_line(p: PointModel, index: nat) -> Seq<char> {
    "  datapoint="@ + (match p.datapoint_index {
        Some(n) => text::dec(n as nat),
        None => text::dec(index),
    }) + " resource_id="@ + or_dash(p.resource_id) + " target_ops_per_s="@ + or_dash(p.target_ops)
        + " failed_tasks="@ + text::dec(failed_or_zero(p) as nat) + " failure_samples="@
        + text::dec(longer(p))
}

pub open spec fn sample_line(s: (Option<u64>, Option<Seq<char>>)) -> Seq<char> {
    "    failure index="@ + (match s.0 {
        Some(n) => text::dec(n as nat),
        None => "-"@,
    }) + ": "@ + one_line_spec(or_dash(s.1), MAX_FAILURE_CHARS as nat)
}

pub open spec fn message_line(message: Seq<char>) -> Seq<char> {
    "    failure: "@ + one_line_spec(message, MAX_FAILURE_CHARS as nat)
}

/// The first samples of a datapoint, one line each.
pub open spec fn sample_lines(s: Seq<(Option<u64>, Option<Seq<char>>)>) -> Seq<Seq<char>> {
    s.take(text::min_int(s.len() as int, MAX_FAILURE_SAMPLES as int)).map_values(
        |x: (Option<u64>, Option<Seq<char>>)| sample_line(x),
    )
}

/// The messages among the first entries, one line each.
pub open spec fn message_lines(s: Seq<Option<Seq<char>>>) -> Seq<Seq<char>>
    decreases s.len(),
{
    if s.len() == 0 {
        Seq::empty()
    } else {
        match s.last() {
            Some(m) => message_lines(s.drop_last()).push(message_line(m)),
            None => message_lines(s.drop_last()),
        }
    }
}

pub open spec fn omitted_lines(p: PointModel) -> Seq<Seq<char>> {
    if longer(p) > MAX_FAILURE_SAMPLES {
        seq![
            "    ... omitted "@ + text::dec((longer(p) - MAX_FAILURE_SAMPLES) as nat)
                + " additional failure sample(s)"@,
        ]
    } else {
        Seq::empty()
    }
}

/// What is shown of a datapoint.
pub open spec fn point_lines(p: PointModel, index: nat) -> Seq<Seq<char>> {
    if has_failures(p) {
        seq![point_line(p, index)] + sample_lines(p.failures) + message_lines(
            p.failure_messages.take(
                text::min_int(p.failure_messages.len() as int, MAX_FAILURE_SAMPLES as int),
            ),
        ) + omitted_lines(p)
    } else {
        Seq::empty()
    }
}

/// What is shown of the first `n` datapoints.
pub open spec fn lines_of(points: Seq<PointModel>, n: nat) -> Seq<Seq<char>>
    decreases n,
{
    if n == 0 || n > points.len() {
        Seq::empty()
    } else {
        lines_of(points, (n - 1) as nat) + point_lines(points[n - 1], (n - 1) as nat)
    }
}

/// What is shown of a report: nothing where no datapoint has failures.
pub open spec fn summary_spec(r: ReportModel) -> Seq<Seq<char>> {
    let lines = lines_of(r.points, r.points.len());
    if lines.len() == 0 {
        lines
    } else {
        seq![
            "experiment failure summary run_id="@ + or_dash(r.run_id) + " workload="@ + or_dash(
                r.workload,
            ) + " backend="@ + or_dash(r.backend),
        ] + lines
    }
}

fn push_line(lines: &mut Vec<String>, line: String)
    ensures
        text::views(final(lines)@) == text::views(old(lines)@).push(line@),
{
    lines.push(line);
    assert(text::views(lines@) =~= text::views(old(lines)@).push(line@));
}

fn push_sample_lines(lines: &mut Vec<String>, failures: &Vec<FailureSample>)
    ensures
        text::views(final(lines)@) == text::views(old(lines)@) + sample_lines(
            sample_views(failures@),
        ),
{
    let ghost start = text::views(lines@);
    let ghost shown = sample_lines(sample_views(failures@));
    let mut i: usize = 0;
    assert(text::views(lines@) =~= start + shown.take(0));
    while i < failures.len() && i < MAX_FAILURE_SAMPLES
        invariant
            i <= failures@.len(),
            i <= MAX_FAILURE_SAMPLES,
            shown == sample_lines(sample_views(failures@)),
            text::views(lines@) == start + shown.take(i as int),
        decreases failures.len() - i,
    {
        let index = match failures[i].index {
            Some(n) => text::decimal(n),
            None => "-".to_owned(),
        };
        let message = text_or_dash(&failures[i].message);
        let line = text::cat4(
            "    failure index=",
            index.as_str(),
            ": ",
            one_line(message.as_str(), MAX_FAILURE_CHARS).as_str(),
        );
        assert(sample_views(failures@)[i as int] == (
            failures@[i as int].index,
            text::option_view(failures@[i as int].message),
        ));
        assert(shown[i as int] == line@);
        push_line(lines, line);
        assert(text::views(lines@) =~= start + shown.take(i + 1));
        i = i + 1;
    }
    assert(shown.take(i as int) =~= shown);
}

fn push_message_lines(lines: &mut Vec<String>, messages: &Vec<Option<String>>)
    ensures
        text::views(final(lines)@) == text::views(old(lines)@) + message_lines(
            option_views(messages@).take(
                text::min_int(messages@.len() as int, MAX_FAILURE_SAMPLES as int),
            ),
        ),
{
    let ghost start = text::views(lines@);
    let ghost all = option_views(messages@);
    let mut i: usize = 0;
    assert(all.take(0) =~= Seq::<Option<Seq<char>>>::empty());
    assert(text::views(lines@) =~= start + message_lines(all.take(0)));
    while i < messages.len() && i < MAX_FAILURE_SAMPLES
        invariant
            i <= messages@.len(),
            i <= MAX_FAILURE_SAMPLES,
            all == option_views(messages@),
            text::views(lines@) == start + message_lines(all.take(i as int)),
        decreases messages.len() - i,
    {
        assert(all.take(i + 1).drop_last() =~= all.take(i as int));
        assert(all.take(i + 1).last() == text::option_view(messages@[i as int]));
        if let Some(message) = &messages[i] {
            let line = text::cat2(
                "    failure: ",
                one_line(message.as_str(), MAX_FAILURE_CHARS).as_str(),
            );
            push_line(lines, line);
            assert(text::views(lines@) =~= start + message_lines(all.take(i as int)).push(line@));
        }
        i = i + 1;
    }
}

impl PointFigures {
    fn push_lines(&self, index: usize, lines: &mut Vec<String>)
        ensures
            text::views(final(lines)@) == text::views(old(lines)@) + point_lines(
                self.model(),
                index as nat,
            ),
    {
        let failed: u64 = match self.failed_tasks {
            Some(n) => n,
            None => 0,
        };
        assert(self.model().failures.len() == self.failures@.len());
        assert(self.model().failure_messages.len() == self.failure_messages@.len());
        let ghost start = text::views(lines@);
        if failed == 0 && self.failures.len() == 0 && self.failure_messages.len() == 0 {
            assert(start + point_lines(self.model(), index as nat) =~= start);
            return ;
        }
        let samples: usize = if self.failures.len() > self.failure_messages.len() {
            self.failures.len()
        } else {
            self.failure_messages.len()
        };
        let number = match self.datapoint_index {
            Some(n) => text::decimal(n),
            None => text::decimal(index as u64),
        };
        let head = text::cat6(
            "  datapoint=",
            number.as_str(),
            " resource_id=",
            text_or_dash(&self.resource_id).as_str(),
            " target_ops_per_s=",
            text_or_dash(&self.target_ops).as_str(),
        );
        let line = text::cat5(
            head.as_str(),
            " failed_tasks=",
            text::decimal(failed).as_str(),
            " failure_samples=",
            text::decimal(samples as u64).as_str(),
        );
        assert(line@ == point_line(self.model(), index as nat));
        push_line(lines, line);
        assert(text::views(lines@) =~= start + seq![line@]);
        push_sample_lines(lines, &self.failures);
        push_message_lines(lines, &self.failure_messages);
        let ghost before = text::views(lines@);
        if samples > MAX_FAILURE_SAMPLES {
            let omitted = text::cat3(
                "    ... omitted ",
                text::decimal((samples - MAX_FAILURE_SAMPLES) as u64).as_str(),
                " additional failure sample(s)",
            );
            push_line(lines, omitted);
        }
        assert(text::views(lines@) =~= before + omitted_lines(self.model()));
        assert(text::views(lines@) =~= start + point_lines(self.model(), index as nat));
    }
}

impl FailureReport {
    /// The failures of a report, line by line.
    pub fn summary_lines(&self) -> (r: Vec<String>)
        ensures
            text::views(r@) == summary_spec(self.model()),
    {
        let mut lines: Vec<String> = Vec::new();
        let ghost points = self.model().points;
        let mut i: usize = 0;
        assert(text::views(lines@) =~= lines_of(points, 0));
        while i < self.points.len()
            invariant
                i <= self.points@.len(),
                points == self.model().points,
                text::views(lines@) == lines_of(points, i as nat),
            decreases self.points.len() - i,
        {
            assert(points[i as int] == self.points@[i as int].model());
            self.points[i].push_lines(i, &mut lines);
            i = i + 1;
        }
        assert(lines@.len() == text::views(lines@).len());
        if lines.len() == 0 {
            return lines;
        }
        let header = text::cat6(
            "experiment failure summary run_id=",
            text_or_dash(&self.run_id).as_str(),
            " workload=",
            text_or_dash(&self.workload).as_str(),
            " backend=",
            text_or_dash(&self.backend).as_str(),
        );
        let ghost body = text::views(lines@);
        let ghost kept = lines@;
        lines.insert(0, header);
        assert(text::views(lines@) =~= seq![header@] + body);
        lines
    }
}

/// The failures of an experiment, line by line.
pub fn experiment_failure_summary(report_json: &str) -> (r: Result<Vec<String>, String>)
    ensures
        match text_report(report_json@) {
            Ok(report) => r matches Ok(lines) && text::views(lines@) == summary_spec(report),
            Err(problem) => r matches Err(m) && m@ == problem,
        },
{
    match FailureReport::read(report_json) {
        Ok(report) => Ok(report.summary_lines()),
        Err(m) => Err(m),
    }
}

/// A report without failures has no lines, and one with failures names each datapoint that has
/// them.
pub proof fn lemma_summary_is_empty_without_failures(r: ReportModel)
    ensures
        summary_spec(r).len() == 0 <==> forall|i: int|
            0 <= i < r.points.len() ==> !has_failures(#[trigger] r.points[i]),
{
    lemma_lines_empty(r.points, r.points.len());
}

proof fn lemma_lines_empty(points: Seq<PointModel>, n: nat)
    requires
        n <= points.len(),
    ensures
        lines_of(points, n).len() == 0 <==> forall|i: int|
            0 <= i < n ==> !has_failures(#[trigger] points[i]),
    decreases n,
{
    if n > 0 {
        lemma_lines_empty(points, (n - 1) as nat);
        let last = points[n - 1];
        assert(has_failures(last) ==> point_lines(last, (n - 1) as nat).len() > 0);
    }
}

// ---------------------------------------------------------------------------------------------
// What a summary of failures says
// ---------------------------------------------------------------------------------------------
/// A member of an object is the first of its name, and nothing where there is none or no object.
pub proof fn lemma_members_by_name(
    members: Seq<(Seq<char>, NodeTree)>,
    key: Seq<char>,
    i: int,
    k: int,
)
    requires
        0 <= i <= k <= members.len(),
        forall|j: int| i <= j < k ==> (#[trigger] members[j]).0 != key,
    ensures
        k == members.len() ==> member_from(members, key, i) == NodeTree::Null,
        k < members.len() && members[k].0 == key ==> member_from(members, key, i) == members[k].1,
        node_at(NodeTree::Object(members), key) == member_from(members, key, 0),
        node_at(NodeTree::Null, key) == NodeTree::Null,
    decreases k - i,
{
    if i < k {
        assert(members[i].0 != key);
        lemma_members_by_name(members, key, i + 1, k);
    }
}

/// A report is read from an object with a list under `datapoints`, and each thing in it from under its
/// own name. Without the list it is no report.
pub proof fn lemma_reports_are_read(node: NodeTree)
    ensures
        report_of(node) is Ok <==> node_at(node, "datapoints"@) is Array,
        report_of(node) is Err ==> report_of(node)->Err_0
            == "experiment result JSON missing datapoints[]"@,
        report_of(node) is Ok ==> {
            let r = report_of(node)->Ok_0;
            let nodes = node_at(node, "datapoints"@)->Array_0;
            &&& r.run_id == text_in(node_at(node, "run_id"@))
            &&& r.workload == text_in(node_at(node, "workload"@))
            &&& r.backend == text_in(node_at(node, "backend"@))
            &&& r.points.len() == nodes.len()
            &&& forall|i: int|
                0 <= i < nodes.len() ==> (#[trigger] r.points[i]).datapoint_index == unsigned_in(
                    node_at(nodes[i], "datapoint_index"@),
                )
            &&& forall|i: int|
                0 <= i < nodes.len() ==> (#[trigger] r.points[i]).resource_id == text_in(
                    node_at(nodes[i], "resource_id"@),
                )
            &&& forall|i: int|
                0 <= i < nodes.len() ==> (#[trigger] r.points[i]).target_ops == shown_in(
                    node_at(node_at(nodes[i], "paced"@), "target_ops_per_s"@),
                )
            &&& forall|i: int|
                0 <= i < nodes.len() ==> (#[trigger] r.points[i]).failed_tasks == unsigned_in(
                    node_at(node_at(nodes[i], "paced"@), "failed_tasks"@),
                )
        },
{
}

/// The failures of a point are those of its list, each with its index and its message, and its
/// messages are the texts of its other list. What is no list holds none.
pub proof fn lemma_failures_are_read(node: NodeTree)
    ensures
        ({
            let paced = node_at(node, "paced"@);
            let failures = node_at(paced, "failures"@);
            let messages = node_at(paced, "failure_messages"@);
            let p = point_of(node);
            &&& !(failures is Array) ==> p.failures.len() == 0
            &&& failures is Array ==> {
                &&& p.failures.len() == failures->Array_0.len()
                &&& forall|i: int|
                    0 <= i < p.failures.len() ==> (#[trigger] p.failures[i]).0 == unsigned_in(
                        node_at(failures->Array_0[i], "index"@),
                    ) && p.failures[i].1 == text_in(node_at(failures->Array_0[i], "message"@))
            }
            &&& !(messages is Array) ==> p.failure_messages.len() == 0
            &&& messages is Array ==> {
                &&& p.failure_messages.len() == messages->Array_0.len()
                &&& forall|i: int|
                    0 <= i < p.failure_messages.len() ==> #[trigger] p.failure_messages[i]
                        == text_in(messages->Array_0[i])
            }
        }),
        node is Text ==> text_in(node) == Some(node->Text_0),
        !(node is Text) ==> text_in(node) is None,
        node is Number ==> unsigned_in(node) == node->unsigned && shown_in(node) == node->shown,
        !(node is Number) ==> unsigned_in(node) is None && shown_in(node) is None,
{
}

/// A message on one line has a blank for each break and tab, and every other character where it stood,
/// up to the limit. Three dots stand for what is left out.
pub proof fn lemma_messages_on_one_line(message: Seq<char>, max_chars: nat)
    ensures
        message.len() <= max_chars ==> one_line_spec(message, max_chars).len() == message.len(),
        message.len() > max_chars ==> one_line_spec(message, max_chars).len() == max_chars + 3
            && one_line_spec(message, max_chars).skip(max_chars as int) == "..."@,
        forall|i: int|
            #![trigger one_line_spec(message, max_chars)[i]]
            0 <= i < message.len() && i < max_chars ==> one_line_spec(message, max_chars)[i] == (if message[i]
                == '\n' || message[i] == '\r' || message[i] == '\t' {
                ' '
            } else {
                message[i]
            }),
{
    reveal_strlit("...");
    if message.len() > max_chars {
        assert(one_line_spec(message, max_chars).skip(max_chars as int) =~= "..."@);
    }
}

/// A point without failures is passed over. One with failures has a line with its index, its resources,
/// its rate and its numbers, then a line for each of its first 16 failures, then one for each of its
/// first 16 messages, and a line that counts what is left out.
pub proof fn lemma_points_are_told(p: PointModel, index: nat)
    ensures
        ({
            let failed: u64 = if p.failed_tasks is Some {
                p.failed_tasks->0
            } else {
                0
            };
            let shown = if p.failures.len() < 16 {
                p.failures.len()
            } else {
                16
            };
            let more = if p.failures.len() > p.failure_messages.len() {
                p.failures.len()
            } else {
                p.failure_messages.len()
            };
            let lines = point_lines(p, index);
            &&& lines.len() == 0 <==> failed == 0 && p.failures.len() == 0
                && p.failure_messages.len() == 0
            &&& lines.len() > 0 ==> {
                &&& lines.len() >= 1 + shown
                &&& lines[0] == "  datapoint="@ + (if p.datapoint_index is Some {
                    text::dec(p.datapoint_index->0 as nat)
                } else {
                    text::dec(index)
                }) + " resource_id="@ + (if p.resource_id is Some {
                    p.resource_id->0
                } else {
                    "-"@
                }) + " target_ops_per_s="@ + (if p.target_ops is Some {
                    p.target_ops->0
                } else {
                    "-"@
                }) + " failed_tasks="@ + text::dec(failed as nat) + " failure_samples="@ + text::dec(
                    more,
                )
                &&& forall|i: int|
                    0 <= i < shown ==> #[trigger] lines[1 + i] == "    failure index="@ + (if p.failures[i].0 is Some {
                        text::dec(p.failures[i].0->0 as nat)
                    } else {
                        "-"@
                    }) + ": "@ + one_line_spec(
                        if p.failures[i].1 is Some {
                            p.failures[i].1->0
                        } else {
                            "-"@
                        },
                        800,
                    )
                &&& more > 16 ==> lines.last() == "    ... omitted "@ + text::dec(
                    (more - 16) as nat,
                ) + " additional failure sample(s)"@
                &&& more <= 16 ==> lines.len() == 1 + shown + message_lines(p.failure_messages).len()
            }
        }),
{
    if has_failures(p) {
        let a = seq![point_line(p, index)];
        let b = sample_lines(p.failures);
        let kept = p.failure_messages.take(
            text::min_int(p.failure_messages.len() as int, MAX_FAILURE_SAMPLES as int),
        );
        let c = message_lines(kept);
        let d = omitted_lines(p);
        let lines = a + b + c + d;
        assert(lines == point_lines(p, index));
        assert(lines[0] == a[0]);
        assert forall|i: int| 0 <= i < b.len() implies #[trigger] lines[1 + i] == sample_line(
            p.failures[i],
        ) by {
            assert(lines[1 + i] == b[i]);
        }
        if longer(p) > MAX_FAILURE_SAMPLES {
            assert(lines.last() == d[0]);
        } else {
            assert(kept =~= p.failure_messages);
        }
    }
}

/// Each message that is a text has a line of its own, in order, and what is no text has none.
pub proof fn lemma_messages_are_told(a: Seq<Option<Seq<char>>>, b: Seq<Option<Seq<char>>>, m: Seq<char>)
    ensures
        message_lines(a + b) == message_lines(a) + message_lines(b),
        message_lines(seq![Some(m)]) == seq!["    failure: "@ + one_line_spec(m, 800)],
        message_lines(seq![None::<Seq<char>>]) == Seq::<Seq<char>>::empty(),
    decreases b.len(),
{
    let none = Seq::<Option<Seq<char>>>::empty();
    assert(seq![Some(m)].drop_last() =~= none);
    assert(seq![None::<Seq<char>>].drop_last() =~= none);
    assert(message_lines(none) == Seq::<Seq<char>>::empty());
    assert(message_lines(seq![Some(m)]) =~= seq!["    failure: "@ + one_line_spec(m, 800)]);
    if b.len() == 0 {
        assert(a + b =~= a);
        assert(message_lines(a) + message_lines(b) =~= message_lines(a));
    } else {
        lemma_messages_are_told(a, b.drop_last(), m);
        assert((a + b).drop_last() =~= a + b.drop_last());
        assert(message_lines(a + b) =~= message_lines(a) + message_lines(b));
    }
}

proof fn lemma_lines_of_a_start(points: Seq<PointModel>, p: PointModel, n: nat)
    requires
        n <= points.len(),
    ensures
        lines_of(points.push(p), n) == lines_of(points, n),
    decreases n,
{
    if n > 0 {
        lemma_lines_of_a_start(points, p, (n - 1) as nat);
    }
}

/// The points are told one after the other, each under its own place in the list. The head line, which
/// names the run, the workload and the backend, stands before them just where one has failures.
pub proof fn lemma_summary_tells_every_point(r: ReportModel, p: PointModel)
    ensures
        lines_of(r.points.push(p), r.points.len() + 1) == lines_of(r.points, r.points.len())
            + point_lines(p, r.points.len()),
        ({
            let lines = lines_of(r.points, r.points.len());
            &&& summary_spec(r).len() == 0 <==> lines.len() == 0
            &&& lines.len() > 0 ==> summary_spec(r) == seq![
                "experiment failure summary run_id="@ + (if r.run_id is Some {
                    r.run_id->0
                } else {
                    "-"@
                }) + " workload="@ + (if r.workload is Some {
                    r.workload->0
                } else {
                    "-"@
                }) + " backend="@ + (if r.backend is Some {
                    r.backend->0
                } else {
                    "-"@
                }),
            ] + lines
        }),
{
    lemma_lines_of_a_start(r.points, p, r.points.len());
    assert(r.points.push(p)[r.points.len() as int] == p);
}

} // verus!
