//! Decisions of the realtime `node.input` command: which frames are refused
//! and with what issue, what the applied inputs come to, and the id of the
//! control event that reports them. Connections, caches and JSON framing
//! stay with the server that runs the command.
use vstd::prelude::*;
use crate::control_state::{
    EmissionView, ResponseView, RuntimeControlEmission, RuntimeControlEventRequest,
    RuntimeControlEventResponse, emission_views,
};
use crate::control_table::{ControlEntry, ControlTable, entries_map, entry_keys, lemma_entries_map_at};
use crate::control_value::ControlValueView;
use crate::text::{concat2, decimal, decimal_string, owned, trim, trim_str};

verus! {

/// Why a frame was refused: the issue's code and message.
#[derive(Debug, Clone, PartialEq, Eq)]
pub struct NodeInputRejection {
    pub code: String,
    pub message: String,
}

/// One input of a `node.input` command, applied: the request as applied, the
/// response, and the values it changed.
#[derive(Debug)]
pub struct AppliedNodeInput {
    pub request: RuntimeControlEventRequest,
    pub response: RuntimeControlEventResponse,
    pub changed_values: ControlTable,
}

/// What the applied inputs of a command come to.
#[derive(Debug)]
pub struct NodeInputSummary {
    /// Whether every input was accepted.
    pub accepted: bool,
    /// Whether some input changed the control state.
    pub changed: bool,
    /// The control revision of the last input that reports one.
    pub control_revision: Option<u64>,
    /// The emissions of all inputs, in order.
    pub events: Vec<RuntimeControlEmission>,
    /// The changed values of all inputs; a later input's value wins.
    pub values: ControlTable,
    /// Whether a control event is to be broadcast: some emission or some
    /// changed value.
    pub emits_event: bool,
}

pub open spec fn rejection(code: Seq<char>, message: Seq<char>) -> (Seq<char>, Seq<char>) {
    (code, message)
}

pub open spec fn opt_seq(o: Option<String>) -> Option<Seq<char>> {
    match o {
        Some(s) => Some(s@),
        None => None,
    }
}

/// The refusal of a frame for its command id and idempotency key: a command
/// id is required and must not be blank, then an idempotency key.
pub open spec fn command_check_spec(command_id: Option<Seq<char>>, idempotency_key: Option<Seq<char>>) -> Option<(Seq<char>, Seq<char>)> {
    if command_id is None || trim(command_id.unwrap()).len() == 0 {
        Some(rejection("realtime.command.command-id-required"@, "node.input requires commandId"@))
    } else if idempotency_key is None {
        Some(rejection("realtime.command.idempotency-key-required"@, "node.input requires idempotencyKey"@))
    } else {
        None
    }
}

/// Checks that a `node.input` frame names its command and idempotency key.
pub fn check_node_input_command(command_id: &Option<String>, idempotency_key: &Option<String>) -> (r: Result<(), NodeInputRejection>)
    ensures
        match r {
            Ok(_) => command_check_spec(opt_seq(*command_id), opt_seq(*idempotency_key)) is None,
            Err(e) => command_check_spec(opt_seq(*command_id), opt_seq(*idempotency_key)) == Some((e.code@, e.message@)),
        },
{
    let blank = match command_id {
        Some(c) => trim_str(c.as_str()).unicode_len() == 0,
        None => true,
    };
    if blank {
        return Err(NodeInputRejection {
            code: owned("realtime.command.command-id-required"),
            message: owned("node.input requires commandId"),
        });
    }
    if idempotency_key.is_none() {
        return Err(NodeInputRejection {
            code: owned("realtime.command.idempotency-key-required"),
            message: owned("node.input requires idempotencyKey"),
        });
    }
    Ok(())
}

/// The refusal of a payload that does not parse, with the parser's message.
pub fn invalid_node_input_payload(error: &str) -> (r: NodeInputRejection)
    ensures
        r.code@ == "realtime.node-input.invalid-payload"@,
        r.message@ == "invalid node.input payload: "@ + error@,
{
    NodeInputRejection { code: owned("realtime.node-input.invalid-payload"), message: concat2("invalid node.input payload: ", error) }
}

/// A payload must carry at least one input.
pub fn check_node_input_count(count: usize) -> (r: Result<(), NodeInputRejection>)
    ensures
        match r {
            Ok(_) => count > 0,
            Err(e) => count == 0 && e.code@ == "realtime.node-input.inputs-required"@
                && e.message@ == "node.input payload inputs must not be empty"@,
        },
{
    if count == 0 {
        return Err(NodeInputRejection {
            code: owned("realtime.node-input.inputs-required"),
            message: owned("node.input payload inputs must not be empty"),
        });
    }
    Ok(())
}

// ---------------------------------------------------------------------------
// What a frame comes to, and its ack.
// ---------------------------------------------------------------------------

/// What a `node.input` frame comes to before any input is applied.
#[derive(Debug, Clone, PartialEq, Eq)]
pub enum NodeInputAction {
    /// Refuse the frame with this issue.
    Reject(NodeInputRejection),
    /// The command was answered before under its idempotency key: answer
    /// with that ack again (see `replayed_ack`), send the events it emitted
    /// to the sender alone, broadcast nothing and apply nothing.
    ReplayCached,
    /// Apply the payload's inputs, answer with `node_input_ack`, remember
    /// the ack under the idempotency key, and broadcast the control event
    /// when the inputs' summary says one is emitted.
    Apply,
}

/// The view of an action.
pub enum NodeInputActionView {
    Reject(Seq<char>, Seq<char>),
    ReplayCached,
    Apply,
}

impl View for NodeInputAction {
    type V = NodeInputActionView;

    open spec fn view(&self) -> NodeInputActionView {
        match self {
            NodeInputAction::Reject(e) => NodeInputActionView::Reject(e.code@, e.message@),
            NodeInputAction::ReplayCached => NodeInputActionView::ReplayCached,
            NodeInputAction::Apply => NodeInputActionView::Apply,
        }
    }
}

/// The payload as the server read it: the number of inputs, or the parser's
/// message.
pub open spec fn payload_view(payload: Result<usize, String>) -> Result<nat, Seq<char>> {
    match payload {
        Ok(n) => Ok(n as nat),
        Err(e) => Err(e@),
    }
}

/// What a frame comes to: the command id and idempotency key are checked
/// first; then a command already answered under that key is replayed, before
/// its payload is looked at; then a payload that does not parse, or that
/// carries no input, is refused; else the inputs are applied.
pub open spec fn node_input_action_spec(
    command_id: Option<Seq<char>>,
    idempotency_key: Option<Seq<char>>,
    cached: bool,
    payload: Result<nat, Seq<char>>,
) -> NodeInputActionView {
    match command_check_spec(command_id, idempotency_key) {
        Some((code, message)) => NodeInputActionView::Reject(code, message),
        None => if cached {
            NodeInputActionView::ReplayCached
        } else {
            match payload {
                Err(e) => NodeInputActionView::Reject("realtime.node-input.invalid-payload"@, "invalid node.input payload: "@ + e),
                Ok(n) => if n == 0 {
                    NodeInputActionView::Reject("realtime.node-input.inputs-required"@, "node.input payload inputs must not be empty"@)
                } else {
                    NodeInputActionView::Apply
                },
            }
        },
    }
}

/// Decides what a `node.input` frame comes to. `cached` tells whether a
/// result is remembered under the frame's idempotency key; `payload` is the
/// number of inputs the payload carries, or the parser's message. The
/// payload is consulted only when nothing is remembered.
pub fn decide_node_input(
    command_id: &Option<String>,
    idempotency_key: &Option<String>,
    cached: bool,
    payload: &Result<usize, String>,
) -> (r: NodeInputAction)
    ensures
        r@ == node_input_action_spec(opt_seq(*command_id), opt_seq(*idempotency_key), cached, payload_view(*payload)),
{
    match check_node_input_command(command_id, idempotency_key) {
        Err(e) => NodeInputAction::Reject(e),
        Ok(_) => {
            if cached {
                return NodeInputAction::ReplayCached;
            }
            match payload {
                Err(message) => NodeInputAction::Reject(invalid_node_input_payload(message.as_str())),
                Ok(n) => match check_node_input_count(*n) {
                    Err(e) => NodeInputAction::Reject(e),
                    Ok(_) => NodeInputAction::Apply,
                },
            }
        },
    }
}

/// The ack of a `node.input` command, as far as the command decides it.
#[derive(Debug, Clone, PartialEq, Eq)]
pub struct NodeInputAck {
    /// `accepted` or `rejected`.
    pub status: String,
    /// Whether every input was accepted.
    pub accepted: bool,
    /// Inputs do not apply a graph change.
    pub applied: bool,
    /// Inputs never conflict.
    pub conflict: bool,
    /// Whether the ack is a replay of a remembered one.
    pub cached: bool,
    /// The frame's command id, else its message id.
    pub command_id: String,
    /// The frame's correlation id, else its message id.
    pub correlation_id: String,
    /// The frame's idempotency key.
    pub idempotency_key: Option<String>,
    /// The cursor of the command's event.
    pub event_cursor: String,
}

/// An id of the frame, else its message id.
pub open spec fn or_message_id(id: Option<Seq<char>>, message_id: Seq<char>) -> Seq<char> {
    match id {
        Some(i) => i,
        None => message_id,
    }
}

fn id_or_message_id(id: &Option<String>, message_id: &str) -> (r: String)
    ensures
        r@ == or_message_id(opt_seq(*id), message_id@),
{
    match id {
        Some(i) => i.clone(),
        None => owned(message_id),
    }
}

/// The ack of an applied command: accepted when every input was.
pub fn node_input_ack(
    accepted: bool,
    message_id: &str,
    command_id: &Option<String>,
    correlation_id: &Option<String>,
    idempotency_key: &Option<String>,
    event_cursor: &str,
) -> (r: NodeInputAck)
    ensures
        r.status@ == (if accepted { "accepted"@ } else { "rejected"@ }),
        r.accepted == accepted,
        !r.applied,
        !r.conflict,
        !r.cached,
        r.command_id@ == or_message_id(opt_seq(*command_id), message_id@),
        r.correlation_id@ == or_message_id(opt_seq(*correlation_id), message_id@),
        opt_seq(r.idempotency_key) == opt_seq(*idempotency_key),
        r.event_cursor@ == event_cursor@,
{
    NodeInputAck {
        status: if accepted { owned("accepted") } else { owned("rejected") },
        accepted,
        applied: false,
        conflict: false,
        cached: false,
        command_id: id_or_message_id(command_id, message_id),
        correlation_id: id_or_message_id(correlation_id, message_id),
        idempotency_key: match idempotency_key {
            Some(k) => Some(k.clone()),
            None => None,
        },
        event_cursor: owned(event_cursor),
    }
}

/// A remembered ack, answered again: marked cached, with the cursor of the
/// remembered event; all else as remembered.
pub fn replayed_ack(ack: NodeInputAck, event_cursor: String) -> (r: NodeInputAck)
    ensures
        r.cached,
        r.event_cursor == event_cursor,
        r.status == ack.status,
        r.accepted == ack.accepted,
        r.applied == ack.applied,
        r.conflict == ack.conflict,
        r.command_id == ack.command_id,
        r.correlation_id == ack.correlation_id,
        r.idempotency_key == ack.idempotency_key,
{
    NodeInputAck { cached: true, event_cursor, ..ack }
}

// ---------------------------------------------------------------------------
// Summary of the applied inputs.
// ---------------------------------------------------------------------------

pub open spec fn responses_of(a: Seq<AppliedNodeInput>) -> Seq<ResponseView> {
    a.map_values(|x: AppliedNodeInput| x.response@)
}

/// The control revision of the last response that reports one.
pub open spec fn last_revision(r: Seq<ResponseView>) -> Option<u64>
    decreases r.len(),
{
    if r.len() == 0 {
        None
    } else if r.last().control_revision is Some {
        r.last().control_revision
    } else {
        last_revision(r.drop_last())
    }
}

/// The emissions of all responses, in order.
pub open spec fn all_events(r: Seq<ResponseView>) -> Seq<EmissionView>
    decreases r.len(),
{
    if r.len() == 0 {
        Seq::empty()
    } else {
        all_events(r.drop_last()) + r.last().emitted
    }
}

/// The changed values of all inputs; a later input's value wins.
pub open spec fn merged_values(a: Seq<AppliedNodeInput>) -> Map<Seq<char>, ControlValueView>
    decreases a.len(),
{
    if a.len() == 0 {
        Map::empty()
    } else {
        merged_values(a.drop_last()).union_prefer_right(a.last().changed_values@)
    }
}

proof fn lemma_entries_prefix(e: Seq<ControlEntry>, j: int)
    requires
        entry_keys(e).no_duplicates(),
        0 <= j < e.len(),
    ensures
        entries_map(e.subrange(0, j + 1)) =~= entries_map(e.subrange(0, j)).insert(e[j].key@, e[j].value@),
        entry_keys(e.subrange(0, j + 1)).no_duplicates(),
{
    let p = e.subrange(0, j);
    let q = e.subrange(0, j + 1);
    assert(entry_keys(q) =~= entry_keys(e).subrange(0, j + 1));
    assert(entry_keys(p) =~= entry_keys(e).subrange(0, j));
    assert forall|k: Seq<char>| entries_map(q).contains_key(k) <==> entries_map(p).insert(e[j].key@, e[j].value@).contains_key(k) by {
        if entry_keys(p).contains(k) {
            let i = choose|i: int| 0 <= i < entry_keys(p).len() && entry_keys(p)[i] == k;
            assert(entry_keys(q)[i] == k);
        }
        if entry_keys(q).contains(k) && k != e[j].key@ {
            let i = choose|i: int| 0 <= i < entry_keys(q).len() && entry_keys(q)[i] == k;
            assert(i < j);
            assert(entry_keys(p)[i] == k);
        }
        if k == e[j].key@ {
            assert(entry_keys(q)[j] == k);
        }
    }
    assert forall|k: Seq<char>| entries_map(q).contains_key(k) implies entries_map(q)[k] == entries_map(p).insert(e[j].key@, e[j].value@)[k] by {
        if k == e[j].key@ {
            lemma_entries_map_at(q, j);
        } else {
            let i = choose|i: int| 0 <= i < entry_keys(q).len() && entry_keys(q)[i] == k;
            assert(i < j);
            lemma_entries_map_at(q, i);
            lemma_entries_map_at(p, i);
        }
    }
}

/// What the applied inputs come to.
pub fn summarize_node_inputs(applied: &Vec<AppliedNodeInput>) -> (r: NodeInputSummary)
    ensures
        r.accepted == forall|i: int| 0 <= i < applied@.len() ==> #[trigger] applied@[i].response.ok,
        r.changed == exists|i: int| 0 <= i < applied@.len() && #[trigger] applied@[i].response.changed,
        r.control_revision == last_revision(responses_of(applied@)),
        emission_views(r.events@) == all_events(responses_of(applied@)),
        r.values@ == merged_values(applied@),
        r.emits_event == (r.events@.len() > 0 || r.values@ != Map::<Seq<char>, ControlValueView>::empty()),
{
    let ghost rs = responses_of(applied@);
    let mut accepted = true;
    let mut changed = false;
    let mut control_revision: Option<u64> = None;
    let mut events: Vec<RuntimeControlEmission> = Vec::new();
    let mut values = ControlTable::new();
    let mut i: usize = 0;
    while i < applied.len()
        invariant
            rs == responses_of(applied@),
            i <= applied@.len(),
            accepted == forall|k: int| 0 <= k < i ==> #[trigger] applied@[k].response.ok,
            changed == exists|k: int| 0 <= k < i && #[trigger] applied@[k].response.changed,
            control_revision == last_revision(rs.subrange(0, i as int)),
            emission_views(events@) == all_events(rs.subrange(0, i as int)),
            values@ == merged_values(applied@.subrange(0, i as int)),
        decreases applied.len() - i,
    {
        let input = &applied[i];
        proof {
            assert(rs.subrange(0, i + 1).drop_last() =~= rs.subrange(0, i as int));
            assert(rs.subrange(0, i + 1).last() == input.response@);
            assert(applied@.subrange(0, i + 1).drop_last() =~= applied@.subrange(0, i as int));
            assert(applied@.subrange(0, i + 1).last() == applied@[i as int]);
        }
        if !input.response.ok {
            accepted = false;
        }
        if input.response.changed {
            changed = true;
        }
        if input.response.control_revision.is_some() {
            control_revision = input.response.control_revision;
        }
        let emitted = &input.response.emitted;
        let ghost ev0 = emission_views(events@);
        let mut j: usize = 0;
        while j < emitted.len()
            invariant
                i < applied@.len(),
                emitted@ == applied@[i as int].response.emitted@,
                j <= emitted@.len(),
                emission_views(events@) == ev0 + emission_views(emitted@).subrange(0, j as int),
            decreases emitted.len() - j,
        {
            let ghost before = events@;
            events.push(emitted[j].duplicate());
            proof {
                assert(emission_views(events@) =~= emission_views(before).push(emitted@[j as int]@));
                assert(emission_views(emitted@).subrange(0, j + 1) =~= emission_views(emitted@).subrange(0, j as int).push(emitted@[j as int]@));
            }
            j = j + 1;
        }
        proof {
            assert(emission_views(emitted@).subrange(0, emitted@.len() as int) =~= emission_views(emitted@));
        }
        let entries = input.changed_values.entries();
        let ghost m0 = values@;
        let mut j: usize = 0;
        while j < entries.len()
            invariant
                entry_keys(entries@).no_duplicates(),
                entries_map(entries@) == applied@[i as int].changed_values@,
                i < applied@.len(),
                j <= entries@.len(),
                values@ == m0.union_prefer_right(entries_map(entries@.subrange(0, j as int))),
            decreases entries.len() - j,
        {
            proof {
                lemma_entries_prefix(entries@, j as int);
            }
            values.insert(entries[j].key.clone(), entries[j].value.duplicate());
            proof {
                assert(values@ =~= m0.union_prefer_right(entries_map(entries@.subrange(0, j + 1))));
            }
            j = j + 1;
        }
        proof {
            assert(entries@.subrange(0, entries@.len() as int) =~= entries@);
        }
        i = i + 1;
    }
    proof {
        assert(rs.subrange(0, rs.len() as int) =~= rs);
        assert(applied@.subrange(0, applied@.len() as int) =~= applied@);
    }
    let emits_event = events.len() > 0 || !values.is_empty();
    NodeInputSummary { accepted, changed, control_revision, events, values, emits_event }
}

// ---------------------------------------------------------------------------
// Event ids.
// ---------------------------------------------------------------------------

/// `n` in decimal, padded with zeros to at least six digits.
pub open spec fn sequence_text(n: u64) -> Seq<char> {
    let d = decimal(n as nat);
    if d.len() < 6 {
        Seq::new((6 - d.len()) as nat, |i: int| '0') + d
    } else {
        d
    }
}

/// The id of the control event of session `session_id` at `sequence`:
/// `<session>_control_<sequence>`, the sequence padded to six digits.
pub fn control_event_message_id(session_id: &str, sequence: u64) -> (r: String)
    ensures
        r@ == session_id@ + "_control_"@ + sequence_text(sequence),
{
    let digits = decimal_string(sequence);
    let n = digits.unicode_len();
    let mut r = concat2(session_id, "_control_");
    let ghost base = r@;
    let mut k: usize = n;
    while k < 6
        invariant
            n == decimal(sequence as nat).len(),
            n <= k <= 6 || (n > 6 && k == n),
            r@ == base + Seq::new((k - n) as nat, |i: int| '0'),
        decreases 6 - k,
    {
        r.append("0");
        proof {
            reveal_strlit("0");
            assert(r@ =~= base + Seq::new((k + 1 - n) as nat, |i: int| '0'));
        }
        k = k + 1;
    }
    r.append(digits.as_str());
    proof {
        if n < 6 {
            assert(r@ =~= session_id@ + "_control_"@ + sequence_text(sequence));
        } else {
            assert(Seq::new((k - n) as nat, |i: int| '0') =~= Seq::<char>::empty());
            assert(r@ =~= session_id@ + "_control_"@ + sequence_text(sequence));
        }
    }
    r
}

/// The code an issue is reported under: its own, else the generic one.
pub fn issue_code(code: &Option<String>) -> (r: String)
    ensures
        r@ == match code {
            Some(c) => c@,
            None => "runtime.control.issue"@,
        },
{
    match code {
        Some(c) => c.clone(),
        None => owned("runtime.control.issue"),
    }
}

} // verus!
