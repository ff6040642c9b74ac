//! Object text (v0.1): the text typed into an object box, such as `+ 1`,
//! `osc~ 220` or `[p voice]`, resolved to a runtime object kind with its
//! parameters and ports, or to a diagnostic.
//!
//! Creation arguments that look like floats are read by the caller, which
//! hands over for each token what `str::parse::<f64>` gives (see
//! `TokenReading`); everything else is decided here.
use vstd::prelude::*;
use crate::contract::{F64Value, F64View, copy_f64};
use crate::text::{
    chars_of, decimal, owned, signed_decimal, signed_decimal_string, split_white_space, starts_with_str, concat2,
    str_eq, string_views, tokens, trim, trim_str,
};

verus! {

pub const CURRENT_KIND_VERSION: &'static str = "0.1.0";

/// A creation argument.
#[derive(Debug, Clone, PartialEq, Eq)]
pub enum ObjectTextAtom {
    Float(F64Value),
    Int(i64),
    Bool(bool),
    Symbol(String),
}

/// A diagnostic code and message.
#[derive(Debug, Clone, PartialEq, Eq)]
pub struct ObjectTextDiagnostic {
    pub code: String,
    pub message: String,
}

#[derive(Debug, Clone, Copy, PartialEq, Eq, Structural)]
pub enum ObjectTextPortDirection {
    Input,
    Output,
}

#[derive(Debug, Clone, Copy, PartialEq, Eq, Structural)]
pub enum ObjectTextPortRate {
    Event,
    Control,
    Audio,
}

#[derive(Debug, Clone, Copy, PartialEq, Eq, Structural)]
pub enum ObjectTextPortActivation {
    Trigger,
    Latched,
}

/// A port of a resolved object instance.
#[derive(Debug, Clone, PartialEq, Eq)]
pub struct ObjectTextPort {
    pub id: String,
    pub direction: ObjectTextPortDirection,
    pub port_type: String,
    pub rate: ObjectTextPortRate,
    pub activation: Option<ObjectTextPortActivation>,
}

/// A parameter value of a resolved object.
#[derive(Debug, Clone, PartialEq, Eq)]
pub enum ObjectTextParamValue {
    /// A float read from a creation argument.
    Float(F64Value),
    /// The float with the value of this integer (`i as f64`).
    WholeFloat(i64),
    Int(i64),
    UInt(u64),
    Text(String),
}

/// A named parameter of a resolved object.
#[derive(Debug, Clone, PartialEq, Eq)]
pub struct ObjectTextParam {
    pub key: String,
    pub value: ObjectTextParamValue,
}

/// The outcome of resolving object text.
#[derive(Debug, Clone, PartialEq, Eq)]
pub struct ObjectTextResolution {
    pub input: String,
    pub display_text: String,
    pub class_symbol: String,
    pub creation_args: Vec<ObjectTextAtom>,
    pub resolved_kind: Option<String>,
    pub resolved_kind_version: Option<String>,
    pub params: Vec<ObjectTextParam>,
    pub instance_ports: Vec<ObjectTextPort>,
    pub diagnostics: Vec<ObjectTextDiagnostic>,
}

/// What `str::parse::<f64>` gives for a token: `float` is `Some` exactly
/// when the token parses as a finite float, and then holds that float.
#[derive(Debug, Clone, PartialEq, Eq)]
pub struct TokenReading {
    pub text: String,
    pub float: Option<F64Value>,
}

pub enum AtomView {
    Float(F64View),
    Int(i64),
    Bool(bool),
    Symbol(Seq<char>),
}

pub struct DiagnosticTextView {
    pub code: Seq<char>,
    pub message: Seq<char>,
}

pub struct PortView {
    pub id: Seq<char>,
    pub direction: ObjectTextPortDirection,
    pub port_type: Seq<char>,
    pub rate: ObjectTextPortRate,
    pub activation: Option<ObjectTextPortActivation>,
}

pub enum ParamValueView {
    Float(F64View),
    WholeFloat(i64),
    Int(i64),
    UInt(u64),
    Text(Seq<char>),
}

pub struct ParamView {
    pub key: Seq<char>,
    pub value: ParamValueView,
}

pub struct ResolutionView {
    pub input: Seq<char>,
    pub display_text: Seq<char>,
    pub class_symbol: Seq<char>,
    pub creation_args: Seq<AtomView>,
    pub resolved_kind: Option<Seq<char>>,
    pub resolved_kind_version: Option<Seq<char>>,
    pub params: Seq<ParamView>,
    pub instance_ports: Seq<PortView>,
    pub diagnostics: Seq<DiagnosticTextView>,
}

impl View for ObjectTextAtom {
    type V = AtomView;

    open spec fn view(&self) -> AtomView {
        match self {
            ObjectTextAtom::Float(v) => AtomView::Float(v@),
            ObjectTextAtom::Int(v) => AtomView::Int(*v),
            ObjectTextAtom::Bool(v) => AtomView::Bool(*v),
            ObjectTextAtom::Symbol(v) => AtomView::Symbol(v@),
        }
    }
}

impl View for ObjectTextDiagnostic {
    type V = DiagnosticTextView;

    open spec fn view(&self) -> DiagnosticTextView {
        DiagnosticTextView { code: self.code@, message: self.message@ }
    }
}

impl View for ObjectTextPort {
    type V = PortView;

    open spec fn view(&self) -> PortView {
        PortView {
            id: self.id@,
            direction: self.direction,
            port_type: self.port_type@,
            rate: self.rate,
            activation: self.activation,
        }
    }
}

impl View for ObjectTextParamValue {
    type V = ParamValueView;

    open spec fn view(&self) -> ParamValueView {
        match self {
            ObjectTextParamValue::Float(v) => ParamValueView::Float(v@),
            ObjectTextParamValue::WholeFloat(v) => ParamValueView::WholeFloat(*v),
            ObjectTextParamValue::Int(v) => ParamValueView::Int(*v),
            ObjectTextParamValue::UInt(v) => ParamValueView::UInt(*v),
            ObjectTextParamValue::Text(v) => ParamValueView::Text(v@),
        }
    }
}

impl View for ObjectTextParam {
    type V = ParamView;

    open spec fn view(&self) -> ParamView {
        ParamView { key: self.key@, value: self.value@ }
    }
}

pub open spec fn atom_views(a: Seq<ObjectTextAtom>) -> Seq<AtomView> {
    a.map_values(|x: ObjectTextAtom| x@)
}

pub open spec fn port_views(p: Seq<ObjectTextPort>) -> Seq<PortView> {
    p.map_values(|x: ObjectTextPort| x@)
}

pub open spec fn param_views(p: Seq<ObjectTextParam>) -> Seq<ParamView> {
    p.map_values(|x: ObjectTextParam| x@)
}

pub open spec fn diagnostic_text_views(d: Seq<ObjectTextDiagnostic>) -> Seq<DiagnosticTextView> {
    d.map_values(|x: ObjectTextDiagnostic| x@)
}

impl View for ObjectTextResolution {
    type V = ResolutionView;

    open spec fn view(&self) -> ResolutionView {
        ResolutionView {
            input: self.input@,
            display_text: self.display_text@,
            class_symbol: self.class_symbol@,
            creation_args: atom_views(self.creation_args@),
            resolved_kind: match self.resolved_kind {
                Some(k) => Some(k@),
                None => None,
            },
            resolved_kind_version: match self.resolved_kind_version {
                Some(k) => Some(k@),
                None => None,
            },
            params: param_views(self.params@),
            instance_ports: port_views(self.instance_ports@),
            diagnostics: diagnostic_text_views(self.diagnostics@),
        }
    }
}

impl ObjectTextResolution {
    /// Whether the text resolved without diagnostics.
    pub fn ok(&self) -> (r: bool)
        ensures
            r == (self@.diagnostics.len() == 0),
    {
        self.diagnostics.len() == 0
    }
}

// ---------------------------------------------------------------------------
// Specification.
// ---------------------------------------------------------------------------

/// The text between optional brackets, trimmed; an error when only one
/// bracket is present.
pub open spec fn normalize_spec(input: Seq<char>) -> Result<Seq<char>, (Seq<char>, Seq<char>)> {
    let t = trim(input);
    let n = t.len();
    let starts = n > 0 && t[0] == '[';
    let ends = n > 0 && t[n - 1] == ']';
    if starts || ends {
        if !(starts && ends) {
            Err((t, "object text brackets must be balanced"@))
        } else {
            Ok(trim(t.subrange(1, n - 1)))
        }
    } else {
        Ok(t)
    }
}

pub open spec fn is_ascii_digit(c: char) -> bool {
    '0' <= c <= '9'
}

/// The token without one leading `+` or `-`.
pub open spec fn unsigned_part(t: Seq<char>) -> Seq<char> {
    if t.len() > 0 && (t[0] == '+' || t[0] == '-') {
        t.drop_first()
    } else {
        t
    }
}

/// An optional sign followed by one or more ASCII digits.
pub open spec fn is_integer_token_spec(t: Seq<char>) -> bool {
    let d = unsigned_part(t);
    d.len() > 0 && forall|k: int| 0 <= k < d.len() ==> is_ascii_digit(#[trigger] d[k])
}

/// A token that contains `.`, `e` or `E`.
pub open spec fn is_float_token_spec(t: Seq<char>) -> bool {
    t.contains('.') || t.contains('e') || t.contains('E')
}

/// The number that a string of decimal digits denotes.
pub open spec fn digits_value(d: Seq<char>) -> nat
    decreases d.len(),
{
    if d.len() == 0 {
        0
    } else {
        digits_value(d.drop_last()) * 10 + ((d.last() as u32) - 48) as nat
    }
}

/// The integer an integer token denotes.
pub open spec fn integer_token_value(t: Seq<char>) -> int {
    if t.len() > 0 && t[0] == '-' {
        -(digits_value(unsigned_part(t)) as int)
    } else {
        digits_value(unsigned_part(t)) as int
    }
}

/// The float reading the caller gave for token `t`.
pub open spec fn reading_of(readings: Seq<TokenReading>, t: Seq<char>) -> Option<F64View>
    decreases readings.len(),
{
    if readings.len() == 0 {
        None
    } else if readings[0].text@ == t {
        match readings[0].float {
            Some(f) => Some(f@),
            None => None,
        }
    } else {
        reading_of(readings.drop_first(), t)
    }
}

/// A creation argument token read as an atom.
pub open spec fn atom_spec(t: Seq<char>, reading: Option<F64View>) -> AtomView {
    if t == "true"@ {
        AtomView::Bool(true)
    } else if t == "false"@ {
        AtomView::Bool(false)
    } else if is_integer_token_spec(t) && i64::MIN <= integer_token_value(t) <= i64::MAX {
        AtomView::Int(integer_token_value(t) as i64)
    } else if is_float_token_spec(t) && reading is Some {
        AtomView::Float(reading.unwrap())
    } else {
        AtomView::Symbol(t)
    }
}

pub open spec fn atoms_spec(toks: Seq<Seq<char>>, readings: Seq<TokenReading>) -> Seq<AtomView> {
    toks.map_values(|t: Seq<char>| atom_spec(t, reading_of(readings, t)))
}

pub open spec fn payload_identity_spec(kind: Seq<char>) -> bool {
    ||| kind == "value"@
    ||| kind == "data"@
    ||| kind == "payload"@
    ||| kind == "bool"@
    ||| kind == "string"@
    ||| kind == "core.bool"@
    ||| kind == "core.string"@
    ||| kind == "control.message.any"@
    ||| kind == "event.bang"@
    ||| kind == "asset.video"@
    ||| kind == "asset.image"@
    ||| kind == "asset.audio"@
    ||| kind == "gpu.texture2d"@
    ||| crate::text::strip_prefix(kind, "value."@) is Some
    ||| crate::text::strip_prefix(kind, "data."@) is Some
    ||| crate::text::strip_prefix(kind, "payload."@) is Some
    ||| crate::text::strip_prefix(kind, "control."@) is Some
}

pub open spec fn unsupported_audio_spec(class: Seq<char>) -> Option<Seq<char>> {
    if class == "+~"@ || class == "-~"@ || class == "/~"@ || class == "audio.operator.add"@ || class
        == "audio.operator.sub"@ || class == "audio.operator.div"@ {
        Some("audio add/sub/div aliases are not executable in the current Runtime substrate"@)
    } else if class == "sqrt~"@ || class == "audio.operator.sqrt"@ {
        Some("audio sqrt is not executable in the current Runtime substrate"@)
    } else if class == "phasor~"@ || class == "audio.phasor"@ {
        Some("audio phasor is not executable in the current Runtime substrate"@)
    } else {
        None
    }
}

pub open spec fn control_operator_kind_spec(class: Seq<char>) -> Option<Seq<char>> {
    if class == "+"@ || class == "add"@ || class == "core.operator.add"@ {
        Some("core.operator.add"@)
    } else if class == "-"@ || class == "sub"@ || class == "core.operator.sub"@ {
        Some("core.operator.sub"@)
    } else if class == "*"@ || class == "mul"@ || class == "core.operator.mul"@ {
        Some("core.operator.mul"@)
    } else if class == "/"@ || class == "div"@ || class == "core.operator.div"@ {
        Some("core.operator.div"@)
    } else if class == "pow"@ || class == "core.operator.pow"@ {
        Some("core.operator.pow"@)
    } else if class == "min"@ || class == "core.operator.min"@ {
        Some("core.operator.min"@)
    } else if class == "max"@ || class == "core.operator.max"@ {
        Some("core.operator.max"@)
    } else if class == "sqrt"@ || class == "core.operator.sqrt"@ {
        Some("core.operator.sqrt"@)
    } else {
        None
    }
}

pub open spec fn control_value_kind_spec(class: Seq<char>) -> Option<Seq<char>> {
    if class == "f"@ || class == "float"@ || class == "number"@ || class == "core.float"@ {
        Some("core.float"@)
    } else if class == "i"@ || class == "int"@ || class == "core.int"@ {
        Some("core.int"@)
    } else if class == "u"@ || class == "uint"@ || class == "core.uint"@ {
        Some("core.uint"@)
    } else if class == "b"@ || class == "bang"@ || class == "core.bang"@ {
        Some("core.bang"@)
    } else if class == "msg"@ || class == "message"@ || class == "core.message"@ {
        Some("core.message"@)
    } else if class == "comment"@ || class == "core.comment"@ {
        Some("core.comment"@)
    } else {
        None
    }
}

pub open spec fn audio_object_kind_spec(class: Seq<char>) -> Option<Seq<char>> {
    if class == "sig~"@ || class == "audio.sig"@ {
        Some("audio.sig"@)
    } else if class == "osc~"@ || class == "audio.osc"@ {
        Some("audio.osc"@)
    } else if class == "*~"@ || class == "audio.operator.mul"@ {
        Some("audio.operator.mul"@)
    } else if class == "adc~"@ || class == "audio.input"@ {
        Some("audio.input"@)
    } else if class == "dac~"@ || class == "audio.output"@ {
        Some("audio.output"@)
    } else {
        None
    }
}

pub open spec fn in_port(id: Seq<char>, port_type: Seq<char>, rate: ObjectTextPortRate, activation: ObjectTextPortActivation) -> PortView {
    PortView { id, direction: ObjectTextPortDirection::Input, port_type, rate, activation: Some(activation) }
}

pub open spec fn out_port(id: Seq<char>, port_type: Seq<char>, rate: ObjectTextPortRate) -> PortView {
    PortView { id, direction: ObjectTextPortDirection::Output, port_type, rate, activation: None }
}

pub open spec fn stored_value_ports_spec(port_type: Seq<char>) -> Seq<PortView> {
    seq![
        in_port("in"@, "control.message.any"@, ObjectTextPortRate::Control, ObjectTextPortActivation::Trigger),
        in_port("cold"@, port_type, ObjectTextPortRate::Control, ObjectTextPortActivation::Latched),
        out_port("value"@, port_type, ObjectTextPortRate::Control),
    ]
}

pub open spec fn control_operator_ports_spec() -> Seq<PortView> {
    seq![
        in_port("in"@, "control.number.float"@, ObjectTextPortRate::Control, ObjectTextPortActivation::Trigger),
        in_port("right"@, "control.number.float"@, ObjectTextPortRate::Control, ObjectTextPortActivation::Latched),
        out_port("out"@, "control.number.float"@, ObjectTextPortRate::Control),
    ]
}

pub open spec fn control_sqrt_ports_spec() -> Seq<PortView> {
    seq![
        in_port("in"@, "control.number.float"@, ObjectTextPortRate::Control, ObjectTextPortActivation::Trigger),
        out_port("out"@, "control.number.float"@, ObjectTextPortRate::Control),
    ]
}

pub open spec fn bang_ports_spec() -> Seq<PortView> {
    seq![
        in_port("in"@, "control.message.any"@, ObjectTextPortRate::Control, ObjectTextPortActivation::Trigger),
        out_port("out"@, "event.bang"@, ObjectTextPortRate::Event),
    ]
}

pub open spec fn message_ports_spec() -> Seq<PortView> {
    seq![
        in_port("in"@, "control.message.any"@, ObjectTextPortRate::Control, ObjectTextPortActivation::Trigger),
        out_port("out"@, "control.message.any"@, ObjectTextPortRate::Control),
    ]
}

pub open spec fn comment_ports_spec() -> Seq<PortView> {
    seq![in_port("in"@, "control.message.any"@, ObjectTextPortRate::Control, ObjectTextPortActivation::Trigger)]
}

pub open spec fn audio_sig_ports_spec() -> Seq<PortView> {
    seq![
        in_port("value"@, "control.number.float"@, ObjectTextPortRate::Control, ObjectTextPortActivation::Latched),
        out_port("out"@, "signal.audio"@, ObjectTextPortRate::Audio),
    ]
}

pub open spec fn audio_osc_ports_spec() -> Seq<PortView> {
    seq![
        in_port("frequency"@, "control.number.float"@, ObjectTextPortRate::Control, ObjectTextPortActivation::Latched),
        out_port("out"@, "signal.audio"@, ObjectTextPortRate::Audio),
    ]
}

pub open spec fn audio_binary_ports_spec() -> Seq<PortView> {
    seq![
        in_port("left"@, "signal.audio"@, ObjectTextPortRate::Audio, ObjectTextPortActivation::Latched),
        in_port("right"@, "signal.audio"@, ObjectTextPortRate::Audio, ObjectTextPortActivation::Latched),
        out_port("out"@, "signal.audio"@, ObjectTextPortRate::Audio),
    ]
}

pub open spec fn audio_input_ports_spec() -> Seq<PortView> {
    seq![out_port("left"@, "signal.audio"@, ObjectTextPortRate::Audio), out_port("right"@, "signal.audio"@, ObjectTextPortRate::Audio)]
}

pub open spec fn audio_output_ports_spec() -> Seq<PortView> {
    seq![
        in_port("left"@, "signal.audio"@, ObjectTextPortRate::Audio, ObjectTextPortActivation::Latched),
        in_port("right"@, "signal.audio"@, ObjectTextPortRate::Audio, ObjectTextPortActivation::Latched),
    ]
}

pub open spec fn success_spec(
    input: Seq<char>,
    display: Seq<char>,
    class: Seq<char>,
    args: Seq<AtomView>,
    kind: Seq<char>,
    params: Seq<ParamView>,
    ports: Seq<PortView>,
) -> ResolutionView {
    ResolutionView {
        input,
        display_text: display,
        class_symbol: class,
        creation_args: args,
        resolved_kind: Some(kind),
        resolved_kind_version: Some(CURRENT_KIND_VERSION@),
        params,
        instance_ports: ports,
        diagnostics: Seq::empty(),
    }
}

pub open spec fn failure_spec(
    input: Seq<char>,
    display: Seq<char>,
    class: Seq<char>,
    args: Seq<AtomView>,
    code: Seq<char>,
    message: Seq<char>,
) -> ResolutionView {
    ResolutionView {
        input,
        display_text: display,
        class_symbol: class,
        creation_args: args,
        resolved_kind: None,
        resolved_kind_version: None,
        params: Seq::empty(),
        instance_ports: Seq::empty(),
        diagnostics: seq![DiagnosticTextView { code, message }],
    }
}

pub open spec fn one_param(key: Seq<char>, value: ParamValueView) -> Seq<ParamView> {
    seq![ParamView { key, value }]
}

/// A creation argument as a float parameter.
pub open spec fn numeric_spec(a: AtomView) -> Option<ParamValueView> {
    match a {
        AtomView::Float(f) => Some(ParamValueView::Float(f)),
        AtomView::Int(i) => Some(ParamValueView::WholeFloat(i)),
        _ => None,
    }
}

pub open spec fn integer_spec(a: AtomView) -> Option<ParamValueView> {
    match a {
        AtomView::Int(i) => Some(ParamValueView::Int(i)),
        _ => None,
    }
}

pub open spec fn unsigned_spec(a: AtomView) -> Option<ParamValueView> {
    match a {
        AtomView::Int(i) => if i >= 0 {
            Some(ParamValueView::UInt(i as u64))
        } else {
            None
        },
        _ => None,
    }
}

pub open spec fn symbol_spec(a: AtomView) -> Option<Seq<char>> {
    match a {
        AtomView::Symbol(s) => if s.len() > 0 {
            Some(s)
        } else {
            None
        },
        _ => None,
    }
}

/// `Display` text of an atom.
pub open spec fn atom_text(a: AtomView) -> Seq<char> {
    match a {
        AtomView::Float(f) => f.text,
        AtomView::Int(i) => signed_decimal(i as int),
        AtomView::Bool(b) => if b {
            "true"@
        } else {
            "false"@
        },
        AtomView::Symbol(s) => s,
    }
}

/// The texts of the atoms joined by single spaces.
pub open spec fn joined_text(args: Seq<AtomView>) -> Seq<char>
    decreases args.len(),
{
    if args.len() == 0 {
        Seq::empty()
    } else if args.len() == 1 {
        atom_text(args[0])
    } else {
        joined_text(args.drop_last()) + " "@ + atom_text(args.last())
    }
}

pub open spec fn count_code() -> Seq<char> {
    "object-text.invalid-arg-count"@
}

pub open spec fn type_code() -> Seq<char> {
    "object-text.invalid-arg-type"@
}

pub open spec fn resolve_control_operator_spec(input: Seq<char>, display: Seq<char>, class: Seq<char>, args: Seq<AtomView>, kind: Seq<char>) -> ResolutionView {
    if kind == "core.operator.sqrt"@ {
        if args.len() != 0 {
            failure_spec(input, display, class, args, count_code(), "sqrt accepts no creation arguments"@)
        } else {
            success_spec(input, display, class, args, kind, Seq::empty(), control_sqrt_ports_spec())
        }
    } else if args.len() > 1 {
        failure_spec(input, display, class, args, count_code(), class + " accepts at most one creation argument"@)
    } else if args.len() == 1 && numeric_spec(args[0]) is None {
        failure_spec(input, display, class, args, type_code(), class + " creation argument must be numeric"@)
    } else {
        let right = if args.len() == 1 { numeric_spec(args[0]).unwrap() } else { ParamValueView::WholeFloat(0) };
        success_spec(input, display, class, args, kind, one_param("right"@, right), control_operator_ports_spec())
    }
}

pub open spec fn resolve_number_value_spec(
    input: Seq<char>,
    display: Seq<char>,
    class: Seq<char>,
    args: Seq<AtomView>,
    kind: Seq<char>,
    port_type: Seq<char>,
    coerced: Option<ParamValueView>,
) -> ResolutionView {
    if args.len() > 1 {
        failure_spec(input, display, class, args, count_code(), class + " accepts at most one creation argument"@)
    } else if args.len() == 1 && coerced is None {
        failure_spec(input, display, class, args, type_code(), class + " creation argument has the wrong numeric type"@)
    } else {
        let value = if args.len() == 1 { coerced.unwrap() } else { ParamValueView::Int(0) };
        success_spec(input, display, class, args, kind, one_param("value"@, value), stored_value_ports_spec(port_type))
    }
}

pub open spec fn resolve_control_value_spec(input: Seq<char>, display: Seq<char>, class: Seq<char>, args: Seq<AtomView>, kind: Seq<char>) -> ResolutionView {
    if kind == "core.bang"@ {
        if args.len() != 0 {
            failure_spec(input, display, class, args, count_code(), class + " accepts no creation arguments"@)
        } else {
            success_spec(input, display, class, args, kind, Seq::empty(), bang_ports_spec())
        }
    } else if kind == "core.message"@ || kind == "core.comment"@ {
        success_spec(
            input,
            display,
            class,
            args,
            kind,
            one_param("text"@, ParamValueView::Text(joined_text(args))),
            if kind == "core.message"@ { message_ports_spec() } else { comment_ports_spec() },
        )
    } else if kind == "core.float"@ {
        resolve_number_value_spec(input, display, class, args, kind, "control.number.float"@,
            if args.len() == 1 { numeric_spec(args[0]) } else { None })
    } else if kind == "core.int"@ {
        resolve_number_value_spec(input, display, class, args, kind, "control.number.int"@,
            if args.len() == 1 { integer_spec(args[0]) } else { None })
    } else {
        resolve_number_value_spec(input, display, class, args, kind, "control.number.uint"@,
            if args.len() == 1 { unsigned_spec(args[0]) } else { None })
    }
}

pub open spec fn resolve_audio_number_param_spec(
    input: Seq<char>,
    display: Seq<char>,
    class: Seq<char>,
    args: Seq<AtomView>,
    kind: Seq<char>,
    key: Seq<char>,
    default_value: i64,
    ports: Seq<PortView>,
) -> ResolutionView {
    if args.len() > 1 {
        failure_spec(input, display, class, args, count_code(), class + " accepts at most one creation argument"@)
    } else if args.len() == 1 && numeric_spec(args[0]) is None {
        failure_spec(input, display, class, args, type_code(), class + " creation argument must be numeric"@)
    } else {
        let value = if args.len() == 1 { numeric_spec(args[0]).unwrap() } else { ParamValueView::WholeFloat(default_value) };
        success_spec(input, display, class, args, kind, one_param(key, value), ports)
    }
}

pub open spec fn resolve_audio_object_spec(input: Seq<char>, display: Seq<char>, class: Seq<char>, args: Seq<AtomView>, kind: Seq<char>) -> ResolutionView {
    if kind == "audio.sig"@ {
        resolve_audio_number_param_spec(input, display, class, args, kind, "value"@, 0, audio_sig_ports_spec())
    } else if kind == "audio.osc"@ {
        resolve_audio_number_param_spec(input, display, class, args, kind, "frequency"@, 440, audio_osc_ports_spec())
    } else if kind == "audio.operator.mul"@ {
        if args.len() != 0 {
            failure_spec(input, display, class, args, count_code(), "*~ accepts no creation arguments in the current Runtime audio substrate"@)
        } else {
            success_spec(input, display, class, args, kind, Seq::empty(), audio_binary_ports_spec())
        }
    } else if args.len() != 0 {
        failure_spec(input, display, class, args, count_code(), class + " accepts no creation arguments"@)
    } else {
        success_spec(input, display, class, args, kind, Seq::empty(),
            if kind == "audio.input"@ { audio_input_ports_spec() } else { audio_output_ports_spec() })
    }
}

pub open spec fn resolve_named_ref_spec(input: Seq<char>, display: Seq<char>, class: Seq<char>, args: Seq<AtomView>, kind: Seq<char>, key: Seq<char>, count_message: Seq<char>) -> ResolutionView {
    if args.len() != 1 {
        failure_spec(input, display, class, args, count_code(), count_message)
    } else if symbol_spec(args[0]) is None {
        failure_spec(input, display, class, args, type_code(), class + " reference argument must be a symbol"@)
    } else {
        success_spec(input, display, class, args, kind, one_param(key, ParamValueView::Text(symbol_spec(args[0]).unwrap())), Seq::empty())
    }
}

pub open spec fn resolve_optional_named_ref_spec(input: Seq<char>, display: Seq<char>, class: Seq<char>, args: Seq<AtomView>, kind: Seq<char>, key: Seq<char>) -> ResolutionView {
    if args.len() > 1 {
        failure_spec(input, display, class, args, count_code(), class + " accepts at most one creation argument"@)
    } else if args.len() == 1 && symbol_spec(args[0]) is None {
        failure_spec(input, display, class, args, type_code(), class + " reference argument must be a symbol"@)
    } else if args.len() == 1 {
        success_spec(input, display, class, args, kind, one_param(key, ParamValueView::Text(symbol_spec(args[0]).unwrap())), Seq::empty())
    } else {
        success_spec(input, display, class, args, kind, Seq::empty(), Seq::empty())
    }
}

/// Resolution once the class symbol and the creation arguments are known.
pub open spec fn resolve_class_spec(input: Seq<char>, display: Seq<char>, class: Seq<char>, args: Seq<AtomView>) -> ResolutionView {
    if payload_identity_spec(class) {
        failure_spec(input, display, class, args, "object-text.payload-identity"@,
            class + " is a payload identity, not an executable object"@)
    } else if unsupported_audio_spec(class) is Some {
        failure_spec(input, display, class, args, "object-text.unsupported-first-party"@, unsupported_audio_spec(class).unwrap())
    } else if control_operator_kind_spec(class) is Some {
        resolve_control_operator_spec(input, display, class, args, control_operator_kind_spec(class).unwrap())
    } else if control_value_kind_spec(class) is Some {
        resolve_control_value_spec(input, display, class, args, control_value_kind_spec(class).unwrap())
    } else if audio_object_kind_spec(class) is Some {
        resolve_audio_object_spec(input, display, class, args, audio_object_kind_spec(class).unwrap())
    } else if class == "p"@ || class == "core.subpatch"@ {
        resolve_named_ref_spec(input, display, class, args, "core.subpatch"@, "patchRef"@,
            "subpatch object text requires exactly one patch reference"@)
    } else if class == "inlet"@ || class == "core.inlet"@ {
        resolve_optional_named_ref_spec(input, display, class, args, "core.inlet"@, "portId"@)
    } else if class == "outlet"@ || class == "core.outlet"@ {
        resolve_optional_named_ref_spec(input, display, class, args, "core.outlet"@, "portId"@)
    } else {
        failure_spec(input, display, class, args, "object-text.unresolved"@,
            class + " is not available in the local Runtime object resolver"@)
    }
}

/// Object text resolved, given the callers' float readings of its tokens.
pub open spec fn resolve_spec(input: Seq<char>, readings: Seq<TokenReading>) -> ResolutionView {
    match normalize_spec(input) {
        Err((display, message)) => failure_spec(input, display, "<invalid>"@, Seq::empty(),
            "object-text.invalid-syntax"@, message),
        Ok(display) => {
            let toks = tokens(display);
            if toks.len() == 0 {
                failure_spec(input, "<empty>"@, "<empty>"@, Seq::empty(), "object-text.empty"@,
                    "object text must contain a class symbol"@)
            } else {
                resolve_class_spec(input, display, toks[0], atoms_spec(toks.drop_first(), readings))
            }
        },
    }
}

/// The tokens of the text between the brackets (none when the brackets are
/// unbalanced): the tokens whose float readings resolution needs.
pub open spec fn object_text_tokens_spec(input: Seq<char>) -> Seq<Seq<char>> {
    match normalize_spec(input) {
        Ok(display) => tokens(display),
        Err(_) => Seq::empty(),
    }
}


// ---------------------------------------------------------------------------
// Reading the text.
// ---------------------------------------------------------------------------

/// The text between optional brackets, trimmed; the trimmed text and a
/// message when only one bracket is present.
pub fn normalize_input(input: &str) -> (r: Result<String, (String, String)>)
    ensures
        match r {
            Ok(d) => normalize_spec(input@) == Ok::<Seq<char>, (Seq<char>, Seq<char>)>(d@),
            Err((d, m)) => normalize_spec(input@) == Err::<Seq<char>, (Seq<char>, Seq<char>)>(
                (d@, m@),
            ),
        },
{
    let trimmed = trim_str(input);
    let t = trimmed.as_str();
    let n = t.unicode_len();
    let starts = n > 0 && t.get_char(0) == '[';
    let ends = n > 0 && t.get_char(n - 1) == ']';
    if starts || ends {
        if !(starts && ends) {
            return Err((trimmed.clone(), owned("object text brackets must be balanced")));
        }
        let inner = t.substring_char(1, n - 1);
        return Ok(trim_str(inner));
    }
    Ok(trimmed.clone())
}

/// The whitespace-separated tokens of the display text.
pub fn tokenize(display_text: &str) -> (r: Vec<String>)
    ensures
        string_views(r@) == tokens(display_text@),
{
    split_white_space(display_text)
}

/// The tokens whose float readings resolution of `input` consults.
pub fn object_text_tokens(input: &str) -> (r: Vec<String>)
    ensures
        string_views(r@) == object_text_tokens_spec(input@),
{
    match normalize_input(input) {
        Ok(display) => tokenize(display.as_str()),
        Err(_) => Vec::new(),
    }
}

/// An optional sign followed by one or more ASCII digits.
pub fn is_integer_token(token: &str) -> (r: bool)
    ensures
        r == is_integer_token_spec(token@),
{
    let c = chars_of(token);
    let n = c.len();
    let start: usize = if n > 0 && (c[0] == '+' || c[0] == '-') {
        1
    } else {
        0
    };
    proof {
        assert(unsigned_part(token@) =~= token@.subrange(start as int, n as int));
    }
    if start >= n {
        return false;
    }
    let mut i: usize = start;
    while i < n
        invariant
            c@ == token@,
            n == c@.len(),
            start <= i <= n,
            unsigned_part(token@) == token@.subrange(start as int, n as int),
            forall|k: int| start <= k < i ==> is_ascii_digit(#[trigger] token@[k]),
        decreases n - i,
    {
        if !('0' <= c[i] && c[i] <= '9') {
            proof {
                assert(!is_ascii_digit(unsigned_part(token@)[i - start]));
            }
            return false;
        }
        i = i + 1;
    }
    proof {
        let d = unsigned_part(token@);
        assert forall|k: int| 0 <= k < d.len() implies is_ascii_digit(#[trigger] d[k]) by {
            assert(d[k] == token@[k + start]);
        }
    }
    true
}

/// A token that contains `.`, `e` or `E`.
pub fn is_float_token(token: &str) -> (r: bool)
    ensures
        r == is_float_token_spec(token@),
{
    let c = chars_of(token);
    let mut i: usize = 0;
    while i < c.len()
        invariant
            c@ == token@,
            i <= c@.len(),
            forall|k: int| 0 <= k < i ==> token@[k] != '.' && token@[k] != 'e' && token@[k] != 'E',
        decreases c.len() - i,
    {
        if c[i] == '.' || c[i] == 'e' || c[i] == 'E' {
            proof {
                if c@[i as int] == '.' {
                    assert(token@.contains('.'));
                } else if c@[i as int] == 'e' {
                    assert(token@.contains('e'));
                } else {
                    assert(token@.contains('E'));
                }
            }
            return true;
        }
        i = i + 1;
    }
    false
}

proof fn lemma_digits_value_push(d: Seq<char>, c: char)
    ensures
        digits_value(d.push(c)) == digits_value(d) * 10 + ((c as u32) - 48) as nat,
{
    assert(d.push(c).drop_last() =~= d);
}

/// The value of an integer token, when it fits in an `i64`.
pub fn integer_token_i64(token: &str) -> (r: Option<i64>)
    requires
        is_integer_token_spec(token@),
    ensures
        match r {
            Some(v) => v == integer_token_value(token@),
            None => !(i64::MIN <= integer_token_value(token@) <= i64::MAX),
        },
{
    let c = chars_of(token);
    let n = c.len();
    let negative = n > 0 && c[0] == '-';
    let start: usize = if n > 0 && (c[0] == '+' || c[0] == '-') {
        1
    } else {
        0
    };
    let ghost d = unsigned_part(token@);
    proof {
        assert(d =~= token@.subrange(start as int, n as int));
    }
    let limit: u64 = 0x8000_0000_0000_0000;
    let mut magnitude: u64 = 0;
    let mut over = false;
    let mut i: usize = start;
    while i < n
        invariant
            c@ == token@,
            n == c@.len(),
            start <= i <= n,
            limit == 0x8000_0000_0000_0000u64,
            d == token@.subrange(start as int, n as int),
            forall|k: int| 0 <= k < d.len() ==> is_ascii_digit(#[trigger] d[k]),
            !over ==> magnitude == digits_value(d.subrange(0, i - start)) && magnitude <= limit,
            over ==> digits_value(d.subrange(0, i - start)) > limit,
        decreases n - i,
    {
        let ghost prefix = d.subrange(0, i - start);
        assert(d[i - start] == c@[i as int]);
        assert(is_ascii_digit(d[i - start]));
        let cu = c[i] as u32;
        assert(48 <= cu <= 57);
        let digit: u64 = (cu - 48) as u64;
        proof {
            assert(d.subrange(0, i + 1 - start) =~= prefix.push(d[i - start]));
            lemma_digits_value_push(prefix, d[i - start]);
        }
        if !over {
            if magnitude > (limit - digit) / 10 {
                over = true;
            } else {
                magnitude = magnitude * 10 + digit;
            }
        }
        i = i + 1;
    }
    proof {
        assert(d.subrange(0, n - start) =~= d);
    }
    if over {
        return None;
    }
    if negative {
        if magnitude == limit {
            Some(i64::MIN)
        } else {
            Some(-(magnitude as i64))
        }
    } else if magnitude < limit {
        Some(magnitude as i64)
    } else {
        None
    }
}

/// The reading the caller gave for `token`, the first one whose text matches.
pub fn find_reading(readings: &Vec<TokenReading>, token: &str) -> (r: Option<F64Value>)
    ensures
        match r {
            Some(f) => reading_of(readings@, token@) == Some(f@),
            None => reading_of(readings@, token@) is None,
        },
{
    let mut i: usize = 0;
    assert(readings@.subrange(0, readings@.len() as int) =~= readings@);
    while i < readings.len()
        invariant
            i <= readings@.len(),
            reading_of(readings@, token@) == reading_of(readings@.subrange(i as int, readings@.len() as int), token@),
        decreases readings.len() - i,
    {
        let ghost rest = readings@.subrange(i as int, readings@.len() as int);
        proof {
            assert(rest.drop_first() =~= readings@.subrange(i + 1, readings@.len() as int));
            assert(rest[0] == readings@[i as int]);
        }
        if str_eq(readings[i].text.as_str(), token) {
            return match &readings[i].float {
                Some(f) => Some(copy_f64(f)),
                None => None,
            };
        }
        i = i + 1;
    }
    None
}

/// A creation-argument token read as an atom, given its float reading.
pub fn parse_atom(token: &str, reading: Option<F64Value>) -> (r: ObjectTextAtom)
    ensures
        r@ == atom_spec(
            token@,
            match reading {
                Some(f) => Some(f@),
                None => None,
            },
        ),
{
    if str_eq(token, "true") {
        return ObjectTextAtom::Bool(true);
    }
    if str_eq(token, "false") {
        return ObjectTextAtom::Bool(false);
    }
    if is_integer_token(token) {
        match integer_token_i64(token) {
            Some(v) => {
                return ObjectTextAtom::Int(v);
            },
            None => {},
        }
    }
    if is_float_token(token) {
        match reading {
            Some(f) => {
                return ObjectTextAtom::Float(f);
            },
            None => {},
        }
    }
    ObjectTextAtom::Symbol(owned(token))
}


// ---------------------------------------------------------------------------
// Creation arguments.
// ---------------------------------------------------------------------------

pub open spec fn param_value_option_view(o: Option<ObjectTextParamValue>) -> Option<ParamValueView> {
    match o {
        Some(v) => Some(v@),
        None => None,
    }
}

/// A creation argument as a float parameter value.
pub fn numeric_value(atom: &ObjectTextAtom) -> (r: Option<ObjectTextParamValue>)
    ensures
        param_value_option_view(r) == numeric_spec(atom@),
{
    match atom {
        ObjectTextAtom::Float(f) => Some(ObjectTextParamValue::Float(copy_f64(f))),
        ObjectTextAtom::Int(i) => Some(ObjectTextParamValue::WholeFloat(*i)),
        _ => None,
    }
}

/// A creation argument as an integer parameter value.
pub fn integer_value(atom: &ObjectTextAtom) -> (r: Option<ObjectTextParamValue>)
    ensures
        param_value_option_view(r) == integer_spec(atom@),
{
    match atom {
        ObjectTextAtom::Int(i) => Some(ObjectTextParamValue::Int(*i)),
        _ => None,
    }
}

/// A non-negative integer creation argument as an unsigned parameter value.
pub fn unsigned_value(atom: &ObjectTextAtom) -> (r: Option<ObjectTextParamValue>)
    ensures
        param_value_option_view(r) == unsigned_spec(atom@),
{
    match atom {
        ObjectTextAtom::Int(i) => if *i >= 0 {
            Some(ObjectTextParamValue::UInt(*i as u64))
        } else {
            None
        },
        _ => None,
    }
}

/// A non-empty symbol creation argument.
pub fn symbol_value(atom: &ObjectTextAtom) -> (r: Option<String>)
    ensures
        match r {
            Some(t) => symbol_spec(atom@) == Some(t@),
            None => symbol_spec(atom@) is None,
        },
{
    match atom {
        ObjectTextAtom::Symbol(v) => if v.unicode_len() > 0 {
            Some(v.clone())
        } else {
            None
        },
        _ => None,
    }
}

/// The `Display` text of a creation argument.
pub fn atom_display_text(atom: &ObjectTextAtom) -> (r: String)
    ensures
        r@ == atom_text(atom@),
{
    match atom {
        ObjectTextAtom::Float(f) => f.text.clone(),
        ObjectTextAtom::Int(i) => signed_decimal_string(*i),
        ObjectTextAtom::Bool(b) => if *b {
            owned("true")
        } else {
            owned("false")
        },
        ObjectTextAtom::Symbol(v) => v.clone(),
    }
}

/// The display texts of the creation arguments, joined by single spaces.
pub fn joined_display_text(args: &Vec<ObjectTextAtom>) -> (r: String)
    ensures
        r@ == joined_text(atom_views(args@)),
{
    let ghost views = atom_views(args@);
    let mut r = String::new();
    let mut i: usize = 0;
    while i < args.len()
        invariant
            views == atom_views(args@),
            i <= args@.len(),
            r@ == joined_text(views.subrange(0, i as int)),
        decreases args.len() - i,
    {
        let piece = atom_display_text(&args[i]);
        let ghost before = r@;
        proof {
            let next = views.subrange(0, i + 1);
            assert(next.drop_last() =~= views.subrange(0, i as int));
            assert(next.last() == views[i as int]);
        }
        if i > 0 {
            r.append(" ");
        }
        r.append(piece.as_str());
        proof {
            if i == 0 {
                assert(before =~= Seq::<char>::empty());
                assert(r@ =~= atom_text(views[0]));
            } else {
                assert(r@ =~= before + " "@ + atom_text(views[i as int]));
            }
        }
        i = i + 1;
    }
    proof {
        assert(views.subrange(0, args@.len() as int) =~= views);
    }
    r
}

// ---------------------------------------------------------------------------
// Ports.
// ---------------------------------------------------------------------------

fn input_port(
    id: &str,
    port_type: &str,
    rate: ObjectTextPortRate,
    activation: ObjectTextPortActivation,
) -> (r: ObjectTextPort)
    ensures
        r@ == in_port(id@, port_type@, rate, activation),
{
    ObjectTextPort {
        id: owned(id),
        direction: ObjectTextPortDirection::Input,
        port_type: owned(port_type),
        rate,
        activation: Some(activation),
    }
}

fn output_port(id: &str, port_type: &str, rate: ObjectTextPortRate) -> (r: ObjectTextPort)
    ensures
        r@ == out_port(id@, port_type@, rate),
{
    ObjectTextPort {
        id: owned(id),
        direction: ObjectTextPortDirection::Output,
        port_type: owned(port_type),
        rate,
        activation: None,
    }
}

pub fn stored_value_ports(port_type: &str) -> (r: Vec<ObjectTextPort>)
    ensures
        port_views(r@) == stored_value_ports_spec(port_type@),
{
    let a = input_port("in", "control.message.any", ObjectTextPortRate::Control, ObjectTextPortActivation::Trigger);
    let b = input_port("cold", port_type, ObjectTextPortRate::Control, ObjectTextPortActivation::Latched);
    let c = output_port("value", port_type, ObjectTextPortRate::Control);
    let r = vec![a, b, c];
    assert(port_views(r@) =~= stored_value_ports_spec(port_type@));
    r
}

pub fn control_operator_ports() -> (r: Vec<ObjectTextPort>)
    ensures
        port_views(r@) == control_operator_ports_spec(),
{
    let a = input_port("in", "control.number.float", ObjectTextPortRate::Control, ObjectTextPortActivation::Trigger);
    let b = input_port("right", "control.number.float", ObjectTextPortRate::Control, ObjectTextPortActivation::Latched);
    let c = output_port("out", "control.number.float", ObjectTextPortRate::Control);
    let r = vec![a, b, c];
    assert(port_views(r@) =~= control_operator_ports_spec());
    r
}

pub fn control_sqrt_ports() -> (r: Vec<ObjectTextPort>)
    ensures
        port_views(r@) == control_sqrt_ports_spec(),
{
    let a = input_port("in", "control.number.float", ObjectTextPortRate::Control, ObjectTextPortActivation::Trigger);
    let c = output_port("out", "control.number.float", ObjectTextPortRate::Control);
    let r = vec![a, c];
    assert(port_views(r@) =~= control_sqrt_ports_spec());
    r
}

pub fn bang_ports() -> (r: Vec<ObjectTextPort>)
    ensures
        port_views(r@) == bang_ports_spec(),
{
    let a = input_port("in", "control.message.any", ObjectTextPortRate::Control, ObjectTextPortActivation::Trigger);
    let c = output_port("out", "event.bang", ObjectTextPortRate::Event);
    let r = vec![a, c];
    assert(port_views(r@) =~= bang_ports_spec());
    r
}

pub fn message_ports() -> (r: Vec<ObjectTextPort>)
    ensures
        port_views(r@) == message_ports_spec(),
{
    let a = input_port("in", "control.message.any", ObjectTextPortRate::Control, ObjectTextPortActivation::Trigger);
    let c = output_port("out", "control.message.any", ObjectTextPortRate::Control);
    let r = vec![a, c];
    assert(port_views(r@) =~= message_ports_spec());
    r
}

pub fn comment_ports() -> (r: Vec<ObjectTextPort>)
    ensures
        port_views(r@) == comment_ports_spec(),
{
    let a = input_port("in", "control.message.any", ObjectTextPortRate::Control, ObjectTextPortActivation::Trigger);
    let r = vec![a];
    assert(port_views(r@) =~= comment_ports_spec());
    r
}

pub fn audio_sig_ports() -> (r: Vec<ObjectTextPort>)
    ensures
        port_views(r@) == audio_sig_ports_spec(),
{
    let a = input_port("value", "control.number.float", ObjectTextPortRate::Control, ObjectTextPortActivation::Latched);
    let c = output_port("out", "signal.audio", ObjectTextPortRate::Audio);
    let r = vec![a, c];
    assert(port_views(r@) =~= audio_sig_ports_spec());
    r
}

pub fn audio_osc_ports() -> (r: Vec<ObjectTextPort>)
    ensures
        port_views(r@) == audio_osc_ports_spec(),
{
    let a = input_port("frequency", "control.number.float", ObjectTextPortRate::Control, ObjectTextPortActivation::Latched);
    let c = output_port("out", "signal.audio", ObjectTextPortRate::Audio);
    let r = vec![a, c];
    assert(port_views(r@) =~= audio_osc_ports_spec());
    r
}

pub fn audio_binary_ports() -> (r: Vec<ObjectTextPort>)
    ensures
        port_views(r@) == audio_binary_ports_spec(),
{
    let a = input_port("left", "signal.audio", ObjectTextPortRate::Audio, ObjectTextPortActivation::Latched);
    let b = input_port("right", "signal.audio", ObjectTextPortRate::Audio, ObjectTextPortActivation::Latched);
    let c = output_port("out", "signal.audio", ObjectTextPortRate::Audio);
    let r = vec![a, b, c];
    assert(port_views(r@) =~= audio_binary_ports_spec());
    r
}

pub fn audio_input_ports() -> (r: Vec<ObjectTextPort>)
    ensures
        port_views(r@) == audio_input_ports_spec(),
{
    let a = output_port("left", "signal.audio", ObjectTextPortRate::Audio);
    let b = output_port("right", "signal.audio", ObjectTextPortRate::Audio);
    let r = vec![a, b];
    assert(port_views(r@) =~= audio_input_ports_spec());
    r
}

pub fn audio_output_ports() -> (r: Vec<ObjectTextPort>)
    ensures
        port_views(r@) == audio_output_ports_spec(),
{
    let a = input_port("left", "signal.audio", ObjectTextPortRate::Audio, ObjectTextPortActivation::Latched);
    let b = input_port("right", "signal.audio", ObjectTextPortRate::Audio, ObjectTextPortActivation::Latched);
    let r = vec![a, b];
    assert(port_views(r@) =~= audio_output_ports_spec());
    r
}

// ---------------------------------------------------------------------------
// Outcomes.
// ---------------------------------------------------------------------------

fn success(
    input: &str,
    display_text: String,
    class_symbol: &str,
    creation_args: Vec<ObjectTextAtom>,
    resolved_kind: &str,
    params: Vec<ObjectTextParam>,
    instance_ports: Vec<ObjectTextPort>,
) -> (r: ObjectTextResolution)
    ensures
        r@ == success_spec(
            input@,
            display_text@,
            class_symbol@,
            atom_views(creation_args@),
            resolved_kind@,
            param_views(params@),
            port_views(instance_ports@),
        ),
{
    let r = ObjectTextResolution {
        input: owned(input),
        display_text,
        class_symbol: owned(class_symbol),
        creation_args,
        resolved_kind: Some(owned(resolved_kind)),
        resolved_kind_version: Some(owned(CURRENT_KIND_VERSION)),
        params,
        instance_ports,
        diagnostics: Vec::new(),
    };
    assert(diagnostic_text_views(r.diagnostics@) =~= Seq::<DiagnosticTextView>::empty());
    r
}

fn failure(
    input: &str,
    display_text: String,
    class_symbol: &str,
    creation_args: Vec<ObjectTextAtom>,
    code: &str,
    message: String,
) -> (r: ObjectTextResolution)
    ensures
        r@ == failure_spec(
            input@,
            display_text@,
            class_symbol@,
            atom_views(creation_args@),
            code@,
            message@,
        ),
{
    let r = ObjectTextResolution {
        input: owned(input),
        display_text,
        class_symbol: owned(class_symbol),
        creation_args,
        resolved_kind: None,
        resolved_kind_version: None,
        params: Vec::new(),
        instance_ports: Vec::new(),
        diagnostics: vec![ObjectTextDiagnostic { code: owned(code), message }],
    };
    assert(param_views(r.params@) =~= Seq::<ParamView>::empty());
    assert(port_views(r.instance_ports@) =~= Seq::<PortView>::empty());
    assert(diagnostic_text_views(r.diagnostics@) =~= seq![DiagnosticTextView { code: code@, message: message@ }]);
    r
}

fn single_param(key: &str, value: ObjectTextParamValue) -> (r: Vec<ObjectTextParam>)
    ensures
        param_views(r@) == one_param(key@, value@),
{
    let r = vec![ObjectTextParam { key: owned(key), value }];
    assert(param_views(r@) =~= one_param(key@, value@));
    r
}

fn no_params() -> (r: Vec<ObjectTextParam>)
    ensures
        param_views(r@) == Seq::<ParamView>::empty(),
{
    let r: Vec<ObjectTextParam> = Vec::new();
    assert(param_views(r@) =~= Seq::<ParamView>::empty());
    r
}

fn no_ports() -> (r: Vec<ObjectTextPort>)
    ensures
        port_views(r@) == Seq::<PortView>::empty(),
{
    let r: Vec<ObjectTextPort> = Vec::new();
    assert(port_views(r@) =~= Seq::<PortView>::empty());
    r
}


// ---------------------------------------------------------------------------
// Class symbols.
// ---------------------------------------------------------------------------

/// Whether `kind` names a payload identity rather than an object.
pub fn is_payload_identity_kind(kind: &str) -> (r: bool)
    ensures
        r == payload_identity_spec(kind@),
{
    str_eq(kind, "value")
        || str_eq(kind, "data")
        || str_eq(kind, "payload")
        || str_eq(kind, "bool")
        || str_eq(kind, "string")
        || str_eq(kind, "core.bool")
        || str_eq(kind, "core.string")
        || str_eq(kind, "control.message.any")
        || str_eq(kind, "event.bang")
        || str_eq(kind, "asset.video")
        || str_eq(kind, "asset.image")
        || str_eq(kind, "asset.audio")
        || str_eq(kind, "gpu.texture2d")
        || starts_with_str(kind, "value.")
        || starts_with_str(kind, "data.")
        || starts_with_str(kind, "payload.")
        || starts_with_str(kind, "control.")
}

/// The message for a first-party audio alias that cannot run here.
pub fn unsupported_first_party_audio_message(class_symbol: &str) -> (r: Option<&'static str>)
    ensures
        match r {
            Some(m) => unsupported_audio_spec(class_symbol@) == Some(m@),
            None => unsupported_audio_spec(class_symbol@) is None,
        },
{
    if str_eq(class_symbol, "+~") || str_eq(class_symbol, "-~") || str_eq(class_symbol, "/~")
        || str_eq(class_symbol, "audio.operator.add") || str_eq(class_symbol, "audio.operator.sub")
        || str_eq(class_symbol, "audio.operator.div") {
        Some("audio add/sub/div aliases are not executable in the current Runtime substrate")
    } else if str_eq(class_symbol, "sqrt~") || str_eq(class_symbol, "audio.operator.sqrt") {
        Some("audio sqrt is not executable in the current Runtime substrate")
    } else if str_eq(class_symbol, "phasor~") || str_eq(class_symbol, "audio.phasor") {
        Some("audio phasor is not executable in the current Runtime substrate")
    } else {
        None
    }
}

/// The control operator kind a class symbol names.
pub fn control_operator_kind(class_symbol: &str) -> (r: Option<&'static str>)
    ensures
        match r {
            Some(k) => control_operator_kind_spec(class_symbol@) == Some(k@),
            None => control_operator_kind_spec(class_symbol@) is None,
        },
{
    if str_eq(class_symbol, "+") || str_eq(class_symbol, "add") || str_eq(class_symbol, "core.operator.add") {
        Some("core.operator.add")
    } else if str_eq(class_symbol, "-") || str_eq(class_symbol, "sub") || str_eq(class_symbol, "core.operator.sub") {
        Some("core.operator.sub")
    } else if str_eq(class_symbol, "*") || str_eq(class_symbol, "mul") || str_eq(class_symbol, "core.operator.mul") {
        Some("core.operator.mul")
    } else if str_eq(class_symbol, "/") || str_eq(class_symbol, "div") || str_eq(class_symbol, "core.operator.div") {
        Some("core.operator.div")
    } else if str_eq(class_symbol, "pow") || str_eq(class_symbol, "core.operator.pow") {
        Some("core.operator.pow")
    } else if str_eq(class_symbol, "min") || str_eq(class_symbol, "core.operator.min") {
        Some("core.operator.min")
    } else if str_eq(class_symbol, "max") || str_eq(class_symbol, "core.operator.max") {
        Some("core.operator.max")
    } else if str_eq(class_symbol, "sqrt") || str_eq(class_symbol, "core.operator.sqrt") {
        Some("core.operator.sqrt")
    } else {
        None
    }
}

/// The control value kind a class symbol names.
pub fn control_value_kind(class_symbol: &str) -> (r: Option<&'static str>)
    ensures
        match r {
            Some(k) => control_value_kind_spec(class_symbol@) == Some(k@),
            None => control_value_kind_spec(class_symbol@) is None,
        },
{
    if str_eq(class_symbol, "f") || str_eq(class_symbol, "float") || str_eq(class_symbol, "number") || str_eq(class_symbol, "core.float") {
        Some("core.float")
    } else if str_eq(class_symbol, "i") || str_eq(class_symbol, "int") || str_eq(class_symbol, "core.int") {
        Some("core.int")
    } else if str_eq(class_symbol, "u") || str_eq(class_symbol, "uint") || str_eq(class_symbol, "core.uint") {
        Some("core.uint")
    } else if str_eq(class_symbol, "b") || str_eq(class_symbol, "bang") || str_eq(class_symbol, "core.bang") {
        Some("core.bang")
    } else if str_eq(class_symbol, "msg") || str_eq(class_symbol, "message") || str_eq(class_symbol, "core.message") {
        Some("core.message")
    } else if str_eq(class_symbol, "comment") || str_eq(class_symbol, "core.comment") {
        Some("core.comment")
    } else {
        None
    }
}

/// The audio object kind a class symbol names.
pub fn audio_object_kind(class_symbol: &str) -> (r: Option<&'static str>)
    ensures
        match r {
            Some(k) => audio_object_kind_spec(class_symbol@) == Some(k@),
            None => audio_object_kind_spec(class_symbol@) is None,
        },
{
    if str_eq(class_symbol, "sig~") || str_eq(class_symbol, "audio.sig") {
        Some("audio.sig")
    } else if str_eq(class_symbol, "osc~") || str_eq(class_symbol, "audio.osc") {
        Some("audio.osc")
    } else if str_eq(class_symbol, "*~") || str_eq(class_symbol, "audio.operator.mul") {
        Some("audio.operator.mul")
    } else if str_eq(class_symbol, "adc~") || str_eq(class_symbol, "audio.input") {
        Some("audio.input")
    } else if str_eq(class_symbol, "dac~") || str_eq(class_symbol, "audio.output") {
        Some("audio.output")
    } else {
        None
    }
}


// ---------------------------------------------------------------------------
// Resolution.
// ---------------------------------------------------------------------------

fn resolve_control_operator(
    input: &str,
    display_text: String,
    class_symbol: &str,
    creation_args: Vec<ObjectTextAtom>,
    kind: &str,
) -> (r: ObjectTextResolution)
    ensures
        r@ == resolve_control_operator_spec(input@, display_text@, class_symbol@, atom_views(creation_args@), kind@),
{
    let ghost args = atom_views(creation_args@);
    if str_eq(kind, "core.operator.sqrt") {
        if creation_args.len() != 0 {
            return failure(input, display_text, class_symbol, creation_args,
                "object-text.invalid-arg-count", owned("sqrt accepts no creation arguments"));
        }
        return success(input, display_text, class_symbol, creation_args, kind, no_params(), control_sqrt_ports());
    }
    if creation_args.len() > 1 {
        return failure(input, display_text, class_symbol, creation_args,
            "object-text.invalid-arg-count", concat2(class_symbol, " accepts at most one creation argument"));
    }
    let right = if creation_args.len() == 1 {
        assert(args[0] == creation_args@[0]@);
        match numeric_value(&creation_args[0]) {
            Some(v) => v,
            None => {
                return failure(input, display_text, class_symbol, creation_args,
                    "object-text.invalid-arg-type", concat2(class_symbol, " creation argument must be numeric"));
            },
        }
    } else {
        ObjectTextParamValue::WholeFloat(0)
    };
    success(input, display_text, class_symbol, creation_args, kind, single_param("right", right), control_operator_ports())
}

fn resolve_number_value(
    input: &str,
    display_text: String,
    class_symbol: &str,
    creation_args: Vec<ObjectTextAtom>,
    kind: &str,
    port_type: &str,
    coerced: Option<ObjectTextParamValue>,
) -> (r: ObjectTextResolution)
    ensures
        r@ == resolve_number_value_spec(input@, display_text@, class_symbol@, atom_views(creation_args@), kind@, port_type@, param_value_option_view(coerced)),
{
    if creation_args.len() > 1 {
        return failure(input, display_text, class_symbol, creation_args,
            "object-text.invalid-arg-count", concat2(class_symbol, " accepts at most one creation argument"));
    }
    let value = if creation_args.len() == 1 {
        match coerced {
            Some(v) => v,
            None => {
                return failure(input, display_text, class_symbol, creation_args,
                    "object-text.invalid-arg-type", concat2(class_symbol, " creation argument has the wrong numeric type"));
            },
        }
    } else {
        ObjectTextParamValue::Int(0)
    };
    success(input, display_text, class_symbol, creation_args, kind, single_param("value", value), stored_value_ports(port_type))
}

fn resolve_control_value(
    input: &str,
    display_text: String,
    class_symbol: &str,
    creation_args: Vec<ObjectTextAtom>,
    kind: &str,
) -> (r: ObjectTextResolution)
    ensures
        r@ == resolve_control_value_spec(input@, display_text@, class_symbol@, atom_views(creation_args@), kind@),
{
    let ghost args = atom_views(creation_args@);
    if str_eq(kind, "core.bang") {
        if creation_args.len() != 0 {
            return failure(input, display_text, class_symbol, creation_args,
                "object-text.invalid-arg-count", concat2(class_symbol, " accepts no creation arguments"));
        }
        return success(input, display_text, class_symbol, creation_args, kind, no_params(), bang_ports());
    }
    if str_eq(kind, "core.message") || str_eq(kind, "core.comment") {
        let text = joined_display_text(&creation_args);
        let ports = if str_eq(kind, "core.message") {
            message_ports()
        } else {
            comment_ports()
        };
        return success(input, display_text, class_symbol, creation_args, kind,
            single_param("text", ObjectTextParamValue::Text(text)), ports);
    }
    if creation_args.len() == 1 {
        assert(args[0] == creation_args@[0]@);
    }
    if str_eq(kind, "core.float") {
        let coerced = if creation_args.len() == 1 { numeric_value(&creation_args[0]) } else { None };
        resolve_number_value(input, display_text, class_symbol, creation_args, kind, "control.number.float", coerced)
    } else if str_eq(kind, "core.int") {
        let coerced = if creation_args.len() == 1 { integer_value(&creation_args[0]) } else { None };
        resolve_number_value(input, display_text, class_symbol, creation_args, kind, "control.number.int", coerced)
    } else {
        let coerced = if creation_args.len() == 1 { unsigned_value(&creation_args[0]) } else { None };
        resolve_number_value(input, display_text, class_symbol, creation_args, kind, "control.number.uint", coerced)
    }
}

fn resolve_audio_number_param(
    input: &str,
    display_text: String,
    class_symbol: &str,
    creation_args: Vec<ObjectTextAtom>,
    kind: &str,
    param_key: &str,
    default_value: i64,
    ports: Vec<ObjectTextPort>,
) -> (r: ObjectTextResolution)
    ensures
        r@ == resolve_audio_number_param_spec(input@, display_text@, class_symbol@, atom_views(creation_args@), kind@, param_key@, default_value, port_views(ports@)),
{
    let ghost args = atom_views(creation_args@);
    if creation_args.len() > 1 {
        return failure(input, display_text, class_symbol, creation_args,
            "object-text.invalid-arg-count", concat2(class_symbol, " accepts at most one creation argument"));
    }
    let value = if creation_args.len() == 1 {
        assert(args[0] == creation_args@[0]@);
        match numeric_value(&creation_args[0]) {
            Some(v) => v,
            None => {
                return failure(input, display_text, class_symbol, creation_args,
                    "object-text.invalid-arg-type", concat2(class_symbol, " creation argument must be numeric"));
            },
        }
    } else {
        ObjectTextParamValue::WholeFloat(default_value)
    };
    success(input, display_text, class_symbol, creation_args, kind, single_param(param_key, value), ports)
}

fn resolve_audio_object(
    input: &str,
    display_text: String,
    class_symbol: &str,
    creation_args: Vec<ObjectTextAtom>,
    kind: &str,
) -> (r: ObjectTextResolution)
    ensures
        r@ == resolve_audio_object_spec(input@, display_text@, class_symbol@, atom_views(creation_args@), kind@),
{
    if str_eq(kind, "audio.sig") {
        return resolve_audio_number_param(input, display_text, class_symbol, creation_args, kind, "value", 0, audio_sig_ports());
    }
    if str_eq(kind, "audio.osc") {
        return resolve_audio_number_param(input, display_text, class_symbol, creation_args, kind, "frequency", 440, audio_osc_ports());
    }
    if str_eq(kind, "audio.operator.mul") {
        if creation_args.len() != 0 {
            return failure(input, display_text, class_symbol, creation_args, "object-text.invalid-arg-count",
                owned("*~ accepts no creation arguments in the current Runtime audio substrate"));
        }
        return success(input, display_text, class_symbol, creation_args, kind, no_params(), audio_binary_ports());
    }
    if creation_args.len() != 0 {
        return failure(input, display_text, class_symbol, creation_args,
            "object-text.invalid-arg-count", concat2(class_symbol, " accepts no creation arguments"));
    }
    let ports = if str_eq(kind, "audio.input") {
        audio_input_ports()
    } else {
        audio_output_ports()
    };
    success(input, display_text, class_symbol, creation_args, kind, no_params(), ports)
}

fn resolve_named_ref_object(
    input: &str,
    display_text: String,
    class_symbol: &str,
    creation_args: Vec<ObjectTextAtom>,
    kind: &str,
    param_key: &str,
    count_message: &str,
) -> (r: ObjectTextResolution)
    ensures
        r@ == resolve_named_ref_spec(input@, display_text@, class_symbol@, atom_views(creation_args@), kind@, param_key@, count_message@),
{
    let ghost args = atom_views(creation_args@);
    if creation_args.len() != 1 {
        return failure(input, display_text, class_symbol, creation_args, "object-text.invalid-arg-count", owned(count_message));
    }
    assert(args[0] == creation_args@[0]@);
    match symbol_value(&creation_args[0]) {
        Some(reference) => success(input, display_text, class_symbol, creation_args, kind,
            single_param(param_key, ObjectTextParamValue::Text(reference)), no_ports()),
        None => failure(input, display_text, class_symbol, creation_args,
            "object-text.invalid-arg-type", concat2(class_symbol, " reference argument must be a symbol")),
    }
}

fn resolve_optional_named_ref_object(
    input: &str,
    display_text: String,
    class_symbol: &str,
    creation_args: Vec<ObjectTextAtom>,
    kind: &str,
    param_key: &str,
) -> (r: ObjectTextResolution)
    ensures
        r@ == resolve_optional_named_ref_spec(input@, display_text@, class_symbol@, atom_views(creation_args@), kind@, param_key@),
{
    let ghost args = atom_views(creation_args@);
    if creation_args.len() > 1 {
        return failure(input, display_text, class_symbol, creation_args,
            "object-text.invalid-arg-count", concat2(class_symbol, " accepts at most one creation argument"));
    }
    if creation_args.len() == 0 {
        return success(input, display_text, class_symbol, creation_args, kind, no_params(), no_ports());
    }
    assert(args[0] == creation_args@[0]@);
    match symbol_value(&creation_args[0]) {
        Some(reference) => success(input, display_text, class_symbol, creation_args, kind,
            single_param(param_key, ObjectTextParamValue::Text(reference)), no_ports()),
        None => failure(input, display_text, class_symbol, creation_args,
            "object-text.invalid-arg-type", concat2(class_symbol, " reference argument must be a symbol")),
    }
}

/// Resolution once the class symbol and the creation arguments are known.
pub fn resolve_class(
    input: &str,
    display_text: String,
    class_symbol: &str,
    creation_args: Vec<ObjectTextAtom>,
) -> (r: ObjectTextResolution)
    ensures
        r@ == resolve_class_spec(input@, display_text@, class_symbol@, atom_views(creation_args@)),
{
    if is_payload_identity_kind(class_symbol) {
        return failure(input, display_text, class_symbol, creation_args, "object-text.payload-identity",
            concat2(class_symbol, " is a payload identity, not an executable object"));
    }
    match unsupported_first_party_audio_message(class_symbol) {
        Some(message) => {
            return failure(input, display_text, class_symbol, creation_args,
                "object-text.unsupported-first-party", owned(message));
        },
        None => {},
    }
    match control_operator_kind(class_symbol) {
        Some(kind) => {
            return resolve_control_operator(input, display_text, class_symbol, creation_args, kind);
        },
        None => {},
    }
    match control_value_kind(class_symbol) {
        Some(kind) => {
            return resolve_control_value(input, display_text, class_symbol, creation_args, kind);
        },
        None => {},
    }
    match audio_object_kind(class_symbol) {
        Some(kind) => {
            return resolve_audio_object(input, display_text, class_symbol, creation_args, kind);
        },
        None => {},
    }
    if str_eq(class_symbol, "p") || str_eq(class_symbol, "core.subpatch") {
        return resolve_named_ref_object(input, display_text, class_symbol, creation_args, "core.subpatch",
            "patchRef", "subpatch object text requires exactly one patch reference");
    }
    if str_eq(class_symbol, "inlet") || str_eq(class_symbol, "core.inlet") {
        return resolve_optional_named_ref_object(input, display_text, class_symbol, creation_args, "core.inlet", "portId");
    }
    if str_eq(class_symbol, "outlet") || str_eq(class_symbol, "core.outlet") {
        return resolve_optional_named_ref_object(input, display_text, class_symbol, creation_args, "core.outlet", "portId");
    }
    failure(input, display_text, class_symbol, creation_args, "object-text.unresolved",
        concat2(class_symbol, " is not available in the local Runtime object resolver"))
}

/// Resolves object text (v0.1). `readings` holds, for the tokens of the text,
/// what `str::parse::<f64>` gives for them; a token without a reading is not
/// read as a float.
pub fn resolve_object_text_v01(input: &str, readings: &Vec<TokenReading>) -> (r: ObjectTextResolution)
    ensures
        r@ == resolve_spec(input@, readings@),
{
    let display_text = match normalize_input(input) {
        Ok(d) => d,
        Err((d, message)) => {
            let none: Vec<ObjectTextAtom> = Vec::new();
            assert(atom_views(none@) =~= Seq::<AtomView>::empty());
            return failure(input, d, "<invalid>", none, "object-text.invalid-syntax", message);
        },
    };
    let toks = tokenize(display_text.as_str());
    let ghost tv = string_views(toks@);
    if toks.len() == 0 {
        let none: Vec<ObjectTextAtom> = Vec::new();
        assert(atom_views(none@) =~= Seq::<AtomView>::empty());
        return failure(input, owned("<empty>"), "<empty>", none, "object-text.empty",
            owned("object text must contain a class symbol"));
    }
    let mut creation_args: Vec<ObjectTextAtom> = Vec::new();
    let mut i: usize = 1;
    while i < toks.len()
        invariant
            tv == string_views(toks@),
            1 <= i <= toks@.len(),
            atom_views(creation_args@) == atoms_spec(tv.subrange(1, i as int), readings@),
        decreases toks.len() - i,
    {
        let token = toks[i].as_str();
        let reading = find_reading(readings, token);
        let atom = parse_atom(token, reading);
        let ghost before = creation_args@;
        creation_args.push(atom);
        proof {
            assert(tv[i as int] == toks@[i as int]@);
            assert(tv.subrange(1, i + 1) =~= tv.subrange(1, i as int).push(tv[i as int]));
            assert(atom_views(creation_args@) =~= atom_views(before).push(atom@));
            assert(atoms_spec(tv.subrange(1, i + 1), readings@) =~= atoms_spec(tv.subrange(1, i as int), readings@).push(
                atom_spec(tv[i as int], reading_of(readings@, tv[i as int]))));
        }
        i = i + 1;
    }
    proof {
        assert(tv.subrange(1, tv.len() as int) =~= tv.drop_first());
        assert(tv[0] == toks@[0]@);
    }
    resolve_class(input, display_text, toks[0].as_str(), creation_args)
}


// ---------------------------------------------------------------------------
// Laws.
// ---------------------------------------------------------------------------

/// Every resolution either names a kind, at the current kind version, with no
/// diagnostic, or names no kind and carries exactly one diagnostic; and it
/// echoes the input it was given.
pub proof fn law_resolution_is_kind_or_one_diagnostic(input: Seq<char>, readings: Seq<TokenReading>)
    ensures
        ({
            let v = resolve_spec(input, readings);
            &&& v.input == input
            &&& (v.resolved_kind is Some) == (v.diagnostics.len() == 0)
            &&& (v.resolved_kind is Some) ==> v.resolved_kind_version == Some(CURRENT_KIND_VERSION@)
            &&& (v.resolved_kind is None) ==> v.diagnostics.len() == 1 && v.params.len() == 0
                && v.instance_ports.len() == 0
        }),
{
}

/// Object text whose class symbol is a payload identity is refused with the
/// payload-identity diagnostic, whatever its arguments.
pub proof fn law_payload_identity_refused(input: Seq<char>, readings: Seq<TokenReading>)
    requires
        normalize_spec(input) is Ok,
        tokens(normalize_spec(input)->Ok_0).len() > 0,
        payload_identity_spec(tokens(normalize_spec(input)->Ok_0)[0]),
    ensures
        resolve_spec(input, readings).resolved_kind is None,
        resolve_spec(input, readings).diagnostics[0].code == "object-text.payload-identity"@,
{
}

/// Each control operator alias names its own operator: object text whose
/// class symbol is `+`, `add` or `core.operator.add` resolves, when it
/// resolves, to `core.operator.add`; `-`, `sub`, `core.operator.sub` to
/// `core.operator.sub`; and so on for `*`, `/`, `pow`, `min` and `max`. With
/// no creation argument such text always resolves.
pub proof fn law_operator_aliases_name_their_operator(input: Seq<char>, readings: Seq<TokenReading>)
    ensures
        ({
            let v = resolve_spec(input, readings);
            let c = v.class_symbol;
            &&& (c == "+"@ || c == "add"@ || c == "core.operator.add"@) ==> v.resolved_kind is None || v.resolved_kind == Some("core.operator.add"@)
            &&& (c == "+"@ || c == "add"@ || c == "core.operator.add"@) && v.creation_args.len() == 0 ==> v.resolved_kind == Some("core.operator.add"@)
            &&& (c == "-"@ || c == "sub"@ || c == "core.operator.sub"@) ==> v.resolved_kind is None || v.resolved_kind == Some("core.operator.sub"@)
            &&& (c == "-"@ || c == "sub"@ || c == "core.operator.sub"@) && v.creation_args.len() == 0 ==> v.resolved_kind == Some("core.operator.sub"@)
            &&& (c == "*"@ || c == "mul"@ || c == "core.operator.mul"@) ==> v.resolved_kind is None || v.resolved_kind == Some("core.operator.mul"@)
            &&& (c == "*"@ || c == "mul"@ || c == "core.operator.mul"@) && v.creation_args.len() == 0 ==> v.resolved_kind == Some("core.operator.mul"@)
            &&& (c == "/"@ || c == "div"@ || c == "core.operator.div"@) ==> v.resolved_kind is None || v.resolved_kind == Some("core.operator.div"@)
            &&& (c == "/"@ || c == "div"@ || c == "core.operator.div"@) && v.creation_args.len() == 0 ==> v.resolved_kind == Some("core.operator.div"@)
            &&& (c == "pow"@ || c == "core.operator.pow"@) ==> v.resolved_kind is None || v.resolved_kind == Some("core.operator.pow"@)
            &&& (c == "pow"@ || c == "core.operator.pow"@) && v.creation_args.len() == 0 ==> v.resolved_kind == Some("core.operator.pow"@)
            &&& (c == "min"@ || c == "core.operator.min"@) ==> v.resolved_kind is None || v.resolved_kind == Some("core.operator.min"@)
            &&& (c == "min"@ || c == "core.operator.min"@) && v.creation_args.len() == 0 ==> v.resolved_kind == Some("core.operator.min"@)
            &&& (c == "max"@ || c == "core.operator.max"@) ==> v.resolved_kind is None || v.resolved_kind == Some("core.operator.max"@)
            &&& (c == "max"@ || c == "core.operator.max"@) && v.creation_args.len() == 0 ==> v.resolved_kind == Some("core.operator.max"@)
        }),
{
    match normalize_spec(input) {
        Err(_) => {},
        Ok(display) => {
            let toks = tokens(display);
            if toks.len() > 0 {
                let c = toks[0];
                let args = atoms_spec(toks.drop_first(), readings);
                if c == "+"@ {
                    lemma_alias_plus(c);
                    lemma_operator_resolves(input, display, c, args, "core.operator.add"@);
                }
                if c == "add"@ {
                    lemma_alias_add(c);
                    lemma_operator_resolves(input, display, c, args, "core.operator.add"@);
                }
                if c == "core.operator.add"@ {
                    lemma_alias_core_operator_add(c);
                    lemma_operator_resolves(input, display, c, args, "core.operator.add"@);
                }
                if c == "-"@ {
                    lemma_alias_minus(c);
                    lemma_operator_resolves(input, display, c, args, "core.operator.sub"@);
                }
                if c == "sub"@ {
                    lemma_alias_sub(c);
                    lemma_operator_resolves(input, display, c, args, "core.operator.sub"@);
                }
                if c == "core.operator.sub"@ {
                    lemma_alias_core_operator_sub(c);
                    lemma_operator_resolves(input, display, c, args, "core.operator.sub"@);
                }
                if c == "*"@ {
                    lemma_alias_times(c);
                    lemma_operator_resolves(input, display, c, args, "core.operator.mul"@);
                }
                if c == "mul"@ {
                    lemma_alias_mul(c);
                    lemma_operator_resolves(input, display, c, args, "core.operator.mul"@);
                }
                if c == "core.operator.mul"@ {
                    lemma_alias_core_operator_mul(c);
                    lemma_operator_resolves(input, display, c, args, "core.operator.mul"@);
                }
                if c == "/"@ {
                    lemma_alias_slash(c);
                    lemma_operator_resolves(input, display, c, args, "core.operator.div"@);
                }
                if c == "div"@ {
                    lemma_alias_div(c);
                    lemma_operator_resolves(input, display, c, args, "core.operator.div"@);
                }
                if c == "core.operator.div"@ {
                    lemma_alias_core_operator_div(c);
                    lemma_operator_resolves(input, display, c, args, "core.operator.div"@);
                }
                if c == "pow"@ {
                    lemma_alias_pow(c);
                    lemma_operator_resolves(input, display, c, args, "core.operator.pow"@);
                }
                if c == "core.operator.pow"@ {
                    lemma_alias_core_operator_pow(c);
                    lemma_operator_resolves(input, display, c, args, "core.operator.pow"@);
                }
                if c == "min"@ {
                    lemma_alias_min(c);
                    lemma_operator_resolves(input, display, c, args, "core.operator.min"@);
                }
                if c == "core.operator.min"@ {
                    lemma_alias_core_operator_min(c);
                    lemma_operator_resolves(input, display, c, args, "core.operator.min"@);
                }
                if c == "max"@ {
                    lemma_alias_max(c);
                    lemma_operator_resolves(input, display, c, args, "core.operator.max"@);
                }
                if c == "core.operator.max"@ {
                    lemma_alias_core_operator_max(c);
                    lemma_operator_resolves(input, display, c, args, "core.operator.max"@);
                }
            }
        },
    }
    lemma_placeholders_are_not_operators();
}

proof fn lemma_placeholders_are_not_operators()
    ensures
        "<invalid>"@ != "+"@ && "<empty>"@ != "+"@,
        "<invalid>"@ != "add"@ && "<empty>"@ != "add"@,
        "<invalid>"@ != "core.operator.add"@ && "<empty>"@ != "core.operator.add"@,
        "<invalid>"@ != "-"@ && "<empty>"@ != "-"@,
        "<invalid>"@ != "sub"@ && "<empty>"@ != "sub"@,
        "<invalid>"@ != "core.operator.sub"@ && "<empty>"@ != "core.operator.sub"@,
        "<invalid>"@ != "*"@ && "<empty>"@ != "*"@,
        "<invalid>"@ != "mul"@ && "<empty>"@ != "mul"@,
        "<invalid>"@ != "core.operator.mul"@ && "<empty>"@ != "core.operator.mul"@,
        "<invalid>"@ != "/"@ && "<empty>"@ != "/"@,
        "<invalid>"@ != "div"@ && "<empty>"@ != "div"@,
        "<invalid>"@ != "core.operator.div"@ && "<empty>"@ != "core.operator.div"@,
        "<invalid>"@ != "pow"@ && "<empty>"@ != "pow"@,
        "<invalid>"@ != "core.operator.pow"@ && "<empty>"@ != "core.operator.pow"@,
        "<invalid>"@ != "min"@ && "<empty>"@ != "min"@,
        "<invalid>"@ != "core.operator.min"@ && "<empty>"@ != "core.operator.min"@,
        "<invalid>"@ != "max"@ && "<empty>"@ != "max"@,
        "<invalid>"@ != "core.operator.max"@ && "<empty>"@ != "core.operator.max"@,
{
    reveal_strlit("<invalid>");
    reveal_strlit("<empty>");
    assert("<invalid>"@ != "+"@ && "<empty>"@ != "+"@) by {
        reveal_strlit("+");
        assert("<invalid>"@.len() != "+"@.len());
        assert("<empty>"@.len() != "+"@.len());
    }
    assert("<invalid>"@ != "add"@ && "<empty>"@ != "add"@) by {
        reveal_strlit("add");
        assert("<invalid>"@.len() != "add"@.len());
        assert("<empty>"@.len() != "add"@.len());
    }
    assert("<invalid>"@ != "core.operator.add"@ && "<empty>"@ != "core.operator.add"@) by {
        reveal_strlit("core.operator.add");
        assert("<invalid>"@.len() != "core.operator.add"@.len());
        assert("<empty>"@.len() != "core.operator.add"@.len());
    }
    assert("<invalid>"@ != "-"@ && "<empty>"@ != "-"@) by {
        reveal_strlit("-");
        assert("<invalid>"@.len() != "-"@.len());
        assert("<empty>"@.len() != "-"@.len());
    }
    assert("<invalid>"@ != "sub"@ && "<empty>"@ != "sub"@) by {
        reveal_strlit("sub");
        assert("<invalid>"@.len() != "sub"@.len());
        assert("<empty>"@.len() != "sub"@.len());
    }
    assert("<invalid>"@ != "core.operator.sub"@ && "<empty>"@ != "core.operator.sub"@) by {
        reveal_strlit("core.operator.sub");
        assert("<invalid>"@.len() != "core.operator.sub"@.len());
        assert("<empty>"@.len() != "core.operator.sub"@.len());
    }
    assert("<invalid>"@ != "*"@ && "<empty>"@ != "*"@) by {
        reveal_strlit("*");
        assert("<invalid>"@.len() != "*"@.len());
        assert("<empty>"@.len() != "*"@.len());
    }
    assert("<invalid>"@ != "mul"@ && "<empty>"@ != "mul"@) by {
        reveal_strlit("mul");
        assert("<invalid>"@.len() != "mul"@.len());
        assert("<empty>"@.len() != "mul"@.len());
    }
    assert("<invalid>"@ != "core.operator.mul"@ && "<empty>"@ != "core.operator.mul"@) by {
        reveal_strlit("core.operator.mul");
        assert("<invalid>"@.len() != "core.operator.mul"@.len());
        assert("<empty>"@.len() != "core.operator.mul"@.len());
    }
    assert("<invalid>"@ != "/"@ && "<empty>"@ != "/"@) by {
        reveal_strlit("/");
        assert("<invalid>"@.len() != "/"@.len());
        assert("<empty>"@.len() != "/"@.len());
    }
    assert("<invalid>"@ != "div"@ && "<empty>"@ != "div"@) by {
        reveal_strlit("div");
        assert("<invalid>"@.len() != "div"@.len());
        assert("<empty>"@.len() != "div"@.len());
    }
    assert("<invalid>"@ != "core.operator.div"@ && "<empty>"@ != "core.operator.div"@) by {
        reveal_strlit("core.operator.div");
        assert("<invalid>"@.len() != "core.operator.div"@.len());
        assert("<empty>"@.len() != "core.operator.div"@.len());
    }
    assert("<invalid>"@ != "pow"@ && "<empty>"@ != "pow"@) by {
        reveal_strlit("pow");
        assert("<invalid>"@.len() != "pow"@.len());
        assert("<empty>"@.len() != "pow"@.len());
    }
    assert("<invalid>"@ != "core.operator.pow"@ && "<empty>"@ != "core.operator.pow"@) by {
        reveal_strlit("core.operator.pow");
        assert("<invalid>"@.len() != "core.operator.pow"@.len());
        assert("<empty>"@.len() != "core.operator.pow"@.len());
    }
    assert("<invalid>"@ != "min"@ && "<empty>"@ != "min"@) by {
        reveal_strlit("min");
        assert("<invalid>"@.len() != "min"@.len());
        assert("<empty>"@.len() != "min"@.len());
    }
    assert("<invalid>"@ != "core.operator.min"@ && "<empty>"@ != "core.operator.min"@) by {
        reveal_strlit("core.operator.min");
        assert("<invalid>"@.len() != "core.operator.min"@.len());
        assert("<empty>"@.len() != "core.operator.min"@.len());
    }
    assert("<invalid>"@ != "max"@ && "<empty>"@ != "max"@) by {
        reveal_strlit("max");
        assert("<invalid>"@.len() != "max"@.len());
        assert("<empty>"@.len() != "max"@.len());
    }
    assert("<invalid>"@ != "core.operator.max"@ && "<empty>"@ != "core.operator.max"@) by {
        reveal_strlit("core.operator.max");
        assert("<invalid>"@.len() != "core.operator.max"@.len());
        assert("<empty>"@.len() != "core.operator.max"@.len());
    }
}

proof fn lemma_operator_resolves(input: Seq<char>, display: Seq<char>, c: Seq<char>, args: Seq<AtomView>, kind: Seq<char>)
    requires
        control_operator_kind_spec(c) == Some(kind),
        !payload_identity_spec(c),
        unsupported_audio_spec(c) is None,
    ensures
        resolve_class_spec(input, display, c, args).resolved_kind is None
            || resolve_class_spec(input, display, c, args).resolved_kind == Some(kind),
        args.len() == 0 ==> resolve_class_spec(input, display, c, args).resolved_kind == Some(kind),
        resolve_class_spec(input, display, c, args).class_symbol == c,
{
}

proof fn lemma_reserved_symbol_shapes()
    ensures
        "value"@.len() == 5,
        "data"@.len() == 4,
        "payload"@.len() == 7,
        "bool"@.len() == 4,
        "string"@.len() == 6,
        "core.bool"@.len() == 9,
        "core.string"@.len() == 11,
        "control.message.any"@.len() == 19,
        "event.bang"@.len() == 10,
        "asset.video"@.len() == 11,
        "asset.image"@.len() == 11,
        "asset.audio"@.len() == 11,
        "gpu.texture2d"@.len() == 13,
        "+~"@.len() == 2,
        "-~"@.len() == 2,
        "/~"@.len() == 2,
        "audio.operator.add"@.len() == 18,
        "audio.operator.sub"@.len() == 18,
        "audio.operator.div"@.len() == 18,
        "sqrt~"@.len() == 5,
        "audio.operator.sqrt"@.len() == 19,
        "phasor~"@.len() == 7,
        "audio.phasor"@.len() == 12,
        "value."@.len() == 6 && "value."@[0] == 'v',
        "data."@.len() == 5 && "data."@[0] == 'd',
        "payload."@.len() == 8 && "payload."@[0] == 'p',
        "control."@.len() == 8 && "control."@[3] == 't',
{
    reveal_strlit("value");
    reveal_strlit("data");
    reveal_strlit("payload");
    reveal_strlit("bool");
    reveal_strlit("string");
    reveal_strlit("core.bool");
    reveal_strlit("core.string");
    reveal_strlit("control.message.any");
    reveal_strlit("event.bang");
    reveal_strlit("asset.video");
    reveal_strlit("asset.image");
    reveal_strlit("asset.audio");
    reveal_strlit("gpu.texture2d");
    reveal_strlit("+~");
    reveal_strlit("-~");
    reveal_strlit("/~");
    reveal_strlit("audio.operator.add");
    reveal_strlit("audio.operator.sub");
    reveal_strlit("audio.operator.div");
    reveal_strlit("sqrt~");
    reveal_strlit("audio.operator.sqrt");
    reveal_strlit("phasor~");
    reveal_strlit("audio.phasor");
    reveal_strlit("value.");
    reveal_strlit("data.");
    reveal_strlit("payload.");
    reveal_strlit("control.");
}

/// A symbol of one, three, or seventeen characters starting `core.` is no
/// payload identity and no unsupported audio alias.
proof fn lemma_not_payload_nor_audio(c: Seq<char>)
    requires
        c.len() == 1 || c.len() == 3 || (c.len() == 17 && c[0] == 'c' && c[3] == 'e'),
    ensures
        !payload_identity_spec(c),
        unsupported_audio_spec(c) is None,
{
    lemma_reserved_symbol_shapes();
    if c.len() == 17 {
        assert(c.subrange(0, 6)[0] == c[0]);
        assert(c.subrange(0, 5)[0] == c[0]);
        assert(c.subrange(0, 8)[0] == c[0]);
        assert(c.subrange(0, 8)[3] == c[3]);
    }
}

proof fn lemma_alias_plus(c: Seq<char>)
    requires
        c == "+"@,
    ensures
        control_operator_kind_spec(c) == Some("core.operator.add"@),
        !payload_identity_spec(c),
        unsupported_audio_spec(c) is None,
{
    assert(c != "add"@) by {
        reveal_strlit("+");
        reveal_strlit("add");
        assert("+"@.len() != "add"@.len());
    }
    assert(c != "core.operator.add"@) by {
        reveal_strlit("+");
        reveal_strlit("core.operator.add");
        assert("+"@.len() != "core.operator.add"@.len());
    }
    assert(c.len() == 1) by {
        reveal_strlit("+");
    }
    lemma_not_payload_nor_audio(c);
}

proof fn lemma_alias_add(c: Seq<char>)
    requires
        c == "add"@,
    ensures
        control_operator_kind_spec(c) == Some("core.operator.add"@),
        !payload_identity_spec(c),
        unsupported_audio_spec(c) is None,
{
    assert(c != "+"@) by {
        reveal_strlit("add");
        reveal_strlit("+");
        assert("add"@.len() != "+"@.len());
    }
    assert(c != "core.operator.add"@) by {
        reveal_strlit("add");
        reveal_strlit("core.operator.add");
        assert("add"@.len() != "core.operator.add"@.len());
    }
    assert(c.len() == 3) by {
        reveal_strlit("add");
    }
    lemma_not_payload_nor_audio(c);
}

proof fn lemma_alias_core_operator_add(c: Seq<char>)
    requires
        c == "core.operator.add"@,
    ensures
        control_operator_kind_spec(c) == Some("core.operator.add"@),
        !payload_identity_spec(c),
        unsupported_audio_spec(c) is None,
{
    assert(c != "+"@) by {
        reveal_strlit("core.operator.add");
        reveal_strlit("+");
        assert("core.operator.add"@.len() != "+"@.len());
    }
    assert(c != "add"@) by {
        reveal_strlit("core.operator.add");
        reveal_strlit("add");
        assert("core.operator.add"@.len() != "add"@.len());
    }
    assert(c.len() == 17 && c[0] == 'c' && c[3] == 'e') by {
        reveal_strlit("core.operator.add");
    }
    lemma_not_payload_nor_audio(c);
}

proof fn lemma_alias_minus(c: Seq<char>)
    requires
        c == "-"@,
    ensures
        control_operator_kind_spec(c) == Some("core.operator.sub"@),
        !payload_identity_spec(c),
        unsupported_audio_spec(c) is None,
{
    assert(c != "+"@) by {
        reveal_strlit("-");
        reveal_strlit("+");
        assert("-"@[0] != "+"@[0]);
    }
    assert(c != "add"@) by {
        reveal_strlit("-");
        reveal_strlit("add");
        assert("-"@.len() != "add"@.len());
    }
    assert(c != "core.operator.add"@) by {
        reveal_strlit("-");
        reveal_strlit("core.operator.add");
        assert("-"@.len() != "core.operator.add"@.len());
    }
    assert(c != "sub"@) by {
        reveal_strlit("-");
        reveal_strlit("sub");
        assert("-"@.len() != "sub"@.len());
    }
    assert(c != "core.operator.sub"@) by {
        reveal_strlit("-");
        reveal_strlit("core.operator.sub");
        assert("-"@.len() != "core.operator.sub"@.len());
    }
    assert(c.len() == 1) by {
        reveal_strlit("-");
    }
    lemma_not_payload_nor_audio(c);
}

proof fn lemma_alias_sub(c: Seq<char>)
    requires
        c == "sub"@,
    ensures
        control_operator_kind_spec(c) == Some("core.operator.sub"@),
        !payload_identity_spec(c),
        unsupported_audio_spec(c) is None,
{
    assert(c != "+"@) by {
        reveal_strlit("sub");
        reveal_strlit("+");
        assert("sub"@.len() != "+"@.len());
    }
    assert(c != "add"@) by {
        reveal_strlit("sub");
        reveal_strlit("add");
        assert("sub"@[0] != "add"@[0]);
    }
    assert(c != "core.operator.add"@) by {
        reveal_strlit("sub");
        reveal_strlit("core.operator.add");
        assert("sub"@.len() != "core.operator.add"@.len());
    }
    assert(c != "-"@) by {
        reveal_strlit("sub");
        reveal_strlit("-");
        assert("sub"@.len() != "-"@.len());
    }
    assert(c != "core.operator.sub"@) by {
        reveal_strlit("sub");
        reveal_strlit("core.operator.sub");
        assert("sub"@.len() != "core.operator.sub"@.len());
    }
    assert(c.len() == 3) by {
        reveal_strlit("sub");
    }
    lemma_not_payload_nor_audio(c);
}

proof fn lemma_alias_core_operator_sub(c: Seq<char>)
    requires
        c == "core.operator.sub"@,
    ensures
        control_operator_kind_spec(c) == Some("core.operator.sub"@),
        !payload_identity_spec(c),
        unsupported_audio_spec(c) is None,
{
    assert(c != "+"@) by {
        reveal_strlit("core.operator.sub");
        reveal_strlit("+");
        assert("core.operator.sub"@.len() != "+"@.len());
    }
    assert(c != "add"@) by {
        reveal_strlit("core.operator.sub");
        reveal_strlit("add");
        assert("core.operator.sub"@.len() != "add"@.len());
    }
    assert(c != "core.operator.add"@) by {
        reveal_strlit("core.operator.sub");
        reveal_strlit("core.operator.add");
        assert("core.operator.sub"@[14] != "core.operator.add"@[14]);
    }
    assert(c != "-"@) by {
        reveal_strlit("core.operator.sub");
        reveal_strlit("-");
        assert("core.operator.sub"@.len() != "-"@.len());
    }
    assert(c != "sub"@) by {
        reveal_strlit("core.operator.sub");
        reveal_strlit("sub");
        assert("core.operator.sub"@.len() != "sub"@.len());
    }
    assert(c.len() == 17 && c[0] == 'c' && c[3] == 'e') by {
        reveal_strlit("core.operator.sub");
    }
    lemma_not_payload_nor_audio(c);
}

proof fn lemma_alias_times(c: Seq<char>)
    requires
        c == "*"@,
    ensures
        control_operator_kind_spec(c) == Some("core.operator.mul"@),
        !payload_identity_spec(c),
        unsupported_audio_spec(c) is None,
{
    assert(c != "+"@) by {
        reveal_strlit("*");
        reveal_strlit("+");
        assert("*"@[0] != "+"@[0]);
    }
    assert(c != "add"@) by {
        reveal_strlit("*");
        reveal_strlit("add");
        assert("*"@.len() != "add"@.len());
    }
    assert(c != "core.operator.add"@) by {
        reveal_strlit("*");
        reveal_strlit("core.operator.add");
        assert("*"@.len() != "core.operator.add"@.len());
    }
    assert(c != "-"@) by {
        reveal_strlit("*");
        reveal_strlit("-");
        assert("*"@[0] != "-"@[0]);
    }
    assert(c != "sub"@) by {
        reveal_strlit("*");
        reveal_strlit("sub");
        assert("*"@.len() != "sub"@.len());
    }
    assert(c != "core.operator.sub"@) by {
        reveal_strlit("*");
        reveal_strlit("core.operator.sub");
        assert("*"@.len() != "core.operator.sub"@.len());
    }
    assert(c != "mul"@) by {
        reveal_strlit("*");
        reveal_strlit("mul");
        assert("*"@.len() != "mul"@.len());
    }
    assert(c != "core.operator.mul"@) by {
        reveal_strlit("*");
        reveal_strlit("core.operator.mul");
        assert("*"@.len() != "core.operator.mul"@.len());
    }
    assert(c.len() == 1) by {
        reveal_strlit("*");
    }
    lemma_not_payload_nor_audio(c);
}

proof fn lemma_alias_mul(c: Seq<char>)
    requires
        c == "mul"@,
    ensures
        control_operator_kind_spec(c) == Some("core.operator.mul"@),
        !payload_identity_spec(c),
        unsupported_audio_spec(c) is None,
{
    assert(c != "+"@) by {
        reveal_strlit("mul");
        reveal_strlit("+");
        assert("mul"@.len() != "+"@.len());
    }
    assert(c != "add"@) by {
        reveal_strlit("mul");
        reveal_strlit("add");
        assert("mul"@[0] != "add"@[0]);
    }
    assert(c != "core.operator.add"@) by {
        reveal_strlit("mul");
        reveal_strlit("core.operator.add");
        assert("mul"@.len() != "core.operator.add"@.len());
    }
    assert(c != "-"@) by {
        reveal_strlit("mul");
        reveal_strlit("-");
        assert("mul"@.len() != "-"@.len());
    }
    assert(c != "sub"@) by {
        reveal_strlit("mul");
        reveal_strlit("sub");
        assert("mul"@[0] != "sub"@[0]);
    }
    assert(c != "core.operator.sub"@) by {
        reveal_strlit("mul");
        reveal_strlit("core.operator.sub");
        assert("mul"@.len() != "core.operator.sub"@.len());
    }
    assert(c != "*"@) by {
        reveal_strlit("mul");
        reveal_strlit("*");
        assert("mul"@.len() != "*"@.len());
    }
    assert(c != "core.operator.mul"@) by {
        reveal_strlit("mul");
        reveal_strlit("core.operator.mul");
        assert("mul"@.len() != "core.operator.mul"@.len());
    }
    assert(c.len() == 3) by {
        reveal_strlit("mul");
    }
    lemma_not_payload_nor_audio(c);
}

proof fn lemma_alias_core_operator_mul(c: Seq<char>)
    requires
        c == "core.operator.mul"@,
    ensures
        control_operator_kind_spec(c) == Some("core.operator.mul"@),
        !payload_identity_spec(c),
        unsupported_audio_spec(c) is None,
{
    assert(c != "+"@) by {
        reveal_strlit("core.operator.mul");
        reveal_strlit("+");
        assert("core.operator.mul"@.len() != "+"@.len());
    }
    assert(c != "add"@) by {
        reveal_strlit("core.operator.mul");
        reveal_strlit("add");
        assert("core.operator.mul"@.len() != "add"@.len());
    }
    assert(c != "core.operator.add"@) by {
        reveal_strlit("core.operator.mul");
        reveal_strlit("core.operator.add");
        assert("core.operator.mul"@[14] != "core.operator.add"@[14]);
    }
    assert(c != "-"@) by {
        reveal_strlit("core.operator.mul");
        reveal_strlit("-");
        assert("core.operator.mul"@.len() != "-"@.len());
    }
    assert(c != "sub"@) by {
        reveal_strlit("core.operator.mul");
        reveal_strlit("sub");
        assert("core.operator.mul"@.len() != "sub"@.len());
    }
    assert(c != "core.operator.sub"@) by {
        reveal_strlit("core.operator.mul");
        reveal_strlit("core.operator.sub");
        assert("core.operator.mul"@[14] != "core.operator.sub"@[14]);
    }
    assert(c != "*"@) by {
        reveal_strlit("core.operator.mul");
        reveal_strlit("*");
        assert("core.operator.mul"@.len() != "*"@.len());
    }
    assert(c != "mul"@) by {
        reveal_strlit("core.operator.mul");
        reveal_strlit("mul");
        assert("core.operator.mul"@.len() != "mul"@.len());
    }
    assert(c.len() == 17 && c[0] == 'c' && c[3] == 'e') by {
        reveal_strlit("core.operator.mul");
    }
    lemma_not_payload_nor_audio(c);
}

proof fn lemma_alias_slash(c: Seq<char>)
    requires
        c == "/"@,
    ensures
        control_operator_kind_spec(c) == Some("core.operator.div"@),
        !payload_identity_spec(c),
        unsupported_audio_spec(c) is None,
{
    assert(c != "+"@) by {
        reveal_strlit("/");
        reveal_strlit("+");
        assert("/"@[0] != "+"@[0]);
    }
    assert(c != "add"@) by {
        reveal_strlit("/");
        reveal_strlit("add");
        assert("/"@.len() != "add"@.len());
    }
    assert(c != "core.operator.add"@) by {
        reveal_strlit("/");
        reveal_strlit("core.operator.add");
        assert("/"@.len() != "core.operator.add"@.len());
    }
    assert(c != "-"@) by {
        reveal_strlit("/");
        reveal_strlit("-");
        assert("/"@[0] != "-"@[0]);
    }
    assert(c != "sub"@) by {
        reveal_strlit("/");
        reveal_strlit("sub");
        assert("/"@.len() != "sub"@.len());
    }
    assert(c != "core.operator.sub"@) by {
        reveal_strlit("/");
        reveal_strlit("core.operator.sub");
        assert("/"@.len() != "core.operator.sub"@.len());
    }
    assert(c != "*"@) by {
        reveal_strlit("/");
        reveal_strlit("*");
        assert("/"@[0] != "*"@[0]);
    }
    assert(c != "mul"@) by {
        reveal_strlit("/");
        reveal_strlit("mul");
        assert("/"@.len() != "mul"@.len());
    }
    assert(c != "core.operator.mul"@) by {
        reveal_strlit("/");
        reveal_strlit("core.operator.mul");
        assert("/"@.len() != "core.operator.mul"@.len());
    }
    assert(c != "div"@) by {
        reveal_strlit("/");
        reveal_strlit("div");
        assert("/"@.len() != "div"@.len());
    }
    assert(c != "core.operator.div"@) by {
        reveal_strlit("/");
        reveal_strlit("core.operator.div");
        assert("/"@.len() != "core.operator.div"@.len());
    }
    assert(c.len() == 1) by {
        reveal_strlit("/");
    }
    lemma_not_payload_nor_audio(c);
}

proof fn lemma_alias_div(c: Seq<char>)
    requires
        c == "div"@,
    ensures
        control_operator_kind_spec(c) == Some("core.operator.div"@),
        !payload_identity_spec(c),
        unsupported_audio_spec(c) is None,
{
    assert(c != "+"@) by {
        reveal_strlit("div");
        reveal_strlit("+");
        assert("div"@.len() != "+"@.len());
    }
    assert(c != "add"@) by {
        reveal_strlit("div");
        reveal_strlit("add");
        assert("div"@[0] != "add"@[0]);
    }
    assert(c != "core.operator.add"@) by {
        reveal_strlit("div");
        reveal_strlit("core.operator.add");
        assert("div"@.len() != "core.operator.add"@.len());
    }
    assert(c != "-"@) by {
        reveal_strlit("div");
        reveal_strlit("-");
        assert("div"@.len() != "-"@.len());
    }
    assert(c != "sub"@) by {
        reveal_strlit("div");
        reveal_strlit("sub");
        assert("div"@[0] != "sub"@[0]);
    }
    assert(c != "core.operator.sub"@) by {
        reveal_strlit("div");
        reveal_strlit("core.operator.sub");
        assert("div"@.len() != "core.operator.sub"@.len());
    }
    assert(c != "*"@) by {
        reveal_strlit("div");
        reveal_strlit("*");
        assert("div"@.len() != "*"@.len());
    }
    assert(c != "mul"@) by {
        reveal_strlit("div");
        reveal_strlit("mul");
        assert("div"@[0] != "mul"@[0]);
    }
    assert(c != "core.operator.mul"@) by {
        reveal_strlit("div");
        reveal_strlit("core.operator.mul");
        assert("div"@.len() != "core.operator.mul"@.len());
    }
    assert(c != "/"@) by {
        reveal_strlit("div");
        reveal_strlit("/");
        assert("div"@.len() != "/"@.len());
    }
    assert(c != "core.operator.div"@) by {
        reveal_strlit("div");
        reveal_strlit("core.operator.div");
        assert("div"@.len() != "core.operator.div"@.len());
    }
    assert(c.len() == 3) by {
        reveal_strlit("div");
    }
    lemma_not_payload_nor_audio(c);
}

proof fn lemma_alias_core_operator_div(c: Seq<char>)
    requires
        c == "core.operator.div"@,
    ensures
        control_operator_kind_spec(c) == Some("core.operator.div"@),
        !payload_identity_spec(c),
        unsupported_audio_spec(c) is None,
{
    assert(c != "+"@) by {
        reveal_strlit("core.operator.div");
        reveal_strlit("+");
        assert("core.operator.div"@.len() != "+"@.len());
    }
    assert(c != "add"@) by {
        reveal_strlit("core.operator.div");
        reveal_strlit("add");
        assert("core.operator.div"@.len() != "add"@.len());
    }
    assert(c != "core.operator.add"@) by {
        reveal_strlit("core.operator.div");
        reveal_strlit("core.operator.add");
        assert("core.operator.div"@[14] != "core.operator.add"@[14]);
    }
    assert(c != "-"@) by {
        reveal_strlit("core.operator.div");
        reveal_strlit("-");
        assert("core.operator.div"@.len() != "-"@.len());
    }
    assert(c != "sub"@) by {
        reveal_strlit("core.operator.div");
        reveal_strlit("sub");
        assert("core.operator.div"@.len() != "sub"@.len());
    }
    assert(c != "core.operator.sub"@) by {
        reveal_strlit("core.operator.div");
        reveal_strlit("core.operator.sub");
        assert("core.operator.div"@[14] != "core.operator.sub"@[14]);
    }
    assert(c != "*"@) by {
        reveal_strlit("core.operator.div");
        reveal_strlit("*");
        assert("core.operator.div"@.len() != "*"@.len());
    }
    assert(c != "mul"@) by {
        reveal_strlit("core.operator.div");
        reveal_strlit("mul");
        assert("core.operator.div"@.len() != "mul"@.len());
    }
    assert(c != "core.operator.mul"@) by {
        reveal_strlit("core.operator.div");
        reveal_strlit("core.operator.mul");
        assert("core.operator.div"@[14] != "core.operator.mul"@[14]);
    }
    assert(c != "/"@) by {
        reveal_strlit("core.operator.div");
        reveal_strlit("/");
        assert("core.operator.div"@.len() != "/"@.len());
    }
    assert(c != "div"@) by {
        reveal_strlit("core.operator.div");
        reveal_strlit("div");
        assert("core.operator.div"@.len() != "div"@.len());
    }
    assert(c.len() == 17 && c[0] == 'c' && c[3] == 'e') by {
        reveal_strlit("core.operator.div");
    }
    lemma_not_payload_nor_audio(c);
}

proof fn lemma_alias_pow(c: Seq<char>)
    requires
        c == "pow"@,
    ensures
        control_operator_kind_spec(c) == Some("core.operator.pow"@),
        !payload_identity_spec(c),
        unsupported_audio_spec(c) is None,
{
    assert(c != "+"@) by {
        reveal_strlit("pow");
        reveal_strlit("+");
        assert("pow"@.len() != "+"@.len());
    }
    assert(c != "add"@) by {
        reveal_strlit("pow");
        reveal_strlit("add");
        assert("pow"@[0] != "add"@[0]);
    }
    assert(c != "core.operator.add"@) by {
        reveal_strlit("pow");
        reveal_strlit("core.operator.add");
        assert("pow"@.len() != "core.operator.add"@.len());
    }
    assert(c != "-"@) by {
        reveal_strlit("pow");
        reveal_strlit("-");
        assert("pow"@.len() != "-"@.len());
    }
    assert(c != "sub"@) by {
        reveal_strlit("pow");
        reveal_strlit("sub");
        assert("pow"@[0] != "sub"@[0]);
    }
    assert(c != "core.operator.sub"@) by {
        reveal_strlit("pow");
        reveal_strlit("core.operator.sub");
        assert("pow"@.len() != "core.operator.sub"@.len());
    }
    assert(c != "*"@) by {
        reveal_strlit("pow");
        reveal_strlit("*");
        assert("pow"@.len() != "*"@.len());
    }
    assert(c != "mul"@) by {
        reveal_strlit("pow");
        reveal_strlit("mul");
        assert("pow"@[0] != "mul"@[0]);
    }
    assert(c != "core.operator.mul"@) by {
        reveal_strlit("pow");
        reveal_strlit("core.operator.mul");
        assert("pow"@.len() != "core.operator.mul"@.len());
    }
    assert(c != "/"@) by {
        reveal_strlit("pow");
        reveal_strlit("/");
        assert("pow"@.len() != "/"@.len());
    }
    assert(c != "div"@) by {
        reveal_strlit("pow");
        reveal_strlit("div");
        assert("pow"@[0] != "div"@[0]);
    }
    assert(c != "core.operator.div"@) by {
        reveal_strlit("pow");
        reveal_strlit("core.operator.div");
        assert("pow"@.len() != "core.operator.div"@.len());
    }
    assert(c != "core.operator.pow"@) by {
        reveal_strlit("pow");
        reveal_strlit("core.operator.pow");
        assert("pow"@.len() != "core.operator.pow"@.len());
    }
    assert(c.len() == 3) by {
        reveal_strlit("pow");
    }
    lemma_not_payload_nor_audio(c);
}

proof fn lemma_alias_core_operator_pow(c: Seq<char>)
    requires
        c == "core.operator.pow"@,
    ensures
        control_operator_kind_spec(c) == Some("core.operator.pow"@),
        !payload_identity_spec(c),
        unsupported_audio_spec(c) is None,
{
    assert(c != "+"@) by {
        reveal_strlit("core.operator.pow");
        reveal_strlit("+");
        assert("core.operator.pow"@.len() != "+"@.len());
    }
    assert(c != "add"@) by {
        reveal_strlit("core.operator.pow");
        reveal_strlit("add");
        assert("core.operator.pow"@.len() != "add"@.len());
    }
    assert(c != "core.operator.add"@) by {
        reveal_strlit("core.operator.pow");
        reveal_strlit("core.operator.add");
        assert("core.operator.pow"@[14] != "core.operator.add"@[14]);
    }
    assert(c != "-"@) by {
        reveal_strlit("core.operator.pow");
        reveal_strlit("-");
        assert("core.operator.pow"@.len() != "-"@.len());
    }
    assert(c != "sub"@) by {
        reveal_strlit("core.operator.pow");
        reveal_strlit("sub");
        assert("core.operator.pow"@.len() != "sub"@.len());
    }
    assert(c != "core.operator.sub"@) by {
        reveal_strlit("core.operator.pow");
        reveal_strlit("core.operator.sub");
        assert("core.operator.pow"@[14] != "core.operator.sub"@[14]);
    }
    assert(c != "*"@) by {
        reveal_strlit("core.operator.pow");
        reveal_strlit("*");
        assert("core.operator.pow"@.len() != "*"@.len());
    }
    assert(c != "mul"@) by {
        reveal_strlit("core.operator.pow");
        reveal_strlit("mul");
        assert("core.operator.pow"@.len() != "mul"@.len());
    }
    assert(c != "core.operator.mul"@) by {
        reveal_strlit("core.operator.pow");
        reveal_strlit("core.operator.mul");
        assert("core.operator.pow"@[14] != "core.operator.mul"@[14]);
    }
    assert(c != "/"@) by {
        reveal_strlit("core.operator.pow");
        reveal_strlit("/");
        assert("core.operator.pow"@.len() != "/"@.len());
    }
    assert(c != "div"@) by {
        reveal_strlit("core.operator.pow");
        reveal_strlit("div");
        assert("core.operator.pow"@.len() != "div"@.len());
    }
    assert(c != "core.operator.div"@) by {
        reveal_strlit("core.operator.pow");
        reveal_strlit("core.operator.div");
        assert("core.operator.pow"@[14] != "core.operator.div"@[14]);
    }
    assert(c != "pow"@) by {
        reveal_strlit("core.operator.pow");
        reveal_strlit("pow");
        assert("core.operator.pow"@.len() != "pow"@.len());
    }
    assert(c.len() == 17 && c[0] == 'c' && c[3] == 'e') by {
        reveal_strlit("core.operator.pow");
    }
    lemma_not_payload_nor_audio(c);
}

proof fn lemma_alias_min(c: Seq<char>)
    requires
        c == "min"@,
    ensures
        control_operator_kind_spec(c) == Some("core.operator.min"@),
        !payload_identity_spec(c),
        unsupported_audio_spec(c) is None,
{
    assert(c != "+"@) by {
        reveal_strlit("min");
        reveal_strlit("+");
        assert("min"@.len() != "+"@.len());
    }
    assert(c != "add"@) by {
        reveal_strlit("min");
        reveal_strlit("add");
        assert("min"@[0] != "add"@[0]);
    }
    assert(c != "core.operator.add"@) by {
        reveal_strlit("min");
        reveal_strlit("core.operator.add");
        assert("min"@.len() != "core.operator.add"@.len());
    }
    assert(c != "-"@) by {
        reveal_strlit("min");
        reveal_strlit("-");
        assert("min"@.len() != "-"@.len());
    }
    assert(c != "sub"@) by {
        reveal_strlit("min");
        reveal_strlit("sub");
        assert("min"@[0] != "sub"@[0]);
    }
    assert(c != "core.operator.sub"@) by {
        reveal_strlit("min");
        reveal_strlit("core.operator.sub");
        assert("min"@.len() != "core.operator.sub"@.len());
    }
    assert(c != "*"@) by {
        reveal_strlit("min");
        reveal_strlit("*");
        assert("min"@.len() != "*"@.len());
    }
    assert(c != "mul"@) by {
        reveal_strlit("min");
        reveal_strlit("mul");
        assert("min"@[1] != "mul"@[1]);
    }
    assert(c != "core.operator.mul"@) by {
        reveal_strlit("min");
        reveal_strlit("core.operator.mul");
        assert("min"@.len() != "core.operator.mul"@.len());
    }
    assert(c != "/"@) by {
        reveal_strlit("min");
        reveal_strlit("/");
        assert("min"@.len() != "/"@.len());
    }
    assert(c != "div"@) by {
        reveal_strlit("min");
        reveal_strlit("div");
        assert("min"@[0] != "div"@[0]);
    }
    assert(c != "core.operator.div"@) by {
        reveal_strlit("min");
        reveal_strlit("core.operator.div");
        assert("min"@.len() != "core.operator.div"@.len());
    }
    assert(c != "pow"@) by {
        reveal_strlit("min");
        reveal_strlit("pow");
        assert("min"@[0] != "pow"@[0]);
    }
    assert(c != "core.operator.pow"@) by {
        reveal_strlit("min");
        reveal_strlit("core.operator.pow");
        assert("min"@.len() != "core.operator.pow"@.len());
    }
    assert(c != "core.operator.min"@) by {
        reveal_strlit("min");
        reveal_strlit("core.operator.min");
        assert("min"@.len() != "core.operator.min"@.len());
    }
    assert(c.len() == 3) by {
        reveal_strlit("min");
    }
    lemma_not_payload_nor_audio(c);
}

proof fn lemma_alias_core_operator_min(c: Seq<char>)
    requires
        c == "core.operator.min"@,
    ensures
        control_operator_kind_spec(c) == Some("core.operator.min"@),
        !payload_identity_spec(c),
        unsupported_audio_spec(c) is None,
{
    assert(c != "+"@) by {
        reveal_strlit("core.operator.min");
        reveal_strlit("+");
        assert("core.operator.min"@.len() != "+"@.len());
    }
    assert(c != "add"@) by {
        reveal_strlit("core.operator.min");
        reveal_strlit("add");
        assert("core.operator.min"@.len() != "add"@.len());
    }
    assert(c != "core.operator.add"@) by {
        reveal_strlit("core.operator.min");
        reveal_strlit("core.operator.add");
        assert("core.operator.min"@[14] != "core.operator.add"@[14]);
    }
    assert(c != "-"@) by {
        reveal_strlit("core.operator.min");
        reveal_strlit("-");
        assert("core.operator.min"@.len() != "-"@.len());
    }
    assert(c != "sub"@) by {
        reveal_strlit("core.operator.min");
        reveal_strlit("sub");
        assert("core.operator.min"@.len() != "sub"@.len());
    }
    assert(c != "core.operator.sub"@) by {
        reveal_strlit("core.operator.min");
        reveal_strlit("core.operator.sub");
        assert("core.operator.min"@[14] != "core.operator.sub"@[14]);
    }
    assert(c != "*"@) by {
        reveal_strlit("core.operator.min");
        reveal_strlit("*");
        assert("core.operator.min"@.len() != "*"@.len());
    }
    assert(c != "mul"@) by {
        reveal_strlit("core.operator.min");
        reveal_strlit("mul");
        assert("core.operator.min"@.len() != "mul"@.len());
    }
    assert(c != "core.operator.mul"@) by {
        reveal_strlit("core.operator.min");
        reveal_strlit("core.operator.mul");
        assert("core.operator.min"@[15] != "core.operator.mul"@[15]);
    }
    assert(c != "/"@) by {
        reveal_strlit("core.operator.min");
        reveal_strlit("/");
        assert("core.operator.min"@.len() != "/"@.len());
    }
    assert(c != "div"@) by {
        reveal_strlit("core.operator.min");
        reveal_strlit("div");
        assert("core.operator.min"@.len() != "div"@.len());
    }
    assert(c != "core.operator.div"@) by {
        reveal_strlit("core.operator.min");
        reveal_strlit("core.operator.div");
        assert("core.operator.min"@[14] != "core.operator.div"@[14]);
    }
    assert(c != "pow"@) by {
        reveal_strlit("core.operator.min");
        reveal_strlit("pow");
        assert("core.operator.min"@.len() != "pow"@.len());
    }
    assert(c != "core.operator.pow"@) by {
        reveal_strlit("core.operator.min");
        reveal_strlit("core.operator.pow");
        assert("core.operator.min"@[14] != "core.operator.pow"@[14]);
    }
    assert(c != "min"@) by {
        reveal_strlit("core.operator.min");
        reveal_strlit("min");
        assert("core.operator.min"@.len() != "min"@.len());
    }
    assert(c.len() == 17 && c[0] == 'c' && c[3] == 'e') by {
        reveal_strlit("core.operator.min");
    }
    lemma_not_payload_nor_audio(c);
}

proof fn lemma_alias_max(c: Seq<char>)
    requires
        c == "max"@,
    ensures
        control_operator_kind_spec(c) == Some("core.operator.max"@),
        !payload_identity_spec(c),
        unsupported_audio_spec(c) is None,
{
    assert(c != "+"@) by {
        reveal_strlit("max");
        reveal_strlit("+");
        assert("max"@.len() != "+"@.len());
    }
    assert(c != "add"@) by {
        reveal_strlit("max");
        reveal_strlit("add");
        assert("max"@[0] != "add"@[0]);
    }
    assert(c != "core.operator.add"@) by {
        reveal_strlit("max");
        reveal_strlit("core.operator.add");
        assert("max"@.len() != "core.operator.add"@.len());
    }
    assert(c != "-"@) by {
        reveal_strlit("max");
        reveal_strlit("-");
        assert("max"@.len() != "-"@.len());
    }
    assert(c != "sub"@) by {
        reveal_strlit("max");
        reveal_strlit("sub");
        assert("max"@[0] != "sub"@[0]);
    }
    assert(c != "core.operator.sub"@) by {
        reveal_strlit("max");
        reveal_strlit("core.operator.sub");
        assert("max"@.len() != "core.operator.sub"@.len());
    }
    assert(c != "*"@) by {
        reveal_strlit("max");
        reveal_strlit("*");
        assert("max"@.len() != "*"@.len());
    }
    assert(c != "mul"@) by {
        reveal_strlit("max");
        reveal_strlit("mul");
        assert("max"@[1] != "mul"@[1]);
    }
    assert(c != "core.operator.mul"@) by {
        reveal_strlit("max");
        reveal_strlit("core.operator.mul");
        assert("max"@.len() != "core.operator.mul"@.len());
    }
    assert(c != "/"@) by {
        reveal_strlit("max");
        reveal_strlit("/");
        assert("max"@.len() != "/"@.len());
    }
    assert(c != "div"@) by {
        reveal_strlit("max");
        reveal_strlit("div");
        assert("max"@[0] != "div"@[0]);
    }
    assert(c != "core.operator.div"@) by {
        reveal_strlit("max");
        reveal_strlit("core.operator.div");
        assert("max"@.len() != "core.operator.div"@.len());
    }
    assert(c != "pow"@) by {
        reveal_strlit("max");
        reveal_strlit("pow");
        assert("max"@[0] != "pow"@[0]);
    }
    assert(c != "core.operator.pow"@) by {
        reveal_strlit("max");
        reveal_strlit("core.operator.pow");
        assert("max"@.len() != "core.operator.pow"@.len());
    }
    assert(c != "min"@) by {
        reveal_strlit("max");
        reveal_strlit("min");
        assert("max"@[1] != "min"@[1]);
    }
    assert(c != "core.operator.min"@) by {
        reveal_strlit("max");
        reveal_strlit("core.operator.min");
        assert("max"@.len() != "core.operator.min"@.len());
    }
    assert(c != "core.operator.max"@) by {
        reveal_strlit("max");
        reveal_strlit("core.operator.max");
        assert("max"@.len() != "core.operator.max"@.len());
    }
    assert(c.len() == 3) by {
        reveal_strlit("max");
    }
    lemma_not_payload_nor_audio(c);
}

proof fn lemma_alias_core_operator_max(c: Seq<char>)
    requires
        c == "core.operator.max"@,
    ensures
        control_operator_kind_spec(c) == Some("core.operator.max"@),
        !payload_identity_spec(c),
        unsupported_audio_spec(c) is None,
{
    assert(c != "+"@) by {
        reveal_strlit("core.operator.max");
        reveal_strlit("+");
        assert("core.operator.max"@.len() != "+"@.len());
    }
    assert(c != "add"@) by {
        reveal_strlit("core.operator.max");
        reveal_strlit("add");
        assert("core.operator.max"@.len() != "add"@.len());
    }
    assert(c != "core.operator.add"@) by {
        reveal_strlit("core.operator.max");
        reveal_strlit("core.operator.add");
        assert("core.operator.max"@[14] != "core.operator.add"@[14]);
    }
    assert(c != "-"@) by {
        reveal_strlit("core.operator.max");
        reveal_strlit("-");
        assert("core.operator.max"@.len() != "-"@.len());
    }
    assert(c != "sub"@) by {
        reveal_strlit("core.operator.max");
        reveal_strlit("sub");
        assert("core.operator.max"@.len() != "sub"@.len());
    }
    assert(c != "core.operator.sub"@) by {
        reveal_strlit("core.operator.max");
        reveal_strlit("core.operator.sub");
        assert("core.operator.max"@[14] != "core.operator.sub"@[14]);
    }
    assert(c != "*"@) by {
        reveal_strlit("core.operator.max");
        reveal_strlit("*");
        assert("core.operator.max"@.len() != "*"@.len());
    }
    assert(c != "mul"@) by {
        reveal_strlit("core.operator.max");
        reveal_strlit("mul");
        assert("core.operator.max"@.len() != "mul"@.len());
    }
    assert(c != "core.operator.mul"@) by {
        reveal_strlit("core.operator.max");
        reveal_strlit("core.operator.mul");
        assert("core.operator.max"@[15] != "core.operator.mul"@[15]);
    }
    assert(c != "/"@) by {
        reveal_strlit("core.operator.max");
        reveal_strlit("/");
        assert("core.operator.max"@.len() != "/"@.len());
    }
    assert(c != "div"@) by {
        reveal_strlit("core.operator.max");
        reveal_strlit("div");
        assert("core.operator.max"@.len() != "div"@.len());
    }
    assert(c != "core.operator.div"@) by {
        reveal_strlit("core.operator.max");
        reveal_strlit("core.operator.div");
        assert("core.operator.max"@[14] != "core.operator.div"@[14]);
    }
    assert(c != "pow"@) by {
        reveal_strlit("core.operator.max");
        reveal_strlit("pow");
        assert("core.operator.max"@.len() != "pow"@.len());
    }
    assert(c != "core.operator.pow"@) by {
        reveal_strlit("core.operator.max");
        reveal_strlit("core.operator.pow");
        assert("core.operator.max"@[14] != "core.operator.pow"@[14]);
    }
    assert(c != "min"@) by {
        reveal_strlit("core.operator.max");
        reveal_strlit("min");
        assert("core.operator.max"@.len() != "min"@.len());
    }
    assert(c != "core.operator.min"@) by {
        reveal_strlit("core.operator.max");
        reveal_strlit("core.operator.min");
        assert("core.operator.max"@[15] != "core.operator.min"@[15]);
    }
    assert(c != "max"@) by {
        reveal_strlit("core.operator.max");
        reveal_strlit("max");
        assert("core.operator.max"@.len() != "max"@.len());
    }
    assert(c.len() == 17 && c[0] == 'c' && c[3] == 'e') by {
        reveal_strlit("core.operator.max");
    }
    lemma_not_payload_nor_audio(c);
}

} // verus!
