//! Runtime control values: the values that control objects (numbers,
//! toggles, messages, UI widgets) hold and emit.
use vstd::prelude::*;
use crate::contract::{
    F32Value, GraphNode, JsonNumberRepr, JsonScalar, ParamValue, param_get, param_lookup,
};
use crate::text::{owned, str_eq};

verus! {

pub const VALUE_F32_KIND: &'static str = "core.value-f32";
pub const VALUE_I32_KIND: &'static str = "core.value-i32";
pub const VALUE_BOOL_KIND: &'static str = "core.value-bool";
pub const COLOR_RGBA_KIND: &'static str = "core.color-rgba";
pub const STRING_KIND: &'static str = "core.value-string";
pub const TOGGLE_KIND: &'static str = "core.toggle";
pub const MESSAGE_KIND: &'static str = "core.message";
pub const COMMENT_KIND: &'static str = "core.comment";
pub const PANEL_KIND: &'static str = "core.panel";
pub const UI_BUTTON_KIND: &'static str = "ui.button";
pub const UI_SLIDER_F32_KIND: &'static str = "ui.slider-f32";
pub const UI_TOGGLE_KIND: &'static str = "ui.toggle";

/// An RGBA colour with 32-bit float channels.
#[derive(Debug, Clone, PartialEq, Eq)]
pub struct RgbaValue {
    pub red: F32Value,
    pub green: F32Value,
    pub blue: F32Value,
    pub alpha: F32Value,
}

/// A value held or emitted by a control object.
#[derive(Debug, Clone, PartialEq, Eq)]
pub enum ControlValue {
    F32(F32Value),
    I32(i32),
    Bool(bool),
    String(String),
    Rgba(RgbaValue),
    Bang,
}

/// The view of a 32-bit float: bit pattern and display text.
pub struct F32View {
    pub bits: u32,
    pub text: Seq<char>,
}

/// The view of a control value.
pub enum ControlValueView {
    F32(F32View),
    I32(i32),
    Bool(bool),
    Str(Seq<char>),
    Rgba(F32View, F32View, F32View, F32View),
    Bang,
}

impl View for F32Value {
    type V = F32View;

    open spec fn view(&self) -> F32View {
        F32View { bits: self.bits, text: self.text@ }
    }
}

impl View for ControlValue {
    type V = ControlValueView;

    open spec fn view(&self) -> ControlValueView {
        match self {
            ControlValue::F32(v) => ControlValueView::F32(v@),
            ControlValue::I32(v) => ControlValueView::I32(*v),
            ControlValue::Bool(v) => ControlValueView::Bool(*v),
            ControlValue::String(v) => ControlValueView::Str(v@),
            ControlValue::Rgba(c) => ControlValueView::Rgba(c.red@, c.green@, c.blue@, c.alpha@),
            ControlValue::Bang => ControlValueView::Bang,
        }
    }
}

/// Kinds whose objects hold a stored control value.
pub open spec fn is_control_value_kind_spec(kind: Seq<char>) -> bool {
    ||| kind == VALUE_F32_KIND@
    ||| kind == VALUE_I32_KIND@
    ||| kind == VALUE_BOOL_KIND@
    ||| kind == COLOR_RGBA_KIND@
    ||| kind == STRING_KIND@
    ||| kind == TOGGLE_KIND@
    ||| kind == MESSAGE_KIND@
    ||| kind == COMMENT_KIND@
    ||| kind == PANEL_KIND@
}

/// Kinds of the UI panel widgets.
pub open spec fn is_ui_control_kind_spec(kind: Seq<char>) -> bool {
    ||| kind == UI_BUTTON_KIND@
    ||| kind == UI_SLIDER_F32_KIND@
    ||| kind == UI_TOGGLE_KIND@
}

/// Kinds that accept runtime control events.
pub open spec fn supports_runtime_control_events_spec(kind: Seq<char>) -> bool {
    is_control_value_kind_spec(kind) || is_ui_control_kind_spec(kind)
}

/// The label of a value's type in diagnostics.
pub open spec fn kind_label_spec(v: ControlValueView) -> Seq<char> {
    match v {
        ControlValueView::F32(_) => "f32"@,
        ControlValueView::I32(_) => "i32"@,
        ControlValueView::Bool(_) => "bool"@,
        ControlValueView::Str(_) => "string"@,
        ControlValueView::Rgba(..) => "rgba"@,
        ControlValueView::Bang => "bang"@,
    }
}

/// Whether two values have the same type.
pub open spec fn same_type(a: ControlValueView, b: ControlValueView) -> bool {
    match (a, b) {
        (ControlValueView::F32(_), ControlValueView::F32(_)) => true,
        (ControlValueView::I32(_), ControlValueView::I32(_)) => true,
        (ControlValueView::Bool(_), ControlValueView::Bool(_)) => true,
        (ControlValueView::Str(_), ControlValueView::Str(_)) => true,
        (ControlValueView::Rgba(..), ControlValueView::Rgba(..)) => true,
        (ControlValueView::Bang, ControlValueView::Bang) => true,
        _ => false,
    }
}

/// The data kind under which a value travels on a named channel.
pub open spec fn data_kind_spec(v: ControlValueView) -> Seq<char> {
    match v {
        ControlValueView::F32(_) => "number.f32"@,
        ControlValueView::I32(_) => "number.i32"@,
        ControlValueView::Bool(_) => "boolean"@,
        ControlValueView::Str(_) => "string"@,
        ControlValueView::Rgba(..) => "color.rgba"@,
        ControlValueView::Bang => "event.bang"@,
    }
}

/// The float `0.0` (`Display`: "0").
pub open spec fn zero_f32() -> F32View {
    F32View { bits: 0, text: "0"@ }
}

/// The float `1.0` (`Display`: "1").
pub open spec fn one_f32() -> F32View {
    F32View { bits: 0x3f80_0000, text: "1"@ }
}

/// Reads a JSON scalar as a colour channel.
pub open spec fn scalar_channel(s: JsonScalar) -> Option<F32View> {
    match s {
        JsonScalar::Number(n) => Some(n.as_f32@),
        _ => None,
    }
}

/// The value a control object starts with, read from its `value` parameter.
/// Numbers, booleans, strings and four-number arrays are taken as given for
/// the matching kinds; a missing or mistyped parameter gives the type's zero
/// value (opaque black for colours). Objects of other kinds hold no value.
pub open spec fn default_value_spec(node: GraphNode) -> Option<ControlValueView> {
    let kind = node.kind@;
    let param = param_lookup(node.params@, "value"@);
    if kind == VALUE_F32_KIND@ || kind == UI_SLIDER_F32_KIND@ {
        Some(ControlValueView::F32(
            match param {
                Some(ParamValue::Number(n)) => n.as_f32@,
                _ => zero_f32(),
            },
        ))
    } else if kind == VALUE_I32_KIND@ {
        Some(ControlValueView::I32(
            match param {
                Some(ParamValue::Number(n)) => match n.repr {
                    JsonNumberRepr::PosInt(v) => if v <= i32::MAX {
                        v as i32
                    } else {
                        0
                    },
                    JsonNumberRepr::NegInt(v) => if i32::MIN <= v && v <= i32::MAX {
                        v as i32
                    } else {
                        0
                    },
                    JsonNumberRepr::Float(_) => 0,
                },
                _ => 0,
            },
        ))
    } else if kind == VALUE_BOOL_KIND@ || kind == TOGGLE_KIND@ || kind == UI_TOGGLE_KIND@ {
        Some(ControlValueView::Bool(
            match param {
                Some(ParamValue::Bool(b)) => b,
                _ => false,
            },
        ))
    } else if kind == COLOR_RGBA_KIND@ {
        match param {
            Some(ParamValue::Array(items)) if items@.len() == 4 && scalar_channel(items@[0]) is Some
                && scalar_channel(items@[1]) is Some && scalar_channel(items@[2]) is Some
                && scalar_channel(items@[3]) is Some => Some(
                ControlValueView::Rgba(
                    scalar_channel(items@[0]).unwrap(),
                    scalar_channel(items@[1]).unwrap(),
                    scalar_channel(items@[2]).unwrap(),
                    scalar_channel(items@[3]).unwrap(),
                ),
            ),
            _ => Some(ControlValueView::Rgba(zero_f32(), zero_f32(), zero_f32(), one_f32())),
        }
    } else if kind == STRING_KIND@ || kind == MESSAGE_KIND@ || kind == COMMENT_KIND@ || kind
        == PANEL_KIND@ {
        Some(ControlValueView::Str(
            match param {
                Some(ParamValue::String(s)) => s@,
                _ => Seq::empty(),
            },
        ))
    } else {
        None
    }
}

pub fn is_control_value_kind(kind: &str) -> (r: bool)
    ensures
        r == is_control_value_kind_spec(kind@),
{
    str_eq(kind, VALUE_F32_KIND) || str_eq(kind, VALUE_I32_KIND) || str_eq(kind, VALUE_BOOL_KIND)
        || str_eq(kind, COLOR_RGBA_KIND) || str_eq(kind, STRING_KIND) || str_eq(kind, TOGGLE_KIND)
        || str_eq(kind, MESSAGE_KIND) || str_eq(kind, COMMENT_KIND) || str_eq(kind, PANEL_KIND)
}

pub fn is_ui_control_kind(kind: &str) -> (r: bool)
    ensures
        r == is_ui_control_kind_spec(kind@),
{
    str_eq(kind, UI_BUTTON_KIND) || str_eq(kind, UI_SLIDER_F32_KIND) || str_eq(kind, UI_TOGGLE_KIND)
}

pub fn supports_runtime_control_events(kind: &str) -> (r: bool)
    ensures
        r == supports_runtime_control_events_spec(kind@),
{
    is_control_value_kind(kind) || is_ui_control_kind(kind)
}

pub fn copy_f32(v: &F32Value) -> (r: F32Value)
    ensures
        r@ == v@,
{
    F32Value { bits: v.bits, text: v.text.clone() }
}

fn zero_f32_value() -> (r: F32Value)
    ensures
        r@ == zero_f32(),
{
    F32Value { bits: 0, text: owned("0") }
}

fn one_f32_value() -> (r: F32Value)
    ensures
        r@ == one_f32(),
{
    F32Value { bits: 0x3f80_0000, text: owned("1") }
}

fn scalar_channel_value(s: &JsonScalar) -> (r: Option<F32Value>)
    ensures
        r matches Some(v) ==> scalar_channel(*s) == Some(v@),
        r is None ==> scalar_channel(*s) is None,
{
    match s {
        JsonScalar::Number(n) => Some(copy_f32(&n.as_f32)),
        _ => None,
    }
}

impl ControlValue {
    /// A value with the same view.
    pub fn duplicate(&self) -> (r: ControlValue)
        ensures
            r@ == self@,
    {
        match self {
            ControlValue::F32(v) => ControlValue::F32(copy_f32(v)),
            ControlValue::I32(v) => ControlValue::I32(*v),
            ControlValue::Bool(v) => ControlValue::Bool(*v),
            ControlValue::String(v) => ControlValue::String(v.clone()),
            ControlValue::Rgba(c) => ControlValue::Rgba(
                RgbaValue {
                    red: copy_f32(&c.red),
                    green: copy_f32(&c.green),
                    blue: copy_f32(&c.blue),
                    alpha: copy_f32(&c.alpha),
                },
            ),
            ControlValue::Bang => ControlValue::Bang,
        }
    }

    /// The label of this value's type in diagnostics.
    pub fn kind_label(&self) -> (r: &'static str)
        ensures
            r@ == kind_label_spec(self@),
    {
        match self {
            ControlValue::F32(_) => "f32",
            ControlValue::I32(_) => "i32",
            ControlValue::Bool(_) => "bool",
            ControlValue::String(_) => "string",
            ControlValue::Rgba(_) => "rgba",
            ControlValue::Bang => "bang",
        }
    }

    /// Whether this value has the same type as `stored`.
    pub fn matches_stored_type(&self, stored: &ControlValue) -> (r: bool)
        ensures
            r == same_type(self@, stored@),
    {
        match (self, stored) {
            (ControlValue::F32(_), ControlValue::F32(_)) => true,
            (ControlValue::I32(_), ControlValue::I32(_)) => true,
            (ControlValue::Bool(_), ControlValue::Bool(_)) => true,
            (ControlValue::String(_), ControlValue::String(_)) => true,
            (ControlValue::Rgba(_), ControlValue::Rgba(_)) => true,
            (ControlValue::Bang, ControlValue::Bang) => true,
            _ => false,
        }
    }

    /// The value a control object starts with (see `default_value_spec`).
    pub fn for_node_default(node: &GraphNode) -> (r: Option<ControlValue>)
        ensures
            r matches Some(v) ==> default_value_spec(*node) == Some(v@),
            r is None ==> default_value_spec(*node) is None,
    {
        let kind = node.kind.as_str();
        let param = param_get(&node.params, "value");
        if str_eq(kind, VALUE_F32_KIND) || str_eq(kind, UI_SLIDER_F32_KIND) {
            let v = match param {
                Some(ParamValue::Number(n)) => copy_f32(&n.as_f32),
                _ => zero_f32_value(),
            };
            Some(ControlValue::F32(v))
        } else if str_eq(kind, VALUE_I32_KIND) {
            let v: i32 = match param {
                Some(ParamValue::Number(n)) => match &n.repr {
                    JsonNumberRepr::PosInt(v) => if *v <= 2147483647 {
                        *v as i32
                    } else {
                        0
                    },
                    JsonNumberRepr::NegInt(v) => if -2147483648 <= *v && *v <= 2147483647 {
                        *v as i32
                    } else {
                        0
                    },
                    JsonNumberRepr::Float(_) => 0,
                },
                _ => 0,
            };
            Some(ControlValue::I32(v))
        } else if str_eq(kind, VALUE_BOOL_KIND) || str_eq(kind, TOGGLE_KIND) || str_eq(
            kind,
            UI_TOGGLE_KIND,
        ) {
            let v = match param {
                Some(ParamValue::Bool(b)) => *b,
                _ => false,
            };
            Some(ControlValue::Bool(v))
        } else if str_eq(kind, COLOR_RGBA_KIND) {
            if let Some(ParamValue::Array(items)) = param {
                if items.len() == 4 {
                    let r = scalar_channel_value(&items[0]);
                    let g = scalar_channel_value(&items[1]);
                    let b = scalar_channel_value(&items[2]);
                    let a = scalar_channel_value(&items[3]);
                    if let (Some(r), Some(g), Some(b), Some(a)) = (r, g, b, a) {
                        return Some(
                            ControlValue::Rgba(RgbaValue { red: r, green: g, blue: b, alpha: a }),
                        );
                    }
                }
            }
            Some(
                ControlValue::Rgba(
                    RgbaValue {
                        red: zero_f32_value(),
                        green: zero_f32_value(),
                        blue: zero_f32_value(),
                        alpha: one_f32_value(),
                    },
                ),
            )
        } else if str_eq(kind, STRING_KIND) || str_eq(kind, MESSAGE_KIND) || str_eq(
            kind,
            COMMENT_KIND,
        ) || str_eq(kind, PANEL_KIND) {
            let v = match param {
                Some(ParamValue::String(s)) => s.clone(),
                _ => String::new(),
            };
            Some(ControlValue::String(v))
        } else {
            None
        }
    }
}

/// The data kind under which a value travels on a named channel.
pub fn data_kind_for_control_value(value: &ControlValue) -> (r: &'static str)
    ensures
        r@ == data_kind_spec(value@),
{
    match value {
        ControlValue::F32(_) => "number.f32",
        ControlValue::I32(_) => "number.i32",
        ControlValue::Bool(_) => "boolean",
        ControlValue::String(_) => "string",
        ControlValue::Rgba(_) => "color.rgba",
        ControlValue::Bang => "event.bang",
    }
}

/// The kind names are distinct: value objects are no UI widgets, and the
/// toggle, message-like and plain value kinds differ from each other.
pub proof fn lemma_control_kinds_are_not_ui(kind: Seq<char>)
    ensures
        is_control_value_kind_spec(kind) ==> !is_ui_control_kind_spec(kind),
        kind == TOGGLE_KIND@ ==> kind != MESSAGE_KIND@ && kind != COMMENT_KIND@ && kind != PANEL_KIND@,
        kind == UI_TOGGLE_KIND@ ==> kind != UI_BUTTON_KIND@ && kind != UI_SLIDER_F32_KIND@
            && is_ui_control_kind_spec(kind),
        kind == UI_BUTTON_KIND@ ==> kind != UI_SLIDER_F32_KIND@ && kind != UI_TOGGLE_KIND@,
        kind == UI_SLIDER_F32_KIND@ ==> kind != UI_BUTTON_KIND@ && kind != UI_TOGGLE_KIND@,
        kind == MESSAGE_KIND@ ==> kind != TOGGLE_KIND@,
{
    reveal_strlit("core.value-f32");
    reveal_strlit("core.value-i32");
    reveal_strlit("core.value-bool");
    reveal_strlit("core.color-rgba");
    reveal_strlit("core.value-string");
    reveal_strlit("core.toggle");
    reveal_strlit("core.message");
    reveal_strlit("core.comment");
    reveal_strlit("core.panel");
    reveal_strlit("ui.button");
    reveal_strlit("ui.slider-f32");
    reveal_strlit("ui.toggle");
    assert(TOGGLE_KIND@ == "core.toggle"@);
    assert(TOGGLE_KIND@.len() == 11);
    assert(MESSAGE_KIND@.len() == 12);
    if is_control_value_kind_spec(kind) {
        assert(kind[0] == 'c');
    }
    if is_ui_control_kind_spec(kind) {
        assert(kind[0] == 'u');
    }
    assert(UI_TOGGLE_KIND@[3] != UI_BUTTON_KIND@[3]);
    assert(UI_TOGGLE_KIND@.len() != UI_SLIDER_F32_KIND@.len());
}

} // verus!
