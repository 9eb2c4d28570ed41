//! Text-valued strategy parameters read by the risk controls.
use vstd::prelude::*;

use crate::semantics::key_text;
use crate::storage::{index_view, positions};
use crate::text::{
    ascii_lower, ascii_upper, chars_of, eq_ignore_ascii_case, is_blank, lower_of, str_eq, trim_lower,
    trim_owned, trim_upper, trimmed,
};

verus! {

/// The boolean a parameter text names: `true`/`1`/`yes`/`on` or
/// `false`/`0`/`no`/`off`, trimmed, ASCII case ignored.
pub open spec fn bool_text(text: Seq<char>) -> Option<bool> {
    let t = key_text(text);
    if t == "true"@ || t == "1"@ || t == "yes"@ || t == "on"@ {
        Some(true)
    } else if t == "false"@ || t == "0"@ || t == "no"@ || t == "off"@ {
        Some(false)
    } else {
        None
    }
}

/// Reads a boolean parameter given as text.
pub fn parse_bool_text(text: &str) -> (out: Option<bool>)
    ensures
        out == bool_text(text@),
{
    let t = trim_lower(text);
    let s = t.as_str();
    if str_eq(s, "true") || str_eq(s, "1") || str_eq(s, "yes") || str_eq(s, "on") {
        Some(true)
    } else if str_eq(s, "false") || str_eq(s, "0") || str_eq(s, "no") || str_eq(s, "off") {
        Some(false)
    } else {
        None
    }
}

/// What a configured position size is a fraction of.
#[derive(Clone, Copy, Debug, PartialEq, Eq, Structural)]
pub enum PositionSizeMode {
    /// A fraction of capital used as margin (leverage applies).
    MarginFraction,
    /// A fraction of capital as notional exposure.
    NotionalFraction,
}

/// Whether a sizing mode text names notional sizing.
pub open spec fn notional_mode_text(text: Seq<char>) -> bool {
    let t = key_text(text);
    t == "notional"@ || t == "effective_notional"@ || t == "effective_exposure"@ || t == "exposure"@
}

/// The sizing mode chosen by the two flags and the mode text.
pub open spec fn sizing_mode_of(
    is_notional: Option<bool>,
    is_effective_notional: Option<bool>,
    mode_text: Option<Seq<char>>,
) -> PositionSizeMode {
    let forced = match is_notional {
        Some(b) => b,
        None => is_effective_notional == Some(true),
    };
    if forced || (mode_text matches Some(t) && notional_mode_text(t)) {
        PositionSizeMode::NotionalFraction
    } else {
        PositionSizeMode::MarginFraction
    }
}

/// The sizing mode: the `position_size_is_notional` flag (or, when that is
/// absent, `position_size_is_effective_notional`) forces notional sizing;
/// otherwise the mode text decides, margin sizing by default.
pub fn sizing_mode_from_flags(
    is_notional: Option<bool>,
    is_effective_notional: Option<bool>,
    mode_text: Option<&str>,
) -> (m: PositionSizeMode)
    ensures
        m is NotionalFraction <==> (match is_notional {
            Some(b) => b,
            None => is_effective_notional == Some(true),
        } || (mode_text matches Some(t) && notional_mode_text(t@))),
        m == sizing_mode_of(
            is_notional,
            is_effective_notional,
            match mode_text {
                Some(t) => Some(t@),
                None => None,
            },
        ),
{
    let flag = match is_notional {
        Some(b) => b,
        None => match is_effective_notional {
            Some(b) => b,
            None => false,
        },
    };
    if flag {
        return PositionSizeMode::NotionalFraction;
    }
    match mode_text {
        None => PositionSizeMode::MarginFraction,
        Some(text) => {
            let t = trim_lower(text);
            let s = t.as_str();
            if str_eq(s, "notional") || str_eq(s, "effective_notional") || str_eq(
                s,
                "effective_exposure",
            ) || str_eq(s, "exposure") {
                PositionSizeMode::NotionalFraction
            } else {
                PositionSizeMode::MarginFraction
            }
        },
    }
}


/// How the sizing flags combine: a set `position_size_is_notional` flag
/// decides alone, true forcing notional sizing and false leaving the choice
/// to the mode text (the effective-notional flag is then ignored); the
/// effective-notional flag counts only when the first is absent; with no
/// flag and no mode text, sizing is by margin.
pub proof fn lemma_sizing_flags(
    is_notional: Option<bool>,
    is_effective_notional: Option<bool>,
    mode_text: Option<Seq<char>>,
)
    ensures
        is_notional == Some(true) ==> sizing_mode_of(is_notional, is_effective_notional, mode_text)
            is NotionalFraction,
        is_notional == Some(false) ==> sizing_mode_of(is_notional, is_effective_notional, mode_text)
            == sizing_mode_of(None, None, mode_text),
        is_notional is None && is_effective_notional == Some(true) ==> sizing_mode_of(
            is_notional,
            is_effective_notional,
            mode_text,
        ) is NotionalFraction,
        sizing_mode_of(None, None, None) is MarginFraction,
        sizing_mode_of(None, Some(false), mode_text) == sizing_mode_of(None, None, mode_text),
        mode_text matches Some(t) && (key_text(t) == "notional"@ || key_text(t) == "effective_notional"@
            || key_text(t) == "effective_exposure"@ || key_text(t) == "exposure"@) ==> sizing_mode_of(
            is_notional,
            is_effective_notional,
            mode_text,
        ) is NotionalFraction,
{
}

/// Sizing-mode texts that select notional sizing, compared trimmed and in
/// ASCII lower case: `notional`, `effective_notional`, `effective_exposure`
/// and `exposure`; any other text selects margin sizing.
pub proof fn lemma_notional_mode_names(text: Seq<char>)
    ensures
        key_text(text) == "notional"@ ==> notional_mode_text(text),
        key_text(text) == "effective_notional"@ ==> notional_mode_text(text),
        key_text(text) == "effective_exposure"@ ==> notional_mode_text(text),
        key_text(text) == "exposure"@ ==> notional_mode_text(text),
        notional_mode_text(text) ==> key_text(text) == "notional"@ || key_text(text)
            == "effective_notional"@ || key_text(text) == "effective_exposure"@ || key_text(text)
            == "exposure"@,
{
}

} // verus!

verus! {

/// A JSON value as the rules here read it. Of a number only its value as
/// a non-negative integer is held, when it is one; other numbers are read
/// elsewhere, as floats.
pub enum ParamValue {
    Null,
    Bool(bool),
    Number(Option<u64>),
    Text(String),
    List(Vec<ParamValue>),
    /// Entries in the order the parameters hold them.
    Object(Vec<(String, ParamValue)>),
}

/// The first position of `key` among an object's entries.
pub open spec fn key_position(entries: Seq<(String, ParamValue)>, key: Seq<char>) -> Option<int>
    decreases entries.len(),
{
    if entries.len() == 0 {
        None
    } else {
        match key_position(entries.drop_last(), key) {
            Some(i) => Some(i),
            None => if entries.last().0@ == key {
                Some(entries.len() - 1)
            } else {
                None
            },
        }
    }
}

proof fn lemma_key_position(entries: Seq<(String, ParamValue)>, key: Seq<char>)
    ensures
        match key_position(entries, key) {
            Some(i) => 0 <= i < entries.len() && entries[i].0@ == key && forall|j: int|
                0 <= j < i ==> (#[trigger] entries[j]).0@ != key,
            None => forall|j: int| 0 <= j < entries.len() ==> (#[trigger] entries[j]).0@ != key,
        },
    decreases entries.len(),
{
    if entries.len() > 0 {
        let init = entries.drop_last();
        lemma_key_position(init, key);
        assert forall|j: int| 0 <= j < init.len() implies #[trigger] entries[j] == init[j] by {}
        match key_position(init, key) {
            Some(i) => {
                assert(entries[i] == init[i]);
                assert forall|j: int| 0 <= j < i implies (#[trigger] entries[j]).0@ != key by {
                    assert(entries[j] == init[j]);
                }
            },
            None => {
                assert(entries.last() == entries[entries.len() - 1]);
                assert forall|j: int| 0 <= j < init.len() implies (#[trigger] entries[j]).0@ != key by {
                    assert(entries[j] == init[j]);
                }
            },
        }
    }
}

/// The value of an object's field (the first entry with the key); none for
/// anything but an object.
pub open spec fn field(v: ParamValue, key: Seq<char>) -> Option<ParamValue> {
    match v {
        ParamValue::Object(entries) => match key_position(entries@, key) {
            Some(i) => Some(entries@[i].1),
            None => None,
        },
        _ => None,
    }
}

impl ParamValue {
    /// The value of a field of an object.
    pub fn get(&self, key: &str) -> (out: Option<&ParamValue>)
        ensures
            match out {
                Some(v) => field(*self, key@) == Some(*v),
                None => field(*self, key@) is None,
            },
    {
        match self {
            ParamValue::Object(entries) => {
                proof {
                    lemma_key_position(entries@, key@);
                }
                let mut i: usize = 0;
                assert(forall|j: int| 0 <= j < 0 ==> (#[trigger] entries@[j]).0@ != key@);
                while i < entries.len()
                    invariant
                        i <= entries@.len(),
                        *self == ParamValue::Object(*entries),
                        forall|j: int| 0 <= j < i ==> (#[trigger] entries@[j]).0@ != key@,
                    decreases entries.len() - i,
                {
                    if str_eq(entries[i].0.as_str(), key) {
                        proof {
                            lemma_key_position(entries@, key@);
                            match key_position(entries@, key@) {
                                Some(k) => {
                                    if k < i {
                                        assert(entries@[k].0@ != key@);
                                    } else if k > i {
                                        assert(entries@[i as int].0@ != key@);
                                    }
                                },
                                None => {
                                    assert(entries@[i as int].0@ != key@);
                                },
                            }
                            assert(key_position(entries@, key@) == Some(i as int));
                            assert(*self == ParamValue::Object(*entries));
                            assert(field(*self, key@) == Some(entries@[i as int].1));
                        }
                        return Some(&entries[i].1);
                    }
                    i = i + 1;
                }
                proof {
                    lemma_key_position(entries@, key@);
                    if let Some(k) = key_position(entries@, key@) {
                        assert(entries@[k].0@ != key@);
                    }
                }
                None
            },
            _ => None,
        }
    }
}

/// The boolean a value stands for: a boolean, or a text naming one.
pub open spec fn bool_of(v: ParamValue) -> Option<bool> {
    match v {
        ParamValue::Bool(b) => Some(b),
        ParamValue::Text(t) => bool_text(t@),
        _ => None,
    }
}

/// The boolean parameter under `key`.
pub open spec fn bool_field(params: ParamValue, key: Seq<char>) -> Option<bool> {
    match field(params, key) {
        Some(v) => bool_of(v),
        None => None,
    }
}

/// The first of `keys` that holds a boolean parameter, and that boolean.
pub open spec fn first_bool(params: ParamValue, keys: Seq<Seq<char>>) -> Option<bool>
    decreases keys.len(),
{
    if keys.len() == 0 {
        None
    } else {
        match bool_field(params, keys[0]) {
            Some(b) => Some(b),
            None => first_bool(params, keys.drop_first()),
        }
    }
}

/// A boolean parameter, given as a boolean or as a text naming one.
pub fn bool_param(params: &ParamValue, key: &str) -> (out: Option<bool>)
    ensures
        out == bool_field(*params, key@),
{
    match params.get(key) {
        Some(ParamValue::Bool(b)) => Some(*b),
        Some(ParamValue::Text(t)) => parse_bool_text(t.as_str()),
        _ => None,
    }
}

/// The first of several boolean parameters that is set.
pub fn bool_param_any(params: &ParamValue, keys: &[&str]) -> (out: Option<bool>)
    ensures
        out == first_bool(*params, keys@.map_values(|k: &str| k@)),
{
    let ghost all = keys@.map_values(|k: &str| k@);
    let mut i: usize = 0;
    assert(all.subrange(0, all.len() as int) =~= all);
    while i < keys.len()
        invariant
            i <= keys@.len(),
            all == keys@.map_values(|k: &str| k@),
            first_bool(*params, all) == first_bool(*params, all.subrange(i as int, all.len() as int)),
        decreases keys.len() - i,
    {
        let ghost rest = all.subrange(i as int, all.len() as int);
        assert(rest[0] == keys@[i as int]@);
        assert(rest.drop_first() =~= all.subrange(i as int + 1, all.len() as int));
        let b = bool_param(params, keys[i]);
        if b.is_some() {
            return b;
        }
        i = i + 1;
    }
    assert(all.subrange(i as int, all.len() as int) =~= Seq::<Seq<char>>::empty());
    assert(all.subrange(0, all.len() as int) =~= all);
    None
}

/// Whether a protective stop is required: the first of
/// `require_stop_loss`, `require_protective_stop`,
/// `require_protective_risk_order` and `stop_loss_required` that is set;
/// not required by default.
pub fn require_stop_loss(params: &ParamValue) -> (b: bool)
    ensures
        b == (first_bool(
            *params,
            seq![
                "require_stop_loss"@,
                "require_protective_stop"@,
                "require_protective_risk_order"@,
                "stop_loss_required"@,
            ],
        ) == Some(true)),
{
    let keys = ["require_stop_loss", "require_protective_stop", "require_protective_risk_order", "stop_loss_required"];
    let r = bool_param_any(params, &keys);
    assert(keys@.map_values(|k: &str| k@) =~= seq![
        "require_stop_loss"@,
        "require_protective_stop"@,
        "require_protective_risk_order"@,
        "stop_loss_required"@,
    ]);
    match r {
        Some(b) => b,
        None => false,
    }
}

/// Whether short positions may be opened: the `allow_short` parameter where
/// it is set, else whether the instrument type trades as a contract
/// (`inst_type_is_contract`).
pub fn allow_short(params: &ParamValue, inst_type_is_contract: bool) -> (b: bool)
    ensures
        b == match bool_field(*params, "allow_short"@) {
            Some(x) => x,
            None => inst_type_is_contract,
        },
{
    match bool_param(params, "allow_short") {
        Some(x) => x,
        None => inst_type_is_contract,
    }
}

/// The text under `key`, or, when that field is missing, under `fallback`.
pub open spec fn text_field_or(params: ParamValue, key: Seq<char>, fallback: Seq<char>) -> Option<Seq<char>> {
    let v = match field(params, key) {
        Some(v) => Some(v),
        None => field(params, fallback),
    };
    match v {
        Some(ParamValue::Text(t)) => Some(t@),
        _ => None,
    }
}

/// The sizing mode of the strategy parameters.
pub fn position_size_mode(params: &ParamValue) -> (m: PositionSizeMode)
    ensures
        m is NotionalFraction <==> (match bool_field(*params, "position_size_is_notional"@) {
            Some(b) => b,
            None => bool_field(*params, "position_size_is_effective_notional"@) == Some(true),
        } || (text_field_or(*params, "position_size_mode"@, "position_sizing"@) matches Some(t)
            && notional_mode_text(t))),
{
    let is_notional = bool_param(params, "position_size_is_notional");
    let is_effective = bool_param(params, "position_size_is_effective_notional");
    let mode_value = match params.get("position_size_mode") {
        Some(v) => Some(v),
        None => params.get("position_sizing"),
    };
    let mode_text = match mode_value {
        Some(ParamValue::Text(t)) => Some(t.as_str()),
        _ => None,
    };
    sizing_mode_from_flags(is_notional, is_effective, mode_text)
}

} // verus!

verus! {

/// Whether a text names the symbol: trimmed, ASCII case ignored.
pub open spec fn names_symbol(text: Seq<char>, symbol: Seq<char>) -> bool {
    ascii_lower(trimmed(text)) == ascii_lower(symbol)
}

/// Whether a value is a text naming the symbol.
pub open spec fn text_names(v: ParamValue, symbol: Seq<char>) -> bool {
    v matches ParamValue::Text(t) && names_symbol(t@, symbol)
}

/// Whether some item is a text naming the symbol.
pub open spec fn list_names(items: Seq<ParamValue>, symbol: Seq<char>) -> bool {
    exists|i: int| 0 <= i < items.len() && #[trigger] text_names(items[i], symbol)
}

/// Whether a correlation-group value lists the symbol: a text naming it, a
/// list holding such a text, or an object whose `symbols` does.
pub open spec fn matches_symbol(v: ParamValue, symbol: Seq<char>) -> bool
    decreases v,
{
    match v {
        ParamValue::List(items) => list_names(items@, symbol),
        ParamValue::Object(entries) => match key_position(entries@, "symbols"@) {
            Some(i) => if 0 <= i < entries@.len() {
                matches_symbol(entries@[i].1, symbol)
            } else {
                false
            },
            None => false,
        },
        ParamValue::Text(t) => names_symbol(t@, symbol),
        _ => false,
    }
}

/// Whether a correlation-group value lists the symbol.
pub fn value_matches_symbol(value: &ParamValue, symbol: &str) -> (b: bool)
    ensures
        b == matches_symbol(*value, symbol@),
    decreases *value,
{
    match value {
        ParamValue::List(items) => {
            let mut i: usize = 0;
            while i < items.len()
                invariant
                    i <= items@.len(),
                    *value == ParamValue::List(*items),
                    forall|j: int| 0 <= j < i ==> !#[trigger] text_names(items@[j], symbol@),
                decreases items.len() - i,
            {
                if let ParamValue::Text(t) = &items[i] {
                    if eq_ignore_ascii_case(trim_owned(t.as_str()).as_str(), symbol) {
                        assert(text_names(items@[i as int], symbol@));
                        assert(list_names(items@, symbol@));
                        return true;
                    }
                }
                i = i + 1;
            }
            false
        },
        ParamValue::Object(entries) => {
            proof {
                lemma_key_position(entries@, "symbols"@);
            }
            match value.get("symbols") {
                Some(inner) => {
                    proof {
                        let k = key_position(entries@, "symbols"@)->Some_0;
                        assert(*inner == entries@[k].1);
                        assert(decreases_to!(*entries => entries[k]));
                    }
                    value_matches_symbol(inner, symbol)
                },
                None => false,
            }
        },
        ParamValue::Text(t) => eq_ignore_ascii_case(trim_owned(t.as_str()).as_str(), symbol),
        _ => false,
    }
}

} // verus!

verus! {

/// The group an object of correlation groups puts the symbol in: the first
/// entry whose value lists the symbol (the entry's name, lower-cased), or
/// whose name is the symbol and whose value is a non-blank text (that text,
/// trimmed and lower-cased).
pub open spec fn group_in_object(entries: Seq<(String, ParamValue)>, symbol: Seq<char>) -> Option<Seq<char>>
    decreases entries.len(),
{
    if entries.len() == 0 {
        None
    } else {
        let name = entries[0].0@;
        let value = entries[0].1;
        if matches_symbol(value, symbol) {
            Some(ascii_lower(name))
        } else if ascii_lower(name) == ascii_lower(symbol) && (value matches ParamValue::Text(t)
            && trimmed(t@).len() > 0) {
            Some(ascii_lower(trimmed(value->Text_0@)))
        } else {
            group_in_object(entries.drop_first(), symbol)
        }
    }
}

/// The name of a group given as an object: its `name` field, or, when it
/// has none, its `group` field, if that is a non-blank text.
pub open spec fn group_name(item: ParamValue) -> Option<Seq<char>> {
    let f = match field(item, "name"@) {
        Some(v) => Some(v),
        None => field(item, "group"@),
    };
    match f {
        Some(ParamValue::Text(t)) => if trimmed(t@).len() > 0 {
            Some(t@)
        } else {
            None
        },
        _ => None,
    }
}

/// The group a list of group objects puts the symbol in: the first named
/// object whose `symbols` lists it (its name, trimmed and lower-cased).
pub open spec fn group_in_list(items: Seq<ParamValue>, symbol: Seq<char>) -> Option<Seq<char>>
    decreases items.len(),
{
    if items.len() == 0 {
        None
    } else {
        let item = items[0];
        let listed = match field(item, "symbols"@) {
            Some(s) => matches_symbol(s, symbol),
            None => false,
        };
        match group_name(item) {
            Some(n) => if listed {
                Some(ascii_lower(trimmed(n)))
            } else {
                group_in_list(items.drop_first(), symbol)
            },
            None => group_in_list(items.drop_first(), symbol),
        }
    }
}

/// The correlation group of a symbol (trimmed, upper-cased) under the
/// `correlation_groups` parameter, given as an object or as a list.
pub open spec fn correlation_group_of(params: ParamValue, symbol: Seq<char>) -> Option<Seq<char>> {
    let s = ascii_upper(trimmed(symbol));
    if s.len() == 0 {
        None
    } else {
        match field(params, "correlation_groups"@) {
            Some(ParamValue::Object(entries)) => group_in_object(entries@, s),
            Some(ParamValue::List(items)) => group_in_list(items@, s),
            _ => None,
        }
    }
}

fn group_name_exec(item: &ParamValue) -> (out: Option<&str>)
    ensures
        match out {
            Some(n) => group_name(*item) == Some(n@),
            None => group_name(*item) is None,
        },
{
    let f = match item.get("name") {
        Some(v) => Some(v),
        None => item.get("group"),
    };
    match f {
        Some(ParamValue::Text(t)) => if is_blank(t.as_str()) {
            None
        } else {
            Some(t.as_str())
        },
        _ => None,
    }
}

/// The correlation group of a symbol, if the parameters put it in one.
pub fn correlation_group(params: &ParamValue, symbol: &str) -> (out: Option<String>)
    ensures
        match out {
            Some(g) => correlation_group_of(*params, symbol@) == Some(g@),
            None => correlation_group_of(*params, symbol@) is None,
        },
{
    let s = trim_upper(symbol);
    if chars_of(s.as_str()).len() == 0 {
        return None;
    }
    match params.get("correlation_groups") {
        Some(ParamValue::Object(entries)) => {
            let mut i: usize = 0;
            assert(entries@.subrange(0, entries@.len() as int) =~= entries@);
            while i < entries.len()
                invariant
                    i <= entries@.len(),
                    s@.len() > 0,
                    s@ == ascii_upper(trimmed(symbol@)),
                    field(*params, "correlation_groups"@) == Some(ParamValue::Object(*entries)),
                    group_in_object(entries@, s@) == group_in_object(
                        entries@.subrange(i as int, entries@.len() as int),
                        s@,
                    ),
                decreases entries.len() - i,
            {
                let ghost rest = entries@.subrange(i as int, entries@.len() as int);
                assert(rest[0] == entries@[i as int]);
                assert(rest.drop_first() =~= entries@.subrange(i as int + 1, entries@.len() as int));
                let name = entries[i].0.as_str();
                let value = &entries[i].1;
                if value_matches_symbol(value, s.as_str()) {
                    return Some(lower_text(name));
                }
                if eq_ignore_ascii_case(name, s.as_str()) {
                    if let ParamValue::Text(t) = value {
                        if !is_blank(t.as_str()) {
                            return Some(trim_lower(t.as_str()));
                        }
                    }
                }
                i = i + 1;
            }
            None
        },
        Some(ParamValue::List(items)) => {
            let mut i: usize = 0;
            assert(items@.subrange(0, items@.len() as int) =~= items@);
            while i < items.len()
                invariant
                    i <= items@.len(),
                    s@.len() > 0,
                    s@ == ascii_upper(trimmed(symbol@)),
                    field(*params, "correlation_groups"@) == Some(ParamValue::List(*items)),
                    group_in_list(items@, s@) == group_in_list(items@.subrange(i as int, items@.len() as int), s@),
                decreases items.len() - i,
            {
                let ghost rest = items@.subrange(i as int, items@.len() as int);
                assert(rest[0] == items@[i as int]);
                assert(rest.drop_first() =~= items@.subrange(i as int + 1, items@.len() as int));
                let item = &items[i];
                if let Some(name) = group_name_exec(item) {
                    let listed = match item.get("symbols") {
                        Some(v) => value_matches_symbol(v, s.as_str()),
                        None => false,
                    };
                    if listed {
                        return Some(trim_lower(name));
                    }
                }
                i = i + 1;
            }
            None
        },
        _ => None,
    }
}

fn lower_text(s: &str) -> (out: String)
    ensures
        out@ == ascii_lower(s@),
{
    let cs = chars_of(s);
    let out = lower_of(&cs, 0, cs.len());
    assert(cs@.subrange(0, cs@.len() as int) =~= cs@);
    out
}

/// The positions whose exposure adds to that of a new position: those on
/// the same side, and, when the symbol is in a correlation group, in the
/// same group. None when the side is not given.
pub fn same_direction_positions(params: &ParamValue, held: &[(i32, &str)], symbol: &str, side_dir: i32) -> (out: Vec<usize>)
    ensures
        side_dir == 0 ==> out@.len() == 0,
        side_dir != 0 ==> index_view(out@) == positions(
            held@.len(),
            |k: int|
                held@[k].0 == side_dir && match correlation_group_of(*params, symbol@) {
                    Some(g) => correlation_group_of(*params, held@[k].1@) == Some(g),
                    None => true,
                },
        ),
{
    let mut out: Vec<usize> = Vec::new();
    if side_dir == 0 {
        return out;
    }
    let target = correlation_group(params, symbol);
    let ghost p = |k: int|
        held@[k].0 == side_dir && match correlation_group_of(*params, symbol@) {
            Some(g) => correlation_group_of(*params, held@[k].1@) == Some(g),
            None => true,
        };
    assert(index_view(out@) =~= positions(0, p));
    let mut i: usize = 0;
    while i < held.len()
        invariant
            i <= held@.len(),
            p == (|k: int|
                held@[k].0 == side_dir && match correlation_group_of(*params, symbol@) {
                    Some(g) => correlation_group_of(*params, held@[k].1@) == Some(g),
                    None => true,
                }),
            match target {
                Some(g) => correlation_group_of(*params, symbol@) == Some(g@),
                None => correlation_group_of(*params, symbol@) is None,
            },
            index_view(out@) == positions(i as nat, p),
        decreases held.len() - i,
    {
        let (dir, sym) = held[i];
        let counts = if dir != side_dir {
            false
        } else {
            match &target {
                Some(g) => match correlation_group(params, sym) {
                    Some(h) => str_eq(h.as_str(), g.as_str()),
                    None => false,
                },
                None => true,
            }
        };
        assert(counts == p(i as int));
        let ghost before = index_view(out@);
        if counts {
            out.push(i);
            assert(index_view(out@) =~= before.push(i as nat));
        }
        i = i + 1;
    }
    out
}

} // verus!
