//! TOML documents as plain values, parsed and rendered by the `toml` crate.
use vstd::prelude::*;
use crate::text::{decimal, decimal_string, digit_char, digit_str, str_eq};

verus! {

/// One TOML value. Floats are held by their IEEE-754 bits; tables keep the
/// document order of their keys.
#[derive(Debug)]
pub enum TomlValue {
    String(String),
    Integer(i64),
    Float(u64),
    /// A float handed to the writer as its exact decimal literal.
    FloatLiteral(String),
    Boolean(bool),
    Datetime(String),
    Array(Vec<TomlValue>),
    Table(Vec<(String, TomlValue)>),
}

/// The mathematical form of a [`TomlValue`].
pub enum TomlModel {
    String(Seq<char>),
    Integer(i64),
    Float(u64),
    FloatLiteral(Seq<char>),
    Boolean(bool),
    Datetime(Seq<char>),
    Array(Seq<TomlModel>),
    Table(Seq<(Seq<char>, TomlModel)>),
}

/// The model of a value.
pub open spec fn toml_model(value: TomlValue) -> TomlModel
    decreases value, 0nat,
{
    match value {
        TomlValue::String(s) => TomlModel::String(s@),
        TomlValue::Integer(i) => TomlModel::Integer(i),
        TomlValue::Float(bits) => TomlModel::Float(bits),
        TomlValue::FloatLiteral(text) => TomlModel::FloatLiteral(text@),
        TomlValue::Boolean(b) => TomlModel::Boolean(b),
        TomlValue::Datetime(s) => TomlModel::Datetime(s@),
        TomlValue::Array(items) => TomlModel::Array(items_model(items, items@.len())),
        TomlValue::Table(entries) => TomlModel::Table(entries_model(entries, entries@.len())),
    }
}

/// The models of the first `n` items.
pub open spec fn items_model(items: Vec<TomlValue>, n: nat) -> Seq<TomlModel>
    decreases items, n,
{
    if n == 0 || n > items@.len() {
        Seq::empty()
    } else {
        proof {
            assert(decreases_to!(items => items@));
            assert(decreases_to!(items@ => items@[n - 1]));
        }
        items_model(items, (n - 1) as nat).push(toml_model(items@[n - 1]))
    }
}

/// The models of the first `n` entries of a table.
pub open spec fn entries_model(entries: Vec<(String, TomlValue)>, n: nat) -> Seq<(Seq<char>, TomlModel)>
    decreases entries, n,
{
    if n == 0 || n > entries@.len() {
        Seq::empty()
    } else {
        proof {
            assert(decreases_to!(entries => entries@));
            assert(decreases_to!(entries@ => entries@[n - 1]));
            assert(decreases_to!(entries@[n - 1] => entries@[n - 1].1));
        }
        entries_model(entries, (n - 1) as nat).push((entries@[n - 1].0@, toml_model(entries@[n - 1].1)))
    }
}

impl View for TomlValue {
    type V = TomlModel;

    open spec fn view(&self) -> TomlModel {
        toml_model(*self)
    }
}

/// The model of a table's entries.
pub open spec fn table_model(entries: Seq<(String, TomlValue)>) -> Seq<(Seq<char>, TomlModel)> {
    Seq::new(entries.len(), |i: int| (entries[i].0@, entries[i].1@))
}

} // verus!

verus! {

/// The entry of `entries` at `i` has the model `table_model(entries@)[i]`.
pub proof fn lemma_entries_model(entries: Vec<(String, TomlValue)>, n: nat)
    requires
        n <= entries@.len(),
    ensures
        entries_model(entries, n) == table_model(entries@).subrange(0, n as int),
    decreases n,
{
    if n > 0 {
        lemma_entries_model(entries, (n - 1) as nat);
        assert(entries_model(entries, n) =~= table_model(entries@).subrange(0, n as int));
    } else {
        assert(entries_model(entries, n) =~= table_model(entries@).subrange(0, n as int));
    }
}

/// The model of a table value is the model of its entries.
pub proof fn lemma_table_value_model(entries: Vec<(String, TomlValue)>)
    ensures
        toml_model(TomlValue::Table(entries)) == TomlModel::Table(table_model(entries@)),
{
    lemma_entries_model(entries, entries@.len());
    assert(table_model(entries@).subrange(0, entries@.len() as int) =~= table_model(entries@));
}

/// The first value stored under `key`, if any.
pub open spec fn lookup(entries: Seq<(Seq<char>, TomlModel)>, key: Seq<char>) -> Option<TomlModel>
    decreases entries.len(),
{
    if entries.len() == 0 {
        None
    } else if entries[0].0 == key {
        Some(entries[0].1)
    } else {
        lookup(entries.drop_first(), key)
    }
}

/// The first value stored under `key` at position `i` or later, if any.
pub open spec fn lookup_from(entries: Seq<(Seq<char>, TomlModel)>, key: Seq<char>, i: int) -> Option<TomlModel>
    decreases entries.len() - i,
{
    if i < 0 || i >= entries.len() {
        None
    } else if entries[i].0 == key {
        Some(entries[i].1)
    } else {
        lookup_from(entries, key, i + 1)
    }
}

proof fn lemma_lookup_from(entries: Seq<(Seq<char>, TomlModel)>, key: Seq<char>, i: int)
    requires
        0 <= i <= entries.len(),
    ensures
        lookup_from(entries, key, i) == lookup(entries.subrange(i, entries.len() as int), key),
    decreases entries.len() - i,
{
    if i < entries.len() {
        lemma_lookup_from(entries, key, i + 1);
        assert(entries.subrange(i, entries.len() as int).drop_first() =~= entries.subrange(i + 1, entries.len() as int));
    }
}

/// Finds the value stored under `key` in a table's entries.
pub fn find<'a>(entries: &'a Vec<(String, TomlValue)>, key: &str) -> (found: Option<&'a TomlValue>)
    ensures
        match found {
            Some(v) => lookup(table_model(entries@), key@) == Some(v@),
            None => lookup(table_model(entries@), key@) is None,
        },
{
    let ghost model = table_model(entries@);
    let n = entries.len();
    let mut i: usize = 0;
    while i < n
        invariant
            n == entries@.len(),
            model == table_model(entries@),
            i <= n,
            lookup_from(model, key@, 0) == lookup_from(model, key@, i as int),
        decreases n - i,
    {
        if str_eq(entries[i].0.as_str(), key) {
            proof { lemma_lookup_from(model, key@, 0); }
            assert(model.subrange(0, model.len() as int) =~= model);
            return Some(&entries[i].1);
        }
        i += 1;
    }
    proof { lemma_lookup_from(model, key@, 0); }
    assert(model.subrange(0, model.len() as int) =~= model);
    None
}

/// Every key of `entries` is one of `allowed`.
pub open spec fn keys_within(entries: Seq<(Seq<char>, TomlModel)>, allowed: Seq<Seq<char>>) -> bool {
    forall|i: int| 0 <= i < entries.len() ==> allowed.contains(#[trigger] entries[i].0)
}

/// Whether every key of a table is one of `allowed`.
pub fn only_keys(entries: &Vec<(String, TomlValue)>, allowed: &Vec<&str>) -> (ok: bool)
    ensures
        ok == keys_within(table_model(entries@), allowed@.map_values(|a: &str| a@)),
{
    let ghost model = table_model(entries@);
    let ghost names = allowed@.map_values(|a: &str| a@);
    let n = entries.len();
    let mut i: usize = 0;
    while i < n
        invariant
            n == entries@.len(),
            model == table_model(entries@),
            names == allowed@.map_values(|a: &str| a@),
            i <= n,
            forall|j: int| 0 <= j < i ==> names.contains(#[trigger] model[j].0),
        decreases n - i,
    {
        let mut known = false;
        let m = allowed.len();
        let mut k: usize = 0;
        while k < m
            invariant
                m == allowed@.len(),
                names == allowed@.map_values(|a: &str| a@),
                i < n,
                n == entries@.len(),
                model == table_model(entries@),
                k <= m,
                known ==> names.contains(model[i as int].0),
                !known ==> forall|j: int| 0 <= j < k ==> names[j] != model[i as int].0,
            decreases m - k,
        {
            if str_eq(entries[i].0.as_str(), allowed[k]) {
                assert(names[k as int] == model[i as int].0);
                known = true;
            }
            k += 1;
        }
        if !known {
            assert(!names.contains(model[i as int].0));
            return false;
        }
        i += 1;
    }
    true
}

} // verus!

verus! {

/// Two to the power `n`.
pub open spec fn two_to(n: nat) -> nat
    decreases n,
{
    if n == 0 { 1 } else { 2 * two_to((n - 1) as nat) }
}

proof fn lemma_two_to_monotonic(a: nat, b: nat)
    requires
        a <= b,
    ensures
        1 <= two_to(a) <= two_to(b),
    decreases b,
{
    if b > a {
        lemma_two_to_monotonic(a, (b - 1) as nat);
    } else if a > 0 {
        lemma_two_to_monotonic((a - 1) as nat, (a - 1) as nat);
    }
}

proof fn lemma_two_to_60()
    ensures
        two_to(60) == 0x1000_0000_0000_0000,
        two_to(11) == 2048,
{
    reveal_with_fuel(two_to, 12);
    assert(two_to(11) == 2048);
    reveal_with_fuel(two_to, 61);
    assert(two_to(60) == 0x1000_0000_0000_0000);
}

/// 2^52: the weight of the lowest exponent bit of a double.
pub const FRACTION_SPAN: u64 = 0x10_0000_0000_0000;

/// The biased exponent field of a double.
pub open spec fn exponent_field(bits: u64) -> u64 {
    ((bits / FRACTION_SPAN) % 2048) as u64
}

/// The fraction field of a double.
pub open spec fn fraction_field(bits: u64) -> u64 {
    (bits % FRACTION_SPAN) as u64
}

/// Whether `bits` encode a double that [`float_literal`] writes exactly:
/// zero, or a positive finite value with a binary exponent from -8 to 63.
pub open spec fn float_renderable(bits: u64) -> bool {
    &&& bits < 0x8000_0000_0000_0000
    &&& (bits == 0 || (1015 <= exponent_field(bits) <= 1086))
}

/// Whether every float in a value is renderable (a float literal being the
/// decimal text of one) and it holds no date-time.
pub open spec fn renderable(value: TomlModel) -> bool
    decreases value,
{
    match value {
        TomlModel::FloatLiteral(text) => exists|bits: u64| float_renderable(bits) && #[trigger] float_text(bits) == text,
        TomlModel::Float(bits) => float_renderable(bits),
        TomlModel::Datetime(_) => false,
        TomlModel::Array(items) => forall|i: int| 0 <= i < items.len() ==> renderable(#[trigger] items[i]),
        TomlModel::Table(entries) => forall|i: int| 0 <= i < entries.len() ==> renderable(#[trigger] entries[i].1),
        _ => true,
    }
}

/// Whether every value of a table is renderable.
pub open spec fn renderable_table(entries: Seq<(Seq<char>, TomlModel)>) -> bool {
    forall|i: int| 0 <= i < entries.len() ==> renderable(#[trigger] entries[i].1)
}

/// Whether a value can be handed to the writer: no float by its bits and no
/// date-time anywhere in it, and every float literal the exact decimal text
/// of a renderable double (so that it reads back as that double).
pub open spec fn writable(value: TomlModel) -> bool
    decreases value,
{
    match value {
        TomlModel::FloatLiteral(text) => exists|bits: u64| float_renderable(bits) && #[trigger] float_text(bits) == text,
        TomlModel::Float(_) => false,
        TomlModel::Datetime(_) => false,
        TomlModel::Array(items) => forall|i: int| 0 <= i < items.len() ==> writable(#[trigger] items[i]),
        TomlModel::Table(entries) => forall|i: int| 0 <= i < entries.len() ==> writable(#[trigger] entries[i].1),
        _ => true,
    }
}

/// Whether every value of a table can be handed to the writer.
pub open spec fn writable_table(entries: Seq<(Seq<char>, TomlModel)>) -> bool {
    forall|i: int| 0 <= i < entries.len() ==> writable(#[trigger] entries[i].1)
}

/// `value` with every float given by its bits replaced by its exact decimal
/// literal.
pub open spec fn with_literals(value: TomlModel) -> TomlModel
    decreases value,
{
    match value {
        TomlModel::Float(bits) => TomlModel::FloatLiteral(float_text(bits)),
        TomlModel::Array(items) => TomlModel::Array(
            Seq::new(
                items.len(),
                |i: int|
                    if 0 <= i < items.len() {
                        with_literals(items[i])
                    } else {
                        TomlModel::Boolean(false)
                    },
            ),
        ),
        TomlModel::Table(entries) => TomlModel::Table(
            Seq::new(
                entries.len(),
                |i: int|
                    if 0 <= i < entries.len() {
                        (entries[i].0, with_literals(entries[i].1))
                    } else {
                        (Seq::empty(), TomlModel::Boolean(false))
                    },
            ),
        ),
        _ => value,
    }
}

/// The entries of a table with their floats as decimal literals.
pub open spec fn literal_table(entries: Seq<(Seq<char>, TomlModel)>) -> Seq<(Seq<char>, TomlModel)> {
    Seq::new(entries.len(), |i: int| (entries[i].0, with_literals(entries[i].1)))
}

/// A renderable value with its floats as literals can be handed to the
/// writer.
pub proof fn lemma_literals_writable(value: TomlModel)
    requires
        renderable(value),
    ensures
        writable(with_literals(value)),
    decreases value,
{
    match value {
        TomlModel::Array(items) => {
            let written = with_literals(value)->Array_0;
            assert forall|i: int| 0 <= i < written.len() implies writable(#[trigger] written[i]) by {
                lemma_literals_writable(items[i]);
            }
            assert(writable(TomlModel::Array(written)));
            assert(with_literals(value) == TomlModel::Array(written));
        },
        TomlModel::Table(entries) => {
            let written = with_literals(value)->Table_0;
            assert forall|i: int| 0 <= i < written.len() implies writable(#[trigger] written[i].1) by {
                lemma_literals_writable(entries[i].1);
            }
            assert(writable(TomlModel::Table(written)));
            assert(with_literals(value) == TomlModel::Table(written));
        },
        TomlModel::Float(bits) => {
            assert(float_text(bits) == with_literals(value)->FloatLiteral_0);
        },
        _ => {},
    }
}

/// A renderable table with its floats as literals can be handed to the
/// writer.
pub proof fn lemma_literal_table_writable(entries: Seq<(Seq<char>, TomlModel)>)
    requires
        renderable_table(entries),
    ensures
        writable_table(literal_table(entries)),
{
    assert forall|i: int| 0 <= i < entries.len() implies writable(#[trigger] literal_table(entries)[i].1) by {
        lemma_literals_writable(entries[i].1);
    }
}

/// The item at `i` has the model `items[i]@`.
proof fn lemma_items_model(items: Vec<TomlValue>, n: nat)
    requires
        n <= items@.len(),
    ensures
        items_model(items, n).len() == n,
        forall|i: int| 0 <= i < n ==> #[trigger] items_model(items, n)[i] == items@[i]@,
    decreases n,
{
    if n > 0 {
        lemma_items_model(items, (n - 1) as nat);
    }
}

/// The digits after the point of `rest / scale`, by long division: at most
/// `steps` digits, stopping once nothing is left over.
pub open spec fn fraction_digits(rest: nat, scale: nat, steps: nat) -> Seq<char>
    decreases steps,
{
    if steps == 0 || rest == 0 || scale == 0 {
        Seq::empty()
    } else {
        seq![digit_char((rest * 10) / scale)] + fraction_digits((rest * 10) % scale, scale, (steps - 1) as nat)
    }
}

/// The exact decimal expansion of the renderable double with these bits:
/// its integer part, a point, and its fraction digits (a single `0` when the
/// value is whole). The value is `mantissa * 2^(exponent - 1075)`.
pub open spec fn float_text(bits: u64) -> Seq<char> {
    let mantissa: nat = (FRACTION_SPAN + fraction_field(bits)) as nat;
    let exponent = exponent_field(bits);
    if bits == 0 {
        "0.0"@
    } else if exponent >= 1075 {
        decimal(mantissa * two_to((exponent - 1075) as nat)) + ".0"@
    } else {
        let scale = two_to((1075 - exponent) as nat);
        decimal(mantissa / scale) + "."@ + (if mantissa % scale == 0 {
            "0"@
        } else {
            Seq::empty()
        }) + fraction_digits(mantissa % scale, scale, (1075 - exponent) as nat)
    }
}

/// Writes the exact decimal expansion of a renderable double, with at least
/// one digit after the point ("0.5", "1.0", "1.25").
pub fn float_literal(bits: u64) -> (text: Option<String>)
    ensures
        text is Some <==> float_renderable(bits),
        text matches Some(t) ==> t@ == float_text(bits),
{
    let exponent = (bits / FRACTION_SPAN) % 2048;
    if bits >= 0x8000_0000_0000_0000 || !(bits == 0 || (1015 <= exponent && exponent <= 1086)) {
        return None;
    }
    if bits == 0 {
        return Some(String::from_str("0.0"));
    }
    let mantissa = FRACTION_SPAN + bits % FRACTION_SPAN;
    proof { lemma_two_to_60(); }
    if exponent >= 1075 {
        let shift = exponent - 1075;
        let mut value = mantissa;
        let mut i: u64 = 0;
        assert(two_to(0) == 1);
        assert(value == mantissa * two_to(0)) by (nonlinear_arith)
            requires value == mantissa, two_to(0) == 1;
        while i < shift
            invariant
                shift <= 11,
                i <= shift,
                mantissa < 2 * FRACTION_SPAN,
                value == mantissa * two_to(i as nat),
                value < 2 * FRACTION_SPAN * two_to(i as nat),
                two_to(11) == 2048,
            decreases shift - i,
        {
            proof {
                lemma_two_to_monotonic((i + 1) as nat, 11);
                let t = two_to(i as nat);
                assert(two_to((i + 1) as nat) == 2 * t);
                assert(value * 2 < 2 * FRACTION_SPAN * (2 * t)) by (nonlinear_arith)
                    requires value < 2 * FRACTION_SPAN * t;
                assert(2 * FRACTION_SPAN * (2 * t) <= 2 * FRACTION_SPAN * 2048) by (nonlinear_arith)
                    requires 2 * t <= 2048;
                assert(value * 2 == mantissa * (2 * t)) by (nonlinear_arith)
                    requires value == mantissa * t;
            }
            value = value * 2;
            i += 1;
        }
        let mut text = decimal_string(value);
        text.append(".0");
        return Some(text);
    }
    let places = 1075 - exponent;
    let mut scale: u64 = 1;
    let mut i: u64 = 0;
    while i < places
        invariant
            places <= 60,
            i <= places,
            scale == two_to(i as nat),
            two_to(60) == 0x1000_0000_0000_0000,
        decreases places - i,
    {
        proof { lemma_two_to_monotonic((i + 1) as nat, 60); }
        scale = scale * 2;
        i += 1;
    }
    proof { lemma_two_to_monotonic(places as nat, 60); }
    let mut text = decimal_string(mantissa / scale);
    text.append(".");
    let mut rest = mantissa % scale;
    if rest == 0 {
        text.append("0");
    }
    let mut step: u64 = 0;
    while step < places && rest != 0
        invariant
            1 <= scale <= 0x1000_0000_0000_0000,
            rest < scale,
            step <= places,
            text@ + fraction_digits(rest as nat, scale as nat, (places - step) as nat) == float_text(bits),
        decreases places - step,
    {
        let shifted = rest * 10;
        assert(shifted / scale < 10) by (nonlinear_arith)
            requires shifted < 10 * scale, scale >= 1;
        let ghost before = text@;
        let ghost tail = fraction_digits(rest as nat, scale as nat, (places - step) as nat);
        text.append(digit_str(shifted / scale));
        assert(tail == seq![digit_char((shifted / scale) as nat)] + fraction_digits(
            (shifted % scale) as nat,
            scale as nat,
            (places - step - 1) as nat,
        ));
        assert(text@ + fraction_digits((shifted % scale) as nat, scale as nat, (places - step - 1) as nat)
            =~= before + tail);
        rest = shifted % scale;
        step += 1;
    }
    Some(text)
}

} // verus!

verus! {

#[verifier::external_type_specification]
#[verifier::external_body]
pub struct ExTomlValue(toml::Value);

#[verifier::external_type_specification]
#[verifier::external_body]
#[verifier::reject_recursive_types(K)]
#[verifier::reject_recursive_types(V)]
pub struct ExTomlMap<K, V>(toml::map::Map<K, V>);

/// What `toml::from_str::<toml::Table>` makes of a document: the model of its
/// top-level table (keys in document order), or the parser's message.
pub uninterp spec fn toml_document(text: Seq<char>) -> Result<Seq<(Seq<char>, TomlModel)>, Seq<char>>;

/// What `toml::to_string_pretty` writes for a top-level table whose floats
/// are given as decimal literals, or its message.
pub uninterp spec fn toml_pretty(entries: Seq<(Seq<char>, TomlModel)>) -> Result<Seq<char>, Seq<char>>;

/// The bits of the double nearest to `i`, as Rust's integer-to-float `as`
/// conversion (round to nearest, ties to even) gives them.
pub uninterp spec fn float_bits_of_int(i: i64) -> u64;

/// Moves one `toml::Value` into a [`TomlValue`], variant for variant
/// (floats by their bits, date-times by their TOML text).
#[verifier::external_body]
fn lift(value: toml::Value) -> TomlValue {
    match value {
        toml::Value::String(s) => TomlValue::String(s),
        toml::Value::Integer(i) => TomlValue::Integer(i),
        toml::Value::Float(f) => TomlValue::Float(f.to_bits()),
        toml::Value::Boolean(b) => TomlValue::Boolean(b),
        toml::Value::Datetime(d) => TomlValue::Datetime(d.to_string()),
        toml::Value::Array(items) => TomlValue::Array(items.into_iter().map(lift).collect()),
        toml::Value::Table(table) => TomlValue::Table(table.into_iter().map(|(k, v)| (k, lift(v))).collect()),
    }
}

/// Copies a writable [`TomlValue`] into a `toml::Value`, variant for
/// variant; a float literal becomes the double it denotes (`str::parse`,
/// which reads every decimal literal). A value given by its bits or a
/// date-time is not writable.
#[verifier::external_body]
fn lower(value: &TomlValue) -> Option<toml::Value> {
    Some(match value {
        TomlValue::String(s) => toml::Value::String(s.clone()),
        TomlValue::Integer(i) => toml::Value::Integer(*i),
        TomlValue::FloatLiteral(text) => toml::Value::Float(text.parse().ok()?),
        TomlValue::Boolean(b) => toml::Value::Boolean(*b),
        TomlValue::Array(items) => toml::Value::Array(items.iter().map(lower).collect::<Option<Vec<_>>>()?),
        TomlValue::Table(entries) => toml::Value::Table(lower_table(entries)?),
        TomlValue::Float(_) | TomlValue::Datetime(_) => return None,
    })
}

/// Copies the entries of a writable table into a `toml::Table`, in order.
#[verifier::external_body]
fn lower_table(entries: &Vec<(String, TomlValue)>) -> Option<toml::Table> {
    entries.iter().map(|(k, v)| Some((k.clone(), lower(v)?))).collect()
}

/// `value` with every float given by its bits replaced by its exact
/// decimal literal.
pub fn literal_floats(value: &TomlValue) -> (written: TomlValue)
    requires
        renderable(value@),
    ensures
        written@ == with_literals(value@),
    decreases value,
{
    match value {
        TomlValue::String(text) => TomlValue::String(text.clone()),
        TomlValue::Integer(i) => TomlValue::Integer(*i),
        TomlValue::Float(bits) => {
            let text = float_literal(*bits).unwrap();
            TomlValue::FloatLiteral(text)
        },
        TomlValue::FloatLiteral(text) => TomlValue::FloatLiteral(text.clone()),
        TomlValue::Boolean(b) => TomlValue::Boolean(*b),
        TomlValue::Datetime(text) => TomlValue::Datetime(text.clone()),
        TomlValue::Array(items) => {
            proof {
                lemma_items_model(*items, items@.len());
                assert(value@ == TomlModel::Array(items_model(*items, items@.len())));
                assert forall|j: int| 0 <= j < items@.len() implies renderable(#[trigger] items@[j]@) by {
                    assert(items_model(*items, items@.len())[j] == items@[j]@);
                }
            }
            let mut out: Vec<TomlValue> = Vec::new();
            let mut i: usize = 0;
            while i < items.len()
                invariant
                    i <= items@.len(),
                    out@.len() == i,
                    forall|j: int| 0 <= j < i ==> #[trigger] out@[j]@ == with_literals(items@[j]@),
                    forall|j: int| 0 <= j < items@.len() ==> renderable(#[trigger] items@[j]@),
                    *value == TomlValue::Array(*items),
                decreases items@.len() - i,
            {
                proof {
                    assert(decreases_to!(*value => (*value)->Array_0));
                    assert((*value)->Array_0 == *items);
                    assert(decreases_to!(*items => items@));
                    assert(decreases_to!(items@ => items@[i as int]));
                }
                let item = literal_floats(&items[i]);
                out.push(item);
                i += 1;
            }
            proof {
                lemma_items_model(out, out@.len());
            }
            let written = TomlValue::Array(out);
            assert(written@->Array_0 =~= with_literals(value@)->Array_0);
            written
        },
        TomlValue::Table(entries) => {
            proof {
                lemma_table_value_model(*entries);
            }
            let rewritten = literal_entries(entries);
            proof {
                lemma_table_value_model(rewritten);
                assert(literal_table(table_model(entries@)) =~= with_literals(value@)->Table_0);
            }
            TomlValue::Table(rewritten)
        },
    }
}

/// The entries of a table with every float given by its bits replaced by
/// its exact decimal literal.
pub fn literal_entries(entries: &Vec<(String, TomlValue)>) -> (written: Vec<(String, TomlValue)>)
    requires
        renderable_table(table_model(entries@)),
    ensures
        table_model(written@) == literal_table(table_model(entries@)),
    decreases entries,
{
    let mut out: Vec<(String, TomlValue)> = Vec::new();
    let mut i: usize = 0;
    while i < entries.len()
        invariant
            i <= entries@.len(),
            out@.len() == i,
            forall|j: int|
                0 <= j < i ==> out@[j].0@ == entries@[j].0@ && #[trigger] out@[j].1@ == with_literals(
                    entries@[j].1@,
                ),
            renderable_table(table_model(entries@)),
        decreases entries@.len() - i,
    {
        assert(renderable(table_model(entries@)[i as int].1));
        proof {
            assert(decreases_to!(entries => entries@));
            assert(decreases_to!(entries@ => entries@[i as int]));
            assert(decreases_to!(entries@[i as int] => entries@[i as int].1));
        }
        let key = entries[i].0.clone();
        let value = literal_floats(&entries[i].1);
        out.push((key, value));
        i += 1;
    }
    assert(table_model(out@) =~= literal_table(table_model(entries@)));
    out
}

/// Parses a document with `toml::from_str` into its top-level table. The
/// contract claims only that the entries (or the message) are what
/// [`toml_document`] names for this text.
#[verifier::external_body]
pub(crate) fn parse_document(text: &str) -> (parsed: Result<Vec<(String, TomlValue)>, String>)
    ensures
        match parsed {
            Ok(entries) => toml_document(text@) == Ok::<Seq<(Seq<char>, TomlModel)>, Seq<char>>(table_model(entries@)),
            Err(message) => toml_document(text@) == Err::<Seq<(Seq<char>, TomlModel)>, Seq<char>>(message@),
        },
{
    match toml::from_str::<toml::Table>(text) {
        Ok(table) => Ok(table.into_iter().map(|(k, v)| (k, lift(v))).collect()),
        Err(error) => Err(error.to_string()),
    }
}

/// Writes a top-level table with `toml::to_string_pretty`. The contract
/// claims only that the text (or the message) is what [`toml_pretty`] names.
/// Every value of a writable table has a `toml::Value` (its float literals
/// are decimal texts, which `str::parse` always reads), so the table is
/// always handed to the writer.
#[verifier::external_body]
pub(crate) fn render_document(entries: &Vec<(String, TomlValue)>) -> (rendered: Result<String, String>)
    requires
        writable_table(table_model(entries@)),
    ensures
        match rendered {
            Ok(text) => toml_pretty(table_model(entries@)) == Ok::<Seq<char>, Seq<char>>(text@),
            Err(message) => toml_pretty(table_model(entries@)) == Err::<Seq<char>, Seq<char>>(message@),
        },
{
    let table = lower_table(entries).expect("a writable table has a TOML value");
    toml::to_string_pretty(&table).map_err(|error| error.to_string())
}

/// The bits of the double that Rust's `as` conversion gives for `i`.
#[verifier::external_body]
pub(crate) fn int_float_bits(i: i64) -> (bits: u64)
    ensures
        bits == float_bits_of_int(i),
{
    toml::Value::Float(i as _).as_float().map_or(0, |f| f.to_bits())
}

} // verus!
