//! Record values as authored in RON, and the checks that a value has the
//! shape a field type asks for.

use vstd::prelude::*;
use vstd::string::*;
use crate::text::{decimal, push_char, push_decimal, str_equal};

verus! {

/// A RON number. A float is held by its IEEE-754 bits (`f64::to_bits`)
/// and by the text that Rust's `Debug` writes for it (`format!("{:?}", f)`),
/// which error messages show.
#[derive(Debug)]
pub enum Number {
    Integer(i64),
    Float { bits: u64, text: String },
}

/// A RON value, with the variants of `ron::Value`: `Table` is RON's map,
/// with its entries in the order RON gives them, and `List` its sequence.
#[derive(Debug)]
pub enum Value {
    Bool(bool),
    Char(char),
    Table(Vec<(Value, Value)>),
    Number(Number),
    Option(Option<Box<Value>>),
    String(String),
    List(Vec<Value>),
    Unit,
}

/// A named component of a vector or rotator map.
#[derive(Clone, Copy, Debug, PartialEq, Eq)]
pub enum Component {
    X,
    Y,
    Z,
    Pitch,
    Yaw,
    Roll,
}

/// Why a value does not have the shape that was asked for. Where a value
/// was looked at, the error holds how `ron` debug-prints it (see
/// `value_debug`); for a float where an integer was expected, how the
/// number debug-prints (see `number_debug`).
#[derive(Debug, PartialEq, Eq)]
pub enum ValueError {
    ExpectedString(String),
    ExpectedNumber(String),
    ExpectedInteger(String),
    IntegerGotFloat(String),
    ExpectedBool(String),
    /// Neither a sequence of three nor a map, for a vector.
    ExpectedVector,
    /// Neither a sequence of three nor a map, for a rotator.
    ExpectedRotator,
    Missing(Component),
}

/// A value error as contracts speak of it: the printed value by its
/// characters.
pub enum ValueErrorModel {
    ExpectedString(Seq<char>),
    ExpectedNumber(Seq<char>),
    ExpectedInteger(Seq<char>),
    IntegerGotFloat(Seq<char>),
    ExpectedBool(Seq<char>),
    ExpectedVector,
    ExpectedRotator,
    Missing(Component),
}

impl View for ValueError {
    type V = ValueErrorModel;

    open spec fn view(&self) -> ValueErrorModel {
        match self {
            ValueError::ExpectedString(t) => ValueErrorModel::ExpectedString(t@),
            ValueError::ExpectedNumber(t) => ValueErrorModel::ExpectedNumber(t@),
            ValueError::ExpectedInteger(t) => ValueErrorModel::ExpectedInteger(t@),
            ValueError::IntegerGotFloat(t) => ValueErrorModel::IntegerGotFloat(t@),
            ValueError::ExpectedBool(t) => ValueErrorModel::ExpectedBool(t@),
            ValueError::ExpectedVector => ValueErrorModel::ExpectedVector,
            ValueError::ExpectedRotator => ValueErrorModel::ExpectedRotator,
            ValueError::Missing(c) => ValueErrorModel::Missing(*c),
        }
    }
}

// ---------- How `ron` debug-prints a value ----------

/// How `str`'s `Debug` writes `s` (quoted, with `char::escape_debug`).
pub uninterp spec fn str_debug_text(s: Seq<char>) -> Seq<char>;

/// How `char`'s `Debug` writes `c` (single-quoted, escaped).
pub uninterp spec fn char_debug_text(c: char) -> Seq<char>;

/// `format!("{:?}", s)` for a `str`.
#[verifier::external_body]
fn debug_str(s: &str) -> (r: String)
    ensures
        r@ == str_debug_text(s@),
{
    format!("{:?}", s)
}

/// `format!("{:?}", c)` for a `char`.
#[verifier::external_body]
fn debug_char(c: char) -> (r: String)
    ensures
        r@ == char_debug_text(c),
{
    format!("{:?}", c)
}

/// `i` in decimal, with `-` before a negative number.
pub open spec fn int_text(i: i64) -> Seq<char> {
    if i < 0 {
        seq!['-'] + decimal((-i) as nat)
    } else {
        decimal(i as nat)
    }
}

/// How `ron::Number` debug-prints.
pub open spec fn number_debug(n: Number) -> Seq<char> {
    match n {
        Number::Integer(i) => "Integer("@ + int_text(i) + ")"@,
        Number::Float { bits: _, text } => "Float(Float("@ + text@ + "))"@,
    }
}

/// How `ron::Value` debug-prints (its derived `Debug`; a map prints as
/// `Map(Map({k: v, ...}))`, a sequence as `Seq([a, ...])`).
pub open spec fn value_debug(v: Value) -> Seq<char>
    decreases v,
{
    match v {
        Value::Bool(b) => if b {
            "Bool(true)"@
        } else {
            "Bool(false)"@
        },
        Value::Char(c) => "Char("@ + char_debug_text(c) + ")"@,
        Value::Table(entries) => "Map(Map({"@ + entries_debug(entries@) + "}))"@,
        Value::Number(n) => "Number("@ + number_debug(n) + ")"@,
        Value::Option(o) => match o {
            Some(b) => "Option(Some("@ + value_debug(*b) + "))"@,
            None => "Option(None)"@,
        },
        Value::String(s) => "String("@ + str_debug_text(s@) + ")"@,
        Value::List(items) => "Seq(["@ + items_debug(items@) + "])"@,
        Value::Unit => "Unit"@,
    }
}

/// The values, each debug-printed, separated by `, `.
pub open spec fn items_debug(s: Seq<Value>) -> Seq<char>
    decreases s,
{
    if s.len() == 0 {
        seq![]
    } else if s.len() == 1 {
        value_debug(s[0])
    } else {
        items_debug(s.drop_last()) + ", "@ + value_debug(s.last())
    }
}

/// The entries, each as `key: value`, separated by `, `.
pub open spec fn entries_debug(s: Seq<(Value, Value)>) -> Seq<char>
    decreases s,
{
    if s.len() == 0 {
        seq![]
    } else if s.len() == 1 {
        value_debug(s[0].0) + ": "@ + value_debug(s[0].1)
    } else {
        entries_debug(s.drop_last()) + ", "@ + value_debug(s.last().0) + ": "@ + value_debug(s.last().1)
    }
}

pub open spec fn spec_expect_string(v: Value) -> Result<Seq<char>, ValueErrorModel> {
    match v {
        Value::String(s) => Ok(s@),
        _ => Err(ValueErrorModel::ExpectedString(value_debug(v))),
    }
}

pub open spec fn spec_expect_number(v: Value) -> Result<Number, ValueErrorModel> {
    match v {
        Value::Number(n) => Ok(n),
        _ => Err(ValueErrorModel::ExpectedNumber(value_debug(v))),
    }
}

pub open spec fn spec_expect_integer(v: Value) -> Result<i64, ValueErrorModel> {
    match v {
        Value::Number(Number::Integer(i)) => Ok(i),
        Value::Number(n) => Err(ValueErrorModel::IntegerGotFloat(number_debug(n))),
        _ => Err(ValueErrorModel::ExpectedInteger(value_debug(v))),
    }
}

pub open spec fn spec_expect_bool(v: Value) -> Result<bool, ValueErrorModel> {
    match v {
        Value::Bool(b) => Ok(b),
        _ => Err(ValueErrorModel::ExpectedBool(value_debug(v))),
    }
}

/// The value stored under the string key `key` in a map's entries; when the
/// key occurs more than once, the last entry wins. Entries whose key is not a
/// string are not looked at.
pub open spec fn map_get(entries: Seq<(Value, Value)>, key: Seq<char>) -> Option<Value>
    decreases entries.len(),
{
    if entries.len() == 0 {
        None
    } else {
        let (k, v) = entries.last();
        if k matches Value::String(s) && s@ == key {
            Some(v)
        } else {
            map_get(entries.drop_last(), key)
        }
    }
}

/// The value under `lower`, else the one under `upper`.
pub open spec fn component_value(entries: Seq<(Value, Value)>, lower: Seq<char>, upper: Seq<char>) -> Option<Value> {
    match map_get(entries, lower) {
        Some(v) => Some(v),
        None => map_get(entries, upper),
    }
}

/// Three values, each of which must be a number, checked in order.
pub open spec fn spec_three_numbers(a: Value, b: Value, c: Value) -> Result<(Number, Number, Number), ValueErrorModel> {
    match (spec_expect_number(a), spec_expect_number(b), spec_expect_number(c)) {
        (Err(e), _, _) => Err(e),
        (Ok(_), Err(e), _) => Err(e),
        (Ok(_), Ok(_), Err(e)) => Err(e),
        (Ok(x), Ok(y), Ok(z)) => Ok((x, y, z)),
    }
}

/// Three numbers from a sequence of exactly three values, or from a map by
/// three component names (each looked up lower-case first, then
/// capitalized; all three are looked up before any is checked to be a
/// number); every other value gives `shape`.
pub open spec fn spec_expect_triple(
    v: Value,
    l1: Seq<char>, u1: Seq<char>, c1: Component,
    l2: Seq<char>, u2: Seq<char>, c2: Component,
    l3: Seq<char>, u3: Seq<char>, c3: Component,
    shape: ValueErrorModel,
) -> Result<(Number, Number, Number), ValueErrorModel> {
    match v {
        Value::List(items) => {
            if items@.len() == 3 {
                spec_three_numbers(items@[0], items@[1], items@[2])
            } else {
                Err(shape)
            }
        },
        Value::Table(entries) => {
            let e = entries@;
            match (component_value(e, l1, u1), component_value(e, l2, u2), component_value(e, l3, u3)) {
                (None, _, _) => Err(ValueErrorModel::Missing(c1)),
                (Some(_), None, _) => Err(ValueErrorModel::Missing(c2)),
                (Some(_), Some(_), None) => Err(ValueErrorModel::Missing(c3)),
                (Some(x), Some(y), Some(z)) => spec_three_numbers(x, y, z),
            }
        },
        _ => Err(shape),
    }
}

/// A vector: `(x, y, z)`, or a map with `x`/`X`, `y`/`Y`, `z`/`Z`.
pub open spec fn spec_expect_vector(v: Value) -> Result<(Number, Number, Number), ValueErrorModel> {
    spec_expect_triple(
        v,
        seq!['x'], seq!['X'], Component::X,
        seq!['y'], seq!['Y'], Component::Y,
        seq!['z'], seq!['Z'], Component::Z,
        ValueErrorModel::ExpectedVector,
    )
}

/// A rotator: `(pitch, yaw, roll)`, or a map with `pitch`/`Pitch`,
/// `yaw`/`Yaw`, `roll`/`Roll`.
pub open spec fn spec_expect_rotator(v: Value) -> Result<(Number, Number, Number), ValueErrorModel> {
    spec_expect_triple(
        v,
        seq!['p', 'i', 't', 'c', 'h'], seq!['P', 'i', 't', 'c', 'h'], Component::Pitch,
        seq!['y', 'a', 'w'], seq!['Y', 'a', 'w'], Component::Yaw,
        seq!['r', 'o', 'l', 'l'], seq!['R', 'o', 'l', 'l'], Component::Roll,
        ValueErrorModel::ExpectedRotator,
    )
}

// ---------- What vector and rotator values give ----------

/// A sequence of three numbers is a vector and a rotator, in order.
pub proof fn lemma_triple_tuple_form(items: Vec<Value>, a: Number, b: Number, c: Number)
    requires
        items@ == seq![Value::Number(a), Value::Number(b), Value::Number(c)],
    ensures
        spec_expect_vector(Value::List(items)) == Ok::<Triple, ValueErrorModel>((a, b, c)),
        spec_expect_rotator(Value::List(items)) == Ok::<Triple, ValueErrorModel>((a, b, c)),
{
}

/// Only a sequence of exactly three values has the tuple form.
pub proof fn lemma_triple_tuple_length(items: Vec<Value>)
    requires
        items@.len() != 3,
    ensures
        spec_expect_vector(Value::List(items)) == Err::<Triple, ValueErrorModel>(ValueErrorModel::ExpectedVector),
        spec_expect_rotator(Value::List(items)) == Err::<Triple, ValueErrorModel>(ValueErrorModel::ExpectedRotator),
{
}

/// A map with numbers under the three keys `k1`, `k2`, `k3` (in this order
/// of entries, and no other entry).
pub open spec fn three_entries(es: Seq<(Value, Value)>, k1: Seq<char>, k2: Seq<char>, k3: Seq<char>, a: Number, b: Number, c: Number) -> bool {
    &&& es.len() == 3
    &&& es[0].0 matches Value::String(s) && s@ == k1
    &&& es[1].0 matches Value::String(s) && s@ == k2
    &&& es[2].0 matches Value::String(s) && s@ == k3
    &&& es[0].1 == Value::Number(a)
    &&& es[1].1 == Value::Number(b)
    &&& es[2].1 == Value::Number(c)
}

proof fn lemma_three_entries_get(es: Seq<(Value, Value)>, k1: Seq<char>, k2: Seq<char>, k3: Seq<char>, a: Number, b: Number, c: Number)
    requires
        three_entries(es, k1, k2, k3, a, b, c),
        k1 != k2,
        k1 != k3,
        k2 != k3,
    ensures
        map_get(es, k1) == Some(Value::Number(a)),
        map_get(es, k2) == Some(Value::Number(b)),
        map_get(es, k3) == Some(Value::Number(c)),
        forall|k: Seq<char>| k != k1 && k != k2 && k != k3 ==> map_get(es, k) is None,
{
    let e2 = es.drop_last();
    let e1 = e2.drop_last();
    let e0 = e1.drop_last();
    assert(e0.len() == 0);
    assert(es.last() == es[2]);
    assert(e2.last() == es[1]);
    assert(e1.last() == es[0]);
    assert forall|k: Seq<char>| k != k1 && k != k2 && k != k3 implies map_get(es, k) is None by {
        assert(map_get(e0, k) is None);
        assert(map_get(e1, k) is None);
        assert(map_get(e2, k) is None);
    }
    assert(map_get(e0, k1) is None);
    assert(map_get(e0, k2) is None);
    assert(map_get(e0, k3) is None);
    assert(map_get(e1, k1) == Some(Value::Number(a)));
    assert(map_get(e1, k2) is None);
    assert(map_get(e1, k3) is None);
    assert(map_get(e2, k1) == Some(Value::Number(a)));
    assert(map_get(e2, k2) == Some(Value::Number(b)));
    assert(map_get(e2, k3) is None);
}

proof fn lemma_xyz_distinct()
    ensures
        seq!['x'] != seq!['y'],
        seq!['x'] != seq!['z'],
        seq!['y'] != seq!['z'],
        seq!['X'] != seq!['Y'],
        seq!['X'] != seq!['Z'],
        seq!['Y'] != seq!['Z'],
{
    assert(seq!['x'][0] != seq!['y'][0]);
    assert(seq!['x'][0] != seq!['z'][0]);
    assert(seq!['y'][0] != seq!['z'][0]);
    assert(seq!['X'][0] != seq!['Y'][0]);
    assert(seq!['X'][0] != seq!['Z'][0]);
    assert(seq!['Y'][0] != seq!['Z'][0]);
}

/// A map form with lower-case keys `x`, `y`, `z` gives its three numbers.
pub proof fn lemma_vector_lower_keys(es: Vec<(Value, Value)>, a: Number, b: Number, c: Number)
    requires
        three_entries(es@, seq!['x'], seq!['y'], seq!['z'], a, b, c),
    ensures
        spec_expect_vector(Value::Table(es)) == Ok::<Triple, ValueErrorModel>((a, b, c)),
{
    lemma_xyz_distinct();
    lemma_three_entries_get(es@, seq!['x'], seq!['y'], seq!['z'], a, b, c);
}

/// A map form with capitalized keys `X`, `Y`, `Z` gives its three numbers,
/// in order.
pub proof fn lemma_vector_upper_keys(es: Vec<(Value, Value)>, a: Number, b: Number, c: Number)
    requires
        three_entries(es@, seq!['X'], seq!['Y'], seq!['Z'], a, b, c),
    ensures
        spec_expect_vector(Value::Table(es)) == Ok::<Triple, ValueErrorModel>((a, b, c)),
{
    lemma_xyz_distinct();
    lemma_three_entries_get(es@, seq!['X'], seq!['Y'], seq!['Z'], a, b, c);
    assert(seq!['x'] != seq!['X'] && seq!['x'] != seq!['Y'] && seq!['x'] != seq!['Z']) by {
        assert(seq!['x'][0] != seq!['X'][0]);
        assert(seq!['x'][0] != seq!['Y'][0]);
        assert(seq!['x'][0] != seq!['Z'][0]);
    }
    assert(seq!['y'] != seq!['X'] && seq!['y'] != seq!['Y'] && seq!['y'] != seq!['Z']) by {
        assert(seq!['y'][0] != seq!['X'][0]);
        assert(seq!['y'][0] != seq!['Y'][0]);
        assert(seq!['y'][0] != seq!['Z'][0]);
    }
    assert(seq!['z'] != seq!['X'] && seq!['z'] != seq!['Y'] && seq!['z'] != seq!['Z']) by {
        assert(seq!['z'][0] != seq!['X'][0]);
        assert(seq!['z'][0] != seq!['Y'][0]);
        assert(seq!['z'][0] != seq!['Z'][0]);
    }
}

/// A map form with capitalized keys `Pitch`, `Yaw`, `Roll` gives its three
/// numbers, in order.
pub proof fn lemma_rotator_upper_keys(es: Vec<(Value, Value)>, a: Number, b: Number, c: Number)
    requires
        three_entries(
            es@,
            seq!['P', 'i', 't', 'c', 'h'],
            seq!['Y', 'a', 'w'],
            seq!['R', 'o', 'l', 'l'],
            a,
            b,
            c,
        ),
    ensures
        spec_expect_rotator(Value::Table(es)) == Ok::<Triple, ValueErrorModel>((a, b, c)),
{
    let p = seq!['P', 'i', 't', 'c', 'h'];
    let y = seq!['Y', 'a', 'w'];
    let r = seq!['R', 'o', 'l', 'l'];
    assert(p != y && p != r && y != r) by {
        assert(p.len() != y.len() && p.len() != r.len() && y.len() != r.len());
    }
    lemma_three_entries_get(es@, p, y, r, a, b, c);
    let lp = seq!['p', 'i', 't', 'c', 'h'];
    let ly = seq!['y', 'a', 'w'];
    let lr = seq!['r', 'o', 'l', 'l'];
    assert(lp != p && lp != y && lp != r) by {
        assert(lp[0] != p[0]);
        assert(lp.len() != y.len() && lp.len() != r.len());
    }
    assert(ly != p && ly != y && ly != r) by {
        assert(ly[0] != y[0]);
        assert(ly.len() != p.len() && ly.len() != r.len());
    }
    assert(lr != p && lr != y && lr != r) by {
        assert(lr[0] != r[0]);
        assert(lr.len() != p.len() && lr.len() != y.len());
    }
}

/// A map form with lower-case keys `pitch`, `yaw`, `roll` gives its three
/// numbers, in order.
pub proof fn lemma_rotator_lower_keys(es: Vec<(Value, Value)>, a: Number, b: Number, c: Number)
    requires
        three_entries(
            es@,
            seq!['p', 'i', 't', 'c', 'h'],
            seq!['y', 'a', 'w'],
            seq!['r', 'o', 'l', 'l'],
            a,
            b,
            c,
        ),
    ensures
        spec_expect_rotator(Value::Table(es)) == Ok::<Triple, ValueErrorModel>((a, b, c)),
{
    let p = seq!['p', 'i', 't', 'c', 'h'];
    let y = seq!['y', 'a', 'w'];
    let r = seq!['r', 'o', 'l', 'l'];
    assert(p != y && p != r && y != r) by {
        assert(p.len() != y.len() && p.len() != r.len() && y.len() != r.len());
    }
    lemma_three_entries_get(es@, p, y, r, a, b, c);
}

proof fn lemma_get_past_upper(s: Seq<(Value, Value)>, k: Seq<char>, p: Number, q: Number, r: Number)
    requires
        s.len() == 6,
        three_entries(s.subrange(3, 6), seq!['X'], seq!['Y'], seq!['Z'], p, q, r),
        k.len() == 1,
        k[0] != 'X' && k[0] != 'Y' && k[0] != 'Z',
    ensures
        map_get(s, k) == map_get(s.subrange(0, 3), k),
{
    let hi = s.subrange(3, 6);
    let e5 = s.drop_last();
    let e4 = e5.drop_last();
    let e3 = e4.drop_last();
    assert(e3 =~= s.subrange(0, 3));
    assert(s.last() == hi[2]);
    assert(e5.last() == hi[1]);
    assert(e4.last() == hi[0]);
    assert(k != seq!['X'] && k != seq!['Y'] && k != seq!['Z']) by {
        assert(seq!['X'][0] == 'X' && seq!['Y'][0] == 'Y' && seq!['Z'][0] == 'Z');
    }
    assert(map_get(e4, k) == map_get(e3, k));
    assert(map_get(e5, k) == map_get(e3, k));
}

/// In the map form the lower-case key wins over the capitalized one, also
/// when the capitalized entries come later.
pub proof fn lemma_vector_lower_key_first(es: Vec<(Value, Value)>, a: Number, b: Number, c: Number, p: Number, q: Number, r: Number)
    requires
        es@.len() == 6,
        three_entries(es@.subrange(0, 3), seq!['x'], seq!['y'], seq!['z'], a, b, c),
        three_entries(es@.subrange(3, 6), seq!['X'], seq!['Y'], seq!['Z'], p, q, r),
    ensures
        spec_expect_vector(Value::Table(es)) == Ok::<Triple, ValueErrorModel>((a, b, c)),
{
    let s = es@;
    lemma_xyz_distinct();
    lemma_three_entries_get(s.subrange(0, 3), seq!['x'], seq!['y'], seq!['z'], a, b, c);
    lemma_get_past_upper(s, seq!['x'], p, q, r);
    lemma_get_past_upper(s, seq!['y'], p, q, r);
    lemma_get_past_upper(s, seq!['z'], p, q, r);
}

/// How a value debug-prints (see `value_debug`).
pub fn debug_value(v: &Value) -> (r: String)
    ensures
        r@ == value_debug(*v),
    decreases v,
{
    match v {
        Value::Bool(b) => if *b {
            String::from_str("Bool(true)")
        } else {
            String::from_str("Bool(false)")
        },
        Value::Char(c) => {
            let mut r = String::from_str("Char(");
            let t = debug_char(*c);
            r.append(t.as_str());
            r.append(")");
            r
        },
        Value::Table(entries) => {
            let mut r = String::from_str("Map(Map({");
            let n = entries.len();
            let mut i: usize = 0;
            let ghost start = r@;
            assert(entries@.subrange(0, 0) =~= Seq::<(Value, Value)>::empty());
            while i < n
                invariant
                    n == entries@.len(),
                    i <= n,
                    r@ == start + entries_debug(entries@.subrange(0, i as int)),
                    *v == Value::Table(*entries),
                decreases n - i,
            {
                let e = &entries[i];
                proof {
                    broadcast use vstd::std_specs::vec::group_vec_axioms;
                    assert(decreases_to!(*v => (*v)->Table_0));
                    assert((*v)->Table_0 == *entries);
                    assert(decreases_to!(*entries => entries@));
                    assert(decreases_to!(entries@ => entries@[i as int]));
                    assert(decreases_to!(entries@[i as int] => entries@[i as int].0));
                    assert(decreases_to!(entries@[i as int] => entries@[i as int].1));
                }
                if i > 0 {
                    r.append(", ");
                }
                let k = debug_value(&e.0);
                let x = debug_value(&e.1);
                r.append(k.as_str());
                r.append(": ");
                r.append(x.as_str());
                let ghost sub = entries@.subrange(0, i + 1);
                assert(sub.drop_last() =~= entries@.subrange(0, i as int));
                assert(r@ =~= start + entries_debug(sub));
                i = i + 1;
            }
            assert(entries@.subrange(0, n as int) =~= entries@);
            r.append("}))");
            r
        },
        Value::Number(num) => {
            let mut r = String::from_str("Number(");
            let t = debug_number(num);
            r.append(t.as_str());
            r.append(")");
            r
        },
        Value::Option(o) => match o {
            Some(b) => {
                let mut r = String::from_str("Option(Some(");
                let t = debug_value(&**b);
                r.append(t.as_str());
                r.append("))");
                r
            },
            None => String::from_str("Option(None)"),
        },
        Value::String(s) => {
            let mut r = String::from_str("String(");
            let t = debug_str(s.as_str());
            r.append(t.as_str());
            r.append(")");
            r
        },
        Value::List(items) => {
            let mut r = String::from_str("Seq([");
            let n = items.len();
            let mut i: usize = 0;
            let ghost start = r@;
            assert(items@.subrange(0, 0) =~= Seq::<Value>::empty());
            while i < n
                invariant
                    n == items@.len(),
                    i <= n,
                    r@ == start + items_debug(items@.subrange(0, i as int)),
                    *v == Value::List(*items),
                decreases n - i,
            {
                proof {
                    broadcast use vstd::std_specs::vec::group_vec_axioms;
                    assert(decreases_to!(*v => (*v)->List_0));
                    assert((*v)->List_0 == *items);
                    assert(decreases_to!(*items => items@));
                    assert(decreases_to!(items@ => items@[i as int]));
                }
                if i > 0 {
                    r.append(", ");
                }
                let t = debug_value(&items[i]);
                r.append(t.as_str());
                let ghost sub = items@.subrange(0, i + 1);
                assert(sub.drop_last() =~= items@.subrange(0, i as int));
                assert(r@ =~= start + items_debug(sub));
                i = i + 1;
            }
            assert(items@.subrange(0, n as int) =~= items@);
            r.append("])");
            r
        },
        Value::Unit => String::from_str("Unit"),
    }
}

/// `i` in decimal (see `int_text`).
fn int_string(i: i64) -> (r: String)
    ensures
        r@ == int_text(i),
{
    let mut r = String::new();
    if i < 0 {
        push_char(&mut r, '-');
        let m: u64 = (0i128 - (i as i128)) as u64;
        push_decimal(&mut r, m);
    } else {
        push_decimal(&mut r, i as u64);
    }
    assert(r@ =~= int_text(i));
    r
}

/// How a number debug-prints (see `number_debug`).
pub fn debug_number(n: &Number) -> (r: String)
    ensures
        r@ == number_debug(*n),
{
    match n {
        Number::Integer(i) => {
            let mut r = String::from_str("Integer(");
            let t = int_string(*i);
            r.append(t.as_str());
            r.append(")");
            r
        },
        Number::Float { bits: _, text } => {
            let mut r = String::from_str("Float(Float(");
            r.append(text.as_str());
            r.append("))");
            r
        },
    }
}

fn copy_number(n: &Number) -> (r: Number)
    ensures
        r == *n,
{
    match n {
        Number::Integer(i) => Number::Integer(*i),
        Number::Float { bits, text } => Number::Float { bits: *bits, text: text.clone() },
    }
}

/// The text of a string value.
pub fn expect_string(v: &Value) -> (r: Result<&String, ValueError>)
    ensures
        match r {
            Ok(s) => spec_expect_string(*v) == Ok::<Seq<char>, ValueErrorModel>(s@),
            Err(e) => spec_expect_string(*v) == Err::<Seq<char>, ValueErrorModel>(e@),
        },
{
    match v {
        Value::String(s) => Ok(s),
        _ => Err(ValueError::ExpectedString(debug_value(v))),
    }
}

/// The number in a number value.
pub fn expect_number(v: &Value) -> (r: Result<Number, ValueError>)
    ensures
        match r {
            Ok(n) => spec_expect_number(*v) == Ok::<Number, ValueErrorModel>(n),
            Err(e) => spec_expect_number(*v) == Err::<Number, ValueErrorModel>(e@),
        },
{
    match v {
        Value::Number(n) => Ok(copy_number(n)),
        _ => Err(ValueError::ExpectedNumber(debug_value(v))),
    }
}

/// The integer in an integer number value.
pub fn expect_integer(v: &Value) -> (r: Result<i64, ValueError>)
    ensures
        match r {
            Ok(i) => spec_expect_integer(*v) == Ok::<i64, ValueErrorModel>(i),
            Err(e) => spec_expect_integer(*v) == Err::<i64, ValueErrorModel>(e@),
        },
{
    match v {
        Value::Number(n) => match n {
            Number::Integer(i) => Ok(*i),
            Number::Float { .. } => Err(ValueError::IntegerGotFloat(debug_number(n))),
        },
        _ => Err(ValueError::ExpectedInteger(debug_value(v))),
    }
}

/// The boolean in a boolean value.
pub fn expect_bool(v: &Value) -> (r: Result<bool, ValueError>)
    ensures
        match r {
            Ok(b) => spec_expect_bool(*v) == Ok::<bool, ValueErrorModel>(b),
            Err(e) => spec_expect_bool(*v) == Err::<bool, ValueErrorModel>(e@),
        },
{
    match v {
        Value::Bool(b) => Ok(*b),
        _ => Err(ValueError::ExpectedBool(debug_value(v))),
    }
}

/// Looks up the string key `key` in a map's entries (see `map_get`).
fn map_lookup<'a>(entries: &'a Vec<(Value, Value)>, key: &str) -> (r: Option<&'a Value>)
    ensures
        match r {
            Some(x) => map_get(entries@, key@) == Some(*x),
            None => map_get(entries@, key@) is None,
        },
{
    let mut j: usize = entries.len();
    assert(entries@.subrange(0, j as int) =~= entries@);
    while j > 0
        invariant
            j <= entries@.len(),
            map_get(entries@, key@) == map_get(entries@.subrange(0, j as int), key@),
        decreases j,
    {
        let entry = &entries[j - 1];
        let ghost sub = entries@.subrange(0, j as int);
        assert(sub.last() == entries@[j - 1]);
        if let Value::String(k) = &entry.0 {
            if str_equal(k.as_str(), key) {
                return Some(&entry.1);
            }
        }
        assert(sub.drop_last() =~= entries@.subrange(0, j - 1));
        j = j - 1;
    }
    None
}

fn lookup_component<'a>(entries: &'a Vec<(Value, Value)>, lower: &str, upper: &str) -> (r: Option<&'a Value>)
    ensures
        match r {
            Some(x) => component_value(entries@, lower@, upper@) == Some(*x),
            None => component_value(entries@, lower@, upper@) is None,
        },
{
    match map_lookup(entries, lower) {
        Some(x) => Some(x),
        None => map_lookup(entries, upper),
    }
}

/// Three numbers, or the error of the first that is not one.
pub type Triple = (Number, Number, Number);

pub open spec fn triple_result(r: Result<Triple, ValueError>, s: Result<Triple, ValueErrorModel>) -> bool {
    match r {
        Ok(t) => s == Ok::<Triple, ValueErrorModel>(t),
        Err(e) => s == Err::<Triple, ValueErrorModel>(e@),
    }
}

fn three_numbers(a: &Value, b: &Value, c: &Value) -> (r: Result<Triple, ValueError>)
    ensures
        triple_result(r, spec_three_numbers(*a, *b, *c)),
{
    let x = expect_number(a)?;
    let y = expect_number(b)?;
    let z = expect_number(c)?;
    Ok((x, y, z))
}

fn expect_triple(
    v: &Value,
    l1: &str, u1: &str, c1: Component,
    l2: &str, u2: &str, c2: Component,
    l3: &str, u3: &str, c3: Component,
    shape: ValueError,
) -> (r: Result<Triple, ValueError>)
    requires
        shape is ExpectedVector || shape is ExpectedRotator,
    ensures
        triple_result(r, spec_expect_triple(*v, l1@, u1@, c1, l2@, u2@, c2, l3@, u3@, c3, shape@)),
{
    match v {
        Value::List(items) => {
            if items.len() == 3 {
                three_numbers(&items[0], &items[1], &items[2])
            } else {
                Err(shape)
            }
        },
        Value::Table(entries) => {
            let x = match lookup_component(entries, l1, u1) {
                Some(x) => x,
                None => return Err(ValueError::Missing(c1)),
            };
            let y = match lookup_component(entries, l2, u2) {
                Some(y) => y,
                None => return Err(ValueError::Missing(c2)),
            };
            let z = match lookup_component(entries, l3, u3) {
                Some(z) => z,
                None => return Err(ValueError::Missing(c3)),
            };
            three_numbers(x, y, z)
        },
        _ => Err(shape),
    }
}

/// The three numbers of a vector value (see `spec_expect_vector`).
pub fn expect_vector(v: &Value) -> (r: Result<Triple, ValueError>)
    ensures
        triple_result(r, spec_expect_vector(*v)),
{
    proof {
        reveal_strlit("x");
        reveal_strlit("X");
        reveal_strlit("y");
        reveal_strlit("Y");
        reveal_strlit("z");
        reveal_strlit("Z");
    }
    let r = expect_triple(v, "x", "X", Component::X, "y", "Y", Component::Y, "z", "Z", Component::Z, ValueError::ExpectedVector);
    assert("x"@ =~= seq!['x']);
    assert("X"@ =~= seq!['X']);
    assert("y"@ =~= seq!['y']);
    assert("Y"@ =~= seq!['Y']);
    assert("z"@ =~= seq!['z']);
    assert("Z"@ =~= seq!['Z']);
    r
}

/// The three numbers of a rotator value (see `spec_expect_rotator`).
pub fn expect_rotator(v: &Value) -> (r: Result<Triple, ValueError>)
    ensures
        triple_result(r, spec_expect_rotator(*v)),
{
    proof {
        reveal_strlit("pitch");
        reveal_strlit("Pitch");
        reveal_strlit("yaw");
        reveal_strlit("Yaw");
        reveal_strlit("roll");
        reveal_strlit("Roll");
    }
    let r = expect_triple(v, "pitch", "Pitch", Component::Pitch, "yaw", "Yaw", Component::Yaw, "roll", "Roll", Component::Roll, ValueError::ExpectedRotator);
    assert("pitch"@ =~= seq!['p', 'i', 't', 'c', 'h']);
    assert("Pitch"@ =~= seq!['P', 'i', 't', 'c', 'h']);
    assert("yaw"@ =~= seq!['y', 'a', 'w']);
    assert("Yaw"@ =~= seq!['Y', 'a', 'w']);
    assert("roll"@ =~= seq!['r', 'o', 'l', 'l']);
    assert("Roll"@ =~= seq!['R', 'o', 'l', 'l']);
    r
}

} // verus!
