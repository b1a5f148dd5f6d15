//! Rows made of fixed-width fields.  Most HRDF rows are a tag followed by
//! fields of a known width, each after a separator; a layout lists the
//! separators and fields, and `fields_at` reads them in order.
use vstd::prelude::*;

use crate::scan::{
    advances, char_lit, i16_field, i32_field, opt_i32_field, run1, sp_char, sp_i16_field,
    sp_i32_field, sp_map, sp_opt_i32_field, sp_run1, sp_str_field, take_str_field, CharClass, Scan,
};

verus! {

/// What comes before a field.
#[derive(Debug, Clone, Copy, PartialEq, Eq, Structural)]
pub enum Sep {
    /// Nothing.
    Nothing,
    /// One given character.
    Char(char),
    /// At least one space or tab.
    Spaces,
}

/// A field of a given width, in characters.
#[derive(Debug, Clone, Copy, PartialEq, Eq, Structural)]
pub enum Field {
    /// Text, trimmed.
    Text(usize),
    /// An `i32`, trimmed.
    Int(usize),
    /// An optional `i32` (see `sp_opt_i32_field`).
    OptInt(usize),
    /// An `i16`, trimmed.
    Short(usize),
}

/// The value read from a field.
#[derive(Debug, Clone)]
pub enum Value {
    Text(String),
    Int(i32),
    OptInt(Option<i32>),
    Short(i16),
}

/// What a field holds, with the text as characters.
pub enum ValueV {
    Text(Seq<char>),
    Int(i32),
    OptInt(Option<i32>),
    Short(i16),
}

impl DeepView for Value {
    type V = ValueV;

    open spec fn deep_view(&self) -> ValueV {
        match self {
            Value::Text(t) => ValueV::Text(t@),
            Value::Int(v) => ValueV::Int(*v),
            Value::OptInt(v) => ValueV::OptInt(*v),
            Value::Short(v) => ValueV::Short(*v),
        }
    }
}

pub open spec fn text_of(v: ValueV) -> Seq<char> {
    match v {
        ValueV::Text(t) => t,
        _ => Seq::empty(),
    }
}

pub open spec fn int_of(v: ValueV) -> i32 {
    match v {
        ValueV::Int(x) => x,
        _ => 0,
    }
}

pub open spec fn opt_of(v: ValueV) -> Option<i32> {
    match v {
        ValueV::OptInt(x) => x,
        _ => None,
    }
}

pub open spec fn short_of(v: ValueV) -> i16 {
    match v {
        ValueV::Short(x) => x,
        _ => 0,
    }
}

/// A separator.
pub open spec fn sp_sep(s: Seq<char>, p: usize, sep: Sep) -> Scan<()> {
    match sep {
        Sep::Nothing => Scan::Done((), p),
        Sep::Char(c) => sp_char(s, p, c, true),
        Sep::Spaces => sp_map(sp_run1(s, p, CharClass::Space), |t: Seq<char>| ()),
    }
}

/// A field.
pub open spec fn sp_field(s: Seq<char>, p: usize, f: Field) -> Scan<ValueV> {
    match f {
        Field::Text(n) => sp_map(sp_str_field(s, p, n), |t: Seq<char>| ValueV::Text(t)),
        Field::Int(n) => sp_map(sp_i32_field(s, p, n), |v: i32| ValueV::Int(v)),
        Field::OptInt(n) => sp_map(sp_opt_i32_field(s, p, n), |v: Option<i32>| ValueV::OptInt(v)),
        Field::Short(n) => sp_map(sp_i16_field(s, p, n), |v: i16| ValueV::Short(v)),
    }
}

/// The fields of `layout`, each after its separator, in order.
pub open spec fn sp_fields(s: Seq<char>, p: usize, layout: Seq<(Sep, Field)>) -> Scan<Seq<ValueV>>
    decreases layout.len(),
{
    if layout.len() == 0 {
        Scan::Done(Seq::empty(), p)
    } else {
        match sp_sep(s, p, layout[0].0) {
            Scan::Done(_, q) => match sp_field(s, q, layout[0].1) {
                Scan::Done(v, q2) => match sp_fields(s, q2, layout.drop_first()) {
                    Scan::Done(vs, q3) => Scan::Done(seq![v] + vs, q3),
                    Scan::Error => Scan::Error,
                    Scan::Incomplete => Scan::Incomplete,
                },
                Scan::Error => Scan::Error,
                Scan::Incomplete => Scan::Incomplete,
            },
            Scan::Error => Scan::Error,
            Scan::Incomplete => Scan::Incomplete,
        }
    }
}

fn sep_at(s: &[char], p: usize, sep: Sep) -> (r: Scan<()>)
    requires
        p <= s@.len(),
    ensures
        r == sp_sep(s@, p, sep),
        advances(r, p, s@.len()),
{
    match sep {
        Sep::Nothing => Scan::Done((), p),
        Sep::Char(c) => char_lit(s, p, c, true),
        Sep::Spaces => match run1(s, p, CharClass::Space) {
            Scan::Done(_, q) => Scan::Done((), q),
            Scan::Error => Scan::Error,
            Scan::Incomplete => Scan::Incomplete,
        },
    }
}

fn field_at(s: &[char], p: usize, f: Field) -> (r: Scan<Value>)
    requires
        p <= s@.len(),
    ensures
        r.deep_view() == sp_field(s@, p, f),
        advances(r, p, s@.len()),
{
    match f {
        Field::Text(n) => match take_str_field(s, p, n) {
            Scan::Done(t, q) => Scan::Done(Value::Text(t), q),
            Scan::Error => Scan::Error,
            Scan::Incomplete => Scan::Incomplete,
        },
        Field::Int(n) => match i32_field(s, p, n) {
            Scan::Done(v, q) => Scan::Done(Value::Int(v), q),
            Scan::Error => Scan::Error,
            Scan::Incomplete => Scan::Incomplete,
        },
        Field::OptInt(n) => match opt_i32_field(s, p, n) {
            Scan::Done(v, q) => Scan::Done(Value::OptInt(v), q),
            Scan::Error => Scan::Error,
            Scan::Incomplete => Scan::Incomplete,
        },
        Field::Short(n) => match i16_field(s, p, n) {
            Scan::Done(v, q) => Scan::Done(Value::Short(v), q),
            Scan::Error => Scan::Error,
            Scan::Incomplete => Scan::Incomplete,
        },
    }
}

/// Reads the fields of `layout[i..]` from `p`.
pub fn fields_at(s: &[char], p: usize, layout: &[(Sep, Field)], i: usize) -> (r: Scan<Vec<Value>>)
    requires
        p <= s@.len(),
        i <= layout@.len(),
    ensures
        r.deep_view() == sp_fields(s@, p, layout@.skip(i as int)),
        advances(r, p, s@.len()),
    decreases layout@.len() - i,
{
    let ghost rest = layout@.skip(i as int);
    if i == layout.len() {
        assert(rest.len() == 0);
        let none: Vec<Value> = Vec::new();
        assert(none.deep_view() =~= Seq::<ValueV>::empty());
        return Scan::Done(none, p);
    }
    assert(rest[0] == layout@[i as int]);
    assert(rest.drop_first() =~= layout@.skip(i + 1));
    let (sep, f) = layout[i];
    match sep_at(s, p, sep) {
        Scan::Done(_, q) => match field_at(s, q, f) {
            Scan::Done(v, q2) => match fields_at(s, q2, layout, i + 1) {
                Scan::Done(mut vs, q3) => {
                    let ghost tail = vs.deep_view();
                    let ghost head = v.deep_view();
                    vs.insert(0, v);
                    assert(vs.deep_view() =~= seq![head] + tail);
                    Scan::Done(vs, q3)
                },
                Scan::Error => Scan::Error,
                Scan::Incomplete => Scan::Incomplete,
            },
            Scan::Error => Scan::Error,
            Scan::Incomplete => Scan::Incomplete,
        },
        Scan::Error => Scan::Error,
        Scan::Incomplete => Scan::Incomplete,
    }
}

/// The text in field `i`.
pub fn text_at(vs: &Vec<Value>, i: usize) -> (r: String)
    requires
        i < vs@.len(),
    ensures
        r@ == text_of(vs.deep_view()[i as int]),
{
    match &vs[i] {
        Value::Text(t) => t.clone(),
        _ => String::new(),
    }
}

/// The integer in field `i`.
pub fn int_at(vs: &Vec<Value>, i: usize) -> (r: i32)
    requires
        i < vs@.len(),
    ensures
        r == int_of(vs.deep_view()[i as int]),
{
    match &vs[i] {
        Value::Int(v) => *v,
        _ => 0,
    }
}

/// The optional integer in field `i`.
pub fn opt_at(vs: &Vec<Value>, i: usize) -> (r: Option<i32>)
    requires
        i < vs@.len(),
    ensures
        r == opt_of(vs.deep_view()[i as int]),
{
    match &vs[i] {
        Value::OptInt(v) => *v,
        _ => None,
    }
}

/// The `i16` in field `i`.
pub fn short_at(vs: &Vec<Value>, i: usize) -> (r: i16)
    requires
        i < vs@.len(),
    ensures
        r == short_of(vs.deep_view()[i as int]),
{
    match &vs[i] {
        Value::Short(v) => *v,
        _ => 0,
    }
}

/// A successful read gives one value per field.
pub proof fn lemma_fields_len(s: Seq<char>, p: usize, layout: Seq<(Sep, Field)>)
    ensures
        sp_fields(s, p, layout) matches Scan::Done(vs, _) ==> vs.len() == layout.len(),
    decreases layout.len(),
{
    if layout.len() > 0 {
        match sp_sep(s, p, layout[0].0) {
            Scan::Done(_, q) => match sp_field(s, q, layout[0].1) {
                Scan::Done(v, q2) => lemma_fields_len(s, q2, layout.drop_first()),
                _ => {},
            },
            _ => {},
        }
    }
}

} // verus!
