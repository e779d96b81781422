//! Runtime types and values of table cells.
use vstd::prelude::*;
use crate::text::{decimal, push_char, push_decimal, push_str};

verus! {

/// The type of a column.
#[derive(Debug, Clone, Copy, PartialEq, Eq, Structural)]
pub enum DataType {
    Int32,
    Float64,
    /// A borrowed string of at most the given length.
    Varchar(u16),
    /// An owned string.
    String,
}

/// The name of a data type, such as `Varchar(32)`.
pub open spec fn data_type_text(t: DataType) -> Seq<char> {
    match t {
        DataType::Int32 => "Int32"@,
        DataType::Float64 => "Float64"@,
        DataType::Varchar(n) => "Varchar("@ + decimal(n as nat) + ")"@,
        DataType::String => "String"@,
    }
}

impl DataType {
    pub fn to_string(&self) -> (r: String)
        ensures
            r@ == data_type_text(*self),
    {
        let mut s = String::new();
        match self {
            DataType::Int32 => push_str(&mut s, "Int32"),
            DataType::Float64 => push_str(&mut s, "Float64"),
            DataType::Varchar(n) => {
                push_str(&mut s, "Varchar(");
                push_decimal(&mut s, *n as u64);
                push_str(&mut s, ")");
            },
            DataType::String => push_str(&mut s, "String"),
        }
        assert(s@ =~= data_type_text(*self));
        s
    }
}

/// The decimal text of a signed integer.
pub open spec fn signed_text(v: int) -> Seq<char> {
    if v < 0 {
        seq!['-'] + decimal((-v) as nat)
    } else {
        decimal(v as nat)
    }
}

/// A 32-bit signed integer cell.
#[derive(Debug, PartialEq, Eq, Clone, Copy, Structural)]
pub struct Int32 {
    pub value: i32,
}

impl Int32 {
    pub fn new(value: i32) -> (r: Int32)
        ensures
            r.value == value,
    {
        Int32 { value }
    }

    pub fn to_string(&self) -> (r: String)
        ensures
            r@ == signed_text(self.value as int),
    {
        let mut s = String::new();
        if self.value < 0 {
            push_char(&mut s, '-');
            let magnitude: u64 = (0i64 - self.value as i64) as u64;
            push_decimal(&mut s, magnitude);
        } else {
            push_decimal(&mut s, self.value as u64);
        }
        assert(s@ =~= signed_text(self.value as int));
        s
    }
}

/// A 64-bit floating-point cell, held as its IEEE-754 bit pattern.
#[derive(Debug, PartialEq, Eq, Clone, Copy, Structural)]
pub struct Float64 {
    pub bits: u64,
}

impl Float64 {
    pub fn from_bits(bits: u64) -> (r: Float64)
        ensures
            r.bits == bits,
    {
        Float64 { bits }
    }

    pub fn to_bits(&self) -> (r: u64)
        ensures
            r == self.bits,
    {
        self.bits
    }
}

/// A string borrowed from where it is stored.
#[derive(Debug, Clone, Copy)]
pub struct Varchar<'a> {
    text: &'a str,
}

impl<'a> View for Varchar<'a> {
    type V = Seq<char>;

    closed spec fn view(&self) -> Seq<char> {
        self.text@
    }
}

impl<'a> Varchar<'a> {
    pub fn from_str(s: &'a str) -> (r: Varchar<'a>)
        ensures
            r@ == s@,
    {
        Varchar { text: s }
    }

    pub fn as_str(&self) -> (r: &'a str)
        ensures
            r@ == self@,
    {
        self.text
    }

    pub fn ref_string(s: &'a String) -> (r: Varchar<'a>)
        ensures
            r@ == s@,
    {
        Varchar::from_str(s.as_str())
    }

    pub fn to_string(&self) -> (r: String)
        ensures
            r@ == self@,
    {
        self.text.to_owned()
    }
}

/// An owned cell value.
#[derive(Debug, PartialEq, Clone)]
pub enum OwnValue {
    Int32(Int32),
    Float64(Float64),
    String(String),
    Null,
}

/// The mathematical value of a cell.
pub enum ValueView {
    Int32(i32),
    Float64(u64),
    String(Seq<char>),
    Null,
}

impl View for OwnValue {
    type V = ValueView;

    open spec fn view(&self) -> ValueView {
        match self {
            OwnValue::Int32(v) => ValueView::Int32(v.value),
            OwnValue::Float64(v) => ValueView::Float64(v.bits),
            OwnValue::String(s) => ValueView::String(s@),
            OwnValue::Null => ValueView::Null,
        }
    }
}

/// Whether a value may stand in a column of type `t` that is `nullable` or not.
pub open spec fn fits(v: ValueView, t: DataType, nullable: bool) -> bool {
    match v {
        ValueView::Null => nullable,
        ValueView::Int32(_) => t == DataType::Int32,
        ValueView::Float64(_) => t == DataType::Float64,
        ValueView::String(_) => t is Varchar || t == DataType::String,
    }
}

impl OwnValue {
    /// An independent copy of the value.
    pub fn copy(&self) -> (r: OwnValue)
        ensures
            r@ == self@,
    {
        match self {
            OwnValue::Int32(v) => OwnValue::Int32(*v),
            OwnValue::Float64(v) => OwnValue::Float64(*v),
            OwnValue::String(s) => OwnValue::String(s.clone()),
            OwnValue::Null => OwnValue::Null,
        }
    }

    /// Whether the value may stand in a column of type `t`.
    pub fn fits(&self, t: DataType, nullable: bool) -> (r: bool)
        ensures
            r == fits(self@, t, nullable),
    {
        match self {
            OwnValue::Null => nullable,
            OwnValue::Int32(_) => t == DataType::Int32,
            OwnValue::Float64(_) => t == DataType::Float64,
            OwnValue::String(_) => match t {
                DataType::Varchar(_) => true,
                DataType::String => true,
                _ => false,
            },
        }
    }
}

} // verus!
