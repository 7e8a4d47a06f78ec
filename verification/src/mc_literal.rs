//! Literal values of the language: integers, hex integers, strings and
//! keyword constants.
use vstd::prelude::*;
use crate::text::{chars_of, int_string, int_text, parse_i64, parse_i64_chars};

verus! {

/// Basic data types.
#[derive(Debug, Clone, Copy, PartialEq, Eq)]
pub enum McType {
    Int,
    Hex,
    Float,
    String,
}

impl McType {
    /// The type's display word: `INT`, `HEX`, `FLOAT`, `STRING`.
    pub fn as_str(&self) -> (r: &'static str)
        ensures
            r@ == (match *self {
                McType::Int => "INT"@,
                McType::Hex => "HEX"@,
                McType::Float => "FLOAT"@,
                McType::String => "STRING"@,
            }),
    {
        match self {
            McType::Int => "INT",
            McType::Hex => "HEX",
            McType::Float => "FLOAT",
            McType::String => "STRING",
        }
    }
}

/// An integer literal.
#[derive(Clone, PartialEq, Eq, Hash, Debug)]
pub struct McInt {
    pub value: i64,
}

/// A hexadecimal literal with its written text.
#[derive(Clone, PartialEq, Eq, Hash, Debug)]
pub struct McHex {
    pub value: i64,
    pub hex_str: String,
}

/// A string literal, stored without its quotes.
#[derive(Clone, PartialEq, Eq, Debug)]
pub struct McString {
    pub value: String,
}

/// A keyword constant.
#[derive(Clone, PartialEq, Eq, Debug)]
pub enum McConst {
    Keyword(String),
}

impl McInt {
    /// The integer's decimal text.
    pub fn to_string(&self) -> (r: String)
        ensures
            r@ == int_text(self.value as int),
    {
        int_string(self.value)
    }

    /// The integer a decimal text denotes. The text must be a signed decimal
    /// numeral in `i64` range.
    pub fn from(s: &str) -> (r: McInt)
        requires
            parse_i64(s@) is Some,
        ensures
            r.value == parse_i64(s@)->0,
    {
        let v = chars_of(s);
        let p = parse_i64_chars(v.as_slice());
        McInt { value: p.unwrap() }
    }

    /// A copy of the literal.
    pub fn copy(&self) -> (r: McInt)
        ensures
            r == *self,
    {
        McInt { value: self.value }
    }
}

impl McHex {
    /// The literal's written text.
    pub fn to_string(&self) -> (r: String)
        ensures
            r@ == self.hex_str@,
    {
        self.hex_str.clone()
    }
}

impl McString {
    /// A string literal holding the given text.
    pub fn from(s: &str) -> (r: McString)
        ensures
            r.value@ == s@,
    {
        McString { value: s.to_owned() }
    }

    /// The literal written with its double quotes.
    pub fn to_string(&self) -> (r: String)
        ensures
            r@ == seq!['"'] + self.value@ + seq!['"'],
    {
        let mut s = String::new();
        crate::text::push_char(&mut s, '"');
        s.append(self.value.as_str());
        crate::text::push_char(&mut s, '"');
        assert(s@ =~= seq!['"'] + self.value@ + seq!['"']);
        s
    }
}

impl McConst {
    /// The keyword's text.
    pub fn to_string(&self) -> (r: String)
        ensures
            r@ == (match self {
                McConst::Keyword(k) => k@,
            }),
    {
        match self {
            McConst::Keyword(k) => k.clone(),
        }
    }
}

} // verus!
