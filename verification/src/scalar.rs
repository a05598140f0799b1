//! The scalar type a frame is generic over: a totally ordered value with a
//! canonical written form.

use vstd::prelude::*;
use crate::decimal::{
    decimal, decimal_round_trip, decimal_value, read_signed, read_unsigned, unsigned_value,
    within, write_decimal,
};

verus! {

/// A cell value of a numeric column.
///
/// `rank` places the value on the integer line; the order and equality of the
/// type are those of its rank. `text` is the canonical written form and
/// `parsed` says which texts read as a value.
pub trait Scalar: Copy + Eq + std::hash::Hash {
    /// Position of the value in the order of its type.
    spec fn rank(&self) -> int;

    /// Canonical written form.
    spec fn text(&self) -> Seq<char>;

    /// The value that a text stands for, if it stands for one.
    spec fn parsed(s: Seq<char>) -> Option<Self>;

    /// Two values of equal rank are the same value.
    proof fn rank_is_faithful(a: Self, b: Self)
        ensures
            a.rank() == b.rank() ==> a == b,
    ;

    /// Hash sets and maps may be keyed by the type.
    proof fn hashes_by_value()
        ensures
            vstd::std_specs::hash::obeys_key_model::<Self>(),
    ;

    /// The written form of a value reads as that value.
    proof fn text_reads_back(v: Self)
        ensures
            Self::parsed(v.text()) == Some(v),
    ;

    /// Strictly-less test.
    fn less(&self, other: &Self) -> (r: bool)
        ensures
            r == (self.rank() < other.rank()),
    ;

    /// Equality test.
    fn same(&self, other: &Self) -> (r: bool)
        ensures
            r == (self.rank() == other.rank()),
    ;

    /// Writes the value.
    fn render(&self) -> (s: String)
        ensures
            s@ == self.text(),
    ;

    /// Reads a value.
    fn parse(s: &str) -> (r: Option<Self>)
        ensures
            r == Self::parsed(s@),
    ;
}

impl Scalar for i64 {
    open spec fn rank(&self) -> int {
        *self as int
    }

    open spec fn text(&self) -> Seq<char> {
        decimal(*self as int)
    }

    open spec fn parsed(s: Seq<char>) -> Option<i64> {
        match within(decimal_value(s), i64::MIN as int, i64::MAX as int) {
            Some(v) => Some(v as i64),
            None => None,
        }
    }

    proof fn rank_is_faithful(a: i64, b: i64) {
    }

    proof fn hashes_by_value() {
        broadcast use vstd::std_specs::hash::group_hash_axioms;

    }

    proof fn text_reads_back(v: i64) {
        decimal_round_trip(v as int);
    }

    fn less(&self, other: &i64) -> (r: bool) {
        *self < *other
    }

    fn same(&self, other: &i64) -> (r: bool) {
        *self == *other
    }

    fn render(&self) -> (s: String) {
        if *self < 0 {
            write_decimal(true, (0 - (*self as i128)) as u64)
        } else {
            write_decimal(false, *self as u64)
        }
    }

    fn parse(s: &str) -> (r: Option<i64>) {
        read_signed(s, i64::MIN, i64::MAX)
    }
}

impl Scalar for u64 {
    open spec fn rank(&self) -> int {
        *self as int
    }

    open spec fn text(&self) -> Seq<char> {
        decimal(*self as int)
    }

    open spec fn parsed(s: Seq<char>) -> Option<u64> {
        match within(unsigned_value(s), 0, u64::MAX as int) {
            Some(v) => Some(v as u64),
            None => None,
        }
    }

    proof fn rank_is_faithful(a: u64, b: u64) {
    }

    proof fn hashes_by_value() {
        broadcast use vstd::std_specs::hash::group_hash_axioms;

    }

    proof fn text_reads_back(v: u64) {
        decimal_round_trip(v as int);
    }

    fn less(&self, other: &u64) -> (r: bool) {
        *self < *other
    }

    fn same(&self, other: &u64) -> (r: bool) {
        *self == *other
    }

    fn render(&self) -> (s: String) {
        write_decimal(false, *self)
    }

    fn parse(s: &str) -> (r: Option<u64>) {
        read_unsigned(s, u64::MAX)
    }
}

impl Scalar for i32 {
    open spec fn rank(&self) -> int {
        *self as int
    }

    open spec fn text(&self) -> Seq<char> {
        decimal(*self as int)
    }

    open spec fn parsed(s: Seq<char>) -> Option<i32> {
        match within(decimal_value(s), i32::MIN as int, i32::MAX as int) {
            Some(v) => Some(v as i32),
            None => None,
        }
    }

    proof fn rank_is_faithful(a: i32, b: i32) {
    }

    proof fn hashes_by_value() {
        broadcast use vstd::std_specs::hash::group_hash_axioms;

    }

    proof fn text_reads_back(v: i32) {
        decimal_round_trip(v as int);
    }

    fn less(&self, other: &i32) -> (r: bool) {
        *self < *other
    }

    fn same(&self, other: &i32) -> (r: bool) {
        *self == *other
    }

    fn render(&self) -> (s: String) {
        if *self < 0 {
            write_decimal(true, (0 - (*self as i128)) as u64)
        } else {
            write_decimal(false, *self as u64)
        }
    }

    fn parse(s: &str) -> (r: Option<i32>) {
        match read_signed(s, i32::MIN as i64, i32::MAX as i64) {
            Some(v) => Some(v as i32),
            None => None,
        }
    }
}

impl Scalar for i16 {
    open spec fn rank(&self) -> int {
        *self as int
    }

    open spec fn text(&self) -> Seq<char> {
        decimal(*self as int)
    }

    open spec fn parsed(s: Seq<char>) -> Option<i16> {
        match within(decimal_value(s), i16::MIN as int, i16::MAX as int) {
            Some(v) => Some(v as i16),
            None => None,
        }
    }

    proof fn rank_is_faithful(a: i16, b: i16) {
    }

    proof fn hashes_by_value() {
        broadcast use vstd::std_specs::hash::group_hash_axioms;

    }

    proof fn text_reads_back(v: i16) {
        decimal_round_trip(v as int);
    }

    fn less(&self, other: &i16) -> (r: bool) {
        *self < *other
    }

    fn same(&self, other: &i16) -> (r: bool) {
        *self == *other
    }

    fn render(&self) -> (s: String) {
        if *self < 0 {
            write_decimal(true, (0 - (*self as i128)) as u64)
        } else {
            write_decimal(false, *self as u64)
        }
    }

    fn parse(s: &str) -> (r: Option<i16>) {
        match read_signed(s, i16::MIN as i64, i16::MAX as i64) {
            Some(v) => Some(v as i16),
            None => None,
        }
    }
}

impl Scalar for i8 {
    open spec fn rank(&self) -> int {
        *self as int
    }

    open spec fn text(&self) -> Seq<char> {
        decimal(*self as int)
    }

    open spec fn parsed(s: Seq<char>) -> Option<i8> {
        match within(decimal_value(s), i8::MIN as int, i8::MAX as int) {
            Some(v) => Some(v as i8),
            None => None,
        }
    }

    proof fn rank_is_faithful(a: i8, b: i8) {
    }

    proof fn hashes_by_value() {
        broadcast use vstd::std_specs::hash::group_hash_axioms;

    }

    proof fn text_reads_back(v: i8) {
        decimal_round_trip(v as int);
    }

    fn less(&self, other: &i8) -> (r: bool) {
        *self < *other
    }

    fn same(&self, other: &i8) -> (r: bool) {
        *self == *other
    }

    fn render(&self) -> (s: String) {
        if *self < 0 {
            write_decimal(true, (0 - (*self as i128)) as u64)
        } else {
            write_decimal(false, *self as u64)
        }
    }

    fn parse(s: &str) -> (r: Option<i8>) {
        match read_signed(s, i8::MIN as i64, i8::MAX as i64) {
            Some(v) => Some(v as i8),
            None => None,
        }
    }
}

impl Scalar for isize {
    open spec fn rank(&self) -> int {
        *self as int
    }

    open spec fn text(&self) -> Seq<char> {
        decimal(*self as int)
    }

    open spec fn parsed(s: Seq<char>) -> Option<isize> {
        match within(decimal_value(s), isize::MIN as int, isize::MAX as int) {
            Some(v) => Some(v as isize),
            None => None,
        }
    }

    proof fn rank_is_faithful(a: isize, b: isize) {
    }

    proof fn hashes_by_value() {
        broadcast use vstd::std_specs::hash::group_hash_axioms;

    }

    proof fn text_reads_back(v: isize) {
        decimal_round_trip(v as int);
    }

    fn less(&self, other: &isize) -> (r: bool) {
        *self < *other
    }

    fn same(&self, other: &isize) -> (r: bool) {
        *self == *other
    }

    fn render(&self) -> (s: String) {
        if *self < 0 {
            write_decimal(true, (0 - (*self as i128)) as u64)
        } else {
            write_decimal(false, *self as u64)
        }
    }

    fn parse(s: &str) -> (r: Option<isize>) {
        match read_signed(s, isize::MIN as i64, isize::MAX as i64) {
            Some(v) => Some(v as isize),
            None => None,
        }
    }
}

impl Scalar for u32 {
    open spec fn rank(&self) -> int {
        *self as int
    }

    open spec fn text(&self) -> Seq<char> {
        decimal(*self as int)
    }

    open spec fn parsed(s: Seq<char>) -> Option<u32> {
        match within(unsigned_value(s), 0, u32::MAX as int) {
            Some(v) => Some(v as u32),
            None => None,
        }
    }

    proof fn rank_is_faithful(a: u32, b: u32) {
    }

    proof fn hashes_by_value() {
        broadcast use vstd::std_specs::hash::group_hash_axioms;

    }

    proof fn text_reads_back(v: u32) {
        decimal_round_trip(v as int);
    }

    fn less(&self, other: &u32) -> (r: bool) {
        *self < *other
    }

    fn same(&self, other: &u32) -> (r: bool) {
        *self == *other
    }

    fn render(&self) -> (s: String) {
        write_decimal(false, *self as u64)
    }

    fn parse(s: &str) -> (r: Option<u32>) {
        match read_unsigned(s, u32::MAX as u64) {
            Some(v) => Some(v as u32),
            None => None,
        }
    }
}

impl Scalar for u16 {
    open spec fn rank(&self) -> int {
        *self as int
    }

    open spec fn text(&self) -> Seq<char> {
        decimal(*self as int)
    }

    open spec fn parsed(s: Seq<char>) -> Option<u16> {
        match within(unsigned_value(s), 0, u16::MAX as int) {
            Some(v) => Some(v as u16),
            None => None,
        }
    }

    proof fn rank_is_faithful(a: u16, b: u16) {
    }

    proof fn hashes_by_value() {
        broadcast use vstd::std_specs::hash::group_hash_axioms;

    }

    proof fn text_reads_back(v: u16) {
        decimal_round_trip(v as int);
    }

    fn less(&self, other: &u16) -> (r: bool) {
        *self < *other
    }

    fn same(&self, other: &u16) -> (r: bool) {
        *self == *other
    }

    fn render(&self) -> (s: String) {
        write_decimal(false, *self as u64)
    }

    fn parse(s: &str) -> (r: Option<u16>) {
        match read_unsigned(s, u16::MAX as u64) {
            Some(v) => Some(v as u16),
            None => None,
        }
    }
}

impl Scalar for u8 {
    open spec fn rank(&self) -> int {
        *self as int
    }

    open spec fn text(&self) -> Seq<char> {
        decimal(*self as int)
    }

    open spec fn parsed(s: Seq<char>) -> Option<u8> {
        match within(unsigned_value(s), 0, u8::MAX as int) {
            Some(v) => Some(v as u8),
            None => None,
        }
    }

    proof fn rank_is_faithful(a: u8, b: u8) {
    }

    proof fn hashes_by_value() {
        broadcast use vstd::std_specs::hash::group_hash_axioms;

    }

    proof fn text_reads_back(v: u8) {
        decimal_round_trip(v as int);
    }

    fn less(&self, other: &u8) -> (r: bool) {
        *self < *other
    }

    fn same(&self, other: &u8) -> (r: bool) {
        *self == *other
    }

    fn render(&self) -> (s: String) {
        write_decimal(false, *self as u64)
    }

    fn parse(s: &str) -> (r: Option<u8>) {
        match read_unsigned(s, u8::MAX as u64) {
            Some(v) => Some(v as u8),
            None => None,
        }
    }
}

impl Scalar for usize {
    open spec fn rank(&self) -> int {
        *self as int
    }

    open spec fn text(&self) -> Seq<char> {
        decimal(*self as int)
    }

    open spec fn parsed(s: Seq<char>) -> Option<usize> {
        match within(unsigned_value(s), 0, usize::MAX as int) {
            Some(v) => Some(v as usize),
            None => None,
        }
    }

    proof fn rank_is_faithful(a: usize, b: usize) {
    }

    proof fn hashes_by_value() {
        broadcast use vstd::std_specs::hash::group_hash_axioms;

    }

    proof fn text_reads_back(v: usize) {
        decimal_round_trip(v as int);
    }

    fn less(&self, other: &usize) -> (r: bool) {
        *self < *other
    }

    fn same(&self, other: &usize) -> (r: bool) {
        *self == *other
    }

    fn render(&self) -> (s: String) {
        write_decimal(false, *self as u64)
    }

    fn parse(s: &str) -> (r: Option<usize>) {
        match read_unsigned(s, usize::MAX as u64) {
            Some(v) => Some(v as usize),
            None => None,
        }
    }
}

} // verus!
