//! The table of type names.

use crate::global::{Type, TypeModel};
use crate::text::same_text;
use vstd::prelude::*;

verus! {
/// The table that a list of registrations amounts to: a later registration
/// of a name replaces an earlier one.
pub open spec fn table_of(entries: Seq<(String, Type)>) -> Map<Seq<char>, TypeModel>
    decreases entries.len(),
{
    if entries.len() == 0 {
        Map::empty()
    } else {
        table_of(entries.drop_last()).insert(entries.last().0@, entries.last().1@)
    }
}

/// The primitive type names.
pub open spec fn primitive_types() -> Map<Seq<char>, TypeModel> {
    Map::empty().insert("i8"@, TypeModel::Int8).insert("i16"@, TypeModel::Int16).insert(
        "i32"@,
        TypeModel::Int32,
    ).insert("i64"@, TypeModel::Int64).insert("f32"@, TypeModel::Float32).insert(
        "f64"@,
        TypeModel::Float64,
    ).insert("u8"@, TypeModel::UInt8).insert("u16"@, TypeModel::UInt16).insert(
        "u32"@,
        TypeModel::UInt32,
    ).insert("u64"@, TypeModel::UInt64).insert("string"@, TypeModel::String).insert(
        "bool"@,
        TypeModel::Boolean,
    ).insert("unit"@, TypeModel::Unit)
}

/// A mapping from type names to types.
pub struct TypeRegistry {
    entries: Vec<(String, Type)>,
}

impl View for TypeRegistry {
    type V = Map<Seq<char>, TypeModel>;

    closed spec fn view(&self) -> Map<Seq<char>, TypeModel> {
        table_of(self.entries@)
    }
}

proof fn lemma_table_push(entries: Seq<(String, Type)>, entry: (String, Type))
    ensures
        table_of(entries.push(entry)) == table_of(entries).insert(entry.0@, entry.1@),
{
    assert(entries.push(entry).drop_last() =~= entries);
}

impl TypeRegistry {
    /// A registry holding the primitive type names.
    pub fn new() -> (r: TypeRegistry)
        ensures
            r@ == primitive_types(),
    {
        let mut r = TypeRegistry { entries: Vec::new() };
        r.register("i8", Type::Int8);
        r.register("i16", Type::Int16);
        r.register("i32", Type::Int32);
        r.register("i64", Type::Int64);
        r.register("f32", Type::Float32);
        r.register("f64", Type::Float64);
        r.register("u8", Type::UInt8);
        r.register("u16", Type::UInt16);
        r.register("u32", Type::UInt32);
        r.register("u64", Type::UInt64);
        r.register("string", Type::String);
        r.register("bool", Type::Boolean);
        r.register("unit", Type::Unit);
        r
    }

    /// Whether the name is registered.
    pub fn is_registered(&self, s: &str) -> (r: bool)
        ensures
            r == self@.contains_key(s@),
    {
        match self.get(s) {
            Some(_) => true,
            None => false,
        }
    }

    /// Registers a name, replacing what it stood for before.
    pub fn register(&mut self, s: &str, t: Type)
        ensures
            final(self)@ == old(self)@.insert(s@, t@),
    {
        let ghost before = self.entries@;
        let name = s.to_owned();
        proof {
            lemma_table_push(before, (name, t));
        }
        self.entries.push((name, t));
    }

    /// The type that a name stands for, if it is registered.
    pub fn get(&self, s: &str) -> (r: Option<Type>)
        ensures
            match r {
                Some(t) => self@.contains_key(s@) && self@[s@] == t@,
                None => !self@.contains_key(s@),
            },
    {
        let mut i: usize = self.entries.len();
        proof {
            assert(self.entries@.take(i as int) =~= self.entries@);
        }
        while i > 0
            invariant
                i <= self.entries.len(),
                table_of(self.entries@).contains_key(s@) == table_of(
                    self.entries@.take(i as int),
                ).contains_key(s@),
                table_of(self.entries@).contains_key(s@) ==> table_of(self.entries@)[s@]
                    == table_of(self.entries@.take(i as int))[s@],
            decreases i,
        {
            proof {
                assert(self.entries@.take(i as int).drop_last() =~= self.entries@.take(i as int - 1));
            }
            i = i - 1;
            if same_text(self.entries[i].0.as_str(), s) {
                return Some(self.entries[i].1.clone());
            }
        }
        None
    }

    /// Removes a name; nothing changes if it was not registered.
    pub fn remove(&mut self, s: &str)
        ensures
            final(self)@ == old(self)@.remove(s@),
    {
        let mut rest: Vec<(String, Type)> = Vec::new();
        let mut i: usize = 0;
        while i < self.entries.len()
            invariant
                i <= self.entries.len(),
                *self == *old(self),
                table_of(rest@) == table_of(self.entries@.take(i as int)).remove(s@),
            decreases self.entries.len() - i,
        {
            proof {
                assert(self.entries@.take(i as int + 1).drop_last() =~= self.entries@.take(i as int));
            }
            if !same_text(self.entries[i].0.as_str(), s) {
                let entry = (self.entries[i].0.clone(), self.entries[i].1.clone());
                proof {
                    lemma_table_push(rest@, entry);
                }
                rest.push(entry);
            }
            i = i + 1;
        }
        proof {
            assert(self.entries@.take(self.entries.len() as int) =~= self.entries@);
        }
        self.entries = rest;
    }
}
} // verus!
