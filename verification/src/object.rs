//! The values that Monkey programs compute with.

use vstd::prelude::*;
use vstd::string::StringExecFns;

use crate::ast::{Infix, Prefix};
use crate::code::Instructions;

verus! {

/// A compiled function: its instructions and the number of its local bindings.
#[derive(Debug)]
pub struct CompiledFunction {
    pub instructions: Instructions,
    pub num_locals: u8,
}

/// What a [`CompiledFunction`] is, mathematically.
pub struct FunctionView {
    pub instructions: Seq<u8>,
    pub num_locals: u8,
}

impl View for CompiledFunction {
    type V = FunctionView;

    open spec fn view(&self) -> FunctionView {
        FunctionView { instructions: self.instructions@, num_locals: self.num_locals }
    }
}

impl Clone for CompiledFunction {
    fn clone(&self) -> (copy: Self)
        ensures
            copy@ == self@,
    {
        let instructions = self.instructions.clone();
        assert(instructions@ =~= self.instructions@);
        CompiledFunction { instructions, num_locals: self.num_locals }
    }
}

/// A value that can be the key of a hash.
#[derive(Debug)]
pub enum HashKey {
    Integer(i64),
    String(String),
    Boolean(bool),
}

/// What a [`HashKey`] is, mathematically.
pub enum Key {
    Integer(i64),
    String(Seq<char>),
    Boolean(bool),
}

impl View for HashKey {
    type V = Key;

    open spec fn view(&self) -> Key {
        match self {
            HashKey::Integer(value) => Key::Integer(*value),
            HashKey::String(value) => Key::String(value@),
            HashKey::Boolean(value) => Key::Boolean(*value),
        }
    }
}

impl Clone for HashKey {
    fn clone(&self) -> (copy: Self)
        ensures
            copy@ == self@,
    {
        match self {
            HashKey::Integer(value) => HashKey::Integer(*value),
            HashKey::String(value) => HashKey::String(value.clone()),
            HashKey::Boolean(value) => HashKey::Boolean(*value),
        }
    }
}

impl HashKey {
    /// Whether two keys are the same.
    pub fn same(&self, other: &HashKey) -> (same: bool)
        ensures
            same == (self@ == other@),
    {
        match (self, other) {
            (HashKey::Integer(left), HashKey::Integer(right)) => *left == *right,
            (HashKey::String(left), HashKey::String(right)) => *left == *right,
            (HashKey::Boolean(left), HashKey::Boolean(right)) => *left == *right,
            _ => false,
        }
    }
}

/// A value.
#[derive(Debug)]
pub enum Object {
    Null,
    Integer(i64),
    Boolean(bool),
    String(String),
    Array(Vec<Object>),
    Hash(HashPairs),
    CompiledFunction(CompiledFunction),
}

/// The pairs of a hash: no key occurs twice.
#[derive(Debug)]
pub struct HashPairs {
    entries: Vec<(HashKey, Object)>,
}

/// What an [`Object`] is, mathematically.
pub enum Value {
    Null,
    Integer(i64),
    Boolean(bool),
    String(Seq<char>),
    Array(Seq<Value>),
    Hash(Map<Key, Value>),
    CompiledFunction(FunctionView),
}

/// The map that a list of pairs describes; a later pair replaces an earlier one with its key.
pub open spec fn map_of_pairs(pairs: Seq<(Key, Value)>) -> Map<Key, Value>
    decreases pairs.len(),
{
    if pairs.len() == 0 {
        Map::empty()
    } else {
        map_of_pairs(pairs.drop_last()).insert(pairs.last().0, pairs.last().1)
    }
}

/// The keys of a list of pairs differ from one another.
pub open spec fn distinct_keys(pairs: Seq<(Key, Value)>) -> bool {
    forall|i: int, j: int|
        0 <= i < j < pairs.len() ==> (#[trigger] pairs[i]).0 != (#[trigger] pairs[j]).0
}

/// With distinct keys, the map holds each pair and nothing else.
proof fn lemma_map_of_distinct_pairs(pairs: Seq<(Key, Value)>)
    requires
        distinct_keys(pairs),
    ensures
        forall|i: int|
            0 <= i < pairs.len() ==> map_of_pairs(pairs).contains_key((#[trigger] pairs[i]).0)
                && map_of_pairs(pairs)[pairs[i].0] == pairs[i].1,
        forall|key: Key| #[trigger]
            map_of_pairs(pairs).contains_key(key) ==> exists|i: int|
                0 <= i < pairs.len() && (#[trigger] pairs[i]).0 == key,
    decreases pairs.len(),
{
    if pairs.len() > 0 {
        let rest = pairs.drop_last();
        assert forall|i: int, j: int| 0 <= i < j < rest.len() implies (#[trigger] rest[i]).0 != (
        #[trigger] rest[j]).0 by {
            assert(rest[i] == pairs[i] && rest[j] == pairs[j]);
        }
        lemma_map_of_distinct_pairs(rest);
        assert forall|i: int| 0 <= i < pairs.len() implies map_of_pairs(pairs).contains_key(
            (#[trigger] pairs[i]).0,
        ) && map_of_pairs(pairs)[pairs[i].0] == pairs[i].1 by {
            if i < rest.len() {
                assert(rest[i] == pairs[i]);
                assert(pairs[i].0 != pairs[pairs.len() - 1].0);
            }
        }
        assert forall|key: Key| #[trigger] map_of_pairs(pairs).contains_key(key) implies exists|
            i: int,
        | 0 <= i < pairs.len() && (#[trigger] pairs[i]).0 == key by {
            if key == pairs.last().0 {
                assert(pairs[pairs.len() - 1].0 == key);
            } else {
                assert(map_of_pairs(rest).contains_key(key));
                let i = choose|i: int| 0 <= i < rest.len() && (#[trigger] rest[i]).0 == key;
                assert(pairs[i] == rest[i]);
            }
        }
    }
}

/// The map of a list of pairs has the keys of the pairs, and at each key the value of the last
/// pair with that key.
pub proof fn lemma_map_of_pairs(pairs: Seq<(Key, Value)>, key: Key)
    ensures
        map_of_pairs(pairs).contains_key(key) <==> exists|i: int|
            0 <= i < pairs.len() && (#[trigger] pairs[i]).0 == key,
        forall|i: int|
            0 <= i < pairs.len() && (#[trigger] pairs[i]).0 == key && (forall|j: int|
                i < j < pairs.len() ==> (#[trigger] pairs[j]).0 != key) ==> map_of_pairs(pairs)[key]
                == pairs[i].1,
    decreases pairs.len(),
{
    if pairs.len() > 0 {
        let rest = pairs.drop_last();
        lemma_map_of_pairs(rest, key);
        assert forall|i: int| 0 <= i < rest.len() implies #[trigger] rest[i] == pairs[i] by {}
        if pairs.last().0 == key {
            assert(pairs[pairs.len() - 1].0 == key);
        } else if map_of_pairs(rest).contains_key(key) {
            let i = choose|i: int| 0 <= i < rest.len() && (#[trigger] rest[i]).0 == key;
            assert(pairs[i].0 == key);
        }
        assert forall|i: int|
            0 <= i < pairs.len() && (#[trigger] pairs[i]).0 == key && (forall|j: int|
                i < j < pairs.len() ==> (#[trigger] pairs[j]).0 != key) implies map_of_pairs(
            pairs,
        )[key] == pairs[i].1 by {
            if i < rest.len() {
                assert(pairs[pairs.len() - 1].0 != key);
                assert(rest[i].0 == key);
                assert forall|j: int| i < j < rest.len() implies (#[trigger] rest[j]).0 != key by {
                    assert(pairs[j].0 != key);
                }
            }
        }
        if exists|i: int| 0 <= i < pairs.len() && (#[trigger] pairs[i]).0 == key {
            let i = choose|i: int| 0 <= i < pairs.len() && (#[trigger] pairs[i]).0 == key;
            if i < rest.len() {
                assert(rest[i].0 == key);
            }
        }
    }
}

/// The pairs that a list of entries stands for.
spec fn entry_pairs(entries: Seq<(HashKey, Object)>) -> Seq<(Key, Value)> {
    entries.map_values(|entry: (HashKey, Object)| (entry.0@, entry.1@))
}

impl HashPairs {
    /// The pairs, in the order of the entries.
    pub closed spec fn pairs(self) -> Seq<(Key, Value)>
        decreases self,
    {
        Seq::new(
            self.entries@.len(),
            |i: int|
                if 0 <= i < self.entries@.len() {
                    (self.entries@[i].0@, self.entries@[i].1.view())
                } else {
                    arbitrary()
                },
        )
    }

    #[verifier::type_invariant]
    spec fn inv(self) -> bool {
        distinct_keys(entry_pairs(self.entries@))
    }

    proof fn lemma_pairs(self)
        ensures
            self.pairs() == entry_pairs(self.entries@),
    {
        reveal_with_fuel(HashPairs::pairs, 2);
        reveal_with_fuel(<Object as View>::view, 2);
        assert(self.pairs() =~= entry_pairs(self.entries@));
    }

    /// The empty hash.
    pub fn new() -> (pairs: HashPairs)
        ensures
            pairs@ == Map::<Key, Value>::empty(),
    {
        HashPairs { entries: Vec::new() }
    }

    /// The entries, in some order: each key once.
    pub fn entries(&self) -> (entries: &Vec<(HashKey, Object)>)
        ensures
            entries@.len() == self.pairs().len(),
            forall|i: int|
                0 <= i < entries@.len() ==> ((#[trigger] entries@[i]).0@, entries@[i].1@)
                    == self.pairs()[i],
            distinct_keys(self.pairs()),
    {
        proof {
            use_type_invariant(self);
            self.lemma_pairs();
        }
        &self.entries
    }

    /// The position of a key among the entries.
    fn position(&self, key: &HashKey) -> (position: Option<usize>)
        ensures
            match position {
                Some(i) => i < self.pairs().len() && self.pairs()[i as int].0 == key@,
                None => forall|i: int|
                    0 <= i < self.pairs().len() ==> (#[trigger] self.pairs()[i]).0 != key@,
            },
    {
        proof {
            self.lemma_pairs();
        }
        for i in 0..self.entries.len()
            invariant
                self.pairs() == entry_pairs(self.entries@),
                forall|j: int| 0 <= j < i ==> (#[trigger] self.pairs()[j]).0 != key@,
        {
            if self.entries[i].0.same(key) {
                return Some(i);
            }
        }
        None
    }

    /// The value at a key.
    pub fn get(&self, key: &HashKey) -> (value: Option<&Object>)
        ensures
            match value {
                Some(object) => self@.contains_key(key@) && object@ == self@[key@],
                None => !self@.contains_key(key@),
            },
    {
        proof {
            use_type_invariant(self);
            self.lemma_pairs();
            lemma_map_of_distinct_pairs(self.pairs());
        }
        match self.position(key) {
            Some(i) => Some(&self.entries[i].1),
            None => None,
        }
    }

    /// Puts a value at a key, in place of the value that was there.
    pub fn insert(&mut self, key: HashKey, value: Object)
        ensures
            final(self)@ == old(self)@.insert(key@, value@),
    {
        let position = self.position(&key);
        let ghost before = self.pairs();
        proof {
            use_type_invariant(&*self);
            self.lemma_pairs();
            lemma_map_of_distinct_pairs(before);
        }
        let mut entries: Vec<(HashKey, Object)> = Vec::new();
        std::mem::swap(&mut entries, &mut self.entries);
        match position {
            Some(i) => {
                entries[i] = (key, value);
            },
            None => {
                entries.push((key, value));
            },
        }
        let ghost after = entry_pairs(entries@);
        proof {
            match position {
                Some(i) => {
                    assert(after =~= before.update(i as int, (key@, value@)));
                    assert(distinct_keys(after));
                    lemma_map_of_distinct_pairs(after);
                    assert(map_of_pairs(after) =~= map_of_pairs(before).insert(key@, value@)) by {
                        assert(after[i as int] == (key@, value@));
                        assert forall|k: Key| map_of_pairs(before).contains_key(k) implies map_of_pairs(
                            after,
                        ).contains_key(k) by {
                            let n = choose|n: int|
                                0 <= n < before.len() && (#[trigger] before[n]).0 == k;
                            assert(after[n].0 == k);
                        }
                        assert forall|k: Key| map_of_pairs(after).contains_key(k) implies
                            map_of_pairs(before).contains_key(k)
                            && (k != key@ ==> map_of_pairs(after)[k] == map_of_pairs(before)[k]) by {
                            let n = choose|n: int|
                                0 <= n < after.len() && (#[trigger] after[n]).0 == k;
                            assert(before[n].0 == k);
                        }
                    }
                },
                None => {
                    assert(after =~= before.push((key@, value@)));
                    assert(after.drop_last() =~= before);
                    assert(distinct_keys(after));
                },
            }
        }
        self.entries = entries;
        proof {
            self.lemma_pairs();
        }
    }
}

impl View for HashPairs {
    type V = Map<Key, Value>;

    open spec fn view(&self) -> Map<Key, Value> {
        map_of_pairs(self.pairs())
    }
}

impl View for Object {
    type V = Value;

    open spec fn view(&self) -> Value
        decreases self,
    {
        match self {
            Object::Null => Value::Null,
            Object::Integer(value) => Value::Integer(*value),
            Object::Boolean(value) => Value::Boolean(*value),
            Object::String(value) => Value::String(value@),
            Object::Array(items) => Value::Array(
                Seq::new(
                    items@.len(),
                    |i: int|
                        if 0 <= i < items@.len() {
                            items@[i].view()
                        } else {
                            arbitrary()
                        },
                ),
            ),
            Object::Hash(pairs) => Value::Hash(map_of_pairs(pairs.pairs())),
            Object::CompiledFunction(function) => Value::CompiledFunction(function@),
        }
    }
}

impl Clone for HashPairs {
    fn clone(&self) -> (copy: Self)
        ensures
            copy@ == self@,
        decreases self,
    {
        let mut entries: Vec<(HashKey, Object)> = Vec::with_capacity(self.entries.len());
        for i in 0..self.entries.len()
            invariant
                entries@.len() == i,
                forall|j: int|
                    0 <= j < i ==> (#[trigger] entries@[j]).0@ == self.entries@[j].0@
                        && entries@[j].1@ == self.entries@[j].1@,
        {
            let key = self.entries[i].0.clone();
            let value = self.entries[i].1.clone();
            entries.push((key, value));
        }
        proof {
            use_type_invariant(self);
            self.lemma_pairs();
            assert(entry_pairs(entries@) =~= self.pairs());
        }
        let copy = HashPairs { entries };
        proof {
            self.lemma_pairs();
            copy.lemma_pairs();
        }
        copy
    }
}

/// Copies every object of a list.
fn clone_all(items: &Vec<Object>) -> (copies: Vec<Object>)
    ensures
        copies@.len() == items@.len(),
        forall|j: int| 0 <= j < items@.len() ==> (#[trigger] copies@[j])@ == items@[j]@,
    decreases items,
{
    let mut copies: Vec<Object> = Vec::with_capacity(items.len());
    for i in 0..items.len()
        invariant
            copies@.len() == i,
            forall|j: int| 0 <= j < i ==> (#[trigger] copies@[j])@ == items@[j]@,
    {
        let item = items[i].clone();
        copies.push(item);
    }
    copies
}

impl Clone for Object {
    fn clone(&self) -> (copy: Self)
        ensures
            copy@ == self@,
        decreases self,
    {
        match self {
            Object::Null => Object::Null,
            Object::Integer(value) => Object::Integer(*value),
            Object::Boolean(value) => Object::Boolean(*value),
            Object::String(value) => Object::String(value.clone()),
            Object::Array(items) => {
                let copy = Object::Array(clone_all(items));
                reveal_with_fuel(<Object as View>::view, 2);
                assert(copy@->Array_0 =~= self@->Array_0);
                copy
            },
            Object::Hash(pairs) => Object::Hash(pairs.clone()),
            Object::CompiledFunction(function) => Object::CompiledFunction(function.clone()),
        }
    }
}

impl Value {
    /// Everything but `null` and `false` counts as true.
    pub open spec fn truthy(self) -> bool {
        self != Value::Null && self != Value::Boolean(false)
    }

    /// The hash key that a value can serve as, if any.
    pub open spec fn key(self) -> Option<Key> {
        match self {
            Value::Integer(value) => Some(Key::Integer(value)),
            Value::String(value) => Some(Key::String(value)),
            Value::Boolean(value) => Some(Key::Boolean(value)),
            _ => None,
        }
    }

    /// The name of a value's type in messages.
    pub open spec fn kind_name(self) -> Seq<char> {
        match self {
            Value::Null => "NULL"@,
            Value::Integer(_) => "INTEGER"@,
            Value::Boolean(_) => "BOOLEAN"@,
            Value::String(_) => "STRING"@,
            Value::Array(_) => "ARRAY"@,
            Value::Hash(_) => "HASH"@,
            Value::CompiledFunction(_) => "COMPILED_FUNCTION"@,
        }
    }
}

/// A value counts as false if it is `null` or `false`, and as true if it is anything else.
pub proof fn lemma_truthy(value: Value)
    ensures
        match value {
            Value::Null => !value.truthy(),
            Value::Boolean(truth) => value.truthy() == truth,
            _ => value.truthy(),
        },
{
}

/// Integers, strings and booleans serve as keys, and two of them are the same key only if they
/// are the same value.
pub proof fn lemma_key(one: Value, other: Value)
    ensures
        one.key() is Some <==> one is Integer || one is String || one is Boolean,
        one.key() is Some && one.key() == other.key() ==> one == other,
        one.key() matches Some(Key::Integer(number)) ==> one == Value::Integer(number),
        one.key() matches Some(Key::String(text)) ==> one == Value::String(text),
        one.key() matches Some(Key::Boolean(truth)) ==> one == Value::Boolean(truth),
{
}

/// The value of an object is of the same kind and holds what the object holds.
pub proof fn lemma_object_view(object: Object)
    ensures
        match object {
            Object::Null => object@ == Value::Null,
            Object::Integer(number) => object@ == Value::Integer(number),
            Object::Boolean(truth) => object@ == Value::Boolean(truth),
            Object::String(text) => object@ == Value::String(text@),
            Object::Array(items) => object@ matches Value::Array(values) && values.len()
                == items@.len() && forall|i: int|
                0 <= i < items@.len() ==> #[trigger] values[i] == items@[i]@,
            Object::Hash(pairs) => object@ == Value::Hash(pairs@) && pairs@ == map_of_pairs(
                pairs.pairs(),
            ),
            Object::CompiledFunction(function) => object@ matches Value::CompiledFunction(called)
                && called.instructions == function.instructions@ && called.num_locals
                == function.num_locals,
        },
{
    reveal_with_fuel(<Object as View>::view, 2);
}

/// A hash key is of the same kind as its view and holds the same.
pub proof fn lemma_hash_key_view(key: HashKey)
    ensures
        match key {
            HashKey::Integer(number) => key@ == Key::Integer(number),
            HashKey::String(text) => key@ == Key::String(text@),
            HashKey::Boolean(truth) => key@ == Key::Boolean(truth),
        },
{
}

impl Object {
    /// Whether the object counts as true in a condition.
    pub fn is_truthy(&self) -> (truthy: bool)
        ensures
            truthy == self@.truthy(),
    {
        match self {
            Object::Null => false,
            Object::Boolean(value) => *value,
            _ => true,
        }
    }

    /// The name of the object's type in messages.
    pub fn kind_name(&self) -> (name: &'static str)
        ensures
            name@ == self@.kind_name(),
    {
        match self {
            Object::Null => "NULL",
            Object::Integer(_) => "INTEGER",
            Object::Boolean(_) => "BOOLEAN",
            Object::String(_) => "STRING",
            Object::Array(_) => "ARRAY",
            Object::Hash(_) => "HASH",
            Object::CompiledFunction(_) => "COMPILED_FUNCTION",
        }
    }
}

impl HashKey {
    /// The key that an object can serve as.
    pub fn from_object(object: &Object) -> (key: Result<HashKey, EvalError>)
        ensures
            match key {
                Ok(found) => object@.key() == Some(found@),
                Err(error) => object@.key() is None && error@
                    == EvalErrorView::UnsupportedHashKey(object@),
            },
    {
        match object {
            Object::Integer(value) => Ok(HashKey::Integer(*value)),
            Object::String(value) => Ok(HashKey::String(value.clone())),
            Object::Boolean(value) => Ok(HashKey::Boolean(*value)),
            _ => Err(EvalError::UnsupportedHashKey(object.clone())),
        }
    }
}

/// What can go wrong when an operator meets its operands.
#[derive(Debug)]
pub enum EvalError {
    /// An infix operator between operands of types that do not go together.
    TypeMismatch(Infix, Object, Object),
    /// A prefix operator that the operand's type does not have.
    UnknownPrefixOperator(Prefix, Object),
    /// An infix operator that the operands' type does not have.
    UnknownInfixOperator(Infix, Object, Object),
    /// An index into an object that has none, or by an object that cannot be one.
    UnknownIndexOperator(Object, Object),
    /// A hash key of a type that cannot be one.
    UnsupportedHashKey(Object),
    /// A call of something that is not a function.
    NotFunction(Object),
}

/// What an [`EvalError`] is, mathematically.
pub enum EvalErrorView {
    TypeMismatch(Infix, Value, Value),
    UnknownPrefixOperator(Prefix, Value),
    UnknownInfixOperator(Infix, Value, Value),
    UnknownIndexOperator(Value, Value),
    UnsupportedHashKey(Value),
    NotFunction(Value),
}

impl View for EvalError {
    type V = EvalErrorView;

    open spec fn view(&self) -> EvalErrorView {
        match self {
            EvalError::TypeMismatch(infix, left, right) => EvalErrorView::TypeMismatch(
                *infix,
                left@,
                right@,
            ),
            EvalError::UnknownPrefixOperator(prefix, right) =>
                EvalErrorView::UnknownPrefixOperator(*prefix, right@),
            EvalError::UnknownInfixOperator(infix, left, right) =>
                EvalErrorView::UnknownInfixOperator(*infix, left@, right@),
            EvalError::UnknownIndexOperator(object, index) => EvalErrorView::UnknownIndexOperator(
                object@,
                index@,
            ),
            EvalError::UnsupportedHashKey(object) => EvalErrorView::UnsupportedHashKey(object@),
            EvalError::NotFunction(object) => EvalErrorView::NotFunction(object@),
        }
    }
}

/// An evaluation error is of the same kind as its view, with the same operator and the values of
/// the same operands, in the same order.
pub proof fn lemma_eval_error_view(error: EvalError)
    ensures
        match error {
            EvalError::TypeMismatch(infix, left, right) => error@ == EvalErrorView::TypeMismatch(
                infix,
                left@,
                right@,
            ),
            EvalError::UnknownPrefixOperator(prefix, right) => error@
                == EvalErrorView::UnknownPrefixOperator(prefix, right@),
            EvalError::UnknownInfixOperator(infix, left, right) => error@
                == EvalErrorView::UnknownInfixOperator(infix, left@, right@),
            EvalError::UnknownIndexOperator(object, index) => error@
                == EvalErrorView::UnknownIndexOperator(object@, index@),
            EvalError::UnsupportedHashKey(object) => error@ == EvalErrorView::UnsupportedHashKey(
                object@,
            ),
            EvalError::NotFunction(object) => error@ == EvalErrorView::NotFunction(object@),
        },
{
}

impl EvalErrorView {
    /// The message of an error.
    pub open spec fn message(self) -> Seq<char> {
        match self {
            EvalErrorView::TypeMismatch(infix, left, right) => "type mismatch: "@
                + left.kind_name() + " "@ + infix.spec_symbol() + " "@ + right.kind_name(),
            EvalErrorView::UnknownPrefixOperator(prefix, right) => "unknown operator: "@
                + prefix.spec_symbol() + right.kind_name(),
            EvalErrorView::UnknownInfixOperator(infix, left, right) => "unknown operator: "@
                + left.kind_name() + " "@ + infix.spec_symbol() + " "@ + right.kind_name(),
            EvalErrorView::UnknownIndexOperator(object, index) => "unknown operator: "@
                + object.kind_name() + "["@ + index.kind_name() + "]"@,
            EvalErrorView::UnsupportedHashKey(object) => "unsupported hash key: "@
                + object.kind_name(),
            EvalErrorView::NotFunction(object) => "not a function: "@ + object.kind_name(),
        }
    }
}

/// The message of an evaluation error names the types of the operands in the order in which they
/// are written, with the operator where it stands between or before them.
pub proof fn lemma_eval_error_message(infix: Infix, prefix: Prefix, left: Value, right: Value)
    ensures
        EvalErrorView::TypeMismatch(infix, left, right).message() == "type mismatch: "@
            + left.kind_name() + " "@ + infix.spec_symbol() + " "@ + right.kind_name(),
        EvalErrorView::UnknownInfixOperator(infix, left, right).message() == "unknown operator: "@
            + left.kind_name() + " "@ + infix.spec_symbol() + " "@ + right.kind_name(),
        EvalErrorView::UnknownPrefixOperator(prefix, right).message() == "unknown operator: "@
            + prefix.spec_symbol() + right.kind_name(),
        EvalErrorView::UnknownIndexOperator(left, right).message() == "unknown operator: "@
            + left.kind_name() + "["@ + right.kind_name() + "]"@,
        EvalErrorView::UnsupportedHashKey(left).message() == "unsupported hash key: "@
            + left.kind_name(),
        EvalErrorView::NotFunction(left).message() == "not a function: "@ + left.kind_name(),
{
}

/// Values of one type, and only those, have one type name.
pub proof fn lemma_kind_name(one: Value, other: Value)
    ensures
        one.kind_name() == other.kind_name() <==> {
            ||| one is Null && other is Null
            ||| one is Integer && other is Integer
            ||| one is Boolean && other is Boolean
            ||| one is String && other is String
            ||| one is Array && other is Array
            ||| one is Hash && other is Hash
            ||| one is CompiledFunction && other is CompiledFunction
        },
        one is Null ==> one.kind_name() == "NULL"@,
        one is Integer ==> one.kind_name() == "INTEGER"@,
        one is Boolean ==> one.kind_name() == "BOOLEAN"@,
        one is String ==> one.kind_name() == "STRING"@,
        one is Array ==> one.kind_name() == "ARRAY"@,
        one is Hash ==> one.kind_name() == "HASH"@,
        one is CompiledFunction ==> one.kind_name() == "COMPILED_FUNCTION"@,
{
    reveal_strlit("NULL");
    reveal_strlit("INTEGER");
    reveal_strlit("BOOLEAN");
    reveal_strlit("STRING");
    reveal_strlit("ARRAY");
    reveal_strlit("HASH");
    reveal_strlit("COMPILED_FUNCTION");
    assert("NULL"@[0] == 'N' && "INTEGER"@[0] == 'I' && "BOOLEAN"@[0] == 'B' && "STRING"@[0] == 'S'
        && "ARRAY"@[0] == 'A' && "HASH"@[0] == 'H' && "COMPILED_FUNCTION"@[0] == 'C');
}

impl EvalError {
    /// The message of the error.
    pub fn to_string(&self) -> (message: String)
        ensures
            message@ == self@.message(),
    {
        match self {
            EvalError::TypeMismatch(infix, left, right) => {
                let mut message = "type mismatch: ".to_string();
                message.append(left.kind_name());
                message.append(" ");
                message.append(infix.symbol());
                message.append(" ");
                message.append(right.kind_name());
                message
            },
            EvalError::UnknownPrefixOperator(prefix, right) => {
                let mut message = "unknown operator: ".to_string();
                message.append(prefix.symbol());
                message.append(right.kind_name());
                message
            },
            EvalError::UnknownInfixOperator(infix, left, right) => {
                let mut message = "unknown operator: ".to_string();
                message.append(left.kind_name());
                message.append(" ");
                message.append(infix.symbol());
                message.append(" ");
                message.append(right.kind_name());
                message
            },
            EvalError::UnknownIndexOperator(object, index) => {
                let mut message = "unknown operator: ".to_string();
                message.append(object.kind_name());
                message.append("[");
                message.append(index.kind_name());
                message.append("]");
                message
            },
            EvalError::UnsupportedHashKey(object) => {
                let mut message = "unsupported hash key: ".to_string();
                message.append(object.kind_name());
                message
            },
            EvalError::NotFunction(object) => {
                let mut message = "not a function: ".to_string();
                message.append(object.kind_name());
                message
            },
        }
    }
}

} // verus!
