//! The variables of an expression and their values.

use crate::token::Number;
use crate::token::NumberView;
use vstd::hash_map::StringHashMap;
use vstd::prelude::*;

verus! {

/// The bits of the binary64 value nearest to 3.1415, the value of `PI`.
pub const PI_BITS: u64 = 0x4009_21ca_c083_126f;

/// The name of the one built-in constant.
pub open spec fn pi_name() -> Seq<char> {
    seq!['P', 'I']
}

/// The bindings that every new environment starts with: `PI` alone.
pub open spec fn constants() -> Map<Seq<char>, NumberView> {
    Map::empty().insert(pi_name(), NumberView::Decimal(PI_BITS))
}

/// What `env` holds for `name`: its binding, or the integer zero if it has
/// none.
pub open spec fn value_of(env: Map<Seq<char>, NumberView>, name: Seq<char>) -> NumberView {
    if env.contains_key(name) {
        env[name]
    } else {
        NumberView::Natural(0)
    }
}

/// A mapping from names to numbers.
pub struct Environment {
    bindings: StringHashMap<Number>,
}

impl View for Environment {
    type V = Map<Seq<char>, NumberView>;

    closed spec fn view(&self) -> Map<Seq<char>, NumberView> {
        self.bindings@.map_values(|n: Number| n@)
    }
}

impl Environment {
    /// An environment that binds `PI` to 3.1415 and nothing else.
    pub fn new() -> (r: Environment)
        ensures
            r@ == constants(),
    {
        let mut bindings = StringHashMap::new();
        proof {
            reveal_strlit("PI");
            assert("PI"@ =~= pi_name());
        }
        bindings.insert("PI".to_owned(), Number::DecimalNumber(PI_BITS));
        let r = Environment { bindings };
        r
    }

    /// Whether `name` is bound.
    pub fn contains(&self, name: &str) -> (r: bool)
        ensures
            r == self@.contains_key(name@),
    {
        self.bindings.contains_key(name)
    }

    /// The number bound to `name`, if any.
    pub fn get(&self, name: &str) -> (r: Option<Number>)
        ensures
            match r {
                Some(v) => self@.contains_key(name@) && v@ == self@[name@],
                None => !self@.contains_key(name@),
            },
    {
        match self.bindings.get(name) {
            Some(v) => Some(v.clone()),
            None => None,
        }
    }

    /// The number that a variable `name` evaluates to: its binding, or the
    /// integer zero if it has none.
    pub fn lookup(&self, name: &str) -> (r: Number)
        ensures
            r@ == value_of(self@, name@),
    {
        match self.bindings.get(name) {
            Some(v) => v.clone(),
            None => Number::zero(),
        }
    }

    /// Binds `name` to `value`, in place of any earlier binding.
    pub fn set(&mut self, name: String, value: Number)
        ensures
            final(self)@ == old(self)@.insert(name@, value@),
    {
        self.bindings.insert(name, value);
    }
}

} // verus!
