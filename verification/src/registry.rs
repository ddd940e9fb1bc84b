//! The type registry: the set of identifiers recognized as valid type names
//! at parse time, seeded with the built-in literal types. Registration of
//! further names (user-defined classes) is an open extension point.

use vstd::prelude::*;
use vstd::string::*;

verus! {

/// Whether `w` is one of the registered names.
pub open spec fn reg_contains(r: Seq<Seq<char>>, w: Seq<char>) -> bool {
    exists|k: int| 0 <= k < r.len() && r[k] == w
}

/// The names of the five built-in literal types, in their seeded order.
pub open spec fn builtin_type_names() -> Seq<Seq<char>> {
    seq!["string"@, "int"@, "float"@, "bool"@, "null"@]
}

/// The registry of identifiers that the parser treats as type names.
pub struct TypeRegistry {
    names: Vec<String>,
}

impl View for TypeRegistry {
    type V = Seq<Seq<char>>;

    closed spec fn view(&self) -> Seq<Seq<char>> {
        Seq::new(self.names@.len(), |i: int| self.names@[i]@)
    }
}

impl TypeRegistry {
    /// A fresh registry holding exactly the built-in literal types.
    pub fn new() -> (r: TypeRegistry)
        ensures
            r@ == builtin_type_names(),
    {
        let mut names: Vec<String> = Vec::new();
        names.push(String::from_str("string"));
        names.push(String::from_str("int"));
        names.push(String::from_str("float"));
        names.push(String::from_str("bool"));
        names.push(String::from_str("null"));
        let r = TypeRegistry { names };
        proof {
            assert(r@ =~= builtin_type_names());
        }
        r
    }

    /// Registers one more name; already-registered names stay as they are.
    pub fn register(&mut self, name: String) -> (nothing: ())
        ensures
            final(self)@ == old(self)@.push(name@),
    {
        let ghost old_view = self@;
        self.names.push(name);
        proof {
            assert(self@ =~= old_view.push(self.names@.last()@));
        }
    }

    /// Whether `name` resolves against the registry: the parser's "is this a
    /// type name?" check.
    pub fn is_type_def(&self, name: &String) -> (b: bool)
        ensures
            b == reg_contains(self@, name@),
    {
        let n = self.names.len();
        let mut k: usize = 0;
        while k < n
            invariant
                k <= n,
                n == self.names@.len(),
                forall|m: int| 0 <= m < k ==> self@[m] != name@,
            decreases n - k,
        {
            if self.names[k] == *name {
                proof {
                    assert(self@[k as int] == name@);
                }
                return true;
            }
            k += 1;
        }
        false
    }
}

} // verus!
