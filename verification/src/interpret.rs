//! The execution engine: evaluates AST nodes against a mutable, scope-aware
//! variable environment. The environment is an explicit value owned by one
//! program run, never a process-wide singleton.
//!
//! Declarations derive their modifier flags from the AST structure, resolve
//! the declared type against the fixed literal-type set, turn the literal
//! payload into the matching typed value, and insert the new binding;
//! assignments locate the binding by name and replace its value unless the
//! binding is constant; exiting a scope level removes exactly the bindings
//! created at that level.

use vstd::prelude::*;
use vstd::string::*;

use crate::expressions::{Exp, ExpView};
use crate::variables::{RuntimeError, RuntimeErrorView, VariableStruct, VariableStructView,
    VariableType, VariableTypeView, int_word_val, is_float_word, is_int_word, new_variable,
    new_variable_line_ok, parse_i32_word, spec_new_variable, validate_float_word, word_views};
use crate::vars::{ConstVar, ConstVarView, VarDec, VarDecView, VarMod, VarModView, VdView};

verus! {

// -------------------------------
// --- Spec views of a context ---
// -------------------------------

/// The spec-level images of a binding list, in order.
pub open spec fn vars_view(s: Seq<VariableStruct>) -> Seq<VariableStructView> {
    Seq::new(s.len(), |i: int| s[i]@)
}

/// First index at or after `i` whose binding carries `name`, or -1.
pub open spec fn find_from(s: Seq<VariableStructView>, i: nat, name: Seq<char>) -> int
    decreases s.len() - i,
{
    if i >= s.len() {
        -1
    } else if s[i as int].name == name {
        i as int
    } else {
        find_from(s, i + 1, name)
    }
}

/// Whether some binding carries `name`.
pub open spec fn contains_name(s: Seq<VariableStructView>, name: Seq<char>) -> bool {
    find_from(s, 0, name) >= 0
}

/// Binding names are pairwise distinct.
pub open spec fn unique_names(s: Seq<VariableStructView>) -> bool {
    forall|a: int, b: int| 0 <= a < b < s.len() ==> s[a].name != s[b].name
}

/// The bindings that survive exiting scope level `lvl`, scanning from `i`:
/// exactly those whose scope level differs, in their original order.
pub open spec fn remove_level_from(s: Seq<VariableStructView>, i: nat, lvl: nat) -> Seq<
    VariableStructView,
>
    decreases s.len() - i,
{
    if i >= s.len() {
        Seq::empty()
    } else if s[i as int].scope_level == lvl {
        remove_level_from(s, i + 1, lvl)
    } else {
        seq![s[i as int]] + remove_level_from(s, i + 1, lvl)
    }
}

/// The found index is in range and carries the name, and no earlier
/// position past the scan start does.
proof fn lemma_find_from_props(s: Seq<VariableStructView>, i: nat, name: Seq<char>)
    ensures
        (find_from(s, i, name) >= 0 ==> i <= find_from(s, i, name) < s.len() && s[find_from(
            s,
            i,
            name,
        )].name == name),
    decreases s.len() - i,
{
    if i >= s.len() {
    } else if s[i as int].name == name {
    } else {
        lemma_find_from_props(s, i + 1, name);
    }
}

// -------------------------
// --- Execution context ---
// -------------------------

/// The live environment for one program run: the binding list and the
/// current scope level (0 is global).
#[derive(Debug)]
pub struct ExecutionContext {
    pub variables: Vec<VariableStruct>,
    pub scope_level: u8,
}

impl View for ExecutionContext {
    type V = Seq<VariableStructView>;

    open spec fn view(&self) -> Seq<VariableStructView> {
        vars_view(self.variables@)
    }
}

impl ExecutionContext {
    /// Binding names are unique within the live environment.
    pub open spec fn wf(&self) -> bool {
        unique_names(self@)
    }

    /// A fresh environment: no bindings, at the global scope level.
    pub fn new() -> (r: ExecutionContext)
        ensures
            r@ == Seq::<VariableStructView>::empty(),
            r.scope_level == 0,
            r.wf(),
    {
        let r = ExecutionContext { variables: Vec::new(), scope_level: 0 };
        proof {
            assert(r@ =~= Seq::<VariableStructView>::empty());
        }
        r
    }

    /// Enters a nested lexical block: one scope level deeper.
    pub fn enter_scope(&mut self)
        requires
            old(self).scope_level < 255,
        ensures
            final(self)@ == old(self)@,
            final(self).scope_level == old(self).scope_level + 1,
            old(self).wf() ==> final(self).wf(),
    {
        self.scope_level = self.scope_level + 1;
    }

    /// Leaves the current lexical block: removes exactly the bindings
    /// created at the current scope level, keeping every shallower binding,
    /// then steps one level up.
    pub fn exit_scope(&mut self)
        requires
            old(self).wf(),
            old(self).scope_level > 0,
        ensures
            final(self)@ == remove_level_from(old(self)@, 0, old(self).scope_level as nat),
            final(self).scope_level == old(self).scope_level - 1,
            final(self).wf(),
    {
        let ghost orig = self@;
        let ghost lvl = self.scope_level as nat;
        let n = self.variables.len();
        let mut kept: Vec<VariableStruct> = Vec::new();
        let mut k: usize = 0;
        proof {
            assert(vars_view(kept@) =~= Seq::<VariableStructView>::empty());
            assert(Seq::<VariableStructView>::empty() + remove_level_from(orig, 0, lvl)
                =~= remove_level_from(orig, 0, lvl));
        }
        #[verifier::loop_isolation(false)]
        while k < n
            invariant
                k <= n,
                remove_level_from(orig, 0, lvl) == vars_view(kept@) + remove_level_from(
                    orig,
                    k as nat,
                    lvl,
                ),
                unique_names(vars_view(kept@)),
                forall|m: int, k2: int|
                    0 <= m < kept@.len() && k <= k2 < orig.len() ==> vars_view(kept@)[m].name
                        != orig[k2].name,
            decreases n - k,
        {
            let ghost kv = vars_view(kept@);
            if self.variables[k].scope_level == self.scope_level {
                k += 1;
            } else {
                kept.push(self.variables[k].duplicate());
                proof {
                    assert(vars_view(kept@) =~= kv + seq![orig[k as int]]);
                    assert((kv + seq![orig[k as int]]) + remove_level_from(orig, (k + 1) as nat, lvl)
                        =~= kv + (seq![orig[k as int]] + remove_level_from(
                        orig,
                        (k + 1) as nat,
                        lvl,
                    )));
                }
                k += 1;
            }
        }
        proof {
            assert(vars_view(kept@) + remove_level_from(orig, n as nat, lvl) =~= vars_view(kept@));
        }
        self.variables = kept;
        self.scope_level = self.scope_level - 1;
    }

    /// The index of the binding carrying `name`, if any.
    fn get_index(&self, name: &String) -> (r: Option<usize>)
        ensures
            (match r {
                Some(k) => find_from(self@, 0, name@) == k as int && k < self@.len(),
                None => find_from(self@, 0, name@) == -1,
            }),
    {
        let n = self.variables.len();
        let mut k: usize = 0;
        #[verifier::loop_isolation(false)]
        while k < n
            invariant
                k <= n,
                find_from(self@, 0, name@) == find_from(self@, k as nat, name@),
            decreases n - k,
        {
            if self.variables[k].name == *name {
                return Some(k);
            }
            k += 1;
        }
        None
    }

    /// Inserts a new binding; a binding with the same name already in the
    /// live environment is a duplicate-declaration error and changes
    /// nothing.
    pub fn declare(&mut self, v: VariableStruct) -> (r: Result<(), RuntimeError>)
        requires
            old(self).wf(),
        ensures
            final(self).scope_level == old(self).scope_level,
            final(self).wf(),
            contains_name(old(self)@, v@.name) ==> (r matches Err(e) && e@
                == RuntimeErrorView::DuplicateDeclaration(v@.name) && final(self)@ == old(self)@),
            !contains_name(old(self)@, v@.name) ==> (r matches Ok(u) && final(self)@ == old(
                self,
            )@.push(v@)),
    {
        proof {
            lemma_find_from_props(self@, 0, v@.name);
        }
        match self.get_index(&v.name) {
            Some(_) => Err(RuntimeError::DuplicateDeclaration(v.name)),
            None => {
                let ghost before = self@;
                proof {
                    lemma_find_from_none_means_free(before, 0, v@.name);
                }
                self.variables.push(v);
                proof {
                    assert(self@ =~= before.push(self.variables@.last()@));
                }
                Ok(())
            },
        }
    }
}

/// A failed scan means no binding at or past the scan start carries the
/// name.
proof fn lemma_find_from_none_means_free(s: Seq<VariableStructView>, i: nat, name: Seq<char>)
    requires
        find_from(s, i, name) == -1,
    ensures
        forall|k: int| i <= k < s.len() ==> s[k].name != name,
    decreases s.len() - i,
{
    if i >= s.len() {
    } else {
        lemma_find_from_none_means_free(s, i + 1, name);
    }
}

// ------------------
// --- Assignment ---
// ------------------

/// What assigning `value` to the binding called `name` does: an unknown
/// name fails; a binding marked constant fails, whatever the new value is;
/// otherwise only that binding's value is replaced.
pub open spec fn spec_assign(
    vars: Seq<VariableStructView>,
    name: Seq<char>,
    value: VariableTypeView,
) -> Result<Seq<VariableStructView>, RuntimeErrorView> {
    let k = find_from(vars, 0, name);
    if k < 0 {
        Err(RuntimeErrorView::UnknownVariable(name))
    } else if vars[k].is_constant {
        Err(RuntimeErrorView::ConstantMutation)
    } else {
        Ok(vars.update(k, VariableStructView { value, ..vars[k] }))
    }
}

impl ExecutionContext {
    /// Assigns a new value to an existing binding, as [`spec_assign`]
    /// describes.
    pub fn assign(&mut self, name: &String, value: VariableType) -> (r: Result<(), RuntimeError>)
        requires
            old(self).wf(),
        ensures
            final(self).scope_level == old(self).scope_level,
            final(self).wf(),
            (match spec_assign(old(self)@, name@, value@) {
                Ok(vars) => r matches Ok(u) && final(self)@ == vars,
                Err(e) => r matches Err(err) && err@ == e && final(self)@ == old(self)@,
            }),
    {
        proof {
            lemma_find_from_props(self@, 0, name@);
        }
        let k = match self.get_index(name) {
            Some(k) => k,
            None => {
                return Err(RuntimeError::UnknownVariable(name.clone()));
            },
        };
        if self.variables[k].is_constant {
            return Err(RuntimeError::ConstantMutation);
        }
        let ghost before = self@;
        let old_binding = self.variables.remove(k);
        let new_binding = VariableStruct::new(
            old_binding.name,
            value,
            old_binding.scope_level,
            old_binding.is_constant,
        );
        self.variables.insert(k, new_binding);
        proof {
            assert(self@ =~= before.update(
                k as int,
                VariableStructView { value: value@, ..before[k as int] },
            ));
            assert forall|a: int, b: int| 0 <= a < b < self@.len() implies self@[a].name
                != self@[b].name by {
                assert(before[a].name == self@[a].name);
                assert(before[b].name == self@[b].name);
            }
        }
        Ok(())
    }
}

/// Law: assigning to a binding marked constant always fails with a
/// constant-mutation error and changes nothing, regardless of the new
/// value's type.
pub proof fn law_constant_mutation(
    vars: Seq<VariableStructView>,
    name: Seq<char>,
    value: VariableTypeView,
)
    requires
        contains_name(vars, name),
        vars[find_from(vars, 0, name)].is_constant,
    ensures
        spec_assign(vars, name, value) == Err::<
            Seq<VariableStructView>,
            RuntimeErrorView,
        >(RuntimeErrorView::ConstantMutation),
{
}

/// Law: exiting a scope level removes exactly the bindings created at that
/// level: every surviving binding is from a different level, and every
/// binding at a different level survives.
pub proof fn law_scope_exit(s: Seq<VariableStructView>, lvl: nat)
    ensures
        forall|m: int|
            0 <= m < remove_level_from(s, 0, lvl).len() ==> remove_level_from(
                s,
                0,
                lvl,
            )[m].scope_level != lvl,
        forall|k: int|
            0 <= k < s.len() && s[k].scope_level != lvl ==> remove_level_from(
                s,
                0,
                lvl,
            ).contains(s[k]),
{
    law_scope_exit_from(s, 0, lvl);
}

proof fn law_scope_exit_from(s: Seq<VariableStructView>, i: nat, lvl: nat)
    ensures
        forall|m: int|
            0 <= m < remove_level_from(s, i, lvl).len() ==> remove_level_from(
                s,
                i,
                lvl,
            )[m].scope_level != lvl,
        forall|k: int|
            i <= k < s.len() && s[k].scope_level != lvl ==> remove_level_from(s, i, lvl).contains(
                s[k],
            ),
    decreases s.len() - i,
{
    if i >= s.len() {
    } else if s[i as int].scope_level == lvl {
        law_scope_exit_from(s, i + 1, lvl);
    } else {
        law_scope_exit_from(s, i + 1, lvl);
        let rec = remove_level_from(s, i + 1, lvl);
        let r = seq![s[i as int]] + rec;
        assert(remove_level_from(s, i, lvl) == r);
        assert forall|m: int| 0 <= m < r.len() implies r[m].scope_level != lvl by {
            if m > 0 {
                assert(r[m] == rec[m - 1]);
            }
        }
        assert forall|k: int| i <= k < s.len() && s[k].scope_level != lvl implies r.contains(
            s[k],
        ) by {
            if k == i {
                assert(r[0] == s[k]);
            } else {
                assert(rec.contains(s[k]));
                let w = choose|w: int| 0 <= w < rec.len() && rec[w] == s[k];
                assert(r[w + 1] == s[k]);
            }
        }
    }
}

// -------------------------------------
// --- Declaration evaluation (AST) ---
// -------------------------------------

/// The variable declaration at the core of any declaration node.
pub open spec fn dec_vd(d: VarDecView) -> VdView {
    match d {
        VarDecView::ConstVar(c) => match c {
            ConstVarView::PrivateVar(p) => p.vd,
            ConstVarView::GlobalVar(g) => g.vd,
            ConstVarView::Vd(vd) => vd,
        },
        VarDecView::PrivateVar(p) => p.vd,
        VarDecView::GlobalVar(g) => g.vd,
        VarDecView::Vd(vd) => vd,
    }
}

/// Whether the declaration carries the constant modifier.
pub open spec fn dec_is_constant(d: VarDecView) -> bool {
    d is ConstVar
}

/// Whether the declaration carries the global modifier.
pub open spec fn dec_is_global(d: VarDecView) -> bool {
    match d {
        VarDecView::ConstVar(c) => c is GlobalVar,
        VarDecView::GlobalVar(g) => true,
        _ => false,
    }
}

/// Turning a declaration's literal payload into a value of the declared
/// type: an unknown type name fails; a payload of the wrong kind fails; an
/// unparsable or out-of-range numeral fails; `null` ignores the payload.
pub open spec fn literal_value(tn: Seq<char>, e: ExpView) -> Result<
    VariableTypeView,
    RuntimeErrorView,
> {
    if tn == "string"@ {
        match e {
            ExpView::String(s) => Ok(VariableTypeView::String(s)),
            _ => Err(RuntimeErrorView::MismatchedValue(tn)),
        }
    } else if tn == "int"@ {
        match e {
            ExpView::Int(s) => if is_int_word(s) && i32::MIN <= int_word_val(s) <= i32::MAX {
                Ok(VariableTypeView::Integer(int_word_val(s)))
            } else {
                Err(RuntimeErrorView::InvalidValue(s))
            },
            _ => Err(RuntimeErrorView::MismatchedValue(tn)),
        }
    } else if tn == "float"@ {
        match e {
            ExpView::Float(s) => if is_float_word(s) {
                Ok(VariableTypeView::Float(s))
            } else {
                Err(RuntimeErrorView::InvalidValue(s))
            },
            _ => Err(RuntimeErrorView::MismatchedValue(tn)),
        }
    } else if tn == "bool"@ {
        match e {
            ExpView::Bool(b) => Ok(VariableTypeView::Boolean(b)),
            _ => Err(RuntimeErrorView::MismatchedValue(tn)),
        }
    } else if tn == "null"@ {
        Ok(VariableTypeView::Null)
    } else {
        Err(RuntimeErrorView::UnknownType(tn))
    }
}

/// What executing a declaration node does: derive the modifier flags from
/// the node structure, turn the payload into the declared type's value,
/// compute the binding's level (0 when global, else the current level), and
/// insert the binding unless its name already exists.
pub open spec fn spec_execute_dec(
    d: VarDecView,
    vars: Seq<VariableStructView>,
    level: nat,
) -> Result<Seq<VariableStructView>, RuntimeErrorView> {
    let vd = dec_vd(d);
    match literal_value(vd.type_.name, vd.exp) {
        Err(e) => Err(e),
        Ok(val) => {
            let lvl = if dec_is_global(d) {
                0nat
            } else {
                level
            };
            if contains_name(vars, vd.identifier) {
                Err(RuntimeErrorView::DuplicateDeclaration(vd.identifier))
            } else {
                Ok(
                    vars.push(
                        VariableStructView {
                            name: vd.identifier,
                            value: val,
                            scope_level: lvl,
                            is_constant: dec_is_constant(d),
                        },
                    ),
                )
            }
        },
    }
}

/// Turns an expression node into a runtime value of the declared type, as
/// [`literal_value`] describes.
fn eval_literal(declared_type: &String, exp: &Exp) -> (r: Result<VariableType, RuntimeError>)
    ensures
        (match literal_value(declared_type@, exp@) {
            Ok(v) => r matches Ok(val) && val@ == v,
            Err(e) => r matches Err(err) && err@ == e,
        }),
{
    if *declared_type == String::from_str("string") {
        match exp {
            Exp::String(s) => Ok(VariableType::String(s.clone())),
            _ => Err(RuntimeError::MismatchedValue(declared_type.clone())),
        }
    } else if *declared_type == String::from_str("int") {
        match exp {
            Exp::Int(s) => match parse_i32_word(s) {
                Some(v) => Ok(VariableType::Integer(v)),
                None => Err(RuntimeError::InvalidValue(s.clone())),
            },
            _ => Err(RuntimeError::MismatchedValue(declared_type.clone())),
        }
    } else if *declared_type == String::from_str("float") {
        match exp {
            Exp::Float(s) => if validate_float_word(s) {
                Ok(VariableType::Float(s.clone()))
            } else {
                Err(RuntimeError::InvalidValue(s.clone()))
            },
            _ => Err(RuntimeError::MismatchedValue(declared_type.clone())),
        }
    } else if *declared_type == String::from_str("bool") {
        match exp {
            Exp::Bool(b) => Ok(VariableType::Boolean(*b)),
            _ => Err(RuntimeError::MismatchedValue(declared_type.clone())),
        }
    } else if *declared_type == String::from_str("null") {
        Ok(VariableType::Null)
    } else {
        Err(RuntimeError::UnknownType(declared_type.clone()))
    }
}

/// Executes a declaration node against the context, as
/// [`spec_execute_dec`] describes; on failure the context is unchanged.
pub fn execute(node: &VarDec, ctx: &mut ExecutionContext) -> (r: Result<(), RuntimeError>)
    requires
        old(ctx).wf(),
    ensures
        final(ctx).scope_level == old(ctx).scope_level,
        final(ctx).wf(),
        (match spec_execute_dec(node@, old(ctx)@, old(ctx).scope_level as nat) {
            Ok(vars) => r matches Ok(u) && final(ctx)@ == vars,
            Err(e) => r matches Err(err) && err@ == e && final(ctx)@ == old(ctx)@,
        }),
{
    let (vd, is_constant, is_global) = match node {
        VarDec::ConstVar(c) => match c {
            ConstVar::PrivateVar(p) => (&p.vd, true, false),
            ConstVar::GlobalVar(g) => (&g.vd, true, true),
            ConstVar::Vd(vd) => (vd, true, false),
        },
        VarDec::PrivateVar(p) => (&p.vd, false, false),
        VarDec::GlobalVar(g) => (&g.vd, false, true),
        VarDec::Vd(vd) => (vd, false, false),
    };
    let value = match eval_literal(&vd.type_.name, &vd.exp) {
        Ok(v) => v,
        Err(e) => {
            return Err(e);
        },
    };
    let level: u8 = if is_global {
        0
    } else {
        ctx.scope_level
    };
    let binding = VariableStruct::new(vd.identifier.clone(), value, level, is_constant);
    ctx.declare(binding)
}

/// What executing a variable modification does: the binding is located by
/// name; a constant binding rejects the mutation whatever the new value is;
/// then the literal is taken at its own kind and stored.
pub open spec fn spec_execute_var_mod(
    name: Seq<char>,
    m: VarModView,
    vars: Seq<VariableStructView>,
) -> Result<Seq<VariableStructView>, RuntimeErrorView> {
    let k = find_from(vars, 0, name);
    if k < 0 {
        Err(RuntimeErrorView::UnknownVariable(name))
    } else if vars[k].is_constant {
        Err(RuntimeErrorView::ConstantMutation)
    } else {
        match mod_value(m.exp) {
            Err(e) => Err(e),
            Ok(v) => Ok(vars.update(k, VariableStructView { value: v, ..vars[k] })),
        }
    }
}

/// A modification's literal taken at its own kind: numerals are parsed or
/// validated, booleans and strings are stored as they are.
pub open spec fn mod_value(e: ExpView) -> Result<VariableTypeView, RuntimeErrorView> {
    match e {
        ExpView::Bool(b) => Ok(VariableTypeView::Boolean(b)),
        ExpView::Int(s) => if is_int_word(s) && i32::MIN <= int_word_val(s) <= i32::MAX {
            Ok(VariableTypeView::Integer(int_word_val(s)))
        } else {
            Err(RuntimeErrorView::InvalidValue(s))
        },
        ExpView::Float(s) => if is_float_word(s) {
            Ok(VariableTypeView::Float(s))
        } else {
            Err(RuntimeErrorView::InvalidValue(s))
        },
        ExpView::String(s) => Ok(VariableTypeView::String(s)),
    }
}

/// Executes a variable modification (`<name> <exp>`, the name already
/// consumed by the parser) against the context, as
/// [`spec_execute_var_mod`] describes; on failure the context is unchanged.
pub fn execute_var_mod(name: &String, m: &VarMod, ctx: &mut ExecutionContext) -> (r: Result<
    (),
    RuntimeError,
>)
    requires
        old(ctx).wf(),
    ensures
        final(ctx).scope_level == old(ctx).scope_level,
        final(ctx).wf(),
        (match spec_execute_var_mod(name@, m@, old(ctx)@) {
            Ok(vars) => r matches Ok(u) && final(ctx)@ == vars,
            Err(e) => r matches Err(err) && err@ == e && final(ctx)@ == old(ctx)@,
        }),
{
    proof {
        lemma_find_from_props(ctx@, 0, name@);
    }
    let k = match ctx.get_index(name) {
        Some(k) => k,
        None => {
            return Err(RuntimeError::UnknownVariable(name.clone()));
        },
    };
    if ctx.variables[k].is_constant {
        return Err(RuntimeError::ConstantMutation);
    }
    let value = match &m.exp {
        Exp::Bool(b) => VariableType::Boolean(*b),
        Exp::Int(s) => match parse_i32_word(s) {
            Some(v) => VariableType::Integer(v),
            None => {
                return Err(RuntimeError::InvalidValue(s.clone()));
            },
        },
        Exp::Float(s) => if validate_float_word(s) {
            VariableType::Float(s.clone())
        } else {
            return Err(RuntimeError::InvalidValue(s.clone()));
        },
        Exp::String(s) => VariableType::String(s.clone()),
    };
    ctx.assign(name, value)
}

// -----------------------------------
// --- Line-interpreter decisions ---
// -----------------------------------

/// Whether a word names one of the literal types.
pub open spec fn is_literal_declared_type(w: Seq<char>) -> bool {
    w == "string"@ || w == "int"@ || w == "float"@ || w == "bool"@ || w == "null"@
}

/// Whether a word names a literal type: the line interpreter's last check
/// before rejecting a line.
pub fn is_variable_type(word: &String) -> (b: bool)
    ensures
        b == is_literal_declared_type(word@),
{
    *word == String::from_str("string") || *word == String::from_str("int") || *word
        == String::from_str("float") || *word == String::from_str("bool") || *word
        == String::from_str("null")
}

/// What [`create_variable`] does: evaluate the declaration head, then
/// insert the new binding unless its name already exists.
pub open spec fn spec_create_variable(
    line: Seq<Seq<char>>,
    vars: Seq<VariableStructView>,
    level: nat,
) -> Result<Seq<VariableStructView>, RuntimeErrorView>
    recommends
        new_variable_line_ok(line),
{
    match spec_new_variable(line, level) {
        Err(e) => Err(e),
        Ok(v) => if contains_name(vars, v.name) {
            Err(RuntimeErrorView::DuplicateDeclaration(v.name))
        } else {
            Ok(vars.push(v))
        },
    }
}

/// Creates a new variable from a declaration line and inserts it, as
/// [`spec_create_variable`] describes; on failure the context is unchanged.
pub fn create_variable(line: &Vec<String>, ctx: &mut ExecutionContext) -> (r: Result<
    (),
    RuntimeError,
>)
    requires
        old(ctx).wf(),
        new_variable_line_ok(word_views(line@)),
    ensures
        final(ctx).scope_level == old(ctx).scope_level,
        final(ctx).wf(),
        (match spec_create_variable(word_views(line@), old(ctx)@, old(ctx).scope_level as nat) {
            Ok(vars) => r matches Ok(u) && final(ctx)@ == vars,
            Err(e) => r matches Err(err) && err@ == e && final(ctx)@ == old(ctx)@,
        }),
{
    let binding = match new_variable(line, ctx.scope_level) {
        Ok(v) => v,
        Err(e) => {
            return Err(e);
        },
    };
    ctx.declare(binding)
}

/// The action a line asks its driver to take: call out to a native
/// function, or nothing further, a declaration already done.
#[derive(Debug, PartialEq, Eq, Structural, Clone, Copy)]
pub enum LineAction {
    NativeCall,
    Declared,
}

/// Whether [`interpret`] can read everything it inspects on the line.
pub open spec fn interpret_line_ok(line: Seq<Seq<char>>) -> bool {
    line.len() >= 1 && ((line[0] == "pu"@ || line[0] == "fu"@ || line[0] == "ju"@
        || is_literal_declared_type(line[0])) ==> new_variable_line_ok(line))
}

/// What [`interpret`] decides for one line: a native call is handed back to
/// the driver; a modifier keyword or a literal type name starts a
/// declaration; anything else is an unknown command citing the line number.
pub open spec fn spec_interpret(
    line: Seq<Seq<char>>,
    line_number: nat,
    vars: Seq<VariableStructView>,
    level: nat,
) -> Result<(LineAction, Seq<VariableStructView>), RuntimeErrorView>
    recommends
        interpret_line_ok(line),
{
    if line[0] == "skr_app"@ {
        Ok((LineAction::NativeCall, vars))
    } else if line[0] == "pu"@ || line[0] == "fu"@ || line[0] == "ju"@ || is_literal_declared_type(
        line[0],
    ) {
        match spec_create_variable(line, vars, level) {
            Ok(vars2) => Ok((LineAction::Declared, vars2)),
            Err(e) => Err(e),
        }
    } else {
        Err(RuntimeErrorView::UnknownCommand(line[0], line_number))
    }
}

/// Interprets one line of legacy line-oriented code: decides what the line
/// asks for, performs a declaration itself, and leaves native calls to the
/// caller, as [`spec_interpret`] describes.
pub fn interpret(line: &Vec<String>, line_number: usize, ctx: &mut ExecutionContext) -> (r: Result<
    LineAction,
    RuntimeError,
>)
    requires
        old(ctx).wf(),
        interpret_line_ok(word_views(line@)),
    ensures
        final(ctx).scope_level == old(ctx).scope_level,
        final(ctx).wf(),
        (match spec_interpret(
            word_views(line@),
            line_number as nat,
            old(ctx)@,
            old(ctx).scope_level as nat,
        ) {
            Ok((action, vars)) => r matches Ok(a) && a == action && final(ctx)@ == vars,
            Err(e) => r matches Err(err) && err@ == e && final(ctx)@ == old(ctx)@,
        }),
{
    let word = &line[0];
    if *word == String::from_str("skr_app") {
        return Ok(LineAction::NativeCall);
    }
    let is_modifier = *word == String::from_str("pu") || *word == String::from_str("fu") || *word
        == String::from_str("ju");
    if is_modifier || is_variable_type(word) {
        match create_variable(line, ctx) {
            Ok(u) => Ok(LineAction::Declared),
            Err(e) => Err(e),
        }
    } else {
        Err(RuntimeError::UnknownCommand(word.clone(), line_number))
    }
}

} // verus!
