//! Runtime values, variable bindings, and the declaration-head evaluation
//! algorithm: modifier flags are read off the leading tokens, the declared
//! type is resolved against the fixed literal-type set, and the literal
//! payload is turned into the matching typed value, with every failure
//! reported as a runtime error rather than swallowed.
//!
//! A float value carries its validated numeral text: turning it into a
//! machine float is left to unverified callers, so the verified core stays
//! exact. A float literal word is an optional sign, then digits with at
//! most one dot and at least one digit; exponent forms and the infinity
//! and not-a-number spellings are not literal words here and are reported
//! as invalid values.

use vstd::prelude::*;
use vstd::string::*;

use crate::lexer::is_digit_spec;

verus! {

// ----------------------
// --- Runtime errors ---
// ----------------------

/// Spec-level image of [`RuntimeError`].
pub enum RuntimeErrorView {
    ConflictingModifiers,
    DuplicatedModifier(Seq<char>),
    UnknownType(Seq<char>),
    InvalidValue(Seq<char>),
    MismatchedValue(Seq<char>),
    DuplicateDeclaration(Seq<char>),
    ConstantMutation,
    UnknownVariable(Seq<char>),
    UnknownCommand(Seq<char>, nat),
}

/// A failure of one execution step: the closed semantic/runtime taxonomy.
#[derive(Debug, PartialEq)]
pub enum RuntimeError {
    /// The global and private modifiers were both set.
    ConflictingModifiers,
    /// The same modifier token appeared twice in the declaration head.
    DuplicatedModifier(String),
    /// The declared type name is not one of the literal types.
    UnknownType(String),
    /// The literal payload could not be turned into a value of the declared
    /// type (an unparsable or out-of-range numeral).
    InvalidValue(String),
    /// The literal payload's kind does not match the declared type.
    MismatchedValue(String),
    /// A binding with the same name already exists.
    DuplicateDeclaration(String),
    /// The binding is marked constant and cannot be mutated.
    ConstantMutation,
    /// No binding with the assigned name exists.
    UnknownVariable(String),
    /// The line starts with a word that is no known command (carries the
    /// word and the line number).
    UnknownCommand(String, usize),
}

impl View for RuntimeError {
    type V = RuntimeErrorView;

    open spec fn view(&self) -> RuntimeErrorView {
        match self {
            RuntimeError::ConflictingModifiers => RuntimeErrorView::ConflictingModifiers,
            RuntimeError::DuplicatedModifier(s) => RuntimeErrorView::DuplicatedModifier(s@),
            RuntimeError::UnknownType(s) => RuntimeErrorView::UnknownType(s@),
            RuntimeError::InvalidValue(s) => RuntimeErrorView::InvalidValue(s@),
            RuntimeError::MismatchedValue(s) => RuntimeErrorView::MismatchedValue(s@),
            RuntimeError::DuplicateDeclaration(s) => RuntimeErrorView::DuplicateDeclaration(s@),
            RuntimeError::ConstantMutation => RuntimeErrorView::ConstantMutation,
            RuntimeError::UnknownVariable(s) => RuntimeErrorView::UnknownVariable(s@),
            RuntimeError::UnknownCommand(s, line) => RuntimeErrorView::UnknownCommand(
                s@,
                *line as nat,
            ),
        }
    }
}

// -----------------------------
// --- Numeric literal words ---
// -----------------------------

/// Value of one decimal digit character.
pub open spec fn digit_val(c: char) -> nat
    recommends
        is_digit_spec(c),
{
    (c as u32 - 48) as nat
}

/// Whether every character of `s` is a decimal digit.
pub open spec fn all_digits(s: Seq<char>) -> bool {
    forall|i: int| 0 <= i < s.len() ==> is_digit_spec(s[i])
}

/// The number that a digit sequence denotes, most significant digit first.
pub open spec fn digits_val(s: Seq<char>) -> nat
    decreases s.len(),
{
    if s.len() == 0 {
        0
    } else {
        digits_val(s.drop_last()) * 10 + digit_val(s.last())
    }
}

/// Whether `s` is an integer literal word: an optional leading sign
/// followed by at least one digit, and nothing else.
pub open spec fn is_int_word(s: Seq<char>) -> bool {
    if s.len() > 0 && (s[0] == '-' || s[0] == '+') {
        s.len() >= 2 && all_digits(s.skip(1))
    } else {
        s.len() > 0 && all_digits(s)
    }
}

/// The integer an integer literal word denotes.
pub open spec fn int_word_val(s: Seq<char>) -> int
    recommends
        is_int_word(s),
{
    if s.len() > 0 && s[0] == '-' {
        -(digits_val(s.skip(1)) as int)
    } else if s.len() > 0 && s[0] == '+' {
        digits_val(s.skip(1)) as int
    } else {
        digits_val(s) as int
    }
}

/// How many characters of `s` are the dot character.
pub open spec fn dot_count(s: Seq<char>) -> nat
    decreases s.len(),
{
    if s.len() == 0 {
        0
    } else {
        dot_count(s.drop_last()) + (if s.last() == '.' {
            1nat
        } else {
            0nat
        })
    }
}

/// How many characters of `s` are decimal digits.
pub open spec fn digit_count(s: Seq<char>) -> nat
    decreases s.len(),
{
    if s.len() == 0 {
        0
    } else {
        digit_count(s.drop_last()) + (if is_digit_spec(s.last()) {
            1nat
        } else {
            0nat
        })
    }
}

/// Whether every character of `s` is a decimal digit or the dot character.
pub open spec fn all_digits_or_dots(s: Seq<char>) -> bool {
    forall|i: int| 0 <= i < s.len() ==> (is_digit_spec(s[i]) || s[i] == '.')
}

/// Whether `s` is a float literal word: an optional leading sign, then
/// only digits and at most one dot, with at least one digit. Exponent
/// forms and the infinity and not-a-number spellings are not literal
/// words.
pub open spec fn is_float_word(s: Seq<char>) -> bool {
    let body = if s.len() > 0 && (s[0] == '-' || s[0] == '+') {
        s.skip(1)
    } else {
        s
    };
    body.len() > 0 && all_digits_or_dots(body) && dot_count(body) <= 1 && digit_count(body) >= 1
}

/// A digit prefix never denotes more than the whole digit sequence.
proof fn lemma_digits_val_prefix(s: Seq<char>, k: int)
    requires
        0 <= k <= s.len(),
    ensures
        digits_val(s.take(k)) <= digits_val(s),
    decreases s.len() - k,
{
    if k == s.len() {
        assert(s.take(k) =~= s);
    } else {
        assert(s.take(k + 1).drop_last() =~= s.take(k));
        assert(digits_val(s.take(k + 1)) == digits_val(s.take(k)) * 10 + digit_val(
            s.take(k + 1).last(),
        ));
        lemma_digits_val_prefix(s, k + 1);
    }
}

/// Parses an integer literal word into a 32-bit integer: `Some` exactly when
/// the word is a well-formed integer literal whose value fits.
pub fn parse_i32_word(s: &String) -> (r: Option<i32>)
    ensures
        (match r {
            Some(v) => is_int_word(s@) && i32::MIN <= int_word_val(s@) <= i32::MAX && v
                == int_word_val(s@),
            None => !(is_int_word(s@) && i32::MIN <= int_word_val(s@) <= i32::MAX),
        }),
{
    let st = s.as_str();
    let n = st.unicode_len();
    if n == 0 {
        return None;
    }
    let first = st.get_char(0);
    let neg = first == '-';
    let signed = neg || first == '+';
    let start: usize = if signed {
        1
    } else {
        0
    };
    if signed && n == 1 {
        return None;
    }
    let ghost digits = if signed {
        s@.skip(1)
    } else {
        s@
    };
    proof {
        assert(digits.len() == n - start);
    }
    let mut val: u64 = 0;
    let mut i: usize = start;
    #[verifier::loop_isolation(false)]
    while i < n
        invariant
            start <= i <= n,
            all_digits(digits.take(i - start)),
            val == digits_val(digits.take(i - start)),
            val <= 0x8000_0000u64,
        decreases n - i,
    {
        let c = st.get_char(i);
        let u = c as u32;
        if !(48 <= u && u <= 57) {
            proof {
                assert(digits[i - start] == c);
                assert(!all_digits(digits));
            }
            return None;
        }
        proof {
            assert(digits.take(i + 1 - start).drop_last() =~= digits.take(i - start));
            assert(digits.take(i + 1 - start).last() == c);
        }
        val = val * 10 + ((u - 48) as u64);
        if val > 0x8000_0000u64 {
            proof {
                lemma_digits_val_prefix(digits, i + 1 - start);
                assert(digits_val(digits) >= val);
            }
            return None;
        }
        i += 1;
    }
    proof {
        assert(digits.take(n - start) =~= digits);
    }
    if neg {
        let v: i64 = -(val as i64);
        Some(v as i32)
    } else {
        if val > 0x7fff_ffffu64 {
            return None;
        }
        Some(val as i32)
    }
}

/// Checks the shape of a float literal word, without computing any float.
pub fn validate_float_word(s: &String) -> (b: bool)
    ensures
        b == is_float_word(s@),
{
    let st = s.as_str();
    let n = st.unicode_len();
    if n == 0 {
        return false;
    }
    let first = st.get_char(0);
    let signed = first == '-' || first == '+';
    let start: usize = if signed {
        1
    } else {
        0
    };
    let ghost body = if signed {
        s@.skip(1)
    } else {
        s@
    };
    if signed && n == 1 {
        return false;
    }
    let mut dots: u64 = 0;
    let mut digits_seen: u64 = 0;
    let mut i: usize = start;
    #[verifier::loop_isolation(false)]
    while i < n
        invariant
            start <= i <= n,
            all_digits_or_dots(body.take(i - start)),
            dots == dot_count(body.take(i - start)),
            digits_seen == digit_count(body.take(i - start)),
            dots <= i,
            digits_seen <= i,
        decreases n - i,
    {
        let c = st.get_char(i);
        let u = c as u32;
        proof {
            assert(body[i - start] == c);
            assert(body.take(i + 1 - start).drop_last() =~= body.take(i - start));
            assert(body.take(i + 1 - start).last() == c);
        }
        if c == '.' {
            dots = dots + 1;
        } else if 48 <= u && u <= 57 {
            digits_seen = digits_seen + 1;
        } else {
            proof {
                assert(0 <= i - start < body.len());
                assert(!(is_digit_spec(body[i - start]) || body[i - start] == '.'));
                assert(!all_digits_or_dots(body));
                assert(!is_float_word(s@));
            }
            return false;
        }
        i += 1;
    }
    proof {
        assert(body.take(n - start) =~= body);
    }
    dots <= 1 && digits_seen >= 1
}


// ----------------------
// --- Runtime values ---
// ----------------------

/// Spec-level image of [`VariableType`].
pub enum VariableTypeView {
    String(Seq<char>),
    Integer(int),
    Float(Seq<char>),
    Boolean(bool),
    Null,
}

/// A typed runtime value. A float carries its validated numeral text rather
/// than a machine float, so that evaluation stays exact.
#[derive(Debug, PartialEq)]
pub enum VariableType {
    String(String),
    Integer(i32),
    Float(String),
    Boolean(bool),
    Null,
}

impl View for VariableType {
    type V = VariableTypeView;

    open spec fn view(&self) -> VariableTypeView {
        match self {
            VariableType::String(s) => VariableTypeView::String(s@),
            VariableType::Integer(v) => VariableTypeView::Integer(*v as int),
            VariableType::Float(s) => VariableTypeView::Float(s@),
            VariableType::Boolean(b) => VariableTypeView::Boolean(*b),
            VariableType::Null => VariableTypeView::Null,
        }
    }
}

impl VariableType {
    /// A structurally equal copy of the value.
    pub fn duplicate(&self) -> (r: VariableType)
        ensures
            r@ == self@,
    {
        match self {
            VariableType::String(s) => VariableType::String(s.clone()),
            VariableType::Integer(v) => VariableType::Integer(*v),
            VariableType::Float(s) => VariableType::Float(s.clone()),
            VariableType::Boolean(b) => VariableType::Boolean(*b),
            VariableType::Null => VariableType::Null,
        }
    }
}

// -------------------------
// --- Variable bindings ---
// -------------------------

/// Spec-level image of [`VariableStruct`].
pub struct VariableStructView {
    pub name: Seq<char>,
    pub value: VariableTypeView,
    pub scope_level: nat,
    pub is_constant: bool,
}

/// A declared name's runtime cell: name, typed value, the scope level it was
/// created at (0 is global), and the constant flag.
#[derive(Debug, PartialEq)]
pub struct VariableStruct {
    pub name: String,
    pub value: VariableType,
    pub scope_level: u8,
    pub is_constant: bool,
}

impl View for VariableStruct {
    type V = VariableStructView;

    open spec fn view(&self) -> VariableStructView {
        VariableStructView {
            name: self.name@,
            value: self.value@,
            scope_level: self.scope_level as nat,
            is_constant: self.is_constant,
        }
    }
}

impl VariableStruct {
    /// Creates a new binding cell.
    pub fn new(name: String, value: VariableType, scope_level: u8, is_constant: bool) -> (r:
        VariableStruct)
        ensures
            r@ == (VariableStructView {
                name: name@,
                value: value@,
                scope_level: scope_level as nat,
                is_constant,
            }),
    {
        VariableStruct { name, value, scope_level, is_constant }
    }

    /// Replaces the binding's value; a binding marked constant can never
    /// have its value replaced, whatever the new value is.
    pub fn set_value(&mut self, value: VariableType) -> (r: Result<(), RuntimeError>)
        ensures
            old(self).is_constant ==> (r matches Err(e) && e@
                == RuntimeErrorView::ConstantMutation && final(self)@ == old(self)@),
            !old(self).is_constant ==> (r matches Ok(u) && final(self)@ == (VariableStructView {
                value: value@,
                ..old(self)@
            })),
    {
        if self.is_constant {
            return Err(RuntimeError::ConstantMutation);
        }
        self.value = value;
        Ok(())
    }

    /// A structurally equal copy of the binding.
    pub fn duplicate(&self) -> (r: VariableStruct)
        ensures
            r@ == self@,
    {
        VariableStruct {
            name: self.name.clone(),
            value: self.value.duplicate(),
            scope_level: self.scope_level,
            is_constant: self.is_constant,
        }
    }
}

// ------------------------------------------
// --- Declaration-head evaluation (words) ---
// ------------------------------------------

/// The spec-level images of a line of words.
pub open spec fn word_views(s: Seq<String>) -> Seq<Seq<char>> {
    Seq::new(s.len(), |i: int| s[i]@)
}

/// Whether one of the first two words is `w`.
pub open spec fn first_two_contains(line: Seq<Seq<char>>, w: Seq<char>) -> bool
    recommends
        line.len() >= 2,
{
    line[0] == w || line[1] == w
}

/// How many distinct modifier keywords appear among the first two words.
pub open spec fn modifier_count(line: Seq<Seq<char>>) -> nat
    recommends
        line.len() >= 2,
{
    (if first_two_contains(line, "pu"@) {
        1nat
    } else {
        0nat
    }) + (if first_two_contains(line, "fu"@) {
        1nat
    } else {
        0nat
    }) + (if first_two_contains(line, "ju"@) {
        1nat
    } else {
        0nat
    })
}

/// Whether a declaration line has enough words for [`new_variable`] to read
/// everything it inspects: two words always; past the modifier checks, the
/// declared type, the name, and (except for `null`) the literal payload.
pub open spec fn new_variable_line_ok(line: Seq<Seq<char>>) -> bool {
    line.len() >= 2 && {
        let i = modifier_count(line) as int;
        let conflict = first_two_contains(line, "fu"@) && first_two_contains(line, "pu"@);
        let dup = line[0] == line[1];
        conflict || dup || (i < line.len() && (line[i] == "null"@ ==> line.len() >= i + 2) && ((
        line[i] == "string"@ || line[i] == "int"@ || line[i] == "float"@ || line[i] == "bool"@)
            ==> line.len() >= i + 3))
    }
}

/// What [`new_variable`] yields: the declaration-head evaluation algorithm.
/// The global and private modifiers together fail; a repeated first word
/// fails; an unknown declared type fails; an unparsable numeric payload
/// fails; otherwise the new binding is produced, at level 0 when global.
pub open spec fn spec_new_variable(line: Seq<Seq<char>>, scope_level: nat) -> Result<
    VariableStructView,
    RuntimeErrorView,
>
    recommends
        new_variable_line_ok(line),
{
    let is_private = first_two_contains(line, "pu"@);
    let is_global = first_two_contains(line, "fu"@);
    let is_constant = first_two_contains(line, "ju"@);
    let i = modifier_count(line) as int;
    if is_global && is_private {
        Err(RuntimeErrorView::ConflictingModifiers)
    } else if line[0] == line[1] {
        Err(RuntimeErrorView::DuplicatedModifier(line[0]))
    } else {
        let level = if is_global {
            0nat
        } else {
            scope_level
        };
        if line[i] == "string"@ {
            Ok(
                VariableStructView {
                    name: line[i + 1],
                    value: VariableTypeView::String(line[i + 2]),
                    scope_level: level,
                    is_constant,
                },
            )
        } else if line[i] == "int"@ {
            if is_int_word(line[i + 2]) && i32::MIN <= int_word_val(line[i + 2]) <= i32::MAX {
                Ok(
                    VariableStructView {
                        name: line[i + 1],
                        value: VariableTypeView::Integer(int_word_val(line[i + 2])),
                        scope_level: level,
                        is_constant,
                    },
                )
            } else {
                Err(RuntimeErrorView::InvalidValue(line[i + 2]))
            }
        } else if line[i] == "float"@ {
            if is_float_word(line[i + 2]) {
                Ok(
                    VariableStructView {
                        name: line[i + 1],
                        value: VariableTypeView::Float(line[i + 2]),
                        scope_level: level,
                        is_constant,
                    },
                )
            } else {
                Err(RuntimeErrorView::InvalidValue(line[i + 2]))
            }
        } else if line[i] == "bool"@ {
            if line[i + 2] == "true"@ {
                Ok(
                    VariableStructView {
                        name: line[i + 1],
                        value: VariableTypeView::Boolean(true),
                        scope_level: level,
                        is_constant,
                    },
                )
            } else if line[i + 2] == "false"@ {
                Ok(
                    VariableStructView {
                        name: line[i + 1],
                        value: VariableTypeView::Boolean(false),
                        scope_level: level,
                        is_constant,
                    },
                )
            } else {
                Err(RuntimeErrorView::InvalidValue(line[i + 2]))
            }
        } else if line[i] == "null"@ {
            Ok(
                VariableStructView {
                    name: line[i + 1],
                    value: VariableTypeView::Null,
                    scope_level: level,
                    is_constant,
                },
            )
        } else {
            Err(RuntimeErrorView::UnknownType(line[i]))
        }
    }
}

/// Law: the global and private modifiers together always fail with a
/// conflicting-modifier error, in either order and whatever else the line
/// holds.
pub proof fn law_conflicting_modifiers(line: Seq<Seq<char>>, scope_level: nat)
    requires
        line.len() >= 2,
        first_two_contains(line, "fu"@),
        first_two_contains(line, "pu"@),
    ensures
        spec_new_variable(line, scope_level) == Err::<
            VariableStructView,
            RuntimeErrorView,
        >(RuntimeErrorView::ConflictingModifiers),
{
}

/// Evaluates a declaration head: reads the modifier flags off the first two
/// words, rejects conflicting or duplicated modifiers, resolves the declared
/// type against the fixed literal-type set, parses the literal payload into
/// the matching typed value (propagating parse failures), and builds the new
/// binding at level 0 when global, else at the caller-supplied level.
pub fn new_variable(line: &Vec<String>, scope_level: u8) -> (r: Result<
    VariableStruct,
    RuntimeError,
>)
    requires
        new_variable_line_ok(word_views(line@)),
    ensures
        (match spec_new_variable(word_views(line@), scope_level as nat) {
            Ok(v) => r matches Ok(vs) && vs@ == v,
            Err(e) => r matches Err(err) && err@ == e,
        }),
{
    let ghost lv = word_views(line@);
    let pu = String::from_str("pu");
    let fu = String::from_str("fu");
    let ju = String::from_str("ju");
    let is_private = line[0] == pu || line[1] == pu;
    let is_global = line[0] == fu || line[1] == fu;
    let is_constant = line[0] == ju || line[1] == ju;
    let mut i: usize = 0;
    if is_private {
        i = i + 1;
    }
    if is_global {
        i = i + 1;
    }
    if is_constant {
        i = i + 1;
    }
    proof {
        assert(i == modifier_count(lv));
    }
    if is_global && is_private {
        return Err(RuntimeError::ConflictingModifiers);
    }
    if line[0] == line[1] {
        return Err(RuntimeError::DuplicatedModifier(line[0].clone()));
    }
    let level: u8 = if is_global {
        0
    } else {
        scope_level
    };
    let ty = &line[i];
    if *ty == String::from_str("string") {
        Ok(
            VariableStruct::new(
                line[i + 1].clone(),
                VariableType::String(line[i + 2].clone()),
                level,
                is_constant,
            ),
        )
    } else if *ty == String::from_str("int") {
        match parse_i32_word(&line[i + 2]) {
            Some(v) => Ok(
                VariableStruct::new(line[i + 1].clone(), VariableType::Integer(v), level, is_constant),
            ),
            None => Err(RuntimeError::InvalidValue(line[i + 2].clone())),
        }
    } else if *ty == String::from_str("float") {
        if validate_float_word(&line[i + 2]) {
            Ok(
                VariableStruct::new(
                    line[i + 1].clone(),
                    VariableType::Float(line[i + 2].clone()),
                    level,
                    is_constant,
                ),
            )
        } else {
            Err(RuntimeError::InvalidValue(line[i + 2].clone()))
        }
    } else if *ty == String::from_str("bool") {
        if line[i + 2] == String::from_str("true") {
            Ok(
                VariableStruct::new(
                    line[i + 1].clone(),
                    VariableType::Boolean(true),
                    level,
                    is_constant,
                ),
            )
        } else if line[i + 2] == String::from_str("false") {
            Ok(
                VariableStruct::new(
                    line[i + 1].clone(),
                    VariableType::Boolean(false),
                    level,
                    is_constant,
                ),
            )
        } else {
            Err(RuntimeError::InvalidValue(line[i + 2].clone()))
        }
    } else if *ty == String::from_str("null") {
        Ok(VariableStruct::new(line[i + 1].clone(), VariableType::Null, level, is_constant))
    } else {
        Err(RuntimeError::UnknownType(line[i].clone()))
    }
}

} // verus!
