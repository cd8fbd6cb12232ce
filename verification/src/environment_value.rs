use crate::lox_function::LoxFunction;
use crate::numbers::{
    num_add, num_add_bits, num_div, num_div_bits, num_eq, num_eq_bits, num_ge, num_ge_bits, num_gt,
    num_gt_bits, num_le, num_le_bits, num_lt, num_lt_bits, num_mul, num_mul_bits, num_neg,
    num_neg_bits, num_render, num_sub, num_sub_bits, num_text,
};
use vstd::prelude::*;

verus! {

/// A Lox runtime value. Classes and instances are carried as indices into
/// the interpreter's arenas; numbers as IEEE double bit patterns.
pub enum EnvironmentValue {
    LoxClass(usize),
    LoxFunction(LoxFunction),
    LoxInstance(usize),
    Number(u64),
    String(String),
    Bool(bool),
    Nil,
}

impl Clone for EnvironmentValue {
    fn clone(&self) -> (res: Self)
        ensures
            res == *self,
    {
        match self {
            EnvironmentValue::LoxClass(c) => EnvironmentValue::LoxClass(*c),
            EnvironmentValue::LoxFunction(f) => EnvironmentValue::LoxFunction(*f),
            EnvironmentValue::LoxInstance(i) => EnvironmentValue::LoxInstance(*i),
            EnvironmentValue::Number(n) => EnvironmentValue::Number(*n),
            EnvironmentValue::String(s) => EnvironmentValue::String(s.clone()),
            EnvironmentValue::Bool(b) => EnvironmentValue::Bool(*b),
            EnvironmentValue::Nil => EnvironmentValue::Nil,
        }
    }
}

/// Truthiness: `false`, `nil`, the number zero and the empty string are
/// falsy; every other value is truthy.
pub open spec fn spec_truthy(v: EnvironmentValue) -> bool {
    match v {
        EnvironmentValue::Number(n) => !num_eq_bits(n, 0),
        EnvironmentValue::String(s) => s@.len() != 0,
        EnvironmentValue::Bool(b) => b,
        EnvironmentValue::Nil => false,
        _ => true,
    }
}

/// What `print` writes for a value, if the value is printable at all.
pub open spec fn spec_print_text(v: EnvironmentValue) -> Option<Seq<char>> {
    match v {
        EnvironmentValue::Number(n) => Some(num_text(n)),
        EnvironmentValue::String(s) => Some(s@),
        EnvironmentValue::Bool(b) => Some(
            if b {
                "true"@
            } else {
                "false"@
            },
        ),
        EnvironmentValue::Nil => Some("Nil"@),
        _ => None,
    }
}

impl EnvironmentValue {
    pub fn is_truthy(&self) -> (r: bool)
        ensures
            r == spec_truthy(*self),
    {
        match self {
            EnvironmentValue::Number(n) => !num_eq(*n, 0),
            EnvironmentValue::String(s) => s.as_str().unicode_len() != 0,
            EnvironmentValue::Bool(b) => *b,
            EnvironmentValue::Nil => false,
            _ => true,
        }
    }

    /// Renders a printable value; functions, classes and instances have no
    /// printable form and are refused.
    pub fn as_print(&self) -> (r: Result<String, ()>)
        ensures
            r is Ok <==> spec_print_text(*self) is Some,
            r matches Ok(s) ==> Some(s@) == spec_print_text(*self),
    {
        match self {
            EnvironmentValue::Number(n) => Ok(num_render(*n)),
            EnvironmentValue::String(s) => Ok(s.clone()),
            EnvironmentValue::Bool(b) => {
                if *b {
                    Ok("true".to_owned())
                } else {
                    Ok("false".to_owned())
                }
            },
            EnvironmentValue::Nil => Ok("Nil".to_owned()),
            _ => Err(()),
        }
    }

    pub fn is_number(&self) -> (r: bool)
        ensures
            r == (*self is Number),
    {
        match self {
            EnvironmentValue::Number(_) => true,
            _ => false,
        }
    }

    pub fn is_string(&self) -> (r: bool)
        ensures
            r == (*self is String),
    {
        match self {
            EnvironmentValue::String(_) => true,
            _ => false,
        }
    }

    /// `+`: numeric addition, or string concatenation; anything else errs.
    pub fn add(lhs: &EnvironmentValue, rhs: &EnvironmentValue) -> (r: Result<
        EnvironmentValue,
        (),
    >)
        ensures
            *lhs matches EnvironmentValue::Number(a) ==> *rhs matches EnvironmentValue::Number(b)
                ==> r == Ok::<EnvironmentValue, ()>(EnvironmentValue::Number(num_add_bits(a, b))),
            *lhs matches EnvironmentValue::String(x) ==> *rhs matches EnvironmentValue::String(y)
                ==> (r matches Ok(v) && v matches EnvironmentValue::String(z) && z@ == x@ + y@),
            !((*lhs is Number && *rhs is Number) || (*lhs is String && *rhs is String)) ==> r is Err,
    {
        match (lhs, rhs) {
            (EnvironmentValue::Number(a), EnvironmentValue::Number(b)) => {
                Ok(EnvironmentValue::Number(num_add(*a, *b)))
            },
            (EnvironmentValue::String(x), EnvironmentValue::String(y)) => {
                Ok(EnvironmentValue::String(x.clone().concat(y.as_str())))
            },
            (_, _) => Err(()),
        }
    }

    /// `-` on two numbers.
    pub fn sub(lhs: &EnvironmentValue, rhs: &EnvironmentValue) -> (r: Result<
        EnvironmentValue,
        (),
    >)
        ensures
            *lhs matches EnvironmentValue::Number(a) ==> *rhs matches EnvironmentValue::Number(b)
                ==> r == Ok::<EnvironmentValue, ()>(EnvironmentValue::Number(num_sub_bits(a, b))),
            !(*lhs is Number && *rhs is Number) ==> r is Err,
    {
        match (lhs, rhs) {
            (EnvironmentValue::Number(a), EnvironmentValue::Number(b)) => {
                Ok(EnvironmentValue::Number(num_sub(*a, *b)))
            },
            (_, _) => Err(()),
        }
    }

    /// `*` on two numbers.
    pub fn mul(lhs: &EnvironmentValue, rhs: &EnvironmentValue) -> (r: Result<
        EnvironmentValue,
        (),
    >)
        ensures
            *lhs matches EnvironmentValue::Number(a) ==> *rhs matches EnvironmentValue::Number(b)
                ==> r == Ok::<EnvironmentValue, ()>(EnvironmentValue::Number(num_mul_bits(a, b))),
            !(*lhs is Number && *rhs is Number) ==> r is Err,
    {
        match (lhs, rhs) {
            (EnvironmentValue::Number(a), EnvironmentValue::Number(b)) => {
                Ok(EnvironmentValue::Number(num_mul(*a, *b)))
            },
            (_, _) => Err(()),
        }
    }

    /// `/` on two numbers (IEEE division: dividing by zero gives an
    /// infinity or NaN, not an error).
    pub fn div(lhs: &EnvironmentValue, rhs: &EnvironmentValue) -> (r: Result<
        EnvironmentValue,
        (),
    >)
        ensures
            *lhs matches EnvironmentValue::Number(a) ==> *rhs matches EnvironmentValue::Number(b)
                ==> r == Ok::<EnvironmentValue, ()>(EnvironmentValue::Number(num_div_bits(a, b))),
            !(*lhs is Number && *rhs is Number) ==> r is Err,
    {
        match (lhs, rhs) {
            (EnvironmentValue::Number(a), EnvironmentValue::Number(b)) => {
                Ok(EnvironmentValue::Number(num_div(*a, *b)))
            },
            (_, _) => Err(()),
        }
    }

    /// Unary `-` on a number.
    pub fn neg(lhs: &EnvironmentValue) -> (r: Result<EnvironmentValue, ()>)
        ensures
            *lhs matches EnvironmentValue::Number(a) ==> r == Ok::<EnvironmentValue, ()>(
                EnvironmentValue::Number(num_neg_bits(a)),
            ),
            !(*lhs is Number) ==> r is Err,
    {
        match lhs {
            EnvironmentValue::Number(a) => Ok(EnvironmentValue::Number(num_neg(*a))),
            _ => Err(()),
        }
    }

    /// `<` on two numbers.
    pub fn lt(lhs: &EnvironmentValue, rhs: &EnvironmentValue) -> (r: Result<EnvironmentValue, ()>)
        ensures
            *lhs matches EnvironmentValue::Number(a) ==> *rhs matches EnvironmentValue::Number(b)
                ==> r == Ok::<EnvironmentValue, ()>(EnvironmentValue::Bool(num_lt_bits(a, b))),
            !(*lhs is Number && *rhs is Number) ==> r is Err,
    {
        match (lhs, rhs) {
            (EnvironmentValue::Number(a), EnvironmentValue::Number(b)) => {
                Ok(EnvironmentValue::Bool(num_lt(*a, *b)))
            },
            (_, _) => Err(()),
        }
    }

    /// `<=` on two numbers.
    pub fn le(lhs: &EnvironmentValue, rhs: &EnvironmentValue) -> (r: Result<EnvironmentValue, ()>)
        ensures
            *lhs matches EnvironmentValue::Number(a) ==> *rhs matches EnvironmentValue::Number(b)
                ==> r == Ok::<EnvironmentValue, ()>(EnvironmentValue::Bool(num_le_bits(a, b))),
            !(*lhs is Number && *rhs is Number) ==> r is Err,
    {
        match (lhs, rhs) {
            (EnvironmentValue::Number(a), EnvironmentValue::Number(b)) => {
                Ok(EnvironmentValue::Bool(num_le(*a, *b)))
            },
            (_, _) => Err(()),
        }
    }

    /// `>` on two numbers.
    pub fn gt(lhs: &EnvironmentValue, rhs: &EnvironmentValue) -> (r: Result<EnvironmentValue, ()>)
        ensures
            *lhs matches EnvironmentValue::Number(a) ==> *rhs matches EnvironmentValue::Number(b)
                ==> r == Ok::<EnvironmentValue, ()>(EnvironmentValue::Bool(num_gt_bits(a, b))),
            !(*lhs is Number && *rhs is Number) ==> r is Err,
    {
        match (lhs, rhs) {
            (EnvironmentValue::Number(a), EnvironmentValue::Number(b)) => {
                Ok(EnvironmentValue::Bool(num_gt(*a, *b)))
            },
            (_, _) => Err(()),
        }
    }

    /// `>=` on two numbers.
    pub fn ge(lhs: &EnvironmentValue, rhs: &EnvironmentValue) -> (r: Result<EnvironmentValue, ()>)
        ensures
            *lhs matches EnvironmentValue::Number(a) ==> *rhs matches EnvironmentValue::Number(b)
                ==> r == Ok::<EnvironmentValue, ()>(EnvironmentValue::Bool(num_ge_bits(a, b))),
            !(*lhs is Number && *rhs is Number) ==> r is Err,
    {
        match (lhs, rhs) {
            (EnvironmentValue::Number(a), EnvironmentValue::Number(b)) => {
                Ok(EnvironmentValue::Bool(num_ge(*a, *b)))
            },
            (_, _) => Err(()),
        }
    }

    /// Whether `==` is defined on this pair: two numbers, two strings or
    /// two booleans.
    pub open spec fn spec_comparable(lhs: EnvironmentValue, rhs: EnvironmentValue) -> bool {
        (lhs is Number && rhs is Number) || (lhs is String && rhs is String) || (lhs is Bool
            && rhs is Bool)
    }

    /// What `==` yields on a comparable pair.
    pub open spec fn spec_eq_value(lhs: EnvironmentValue, rhs: EnvironmentValue) -> bool {
        match (lhs, rhs) {
            (EnvironmentValue::Number(a), EnvironmentValue::Number(b)) => num_eq_bits(a, b),
            (EnvironmentValue::String(x), EnvironmentValue::String(y)) => x@ == y@,
            (EnvironmentValue::Bool(a), EnvironmentValue::Bool(b)) => a == b,
            (_, _) => false,
        }
    }

    /// `==`: defined on two numbers, two strings or two booleans;
    /// a mixed pair is an error.
    pub fn eq(lhs: &EnvironmentValue, rhs: &EnvironmentValue) -> (r: Result<EnvironmentValue, ()>)
        ensures
            Self::spec_comparable(*lhs, *rhs) ==> r == Ok::<EnvironmentValue, ()>(
                EnvironmentValue::Bool(Self::spec_eq_value(*lhs, *rhs)),
            ),
            !Self::spec_comparable(*lhs, *rhs) ==> r is Err,
    {
        match (lhs, rhs) {
            (EnvironmentValue::Number(a), EnvironmentValue::Number(b)) => {
                Ok(EnvironmentValue::Bool(num_eq(*a, *b)))
            },
            (EnvironmentValue::String(x), EnvironmentValue::String(y)) => {
                Ok(EnvironmentValue::Bool(*x == *y))
            },
            (EnvironmentValue::Bool(a), EnvironmentValue::Bool(b)) => {
                Ok(EnvironmentValue::Bool(*a == *b))
            },
            (_, _) => Err(()),
        }
    }

    /// `!=`: the negation of `==` on a comparable pair; a mixed pair is an
    /// error.
    pub fn partial_eq(lhs: &EnvironmentValue, rhs: &EnvironmentValue) -> (r: Result<
        EnvironmentValue,
        (),
    >)
        ensures
            Self::spec_comparable(*lhs, *rhs) ==> r == Ok::<EnvironmentValue, ()>(
                EnvironmentValue::Bool(!Self::spec_eq_value(*lhs, *rhs)),
            ),
            !Self::spec_comparable(*lhs, *rhs) ==> r is Err,
    {
        match Self::eq(lhs, rhs) {
            Ok(EnvironmentValue::Bool(b)) => Ok(EnvironmentValue::Bool(!b)),
            _ => Err(()),
        }
    }
}

} // verus!
