use vstd::prelude::*;
use crate::text::{chars_of, string_push};
use crate::file::opt_view;

verus! {

/// Whether `c` has the Unicode `Uppercase` property, as `char::is_uppercase`
/// reports it.
pub uninterp spec fn unicode_is_uppercase(c: char) -> bool;

/// The first character of the lowercase mapping of `c`, as the iterator of
/// `char::to_lowercase` yields it.
pub uninterp spec fn unicode_lowercase_first(c: char) -> char;

/// `char::is_uppercase`. Trusted: the result is the character's `Uppercase`
/// property.
#[verifier::external_body]
fn is_uppercase(c: char) -> (r: bool)
    ensures
        r == unicode_is_uppercase(c),
{
    c.is_uppercase()
}

/// The first character `char::to_lowercase` yields. Trusted: the iterator
/// yields at least one character (the documentation: "one or more `char`s"),
/// and this is the first.
#[verifier::external_body]
fn lowercase_first(c: char) -> (r: char)
    ensures
        r == unicode_lowercase_first(c),
{
    c.to_lowercase().next().unwrap()
}

/// The snake-case form of `s`: every uppercase character becomes its
/// lowercase form, preceded by `_` unless it is the first character.
pub open spec fn snake_case(s: Seq<char>) -> Seq<char>
    decreases s.len(),
{
    if s.len() == 0 {
        Seq::empty()
    } else {
        let head = snake_case(s.drop_last());
        let c = s.last();
        if unicode_is_uppercase(c) {
            if s.len() > 1 {
                head + seq!['_', unicode_lowercase_first(c)]
            } else {
                seq![unicode_lowercase_first(c)]
            }
        } else {
            head.push(c)
        }
    }
}

/// Converts a type name to snake case (see [`snake_case`]):
/// `PlanetApi` becomes `planet_api`.
pub fn to_snake_case(s: &str) -> (r: String)
    ensures
        r@ == snake_case(s@),
{
    let cs = chars_of(s);
    let mut out = String::new();
    let n = cs.len();
    let mut i: usize = 0;
    while i < n
        invariant
            n == cs@.len(),
            cs@ == s@,
            0 <= i <= n,
            out@ == snake_case(cs@.take(i as int)),
        decreases n - i,
    {
        let ch = cs[i];
        proof {
            assert(cs@.take(i + 1).drop_last() =~= cs@.take(i as int));
            assert(cs@.take(i + 1).last() == ch);
        }
        if is_uppercase(ch) {
            if i > 0 {
                string_push(&mut out, '_');
            }
            string_push(&mut out, lowercase_first(ch));
            proof {
                if i == 0 {
                    assert(snake_case(cs@.take(0)) =~= Seq::<char>::empty());
                    assert(out@ =~= seq![unicode_lowercase_first(ch)]);
                } else {
                    assert(out@ =~= snake_case(cs@.take(i as int)) + seq!['_', unicode_lowercase_first(ch)]);
                }
            }
        } else {
            string_push(&mut out, ch);
        }
        i = i + 1;
    }
    proof {
        assert(cs@.take(n as int) =~= cs@);
    }
    out
}

// ---------------------------------------------------------------------------
// Checking the methods of a service trait
// ---------------------------------------------------------------------------

/// A parameter of a trait method, as the service macro reads it.
#[derive(Debug, Clone)]
pub enum ParamKind {
    /// `self`, `&self` or `&mut self`.
    Receiver,
    /// A named parameter, with the text of its type.
    Typed(String),
}

/// The return type of a trait method, as the service macro reads it.
#[derive(Debug, Clone)]
pub enum ReturnKind {
    /// No return type written.
    Default,
    /// A path type whose last segment is `Result<T, ...>`, `T` a type; the
    /// text of `T`.
    Result(String),
    /// Any other type.
    Other,
}

/// What the service macro reads of one trait method: its name, its
/// parameters and its return type.
#[derive(Debug)]
pub struct MethodShape {
    pub name: String,
    pub params: Vec<ParamKind>,
    pub returns: ReturnKind,
}

/// A procedure found in a service trait: the method's name, the type of its
/// input (if it takes one) and the type its `Result` carries on success.
#[derive(Debug, Clone, PartialEq, Eq)]
pub struct ProcedureInfo {
    pub method_name: String,
    pub input_type: Option<String>,
    pub output_type: String,
}

/// Model of a [`ProcedureInfo`].
pub struct InfoV {
    pub name: Seq<char>,
    pub input: Option<Seq<char>>,
    pub output: Seq<char>,
}

/// The model of a procedure found.
pub open spec fn info_view(p: ProcedureInfo) -> InfoV {
    InfoV { name: p.method_name@, input: opt_view(p.input_type), output: p.output_type@ }
}

/// Why a trait method cannot be a procedure.
#[derive(Debug, Clone, Copy, PartialEq, Eq, Structural)]
pub enum ShapeError {
    /// The method has no parameters.
    NoSelf,
    /// The first parameter is not a receiver.
    FirstNotSelf,
    /// There is no context parameter.
    NoContext,
    /// The method returns nothing.
    NoReturnType,
    /// The return type is not a `Result`.
    NotResult,
}

impl ShapeError {
    /// The compile error message for this problem; for
    /// [`ShapeError::NoContext`] the context type's text follows it.
    pub fn message(&self) -> (r: &'static str)
        ensures
            r@ == shape_message(*self),
    {
        match self {
            ShapeError::NoSelf => "method must have &self as first parameter",
            ShapeError::FirstNotSelf => "first parameter must be &self",
            ShapeError::NoContext => "method must have ctx parameter of type ",
            ShapeError::NoReturnType => "method must return Result<T, ORPCError>",
            ShapeError::NotResult => "return type must be Result<T, ORPCError>",
        }
    }
}

/// The compile error message for a problem.
pub open spec fn shape_message(e: ShapeError) -> Seq<char> {
    match e {
        ShapeError::NoSelf => "method must have &self as first parameter"@,
        ShapeError::FirstNotSelf => "first parameter must be &self"@,
        ShapeError::NoContext => "method must have ctx parameter of type "@,
        ShapeError::NoReturnType => "method must return Result<T, ORPCError>"@,
        ShapeError::NotResult => "return type must be Result<T, ORPCError>"@,
    }
}

/// The procedure a method stands for, or why it is none: it must take
/// `&self` first and a context second; a typed third parameter is the input;
/// it must return a `Result`, whose success type is the output.
pub open spec fn method_check(m: MethodShape) -> Result<InfoV, ShapeError> {
    let ps = m.params@;
    if ps.len() == 0 {
        Err(ShapeError::NoSelf)
    } else if !(ps[0] is Receiver) {
        Err(ShapeError::FirstNotSelf)
    } else if ps.len() < 2 {
        Err(ShapeError::NoContext)
    } else {
        match m.returns {
            ReturnKind::Default => Err(ShapeError::NoReturnType),
            ReturnKind::Other => Err(ShapeError::NotResult),
            ReturnKind::Result(t) => Ok(
                InfoV {
                    name: m.name@,
                    input: if ps.len() >= 3 {
                        match ps[2] {
                            ParamKind::Typed(ty) => Some(ty@),
                            ParamKind::Receiver => None,
                        }
                    } else {
                        None
                    },
                    output: t@,
                },
            ),
        }
    }
}

/// Checks one method (see [`method_check`]).
pub fn check_method(m: &MethodShape) -> (r: Result<ProcedureInfo, ShapeError>)
    ensures
        match method_check(*m) {
            Ok(i) => r matches Ok(p) && info_view(p) == i,
            Err(e) => r == Err::<ProcedureInfo, ShapeError>(e),
        },
{
    let n = m.params.len();
    if n == 0 {
        return Err(ShapeError::NoSelf);
    }
    match &m.params[0] {
        ParamKind::Receiver => {},
        ParamKind::Typed(_) => {
            return Err(ShapeError::FirstNotSelf);
        },
    }
    if n < 2 {
        return Err(ShapeError::NoContext);
    }
    let output_type = match &m.returns {
        ReturnKind::Default => {
            return Err(ShapeError::NoReturnType);
        },
        ReturnKind::Other => {
            return Err(ShapeError::NotResult);
        },
        ReturnKind::Result(t) => t.clone(),
    };
    let input_type = if n >= 3 {
        match &m.params[2] {
            ParamKind::Typed(ty) => Some(ty.clone()),
            ParamKind::Receiver => None,
        }
    } else {
        None
    };
    Ok(ProcedureInfo { method_name: m.name.clone(), input_type, output_type })
}

/// The procedures of a service trait's methods, in order, or the position
/// and problem of the first method that is no procedure.
pub open spec fn methods_check(ms: Seq<MethodShape>) -> Result<Seq<InfoV>, (int, ShapeError)>
    decreases ms.len(),
{
    if ms.len() == 0 {
        Ok(Seq::empty())
    } else {
        match methods_check(ms.drop_last()) {
            Err(e) => Err(e),
            Ok(r) => match method_check(ms.last()) {
                Ok(b) => Ok(r.push(b)),
                Err(e) => Err((ms.len() - 1, e)),
            },
        }
    }
}

/// The models of the procedures found.
pub open spec fn infos_view(v: Seq<ProcedureInfo>) -> Seq<InfoV> {
    Seq::new(v.len(), |i: int| info_view(v[i]))
}

/// Checks the methods of a service trait, in order, and lists the procedures
/// they stand for (see [`methods_check`]).
pub fn extract_procedures(methods: &Vec<MethodShape>) -> (r: Result<Vec<ProcedureInfo>, (usize, ShapeError)>)
    ensures
        match methods_check(methods@) {
            Ok(bs) => r matches Ok(v) && infos_view(v@) == bs,
            Err((i, e)) => r matches Err((j, f)) && j == i && f == e,
        },
{
    let mut out: Vec<ProcedureInfo> = Vec::new();
    let n = methods.len();
    let mut i: usize = 0;
    proof {
        assert(methods@.take(0) =~= Seq::<MethodShape>::empty());
        assert(infos_view(out@) =~= Seq::<InfoV>::empty());
    }
    while i < n
        invariant
            n == methods@.len(),
            0 <= i <= n,
            methods_check(methods@.take(i as int)) == Ok::<Seq<InfoV>, (int, ShapeError)>(infos_view(out@)),
        decreases n - i,
    {
        proof {
            assert(methods@.take(i + 1).drop_last() =~= methods@.take(i as int));
            assert(methods@.take(i + 1).last() == methods@[i as int]);
        }
        match check_method(&methods[i]) {
            Ok(b) => {
                let ghost before = out@;
                out.push(b);
                proof {
                    assert(infos_view(out@) =~= infos_view(before).push(info_view(b)));
                }
            },
            Err(e) => {
                proof {
                    lemma_methods_check_prefix_err(methods@, i + 1);
                }
                return Err((i, e));
            },
        }
        i = i + 1;
    }
    proof {
        assert(methods@.take(n as int) =~= methods@);
    }
    Ok(out)
}

/// Once a prefix of the methods fails the check, the whole list fails there.
proof fn lemma_methods_check_prefix_err(ms: Seq<MethodShape>, k: int)
    requires
        0 <= k <= ms.len(),
        methods_check(ms.take(k)) is Err,
    ensures
        methods_check(ms) == methods_check(ms.take(k)),
    decreases ms.len() - k,
{
    if k < ms.len() {
        assert(ms.take(k + 1).drop_last() =~= ms.take(k));
        lemma_methods_check_prefix_err(ms, k + 1);
    } else {
        assert(ms.take(k) =~= ms);
    }
}

} // verus!
