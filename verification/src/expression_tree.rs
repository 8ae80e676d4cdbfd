//! Named references and the expressions that hold them.

use vstd::prelude::*;
use vstd::std_specs::cmp::PartialEqSpecImpl;
use crate::langtype::str_equal;

verus! {

/// A token for "property P of element E". The element is named by its
/// identity in the document, so two tokens are equal exactly when they denote
/// the same element and the same property, whatever is bound there.
#[derive(Debug)]
pub struct NamedReference {
    element: usize,
    property: String,
}

/// A named reference as plain values.
pub ghost struct ReferenceModel {
    pub element: int,
    pub property: Seq<char>,
}

impl View for NamedReference {
    type V = ReferenceModel;

    closed spec fn view(&self) -> ReferenceModel {
        ReferenceModel { element: self.element as int, property: self.property@ }
    }
}

impl Clone for NamedReference {
    fn clone(&self) -> (copy: Self)
        ensures
            copy@ == self@,
    {
        NamedReference { element: self.element, property: self.property.clone() }
    }
}

impl PartialEq for NamedReference {
    fn eq(&self, other: &Self) -> (same: bool) {
        self.element == other.element && str_equal(self.property.as_str(), other.property.as_str())
    }
}

impl PartialEqSpecImpl for NamedReference {
    open spec fn obeys_eq_spec() -> bool {
        true
    }

    open spec fn eq_spec(&self, other: &Self) -> bool {
        self@ == other@
    }
}

impl NamedReference {
    /// The token for property `property` of the element with identity `element`.
    pub fn new(element: usize, property: &str) -> (token: Self)
        ensures
            token@ == token_of(element as int, property@),
    {
        NamedReference { element, property: property.to_owned() }
    }

    /// The identity of the element that the token denotes.
    pub fn element(&self) -> (element: usize)
        ensures
            element == self@.element,
    {
        self.element
    }

    /// The name of the property that the token denotes.
    pub fn name(&self) -> (name: &str)
        ensures
            name@ == self@.property,
    {
        self.property.as_str()
    }

    /// Replaces this token by `to` if it is equal to `from`.
    pub fn retarget(&mut self, from: &NamedReference, to: &NamedReference)
        ensures
            final(self)@ == replace_reference(old(self)@, from@, to@),
    {
        if *self == *from {
            *self = to.clone();
        }
    }
}

/// An expression bound to a property. References to other properties may
/// stand anywhere inside it.
#[derive(Debug)]
pub enum Expression {
    Invalid,
    NumberLiteral(i64),
    BoolLiteral(bool),
    PropertyReference(NamedReference),
    UnaryOp { sub: Box<Expression>, op: char },
    BinaryExpression { lhs: Box<Expression>, rhs: Box<Expression>, op: char },
    Condition { condition: Box<Expression>, true_expr: Box<Expression>, false_expr: Box<Expression> },
}

/// An expression as plain values.
pub ghost enum ExpressionModel {
    Invalid,
    NumberLiteral(i64),
    BoolLiteral(bool),
    PropertyReference(ReferenceModel),
    UnaryOp { sub: Box<ExpressionModel>, op: char },
    BinaryExpression { lhs: Box<ExpressionModel>, rhs: Box<ExpressionModel>, op: char },
    Condition {
        condition: Box<ExpressionModel>,
        true_expr: Box<ExpressionModel>,
        false_expr: Box<ExpressionModel>,
    },
}

/// The plain value of an expression.
pub open spec fn expression_model(e: Expression) -> ExpressionModel
    decreases e,
{
    match e {
        Expression::Invalid => ExpressionModel::Invalid,
        Expression::NumberLiteral(n) => ExpressionModel::NumberLiteral(n),
        Expression::BoolLiteral(b) => ExpressionModel::BoolLiteral(b),
        Expression::PropertyReference(r) => ExpressionModel::PropertyReference(r@),
        Expression::UnaryOp { sub, op } => ExpressionModel::UnaryOp {
            sub: Box::new(expression_model(*sub)),
            op,
        },
        Expression::BinaryExpression { lhs, rhs, op } => ExpressionModel::BinaryExpression {
            lhs: Box::new(expression_model(*lhs)),
            rhs: Box::new(expression_model(*rhs)),
            op,
        },
        Expression::Condition { condition, true_expr, false_expr } => ExpressionModel::Condition {
            condition: Box::new(expression_model(*condition)),
            true_expr: Box::new(expression_model(*true_expr)),
            false_expr: Box::new(expression_model(*false_expr)),
        },
    }
}

impl View for Expression {
    type V = ExpressionModel;

    open spec fn view(&self) -> ExpressionModel {
        expression_model(*self)
    }
}

/// The token that stands where `token` stood once `old` is replaced by `new`.
pub open spec fn replace_reference(
    token: ReferenceModel,
    old: ReferenceModel,
    new: ReferenceModel,
) -> ReferenceModel {
    if token == old {
        new
    } else {
        token
    }
}

/// The expression `e` with every occurrence of `old` replaced by `new`, at
/// whatever depth it stands.
pub open spec fn rewrite_expression(
    e: ExpressionModel,
    old: ReferenceModel,
    new: ReferenceModel,
) -> ExpressionModel
    decreases e,
{
    match e {
        ExpressionModel::Invalid => e,
        ExpressionModel::NumberLiteral(_) => e,
        ExpressionModel::BoolLiteral(_) => e,
        ExpressionModel::PropertyReference(r) => ExpressionModel::PropertyReference(
            replace_reference(r, old, new),
        ),
        ExpressionModel::UnaryOp { sub, op } => ExpressionModel::UnaryOp {
            sub: Box::new(rewrite_expression(*sub, old, new)),
            op,
        },
        ExpressionModel::BinaryExpression { lhs, rhs, op } => ExpressionModel::BinaryExpression {
            lhs: Box::new(rewrite_expression(*lhs, old, new)),
            rhs: Box::new(rewrite_expression(*rhs, old, new)),
            op,
        },
        ExpressionModel::Condition { condition, true_expr, false_expr } => ExpressionModel::Condition {
            condition: Box::new(rewrite_expression(*condition, old, new)),
            true_expr: Box::new(rewrite_expression(*true_expr, old, new)),
            false_expr: Box::new(rewrite_expression(*false_expr, old, new)),
        },
    }
}

/// How many times `token` occurs in `e`.
pub open spec fn occurrences(e: ExpressionModel, token: ReferenceModel) -> nat
    decreases e,
{
    match e {
        ExpressionModel::Invalid => 0,
        ExpressionModel::NumberLiteral(_) => 0,
        ExpressionModel::BoolLiteral(_) => 0,
        ExpressionModel::PropertyReference(r) => if r == token {
            1
        } else {
            0
        },
        ExpressionModel::UnaryOp { sub, op } => occurrences(*sub, token),
        ExpressionModel::BinaryExpression { lhs, rhs, op } => occurrences(*lhs, token)
            + occurrences(*rhs, token),
        ExpressionModel::Condition { condition, true_expr, false_expr } => occurrences(
            *condition,
            token,
        ) + occurrences(*true_expr, token) + occurrences(*false_expr, token),
    }
}

/// Whether every token in `e` denotes one of the first `n` elements.
pub open spec fn references_within(e: ExpressionModel, n: nat) -> bool
    decreases e,
{
    match e {
        ExpressionModel::Invalid => true,
        ExpressionModel::NumberLiteral(_) => true,
        ExpressionModel::BoolLiteral(_) => true,
        ExpressionModel::PropertyReference(r) => 0 <= r.element < n,
        ExpressionModel::UnaryOp { sub, op } => references_within(*sub, n),
        ExpressionModel::BinaryExpression { lhs, rhs, op } => references_within(*lhs, n)
            && references_within(*rhs, n),
        ExpressionModel::Condition { condition, true_expr, false_expr } => references_within(
            *condition,
            n,
        ) && references_within(*true_expr, n) && references_within(*false_expr, n),
    }
}

impl Expression {
    /// This expression with every occurrence of `from` replaced by `to`.
    pub fn rewritten(self, from: &NamedReference, to: &NamedReference) -> (result: Expression)
        ensures
            result@ == rewrite_expression(self@, from@, to@),
        decreases self,
    {
        match self {
            Expression::Invalid => Expression::Invalid,
            Expression::NumberLiteral(n) => Expression::NumberLiteral(n),
            Expression::BoolLiteral(b) => Expression::BoolLiteral(b),
            Expression::PropertyReference(r) => {
                let mut r = r;
                r.retarget(from, to);
                Expression::PropertyReference(r)
            },
            Expression::UnaryOp { sub, op } => Expression::UnaryOp {
                sub: Box::new((*sub).rewritten(from, to)),
                op,
            },
            Expression::BinaryExpression { lhs, rhs, op } => Expression::BinaryExpression {
                lhs: Box::new((*lhs).rewritten(from, to)),
                rhs: Box::new((*rhs).rewritten(from, to)),
                op,
            },
            Expression::Condition { condition, true_expr, false_expr } => Expression::Condition {
                condition: Box::new((*condition).rewritten(from, to)),
                true_expr: Box::new((*true_expr).rewritten(from, to)),
                false_expr: Box::new((*false_expr).rewritten(from, to)),
            },
        }
    }
}

/// A rewrite is exhaustive: once `old` is replaced by another token, it
/// occurs nowhere in the expression, and every place where it stood now
/// holds `new`.
pub proof fn lemma_rewrite_is_exhaustive(
    e: ExpressionModel,
    old: ReferenceModel,
    new: ReferenceModel,
)
    requires
        old != new,
    ensures
        occurrences(rewrite_expression(e, old, new), old) == 0,
        occurrences(rewrite_expression(e, old, new), new) == occurrences(e, old) + occurrences(
            e,
            new,
        ),
    decreases e,
{
    match e {
        ExpressionModel::UnaryOp { sub, op } => {
            lemma_rewrite_is_exhaustive(*sub, old, new);
        },
        ExpressionModel::BinaryExpression { lhs, rhs, op } => {
            lemma_rewrite_is_exhaustive(*lhs, old, new);
            lemma_rewrite_is_exhaustive(*rhs, old, new);
        },
        ExpressionModel::Condition { condition, true_expr, false_expr } => {
            lemma_rewrite_is_exhaustive(*condition, old, new);
            lemma_rewrite_is_exhaustive(*true_expr, old, new);
            lemma_rewrite_is_exhaustive(*false_expr, old, new);
        },
        _ => {},
    }
}

/// A rewrite touches nothing else: a token other than `old` and `new` occurs
/// as often after it as before.
pub proof fn lemma_rewrite_keeps_other_tokens(
    e: ExpressionModel,
    old: ReferenceModel,
    new: ReferenceModel,
    other: ReferenceModel,
)
    requires
        other != old,
        other != new,
    ensures
        occurrences(rewrite_expression(e, old, new), other) == occurrences(e, other),
    decreases e,
{
    match e {
        ExpressionModel::UnaryOp { sub, op } => {
            lemma_rewrite_keeps_other_tokens(*sub, old, new, other);
        },
        ExpressionModel::BinaryExpression { lhs, rhs, op } => {
            lemma_rewrite_keeps_other_tokens(*lhs, old, new, other);
            lemma_rewrite_keeps_other_tokens(*rhs, old, new, other);
        },
        ExpressionModel::Condition { condition, true_expr, false_expr } => {
            lemma_rewrite_keeps_other_tokens(*condition, old, new, other);
            lemma_rewrite_keeps_other_tokens(*true_expr, old, new, other);
            lemma_rewrite_keeps_other_tokens(*false_expr, old, new, other);
        },
        _ => {},
    }
}

/// A rewrite to a token of an existing element leaves no token dangling,
/// and tokens stay valid when elements are added.
pub proof fn lemma_rewrite_keeps_references_within(
    e: ExpressionModel,
    old: ReferenceModel,
    new: ReferenceModel,
    n: nat,
    m: nat,
)
    requires
        references_within(e, n),
        n <= m,
        0 <= new.element < m,
    ensures
        references_within(rewrite_expression(e, old, new), m),
    decreases e,
{
    match e {
        ExpressionModel::UnaryOp { sub, op } => {
            lemma_rewrite_keeps_references_within(*sub, old, new, n, m);
        },
        ExpressionModel::BinaryExpression { lhs, rhs, op } => {
            lemma_rewrite_keeps_references_within(*lhs, old, new, n, m);
            lemma_rewrite_keeps_references_within(*rhs, old, new, n, m);
        },
        ExpressionModel::Condition { condition, true_expr, false_expr } => {
            lemma_rewrite_keeps_references_within(*condition, old, new, n, m);
            lemma_rewrite_keeps_references_within(*true_expr, old, new, n, m);
            lemma_rewrite_keeps_references_within(*false_expr, old, new, n, m);
        },
        _ => {},
    }
}

/// The token for property `property` of the element with identity `element`.
pub open spec fn token_of(element: int, property: Seq<char>) -> ReferenceModel {
    ReferenceModel { element, property }
}

/// Token equality is identity-based: tokens made for the same element and
/// property are equal however often they are made, and tokens for different
/// elements differ even where the property's name is the same.
pub proof fn lemma_token_equality_is_identity(
    element_a: int,
    property_a: Seq<char>,
    element_b: int,
    property_b: Seq<char>,
)
    ensures
        token_of(element_a, property_a) == token_of(element_b, property_b) <==> (element_a
            == element_b && property_a == property_b),
        element_a != element_b ==> token_of(element_a, property_a) != token_of(
            element_b,
            property_a,
        ),
{
}

} // verus!
