//! The invalidation primitive: conditions that can be invalidated and the
//! tokens that report whether the conditions they were made from still
//! hold. Both come from the `renege` crate and are carried through as they
//! are; what this library relies on is stated here and nowhere proved.

use vstd::prelude::*;
use renege::{Condition, Token};

verus! {

/// `renege::Token`: a copyable signal that is valid until one of the
/// conditions it was made from is invalidated.
#[verifier::external_type_specification]
#[verifier::external_body]
pub struct ExToken(renege::Token);

/// `renege::Condition`: the source of the tokens of one dependency. It is
/// invalidated when it is dropped.
#[verifier::external_type_specification]
#[verifier::external_body]
pub struct ExCondition(renege::Condition);

/// What `Token::is_always_valid` returns for a token: whether it is the
/// token that depends on no condition and so can never become invalid.
pub uninterp spec fn always_valid(token: Token) -> bool;

/// What `Condition::token` returns for a condition: the token that is valid
/// as long as that condition is alive. Every call on one condition returns
/// the same token.
pub uninterp spec fn minted(condition: Condition) -> Token;

/// `Token::always`: the token that is valid for ever.
#[verifier::external_body]
pub(crate) fn always() -> (token: Token)
    ensures
        always_valid(token),
{
    Token::always()
}

/// `Token::is_always_valid`: tells the token that is valid for ever from
/// every other.
#[verifier::external_body]
pub(crate) fn is_always_valid(token: &Token) -> (always: bool)
    ensures
        always == always_valid(*token),
{
    token.is_always_valid()
}

/// `Token::is_valid`: whether no condition behind the token has been
/// invalidated so far. The answer depends on when it is asked; all that
/// holds of every answer is that the token that is valid for ever is valid.
#[verifier::external_body]
pub(crate) fn is_valid(token: &Token) -> (valid: bool)
    ensures
        always_valid(*token) ==> valid,
{
    token.is_valid()
}

/// The operator `&` on tokens: a token that is valid while both operands
/// are. Combined with the token that is valid for ever, a token comes back
/// as it is; any other combination is not valid for ever.
#[verifier::external_body]
pub(crate) fn combine(a: Token, b: Token) -> (both: Token)
    ensures
        always_valid(a) ==> both == b,
        always_valid(b) ==> both == a,
        always_valid(both) == (always_valid(a) && always_valid(b)),
{
    a & b
}

/// `Condition::new`: a condition of its own, not yet invalidated.
#[verifier::external_body]
pub(crate) fn new_condition() -> Condition {
    Condition::new()
}

/// `Condition::token`: the token of the condition, which is valid as long as
/// the condition is alive. It is never the token that is valid for ever.
#[verifier::external_body]
pub(crate) fn token_of(condition: &Condition) -> (token: Token)
    ensures
        token == minted(*condition),
        !always_valid(token),
{
    condition.token()
}

/// `Condition::invalidate_immediately`: invalidates the condition, and with
/// it every token that was made from it, before it returns.
#[verifier::external_body]
pub(crate) fn invalidate(condition: Condition) {
    condition.invalidate_immediately()
}

} // verus!
