//! Laws of the grammar: every production takes input and none gives any
//! back, a line belongs to the block whose indentation it has, and operators
//! group as their tiers say.
use super::grammar::{
    colon, eat_indent, expect_token, is_newline, left_of, next_line, no_longer, operator_index,
    parse_base, parse_binary, parse_conditional, parse_expr, parse_global, parse_otherwise,
    parse_scope, parse_statement, pre_statement, right_of, shorter, tier_operator, Tier,
};
use super::node::ExprModel;
use super::source::SourceModel;
use crate::lexer::token::{SpannedTokenModel, TokenModel, TokenPunctuation};
use vstd::prelude::*;

verus! {

/// The expression that a token is by itself, if it is an identifier or a
/// literal.
pub open spec fn operand(token: TokenModel) -> Option<ExprModel> {
    match token {
        TokenModel::Ident(name) => Some(ExprModel::Ident(name)),
        TokenModel::Literal(literal) => Some(ExprModel::Literal(literal)),
        _ => None,
    }
}

/// Whether `tokens` is a chain of `tier`: operands with one operator of the
/// tier between each two of them.
pub open spec fn is_chain(tokens: Seq<SpannedTokenModel>, tier: Tier) -> bool {
    &&& tokens.len() % 2 == 1
    &&& forall|i: int|
        0 <= i < tokens.len() && i % 2 == 0 ==> operand((#[trigger] tokens[i]).token).is_some()
    &&& forall|i: int|
        0 <= i < tokens.len() && i % 2 == 1 ==> tier_operator(
            tier,
            (#[trigger] tokens[i]).token,
        ).is_some()
}

/// The tree of a chain in which every operator takes all that follows it as
/// its right operand: `a - b - c` is `a - (b - c)`.
pub open spec fn grouped_right(tokens: Seq<SpannedTokenModel>, tier: Tier) -> ExprModel
    decreases tokens.len(),
{
    if tokens.len() < 3 {
        operand(tokens[0].token).unwrap()
    } else {
        ExprModel::BinaryOp {
            op: tier_operator(tier, tokens[1].token).unwrap(),
            left: Box::new(operand(tokens[0].token).unwrap()),
            right: Box::new(grouped_right(tokens.skip(2), tier)),
        }
    }
}

/// A line that starts with an operand and an operator of `tier` splits at
/// that operator.
proof fn lemma_first_operator(tokens: Seq<SpannedTokenModel>, tier: Tier)
    requires
        tokens.len() >= 2,
        operand(tokens[0].token).is_some(),
        tier_operator(tier, tokens[1].token).is_some(),
    ensures
        operator_index(tokens, tier, 0) == Some(1int),
{
    assert(operator_index(tokens, tier, 1) == Some(1int));
}

/// Whether the line ends before index `n`: the input ends there, or a line
/// end stands there.
pub open spec fn line_ends_at(tokens: Seq<SpannedTokenModel>, n: int) -> bool {
    n == tokens.len() || (0 <= n < tokens.len() && is_newline(tokens[n]))
}

/// An operand that stands alone on its line is an expression of every tier,
/// and what follows it is left in the input.
proof fn lemma_lone_operand(src: SourceModel, tier: Tier)
    requires
        src.tokens.len() >= 1,
        operand(src.tokens[0].token).is_some(),
        line_ends_at(src.tokens, 1),
    ensures
        parse_binary(src, tier) matches Ok((tree, rest)) && tree == operand(
            src.tokens[0].token,
        ).unwrap() && rest == src.advance(),
{
    assert(operator_index(src.tokens, Tier::Additive, 1) is None);
    assert(operator_index(src.tokens, Tier::Multiplicative, 1) is None);
    assert(parse_binary(src, Tier::Multiplicative) == parse_base(src));
}

/// Operators of one tier group to the right. Where the first `n` tokens are
/// a chain of operands and operators of one tier, and the line ends after
/// them, the expression is the tree in which each operator has the whole
/// rest of the chain as its right operand. The parse reads the chain and no
/// more: the line end and what follows it are left in the input.
pub proof fn lemma_same_tier_groups_right(src: SourceModel, tier: Tier, n: int)
    requires
        0 < n <= src.tokens.len(),
        is_chain(src.tokens.take(n), tier),
        line_ends_at(src.tokens, n),
    ensures
        parse_binary(src, tier) matches Ok((tree, rest)) && tree == grouped_right(
            src.tokens.take(n),
            tier,
        ) && rest.tokens == src.tokens.skip(n),
    decreases n,
{
    let tokens = src.tokens;
    let chain = tokens.take(n);
    assert(chain[0] == tokens[0]);
    if n < 3 {
        lemma_lone_operand(src, tier);
    } else {
        assert(chain[1] == tokens[1]);
        lemma_first_operator(tokens, tier);
        let left = left_of(src, 1);
        let right = right_of(src, 1);
        assert(left.tokens[0] == tokens[0]);
        lemma_lone_operand(left, Tier::Multiplicative);
        assert(parse_binary(left, Tier::Multiplicative) == parse_base(left)) by {
            assert(operator_index(left.tokens, Tier::Multiplicative, 1) is None);
        }
        assert(right.tokens.take(n - 2) =~= chain.skip(2));
        assert(is_chain(right.tokens.take(n - 2), tier)) by {
            assert forall|i: int| 0 <= i < n - 2 implies #[trigger] right.tokens.take(n - 2)[i]
                == chain[i + 2] by {}
        }
        lemma_same_tier_groups_right(right, tier, n - 2);
        assert(right.tokens.skip(n - 2) =~= tokens.skip(n));
    }
}

/// Multiplicative operators bind tighter than additive ones: where a
/// multiplicative chain is followed by an additive operator, the chain is
/// the left operand of that operator, and the expression after the operator
/// is its right operand.
pub proof fn lemma_additive_operator_splits(src: SourceModel, idx: int)
    requires
        0 < idx < src.tokens.len(),
        is_chain(src.tokens.take(idx), Tier::Multiplicative),
        tier_operator(Tier::Additive, src.tokens[idx].token).is_some(),
    ensures
        parse_expr(src) == match parse_expr(right_of(src, idx)) {
            Ok((right, rest)) => Ok(
                (
                    ExprModel::BinaryOp {
                        op: tier_operator(Tier::Additive, src.tokens[idx].token).unwrap(),
                        left: Box::new(
                            grouped_right(src.tokens.take(idx), Tier::Multiplicative),
                        ),
                        right: Box::new(right),
                    },
                    rest,
                ),
            ),
            Err(e) => Err(e),
        },
{
    let tokens = src.tokens;
    let chain = tokens.take(idx);
    assert forall|i: int| 0 <= i < idx implies !is_newline(#[trigger] tokens[i]) && tier_operator(
        Tier::Additive,
        tokens[i].token,
    ).is_none() by {
        if i % 2 == 1 {
            assert(tier_operator(Tier::Multiplicative, chain[i].token).is_some());
        }
    }
    lemma_operator_index(tokens, Tier::Additive, 0, idx);
    let left = left_of(src, idx);
    assert(left.tokens.take(idx) =~= chain);
    lemma_same_tier_groups_right(left, Tier::Multiplicative, idx);
}

/// The first operator of a tier is found at `idx` if no token before `idx`
/// ends the line or is an operator of the tier.
proof fn lemma_operator_index(tokens: Seq<SpannedTokenModel>, tier: Tier, from: int, idx: int)
    requires
        0 <= from <= idx < tokens.len(),
        tier_operator(tier, tokens[idx].token).is_some(),
        forall|i: int|
            from <= i < idx ==> !is_newline(#[trigger] tokens[i]) && tier_operator(
                tier,
                tokens[i].token,
            ).is_none(),
    ensures
        operator_index(tokens, tier, from) == Some(idx),
    decreases idx - from,
{
    if from < idx {
        lemma_operator_index(tokens, tier, from + 1, idx);
    }
}

/// Where an operator is found, it stands inside the input.
pub proof fn lemma_operator_in_range(tokens: Seq<SpannedTokenModel>, tier: Tier, from: int)
    requires
        0 <= from,
    ensures
        operator_index(tokens, tier, from) matches Some(idx) ==> from <= idx < tokens.len()
            && tier_operator(tier, tokens[idx].token).is_some(),
    decreases tokens.len() - from,
{
    if from < tokens.len() && !is_newline(tokens[from]) && tier_operator(
        tier,
        tokens[from].token,
    ).is_none() {
        lemma_operator_in_range(tokens, tier, from + 1);
    }
}

/// A primary expression takes at least one token.
pub proof fn lemma_base_consumes(src: SourceModel)
    ensures
        parse_base(src) matches Ok((_, rest)) ==> shorter(rest, src),
    decreases src.tokens.len(),
{
    if !src.at_end() {
        lemma_base_consumes(src.advance());
    }
}

/// An expression takes at least one token.
pub proof fn lemma_expr_consumes(src: SourceModel, tier: Tier)
    ensures
        parse_binary(src, tier) matches Ok((_, rest)) ==> shorter(rest, src),
    decreases src.tokens.len(), tier.rank(),
{
    lemma_operator_in_range(src.tokens, tier, 0);
    match operator_index(src.tokens, tier, 0) {
        Some(idx) => {
            lemma_expr_consumes(right_of(src, idx), tier);
        },
        None => {
            match tier {
                Tier::Additive => lemma_expr_consumes(src, Tier::Multiplicative),
                Tier::Multiplicative => lemma_base_consumes(src),
            }
        },
    }
}

/// Reading indentation gives no input back, and takes some where it reads
/// a line end.
pub proof fn lemma_eat_indent_consumes(src: SourceModel, level: nat)
    ensures
        no_longer(eat_indent(src, level).1, src),
        eat_indent(src, level).0 == Some(true) ==> shorter(eat_indent(src, level).1, src),
    decreases level,
{
    if level > 0 && !src.at_end() {
        lemma_eat_indent_consumes(src.advance(), (level - 1) as nat);
    }
}

/// The next statement of a block starts no earlier than the search for it.
/// Its first token is there, and it is no line end.
pub proof fn lemma_next_line_consumes(src: SourceModel, level: nat)
    ensures
        next_line(src, level) matches Some(start) ==> no_longer(start, src) && !start.at_end()
            && !is_newline(start.first()),
    decreases src.tokens.len(),
{
    lemma_eat_indent_consumes(src, level);
    let (indented, body) = eat_indent(src, level);
    match indented {
        Some(true) => {
            lemma_next_line_consumes(body, level);
        },
        Some(false) => {
            if !body.at_end() && is_newline(body.first()) {
                lemma_next_line_consumes(body.advance(), level);
            }
        },
        None => {},
    }
}

/// Getting ready for a statement gives no input back. Where a statement
/// follows, its first token is there, and it is no line end. Where none
/// follows, nothing was read.
pub proof fn lemma_pre_statement_consumes(src: SourceModel, level: nat)
    ensures
        no_longer(pre_statement(src, level).1, src),
        pre_statement(src, level).0 ==> !pre_statement(src, level).1.at_end() && !is_newline(
            pre_statement(src, level).1.first(),
        ),
        !pre_statement(src, level).0 ==> pre_statement(src, level).1 == src,
{
    if !src.at_end() && is_newline(src.first()) {
        lemma_next_line_consumes(src.advance(), level);
    }
}

/// The input after `count` tokens were read.
pub open spec fn advance_by(src: SourceModel, count: nat) -> SourceModel
    decreases count,
{
    if count == 0 || src.at_end() {
        src
    } else {
        advance_by(src.advance(), (count - 1) as nat)
    }
}

/// Whether `count` indentations stand in `tokens` from index `from` on.
pub open spec fn indented(tokens: Seq<SpannedTokenModel>, from: int, count: nat) -> bool {
    &&& 0 <= from
    &&& from + count <= tokens.len()
    &&& forall|i: int|
        from <= i < from + count ==> (#[trigger] tokens[i]).token.is_punctuation(
            TokenPunctuation::Indentation,
        )
}

/// Reading `count` tokens leaves the tokens after them.
pub proof fn lemma_advance_by(src: SourceModel, count: nat)
    requires
        count <= src.tokens.len(),
    ensures
        advance_by(src, count).tokens == src.tokens.skip(count as int),
    decreases count,
{
    if count == 0 {
        assert(src.tokens.skip(0) =~= src.tokens);
    } else {
        lemma_advance_by(src.advance(), (count - 1) as nat);
        assert(src.tokens.skip(1).skip(count - 1) =~= src.tokens.skip(count as int));
    }
}

/// Indentations at the start of the input are read as part of the
/// indentation of a block that is as deep or deeper.
pub proof fn lemma_eat_indent_reads(src: SourceModel, level: nat, count: nat)
    requires
        count <= level,
        indented(src.tokens, 0, count),
    ensures
        eat_indent(src, level) == eat_indent(advance_by(src, count), (level - count) as nat),
    decreases count,
{
    if count > 0 {
        assert(src.tokens[0].token.is_punctuation(TokenPunctuation::Indentation));
        let rest = src.advance();
        assert forall|i: int| 0 <= i < count - 1 implies (#[trigger] rest.tokens[i]).token.is_punctuation(
            TokenPunctuation::Indentation,
        ) by {
            assert(rest.tokens[i] == src.tokens[i + 1]);
        }
        lemma_eat_indent_reads(rest, (level - 1) as nat, (count - 1) as nat);
    }
}

/// A line with fewer indentations than the block has closes the block.
/// Where a line end is followed by fewer than `level` indentations and then
/// by a token that is neither an indentation nor a line end, the block at
/// `level` has no further statement, and nothing is read: the line end
/// stays, and the block around this one holds the line against its own
/// level.
pub proof fn lemma_dedent_closes_block(src: SourceModel, level: nat, count: nat)
    requires
        !src.at_end(),
        is_newline(src.first()),
        count < level,
        indented(src.tokens, 1, count),
        1 + count < src.tokens.len(),
        !src.tokens[1 + count as int].token.is_punctuation(TokenPunctuation::Indentation),
        !is_newline(src.tokens[1 + count as int]),
    ensures
        pre_statement(src, level) == (false, src),
{
    let line = src.advance();
    assert forall|i: int| 0 <= i < count implies (#[trigger] line.tokens[i]).token.is_punctuation(
        TokenPunctuation::Indentation,
    ) by {
        assert(line.tokens[i] == src.tokens[i + 1]);
    }
    lemma_eat_indent_reads(line, level, count);
    lemma_advance_by(line, count);
    let at = advance_by(line, count);
    assert(at.tokens[0] == src.tokens[1 + count as int]);
}

/// A line with the indentation of the block belongs to the block. Where a
/// line end is followed by `level` indentations and then by a token that is
/// no line end, a statement of the block at `level` follows, and it starts
/// at that token.
pub proof fn lemma_line_belongs_to_block(src: SourceModel, level: nat)
    requires
        !src.at_end(),
        is_newline(src.first()),
        indented(src.tokens, 1, level),
        1 + level < src.tokens.len(),
        !is_newline(src.tokens[1 + level as int]),
    ensures
        pre_statement(src, level).0,
        pre_statement(src, level).1.tokens == src.tokens.skip(1 + level as int),
{
    let line = src.advance();
    assert forall|i: int| 0 <= i < level implies (#[trigger] line.tokens[i]).token.is_punctuation(
        TokenPunctuation::Indentation,
    ) by {
        assert(line.tokens[i] == src.tokens[i + 1]);
    }
    lemma_eat_indent_reads(line, level, level);
    lemma_advance_by(line, level);
    let at = advance_by(line, level);
    assert(at.tokens[0] == src.tokens[1 + level as int]);
    assert(at.tokens =~= src.tokens.skip(1 + level as int));
    lemma_eat_indent_consumes(line, level);
}

/// The names of a `global` statement take at least one token.
pub proof fn lemma_global_consumes(src: SourceModel)
    ensures
        parse_global(src) matches Ok((_, rest)) ==> shorter(rest, src),
    decreases src.tokens.len(),
{
    if !src.at_end() && !src.advance().at_end() {
        lemma_global_consumes(src.advance().drop_first());
    }
}

/// A statement takes at least one token.
pub proof fn lemma_statement_consumes(src: SourceModel, level: nat)
    ensures
        parse_statement(src, level) matches Ok((_, rest)) ==> shorter(rest, src),
    decreases src.tokens.len(), 1nat,
{
    if !src.at_end() {
        let after_first = src.advance();
        lemma_expr_consumes(src, Tier::Additive);
        lemma_global_consumes(after_first);
        lemma_conditional_consumes(after_first, level);
        if !after_first.at_end() {
            lemma_expr_consumes(after_first.advance(), Tier::Additive);
        }
    }
}

/// A conditional takes at least the two tokens of its test and its colon,
/// and the tests on lengths in its production always hold.
pub proof fn lemma_conditional_consumes(src: SourceModel, level: nat)
    ensures
        parse_conditional(src, level) matches Ok((_, rest)) ==> shorter(rest, src),
        parse_expr(src) matches Ok((_, after_test)) ==> (expect_token(after_test, colon())
            matches Ok(after_colon) ==> shorter(after_colon, src) && (parse_scope(
            after_colon,
            level + 1,
        ) matches Ok((_, after_body)) ==> no_longer(after_body, after_colon))),
    decreases src.tokens.len(), 3nat,
{
    lemma_expr_consumes(src, Tier::Additive);
    if let Ok((_, after_test)) = parse_expr(src) {
        if let Ok(after_colon) = expect_token(after_test, colon()) {
            lemma_scope_consumes(after_colon, level + 1);
            if let Ok((_, after_body)) = parse_scope(after_colon, level + 1) {
                lemma_otherwise_consumes(after_body, level);
            }
        }
    }
}

/// The `else` or `elif` part of a conditional gives no input back.
pub proof fn lemma_otherwise_consumes(src: SourceModel, level: nat)
    ensures
        parse_otherwise(src, level) matches Ok((_, rest)) ==> no_longer(rest, src),
    decreases src.tokens.len(), 0nat,
{
    lemma_pre_statement_consumes(src, level);
    let (more, ahead) = pre_statement(src, level);
    if more {
        let after_keyword = ahead.drop_first();
        if let Ok(after_colon) = expect_token(after_keyword, colon()) {
            lemma_scope_consumes(after_colon, level + 1);
        }
        lemma_conditional_consumes(after_keyword, level);
    }
}

/// A block gives no input back, and the tests on lengths in its production
/// always hold.
pub proof fn lemma_scope_consumes(src: SourceModel, level: nat)
    ensures
        parse_scope(src, level) matches Ok((_, rest)) ==> no_longer(rest, src),
        no_longer(pre_statement(src, level).1, src),
        parse_statement(pre_statement(src, level).1, level) matches Ok((_, after)) ==> shorter(
            after,
            pre_statement(src, level).1,
        ),
    decreases src.tokens.len(), 2nat,
{
    lemma_pre_statement_consumes(src, level);
    let (more, start) = pre_statement(src, level);
    lemma_statement_consumes(start, level);
    if more {
        if let Ok((_, after)) = parse_statement(start, level) {
            lemma_scope_consumes(after, level);
        }
    }
}

} // verus!
