use vstd::prelude::*;
use crate::ast::{
    AnnV, Expr, ExprV, Expression, Program, Statement, Stmt, StmtV, TypeAnnotation, ann_view, annotation_shape, builtin_annotation,
    elements_view, expr_view, lemma_elements_view_prefix, lemma_statements_view_prefix, statements_view, stmt_view,
};
use crate::errors::{ErrorCollector, VynError};
use crate::precedence::{Precedence, spec_level, spec_token_precedence};
use crate::span::{Span, Spanned};
use crate::tokens::{Token, TokenInfo, TokenType, spec_token_type};

verus! {

/// Type aliases declared so far, by name.
pub struct TypeTable {
    pub aliases: Vec<(String, TypeAnnotation)>,
}

impl TypeTable {
    /// An empty table.
    pub fn new() -> (t: TypeTable)
        ensures
            t.aliases@.len() == 0,
    {
        TypeTable { aliases: Vec::new() }
    }
}

/// The level an operator token binds with (0 for a token that is no operator).
pub open spec fn binding_level(tt: TokenType) -> u8 {
    match spec_token_precedence(tt) {
        Some(p) => spec_level(p),
        None => 0,
    }
}

/// Binary operators bind in this order, tightest first: `^`; `*` and `/`;
/// `+` and `-`; the four comparisons; `==` and `!=`; `and`; `or`; the
/// conditional `if`; and `=` last. Operators in one group bind equally
/// (they group to the left), and every operator binds tighter than a bare
/// expression.
pub proof fn law_binding_order()
    ensures
        binding_level(TokenType::Caret) > binding_level(TokenType::Asterisk),
        binding_level(TokenType::Asterisk) == binding_level(TokenType::Slash),
        binding_level(TokenType::Slash) > binding_level(TokenType::Plus),
        binding_level(TokenType::Asterisk) > binding_level(TokenType::Minus),
        binding_level(TokenType::Plus) == binding_level(TokenType::Minus),
        binding_level(TokenType::Minus) > binding_level(TokenType::LessThan),
        binding_level(TokenType::LessThan) == binding_level(TokenType::LessThanEqual),
        binding_level(TokenType::LessThan) == binding_level(TokenType::GreaterThan),
        binding_level(TokenType::LessThan) == binding_level(TokenType::GreaterThanEqual),
        binding_level(TokenType::GreaterThanEqual) > binding_level(TokenType::Equal),
        binding_level(TokenType::Equal) == binding_level(TokenType::NotEqual),
        binding_level(TokenType::NotEqual) > binding_level(TokenType::And),
        binding_level(TokenType::And) > binding_level(TokenType::Or),
        binding_level(TokenType::Or) > binding_level(TokenType::If),
        binding_level(TokenType::If) > binding_level(TokenType::Assign),
        binding_level(TokenType::Assign) > 0,
{
}

/// The right operand of an operator ends before the next operator that
/// binds no tighter than it: in `a * b + c` the product is complete before
/// the sum takes it as its left operand, and in `a - b - c` the first
/// difference is complete before the second (operators of one level group
/// to the left).
pub proof fn law_operand_stops_at_looser_operator(
    toks: Seq<TokenInfo>,
    p: int,
    depth: nat,
    left: Spanned<ExprV>,
    op: TokenType,
)
    requires
        0 <= p < toks.len(),
        kind_at(toks, p) != TokenType::EndOfFile,
        binding_level(kind_at(toks, settle(toks, p, depth))) <= binding_level(op),
    ensures
        ploop(toks, p, depth, binding_level(op), left) == (Some(left), settle(toks, p, depth)),
{
    lemma_past_delimiters(toks, p);
}

/// Token kinds that start an expression.
pub open spec fn starts_expression(tt: TokenType) -> bool {
    tt == TokenType::Integer || tt == TokenType::Float || tt == TokenType::False || tt == TokenType::True
        || tt == TokenType::Identifier || tt == TokenType::String || tt == TokenType::Nil
        || tt == TokenType::LeftBracket || tt == TokenType::Minus || tt == TokenType::Not
        || tt == TokenType::LeftParenthesis
}

/// Token kinds that continue an expression after its left operand.
pub open spec fn continues_expression(tt: TokenType) -> bool {
    tt == TokenType::Plus || tt == TokenType::Minus || tt == TokenType::Asterisk || tt == TokenType::Slash
        || tt == TokenType::Caret || tt == TokenType::LessThan || tt == TokenType::LessThanEqual
        || tt == TokenType::GreaterThan || tt == TokenType::GreaterThanEqual || tt == TokenType::Equal
        || tt == TokenType::NotEqual || tt == TokenType::Assign || tt == TokenType::BoxColon
}

/// Statement separators.
pub open spec fn is_delimiter_type(tt: TokenType) -> bool {
    tt == TokenType::Semicolon || tt == TokenType::Newline
}

/// The kind of token `p`.
pub open spec fn kind_at(toks: Seq<TokenInfo>, p: int) -> TokenType {
    spec_token_type(toks[p].token)
}

/// The position after `p`; the last token is never left.
pub open spec fn after(toks: Seq<TokenInfo>, p: int) -> int {
    if p < toks.len() - 1 {
        p + 1
    } else {
        p
    }
}

/// The first position from `p` on that holds no newline or semicolon.
pub open spec fn past_delimiters(toks: Seq<TokenInfo>, p: int) -> int
    decreases toks.len() - p,
{
    if 0 <= p < toks.len() - 1 && is_delimiter_type(kind_at(toks, p)) {
        past_delimiters(toks, p + 1)
    } else {
        p
    }
}

pub proof fn lemma_past_delimiters(toks: Seq<TokenInfo>, p: int)
    requires
        0 <= p < toks.len(),
    ensures
        p <= past_delimiters(toks, p) < toks.len(),
    decreases toks.len() - p,
{
    if 0 <= p < toks.len() - 1 && is_delimiter_type(kind_at(toks, p)) {
        lemma_past_delimiters(toks, p + 1);
    }
}

/// Where parsing goes on from `p`: inside grouping delimiters (`depth > 0`)
/// newlines and semicolons are skipped.
pub open spec fn settle(toks: Seq<TokenInfo>, p: int, depth: nat) -> int {
    if depth > 0 {
        past_delimiters(toks, p)
    } else {
        p
    }
}

/// A span from the start of `a` to the end of `b`, on the line of `a`.
pub open spec fn span_from(a: Span, b: Span) -> Span {
    Span { line: a.line, start_column: a.start_column, end_column: b.end_column }
}

/// What parsing an expression whose operators bind tighter than `prec`
/// does from position `p` at grouping depth `depth`: the expression (none
/// when it fails) and the position after it.
pub open spec fn pexpr(toks: Seq<TokenInfo>, p: int, depth: nat, prec: u8) -> (Option<Spanned<ExprV>>, int)
    decreases toks.len() - p, 3int,
{
    if !(0 <= p < toks.len()) {
        (None, p)
    } else {
        let p1 = settle(toks, p, depth);
        proof {
            lemma_past_delimiters(toks, p);
        }
        if !starts_expression(kind_at(toks, p1)) {
            (None, p1)
        } else {
            let (e, p2) = pprefix(toks, p1, depth);
            match e {
                None => (None, p2),
                Some(left) => if p2 <= p1 || p2 > toks.len() {
                    (None, p2)
                } else {
                    ploop(toks, p2, depth, prec, left)
                },
            }
        }
    }
}

/// What parsing the expression that starts with the token at `p` (a
/// literal, an identifier, an array literal, a unary operator or a
/// parenthesis) does.
pub open spec fn pprefix(toks: Seq<TokenInfo>, p: int, depth: nat) -> (Option<Spanned<ExprV>>, int)
    decreases toks.len() - p, 2int,
{
    if !(0 <= p < toks.len()) {
        (None, p)
    } else {
        let tok = toks[p];
        let q = after(toks, p);
        let one = |node: ExprV| (Some(Spanned { node, span: tok.span }), q);
        match kind_at(toks, p) {
            TokenType::Integer => one(ExprV::IntegerLiteral(
                match tok.token {
                    Token::Integer(n) => n,
                    _ => 0,
                },
            )),
            TokenType::Float => one(ExprV::FloatLiteral(
                match tok.token {
                    Token::Float(f) => f@,
                    _ => Seq::empty(),
                },
            )),
            TokenType::True => one(ExprV::BooleanLiteral(true)),
            TokenType::False => one(ExprV::BooleanLiteral(false)),
            TokenType::Identifier => one(ExprV::Identifier(
                match tok.token {
                    Token::Identifier(n) => n@,
                    _ => Seq::empty(),
                },
            )),
            TokenType::String => one(ExprV::StringLiteral(
                match tok.token {
                    Token::String(t) => t@,
                    _ => Seq::empty(),
                },
            )),
            TokenType::Nil => one(ExprV::NilLiteral),
            TokenType::LeftBracket => if q <= p {
                (None, q)
            } else {
                parray(toks, q, depth, tok.span, Seq::empty())
            },
            TokenType::Minus | TokenType::Not => if q <= p {
                (None, q)
            } else {
                let (v, p2) = pexpr(toks, q, depth, 9);
                match v {
                    None => (None, p2),
                    Some(v) => (
                        Some(Spanned { node: ExprV::Unary(tok.token, Box::new(v)), span: span_from(tok.span, v.span) }),
                        p2,
                    ),
                }
            },
            TokenType::LeftParenthesis => if q <= p {
                (None, q)
            } else {
                let inner = depth + 1;
                proof {
                    lemma_past_delimiters(toks, q);
                }
                let (e, p3) = pexpr(toks, settle(toks, q, inner), inner, 0);
                match e {
                    None => (None, p3),
                    Some(e) => {
                        let p4 = settle(toks, p3, inner);
                        if 0 <= p4 < toks.len() && kind_at(toks, p4) == TokenType::RightParenthesis {
                            let p5 = after(toks, p4);
                            (Some(Spanned { node: e.node, span: span_from(tok.span, toks[p5 - 1].span) }), p5)
                        } else {
                            (None, p4)
                        }
                    },
                }
            },
            _ => (None, p),
        }
    }
}

/// What parsing the rest of an array literal opened at `lb` does from
/// position `p`, with the elements `elems` read so far (the commas between
/// elements are optional).
pub open spec fn parray(toks: Seq<TokenInfo>, p: int, depth: nat, lb: Span, elems: Seq<Spanned<ExprV>>) -> (
    Option<Spanned<ExprV>>,
    int,
)
    decreases toks.len() - p, 4int,
{
    if !(0 <= p < toks.len()) {
        (None, p)
    } else if kind_at(toks, p) == TokenType::RightBracket {
        (Some(Spanned { node: ExprV::ArrayLiteral(elems), span: span_from(lb, toks[p].span) }), after(toks, p))
    } else {
        let (e, p2) = pexpr(toks, p, depth, 0);
        match e {
            None => (None, p2),
            Some(e) => {
                let p3 = if 0 <= p2 < toks.len() && kind_at(toks, p2) == TokenType::Comma {
                    settle(toks, after(toks, p2), depth)
                } else {
                    p2
                };
                if p3 <= p || p3 > toks.len() {
                    (None, p3)
                } else {
                    parray(toks, p3, depth, lb, elems.push(e))
                }
            },
        }
    }
}

/// What parsing the operators after `left` does from position `p`: each
/// one that binds tighter than `prec` takes `left` as its left operand.
pub open spec fn ploop(toks: Seq<TokenInfo>, p: int, depth: nat, prec: u8, left: Spanned<ExprV>) -> (
    Option<Spanned<ExprV>>,
    int,
)
    decreases toks.len() - p, 5int,
{
    if !(0 <= p < toks.len()) {
        (None, p)
    } else if kind_at(toks, p) == TokenType::EndOfFile {
        (Some(left), p)
    } else {
        let p1 = settle(toks, p, depth);
        proof {
            lemma_past_delimiters(toks, p);
        }
        let t = kind_at(toks, p1);
        if prec >= binding_level(t) || !continues_expression(t) {
            (Some(left), p1)
        } else {
            let (e, p2) = pinfix(toks, p1, depth, left);
            match e {
                None => (None, p2),
                Some(e) => if p2 <= p || p2 > toks.len() {
                    (None, p2)
                } else {
                    ploop(toks, p2, depth, prec, e)
                },
            }
        }
    }
}

/// What parsing the operator at `p` and its right operand does, with
/// `left` as the left operand: `^` takes a right operand that binds tighter
/// than unary operators (so it groups to the right), `=` any expression,
/// `::` an operand that binds tighter than calls, and the other operators
/// one that binds tighter than themselves.
pub open spec fn pinfix(toks: Seq<TokenInfo>, p: int, depth: nat, left: Spanned<ExprV>) -> (Option<Spanned<ExprV>>, int)
    decreases toks.len() - p, 2int,
{
    if !(0 <= p < toks.len()) {
        (None, p)
    } else {
        let k = kind_at(toks, p);
        if k == TokenType::Caret {
            poperand(toks, p, depth, left, 9, 0)
        } else if k == TokenType::Assign {
            poperand(toks, p, depth, left, 0, 1)
        } else if k == TokenType::BoxColon {
            poperand(toks, p, depth, left, 11, 2)
        } else {
            poperand(toks, p, depth, left, binding_level(k), 0)
        }
    }
}

/// What parsing the operator at `p` does, with left operand `left`, a right
/// operand whose operators bind tighter than `level`, and, by `form`, a
/// binary operation (0), an assignment (1) or an index (2) as the result.
pub open spec fn poperand(toks: Seq<TokenInfo>, p: int, depth: nat, left: Spanned<ExprV>, level: u8, form: u8) -> (
    Option<Spanned<ExprV>>,
    int,
)
    decreases toks.len() - p, 1int,
{
    if !(0 <= p < toks.len()) {
        (None, p)
    } else {
        let tok = toks[p];
        let q = after(toks, p);
        if q <= p {
            (None, q)
        } else {
            let (r, p2) = pexpr(toks, q, depth, level);
            match r {
                None => (None, p2),
                Some(r) => {
                    let node = if form == 1 {
                        match left.node {
                            ExprV::Index(target, property) => ExprV::IndexAssignment(target, property, Box::new(r)),
                            _ => ExprV::VariableAssignment(Box::new(left), Box::new(r)),
                        }
                    } else if form == 2 {
                        ExprV::Index(Box::new(left), Box::new(r))
                    } else {
                        ExprV::BinaryOperation(Box::new(left), tok.token, Box::new(r))
                    };
                    let line = if form == 0 {
                        left.span.line
                    } else {
                        tok.span.line
                    };
                    (Some(Spanned { node, span: Span { line, start_column: left.span.start_column, end_column: r.span.end_column } }), p2)
                },
            }
        }
    }
}

/// Type aliases as values: names and annotations, oldest first.
pub type AliasesV = Seq<(Seq<char>, AnnV)>;

/// The position of the first alias named `name` from `i` on.
pub open spec fn alias_index(al: AliasesV, name: Seq<char>, i: int) -> Option<int>
    decreases al.len() - i,
{
    if 0 <= i < al.len() {
        if al[i].0 == name {
            Some(i)
        } else {
            alias_index(al, name, i + 1)
        }
    } else {
        None
    }
}

/// The aliases after recording `a` as `name`: an alias of that name is
/// replaced, otherwise one is added.
pub open spec fn alias_enroll(al: AliasesV, name: Seq<char>, a: AnnV) -> AliasesV {
    match alias_index(al, name, 0) {
        Some(i) => al.update(i, (name, a)),
        None => al.push((name, a)),
    }
}

/// The first alias named `name` from `i` on is at `j` when none before `j`
/// has the name and the one at `j` has.
proof fn lemma_alias_index_at(al: AliasesV, name: Seq<char>, i: int, j: int)
    requires
        0 <= i <= j < al.len(),
        forall|k: int| i <= k < j ==> (#[trigger] al[k]).0 != name,
        al[j].0 == name,
    ensures
        alias_index(al, name, i) == Some(j),
    decreases j - i,
{
    if i < j {
        lemma_alias_index_at(al, name, i + 1, j);
    }
}

/// No alias from `i` on is named `name` when none has the name.
proof fn lemma_alias_index_none(al: AliasesV, name: Seq<char>, i: int)
    requires
        0 <= i <= al.len(),
        forall|k: int| i <= k < al.len() ==> (#[trigger] al[k]).0 != name,
    ensures
        alias_index(al, name, i) is None,
    decreases al.len() - i,
{
    if i < al.len() {
        lemma_alias_index_none(al, name, i + 1);
    }
}

/// Consuming a token of kind `tt` at `p`: whether it is there, and the
/// position after.
pub open spec fn pexpect(toks: Seq<TokenInfo>, p: int, tt: TokenType) -> (bool, int) {
    if 0 <= p < toks.len() && kind_at(toks, p) == tt {
        (true, after(toks, p))
    } else {
        (false, p)
    }
}

/// Ending a statement at `p`: inside grouping delimiters anything goes;
/// outside, the end of input or newlines and semicolons (all skipped).
pub open spec fn pdelim(toks: Seq<TokenInfo>, p: int, depth: nat) -> (bool, int) {
    if depth > 0 {
        (true, past_delimiters(toks, p))
    } else if kind_at(toks, p) == TokenType::EndOfFile {
        (true, p)
    } else if is_delimiter_type(kind_at(toks, p)) {
        (true, past_delimiters(toks, p))
    } else {
        (false, p)
    }
}

/// What parsing a type annotation does from `p` with aliases `al`.
pub open spec fn ptype(toks: Seq<TokenInfo>, p: int, depth: nat, al: AliasesV) -> (Option<AnnV>, int)
    decreases toks.len() - p, 1int,
{
    if !(0 <= p < toks.len()) {
        (None, p)
    } else if kind_at(toks, p) == TokenType::LeftBracket {
        parray_type(toks, p, depth, al)
    } else {
        psimple_type(toks, p, al)
    }
}

/// A type name at `p`: built in, or an alias; the token is consumed either
/// way.
pub open spec fn psimple_type(toks: Seq<TokenInfo>, p: int, al: AliasesV) -> (Option<AnnV>, int) {
    let q = after(toks, p);
    match toks[p].token {
        Token::Identifier(name) => match builtin_annotation(name@) {
            Some(t) => (Some(ann_view(t)), q),
            None => match alias_index(al, name@, 0) {
                Some(i) => (Some(al[i].1), q),
                None => (None, q),
            },
        },
        _ => (None, q),
    }
}

/// `[]T` or `[size]T` from the `[` at `p`.
pub open spec fn parray_type(toks: Seq<TokenInfo>, p: int, depth: nat, al: AliasesV) -> (Option<AnnV>, int)
    decreases toks.len() - p, 0int,
{
    let q = after(toks, p);
    if !(0 <= p < toks.len()) || q <= p {
        (None, q)
    } else if kind_at(toks, q) == TokenType::RightBracket {
        let q2 = after(toks, q);
        if q2 <= q {
            (None, q2)
        } else {
            let (t, q3) = ptype(toks, q2, depth, al);
            match t {
                Some(t) => (Some(AnnV::SequenceType(Box::new(t))), q3),
                None => (None, q3),
            }
        }
    } else {
        let (size, q2) = pexpr(toks, q, depth, 0);
        match size {
            None => (None, q2),
            Some(size) => {
                let (ok, q3) = pexpect(toks, q2, TokenType::RightBracket);
                if !ok || q3 <= p || q3 > toks.len() {
                    (None, q3)
                } else {
                    let (t, q4) = ptype(toks, q3, depth, al);
                    match t {
                        Some(t) => (Some(AnnV::ArrayType(Box::new(t), size)), q4),
                        None => (None, q4),
                    }
                }
            },
        }
    }
}

/// What parsing a statement gives: the statement (none when it fails), the
/// position after it, the aliases after it, and whether it recorded no
/// error.
pub type StmtResult = (Option<Spanned<StmtV>>, int, AliasesV, bool);

/// A statement that fails at `p` (recording an error).
pub open spec fn pfail(p: int, al: AliasesV) -> StmtResult {
    (None, p, al, false)
}

/// What parsing the statement at `p` does: by its first token a
/// declaration, an alias, an output, a conditional, a loop, `break` or
/// `continue`; otherwise an expression and a statement end.
pub open spec fn pstmt(toks: Seq<TokenInfo>, p: int, depth: nat, al: AliasesV) -> StmtResult
    decreases toks.len() - p, 3int,
{
    if !(0 <= p < toks.len()) {
        pfail(p, al)
    } else {
        match kind_at(toks, p) {
            TokenType::Let => pvar(toks, p, depth, al),
            TokenType::Static => pstatic(toks, p, depth, al),
            TokenType::Type => palias(toks, p, depth, al),
            TokenType::Stdout => pstdout(toks, p, depth, al),
            TokenType::If => pif(toks, p, depth, al),
            TokenType::Loop => ploop_stmt(toks, p, depth, al),
            TokenType::Break | TokenType::Continue => pinterrupt(toks, p, depth, al),
            TokenType::For => pfor(toks, p, depth, al),
            _ => {
                let (e, q) = pexpr(toks, p, depth, 0);
                match e {
                    None => pfail(q, al),
                    Some(e) => {
                        let (ok, q2) = pdelim(toks, q, depth);
                        if ok {
                            (Some(Spanned { node: StmtV::Expression(e), span: toks[p].span }), q2, al, true)
                        } else {
                            pfail(q2, al)
                        }
                    },
                }
            },
        }
    }
}

/// The identifier token at `p` as an expression.
pub open spec fn ident_at(toks: Seq<TokenInfo>, p: int) -> Spanned<ExprV> {
    Spanned {
        node: ExprV::Identifier(
            match toks[p].token {
                Token::Identifier(n) => n@,
                _ => Seq::empty(),
            },
        ),
        span: toks[p].span,
    }
}

/// `let [@]name: Type [= value]` at `p`. The value is parsed from the `=`
/// itself, which starts no expression: a declaration with a value is
/// refused.
pub open spec fn pvar(toks: Seq<TokenInfo>, p: int, depth: nat, al: AliasesV) -> StmtResult {
    let q = after(toks, p);
    let mutable = kind_at(toks, q) == TokenType::At;
    let q1 = if mutable { after(toks, q) } else { q };
    if kind_at(toks, q1) != TokenType::Identifier {
        pfail(q1, al)
    } else {
        let ident = ident_at(toks, q1);
        let (okc, q3) = pexpect(toks, after(toks, q1), TokenType::Colon);
        if !okc {
            pfail(q3, al)
        } else {
            let (t, q4) = ptype(toks, q3, depth, al);
            match t {
                None => pfail(q4, al),
                Some(t) => {
                    let full = Span { line: toks[p].span.line, start_column: toks[p].span.start_column, end_column: toks[q4].span.end_column };
                    if kind_at(toks, q4) != TokenType::Assign {
                        if is_delimiter_type(kind_at(toks, q4)) || kind_at(toks, q4) == TokenType::EndOfFile {
                            (Some(Spanned { node: StmtV::VariableDeclaration(ident, None, t, mutable), span: full }), q4, al, true)
                        } else {
                            pfail(q4, al)
                        }
                    } else {
                        let (v, q5) = pexpr(toks, q4, depth, 0);
                        match v {
                            None => pfail(q5, al),
                            Some(v) => {
                                let (okd, q6) = pdelim(toks, q5, depth);
                                if okd {
                                    (
                                        Some(Spanned {
                                            node: StmtV::VariableDeclaration(ident, Some(v), t, mutable),
                                            span: Span { end_column: v.span.end_column, ..full },
                                        }),
                                        q6,
                                        al,
                                        true,
                                    )
                                } else {
                                    pfail(q6, al)
                                }
                            },
                        }
                    }
                },
            }
        }
    }
}

/// `static name: Type = value` at `p`.
pub open spec fn pstatic(toks: Seq<TokenInfo>, p: int, depth: nat, al: AliasesV) -> StmtResult {
    let q = after(toks, p);
    if kind_at(toks, q) != TokenType::Identifier {
        pfail(q, al)
    } else {
        let ident = ident_at(toks, q);
        let (okc, q2) = pexpect(toks, after(toks, q), TokenType::Colon);
        if !okc {
            pfail(q2, al)
        } else {
            let (t, q3) = ptype(toks, q2, depth, al);
            match t {
                None => pfail(q3, al),
                Some(t) => {
                    let (oka, q4) = pexpect(toks, q3, TokenType::Assign);
                    if !oka {
                        pfail(q4, al)
                    } else {
                        let (v, q5) = pexpr(toks, q4, depth, 0);
                        match v {
                            None => pfail(q5, al),
                            Some(v) => {
                                let (okd, q6) = pdelim(toks, q5, depth);
                                if okd {
                                    (
                                        Some(Spanned {
                                            node: StmtV::StaticVariableDeclaration(ident, v, t),
                                            span: span_from(toks[p].span, v.span),
                                        }),
                                        q6,
                                        al,
                                        true,
                                    )
                                } else {
                                    pfail(q6, al)
                                }
                            },
                        }
                    }
                },
            }
        }
    }
}

/// `type Name = Type` at `p`; the alias is recorded.
pub open spec fn palias(toks: Seq<TokenInfo>, p: int, depth: nat, al: AliasesV) -> StmtResult {
    let q = after(toks, p);
    if kind_at(toks, q) != TokenType::Identifier {
        pfail(q, al)
    } else {
        let ident = ident_at(toks, q);
        let (oka, q2) = pexpect(toks, after(toks, q), TokenType::Assign);
        if !oka {
            pfail(q2, al)
        } else {
            let (t, q3) = ptype(toks, q2, depth, al);
            match t {
                None => pfail(q3, al),
                Some(t) => {
                    let (okd, q4) = pdelim(toks, q3, depth);
                    if okd {
                        (
                            Some(Spanned { node: StmtV::TypeAliasDeclaration(ident, t), span: toks[q].span }),
                            q4,
                            alias_enroll(al, ident.node->Identifier_0, t),
                            true,
                        )
                    } else {
                        pfail(q4, al)
                    }
                },
            }
        }
    }
}

/// `stdout# value` at `p`.
pub open spec fn pstdout(toks: Seq<TokenInfo>, p: int, depth: nat, al: AliasesV) -> StmtResult {
    let (okh, q) = pexpect(toks, after(toks, p), TokenType::Hashtag);
    if !okh {
        pfail(q, al)
    } else {
        let (v, q2) = pexpr(toks, q, depth, 0);
        match v {
            None => pfail(q2, al),
            Some(v) => {
                let (okd, q3) = pdelim(toks, q2, depth);
                if okd {
                    (Some(Spanned { node: StmtV::StdoutLog(v), span: span_from(toks[p].span, v.span) }), q3, al, true)
                } else {
                    pfail(q3, al)
                }
            },
        }
    }
}

/// `break` or `continue` at `p`, then a statement end.
pub open spec fn pinterrupt(toks: Seq<TokenInfo>, p: int, depth: nat, al: AliasesV) -> StmtResult {
    let node = if kind_at(toks, p) == TokenType::Continue { StmtV::Continue } else { StmtV::Break };
    let (okd, q) = pdelim(toks, after(toks, p), depth);
    if okd {
        (Some(Spanned { node, span: toks[p].span }), q, al, true)
    } else {
        pfail(q, al)
    }
}

/// `{ statements }` from `p`, a scope of its own.
pub open spec fn pscope(toks: Seq<TokenInfo>, p: int, depth: nat, al: AliasesV) -> StmtResult
    decreases toks.len() - p, 1int,
{
    let (ok, q) = pexpect(toks, p, TokenType::LeftBrace);
    if !ok || !(0 <= p < toks.len()) {
        pfail(q, al)
    } else {
        let q1 = past_delimiters(toks, q);
        proof {
            lemma_past_delimiters(toks, q);
        }
        if q1 <= p || q1 >= toks.len() {
            pfail(q1, al)
        } else {
            pscope_rest(toks, q1, depth, al, toks[p].span, Seq::empty(), true)
        }
    }
}

/// The rest of a scope opened at `lb`, from `p`, with the statements `acc`
/// read so far and `clean` telling whether they recorded no error.
pub open spec fn pscope_rest(
    toks: Seq<TokenInfo>,
    p: int,
    depth: nat,
    al: AliasesV,
    lb: Span,
    acc: Seq<Spanned<StmtV>>,
    clean: bool,
) -> StmtResult
    decreases toks.len() - p, 4int,
{
    if !(0 <= p < toks.len()) {
        pfail(p, al)
    } else {
        let p1 = if kind_at(toks, p) == TokenType::RightBrace { p } else { past_delimiters(toks, p) };
        proof {
            lemma_past_delimiters(toks, p);
        }
        if kind_at(toks, p1) == TokenType::RightBrace {
            let (ok, q) = pexpect(toks, p1, TokenType::RightBrace);
            (Some(Spanned { node: StmtV::Scope(acc), span: lb }), q, al, clean)
        } else {
            let (st, p2, al2, c) = pstmt(toks, p1, depth, al);
            match st {
                None => pfail(p2, al2),
                Some(st) => if p2 <= p || p2 >= toks.len() {
                    pfail(p2, al2)
                } else {
                    pscope_rest(toks, p2, depth, al2, lb, acc.push(st), clean && c)
                },
            }
        }
    }
}

/// `if condition { ... } [else { ... }]` at `p`. A malformed `else` scope
/// is left out (and recorded as an error).
pub open spec fn pif(toks: Seq<TokenInfo>, p: int, depth: nat, al: AliasesV) -> StmtResult
    decreases toks.len() - p, 2int,
{
    let q = after(toks, p);
    let (c, q2) = pexpr(toks, q, depth, 0);
    match c {
        None => pfail(q2, al),
        Some(c) => if q2 <= p || q2 > toks.len() {
            pfail(q2, al)
        } else {
            let (cons, q3, al3, k3) = pscope(toks, q2, depth, al);
            match cons {
                None => pfail(q3, al3),
                Some(cons) => if 0 <= q3 < toks.len() && kind_at(toks, q3) == TokenType::Else && q3 > p {
                    let q4 = after(toks, q3);
                    let (alt, q5, al5, k5) = pscope(toks, q4, depth, al3);
                    (
                        Some(Spanned {
                            node: StmtV::IfDeclaration(
                                c,
                                Box::new(cons),
                                match alt {
                                    Some(a) => Some(Box::new(a)),
                                    None => None,
                                },
                            ),
                            span: toks[p].span,
                        }),
                        q5,
                        al5,
                        k3 && k5,
                    )
                } else {
                    (Some(Spanned { node: StmtV::IfDeclaration(c, Box::new(cons), None), span: toks[p].span }), q3, al3, k3)
                },
            }
        },
    }
}

/// `loop { ... }` at `p`.
pub open spec fn ploop_stmt(toks: Seq<TokenInfo>, p: int, depth: nat, al: AliasesV) -> StmtResult
    decreases toks.len() - p, 2int,
{
    let q = after(toks, p);
    if q <= p {
        pfail(q, al)
    } else {
        let (body, q2, al2, k) = pscope(toks, q, depth, al);
        match body {
            None => pfail(q2, al2),
            Some(b) => (Some(Spanned { node: StmtV::Loop(Box::new(b)), span: toks[p].span }), q2, al2, k),
        }
    }
}

/// `for when condition { ... }` or `for every name in range { ... }` at
/// `p`; anything else after `for` is an error at the token after it.
pub open spec fn pfor(toks: Seq<TokenInfo>, p: int, depth: nat, al: AliasesV) -> StmtResult
    decreases toks.len() - p, 2int,
{
    let q = after(toks, p);
    let q2 = after(toks, q);
    if q <= p || q2 <= q {
        pfail(q2, al)
    } else if kind_at(toks, q) == TokenType::When {
        let (c, q3) = pexpr(toks, q2, depth, 0);
        match c {
            None => pfail(q3, al),
            Some(c) => if q3 <= p || q3 > toks.len() {
                pfail(q3, al)
            } else {
                let (body, q4, al4, k) = pscope(toks, q3, depth, al);
                match body {
                    None => pfail(q4, al4),
                    Some(b) => (Some(Spanned { node: StmtV::WhenLoop(c, Box::new(b)), span: toks[p].span }), q4, al4, k),
                }
            },
        }
    } else if kind_at(toks, q) == TokenType::Every {
        if kind_at(toks, q2) != TokenType::Identifier {
            pfail(q2, al)
        } else {
            let it = ident_at(toks, q2);
            let (oki, q3) = pexpect(toks, after(toks, q2), TokenType::In);
            if !oki {
                pfail(q3, al)
            } else {
                let (range, q4) = pexpr(toks, q3, depth, 0);
                match range {
                    None => pfail(q4, al),
                    Some(range) => if q4 <= p || q4 > toks.len() {
                        pfail(q4, al)
                    } else {
                        let (body, q5, al5, k) = pscope(toks, q4, depth, al);
                        match body {
                            None => pfail(q5, al5),
                            Some(b) => (
                                Some(Spanned { node: StmtV::IndexLoop(it, range, Box::new(b)), span: toks[p].span }),
                                q5,
                                al5,
                                k,
                            ),
                        }
                    },
                }
            }
        }
    } else {
        pfail(q2, al)
    }
}

/// Recovering after a failed statement at `p`: skipping to the next newline
/// or semicolon, then past all of them.
pub open spec fn psync(toks: Seq<TokenInfo>, p: int) -> int
    decreases toks.len() - p,
{
    if 0 <= p < toks.len() - 1 && kind_at(toks, p) != TokenType::EndOfFile && !is_delimiter_type(kind_at(toks, p)) {
        psync(toks, p + 1)
    } else {
        past_delimiters(toks, p)
    }
}

/// What parsing the rest of a program from `p` gives: the statements
/// (`acc` before them), whether no error was recorded (`clean` before), and
/// the aliases after it. A statement that fails is skipped.
pub open spec fn pprogram(
    toks: Seq<TokenInfo>,
    p: int,
    depth: nat,
    al: AliasesV,
    acc: Seq<Spanned<StmtV>>,
    clean: bool,
) -> (Seq<Spanned<StmtV>>, bool, AliasesV)
    decreases toks.len() - p,
{
    if !(0 <= p < toks.len()) || kind_at(toks, p) == TokenType::EndOfFile {
        (acc, clean, al)
    } else {
        let p1 = past_delimiters(toks, p);
        if !(0 <= p1 < toks.len()) || kind_at(toks, p1) == TokenType::EndOfFile {
            (acc, clean, al)
        } else {
            let (st, p2, al2, c) = pstmt(toks, p1, depth, al);
            let (next, acc2, clean2) = match st {
                Some(st) => (p2, acc.push(st), clean && c),
                None => (psync(toks, p2), acc, false),
            };
            if next <= p || next > toks.len() {
                (acc2, clean2, al2)
            } else {
                pprogram(toks, next, depth, al2, acc2, clean2)
            }
        }
    }
}

/// `r` and position `pos` are what `res` says parsing gives.
pub open spec fn gives(r: Option<Expression>, res: (Option<Spanned<ExprV>>, int), pos: int) -> bool {
    &&& pos == res.1
    &&& match r {
        Some(x) => res.0 == Some(expr_view(x)),
        None => res.0 is None,
    }
}

/// `r`, and the parser `after` it, are what `res` says parsing a statement
/// from `before` gives.
pub open spec fn gives_stmt(r: Option<Statement>, res: StmtResult, before: Parser, after: Parser) -> bool {
    &&& after.pos() == res.1
    &&& after.alias_views() == res.2
    &&& (after.errs().len() == before.errs().len()) == res.3
    &&& match r {
        Some(x) => res.0 == Some(stmt_view(x)),
        None => res.0 is None,
    }
}

/// `r` and position `pos` are what `res` says parsing an annotation gives.
pub open spec fn gives_type(r: Option<TypeAnnotation>, res: (Option<AnnV>, int), pos: int) -> bool {
    &&& pos == res.1
    &&& match r {
        Some(x) => res.0 == Some(ann_view(x)),
        None => res.0 is None,
    }
}

/// A Pratt parser over a token list that ends with `EndOfFile`. Errors are
/// collected; after a failed statement it skips to the next one.
pub struct Parser {
    tokens: Vec<TokenInfo>,
    current: usize,
    delimiter_stack: Vec<TokenType>,
    pub type_table: TypeTable,
    pub errors: ErrorCollector,
}

/// From `a` to `b` the parser kept its tokens and delimiter nesting, did
/// not move back, and only added errors.
pub open spec fn steps(a: Parser, b: Parser) -> bool {
    &&& b.wf()
    &&& b.toks() == a.toks()
    &&& a.pos() <= b.pos()
    &&& b.depth() == a.depth()
    &&& b.errs().len() >= a.errs().len()
    &&& forall|i: int| 0 <= i < a.errs().len() ==> #[trigger] b.errs()[i] == a.errs()[i]
}

impl Parser {
    /// The tokens being parsed.
    pub closed spec fn toks(&self) -> Seq<TokenInfo> {
        self.tokens@
    }

    /// The index of the current token.
    pub closed spec fn pos(&self) -> int {
        self.current as int
    }

    /// How many grouping delimiters are open.
    pub closed spec fn depth(&self) -> nat {
        self.delimiter_stack@.len()
    }

    /// The errors recorded so far.
    pub closed spec fn errs(&self) -> Seq<VynError> {
        self.errors.errors@
    }

    /// The type aliases declared so far.
    pub closed spec fn aliases(&self) -> Seq<(String, TypeAnnotation)> {
        self.type_table.aliases@
    }

    /// The type aliases as values.
    pub open spec fn alias_views(&self) -> AliasesV {
        self.aliases().map_values(|e: (String, TypeAnnotation)| (e.0@, ann_view(e.1)))
    }

    /// The kind of token `i`.
    pub open spec fn tt_at(&self, i: int) -> TokenType {
        spec_token_type(self.toks()[i].token)
    }

    /// The kind of the current token.
    pub open spec fn cur(&self) -> TokenType {
        self.tt_at(self.pos())
    }

    /// The position after moving on from the current token (the last
    /// token, `EndOfFile`, is never left).
    pub open spec fn next_pos(&self) -> int {
        if self.pos() < self.toks().len() - 1 {
            self.pos() + 1
        } else {
            self.pos()
        }
    }

    /// The parser's invariant: a nonempty token list ending with
    /// `EndOfFile`, and a current token within it.
    pub closed spec fn wf(&self) -> bool {
        &&& self.tokens@.len() > 0
        &&& self.tokens@.len() < usize::MAX
        &&& self.current < self.tokens@.len()
        &&& spec_token_type(self.tokens@.last().token) == TokenType::EndOfFile
        &&& self.delimiter_stack@.len() <= self.current
    }

    /// A parser at the first of `tokens`.
    pub fn new(tokens: Vec<TokenInfo>) -> (p: Parser)
        requires
            tokens@.len() > 0,
            tokens@.len() < usize::MAX,
            spec_token_type(tokens@.last().token) == TokenType::EndOfFile,
        ensures
            p.wf(),
            p.toks() == tokens@,
            p.pos() == 0,
            p.depth() == 0,
            p.errs().len() == 0,
            p.aliases().len() == 0,
    {
        Parser {
            tokens,
            current: 0,
            delimiter_stack: Vec::new(),
            type_table: TypeTable::new(),
            errors: ErrorCollector::new(),
        }
    }

    /// Moves to the next token, unless at the last one.
    pub(crate) fn advance(&mut self)
        requires
            old(self).wf(),
        ensures
            final(self).wf(),
            final(self).toks() == old(self).toks(),
            final(self).depth() == old(self).depth(),
            final(self).errs() == old(self).errs(),
            final(self).aliases() == old(self).aliases(),
            final(self).pos() == old(self).next_pos(),
    {
        if self.current < self.tokens.len() - 1 {
            self.current = self.current + 1;
        }
    }

    /// The current token.
    pub(crate) fn current_token(&self) -> (t: &TokenInfo)
        requires
            self.wf(),
        ensures
            *t == self.toks()[self.pos()],
    {
        &self.tokens[self.current]
    }

    /// The kind of the current token.
    pub(crate) fn current_token_type(&self) -> (tt: TokenType)
        requires
            self.wf(),
        ensures
            tt == self.cur(),
    {
        self.current_token().token.get_token_type()
    }

    fn current_token_is(&self, token: TokenType) -> (b: bool)
        requires
            self.wf(),
        ensures
            b == (self.cur() == token),
    {
        self.current_token_type() == token
    }

    fn is_at_delimiter(&self) -> (b: bool)
        requires
            self.wf(),
        ensures
            b == is_delimiter_type(self.cur()),
    {
        let tt = self.current_token_type();
        tt == TokenType::Semicolon || tt == TokenType::Newline
    }

    fn is_eof(&self) -> (b: bool)
        requires
            self.wf(),
        ensures
            b == (self.cur() == TokenType::EndOfFile),
    {
        self.current_token_type() == TokenType::EndOfFile
    }

    /// Skips newlines and semicolons.
    fn skip_delimiters(&mut self)
        requires
            old(self).wf(),
        ensures
            steps(*old(self), *final(self)),
            final(self).errs() == old(self).errs(),
            final(self).aliases() == old(self).aliases(),
            !is_delimiter_type(final(self).cur()),
            !is_delimiter_type(old(self).cur()) ==> final(self).pos() == old(self).pos(),
            final(self).pos() == past_delimiters(old(self).toks(), old(self).pos()),
    {
        while self.is_at_delimiter() && !self.is_eof()
            invariant
                steps(*old(self), *self),
                self.errs() == old(self).errs(),
                self.aliases() == old(self).aliases(),
                !is_delimiter_type(old(self).cur()) ==> self.pos() == old(self).pos(),
                past_delimiters(self.toks(), self.pos()) == past_delimiters(old(self).toks(), old(self).pos()),
            decreases self.toks().len() - self.pos(),
        {
            self.advance();
        }
        proof {
            assert(self.toks()[self.toks().len() - 1] == self.toks().last());
        }
    }

    /// Consumes a token of kind `token_type`, or records what was found instead.
    pub(crate) fn expect(&mut self, token_type: TokenType) -> (b: bool)
        requires
            old(self).wf(),
        ensures
            steps(*old(self), *final(self)),
            final(self).aliases() == old(self).aliases(),
            b == (old(self).cur() == token_type),
            b ==> final(self).pos() == old(self).next_pos() && final(self).errs() == old(self).errs(),
            !b ==> final(self).pos() == old(self).pos() && final(self).errs() == old(self).errs().push(
                VynError::ExpectedToken {
                    expected: token_type,
                    got: old(self).cur(),
                    span: old(self).toks()[old(self).pos()].span,
                }),
    {
        let got = self.current_token_type();
        if got != token_type {
            let span = self.current_token().span;
            self.errors.add(VynError::ExpectedToken { expected: token_type, got, span });
            return false;
        }
        self.advance();
        true
    }

    /// Ends a statement: inside grouping delimiters anything goes (newlines
    /// are skipped); outside, the end of input, or one or more newlines or
    /// semicolons, must follow.
    fn expect_delimiter(&mut self) -> (b: bool)
        requires
            old(self).wf(),
        ensures
            final(self).pos() == pdelim(old(self).toks(), old(self).pos(), old(self).depth()).1,
            steps(*old(self), *final(self)),
            final(self).aliases() == old(self).aliases(),
            b == (old(self).depth() > 0 || old(self).cur() == TokenType::EndOfFile
                || is_delimiter_type(old(self).cur())),
            b ==> final(self).errs() == old(self).errs(),
            !b ==> final(self).pos() == old(self).pos() && final(self).errs() == old(self).errs().push(
                VynError::ExpectedToken {
                    expected: TokenType::Semicolon,
                    got: old(self).cur(),
                    span: old(self).toks()[old(self).pos()].span,
                }),
    {
        if self.delimiter_stack.len() > 0 {
            self.skip_delimiters();
            return true;
        }
        let current = self.current_token_type();
        if current == TokenType::EndOfFile {
            true
        } else if current == TokenType::Semicolon || current == TokenType::Newline {
            self.skip_delimiters();
            true
        } else {
            let span = self.current_token().span;
            self.errors.add(VynError::ExpectedToken { expected: TokenType::Semicolon, got: current, span });
            false
        }
    }

    /// Consumes the current token if it has kind `token_type`.
    fn ignore(&mut self, token_type: TokenType)
        requires
            old(self).wf(),
        ensures
            steps(*old(self), *final(self)),
            final(self).errs() == old(self).errs(),
            final(self).pos() == (if old(self).cur() == token_type { old(self).next_pos() } else { old(self).pos() }),
    {
        if self.current_token_type() == token_type {
            self.advance();
        }
    }

    /// Inside grouping delimiters, skips newlines and semicolons.
    fn skip_newlines_in_delimiters(&mut self)
        requires
            old(self).wf(),
        ensures
            steps(*old(self), *final(self)),
            final(self).errs() == old(self).errs(),
            final(self).aliases() == old(self).aliases(),
            old(self).depth() == 0 ==> final(self).pos() == old(self).pos(),
            !is_delimiter_type(old(self).cur()) ==> final(self).pos() == old(self).pos(),
            old(self).depth() > 0 ==> !is_delimiter_type(final(self).cur()),
            final(self).pos() == settle(old(self).toks(), old(self).pos(), old(self).depth()),
    {
        if self.delimiter_stack.len() > 0 {
            self.skip_delimiters();
        }
    }

    /// After an error: skips to the next newline or semicolon, then past all
    /// of them.
    fn synchronize(&mut self)
        requires
            old(self).wf(),
        ensures
            final(self).pos() == psync(old(self).toks(), old(self).pos()),
            steps(*old(self), *final(self)),
            final(self).errs() == old(self).errs(),
            final(self).aliases() == old(self).aliases(),
            old(self).cur() != TokenType::EndOfFile ==> old(self).pos() < final(self).pos(),
    {
        proof {
            assert(self.toks()[self.toks().len() - 1] == self.toks().last());
        }
        while !self.is_eof() && !self.is_at_delimiter()
            invariant
                steps(*old(self), *self),
                self.errs() == old(self).errs(),
                self.aliases() == old(self).aliases(),
                self.toks()[self.toks().len() - 1] == self.toks().last(),
                old(self).cur() != TokenType::EndOfFile && !is_delimiter_type(old(self).cur())
                    && self.pos() == old(self).pos() ==> !is_delimiter_type(self.cur()) && self.cur() != TokenType::EndOfFile,
                psync(self.toks(), self.pos()) == psync(old(self).toks(), old(self).pos()),
            decreases self.toks().len() - self.pos(),
        {
            self.advance();
        }
        let ghost mid = self.pos();
        self.skip_delimiters();
    }

    /// Parses an expression whose operators bind tighter than `precedence`.
    /// It stops before an operator that binds no tighter, or a token that
    /// continues no expression.
    pub fn try_parse_expression(&mut self, precedence: u8) -> (r: Option<Expression>)
        requires
            old(self).wf(),
        ensures
            gives(r, pexpr(old(self).toks(), old(self).pos(), old(self).depth(), precedence), final(self).pos()),
            steps(*old(self), *final(self)),
            r is None ==> final(self).errs().len() > old(self).errs().len(),
            r is Some ==> final(self).errs() == old(self).errs(),
            r is Some ==> final(self).pos() > old(self).pos(),
            final(self).aliases() == old(self).aliases(),
            r is Some ==> final(self).cur() == TokenType::EndOfFile
                || precedence >= binding_level(final(self).cur())
                || !continues_expression(final(self).cur()),
            !is_delimiter_type(old(self).cur()) && !starts_expression(old(self).cur()) ==> r is None
                && final(self).pos() == old(self).pos() && final(self).errs() == old(self).errs().push(
                VynError::UnexpectedToken { token: old(self).cur(), span: old(self).toks()[old(self).pos()].span }),
        decreases old(self).toks().len() - old(self).pos(), 2int,
    {
        self.skip_newlines_in_delimiters();
        let token_type = self.current_token_type();
        proof {
            if !is_delimiter_type(old(self).cur()) {
                assert(token_type == old(self).cur());
            }
        }
        let prefix = match token_type {
            TokenType::Integer => self.parse_integer_literal(),
            TokenType::Float => self.parse_float_literal(),
            TokenType::False | TokenType::True => self.parse_bool_literal(),
            TokenType::Identifier => self.parse_identifier_literal(),
            TokenType::String => self.parse_string_literal(),
            TokenType::Nil => self.parse_nil_literal(),
            TokenType::LeftBracket => self.parse_array_literal(),
            TokenType::Minus | TokenType::Not => self.parse_unary_expr(),
            TokenType::LeftParenthesis => self.parse_grouping_expr(),
            _ => {
                let span = self.current_token().span;
                self.errors.add(VynError::UnexpectedToken { token: token_type, span });
                return None;
            },
        };
        let mut left = match prefix {
            Some(e) => e,
            None => return None,
        };
        let ghost whole = pexpr(old(self).toks(), old(self).pos(), old(self).depth(), precedence);
        loop
            invariant_except_break
                whole == ploop(self.toks(), self.pos(), self.depth(), precedence, expr_view(left)),
            invariant
                steps(*old(self), *self),
                self.aliases() == old(self).aliases(),
                self.errs() == old(self).errs(),
                self.pos() > old(self).pos(),
                !is_delimiter_type(old(self).cur()) ==> starts_expression(old(self).cur()),
                whole == pexpr(old(self).toks(), old(self).pos(), old(self).depth(), precedence),
            ensures
                self.cur() == TokenType::EndOfFile || precedence >= binding_level(self.cur())
                    || !continues_expression(self.cur()),
                whole == (Some(expr_view(left)), self.pos()),
            decreases self.toks().len() - self.pos(),
        {
            if self.is_eof() {
                break;
            }
            let ghost p0 = self.pos();
            let ghost left0 = expr_view(left);
            self.skip_newlines_in_delimiters();
            let ghost p1 = self.pos();
            let token_type = self.current_token_type();
            let next_level = match Precedence::get_token_precedence(&token_type) {
                Some(p) => p.level(),
                None => 0,
            };
            if precedence >= next_level {
                break;
            }
            let next = match token_type {
                TokenType::Plus | TokenType::Minus | TokenType::Asterisk | TokenType::Slash
                | TokenType::LessThan | TokenType::LessThanEqual | TokenType::GreaterThan
                | TokenType::GreaterThanEqual | TokenType::Equal | TokenType::NotEqual => self.parse_binary_expr(left),
                TokenType::Caret => self.parse_exponent_expr(left),
                TokenType::Assign => self.parse_assignment_expr(left),
                TokenType::BoxColon => self.parse_index_expr(left),
                _ => break,
            };
            proof {
                let t = kind_at(self.toks(), p1);
                assert(settle(self.toks(), p0, self.depth()) == p1);
                assert(t == token_type);
                assert(!(precedence >= binding_level(t)));
                assert(continues_expression(t));
                assert(pinfix(self.toks(), p1, self.depth(), left0) == poperand(
                    self.toks(),
                    p1,
                    self.depth(),
                    left0,
                    if t == TokenType::Caret { 9 } else if t == TokenType::Assign { 0 } else if t == TokenType::BoxColon { 11 } else { binding_level(t) },
                    if t == TokenType::Assign { 1 } else if t == TokenType::BoxColon { 2 } else { 0 },
                ));
                assert(ploop(self.toks(), p0, self.depth(), precedence, left0) == (match pinfix(self.toks(), p1, self.depth(), left0).0 {
                    None => (None, pinfix(self.toks(), p1, self.depth(), left0).1),
                    Some(e) => if pinfix(self.toks(), p1, self.depth(), left0).1 <= p0 || pinfix(self.toks(), p1, self.depth(), left0).1 > self.toks().len() {
                        (None, pinfix(self.toks(), p1, self.depth(), left0).1)
                    } else {
                        ploop(self.toks(), pinfix(self.toks(), p1, self.depth(), left0).1, self.depth(), precedence, e)
                    },
                }));
            }
            left = match next {
                Some(e) => e,
                None => return None,
            };
        }
        Some(left)
    }

    /// An integer literal.
    pub fn parse_integer_literal(&mut self) -> (r: Option<Expression>)
        requires
            old(self).wf(),
            old(self).cur() == TokenType::Integer,
        ensures
            gives(r, pprefix(old(self).toks(), old(self).pos(), old(self).depth()), final(self).pos()),
            steps(*old(self), *final(self)),
            final(self).errs() == old(self).errs(),
            final(self).aliases() == old(self).aliases(),
            final(self).pos() == old(self).pos() + 1,
            r matches Some(e) && old(self).toks()[old(self).pos()].token == Token::Integer(e.node->IntegerLiteral_0)
                && e.node is IntegerLiteral && e.span == old(self).toks()[old(self).pos()].span,
    {
        let info = self.current_token();
        let value = match &info.token {
            Token::Integer(n) => *n,
            _ => 0,
        };
        let expr = Expr::IntegerLiteral(value).spanned(info.span);
        self.advance();
        Some(expr)
    }

    /// A float literal.
    pub fn parse_float_literal(&mut self) -> (r: Option<Expression>)
        requires
            old(self).wf(),
            old(self).cur() == TokenType::Float,
        ensures
            gives(r, pprefix(old(self).toks(), old(self).pos(), old(self).depth()), final(self).pos()),
            steps(*old(self), *final(self)),
            final(self).errs() == old(self).errs(),
            final(self).aliases() == old(self).aliases(),
            final(self).pos() == old(self).pos() + 1,
            r matches Some(e) && e.node is FloatLiteral && old(self).toks()[old(self).pos()].token
                == Token::Float(e.node->FloatLiteral_0) && e.span == old(self).toks()[old(self).pos()].span,
    {
        let info = self.current_token();
        let value = match &info.token {
            Token::Float(n) => n.clone(),
            _ => String::new(),
        };
        let expr = Expr::FloatLiteral(value).spanned(info.span);
        self.advance();
        Some(expr)
    }

    /// `true` or `false`.
    pub fn parse_bool_literal(&mut self) -> (r: Option<Expression>)
        requires
            old(self).wf(),
            old(self).cur() == TokenType::True || old(self).cur() == TokenType::False,
        ensures
            gives(r, pprefix(old(self).toks(), old(self).pos(), old(self).depth()), final(self).pos()),
            steps(*old(self), *final(self)),
            final(self).errs() == old(self).errs(),
            final(self).aliases() == old(self).aliases(),
            final(self).pos() == old(self).pos() + 1,
            r matches Some(e) && e.node == Expr::BooleanLiteral(old(self).cur() == TokenType::True)
                && e.span == old(self).toks()[old(self).pos()].span,
    {
        let info = self.current_token();
        let value = info.token.get_token_type() == TokenType::True;
        let expr = Expr::BooleanLiteral(value).spanned(info.span);
        self.advance();
        Some(expr)
    }

    /// An identifier; any other token is recorded as an error.
    pub fn parse_identifier_literal(&mut self) -> (r: Option<Expression>)
        requires
            old(self).wf(),
        ensures
            old(self).cur() == TokenType::Identifier ==> gives(r, pprefix(old(self).toks(), old(self).pos(), old(self).depth()), final(self).pos()),
            steps(*old(self), *final(self)),
            final(self).aliases() == old(self).aliases(),
            old(self).cur() == TokenType::Identifier ==> {
                &&& final(self).errs() == old(self).errs()
                &&& final(self).pos() == old(self).pos() + 1
                &&& r matches Some(e) && e.node is Identifier && old(self).toks()[old(self).pos()].token
                    == Token::Identifier(e.node->Identifier_0) && e.span == old(self).toks()[old(self).pos()].span
            },
            old(self).cur() != TokenType::Identifier ==> r is None && final(self).pos() == old(self).pos()
                && final(self).errs() == old(self).errs().push(VynError::ExpectedToken {
                    expected: TokenType::Identifier,
                    got: old(self).cur(),
                    span: old(self).toks()[old(self).pos()].span,
                }),
    {
        let info = self.current_token();
        match &info.token {
            Token::Identifier(name) => {
                let expr = Expr::Identifier(name.clone()).spanned(info.span);
                self.advance();
                Some(expr)
            },
            _ => {
                let got = info.token.get_token_type();
                let span = info.span;
                self.errors.add(VynError::ExpectedToken { expected: TokenType::Identifier, got, span });
                None
            },
        }
    }

    /// A string literal.
    pub fn parse_string_literal(&mut self) -> (r: Option<Expression>)
        requires
            old(self).wf(),
            old(self).cur() == TokenType::String,
        ensures
            gives(r, pprefix(old(self).toks(), old(self).pos(), old(self).depth()), final(self).pos()),
            steps(*old(self), *final(self)),
            final(self).errs() == old(self).errs(),
            final(self).aliases() == old(self).aliases(),
            final(self).pos() == old(self).pos() + 1,
            r matches Some(e) && e.node is StringLiteral && old(self).toks()[old(self).pos()].token
                == Token::String(e.node->StringLiteral_0) && e.span == old(self).toks()[old(self).pos()].span,
    {
        let info = self.current_token();
        let value = match &info.token {
            Token::String(v) => v.clone(),
            _ => String::new(),
        };
        let expr = Expr::StringLiteral(value).spanned(info.span);
        self.advance();
        Some(expr)
    }

    /// `nil`.
    pub fn parse_nil_literal(&mut self) -> (r: Option<Expression>)
        requires
            old(self).wf(),
            old(self).cur() == TokenType::Nil,
        ensures
            gives(r, pprefix(old(self).toks(), old(self).pos(), old(self).depth()), final(self).pos()),
            steps(*old(self), *final(self)),
            final(self).errs() == old(self).errs(),
            final(self).aliases() == old(self).aliases(),
            final(self).pos() == old(self).pos() + 1,
            r matches Some(e) && e.node == Expr::NilLiteral && e.span == old(self).toks()[old(self).pos()].span,
    {
        let span = self.current_token().span;
        let expr = Expr::NilLiteral.spanned(span);
        self.advance();
        Some(expr)
    }

    /// `[e1, e2, ...]`; the commas are optional.
    pub fn parse_array_literal(&mut self) -> (r: Option<Expression>)
        requires
            old(self).wf(),
            old(self).cur() == TokenType::LeftBracket,
        ensures
            gives(r, pprefix(old(self).toks(), old(self).pos(), old(self).depth()), final(self).pos()),
            steps(*old(self), *final(self)),
            r is None ==> final(self).errs().len() > old(self).errs().len(),
            r is Some ==> final(self).errs() == old(self).errs(),
            r is Some ==> final(self).pos() > old(self).pos(),
            final(self).aliases() == old(self).aliases(),
            r matches Some(e) ==> e.node is ArrayLiteral,
        decreases old(self).toks().len() - old(self).pos(), 1int,
    {
        let lb = self.current_token().span;
        self.advance();
        let mut elements: Vec<Box<Expression>> = Vec::new();
        let ghost whole = pprefix(old(self).toks(), old(self).pos(), old(self).depth());
        while self.current_token_type() != TokenType::RightBracket
            invariant
                steps(*old(self), *self),
                self.aliases() == old(self).aliases(),
                self.errs() == old(self).errs(),
                self.pos() > old(self).pos(),
                lb == old(self).toks()[old(self).pos()].span,
                whole == pprefix(old(self).toks(), old(self).pos(), old(self).depth()),
                whole == parray(self.toks(), self.pos(), self.depth(), lb, elements_view(elements@, elements@.len() as int)),
            decreases self.toks().len() - self.pos(),
        {
            let ghost before = elements@;
            let ghost p0 = self.pos();
            let e = match self.try_parse_expression(0) {
                Some(e) => e,
                None => return None,
            };
            elements.push(Box::new(e));
            proof {
                assert(elements@.subrange(0, before.len() as int) =~= before);
                assert(before.subrange(0, before.len() as int) =~= before);
                lemma_elements_view_prefix(elements@, before, before.len() as int);
                assert(elements@[before.len() as int] == Box::new(e));
                assert(elements_view(elements@, elements@.len() as int) == elements_view(before, before.len() as int).push(expr_view(e)));
            }
            if self.current_token_type() == TokenType::Comma {
                self.advance();
                self.skip_newlines_in_delimiters();
            }
        }
        let rb = self.current_token().span;
        self.advance();
        let full_span = Span { line: lb.line, start_column: lb.start_column, end_column: rb.end_column };
        Some(Expr::ArrayLiteral { elements }.spanned(full_span))
    }

    /// `-e` or `not e`.
    pub fn parse_unary_expr(&mut self) -> (r: Option<Expression>)
        requires
            old(self).wf(),
            old(self).cur() == TokenType::Minus || old(self).cur() == TokenType::Not,
        ensures
            gives(r, pprefix(old(self).toks(), old(self).pos(), old(self).depth()), final(self).pos()),
            steps(*old(self), *final(self)),
            r is None ==> final(self).errs().len() > old(self).errs().len(),
            r is Some ==> final(self).errs() == old(self).errs(),
            r is Some ==> final(self).pos() > old(self).pos(),
            final(self).aliases() == old(self).aliases(),
            r matches Some(e) ==> e.node is Unary && e.node->Unary_operator == old(self).toks()[old(self).pos()].token,
        decreases old(self).toks().len() - old(self).pos(), 1int,
    {
        let operator = self.current_token().token.copy();
        let op_span = self.current_token().span;
        self.advance();
        let value = match self.try_parse_expression(9) {
            Some(v) => v,
            None => return None,
        };
        let val_span = value.span;
        let expr = Expr::Unary { operator, right: Box::new(value) }.spanned(
            Span { line: op_span.line, start_column: op_span.start_column, end_column: val_span.end_column },
        );
        Some(expr)
    }

    /// `( e )`; inside, newlines are skipped.
    pub fn parse_grouping_expr(&mut self) -> (r: Option<Expression>)
        requires
            old(self).wf(),
            old(self).cur() == TokenType::LeftParenthesis,
        ensures
            gives(r, pprefix(old(self).toks(), old(self).pos(), old(self).depth()), final(self).pos()),
            steps(*old(self), *final(self)),
            r is None ==> final(self).errs().len() > old(self).errs().len(),
            r is Some ==> final(self).errs() == old(self).errs(),
            r is Some ==> final(self).pos() > old(self).pos(),
            final(self).aliases() == old(self).aliases(),
        decreases old(self).toks().len() - old(self).pos(), 1int,
    {
        let left_paren_span = self.current_token().span;
        self.advance();
        self.delimiter_stack.push(TokenType::LeftParenthesis);
        self.skip_newlines_in_delimiters();
        let expr = match self.try_parse_expression(0) {
            Some(e) => e,
            None => {
                self.delimiter_stack.pop();
                return None;
            },
        };
        self.skip_newlines_in_delimiters();
        self.delimiter_stack.pop();
        if !self.expect(TokenType::RightParenthesis) {
            return None;
        }
        let right_paren_span = self.tokens[self.current - 1].span;
        Some(Spanned {
            node: expr.node,
            span: Span {
                line: left_paren_span.line,
                start_column: left_paren_span.start_column,
                end_column: right_paren_span.end_column,
            },
        })
    }

    /// `left op right` for the arithmetic, comparison and equality operators.
    pub fn parse_binary_expr(&mut self, left: Expression) -> (r: Option<Expression>)
        requires
            old(self).wf(),
            continues_expression(old(self).cur()),
        ensures
            gives(r, poperand(old(self).toks(), old(self).pos(), old(self).depth(), expr_view(left), binding_level(old(self).cur()), 0), final(self).pos()),
            steps(*old(self), *final(self)),
            r is None ==> final(self).errs().len() > old(self).errs().len(),
            r is Some ==> final(self).errs() == old(self).errs(),
            r is Some ==> final(self).pos() > old(self).pos(),
            final(self).aliases() == old(self).aliases(),
            r matches Some(e) ==> e.node is BinaryOperation && *e.node->BinaryOperation_left == left
                && e.node->BinaryOperation_operator == old(self).toks()[old(self).pos()].token,
        decreases old(self).toks().len() - old(self).pos(), 1int,
    {
        let operator = self.current_token().token.copy();
        let level = match Precedence::get_token_precedence(&operator.get_token_type()) {
            Some(p) => p.level(),
            None => 0,
        };
        self.advance();
        let right = match self.try_parse_expression(level) {
            Some(e) => e,
            None => return None,
        };
        let full_span = Span { line: left.span.line, start_column: left.span.start_column, end_column: right.span.end_column };
        Some(Expr::BinaryOperation { left: Box::new(left), operator, right: Box::new(right) }.spanned(full_span))
    }

    /// `left ^ right`, grouping to the right.
    pub fn parse_exponent_expr(&mut self, left: Expression) -> (r: Option<Expression>)
        requires
            old(self).wf(),
            old(self).cur() == TokenType::Caret,
        ensures
            gives(r, poperand(old(self).toks(), old(self).pos(), old(self).depth(), expr_view(left), 9, 0), final(self).pos()),
            steps(*old(self), *final(self)),
            r is None ==> final(self).errs().len() > old(self).errs().len(),
            r is Some ==> final(self).errs() == old(self).errs(),
            r is Some ==> final(self).pos() > old(self).pos(),
            final(self).aliases() == old(self).aliases(),
            r matches Some(e) ==> e.node is BinaryOperation && *e.node->BinaryOperation_left == left
                && e.node->BinaryOperation_operator == old(self).toks()[old(self).pos()].token,
        decreases old(self).toks().len() - old(self).pos(), 1int,
    {
        let operator = self.current_token().token.copy();
        self.advance();
        let right = match self.try_parse_expression(9) {
            Some(e) => e,
            None => return None,
        };
        let full_span = Span { line: left.span.line, start_column: left.span.start_column, end_column: right.span.end_column };
        Some(Expr::BinaryOperation { left: Box::new(left), operator, right: Box::new(right) }.spanned(full_span))
    }

    /// `target = value`: an index target gives an index assignment, any other
    /// a variable assignment. Groups to the right.
    pub fn parse_assignment_expr(&mut self, left: Expression) -> (r: Option<Expression>)
        requires
            old(self).wf(),
            old(self).cur() == TokenType::Assign,
        ensures
            gives(r, poperand(old(self).toks(), old(self).pos(), old(self).depth(), expr_view(left), 0, 1), final(self).pos()),
            steps(*old(self), *final(self)),
            r is None ==> final(self).errs().len() > old(self).errs().len(),
            r is Some ==> final(self).errs() == old(self).errs(),
            r is Some ==> final(self).pos() > old(self).pos(),
            final(self).aliases() == old(self).aliases(),
            r matches Some(e) ==> (if left.node is Index { e.node is IndexAssignment } else {
                e.node is VariableAssignment && *e.node->VariableAssignment_identifier == left
            }),
        decreases old(self).toks().len() - old(self).pos(), 1int,
    {
        let op_span = self.current_token().span;
        self.advance();
        let right = match self.try_parse_expression(0) {
            Some(e) => e,
            None => return None,
        };
        let full_span = Span { line: op_span.line, start_column: left.span.start_column, end_column: right.span.end_column };
        match left.node {
            Expr::Index { target, property } => Some(
                Expr::IndexAssignment { target, property, new_value: Box::new(right) }.spanned(full_span),
            ),
            other => Some(
                Expr::VariableAssignment {
                    identifier: Box::new(Spanned { node: other, span: left.span }),
                    new_value: Box::new(right),
                }.spanned(full_span),
            ),
        }
    }

    /// `target :: property`.
    pub fn parse_index_expr(&mut self, left: Expression) -> (r: Option<Expression>)
        requires
            old(self).wf(),
            old(self).cur() == TokenType::BoxColon,
        ensures
            gives(r, poperand(old(self).toks(), old(self).pos(), old(self).depth(), expr_view(left), 11, 2), final(self).pos()),
            steps(*old(self), *final(self)),
            r is None ==> final(self).errs().len() > old(self).errs().len(),
            r is Some ==> final(self).errs() == old(self).errs(),
            r is Some ==> final(self).pos() > old(self).pos(),
            final(self).aliases() == old(self).aliases(),
            r matches Some(e) ==> e.node is Index && *e.node->Index_target == left,
        decreases old(self).toks().len() - old(self).pos(), 1int,
    {
        let bc_span = self.current_token().span;
        self.advance();
        let right = match self.try_parse_expression(11) {
            Some(e) => e,
            None => return None,
        };
        let full_span = Span { line: bc_span.line, start_column: left.span.start_column, end_column: right.span.end_column };
        Some(Expr::Index { target: Box::new(left), property: Box::new(right) }.spanned(full_span))
    }

    /// A statement: one that starts with its own keyword, or an expression
    /// followed by a statement end.
    fn try_parse_statement(&mut self) -> (r: Option<Statement>)
        requires
            old(self).wf(),
        ensures
            gives_stmt(r, pstmt(old(self).toks(), old(self).pos(), old(self).depth(), old(self).alias_views()), *old(self), *final(self)),
            steps(*old(self), *final(self)),
            r is None ==> final(self).errs().len() > old(self).errs().len(),
            r is Some ==> final(self).pos() > old(self).pos(),
        decreases old(self).toks().len() - old(self).pos(), 5int,
    {
        let stmt_type = self.current_token_type();
        match stmt_type {
            TokenType::Let => return self.parse_variable_decl(),
            TokenType::Static => return self.parse_static_variable_decl(),
            TokenType::Type => return self.parse_type_alias_decl(),
            TokenType::Stdout => return self.parse_stdout_log_decl(),
            TokenType::If => return self.parse_if_stmt_decl(),
            TokenType::Loop => return self.parse_loop_stmt_decl(),
            TokenType::Break | TokenType::Continue => return self.parse_loop_interrupt_stmt(),
            TokenType::For => return self.parse_for_loop_stmt(),
            _ => {},
        }
        let start = self.current_token().span;
        let expression = match self.try_parse_expression(0) {
            Some(e) => e,
            None => return None,
        };
        if !self.expect_delimiter() {
            return None;
        }
        Some(Stmt::Expression { expression }.spanned(start))
    }

    /// `let [@]name: Type [= value]`; `@` makes the variable mutable.
    pub fn parse_variable_decl(&mut self) -> (r: Option<Statement>)
        requires
            old(self).wf(),
            old(self).cur() == TokenType::Let,
        ensures
            gives_stmt(r, pvar(old(self).toks(), old(self).pos(), old(self).depth(), old(self).alias_views()), *old(self), *final(self)),
            steps(*old(self), *final(self)),
            r is None ==> final(self).errs().len() > old(self).errs().len(),
            r is Some ==> final(self).pos() > old(self).pos(),
            r matches Some(st) ==> st.node is VariableDeclaration,
            r matches Some(st) ==> st.node->VariableDeclaration_value is None,
            r matches Some(st) ==> ({
                let p = old(self).pos();
                let m = old(self).tt_at(p + 1) == TokenType::At;
                let at = if m { p + 2 } else { p + 1 };
                &&& st.node->VariableDeclaration_mutable == m
                &&& st.node->VariableDeclaration_identifier.node is Identifier
                &&& old(self).toks()[at].token == Token::Identifier(
                    st.node->VariableDeclaration_identifier.node->Identifier_0,
                )
            }),
        decreases old(self).toks().len() - old(self).pos(), 4int,
    {
        let let_span = self.current_token().span;
        self.advance();
        let mut mutable = false;
        if self.current_token_is(TokenType::At) {
            self.advance();
            mutable = true;
        }
        if self.current_token_type() != TokenType::Identifier {
            let got = self.current_token_type();
            let span = self.current_token().span;
            self.errors.add(VynError::ExpectedToken { expected: TokenType::Identifier, got, span });
            return None;
        }
        let identifier = match self.parse_identifier_literal() {
            Some(e) => e,
            None => return None,
        };
        if !self.expect(TokenType::Colon) {
            return None;
        }
        let annotated_type = match self.try_parse_type() {
            Some(t) => t,
            None => return None,
        };
        let mut full_span = Span {
            line: let_span.line,
            start_column: let_span.start_column,
            end_column: self.current_token().span.end_column,
        };
        if self.current_token_type() != TokenType::Assign {
            if self.current_token_type().is_delimiter() {
                return Some(Stmt::VariableDeclaration { identifier, value: None, annotated_type, mutable }.spanned(full_span));
            }
            let got = self.current_token_type();
            self.errors.add(VynError::ExpectedToken { expected: TokenType::Assign, got, span: full_span });
            return None;
        }
        let value = match self.try_parse_expression(0) {
            Some(e) => e,
            None => return None,
        };
        if !self.expect_delimiter() {
            return None;
        }
        full_span.end_column = value.span.end_column;
        Some(Stmt::VariableDeclaration { identifier, value: Some(value), annotated_type, mutable }.spanned(full_span))
    }

    /// `static name: Type = value`.
    pub fn parse_static_variable_decl(&mut self) -> (r: Option<Statement>)
        requires
            old(self).wf(),
            old(self).cur() == TokenType::Static,
        ensures
            gives_stmt(r, pstatic(old(self).toks(), old(self).pos(), old(self).depth(), old(self).alias_views()), *old(self), *final(self)),
            steps(*old(self), *final(self)),
            r is None ==> final(self).errs().len() > old(self).errs().len(),
            r is Some ==> final(self).pos() > old(self).pos(),
            r matches Some(st) ==> st.node is StaticVariableDeclaration,
            r matches Some(st) ==> st.node->StaticVariableDeclaration_identifier.node is Identifier
                && old(self).toks()[old(self).pos() + 1].token == Token::Identifier(
                st.node->StaticVariableDeclaration_identifier.node->Identifier_0,
            ),
        decreases old(self).toks().len() - old(self).pos(), 4int,
    {
        let static_span = self.current_token().span;
        self.advance();
        if self.current_token_type() != TokenType::Identifier {
            let got = self.current_token_type();
            let span = self.current_token().span;
            self.errors.add(VynError::ExpectedToken { expected: TokenType::Identifier, got, span });
            return None;
        }
        let identifier = match self.parse_identifier_literal() {
            Some(e) => e,
            None => return None,
        };
        if !self.expect(TokenType::Colon) {
            return None;
        }
        let annotated_type = match self.try_parse_type() {
            Some(t) => t,
            None => return None,
        };
        if !self.expect(TokenType::Assign) {
            return None;
        }
        let value = match self.try_parse_expression(0) {
            Some(e) => e,
            None => return None,
        };
        if !self.expect_delimiter() {
            return None;
        }
        let full_span = Span { line: static_span.line, start_column: static_span.start_column, end_column: value.span.end_column };
        Some(Stmt::StaticVariableDeclaration { identifier, value, annotated_type }.spanned(full_span))
    }

    /// `type Name = Type`; the alias is recorded for later annotations.
    pub fn parse_type_alias_decl(&mut self) -> (r: Option<Statement>)
        requires
            old(self).wf(),
            old(self).cur() == TokenType::Type,
        ensures
            gives_stmt(r, palias(old(self).toks(), old(self).pos(), old(self).depth(), old(self).alias_views()), *old(self), *final(self)),
            steps(*old(self), *final(self)),
            r is None ==> final(self).errs().len() > old(self).errs().len(),
            r is Some ==> final(self).pos() > old(self).pos(),
            r matches Some(st) ==> st.node is TypeAliasDeclaration && st.node->TypeAliasDeclaration_identifier.node is Identifier
                && old(self).toks()[old(self).pos() + 1].token == Token::Identifier(
                st.node->TypeAliasDeclaration_identifier.node->Identifier_0,
            ) && exists|i: int|
                0 <= i < final(self).aliases().len() && (#[trigger] final(self).aliases()[i]).0@
                    == st.node->TypeAliasDeclaration_identifier.node->Identifier_0@ && annotation_shape(
                    final(self).aliases()[i].1,
                ) == annotation_shape(st.node->TypeAliasDeclaration_value),
        decreases old(self).toks().len() - old(self).pos(), 4int,
    {
        self.advance();
        if self.current_token_type() != TokenType::Identifier {
            let got = self.current_token_type();
            let span = self.current_token().span;
            self.errors.add(VynError::ExpectedToken { expected: TokenType::Identifier, got, span });
            return None;
        }
        let identifier = match self.parse_identifier_literal() {
            Some(e) => e,
            None => return None,
        };
        if !self.expect(TokenType::Assign) {
            return None;
        }
        let value = match self.try_parse_type() {
            Some(t) => t,
            None => return None,
        };
        if !self.expect_delimiter() {
            return None;
        }
        let ident_span = identifier.span;
        let name = match &identifier.node {
            Expr::Identifier(n) => n.clone(),
            _ => String::new(),
        };
        self.enroll_type_alias(Expr::Identifier(name).spanned(ident_span), value.copy());
        Some(Stmt::TypeAliasDeclaration { identifier, value }.spanned(ident_span))
    }

    /// `stdout# value`.
    pub fn parse_stdout_log_decl(&mut self) -> (r: Option<Statement>)
        requires
            old(self).wf(),
            old(self).cur() == TokenType::Stdout,
        ensures
            gives_stmt(r, pstdout(old(self).toks(), old(self).pos(), old(self).depth(), old(self).alias_views()), *old(self), *final(self)),
            steps(*old(self), *final(self)),
            r is None ==> final(self).errs().len() > old(self).errs().len(),
            r is Some ==> final(self).pos() > old(self).pos(),
            r matches Some(st) ==> st.node is StdoutLog,
        decreases old(self).toks().len() - old(self).pos(), 4int,
    {
        let stdout_span = self.current_token().span;
        self.advance();
        if !self.expect(TokenType::Hashtag) {
            return None;
        }
        let log_value = match self.try_parse_expression(0) {
            Some(e) => e,
            None => return None,
        };
        if !self.expect_delimiter() {
            return None;
        }
        let full_span = Span { line: stdout_span.line, start_column: stdout_span.start_column, end_column: log_value.span.end_column };
        Some(Stmt::StdoutLog { log_value }.spanned(full_span))
    }

    /// `{ statements }` as a block.
    fn parse_block_stmt(&mut self) -> (r: Option<Statement>)
        requires
            old(self).wf(),
        ensures
            steps(*old(self), *final(self)),
            r is None ==> final(self).errs().len() > old(self).errs().len(),
            r is Some ==> final(self).pos() > old(self).pos(),
            r matches Some(st) ==> st.node is Block,
        decreases old(self).toks().len() - old(self).pos(), 3int,
    {
        let lb_span = self.current_token().span;
        if !self.expect(TokenType::LeftBrace) {
            return None;
        }
        self.skip_delimiters();
        let mut statements: Vec<Statement> = Vec::new();
        while self.current_token_type() != TokenType::RightBrace
            invariant
                steps(*old(self), *self),
                self.pos() > old(self).pos(),
            decreases self.toks().len() - self.pos(),
        {
            self.skip_delimiters();
            if self.current_token_type() == TokenType::RightBrace {
                break;
            }
            match self.try_parse_statement() {
                Some(st) => statements.push(st),
                None => return None,
            }
        }
        if !self.expect(TokenType::RightBrace) {
            return None;
        }
        Some(Stmt::Block { statements }.spanned(lb_span))
    }

    /// `{ statements }` as a scope of its own.
    fn parse_scope_stmt(&mut self) -> (r: Option<Statement>)
        requires
            old(self).wf(),
        ensures
            gives_stmt(r, pscope(old(self).toks(), old(self).pos(), old(self).depth(), old(self).alias_views()), *old(self), *final(self)),
            steps(*old(self), *final(self)),
            r is None ==> final(self).errs().len() > old(self).errs().len(),
            r is Some ==> final(self).pos() > old(self).pos(),
            r matches Some(st) ==> st.node is Scope,
        decreases old(self).toks().len() - old(self).pos(), 3int,
    {
        let lb_span = self.current_token().span;
        if !self.expect(TokenType::LeftBrace) {
            return None;
        }
        self.skip_delimiters();
        let mut statements: Vec<Statement> = Vec::new();
        let ghost whole = pscope(old(self).toks(), old(self).pos(), old(self).depth(), old(self).alias_views());
        while self.current_token_type() != TokenType::RightBrace
            invariant
                steps(*old(self), *self),
                self.pos() > old(self).pos(),
                lb_span == old(self).toks()[old(self).pos()].span,
                whole == pscope(old(self).toks(), old(self).pos(), old(self).depth(), old(self).alias_views()),
                whole == pscope_rest(
                    self.toks(),
                    self.pos(),
                    self.depth(),
                    self.alias_views(),
                    lb_span,
                    statements_view(statements@, statements@.len() as int),
                    self.errs().len() == old(self).errs().len(),
                ),
            ensures
                self.cur() == TokenType::RightBrace,
                steps(*old(self), *self),
                self.pos() > old(self).pos(),
                whole == pscope_rest(
                    self.toks(),
                    self.pos(),
                    self.depth(),
                    self.alias_views(),
                    lb_span,
                    statements_view(statements@, statements@.len() as int),
                    self.errs().len() == old(self).errs().len(),
                ),
            decreases self.toks().len() - self.pos(),
        {
            self.skip_delimiters();
            if self.current_token_type() == TokenType::RightBrace {
                break;
            }
            let ghost before = statements@;
            match self.try_parse_statement() {
                Some(st) => {
                    statements.push(st);
                    proof {
                        assert(statements@.subrange(0, before.len() as int) =~= before);
                        assert(before.subrange(0, before.len() as int) =~= before);
                        lemma_statements_view_prefix(statements@, before, before.len() as int);
                    }
                },
                None => return None,
            }
        }
        if !self.expect(TokenType::RightBrace) {
            return None;
        }
        Some(Stmt::Scope { statements }.spanned(lb_span))
    }

    /// `if condition { ... } [else { ... }]`. A malformed `else` scope is
    /// reported and left out.
    pub fn parse_if_stmt_decl(&mut self) -> (r: Option<Statement>)
        requires
            old(self).wf(),
            old(self).cur() == TokenType::If,
        ensures
            gives_stmt(r, pif(old(self).toks(), old(self).pos(), old(self).depth(), old(self).alias_views()), *old(self), *final(self)),
            steps(*old(self), *final(self)),
            r is None ==> final(self).errs().len() > old(self).errs().len(),
            r is Some ==> final(self).pos() > old(self).pos(),
            r matches Some(st) ==> st.node is IfDeclaration && st.node->IfDeclaration_consequence.node is Scope
                && (match *st.node->IfDeclaration_alternate {
                Some(a) => a.node is Scope,
                None => true,
            }) && st.span == old(self).toks()[old(self).pos()].span,
        decreases old(self).toks().len() - old(self).pos(), 4int,
    {
        let if_span = self.current_token().span;
        self.advance();
        let condition = match self.try_parse_expression(0) {
            Some(e) => e,
            None => return None,
        };
        let consequence = match self.parse_scope_stmt() {
            Some(st) => st,
            None => return None,
        };
        let mut alternate: Option<Statement> = None;
        if self.current_token_type() == TokenType::Else {
            self.advance();
            alternate = self.parse_scope_stmt();
        }
        Some(Stmt::IfDeclaration { condition, consequence: Box::new(consequence), alternate: Box::new(alternate) }.spanned(if_span))
    }

    /// `loop { ... }`.
    pub fn parse_loop_stmt_decl(&mut self) -> (r: Option<Statement>)
        requires
            old(self).wf(),
            old(self).cur() == TokenType::Loop,
        ensures
            gives_stmt(r, ploop_stmt(old(self).toks(), old(self).pos(), old(self).depth(), old(self).alias_views()), *old(self), *final(self)),
            steps(*old(self), *final(self)),
            r is None ==> final(self).errs().len() > old(self).errs().len(),
            r is Some ==> final(self).pos() > old(self).pos(),
            r matches Some(st) ==> st.node is Loop && st.node->Loop_body.node is Scope && st.span == old(self).toks()[old(
                self,
            ).pos()].span,
        decreases old(self).toks().len() - old(self).pos(), 4int,
    {
        let loop_span = self.current_token().span;
        self.advance();
        let body = match self.parse_scope_stmt() {
            Some(st) => st,
            None => return None,
        };
        Some(Stmt::Loop { body: Box::new(body) }.spanned(loop_span))
    }

    /// `break` or `continue`, then a statement end.
    pub fn parse_loop_interrupt_stmt(&mut self) -> (r: Option<Statement>)
        requires
            old(self).wf(),
            old(self).cur() == TokenType::Break || old(self).cur() == TokenType::Continue,
        ensures
            gives_stmt(r, pinterrupt(old(self).toks(), old(self).pos(), old(self).depth(), old(self).alias_views()), *old(self), *final(self)),
            steps(*old(self), *final(self)),
            r is None ==> final(self).errs().len() > old(self).errs().len(),
            r is Some ==> final(self).pos() > old(self).pos(),
            final(self).aliases() == old(self).aliases(),
            r matches Some(st) ==> st.node == (if old(self).cur() == TokenType::Break { Stmt::Break } else { Stmt::Continue }),
    {
        let span = self.current_token().span;
        let stmt = if self.current_token_type() == TokenType::Continue { Stmt::Continue } else { Stmt::Break };
        self.advance();
        if !self.expect_delimiter() {
            return None;
        }
        Some(stmt.spanned(span))
    }

    /// `for when condition { ... }` or `for every name in range { ... }`.
    /// Anything else after `for` is reported at the token after it; a
    /// non-identifier after `every` is reported as such.
    #[verifier::rlimit(50)]
    #[verifier::spinoff_prover]
    pub fn parse_for_loop_stmt(&mut self) -> (r: Option<Statement>)
        requires
            old(self).wf(),
            old(self).cur() == TokenType::For,
        ensures
            gives_stmt(r, pfor(old(self).toks(), old(self).pos(), old(self).depth(), old(self).alias_views()), *old(self), *final(self)),
            steps(*old(self), *final(self)),
            r is None ==> final(self).errs().len() > old(self).errs().len(),
            r is Some ==> final(self).pos() > old(self).pos(),
            r matches Some(st) ==> st.span == old(self).toks()[old(self).pos()].span && if old(self).tt_at(old(self).pos() + 1)
                == TokenType::When {
                st.node is WhenLoop && st.node->WhenLoop_body.node is Scope
            } else {
                &&& old(self).tt_at(old(self).pos() + 1) == TokenType::Every
                &&& st.node is IndexLoop
                &&& st.node->IndexLoop_body.node is Scope
                &&& st.node->IndexLoop_iterator.node is Identifier
                &&& old(self).toks()[old(self).pos() + 2].token == Token::Identifier(
                    st.node->IndexLoop_iterator.node->Identifier_0,
                )
            },
        decreases old(self).toks().len() - old(self).pos(), 4int,
    {
        let for_span = self.current_token().span;
        self.advance();
        let kind = self.current_token_type();
        if kind == TokenType::When {
            self.advance();
            let condition = match self.try_parse_expression(0) {
                Some(e) => e,
                None => return None,
            };
            let body = match self.parse_scope_stmt() {
                Some(st) => st,
                None => return None,
            };
            Some(Stmt::WhenLoop { body: Box::new(body), condition }.spanned(for_span))
        } else if kind == TokenType::Every {
            self.advance();
            let iterator = match self.parse_identifier_literal() {
                Some(e) => e,
                None => return None,
            };
            if !self.expect(TokenType::In) {
                return None;
            }
            let range = match self.try_parse_expression(0) {
                Some(e) => e,
                None => return None,
            };
            let body = match self.parse_scope_stmt() {
                Some(st) => st,
                None => return None,
            };
            Some(Stmt::IndexLoop { body: Box::new(body), iterator, range }.spanned(for_span))
        } else {
            self.advance();
            let token = self.current_token_type();
            let span = self.current_token().span;
            self.errors.add(VynError::UnexpectedToken { token, span });
            None
        }
    }

    /// A type annotation: `[]T` (a sequence), `[size]T` (an array), a
    /// built-in type name, or a declared alias.
    pub(crate) fn try_parse_type(&mut self) -> (r: Option<TypeAnnotation>)
        requires
            old(self).wf(),
        ensures
            gives_type(r, ptype(old(self).toks(), old(self).pos(), old(self).depth(), old(self).alias_views()), final(self).pos()),
            steps(*old(self), *final(self)),
            r is Some ==> final(self).errs() == old(self).errs(),
            r is None ==> final(self).errs().len() > old(self).errs().len(),
            final(self).aliases() == old(self).aliases(),
        decreases old(self).toks().len() - old(self).pos(), 3int,
    {
        if self.current_token_type() == TokenType::LeftBracket {
            self.parse_array_type()
        } else {
            self.parse_simple_type()
        }
    }

    /// A type name: built in, or an alias. Anything else is reported; the
    /// token is consumed either way.
    fn parse_simple_type(&mut self) -> (r: Option<TypeAnnotation>)
        requires
            old(self).wf(),
        ensures
            gives_type(r, psimple_type(old(self).toks(), old(self).pos(), old(self).alias_views()), final(self).pos()),
            steps(*old(self), *final(self)),
            final(self).aliases() == old(self).aliases(),
            final(self).pos() == old(self).next_pos(),
            r is None ==> final(self).errs().len() == old(self).errs().len() + 1,
            r is Some ==> final(self).errs() == old(self).errs(),
            old(self).cur() != TokenType::Identifier ==> r is None && final(self).errs().last()
                == (VynError::ExpectedType { got: old(self).cur(), span: old(self).toks()[old(self).pos()].span }),
            old(self).toks()[old(self).pos()].token is Identifier && (builtin_annotation(
                old(self).toks()[old(self).pos()].token->Identifier_0@) is Some) ==> r == builtin_annotation(
                old(self).toks()[old(self).pos()].token->Identifier_0@),
    {
        let info = self.current_token();
        let name = match &info.token {
            Token::Identifier(name) => name,
            _ => {
                let got = info.token.get_token_type();
                let span = info.span;
                self.errors.add(VynError::ExpectedType { got, span });
                self.advance();
                return None;
            },
        };
        let span = info.span;
        match TypeAnnotation::from_identifier(name.as_str()) {
            Some(t) => {
                self.advance();
                Some(t)
            },
            None => match self.lookup_alias(name) {
                Some(t) => {
                    self.advance();
                    Some(t)
                },
                None => {
                    let got = name.clone();
                    self.errors.add(VynError::InvalidTypeName { got, span });
                    self.advance();
                    None
                },
            },
        }
    }

    /// The annotation recorded for alias `name`, copied.
    fn lookup_alias(&self, name: &String) -> (r: Option<TypeAnnotation>)
        ensures
            r is None <==> alias_index(self.alias_views(), name@, 0) is None,
            r matches Some(t) ==> ann_view(t) == self.alias_views()[alias_index(self.alias_views(), name@, 0)->Some_0].1,
            r is Some <==> exists|i: int| 0 <= i < self.aliases().len() && (#[trigger] self.aliases()[i]).0@ == name@,
    {
        let mut i: usize = 0;
        let ghost al = self.alias_views();
        while i < self.type_table.aliases.len()
            invariant
                0 <= i <= self.aliases().len(),
                self.aliases() == self.type_table.aliases@,
                al == self.alias_views(),
                forall|k: int| 0 <= k < i ==> (#[trigger] self.aliases()[k]).0@ != name@,
            decreases self.aliases().len() - i,
        {
            if self.type_table.aliases[i].0.eq(name) {
                proof {
                    assert forall|k: int| 0 <= k < i implies (#[trigger] al[k]).0 != name@ by {
                        assert(self.aliases()[k].0@ != name@);
                    }
                    lemma_alias_index_at(al, name@, 0, i as int);
                }
                return Some(self.type_table.aliases[i].1.copy());
            }
            i = i + 1;
        }
        proof {
            assert forall|k: int| 0 <= k < al.len() implies (#[trigger] al[k]).0 != name@ by {
                assert(self.aliases()[k].0@ != name@);
            }
            lemma_alias_index_none(al, name@, 0);
        }
        None
    }

    /// `[]T` or `[size]T`.
    fn parse_array_type(&mut self) -> (r: Option<TypeAnnotation>)
        requires
            old(self).wf(),
            old(self).cur() == TokenType::LeftBracket,
        ensures
            gives_type(r, parray_type(old(self).toks(), old(self).pos(), old(self).depth(), old(self).alias_views()), final(self).pos()),
            steps(*old(self), *final(self)),
            r is Some ==> final(self).errs() == old(self).errs(),
            r is None ==> final(self).errs().len() > old(self).errs().len(),
            final(self).aliases() == old(self).aliases(),
            r matches Some(t) ==> t is ArrayType || t is SequenceType,
        decreases old(self).toks().len() - old(self).pos(), 2int,
    {
        if !self.expect(TokenType::LeftBracket) {
            return None;
        }
        if self.current_token_type() == TokenType::RightBracket {
            self.advance();
            let element = match self.try_parse_type() {
                Some(t) => t,
                None => return None,
            };
            return Some(TypeAnnotation::SequenceType(Box::new(element)));
        }
        let size = match self.try_parse_expression(0) {
            Some(e) => e,
            None => return None,
        };
        if !self.expect(TokenType::RightBracket) {
            return None;
        }
        let element = match self.try_parse_type() {
            Some(t) => t,
            None => return None,
        };
        Some(TypeAnnotation::ArrayType(Box::new(element), size))
    }

    /// Records `aliased_type` under the name of `ident`, replacing an earlier
    /// alias of that name; `Some` exactly when there was one.
    pub fn enroll_type_alias(&mut self, ident: Expression, aliased_type: TypeAnnotation) -> (r: Option<()>)
        requires
            ident.node is Identifier,
        ensures
            final(self).alias_views() == alias_enroll(old(self).alias_views(), ident.node->Identifier_0@, ann_view(aliased_type)),
            final(self).toks() == old(self).toks(),
            final(self).pos() == old(self).pos(),
            final(self).depth() == old(self).depth(),
            final(self).errs() == old(self).errs(),
            old(self).wf() ==> final(self).wf(),
            r is Some <==> exists|i: int| 0 <= i < old(self).aliases().len()
                && (#[trigger] old(self).aliases()[i]).0@ == ident.node->Identifier_0@,
            exists|i: int| 0 <= i < final(self).aliases().len()
                && (#[trigger] final(self).aliases()[i]).0@ == ident.node->Identifier_0@
                && final(self).aliases()[i].1 == aliased_type,
    {
        let name = match ident.node {
            Expr::Identifier(s) => s,
            _ => String::new(),
        };
        let mut i: usize = 0;
        while i < self.type_table.aliases.len()
            invariant
                0 <= i <= self.aliases().len(),
                self.aliases() == old(self).aliases(),
                self.tokens == old(self).tokens,
                self.current == old(self).current,
                self.delimiter_stack == old(self).delimiter_stack,
                self.errors == old(self).errors,
                name@ == ident.node->Identifier_0@,
                forall|k: int| 0 <= k < i ==> (#[trigger] self.aliases()[k]).0@ != name@,
            decreases self.aliases().len() - i,
        {
            if self.type_table.aliases[i].0.eq(&name) {
                let ghost before = self.aliases();
                let ghost al = old(self).alias_views();
                let key = name.clone();
                self.type_table.aliases.set(i, (key, aliased_type));
                proof {
                    assert(self.aliases()[i as int].0@ == name@);
                    assert forall|k: int| 0 <= k < i implies (#[trigger] al[k]).0 != name@ by {
                        assert(old(self).aliases()[k].0@ != name@);
                    }
                    lemma_alias_index_at(al, name@, 0, i as int);
                    assert(self.alias_views() =~= al.update(i as int, (name@, ann_view(aliased_type))));
                }
                return Some(());
            }
            i = i + 1;
        }
        let ghost al = old(self).alias_views();
        proof {
            assert forall|k: int| 0 <= k < al.len() implies (#[trigger] al[k]).0 != name@ by {
                assert(old(self).aliases()[k].0@ != name@);
            }
            lemma_alias_index_none(al, name@, 0);
        }
        self.type_table.aliases.push((name, aliased_type));
        proof {
            let k = self.aliases().len() - 1;
            assert(self.aliases()[k].0@ == ident.node->Identifier_0@);
            assert(self.alias_views() =~= al.push((ident.node->Identifier_0@, ann_view(aliased_type))));
        }
        None
    }

    /// Parses the whole token list. After a statement that fails, parsing
    /// resumes at the next statement. The program is returned when no error
    /// was recorded; otherwise the errors are handed out.
    pub fn parse_program(&mut self) -> (r: Result<Program, ErrorCollector>)
        requires
            old(self).wf(),
        ensures
            final(self).wf(),
            final(self).toks() == old(self).toks(),
            match r {
                Ok(_) => old(self).errs().len() == 0 && final(self).errs().len() == 0
                    && final(self).cur() == TokenType::EndOfFile,
                Err(c) => c.errors@.len() > 0 && c.errors@.len() >= old(self).errs().len()
                    && (forall|i: int| 0 <= i < old(self).errs().len() ==> #[trigger] c.errors@[i] == old(self).errs()[i])
                    && final(self).errs().len() == 0,
            },
            ({
                let e = pprogram(old(self).toks(), old(self).pos(), old(self).depth(), old(self).alias_views(), Seq::empty(), true);
                &&& (r is Ok) == (old(self).errs().len() == 0 && e.1)
                &&& r matches Ok(prog) ==> statements_view(prog.statements@, prog.statements@.len() as int) == e.0
            }),
    {
        let mut body: Vec<Statement> = Vec::new();
        let ghost whole = pprogram(old(self).toks(), old(self).pos(), old(self).depth(), old(self).alias_views(), Seq::empty(), true);
        proof {
            assert(statements_view(body@, 0) == Seq::<Spanned<StmtV>>::empty());
        }
        while !self.is_eof()
            invariant
                steps(*old(self), *self),
                whole == pprogram(old(self).toks(), old(self).pos(), old(self).depth(), old(self).alias_views(), Seq::empty(), true),
                whole == pprogram(
                    self.toks(),
                    self.pos(),
                    self.depth(),
                    self.alias_views(),
                    statements_view(body@, body@.len() as int),
                    self.errs().len() == old(self).errs().len(),
                ),
            ensures
                self.cur() == TokenType::EndOfFile,
                steps(*old(self), *self),
                whole == (
                    statements_view(body@, body@.len() as int),
                    self.errs().len() == old(self).errs().len(),
                    self.alias_views(),
                ),
            decreases self.toks().len() - self.pos(),
        {
            let ghost p0 = self.pos();
            self.skip_delimiters();
            if self.is_eof() {
                break;
            }
            let ghost before = body@;
            let ghost e0 = self.errs().len();
            match self.try_parse_statement() {
                Some(st) => {
                    body.push(st);
                    proof {
                        assert(body@.subrange(0, before.len() as int) =~= before);
                        assert(before.subrange(0, before.len() as int) =~= before);
                        lemma_statements_view_prefix(body@, before, before.len() as int);
                    }
                },
                None => self.synchronize(),
            }
            proof {
                assert(self.pos() > p0);
            }
        }
        if self.errors.has_errors() {
            Err(self.errors.take())
        } else {
            Ok(Program { statements: body })
        }
    }
}

} // verus!
