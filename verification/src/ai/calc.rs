//! The grammar of the calculator tool: `+`, `-`, `*`, `/`, unary minus and
//! parentheses over decimal numbers, parsed by recursive descent with the
//! usual precedence and left associativity. Evaluation is left to the caller.
use vstd::prelude::*;
use crate::text::{chars_of, is_whitespace, is_ws, push_char, string_of_range};

verus! {

/// A parsed arithmetic expression.
pub enum Expr {
    /// A run of digits and dots, as written.
    Num(String),
    Neg(Box<Expr>),
    Paren(Box<Expr>),
    Add(Box<Expr>, Box<Expr>),
    Sub(Box<Expr>, Box<Expr>),
    Mul(Box<Expr>, Box<Expr>),
    Div(Box<Expr>, Box<Expr>),
}

/// The mathematical view of an `Expr`.
pub enum ExprModel {
    Num(Seq<char>),
    Neg(Box<ExprModel>),
    Paren(Box<ExprModel>),
    Add(Box<ExprModel>, Box<ExprModel>),
    Sub(Box<ExprModel>, Box<ExprModel>),
    Mul(Box<ExprModel>, Box<ExprModel>),
    Div(Box<ExprModel>, Box<ExprModel>),
}

impl Expr {
    pub open spec fn model(&self) -> ExprModel
        decreases self,
    {
        match self {
            Expr::Num(s) => ExprModel::Num(s@),
            Expr::Neg(e) => ExprModel::Neg(Box::new(e.model())),
            Expr::Paren(e) => ExprModel::Paren(Box::new(e.model())),
            Expr::Add(a, b) => ExprModel::Add(Box::new(a.model()), Box::new(b.model())),
            Expr::Sub(a, b) => ExprModel::Sub(Box::new(a.model()), Box::new(b.model())),
            Expr::Mul(a, b) => ExprModel::Mul(Box::new(a.model()), Box::new(b.model())),
            Expr::Div(a, b) => ExprModel::Div(Box::new(a.model()), Box::new(b.model())),
        }
    }
}

/// A character of a number: a digit or a dot.
pub open spec fn is_num_char(c: char) -> bool {
    ('0' <= c && c <= '9') || c == '.'
}

/// End of the run of number characters of `t` that starts at `i`.
pub open spec fn num_end(t: Seq<char>, i: int) -> int
    decreases t.len() - i,
{
    if 0 <= i < t.len() && is_num_char(t[i]) {
        num_end(t, i + 1)
    } else {
        i
    }
}

/// `factor := '-' factor | '(' expr ')' | number`, at index `i` of `t`:
/// the expression and the index after it.
pub open spec fn p_factor(t: Seq<char>, i: int) -> Option<(ExprModel, int)>
    decreases t.len() - i, 0int,
{
    if i < 0 || i >= t.len() {
        None
    } else if t[i] == '-' {
        match p_factor(t, i + 1) {
            Some((e, k)) => Some((ExprModel::Neg(Box::new(e)), k)),
            None => None,
        }
    } else if t[i] == '(' {
        match p_expr(t, i + 1) {
            Some((e, k)) => if i + 1 < k < t.len() && t[k] == ')' {
                Some((ExprModel::Paren(Box::new(e)), k + 1))
            } else {
                None
            },
            None => None,
        }
    } else {
        let e = num_end(t, i);
        if e == i { None } else { Some((ExprModel::Num(t.subrange(i, e)), e)) }
    }
}

/// The `('*' | '/') factor` repetitions of a term, from index `k`, after `left`.
pub open spec fn p_term_rest(t: Seq<char>, k: int, left: ExprModel) -> Option<(ExprModel, int)>
    decreases t.len() - k, 1int,
{
    if 0 <= k < t.len() && (t[k] == '*' || t[k] == '/') {
        match p_factor(t, k + 1) {
            Some((r, k2)) => if k + 1 < k2 <= t.len() {
                let e = if t[k] == '*' {
                    ExprModel::Mul(Box::new(left), Box::new(r))
                } else {
                    ExprModel::Div(Box::new(left), Box::new(r))
                };
                p_term_rest(t, k2, e)
            } else {
                None
            },
            None => None,
        }
    } else {
        Some((left, k))
    }
}

/// `term := factor (('*' | '/') factor)*`, at index `i`.
pub open spec fn p_term(t: Seq<char>, i: int) -> Option<(ExprModel, int)>
    decreases t.len() - i, 2int,
{
    match p_factor(t, i) {
        Some((f, k)) => if i < k <= t.len() { p_term_rest(t, k, f) } else { None },
        None => None,
    }
}

/// The `('+' | '-') term` repetitions of an expression, from index `k`, after `left`.
pub open spec fn p_expr_rest(t: Seq<char>, k: int, left: ExprModel) -> Option<(ExprModel, int)>
    decreases t.len() - k, 3int,
{
    if 0 <= k < t.len() && (t[k] == '+' || t[k] == '-') {
        match p_term(t, k + 1) {
            Some((r, k2)) => if k + 1 < k2 <= t.len() {
                let e = if t[k] == '+' {
                    ExprModel::Add(Box::new(left), Box::new(r))
                } else {
                    ExprModel::Sub(Box::new(left), Box::new(r))
                };
                p_expr_rest(t, k2, e)
            } else {
                None
            },
            None => None,
        }
    } else {
        Some((left, k))
    }
}

/// `expr := term (('+' | '-') term)*`, at index `i`.
pub open spec fn p_expr(t: Seq<char>, i: int) -> Option<(ExprModel, int)>
    decreases t.len() - i, 4int,
{
    match p_term(t, i) {
        Some((f, k)) => if i < k <= t.len() { p_expr_rest(t, k, f) } else { None },
        None => None,
    }
}

/// The characters of `s` that are not white space, in order.
pub open spec fn strip_ws(s: Seq<char>) -> Seq<char> {
    s.filter(|c: char| !is_ws(c))
}

/// The expression `s` denotes: all of its non-space characters parse as one
/// expression.
pub open spec fn arithmetic_expr(s: Seq<char>) -> Option<ExprModel> {
    let t = strip_ws(s);
    match p_expr(t, 0) {
        Some((e, k)) => if k == t.len() { Some(e) } else { None },
        None => None,
    }
}

} // verus!

verus! {

fn is_num_char_exec(c: char) -> (r: bool)
    ensures
        r == is_num_char(c),
{
    ('0' <= c && c <= '9') || c == '.'
}

/// Parses a factor at `pos`.
pub fn parse_factor(t: &Vec<char>, pos: usize) -> (r: Option<(Expr, usize)>)
    requires
        pos <= t@.len(),
    ensures
        match r {
            Some((e, k)) => p_factor(t@, pos as int) == Some((e.model(), k as int)) && pos < k <= t@.len(),
            None => p_factor(t@, pos as int) is None,
        },
    decreases t@.len() - pos, 0int,
{
    if pos >= t.len() {
        return None;
    }
    if t[pos] == '-' {
        match parse_factor(t, pos + 1) {
            Some((e, k)) => {
                let r = Expr::Neg(Box::new(e));
                return Some((r, k));
            },
            None => return None,
        }
    }
    if t[pos] == '(' {
        match parse_expr(t, pos + 1) {
            Some((e, k)) => {
                if k < t.len() && t[k] == ')' {
                    return Some((Expr::Paren(Box::new(e)), k + 1));
                }
                return None;
            },
            None => return None,
        }
    }
    let mut e: usize = pos;
    while e < t.len() && is_num_char_exec(t[e])
        invariant
            pos <= e <= t@.len(),
            num_end(t@, e as int) == num_end(t@, pos as int),
        decreases t@.len() - e,
    {
        e = e + 1;
    }
    if e == pos {
        return None;
    }
    Some((Expr::Num(string_of_range(t.as_slice(), pos, e)), e))
}

/// Parses a term at `pos`.
pub fn parse_term(t: &Vec<char>, pos: usize) -> (r: Option<(Expr, usize)>)
    requires
        pos <= t@.len(),
    ensures
        match r {
            Some((e, k)) => p_term(t@, pos as int) == Some((e.model(), k as int)) && pos < k <= t@.len(),
            None => p_term(t@, pos as int) is None,
        },
    decreases t@.len() - pos, 2int,
{
    let (mut left, mut k) = match parse_factor(t, pos) {
        Some(x) => x,
        None => return None,
    };
    while k < t.len() && (t[k] == '*' || t[k] == '/')
        invariant
            pos < k <= t@.len(),
            p_term(t@, pos as int) == p_term_rest(t@, k as int, left.model()),
        decreases t@.len() - k,
    {
        let op = t[k];
        match parse_factor(t, k + 1) {
            Some((r, k2)) => {
                left = if op == '*' { Expr::Mul(Box::new(left), Box::new(r)) } else { Expr::Div(Box::new(left), Box::new(r)) };
                k = k2;
            },
            None => return None,
        }
    }
    Some((left, k))
}

/// Parses an expression at `pos`.
pub fn parse_expr(t: &Vec<char>, pos: usize) -> (r: Option<(Expr, usize)>)
    requires
        pos <= t@.len(),
    ensures
        match r {
            Some((e, k)) => p_expr(t@, pos as int) == Some((e.model(), k as int)) && pos < k <= t@.len(),
            None => p_expr(t@, pos as int) is None,
        },
    decreases t@.len() - pos, 4int,
{
    let (mut left, mut k) = match parse_term(t, pos) {
        Some(x) => x,
        None => return None,
    };
    while k < t.len() && (t[k] == '+' || t[k] == '-')
        invariant
            pos < k <= t@.len(),
            p_expr(t@, pos as int) == p_expr_rest(t@, k as int, left.model()),
        decreases t@.len() - k,
    {
        let op = t[k];
        match parse_term(t, k + 1) {
            Some((r, k2)) => {
                left = if op == '+' { Expr::Add(Box::new(left), Box::new(r)) } else { Expr::Sub(Box::new(left), Box::new(r)) };
                k = k2;
            },
            None => return None,
        }
    }
    Some((left, k))
}

/// The non-space characters of `s`.
pub fn strip_whitespace(s: &str) -> (r: Vec<char>)
    ensures
        r@ == strip_ws(s@),
{
    let v = chars_of(s);
    let mut r: Vec<char> = Vec::new();
    let mut i: usize = 0;
    while i < v.len()
        invariant
            i <= v@.len(),
            v@ == s@,
            r@ == v@.take(i as int).filter(|c: char| !is_ws(c)),
        decreases v@.len() - i,
    {
        proof {
            reveal_with_fuel(Seq::<_>::filter, 1);
            assert(v@.take(i + 1).drop_last() == v@.take(i as int));
        }
        if !is_whitespace(v[i]) {
            r.push(v[i]);
        }
        i = i + 1;
    }
    assert(v@.take(v@.len() as int) == v@);
    r
}

/// Parses a whole arithmetic expression; white space is ignored and every
/// other character must belong to the expression.
pub fn parse_arithmetic(expr: &str) -> (r: Option<Expr>)
    ensures
        match r {
            Some(e) => arithmetic_expr(expr@) == Some(e.model()),
            None => arithmetic_expr(expr@) is None,
        },
{
    let tokens = strip_whitespace(expr);
    match parse_expr(&tokens, 0) {
        Some((e, k)) => if k == tokens.len() { Some(e) } else { None },
        None => None,
    }
}

} // verus!

verus! {

/// The expression written back out, with no white space.
pub open spec fn print_expr(e: ExprModel) -> Seq<char>
    decreases e,
{
    match e {
        ExprModel::Num(s) => s,
        ExprModel::Neg(a) => seq!['-'] + print_expr(*a),
        ExprModel::Paren(a) => seq!['('] + print_expr(*a) + seq![')'],
        ExprModel::Add(a, b) => print_expr(*a) + seq!['+'] + print_expr(*b),
        ExprModel::Sub(a, b) => print_expr(*a) + seq!['-'] + print_expr(*b),
        ExprModel::Mul(a, b) => print_expr(*a) + seq!['*'] + print_expr(*b),
        ExprModel::Div(a, b) => print_expr(*a) + seq!['/'] + print_expr(*b),
    }
}

proof fn lemma_num_end(t: Seq<char>, i: int)
    requires
        0 <= i <= t.len(),
    ensures
        i <= num_end(t, i) <= t.len(),
    decreases t.len() - i,
{
    if i < t.len() && is_num_char(t[i]) {
        lemma_num_end(t, i + 1);
    }
}

proof fn lemma_factor_prints(t: Seq<char>, i: int)
    ensures
        p_factor(t, i) matches Some((m, k)) ==> i < k <= t.len() && print_expr(m) == t.subrange(i, k),
    decreases t.len() - i, 0int,
{
    if 0 <= i < t.len() {
        if t[i] == '-' {
            lemma_factor_prints(t, i + 1);
            if let Some((m, k)) = p_factor(t, i + 1) {
                assert(t.subrange(i, k) == seq!['-'] + t.subrange(i + 1, k));
            }
        } else if t[i] == '(' {
            lemma_expr_prints(t, i + 1);
            if let Some((m, k)) = p_expr(t, i + 1) {
                if i + 1 < k < t.len() && t[k] == ')' {
                    assert(t.subrange(i, k + 1) == seq!['('] + t.subrange(i + 1, k) + seq![')']);
                }
            }
        } else {
            lemma_num_end(t, i);
        }
    }
}

proof fn lemma_term_rest_prints(t: Seq<char>, k: int, left: ExprModel)
    requires
        0 <= k <= t.len(),
    ensures
        p_term_rest(t, k, left) matches Some((m, k2)) ==> k <= k2 <= t.len() && print_expr(m) == print_expr(left) + t.subrange(k, k2),
    decreases t.len() - k, 1int,
{
    if 0 <= k < t.len() && (t[k] == '*' || t[k] == '/') {
        lemma_factor_prints(t, k + 1);
        if let Some((r, k2)) = p_factor(t, k + 1) {
            if k + 1 < k2 <= t.len() {
                let e = if t[k] == '*' {
                    ExprModel::Mul(Box::new(left), Box::new(r))
                } else {
                    ExprModel::Div(Box::new(left), Box::new(r))
                };
                lemma_term_rest_prints(t, k2, e);
                if let Some((m, k3)) = p_term_rest(t, k2, e) {
                    assert(t.subrange(k, k3) == seq![t[k]] + t.subrange(k + 1, k2) + t.subrange(k2, k3));
                    assert(print_expr(e) == print_expr(left) + seq![t[k]] + print_expr(r));
                }
            }
        }
    } else {
        assert(t.subrange(k, k) == Seq::<char>::empty());
    }
}

proof fn lemma_term_prints(t: Seq<char>, i: int)
    ensures
        p_term(t, i) matches Some((m, k)) ==> i < k <= t.len() && print_expr(m) == t.subrange(i, k),
    decreases t.len() - i, 2int,
{
    lemma_factor_prints(t, i);
    if let Some((f, k)) = p_factor(t, i) {
        if i < k <= t.len() {
            lemma_term_rest_prints(t, k, f);
            if let Some((m, k2)) = p_term_rest(t, k, f) {
                assert(t.subrange(i, k2) == t.subrange(i, k) + t.subrange(k, k2));
            }
        }
    }
}

proof fn lemma_expr_rest_prints(t: Seq<char>, k: int, left: ExprModel)
    requires
        0 <= k <= t.len(),
    ensures
        p_expr_rest(t, k, left) matches Some((m, k2)) ==> k <= k2 <= t.len() && print_expr(m) == print_expr(left) + t.subrange(k, k2),
    decreases t.len() - k, 3int,
{
    if 0 <= k < t.len() && (t[k] == '+' || t[k] == '-') {
        lemma_term_prints(t, k + 1);
        if let Some((r, k2)) = p_term(t, k + 1) {
            if k + 1 < k2 <= t.len() {
                let e = if t[k] == '+' {
                    ExprModel::Add(Box::new(left), Box::new(r))
                } else {
                    ExprModel::Sub(Box::new(left), Box::new(r))
                };
                lemma_expr_rest_prints(t, k2, e);
                if let Some((m, k3)) = p_expr_rest(t, k2, e) {
                    assert(t.subrange(k, k3) == seq![t[k]] + t.subrange(k + 1, k2) + t.subrange(k2, k3));
                    assert(print_expr(e) == print_expr(left) + seq![t[k]] + print_expr(r));
                }
            }
        }
    } else {
        assert(t.subrange(k, k) == Seq::<char>::empty());
    }
}

proof fn lemma_expr_prints(t: Seq<char>, i: int)
    ensures
        p_expr(t, i) matches Some((m, k)) ==> i < k <= t.len() && print_expr(m) == t.subrange(i, k),
    decreases t.len() - i, 4int,
{
    lemma_term_prints(t, i);
    if let Some((f, k)) = p_term(t, i) {
        if i < k <= t.len() {
            lemma_expr_rest_prints(t, k, f);
            if let Some((m, k2)) = p_expr_rest(t, k, f) {
                assert(t.subrange(i, k2) == t.subrange(i, k) + t.subrange(k, k2));
            }
        }
    }
}

/// Law: a parsed expression, written back out, is exactly the input with its
/// white space removed; the parse drops and invents nothing.
pub proof fn law_parse_prints_back(s: Seq<char>)
    ensures
        arithmetic_expr(s) matches Some(m) ==> print_expr(m) == strip_ws(s),
{
    let t = strip_ws(s);
    lemma_expr_prints(t, 0);
    if let Some((m, k)) = p_expr(t, 0) {
        if k == t.len() {
            assert(t.subrange(0, k) == t);
        }
    }
}

} // verus!

verus! {

proof fn lemma_strip_ws_idempotent(s: Seq<char>)
    ensures
        strip_ws(strip_ws(s)) == strip_ws(s),
    decreases s.len(),
{
    reveal_with_fuel(Seq::<_>::filter, 1);
    if s.len() > 0 {
        lemma_strip_ws_idempotent(s.drop_last());
        let t = strip_ws(s.drop_last());
        if !is_ws(s.last()) {
            assert(t.push(s.last()).drop_last() == t);
            assert(t.push(s.last()).last() == s.last());
        }
    }
}

/// Law: white space never changes what an arithmetic expression denotes.
/// Two inputs with the same non-space characters denote the same
/// expression, and an input denotes what its white-space-free form does.
pub proof fn law_whitespace_is_ignored(s: Seq<char>, t: Seq<char>)
    ensures
        strip_ws(s) == strip_ws(t) ==> arithmetic_expr(s) == arithmetic_expr(t),
        arithmetic_expr(strip_ws(s)) == arithmetic_expr(s),
{
    lemma_strip_ws_idempotent(s);
}

} // verus!

verus! {

/// A non-empty run of number characters.
pub open spec fn is_number_text(a: Seq<char>) -> bool {
    a.len() > 0 && forall|j: int| 0 <= j < a.len() ==> is_num_char(#[trigger] a[j])
}

proof fn lemma_num_end_run(t: Seq<char>, i: int, n: int)
    requires
        0 <= i,
        0 <= n,
        i + n <= t.len(),
        forall|j: int| i <= j < i + n ==> is_num_char(#[trigger] t[j]),
        i + n == t.len() || !is_num_char(t[i + n]),
    ensures
        num_end(t, i) == i + n,
    decreases n,
{
    if n > 0 {
        lemma_num_end_run(t, i + 1, n - 1);
    }
}

/// The number `a` at index `i` of `t`, followed by the end or by a
/// character that is no number character, is read as one number factor.
proof fn lemma_number_factor(t: Seq<char>, i: int, a: Seq<char>)
    requires
        is_number_text(a),
        0 <= i,
        i + a.len() <= t.len(),
        t.subrange(i, i + a.len()) == a,
        i + a.len() == t.len() || !is_num_char(t[i + a.len()]),
    ensures
        p_factor(t, i) == Some((ExprModel::Num(a), i + a.len())),
        p_term(t, i) == p_term_rest(t, i + a.len(), ExprModel::Num(a)),
{
    assert forall|j: int| i <= j < i + a.len() implies is_num_char(#[trigger] t[j]) by {
        assert(t[j] == t.subrange(i, i + a.len())[j - i]);
        assert(is_num_char(a[j - i]));
    }
    lemma_num_end_run(t, i, a.len() as int);
    assert(t[i] == a[0]);
    assert(is_num_char(a[0]));
}

proof fn lemma_no_ws_kept(s: Seq<char>)
    requires
        no_ws(s),
    ensures
        strip_ws(s) == s,
    decreases s.len(),
{
    reveal_with_fuel(Seq::<_>::filter, 1);
    if s.len() > 0 {
        let d = s.drop_last();
        assert forall|j: int| 0 <= j < d.len() implies !is_ws(#[trigger] d[j]) by {
            assert(d[j] == s[j]);
        }
        lemma_no_ws_kept(d);
        assert(!is_ws(s[s.len() - 1]));
        assert(d.push(s.last()) == s);
    }
}

proof fn lemma_number_no_ws(a: Seq<char>)
    requires
        is_number_text(a),
    ensures
        no_ws(a),
{
    assert forall|j: int| 0 <= j < a.len() implies !is_ws(#[trigger] a[j]) by {
        assert(is_num_char(a[j]));
    }
}

/// A term that is the number `a` at `i`, followed by the end or by `+`/`-`.
proof fn lemma_number_term(t: Seq<char>, i: int, a: Seq<char>)
    requires
        is_number_text(a),
        0 <= i,
        i + a.len() <= t.len(),
        t.subrange(i, i + a.len()) == a,
        i + a.len() == t.len() || t[i + a.len()] == '+' || t[i + a.len()] == '-',
    ensures
        p_term(t, i) == Some((ExprModel::Num(a), i + a.len())),
{
    lemma_number_factor(t, i, a);
}

/// A term that is `-` and the number `a` at `i`, followed by `+`/`-`.
proof fn lemma_negated_term(t: Seq<char>, i: int, a: Seq<char>)
    requires
        is_number_text(a),
        0 <= i,
        i + 1 + a.len() < t.len(),
        t[i] == '-',
        t.subrange(i + 1, i + 1 + a.len()) == a,
        t[i + 1 + a.len()] == '+' || t[i + 1 + a.len()] == '-',
    ensures
        p_term(t, i) == Some((ExprModel::Neg(Box::new(ExprModel::Num(a))), i + 1 + a.len())),
{
    lemma_number_factor(t, i + 1, a);
    let neg = ExprModel::Neg(Box::new(ExprModel::Num(a)));
    assert(p_factor(t, i) == Some((neg, i + 1 + a.len())));
    assert(p_term_rest(t, i + 1 + a.len(), neg) == Some((neg, i + 1 + a.len())));
}

/// An expression that is the term `left` ending at `k`, then `op` and the
/// number `b` up to the end.
proof fn lemma_one_operation(t: Seq<char>, k: int, left: ExprModel, b: Seq<char>)
    requires
        is_number_text(b),
        0 <= k,
        k + 1 + b.len() == t.len(),
        t[k] == '+' || t[k] == '-',
        t.subrange(k + 1, t.len() as int) == b,
    ensures
        p_expr_rest(t, k, left) == Some((
            if t[k] == '+' {
                ExprModel::Add(Box::new(left), Box::new(ExprModel::Num(b)))
            } else {
                ExprModel::Sub(Box::new(left), Box::new(ExprModel::Num(b)))
            },
            t.len() as int,
        )),
{
    lemma_number_term(t, k + 1, b);
    let n = t.len() as int;
    let add = ExprModel::Add(Box::new(left), Box::new(ExprModel::Num(b)));
    let sub = ExprModel::Sub(Box::new(left), Box::new(ExprModel::Num(b)));
    assert(p_expr_rest(t, n, add) == Some((add, n)));
    assert(p_expr_rest(t, n, sub) == Some((sub, n)));
}

/// No white space in `s`.
pub open spec fn no_ws(s: Seq<char>) -> bool {
    forall|j: int| 0 <= j < s.len() ==> !is_ws(#[trigger] s[j])
}

proof fn lemma_concat_no_ws(x: Seq<char>, y: Seq<char>)
    requires
        no_ws(x),
        no_ws(y),
    ensures
        no_ws(x + y),
{
    assert forall|j: int| 0 <= j < (x + y).len() implies !is_ws(#[trigger] (x + y)[j]) by {
        if j < x.len() {
            assert((x + y)[j] == x[j]);
        } else {
            assert((x + y)[j] == y[j - x.len()]);
        }
    }
}

proof fn lemma_one_addition(t: Seq<char>, k: int, left: ExprModel, b: Seq<char>)
    requires
        is_number_text(b),
        0 <= k,
        k + 1 + b.len() == t.len(),
        t[k] == '+',
        t.subrange(k + 1, t.len() as int) == b,
    ensures
        p_expr_rest(t, k, left) == Some((ExprModel::Add(Box::new(left), Box::new(ExprModel::Num(b))), t.len() as int)),
{
    lemma_one_operation(t, k, left, b);
}

proof fn lemma_signed_sum_text(a: Seq<char>, b: Seq<char>, op: char)
    requires
        is_number_text(a),
        is_number_text(b),
        op == '+' || op == '-',
    ensures
        ({
            let t = seq!['-'] + a + seq![op] + b;
            &&& no_ws(t)
            &&& t[0] == '-'
            &&& t.subrange(1, 1 + a.len() as int) == a
            &&& t[1 + a.len() as int] == op
            &&& t.subrange(2 + a.len() as int, t.len() as int) == b
        }),
{
    let m = seq!['-'];
    let o = seq![op];
    let t = m + a + o + b;
    let la = a.len() as int;
    lemma_number_no_ws(a);
    lemma_number_no_ws(b);
    assert(no_ws(m)) by {
        assert forall|j: int| 0 <= j < m.len() implies !is_ws(#[trigger] m[j]) by {
            assert(m[j] == '-');
        }
    }
    assert(no_ws(o)) by {
        assert forall|j: int| 0 <= j < o.len() implies !is_ws(#[trigger] o[j]) by {
            assert(o[j] == op);
        }
    }
    lemma_concat_no_ws(m, a);
    lemma_concat_no_ws(m + a, o);
    lemma_concat_no_ws(m + a + o, b);
    assert(t.subrange(1, 1 + la) =~= a);
    assert(t.subrange(2 + la, t.len() as int) =~= b);
}

/// An input with no white space whose first term ends at `k` and whose
/// remaining operations reach the end denotes their result.
proof fn lemma_whole_expression(t: Seq<char>, left: ExprModel, k: int, e: ExprModel)
    requires
        no_ws(t),
        0 < k <= t.len(),
        p_term(t, 0) == Some((left, k)),
        p_expr_rest(t, k, left) == Some((e, t.len() as int)),
    ensures
        arithmetic_expr(t) == Some(e),
{
    lemma_no_ws_kept(t);
    assert(p_expr(t, 0) == Some((e, t.len() as int)));
}

/// Law: a unary minus negates only the number right after it. For numbers
/// `a` and `b`, `-a+b` denotes `(-a)+b` and `-a-b` denotes `(-a)-b`, never
/// the negation of the whole sum or difference.
pub proof fn law_unary_minus_binds_to_its_factor(a: Seq<char>, b: Seq<char>, op: char)
    requires
        is_number_text(a),
        is_number_text(b),
        op == '+' || op == '-',
    ensures
        arithmetic_expr(seq!['-'] + a + seq![op] + b) == Some(
            if op == '+' {
                ExprModel::Add(Box::new(ExprModel::Neg(Box::new(ExprModel::Num(a)))), Box::new(ExprModel::Num(b)))
            } else {
                ExprModel::Sub(Box::new(ExprModel::Neg(Box::new(ExprModel::Num(a)))), Box::new(ExprModel::Num(b)))
            },
        ),
{
    let t = seq!['-'] + a + seq![op] + b;
    let la = a.len() as int;
    let n = t.len() as int;
    lemma_signed_sum_text(a, b, op);
    let neg = ExprModel::Neg(Box::new(ExprModel::Num(a)));
    let e = if op == '+' {
        ExprModel::Add(Box::new(neg), Box::new(ExprModel::Num(b)))
    } else {
        ExprModel::Sub(Box::new(neg), Box::new(ExprModel::Num(b)))
    };
    assert(p_term(t, 0) == Some((neg, 1 + la))) by {
        lemma_negated_term(t, 0, a);
    }
    assert(p_expr_rest(t, 1 + la, neg) == Some((e, n))) by {
        lemma_one_operation(t, 1 + la, neg, b);
    }
    lemma_whole_expression(t, neg, 1 + la, e);
}

} // verus!

verus! {

/// A term that is the product `a*b` at `i`, followed by the end or by `+`/`-`.
proof fn lemma_product_term(t: Seq<char>, i: int, a: Seq<char>, b: Seq<char>)
    requires
        is_number_text(a),
        is_number_text(b),
        0 <= i,
        i + a.len() + 1 + b.len() <= t.len(),
        t.subrange(i, i + a.len()) == a,
        t[i + a.len()] == '*',
        t.subrange(i + a.len() + 1, i + a.len() + 1 + b.len()) == b,
        i + a.len() + 1 + b.len() == t.len() || t[i + a.len() + 1 + b.len()] == '+'
            || t[i + a.len() + 1 + b.len()] == '-',
    ensures
        p_term(t, i) == Some((
            ExprModel::Mul(Box::new(ExprModel::Num(a)), Box::new(ExprModel::Num(b))),
            i + a.len() + 1 + b.len(),
        )),
{
    let k = i + a.len();
    let k2 = k + 1 + b.len();
    lemma_number_factor(t, i, a);
    lemma_number_factor(t, k + 1, b);
    let m = ExprModel::Mul(Box::new(ExprModel::Num(a)), Box::new(ExprModel::Num(b)));
    assert(p_term_rest(t, k2, m) == Some((m, k2)));
    assert(p_term_rest(t, k, ExprModel::Num(a)) == Some((m, k2)));
}

proof fn lemma_three_numbers_text(a: Seq<char>, o1: char, b: Seq<char>, o2: char, c: Seq<char>)
    requires
        is_number_text(a),
        is_number_text(b),
        is_number_text(c),
        !is_ws(o1),
        !is_ws(o2),
    ensures
        ({
            let t = a + seq![o1] + b + seq![o2] + c;
            let la = a.len() as int;
            let lb = b.len() as int;
            &&& no_ws(t)
            &&& t.subrange(0, la) == a
            &&& t[la] == o1
            &&& t.subrange(la + 1, la + 1 + lb) == b
            &&& t[la + 1 + lb] == o2
            &&& t.subrange(la + 2 + lb, t.len() as int) == c
        }),
{
    let p = seq![o1];
    let q = seq![o2];
    let t = a + p + b + q + c;
    let la = a.len() as int;
    let lb = b.len() as int;
    lemma_number_no_ws(a);
    lemma_number_no_ws(b);
    lemma_number_no_ws(c);
    assert(no_ws(p)) by {
        assert forall|j: int| 0 <= j < p.len() implies !is_ws(#[trigger] p[j]) by {
            assert(p[j] == o1);
        }
    }
    assert(no_ws(q)) by {
        assert forall|j: int| 0 <= j < q.len() implies !is_ws(#[trigger] q[j]) by {
            assert(q[j] == o2);
        }
    }
    lemma_concat_no_ws(a, p);
    lemma_concat_no_ws(a + p, b);
    lemma_concat_no_ws(a + p + b, q);
    lemma_concat_no_ws(a + p + b + q, c);
    assert(t.subrange(0, la) =~= a);
    assert(t.subrange(la + 1, la + 1 + lb) =~= b);
    assert(t.subrange(la + 2 + lb, t.len() as int) =~= c);
}

proof fn lemma_product_then_sum(a: Seq<char>, b: Seq<char>, c: Seq<char>)
    requires
        is_number_text(a),
        is_number_text(b),
        is_number_text(c),
    ensures
        arithmetic_expr(a + seq!['*'] + b + seq!['+'] + c) == Some(ExprModel::Add(
            Box::new(ExprModel::Mul(Box::new(ExprModel::Num(a)), Box::new(ExprModel::Num(b)))),
            Box::new(ExprModel::Num(c)),
        )),
{
    let la = a.len() as int;
    let lb = b.len() as int;
    let mab = ExprModel::Mul(Box::new(ExprModel::Num(a)), Box::new(ExprModel::Num(b)));
    let t = a + seq!['*'] + b + seq!['+'] + c;
    lemma_three_numbers_text(a, '*', b, '+', c);
    assert(t[la] == '*');
    assert(t.subrange(la + 1, la + 1 + lb) == b);
    assert(t[la + 1 + lb] == '+');
    assert(p_term(t, 0) == Some((mab, la + 1 + lb))) by {
        lemma_product_term(t, 0, a, b);
    }
    let e1 = ExprModel::Add(Box::new(mab), Box::new(ExprModel::Num(c)));
    let k = la + 1 + lb;
    assert(k + 1 + c.len() == t.len());
    assert(t.subrange(k + 1, t.len() as int) == c);
    lemma_one_addition(t, k, mab, c);
    lemma_whole_expression(t, mab, k, e1);
}

proof fn lemma_sum_then_product(a: Seq<char>, b: Seq<char>, c: Seq<char>)
    requires
        is_number_text(a),
        is_number_text(b),
        is_number_text(c),
    ensures
        arithmetic_expr(a + seq!['+'] + b + seq!['*'] + c) == Some(ExprModel::Add(
            Box::new(ExprModel::Num(a)),
            Box::new(ExprModel::Mul(Box::new(ExprModel::Num(b)), Box::new(ExprModel::Num(c)))),
        )),
{
    let la = a.len() as int;
    let na = ExprModel::Num(a);
    let mbc = ExprModel::Mul(Box::new(ExprModel::Num(b)), Box::new(ExprModel::Num(c)));
    let u = a + seq!['+'] + b + seq!['*'] + c;
    let n = u.len() as int;
    lemma_three_numbers_text(a, '+', b, '*', c);
    assert(p_term(u, 0) == Some((na, la))) by {
        lemma_number_term(u, 0, a);
    }
    assert(p_term(u, la + 1) == Some((mbc, n))) by {
        lemma_product_term(u, la + 1, b, c);
    }
    let e2 = ExprModel::Add(Box::new(na), Box::new(mbc));
    assert(p_expr_rest(u, n, e2) == Some((e2, n)));
    assert(p_expr_rest(u, la, na) == Some((e2, n)));
    lemma_whole_expression(u, na, la, e2);
}

/// Law: products bind tighter than sums. For numbers `a`, `b`, `c`,
/// `a*b+c` denotes `(a*b)+c` and `a+b*c` denotes `a+(b*c)`.
pub proof fn law_products_bind_tighter(a: Seq<char>, b: Seq<char>, c: Seq<char>)
    requires
        is_number_text(a),
        is_number_text(b),
        is_number_text(c),
    ensures
        arithmetic_expr(a + seq!['*'] + b + seq!['+'] + c) == Some(ExprModel::Add(
            Box::new(ExprModel::Mul(Box::new(ExprModel::Num(a)), Box::new(ExprModel::Num(b)))),
            Box::new(ExprModel::Num(c)),
        )),
        arithmetic_expr(a + seq!['+'] + b + seq!['*'] + c) == Some(ExprModel::Add(
            Box::new(ExprModel::Num(a)),
            Box::new(ExprModel::Mul(Box::new(ExprModel::Num(b)), Box::new(ExprModel::Num(c)))),
        )),
{
    lemma_product_then_sum(a, b, c);
    lemma_sum_then_product(a, b, c);
}

} // verus!
