//! Evaluation of the expressions that guard pointers.

use vstd::prelude::*;
use vstd::string::*;

verus! {

/// The error type of the `eval` crate.
#[verifier::external_type_specification]
#[verifier::external_body]
pub struct ExEvalError(eval::Error);

/// The kind of value that an expression evaluates to, with the truth value kept for a
/// boolean.
#[derive(Clone, Copy, Debug, PartialEq, Eq, Structural)]
pub enum ExprValue {
    Null,
    Bool(bool),
    Number,
    Text,
    Array,
    Object,
}

impl ExprValue {
    /// Whether the value is the boolean `true`.
    pub open spec fn spec_is_true(self) -> bool {
        self == ExprValue::Bool(true)
    }

    /// Whether the value is the boolean `true`.
    #[verifier::when_used_as_spec(spec_is_true)]
    pub fn is_true(self) -> (b: bool)
        ensures
            b == self.spec_is_true(),
    {
        match self {
            ExprValue::Bool(b) => b,
            _ => false,
        }
    }
}

/// The longest expression the engine hands to the `eval` crate, in characters. The crate
/// evaluates the tree it parses recursively, so the length bounds the depth of that
/// recursion.
pub const MAX_EXPRESSION_LEN: usize = 256;

/// A character of a word: an ASCII letter or digit, or `_`. A word is a name, a number or
/// one of `true` and `false`.
pub open spec fn is_word_char(c: char) -> bool {
    ('a' <= c && c <= 'z') || ('A' <= c && c <= 'Z') || ('0' <= c && c <= '9') || c == '_'
}

/// Where a scan of an expression stands: before an operand, inside a word, or after an
/// operand.
#[derive(Clone, Copy, Debug, PartialEq, Eq, Structural)]
pub enum Phase {
    Operand,
    Word,
    Operator,
}

/// The character after position `i`, or a space past the end.
pub open spec fn char_after(e: Seq<char>, i: int) -> char {
    if 0 <= i + 1 < e.len() {
        e[i + 1]
    } else {
        ' '
    }
}

/// Whether the rest of `e`, from position `i` on, completes an expression, given the phase
/// reached and the number of parentheses open. Spaces separate tokens and are otherwise
/// skipped. Before an operand there may stand `(`, or a `!` that does not begin `!=`, and an
/// operand is a word. After an operand there may stand `)` closing an open parenthesis, or a
/// binary operator: `==`, `!=`, `<`, `<=`, `>`, `>=`, `&&`, `||` or `/`. The expression
/// ends after an operand with every parenthesis closed.
pub open spec fn scan(e: Seq<char>, i: int, phase: Phase, depth: int) -> bool
    decreases e.len() - i,
{
    if i < 0 || i >= e.len() {
        phase != Phase::Operand && depth == 0
    } else {
        let c = e[i];
        let next = char_after(e, i);
        if c == ' ' {
            scan(e, i + 1, if phase == Phase::Word { Phase::Operator } else { phase }, depth)
        } else if is_word_char(c) {
            phase != Phase::Operator && scan(e, i + 1, Phase::Word, depth)
        } else if phase == Phase::Operand {
            if c == '(' {
                scan(e, i + 1, Phase::Operand, depth + 1)
            } else if c == '!' && next != '=' {
                scan(e, i + 1, Phase::Operand, depth)
            } else {
                false
            }
        } else if c == ')' {
            depth > 0 && scan(e, i + 1, Phase::Operator, depth - 1)
        } else if c == '/' {
            scan(e, i + 1, Phase::Operand, depth)
        } else if c == '<' || c == '>' {
            if next == '=' {
                scan(e, i + 2, Phase::Operand, depth)
            } else {
                scan(e, i + 1, Phase::Operand, depth)
            }
        } else if (c == '=' || c == '!') && next == '=' {
            scan(e, i + 2, Phase::Operand, depth)
        } else if (c == '&' || c == '|') && next == c {
            scan(e, i + 2, Phase::Operand, depth)
        } else {
            false
        }
    }
}

/// The expressions the engine hands to the `eval` crate: at most [`MAX_EXPRESSION_LEN`]
/// characters that [`scan`] reads as one expression, built from words, parentheses, `!`,
/// the comparisons, `&&`, `||` and `/` (`1==1`, `foo == bar`,
/// `(foo == bar) || (spam != eggs)`, `!(a < 3)`). The crate panics on some other texts:
/// `()` and `)(` empty its parse stack, `!` alone leaves an operator without operand, text
/// outside ASCII is sliced off a character boundary, `18446744073709551615 + 1` and `1 % 0`
/// fail in its integer arithmetic, and `0..99999999999` allocates a range of that length.
pub open spec fn admissible(e: Seq<char>) -> bool {
    e.len() <= MAX_EXPRESSION_LEN && scan(e, 0, Phase::Operand, 0)
}

/// Whether the engine hands this expression to the `eval` crate (see [`admissible`]).
pub fn is_admissible(expr: &str) -> (ok: bool)
    ensures
        ok == admissible(expr@),
{
    let n = expr.unicode_len();
    if n > MAX_EXPRESSION_LEN {
        return false;
    }
    let ghost e = expr@;
    let mut i: usize = 0;
    let mut phase = Phase::Operand;
    let mut depth: usize = 0;
    while i < n
        invariant
            n == e.len(),
            e == expr@,
            n <= MAX_EXPRESSION_LEN,
            i <= n + 1,
            depth <= i,
            scan(e, i as int, phase, depth as int) == scan(e, 0, Phase::Operand, 0),
        decreases n + 1 - i,
    {
        let c = expr.get_char(i);
        let next = if i + 1 < n {
            expr.get_char(i + 1)
        } else {
            ' '
        };
        assert(next == char_after(e, i as int));
        let word = ('a' <= c && c <= 'z') || ('A' <= c && c <= 'Z') || ('0' <= c && c <= '9')
            || c == '_';
        if c == ' ' {
            if phase == Phase::Word {
                phase = Phase::Operator;
            }
            i = i + 1;
        } else if word {
            if phase == Phase::Operator {
                return false;
            }
            phase = Phase::Word;
            i = i + 1;
        } else if phase == Phase::Operand {
            if c == '(' {
                depth = depth + 1;
                i = i + 1;
            } else if c == '!' && next != '=' {
                i = i + 1;
            } else {
                return false;
            }
        } else if c == ')' {
            if depth == 0 {
                return false;
            }
            depth = depth - 1;
            phase = Phase::Operator;
            i = i + 1;
        } else if c == '/' {
            phase = Phase::Operand;
            i = i + 1;
        } else if c == '<' || c == '>' {
            phase = Phase::Operand;
            if next == '=' {
                i = i + 2;
            } else {
                i = i + 1;
            }
        } else if (c == '=' || c == '!') && next == '=' {
            phase = Phase::Operand;
            i = i + 2;
        } else if (c == '&' || c == '|') && next == c {
            phase = Phase::Operand;
            i = i + 2;
        } else {
            return false;
        }
    }
    phase != Phase::Operand && depth == 0
}

/// What `eval::Expr::new(expr).exec()` gives for an admissible expression, with no values
/// and no functions of its own: `None` where it reports an error. The crate's grammar and
/// arithmetic take pages to state; the result depends on the text alone.
pub uninterp spec fn evaluation(expr: Seq<char>) -> Option<ExprValue>;

/// Calls `eval::Expr::new(expr).exec()` on an admissible expression, on which it returns
/// without panicking, and tells the variants of the resulting JSON value apart; the result
/// is [`evaluation`] of the text.
#[verifier::external_body]
pub(crate) fn evaluate(expr: &str) -> (result: Result<ExprValue, eval::Error>)
    requires
        admissible(expr@),
    ensures
        match result {
            Ok(value) => evaluation(expr@) == Some(value),
            Err(_) => evaluation(expr@) is None,
        },
{
    match eval::Expr::new(expr).exec() {
        Ok(eval::Value::Null) => Ok(ExprValue::Null),
        Ok(eval::Value::Bool(b)) => Ok(ExprValue::Bool(b)),
        Ok(eval::Value::Number(_)) => Ok(ExprValue::Number),
        Ok(eval::Value::String(_)) => Ok(ExprValue::Text),
        Ok(eval::Value::Array(_)) => Ok(ExprValue::Array),
        Ok(eval::Value::Object(_)) => Ok(ExprValue::Object),
        Err(e) => Err(e),
    }
}

} // verus!
