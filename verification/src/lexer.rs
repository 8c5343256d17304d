//! The lexer: a single left-to-right scan turning source text into tokens,
//! specified as a character-by-character state machine (`lex_step`) folded
//! over the input (`lex_from`), with a finishing step that flushes the
//! buffers, rejects an unterminated comment and appends the end-of-input
//! token.

use crate::digits::is_digit_char;
use crate::error::{err_v, error_view, ErrV, Error, ErrorType};
use crate::types::{token_view, tokens_view, Token, TokenType, TokenV};
use vstd::prelude::*;
use vstd::string::StrSliceExecFns;
use vstd::string::StringExecFns;

verus! {

/// Whether `c` may start an identifier or keyword: an ASCII letter or `_`.
pub open spec fn is_name_start(c: char) -> bool {
    ('a' <= c && c <= 'z') || ('A' <= c && c <= 'Z') || c == '_'
}

/// Whether `c` may continue an identifier or keyword.
pub open spec fn is_name_char(c: char) -> bool {
    is_name_start(c) || is_digit_char(c)
}

/// Whether `c` is a binary operator character.
pub open spec fn is_operator_char(c: char) -> bool {
    c == '+' || c == '-' || c == '*' || c == '/' || c == '%' || c == '^'
}

/// The fixed keyword set.
pub open spec fn is_keyword(s: Seq<char>) -> bool {
    s == "let"@ || s == "if"@ || s == "else"@ || s == "while"@ || s == "for"@
}

/// Whether a buffered number already contains a decimal point.
pub open spec fn has_dot(s: Seq<char>) -> bool {
    exists|i: int| 0 <= i < s.len() && s[i] == '.'
}

/// The lexer's state between two characters: the tokens already emitted,
/// the identifier and number runs in progress (with the position of their
/// first character), an operator waiting to see whether `=` follows (for
/// compound assignment operators such as `+=`), the comment flag, the
/// current position, and the first error, which freezes the machine.
#[verifier::ext_equal]
pub struct LexStateV {
    pub tokens: Seq<TokenV>,
    pub name: Seq<char>,
    pub name_line: nat,
    pub name_col: nat,
    pub number: Seq<char>,
    pub num_line: nat,
    pub num_col: nat,
    pub pending: Option<(char, nat, nat)>,
    pub in_comment: bool,
    pub line: nat,
    pub column: nat,
    pub error: Option<ErrV>,
}

/// The state before any character is read.
pub open spec fn lex_init() -> LexStateV {
    LexStateV {
        tokens: Seq::empty(),
        name: Seq::empty(),
        name_line: 0,
        name_col: 0,
        number: Seq::empty(),
        num_line: 0,
        num_col: 0,
        pending: None,
        in_comment: false,
        line: 1,
        column: 1,
        error: None,
    }
}

/// Appends one token.
pub open spec fn push_tok(
    st: LexStateV,
    kind: TokenType,
    text: Seq<char>,
    line: nat,
    column: nat,
) -> LexStateV {
    LexStateV { tokens: st.tokens.push(TokenV { kind, text, line, column }), ..st }
}

/// Flushes the identifier run, as a keyword when it matches the keyword set.
pub open spec fn flush_name(st: LexStateV) -> LexStateV {
    if st.name.len() == 0 {
        st
    } else {
        let kind = if is_keyword(st.name) {
            TokenType::Keyword
        } else {
            TokenType::Identifier
        };
        LexStateV { name: Seq::empty(), ..push_tok(st, kind, st.name, st.name_line, st.name_col) }
    }
}

/// Flushes the number run: a float when it contains a decimal point, an
/// integer otherwise.
pub open spec fn flush_number(st: LexStateV) -> LexStateV {
    if st.number.len() == 0 {
        st
    } else {
        let kind = if has_dot(st.number) {
            TokenType::Float
        } else {
            TokenType::Integer
        };
        LexStateV { number: Seq::empty(), ..push_tok(st, kind, st.number, st.num_line, st.num_col) }
    }
}

/// Emits a waiting operator as a plain binary operator token.
pub open spec fn flush_pending(st: LexStateV) -> LexStateV {
    match st.pending {
        Some((op, line, column)) => LexStateV {
            pending: None,
            ..push_tok(st, TokenType::BinaryOperator, seq![op], line, column)
        },
        None => st,
    }
}

/// Advances the position over `c`: a newline or carriage return moves to
/// the start of the next line, any other character moves one column right.
pub open spec fn lex_advance(st: LexStateV, c: char) -> LexStateV {
    if c == '\n' || c == '\r' {
        LexStateV { line: st.line + 1, column: 1, ..st }
    } else {
        LexStateV { column: st.column + 1, ..st }
    }
}

/// Handles one character outside comments, with no waiting operator and no
/// error: it extends a run, or flushes the runs and dispatches on the
/// character.
pub open spec fn lex_plain(st: LexStateV, c: char) -> LexStateV {
    if is_name_char(c) && (st.name.len() > 0 || is_name_start(c)) {
        if st.name.len() == 0 {
            let st1 = flush_number(st);
            LexStateV { name: seq![c], name_line: st.line, name_col: st.column, ..st1 }
        } else {
            LexStateV { name: st.name.push(c), ..st }
        }
    } else if is_digit_char(c) {
        if st.number.len() == 0 {
            LexStateV { number: seq![c], num_line: st.line, num_col: st.column, ..st }
        } else {
            LexStateV { number: st.number.push(c), ..st }
        }
    } else if c == '.' && st.number.len() > 0 {
        if has_dot(st.number) {
            LexStateV {
                error: Some(
                    err_v(
                        ErrorType::SyntaxError,
                        "Number cannot contain more than one decimal."@,
                        st.line,
                        st.column,
                    ),
                ),
                ..st
            }
        } else {
            LexStateV { number: st.number.push('.'), ..st }
        }
    } else {
        let st1 = flush_number(flush_name(st));
        if c == ' ' || c == '\t' || c == '\n' || c == '\r' {
            st1
        } else if c == '#' {
            LexStateV { in_comment: true, ..st1 }
        } else if c == '=' {
            push_tok(st1, TokenType::AssignmentOperator, seq!['='], st.line, st.column)
        } else if is_operator_char(c) {
            LexStateV { pending: Some((c, st.line, st.column)), ..st1 }
        } else if c == '(' {
            push_tok(st1, TokenType::OpenParenthesis, seq![c], st.line, st.column)
        } else if c == ')' {
            push_tok(st1, TokenType::CloseParenthesis, seq![c], st.line, st.column)
        } else if c == '[' {
            push_tok(st1, TokenType::OpenBracket, seq![c], st.line, st.column)
        } else if c == ']' {
            push_tok(st1, TokenType::CloseBracket, seq![c], st.line, st.column)
        } else if c == '{' {
            push_tok(st1, TokenType::OpenBrace, seq![c], st.line, st.column)
        } else if c == '}' {
            push_tok(st1, TokenType::CloseBrace, seq![c], st.line, st.column)
        } else if c == ',' {
            push_tok(st1, TokenType::Comma, seq![c], st.line, st.column)
        } else if c == '.' {
            push_tok(st1, TokenType::Dot, seq![c], st.line, st.column)
        } else {
            LexStateV {
                error: Some(
                    err_v(ErrorType::SyntaxError, "Invalid character"@, st.line, st.column),
                ),
                ..st1
            }
        }
    }
}

/// One step of the machine: a set error freezes it; inside a comment only
/// the terminator matters; a waiting operator becomes a compound assignment
/// operator when `=` follows, else it is emitted and the character is
/// handled normally.
pub open spec fn lex_step(st: LexStateV, c: char) -> LexStateV {
    if st.error.is_some() {
        st
    } else if st.in_comment {
        if c == '!' {
            lex_advance(LexStateV { in_comment: false, ..st }, c)
        } else {
            lex_advance(st, c)
        }
    } else {
        match st.pending {
            Some((op, line, column)) => {
                if c == '=' {
                    let st1 = push_tok(
                        LexStateV { pending: None, ..st },
                        TokenType::AssignmentOperator,
                        seq![op, '='],
                        line,
                        column,
                    );
                    lex_advance(st1, c)
                } else {
                    lex_advance(lex_plain(flush_pending(st), c), c)
                }
            },
            None => lex_advance(lex_plain(st, c), c),
        }
    }
}

/// The end of the input: flush everything, reject an unterminated comment,
/// and append the end-of-input token.
pub open spec fn lex_finish(st: LexStateV) -> Result<Seq<TokenV>, ErrV> {
    if st.error.is_some() {
        Err(st.error.unwrap())
    } else {
        let st1 = flush_number(flush_name(flush_pending(st)));
        if st1.in_comment {
            Err(err_v(ErrorType::SyntaxError, "Comment not closed."@, st1.line, st1.column))
        } else {
            Ok(
                st1.tokens.push(
                    TokenV {
                        kind: TokenType::EOF,
                        text: Seq::empty(),
                        line: st1.line,
                        column: st1.column,
                    },
                ),
            )
        }
    }
}

/// Folds the machine over the input from position `i`.
pub open spec fn lex_from(s: Seq<char>, i: int, st: LexStateV) -> Result<Seq<TokenV>, ErrV>
    decreases s.len() - i,
{
    if i < 0 || i >= s.len() {
        lex_finish(st)
    } else {
        lex_from(s, i + 1, lex_step(st, s[i]))
    }
}

/// The token sequence of a source text, or its first lexical error.
pub open spec fn spec_tokenize(s: Seq<char>) -> Result<Seq<TokenV>, ErrV> {
    lex_from(s, 0, lex_init())
}

/// Extending a run with `c` adds a decimal point exactly when `c` is one.
proof fn lemma_has_dot_push(s: Seq<char>, c: char)
    ensures
        has_dot(s.push(c)) == (has_dot(s) || c == '.'),
{
    if has_dot(s) {
        let i = choose|i: int| 0 <= i < s.len() && s[i] == '.';
        assert(s.push(c)[i] == '.');
    }
    if c == '.' {
        assert(s.push(c)[s.len() as int] == '.');
    }
    if has_dot(s.push(c)) {
        let i = choose|i: int| 0 <= i < s.push(c).len() && s.push(c)[i] == '.';
        if i < s.len() {
            assert(s[i] == '.');
        }
    }
}

/// The executable lexer state. The identifier and number runs are carried
/// as ranges into the source text, so that their text can be cut out with
/// one substring at flush time.
struct Lexer {
    tokens: Vec<Token>,
    name_start: usize,
    name_end: usize,
    name_line: u128,
    name_col: u128,
    num_start: usize,
    num_end: usize,
    num_dot: bool,
    num_line: u128,
    num_col: u128,
    pending: Option<(char, u128, u128)>,
    in_comment: bool,
    line: u128,
    column: u128,
    error: Option<Error>,
}

impl Lexer {
    /// The machine state this executable state stands for, given the source.
    spec fn view_at(self, src: Seq<char>) -> LexStateV {
        LexStateV {
            tokens: tokens_view(self.tokens@),
            name: src.subrange(self.name_start as int, self.name_end as int),
            name_line: self.name_line as nat,
            name_col: self.name_col as nat,
            number: src.subrange(self.num_start as int, self.num_end as int),
            num_line: self.num_line as nat,
            num_col: self.num_col as nat,
            pending: match self.pending {
                Some((op, line, column)) => Some((op, line as nat, column as nat)),
                None => None,
            },
            in_comment: self.in_comment,
            line: self.line as nat,
            column: self.column as nat,
            error: match self.error {
                Some(e) => Some(error_view(e)),
                None => None,
            },
        }
    }

    /// Structural facts the loop maintains: the runs are well-formed ranges
    /// that end at the current position, the dot flag mirrors the number
    /// run, and the position counters stay small enough to step.
    spec fn runs_ok(self, src: Seq<char>, i: int) -> bool {
        &&& self.name_start <= self.name_end <= src.len()
        &&& self.name_end <= i
        &&& self.num_start <= self.num_end <= src.len()
        &&& self.num_end <= i
        &&& (self.error.is_none() ==> (self.name_start < self.name_end ==> self.name_end == i))
        &&& (self.error.is_none() ==> (self.num_start < self.num_end ==> self.num_end == i))
        &&& self.num_dot == has_dot(src.subrange(self.num_start as int, self.num_end as int))
        &&& self.line as int <= i + 1
        &&& self.column as int <= i + 1
        &&& (match self.pending {
            Some((op, _, _)) => is_operator_char(op),
            None => true,
        })
        &&& (self.in_comment ==> self.name_start == self.name_end && self.num_start
            == self.num_end)
        &&& (self.pending.is_some() ==> self.name_start == self.name_end && self.num_start
            == self.num_end)
        &&& !(self.name_start < self.name_end && self.num_start < self.num_end)
    }
}

/// Whether `name` is one of the keywords.
fn is_keyword_exec(name: &String) -> (r: bool)
    ensures
        r == is_keyword(name@),
{
    let k0 = String::from_str("let");
    let k1 = String::from_str("if");
    let k2 = String::from_str("else");
    let k3 = String::from_str("while");
    let k4 = String::from_str("for");
    *name == k0 || *name == k1 || *name == k2 || *name == k3 || *name == k4
}

/// The one-character text of a binary operator.
fn op_str(op: char) -> (r: &'static str)
    requires
        is_operator_char(op),
    ensures
        r@ == seq![op],
{
    proof {
        reveal_strlit("+");
        reveal_strlit("-");
        reveal_strlit("*");
        reveal_strlit("/");
        reveal_strlit("%");
        reveal_strlit("^");
    }
    let r: &'static str = if op == '+' {
        "+"
    } else if op == '-' {
        "-"
    } else if op == '*' {
        "*"
    } else if op == '/' {
        "/"
    } else if op == '%' {
        "%"
    } else {
        "^"
    };
    proof {
        assert(r@ =~= seq![op]);
    }
    r
}

/// The two-character text of a compound assignment operator.
fn op_eq_str(op: char) -> (r: &'static str)
    requires
        is_operator_char(op),
    ensures
        r@ == seq![op, '='],
{
    proof {
        reveal_strlit("+=");
        reveal_strlit("-=");
        reveal_strlit("*=");
        reveal_strlit("/=");
        reveal_strlit("%=");
        reveal_strlit("^=");
    }
    let r: &'static str = if op == '+' {
        "+="
    } else if op == '-' {
        "-="
    } else if op == '*' {
        "*="
    } else if op == '/' {
        "/="
    } else if op == '%' {
        "%="
    } else {
        "^="
    };
    proof {
        assert(r@ =~= seq![op, '=']);
    }
    r
}

impl Lexer {
    /// Flushes the identifier run, leaving an empty run.
    fn flush_name_x(&mut self, src: &str)
        requires
            old(self).name_start <= old(self).name_end <= src@.len(),
        ensures
            final(self).view_at(src@) == flush_name(old(self).view_at(src@)),
            final(self).name_start == 0 && final(self).name_end == 0,
            final(self).num_start == old(self).num_start,
            final(self).num_end == old(self).num_end,
            final(self).num_dot == old(self).num_dot,
            final(self).pending == old(self).pending,
            final(self).line == old(self).line,
            final(self).column == old(self).column,
            final(self).in_comment == old(self).in_comment,
            final(self).error == old(self).error,
    {
        let ghost ov = self.view_at(src@);
        if self.name_start < self.name_end {
            let text = src.substring_char(self.name_start, self.name_end);
            let value = String::from_str(text);
            let kind = if is_keyword_exec(&value) {
                TokenType::Keyword
            } else {
                TokenType::Identifier
            };
            let ghost toks = self.tokens@;
            let t = Token::Token {
                token_type: kind,
                value,
                line: self.name_line,
                column: self.name_col,
            };
            self.tokens.push(t);
            self.name_start = 0;
            self.name_end = 0;
            proof {
                assert(tokens_view(self.tokens@) =~= tokens_view(toks).push(token_view(t)));
                assert(src@.subrange(0, 0) =~= Seq::<char>::empty());
                assert(self.view_at(src@) =~= flush_name(ov));
            }
        } else {
            self.name_start = 0;
            self.name_end = 0;
            proof {
                assert(src@.subrange(0, 0) =~= Seq::<char>::empty());
                assert(ov.name =~= Seq::<char>::empty());
                assert(self.view_at(src@) =~= flush_name(ov));
            }
        }
    }

    /// Flushes the number run, leaving an empty run.
    fn flush_number_x(&mut self, src: &str)
        requires
            old(self).num_start <= old(self).num_end <= src@.len(),
            old(self).num_dot == has_dot(
                src@.subrange(old(self).num_start as int, old(self).num_end as int),
            ),
        ensures
            final(self).view_at(src@) == flush_number(old(self).view_at(src@)),
            final(self).num_start == 0 && final(self).num_end == 0,
            final(self).num_dot == false,
            final(self).name_start == old(self).name_start,
            final(self).name_end == old(self).name_end,
            final(self).pending == old(self).pending,
            final(self).line == old(self).line,
            final(self).column == old(self).column,
            final(self).in_comment == old(self).in_comment,
            final(self).error == old(self).error,
    {
        let ghost ov = self.view_at(src@);
        if self.num_start < self.num_end {
            let text = src.substring_char(self.num_start, self.num_end);
            let value = String::from_str(text);
            let kind = if self.num_dot {
                TokenType::Float
            } else {
                TokenType::Integer
            };
            let ghost toks = self.tokens@;
            let t = Token::Token {
                token_type: kind,
                value,
                line: self.num_line,
                column: self.num_col,
            };
            self.tokens.push(t);
            self.num_start = 0;
            self.num_end = 0;
            self.num_dot = false;
            proof {
                assert(tokens_view(self.tokens@) =~= tokens_view(toks).push(token_view(t)));
                assert(src@.subrange(0, 0) =~= Seq::<char>::empty());
                assert(self.view_at(src@) =~= flush_number(ov));
            }
        } else {
            self.num_start = 0;
            self.num_end = 0;
            self.num_dot = false;
            proof {
                assert(src@.subrange(0, 0) =~= Seq::<char>::empty());
                assert(ov.number =~= Seq::<char>::empty());
                assert(!has_dot(Seq::<char>::empty()));
                assert(self.view_at(src@) =~= flush_number(ov));
            }
        }
    }

    /// Emits a waiting operator as a plain binary operator token.
    fn flush_pending_x(&mut self, src: &str)
        requires
            match old(self).pending {
                Some((op, _, _)) => is_operator_char(op),
                None => true,
            },
        ensures
            final(self).view_at(src@) == flush_pending(old(self).view_at(src@)),
            final(self).pending.is_none(),
            final(self).name_start == old(self).name_start,
            final(self).name_end == old(self).name_end,
            final(self).num_start == old(self).num_start,
            final(self).num_end == old(self).num_end,
            final(self).num_dot == old(self).num_dot,
            final(self).line == old(self).line,
            final(self).column == old(self).column,
            final(self).in_comment == old(self).in_comment,
            final(self).error == old(self).error,
    {
        let ghost ov = self.view_at(src@);
        match self.pending {
            Some((op, pl, pc)) => {
                let value = String::from_str(op_str(op));
                let ghost toks = self.tokens@;
                let t = Token::Token {
                    token_type: TokenType::BinaryOperator,
                    value,
                    line: pl,
                    column: pc,
                };
                self.tokens.push(t);
                self.pending = None;
                proof {
                    assert(tokens_view(self.tokens@) =~= tokens_view(toks).push(token_view(t)));
                    assert(self.view_at(src@) =~= flush_pending(ov));
                }
            },
            None => {
                proof {
                    assert(self.view_at(src@) =~= flush_pending(ov));
                }
            },
        }
    }

    /// Handles one character outside comments with no waiting operator,
    /// mirroring `lex_plain`; the position does not move.
    fn plain(&mut self, src: &str, i: usize, c: char)
        requires
            i < src@.len(),
            src@.len() <= usize::MAX as int,
            c == src@[i as int],
            old(self).runs_ok(src@, i as int),
            old(self).error.is_none(),
            old(self).in_comment == false,
            old(self).pending.is_none(),
        ensures
            final(self).view_at(src@) == lex_plain(old(self).view_at(src@), c),
            final(self).runs_ok(src@, i as int + 1),
            final(self).line == old(self).line,
            final(self).column == old(self).column,
    {
        let ghost s = src@;
        let ghost ov = self.view_at(s);
        proof {
            reveal_strlit("=");
            reveal_strlit("(");
            reveal_strlit(")");
            reveal_strlit("[");
            reveal_strlit("]");
            reveal_strlit("{");
            reveal_strlit("}");
            reveal_strlit(",");
            reveal_strlit(".");
        }
        let is_digit = '0' <= c && c <= '9';
        let is_start = ('a' <= c && c <= 'z') || ('A' <= c && c <= 'Z') || c == '_';
        let name_active = self.name_start < self.name_end;
        if (is_start || is_digit) && (name_active || is_start) {
            if !name_active {
                self.flush_number_x(src);
                self.name_start = i;
                self.name_end = i + 1;
                self.name_line = self.line;
                self.name_col = self.column;
                proof {
                    assert(s.subrange(i as int, i as int + 1) =~= seq![c]);
                    assert(self.view_at(s) =~= lex_plain(ov, c));
                }
            } else {
                let ghost oldname = s.subrange(self.name_start as int, self.name_end as int);
                self.name_end = i + 1;
                proof {
                    assert(s.subrange(self.name_start as int, i as int + 1) =~= oldname.push(c));
                    assert(self.view_at(s) =~= lex_plain(ov, c));
                }
            }
        } else if is_digit {
            if self.num_start >= self.num_end {
                let ghost oldnum = s.subrange(self.num_start as int, self.num_end as int);
                self.num_start = i;
                self.num_end = i + 1;
                self.num_line = self.line;
                self.num_col = self.column;
                self.num_dot = false;
                proof {
                    assert(s.subrange(i as int, i as int + 1) =~= seq![c]);
                    assert(!has_dot(seq![c]));
                    assert(self.view_at(s) =~= lex_plain(ov, c));
                }
            } else {
                let ghost oldnum = s.subrange(self.num_start as int, self.num_end as int);
                self.num_end = i + 1;
                proof {
                    assert(s.subrange(self.num_start as int, i as int + 1) =~= oldnum.push(c));
                    lemma_has_dot_push(oldnum, c);
                    assert(self.view_at(s) =~= lex_plain(ov, c));
                }
            }
        } else if c == '.' && self.num_start < self.num_end {
            if self.num_dot {
                let msg = String::from_str("Number cannot contain more than one decimal.");
                proof {
                    reveal_strlit("Number cannot contain more than one decimal.");
                }
                self.error = Some(Error::new(ErrorType::SyntaxError, msg, self.line, self.column));
                proof {
                    assert(self.view_at(s) =~= lex_plain(ov, c));
                }
            } else {
                let ghost oldnum = s.subrange(self.num_start as int, self.num_end as int);
                self.num_end = i + 1;
                self.num_dot = true;
                proof {
                    assert(s.subrange(self.num_start as int, i as int + 1) =~= oldnum.push(c));
                    lemma_has_dot_push(oldnum, c);
                    assert(self.view_at(s) =~= lex_plain(ov, c));
                }
            }
        } else {
            self.flush_name_x(src);
            self.flush_number_x(src);
            let ghost st1 = self.view_at(s);
            proof {
                assert(st1 == flush_number(flush_name(ov)));
            }
            if c == ' ' || c == '\t' || c == '\n' || c == '\r' {
                proof {
                    assert(self.view_at(s) =~= lex_plain(ov, c));
                }
            } else if c == '#' {
                self.in_comment = true;
                proof {
                    assert(self.view_at(s) =~= lex_plain(ov, c));
                }
            } else if c == '=' {
                let ghost toks = self.tokens@;
                let t = Token::Token {
                    token_type: TokenType::AssignmentOperator,
                    value: String::from_str("="),
                    line: self.line,
                    column: self.column,
                };
                self.tokens.push(t);
                proof {
                    assert(tokens_view(self.tokens@) =~= tokens_view(toks).push(token_view(t)));
                    assert(t.arrow_Token_value()@ =~= seq!['=']);
                    assert(self.view_at(s) =~= lex_plain(ov, c));
                }
            } else if c == '+' || c == '-' || c == '*' || c == '/' || c == '%' || c == '^' {
                self.pending = Some((c, self.line, self.column));
                proof {
                    assert(self.view_at(s) =~= lex_plain(ov, c));
                }
            } else if c == '(' || c == ')' || c == '[' || c == ']' || c == '{' || c == '}' || c
                == ',' || c == '.' {
                let kind = if c == '(' {
                    TokenType::OpenParenthesis
                } else if c == ')' {
                    TokenType::CloseParenthesis
                } else if c == '[' {
                    TokenType::OpenBracket
                } else if c == ']' {
                    TokenType::CloseBracket
                } else if c == '{' {
                    TokenType::OpenBrace
                } else if c == '}' {
                    TokenType::CloseBrace
                } else if c == ',' {
                    TokenType::Comma
                } else {
                    TokenType::Dot
                };
                let text: &'static str = if c == '(' {
                    "("
                } else if c == ')' {
                    ")"
                } else if c == '[' {
                    "["
                } else if c == ']' {
                    "]"
                } else if c == '{' {
                    "{"
                } else if c == '}' {
                    "}"
                } else if c == ',' {
                    ","
                } else {
                    "."
                };
                proof {
                    assert(text@ =~= seq![c]);
                }
                let ghost toks = self.tokens@;
                let t = Token::Token {
                    token_type: kind,
                    value: String::from_str(text),
                    line: self.line,
                    column: self.column,
                };
                self.tokens.push(t);
                proof {
                    assert(tokens_view(self.tokens@) =~= tokens_view(toks).push(token_view(t)));
                    assert(self.view_at(s) =~= lex_plain(ov, c));
                }
            } else {
                let msg = String::from_str("Invalid character");
                proof {
                    reveal_strlit("Invalid character");
                }
                self.error = Some(Error::new(ErrorType::SyntaxError, msg, self.line, self.column));
                proof {
                    assert(self.view_at(s) =~= lex_plain(ov, c));
                }
            }
        }
    }

    /// One step of the machine over the character at position `i`.
    fn step(&mut self, src: &str, i: usize, c: char)
        requires
            i < src@.len(),
            src@.len() <= usize::MAX as int,
            c == src@[i as int],
            old(self).runs_ok(src@, i as int),
        ensures
            final(self).view_at(src@) == lex_step(old(self).view_at(src@), c),
            final(self).runs_ok(src@, i as int + 1),
    {
        let ghost s = src@;
        let ghost ov = self.view_at(s);
        if self.error.is_some() {
            proof {
                assert(self.view_at(s) =~= lex_step(ov, c));
            }
            return ;
        }
        if self.in_comment {
            if c == '!' {
                self.in_comment = false;
            }
            self.advance(c, i);
            proof {
                assert(self.view_at(s) =~= lex_step(ov, c));
            }
            return ;
        }
        let pending = self.pending;
        match pending {
            Some((op, pl, pc)) => {
                if c == '=' {
                    self.pending = None;
                    let ghost toks = self.tokens@;
                    let t = Token::Token {
                        token_type: TokenType::AssignmentOperator,
                        value: String::from_str(op_eq_str(op)),
                        line: pl,
                        column: pc,
                    };
                    self.tokens.push(t);
                    self.advance(c, i);
                    proof {
                        assert(tokens_view(self.tokens@) =~= tokens_view(toks).push(
                            token_view(t),
                        ));
                        assert(self.view_at(s) =~= lex_step(ov, c));
                    }
                } else {
                    self.flush_pending_x(src);
                    if self.error.is_none() {
                        self.plain(src, i, c);
                    }
                    self.advance(c, i);
                    proof {
                        assert(self.view_at(s) =~= lex_step(ov, c));
                    }
                }
            },
            None => {
                self.plain(src, i, c);
                self.advance(c, i);
                proof {
                    assert(self.view_at(s) =~= lex_step(ov, c));
                }
            },
        }
    }

    /// Moves the position over `c`.
    fn advance(&mut self, c: char, i: usize)
        requires
            old(self).line as int <= i as int + 1,
            old(self).column as int <= i as int + 1,
            i < usize::MAX,
        ensures
            *final(self) == (Lexer {
                line: if c == '\n' || c == '\r' {
                    (old(self).line + 1) as u128
                } else {
                    old(self).line
                },
                column: if c == '\n' || c == '\r' {
                    1
                } else {
                    (old(self).column + 1) as u128
                },
                ..*old(self)
            }),
    {
        if c == '\n' || c == '\r' {
            self.line = self.line + 1;
            self.column = 1;
        } else {
            self.column = self.column + 1;
        }
    }

    /// The end of input: flushes, rejects an open comment, appends the
    /// end-of-input token.
    fn finish(self, src: &str) -> (r: Result<Vec<Token>, Error>)
        requires
            self.runs_ok(src@, src@.len() as int),
        ensures
            ({
                let m = lex_finish(self.view_at(src@));
                match r {
                    Ok(ts) => m == Ok::<Seq<TokenV>, ErrV>(tokens_view(ts@)),
                    Err(e) => m == Err::<Seq<TokenV>, ErrV>(error_view(e)),
                }
            }),
    {
        let ghost s = src@;
        let ghost ov = self.view_at(s);
        let mut lx = self;
        match lx.error {
            Some(e) => Err(e),
            None => {
                lx.flush_pending_x(src);
                lx.flush_name_x(src);
                lx.flush_number_x(src);
                proof {
                    assert(lx.view_at(s) == flush_number(flush_name(flush_pending(ov))));
                }
                if lx.in_comment {
                    let msg = String::from_str("Comment not closed.");
                    proof {
                        reveal_strlit("Comment not closed.");
                    }
                    Err(Error::new(ErrorType::SyntaxError, msg, lx.line, lx.column))
                } else {
                    let ghost toks = lx.tokens@;
                    let t = Token::Token {
                        token_type: TokenType::EOF,
                        value: String::new(),
                        line: lx.line,
                        column: lx.column,
                    };
                    lx.tokens.push(t);
                    proof {
                        assert(tokens_view(lx.tokens@) =~= tokens_view(toks).push(token_view(t)));
                        assert(t.arrow_Token_value()@ =~= Seq::<char>::empty());
                    }
                    Ok(lx.tokens)
                }
            },
        }
    }
}

/// Turns source text into tokens: the fold of the lexing machine over the
/// characters, ending with the end-of-input token, or the first lexical
/// error (which aborts tokenization entirely).
pub fn tokenize(source_code: &str) -> (r: Result<Vec<Token>, Error>)
    ensures
        ({
            let m = spec_tokenize(source_code@);
            match r {
                Ok(ts) => m == Ok::<Seq<TokenV>, ErrV>(tokens_view(ts@)),
                Err(e) => m == Err::<Seq<TokenV>, ErrV>(error_view(e)),
            }
        }),
{
    let ghost s = source_code@;
    let n = source_code.unicode_len();
    let mut lx = Lexer {
        tokens: Vec::new(),
        name_start: 0,
        name_end: 0,
        name_line: 0,
        name_col: 0,
        num_start: 0,
        num_end: 0,
        num_dot: false,
        num_line: 0,
        num_col: 0,
        pending: None,
        in_comment: false,
        line: 1,
        column: 1,
        error: None,
    };
    proof {
        assert(s.subrange(0, 0) =~= Seq::<char>::empty());
        assert(tokens_view(Seq::<Token>::empty()) =~= Seq::<TokenV>::empty());
        assert(lx.view_at(s) =~= lex_init());
    }
    let mut i: usize = 0;
    while i < n
        invariant
            i <= n,
            n == s.len(),
            s == source_code@,
            lx.runs_ok(s, i as int),
            lex_from(s, i as int, lx.view_at(s)) == spec_tokenize(s),
        decreases n - i,
    {
        let c = source_code.get_char(i);
        let ghost before = lx.view_at(s);
        lx.step(source_code, i, c);
        proof {
            assert(lex_from(s, i as int, before) == lex_from(
                s,
                i as int + 1,
                lex_step(before, c),
            ));
        }
        i = i + 1;
    }
    lx.finish(source_code)
}

} // verus!
