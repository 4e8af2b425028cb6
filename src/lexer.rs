//! The lexer: source bytes to a restartable token stream. Names are interned:
//! a token that carries a name carries its index in the symbol table.
use vstd::prelude::*;
use vstd::string::StringSliceAdditionalSpecFns;
use crate::isa::Symbol;
use crate::macros::MacroArgumentType;

verus! {

/// Numeric literals saturate at this magnitude; any literal this large is out of
/// range for every operand.
pub const NUMBER_LIMIT: i32 = 1000000;

/// The sixteen mnemonics.
#[derive(Clone, Copy, Debug, PartialEq, Eq, Structural)]
pub enum Mnemonic {
    Nop,
    Mov,
    Ldw,
    Stw,
    Lda,
    Psh,
    Pop,
    Jmp,
    Add,
    Sub,
    And,
    Or,
    Inv,
    Cmp,
    Shl,
    Shr,
}

#[derive(Clone, Copy, Debug, PartialEq, Eq, Structural)]
pub enum Token {
    /// An instruction keyword.
    Mnemonic(Mnemonic),
    /// `reg0`..`reg7` or a register alias, by index.
    Register(u8),
    /// `flag0`..`flag7` or a flag alias, by index.
    Flag(u8),
    /// The `HL` address register.
    Hl,
    /// `@name:`
    LabelDef(Symbol),
    /// `@name`
    LabelRef(Symbol),
    /// A signed decimal literal.
    Number(i32),
    /// `$name`, a reference to a macro parameter.
    ArgRef(Symbol),
    /// `$name:type`, a typed macro parameter.
    ArgDecl(Symbol, MacroArgumentType),
    /// `!name`, a macro call.
    Call(Symbol),
    /// The `macro` keyword.
    Macro,
    /// `{`
    Open,
    /// `}`
    Close,
    /// Any other identifier.
    Ident(Symbol),
    /// End of a statement.
    Newline,
}

#[derive(Clone, Copy, Debug, PartialEq, Eq, Structural)]
pub enum LexErrorKind {
    Unrecognized,
    MalformedRegister,
    MalformedFlag,
    UnknownType,
}

/// A lexing failure at a byte offset of the source.
#[derive(Clone, Copy, Debug, PartialEq, Eq, Structural)]
pub struct LexError {
    pub kind: LexErrorKind,
    pub offset: usize,
}

pub open spec fn is_blank(b: u8) -> bool {
    b == 32 || b == 9 || b == 13
}

pub open spec fn is_word_byte(b: u8) -> bool {
    !is_blank(b) && b != 10
}

pub open spec fn is_digit(b: u8) -> bool {
    48 <= b <= 57
}

pub open spec fn is_name_start(b: u8) -> bool {
    (65 <= b <= 90) || (97 <= b <= 122) || b == 95
}

pub open spec fn is_name_byte(b: u8) -> bool {
    is_name_start(b) || is_digit(b)
}

/// A name: one or more letters, digits or underscores.
pub open spec fn valid_name(w: Seq<u8>) -> bool {
    w.len() > 0 && forall|k: int| 0 <= k < w.len() ==> is_name_byte(#[trigger] w[k])
}

/// An identifier: a name that does not start with a digit.
pub open spec fn is_identifier(w: Seq<u8>) -> bool {
    valid_name(w) && is_name_start(w[0])
}

pub open spec fn all_digits(w: Seq<u8>) -> bool {
    w.len() > 0 && forall|k: int| 0 <= k < w.len() ==> is_digit(#[trigger] w[k])
}

/// The decimal value of a digit string, saturated at `NUMBER_LIMIT`.
pub open spec fn decimal(w: Seq<u8>) -> int
    decreases w.len(),
{
    if w.len() == 0 {
        0
    } else {
        let v = decimal(w.drop_last()) * 10 + (w.last() - 48);
        if v > NUMBER_LIMIT { NUMBER_LIMIT as int } else { v }
    }
}

/// A signed decimal literal: an optional `-` and one or more digits.
pub open spec fn is_number(w: Seq<u8>) -> bool {
    all_digits(w) || (w.len() > 1 && w[0] == 45 && all_digits(w.drop_first()))
}

pub open spec fn number_value(w: Seq<u8>) -> int {
    if all_digits(w) { decimal(w) } else { -decimal(w.drop_first()) }
}

/// The first index at or after `k` at which `w` holds `b`.
pub open spec fn find_byte(w: Seq<u8>, b: u8, k: int) -> Option<int>
    decreases w.len() - k,
{
    if k < 0 || k >= w.len() {
        None
    } else if w[k] == b {
        Some(k)
    } else {
        find_byte(w, b, k + 1)
    }
}

/// The first index at or after `k` at which the table holds `w`.
pub open spec fn find_name(t: Seq<Seq<u8>>, w: Seq<u8>, k: int) -> Option<int>
    decreases t.len() - k,
{
    if k < 0 || k >= t.len() {
        None
    } else if t[k] == w {
        Some(k)
    } else {
        find_name(t, w, k + 1)
    }
}

/// The symbol of `w`, adding it to the table when it is new.
pub open spec fn intern(t: Seq<Seq<u8>>, w: Seq<u8>) -> (Seq<Seq<u8>>, Symbol) {
    match find_name(t, w, 0) {
        Some(j) => (t, j as Symbol),
        None => (t.push(w), t.len() as Symbol),
    }
}

pub open spec fn spells(w: Seq<u8>, k: &str) -> bool {
    w == k.spec_bytes()
}

pub open spec fn keyword(w: Seq<u8>) -> Option<Token> {
    if spells(w, "nop") { Some(Token::Mnemonic(Mnemonic::Nop)) }
    else if spells(w, "mov") { Some(Token::Mnemonic(Mnemonic::Mov)) }
    else if spells(w, "ldw") { Some(Token::Mnemonic(Mnemonic::Ldw)) }
    else if spells(w, "stw") { Some(Token::Mnemonic(Mnemonic::Stw)) }
    else if spells(w, "lda") { Some(Token::Mnemonic(Mnemonic::Lda)) }
    else if spells(w, "psh") { Some(Token::Mnemonic(Mnemonic::Psh)) }
    else if spells(w, "pop") { Some(Token::Mnemonic(Mnemonic::Pop)) }
    else if spells(w, "jmp") { Some(Token::Mnemonic(Mnemonic::Jmp)) }
    else if spells(w, "add") { Some(Token::Mnemonic(Mnemonic::Add)) }
    else if spells(w, "sub") { Some(Token::Mnemonic(Mnemonic::Sub)) }
    else if spells(w, "and") { Some(Token::Mnemonic(Mnemonic::And)) }
    else if spells(w, "or") { Some(Token::Mnemonic(Mnemonic::Or)) }
    else if spells(w, "inv") { Some(Token::Mnemonic(Mnemonic::Inv)) }
    else if spells(w, "cmp") { Some(Token::Mnemonic(Mnemonic::Cmp)) }
    else if spells(w, "shl") { Some(Token::Mnemonic(Mnemonic::Shl)) }
    else if spells(w, "shr") { Some(Token::Mnemonic(Mnemonic::Shr)) }
    else if spells(w, "high") { Some(Token::Register(2)) }
    else if spells(w, "low") { Some(Token::Register(3)) }
    else if spells(w, "pc_high") { Some(Token::Register(4)) }
    else if spells(w, "pc_low") { Some(Token::Register(5)) }
    else if spells(w, "stack_ptr") { Some(Token::Register(6)) }
    else if spells(w, "flag") { Some(Token::Register(7)) }
    else if spells(w, "halt") { Some(Token::Flag(0)) }
    else if spells(w, "carry") { Some(Token::Flag(1)) }
    else if spells(w, "borrow") { Some(Token::Flag(2)) }
    else if spells(w, "overflow") { Some(Token::Flag(3)) }
    else if spells(w, "less") { Some(Token::Flag(4)) }
    else if spells(w, "equal") { Some(Token::Flag(5)) }
    else if spells(w, "HL") { Some(Token::Hl) }
    else if spells(w, "macro") { Some(Token::Macro) }
    else if spells(w, "{") { Some(Token::Open) }
    else if spells(w, "}") { Some(Token::Close) }
    else { None }
}

pub open spec fn parameter_type(w: Seq<u8>) -> Option<MacroArgumentType> {
    if spells(w, "register") { Some(MacroArgumentType::Register) }
    else if spells(w, "value") { Some(MacroArgumentType::Value) }
    else if spells(w, "address") { Some(MacroArgumentType::Address) }
    else if spells(w, "flag") { Some(MacroArgumentType::Flag) }
    else if spells(w, "instruction") { Some(MacroArgumentType::Instruction) }
    else if spells(w, "identifier") { Some(MacroArgumentType::Identifier) }
    else { None }
}

/// An indexed name such as `reg3` or `flag5`: the prefix and then digits; the
/// index must be a single digit below 8.
pub open spec fn indexed(w: Seq<u8>, prefix: nat) -> Option<Option<u8>> {
    if w.len() > prefix && all_digits(w.subrange(prefix as int, w.len() as int)) {
        if w.len() == prefix + 1 && w[prefix as int] < 56 {
            Some(Some((w[prefix as int] - 48) as u8))
        } else {
            Some(None)
        }
    } else {
        None
    }
}

/// A named token: its name must be valid, and is interned.
pub open spec fn named(t: Seq<Seq<u8>>, name: Seq<u8>, make: spec_fn(Symbol) -> Token)
    -> Result<(Token, Seq<Seq<u8>>), LexErrorKind>
{
    if valid_name(name) {
        let (t2, id) = intern(t, name);
        Ok((make(id), t2))
    } else {
        Err(LexErrorKind::Unrecognized)
    }
}

/// A word that starts with `@`: a label definition when it ends with `:`, else a reference.
pub open spec fn classify_label(w: Seq<u8>, t: Seq<Seq<u8>>) -> Result<(Token, Seq<Seq<u8>>), LexErrorKind> {
    if w.len() > 1 && w.last() == 58 {
        named(t, w.subrange(1, w.len() - 1), |id: Symbol| Token::LabelDef(id))
    } else {
        named(t, w.drop_first(), |id: Symbol| Token::LabelRef(id))
    }
}

/// What follows a `$`: a typed parameter when it holds `:`, else a parameter reference.
pub open spec fn classify_parameter(rest: Seq<u8>, t: Seq<Seq<u8>>) -> Result<(Token, Seq<Seq<u8>>), LexErrorKind> {
    match find_byte(rest, 58, 0) {
        Some(c) => match parameter_type(rest.subrange(c + 1, rest.len() as int)) {
            None => Err(LexErrorKind::UnknownType),
            Some(ty) => named(t, rest.subrange(0, c), |id: Symbol| Token::ArgDecl(id, ty)),
        },
        None => named(t, rest, |id: Symbol| Token::ArgRef(id)),
    }
}

/// A word with no sigil: an indexed register or flag, a number, or an identifier.
pub open spec fn classify_plain(w: Seq<u8>, t: Seq<Seq<u8>>) -> Result<(Token, Seq<Seq<u8>>), LexErrorKind> {
    if w.len() >= 3 && spells(w.subrange(0, 3), "reg") && indexed(w, 3) is Some {
        match indexed(w, 3)->Some_0 {
            Some(n) => Ok((Token::Register(n), t)),
            None => Err(LexErrorKind::MalformedRegister),
        }
    } else if w.len() >= 4 && spells(w.subrange(0, 4), "flag") && indexed(w, 4) is Some {
        match indexed(w, 4)->Some_0 {
            Some(n) => Ok((Token::Flag(n), t)),
            None => Err(LexErrorKind::MalformedFlag),
        }
    } else if is_number(w) {
        Ok((Token::Number(number_value(w) as i32), t))
    } else if is_identifier(w) {
        named(t, w, |id: Symbol| Token::Ident(id))
    } else {
        Err(LexErrorKind::Unrecognized)
    }
}

/// The token that a word (a maximal run of non-blank bytes) stands for.
#[verifier::opaque]
pub open spec fn classify(w: Seq<u8>, t: Seq<Seq<u8>>) -> Result<(Token, Seq<Seq<u8>>), LexErrorKind> {
    if keyword(w) is Some {
        Ok((keyword(w)->Some_0, t))
    } else if w[0] == 64 {
        classify_label(w, t)
    } else if w[0] == 36 {
        classify_parameter(w.drop_first(), t)
    } else if w[0] == 33 {
        named(t, w.drop_first(), |id: Symbol| Token::Call(id))
    } else {
        classify_plain(w, t)
    }
}

/// The end of the word that starts at `i`.
pub open spec fn word_end(s: Seq<u8>, i: int) -> int
    decreases s.len() - i,
{
    if i < 0 || i >= s.len() || !is_word_byte(s[i]) {
        i
    } else {
        word_end(s, i + 1)
    }
}

/// The position of the newline that ends the line holding `i`, or the end of input.
pub open spec fn line_end(s: Seq<u8>, i: int) -> int
    decreases s.len() - i,
{
    if i < 0 || i >= s.len() || s[i] == 10 {
        i
    } else {
        line_end(s, i + 1)
    }
}

/// One step of the lexer at `i < s.len()`: the token found, if any, and where to go on.
pub open spec fn lex_step(s: Seq<u8>, i: int, t: Seq<Seq<u8>>) -> Result<(Option<Token>, int, Seq<Seq<u8>>), LexError> {
    if is_blank(s[i]) {
        Ok((None, i + 1, t))
    } else if s[i] == 10 {
        Ok((Some(Token::Newline), i + 1, t))
    } else if s[i] == 35 {
        Ok((None, line_end(s, i), t))
    } else {
        let j = word_end(s, i);
        match classify(s.subrange(i, j), t) {
            Err(kind) => Err(LexError { kind, offset: i as usize }),
            Ok((tok, t2)) => Ok((Some(tok), j, t2)),
        }
    }
}

/// Prepends what one step found to what the rest of the input gives.
pub open spec fn glue(
    tok: Option<Token>,
    at: int,
    r: Result<(Seq<Token>, Seq<usize>, Seq<Seq<u8>>), LexError>,
) -> Result<(Seq<Token>, Seq<usize>, Seq<Seq<u8>>), LexError> {
    match r {
        Err(e) => Err(e),
        Ok((ts, os, t)) => match tok {
            Some(k) => Ok((seq![k] + ts, seq![at as usize] + os, t)),
            None => Ok((ts, os, t)),
        },
    }
}

/// Lexes `s` from `i` on: the tokens, the offset of each, and the final symbol table.
pub open spec fn lex_from(s: Seq<u8>, i: int, t: Seq<Seq<u8>>) -> Result<(Seq<Token>, Seq<usize>, Seq<Seq<u8>>), LexError>
    decreases s.len() - i,
{
    if i < 0 || i >= s.len() {
        Ok((Seq::empty(), Seq::empty(), t))
    } else {
        match lex_step(s, i, t) {
            Err(e) => Err(e),
            Ok((tok, j, t2)) => if i < j <= s.len() {
                glue(tok, i, lex_from(s, j, t2))
            } else {
                Ok((Seq::empty(), Seq::empty(), t))
            },
        }
    }
}

/// The whole source.
pub open spec fn lex_spec(s: Seq<u8>) -> Result<(Seq<Token>, Seq<usize>, Seq<Seq<u8>>), LexError> {
    lex_from(s, 0, Seq::empty())
}

/// The contents of a symbol table.
pub open spec fn names_view(t: Seq<Vec<u8>>) -> Seq<Seq<u8>> {
    t.map_values(|v: Vec<u8>| v@)
}

/// A token stream with checkpoints, and the symbol table its names point into.
pub struct TokenIterator {
    pub vector: Vec<Token>,
    pub offsets: Vec<usize>,
    pub names: Vec<Vec<u8>>,
    pub indices: Vec<usize>,
    pub i: usize,
}

fn spells_exec(s: &[u8], lo: usize, hi: usize, k: &str) -> (r: bool)
    requires
        lo <= hi <= s@.len(),
    ensures
        r == spells(s@.subrange(lo as int, hi as int), k),
{
    let kb = k.as_bytes();
    if hi - lo != kb.len() {
        return false;
    }
    let mut j: usize = 0;
    while j < kb.len()
        invariant
            lo <= hi <= s@.len(),
            hi - lo == kb@.len(),
            kb@ == k.spec_bytes(),
            j <= kb@.len(),
            forall|m: int| 0 <= m < j ==> s@[lo + m] == kb@[m],
        decreases kb@.len() - j,
    {
        if s[lo + j] != kb[j] {
            return false;
        }
        j = j + 1;
    }
    assert(s@.subrange(lo as int, hi as int) =~= kb@);
    true
}

fn keyword_exec(s: &[u8], lo: usize, hi: usize) -> (r: Option<Token>)
    requires
        lo <= hi <= s@.len(),
    ensures
        r == keyword(s@.subrange(lo as int, hi as int)),
{
    if spells_exec(s, lo, hi, "nop") { Some(Token::Mnemonic(Mnemonic::Nop)) }
    else if spells_exec(s, lo, hi, "mov") { Some(Token::Mnemonic(Mnemonic::Mov)) }
    else if spells_exec(s, lo, hi, "ldw") { Some(Token::Mnemonic(Mnemonic::Ldw)) }
    else if spells_exec(s, lo, hi, "stw") { Some(Token::Mnemonic(Mnemonic::Stw)) }
    else if spells_exec(s, lo, hi, "lda") { Some(Token::Mnemonic(Mnemonic::Lda)) }
    else if spells_exec(s, lo, hi, "psh") { Some(Token::Mnemonic(Mnemonic::Psh)) }
    else if spells_exec(s, lo, hi, "pop") { Some(Token::Mnemonic(Mnemonic::Pop)) }
    else if spells_exec(s, lo, hi, "jmp") { Some(Token::Mnemonic(Mnemonic::Jmp)) }
    else if spells_exec(s, lo, hi, "add") { Some(Token::Mnemonic(Mnemonic::Add)) }
    else if spells_exec(s, lo, hi, "sub") { Some(Token::Mnemonic(Mnemonic::Sub)) }
    else if spells_exec(s, lo, hi, "and") { Some(Token::Mnemonic(Mnemonic::And)) }
    else if spells_exec(s, lo, hi, "or") { Some(Token::Mnemonic(Mnemonic::Or)) }
    else if spells_exec(s, lo, hi, "inv") { Some(Token::Mnemonic(Mnemonic::Inv)) }
    else if spells_exec(s, lo, hi, "cmp") { Some(Token::Mnemonic(Mnemonic::Cmp)) }
    else if spells_exec(s, lo, hi, "shl") { Some(Token::Mnemonic(Mnemonic::Shl)) }
    else if spells_exec(s, lo, hi, "shr") { Some(Token::Mnemonic(Mnemonic::Shr)) }
    else if spells_exec(s, lo, hi, "high") { Some(Token::Register(2)) }
    else if spells_exec(s, lo, hi, "low") { Some(Token::Register(3)) }
    else if spells_exec(s, lo, hi, "pc_high") { Some(Token::Register(4)) }
    else if spells_exec(s, lo, hi, "pc_low") { Some(Token::Register(5)) }
    else if spells_exec(s, lo, hi, "stack_ptr") { Some(Token::Register(6)) }
    else if spells_exec(s, lo, hi, "flag") { Some(Token::Register(7)) }
    else if spells_exec(s, lo, hi, "halt") { Some(Token::Flag(0)) }
    else if spells_exec(s, lo, hi, "carry") { Some(Token::Flag(1)) }
    else if spells_exec(s, lo, hi, "borrow") { Some(Token::Flag(2)) }
    else if spells_exec(s, lo, hi, "overflow") { Some(Token::Flag(3)) }
    else if spells_exec(s, lo, hi, "less") { Some(Token::Flag(4)) }
    else if spells_exec(s, lo, hi, "equal") { Some(Token::Flag(5)) }
    else if spells_exec(s, lo, hi, "HL") { Some(Token::Hl) }
    else if spells_exec(s, lo, hi, "macro") { Some(Token::Macro) }
    else if spells_exec(s, lo, hi, "{") { Some(Token::Open) }
    else if spells_exec(s, lo, hi, "}") { Some(Token::Close) }
    else { None }
}

fn parameter_type_exec(s: &[u8], lo: usize, hi: usize) -> (r: Option<MacroArgumentType>)
    requires
        lo <= hi <= s@.len(),
    ensures
        r == parameter_type(s@.subrange(lo as int, hi as int)),
{
    if spells_exec(s, lo, hi, "register") { Some(MacroArgumentType::Register) }
    else if spells_exec(s, lo, hi, "value") { Some(MacroArgumentType::Value) }
    else if spells_exec(s, lo, hi, "address") { Some(MacroArgumentType::Address) }
    else if spells_exec(s, lo, hi, "flag") { Some(MacroArgumentType::Flag) }
    else if spells_exec(s, lo, hi, "instruction") { Some(MacroArgumentType::Instruction) }
    else if spells_exec(s, lo, hi, "identifier") { Some(MacroArgumentType::Identifier) }
    else { None }
}

fn all_digits_exec(s: &[u8], lo: usize, hi: usize) -> (r: bool)
    requires
        lo <= hi <= s@.len(),
    ensures
        r == all_digits(s@.subrange(lo as int, hi as int)),
{
    if lo == hi {
        return false;
    }
    let mut j = lo;
    while j < hi
        invariant
            lo <= j <= hi <= s@.len(),
            forall|m: int| lo <= m < j ==> is_digit(s@[m]),
        decreases hi - j,
    {
        if !(48 <= s[j] && s[j] <= 57) {
            assert(!is_digit(s@.subrange(lo as int, hi as int)[j - lo]));
            return false;
        }
        j = j + 1;
    }
    assert forall|m: int| 0 <= m < hi - lo implies is_digit(#[trigger] s@.subrange(lo as int, hi as int)[m]) by {
        assert(is_digit(s@[lo + m]));
    }
    true
}

fn valid_name_exec(s: &[u8], lo: usize, hi: usize) -> (r: bool)
    requires
        lo <= hi <= s@.len(),
    ensures
        r == valid_name(s@.subrange(lo as int, hi as int)),
{
    if lo == hi {
        return false;
    }
    let mut j = lo;
    while j < hi
        invariant
            lo <= j <= hi <= s@.len(),
            forall|m: int| lo <= m < j ==> is_name_byte(s@[m]),
        decreases hi - j,
    {
        let b = s[j];
        if !((65 <= b && b <= 90) || (97 <= b && b <= 122) || b == 95 || (48 <= b && b <= 57)) {
            assert(!is_name_byte(s@.subrange(lo as int, hi as int)[j - lo]));
            return false;
        }
        j = j + 1;
    }
    assert forall|m: int| 0 <= m < hi - lo implies is_name_byte(#[trigger] s@.subrange(lo as int, hi as int)[m]) by {
        assert(is_name_byte(s@[lo + m]));
    }
    true
}

/// The saturated decimal value of the digits `s[lo..hi]`.
fn decimal_exec(s: &[u8], lo: usize, hi: usize) -> (r: i32)
    requires
        lo <= hi <= s@.len(),
        all_digits(s@.subrange(lo as int, hi as int)),
    ensures
        r == decimal(s@.subrange(lo as int, hi as int)),
        0 <= r <= NUMBER_LIMIT,
{
    let mut v: i32 = 0;
    let mut j = lo;
    while j < hi
        invariant
            lo <= j <= hi <= s@.len(),
            all_digits(s@.subrange(lo as int, hi as int)),
            v == decimal(s@.subrange(lo as int, j as int)),
            0 <= v <= NUMBER_LIMIT,
        decreases hi - j,
    {
        assert(s@.subrange(lo as int, j + 1).drop_last() =~= s@.subrange(lo as int, j as int));
        assert(is_digit(s@.subrange(lo as int, hi as int)[j - lo]));
        let d = (s[j] - 48) as i32;
        let next = v * 10 + d;
        v = if next > NUMBER_LIMIT { NUMBER_LIMIT } else { next };
        j = j + 1;
    }
    v
}

fn find_byte_exec(s: &[u8], lo: usize, hi: usize, b: u8) -> (r: Option<usize>)
    requires
        lo <= hi <= s@.len(),
    ensures
        match find_byte(s@.subrange(lo as int, hi as int), b, 0) {
            Some(c) => 0 <= c < hi - lo && r == Some((lo + c) as usize),
            None => r is None,
        },
        r is Some ==> lo <= r->Some_0 < hi,
{
    let ghost w = s@.subrange(lo as int, hi as int);
    let mut j = lo;
    while j < hi
        invariant
            lo <= j <= hi <= s@.len(),
            w == s@.subrange(lo as int, hi as int),
            find_byte(w, b, 0) == find_byte(w, b, j - lo),
        decreases hi - j,
    {
        if s[j] == b {
            return Some(j);
        }
        j = j + 1;
    }
    None
}

fn same_bytes(a: &Vec<u8>, s: &[u8], lo: usize, hi: usize) -> (r: bool)
    requires
        lo <= hi <= s@.len(),
    ensures
        r == (a@ == s@.subrange(lo as int, hi as int)),
{
    if a.len() != hi - lo {
        return false;
    }
    let mut j: usize = 0;
    while j < a.len()
        invariant
            lo <= hi <= s@.len(),
            a@.len() == hi - lo,
            j <= a@.len(),
            forall|m: int| 0 <= m < j ==> a@[m] == s@[lo + m],
        decreases a@.len() - j,
    {
        if a[j] != s[lo + j] {
            assert(a@[j as int] != s@.subrange(lo as int, hi as int)[j as int]);
            return false;
        }
        j = j + 1;
    }
    assert(a@ =~= s@.subrange(lo as int, hi as int));
    true
}

/// The symbol of `s[lo..hi]`, added to the table when new.
fn intern_exec(names: &mut Vec<Vec<u8>>, s: &[u8], lo: usize, hi: usize) -> (r: Symbol)
    requires
        lo <= hi <= s@.len(),
    ensures
        (names_view(final(names)@), r) == intern(names_view(old(names)@), s@.subrange(lo as int, hi as int)),
{
    let ghost w = s@.subrange(lo as int, hi as int);
    let ghost t = names_view(names@);
    let mut k: usize = 0;
    while k < names.len()
        invariant
            lo <= hi <= s@.len(),
            w == s@.subrange(lo as int, hi as int),
            t == names_view(names@),
            k <= names@.len(),
            find_name(t, w, 0) == find_name(t, w, k as int),
        decreases names@.len() - k,
    {
        if same_bytes(&names[k], s, lo, hi) {
            return k;
        }
        k = k + 1;
    }
    let mut v: Vec<u8> = Vec::new();
    let mut j = lo;
    while j < hi
        invariant
            lo <= j <= hi <= s@.len(),
            v@ == s@.subrange(lo as int, j as int),
        decreases hi - j,
    {
        v.push(s[j]);
        j = j + 1;
        assert(v@ =~= s@.subrange(lo as int, j as int));
    }
    let id = names.len();
    names.push(v);
    assert(names_view(names@) =~= t.push(w));
    id
}

/// `named` for the name `s[lo..hi]`.
fn named_exec(names: &mut Vec<Vec<u8>>, s: &[u8], lo: usize, hi: usize) -> (r: Option<Symbol>)
    requires
        lo <= hi <= s@.len(),
    ensures
        valid_name(s@.subrange(lo as int, hi as int)) ==> r is Some
            && (names_view(final(names)@), r->Some_0) == intern(names_view(old(names)@), s@.subrange(lo as int, hi as int)),
        !valid_name(s@.subrange(lo as int, hi as int)) ==> r is None && final(names)@ == old(names)@,
{
    if valid_name_exec(s, lo, hi) {
        Some(intern_exec(names, s, lo, hi))
    } else {
        None
    }
}

fn classify_label_exec(s: &[u8], lo: usize, hi: usize, names: &mut Vec<Vec<u8>>) -> (r: Result<Token, LexErrorKind>)
    requires
        lo < hi <= s@.len(),
    ensures
        match classify_label(s@.subrange(lo as int, hi as int), names_view(old(names)@)) {
            Ok((tok, t)) => r == Ok::<Token, LexErrorKind>(tok) && names_view(final(names)@) == t,
            Err(k) => r == Err::<Token, LexErrorKind>(k),
        },
{
    let ghost w = s@.subrange(lo as int, hi as int);
    assert(w.drop_first() =~= s@.subrange(lo + 1, hi as int));
    if hi - lo > 1 && s[hi - 1] == 58 {
        assert(w.subrange(1, w.len() - 1) =~= s@.subrange(lo + 1, hi - 1));
        match named_exec(names, s, lo + 1, hi - 1) {
            Some(id) => Ok(Token::LabelDef(id)),
            None => Err(LexErrorKind::Unrecognized),
        }
    } else {
        match named_exec(names, s, lo + 1, hi) {
            Some(id) => Ok(Token::LabelRef(id)),
            None => Err(LexErrorKind::Unrecognized),
        }
    }
}

fn classify_parameter_exec(s: &[u8], lo: usize, hi: usize, names: &mut Vec<Vec<u8>>) -> (r: Result<Token, LexErrorKind>)
    requires
        lo <= hi <= s@.len(),
    ensures
        match classify_parameter(s@.subrange(lo as int, hi as int), names_view(old(names)@)) {
            Ok((tok, t)) => r == Ok::<Token, LexErrorKind>(tok) && names_view(final(names)@) == t,
            Err(k) => r == Err::<Token, LexErrorKind>(k),
        },
{
    let ghost rest = s@.subrange(lo as int, hi as int);
    match find_byte_exec(s, lo, hi, 58) {
        Some(c) => {
            assert(rest.subrange((c - lo) + 1, rest.len() as int) =~= s@.subrange(c + 1, hi as int));
            assert(rest.subrange(0, c - lo) =~= s@.subrange(lo as int, c as int));
            match parameter_type_exec(s, c + 1, hi) {
                None => Err(LexErrorKind::UnknownType),
                Some(ty) => match named_exec(names, s, lo, c) {
                    Some(id) => Ok(Token::ArgDecl(id, ty)),
                    None => Err(LexErrorKind::Unrecognized),
                },
            }
        },
        None => match named_exec(names, s, lo, hi) {
            Some(id) => Ok(Token::ArgRef(id)),
            None => Err(LexErrorKind::Unrecognized),
        },
    }
}

#[verifier::rlimit(30)]
fn classify_plain_exec(s: &[u8], lo: usize, hi: usize, names: &mut Vec<Vec<u8>>) -> (r: Result<Token, LexErrorKind>)
    requires
        lo < hi <= s@.len(),
    ensures
        match classify_plain(s@.subrange(lo as int, hi as int), names_view(old(names)@)) {
            Ok((tok, t)) => r == Ok::<Token, LexErrorKind>(tok) && names_view(final(names)@) == t,
            Err(k) => r == Err::<Token, LexErrorKind>(k),
        },
{
    let ghost w = s@.subrange(lo as int, hi as int);
    assert(w.drop_first() =~= s@.subrange(lo + 1, hi as int));
    assert(w[0] == s@[lo as int]);
    proof {
        if w.len() >= 3 {
            assert(w.subrange(0, 3) =~= s@.subrange(lo as int, lo + 3));
            assert(w.subrange(3, w.len() as int) =~= s@.subrange(lo + 3, hi as int));
        }
        if w.len() >= 4 {
            assert(w.subrange(0, 4) =~= s@.subrange(lo as int, lo + 4));
            assert(w.subrange(4, w.len() as int) =~= s@.subrange(lo + 4, hi as int));
        }
    }
    let first = s[lo];
    if hi - lo >= 3 && spells_exec(s, lo, lo + 3, "reg") && all_digits_exec(s, lo + 3, hi) {
        assert(is_digit(s@.subrange(lo + 3, hi as int)[0]));
        if hi - lo == 4 && s[lo + 3] < 56 {
            Ok(Token::Register(s[lo + 3] - 48))
        } else {
            Err(LexErrorKind::MalformedRegister)
        }
    } else if hi - lo >= 4 && spells_exec(s, lo, lo + 4, "flag") && all_digits_exec(s, lo + 4, hi) {
        assert(is_digit(s@.subrange(lo + 4, hi as int)[0]));
        if hi - lo == 5 && s[lo + 4] < 56 {
            Ok(Token::Flag(s[lo + 4] - 48))
        } else {
            Err(LexErrorKind::MalformedFlag)
        }
    } else if all_digits_exec(s, lo, hi) {
        Ok(Token::Number(decimal_exec(s, lo, hi)))
    } else if hi - lo > 1 && first == 45 && all_digits_exec(s, lo + 1, hi) {
        Ok(Token::Number(-decimal_exec(s, lo + 1, hi)))
    } else if (65 <= first && first <= 90) || (97 <= first && first <= 122) || first == 95 {
        match named_exec(names, s, lo, hi) {
            Some(id) => Ok(Token::Ident(id)),
            None => Err(LexErrorKind::Unrecognized),
        }
    } else {
        Err(LexErrorKind::Unrecognized)
    }
}

/// The token that the word `s[lo..hi]` stands for; new names go into the table.
fn classify_word(s: &[u8], lo: usize, hi: usize, names: &mut Vec<Vec<u8>>) -> (r: Result<Token, LexErrorKind>)
    requires
        lo < hi <= s@.len(),
    ensures
        match classify(s@.subrange(lo as int, hi as int), names_view(old(names)@)) {
            Ok((tok, t)) => r == Ok::<Token, LexErrorKind>(tok) && names_view(final(names)@) == t,
            Err(k) => r == Err::<Token, LexErrorKind>(k),
        },
{
    reveal(classify);
    let ghost w = s@.subrange(lo as int, hi as int);
    assert(w.drop_first() =~= s@.subrange(lo + 1, hi as int));
    assert(w[0] == s@[lo as int]);
    if let Some(tok) = keyword_exec(s, lo, hi) {
        return Ok(tok);
    }
    let first = s[lo];
    if first == 64 {
        classify_label_exec(s, lo, hi, names)
    } else if first == 36 {
        classify_parameter_exec(s, lo + 1, hi, names)
    } else if first == 33 {
        match named_exec(names, s, lo + 1, hi) {
            Some(id) => Ok(Token::Call(id)),
            None => Err(LexErrorKind::Unrecognized),
        }
    } else {
        classify_plain_exec(s, lo, hi, names)
    }
}

/// The end of the word that starts at `i`.
fn word(content: &[u8], i: usize) -> (r: usize)
    requires
        i <= content@.len(),
    ensures
        r == word_end(content@, i as int),
        i <= r <= content@.len(),
        i < content@.len() && is_word_byte(content@[i as int]) ==> i < r,
{
    let mut j = i;
    while j < content.len() && content[j] != 32 && content[j] != 9 && content[j] != 13 && content[j] != 10
        invariant
            i <= j <= content@.len(),
            word_end(content@, i as int) == word_end(content@, j as int),
        decreases content@.len() - j,
    {
        j = j + 1;
    }
    j
}

/// The end of the line that holds `i`.
fn line(content: &[u8], i: usize) -> (r: usize)
    requires
        i <= content@.len(),
    ensures
        r == line_end(content@, i as int),
        i <= r <= content@.len(),
        i < content@.len() && content@[i as int] != 10 ==> i < r,
{
    let mut j = i;
    while j < content.len() && content[j] != 10
        invariant
            i <= j <= content@.len(),
            line_end(content@, i as int) == line_end(content@, j as int),
        decreases content@.len() - j,
    {
        j = j + 1;
    }
    j
}

/// One step of the lexer at `i`: the token found there, if any, and where to go on.
fn next_token(content: &[u8], i: usize, names: &mut Vec<Vec<u8>>) -> (r: Result<(Option<Token>, usize), LexError>)
    requires
        i < content@.len(),
    ensures
        match lex_step(content@, i as int, names_view(old(names)@)) {
            Ok((tok, j, t)) => r == Ok::<_, LexError>((tok, j as usize)) && names_view(final(names)@) == t
                && i < j <= content@.len(),
            Err(e) => r == Err::<(Option<Token>, usize), _>(e),
        },
{
    let b = content[i];
    if b == 32 || b == 9 || b == 13 {
        Ok((None, i + 1))
    } else if b == 10 {
        Ok((Some(Token::Newline), i + 1))
    } else if b == 35 {
        let j = line(content, i);
        Ok((None, j))
    } else {
        let j = word(content, i);
        match classify_word(content, i, j, names) {
            Err(kind) => Err(LexError { kind, offset: i }),
            Ok(tok) => Ok((Some(tok), j)),
        }
    }
}

/// Lexes the whole source. Positions are byte offsets into `content`.
pub fn lex(content: &str) -> (r: Result<TokenIterator, LexError>)
    ensures
        match lex_spec(content.spec_bytes()) {
            Ok((ts, os, t)) => r is Ok && r->Ok_0.vector@ == ts && r->Ok_0.offsets@ == os
                && names_view(r->Ok_0.names@) == t && r->Ok_0.i == 0 && r->Ok_0.indices@.len() == 0,
            Err(e) => r == Err::<TokenIterator, _>(e),
        },
{
    let s = content.as_bytes();
    let mut vector: Vec<Token> = Vec::new();
    let mut offsets: Vec<usize> = Vec::new();
    let mut names: Vec<Vec<u8>> = Vec::new();
    let mut i: usize = 0;
    assert(names_view(names@) =~= Seq::<Seq<u8>>::empty());
    assert(vector@ + Seq::<Token>::empty() =~= vector@);
    assert(offsets@ + Seq::<usize>::empty() =~= offsets@);
    while i < s.len()
        invariant
            s@ == content.spec_bytes(),
            i <= s@.len(),
            lex_spec(s@) == glue_all(vector@, offsets@, lex_from(s@, i as int, names_view(names@))),
        decreases s@.len() - i,
    {
        let ghost before = names_view(names@);
        match next_token(s, i, &mut names) {
            Err(e) => {
                assert(lex_from(s@, i as int, before) == Err::<(Seq<Token>, Seq<usize>, Seq<Seq<u8>>), _>(e));
                return Err(e);
            },
            Ok((tok, j)) => {
                let ghost rest = lex_from(s@, j as int, names_view(names@));
                assert(lex_from(s@, i as int, before) == glue(tok, i as int, rest));
                match tok {
                    Some(k) => {
                        proof { lemma_glue_assoc(vector@, offsets@, k, i, rest); }
                        vector.push(k);
                        offsets.push(i);
                    },
                    None => {},
                }
                i = j;
            },
        }
    }
    assert(lex_from(s@, i as int, names_view(names@)) == Ok::<_, LexError>((Seq::<Token>::empty(), Seq::<usize>::empty(), names_view(names@))));
    assert(vector@ + Seq::<Token>::empty() =~= vector@);
    assert(offsets@ + Seq::<usize>::empty() =~= offsets@);
    Ok(TokenIterator { vector, offsets, names, indices: Vec::new(), i: 0 })
}

/// Prepends the tokens already found to what the rest of the input gives.
pub open spec fn glue_all(
    ts: Seq<Token>,
    os: Seq<usize>,
    r: Result<(Seq<Token>, Seq<usize>, Seq<Seq<u8>>), LexError>,
) -> Result<(Seq<Token>, Seq<usize>, Seq<Seq<u8>>), LexError> {
    match r {
        Err(e) => Err(e),
        Ok((ts2, os2, t)) => Ok((ts + ts2, os + os2, t)),
    }
}

proof fn lemma_glue_assoc(
    ts: Seq<Token>,
    os: Seq<usize>,
    k: Token,
    i: usize,
    rest: Result<(Seq<Token>, Seq<usize>, Seq<Seq<u8>>), LexError>,
)
    ensures
        glue_all(ts, os, glue(Some(k), i as int, rest)) == glue_all(ts.push(k), os.push(i), rest),
{
    if let Ok((ts2, os2, t)) = rest {
        assert(ts + (seq![k] + ts2) =~= ts.push(k) + ts2);
        assert(os + (seq![i] + os2) =~= os.push(i) + os2);
    }
}

/// The token at `i`, if any.
pub open spec fn tok(ts: Seq<Token>, i: int) -> Option<Token> {
    if 0 <= i < ts.len() { Some(ts[i]) } else { None }
}

/// Two iterators over the same tokens, with the same checkpoints.
pub open spec fn tokens_kept(a: TokenIterator, b: TokenIterator) -> bool {
    a.vector@ == b.vector@ && a.offsets@ == b.offsets@ && a.names@ == b.names@ && a.indices@ == b.indices@
}

impl TokenIterator {
    /// Saves the position as a checkpoint.
    pub fn push(&mut self)
        ensures
            final(self).vector@ == old(self).vector@,
            final(self).offsets@ == old(self).offsets@,
            final(self).names@ == old(self).names@,
            final(self).indices@ == old(self).indices@.push(old(self).i),
            final(self).i == old(self).i,
    {
        self.indices.push(self.i);
    }

    /// Drops the last checkpoint and goes back to it.
    pub fn pop(&mut self)
        ensures
            final(self).vector@ == old(self).vector@,
            final(self).offsets@ == old(self).offsets@,
            final(self).names@ == old(self).names@,
            old(self).indices@.len() > 0 ==> final(self).indices@ == old(self).indices@.drop_last()
                && final(self).i == old(self).indices@.last(),
            old(self).indices@.len() == 0 ==> final(self).indices@ == old(self).indices@
                && final(self).i == old(self).i,
    {
        if let Some(j) = self.indices.pop() {
            self.i = j;
        }
    }

    /// Drops the last checkpoint and stays where it is.
    pub fn spop(&mut self)
        ensures
            final(self).vector@ == old(self).vector@,
            final(self).offsets@ == old(self).offsets@,
            final(self).names@ == old(self).names@,
            old(self).indices@.len() > 0 ==> final(self).indices@ == old(self).indices@.drop_last(),
            old(self).indices@.len() == 0 ==> final(self).indices@ == old(self).indices@,
            final(self).i == old(self).i,
    {
        let _ = self.indices.pop();
    }

    /// The token at the position, if any.
    pub fn peek(&self) -> (r: Option<Token>)
        ensures
            r == tok(self.vector@, self.i as int),
    {
        if self.i < self.vector.len() {
            Some(self.vector[self.i])
        } else {
            None
        }
    }

    /// The token at the position, if any, moving past it.
    pub fn next(&mut self) -> (r: Option<Token>)
        ensures
            tokens_kept(*old(self), *final(self)),
            r == tok(old(self).vector@, old(self).i as int),
            final(self).i == if r is Some { old(self).i + 1 } else { old(self).i as int },
    {
        if self.i < self.vector.len() {
            let t = self.vector[self.i];
            self.i = self.i + 1;
            Some(t)
        } else {
            None
        }
    }
}

/// The 1-based line that byte `k` of `s` lies on.
pub open spec fn line_number(s: Seq<u8>, k: int) -> nat
    decreases k,
{
    if k <= 0 || k > s.len() {
        1
    } else {
        line_number(s, k - 1) + if s[k - 1] == 10 { 1nat } else { 0nat }
    }
}

/// The offset at which the line holding byte `k` starts.
pub open spec fn line_start(s: Seq<u8>, k: int) -> int
    decreases k,
{
    if k <= 0 || k > s.len() {
        0
    } else if s[k - 1] == 10 {
        k
    } else {
        line_start(s, k - 1)
    }
}

/// The line and column, both 1-based, of a byte offset into `content`.
pub fn position(content: &str, offset: usize) -> (r: (usize, usize))
    requires
        offset <= content.spec_bytes().len(),
        offset < usize::MAX,
    ensures
        r.0 == line_number(content.spec_bytes(), offset as int),
        r.1 == offset - line_start(content.spec_bytes(), offset as int) + 1,
{
    let s = content.as_bytes();
    let mut line: usize = 1;
    let mut start: usize = 0;
    let mut j: usize = 0;
    while j < offset
        invariant
            s@ == content.spec_bytes(),
            offset <= s@.len(),
            offset < usize::MAX,
            j <= offset,
            line == line_number(s@, j as int),
            start == line_start(s@, j as int),
            line <= j + 1,
            start <= j,
        decreases offset - j,
    {
        if s[j] == 10 {
            line = line + 1;
            start = j + 1;
        }
        j = j + 1;
    }
    (line, offset - start + 1)
}

} // verus!
