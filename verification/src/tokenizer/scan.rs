//! The scanning functions of the lexer and their mathematical mirrors.
//!
//! Each executable scanner is specified against a spec-level mirror over the
//! character sequence, so the whole pass [`tokenize`] is pinned down by
//! [`spec_tokenize`].
use vstd::prelude::*;

use crate::tokenizer::LexError;
use crate::tokenizer::Operator;
use crate::tokenizer::Reserved;
use crate::tokenizer::Token;
use crate::tokenizer::TokenKind;
use crate::tokenizer::TokenKindV;
use crate::tokenizer::TokenV;
use crate::tokenizer::chars::alnum_char;
use crate::tokenizer::chars::alpha_char;
use crate::tokenizer::chars::ascii_digit;
use crate::tokenizer::chars::ascii_hex_digit;
use crate::tokenizer::chars::char_is_alphabetic;
use crate::tokenizer::chars::char_is_alphanumeric;
use crate::tokenizer::chars::char_is_whitespace;
use crate::tokenizer::chars::chars_of;
use crate::tokenizer::chars::push_char;
use crate::tokenizer::chars::space_char;

verus! {

/// The characters that can start an operator token.
pub open spec fn spec_is_operator(c: char) -> bool {
    c == '+' || c == '-' || c == '*' || c == '/' || c == '%' || c == '&' || c == '|' || c == '>'
        || c == '<' || c == '!' || c == '='
}

/// Whether the character can start an operator token.
pub fn is_operator(c: char) -> (r: bool)
    ensures
        r == spec_is_operator(c),
{
    c == '+' || c == '-' || c == '*' || c == '/' || c == '%' || c == '&' || c == '|' || c == '>'
        || c == '<' || c == '!' || c == '='
}

/// Mirror of [`check_operator`]: the operator starting at `idx` (whose
/// character is `c`) and the number of characters it spans, or `None` when
/// `c` cannot start an operator.
pub open spec fn spec_check_operator(c: char, s: Seq<char>, idx: int) -> Option<(Operator, int)> {
    if !spec_is_operator(c) {
        None
    } else if idx + 1 < s.len() {
        let next = s[idx + 1];
        let flag = next == '=';
        let n: int = if flag {
            2
        } else {
            1
        };
        if c == '+' {
            if next == '+' {
                Some((Operator::Increment, n + 1))
            } else {
                Some((Operator::Add(flag), n))
            }
        } else if c == '-' {
            if next == '-' {
                Some((Operator::Decrement, n + 1))
            } else if next == '>' {
                Some((Operator::Arrow, n + 1))
            } else {
                Some((Operator::Sub(flag), n))
            }
        } else if c == '*' {
            if next == '*' {
                if idx + 2 < s.len() && s[idx + 2] == '=' {
                    Some((Operator::Pow(true), n + 2))
                } else {
                    Some((Operator::Pow(false), n + 1))
                }
            } else {
                Some((Operator::Star(flag), n))
            }
        } else if c == '/' {
            Some((Operator::Slash(flag), n))
        } else if c == '=' {
            Some((Operator::Eq(flag), n))
        } else if c == '!' {
            Some((Operator::Bang(flag), n))
        } else if c == '&' {
            if next == '&' {
                if idx + 2 < s.len() && s[idx + 2] == '=' {
                    Some((Operator::And(true), n + 2))
                } else {
                    Some((Operator::And(false), n + 1))
                }
            } else {
                Some((Operator::BitAnd(flag), n))
            }
        } else if c == '|' {
            if next == '|' {
                if idx + 2 < s.len() && s[idx + 2] == '=' {
                    Some((Operator::Or(true), n + 2))
                } else {
                    Some((Operator::Or(false), n + 1))
                }
            } else {
                Some((Operator::Or(flag), n))
            }
        } else if c == '>' {
            if next == '>' {
                if idx + 2 < s.len() && s[idx + 2] == '=' {
                    Some((Operator::BitRight(true), n + 2))
                } else {
                    Some((Operator::BitRight(false), n + 1))
                }
            } else {
                Some((Operator::Gt(flag), n))
            }
        } else if c == '<' {
            if next == '<' {
                if idx + 2 < s.len() && s[idx + 2] == '=' {
                    Some((Operator::BitLeft(true), n + 2))
                } else {
                    Some((Operator::BitLeft(false), n + 1))
                }
            } else {
                Some((Operator::Lt(flag), n))
            }
        } else {
            // `%` is the only remaining operator-class character.
            Some((Operator::Mod(flag), n))
        }
    } else {
        if c == '+' {
            Some((Operator::Add(false), 1))
        } else if c == '-' {
            Some((Operator::Sub(false), 1))
        } else if c == '*' {
            Some((Operator::Star(false), 1))
        } else if c == '/' {
            Some((Operator::Slash(false), 1))
        } else if c == '=' {
            Some((Operator::Eq(false), 1))
        } else if c == '!' {
            Some((Operator::Bang(false), 1))
        } else if c == '&' {
            Some((Operator::BitAnd(false), 1))
        } else if c == '|' {
            Some((Operator::Or(false), 1))
        } else if c == '>' {
            Some((Operator::Gt(false), 1))
        } else if c == '<' {
            Some((Operator::Lt(false), 1))
        } else {
            Some((Operator::Mod(false), 1))
        }
    }
}

/// A recognized operator spans at least one and at most three characters,
/// all within the sequence.
pub proof fn lemma_check_operator_bounds(c: char, s: Seq<char>, idx: int)
    requires
        0 <= idx < s.len(),
    ensures
        match spec_check_operator(c, s, idx) {
            Some(on) => 1 <= on.1 <= 3 && idx + on.1 <= s.len(),
            None => true,
        },
{
}

/// Recognizes the operator starting at `idx`, greedily extending it with a
/// doubled character, an arrow head, or a trailing `=` that sets the
/// compound-assignment flag. Returns the operator and how many characters it
/// spans.
pub fn check_operator(c: char, chars: &[char], idx: usize) -> (r: Option<(Operator, usize)>)
    requires
        idx < chars@.len(),
        c == chars@[idx as int],
    ensures
        match r {
            Some(on) => {
                &&& spec_check_operator(c, chars@, idx as int) == Some((on.0, on.1 as int))
                &&& 1 <= on.1
                &&& idx + on.1 <= chars@.len()
            },
            None => spec_check_operator(c, chars@, idx as int) is None,
        },
{
    if !is_operator(c) {
        return None;
    }
    let len = chars.len();
    if len - idx > 1 {
        let next = chars[idx + 1];
        let flag = next == '=';
        let base: usize = if flag {
            2
        } else {
            1
        };
        let r = if c == '+' {
            if next == '+' {
                (Operator::Increment, base + 1)
            } else {
                (Operator::Add(flag), base)
            }
        } else if c == '-' {
            if next == '-' {
                (Operator::Decrement, base + 1)
            } else if next == '>' {
                (Operator::Arrow, base + 1)
            } else {
                (Operator::Sub(flag), base)
            }
        } else if c == '*' {
            if next == '*' {
                if idx + 2 < len && chars[idx + 2] == '=' {
                    (Operator::Pow(true), base + 2)
                } else {
                    (Operator::Pow(false), base + 1)
                }
            } else {
                (Operator::Star(flag), base)
            }
        } else if c == '/' {
            (Operator::Slash(flag), base)
        } else if c == '=' {
            (Operator::Eq(flag), base)
        } else if c == '!' {
            (Operator::Bang(flag), base)
        } else if c == '&' {
            if next == '&' {
                if idx + 2 < len && chars[idx + 2] == '=' {
                    (Operator::And(true), base + 2)
                } else {
                    (Operator::And(false), base + 1)
                }
            } else {
                (Operator::BitAnd(flag), base)
            }
        } else if c == '|' {
            if next == '|' {
                if idx + 2 < len && chars[idx + 2] == '=' {
                    (Operator::Or(true), base + 2)
                } else {
                    (Operator::Or(false), base + 1)
                }
            } else {
                (Operator::Or(flag), base)
            }
        } else if c == '>' {
            if next == '>' {
                if idx + 2 < len && chars[idx + 2] == '=' {
                    (Operator::BitRight(true), base + 2)
                } else {
                    (Operator::BitRight(false), base + 1)
                }
            } else {
                (Operator::Gt(flag), base)
            }
        } else if c == '<' {
            if next == '<' {
                if idx + 2 < len && chars[idx + 2] == '=' {
                    (Operator::BitLeft(true), base + 2)
                } else {
                    (Operator::BitLeft(false), base + 1)
                }
            } else {
                (Operator::Lt(flag), base)
            }
        } else {
            (Operator::Mod(flag), base)
        };
        Some(r)
    } else {
        let op = if c == '+' {
            Operator::Add(false)
        } else if c == '-' {
            Operator::Sub(false)
        } else if c == '*' {
            Operator::Star(false)
        } else if c == '/' {
            Operator::Slash(false)
        } else if c == '=' {
            Operator::Eq(false)
        } else if c == '!' {
            Operator::Bang(false)
        } else if c == '&' {
            Operator::BitAnd(false)
        } else if c == '|' {
            Operator::Or(false)
        } else if c == '>' {
            Operator::Gt(false)
        } else if c == '<' {
            Operator::Lt(false)
        } else {
            Operator::Mod(false)
        };
        Some((op, 1))
    }
}

/// The end of the maximal alphanumeric run that begins at `i`.
pub open spec fn alnum_run_end(s: Seq<char>, i: int) -> int
    decreases s.len() - i when 0 <= i <= s.len()
{
    if i < s.len() && alnum_char(s[i]) {
        alnum_run_end(s, i + 1)
    } else {
        i
    }
}

/// The maximal alphanumeric run reaches exactly to the first position that
/// is out of range or not alphanumeric.
pub proof fn lemma_alnum_run_end(s: Seq<char>, a: int, b: int)
    requires
        0 <= a <= b <= s.len(),
        forall|k: int| a <= k < b ==> alnum_char(#[trigger] s[k]),
        b == s.len() || !alnum_char(s[b]),
    ensures
        alnum_run_end(s, a) == b,
    decreases b - a,
{
    if a < b {
        lemma_alnum_run_end(s, a + 1, b);
    }
}

/// Bounds of the maximal alphanumeric run.
pub proof fn lemma_alnum_run_bounds(s: Seq<char>, i: int)
    requires
        0 <= i <= s.len(),
    ensures
        i <= alnum_run_end(s, i) <= s.len(),
        i < s.len() && alnum_char(s[i]) ==> i + 1 <= alnum_run_end(s, i),
    decreases s.len() - i,
{
    if i < s.len() && alnum_char(s[i]) {
        lemma_alnum_run_bounds(s, i + 1);
    }
}

/// The reserved-word table: a run of word characters either names a keyword
/// or becomes an identifier owning its text.
pub open spec fn spec_keyword_kind(w: Seq<char>) -> TokenKindV {
    if w == "let"@ {
        TokenKindV::Reserved(Reserved::Let)
    } else if w == "mut"@ {
        TokenKindV::Reserved(Reserved::Mut)
    } else if w == "function"@ {
        TokenKindV::Reserved(Reserved::Function)
    } else if w == "macro"@ {
        TokenKindV::Reserved(Reserved::Macro)
    } else if w == "type"@ {
        TokenKindV::Reserved(Reserved::Type)
    } else if w == "struct"@ {
        TokenKindV::Reserved(Reserved::Struct)
    } else if w == "trait"@ {
        TokenKindV::Reserved(Reserved::Trait)
    } else if w == "if"@ {
        TokenKindV::Reserved(Reserved::If)
    } else if w == "else"@ {
        TokenKindV::Reserved(Reserved::Else)
    } else if w == "loop"@ {
        TokenKindV::Reserved(Reserved::Loop)
    } else if w == "while"@ {
        TokenKindV::Reserved(Reserved::While)
    } else if w == "for"@ {
        TokenKindV::Reserved(Reserved::For)
    } else {
        TokenKindV::Identifier(w)
    }
}

/// Mirror of [`check_symbol`]: when `c` (the character at `idx`) is
/// alphabetic, the token made of the maximal alphanumeric run starting
/// there, with the run's length; `None` otherwise.
pub open spec fn spec_check_symbol(c: char, s: Seq<char>, idx: int) -> Option<(TokenKindV, int)> {
    if alpha_char(c) {
        let end = alnum_run_end(s, idx);
        Some((spec_keyword_kind(s.subrange(idx, end)), end - idx))
    } else {
        None
    }
}

/// Looks the word up against the reserved-word table.
fn keyword_kind(w: String) -> (k: TokenKind)
    ensures
        k@ == spec_keyword_kind(w@),
{
    if w == "let".to_owned() {
        TokenKind::Reserved(Reserved::Let)
    } else if w == "mut".to_owned() {
        TokenKind::Reserved(Reserved::Mut)
    } else if w == "function".to_owned() {
        TokenKind::Reserved(Reserved::Function)
    } else if w == "macro".to_owned() {
        TokenKind::Reserved(Reserved::Macro)
    } else if w == "type".to_owned() {
        TokenKind::Reserved(Reserved::Type)
    } else if w == "struct".to_owned() {
        TokenKind::Reserved(Reserved::Struct)
    } else if w == "trait".to_owned() {
        TokenKind::Reserved(Reserved::Trait)
    } else if w == "if".to_owned() {
        TokenKind::Reserved(Reserved::If)
    } else if w == "else".to_owned() {
        TokenKind::Reserved(Reserved::Else)
    } else if w == "loop".to_owned() {
        TokenKind::Reserved(Reserved::Loop)
    } else if w == "while".to_owned() {
        TokenKind::Reserved(Reserved::While)
    } else if w == "for".to_owned() {
        TokenKind::Reserved(Reserved::For)
    } else {
        TokenKind::Identifier(w)
    }
}

/// Recognizes an identifier or reserved word: the maximal alphanumeric run
/// starting at `idx` when its first character is alphabetic.
pub fn check_symbol(c: char, chars: &[char], idx: usize) -> (r: Option<(TokenKind, usize)>)
    requires
        idx < chars@.len(),
        c == chars@[idx as int],
    ensures
        match r {
            Some(kn) => {
                &&& spec_check_symbol(c, chars@, idx as int) == Some((kn.0@, kn.1 as int))
                &&& 1 <= kn.1
                &&& idx + kn.1 <= chars@.len()
            },
            None => spec_check_symbol(c, chars@, idx as int) is None,
        },
{
    if !char_is_alphabetic(c) {
        return None;
    }
    let ghost s = chars@;
    let mut buffer = String::new();
    let mut i: usize = idx;
    loop
        invariant
            idx <= i <= s.len(),
            idx < s.len(),
            s == chars@,
            alpha_char(s[idx as int]),
            buffer@ == s.subrange(idx as int, i as int),
            forall|k: int| idx <= k < i ==> alnum_char(#[trigger] s[k]),
        ensures
            idx < i <= s.len(),
            s == chars@,
            buffer@ == s.subrange(idx as int, i as int),
            i as int == alnum_run_end(s, idx as int),
        decreases s.len() - i,
    {
        if i < chars.len() {
            let ch = chars[i];
            if char_is_alphanumeric(ch) {
                push_char(&mut buffer, ch);
                i = i + 1;
                proof {
                    assert(buffer@ =~= s.subrange(idx as int, i as int));
                }
            } else {
                proof {
                    lemma_alnum_run_end(s, idx as int, i as int);
                }
                break;
            }
        } else {
            proof {
                lemma_alnum_run_end(s, idx as int, i as int);
            }
            break;
        }
    }
    let n = i - idx;
    Some((keyword_kind(buffer), n))
}

/// The end of the maximal hexadecimal-digit run that begins at `i`.
pub open spec fn hex_run_end(s: Seq<char>, i: int) -> int
    decreases s.len() - i when 0 <= i <= s.len()
{
    if i < s.len() && ascii_hex_digit(s[i]) {
        hex_run_end(s, i + 1)
    } else {
        i
    }
}

/// The maximal hexadecimal run reaches exactly to the first position out of
/// range or not a hexadecimal digit.
pub proof fn lemma_hex_run_end(s: Seq<char>, a: int, b: int)
    requires
        0 <= a <= b <= s.len(),
        forall|k: int| a <= k < b ==> ascii_hex_digit(#[trigger] s[k]),
        b == s.len() || !ascii_hex_digit(s[b]),
    ensures
        hex_run_end(s, a) == b,
    decreases b - a,
{
    if a < b {
        lemma_hex_run_end(s, a + 1, b);
    }
}

/// Bounds of the maximal hexadecimal run.
pub proof fn lemma_hex_run_bounds(s: Seq<char>, i: int)
    requires
        0 <= i <= s.len(),
    ensures
        i <= hex_run_end(s, i) <= s.len(),
    decreases s.len() - i,
{
    if i < s.len() && ascii_hex_digit(s[i]) {
        lemma_hex_run_bounds(s, i + 1);
    }
}

/// The end of the maximal run of `0` and `1` characters beginning at `i`.
pub open spec fn bin_run_end(s: Seq<char>, i: int) -> int
    decreases s.len() - i when 0 <= i <= s.len()
{
    if i < s.len() && (s[i] == '0' || s[i] == '1') {
        bin_run_end(s, i + 1)
    } else {
        i
    }
}

/// The maximal binary run reaches exactly to the first position out of
/// range or not a binary digit.
pub proof fn lemma_bin_run_end(s: Seq<char>, a: int, b: int)
    requires
        0 <= a <= b <= s.len(),
        forall|k: int| a <= k < b ==> (#[trigger] s[k] == '0' || s[k] == '1'),
        b == s.len() || !(s[b] == '0' || s[b] == '1'),
    ensures
        bin_run_end(s, a) == b,
    decreases b - a,
{
    if a < b {
        lemma_bin_run_end(s, a + 1, b);
    }
}

/// Bounds of the maximal binary run.
pub proof fn lemma_bin_run_bounds(s: Seq<char>, i: int)
    requires
        0 <= i <= s.len(),
    ensures
        i <= bin_run_end(s, i) <= s.len(),
    decreases s.len() - i,
{
    if i < s.len() && (s[i] == '0' || s[i] == '1') {
        lemma_bin_run_bounds(s, i + 1);
    }
}

/// The end of a numeral run (decimal digits with at most one dot) starting
/// at `i`, given whether a dot was already seen, or the fatal double-dot
/// fault.
pub open spec fn num_run(s: Seq<char>, i: int, dot: bool) -> Result<(int, bool), LexError>
    decreases s.len() - i when 0 <= i <= s.len()
{
    if i < s.len() {
        let c = s[i];
        if c == '.' {
            if dot {
                Err(LexError::DoubleDecimalPoint)
            } else {
                num_run(s, i + 1, true)
            }
        } else if ascii_digit(c) {
            num_run(s, i + 1, dot)
        } else {
            Ok((i, dot))
        }
    } else {
        Ok((i, dot))
    }
}

/// A successful numeral run stays within the sequence and does not move
/// backwards.
pub proof fn lemma_num_run_bounds(s: Seq<char>, i: int, dot: bool)
    requires
        0 <= i <= s.len(),
    ensures
        match num_run(s, i, dot) {
            Ok(ed) => i <= ed.0 <= s.len(),
            Err(_) => true,
        },
    decreases s.len() - i,
{
    if i < s.len() {
        let c = s[i];
        if c == '.' {
            if !dot {
                lemma_num_run_bounds(s, i + 1, true);
            }
        } else if ascii_digit(c) {
            lemma_num_run_bounds(s, i + 1, dot);
        }
    }
}

/// Mirror of [`check_numeric`]: the numeric token starting at `idx` (whose
/// character is `c`) and its span; `None` when `c` starts no numeral; or
/// one of the two fatal lexical faults.
pub open spec fn spec_check_numeric(c: char, s: Seq<char>, idx: int) -> Result<
    Option<(TokenKindV, int)>,
    LexError,
> {
    if c == '0' && idx + 1 < s.len() && (s[idx + 1] == 'x' || s[idx + 1] == 'X') {
        let end = hex_run_end(s, idx + 2);
        Ok(Some((TokenKindV::Int(seq!['0', 'x'] + s.subrange(idx + 2, end)), end - idx)))
    } else if c == '0' && idx + 1 < s.len() && s[idx + 1] == 'b' {
        let end = bin_run_end(s, idx + 2);
        Ok(Some((TokenKindV::Int(seq!['0', 'b'] + s.subrange(idx + 2, end)), end - idx)))
    } else if c == '0' && idx + 1 < s.len() && !ascii_digit(s[idx + 1]) {
        Err(LexError::InvalidNumericPrefix)
    } else if c == '0' && idx + 1 >= s.len() {
        Ok(Some((TokenKindV::Int(seq!['0']), 1)))
    } else if ascii_digit(c) || c == '.' {
        match num_run(s, idx, false) {
            Ok(ed) => {
                let text = s.subrange(idx, ed.0);
                if ed.1 {
                    Ok(Some((TokenKindV::Float(text), ed.0 - idx)))
                } else {
                    Ok(Some((TokenKindV::Int(text), ed.0 - idx)))
                }
            },
            Err(e) => Err(e),
        }
    } else {
        Ok(None)
    }
}

/// An ASCII decimal digit test.
pub fn is_ascii_digit(c: char) -> (r: bool)
    ensures
        r == ascii_digit(c),
{
    '0' <= c && c <= '9'
}

/// An ASCII hexadecimal digit test.
pub fn is_hex_digit(c: char) -> (r: bool)
    ensures
        r == ascii_hex_digit(c),
{
    ('0' <= c && c <= '9') || ('a' <= c && c <= 'f') || ('A' <= c && c <= 'F')
}

/// Recognizes a numeric literal: a `0x`/`0b` prefixed integer, or a maximal
/// run of decimal digits with at most one dot (the dot makes it a float).
/// A leading `0` followed by a character that continues no numeral is the
/// fatal unsupported-prefix fault; a second dot in one numeral is the fatal
/// double-dot fault.
pub fn check_numeric(c: char, chars: &[char], idx: usize) -> (r: Result<
    Option<(TokenKind, usize)>,
    LexError,
>)
    requires
        idx < chars@.len(),
        c == chars@[idx as int],
    ensures
        match r {
            Ok(Some(kn)) => {
                &&& spec_check_numeric(c, chars@, idx as int) == Ok::<_, LexError>(
                    Some((kn.0@, kn.1 as int)),
                )
                &&& 1 <= kn.1
                &&& idx + kn.1 <= chars@.len()
            },
            Ok(None) => spec_check_numeric(c, chars@, idx as int) == Ok::<
                Option<(TokenKindV, int)>,
                LexError,
            >(None),
            Err(e) => spec_check_numeric(c, chars@, idx as int) == Err::<
                Option<(TokenKindV, int)>,
                LexError,
            >(e),
        },
{
    let ghost s = chars@;
    let len = chars.len();
    if c == '0' {
        if len - idx > 1 {
            let c1 = chars[idx + 1];
            if c1 == 'x' || c1 == 'X' {
                let mut buffer = String::new();
                push_char(&mut buffer, '0');
                push_char(&mut buffer, 'x');
                proof {
                    assert(buffer@ =~= seq!['0', 'x']);
                }
                let mut i: usize = idx + 2;
                loop
                    invariant
                        idx + 2 <= i <= s.len(),
                        s == chars@,
                        buffer@ == seq!['0', 'x'] + s.subrange(idx + 2, i as int),
                        forall|k: int| idx + 2 <= k < i ==> ascii_hex_digit(#[trigger] s[k]),
                    ensures
                        idx + 2 <= i <= s.len(),
                        s == chars@,
                        buffer@ == seq!['0', 'x'] + s.subrange(idx + 2, i as int),
                        i as int == hex_run_end(s, idx + 2),
                    decreases s.len() - i,
                {
                    if i < chars.len() {
                        let ch = chars[i];
                        if is_hex_digit(ch) {
                            push_char(&mut buffer, ch);
                            i = i + 1;
                            proof {
                                assert(buffer@ =~= seq!['0', 'x'] + s.subrange(idx + 2, i as int));
                            }
                        } else {
                            proof {
                                lemma_hex_run_end(s, idx + 2, i as int);
                            }
                            break;
                        }
                    } else {
                        proof {
                            lemma_hex_run_end(s, idx + 2, i as int);
                        }
                        break;
                    }
                }
                let n = i - idx;
                return Ok(Some((TokenKind::Int(buffer), n)));
            } else if c1 == 'b' {
                let mut buffer = String::new();
                push_char(&mut buffer, '0');
                push_char(&mut buffer, 'b');
                proof {
                    assert(buffer@ =~= seq!['0', 'b']);
                }
                let mut i: usize = idx + 2;
                loop
                    invariant
                        idx + 2 <= i <= s.len(),
                        s == chars@,
                        buffer@ == seq!['0', 'b'] + s.subrange(idx + 2, i as int),
                        forall|k: int| idx + 2 <= k < i ==> (#[trigger] s[k] == '0' || s[k] == '1'),
                    ensures
                        idx + 2 <= i <= s.len(),
                        s == chars@,
                        buffer@ == seq!['0', 'b'] + s.subrange(idx + 2, i as int),
                        i as int == bin_run_end(s, idx + 2),
                    decreases s.len() - i,
                {
                    if i < chars.len() {
                        let ch = chars[i];
                        if ch == '0' || ch == '1' {
                            push_char(&mut buffer, ch);
                            i = i + 1;
                            proof {
                                assert(buffer@ =~= seq!['0', 'b'] + s.subrange(idx + 2, i as int));
                            }
                        } else {
                            proof {
                                lemma_bin_run_end(s, idx + 2, i as int);
                            }
                            break;
                        }
                    } else {
                        proof {
                            lemma_bin_run_end(s, idx + 2, i as int);
                        }
                        break;
                    }
                }
                let n = i - idx;
                return Ok(Some((TokenKind::Int(buffer), n)));
            } else if !is_ascii_digit(c1) {
                return Err(LexError::InvalidNumericPrefix);
            }
            // A digit after the leading `0` continues as an ordinary
            // decimal numeral below.
        } else {
            let mut buffer = String::new();
            push_char(&mut buffer, '0');
            proof {
                assert(buffer@ =~= seq!['0']);
            }
            return Ok(Some((TokenKind::Int(buffer), 1)));
        }
    }
    if is_ascii_digit(c) || c == '.' {
        let mut buffer = String::new();
        let mut i: usize = idx;
        let mut dot = false;
        loop
            invariant
                idx <= i <= s.len(),
                idx < s.len(),
                s == chars@,
                c == s[idx as int],
                ascii_digit(c) || c == '.',
                !(c == '0' && idx + 1 < s.len() && (s[idx + 1] == 'x' || s[idx + 1] == 'X')),
                !(c == '0' && idx + 1 < s.len() && s[idx + 1] == 'b'),
                !(c == '0' && idx + 1 < s.len() && !ascii_digit(s[idx + 1])),
                !(c == '0' && idx + 1 >= s.len()),
                buffer@ == s.subrange(idx as int, i as int),
                i == idx ==> !dot,
                num_run(s, idx as int, false) == num_run(s, i as int, dot),
            ensures
                idx < i <= s.len(),
                s == chars@,
                buffer@ == s.subrange(idx as int, i as int),
                num_run(s, idx as int, false) == Ok::<_, LexError>((i as int, dot)),
            decreases s.len() - i,
        {
            if i < chars.len() {
                let ch = chars[i];
                if ch == '.' {
                    if dot {
                        proof {
                            assert(num_run(s, i as int, dot) == Err::<(int, bool), _>(
                                LexError::DoubleDecimalPoint,
                            ));
                        }
                        return Err(LexError::DoubleDecimalPoint);
                    }
                    dot = true;
                    push_char(&mut buffer, ch);
                    i = i + 1;
                    proof {
                        assert(buffer@ =~= s.subrange(idx as int, i as int));
                    }
                } else if is_ascii_digit(ch) {
                    push_char(&mut buffer, ch);
                    i = i + 1;
                    proof {
                        assert(buffer@ =~= s.subrange(idx as int, i as int));
                    }
                } else {
                    proof {
                        assert(num_run(s, i as int, dot) == Ok::<_, LexError>((i as int, dot)));
                        if i == idx {
                            assert(false);
                        }
                    }
                    break;
                }
            } else {
                proof {
                    assert(num_run(s, i as int, dot) == Ok::<_, LexError>((i as int, dot)));
                }
                break;
            }
        }
        let n = i - idx;
        let kind = if dot {
            TokenKind::Float(buffer)
        } else {
            TokenKind::Int(buffer)
        };
        Ok(Some((kind, n)))
    } else {
        Ok(None)
    }
}

/// The punctuation table: parentheses, braces, colon, semicolon and comma
/// map directly to fixed token kinds.
pub open spec fn spec_punct_kind(c: char) -> Option<TokenKindV> {
    if c == '(' {
        Some(TokenKindV::OpenParen)
    } else if c == ')' {
        Some(TokenKindV::CloseParen)
    } else if c == '{' {
        Some(TokenKindV::OpenBrace)
    } else if c == '}' {
        Some(TokenKindV::CloseBrace)
    } else if c == ':' {
        Some(TokenKindV::Colon)
    } else if c == ';' {
        Some(TokenKindV::SemiColon)
    } else if c == ',' {
        Some(TokenKindV::Comma)
    } else {
        None
    }
}

/// Looks the character up in the punctuation table.
fn punct_kind(c: char) -> (r: Option<TokenKind>)
    ensures
        match r {
            Some(k) => spec_punct_kind(c) == Some(k@),
            None => spec_punct_kind(c) is None,
        },
{
    if c == '(' {
        Some(TokenKind::OpenParen)
    } else if c == ')' {
        Some(TokenKind::CloseParen)
    } else if c == '{' {
        Some(TokenKind::OpenBrace)
    } else if c == '}' {
        Some(TokenKind::CloseBrace)
    } else if c == ':' {
        Some(TokenKind::Colon)
    } else if c == ';' {
        Some(TokenKind::SemiColon)
    } else if c == ',' {
        Some(TokenKind::Comma)
    } else {
        None
    }
}

/// Mirror of the whole pass from position `i` on: the tokens of the rest of
/// the text (ending with the end-of-stream token), or the first fatal fault.
///
/// A space advances the column; any other whitespace starts a new line; a
/// character matching no token class is silently skipped. A token spanning
/// `n` characters advances the column by `n - 1` and carries the advanced
/// column, as the scan does.
pub open spec fn spec_tokenize_from(s: Seq<char>, i: int, line: int, column: int) -> Result<
    Seq<TokenV>,
    LexError,
>
    decreases s.len() - i when 0 <= i via spec_tokenize_from_dec
{
    if i >= s.len() {
        Ok(seq![TokenV { kind: TokenKindV::EOF, start: column, line: line, column: column }])
    } else {
        let c = s[i];
        if c == ' ' {
            spec_tokenize_from(s, i + 1, line, column + 1)
        } else if space_char(c) {
            spec_tokenize_from(s, i + 1, line + 1, 0)
        } else {
            match spec_check_symbol(c, s, i) {
                Some(kn) => {
                    let t = TokenV { kind: kn.0, start: i, line: line, column: column + kn.1 - 1 };
                    match spec_tokenize_from(s, i + kn.1, line, column + kn.1 - 1) {
                        Ok(ts) => Ok(seq![t] + ts),
                        Err(e) => Err(e),
                    }
                },
                None => match spec_check_numeric(c, s, i) {
                    Err(e) => Err(e),
                    Ok(Some(kn)) => {
                        let t = TokenV {
                            kind: kn.0,
                            start: i,
                            line: line,
                            column: column + kn.1 - 1,
                        };
                        match spec_tokenize_from(s, i + kn.1, line, column + kn.1 - 1) {
                            Ok(ts) => Ok(seq![t] + ts),
                            Err(e) => Err(e),
                        }
                    },
                    Ok(None) => match spec_punct_kind(c) {
                        Some(k) => {
                            let t = TokenV { kind: k, start: i, line: line, column: column };
                            match spec_tokenize_from(s, i + 1, line, column) {
                                Ok(ts) => Ok(seq![t] + ts),
                                Err(e) => Err(e),
                            }
                        },
                        None => match spec_check_operator(c, s, i) {
                            Some(on) => {
                                let t = TokenV {
                                    kind: TokenKindV::Operator(on.0),
                                    start: i,
                                    line: line,
                                    column: column + on.1 - 1,
                                };
                                match spec_tokenize_from(s, i + on.1, line, column + on.1 - 1) {
                                    Ok(ts) => Ok(seq![t] + ts),
                                    Err(e) => Err(e),
                                }
                            },
                            None => spec_tokenize_from(s, i + 1, line, column),
                        },
                    },
                },
            }
        }
    }
}

#[via_fn]
proof fn spec_tokenize_from_dec(s: Seq<char>, i: int, line: int, column: int) {
    if 0 <= i && i < s.len() {
        let c = s[i];
        lemma_alnum_run_bounds(s, i);
        if i + 2 <= s.len() {
            lemma_hex_run_bounds(s, i + 2);
            lemma_bin_run_bounds(s, i + 2);
        }
        lemma_num_run_bounds(s, i, false);
        if i < s.len() && (ascii_digit(c) || c == '.') {
            assert(num_run(s, i, false) == if c == '.' {
                num_run(s, i + 1, true)
            } else {
                num_run(s, i + 1, false)
            });
            lemma_num_run_bounds(s, i + 1, true);
            lemma_num_run_bounds(s, i + 1, false);
        }
        lemma_check_operator_bounds(c, s, i);
    }
}

/// The whole-pass mirror: [`spec_tokenize_from`] started at the beginning
/// of the text with line and column zero.
pub open spec fn spec_tokenize(s: Seq<char>) -> Result<Seq<TokenV>, LexError> {
    spec_tokenize_from(s, 0, 0, 0)
}

/// The mathematical values of a token vector.
pub open spec fn tokens_view(ts: Seq<Token>) -> Seq<TokenV> {
    ts.map_values(|t: Token| t@)
}

/// Prepends already-scanned tokens to the outcome of the rest of a scan.
pub open spec fn with_prefix(pre: Seq<TokenV>, rest: Result<Seq<TokenV>, LexError>) -> Result<
    Seq<TokenV>,
    LexError,
> {
    match rest {
        Ok(ts) => Ok(pre + ts),
        Err(e) => Err(e),
    }
}

/// Converts source text into its ordered token sequence, ending with the
/// end-of-stream token, or aborts with the first fatal lexical fault. The
/// outcome is exactly [`spec_tokenize`] of the text.
pub fn tokenize(content: &str) -> (r: Result<Vec<Token>, LexError>)
    ensures
        match r {
            Ok(v) => spec_tokenize(content@) == Ok::<_, LexError>(tokens_view(v@)),
            Err(e) => spec_tokenize(content@) == Err::<Seq<TokenV>, _>(e),
        },
{
    let chars = chars_of(content);
    let ghost s = content@;
    let len = chars.len();
    let mut vec: Vec<Token> = Vec::new();
    let mut i: usize = 0;
    let mut line: usize = 0;
    let mut column: usize = 0;
    loop
        invariant
            s == content@,
            s == chars@,
            len == s.len(),
            i <= len,
            line <= i,
            column <= i,
            spec_tokenize(s) == with_prefix(
                tokens_view(vec@),
                spec_tokenize_from(s, i as int, line as int, column as int),
            ),
        ensures
            i >= len,
            s == chars@,
            spec_tokenize(s) == with_prefix(
                tokens_view(vec@),
                spec_tokenize_from(s, i as int, line as int, column as int),
            ),
            line <= i,
            column <= i,
        decreases len - i,
    {
        if i >= len {
            break;
        }
        let c = chars[i];
        let ghost old_vec = vec@;
        let ghost old_i = i as int;
        let ghost old_line = line as int;
        let ghost old_column = column as int;
        if c == ' ' {
            i = i + 1;
            column = column + 1;
            proof {
                assert(spec_tokenize_from(s, old_i, old_line, old_column) == spec_tokenize_from(
                    s,
                    i as int,
                    line as int,
                    column as int,
                ));
            }
            continue;
        }
        if char_is_whitespace(c) {
            i = i + 1;
            column = 0;
            line = line + 1;
            proof {
                assert(spec_tokenize_from(s, old_i, old_line, old_column) == spec_tokenize_from(
                    s,
                    i as int,
                    line as int,
                    column as int,
                ));
            }
            continue;
        }
        let actual = i;
        let kind_n: (TokenKind, usize) = if let Some(kn) = check_symbol(c, chars.as_slice(), i) {
            kn
        } else {
            match check_numeric(c, chars.as_slice(), i) {
                Err(e) => {
                    proof {
                        assert(spec_tokenize_from(s, old_i, old_line, old_column) == Err::<
                            Seq<TokenV>,
                            _,
                        >(e));
                    }
                    return Err(e);
                },
                Ok(Some(kn)) => kn,
                Ok(None) => {
                    if let Some(k) = punct_kind(c) {
                        (k, 1)
                    } else {
                        if let Some(on) = check_operator(c, chars.as_slice(), i) {
                            (TokenKind::Operator(on.0), on.1)
                        } else {
                            i = i + 1;
                            proof {
                                assert(spec_tokenize_from(s, old_i, old_line, old_column)
                                    == spec_tokenize_from(s, i as int, line as int, column as int));
                            }
                            continue;
                        }
                    }
                },
            }
        };
        let (kind, n) = kind_n;
        column = column + n - 1;
        i = i + n;
        let t = Token { kind, start: actual, line, column };
        let ghost tv = t@;
        vec.push(t);
        proof {
            assert(tv == TokenV {
                kind: tv.kind,
                start: old_i,
                line: old_line,
                column: old_column + n - 1,
            });
            assert(tokens_view(vec@) =~= tokens_view(old_vec) + seq![tv]);
            assert(spec_tokenize_from(s, old_i, old_line, old_column) == with_prefix(
                seq![tv],
                spec_tokenize_from(s, i as int, line as int, column as int),
            ));
            match spec_tokenize_from(s, i as int, line as int, column as int) {
                Ok(ts) => {
                    assert(tokens_view(old_vec) + (seq![tv] + ts) =~= (tokens_view(old_vec)
                        + seq![tv]) + ts);
                },
                Err(_) => {},
            }
            assert(spec_tokenize(s) == with_prefix(
                tokens_view(vec@),
                spec_tokenize_from(s, i as int, line as int, column as int),
            ));
        }
    }
    let eof = Token { kind: TokenKind::EOF, start: column, line, column };
    let ghost eofv = eof@;
    let ghost pre = vec@;
    vec.push(eof);
    proof {
        assert(spec_tokenize_from(s, i as int, line as int, column as int) == Ok::<_, LexError>(
            seq![eofv],
        ));
        assert(tokens_view(vec@) =~= tokens_view(pre) + seq![eofv]);
    }
    Ok(vec)
}

} // verus!
