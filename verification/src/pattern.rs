//! Compilation of textual byte signatures.
//!
//! A signature is written as whitespace-separated tokens, each either a
//! two-hex-digit byte value ("4c", "8B") or a wildcard ("?" or "??") that
//! matches any byte. Compilation turns the text into a fixed token sequence;
//! a token that is neither shape is rejected.

use vstd::prelude::*;

verus! {

/// One element of a compiled signature: an exact byte value or a wildcard.
#[derive(Clone, Copy, PartialEq, Eq, Structural, Debug)]
pub enum Token {
    Byte(u8),
    Any,
}

/// Whether `c` is an ASCII hexadecimal digit (either case).
pub open spec fn is_hex_digit(c: char) -> bool {
    ||| '0' as u32 <= c as u32 <= '9' as u32
    ||| 'a' as u32 <= c as u32 <= 'f' as u32
    ||| 'A' as u32 <= c as u32 <= 'F' as u32
}

/// The numeric value of a hexadecimal digit.
pub open spec fn hex_value(c: char) -> u8
    recommends
        is_hex_digit(c),
{
    if '0' as u32 <= c as u32 <= '9' as u32 {
        (c as u32 - '0' as u32) as u8
    } else if 'a' as u32 <= c as u32 <= 'f' as u32 {
        (c as u32 - 'a' as u32 + 10) as u8
    } else {
        (c as u32 - 'A' as u32 + 10) as u8
    }
}

/// What a single textual token denotes: a wildcard spelling, a two-digit
/// byte value, or nothing at all.
pub open spec fn spec_token(s: Seq<char>) -> Option<Token> {
    if s.len() == 1 && s[0] == '?' {
        Some(Token::Any)
    } else if s.len() == 2 && s[0] == '?' && s[1] == '?' {
        Some(Token::Any)
    } else if s.len() == 2 && is_hex_digit(s[0]) && is_hex_digit(s[1]) {
        Some(Token::Byte((16 * hex_value(s[0]) + hex_value(s[1])) as u8))
    } else {
        None
    }
}

/// The token sequence denoted by the text `s` after the partial token `cur`
/// already read: tokens are separated by single spaces, and every segment,
/// including an empty one, must itself be a valid token.
pub open spec fn spec_tokens(s: Seq<char>, cur: Seq<char>) -> Option<Seq<Token>>
    decreases s.len(),
{
    if s.len() == 0 {
        match spec_token(cur) {
            Some(t) => Some(seq![t]),
            None => None,
        }
    } else if s[0] == ' ' {
        match (spec_token(cur), spec_tokens(s.drop_first(), seq![])) {
            (Some(t), Some(rest)) => Some(seq![t] + rest),
            _ => None,
        }
    } else {
        spec_tokens(s.drop_first(), cur.push(s[0]))
    }
}

/// The compiled form of a whole signature text, or `None` when any segment
/// is not a recognized token.
pub open spec fn spec_pattern(s: Seq<char>) -> Option<Seq<Token>> {
    spec_tokens(s, seq![])
}

/// A compiled signature: the token order of the text, fixed after compilation.
pub struct Pattern {
    tokens: Vec<Token>,
}

impl View for Pattern {
    type V = Seq<Token>;

    closed spec fn view(&self) -> Seq<Token> {
        self.tokens@
    }
}

impl Pattern {
    /// The number of tokens in the compiled signature.
    pub fn len(&self) -> (n: usize)
        ensures
            n == self@.len(),
    {
        self.tokens.len()
    }

    /// The token at position `i`.
    pub fn token(&self, i: usize) -> (t: Token)
        requires
            i < self@.len(),
        ensures
            t == self@[i as int],
    {
        self.tokens[i]
    }
}

fn token_of_chars(cur: &Vec<char>) -> (r: Option<Token>)
    ensures
        r == spec_token(cur@),
{
    if cur.len() == 1 && cur[0] == '?' {
        Some(Token::Any)
    } else if cur.len() == 2 && cur[0] == '?' && cur[1] == '?' {
        Some(Token::Any)
    } else if cur.len() == 2 {
        let hi = hex_digit_value(cur[0]);
        let lo = hex_digit_value(cur[1]);
        match (hi, lo) {
            (Some(h), Some(l)) => Some(Token::Byte(16 * h + l)),
            _ => None,
        }
    } else {
        None
    }
}

fn hex_digit_value(c: char) -> (r: Option<u8>)
    ensures
        r is Some <==> is_hex_digit(c),
        r is Some ==> r == Some(hex_value(c)),
{
    let v = c as u32;
    if '0' as u32 <= v && v <= '9' as u32 {
        Some((v - '0' as u32) as u8)
    } else if 'a' as u32 <= v && v <= 'f' as u32 {
        Some((v - 'a' as u32 + 10) as u8)
    } else if 'A' as u32 <= v && v <= 'F' as u32 {
        Some((v - 'A' as u32 + 10) as u8)
    } else {
        None
    }
}

/// Combines an already-compiled prefix with the outcome of the rest of the
/// text, the shape `compile`'s loop maintains.
spec fn with_prefix(done: Seq<Token>, rest: Option<Seq<Token>>) -> Option<Seq<Token>> {
    match rest {
        Some(ts) => Some(done + ts),
        None => None,
    }
}

/// Compiles a signature text into its token sequence; `None` exactly when
/// some whitespace-separated segment is neither a two-hex-digit byte nor a
/// wildcard.
pub fn compile(s: &str) -> (r: Option<Pattern>)
    ensures
        match r {
            Some(p) => spec_pattern(s@) == Some(p@),
            None => spec_pattern(s@) is None,
        },
{
    let n = s.unicode_len();
    let mut done: Vec<Token> = Vec::new();
    let mut cur: Vec<char> = Vec::new();
    let mut i: usize = 0;
    proof {
        assert(s@.skip(0) =~= s@);
        assert(done@ + spec_tokens(s@, cur@).unwrap() =~= spec_tokens(s@, cur@).unwrap()) by {
            if spec_tokens(s@, cur@) is Some {
                assert(done@ + spec_tokens(s@, cur@).unwrap() =~= spec_tokens(s@, cur@).unwrap());
            }
        }
    }
    while i < n
        invariant
            i <= n,
            n == s@.len(),
            spec_pattern(s@) == with_prefix(done@, spec_tokens(s@.skip(i as int), cur@)),
        decreases n - i,
    {
        let c = s.get_char(i);
        proof {
            assert(s@.skip(i as int)[0] == s@[i as int]);
            assert(s@.skip(i as int).drop_first() =~= s@.skip(i as int + 1));
        }
        if c == ' ' {
            match token_of_chars(&cur) {
                Some(t) => {
                    proof {
                        if spec_tokens(s@.skip(i as int + 1), Seq::<char>::empty()) is Some {
                            assert(done@ + (seq![t] + spec_tokens(
                                s@.skip(i as int + 1),
                                Seq::<char>::empty(),
                            ).unwrap()) =~= done@.push(t) + spec_tokens(
                                s@.skip(i as int + 1),
                                Seq::<char>::empty(),
                            ).unwrap());
                        }
                    }
                    done.push(t);
                    cur = Vec::new();
                    proof {
                        assert(cur@ =~= Seq::<char>::empty());
                    }
                },
                None => {
                    return None;
                },
            }
        } else {
            cur.push(c);
        }
        i = i + 1;
    }
    proof {
        assert(s@.skip(n as int) =~= Seq::<char>::empty());
    }
    match token_of_chars(&cur) {
        Some(t) => {
            proof {
                assert(done@ + seq![t] =~= done@.push(t));
            }
            done.push(t);
            Some(Pattern { tokens: done })
        },
        None => None,
    }
}

} // verus!
