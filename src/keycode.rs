use vstd::prelude::*;

verus! {

/// A key on the keyboard, by its physical position.
#[derive(PartialEq, Eq, Structural, Clone, Copy, Debug, Hash)]
pub enum KeyCode {
    Escape,
    KeyA,
    KeyB,
    KeyC,
    KeyD,
    KeyE,
    KeyF,
    KeyG,
    KeyH,
    KeyI,
    KeyJ,
    KeyK,
    KeyL,
    KeyM,
    KeyN,
    KeyO,
    KeyP,
    KeyQ,
    KeyR,
    KeyS,
    KeyT,
    KeyU,
    KeyV,
    KeyW,
    KeyX,
    KeyY,
    KeyZ,
    Digit0,
    Digit1,
    Digit2,
    Digit3,
    Digit4,
    Digit5,
    Digit6,
    Digit7,
    Digit8,
    Digit9,
    Backquote,
    Minus,
    Equal,
    BracketLeft,
    BracketRight,
    Backslash,
    /// Any other key, by a code of the input layer.
    Other(u32),
}

/// A distinct number for each key.
pub open spec fn code_index(c: KeyCode) -> int {
    match c {
        KeyCode::Escape => 0,
        KeyCode::KeyA => 1,
        KeyCode::KeyB => 2,
        KeyCode::KeyC => 3,
        KeyCode::KeyD => 4,
        KeyCode::KeyE => 5,
        KeyCode::KeyF => 6,
        KeyCode::KeyG => 7,
        KeyCode::KeyH => 8,
        KeyCode::KeyI => 9,
        KeyCode::KeyJ => 10,
        KeyCode::KeyK => 11,
        KeyCode::KeyL => 12,
        KeyCode::KeyM => 13,
        KeyCode::KeyN => 14,
        KeyCode::KeyO => 15,
        KeyCode::KeyP => 16,
        KeyCode::KeyQ => 17,
        KeyCode::KeyR => 18,
        KeyCode::KeyS => 19,
        KeyCode::KeyT => 20,
        KeyCode::KeyU => 21,
        KeyCode::KeyV => 22,
        KeyCode::KeyW => 23,
        KeyCode::KeyX => 24,
        KeyCode::KeyY => 25,
        KeyCode::KeyZ => 26,
        KeyCode::Digit0 => 27,
        KeyCode::Digit1 => 28,
        KeyCode::Digit2 => 29,
        KeyCode::Digit3 => 30,
        KeyCode::Digit4 => 31,
        KeyCode::Digit5 => 32,
        KeyCode::Digit6 => 33,
        KeyCode::Digit7 => 34,
        KeyCode::Digit8 => 35,
        KeyCode::Digit9 => 36,
        KeyCode::Backquote => 37,
        KeyCode::Minus => 38,
        KeyCode::Equal => 39,
        KeyCode::BracketLeft => 40,
        KeyCode::BracketRight => 41,
        KeyCode::Backslash => 42,
        KeyCode::Other(n) => 64 + n as int,
    }
}

/// Whether the chord syntax has a token for the key.
pub open spec fn is_named(c: KeyCode) -> bool {
    !(c is Other)
}

/// The token that names a key in the chord syntax.
pub open spec fn token_of(c: KeyCode) -> Seq<char> {
    match c {
        KeyCode::Escape => seq!['<', 'E', 'S', 'C', '>'],
        KeyCode::KeyA => seq!['a'],
        KeyCode::KeyB => seq!['b'],
        KeyCode::KeyC => seq!['c'],
        KeyCode::KeyD => seq!['d'],
        KeyCode::KeyE => seq!['e'],
        KeyCode::KeyF => seq!['f'],
        KeyCode::KeyG => seq!['g'],
        KeyCode::KeyH => seq!['h'],
        KeyCode::KeyI => seq!['i'],
        KeyCode::KeyJ => seq!['j'],
        KeyCode::KeyK => seq!['k'],
        KeyCode::KeyL => seq!['l'],
        KeyCode::KeyM => seq!['m'],
        KeyCode::KeyN => seq!['n'],
        KeyCode::KeyO => seq!['o'],
        KeyCode::KeyP => seq!['p'],
        KeyCode::KeyQ => seq!['q'],
        KeyCode::KeyR => seq!['r'],
        KeyCode::KeyS => seq!['s'],
        KeyCode::KeyT => seq!['t'],
        KeyCode::KeyU => seq!['u'],
        KeyCode::KeyV => seq!['v'],
        KeyCode::KeyW => seq!['w'],
        KeyCode::KeyX => seq!['x'],
        KeyCode::KeyY => seq!['y'],
        KeyCode::KeyZ => seq!['z'],
        KeyCode::Digit0 => seq!['0'],
        KeyCode::Digit1 => seq!['1'],
        KeyCode::Digit2 => seq!['2'],
        KeyCode::Digit3 => seq!['3'],
        KeyCode::Digit4 => seq!['4'],
        KeyCode::Digit5 => seq!['5'],
        KeyCode::Digit6 => seq!['6'],
        KeyCode::Digit7 => seq!['7'],
        KeyCode::Digit8 => seq!['8'],
        KeyCode::Digit9 => seq!['9'],
        KeyCode::Backquote => seq!['`'],
        KeyCode::Minus => seq!['<', 'D', 'A', 'S', 'H', '>'],
        KeyCode::Equal => seq!['='],
        KeyCode::BracketLeft => seq!['{'],
        KeyCode::BracketRight => seq!['}'],
        KeyCode::Backslash => seq!['\\'],
        KeyCode::Other(_) => seq!['<', 'U', 'N', 'K', '>'],
    }
}

/// The key a one-character token names.
pub open spec fn code_of_char(ch: char) -> Option<KeyCode> {
    if ch == 'a' {
        Some(KeyCode::KeyA)
    } else if ch == 'b' {
        Some(KeyCode::KeyB)
    } else if ch == 'c' {
        Some(KeyCode::KeyC)
    } else if ch == 'd' {
        Some(KeyCode::KeyD)
    } else if ch == 'e' {
        Some(KeyCode::KeyE)
    } else if ch == 'f' {
        Some(KeyCode::KeyF)
    } else if ch == 'g' {
        Some(KeyCode::KeyG)
    } else if ch == 'h' {
        Some(KeyCode::KeyH)
    } else if ch == 'i' {
        Some(KeyCode::KeyI)
    } else if ch == 'j' {
        Some(KeyCode::KeyJ)
    } else if ch == 'k' {
        Some(KeyCode::KeyK)
    } else if ch == 'l' {
        Some(KeyCode::KeyL)
    } else if ch == 'm' {
        Some(KeyCode::KeyM)
    } else if ch == 'n' {
        Some(KeyCode::KeyN)
    } else if ch == 'o' {
        Some(KeyCode::KeyO)
    } else if ch == 'p' {
        Some(KeyCode::KeyP)
    } else if ch == 'q' {
        Some(KeyCode::KeyQ)
    } else if ch == 'r' {
        Some(KeyCode::KeyR)
    } else if ch == 's' {
        Some(KeyCode::KeyS)
    } else if ch == 't' {
        Some(KeyCode::KeyT)
    } else if ch == 'u' {
        Some(KeyCode::KeyU)
    } else if ch == 'v' {
        Some(KeyCode::KeyV)
    } else if ch == 'w' {
        Some(KeyCode::KeyW)
    } else if ch == 'x' {
        Some(KeyCode::KeyX)
    } else if ch == 'y' {
        Some(KeyCode::KeyY)
    } else if ch == 'z' {
        Some(KeyCode::KeyZ)
    } else if ch == '0' {
        Some(KeyCode::Digit0)
    } else if ch == '1' {
        Some(KeyCode::Digit1)
    } else if ch == '2' {
        Some(KeyCode::Digit2)
    } else if ch == '3' {
        Some(KeyCode::Digit3)
    } else if ch == '4' {
        Some(KeyCode::Digit4)
    } else if ch == '5' {
        Some(KeyCode::Digit5)
    } else if ch == '6' {
        Some(KeyCode::Digit6)
    } else if ch == '7' {
        Some(KeyCode::Digit7)
    } else if ch == '8' {
        Some(KeyCode::Digit8)
    } else if ch == '9' {
        Some(KeyCode::Digit9)
    } else if ch == '`' {
        Some(KeyCode::Backquote)
    } else if ch == '=' {
        Some(KeyCode::Equal)
    } else if ch == '{' {
        Some(KeyCode::BracketLeft)
    } else if ch == '}' {
        Some(KeyCode::BracketRight)
    } else if ch == '\\' {
        Some(KeyCode::Backslash)
    } else {
        None
    }
}

/// The key a token names, if any.
pub open spec fn code_of_token(t: Seq<char>) -> Option<KeyCode> {
    if t.len() == 1 {
        code_of_char(t[0])
    } else if t.len() == 5 && t[0] == '<' && t[1] == 'E' && t[2] == 'S' && t[3] == 'C' && t[4] == '>' {
        Some(KeyCode::Escape)
    } else if t.len() == 6 && t[0] == '<' && t[1] == 'D' && t[2] == 'A' && t[3] == 'S' && t[4] == 'H'
        && t[5] == '>' {
        Some(KeyCode::Minus)
    } else {
        None
    }
}

/// Every named key's token names it again, and holds no hyphen.
pub proof fn lemma_token_round_trip(c: KeyCode)
    requires
        is_named(c),
    ensures
        code_of_token(token_of(c)) == Some(c),
        token_of(c).len() > 0,
        forall|i: int| 0 <= i < token_of(c).len() ==> token_of(c)[i] != '-',
{
    match c {
        KeyCode::Escape => {
            assert(token_of(c) =~= seq!['<', 'E', 'S', 'C', '>']);
        },
        KeyCode::KeyA => {
            assert(token_of(c) =~= seq!['a']);
        },
        KeyCode::KeyB => {
            assert(token_of(c) =~= seq!['b']);
        },
        KeyCode::KeyC => {
            assert(token_of(c) =~= seq!['c']);
        },
        KeyCode::KeyD => {
            assert(token_of(c) =~= seq!['d']);
        },
        KeyCode::KeyE => {
            assert(token_of(c) =~= seq!['e']);
        },
        KeyCode::KeyF => {
            assert(token_of(c) =~= seq!['f']);
        },
        KeyCode::KeyG => {
            assert(token_of(c) =~= seq!['g']);
        },
        KeyCode::KeyH => {
            assert(token_of(c) =~= seq!['h']);
        },
        KeyCode::KeyI => {
            assert(token_of(c) =~= seq!['i']);
        },
        KeyCode::KeyJ => {
            assert(token_of(c) =~= seq!['j']);
        },
        KeyCode::KeyK => {
            assert(token_of(c) =~= seq!['k']);
        },
        KeyCode::KeyL => {
            assert(token_of(c) =~= seq!['l']);
        },
        KeyCode::KeyM => {
            assert(token_of(c) =~= seq!['m']);
        },
        KeyCode::KeyN => {
            assert(token_of(c) =~= seq!['n']);
        },
        KeyCode::KeyO => {
            assert(token_of(c) =~= seq!['o']);
        },
        KeyCode::KeyP => {
            assert(token_of(c) =~= seq!['p']);
        },
        KeyCode::KeyQ => {
            assert(token_of(c) =~= seq!['q']);
        },
        KeyCode::KeyR => {
            assert(token_of(c) =~= seq!['r']);
        },
        KeyCode::KeyS => {
            assert(token_of(c) =~= seq!['s']);
        },
        KeyCode::KeyT => {
            assert(token_of(c) =~= seq!['t']);
        },
        KeyCode::KeyU => {
            assert(token_of(c) =~= seq!['u']);
        },
        KeyCode::KeyV => {
            assert(token_of(c) =~= seq!['v']);
        },
        KeyCode::KeyW => {
            assert(token_of(c) =~= seq!['w']);
        },
        KeyCode::KeyX => {
            assert(token_of(c) =~= seq!['x']);
        },
        KeyCode::KeyY => {
            assert(token_of(c) =~= seq!['y']);
        },
        KeyCode::KeyZ => {
            assert(token_of(c) =~= seq!['z']);
        },
        KeyCode::Digit0 => {
            assert(token_of(c) =~= seq!['0']);
        },
        KeyCode::Digit1 => {
            assert(token_of(c) =~= seq!['1']);
        },
        KeyCode::Digit2 => {
            assert(token_of(c) =~= seq!['2']);
        },
        KeyCode::Digit3 => {
            assert(token_of(c) =~= seq!['3']);
        },
        KeyCode::Digit4 => {
            assert(token_of(c) =~= seq!['4']);
        },
        KeyCode::Digit5 => {
            assert(token_of(c) =~= seq!['5']);
        },
        KeyCode::Digit6 => {
            assert(token_of(c) =~= seq!['6']);
        },
        KeyCode::Digit7 => {
            assert(token_of(c) =~= seq!['7']);
        },
        KeyCode::Digit8 => {
            assert(token_of(c) =~= seq!['8']);
        },
        KeyCode::Digit9 => {
            assert(token_of(c) =~= seq!['9']);
        },
        KeyCode::Backquote => {
            assert(token_of(c) =~= seq!['`']);
        },
        KeyCode::Minus => {
            assert(token_of(c) =~= seq!['<', 'D', 'A', 'S', 'H', '>']);
        },
        KeyCode::Equal => {
            assert(token_of(c) =~= seq!['=']);
        },
        KeyCode::BracketLeft => {
            assert(token_of(c) =~= seq!['{']);
        },
        KeyCode::BracketRight => {
            assert(token_of(c) =~= seq!['}']);
        },
        KeyCode::Backslash => {
            assert(token_of(c) =~= seq!['\\']);
        },
        KeyCode::Other(_) => {},
    }
}

/// Every key a token names is a named key.
pub proof fn lemma_token_named(t: Seq<char>)
    requires
        code_of_token(t) is Some,
    ensures
        is_named(code_of_token(t)->0),
{
}

/// The key that `text` names, or `None`.
pub fn code_of_str(text: &str) -> (r: Option<KeyCode>)
    ensures
        r == code_of_token(text@),
{
    let n = text.unicode_len();
    if n == 1 {
        let ch = text.get_char(0);
        if ch == 'a' {
            Some(KeyCode::KeyA)
        } else if ch == 'b' {
            Some(KeyCode::KeyB)
        } else if ch == 'c' {
            Some(KeyCode::KeyC)
        } else if ch == 'd' {
            Some(KeyCode::KeyD)
        } else if ch == 'e' {
            Some(KeyCode::KeyE)
        } else if ch == 'f' {
            Some(KeyCode::KeyF)
        } else if ch == 'g' {
            Some(KeyCode::KeyG)
        } else if ch == 'h' {
            Some(KeyCode::KeyH)
        } else if ch == 'i' {
            Some(KeyCode::KeyI)
        } else if ch == 'j' {
            Some(KeyCode::KeyJ)
        } else if ch == 'k' {
            Some(KeyCode::KeyK)
        } else if ch == 'l' {
            Some(KeyCode::KeyL)
        } else if ch == 'm' {
            Some(KeyCode::KeyM)
        } else if ch == 'n' {
            Some(KeyCode::KeyN)
        } else if ch == 'o' {
            Some(KeyCode::KeyO)
        } else if ch == 'p' {
            Some(KeyCode::KeyP)
        } else if ch == 'q' {
            Some(KeyCode::KeyQ)
        } else if ch == 'r' {
            Some(KeyCode::KeyR)
        } else if ch == 's' {
            Some(KeyCode::KeyS)
        } else if ch == 't' {
            Some(KeyCode::KeyT)
        } else if ch == 'u' {
            Some(KeyCode::KeyU)
        } else if ch == 'v' {
            Some(KeyCode::KeyV)
        } else if ch == 'w' {
            Some(KeyCode::KeyW)
        } else if ch == 'x' {
            Some(KeyCode::KeyX)
        } else if ch == 'y' {
            Some(KeyCode::KeyY)
        } else if ch == 'z' {
            Some(KeyCode::KeyZ)
        } else if ch == '0' {
            Some(KeyCode::Digit0)
        } else if ch == '1' {
            Some(KeyCode::Digit1)
        } else if ch == '2' {
            Some(KeyCode::Digit2)
        } else if ch == '3' {
            Some(KeyCode::Digit3)
        } else if ch == '4' {
            Some(KeyCode::Digit4)
        } else if ch == '5' {
            Some(KeyCode::Digit5)
        } else if ch == '6' {
            Some(KeyCode::Digit6)
        } else if ch == '7' {
            Some(KeyCode::Digit7)
        } else if ch == '8' {
            Some(KeyCode::Digit8)
        } else if ch == '9' {
            Some(KeyCode::Digit9)
        } else if ch == '`' {
            Some(KeyCode::Backquote)
        } else if ch == '=' {
            Some(KeyCode::Equal)
        } else if ch == '{' {
            Some(KeyCode::BracketLeft)
        } else if ch == '}' {
            Some(KeyCode::BracketRight)
        } else if ch == '\\' {
            Some(KeyCode::Backslash)
        } else {
            None
        }
    } else if n == 5 && text.get_char(0) == '<' && text.get_char(1) == 'E' && text.get_char(2) == 'S'
        && text.get_char(3) == 'C' && text.get_char(4) == '>' {
        Some(KeyCode::Escape)
    } else if n == 6 && text.get_char(0) == '<' && text.get_char(1) == 'D' && text.get_char(2) == 'A'
        && text.get_char(3) == 'S' && text.get_char(4) == 'H' && text.get_char(5) == '>' {
        Some(KeyCode::Minus)
    } else {
        None
    }
}

/// The token that names `code` (`<UNK>` for a key without one).
pub fn token_str(code: KeyCode) -> (r: &'static str)
    ensures
        r@ == token_of(code),
{
    match code {
        KeyCode::Escape => {
            proof {
                reveal_strlit("<ESC>");
            }
            assert("<ESC>"@ =~= seq!['<', 'E', 'S', 'C', '>']);
            "<ESC>"
        },
        KeyCode::KeyA => {
            proof {
                reveal_strlit("a");
            }
            assert("a"@ =~= seq!['a']);
            "a"
        },
        KeyCode::KeyB => {
            proof {
                reveal_strlit("b");
            }
            assert("b"@ =~= seq!['b']);
            "b"
        },
        KeyCode::KeyC => {
            proof {
                reveal_strlit("c");
            }
            assert("c"@ =~= seq!['c']);
            "c"
        },
        KeyCode::KeyD => {
            proof {
                reveal_strlit("d");
            }
            assert("d"@ =~= seq!['d']);
            "d"
        },
        KeyCode::KeyE => {
            proof {
                reveal_strlit("e");
            }
            assert("e"@ =~= seq!['e']);
            "e"
        },
        KeyCode::KeyF => {
            proof {
                reveal_strlit("f");
            }
            assert("f"@ =~= seq!['f']);
            "f"
        },
        KeyCode::KeyG => {
            proof {
                reveal_strlit("g");
            }
            assert("g"@ =~= seq!['g']);
            "g"
        },
        KeyCode::KeyH => {
            proof {
                reveal_strlit("h");
            }
            assert("h"@ =~= seq!['h']);
            "h"
        },
        KeyCode::KeyI => {
            proof {
                reveal_strlit("i");
            }
            assert("i"@ =~= seq!['i']);
            "i"
        },
        KeyCode::KeyJ => {
            proof {
                reveal_strlit("j");
            }
            assert("j"@ =~= seq!['j']);
            "j"
        },
        KeyCode::KeyK => {
            proof {
                reveal_strlit("k");
            }
            assert("k"@ =~= seq!['k']);
            "k"
        },
        KeyCode::KeyL => {
            proof {
                reveal_strlit("l");
            }
            assert("l"@ =~= seq!['l']);
            "l"
        },
        KeyCode::KeyM => {
            proof {
                reveal_strlit("m");
            }
            assert("m"@ =~= seq!['m']);
            "m"
        },
        KeyCode::KeyN => {
            proof {
                reveal_strlit("n");
            }
            assert("n"@ =~= seq!['n']);
            "n"
        },
        KeyCode::KeyO => {
            proof {
                reveal_strlit("o");
            }
            assert("o"@ =~= seq!['o']);
            "o"
        },
        KeyCode::KeyP => {
            proof {
                reveal_strlit("p");
            }
            assert("p"@ =~= seq!['p']);
            "p"
        },
        KeyCode::KeyQ => {
            proof {
                reveal_strlit("q");
            }
            assert("q"@ =~= seq!['q']);
            "q"
        },
        KeyCode::KeyR => {
            proof {
                reveal_strlit("r");
            }
            assert("r"@ =~= seq!['r']);
            "r"
        },
        KeyCode::KeyS => {
            proof {
                reveal_strlit("s");
            }
            assert("s"@ =~= seq!['s']);
            "s"
        },
        KeyCode::KeyT => {
            proof {
                reveal_strlit("t");
            }
            assert("t"@ =~= seq!['t']);
            "t"
        },
        KeyCode::KeyU => {
            proof {
                reveal_strlit("u");
            }
            assert("u"@ =~= seq!['u']);
            "u"
        },
        KeyCode::KeyV => {
            proof {
                reveal_strlit("v");
            }
            assert("v"@ =~= seq!['v']);
            "v"
        },
        KeyCode::KeyW => {
            proof {
                reveal_strlit("w");
            }
            assert("w"@ =~= seq!['w']);
            "w"
        },
        KeyCode::KeyX => {
            proof {
                reveal_strlit("x");
            }
            assert("x"@ =~= seq!['x']);
            "x"
        },
        KeyCode::KeyY => {
            proof {
                reveal_strlit("y");
            }
            assert("y"@ =~= seq!['y']);
            "y"
        },
        KeyCode::KeyZ => {
            proof {
                reveal_strlit("z");
            }
            assert("z"@ =~= seq!['z']);
            "z"
        },
        KeyCode::Digit0 => {
            proof {
                reveal_strlit("0");
            }
            assert("0"@ =~= seq!['0']);
            "0"
        },
        KeyCode::Digit1 => {
            proof {
                reveal_strlit("1");
            }
            assert("1"@ =~= seq!['1']);
            "1"
        },
        KeyCode::Digit2 => {
            proof {
                reveal_strlit("2");
            }
            assert("2"@ =~= seq!['2']);
            "2"
        },
        KeyCode::Digit3 => {
            proof {
                reveal_strlit("3");
            }
            assert("3"@ =~= seq!['3']);
            "3"
        },
        KeyCode::Digit4 => {
            proof {
                reveal_strlit("4");
            }
            assert("4"@ =~= seq!['4']);
            "4"
        },
        KeyCode::Digit5 => {
            proof {
                reveal_strlit("5");
            }
            assert("5"@ =~= seq!['5']);
            "5"
        },
        KeyCode::Digit6 => {
            proof {
                reveal_strlit("6");
            }
            assert("6"@ =~= seq!['6']);
            "6"
        },
        KeyCode::Digit7 => {
            proof {
                reveal_strlit("7");
            }
            assert("7"@ =~= seq!['7']);
            "7"
        },
        KeyCode::Digit8 => {
            proof {
                reveal_strlit("8");
            }
            assert("8"@ =~= seq!['8']);
            "8"
        },
        KeyCode::Digit9 => {
            proof {
                reveal_strlit("9");
            }
            assert("9"@ =~= seq!['9']);
            "9"
        },
        KeyCode::Backquote => {
            proof {
                reveal_strlit("`");
            }
            assert("`"@ =~= seq!['`']);
            "`"
        },
        KeyCode::Minus => {
            proof {
                reveal_strlit("<DASH>");
            }
            assert("<DASH>"@ =~= seq!['<', 'D', 'A', 'S', 'H', '>']);
            "<DASH>"
        },
        KeyCode::Equal => {
            proof {
                reveal_strlit("=");
            }
            assert("="@ =~= seq!['=']);
            "="
        },
        KeyCode::BracketLeft => {
            proof {
                reveal_strlit("{");
            }
            assert("{"@ =~= seq!['{']);
            "{"
        },
        KeyCode::BracketRight => {
            proof {
                reveal_strlit("}");
            }
            assert("}"@ =~= seq!['}']);
            "}"
        },
        KeyCode::Backslash => {
            proof {
                reveal_strlit("\\");
            }
            assert("\\"@ =~= seq!['\\']);
            "\\"
        },
        KeyCode::Other(_) => {
            proof {
                reveal_strlit("<UNK>");
            }
            assert("<UNK>"@ =~= seq!['<', 'U', 'N', 'K', '>']);
            "<UNK>"
        },
    }
}

/// The distinct number of a key.
pub fn key_index(code: KeyCode) -> (r: u64)
    ensures
        r == code_index(code),
{
    match code {
        KeyCode::Escape => 0,
        KeyCode::KeyA => 1,
        KeyCode::KeyB => 2,
        KeyCode::KeyC => 3,
        KeyCode::KeyD => 4,
        KeyCode::KeyE => 5,
        KeyCode::KeyF => 6,
        KeyCode::KeyG => 7,
        KeyCode::KeyH => 8,
        KeyCode::KeyI => 9,
        KeyCode::KeyJ => 10,
        KeyCode::KeyK => 11,
        KeyCode::KeyL => 12,
        KeyCode::KeyM => 13,
        KeyCode::KeyN => 14,
        KeyCode::KeyO => 15,
        KeyCode::KeyP => 16,
        KeyCode::KeyQ => 17,
        KeyCode::KeyR => 18,
        KeyCode::KeyS => 19,
        KeyCode::KeyT => 20,
        KeyCode::KeyU => 21,
        KeyCode::KeyV => 22,
        KeyCode::KeyW => 23,
        KeyCode::KeyX => 24,
        KeyCode::KeyY => 25,
        KeyCode::KeyZ => 26,
        KeyCode::Digit0 => 27,
        KeyCode::Digit1 => 28,
        KeyCode::Digit2 => 29,
        KeyCode::Digit3 => 30,
        KeyCode::Digit4 => 31,
        KeyCode::Digit5 => 32,
        KeyCode::Digit6 => 33,
        KeyCode::Digit7 => 34,
        KeyCode::Digit8 => 35,
        KeyCode::Digit9 => 36,
        KeyCode::Backquote => 37,
        KeyCode::Minus => 38,
        KeyCode::Equal => 39,
        KeyCode::BracketLeft => 40,
        KeyCode::BracketRight => 41,
        KeyCode::Backslash => 42,
        KeyCode::Other(n) => 64 + n as u64,
    }
}

} // verus!
