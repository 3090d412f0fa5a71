use vstd::prelude::*;
use crate::keycode::{
    code_of_str, code_of_token, is_named, lemma_token_named, lemma_token_round_trip, token_of,
    token_str, KeyCode,
};

verus! {

/// A set of modifier keys, as bits: Ctrl 1, Shift 2, Alt 4, Super 8.
#[derive(PartialEq, Eq, Structural, Clone, Copy, Debug, Hash)]
pub struct KeyModifiers {
    pub bits: u8,
}

pub const CTRL_BIT: u8 = 1;

pub const SHIFT_BIT: u8 = 2;

pub const ALT_BIT: u8 = 4;

pub const SUPER_BIT: u8 = 8;

impl KeyModifiers {
    /// No modifier.
    pub fn empty() -> (r: KeyModifiers)
        ensures
            r.bits == 0,
    {
        KeyModifiers { bits: 0 }
    }

    /// Whether every modifier of `other` is in `self`.
    pub fn contains(self, other: KeyModifiers) -> (r: bool)
        ensures
            r == (self.bits & other.bits == other.bits),
    {
        self.bits & other.bits == other.bits
    }

    pub fn ctrl(self) -> (r: bool)
        ensures
            r == (self.bits & CTRL_BIT != 0),
    {
        self.bits & CTRL_BIT != 0
    }

    pub fn shift(self) -> (r: bool)
        ensures
            r == (self.bits & SHIFT_BIT != 0),
    {
        self.bits & SHIFT_BIT != 0
    }

    pub fn alt(self) -> (r: bool)
        ensures
            r == (self.bits & ALT_BIT != 0),
    {
        self.bits & ALT_BIT != 0
    }

    pub fn logo(self) -> (r: bool)
        ensures
            r == (self.bits & SUPER_BIT != 0),
    {
        self.bits & SUPER_BIT != 0
    }
}

/// A key together with the modifiers held with it.
#[derive(PartialEq, Eq, Structural, Clone, Copy, Debug, Hash)]
pub struct KeyChord(pub KeyCode, pub KeyModifiers);

/// Why a chord text was refused.
#[derive(Debug)]
pub enum KeyspecParseError {
    Empty,
    BadKey(String),
    BadModifier(String),
}

/// The mathematical value of a [`KeyspecParseError`].
pub enum KeyspecError {
    Empty,
    BadKey(Seq<char>),
    BadModifier(Seq<char>),
}

impl View for KeyspecParseError {
    type V = KeyspecError;

    open spec fn view(&self) -> KeyspecError {
        match self {
            KeyspecParseError::Empty => KeyspecError::Empty,
            KeyspecParseError::BadKey(s) => KeyspecError::BadKey(s@),
            KeyspecParseError::BadModifier(s) => KeyspecError::BadModifier(s@),
        }
    }
}

impl KeyspecParseError {
    /// A one-line description.
    pub fn message(&self) -> (r: String)
        ensures
            self is Empty ==> r@ == "Empty keyspec"@,
            self is BadKey ==> r@ == "Bad key: "@ + (self->BadKey_0)@,
            self is BadModifier ==> r@ == "Bad modifier: "@ + (self->BadModifier_0)@,
    {
        match self {
            KeyspecParseError::Empty => String::from_str("Empty keyspec"),
            KeyspecParseError::BadKey(k) => {
                let mut r = String::from_str("Bad key: ");
                r.append(k.as_str());
                r
            },
            KeyspecParseError::BadModifier(m) => {
                let mut r = String::from_str("Bad modifier: ");
                r.append(m.as_str());
                r
            },
        }
    }
}

/// The modifier bit a one-letter piece names.
pub open spec fn mod_bit(t: Seq<char>) -> Option<u8> {
    if t.len() != 1 {
        None
    } else if t[0] == 'C' {
        Some(CTRL_BIT)
    } else if t[0] == 'S' {
        Some(SHIFT_BIT)
    } else if t[0] == 'A' {
        Some(ALT_BIT)
    } else if t[0] == 'W' {
        Some(SUPER_BIT)
    } else {
        None
    }
}

/// Reads the hyphen-separated modifier pieces of `p` followed by `piece`,
/// right to left, ORing their bits into `acc`; the first bad piece from the
/// right is the error.
pub open spec fn mods_rev(p: Seq<char>, piece: Seq<char>, acc: u8) -> Result<u8, Seq<char>>
    decreases p.len(),
{
    if p.len() == 0 {
        match mod_bit(piece) {
            Some(b) => Ok(acc | b),
            None => Err(piece),
        }
    } else if p.last() == '-' {
        match mod_bit(piece) {
            Some(b) => mods_rev(p.drop_last(), Seq::empty(), acc | b),
            None => Err(piece),
        }
    } else {
        mods_rev(p.drop_last(), seq![p.last()] + piece, acc)
    }
}

/// Reads `p` followed by `piece` right to left: the text after the last
/// hyphen names the key, the text before it the modifiers.
pub open spec fn parse_rev(p: Seq<char>, piece: Seq<char>) -> Result<KeyChord, KeyspecError>
    decreases p.len(),
{
    if p.len() == 0 {
        match code_of_token(piece) {
            Some(c) => Ok(KeyChord(c, KeyModifiers { bits: 0 })),
            None => Err(KeyspecError::BadKey(piece)),
        }
    } else if p.last() == '-' {
        match code_of_token(piece) {
            Some(c) => match mods_rev(p.drop_last(), Seq::empty(), 0) {
                Ok(m) => Ok(KeyChord(c, KeyModifiers { bits: m })),
                Err(e) => Err(KeyspecError::BadModifier(e)),
            },
            None => Err(KeyspecError::BadKey(piece)),
        }
    } else {
        parse_rev(p.drop_last(), seq![p.last()] + piece)
    }
}

/// What a chord text means.
pub open spec fn parse_spec(s: Seq<char>) -> Result<KeyChord, KeyspecError> {
    if s.len() == 0 {
        Err(KeyspecError::Empty)
    } else if s.len() == 1 {
        match code_of_token(s) {
            Some(c) => Ok(KeyChord(c, KeyModifiers { bits: 0 })),
            None => Err(KeyspecError::BadKey(s)),
        }
    } else {
        parse_rev(s, Seq::empty())
    }
}

/// The modifier letters of a set, in the order C, S, A, W.
pub open spec fn mod_chars(bits: u8) -> Seq<char> {
    let c = if bits & CTRL_BIT != 0 { seq!['C'] } else { Seq::empty() };
    let s = if bits & SHIFT_BIT != 0 { c.push('S') } else { c };
    let a = if bits & ALT_BIT != 0 { s.push('A') } else { s };
    if bits & SUPER_BIT != 0 { a.push('W') } else { a }
}

/// Each letter followed by a hyphen.
pub open spec fn dash_join(ms: Seq<char>) -> Seq<char>
    decreases ms.len(),
{
    if ms.len() == 0 {
        Seq::empty()
    } else {
        dash_join(ms.drop_last()) + seq![ms.last(), '-']
    }
}

/// The text of a chord: modifiers in the order C, S, A, W, each followed by a
/// hyphen, then the key's token.
pub open spec fn fmt_spec(c: KeyChord) -> Seq<char> {
    dash_join(mod_chars(c.1.bits)) + token_of(c.0)
}

/// Every chord that the parser accepts names a key of the syntax and a set of
/// the four modifiers.
pub open spec fn parsable(c: KeyChord) -> bool {
    is_named(c.0) && c.1.bits < 16
}

spec fn or_bits(ms: Seq<char>) -> u8
    decreases ms.len(),
{
    if ms.len() == 0 {
        0
    } else {
        match mod_bit(seq![ms.last()]) {
            Some(b) => b | or_bits(ms.drop_last()),
            None => or_bits(ms.drop_last()),
        }
    }
}

proof fn lemma_parse_no_dash(p: Seq<char>, t: Seq<char>, piece: Seq<char>)
    requires
        forall|i: int| 0 <= i < t.len() ==> t[i] != '-',
    ensures
        parse_rev(p + t, piece) == parse_rev(p, t + piece),
    decreases t.len(),
{
    if t.len() > 0 {
        let q = p + t;
        assert(q.drop_last() =~= p + t.drop_last());
        lemma_parse_no_dash(p, t.drop_last(), seq![t.last()] + piece);
        assert(t.drop_last() + (seq![t.last()] + piece) =~= t + piece);
    } else {
        assert(p + t =~= p);
        assert(t + piece =~= piece);
    }
}

proof fn lemma_mods_join(ms: Seq<char>, acc: u8)
    requires
        ms.len() > 0,
        forall|i: int| 0 <= i < ms.len() ==> mod_bit(seq![#[trigger] ms[i]]) is Some,
    ensures
        mods_rev(dash_join(ms).drop_last(), Seq::empty(), acc) == Ok::<u8, Seq<char>>(
            acc | or_bits(ms),
        ),
    decreases ms.len(),
{
    let x = ms.last();
    let d = ms.drop_last();
    let b = mod_bit(seq![x])->0;
    let p = dash_join(d);
    assert(dash_join(ms).drop_last() =~= p + seq![x]);
    assert((p + seq![x]).drop_last() =~= p);
    assert(seq![x] + Seq::<char>::empty() =~= seq![x]);
    assert(x != '-');
    assert(or_bits(ms) == b | or_bits(d));
    assert(mods_rev(p + seq![x], Seq::empty(), acc) == mods_rev(p, seq![x], acc));
    if d.len() == 0 {
        assert(p.len() == 0);
        assert(or_bits(d) == 0);
        assert(b | 0 == b) by (bit_vector);
        assert(mods_rev(p, seq![x], acc) == Ok::<u8, Seq<char>>(acc | b));
    } else {
        assert forall|i: int| 0 <= i < d.len() implies mod_bit(seq![#[trigger] d[i]]) is Some by {
            assert(d[i] == ms[i]);
        }
        assert(p.last() == '-');
        assert(p.drop_last() =~= dash_join(d).drop_last());
        assert(mods_rev(p, seq![x], acc) == mods_rev(p.drop_last(), Seq::empty(), acc | b));
        lemma_mods_join(d, acc | b);
        let o = or_bits(d);
        assert((acc | b) | o == acc | (b | o)) by (bit_vector);
    }
}

proof fn lemma_or_bits_mod_chars(bits: u8)
    requires
        bits < 16,
    ensures
        or_bits(mod_chars(bits)) == bits,
        forall|i: int|
            0 <= i < mod_chars(bits).len() ==> mod_bit(seq![#[trigger] mod_chars(bits)[i]]) is Some,
        forall|i: int| 0 <= i < mod_chars(bits).len() ==> #[trigger] mod_chars(bits)[i] != '-',
        mod_chars(bits).len() == 0 <==> bits == 0,
{
    let c = if bits & CTRL_BIT != 0 { seq!['C'] } else { Seq::<char>::empty() };
    let s = if bits & SHIFT_BIT != 0 { c.push('S') } else { c };
    let a = if bits & ALT_BIT != 0 { s.push('A') } else { s };
    let w = if bits & SUPER_BIT != 0 { a.push('W') } else { a };
    assert(w == mod_chars(bits));
    let oc: u8 = if bits & 1 != 0 { 1 } else { 0 };
    let os: u8 = if bits & 2 != 0 { 2 | oc } else { oc };
    let oa: u8 = if bits & 4 != 0 { 4 | os } else { os };
    let ow: u8 = if bits & 8 != 0 { 8 | oa } else { oa };
    if bits & 1 != 0 {
        assert(seq!['C'].drop_last() =~= Seq::<char>::empty());
        assert(or_bits(seq!['C']) == 1u8 | or_bits(Seq::<char>::empty()));
        assert(1u8 | 0u8 == 1u8) by (bit_vector);
    }
    assert(or_bits(c) == oc);
    if bits & 2 != 0 {
        assert(c.push('S').drop_last() =~= c);
    }
    assert(or_bits(s) == os);
    if bits & 4 != 0 {
        assert(s.push('A').drop_last() =~= s);
    }
    assert(or_bits(a) == oa);
    if bits & 8 != 0 {
        assert(a.push('W').drop_last() =~= a);
    }
    assert(or_bits(w) == ow);
    assert(ow == bits) by (bit_vector)
        requires
            bits < 16,
            oc == (if bits & 1 != 0 { 1u8 } else { 0u8 }),
            os == (if bits & 2 != 0 { 2 | oc } else { oc }),
            oa == (if bits & 4 != 0 { 4 | os } else { os }),
            ow == (if bits & 8 != 0 { 8 | oa } else { oa }),
    ;
    assert(bits == 0 ==> (bits & 1 == 0 && bits & 2 == 0 && bits & 4 == 0 && bits & 8 == 0))
        by (bit_vector);
}

proof fn lemma_dash_join_last(ms: Seq<char>)
    requires
        ms.len() > 0,
    ensures
        dash_join(ms).len() > 0,
        dash_join(ms).last() == '-',
{
}

/// Formatting then parsing gives back every chord that the parser accepts.
pub proof fn lemma_keyspec_round_trip(s: Seq<char>)
    requires
        parse_spec(s) is Ok,
    ensures
        parse_spec(fmt_spec(parse_spec(s)->Ok_0)) == parse_spec(s),
{
    let c = parse_spec(s)->Ok_0;
    if s.len() == 1 {
        lemma_token_named(s);
    } else {
        lemma_parse_accepts_parsable(s, Seq::empty());
    }
    lemma_fmt_parse(c);
}

/// Parsing the text of a chord of the syntax gives the chord back.
pub proof fn lemma_fmt_parse(c: KeyChord)
    requires
        parsable(c),
    ensures
        parse_spec(fmt_spec(c)) == Ok::<KeyChord, KeyspecError>(c),
{
    let ms = mod_chars(c.1.bits);
    let t = token_of(c.0);
    lemma_token_round_trip(c.0);
    lemma_or_bits_mod_chars(c.1.bits);
    let p = dash_join(ms);
    lemma_parse_no_dash(p, t, Seq::empty());
    assert(t + Seq::<char>::empty() =~= t);
    if ms.len() == 0 {
        assert(p.len() == 0);
        assert(c.1 == KeyModifiers { bits: 0 });
        assert(p + t =~= t);
        if t.len() > 1 {
            assert(t.drop_last() + seq![t.last()] =~= t);
        }
    } else {
        lemma_dash_join_last(ms);
        lemma_mods_join(ms, 0);
        assert(0 | c.1.bits == c.1.bits) by (bit_vector);
    }
}

proof fn lemma_mods_small(p: Seq<char>, piece: Seq<char>, acc: u8)
    requires
        acc < 16,
    ensures
        mods_rev(p, piece, acc) is Ok ==> mods_rev(p, piece, acc)->Ok_0 < 16,
    decreases p.len(),
{
    if let Some(b) = mod_bit(piece) {
        assert(acc | b < 16) by (bit_vector)
            requires
                acc < 16,
                b == 1 || b == 2 || b == 4 || b == 8,
        ;
    }
    if p.len() > 0 {
        if p.last() == '-' {
            if let Some(b) = mod_bit(piece) {
                lemma_mods_small(p.drop_last(), Seq::empty(), acc | b);
            }
        } else {
            lemma_mods_small(p.drop_last(), seq![p.last()] + piece, acc);
        }
    }
}

proof fn lemma_parse_accepts_parsable(p: Seq<char>, piece: Seq<char>)
    ensures
        parse_rev(p, piece) is Ok ==> parsable(parse_rev(p, piece)->Ok_0),
    decreases p.len(),
{
    if p.len() == 0 {
        if code_of_token(piece) is Some {
            lemma_token_named(piece);
        }
    } else if p.last() == '-' {
        if code_of_token(piece) is Some {
            lemma_token_named(piece);
            lemma_mods_small(p.drop_last(), Seq::empty(), 0);
        }
    } else {
        lemma_parse_accepts_parsable(p.drop_last(), seq![p.last()] + piece);
    }
}

/// The mathematical value of a parse result.
pub open spec fn result_view<T>(r: Result<T, KeyspecParseError>) -> Result<T, KeyspecError> {
    match r {
        Ok(v) => Ok(v),
        Err(e) => Err(e@),
    }
}

/// Parses a key token: a letter, digit or symbol of the syntax, `<ESC>` or
/// `<DASH>`.
pub fn parse_keyspec_code(text: &str) -> (r: Result<KeyChord, KeyspecParseError>)
    ensures
        result_view(r) == match code_of_token(text@) {
            Some(c) => Ok(KeyChord(c, KeyModifiers { bits: 0 })),
            None => Err(KeyspecError::BadKey(text@)),
        },
{
    match code_of_str(text) {
        Some(c) => Ok(KeyChord(c, KeyModifiers::empty())),
        None => Err(KeyspecParseError::BadKey(String::from_str(text))),
    }
}

/// Parses a modifier letter: `C`, `S`, `A` or `W`.
pub fn parse_keyspec_mods(text: &str) -> (r: Result<KeyModifiers, KeyspecParseError>)
    ensures
        result_view(r) == match mod_bit(text@) {
            Some(b) => Ok(KeyModifiers { bits: b }),
            None => Err(KeyspecError::BadModifier(text@)),
        },
{
    let n = text.unicode_len();
    if n == 1 {
        let ch = text.get_char(0);
        if ch == 'C' {
            return Ok(KeyModifiers { bits: CTRL_BIT });
        } else if ch == 'S' {
            return Ok(KeyModifiers { bits: SHIFT_BIT });
        } else if ch == 'A' {
            return Ok(KeyModifiers { bits: ALT_BIT });
        } else if ch == 'W' {
            return Ok(KeyModifiers { bits: SUPER_BIT });
        }
    }
    Err(KeyspecParseError::BadModifier(String::from_str(text)))
}

/// Parses a chord text: modifiers first, key last, separated by hyphens.
pub fn parse_keyspec(text: &str) -> (r: Result<KeyChord, KeyspecParseError>)
    ensures
        result_view(r) == parse_spec(text@),
{
    let ghost s = text@;
    let n = text.unicode_len();
    if n == 0 {
        return Err(KeyspecParseError::Empty);
    }
    if n == 1 {
        return parse_keyspec_code(text);
    }
    let mut i: usize = n;
    proof {
        assert(s.take(n as int) =~= s);
        assert(s.subrange(n as int, n as int) =~= Seq::<char>::empty());
    }
    loop
        invariant
            i <= n,
            n == s.len(),
            s == text@,
            parse_rev(s, Seq::empty()) == parse_rev(s.take(i as int), s.subrange(i as int, n as int)),
        ensures
            i <= n,
            parse_rev(s, Seq::empty()) == parse_rev(s.take(i as int), s.subrange(i as int, n as int)),
            i > 0 ==> s[i - 1] == '-',
        decreases i,
    {
        if i == 0 {
            break;
        }
        if text.get_char(i - 1) == '-' {
            break;
        }
        proof {
            assert(s.take(i as int).drop_last() =~= s.take(i - 1));
            assert(seq![s[i - 1]] + s.subrange(i as int, n as int) =~= s.subrange(i - 1, n as int));
        }
        i = i - 1;
    }
    let key = text.substring_char(i, n);
    let code = match code_of_str(key) {
        Some(c) => c,
        None => {
            return Err(KeyspecParseError::BadKey(String::from_str(key)));
        },
    };
    if i == 0 {
        return Ok(KeyChord(code, KeyModifiers::empty()));
    }
    proof {
        assert(s.take(i as int).drop_last() =~= s.take(i - 1));
        assert(s.take(i as int).last() == s[i - 1]);
    }
    let ghost top = (i - 1) as int;
    let ghost outcome = match mods_rev(s.take(top), Seq::empty(), 0) {
        Ok(m) => Ok(KeyChord(code, KeyModifiers { bits: m })),
        Err(e) => Err(KeyspecError::BadModifier(e)),
    };
    assert(parse_spec(s) == outcome);
    let mut acc: u8 = 0;
    let mut end: usize = i - 1;
    let mut j: usize = i - 1;
    proof {
        assert(s.subrange(top, top) =~= Seq::<char>::empty());
        assert(s.take(top).take(top) =~= s.take(top));
    }
    while j > 0
        invariant
            j <= end <= top,
            top < n,
            n == s.len(),
            s == text@,
            mods_rev(s.take(top), Seq::empty(), 0) == mods_rev(
                s.take(j as int),
                s.subrange(j as int, end as int),
                acc,
            ),
            parse_spec(s) == outcome,
            outcome == match mods_rev(s.take(top), Seq::empty(), 0) {
                Ok(m) => Ok(KeyChord(code, KeyModifiers { bits: m })),
                Err(e) => Err(KeyspecError::BadModifier(e)),
            },
        decreases j,
    {
        proof {
            assert(s.take(j as int).drop_last() =~= s.take(j - 1));
            assert(s.take(j as int).last() == s[j - 1]);
        }
        if text.get_char(j - 1) == '-' {
            let piece = text.substring_char(j, end);
            match parse_keyspec_mods(piece) {
                Err(e) => {
                    return Err(e);
                },
                Ok(m) => {
                    acc = acc | m.bits;
                },
            }
            end = j - 1;
            proof {
                assert(s.subrange(end as int, end as int) =~= Seq::<char>::empty());
            }
        } else {
            proof {
                assert(seq![s[j - 1]] + s.subrange(j as int, end as int) =~= s.subrange(
                    j - 1,
                    end as int,
                ));
            }
        }
        j = j - 1;
    }
    proof {
        assert(s.take(0) =~= Seq::<char>::empty());
    }
    let piece = text.substring_char(0, end);
    match parse_keyspec_mods(piece) {
        Err(e) => Err(e),
        Ok(m) => Ok(KeyChord(code, KeyModifiers { bits: acc | m.bits })),
    }
}

/// The text of a chord (see [`fmt_spec`]).
pub fn fmt_keyspec(keyspec: KeyChord) -> (r: String)
    ensures
        r@ == fmt_spec(keyspec),
{
    let bits = keyspec.1.bits;
    let ghost c = if bits & CTRL_BIT != 0 { seq!['C'] } else { Seq::<char>::empty() };
    let ghost sh = if bits & SHIFT_BIT != 0 { c.push('S') } else { c };
    let ghost a = if bits & ALT_BIT != 0 { sh.push('A') } else { sh };
    let mut r = String::new();
    if keyspec.1.ctrl() {
        proof {
            reveal_strlit("C-");
            assert(seq!['C'].drop_last() =~= Seq::<char>::empty());
            assert(dash_join(Seq::<char>::empty()) == Seq::<char>::empty());
            assert(dash_join(seq!['C']) =~= seq!['C', '-']);
        }
        r.append("C-");
    }
    assert(r@ =~= dash_join(c));
    if keyspec.1.shift() {
        proof {
            reveal_strlit("S-");
            assert(c.push('S').drop_last() =~= c);
        }
        r.append("S-");
    }
    assert(r@ =~= dash_join(sh));
    if keyspec.1.alt() {
        proof {
            reveal_strlit("A-");
            assert(sh.push('A').drop_last() =~= sh);
        }
        r.append("A-");
    }
    assert(r@ =~= dash_join(a));
    if keyspec.1.logo() {
        proof {
            reveal_strlit("W-");
            assert(a.push('W').drop_last() =~= a);
        }
        r.append("W-");
    }
    assert(r@ =~= dash_join(mod_chars(bits)));
    r.append(token_str(keyspec.0));
    r
}

} // verus!
