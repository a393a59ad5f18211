use vstd::prelude::*;

verus! {

// Byte values of the punctuation the frame grammar reads.
pub const QUOTE: u8 = 0x22;
pub const BACKSLASH: u8 = 0x5c;
pub const SLASH: u8 = 0x2f;
pub const LBRACE: u8 = 0x7b;
pub const RBRACE: u8 = 0x7d;
pub const LBRACKET: u8 = 0x5b;
pub const RBRACKET: u8 = 0x5d;
pub const COMMA: u8 = 0x2c;
pub const COLON: u8 = 0x3a;
pub const ZERO: u8 = 0x30;
pub const NINE: u8 = 0x39;

/// True when the byte is one of the four JSON whitespace bytes.
pub open spec fn spec_is_ws(b: u8) -> bool {
    b == 0x20 || b == 0x09 || b == 0x0a || b == 0x0d
}

/// True when the byte is a decimal digit.
pub open spec fn spec_is_digit(b: u8) -> bool {
    ZERO <= b <= NINE
}

/// The first position at or after `i` that does not hold whitespace.
pub open spec fn spec_ws_end(s: Seq<u8>, i: int) -> int
    decreases s.len() - i,
{
    if 0 <= i < s.len() && spec_is_ws(s[i]) {
        spec_ws_end(s, i + 1)
    } else {
        i
    }
}

pub proof fn lemma_ws_end(s: Seq<u8>, i: int)
    requires
        0 <= i <= s.len(),
    ensures
        i <= spec_ws_end(s, i) <= s.len(),
    decreases s.len() - i,
{
    if i < s.len() && spec_is_ws(s[i]) {
        lemma_ws_end(s, i + 1);
    }
}

/// The byte an escape sequence `\x` stands for, or `None` when `x` is not
/// one of the eight single-character escapes.
pub open spec fn spec_unescape(b: u8) -> Option<u8> {
    if b == QUOTE {
        Some(QUOTE)
    } else if b == BACKSLASH {
        Some(BACKSLASH)
    } else if b == SLASH {
        Some(SLASH)
    } else if b == 0x62 {
        Some(0x08)
    } else if b == 0x66 {
        Some(0x0c)
    } else if b == 0x6e {
        Some(0x0a)
    } else if b == 0x72 {
        Some(0x0d)
    } else if b == 0x74 {
        Some(0x09)
    } else {
        None
    }
}

/// The value of a hexadecimal digit byte, either case.
pub open spec fn spec_hex_val(b: u8) -> Option<u8> {
    if 0x30 <= b <= 0x39 {
        Some((b - 0x30) as u8)
    } else if 0x41 <= b <= 0x46 {
        Some((b - 0x41 + 10) as u8)
    } else if 0x61 <= b <= 0x66 {
        Some((b - 0x61 + 10) as u8)
    } else {
        None
    }
}

/// The value of the four hexadecimal digits starting at `i`.
pub open spec fn spec_hex4(s: Seq<u8>, i: int) -> Option<u32> {
    if 0 <= i && i + 4 <= s.len() {
        match (spec_hex_val(s[i]), spec_hex_val(s[i + 1]), spec_hex_val(s[i + 2]), spec_hex_val(
            s[i + 3],
        )) {
            (Some(a), Some(b), Some(c), Some(d)) => Some(
                ((a * 0x1000 + b * 0x100 + c * 0x10 + d) as u32),
            ),
            _ => None,
        }
    } else {
        None
    }
}

/// The code point, encoded as UTF-8.
pub open spec fn spec_utf8_enc(cp: int) -> Seq<u8> {
    if cp < 0x80 {
        seq![cp as u8]
    } else if cp < 0x800 {
        seq![(0xC0 + cp / 0x40) as u8, (0x80 + cp % 0x40) as u8]
    } else if cp < 0x10000 {
        seq![(0xE0 + cp / 0x1000) as u8, (0x80 + (cp / 0x40) % 0x40) as u8, (0x80 + cp % 0x40) as u8]
    } else {
        seq![
            (0xF0 + cp / 0x40000) as u8,
            (0x80 + (cp / 0x1000) % 0x40) as u8,
            (0x80 + (cp / 0x40) % 0x40) as u8,
            (0x80 + cp % 0x40) as u8,
        ]
    }
}

/// Reads a string literal's body starting just after its opening quote.
/// Yields the unescaped content, as UTF-8, and the position just past the
/// closing quote, or `None` when the literal is unterminated, holds a raw
/// control byte, or uses a malformed escape. A four-digit escape naming a
/// high surrogate must be followed by one naming a low surrogate; the pair
/// is one code point.
pub open spec fn spec_string_body(s: Seq<u8>, i: int) -> Option<(Seq<u8>, int)>
    decreases s.len() - i,
{
    if 0 <= i < s.len() {
        let b = s[i];
        if b == QUOTE {
            Some((Seq::empty(), i + 1))
        } else if b == BACKSLASH {
            if i + 1 < s.len() {
                if s[i + 1] == 0x75 {
                    match spec_hex4(s, i + 2) {
                        Some(u1) => if 0xD800 <= u1 < 0xDC00 {
                            if i + 8 <= s.len() && s[i + 6] == BACKSLASH && s[i + 7] == 0x75 {
                                match spec_hex4(s, i + 8) {
                                    Some(u2) => if 0xDC00 <= u2 < 0xE000 {
                                        match spec_string_body(s, i + 12) {
                                            Some((content, e)) => Some(
                                                (
                                                    spec_utf8_enc(
                                                        0x10000 + (u1 - 0xD800) * 0x400 + (u2
                                                            - 0xDC00),
                                                    ) + content,
                                                    e,
                                                ),
                                            ),
                                            None => None,
                                        }
                                    } else {
                                        None
                                    },
                                    None => None,
                                }
                            } else {
                                None
                            }
                        } else if 0xDC00 <= u1 < 0xE000 {
                            None
                        } else {
                            match spec_string_body(s, i + 6) {
                                Some((content, e)) => Some(
                                    (spec_utf8_enc(u1 as int) + content, e),
                                ),
                                None => None,
                            }
                        },
                        None => None,
                    }
                } else {
                    match spec_unescape(s[i + 1]) {
                        Some(c) => match spec_string_body(s, i + 2) {
                            Some((content, e)) => Some((seq![c] + content, e)),
                            None => None,
                        },
                        None => None,
                    }
                }
            } else {
                None
            }
        } else if b < 0x20 {
            None
        } else {
            match spec_string_body(s, i + 1) {
                Some((content, e)) => Some((seq![b] + content, e)),
                None => None,
            }
        }
    } else {
        None
    }
}

pub proof fn lemma_string_body(s: Seq<u8>, i: int)
    requires
        0 <= i <= s.len(),
    ensures
        spec_string_body(s, i) matches Some((c, e)) ==> i < e <= s.len(),
    decreases s.len() - i,
{
    if 0 <= i < s.len() {
        let b = s[i];
        if b == BACKSLASH {
            if i + 1 < s.len() {
                if i + 2 <= s.len() {
                    lemma_string_body(s, i + 2);
                }
                if i + 6 <= s.len() {
                    lemma_string_body(s, i + 6);
                }
                if i + 12 <= s.len() {
                    lemma_string_body(s, i + 12);
                }
            }
        } else if b != QUOTE && b >= 0x20 {
            lemma_string_body(s, i + 1);
        }
    }
}

/// Scans past one raw value starting at `i`, without validating it beyond
/// string and bracket structure. A scalar ends before the first comma,
/// closing bracket or whitespace outside a string; a container ends just
/// past the bracket that balances its opener. Yields the position after
/// the value, which equals `i` when no value stands at `i`.
pub open spec fn spec_skip_value(s: Seq<u8>, i: int, depth: nat, in_str: bool, esc: bool) -> Option<
    int,
>
    decreases s.len() - i,
{
    if !(0 <= i < s.len()) {
        None
    } else {
        let b = s[i];
        if in_str {
            if esc {
                spec_skip_value(s, i + 1, depth, true, false)
            } else if b == BACKSLASH {
                spec_skip_value(s, i + 1, depth, true, true)
            } else if b == QUOTE {
                if depth == 0 {
                    Some(i + 1)
                } else {
                    spec_skip_value(s, i + 1, depth, false, false)
                }
            } else {
                spec_skip_value(s, i + 1, depth, true, false)
            }
        } else {
            if b == QUOTE {
                spec_skip_value(s, i + 1, depth, true, false)
            } else if b == LBRACE || b == LBRACKET {
                spec_skip_value(s, i + 1, depth + 1, false, false)
            } else if b == RBRACE || b == RBRACKET {
                if depth == 0 {
                    Some(i)
                } else if depth == 1 {
                    Some(i + 1)
                } else {
                    spec_skip_value(s, i + 1, (depth - 1) as nat, false, false)
                }
            } else if b == COMMA && depth == 0 {
                Some(i)
            } else if spec_is_ws(b) && depth == 0 {
                Some(i)
            } else {
                spec_skip_value(s, i + 1, depth, false, false)
            }
        }
    }
}

pub proof fn lemma_skip_value(s: Seq<u8>, i: int, depth: nat, in_str: bool, esc: bool)
    requires
        0 <= i <= s.len(),
    ensures
        spec_skip_value(s, i, depth, in_str, esc) matches Some(e) ==> i <= e <= s.len(),
    decreases s.len() - i,
{
    if 0 <= i < s.len() {
        lemma_skip_value(s, i + 1, depth, true, false);
        lemma_skip_value(s, i + 1, depth, true, true);
        lemma_skip_value(s, i + 1, depth, false, false);
        lemma_skip_value(s, i + 1, depth + 1, false, false);
        if depth >= 1 {
            lemma_skip_value(s, i + 1, (depth - 1) as nat, false, false);
        }
    }
}

/// The value of a decimal digit sequence.
pub open spec fn spec_dec_val(d: Seq<u8>) -> nat
    decreases d.len(),
{
    if d.len() == 0 {
        0
    } else {
        spec_dec_val(d.drop_last()) * 10 + (if spec_is_digit(d.last()) {
            (d.last() - ZERO) as nat
        } else {
            0
        })
    }
}

pub open spec fn spec_all_digits(d: Seq<u8>) -> bool {
    forall|k: int| 0 <= k < d.len() ==> spec_is_digit(#[trigger] d[k])
}

/// True when the raw bytes form an unsigned decimal integer that fits in a
/// `u64`: digits only, no superfluous leading zero.
pub open spec fn spec_is_uint(d: Seq<u8>) -> bool {
    &&& d.len() > 0
    &&& spec_all_digits(d)
    &&& (d[0] != ZERO || d.len() == 1)
    &&& spec_dec_val(d) <= u64::MAX
}

/// What the classifier reads out of one top-level member's value.
pub enum FieldVal {
    /// A string literal, unescaped.
    VStr(Seq<u8>),
    /// An unsigned integer that fits in a `u64`.
    VUInt(u64),
    /// Anything else; the raw bytes are kept beside it.
    VOther,
}

/// One top-level member of a frame object.
pub struct FieldV {
    pub key: Seq<u8>,
    pub val: FieldVal,
    pub raw: Seq<u8>,
}

/// Summarizes the raw value occupying `s[a..b)`.
pub open spec fn spec_summary(s: Seq<u8>, a: int, b: int) -> FieldVal {
    let raw = s.subrange(a, b);
    if raw.len() > 0 && raw[0] == QUOTE {
        match spec_string_body(s, a + 1) {
            Some((content, e)) => if e == b {
                FieldVal::VStr(content)
            } else {
                FieldVal::VOther
            },
            None => FieldVal::VOther,
        }
    } else if spec_is_uint(raw) {
        FieldVal::VUInt(spec_dec_val(raw) as u64)
    } else {
        FieldVal::VOther
    }
}

/// Reads the member list of the frame object, starting just after `{` when
/// `first` is set, or just after a separating comma otherwise. Yields the
/// members in order and the position just past the closing `}`.
pub open spec fn spec_members(s: Seq<u8>, i: int, first: bool) -> Option<(Seq<FieldV>, int)>
    decreases s.len() - i,
        when 0 <= i <= s.len()
        via spec_members_dec
{
    let j = spec_ws_end(s, i);
    if j < s.len() && s[j] == RBRACE && first {
        Some((Seq::empty(), j + 1))
    } else if j < s.len() && s[j] == QUOTE {
        match spec_string_body(s, j + 1) {
            Some((key, e1)) => {
                let j2 = spec_ws_end(s, e1);
                if j2 < s.len() && s[j2] == COLON {
                    let j3 = spec_ws_end(s, j2 + 1);
                    match spec_skip_value(s, j3, 0, false, false) {
                        Some(ve) => if ve > j3 {
                            let fld = FieldV {
                                key: key,
                                val: spec_summary(s, j3, ve),
                                raw: s.subrange(j3, ve),
                            };
                            let j4 = spec_ws_end(s, ve);
                            if j4 < s.len() && s[j4] == COMMA {
                                match spec_members(s, j4 + 1, false) {
                                    Some((rest, e)) => Some((seq![fld] + rest, e)),
                                    None => None,
                                }
                            } else if j4 < s.len() && s[j4] == RBRACE {
                                Some((seq![fld], j4 + 1))
                            } else {
                                None
                            }
                        } else {
                            None
                        },
                        None => None,
                    }
                } else {
                    None
                }
            },
            None => None,
        }
    } else {
        None
    }
}

#[via_fn]
proof fn spec_members_dec(s: Seq<u8>, i: int, first: bool) {
    lemma_ws_end(s, i);
    let j = spec_ws_end(s, i);
    if j < s.len() && s[j] == QUOTE {
        lemma_string_body(s, j + 1);
        if let Some((key, e1)) = spec_string_body(s, j + 1) {
            lemma_ws_end(s, e1);
            let j2 = spec_ws_end(s, e1);
            if j2 < s.len() && s[j2] == COLON {
                lemma_ws_end(s, j2 + 1);
                let j3 = spec_ws_end(s, j2 + 1);
                lemma_skip_value(s, j3, 0, false, false);
                if let Some(ve) = spec_skip_value(s, j3, 0, false, false) {
                    lemma_ws_end(s, ve);
                }
            }
        }
    }
}

/// Reads a whole frame: optional whitespace, one object, optional trailing
/// whitespace (a trailing newline included). Yields the object's members.
pub open spec fn spec_frame_fields(s: Seq<u8>) -> Option<Seq<FieldV>> {
    let i0 = spec_ws_end(s, 0);
    if i0 < s.len() && s[i0] == LBRACE {
        match spec_members(s, i0 + 1, true) {
            Some((fields, e)) => if spec_ws_end(s, e) == s.len() {
                Some(fields)
            } else {
                None
            },
            None => None,
        }
    } else {
        None
    }
}

/// Ten to the power `n`.
pub open spec fn pow10(n: nat) -> nat
    decreases n,
{
    if n == 0 {
        1
    } else {
        10 * pow10((n - 1) as nat)
    }
}

pub proof fn lemma_dec_val_upper(d: Seq<u8>)
    ensures
        spec_dec_val(d) < pow10(d.len()),
    decreases d.len(),
{
    if d.len() > 0 {
        lemma_dec_val_upper(d.drop_last());
    }
}

pub proof fn lemma_dec_val_lower(d: Seq<u8>)
    requires
        d.len() >= 1,
        spec_is_digit(d[0]),
        d[0] != ZERO,
    ensures
        spec_dec_val(d) >= pow10((d.len() - 1) as nat),
    decreases d.len(),
{
    if d.len() == 1 {
        assert(d.last() == d[0]);
    } else {
        assert(d.drop_last()[0] == d[0]);
        lemma_dec_val_lower(d.drop_last());
    }
}

/// The first position at or after `i` that does not hold whitespace.
pub fn ws_end(s: &[u8], i: usize) -> (r: usize)
    requires
        i <= s@.len(),
    ensures
        r == spec_ws_end(s@, i as int),
        i <= r <= s@.len(),
{
    let mut j: usize = i;
    while j < s.len() && (s[j] == 0x20 || s[j] == 0x09 || s[j] == 0x0a || s[j] == 0x0d)
        invariant
            i <= j <= s@.len(),
            spec_ws_end(s@, i as int) == spec_ws_end(s@, j as int),
        decreases s@.len() - j,
    {
        assert(spec_ws_end(s@, j as int) == spec_ws_end(s@, j + 1));
        j += 1;
    }
    j
}

/// The byte an escape sequence `\x` stands for.
fn unescape(b: u8) -> (r: Option<u8>)
    ensures
        r == spec_unescape(b),
{
    if b == QUOTE {
        Some(QUOTE)
    } else if b == BACKSLASH {
        Some(BACKSLASH)
    } else if b == SLASH {
        Some(SLASH)
    } else if b == 0x62 {
        Some(0x08)
    } else if b == 0x66 {
        Some(0x0c)
    } else if b == 0x6e {
        Some(0x0a)
    } else if b == 0x72 {
        Some(0x0d)
    } else if b == 0x74 {
        Some(0x09)
    } else {
        None
    }
}

/// The value of a hexadecimal digit byte, either case.
fn hex_val(b: u8) -> (r: Option<u8>)
    ensures
        r == spec_hex_val(b),
{
    if 0x30 <= b && b <= 0x39 {
        Some(b - 0x30)
    } else if 0x41 <= b && b <= 0x46 {
        Some(b - 0x41 + 10)
    } else if 0x61 <= b && b <= 0x66 {
        Some(b - 0x61 + 10)
    } else {
        None
    }
}

/// The value of the four hexadecimal digits starting at `i`.
fn hex4(s: &[u8], i: usize) -> (r: Option<u32>)
    requires
        i + 4 <= s@.len(),
    ensures
        r == spec_hex4(s@, i as int),
{
    match (hex_val(s[i]), hex_val(s[i + 1]), hex_val(s[i + 2]), hex_val(s[i + 3])) {
        (Some(a), Some(b), Some(c), Some(d)) => Some(
            (a as u32) * 0x1000 + (b as u32) * 0x100 + (c as u32) * 0x10 + (d as u32),
        ),
        _ => None,
    }
}

/// The code point, encoded as UTF-8.
fn utf8_bytes(cp: u32) -> (r: Vec<u8>)
    requires
        cp < 0x110000,
    ensures
        r@ == spec_utf8_enc(cp as int),
{
    let mut v: Vec<u8> = Vec::new();
    if cp < 0x80 {
        v.push(cp as u8);
    } else if cp < 0x800 {
        v.push(0xC0 + (cp / 0x40) as u8);
        v.push(0x80 + (cp % 0x40) as u8);
    } else if cp < 0x10000 {
        v.push(0xE0 + (cp / 0x1000) as u8);
        v.push(0x80 + ((cp / 0x40) % 0x40) as u8);
        v.push(0x80 + (cp % 0x40) as u8);
    } else {
        v.push(0xF0 + (cp / 0x40000) as u8);
        v.push(0x80 + ((cp / 0x1000) % 0x40) as u8);
        v.push(0x80 + ((cp / 0x40) % 0x40) as u8);
        v.push(0x80 + (cp % 0x40) as u8);
    }
    proof {
        assert(v@ =~= spec_utf8_enc(cp as int));
    }
    v
}

/// Reads a string literal's body starting just after its opening quote.
pub fn string_body(s: &[u8], i: usize) -> (r: Option<(Vec<u8>, usize)>)
    requires
        i <= s@.len(),
    ensures
        match r {
            Some((c, e)) => spec_string_body(s@, i as int) == Some((c@, e as int)) && i < e
                <= s@.len(),
            None => spec_string_body(s@, i as int) is None,
        },
    decreases s@.len() - i,
{
    if i < s.len() {
        let b = s[i];
        if b == QUOTE {
            Some((Vec::new(), i + 1))
        } else if b == BACKSLASH {
            if i + 1 < s.len() {
                if s[i + 1] == 0x75 {
                    let rem = s.len() - i;
                    if rem >= 6 {
                        match hex4(s, i + 2) {
                            Some(u1) => {
                                if 0xD800 <= u1 && u1 < 0xDC00 {
                                    if rem >= 12 && s[i + 6] == BACKSLASH && s[i + 7] == 0x75 {
                                        match hex4(s, i + 8) {
                                            Some(u2) => if 0xDC00 <= u2 && u2 < 0xE000 {
                                                let cp = 0x10000 + (u1 - 0xD800) * 0x400 + (u2
                                                    - 0xDC00);
                                                match string_body(s, i + 12) {
                                                    Some((content, e)) => {
                                                        let mut bytes = utf8_bytes(cp);
                                                        let mut content = content;
                                                        bytes.append(&mut content);
                                                        Some((bytes, e))
                                                    },
                                                    None => None,
                                                }
                                            } else {
                                                None
                                            },
                                            None => None,
                                        }
                                    } else {
                                        None
                                    }
                                } else if 0xDC00 <= u1 && u1 < 0xE000 {
                                    None
                                } else {
                                    match string_body(s, i + 6) {
                                        Some((content, e)) => {
                                            let mut bytes = utf8_bytes(u1);
                                            let mut content = content;
                                            bytes.append(&mut content);
                                            Some((bytes, e))
                                        },
                                        None => None,
                                    }
                                }
                            },
                            None => None,
                        }
                    } else {
                        proof {
                            assert(spec_hex4(s@, i + 2) is None);
                        }
                        None
                    }
                } else {
                    match unescape(s[i + 1]) {
                        Some(c) => match string_body(s, i + 2) {
                            Some((content, e)) => {
                                let mut content = content;
                                content.insert(0, c);
                                Some((content, e))
                            },
                            None => None,
                        },
                        None => None,
                    }
                }
            } else {
                None
            }
        } else if b < 0x20 {
            None
        } else {
            match string_body(s, i + 1) {
                Some((content, e)) => {
                    let mut content = content;
                    content.insert(0, b);
                    Some((content, e))
                },
                None => None,
            }
        }
    } else {
        None
    }
}

/// Scans past one raw value starting at `i`.
pub fn skip_value(s: &[u8], i: usize) -> (r: Option<usize>)
    requires
        i <= s@.len(),
    ensures
        match r {
            Some(e) => spec_skip_value(s@, i as int, 0, false, false) == Some(e as int) && i <= e
                <= s@.len(),
            None => spec_skip_value(s@, i as int, 0, false, false) is None,
        },
{
    let ghost s0: Seq<u8> = s@;
    let mut j: usize = i;
    let mut depth: usize = 0;
    let mut in_str: bool = false;
    let mut esc: bool = false;
    loop
        invariant
            i <= j <= s@.len(),
            depth <= j,
            s@ == s0,
            !in_str ==> !esc,
            spec_skip_value(s@, i as int, 0, false, false) == spec_skip_value(
                s@,
                j as int,
                depth as nat,
                in_str,
                esc,
            ),
        decreases s@.len() - j,
    {
        proof {
            reveal_with_fuel(spec_skip_value, 2);
        }
        if j >= s.len() {
            return None;
        }
        let b = s[j];
        if in_str {
            if esc {
                esc = false;
            } else if b == BACKSLASH {
                esc = true;
            } else if b == QUOTE {
                if depth == 0 {
                    return Some(j + 1);
                }
                in_str = false;
            }
            j += 1;
        } else {
            if b == QUOTE {
                in_str = true;
                j += 1;
            } else if b == LBRACE || b == LBRACKET {
                depth += 1;
                j += 1;
            } else if b == RBRACE || b == RBRACKET {
                if depth == 0 {
                    return Some(j);
                } else if depth == 1 {
                    return Some(j + 1);
                }
                depth -= 1;
                j += 1;
            } else if b == COMMA && depth == 0 {
                return Some(j);
            } else if (b == 0x20 || b == 0x09 || b == 0x0a || b == 0x0d) && depth == 0 {
                return Some(j);
            } else {
                j += 1;
            }
        }
    }
}

/// Reads an unsigned decimal integer out of `s[a..b)`. Succeeds exactly
/// when those bytes form a `u64`-sized integer without a superfluous
/// leading zero.
pub fn parse_uint(s: &[u8], a: usize, b: usize) -> (r: Option<u64>)
    requires
        a <= b <= s@.len(),
    ensures
        match r {
            Some(v) => spec_is_uint(s@.subrange(a as int, b as int)) && v == spec_dec_val(
                s@.subrange(a as int, b as int),
            ),
            None => !spec_is_uint(s@.subrange(a as int, b as int)),
        },
{
    let ghost d: Seq<u8> = s@.subrange(a as int, b as int);
    if a == b {
        return None;
    }
    let mut k: usize = 0;
    let len: usize = b - a;
    while k < len
        invariant
            k <= len,
            len == b - a,
            a <= b <= s@.len(),
            d == s@.subrange(a as int, b as int),
            forall|m: int| 0 <= m < k ==> spec_is_digit(#[trigger] d[m]),
        decreases len - k,
    {
        let c = s[a + k];
        assert(c == d[k as int]);
        if c < ZERO || c > NINE {
            assert(!spec_all_digits(d));
            return None;
        }
        k += 1;
    }
    assert(spec_all_digits(d));
    if s[a] == ZERO && len > 1 {
        return None;
    }
    if len > 20 {
        proof {
            lemma_dec_val_lower(d);
            lemma_pow10_mono(20, (d.len() - 1) as nat);
            lemma_pow10_20();
        }
        return None;
    }
    let mut acc: u128 = 0;
    let mut k2: usize = 0;
    while k2 < len
        invariant
            k2 <= len <= 20,
            len == b - a,
            a <= b <= s@.len(),
            d == s@.subrange(a as int, b as int),
            spec_all_digits(d),
            acc == spec_dec_val(d.take(k2 as int)),
        decreases len - k2,
    {
        let c = s[a + k2];
        assert(c == d[k2 as int]);
        proof {
            lemma_dec_val_upper(d.take(k2 as int));
            lemma_pow10_mono(k2 as nat, 20);
            lemma_pow10_20();
            assert(d.take(k2 + 1).drop_last() =~= d.take(k2 as int));
            assert(d.take(k2 + 1).last() == d[k2 as int]);
        }
        acc = acc * 10 + ((c - ZERO) as u128);
        k2 += 1;
    }
    assert(d.take(len as int) =~= d);
    if acc > 0xffffffffffffffffu128 {
        return None;
    }
    Some(acc as u64)
}

pub proof fn lemma_pow10_20()
    ensures
        pow10(20) == 100000000000000000000nat,
{
    reveal_with_fuel(pow10, 21);
}

pub proof fn lemma_pow10_mono(m: nat, n: nat)
    requires
        m <= n,
    ensures
        pow10(m) <= pow10(n),
    decreases n,
{
    if m < n {
        lemma_pow10_mono(m, (n - 1) as nat);
    }
}

/// What the classifier reads out of one top-level member's value.
pub enum JsonScalar {
    /// A string literal, unescaped.
    Str(Vec<u8>),
    /// An unsigned integer that fits in a `u64`.
    UInt(u64),
    /// Anything else.
    Other,
}

impl View for JsonScalar {
    type V = FieldVal;

    open spec fn view(&self) -> FieldVal {
        match self {
            JsonScalar::Str(v) => FieldVal::VStr(v@),
            JsonScalar::UInt(n) => FieldVal::VUInt(*n),
            JsonScalar::Other => FieldVal::VOther,
        }
    }
}

/// One top-level member of a frame object.
pub struct TopField {
    pub key: Vec<u8>,
    pub val: JsonScalar,
    pub raw: Vec<u8>,
}

impl View for TopField {
    type V = FieldV;

    open spec fn view(&self) -> FieldV {
        FieldV { key: self.key@, val: self.val@, raw: self.raw@ }
    }
}

/// The members of a sequence of fields, as the spec grammar sees them.
pub open spec fn fields_view(fs: Seq<TopField>) -> Seq<FieldV> {
    fs.map_values(|t: TopField| t@)
}

/// Summarizes the raw value occupying `s[a..b)`.
fn summary(s: &[u8], a: usize, b: usize) -> (r: JsonScalar)
    requires
        a <= b <= s@.len(),
    ensures
        r@ == spec_summary(s@, a as int, b as int),
{
    let ghost raw: Seq<u8> = s@.subrange(a as int, b as int);
    if b > a && s[a] == QUOTE {
        assert(raw[0] == s@[a as int]);
        match string_body(s, a + 1) {
            Some((content, e)) => if e == b {
                JsonScalar::Str(content)
            } else {
                JsonScalar::Other
            },
            None => JsonScalar::Other,
        }
    } else {
        assert(raw.len() > 0 ==> raw[0] == s@[a as int]);
        match parse_uint(s, a, b) {
            Some(v) => JsonScalar::UInt(v),
            None => JsonScalar::Other,
        }
    }
}

/// Reads the member list of the frame object, starting just after `{` when
/// `first` is set, or just after a separating comma otherwise.
pub fn members(s: &[u8], i: usize, first: bool) -> (r: Option<(Vec<TopField>, usize)>)
    requires
        i <= s@.len(),
    ensures
        match r {
            Some((fs, e)) => spec_members(s@, i as int, first) == Some(
                (fields_view(fs@), e as int),
            ) && i < e <= s@.len(),
            None => spec_members(s@, i as int, first) is None,
        },
    decreases s@.len() - i,
{
    let j = ws_end(s, i);
    if j < s.len() && s[j] == RBRACE && first {
        Some((Vec::new(), j + 1))
    } else if j < s.len() && s[j] == QUOTE {
        match string_body(s, j + 1) {
            Some((key, e1)) => {
                let j2 = ws_end(s, e1);
                if j2 < s.len() && s[j2] == COLON {
                    let j3 = ws_end(s, j2 + 1);
                    match skip_value(s, j3) {
                        Some(ve) => if ve > j3 {
                            let val = summary(s, j3, ve);
                            let raw = vstd::slice::slice_to_vec(
                                vstd::slice::slice_subrange(s, j3, ve),
                            );
                            let fld = TopField { key, val, raw };
                            let j4 = ws_end(s, ve);
                            if j4 < s.len() && s[j4] == COMMA {
                                match members(s, j4 + 1, false) {
                                    Some((rest, e)) => {
                                        let mut rest = rest;
                                        rest.insert(0, fld);
                                        proof {
                                            assert(fields_view(rest@) =~= seq![fld@]
                                                + fields_view(rest@.drop_first()));
                                        }
                                        Some((rest, e))
                                    },
                                    None => None,
                                }
                            } else if j4 < s.len() && s[j4] == RBRACE {
                                let mut one: Vec<TopField> = Vec::new();
                                one.push(fld);
                                proof {
                                    assert(fields_view(one@) =~= seq![fld@]);
                                }
                                Some((one, j4 + 1))
                            } else {
                                None
                            }
                        } else {
                            None
                        },
                        None => None,
                    }
                } else {
                    None
                }
            },
            None => None,
        }
    } else {
        None
    }
}

/// Reads a whole frame: optional whitespace, one object, optional trailing
/// whitespace (a trailing newline included). Yields the object's members.
pub fn frame_fields(s: &[u8]) -> (r: Option<Vec<TopField>>)
    ensures
        match r {
            Some(fs) => spec_frame_fields(s@) == Some(fields_view(fs@)),
            None => spec_frame_fields(s@) is None,
        },
{
    let i0 = ws_end(s, 0);
    if i0 < s.len() && s[i0] == LBRACE {
        match members(s, i0 + 1, true) {
            Some((fields, e)) => {
                let t = ws_end(s, e);
                if t == s.len() {
                    Some(fields)
                } else {
                    None
                }
            },
            None => None,
        }
    } else {
        None
    }
}

} // verus!
