//! The ANSI color-escape token parser: scans one line of colorized ASCII art
//! for spans of the shape `ESC [38;2;<R>;<G>;<B>m<CHAR>` and yields one
//! [`ColoredStr`] token per span, left to right.
//!
//! The grammar itself is the specification: [`spec_scan`] says what a line
//! parses to, and [`parse_line`] is proved to return exactly that.

use vstd::prelude::*;

use crate::error::{IntParseKind, ParseError, ParseIntError, PatternError};
use crate::render_char_to_png::ColoredStr;

verus! {

/// The control character that starts every color span.
pub const ESCAPE: char = '\u{1b}';

/// Whether `c` is a decimal digit.
pub open spec fn is_digit(c: char) -> bool {
    0x30 <= c as u32 && c as u32 <= 0x39
}

/// The numeric value of a decimal digit.
pub open spec fn digit_val(c: char) -> int {
    c as u32 - 0x30
}

/// Whether every character of `s` is a decimal digit.
pub open spec fn all_digits(s: Seq<char>) -> bool {
    forall|i: int| 0 <= i < s.len() ==> is_digit(#[trigger] s[i])
}

/// The number that a run of decimal digits denotes.
pub open spec fn digits_value(s: Seq<char>) -> int
    decreases s.len(),
{
    if s.len() == 0 {
        0
    } else {
        digits_value(s.drop_last()) * 10 + digit_val(s.last())
    }
}

/// A run of digits denotes a number that is not negative.
pub proof fn lemma_digits_value_nonneg(s: Seq<char>)
    requires
        all_digits(s),
    ensures
        digits_value(s) >= 0,
    decreases s.len(),
{
    if s.len() > 0 {
        assert(all_digits(s.drop_last()));
        lemma_digits_value_nonneg(s.drop_last());
        assert(digits_value(s.drop_last()) * 10 >= 0);
    }
}

/// The first position at or after `from` where `c` stands, or the length of
/// `s` when `c` does not occur there.
pub open spec fn find_from(s: Seq<char>, from: int, c: char) -> int
    decreases s.len() - from when 0 <= from <= s.len()
{
    if from >= s.len() {
        s.len() as int
    } else if s[from] == c {
        from
    } else {
        find_from(s, from + 1, c)
    }
}

/// Bounds and meaning of [`find_from`].
pub proof fn lemma_find_from(s: Seq<char>, from: int, c: char)
    requires
        0 <= from <= s.len(),
    ensures
        from <= find_from(s, from, c) <= s.len(),
        find_from(s, from, c) < s.len() ==> s[find_from(s, from, c)] == c,
        forall|k: int| from <= k < find_from(s, from, c) ==> s[k] != c,
    decreases s.len() - from,
{
    if from < s.len() && s[from] != c {
        lemma_find_from(s, from + 1, c);
    }
}

/// A position with `c`, before which `c` does not occur, is what
/// [`find_from`] returns; so is the length when `c` never occurs.
pub proof fn lemma_find_from_is(s: Seq<char>, from: int, c: char, r: int)
    requires
        0 <= from <= s.len(),
        from <= r <= s.len(),
        r < s.len() ==> s[r] == c,
        forall|k: int| from <= k < r ==> s[k] != c,
    ensures
        find_from(s, from, c) == r,
    decreases r - from,
{
    if from < r {
        lemma_find_from_is(s, from + 1, c, r);
    }
}

/// The characters between the escape and the first color channel.
pub open spec fn color_prefix() -> Seq<char> {
    seq!['[', '3', '8', ';', '2', ';']
}

/// Whether a full color-escape introduction stands at position `i`.
pub open spec fn has_color_escape_at(s: Seq<char>, i: int) -> bool {
    &&& s[i] == ESCAPE
    &&& i + 7 <= s.len()
    &&& s.subrange(i + 1, i + 7) == color_prefix()
}

/// Whether a channel substring denotes an 8-bit value: at least one
/// character, all digits, and a value of at most 255.
pub open spec fn valid_channel(t: Seq<char>) -> bool {
    t.len() >= 1 && all_digits(t) && digits_value(t) <= 255
}

/// Why a channel substring fails to denote an 8-bit value.
pub open spec fn spec_channel_kind(t: Seq<char>) -> IntParseKind {
    if t.len() == 0 {
        IntParseKind::Empty
    } else if !all_digits(t) {
        IntParseKind::InvalidDigit
    } else {
        IntParseKind::Overflow
    }
}

/// What parsing one line yields: its tokens, or its first failure.
pub ghost enum LineParse {
    /// Every span parsed; these are its tokens in order.
    Tokens { tokens: Seq<ColoredStr> },
    /// A channel substring (0 red, 1 green, 2 blue) failed to denote an
    /// 8-bit value.
    BadChannel { channel: int, text: Seq<char> },
    /// A color escape at `column` was cut off before its color and
    /// character were complete.
    Truncated { column: int },
}

/// Parses the line `s` from position `i` on: the first color escape found is
/// read in full (three `;`-separated decimal channels, `m`, then exactly one
/// character); text outside color escapes is passed over.
pub open spec fn spec_scan(s: Seq<char>, i: int) -> LineParse
    decreases s.len() - i when 0 <= i <= s.len() via spec_scan_decreases
{
    if i >= s.len() {
        LineParse::Tokens { tokens: seq![] }
    } else if has_color_escape_at(s, i) {
        let j = i + 7;
        let e1 = find_from(s, j, ';');
        if e1 >= s.len() {
            LineParse::Truncated { column: i }
        } else {
            let red_text = s.subrange(j, e1);
            if !valid_channel(red_text) {
                LineParse::BadChannel { channel: 0, text: red_text }
            } else {
                let j2 = e1 + 1;
                let e2 = find_from(s, j2, ';');
                if e2 >= s.len() {
                    LineParse::Truncated { column: i }
                } else {
                    let green_text = s.subrange(j2, e2);
                    if !valid_channel(green_text) {
                        LineParse::BadChannel { channel: 1, text: green_text }
                    } else {
                        let j3 = e2 + 1;
                        let e3 = find_from(s, j3, 'm');
                        if e3 >= s.len() {
                            LineParse::Truncated { column: i }
                        } else {
                            let blue_text = s.subrange(j3, e3);
                            if !valid_channel(blue_text) {
                                LineParse::BadChannel { channel: 2, text: blue_text }
                            } else if e3 + 1 >= s.len() {
                                LineParse::Truncated { column: i }
                            } else {
                                let token = ColoredStr {
                                    red: digits_value(red_text) as u8,
                                    green: digits_value(green_text) as u8,
                                    blue: digits_value(blue_text) as u8,
                                    text: s[e3 + 1],
                                };
                                match spec_scan(s, e3 + 2) {
                                    LineParse::Tokens { tokens } => LineParse::Tokens {
                                        tokens: seq![token] + tokens,
                                    },
                                    other => other,
                                }
                            }
                        }
                    }
                }
            }
        }
    } else {
        spec_scan(s, i + 1)
    }
}

#[via_fn]
proof fn spec_scan_decreases(s: Seq<char>, i: int) {
    if i < s.len() && has_color_escape_at(s, i) {
        lemma_find_from(s, i + 7, ';');
        let e1 = find_from(s, i + 7, ';');
        if e1 < s.len() {
            lemma_find_from(s, e1 + 1, ';');
            let e2 = find_from(s, e1 + 1, ';');
            if e2 < s.len() {
                lemma_find_from(s, e2 + 1, 'm');
            }
        }
    }
}

/// What a whole line parses to.
pub open spec fn spec_parse_line(s: Seq<char>) -> LineParse {
    spec_scan(s, 0)
}

/// Tokens already taken from the front of a line, put back before the
/// outcome of the rest.
pub open spec fn prepend_tokens(pre: Seq<ColoredStr>, rest: LineParse) -> LineParse {
    match rest {
        LineParse::Tokens { tokens } => LineParse::Tokens { tokens: pre + tokens },
        _ => rest,
    }
}

proof fn lemma_prepend_tokens_assoc(pre: Seq<ColoredStr>, tok: ColoredStr, rest: LineParse)
    ensures
        prepend_tokens(pre, prepend_tokens(seq![tok], rest)) == prepend_tokens(
            pre.push(tok),
            rest,
        ),
{
    match rest {
        LineParse::Tokens { tokens } => {
            assert(pre + (seq![tok] + tokens) =~= pre.push(tok) + tokens);
        },
        _ => {},
    }
}

/// The spec name of each color channel: 0 red, 1 green, 2 blue.
pub open spec fn spec_channel_name(channel: int) -> Seq<char> {
    if channel == 0 {
        seq!['r', 'e', 'd']
    } else if channel == 1 {
        seq!['g', 'r', 'e', 'e', 'n']
    } else {
        seq!['b', 'l', 'u', 'e']
    }
}

/// The error that a failing channel substring must come back as.
pub open spec fn err_matches_bad_channel(e: ParseError, channel: int, text: Seq<char>) -> bool {
    &&& e matches ParseError::ParseValue(pe)
    &&& pe.value_name@ == spec_channel_name(channel)
    &&& pe.the_str@ == text
    &&& pe.kind == spec_channel_kind(text)
}

/// The error that a cut-off escape must come back as.
pub open spec fn err_matches_truncated(e: ParseError, column: int) -> bool {
    e matches ParseError::Pattern(p) && p.column == column
}

/// What [`parse_line`] owes for an outcome of [`spec_parse_line`].
pub open spec fn line_result_matches(
    r: Result<Vec<ColoredStr>, ParseError>,
    outcome: LineParse,
) -> bool {
    match outcome {
        LineParse::Tokens { tokens } => r is Ok && r->Ok_0@ == tokens,
        LineParse::BadChannel { channel, text } => r is Err && err_matches_bad_channel(
            r->Err_0,
            channel,
            text,
        ),
        LineParse::Truncated { column } => r is Err && err_matches_truncated(r->Err_0, column),
    }
}

/// Collects the characters of `s` into a vector.
pub fn chars_of(s: &str) -> (r: Vec<char>)
    ensures
        r@ == s@,
{
    broadcast use vstd::string::group_string_axioms;

    let mut v: Vec<char> = Vec::new();
    for c in it: s.chars()
        invariant
            it.seq() == s@,
            v@ == s@.take(it.index() as int),
    {
        v.push(c);
        proof {
            assert(v@ =~= s@.take(it.index() as int + 1));
        }
    }
    proof {
        assert(v@ =~= s@);
    }
    v
}

/// Relies on `String::push`: appends the one character to the string.
#[verifier::external_body]
pub(crate) fn push_char(s: &mut String, c: char)
    ensures
        final(s)@ == old(s)@.push(c),
{
    s.push(c);
}

/// Copies the characters `line[j..e]` into a fresh string.
pub(crate) fn string_of_range(line: &Vec<char>, j: usize, e: usize) -> (r: String)
    requires
        j <= e <= line@.len(),
    ensures
        r@ == line@.subrange(j as int, e as int),
{
    let mut s = String::new();
    let mut k = j;
    while k < e
        invariant
            j <= k <= e,
            e <= line@.len(),
            s@ == line@.subrange(j as int, k as int),
        decreases e - k,
    {
        push_char(&mut s, line[k]);
        proof {
            assert(line@.subrange(j as int, k as int).push(line@[k as int]) =~= line@.subrange(
                j as int,
                k as int + 1,
            ));
        }
        k = k + 1;
    }
    s
}

/// Finds the first position at or after `from` where `c` stands, or the
/// line's length when it does not occur there.
fn find_char(line: &Vec<char>, from: usize, c: char) -> (r: usize)
    requires
        from <= line@.len(),
    ensures
        r == find_from(line@, from as int, c),
{
    let n = line.len();
    let mut k = from;
    while k < n
        invariant
            from <= k <= n,
            n == line@.len(),
            forall|t: int| from <= t < k ==> line@[t] != c,
        decreases n - k,
    {
        if line[k] == c {
            proof {
                lemma_find_from_is(line@, from as int, c, k as int);
            }
            return k;
        }
        k = k + 1;
    }
    proof {
        lemma_find_from_is(line@, from as int, c, n as int);
    }
    n
}

/// Reads the channel substring `line[j..e]` as an 8-bit decimal number, or
/// says why it is not one.
fn parse_channel(line: &Vec<char>, j: usize, e: usize) -> (r: Result<u8, IntParseKind>)
    requires
        j <= e <= line@.len(),
    ensures
        ({
            let text = line@.subrange(j as int, e as int);
            if valid_channel(text) {
                r is Ok && r->Ok_0 as int == digits_value(text)
            } else {
                r is Err && r->Err_0 == spec_channel_kind(text)
            }
        }),
{
    let ghost text = line@.subrange(j as int, e as int);
    if j == e {
        return Err(IntParseKind::Empty);
    }
    // `val` follows the digits' value, capped at 256 once it leaves 8 bits.
    let mut val: u32 = 0;
    let mut k = j;
    while k < e
        invariant
            j <= k <= e,
            e <= line@.len(),
            text == line@.subrange(j as int, e as int),
            all_digits(line@.subrange(j as int, k as int)),
            val <= 256,
            ({
                let v = digits_value(line@.subrange(j as int, k as int));
                if v <= 255 {
                    val == v
                } else {
                    val == 256
                }
            }),
        decreases e - k,
    {
        let c = line[k];
        let u = c as u32;
        if u < 0x30 || u > 0x39 {
            proof {
                assert(text[k as int - j as int] == line@[k as int]);
                assert(!is_digit(line@[k as int]));
                assert(!all_digits(text));
            }
            return Err(IntParseKind::InvalidDigit);
        }
        let d = u - 0x30;
        let ghost pre = line@.subrange(j as int, k as int);
        let ghost grown = line@.subrange(j as int, k as int + 1);
        proof {
            assert(is_digit(line@[k as int]));
            assert(digit_val(line@[k as int]) == d);
            assert(pre.push(line@[k as int]) =~= grown);
            assert(grown.drop_last() =~= pre);
            assert(grown.last() == line@[k as int]);
            lemma_digits_value_nonneg(pre);
            assert(digits_value(grown) == digits_value(pre) * 10 + d);
            assert(all_digits(grown)) by {
                assert forall|t: int| 0 <= t < grown.len() implies is_digit(
                    #[trigger] grown[t],
                ) by {
                    if t < grown.len() - 1 {
                        assert(grown[t] == pre[t]);
                        assert(is_digit(pre[t]));
                    } else {
                        assert(grown[t] == line@[k as int]);
                    }
                }
            }
        }
        if val <= 255 {
            let nv = val * 10 + d;
            if nv > 255 {
                val = 256;
            } else {
                val = nv;
            }
        } else {
            proof {
                let dvp = digits_value(pre);
                assert(dvp >= 256);
                assert(dvp * 10 >= 2560) by (nonlinear_arith)
                    requires
                        dvp >= 256,
                ;
                assert(digits_value(grown) > 255);
            }
        }
        k = k + 1;
    }
    proof {
        assert(line@.subrange(j as int, k as int) =~= text);
    }
    if val > 255 {
        return Err(IntParseKind::Overflow);
    }
    Ok(val as u8)
}

/// Builds the error for a channel substring that failed to parse.
fn make_value_err(line: &Vec<char>, channel: u8, j: usize, e: usize, kind: IntParseKind) -> (r:
    ParseError)
    requires
        j <= e <= line@.len(),
        channel <= 2,
    ensures
        ({
            let text = line@.subrange(j as int, e as int);
            &&& r matches ParseError::ParseValue(pe)
            &&& pe.value_name@ == spec_channel_name(channel as int)
            &&& pe.the_str@ == text
            &&& pe.kind == kind
        }),
{
    let name: &str = if channel == 0 {
        "red"
    } else if channel == 1 {
        "green"
    } else {
        "blue"
    };
    proof {
        reveal_strlit("red");
        reveal_strlit("green");
        reveal_strlit("blue");
        assert("red"@ =~= seq!['r', 'e', 'd']);
        assert("green"@ =~= seq!['g', 'r', 'e', 'e', 'n']);
        assert("blue"@ =~= seq!['b', 'l', 'u', 'e']);
    }
    let the_str = string_of_range(line, j, e);
    ParseError::ParseValue(ParseIntError::new(String::from_str(name), the_str, kind))
}

/// Scans one line for all color spans, left to right, and yields their
/// tokens; fails on the first span whose channels or shape are wrong, and
/// passes over text that is not part of a color span.
pub fn parse_line(line: &Vec<char>) -> (r: Result<Vec<ColoredStr>, ParseError>)
    ensures
        line_result_matches(r, spec_parse_line(line@)),
{
    let ghost s = line@;
    let n = line.len();
    let mut tokens: Vec<ColoredStr> = Vec::new();
    let mut i: usize = 0;
    proof {
        match spec_scan(s, 0) {
            LineParse::Tokens { tokens: t } => {
                assert(Seq::<ColoredStr>::empty() + t =~= t);
            },
            _ => {},
        }
    }
    while i < n
        invariant
            i <= n,
            n == s.len(),
            s == line@,
            spec_parse_line(s) == prepend_tokens(tokens@, spec_scan(s, i as int)),
        decreases n - i,
    {
        let ghost i0 = i as int;
        if line[i] == ESCAPE && n - i >= 7 && line[i + 1] == '[' && line[i + 2] == '3' && line[i
            + 3] == '8' && line[i + 4] == ';' && line[i + 5] == '2' && line[i + 6] == ';' {
            proof {
                assert(s.subrange(i0 + 1, i0 + 7) =~= color_prefix());
                assert(has_color_escape_at(s, i0));
            }
            let j = i + 7;
            let e1 = find_char(line, j, ';');
            proof {
                lemma_find_from(s, j as int, ';');
            }
            if e1 == n {
                proof {
                    assert(spec_scan(s, i0) == LineParse::Truncated { column: i0 });
                }
                return Err(ParseError::Pattern(PatternError { column: i }));
            }
            let red = match parse_channel(line, j, e1) {
                Ok(v) => v,
                Err(kind) => {
                    proof {
                        assert(spec_scan(s, i0) == LineParse::BadChannel {
                            channel: 0,
                            text: s.subrange(j as int, e1 as int),
                        });
                    }
                    return Err(make_value_err(line, 0, j, e1, kind));
                },
            };
            let j2 = e1 + 1;
            let e2 = find_char(line, j2, ';');
            proof {
                lemma_find_from(s, j2 as int, ';');
            }
            if e2 == n {
                proof {
                    assert(spec_scan(s, i0) == LineParse::Truncated { column: i0 });
                }
                return Err(ParseError::Pattern(PatternError { column: i }));
            }
            let green = match parse_channel(line, j2, e2) {
                Ok(v) => v,
                Err(kind) => {
                    proof {
                        assert(spec_scan(s, i0) == LineParse::BadChannel {
                            channel: 1,
                            text: s.subrange(j2 as int, e2 as int),
                        });
                    }
                    return Err(make_value_err(line, 1, j2, e2, kind));
                },
            };
            let j3 = e2 + 1;
            let e3 = find_char(line, j3, 'm');
            proof {
                lemma_find_from(s, j3 as int, 'm');
            }
            if e3 == n {
                proof {
                    assert(spec_scan(s, i0) == LineParse::Truncated { column: i0 });
                }
                return Err(ParseError::Pattern(PatternError { column: i }));
            }
            let blue = match parse_channel(line, j3, e3) {
                Ok(v) => v,
                Err(kind) => {
                    proof {
                        assert(spec_scan(s, i0) == LineParse::BadChannel {
                            channel: 2,
                            text: s.subrange(j3 as int, e3 as int),
                        });
                    }
                    return Err(make_value_err(line, 2, j3, e3, kind));
                },
            };
            if n - e3 < 2 {
                proof {
                    assert(e3 + 1 >= s.len());
                    assert(spec_scan(s, i0) == LineParse::Truncated { column: i0 });
                }
                return Err(ParseError::Pattern(PatternError { column: i }));
            }
            let ch = line[e3 + 1];
            let token = ColoredStr { red, green, blue, text: ch };
            proof {
                lemma_digits_value_nonneg(s.subrange(j as int, e1 as int));
                lemma_digits_value_nonneg(s.subrange(j2 as int, e2 as int));
                lemma_digits_value_nonneg(s.subrange(j3 as int, e3 as int));
                assert(spec_scan(s, i0) == prepend_tokens(seq![token], spec_scan(s, e3 + 2)));
                lemma_prepend_tokens_assoc(tokens@, token, spec_scan(s, e3 + 2));
            }
            tokens.push(token);
            i = e3 + 2;
        } else {
            proof {
                if has_color_escape_at(s, i0) {
                    assert(s.subrange(i0 + 1, i0 + 7)[0] == s[i0 + 1]);
                    assert(s.subrange(i0 + 1, i0 + 7)[1] == s[i0 + 2]);
                    assert(s.subrange(i0 + 1, i0 + 7)[2] == s[i0 + 3]);
                    assert(s.subrange(i0 + 1, i0 + 7)[3] == s[i0 + 4]);
                    assert(s.subrange(i0 + 1, i0 + 7)[4] == s[i0 + 5]);
                    assert(s.subrange(i0 + 1, i0 + 7)[5] == s[i0 + 6]);
                    assert(false);
                }
                assert(spec_scan(s, i0) == spec_scan(s, i0 + 1));
            }
            i = i + 1;
        }
    }
    proof {
        assert(spec_scan(s, i as int) == (LineParse::Tokens { tokens: seq![] }));
        assert(tokens@ + Seq::<ColoredStr>::empty() =~= tokens@);
    }
    Ok(tokens)
}

} // verus!
