//! Text building blocks: decimal rendering, zero- and space-padding,
//! fixed-point display, lexicographic comparison, and CSV cell escaping.
//!
//! Every function is pinned to a spec-level sequence of characters, so the
//! narrative lines the engine produces are a pure function of its inputs.

use vstd::prelude::*;
use vstd::string::StrSliceExecFns;
use vstd::string::StringExecFns;

verus! {

/// Whether two string slices hold the same characters.
pub fn str_eq(a: &str, b: &str) -> (r: bool)
    ensures
        r == (a@ == b@),
{
    let sa = a.to_owned();
    let sb = b.to_owned();
    sa == sb
}

/// The character for one decimal digit.
pub open spec fn spec_digit(d: int) -> char {
    if d == 0 {
        '0'
    } else if d == 1 {
        '1'
    } else if d == 2 {
        '2'
    } else if d == 3 {
        '3'
    } else if d == 4 {
        '4'
    } else if d == 5 {
        '5'
    } else if d == 6 {
        '6'
    } else if d == 7 {
        '7'
    } else if d == 8 {
        '8'
    } else {
        '9'
    }
}

fn digit_str(d: u64) -> (r: &'static str)
    requires
        d < 10,
    ensures
        r@ =~= seq![spec_digit(d as int)],
{
    proof {
        reveal_strlit("0");
        reveal_strlit("1");
        reveal_strlit("2");
        reveal_strlit("3");
        reveal_strlit("4");
        reveal_strlit("5");
        reveal_strlit("6");
        reveal_strlit("7");
        reveal_strlit("8");
        reveal_strlit("9");
    }
    match d {
        0 => "0",
        1 => "1",
        2 => "2",
        3 => "3",
        4 => "4",
        5 => "5",
        6 => "6",
        7 => "7",
        8 => "8",
        _ => "9",
    }
}

/// The decimal rendering of a nonnegative number.
pub open spec fn spec_u64_string(n: int) -> Seq<char>
    decreases n,
{
    if n < 10 {
        seq![spec_digit(n)]
    } else {
        spec_u64_string(n / 10).push(spec_digit(n % 10))
    }
}

/// Renders a number in decimal.
pub fn u64_to_string(n: u64) -> (r: String)
    ensures
        r@ == spec_u64_string(n as int),
    decreases n,
{
    if n < 10 {
        digit_str(n).to_owned()
    } else {
        let prefix = u64_to_string(n / 10);
        let r = prefix.concat(digit_str(n % 10));
        assert(r@ =~= spec_u64_string(n as int));
        r
    }
}

/// The decimal rendering of a signed number: a minus sign before the
/// magnitude when negative.
pub open spec fn spec_i64_string(n: int) -> Seq<char> {
    if n < 0 {
        seq!['-'] + spec_u64_string(-n)
    } else {
        spec_u64_string(n)
    }
}

/// Renders a signed number in decimal.
pub fn i64_to_string(n: i64) -> (r: String)
    ensures
        r@ == spec_i64_string(n as int),
{
    if n < 0 {
        let magnitude = (-(n as i128)) as u64;
        proof {
            reveal_strlit("-");
        }
        let r = "-".to_owned().concat(u64_to_string(magnitude).as_str());
        assert(r@ =~= spec_i64_string(n as int));
        r
    } else {
        u64_to_string(n as u64)
    }
}

/// A minute rendered as two digits, zero-padded below ten.
pub open spec fn spec_pad2(m: int) -> Seq<char> {
    if m < 10 {
        seq!['0'] + spec_u64_string(m)
    } else {
        spec_u64_string(m)
    }
}

/// Renders a minute as at least two digits.
pub fn pad2(minute: u8) -> (r: String)
    ensures
        r@ == spec_pad2(minute as int),
{
    if minute < 10 {
        proof {
            reveal_strlit("0");
        }
        let r = "0".to_owned().concat(u64_to_string(minute as u64).as_str());
        assert(r@ =~= spec_pad2(minute as int));
        r
    } else {
        u64_to_string(minute as u64)
    }
}

/// A quantity in millionths rendered with two decimal places, rounding
/// half-up to the nearest hundredth.
pub open spec fn spec_micro_2dp(x: int) -> Seq<char> {
    let centi = (x + 5000) / 10000;
    spec_u64_string(centi / 100) + seq!['.'] + spec_pad2(centi % 100)
}

/// Renders a fixed-point quantity (millionths) with two decimal places.
pub fn micro_2dp(x: u64) -> (r: String)
    requires
        x < 0x1000_0000_0000_0000,
    ensures
        r@ == spec_micro_2dp(x as int),
{
    let centi = (x + 5000) / 10000;
    proof {
        reveal_strlit(".");
    }
    let r = u64_to_string(centi / 100).concat(".").concat(
        pad2((centi % 100) as u8).as_str(),
    );
    assert(r@ =~= spec_micro_2dp(x as int));
    r
}

/// A run of spaces.
pub open spec fn spec_spaces(n: int) -> Seq<char> {
    Seq::new(if n < 0 {
        0nat
    } else {
        n as nat
    }, |i: int| ' ')
}

fn spaces(n: usize) -> (r: String)
    ensures
        r@ == spec_spaces(n as int),
{
    let mut out = String::new();
    let mut i: usize = 0;
    while i < n
        invariant
            i <= n,
            out@ =~= spec_spaces(i as int),
        decreases n - i,
    {
        proof {
            reveal_strlit(" ");
        }
        out.append(" ");
        i = i + 1;
        assert(out@ =~= spec_spaces(i as int));
    }
    out
}

/// The text right-aligned in a field of `width` characters; text at or over
/// the width is unchanged.
pub open spec fn spec_pad_left(s: Seq<char>, width: int) -> Seq<char> {
    if s.len() >= width {
        s
    } else {
        spec_spaces(width - s.len()) + s
    }
}

/// Right-aligns text in a field of the given width.
pub fn pad_left(s: &str, width: usize) -> (r: String)
    ensures
        r@ == spec_pad_left(s@, width as int),
{
    let n = s.unicode_len();
    if n >= width {
        s.to_owned()
    } else {
        let r = spaces(width - n).concat(s);
        assert(r@ =~= spec_pad_left(s@, width as int));
        r
    }
}

/// The text left-aligned in a field of `width` characters; text at or over
/// the width is unchanged.
pub open spec fn spec_pad_right(s: Seq<char>, width: int) -> Seq<char> {
    if s.len() >= width {
        s
    } else {
        s + spec_spaces(width - s.len())
    }
}

/// Left-aligns text in a field of the given width.
pub fn pad_right(s: &str, width: usize) -> (r: String)
    ensures
        r@ == spec_pad_right(s@, width as int),
{
    let n = s.unicode_len();
    if n >= width {
        s.to_owned()
    } else {
        let r = s.to_owned().concat(spaces(width - n).as_str());
        assert(r@ =~= spec_pad_right(s@, width as int));
        r
    }
}

/// Lexicographic order on character sequences by code point, with a prefix
/// ordered before its extensions. Agrees with byte order on UTF-8 text.
pub open spec fn spec_lex_le(a: Seq<char>, b: Seq<char>) -> bool
    decreases a.len(),
{
    if a.len() == 0 {
        true
    } else if b.len() == 0 {
        false
    } else if (a[0] as u32) < (b[0] as u32) {
        true
    } else if (a[0] as u32) > (b[0] as u32) {
        false
    } else {
        spec_lex_le(a.skip(1), b.skip(1))
    }
}

/// Whether `a` orders at or before `b` lexicographically.
pub fn lex_le(a: &str, b: &str) -> (r: bool)
    ensures
        r == spec_lex_le(a@, b@),
{
    let alen = a.unicode_len();
    let blen = b.unicode_len();
    let mut i: usize = 0;
    assert(a@.skip(0) =~= a@);
    assert(b@.skip(0) =~= b@);
    loop
        invariant
            i <= alen,
            i <= blen,
            alen == a@.len(),
            blen == b@.len(),
            spec_lex_le(a@, b@) == spec_lex_le(a@.skip(i as int), b@.skip(i as int)),
        decreases alen - i,
    {
        if i >= alen {
            assert(a@.skip(i as int).len() == 0);
            return true;
        }
        if i >= blen {
            assert(b@.skip(i as int).len() == 0);
            return false;
        }
        let ca = a.get_char(i);
        let cb = b.get_char(i);
        assert(a@.skip(i as int)[0] == a@[i as int]);
        assert(b@.skip(i as int)[0] == b@[i as int]);
        if (ca as u32) < (cb as u32) {
            return true;
        }
        if (ca as u32) > (cb as u32) {
            return false;
        }
        assert(a@.skip(i as int).skip(1) =~= a@.skip(i as int + 1));
        assert(b@.skip(i as int).skip(1) =~= b@.skip(i as int + 1));
        i = i + 1;
    }
}

/// The white-space characters skipped when looking for a cell's first
/// visible character: the Unicode White_Space set, as `char::is_whitespace`
/// recognizes it.
pub open spec fn spec_is_space(c: char) -> bool {
    ||| c == '\u{0009}'
    ||| c == '\u{000A}'
    ||| c == '\u{000B}'
    ||| c == '\u{000C}'
    ||| c == '\u{000D}'
    ||| c == ' '
    ||| c == '\u{0085}'
    ||| c == '\u{00A0}'
    ||| c == '\u{1680}'
    ||| ('\u{2000}' as u32 <= c as u32 && c as u32 <= '\u{200A}' as u32)
    ||| c == '\u{2028}'
    ||| c == '\u{2029}'
    ||| c == '\u{202F}'
    ||| c == '\u{205F}'
    ||| c == '\u{3000}'
}

fn is_space_char(c: char) -> (r: bool)
    ensures
        r == spec_is_space(c),
{
    c == '\u{0009}' || c == '\u{000A}' || c == '\u{000B}' || c == '\u{000C}' || c == '\u{000D}'
        || c == ' ' || c == '\u{0085}' || c == '\u{00A0}' || c == '\u{1680}' || ('\u{2000}' as u32 <= c as u32
        && c as u32 <= '\u{200A}' as u32) || c == '\u{2028}' || c == '\u{2029}' || c == '\u{202F}' || c
        == '\u{205F}' || c == '\u{3000}'
}

/// The first non-whitespace character of a cell, if any.
pub open spec fn spec_first_visible(s: Seq<char>) -> Option<char>
    decreases s.len(),
{
    if s.len() == 0 {
        None
    } else if spec_is_space(s[0]) {
        spec_first_visible(s.skip(1))
    } else {
        Some(s[0])
    }
}

/// Whether a cell would be read as a spreadsheet formula: its first visible
/// character is `=`, `+`, `-` or `@`.
pub open spec fn spec_formula_like(s: Seq<char>) -> bool {
    match spec_first_visible(s) {
        Some(c) => c == '=' || c == '+' || c == '-' || c == '@',
        None => false,
    }
}

/// A cell defused against spreadsheet formula injection: formula-like cells
/// gain a leading single quote, all others pass through unchanged.
pub open spec fn spec_sanitize_cell(s: Seq<char>) -> Seq<char> {
    if spec_formula_like(s) {
        seq!['\''] + s
    } else {
        s
    }
}

/// Prefixes a quote to any cell whose first visible character would start a
/// spreadsheet formula.
pub fn sanitize_csv_cell(raw: &str) -> (r: String)
    ensures
        r@ == spec_sanitize_cell(raw@),
{
    let n = raw.unicode_len();
    let mut i: usize = 0;
    assert(raw@.skip(0) =~= raw@);
    loop
        invariant
            i <= n,
            n == raw@.len(),
            spec_first_visible(raw@) == spec_first_visible(raw@.skip(i as int)),
        decreases n - i,
    {
        if i >= n {
            assert(raw@.skip(i as int).len() == 0);
            return raw.to_owned();
        }
        let c = raw.get_char(i);
        assert(raw@.skip(i as int)[0] == raw@[i as int]);
        if is_space_char(c) {
            assert(raw@.skip(i as int).skip(1) =~= raw@.skip(i as int + 1));
            i = i + 1;
        } else {
            if c == '=' || c == '+' || c == '-' || c == '@' {
                proof {
                    reveal_strlit("'");
                }
                let r = "'".to_owned().concat(raw);
                assert(r@ =~= spec_sanitize_cell(raw@));
                return r;
            }
            return raw.to_owned();
        }
    }
}

/// The cell text with every double quote doubled.
pub open spec fn spec_double_quotes(s: Seq<char>) -> Seq<char>
    decreases s.len(),
{
    if s.len() == 0 {
        Seq::empty()
    } else {
        (if s[0] == '"' {
            seq!['"', '"']
        } else {
            seq![s[0]]
        }) + spec_double_quotes(s.skip(1))
    }
}

proof fn lemma_double_quotes_push(s: Seq<char>, c: char)
    ensures
        spec_double_quotes(s.push(c)) == spec_double_quotes(s) + (if c == '"' {
            seq!['"', '"']
        } else {
            seq![c]
        }),
    decreases s.len(),
{
    if s.len() == 0 {
        assert(s.push(c).len() == 1);
        assert(s.push(c)[0] == c);
        assert(s.push(c).skip(1) =~= Seq::<char>::empty());
        assert(spec_double_quotes(Seq::<char>::empty()) =~= Seq::<char>::empty());
        assert(spec_double_quotes(s.push(c)) =~= spec_double_quotes(s) + (if c == '"' {
            seq!['"', '"']
        } else {
            seq![c]
        }));
    } else {
        assert(s.push(c)[0] == s[0]);
        assert(s.push(c).skip(1) =~= s.skip(1).push(c));
        lemma_double_quotes_push(s.skip(1), c);
        assert(spec_double_quotes(s.push(c)) =~= spec_double_quotes(s) + (if c == '"' {
            seq!['"', '"']
        } else {
            seq![c]
        }));
    }
}

/// A fully escaped CSV cell: after formula defusing, a cell containing a
/// comma, newline or double quote is wrapped in double quotes with its inner
/// quotes doubled; any other cell is the defused text itself.
pub open spec fn spec_csv_escape(s: Seq<char>) -> Seq<char> {
    let cell = spec_sanitize_cell(s);
    if cell.contains(',') || cell.contains('\n') || cell.contains('"') {
        seq!['"'] + spec_double_quotes(cell) + seq!['"']
    } else {
        cell
    }
}

/// Escapes one CSV cell: defuses formulas, then quotes and doubles as needed.
pub fn csv_escape(field: &str) -> (r: String)
    ensures
        r@ == spec_csv_escape(field@),
{
    let cell = sanitize_csv_cell(field);
    let s = cell.as_str();
    let n = s.unicode_len();
    let mut needs_quotes = false;
    let mut i: usize = 0;
    while i < n
        invariant
            i <= n,
            n == s@.len(),
            s@ == cell@,
            needs_quotes == (exists|j: int|
                0 <= j < i && (s@[j] == ',' || s@[j] == '\n' || s@[j] == '"')),
        decreases n - i,
    {
        let c = s.get_char(i);
        if c == ',' || c == '\n' || c == '"' {
            needs_quotes = true;
        }
        i = i + 1;
    }
    if !needs_quotes {
        assert(!cell@.contains(',') && !cell@.contains('\n') && !cell@.contains('"'));
        return cell;
    }
    assert(cell@.contains(',') || cell@.contains('\n') || cell@.contains('"'));
    proof {
        reveal_strlit("\"");
        reveal_strlit("\"\"");
    }
    let mut out: String = "\"".to_owned();
    let mut k: usize = 0;
    while k < n
        invariant
            k <= n,
            n == s@.len(),
            s@ == cell@,
            out@ =~= seq!['"'] + spec_double_quotes(s@.take(k as int)),
        decreases n - k,
    {
        let c = s.get_char(k);
        if c == '"' {
            proof {
                reveal_strlit("\"\"");
            }
            out.append("\"\"");
        } else {
            let piece = s.substring_char(k, k + 1);
            assert(piece@ =~= seq![s@[k as int]]);
            out.append(piece);
        }
        proof {
            lemma_double_quotes_push(s@.take(k as int), s@[k as int]);
            assert(s@.take(k as int).push(s@[k as int]) =~= s@.take(k as int + 1));
        }
        k = k + 1;
    }
    assert(s@.take(n as int) =~= s@);
    let r = out.concat("\"");
    assert(r@ =~= spec_csv_escape(field@));
    r
}

} // verus!
