//! Text-level parsing of a raw request: prefix tests, locating the
//! header/body separator, pulling the id token out of the path, and
//! turning that token into a 32-bit integer.
use vstd::prelude::*;

verus! {

/// True when `p` is a prefix of `s`.
pub open spec fn seq_starts_with(s: Seq<char>, p: Seq<char>) -> bool {
    p.len() <= s.len() && s.subrange(0, p.len() as int) == p
}

/// Prefix test on request text, character by character.
pub fn starts_with(s: &str, p: &str) -> (r: bool)
    ensures
        r == seq_starts_with(s@, p@),
{
    let n = p.unicode_len();
    if n > s.unicode_len() {
        assert(!seq_starts_with(s@, p@));
        return false;
    }
    let mut i: usize = 0;
    while i < n
        invariant
            n == p@.len(),
            n <= s@.len(),
            i <= n,
            forall|j: int| 0 <= j < i ==> s@[j] == p@[j],
        decreases n - i,
    {
        if s.get_char(i) != p.get_char(i) {
            assert(s@.subrange(0, n as int)[i as int] != p@[i as int]);
            return false;
        }
        i += 1;
    }
    assert(s@.subrange(0, n as int) =~= p@);
    true
}

/// Index of the first occurrence of `c` in `s` at or after `i`;
/// `s.len()` when there is none.
pub open spec fn find_char_from(s: Seq<char>, c: char, i: int) -> int
    decreases (if i < s.len() { s.len() - i } else { 0 })
{
    if i < 0 || i >= s.len() {
        s.len() as int
    } else if s[i] == c {
        i
    } else {
        find_char_from(s, c, i + 1)
    }
}

pub proof fn lemma_find_char_from(s: Seq<char>, c: char, i: int)
    requires
        0 <= i <= s.len(),
    ensures
        i <= find_char_from(s, c, i) <= s.len(),
        forall|j: int| i <= j < find_char_from(s, c, i) ==> s[j] != c,
        find_char_from(s, c, i) < s.len() ==> s[find_char_from(s, c, i)] == c,
    decreases s.len() - i,
{
    if i < s.len() && s[i] != c {
        lemma_find_char_from(s, c, i + 1);
    }
}

/// First occurrence of `c` in `s` at or after `start`, by a linear scan.
pub fn find_char(s: &str, c: char, start: usize) -> (r: usize)
    requires
        start <= s@.len(),
    ensures
        r == find_char_from(s@, c, start as int),
{
    let len = s.unicode_len();
    let mut i: usize = start;
    while i < len
        invariant
            start <= i <= len,
            len == s@.len(),
            find_char_from(s@, c, start as int) == find_char_from(s@, c, i as int),
        decreases len - i,
    {
        if s.get_char(i) == c {
            return i;
        }
        i += 1;
    }
    len
}

/// The characters on which an id token ends: the Unicode white space
/// set.
pub open spec fn is_space(c: char) -> bool {
    ||| c == '\u{0009}'
    ||| c == '\u{000A}'
    ||| c == '\u{000B}'
    ||| c == '\u{000C}'
    ||| c == '\u{000D}'
    ||| c == ' '
    ||| c == '\u{0085}'
    ||| c == '\u{00A0}'
    ||| c == '\u{1680}'
    ||| ('\u{2000}' <= c && c <= '\u{200A}')
    ||| c == '\u{2028}'
    ||| c == '\u{2029}'
    ||| c == '\u{202F}'
    ||| c == '\u{205F}'
    ||| c == '\u{3000}'
}

/// Whitespace test matching `is_space`.
pub fn space_char(c: char) -> (r: bool)
    ensures
        r == is_space(c),
{
    c == '\u{0009}' || c == '\u{000A}' || c == '\u{000B}' || c == '\u{000C}' || c == '\u{000D}'
        || c == ' ' || c == '\u{0085}' || c == '\u{00A0}' || c == '\u{1680}' || ('\u{2000}' <= c
        && c <= '\u{200A}') || c == '\u{2028}' || c == '\u{2029}' || c == '\u{202F}' || c
        == '\u{205F}' || c == '\u{3000}'
}

/// Index of the first character at or after `i` whose `is_space` value
/// equals `want`; `s.len()` when there is none.
pub open spec fn find_space_like(s: Seq<char>, want: bool, i: int) -> int
    decreases (if i < s.len() { s.len() - i } else { 0 })
{
    if i < 0 || i >= s.len() {
        s.len() as int
    } else if is_space(s[i]) == want {
        i
    } else {
        find_space_like(s, want, i + 1)
    }
}

pub proof fn lemma_find_space_like(s: Seq<char>, want: bool, i: int)
    requires
        0 <= i <= s.len(),
    ensures
        i <= find_space_like(s, want, i) <= s.len(),
        forall|j: int| i <= j < find_space_like(s, want, i) ==> is_space(s[j]) != want,
        find_space_like(s, want, i) < s.len() ==> is_space(s[find_space_like(s, want, i)]) == want,
    decreases s.len() - i,
{
    if i < s.len() && is_space(s[i]) != want {
        lemma_find_space_like(s, want, i + 1);
    }
}

/// First index at or after `start` whose `is_space` value equals `want`.
pub fn find_space(s: &str, want: bool, start: usize) -> (r: usize)
    requires
        start <= s@.len(),
    ensures
        r == find_space_like(s@, want, start as int),
{
    let len = s.unicode_len();
    let mut i: usize = start;
    while i < len
        invariant
            start <= i <= len,
            len == s@.len(),
            find_space_like(s@, want, start as int) == find_space_like(s@, want, i as int),
        decreases len - i,
    {
        if space_char(s.get_char(i)) == want {
            return i;
        }
        i += 1;
    }
    len
}

/// The first whitespace-delimited token of `s`: empty when `s` holds
/// only whitespace.
pub open spec fn first_token(s: Seq<char>) -> Seq<char> {
    let t1 = find_space_like(s, false, 0);
    if t1 >= s.len() {
        Seq::empty()
    } else {
        s.subrange(t1, find_space_like(s, true, t1))
    }
}

/// The id token of a request line `METHOD /users/<token> ...`: the text
/// between the second `/` and the next `/` or end, trimmed to its first
/// whitespace-delimited word. Empty when the path has no such segment.
pub open spec fn id_token_of(req: Seq<char>) -> Seq<char> {
    let p1 = find_char_from(req, '/', 0);
    let p2 = find_char_from(req, '/', p1 + 1);
    if p2 >= req.len() {
        Seq::empty()
    } else {
        first_token(req.subrange(p2 + 1, find_char_from(req, '/', p2 + 1)))
    }
}

/// Extracts the id token from the raw request text: the third
/// `/`-separated field, cut at its first whitespace.
pub fn get_id<'a>(request: &'a str) -> (r: &'a str)
    ensures
        r@ == id_token_of(request@),
{
    let len = request.unicode_len();
    let p1 = find_char(request, '/', 0);
    proof {
        lemma_find_char_from(request@, '/', 0);
    }
    if p1 == len {
        assert(find_char_from(request@, '/', p1 + 1) == request@.len());
        proof {
            reveal_strlit("");
        }
        assert(""@ =~= id_token_of(request@));
        return "";
    }
    let p2 = find_char(request, '/', p1 + 1);
    proof {
        lemma_find_char_from(request@, '/', p1 + 1);
    }
    if p2 == len {
        proof {
            reveal_strlit("");
        }
        assert(""@ =~= id_token_of(request@));
        return "";
    }
    let b = find_char(request, '/', p2 + 1);
    proof {
        lemma_find_char_from(request@, '/', p2 + 1);
    }
    let field = request.substring_char(p2 + 1, b);
    assert(field@ == request@.subrange(p2 + 1, b as int));
    let flen = field.unicode_len();
    let t1 = find_space(field, false, 0);
    proof {
        lemma_find_space_like(field@, false, 0);
    }
    if t1 == flen {
        proof {
            reveal_strlit("");
        }
        assert(""@ =~= id_token_of(request@));
        return "";
    }
    let t2 = find_space(field, true, t1);
    proof {
        lemma_find_space_like(field@, true, t1 as int);
    }
    let token = field.substring_char(t1, t2);
    assert(token@ =~= id_token_of(request@));
    token
}

/// True when the four-character blank-line separator `\r\n\r\n` stands
/// at position `i` of `s`.
pub open spec fn sep_at(s: Seq<char>, i: int) -> bool {
    &&& 0 <= i
    &&& i + 4 <= s.len()
    &&& s[i] == '\r'
    &&& s[i + 1] == '\n'
    &&& s[i + 2] == '\r'
    &&& s[i + 3] == '\n'
}

/// The largest position `j <= i` where the separator stands; `-1` when
/// there is none.
pub open spec fn last_sep_from(s: Seq<char>, i: int) -> int
    decreases (if i < 0 { 0 } else { i + 1 })
{
    if i < 0 {
        -1
    } else if sep_at(s, i) {
        i
    } else {
        last_sep_from(s, i - 1)
    }
}

/// The body of a request: everything after the last occurrence of the
/// blank-line separator, or empty when no separator is present.
pub open spec fn body_of(s: Seq<char>) -> Seq<char> {
    let l = last_sep_from(s, s.len() - 4);
    if l >= 0 {
        s.subrange(l + 4, s.len() as int)
    } else {
        Seq::empty()
    }
}

/// Splits the request text at the last blank-line separator and returns
/// what follows it; a request without a separator has an empty body.
pub fn extract_body<'a>(request: &'a str) -> (r: &'a str)
    ensures
        r@ == body_of(request@),
{
    let len = request.unicode_len();
    if len < 4 {
        proof {
            reveal_strlit("");
        }
        assert(""@ =~= body_of(request@));
        return "";
    }
    let mut i: usize = 0;
    let mut found: usize = 0;
    let mut has: bool = false;
    while i <= len - 4
        invariant
            len == request@.len(),
            4 <= len,
            i <= len - 3,
            last_sep_from(request@, i as int - 1) == (if has { found as int } else { -1 }),
            has ==> found + 4 <= len,
        decreases len - i,
    {
        if request.get_char(i) == '\r' && request.get_char(i + 1) == '\n'
            && request.get_char(i + 2) == '\r' && request.get_char(i + 3) == '\n' {
            found = i;
            has = true;
        } else {
            assert(!sep_at(request@, i as int));
        }
        i += 1;
    }
    assert(i as int - 1 == len - 4);
    if has {
        let body = request.substring_char(found + 4, len);
        assert(body@ =~= body_of(request@));
        body
    } else {
        proof {
            reveal_strlit("");
        }
        assert(""@ =~= body_of(request@));
        ""
    }
}

/// Decimal digit test.
pub open spec fn is_digit(c: char) -> bool {
    '0' <= c && c <= '9'
}

/// Numeric value of a decimal digit.
pub open spec fn digit_val(c: char) -> int {
    c as int - '0' as int
}

pub open spec fn all_digits(s: Seq<char>) -> bool {
    forall|i: int| 0 <= i < s.len() ==> is_digit(s[i])
}

/// Value of a string of decimal digits, most significant first.
pub open spec fn digits_value(s: Seq<char>) -> int
    decreases s.len(),
{
    if s.len() == 0 {
        0
    } else {
        digits_value(s.drop_last()) * 10 + digit_val(s.last())
    }
}

/// The digit part of a signed decimal literal: everything after an
/// optional leading `+` or `-`.
pub open spec fn i32_digits(s: Seq<char>) -> Seq<char> {
    if s.len() > 0 && (s[0] == '+' || s[0] == '-') {
        s.subrange(1, s.len() as int)
    } else {
        s
    }
}

pub open spec fn i32_sign(s: Seq<char>) -> int {
    if s.len() > 0 && s[0] == '-' {
        -1
    } else {
        1
    }
}

/// The integer a signed decimal literal denotes, before any range check.
pub open spec fn i32_literal_value(s: Seq<char>) -> int {
    i32_sign(s) * digits_value(i32_digits(s))
}

/// True when `s` is a decimal integer literal that fits in an `i32`:
/// an optional sign, one or more digits, value within range.
pub open spec fn is_i32_literal(s: Seq<char>) -> bool {
    &&& i32_digits(s).len() > 0
    &&& all_digits(i32_digits(s))
    &&& -0x8000_0000 <= i32_literal_value(s) <= 0x7fff_ffff
}

proof fn lemma_digits_value_nonneg(s: Seq<char>)
    requires
        all_digits(s),
    ensures
        digits_value(s) >= 0,
    decreases s.len(),
{
    if s.len() > 0 {
        assert(all_digits(s.drop_last()));
        lemma_digits_value_nonneg(s.drop_last());
    }
}

/// Parses a decimal integer token the way the id token is read: an
/// optional sign and digits, rejected when empty, malformed, or out of
/// the `i32` range.
pub fn parse_i32(s: &str) -> (r: Option<i32>)
    ensures
        r == (if is_i32_literal(s@) {
            Some(i32_literal_value(s@) as i32)
        } else {
            None::<i32>
        }),
{
    let len = s.unicode_len();
    let mut start: usize = 0;
    let mut neg = false;
    if len > 0 {
        let c0 = s.get_char(0);
        if c0 == '+' || c0 == '-' {
            start = 1;
            neg = c0 == '-';
        }
    }
    if start >= len {
        assert(i32_digits(s@).len() == 0);
        return None;
    }
    let ghost dall = i32_digits(s@);
    assert(dall =~= s@.subrange(start as int, len as int));
    let mut acc: u64 = 0;
    let mut over = false;
    let mut j: usize = start;
    while j < len
        invariant
            start <= j <= len,
            len == s@.len(),
            start < len,
            dall == s@.subrange(start as int, len as int),
            dall == i32_digits(s@),
            all_digits(s@.subrange(start as int, j as int)),
            !over ==> acc == digits_value(s@.subrange(start as int, j as int)) && acc
                <= 0x8000_0000,
            over ==> digits_value(s@.subrange(start as int, j as int)) > 0x8000_0000,
        decreases len - j,
    {
        let c = s.get_char(j);
        if c < '0' || c > '9' {
            assert(!is_digit(dall[j - start]));
            assert(!is_i32_literal(s@));
            return None;
        }
        let d: u32 = c as u32 - 48;
        let ghost prev = s@.subrange(start as int, j as int);
        let ghost cur = s@.subrange(start as int, j as int + 1);
        assert(cur.drop_last() =~= prev);
        assert(cur.last() == s@[j as int]);
        assert(digits_value(cur) == digits_value(prev) * 10 + digit_val(s@[j as int]));
        if !over {
            if acc <= 214748364 {
                acc = acc * 10 + d as u64;
                if acc > 0x8000_0000 {
                    over = true;
                }
            } else {
                proof {
                    lemma_digits_value_nonneg(prev);
                }
                assert(digits_value(prev) * 10 >= digits_value(prev)) by (nonlinear_arith)
                    requires
                        digits_value(prev) >= 0,
                ;
                over = true;
            }
        } else {
            proof {
                lemma_digits_value_nonneg(prev);
            }
            assert(digits_value(prev) * 10 > 0x8000_0000 * 10) by (nonlinear_arith)
                requires
                    digits_value(prev) > 0x8000_0000,
            ;
        }
        j += 1;
    }
    assert(s@.subrange(start as int, len as int) =~= dall);
    assert(all_digits(dall));
    if over {
        proof {
            if i32_sign(s@) == 1 {
                assert(i32_literal_value(s@) == 1 * digits_value(dall) == digits_value(dall));
            } else {
                assert(i32_literal_value(s@) == (-1) * digits_value(dall) == -digits_value(
                    dall,
                ));
            }
        }
        assert(!is_i32_literal(s@));
        return None;
    }
    assert(acc == digits_value(dall));
    if neg {
        assert(i32_sign(s@) == -1 && i32_literal_value(s@) == -(acc as int));
        if acc == 0x8000_0000 {
            Some(i32::MIN)
        } else {
            Some(-(acc as i32))
        }
    } else {
        assert(i32_sign(s@) == 1 && i32_literal_value(s@) == acc as int);
        if acc > 0x7fff_ffff {
            assert(!is_i32_literal(s@));
            None
        } else {
            Some(acc as i32)
        }
    }
}

} // verus!
