//! Byte-level text utilities: field splitting, substring search, radix
//! parsing with overflow detection, and decimal rendering of integers.
//! The socket-table parsers are specified and proved over these.

use vstd::prelude::*;

verus! {

// ---------------------------------------------------------------------------
// Splitting
// ---------------------------------------------------------------------------

/// ASCII whitespace bytes.
pub open spec fn is_ws(b: u8) -> bool {
    b == 9 || b == 10 || b == 11 || b == 12 || b == 13 || b == 32
}

/// The byte class a split runs on: one separator byte, or ASCII whitespace.
pub open spec fn split_pred(sep: u8, on_ws: bool) -> spec_fn(u8) -> bool {
    |b: u8| if on_ws { is_ws(b) } else { b == sep }
}

/// Fields of `s` between separator bytes. There is always at least one
/// field, and empty fields are kept.
pub open spec fn split_when(s: Seq<u8>, p: spec_fn(u8) -> bool) -> Seq<Seq<u8>>
    decreases s.len(),
{
    if s.len() == 0 {
        seq![Seq::<u8>::empty()]
    } else if p(s[0]) {
        seq![Seq::<u8>::empty()] + split_when(s.drop_first(), p)
    } else {
        let rest = split_when(s.drop_first(), p);
        seq![seq![s[0]] + rest[0]] + rest.drop_first()
    }
}

/// Fields of `s` between occurrences of the byte `sep`.
pub open spec fn split_on(s: Seq<u8>, sep: u8) -> Seq<Seq<u8>> {
    split_when(s, split_pred(sep, false))
}

/// The nonempty fields, in order: what splitting on runs of whitespace keeps.
pub open spec fn keep_tokens(fields: Seq<Seq<u8>>) -> Seq<Seq<u8>>
    decreases fields.len(),
{
    if fields.len() == 0 {
        Seq::empty()
    } else {
        let rest = keep_tokens(fields.drop_first());
        if fields[0].len() > 0 {
            seq![fields[0]] + rest
        } else {
            rest
        }
    }
}

/// The whitespace-separated tokens of `s`.
pub open spec fn tokens_of(s: Seq<u8>) -> Seq<Seq<u8>> {
    keep_tokens(split_when(s, split_pred(0, true)))
}

pub proof fn lemma_split_when_len(s: Seq<u8>, p: spec_fn(u8) -> bool)
    ensures
        split_when(s, p).len() >= 1,
    decreases s.len(),
{
    if s.len() == 0 {
    } else if p(s[0]) {
    } else {
        lemma_split_when_len(s.drop_first(), p);
    }
}

/// A partial field glued onto the fields of the remaining input.
spec fn glue(pre: Seq<u8>, fields: Seq<Seq<u8>>) -> Seq<Seq<u8>> {
    seq![pre + fields[0]] + fields.drop_first()
}

fn split_by(s: &[u8], sep: u8, on_ws: bool) -> (r: Vec<Vec<u8>>)
    ensures
        r.deep_view() == split_when(s@, split_pred(sep, on_ws)),
{
    let ghost p = split_pred(sep, on_ws);
    let mut out: Vec<Vec<u8>> = Vec::new();
    let mut cur: Vec<u8> = Vec::new();
    let n = s.len();
    let mut i: usize = 0;
    proof {
        assert(s@.subrange(0, n as int) =~= s@);
        lemma_split_when_len(s@, p);
        assert(glue(Seq::<u8>::empty(), split_when(s@, p)) =~~= split_when(s@, p));
    }
    while i < n
        invariant
            n == s@.len(),
            i <= n,
            p == split_pred(sep, on_ws),
            split_when(s@, p) =~~= out.deep_view() + glue(
                cur@,
                split_when(s@.subrange(i as int, n as int), p),
            ),
        decreases n - i,
    {
        let b = s[i];
        proof {
            let suf = s@.subrange(i as int, n as int);
            let suf2 = s@.subrange(i as int + 1, n as int);
            assert(suf.len() > 0 && suf[0] == b);
            assert(suf.drop_first() =~= suf2);
            lemma_split_when_len(suf2, p);
        }
        let hit = if on_ws {
            b == 9 || b == 10 || b == 11 || b == 12 || b == 13 || b == 32
        } else {
            b == sep
        };
        proof {
            assert(hit == p(b));
        }
        if hit {
            let ghost out0 = out.deep_view();
            let ghost cur0 = cur@;
            let done = cur;
            out.push(done);
            cur = Vec::new();
            proof {
                let suf = s@.subrange(i as int, n as int);
                let suf2 = s@.subrange(i as int + 1, n as int);
                let f2 = split_when(suf2, p);
                assert(split_when(suf, p) =~~= seq![Seq::<u8>::empty()] + f2);
                assert(out.deep_view() =~~= out0.push(cur0));
                assert(out0 + glue(cur0, split_when(suf, p)) =~~= out.deep_view() + glue(
                    cur@,
                    f2,
                ));
            }
        } else {
            let ghost cur0 = cur@;
            cur.push(b);
            proof {
                let suf = s@.subrange(i as int, n as int);
                let suf2 = s@.subrange(i as int + 1, n as int);
                let f2 = split_when(suf2, p);
                assert(split_when(suf, p) =~~= seq![seq![b] + f2[0]] + f2.drop_first());
                assert(glue(cur0, split_when(suf, p)) =~~= glue(cur@, f2));
            }
        }
        i += 1;
    }
    let ghost out0 = out.deep_view();
    let ghost cur0 = cur@;
    let done = cur;
    out.push(done);
    proof {
        let suf = s@.subrange(n as int, n as int);
        assert(suf =~= Seq::<u8>::empty());
        assert(split_when(suf, p) =~~= seq![Seq::<u8>::empty()]);
        assert(glue(cur0, split_when(suf, p)) =~~= seq![cur0]);
        assert(out.deep_view() =~~= out0.push(cur0));
        assert(out.deep_view() =~~= split_when(s@, p));
    }
    out
}

/// Splits `s` at every occurrence of `sep`, keeping empty fields.
pub fn split_on_byte(s: &[u8], sep: u8) -> (r: Vec<Vec<u8>>)
    ensures
        r.deep_view() == split_on(s@, sep),
{
    split_by(s, sep, false)
}

/// Splits `s` on runs of ASCII whitespace, dropping empty fields.
pub fn split_whitespace_bytes(s: &[u8]) -> (r: Vec<Vec<u8>>)
    ensures
        r.deep_view() == tokens_of(s@),
{
    let raw = split_by(s, 0, true);
    let mut out: Vec<Vec<u8>> = Vec::new();
    let n = raw.len();
    let mut i: usize = 0;
    proof {
        assert(raw.deep_view().subrange(0, n as int) =~= raw.deep_view());
    }
    while i < n
        invariant
            n == raw@.len(),
            i <= n,
            raw.deep_view().len() == n,
            tokens_of(s@) =~~= out.deep_view() + keep_tokens(
                raw.deep_view().subrange(i as int, n as int),
            ),
        decreases n - i,
    {
        proof {
            let suf = raw.deep_view().subrange(i as int, n as int);
            let suf2 = raw.deep_view().subrange(i as int + 1, n as int);
            assert(suf.len() > 0 && suf[0] =~= raw@[i as int]@);
            assert(suf.drop_first() =~= suf2);
        }
        if raw[i].len() > 0 {
            let ghost out0 = out.deep_view();
            let t = raw[i].clone();
            assert(t@ == raw@[i as int]@);
            out.push(t);
            proof {
                assert(out.deep_view() =~~= out0.push(raw@[i as int]@));
            }
        }
        i += 1;
    }
    proof {
        assert(raw.deep_view().subrange(n as int, n as int) =~= Seq::<Seq<u8>>::empty());
        assert(out.deep_view() =~~= tokens_of(s@));
    }
    out
}

// ---------------------------------------------------------------------------
// Substring search
// ---------------------------------------------------------------------------

/// `needle` occurs in `hay` starting at position `i`.
pub open spec fn occurs_at(hay: Seq<u8>, needle: Seq<u8>, i: int) -> bool {
    0 <= i && i + needle.len() <= hay.len() && hay.subrange(i, i + needle.len()) == needle
}

/// `needle` occurs somewhere in `hay`.
pub open spec fn contains_seq(hay: Seq<u8>, needle: Seq<u8>) -> bool {
    exists|i: int| occurs_at(hay, needle, i)
}

/// Naive substring search.
pub fn find_subslice(hay: &[u8], needle: &[u8]) -> (r: bool)
    ensures
        r == contains_seq(hay@, needle@),
{
    let hn = hay.len();
    let nn = needle.len();
    if nn > hn {
        proof {
            assert(forall|i: int| !occurs_at(hay@, needle@, i));
        }
        return false;
    }
    let mut i: usize = 0;
    while i <= hn - nn
        invariant
            hn == hay@.len(),
            nn == needle@.len(),
            nn <= hn,
            i <= hn - nn + 1,
            forall|k: int| 0 <= k < i ==> !occurs_at(hay@, needle@, k),
        decreases hn - nn - i + 1,
    {
        let mut j: usize = 0;
        while j < nn && hay[i + j] == needle[j]
            invariant
                hn == hay@.len(),
                nn == needle@.len(),
                i + nn <= hn,
                j <= nn,
                forall|t: int| 0 <= t < j ==> hay@[i + t] == needle@[t],
            decreases nn - j,
        {
            j += 1;
        }
        if j == nn {
            proof {
                assert(hay@.subrange(i as int, i + nn) =~= needle@);
                assert(occurs_at(hay@, needle@, i as int));
            }
            return true;
        }
        proof {
            assert(hay@[i + j] != needle@[j as int]);
            assert(!occurs_at(hay@, needle@, i as int)) by {
                if occurs_at(hay@, needle@, i as int) {
                    assert(hay@.subrange(i as int, i + nn)[j as int] == needle@[j as int]);
                }
            }
        }
        i += 1;
    }
    proof {
        assert(forall|k: int| occurs_at(hay@, needle@, k) ==> 0 <= k <= hn - nn);
    }
    false
}

/// `b` occurs in `s`.
pub open spec fn has_byte(s: Seq<u8>, b: u8) -> bool {
    exists|i: int| 0 <= i < s.len() && s[i] == b
}

/// The last position of `b` in `s`, or -1.
pub open spec fn last_index_of(s: Seq<u8>, b: u8) -> int
    decreases s.len(),
{
    if s.len() == 0 {
        -1
    } else if s.last() == b {
        s.len() - 1
    } else {
        last_index_of(s.drop_last(), b)
    }
}

pub proof fn lemma_last_index_at(s: Seq<u8>, b: u8, j: int)
    requires
        0 <= j < s.len(),
        s[j] == b,
        forall|k: int| j < k < s.len() ==> s[k] != b,
    ensures
        last_index_of(s, b) == j,
    decreases s.len(),
{
    if j < s.len() - 1 {
        lemma_last_index_at(s.drop_last(), b, j);
    }
}

pub proof fn lemma_last_index_none(s: Seq<u8>, b: u8)
    requires
        forall|k: int| 0 <= k < s.len() ==> s[k] != b,
    ensures
        last_index_of(s, b) == -1,
    decreases s.len(),
{
    if s.len() > 0 {
        lemma_last_index_none(s.drop_last(), b);
    }
}

/// Finds the last occurrence of `b` in `s`.
pub fn rfind_byte(s: &[u8], b: u8) -> (r: Option<usize>)
    ensures
        match r {
            Some(j) => j < s@.len() && s@[j as int] == b && last_index_of(s@, b) == j,
            None => !has_byte(s@, b) && last_index_of(s@, b) == -1,
        },
{
    let mut j = s.len();
    while j > 0
        invariant
            j <= s@.len(),
            forall|k: int| j <= k < s@.len() ==> s@[k] != b,
        decreases j,
    {
        j -= 1;
        if s[j] == b {
            proof {
                lemma_last_index_at(s@, b, j as int);
            }
            return Some(j);
        }
    }
    proof {
        lemma_last_index_none(s@, b);
    }
    None
}

// ---------------------------------------------------------------------------
// ASCII text
// ---------------------------------------------------------------------------

/// All bytes are seven-bit ASCII.
pub open spec fn all_ascii(s: Seq<u8>) -> bool {
    forall|i: int| 0 <= i < s.len() ==> s[i] < 128
}

/// ASCII bytes read as the characters with the same codes.
pub open spec fn ascii_chars(s: Seq<u8>) -> Seq<char> {
    s.map_values(|b: u8| b as char)
}

// ---------------------------------------------------------------------------
// Radix parsing
// ---------------------------------------------------------------------------

/// Value of one decimal digit byte, or -1.
pub open spec fn dec_digit_val(b: u8) -> int {
    if 48 <= b && b <= 57 {
        b - 48
    } else {
        -1
    }
}

/// Value of one hexadecimal digit byte (either case), or -1.
pub open spec fn hex_digit_val(b: u8) -> int {
    if 48 <= b && b <= 57 {
        b - 48
    } else if 65 <= b && b <= 70 {
        b - 55
    } else if 97 <= b && b <= 102 {
        b - 87
    } else {
        -1
    }
}

/// Value of a digit string under `dv`, most significant digit first.
pub open spec fn digits_val(s: Seq<u8>, base: int, dv: spec_fn(u8) -> int) -> int
    decreases s.len(),
{
    if s.len() == 0 {
        0
    } else {
        digits_val(s.drop_last(), base, dv) * base + dv(s.last())
    }
}

/// The string is nonempty and all bytes are digits under `dv`.
pub open spec fn all_digits(s: Seq<u8>, dv: spec_fn(u8) -> int) -> bool {
    s.len() > 0 && forall|i: int| 0 <= i < s.len() ==> dv(#[trigger] s[i]) >= 0
}

/// What parsing a nonnegative integer yields: the value, if the string is a
/// nonempty digit string whose value fits below `max`; otherwise nothing.
pub open spec fn parse_val(s: Seq<u8>, base: int, dv: spec_fn(u8) -> int, max: int) -> Option<
    int,
> {
    if all_digits(s, dv) && digits_val(s, base, dv) <= max {
        Some(digits_val(s, base, dv))
    } else {
        None
    }
}

/// The hexadecimal digit-value function.
pub open spec fn hex_dv() -> spec_fn(u8) -> int {
    |b: u8| hex_digit_val(b)
}

/// The decimal digit-value function.
pub open spec fn dec_dv() -> spec_fn(u8) -> int {
    |b: u8| dec_digit_val(b)
}

/// Parse of a hexadecimal string bounded by `max`.
pub open spec fn parse_hex_opt(s: Seq<u8>, max: int) -> Option<int> {
    parse_val(s, 16, hex_dv(), max)
}

/// Parse of a decimal string bounded by `max`.
pub open spec fn parse_dec_opt(s: Seq<u8>, max: int) -> Option<int> {
    parse_val(s, 10, dec_dv(), max)
}

pub proof fn lemma_digits_val_nonneg(s: Seq<u8>, base: int, dv: spec_fn(u8) -> int)
    requires
        base >= 2,
        forall|i: int| 0 <= i < s.len() ==> dv(#[trigger] s[i]) >= 0,
    ensures
        digits_val(s, base, dv) >= 0,
    decreases s.len(),
{
    if s.len() > 0 {
        lemma_digits_val_nonneg(s.drop_last(), base, dv);
        assert(digits_val(s.drop_last(), base, dv) * base >= 0) by (nonlinear_arith)
            requires
                digits_val(s.drop_last(), base, dv) >= 0,
                base >= 2,
        ;
    }
}

fn parse_radix_u64(s: &[u8], hex: bool) -> (r: Option<u64>)
    ensures
        hex ==> r == match parse_hex_opt(s@, u64::MAX as int) {
            Some(v) => Some(v as u64),
            None => None::<u64>,
        },
        !hex ==> r == match parse_dec_opt(s@, u64::MAX as int) {
            Some(v) => Some(v as u64),
            None => None::<u64>,
        },
{
    let ghost dv: spec_fn(u8) -> int = if hex {
        hex_dv()
    } else {
        dec_dv()
    };
    let ghost base: int = if hex {
        16
    } else {
        10
    };
    let n = s.len();
    if n == 0 {
        return None;
    }
    let mut acc: u64 = 0;
    let mut over = false;
    let mut i: usize = 0;
    while i < n
        invariant
            n == s@.len(),
            0 < n,
            i <= n,
            base == if hex { 16int } else { 10int },
            dv == (if hex {
                hex_dv()
            } else {
                dec_dv()
            }),
            forall|j: int| 0 <= j < i ==> dv(#[trigger] s@[j]) >= 0,
            !over ==> acc == digits_val(s@.subrange(0, i as int), base, dv),
            over ==> digits_val(s@.subrange(0, i as int), base, dv) > u64::MAX as int,
        decreases n - i,
    {
        let b = s[i];
        let d: u64 = if hex {
            if 48 <= b && b <= 57 {
                (b - 48) as u64
            } else if 65 <= b && b <= 70 {
                (b - 55) as u64
            } else if 97 <= b && b <= 102 {
                (b - 87) as u64
            } else {
                return None;
            }
        } else {
            if 48 <= b && b <= 57 {
                (b - 48) as u64
            } else {
                return None;
            }
        };
        proof {
            assert(d == dv(b));
            let pre = s@.subrange(0, i as int);
            let pre2 = s@.subrange(0, i as int + 1);
            assert(pre2.drop_last() =~= pre);
            assert(pre2.last() == b);
            assert(digits_val(pre2, base, dv) == digits_val(pre, base, dv) * base + dv(b));
        }
        let mul: u64 = if hex {
            16
        } else {
            10
        };
        if !over {
            match acc.checked_mul(mul) {
                Some(m) => match m.checked_add(d) {
                    Some(sum) => {
                        acc = sum;
                    },
                    None => {
                        over = true;
                    },
                },
                None => {
                    proof {
                        let pre = s@.subrange(0, i as int);
                        assert(digits_val(pre, base, dv) * base + dv(b) > u64::MAX as int);
                    }
                    over = true;
                },
            }
        } else {
            proof {
                let pre = s@.subrange(0, i as int);
                let v = digits_val(pre, base, dv);
                assert(v * base > u64::MAX as int) by (nonlinear_arith)
                    requires
                        v > u64::MAX as int,
                        base >= 10,
                ;
            }
        }
        i += 1;
    }
    proof {
        assert(s@.subrange(0, n as int) =~= s@);
    }
    if over {
        None
    } else {
        Some(acc)
    }
}

/// Parses a hexadecimal string; `None` on empty, non-digit, or overflow.
pub fn parse_hex_u64(s: &[u8]) -> (r: Option<u64>)
    ensures
        r == match parse_hex_opt(s@, u64::MAX as int) {
            Some(v) => Some(v as u64),
            None => None::<u64>,
        },
{
    parse_radix_u64(s, true)
}

/// Parses a decimal string; `None` on empty, non-digit, or overflow.
pub fn parse_dec_u64(s: &[u8]) -> (r: Option<u64>)
    ensures
        r == match parse_dec_opt(s@, u64::MAX as int) {
            Some(v) => Some(v as u64),
            None => None::<u64>,
        },
{
    parse_radix_u64(s, false)
}

// ---------------------------------------------------------------------------
// Field values with fallback
// ---------------------------------------------------------------------------

/// A hexadecimal field read as `u32`; malformed or overlarge fields read as 0.
pub open spec fn hex_u32_or_zero(s: Seq<u8>) -> u32 {
    match parse_hex_opt(s, u32::MAX as int) {
        Some(v) => v as u32,
        None => 0u32,
    }
}

/// A hexadecimal field read as `u16`; malformed or overlarge fields read as 0.
pub open spec fn hex_u16_or_zero(s: Seq<u8>) -> u16 {
    match parse_hex_opt(s, u16::MAX as int) {
        Some(v) => v as u16,
        None => 0u16,
    }
}

/// A decimal field read as `u64`; malformed or overlarge fields read as 0.
pub open spec fn dec_u64_or_zero(s: Seq<u8>) -> u64 {
    match parse_dec_opt(s, u64::MAX as int) {
        Some(v) => v as u64,
        None => 0u64,
    }
}

/// A decimal field read as `u32`; malformed or overlarge fields read as 0.
pub open spec fn dec_u32_or_zero(s: Seq<u8>) -> u32 {
    match parse_dec_opt(s, u32::MAX as int) {
        Some(v) => v as u32,
        None => 0u32,
    }
}

/// A decimal field read strictly as `u16`.
pub open spec fn dec_u16_opt(s: Seq<u8>) -> Option<u16> {
    match parse_dec_opt(s, u16::MAX as int) {
        Some(v) => Some(v as u16),
        None => None,
    }
}

/// A parse bounded by `u64::MAX` determines the parses at lower bounds.
proof fn lemma_parse_bounds(s: Seq<u8>, hex: bool)
    ensures
        hex ==> forall|m: int|
            0 <= m <= u64::MAX as int ==> #[trigger] parse_hex_opt(s, m) == (
            match parse_hex_opt(s, u64::MAX as int) {
                Some(v) => if v <= m {
                    Some(v)
                } else {
                    None
                },
                None => None,
            }),
        !hex ==> forall|m: int|
            0 <= m <= u64::MAX as int ==> #[trigger] parse_dec_opt(s, m) == (
            match parse_dec_opt(s, u64::MAX as int) {
                Some(v) => if v <= m {
                    Some(v)
                } else {
                    None
                },
                None => None,
            }),
        hex ==> (parse_hex_opt(s, u64::MAX as int) matches Some(v) ==> v >= 0),
        !hex ==> (parse_dec_opt(s, u64::MAX as int) matches Some(v) ==> v >= 0),
{
    if all_digits(s, hex_dv()) {
        lemma_digits_val_nonneg(s, 16, hex_dv());
    }
    if all_digits(s, dec_dv()) {
        lemma_digits_val_nonneg(s, 10, dec_dv());
    }
}

pub fn hex_u32_field(s: &[u8]) -> (r: u32)
    ensures
        r == hex_u32_or_zero(s@),
{
    proof {
        lemma_parse_bounds(s@, true);
    }
    match parse_hex_u64(s) {
        Some(v) => if v <= 0xFFFF_FFFF {
            v as u32
        } else {
            0
        },
        None => 0,
    }
}

pub fn hex_u16_field(s: &[u8]) -> (r: u16)
    ensures
        r == hex_u16_or_zero(s@),
{
    proof {
        lemma_parse_bounds(s@, true);
    }
    match parse_hex_u64(s) {
        Some(v) => if v <= 0xFFFF {
            v as u16
        } else {
            0
        },
        None => 0,
    }
}

pub fn dec_u64_field(s: &[u8]) -> (r: u64)
    ensures
        r == dec_u64_or_zero(s@),
{
    match parse_dec_u64(s) {
        Some(v) => v,
        None => 0,
    }
}

pub fn dec_u32_field(s: &[u8]) -> (r: u32)
    ensures
        r == dec_u32_or_zero(s@),
{
    proof {
        lemma_parse_bounds(s@, false);
    }
    match parse_dec_u64(s) {
        Some(v) => if v <= 0xFFFF_FFFF {
            v as u32
        } else {
            0
        },
        None => 0,
    }
}

pub fn dec_u16_strict(s: &[u8]) -> (r: Option<u16>)
    ensures
        r == dec_u16_opt(s@),
{
    proof {
        lemma_parse_bounds(s@, false);
    }
    match parse_dec_u64(s) {
        Some(v) => if v <= 0xFFFF {
            Some(v as u16)
        } else {
            None
        },
        None => None,
    }
}

// ---------------------------------------------------------------------------
// Decimal rendering
// ---------------------------------------------------------------------------

/// The character for one decimal digit.
pub open spec fn dec_char(d: int) -> char {
    if d == 0 {
        '0'
    } else if d == 1 {
        '1'
    } else if d == 2 {
        '2'
    } else if d == 3 {
        '3'
    } else if d == 4 {
        '4'
    } else if d == 5 {
        '5'
    } else if d == 6 {
        '6'
    } else if d == 7 {
        '7'
    } else if d == 8 {
        '8'
    } else {
        '9'
    }
}

/// Decimal rendering of a nonnegative integer, as characters.
pub open spec fn dec_chars(n: int) -> Seq<char>
    decreases n,
{
    if n < 10 {
        seq![dec_char(n)]
    } else {
        dec_chars(n / 10) + seq![dec_char(n % 10)]
    }
}

/// Decimal rendering of a nonnegative integer, as ASCII bytes.
pub open spec fn dec_bytes(n: int) -> Seq<u8>
    decreases n,
{
    if n < 10 {
        seq![(48 + if n < 0 { 0int } else { n }) as u8]
    } else {
        dec_bytes(n / 10) + seq![(48 + n % 10) as u8]
    }
}

fn push_dec_char(s: &mut String, d: u64)
    requires
        d < 10,
    ensures
        final(s)@ == old(s)@ + seq![dec_char(d as int)],
{
    if d == 0 {
        proof {
            reveal_strlit("0");
        }
        s.append("0");
    } else if d == 1 {
        proof {
            reveal_strlit("1");
        }
        s.append("1");
    } else if d == 2 {
        proof {
            reveal_strlit("2");
        }
        s.append("2");
    } else if d == 3 {
        proof {
            reveal_strlit("3");
        }
        s.append("3");
    } else if d == 4 {
        proof {
            reveal_strlit("4");
        }
        s.append("4");
    } else if d == 5 {
        proof {
            reveal_strlit("5");
        }
        s.append("5");
    } else if d == 6 {
        proof {
            reveal_strlit("6");
        }
        s.append("6");
    } else if d == 7 {
        proof {
            reveal_strlit("7");
        }
        s.append("7");
    } else if d == 8 {
        proof {
            reveal_strlit("8");
        }
        s.append("8");
    } else {
        proof {
            reveal_strlit("9");
        }
        s.append("9");
    }
    proof {
        assert(final(s)@ =~= old(s)@ + seq![dec_char(d as int)]);
    }
}

/// Appends the decimal rendering of `v` to `s`.
pub fn push_dec_u64(s: &mut String, v: u64)
    ensures
        final(s)@ == old(s)@ + dec_chars(v as int),
    decreases v,
{
    if v < 10 {
        push_dec_char(s, v);
    } else {
        push_dec_u64(s, v / 10);
        push_dec_char(s, v % 10);
        proof {
            assert(final(s)@ =~= old(s)@ + dec_chars(v as int));
        }
    }
}

/// Appends the decimal rendering of `v` to `out`, as ASCII bytes.
pub fn push_dec_bytes(out: &mut Vec<u8>, v: u64)
    ensures
        final(out)@ == old(out)@ + dec_bytes(v as int),
    decreases v,
{
    if v < 10 {
        out.push(48 + (v as u8));
        proof {
            assert(final(out)@ =~= old(out)@ + dec_bytes(v as int));
        }
    } else {
        push_dec_bytes(out, v / 10);
        out.push(48 + ((v % 10) as u8));
        proof {
            assert(final(out)@ =~= old(out)@ + dec_bytes(v as int));
        }
    }
}

// ---------------------------------------------------------------------------
// Dotted-decimal addresses
// ---------------------------------------------------------------------------

/// Dotted-decimal form of a 32-bit address stored low byte first: the
/// least-significant byte becomes the first octet.
pub open spec fn ipv4_chars(addr: u32) -> Seq<char> {
    dec_chars((addr & 0xFF) as int) + seq!['.'] + dec_chars(((addr >> 8) & 0xFF) as int)
        + seq!['.'] + dec_chars(((addr >> 16) & 0xFF) as int) + seq!['.'] + dec_chars(
        ((addr >> 24) & 0xFF) as int,
    )
}

/// Renders a 32-bit address, low byte first, as dotted decimal.
pub fn format_ipv4_le(addr: u32) -> (r: String)
    ensures
        r@ == ipv4_chars(addr),
{
    let mut s = String::new();
    proof {
        reveal_strlit(".");
    }
    push_dec_u64(&mut s, (addr & 0xFF) as u64);
    s.append(".");
    push_dec_u64(&mut s, ((addr >> 8) & 0xFF) as u64);
    s.append(".");
    push_dec_u64(&mut s, ((addr >> 16) & 0xFF) as u64);
    s.append(".");
    push_dec_u64(&mut s, ((addr >> 24) & 0xFF) as u64);
    proof {
        assert(s@ =~= ipv4_chars(addr));
    }
    s
}

// ---------------------------------------------------------------------------
// Socket-inode links
// ---------------------------------------------------------------------------

/// The text `socket:[<inode>]`, as bytes: what a process's file-descriptor
/// link target holds when the descriptor is the socket with that inode.
pub open spec fn socket_needle(inode: u64) -> Seq<u8> {
    seq![115u8, 111u8, 99u8, 107u8, 101u8, 116u8, 58u8, 91u8] + dec_bytes(inode as int)
        + seq![93u8]
}

/// Whether a file-descriptor link target points at the socket with the
/// given inode, i.e. contains `socket:[<inode>]`.
pub fn link_targets_socket(link: &[u8], inode: u64) -> (r: bool)
    ensures
        r == contains_seq(link@, socket_needle(inode)),
{
    let mut needle: Vec<u8> = Vec::new();
    needle.push(115);
    needle.push(111);
    needle.push(99);
    needle.push(107);
    needle.push(101);
    needle.push(116);
    needle.push(58);
    needle.push(91);
    push_dec_bytes(&mut needle, inode);
    needle.push(93);
    proof {
        assert(needle@ =~= socket_needle(inode));
    }
    find_subslice(link, needle.as_slice())
}

} // verus!
