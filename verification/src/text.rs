//! Text on its own: the byte order of strings, lists joined by commas,
//! lower-case hexadecimal and decimal numerals.
use vstd::prelude::*;
use vstd::utf8::encode_utf8;

verus! {

/// Lexicographic order on byte strings, the order of `str` in Rust and of
/// text under a byte-wise collation.
pub open spec fn bytes_lt(a: Seq<u8>, b: Seq<u8>) -> bool
    decreases a.len(),
{
    if b.len() == 0 {
        false
    } else if a.len() == 0 {
        true
    } else if a[0] != b[0] {
        a[0] < b[0]
    } else {
        bytes_lt(a.drop_first(), b.drop_first())
    }
}

/// `a` sorts strictly before `b` when both are compared as UTF-8 bytes.
pub open spec fn text_lt(a: Seq<char>, b: Seq<char>) -> bool {
    bytes_lt(encode_utf8(a), encode_utf8(b))
}

pub proof fn lemma_bytes_lt_transitive(a: Seq<u8>, b: Seq<u8>, c: Seq<u8>)
    requires
        bytes_lt(a, b),
        bytes_lt(b, c),
    ensures
        bytes_lt(a, c),
    decreases a.len(),
{
    if a.len() > 0 && b.len() > 0 && c.len() > 0 && a[0] == b[0] && b[0] == c[0] {
        lemma_bytes_lt_transitive(a.drop_first(), b.drop_first(), c.drop_first());
    }
}

pub proof fn lemma_bytes_lt_irreflexive(a: Seq<u8>)
    ensures
        !bytes_lt(a, a),
    decreases a.len(),
{
    if a.len() > 0 {
        lemma_bytes_lt_irreflexive(a.drop_first());
    }
}

/// "Not before" is transitive: it is the order `>=`.
pub proof fn lemma_bytes_not_lt_transitive(a: Seq<u8>, b: Seq<u8>, c: Seq<u8>)
    requires
        !bytes_lt(a, b),
        !bytes_lt(b, c),
    ensures
        !bytes_lt(a, c),
    decreases a.len(),
{
    if a.len() > 0 && b.len() > 0 && c.len() > 0 && a[0] == b[0] && b[0] == c[0] {
        lemma_bytes_not_lt_transitive(a.drop_first(), b.drop_first(), c.drop_first());
    }
}

/// Whether `a` sorts strictly before `b`, comparing their UTF-8 bytes.
pub fn text_less(a: &str, b: &str) -> (r: bool)
    ensures
        r == text_lt(a@, b@),
{
    let x = a.as_bytes();
    let y = b.as_bytes();
    let mut i: usize = 0;
    assert(x@.skip(0) =~= x@);
    assert(y@.skip(0) =~= y@);
    while i < x.len() && i < y.len() && x[i] == y[i]
        invariant
            i <= x@.len(),
            i <= y@.len(),
            x@ == encode_utf8(a@),
            y@ == encode_utf8(b@),
            bytes_lt(x@, y@) == bytes_lt(x@.skip(i as int), y@.skip(i as int)),
        decreases x@.len() - i,
    {
        assert(x@.skip(i as int).drop_first() =~= x@.skip(i + 1));
        assert(y@.skip(i as int).drop_first() =~= y@.skip(i + 1));
        i = i + 1;
    }
    if i < x.len() && i < y.len() {
        x[i] < y[i]
    } else {
        i == x.len() && i < y.len()
    }
}


/// The pieces of `s` between commas, as `str::split(',')` gives them: one
/// more piece than there are commas.
pub open spec fn split_commas(s: Seq<char>) -> Seq<Seq<char>>
    decreases s.len(),
{
    if s.len() == 0 {
        seq![Seq::<char>::empty()]
    } else {
        let pre = split_commas(s.drop_last());
        if s.last() == ',' {
            pre.push(Seq::<char>::empty())
        } else {
            pre.update(pre.len() - 1, pre.last().push(s.last()))
        }
    }
}

/// `s` holds no comma.
pub open spec fn comma_free(s: Seq<char>) -> bool {
    forall|i: int| 0 <= i < s.len() ==> s[i] != ','
}

pub proof fn lemma_split_commas_nonempty(s: Seq<char>)
    ensures
        split_commas(s).len() >= 1,
    decreases s.len(),
{
    if s.len() > 0 {
        lemma_split_commas_nonempty(s.drop_last());
    }
}

/// A text without commas is one piece.
pub proof fn lemma_split_comma_free(s: Seq<char>)
    requires
        comma_free(s),
    ensures
        split_commas(s) == seq![s],
    decreases s.len(),
{
    if s.len() > 0 {
        lemma_split_comma_free(s.drop_last());
        assert(s.drop_last().push(s.last()) =~= s);
    } else {
        assert(s =~= Seq::<char>::empty());
    }
}

/// Appending a comma and a comma-free text appends one piece.
pub proof fn lemma_split_append(a: Seq<char>, m: Seq<char>)
    requires
        comma_free(m),
    ensures
        split_commas(a + seq![','] + m) == split_commas(a).push(m),
    decreases m.len(),
{
    let s = a + seq![','] + m;
    if m.len() == 0 {
        assert(s.drop_last() =~= a);
        assert(m =~= Seq::<char>::empty());
    } else {
        let m2 = m.drop_last();
        lemma_split_append(a, m2);
        assert(s.drop_last() =~= a + seq![','] + m2);
        lemma_split_commas_nonempty(a);
        assert(m2.push(m.last()) =~= m);
        assert(split_commas(s) =~= split_commas(a).push(m));
    }
}

/// `str::split(',')`, each piece collected into a `String`.
pub fn split_on_commas(s: &str) -> (r: Vec<String>)
    ensures
        r@.map_values(|p: String| p@) == split_commas(s@),
{
    let mut pieces: Vec<String> = Vec::new();
    let mut cur: Vec<char> = Vec::new();
    let ghost text = s@;
    for c in it: s.chars()
        invariant
            it.seq() == text,
            text == s@,
            pieces@.map_values(|p: String| p@).push(cur@) == split_commas(
                text.take(it.index() as int),
            ),
    {
        let ghost i = it.index();
        proof {
            assert(text.take(i + 1).drop_last() =~= text.take(i as int));
            lemma_split_commas_nonempty(text.take(i as int));
        }
        if c == ',' {
            let piece = crate::wrappers::string_from_chars(&cur);
            pieces.push(piece);
            cur = Vec::new();
            proof {
                assert(pieces@.map_values(|p: String| p@).push(cur@) =~= split_commas(
                    text.take(i + 1),
                ));
            }
        } else {
            cur.push(c);
            proof {
                assert(pieces@.map_values(|p: String| p@).push(cur@) =~= split_commas(
                    text.take(i + 1),
                ));
            }
        }
    }
    proof {
        assert(text.take(text.len() as int) =~= text);
    }
    let last = crate::wrappers::string_from_chars(&cur);
    pieces.push(last);
    proof {
        assert(pieces@.map_values(|p: String| p@) =~= split_commas(text));
    }
    pieces
}


/// The lower-case hexadecimal digit for `n` (below 16).
pub open spec fn hex_digit(n: int) -> char {
    if n < 10 {
        (48 + n) as char
    } else {
        (87 + n) as char
    }
}

/// Each byte as two lower-case hexadecimal digits, high nibble first: what
/// `format!("{:x}", ..)` writes for a digest.
pub open spec fn hex_lower(b: Seq<u8>) -> Seq<char>
    decreases b.len(),
{
    if b.len() == 0 {
        Seq::empty()
    } else {
        hex_lower(b.drop_last()) + seq![hex_digit((b.last() / 16) as int), hex_digit((b.last() % 16) as int)]
    }
}

fn hex_char(n: u8) -> (c: char)
    requires
        n < 16,
    ensures
        c == hex_digit(n as int),
{
    if n < 10 {
        (n + 48) as char
    } else {
        (n + 87) as char
    }
}

/// Two digits for each byte.
pub proof fn lemma_hex_lower_len(b: Seq<u8>)
    ensures
        hex_lower(b).len() == 2 * b.len(),
    decreases b.len(),
{
    if b.len() > 0 {
        lemma_hex_lower_len(b.drop_last());
    }
}

/// The lower-case hexadecimal text of a byte string.
pub fn to_hex_lower(b: &[u8]) -> (r: String)
    ensures
        r@ == hex_lower(b@),
        r@.len() == 2 * b@.len(),
{
    let mut out: Vec<char> = Vec::new();
    let mut i: usize = 0;
    while i < b.len()
        invariant
            i <= b@.len(),
            out@ == hex_lower(b@.take(i as int)),
        decreases b@.len() - i,
    {
        proof {
            assert(b@.take(i + 1).drop_last() =~= b@.take(i as int));
        }
        out.push(hex_char(b[i] / 16));
        out.push(hex_char(b[i] % 16));
        proof {
            assert(out@ =~= hex_lower(b@.take(i + 1)));
        }
        i = i + 1;
    }
    proof {
        assert(b@.take(b@.len() as int) =~= b@);
        lemma_hex_lower_len(b@);
    }
    crate::wrappers::string_from_chars(&out)
}

/// The decimal digit for `d` (below 10).
pub open spec fn decimal_digit(d: int) -> char {
    (48 + d) as char
}

/// `c` is one of the ASCII digits.
pub open spec fn is_digit(c: char) -> bool {
    '0' <= c <= '9'
}

/// The decimal numeral of `n`, without leading zeros.
pub open spec fn decimal(n: nat) -> Seq<char>
    decreases n,
{
    if n < 10 {
        seq![decimal_digit(n as int)]
    } else {
        decimal(n / 10).push(decimal_digit((n % 10) as int))
    }
}

/// The text that `to_string` gives for an integer: a minus sign for a
/// negative one, then the decimal numeral of its magnitude.
pub open spec fn int_text(v: int) -> Seq<char> {
    if v < 0 {
        seq!['-'] + decimal((-v) as nat)
    } else {
        decimal(v as nat)
    }
}

/// The value of a string of ASCII digits.
pub open spec fn digits_value(s: Seq<char>) -> int
    decreases s.len(),
{
    if s.len() == 0 {
        0
    } else {
        digits_value(s.drop_last()) * 10 + (s.last() as int - 48)
    }
}

/// Every char of `s` is an ASCII digit.
pub open spec fn all_digits(s: Seq<char>) -> bool {
    forall|i: int| 0 <= i < s.len() ==> is_digit(#[trigger] s[i])
}

/// The integer that a text spells as `i64::from_str` reads it: an optional
/// `+` or `-`, then one or more ASCII digits.
pub open spec fn int_of_text(s: Seq<char>) -> Option<int> {
    if s.len() > 0 && (s[0] == '+' || s[0] == '-') {
        let d = s.drop_first();
        if d.len() > 0 && all_digits(d) {
            Some(if s[0] == '-' { -digits_value(d) } else { digits_value(d) })
        } else {
            None
        }
    } else if s.len() > 0 && all_digits(s) {
        Some(digits_value(s))
    } else {
        None
    }
}

/// What `s.parse::<i64>()` gives: the integer the text spells, where it is
/// one and fits in an `i64`.
pub open spec fn i64_of_text(s: Seq<char>) -> Option<i64> {
    match int_of_text(s) {
        Some(v) => if i64::MIN <= v <= i64::MAX {
            Some(v as i64)
        } else {
            None
        },
        None => None,
    }
}

proof fn lemma_digits_value_nonneg(s: Seq<char>)
    requires
        all_digits(s),
    ensures
        digits_value(s) >= 0,
    decreases s.len(),
{
    if s.len() > 0 {
        assert(is_digit(s[s.len() - 1]));
        assert(all_digits(s.drop_last()));
        lemma_digits_value_nonneg(s.drop_last());
    }
}

fn push_decimal(n: u64, out: &mut Vec<char>)
    ensures
        final(out)@ == old(out)@ + decimal(n as nat),
    decreases n,
{
    if n >= 10 {
        push_decimal(n / 10, out);
    }
    let d = (n % 10) as u8;
    out.push((d + 48) as char);
    proof {
        if n >= 10 {
            assert(final(out)@ =~= old(out)@ + decimal(n as nat));
        } else {
            assert(final(out)@ =~= old(out)@ + decimal(n as nat));
        }
    }
}

/// `i64::to_string`: the decimal text of an integer.
pub fn i64_to_text(v: i64) -> (r: String)
    ensures
        r@ == int_text(v as int),
{
    let mut out: Vec<char> = Vec::new();
    if v < 0 {
        out.push('-');
        let m = (0i128 - v as i128) as u64;
        push_decimal(m, &mut out);
    } else {
        push_decimal(v as u64, &mut out);
    }
    proof {
        assert(out@ =~= int_text(v as int));
    }
    crate::wrappers::string_from_chars(&out)
}

/// `str::parse::<i64>`: the integer a text spells, where it is one that
/// fits in an `i64`.
pub fn parse_i64(s: &str) -> (r: Option<i64>)
    ensures
        r == i64_of_text(s@),
{
    let cap: u128 = 10_000_000_000_000_000_000;
    let mut acc: u128 = 0;
    let mut count_pos = false;
    let mut negative = false;
    let mut signed = false;
    let mut ok = true;
    let mut first = true;
    let ghost text = s@;
    for c in it: s.chars()
        invariant
            it.seq() == text,
            text == s@,
            cap == 10_000_000_000_000_000_000,
            first <==> it.index() == 0,
            signed ==> it.index() >= 1 && (text[0] == '+' || text[0] == '-'),
            !signed && it.index() >= 1 ==> !(text[0] == '+' || text[0] == '-'),
            negative <==> signed && text[0] == '-',
            count_pos <==> it.index() - (if signed { 1int } else { 0int }) > 0,
            ok <==> all_digits(text.take(it.index() as int).skip(if signed { 1int } else { 0int })),
            ok ==> acc == if digits_value(text.take(it.index() as int).skip(if signed { 1int } else { 0int })) < cap {
                digits_value(text.take(it.index() as int).skip(if signed { 1int } else { 0int }))
            } else {
                cap as int
            },
    {
        let ghost i = it.index();
        let ghost start: int = if signed { 1int } else { 0int };
        let ghost before = text.take(i as int).skip(start);
        if first && (c == '+' || c == '-') {
            signed = true;
            negative = c == '-';
            proof {
                assert(text.take(1).skip(1) =~= Seq::<char>::empty());
                assert(text[0] == c);
            }
        } else {
            proof {
                assert(text.take(i + 1).skip(start) =~= before.push(c));
                assert(before.push(c).drop_last() =~= before);
            }
            if ok && '0' <= c && c <= '9' {
                let d = (c as u32 - 48) as u128;
                proof {
                    lemma_digits_value_nonneg(before);
                    let v = digits_value(before);
                    if v >= cap {
                        assert(v * 10 + d >= cap) by (nonlinear_arith)
                            requires
                                v >= cap,
                                d >= 0,
                        ;
                    }
                }
                if acc < cap {
                    let next = acc * 10 + d;
                    acc = if next < cap { next } else { cap };
                }
            } else {
                ok = false;
                proof {
                    if '0' <= c && c <= '9' {
                    } else {
                        assert(!is_digit(before.push(c)[before.len() as int]));
                    }
                }
            }
            count_pos = true;
        }
        first = false;
    }
    let ghost start: int = if signed { 1int } else { 0int };
    proof {
        assert(text.take(text.len() as int) =~= text);
        if signed {
            assert(text.skip(1) =~= text.drop_first());
        } else {
            assert(text.skip(0) =~= text);
        }
        if ok {
            lemma_digits_value_nonneg(text.skip(start));
        }
    }
    if !ok || !count_pos {
        None
    } else if negative {
        if acc <= 9_223_372_036_854_775_808 {
            Some((0i128 - acc as i128) as i64)
        } else {
            None
        }
    } else {
        if acc <= 9_223_372_036_854_775_807 {
            Some(acc as i64)
        } else {
            None
        }
    }
}


proof fn lemma_decimal(n: nat)
    ensures
        decimal(n).len() > 0,
        all_digits(decimal(n)),
        digits_value(decimal(n)) == n,
    decreases n,
{
    if n >= 10 {
        lemma_decimal(n / 10);
        let s = decimal(n);
        assert(s.drop_last() =~= decimal(n / 10));
        assert(decimal_digit((n % 10) as int) as int == 48 + n % 10);
        assert(s.last() == decimal_digit((n % 10) as int));
        assert(digits_value(s) == digits_value(s.drop_last()) * 10 + (s.last() as int - 48));
        assert((n / 10) * 10 + n % 10 == n) by (nonlinear_arith);
        assert forall|i: int| 0 <= i < s.len() implies is_digit(#[trigger] s[i]) by {
            if i < s.len() - 1 {
                assert(s[i] == decimal(n / 10)[i]);
            }
        }
    } else {
        assert(decimal_digit(n as int) as int == 48 + n);
        assert(decimal(n).drop_last() =~= Seq::<char>::empty());
        assert(digits_value(Seq::<char>::empty()) == 0);
        assert(decimal(n).last() == decimal_digit(n as int));
    }
}

/// Reading back the text of an integer gives the integer.
pub proof fn lemma_int_text_roundtrip(v: i64)
    ensures
        i64_of_text(int_text(v as int)) == Some(v),
{
    if v < 0 {
        let m = (-v) as nat;
        lemma_decimal(m);
        let s = int_text(v as int);
        assert(s.drop_first() =~= decimal(m));
    } else {
        lemma_decimal(v as nat);
        assert(is_digit(decimal(v as nat)[0]));
    }
}


/// Every char is between U+0020 and U+007F.
pub open spec fn printable_ascii(s: Seq<char>) -> bool {
    forall|i: int| 0 <= i < s.len() ==> ' ' <= #[trigger] s[i] && s[i] <= '\u{7f}'
}

/// Whether every char of the text is between U+0020 and U+007F.
pub fn is_printable_ascii(s: &str) -> (r: bool)
    ensures
        r == printable_ascii(s@),
{
    let ghost text = s@;
    let mut ok = true;
    for c in it: s.chars()
        invariant
            it.seq() == text,
            text == s@,
            ok == printable_ascii(text.take(it.index() as int)),
    {
        let ghost i = it.index();
        proof {
            assert(text.take(i + 1) =~= text.take(i as int).push(c));
            if !printable_ascii(text.take(i as int)) {
                let k = choose|k: int| 0 <= k < i && !(' ' <= #[trigger] text.take(i as int)[k] && text.take(i as int)[k] <= '\u{7f}');
                assert(text.take(i + 1)[k] == text.take(i as int)[k]);
            }
            if !(' ' <= c && c <= '\u{7f}') {
                assert(text.take(i + 1)[i as int] == c);
            }
        }
        ok = ok && ' ' <= c && c <= '\u{7f}';
    }
    proof {
        assert(text.take(text.len() as int) =~= text);
    }
    ok
}


/// The chars that `char::is_whitespace` accepts: those with the Unicode
/// `White_Space` property.
pub open spec fn is_white_space(c: char) -> bool {
    ||| ('\u{9}' <= c && c <= '\u{d}')
    ||| c == ' '
    ||| c == '\u{85}'
    ||| c == '\u{a0}'
    ||| c == '\u{1680}'
    ||| ('\u{2000}' <= c && c <= '\u{200a}')
    ||| c == '\u{2028}'
    ||| c == '\u{2029}'
    ||| c == '\u{202f}'
    ||| c == '\u{205f}'
    ||| c == '\u{3000}'
}

/// How many white-space chars a text starts with.
pub open spec fn leading_white(s: Seq<char>) -> nat
    decreases s.len(),
{
    if s.len() > 0 && is_white_space(s[0]) {
        1 + leading_white(s.drop_first())
    } else {
        0
    }
}

/// How many white-space chars a text ends with.
pub open spec fn trailing_white(s: Seq<char>) -> nat
    decreases s.len(),
{
    if s.len() > 0 && is_white_space(s.last()) {
        1 + trailing_white(s.drop_last())
    } else {
        0
    }
}

/// What `str::trim` leaves of a text: the text without its leading and
/// trailing white space.
pub open spec fn trimmed(s: Seq<char>) -> Seq<char> {
    let t = s.skip(leading_white(s) as int);
    t.take(t.len() - trailing_white(t))
}

proof fn lemma_leading_white_bound(s: Seq<char>)
    ensures
        leading_white(s) <= s.len(),
        leading_white(s) < s.len() ==> !is_white_space(s[leading_white(s) as int]),
        forall|k: int| 0 <= k < leading_white(s) ==> is_white_space(#[trigger] s[k]),
    decreases s.len(),
{
    if s.len() > 0 && is_white_space(s[0]) {
        let t = s.drop_first();
        lemma_leading_white_bound(t);
        assert forall|k: int| 0 <= k < leading_white(s) implies is_white_space(#[trigger] s[k]) by {
            if k > 0 {
                assert(s[k] == t[k - 1]);
            }
        }
    }
}

proof fn lemma_trailing_white_bound(s: Seq<char>)
    ensures
        trailing_white(s) <= s.len(),
        trailing_white(s) < s.len() ==> !is_white_space(s[s.len() - 1 - trailing_white(s)]),
        forall|k: int| s.len() - trailing_white(s) <= k < s.len() ==> is_white_space(#[trigger] s[k]),
    decreases s.len(),
{
    if s.len() > 0 && is_white_space(s.last()) {
        let t = s.drop_last();
        lemma_trailing_white_bound(t);
        assert forall|k: int| s.len() - trailing_white(s) <= k < s.len() implies is_white_space(#[trigger] s[k]) by {
            if k < s.len() - 1 {
                assert(s[k] == t[k]);
            }
        }
    }
}

/// Where the text does not start with white space, none is counted.
proof fn lemma_leading_none(s: Seq<char>)
    requires
        s.len() == 0 || !is_white_space(s[0]),
    ensures
        leading_white(s) == 0,
{
}

proof fn lemma_trailing_none(s: Seq<char>)
    requires
        s.len() == 0 || !is_white_space(s.last()),
    ensures
        trailing_white(s) == 0,
{
}

/// Trimming twice is trimming once.
pub proof fn lemma_trimmed_idempotent(s: Seq<char>)
    ensures
        trimmed(trimmed(s)) == trimmed(s),
{
    let a = leading_white(s) as int;
    let t = s.skip(a);
    lemma_leading_white_bound(s);
    lemma_trailing_white_bound(t);
    let m = t.len() - trailing_white(t);
    let r = t.take(m);
    if m > 0 {
        assert(t[0] == s[a]);
        assert(r[0] == t[0]);
        assert(r.last() == t[m - 1]);
        assert(!is_white_space(t[t.len() - 1 - trailing_white(t)]));
    }
    lemma_leading_none(r);
    assert(r.skip(0) =~= r);
    lemma_trailing_none(r);
    assert(r.take(r.len() as int) =~= r);
}

/// `str::trim`: the text without leading and trailing white space.
pub fn trim(s: &str) -> (r: String)
    ensures
        r@ == trimmed(s@),
{
    let mut chars: Vec<char> = Vec::new();
    for c in it: s.chars()
        invariant
            it.seq() == s@,
            chars@ == it.seq().take(it.index() as int),
    {
        chars.push(c);
    }
    let ghost text = s@;
    proof {
        assert(text.take(text.len() as int) =~= text);
    }
    let n = chars.len();
    let mut i: usize = 0;
    proof {
        assert(text.skip(0) =~= text);
    }
    while i < n && is_white_char(chars[i])
        invariant
            chars@ == text,
            n == text.len(),
            i <= n,
            leading_white(text) == i + leading_white(text.skip(i as int)),
        decreases n - i,
    {
        assert(text.skip(i as int).drop_first() =~= text.skip(i + 1));
        i = i + 1;
    }
    let ghost t = text.skip(i as int);
    assert(leading_white(text) == i);
    let mut j: usize = n;
    proof {
        assert(t.take(t.len() as int) =~= t);
    }
    while j > i && is_white_char(chars[j - 1])
        invariant
            chars@ == text,
            n == text.len(),
            i <= j <= n,
            t == text.skip(i as int),
            trailing_white(t) == (n - j) + trailing_white(t.take(j - i)),
        decreases j - i,
    {
        assert(t.take(j - i).drop_last() =~= t.take(j - 1 - i));
        assert(t.take(j - i).last() == chars@[j - 1]);
        j = j - 1;
    }
    assert(trailing_white(t) == n - j);
    let mut out: Vec<char> = Vec::new();
    let mut k: usize = i;
    while k < j
        invariant
            chars@ == text,
            i <= k <= j <= n,
            n == text.len(),
            out@ == text.subrange(i as int, k as int),
        decreases j - k,
    {
        out.push(chars[k]);
        assert(text.subrange(i as int, k + 1) =~= text.subrange(i as int, k as int).push(chars@[k as int]));
        k = k + 1;
    }
    assert(out@ =~= trimmed(text));
    crate::wrappers::string_from_chars(&out)
}

/// `char::is_whitespace`.
fn is_white_char(c: char) -> (r: bool)
    ensures
        r == is_white_space(c),
{
    ('\u{9}' <= c && c <= '\u{d}') || c == ' ' || c == '\u{85}' || c == '\u{a0}' || c == '\u{1680}'
        || ('\u{2000}' <= c && c <= '\u{200a}') || c == '\u{2028}' || c == '\u{2029}'
        || c == '\u{202f}' || c == '\u{205f}' || c == '\u{3000}'
}

} // verus!
