//! Byte- and string-level helpers: substring search, decimal formatting and
//! parsing, ASCII case folding, and lexicographic comparison. These are the
//! primitives that the protocol parsers and the argv builders are specified
//! and proved against.

use vstd::prelude::*;

verus! {

use vstd::string::StringSliceAdditionalSpecFns;
use vstd::string::StrSliceExecFns;
use vstd::string::StringExecFns;


/// The decimal digit character for `d` (`d < 10`).
pub open spec fn dec_digit_char(d: nat) -> char {
    if d == 0 {
        '0'
    } else if d == 1 {
        '1'
    } else if d == 2 {
        '2'
    } else if d == 3 {
        '3'
    } else if d == 4 {
        '4'
    } else if d == 5 {
        '5'
    } else if d == 6 {
        '6'
    } else if d == 7 {
        '7'
    } else if d == 8 {
        '8'
    } else {
        '9'
    }
}

/// Decimal representation of `n`, most significant digit first, no sign,
/// no leading zeros (except for `n == 0`, which is `"0"`).
pub open spec fn dec_str(n: nat) -> Seq<char>
    decreases n,
{
    if n < 10 {
        seq![dec_digit_char(n)]
    } else {
        dec_str(n / 10).push(dec_digit_char(n % 10))
    }
}

/// Decimal representation of a signed value: a leading `-` for negatives.
pub open spec fn dec_str_signed(n: int) -> Seq<char> {
    if n < 0 {
        seq!['-'] + dec_str((-n) as nat)
    } else {
        dec_str(n as nat)
    }
}

/// `s` left-padded with `'0'` up to width `w`.
pub open spec fn pad_zeros(s: Seq<char>, w: nat) -> Seq<char>
    decreases w - s.len(),
{
    if s.len() >= w {
        s
    } else {
        pad_zeros(seq!['0'] + s, w)
    }
}

fn digit_literal(d: u64) -> (r: &'static str)
    requires
        d < 10,
    ensures
        r@ == seq![dec_digit_char(d as nat)],
{
    let r: &'static str = if d == 0 {
        "0"
    } else if d == 1 {
        "1"
    } else if d == 2 {
        "2"
    } else if d == 3 {
        "3"
    } else if d == 4 {
        "4"
    } else if d == 5 {
        "5"
    } else if d == 6 {
        "6"
    } else if d == 7 {
        "7"
    } else if d == 8 {
        "8"
    } else {
        "9"
    };
    proof {
        reveal_strlit("0");
        reveal_strlit("1");
        reveal_strlit("2");
        reveal_strlit("3");
        reveal_strlit("4");
        reveal_strlit("5");
        reveal_strlit("6");
        reveal_strlit("7");
        reveal_strlit("8");
        reveal_strlit("9");
        assert(r@ =~= seq![dec_digit_char(d as nat)]);
    }
    r
}

/// Render `n` in decimal.
pub fn u64_to_string(n: u64) -> (r: String)
    ensures
        r@ == dec_str(n as nat),
    decreases n,
{
    if n < 10 {
        String::from_str(digit_literal(n))
    } else {
        let mut s = u64_to_string(n / 10);
        s.append(digit_literal(n % 10));
        s
    }
}

/// Render a signed value in decimal.
pub fn i64_to_string(n: i64) -> (r: String)
    ensures
        r@ == dec_str_signed(n as int),
{
    if n < 0 {
        let mag: u64 = (-(n as i128)) as u64;
        let mut s = String::from_str("-");
        proof {
            reveal_strlit("-");
            assert(s@ =~= seq!['-']);
        }
        s.append(u64_to_string(mag).as_str());
        s
    } else {
        u64_to_string(n as u64)
    }
}

/// Render `n` in decimal, left-padded with zeros to at least `w` characters.
pub fn u64_to_padded_string(n: u64, w: usize) -> (r: String)
    requires
        w <= 8,
    ensures
        r@ == pad_zeros(dec_str(n as nat), w as nat),
{
    let digits = u64_to_string(n);
    let mut len = digits.as_str().unicode_len();
    let mut prefix = String::new();
    while len < w
        invariant
            w <= 8,
            prefix@.len() + digits@.len() >= len,
            len >= digits@.len(),
            len == prefix@.len() + digits@.len(),
            pad_zeros(prefix@ + digits@, w as nat) == pad_zeros(digits@, w as nat),
        decreases w - len,
    {
        let mut p2 = String::from_str("0");
        proof {
            reveal_strlit("0");
            assert(p2@ =~= seq!['0']);
        }
        p2.append(prefix.as_str());
        proof {
            assert((p2@ + digits@) =~= seq!['0'] + (prefix@ + digits@));
        }
        prefix = p2;
        len = len + 1;
    }
    prefix.append(digits.as_str());
    proof {
        if prefix@.len() == 0 {
            assert((prefix@ + digits@) =~= digits@);
        }
    }
    prefix
}

/// Index of the first occurrence of `n` in `h` at or after `from`.
pub open spec fn find_spec(h: Seq<u8>, n: Seq<u8>, from: int) -> Option<int>
    decreases h.len() - from,
{
    if from < 0 || from + n.len() > h.len() {
        None
    } else if h.subrange(from, from + n.len()) =~= n {
        Some(from)
    } else {
        find_spec(h, n, from + 1)
    }
}

/// `n` occurs somewhere in `h`.
pub open spec fn has_sub(h: Seq<u8>, n: Seq<u8>) -> bool {
    find_spec(h, n, 0) is Some
}

/// Find the first occurrence of `n` in `h` at or after `from`.
pub fn find_sub_from(h: &Vec<u8>, n: &Vec<u8>, from: usize) -> (r: Option<usize>)
    ensures
        match r {
            Some(i) => find_spec(h@, n@, from as int) == Some(i as int) && i + n@.len() <= h@.len(),
            None => find_spec(h@, n@, from as int) is None,
        },
{
    let hlen = h.len();
    let nlen = n.len();
    if nlen > hlen || from > hlen - nlen {
        proof {
            lemma_find_spec_none_when_out(h@, n@, from as int);
        }
        return None;
    }
    let mut i = from;
    loop
        invariant
            hlen == h@.len(),
            nlen == n@.len(),
            from <= i <= hlen - nlen,
            nlen <= hlen,
            find_spec(h@, n@, from as int) == find_spec(h@, n@, i as int),
        decreases hlen - nlen - i,
    {
        let mut j: usize = 0;
        let mut ok = true;
        while j < nlen
            invariant
                hlen == h@.len(),
                nlen == n@.len(),
                i + nlen <= hlen,
                j <= nlen,
                ok <==> (forall|k: int| 0 <= k < j ==> h@[i + k] == n@[k]),
            decreases nlen - j,
        {
            if h[i + j] != n[j] {
                ok = false;
                proof {
                    assert(!(forall|k: int| 0 <= k < j + 1 ==> h@[i + k] == n@[k])) by {
                        assert(h@[i + j as int] != n@[j as int]);
                    }
                }
                j = nlen;
            } else {
                j = j + 1;
            }
        }
        if ok {
            proof {
                assert(h@.subrange(i as int, i + n@.len()) =~= n@);
            }
            return Some(i);
        }
        proof {
            assert(!(h@.subrange(i as int, i + n@.len()) =~= n@)) by {
                assert(exists|k: int| 0 <= k < n@.len() && h@[i + k] != n@[k]);
                let k = choose|k: int| 0 <= k < n@.len() && h@[i + k] != n@[k];
                assert(h@.subrange(i as int, i + n@.len())[k] == h@[i + k]);
            }
            assert(find_spec(h@, n@, i as int) == find_spec(h@, n@, i + 1));
        }
        if i == hlen - nlen {
            proof {
                lemma_find_spec_none_when_out(h@, n@, i + 1);
            }
            return None;
        }
        i = i + 1;
    }
}

/// A found index lies within the haystack.
pub proof fn lemma_find_some_bounds(h: Seq<u8>, n: Seq<u8>, from: int, i: int)
    requires
        find_spec(h, n, from) == Some(i),
    ensures
        from <= i,
        0 <= i,
        i + n.len() <= h.len(),
    decreases h.len() - from,
{
    if !(from < 0 || from + n.len() > h.len()) {
        if h.subrange(from, from + n.len()) =~= n {
        } else {
            lemma_find_some_bounds(h, n, from + 1, i);
        }
    }
}

proof fn lemma_find_spec_none_when_out(h: Seq<u8>, n: Seq<u8>, from: int)
    requires
        from + n.len() > h.len() || from > h.len(),
    ensures
        find_spec(h, n, from) is None,
    decreases h.len() - from,
{
    if from >= 0 && from + n.len() <= h.len() {
        lemma_find_spec_none_when_out(h, n, from + 1);
    }
}

/// Whether `n` occurs anywhere in `h`.
pub fn bytes_contains(h: &Vec<u8>, n: &Vec<u8>) -> (r: bool)
    ensures
        r == has_sub(h@, n@),
{
    find_sub_from(h, n, 0).is_some()
}

/// Character-wise equality of two strings, giving view equality.
pub fn str_eq(a: &str, b: &str) -> (r: bool)
    ensures
        r == (a@ == b@),
{
    let la = a.unicode_len();
    let lb = b.unicode_len();
    if la != lb {
        return false;
    }
    let mut i: usize = 0;
    while i < la
        invariant
            la == a@.len() == b@.len(),
            i <= la,
            forall|k: int| 0 <= k < i ==> a@[k] == b@[k],
        decreases la - i,
    {
        if a.get_char(i) != b.get_char(i) {
            return false;
        }
        i = i + 1;
    }
    proof {
        assert(a@ =~= b@);
    }
    true
}

/// ASCII lower-casing of one byte.
pub open spec fn ascii_lower(b: u8) -> u8 {
    if 65 <= b <= 90 {
        (b + 0x20) as u8
    } else {
        b
    }
}

/// ASCII lower-casing of a byte sequence.
pub open spec fn ascii_lower_seq(s: Seq<u8>) -> Seq<u8> {
    s.map_values(|b: u8| ascii_lower(b))
}

/// Lower-case a byte vector (ASCII letters only; other bytes untouched).
pub fn to_ascii_lower(v: &Vec<u8>) -> (r: Vec<u8>)
    ensures
        r@ == ascii_lower_seq(v@),
{
    let mut out: Vec<u8> = Vec::new();
    let mut i: usize = 0;
    while i < v.len()
        invariant
            i <= v@.len(),
            out@ =~= ascii_lower_seq(v@).subrange(0, i as int),
        decreases v@.len() - i,
    {
        let b = v[i];
        if 65 <= b && b <= 90 {
            out.push(b + 0x20);
        } else {
            out.push(b);
        }
        proof {
            assert(out@ =~= ascii_lower_seq(v@).subrange(0, i + 1));
        }
        i = i + 1;
    }
    proof {
        assert(out@ =~= ascii_lower_seq(v@));
    }
    out
}

/// The numeric value of a run of decimal digit bytes.
pub open spec fn digits_val(s: Seq<u8>) -> nat
    decreases s.len(),
{
    if s.len() == 0 {
        0
    } else {
        digits_val(s.drop_last()) * 10 + (s.last() - 48) as nat
    }
}

/// Whether every byte of `s` is a decimal digit.
pub open spec fn all_digits(s: Seq<u8>) -> bool {
    forall|i: int| 0 <= i < s.len() ==> 48 <= #[trigger] s[i] <= 57
}

/// Length of the run of digit bytes in `h` starting at `from`.
pub open spec fn digit_run_end(h: Seq<u8>, from: int) -> int
    decreases h.len() - from,
{
    if 0 <= from < h.len() && 48 <= h[from] <= 57 {
        digit_run_end(h, from + 1)
    } else {
        from
    }
}

/// Parse the run of decimal digits in `h` starting at `from`.
/// Returns the parsed value and the index one past the run, or `None`
/// when the run is empty or its value exceeds `i32::MAX`.
pub fn parse_digit_run(h: &Vec<u8>, from: usize) -> (r: Option<(u32, usize)>)
    ensures
        match r {
            Some((v, end)) => {
                &&& end == digit_run_end(h@, from as int)
                &&& from < end <= h@.len()
                &&& v == digits_val(h@.subrange(from as int, end as int))
                &&& v <= i32::MAX
            },
            None => from as int == digit_run_end(h@, from as int) || digits_val(
                h@.subrange(from as int, digit_run_end(h@, from as int)),
            ) > i32::MAX,
        },
{
    if from >= h.len() {
        return None;
    }
    let mut i = from;
    let mut val: u64 = 0;
    let mut overflow = false;
    proof {
        assert(h@.subrange(from as int, from as int) =~= Seq::<u8>::empty());
        assert(digits_val(Seq::<u8>::empty()) == 0);
    }
    loop
        invariant
            from <= i <= h@.len(),
            digit_run_end(h@, from as int) == digit_run_end(h@, i as int),
            !overflow ==> val == digits_val(h@.subrange(from as int, i as int)) && val
                <= i32::MAX,
            overflow ==> digits_val(h@.subrange(from as int, i as int)) > i32::MAX,
            i > from || (!overflow && val == 0),
        decreases h@.len() - i,
    {
        if i == h.len() || h[i] < 48 || h[i] > 57 {
            proof {
                assert(digit_run_end(h@, i as int) == i as int);
            }
            if i == from {
                return None;
            }
            if overflow {
                return None;
            }
            return Some(((val as u32), i));
        }
        proof {
            assert(digit_run_end(h@, i as int) == digit_run_end(h@, i + 1));
        }
        let d = h[i];
        proof {
            assert(h@.subrange(from as int, i + 1) =~= h@.subrange(from as int, i as int).push(
                h@[i as int],
            ));
            assert(h@.subrange(from as int, i + 1).drop_last() =~= h@.subrange(
                from as int,
                i as int,
            ));
            lemma_digits_val_grows(h@.subrange(from as int, i as int), h@[i as int]);
        }
        if !overflow {
            let next: u64 = val * 10 + ((d - 48) as u64);
            if next > (i32::MAX as u64) {
                overflow = true;
            } else {
                val = next;
            }
        }
        i = i + 1;
    }
}

proof fn lemma_digits_val_grows(s: Seq<u8>, b: u8)
    requires
        48 <= b <= 57,
    ensures
        digits_val(s.push(b)) == digits_val(s) * 10 + (b - 48) as nat,
        digits_val(s.push(b)) >= digits_val(s),
{
    assert(s.push(b).drop_last() =~= s);
    assert(s.push(b).last() == b);
}

/// Strict lexicographic order on byte sequences.
pub open spec fn lex_lt(a: Seq<u8>, b: Seq<u8>) -> bool
    decreases a.len(),
{
    if b.len() == 0 {
        false
    } else if a.len() == 0 {
        true
    } else if a[0] < b[0] {
        true
    } else if a[0] > b[0] {
        false
    } else {
        lex_lt(a.drop_first(), b.drop_first())
    }
}

/// The lexicographic order is asymmetric.
pub proof fn lemma_lex_asym(a: Seq<u8>, b: Seq<u8>)
    requires
        lex_lt(a, b),
    ensures
        !lex_lt(b, a),
    decreases a.len(),
{
    if a.len() > 0 && b.len() > 0 && a[0] == b[0] {
        lemma_lex_asym(a.drop_first(), b.drop_first());
    }
}

/// The lexicographic order is transitive.
pub proof fn lemma_lex_trans(a: Seq<u8>, b: Seq<u8>, c: Seq<u8>)
    requires
        lex_lt(a, b),
        lex_lt(b, c),
    ensures
        lex_lt(a, c),
    decreases a.len(),
{
    if a.len() > 0 && b.len() > 0 && c.len() > 0 && a[0] == b[0] && b[0] == c[0] {
        lemma_lex_trans(a.drop_first(), b.drop_first(), c.drop_first());
    }
}

/// The lexicographic order is connected: two sequences compare in one
/// direction or are equal.
pub proof fn lemma_lex_connex(a: Seq<u8>, b: Seq<u8>)
    ensures
        lex_lt(a, b) || lex_lt(b, a) || a == b,
    decreases a.len(),
{
    if a.len() == 0 && b.len() == 0 {
        assert(a =~= b);
    } else if a.len() > 0 && b.len() > 0 && a[0] == b[0] {
        lemma_lex_connex(a.drop_first(), b.drop_first());
        if !lex_lt(a, b) && !lex_lt(b, a) {
            assert(a.drop_first() == b.drop_first());
            assert forall|i: int| 0 <= i < a.len() implies a[i] == b[i] by {
                if i > 0 {
                    assert(a.drop_first()[i - 1] == a[i]);
                    assert(b.drop_first()[i - 1] == b[i]);
                }
            }
            assert(a =~= b);
        }
    }
}

/// Compare two byte vectors lexicographically (strictly less).
pub fn bytes_lex_lt(a: &Vec<u8>, b: &Vec<u8>) -> (r: bool)
    ensures
        r == lex_lt(a@, b@),
{
    let mut i: usize = 0;
    proof {
        assert(a@.skip(0) =~= a@);
        assert(b@.skip(0) =~= b@);
    }
    loop
        invariant
            i <= a@.len(),
            i <= b@.len(),
            forall|k: int| 0 <= k < i ==> a@[k] == b@[k],
            lex_lt(a@, b@) == lex_lt(a@.skip(i as int), b@.skip(i as int)),
        decreases a@.len() - i,
    {
        if i == b.len() {
            proof {
                assert(b@.skip(i as int).len() == 0);
            }
            return false;
        }
        if i == a.len() {
            proof {
                assert(a@.skip(i as int).len() == 0);
                assert(b@.skip(i as int).len() > 0);
            }
            return true;
        }
        if a[i] < b[i] {
            proof {
                assert(a@.skip(i as int)[0] == a@[i as int]);
                assert(b@.skip(i as int)[0] == b@[i as int]);
            }
            return true;
        }
        if a[i] > b[i] {
            proof {
                assert(a@.skip(i as int)[0] == a@[i as int]);
                assert(b@.skip(i as int)[0] == b@[i as int]);
            }
            return false;
        }
        proof {
            assert(a@.skip(i as int)[0] == a@[i as int]);
            assert(b@.skip(i as int)[0] == b@[i as int]);
            assert(a@.skip(i as int).drop_first() =~= a@.skip(i + 1));
            assert(b@.skip(i as int).drop_first() =~= b@.skip(i + 1));
        }
        i = i + 1;
    }
}

/// Characters obtained by reading each byte as one character
/// (the identity embedding for ASCII data).
pub open spec fn chars_of_bytes(b: Seq<u8>) -> Seq<char> {
    b.map_values(|x: u8| x as char)
}

/// Every byte is ASCII (below 0x80).
pub open spec fn all_ascii(b: Seq<u8>) -> bool {
    forall|i: int| 0 <= i < b.len() ==> #[trigger] b[i] < 0x80
}

/// Relies on `String::from_utf8_lossy`: for input in which every byte is
/// ASCII, the result has exactly one character per byte, each the
/// corresponding code point.
#[verifier::external_body]
pub fn string_from_ascii(v: &Vec<u8>) -> (r: String)
    requires
        all_ascii(v@),
    ensures
        r@ == chars_of_bytes(v@),
{
    String::from_utf8_lossy(v.as_slice()).into_owned()
}

/// Relies on `String::from_utf8_lossy`: when every byte is ASCII the result
/// has exactly one character per byte; other input still yields a string,
/// of which nothing is claimed.
#[verifier::external_body]
pub fn string_from_bytes_lossy(v: &Vec<u8>) -> (r: String)
    ensures
        all_ascii(v@) ==> r@ == chars_of_bytes(v@),
{
    String::from_utf8_lossy(v.as_slice()).into_owned()
}

/// ASCII whitespace.
pub open spec fn is_ws(b: u8) -> bool {
    b == 32 || b == 9 || b == 13 || b == 10
}

/// `s` with leading ASCII whitespace removed.
pub open spec fn trim_ws_start(s: Seq<u8>) -> Seq<u8>
    decreases s.len(),
{
    if s.len() > 0 && is_ws(s[0]) {
        trim_ws_start(s.drop_first())
    } else {
        s
    }
}

/// `s` with trailing ASCII whitespace removed.
pub open spec fn trim_ws_end(s: Seq<u8>) -> Seq<u8>
    decreases s.len(),
{
    if s.len() > 0 && is_ws(s.last()) {
        trim_ws_end(s.drop_last())
    } else {
        s
    }
}

/// `s` with whitespace removed at both ends.
pub open spec fn trim_ws(s: Seq<u8>) -> Seq<u8> {
    trim_ws_end(trim_ws_start(s))
}

proof fn lemma_trim_start_at(s: Seq<u8>, i: int)
    requires
        0 <= i <= s.len(),
        forall|k: int| 0 <= k < i ==> is_ws(#[trigger] s[k]),
        i == s.len() || !is_ws(s[i]),
    ensures
        trim_ws_start(s) == s.skip(i),
    decreases i,
{
    if i == 0 {
        assert(s.skip(0) =~= s);
    } else {
        lemma_trim_start_at(s.drop_first(), i - 1);
        assert(s.drop_first().skip(i - 1) =~= s.skip(i));
    }
}

proof fn lemma_trim_end_at(s: Seq<u8>, e: int)
    requires
        0 <= e <= s.len(),
        forall|k: int| e <= k < s.len() ==> is_ws(#[trigger] s[k]),
        e == 0 || !is_ws(s[e - 1]),
    ensures
        trim_ws_end(s) == s.take(e),
    decreases s.len() - e,
{
    if e == s.len() {
        assert(s.take(e) =~= s);
    } else {
        lemma_trim_end_at(s.drop_last(), e);
        assert(s.drop_last().take(e) =~= s.take(e));
    }
}

/// Remove ASCII whitespace at both ends of a byte vector.
pub fn trim_bytes(v: &Vec<u8>) -> (r: Vec<u8>)
    ensures
        r@ == trim_ws(v@),
{
    let mut start: usize = 0;
    while start < v.len() && (v[start] == 32 || v[start] == 9 || v[start] == 13 || v[start] == 10)
        invariant
            start <= v@.len(),
            forall|k: int| 0 <= k < start ==> is_ws(#[trigger] v@[k]),
        decreases v@.len() - start,
    {
        start = start + 1;
    }
    proof {
        lemma_trim_start_at(v@, start as int);
    }
    let mut end: usize = v.len();
    while end > start && (v[end - 1] == 32 || v[end - 1] == 9 || v[end - 1] == 13 || v[end - 1]
        == 10)
        invariant
            start <= end <= v@.len(),
            forall|k: int| end <= k < v@.len() ==> is_ws(#[trigger] v@[k]),
        decreases end,
    {
        end = end - 1;
    }
    proof {
        if end > start {
            lemma_trim_end_at(v@.skip(start as int), end - start as int);
        } else {
            lemma_trim_end_at(v@.skip(start as int), 0);
        }
    }
    let mut out: Vec<u8> = Vec::new();
    let mut i = start;
    while i < end
        invariant
            start <= i <= end <= v@.len(),
            out@ =~= v@.subrange(start as int, i as int),
        decreases end - i,
    {
        out.push(v[i]);
        proof {
            assert(out@ =~= v@.subrange(start as int, i + 1));
        }
        i = i + 1;
    }
    proof {
        assert(v@.skip(start as int).take(end - start as int) =~= v@.subrange(
            start as int,
            end as int,
        ));
        assert(out@ =~= v@.subrange(start as int, end as int));
    }
    out
}

/// The lines of `s`: split on newline bytes, a trailing carriage return
/// removed from each line, no final empty line.
pub open spec fn split_lines(s: Seq<u8>) -> Seq<Seq<u8>>
    decreases s.len(),
    via split_lines_decreases
{
    if s.len() == 0 {
        Seq::empty()
    } else {
        match find_spec(s, seq![10u8], 0) {
            Some(i) => seq![strip_cr(s.subrange(0, i))] + split_lines(s.skip(i + 1)),
            None => seq![strip_cr(s)],
        }
    }
}

#[via_fn]
proof fn split_lines_decreases(s: Seq<u8>) {
    if s.len() > 0 {
        match find_spec(s, seq![10u8], 0) {
            Some(i) => {
                lemma_find_some_bounds(s, seq![10u8], 0, i);
            },
            None => {},
        }
    }
}

/// `l` without a trailing carriage return.
pub open spec fn strip_cr(l: Seq<u8>) -> Seq<u8> {
    if l.len() > 0 && l.last() == 13 {
        l.drop_last()
    } else {
        l
    }
}

fn copy_range(v: &Vec<u8>, from: usize, to: usize) -> (r: Vec<u8>)
    requires
        from <= to <= v@.len(),
    ensures
        r@ == v@.subrange(from as int, to as int),
{
    let mut out: Vec<u8> = Vec::new();
    let mut i = from;
    while i < to
        invariant
            from <= i <= to <= v@.len(),
            out@ =~= v@.subrange(from as int, i as int),
        decreases to - i,
    {
        out.push(v[i]);
        proof {
            assert(out@ =~= v@.subrange(from as int, i + 1));
        }
        i = i + 1;
    }
    proof {
        assert(out@ =~= v@.subrange(from as int, to as int));
    }
    out
}

/// Copy a subrange of a byte vector.
pub fn bytes_subrange(v: &Vec<u8>, from: usize, to: usize) -> (r: Vec<u8>)
    requires
        from <= to <= v@.len(),
    ensures
        r@ == v@.subrange(from as int, to as int),
{
    copy_range(v, from, to)
}

fn strip_cr_exec(v: Vec<u8>) -> (r: Vec<u8>)
    ensures
        r@ == strip_cr(v@),
{
    let mut v = v;
    if v.len() > 0 && v[v.len() - 1] == 13 {
        let _ = v.pop();
        v
    } else {
        v
    }
}

/// Split a byte vector into its lines.
pub fn bytes_lines(v: &Vec<u8>) -> (r: Vec<Vec<u8>>)
    ensures
        r.deep_view() == split_lines(v@),
{
    let mut out: Vec<Vec<u8>> = Vec::new();
    let mut pos: usize = 0;
    let nl: Vec<u8> = {
        let mut t: Vec<u8> = Vec::new();
        t.push(10);
        t
    };
    proof {
        assert(v@.skip(0) =~= v@);
        assert(nl@ =~= seq![10u8]);
    }
    loop
        invariant
            pos <= v@.len(),
            nl@ == seq![10u8],
            out.deep_view() + split_lines(v@.skip(pos as int)) == split_lines(v@),
        decreases v@.len() - pos,
    {
        if pos == v.len() {
            proof {
                assert(v@.skip(pos as int).len() == 0);
                assert(out.deep_view() + split_lines(v@.skip(pos as int)) =~~= out.deep_view());
            }
            return out;
        }
        let rest_len = v.len() - pos;
        match find_sub_from(v, &nl, pos) {
            Some(j) => {
                proof {
                    lemma_find_shift(v@, pos as int, j as int);
                    assert(v@.skip(pos as int).subrange(0, j - pos) =~= v@.subrange(
                        pos as int,
                        j as int,
                    ));
                    assert(v@.skip(pos as int).skip(j - pos + 1) =~= v@.skip(j + 1));
                }
                let line = strip_cr_exec(copy_range(v, pos, j));
                out.push(line);
                proof {
                    assert(out.deep_view() =~~= out.deep_view().subrange(
                        0,
                        out.deep_view().len() - 1,
                    ) + seq![strip_cr(v@.subrange(pos as int, j as int))]);
                    assert((out.deep_view().subrange(0, out.deep_view().len() - 1) + seq![
                        strip_cr(v@.subrange(pos as int, j as int)),
                    ]) + split_lines(v@.skip(j + 1)) =~~= out.deep_view().subrange(
                        0,
                        out.deep_view().len() - 1,
                    ) + (seq![strip_cr(v@.subrange(pos as int, j as int))] + split_lines(
                        v@.skip(j + 1),
                    )));
                }
                pos = j + 1;
            },
            None => {
                proof {
                    lemma_find_shift_none(v@, pos as int);
                    assert(v@.skip(pos as int).subrange(0, rest_len as int) =~= v@.skip(
                        pos as int,
                    ));
                }
                let line = strip_cr_exec(copy_range(v, pos, v.len()));
                out.push(line);
                proof {
                    assert(out.deep_view() =~~= out.deep_view().subrange(
                        0,
                        out.deep_view().len() - 1,
                    ) + seq![strip_cr(v@.skip(pos as int))]);
                    assert(v@.skip(v@.len() as int).len() == 0);
                    assert((out.deep_view().subrange(0, out.deep_view().len() - 1) + seq![
                        strip_cr(v@.skip(pos as int)),
                    ]) + split_lines(v@.skip(v@.len() as int)) =~~= out.deep_view().subrange(
                        0,
                        out.deep_view().len() - 1,
                    ) + seq![strip_cr(v@.skip(pos as int))]);
                }
                pos = v.len();
            },
        }
    }
}

/// Finding a pattern in `h` at or after `pos` is finding it in `h.skip(pos)`.
proof fn lemma_find_shift(h: Seq<u8>, pos: int, j: int)
    requires
        0 <= pos <= h.len(),
        find_spec(h, seq![10u8], pos) == Some(j),
    ensures
        find_spec(h.skip(pos), seq![10u8], 0) == Some(j - pos),
        pos <= j < h.len(),
        h[j] == 10,
        forall|k: int| pos <= k < j ==> h[k] != 10,
    decreases j - pos + 1,
{
    lemma_find_spec_char(h, pos, j);
    lemma_find_skip_char(h, pos, j);
}

proof fn lemma_find_spec_char(h: Seq<u8>, pos: int, j: int)
    requires
        0 <= pos <= h.len(),
        find_spec(h, seq![10u8], pos) == Some(j),
    ensures
        pos <= j < h.len(),
        h[j] == 10,
        forall|k: int| pos <= k < j ==> h[k] != 10,
    decreases h.len() - pos,
{
    if pos + 1 <= h.len() && h.subrange(pos, pos + 1) =~= seq![10u8] {
        assert(h.subrange(pos, pos + 1)[0] == h[pos]);
        assert(h[pos] == 10);
    } else {
        if pos + 1 <= h.len() {
            assert(h.subrange(pos, pos + 1)[0] == h[pos]);
            assert(h[pos] != 10);
            lemma_find_spec_char(h, pos + 1, j);
        }
    }
}

proof fn lemma_find_skip_char(h: Seq<u8>, pos: int, j: int)
    requires
        0 <= pos <= j < h.len(),
        h[j] == 10,
        forall|k: int| pos <= k < j ==> h[k] != 10,
    ensures
        find_spec(h.skip(pos), seq![10u8], 0) == Some(j - pos),
{
    let t = h.skip(pos);
    lemma_char_find(t, j - pos);
}

proof fn lemma_char_find(t: Seq<u8>, m: int)
    requires
        0 <= m < t.len(),
        t[m] == 10,
        forall|k: int| 0 <= k < m ==> t[k] != 10,
    ensures
        find_spec(t, seq![10u8], 0) == Some(m),
{
    lemma_char_find_from(t, 0, m);
}

proof fn lemma_char_find_from(t: Seq<u8>, from: int, m: int)
    requires
        0 <= from <= m < t.len(),
        t[m] == 10,
        forall|k: int| from <= k < m ==> t[k] != 10,
    ensures
        find_spec(t, seq![10u8], from) == Some(m),
    decreases m - from,
{
    if from == m {
        assert(t.subrange(m, m + 1) =~= seq![10u8]);
    } else {
        assert(t.subrange(from, from + 1)[0] == t[from]);
        assert(!(t.subrange(from, from + 1) =~= seq![10u8]));
        lemma_char_find_from(t, from + 1, m);
    }
}

proof fn lemma_find_shift_none(h: Seq<u8>, pos: int)
    requires
        0 <= pos <= h.len(),
        find_spec(h, seq![10u8], pos) is None,
    ensures
        find_spec(h.skip(pos), seq![10u8], 0) is None,
{
    lemma_find_spec_char_none(h, pos);
    let t = h.skip(pos);
    assert forall|k: int| 0 <= k < t.len() implies t[k] != 10 by {
        assert(t[k] == h[pos + k]);
    }
    lemma_char_none(t, 0);
}

proof fn lemma_find_spec_char_none(h: Seq<u8>, pos: int)
    requires
        0 <= pos <= h.len(),
        find_spec(h, seq![10u8], pos) is None,
    ensures
        forall|k: int| pos <= k < h.len() ==> h[k] != 10,
    decreases h.len() - pos,
{
    if pos < h.len() {
        assert(h.subrange(pos, pos + 1)[0] == h[pos]);
        if h.subrange(pos, pos + 1) =~= seq![10u8] {
            assert(find_spec(h, seq![10u8], pos) == Some(pos));
        } else {
            assert(h[pos] != 10);
            lemma_find_spec_char_none(h, pos + 1);
        }
    }
}

proof fn lemma_char_none(t: Seq<u8>, from: int)
    requires
        0 <= from <= t.len(),
        forall|k: int| from <= k < t.len() ==> t[k] != 10,
    ensures
        find_spec(t, seq![10u8], from) is None,
    decreases t.len() - from,
{
    if from < t.len() {
        assert(t.subrange(from, from + 1)[0] == t[from]);
        lemma_char_none(t, from + 1);
    }
}

/// Index of the last occurrence of `n` in `h` at or below `from`.
pub open spec fn rfind_from_spec(h: Seq<u8>, n: Seq<u8>, from: int) -> Option<int>
    decreases from + 1,
{
    if from < 0 {
        None
    } else if from + n.len() <= h.len() && h.subrange(from, from + n.len()) =~= n {
        Some(from)
    } else {
        rfind_from_spec(h, n, from - 1)
    }
}

/// Index of the last occurrence of `n` in `h`.
pub open spec fn rfind_spec(h: Seq<u8>, n: Seq<u8>) -> Option<int> {
    rfind_from_spec(h, n, h.len() - n.len())
}

/// Find the last occurrence of `n` in `h`.
pub fn rfind_sub(h: &Vec<u8>, n: &Vec<u8>) -> (r: Option<usize>)
    ensures
        match r {
            Some(i) => rfind_spec(h@, n@) == Some(i as int) && i + n@.len() <= h@.len(),
            None => rfind_spec(h@, n@) is None,
        },
{
    let hlen = h.len();
    let nlen = n.len();
    if nlen > hlen {
        proof {
            assert(rfind_from_spec(h@, n@, h@.len() - n@.len()) is None);
        }
        return None;
    }
    let mut i: usize = hlen - nlen;
    loop
        invariant
            hlen == h@.len(),
            nlen == n@.len(),
            nlen <= hlen,
            i <= hlen - nlen,
            rfind_spec(h@, n@) == rfind_from_spec(h@, n@, i as int),
        decreases i + 1,
    {
        let mut j: usize = 0;
        let mut ok = true;
        while j < nlen
            invariant
                hlen == h@.len(),
                nlen == n@.len(),
                i + nlen <= hlen,
                j <= nlen,
                ok <==> (forall|k: int| 0 <= k < j ==> h@[i + k] == n@[k]),
            decreases nlen - j,
        {
            if h[i + j] != n[j] {
                ok = false;
                proof {
                    assert(!(forall|k: int| 0 <= k < j + 1 ==> h@[i + k] == n@[k])) by {
                        assert(h@[i + j as int] != n@[j as int]);
                    }
                }
                j = nlen;
            } else {
                j = j + 1;
            }
        }
        if ok {
            proof {
                assert(h@.subrange(i as int, i + n@.len()) =~= n@);
            }
            return Some(i);
        }
        proof {
            assert(!(h@.subrange(i as int, i + n@.len()) =~= n@)) by {
                assert(exists|k: int| 0 <= k < n@.len() && h@[i + k] != n@[k]);
                let k = choose|k: int| 0 <= k < n@.len() && h@[i + k] != n@[k];
                assert(h@.subrange(i as int, i + n@.len())[k] == h@[i + k]);
            }
            assert(rfind_from_spec(h@, n@, i as int) == rfind_from_spec(h@, n@, i - 1));
        }
        if i == 0 {
            proof {
                assert(rfind_from_spec(h@, n@, -1) is None);
            }
            return None;
        }
        i = i - 1;
    }
}

/// The longest whitespace-free prefix.
pub open spec fn until_ws(s: Seq<u8>) -> Seq<u8>
    decreases s.len(),
{
    if s.len() == 0 || is_ws(s[0]) {
        Seq::empty()
    } else {
        seq![s[0]] + until_ws(s.drop_first())
    }
}

/// The whitespace-separated tokens of `s`, in order.
pub open spec fn split_ws(s: Seq<u8>) -> Seq<Seq<u8>>
    decreases s.len(),
    via split_ws_decreases
{
    if s.len() == 0 {
        Seq::empty()
    } else if is_ws(s[0]) {
        split_ws(s.drop_first())
    } else {
        seq![until_ws(s)] + split_ws(s.skip(until_ws(s).len() as int))
    }
}

#[via_fn]
proof fn split_ws_decreases(s: Seq<u8>) {
    if s.len() > 0 && !is_ws(s[0]) {
        lemma_until_ws_len(s);
    }
}

proof fn lemma_until_ws_len(s: Seq<u8>)
    ensures
        until_ws(s).len() <= s.len(),
        s.len() > 0 && !is_ws(s[0]) ==> until_ws(s).len() >= 1,
        forall|k: int| 0 <= k < until_ws(s).len() ==> until_ws(s)[k] == s[k],
        until_ws(s).len() < s.len() ==> is_ws(s[until_ws(s).len() as int]),
    decreases s.len(),
{
    if s.len() > 0 && !is_ws(s[0]) {
        lemma_until_ws_len(s.drop_first());
        assert forall|k: int| 0 <= k < until_ws(s).len() implies until_ws(s)[k] == s[k] by {
            if k > 0 {
                assert(until_ws(s)[k] == until_ws(s.drop_first())[k - 1]);
                assert(s.drop_first()[k - 1] == s[k]);
            }
        }
        if until_ws(s).len() < s.len() {
            assert(s.drop_first()[until_ws(s.drop_first()).len() as int] == s[until_ws(
                s,
            ).len() as int]);
        }
    }
}

/// The first whitespace-separated token of `s`, if `s` has one.
pub open spec fn first_token(s: Seq<u8>) -> Seq<u8> {
    until_ws(trim_ws_start(s))
}

/// Extract the first whitespace-separated token.
pub fn bytes_first_token(v: &Vec<u8>) -> (r: Vec<u8>)
    ensures
        r@ == first_token(v@),
{
    let mut start: usize = 0;
    while start < v.len() && (v[start] == 32 || v[start] == 9 || v[start] == 13 || v[start] == 10)
        invariant
            start <= v@.len(),
            forall|k: int| 0 <= k < start ==> is_ws(#[trigger] v@[k]),
        decreases v@.len() - start,
    {
        start = start + 1;
    }
    proof {
        lemma_trim_start_at(v@, start as int);
    }
    let mut out: Vec<u8> = Vec::new();
    let mut i = start;
    proof {
        assert(v@.skip(start as int).skip(0) =~= v@.skip(start as int));
        lemma_until_ws_len(v@.skip(start as int));
    }
    while i < v.len() && !(v[i] == 32 || v[i] == 9 || v[i] == 13 || v[i] == 10)
        invariant
            start <= i <= v@.len(),
            forall|k: int| start <= k < i ==> !is_ws(#[trigger] v@[k]),
            out@ =~= v@.subrange(start as int, i as int),
        decreases v@.len() - i,
    {
        out.push(v[i]);
        proof {
            assert(out@ =~= v@.subrange(start as int, i + 1));
        }
        i = i + 1;
    }
    proof {
        lemma_until_ws_take(v@.skip(start as int), i - start);
        assert(v@.skip(start as int).take(i - start) =~= v@.subrange(start as int, i as int));
    }
    out
}

proof fn lemma_until_ws_take(s: Seq<u8>, e: int)
    requires
        0 <= e <= s.len(),
        forall|k: int| 0 <= k < e ==> !is_ws(#[trigger] s[k]),
        e == s.len() || is_ws(s[e]),
    ensures
        until_ws(s) == s.take(e),
    decreases e,
{
    if e == 0 {
        assert(s.take(0) =~= Seq::<u8>::empty());
    } else {
        assert forall|k: int| 0 <= k < e - 1 implies !is_ws(#[trigger] s.drop_first()[k]) by {
            assert(s.drop_first()[k] == s[k + 1]);
        }
        if e - 1 < s.drop_first().len() {
            assert(s.drop_first()[e - 1] == s[e]);
        }
        lemma_until_ws_take(s.drop_first(), e - 1);
        assert(until_ws(s) =~= s.take(e)) by {
            assert(until_ws(s) == seq![s[0]] + until_ws(s.drop_first()));
            assert(s.drop_first().take(e - 1) =~= s.take(e).drop_first());
        }
    }
}

/// Split a byte vector into its whitespace-separated tokens.
pub fn bytes_split_ws(v: &Vec<u8>) -> (r: Vec<Vec<u8>>)
    ensures
        r.deep_view() == split_ws(v@),
{
    let mut out: Vec<Vec<u8>> = Vec::new();
    let mut pos: usize = 0;
    proof {
        assert(v@.skip(0) =~= v@);
        assert(out.deep_view() + split_ws(v@) =~~= split_ws(v@));
    }
    loop
        invariant
            pos <= v@.len(),
            out.deep_view() + split_ws(v@.skip(pos as int)) == split_ws(v@),
        decreases v@.len() - pos,
    {
        if pos == v.len() {
            proof {
                assert(v@.skip(pos as int).len() == 0);
                assert(out.deep_view() + split_ws(v@.skip(pos as int)) =~~= out.deep_view());
            }
            return out;
        }
        let b = v[pos];
        proof {
            assert(v@.skip(pos as int)[0] == v@[pos as int]);
            assert(v@.skip(pos as int).drop_first() =~= v@.skip(pos + 1));
        }
        if b == 32 || b == 9 || b == 13 || b == 10 {
            pos = pos + 1;
        } else {
            let mut tok: Vec<u8> = Vec::new();
            let mut i = pos;
            while i < v.len() && !(v[i] == 32 || v[i] == 9 || v[i] == 13 || v[i] == 10)
                invariant
                    pos <= i <= v@.len(),
                    forall|k: int| pos <= k < i ==> !is_ws(#[trigger] v@[k]),
                    tok@ =~= v@.subrange(pos as int, i as int),
                decreases v@.len() - i,
            {
                tok.push(v[i]);
                proof {
                    assert(tok@ =~= v@.subrange(pos as int, i + 1));
                }
                i = i + 1;
            }
            proof {
                let rest = v@.skip(pos as int);
                assert forall|k: int| 0 <= k < i - pos implies !is_ws(#[trigger] rest[k]) by {
                    assert(rest[k] == v@[pos + k]);
                }
                if i - pos < rest.len() {
                    assert(rest[i - pos] == v@[i as int]);
                }
                lemma_until_ws_take(rest, i - pos);
                assert(rest.take(i - pos) =~= v@.subrange(pos as int, i as int));
                assert(rest.skip(i - pos) =~= v@.skip(i as int));
                lemma_until_ws_len(rest);
            }
            out.push(tok);
            proof {
                assert(out.deep_view() =~~= out.deep_view().subrange(
                    0,
                    out.deep_view().len() - 1,
                ) + seq![v@.subrange(pos as int, i as int)]);
                assert((out.deep_view().subrange(0, out.deep_view().len() - 1) + seq![
                    v@.subrange(pos as int, i as int),
                ]) + split_ws(v@.skip(i as int)) =~~= out.deep_view().subrange(
                    0,
                    out.deep_view().len() - 1,
                ) + (seq![v@.subrange(pos as int, i as int)] + split_ws(v@.skip(i as int))));
            }
            pos = i;
        }
    }
}

/// Membership of a string (by view) in a sequence of strings.
pub open spec fn seq_contains_str(v: Seq<Seq<char>>, s: Seq<char>) -> bool {
    exists|i: int| 0 <= i < v.len() && v[i] == s
}

/// Whether some element of `v` equals `s`.
pub fn vec_contains_str(v: &Vec<String>, s: &str) -> (r: bool)
    ensures
        r == seq_contains_str(v.deep_view(), s@),
{
    let mut i: usize = 0;
    while i < v.len()
        invariant
            i <= v@.len(),
            v.deep_view().len() == v@.len(),
            forall|k: int| 0 <= k < i ==> v.deep_view()[k] != s@,
        decreases v@.len() - i,
    {
        if str_eq(v[i].as_str(), s) {
            proof {
                assert(v.deep_view()[i as int] == v@[i as int]@);
            }
            return true;
        }
        proof {
            assert(v.deep_view()[i as int] == v@[i as int]@);
        }
        i = i + 1;
    }
    false
}

} // verus!
