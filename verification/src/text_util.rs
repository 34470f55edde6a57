use vstd::prelude::*;

verus! {

// ---------------------------------------------------------------------------
// Decimal rendering of integers
// ---------------------------------------------------------------------------

/// The character for one decimal digit value.
pub open spec fn dec_digit_char(d: int) -> char {
    if d == 0 {
        '0'
    } else if d == 1 {
        '1'
    } else if d == 2 {
        '2'
    } else if d == 3 {
        '3'
    } else if d == 4 {
        '4'
    } else if d == 5 {
        '5'
    } else if d == 6 {
        '6'
    } else if d == 7 {
        '7'
    } else if d == 8 {
        '8'
    } else {
        '9'
    }
}

/// The decimal representation of a nonnegative integer, most significant
/// digit first, without leading zeros (`0` is rendered as "0").
pub open spec fn dec_str(n: nat) -> Seq<char>
    decreases n,
{
    if n < 10 {
        seq![dec_digit_char(n as int)]
    } else {
        dec_str(n / 10).push(dec_digit_char((n % 10) as int))
    }
}

/// The decimal representation of an integer, with a leading minus sign
/// when negative.
pub open spec fn int_str(i: int) -> Seq<char> {
    if i < 0 {
        seq!['-'] + dec_str((-i) as nat)
    } else {
        dec_str(i as nat)
    }
}

fn digit_char(d: u8) -> (r: char)
    requires
        d < 10,
    ensures
        r == dec_digit_char(d as int),
{
    if d == 0 {
        '0'
    } else if d == 1 {
        '1'
    } else if d == 2 {
        '2'
    } else if d == 3 {
        '3'
    } else if d == 4 {
        '4'
    } else if d == 5 {
        '5'
    } else if d == 6 {
        '6'
    } else if d == 7 {
        '7'
    } else if d == 8 {
        '8'
    } else {
        '9'
    }
}

/// Relies on `String::push` of std: appends one character to the string.
#[verifier::external_body]
pub(crate) fn push_char(s: &mut String, c: char)
    ensures
        final(s)@ == old(s)@.push(c),
{
    s.push(c)
}

pub fn u64_to_string(n: u64) -> (r: String)
    ensures
        r@ == dec_str(n as nat),
    decreases n,
{
    if n < 10 {
        let mut s = String::new();
        push_char(&mut s, digit_char(n as u8));
        proof {
            assert(s@ =~= dec_str(n as nat));
        }
        s
    } else {
        let mut s = u64_to_string(n / 10);
        push_char(&mut s, digit_char((n % 10) as u8));
        s
    }
}

pub fn i64_to_string(n: i64) -> (r: String)
    ensures
        r@ == int_str(n as int),
{
    if n >= 0 {
        u64_to_string(n as u64)
    } else {
        // The magnitude of i64::MIN does not fit in i64, so step through n + 1.
        let mag: u64 = ((-(n + 1)) as u64) + 1;
        assert(mag == -(n as int));
        let mut s = String::new();
        push_char(&mut s, '-');
        let d = u64_to_string(mag);
        s.append(d.as_str());
        proof {
            assert(s@ =~= int_str(n as int));
        }
        s
    }
}

pub fn i32_to_string(n: i32) -> (r: String)
    ensures
        r@ == int_str(n as int),
{
    i64_to_string(n as i64)
}

pub fn u16_to_string(n: u16) -> (r: String)
    ensures
        r@ == dec_str(n as nat),
{
    u64_to_string(n as u64)
}

/// The view of an optional string.
pub open spec fn opt_string_view(o: Option<String>) -> Option<Seq<char>> {
    match o {
        Option::Some(s) => Option::Some(s@),
        Option::None => Option::None,
    }
}

/// The views of a vector of strings.
pub open spec fn strings_view(v: Seq<String>) -> Seq<Seq<char>> {
    Seq::new(v.len(), |i: int| v[i]@)
}

// ---------------------------------------------------------------------------
// Comparison and trimming
// ---------------------------------------------------------------------------

pub fn str_equal(a: &str, b: &str) -> (r: bool)
    ensures
        r == (a@ == b@),
{
    let n = a.unicode_len();
    let m = b.unicode_len();
    if n != m {
        return false;
    }
    let mut i: usize = 0;
    while i < n
        invariant
            i <= n,
            n == a@.len(),
            n == b@.len(),
            forall|j: int| 0 <= j < i ==> a@[j] == b@[j],
        decreases n - i,
    {
        if a.get_char(i) != b.get_char(i) {
            return false;
        }
        i += 1;
    }
    proof {
        assert(a@ =~= b@);
    }
    true
}

/// The ASCII code of a character, with upper-case letters folded to
/// lower case. Characters outside `A`-`Z` are left as they are.
pub open spec fn lower_val(c: char) -> int {
    if 65 <= c as int && c as int <= 90 {
        c as int + 32
    } else {
        c as int
    }
}

/// Character sequences equal up to ASCII case.
pub open spec fn seq_eq_ignore_ascii_case(a: Seq<char>, b: Seq<char>) -> bool {
    &&& a.len() == b.len()
    &&& forall|i: int| 0 <= i < a.len() ==> lower_val(a[i]) == lower_val(b[i])
}

pub fn str_eq_ignore_ascii_case(a: &str, b: &str) -> (r: bool)
    ensures
        r == seq_eq_ignore_ascii_case(a@, b@),
{
    let n = a.unicode_len();
    let m = b.unicode_len();
    if n != m {
        return false;
    }
    let mut i: usize = 0;
    while i < n
        invariant
            i <= n,
            n == a@.len(),
            n == b@.len(),
            forall|j: int| 0 <= j < i ==> lower_val(a@[j]) == lower_val(b@[j]),
        decreases n - i,
    {
        let ca = a.get_char(i) as u32;
        let cb = b.get_char(i) as u32;
        let fa: u32 = if 65 <= ca && ca <= 90 {
            ca + 32
        } else {
            ca
        };
        let fb: u32 = if 65 <= cb && cb <= 90 {
            cb + 32
        } else {
            cb
        };
        if fa != fb {
            return false;
        }
        i += 1;
    }
    true
}

/// The white-space characters stripped from field values: blank, tab,
/// line feed and carriage return.
pub open spec fn is_ws(c: char) -> bool {
    c == ' ' || c == '\t' || c == '\n' || c == '\r'
}

pub open spec fn trim_start_spec(s: Seq<char>) -> Seq<char>
    decreases s.len(),
{
    if s.len() > 0 && is_ws(s[0]) {
        trim_start_spec(s.subrange(1, s.len() as int))
    } else {
        s
    }
}

pub open spec fn trim_end_spec(s: Seq<char>) -> Seq<char>
    decreases s.len(),
{
    if s.len() > 0 && is_ws(s[s.len() - 1]) {
        trim_end_spec(s.subrange(0, s.len() - 1))
    } else {
        s
    }
}

/// A sequence without its leading and trailing white space.
pub open spec fn trim_spec(s: Seq<char>) -> Seq<char> {
    trim_end_spec(trim_start_spec(s))
}

fn is_ws_char(c: char) -> (r: bool)
    ensures
        r == is_ws(c),
{
    c == ' ' || c == '\t' || c == '\n' || c == '\r'
}

pub fn trim_string(s: &str) -> (r: String)
    ensures
        r@ == trim_spec(s@),
{
    let mut t: &str = s;
    let mut n = t.unicode_len();
    while n > 0 && is_ws_char(t.get_char(0))
        invariant
            n == t@.len(),
            trim_start_spec(t@) == trim_start_spec(s@),
        decreases n,
    {
        t = t.substring_char(1, n);
        n = n - 1;
    }
    proof {
        assert(t@ == trim_start_spec(s@));
    }
    while n > 0 && is_ws_char(t.get_char(n - 1))
        invariant
            n == t@.len(),
            trim_end_spec(t@) == trim_spec(s@),
        decreases n,
    {
        t = t.substring_char(0, n - 1);
        n = n - 1;
    }
    proof {
        assert(t@ == trim_spec(s@));
    }
    String::from_str(t)
}

// ---------------------------------------------------------------------------
// Decimal parsing
// ---------------------------------------------------------------------------

pub open spec fn is_dec_digit(c: char) -> bool {
    48 <= c as int && c as int <= 57
}

pub open spec fn all_dec_digits(s: Seq<char>) -> bool {
    forall|i: int| 0 <= i < s.len() ==> is_dec_digit(s[i])
}

/// The value of a sequence of decimal digit characters.
pub open spec fn digits_val(s: Seq<char>) -> nat
    decreases s.len(),
{
    if s.len() == 0 {
        0
    } else {
        (digits_val(s.subrange(0, s.len() - 1)) * 10 + (s[s.len() - 1] as int - 48)) as nat
    }
}

/// What `str::parse::<i32>` accepts: an optional sign followed by one
/// or more decimal digits, the value within `i32` range.
pub open spec fn std_parse_i32(s: Seq<char>) -> Option<i32> {
    let signed = s.len() > 0 && (s[0] == '+' || s[0] == '-');
    let neg = s.len() > 0 && s[0] == '-';
    let body = if signed {
        s.subrange(1, s.len() as int)
    } else {
        s
    };
    if body.len() > 0 && all_dec_digits(body) {
        let v = if neg {
            -(digits_val(body) as int)
        } else {
            digits_val(body) as int
        };
        if i32::MIN <= v <= i32::MAX {
            Some(v as i32)
        } else {
            None
        }
    } else {
        None
    }
}

/// The accumulator tracks the digit value exactly while it stays within
/// `i32` magnitude and is pinned just above it otherwise.
pub open spec fn saturated_digits(body: Seq<char>, acc: u64) -> bool {
    (digits_val(body) <= 2147483648 && acc == digits_val(body)) || (digits_val(body) > 2147483648
        && acc == 2147483649)
}

/// Accumulates the digits of `s` between `start` and the end, keeping
/// the running value saturated just above `i32` magnitude so that the
/// range check at the end is exact. Returns `None` on a non-digit.
fn digits_accumulate(s: &str, start: usize) -> (r: Option<u64>)
    requires
        start < s@.len(),
    ensures
        match r {
            Some(acc) => all_dec_digits(s@.subrange(start as int, s@.len() as int))
                && saturated_digits(s@.subrange(start as int, s@.len() as int), acc),
            None => !all_dec_digits(s@.subrange(start as int, s@.len() as int)),
        },
{
    let n = s.unicode_len();
    let mut acc: u64 = 0;
    let mut i: usize = start;
    while i < n
        invariant
            start <= i <= n,
            n == s@.len(),
            start < n,
            forall|j: int| start <= j < i ==> is_dec_digit(s@[j]),
            saturated_digits(s@.subrange(start as int, i as int), acc),
        decreases n - i,
    {
        let c = s.get_char(i) as u32;
        if c < 48 || c > 57 {
            proof {
                assert(!is_dec_digit(s@.subrange(start as int, s@.len() as int)[i - start]));
            }
            return None;
        }
        let d: u64 = (c - 48) as u64;
        proof {
            let pre = s@.subrange(start as int, i as int);
            let post = s@.subrange(start as int, i + 1 as int);
            assert(post.subrange(0, post.len() - 1) =~= pre);
            assert(post[post.len() - 1] == s@[i as int]);
        }
        acc = acc * 10 + d;
        if acc > 2147483648 {
            acc = 2147483649;
        }
        i += 1;
    }
    proof {
        assert(s@.subrange(start as int, n as int) =~= s@.subrange(start as int, s@.len() as int));
    }
    Some(acc)
}

/// Parses with the grammar of `str::parse::<i32>`.
pub fn parse_i32(s: &str) -> (r: Option<i32>)
    ensures
        r == std_parse_i32(s@),
{
    let n = s.unicode_len();
    if n == 0 {
        return None;
    }
    let c0 = s.get_char(0);
    let neg = c0 == '-';
    let start: usize = if c0 == '-' || c0 == '+' {
        1
    } else {
        0
    };
    if start >= n {
        return None;
    }
    let acc = match digits_accumulate(s, start) {
        Some(acc) => acc,
        None => {
            return None;
        },
    };
    proof {
        if start == 0 {
            assert(s@.subrange(0, s@.len() as int) =~= s@);
        }
    }
    if neg {
        if acc <= 2147483648 {
            Some((-(acc as i64)) as i32)
        } else {
            None
        }
    } else {
        if acc <= 2147483647 {
            Some(acc as i32)
        } else {
            None
        }
    }
}

// ---------------------------------------------------------------------------
// JSON literal grammar
// ---------------------------------------------------------------------------

/// What a JSON document holding one integer looks like after trimming:
/// an optional minus sign and digits without a superfluous leading zero.
pub open spec fn json_int_shape(t: Seq<char>) -> bool {
    let neg = t.len() > 0 && t[0] == '-';
    let body = if neg {
        t.subrange(1, t.len() as int)
    } else {
        t
    };
    body.len() > 0 && all_dec_digits(body) && (body.len() == 1 || body[0] != '0')
}

/// The `i32` read from a string holding one JSON integer document, or
/// `None` when the string is not such a document or the value does not
/// fit.
pub open spec fn json_parse_i32_spec(s: Seq<char>) -> Option<i32> {
    let t = trim_spec(s);
    let neg = t.len() > 0 && t[0] == '-';
    let body = if neg {
        t.subrange(1, t.len() as int)
    } else {
        t
    };
    if json_int_shape(t) {
        let v = if neg {
            -(digits_val(body) as int)
        } else {
            digits_val(body) as int
        };
        if i32::MIN <= v <= i32::MAX {
            Some(v as i32)
        } else {
            None
        }
    } else {
        None
    }
}

pub fn json_parse_i32(s: &str) -> (r: Option<i32>)
    ensures
        r == json_parse_i32_spec(s@),
{
    let t = trim_string(s);
    let ts = t.as_str();
    let n = ts.unicode_len();
    if n == 0 {
        return None;
    }
    let neg = ts.get_char(0) == '-';
    let start: usize = if neg {
        1
    } else {
        0
    };
    if start >= n {
        return None;
    }
    // a leading zero is only allowed for the single digit 0
    if n - start > 1 && ts.get_char(start) == '0' {
        return None;
    }
    let acc = match digits_accumulate(ts, start) {
        Some(acc) => acc,
        None => {
            return None;
        },
    };
    proof {
        if start == 0 {
            assert(ts@.subrange(0, ts@.len() as int) =~= ts@);
        }
    }
    if neg {
        if acc <= 2147483648 {
            Some((-(acc as i64)) as i32)
        } else {
            None
        }
    } else {
        if acc <= 2147483647 {
            Some(acc as i32)
        } else {
            None
        }
    }
}

/// One step of the automaton for the JSON number grammar. State 9 is
/// the trap; 2, 3, 5 and 8 accept.
pub open spec fn json_num_step(st: int, c: char) -> int {
    let d = is_dec_digit(c);
    if st == 0 {
        if c == '-' {
            1
        } else if c == '0' {
            2
        } else if d {
            3
        } else {
            9
        }
    } else if st == 1 {
        if c == '0' {
            2
        } else if d {
            3
        } else {
            9
        }
    } else if st == 2 {
        if c == '.' {
            4
        } else if c == 'e' || c == 'E' {
            6
        } else {
            9
        }
    } else if st == 3 {
        if d {
            3
        } else if c == '.' {
            4
        } else if c == 'e' || c == 'E' {
            6
        } else {
            9
        }
    } else if st == 4 {
        if d {
            5
        } else {
            9
        }
    } else if st == 5 {
        if d {
            5
        } else if c == 'e' || c == 'E' {
            6
        } else {
            9
        }
    } else if st == 6 {
        if c == '+' || c == '-' {
            7
        } else if d {
            8
        } else {
            9
        }
    } else if st == 7 {
        if d {
            8
        } else {
            9
        }
    } else if st == 8 {
        if d {
            8
        } else {
            9
        }
    } else {
        9
    }
}

pub open spec fn json_num_scan(s: Seq<char>, st: int) -> int
    decreases s.len(),
{
    if s.len() == 0 {
        st
    } else {
        json_num_scan(s.subrange(1, s.len() as int), json_num_step(st, s[0]))
    }
}

/// Whether `s` is exactly one JSON number literal.
pub open spec fn is_json_number(s: Seq<char>) -> bool {
    let e = json_num_scan(s, 0);
    e == 2 || e == 3 || e == 5 || e == 8
}

fn json_num_step_exec(st: u8, c: char) -> (r: u8)
    ensures
        r as int == json_num_step(st as int, c),
{
    let u = c as u32;
    let d = 48 <= u && u <= 57;
    if st == 0 {
        if c == '-' {
            1
        } else if c == '0' {
            2
        } else if d {
            3
        } else {
            9
        }
    } else if st == 1 {
        if c == '0' {
            2
        } else if d {
            3
        } else {
            9
        }
    } else if st == 2 {
        if c == '.' {
            4
        } else if c == 'e' || c == 'E' {
            6
        } else {
            9
        }
    } else if st == 3 {
        if d {
            3
        } else if c == '.' {
            4
        } else if c == 'e' || c == 'E' {
            6
        } else {
            9
        }
    } else if st == 4 {
        if d {
            5
        } else {
            9
        }
    } else if st == 5 {
        if d {
            5
        } else if c == 'e' || c == 'E' {
            6
        } else {
            9
        }
    } else if st == 6 {
        if c == '+' || c == '-' {
            7
        } else if d {
            8
        } else {
            9
        }
    } else if st == 7 {
        if d {
            8
        } else {
            9
        }
    } else if st == 8 {
        if d {
            8
        } else {
            9
        }
    } else {
        9
    }
}

pub fn check_json_number(s: &str) -> (r: bool)
    ensures
        r == is_json_number(s@),
{
    let n = s.unicode_len();
    let mut st: u8 = 0;
    let mut i: usize = 0;
    proof {
        assert(s@.subrange(0, n as int) =~= s@);
    }
    while i < n
        invariant
            i <= n,
            n == s@.len(),
            json_num_scan(s@, 0) == json_num_scan(
                s@.subrange(i as int, n as int),
                st as int,
            ),
        decreases n - i,
    {
        let c = s.get_char(i);
        proof {
            let rest = s@.subrange(i as int, n as int);
            assert(rest.subrange(1, rest.len() as int) =~= s@.subrange(i + 1, n as int));
        }
        st = json_num_step_exec(st, c);
        i += 1;
    }
    proof {
        assert(s@.subrange(n as int, n as int) =~= Seq::<char>::empty());
    }
    st == 2 || st == 3 || st == 5 || st == 8
}

/// Trims `s` and keeps it when it is one JSON number literal: how a
/// numeric field supplied as a string is taken over.
pub fn json_number_text(s: &str) -> (r: Option<String>)
    ensures
        match r {
            Some(t) => is_json_number(trim_spec(s@)) && t@ == trim_spec(s@),
            None => !is_json_number(trim_spec(s@)),
        },
{
    let t = trim_string(s);
    if check_json_number(t.as_str()) {
        Some(t)
    } else {
        None
    }
}

// ---------------------------------------------------------------------------
// JSON string escaping
// ---------------------------------------------------------------------------

/// The hexadecimal digit character for one value below 16.
pub open spec fn hex_digit_char(d: int) -> char {
    if d < 10 {
        dec_digit_char(d)
    } else if d == 10 {
        'a'
    } else if d == 11 {
        'b'
    } else if d == 12 {
        'c'
    } else if d == 13 {
        'd'
    } else if d == 14 {
        'e'
    } else {
        'f'
    }
}

/// How one character is written inside a JSON string literal.
pub open spec fn json_escape_char(c: char) -> Seq<char> {
    if c == '"' {
        seq!['\\', '"']
    } else if c == '\\' {
        seq!['\\', '\\']
    } else if c == '\n' {
        seq!['\\', 'n']
    } else if c == '\r' {
        seq!['\\', 'r']
    } else if c == '\t' {
        seq!['\\', 't']
    } else if c == '\u{8}' {
        seq!['\\', 'b']
    } else if c == '\u{c}' {
        seq!['\\', 'f']
    } else if (c as int) < 32 {
        seq!['\\', 'u', '0', '0', hex_digit_char(c as int / 16), hex_digit_char(c as int % 16)]
    } else {
        seq![c]
    }
}

/// A whole string escaped for inclusion in a JSON string literal.
pub open spec fn json_escape_seq(s: Seq<char>) -> Seq<char>
    decreases s.len(),
{
    if s.len() == 0 {
        Seq::empty()
    } else {
        json_escape_seq(s.subrange(0, s.len() - 1)) + json_escape_char(s[s.len() - 1])
    }
}

fn hex_digit(d: u32) -> (r: char)
    requires
        d < 16,
    ensures
        r == hex_digit_char(d as int),
{
    if d < 10 {
        digit_char(d as u8)
    } else if d == 10 {
        'a'
    } else if d == 11 {
        'b'
    } else if d == 12 {
        'c'
    } else if d == 13 {
        'd'
    } else if d == 14 {
        'e'
    } else {
        'f'
    }
}

/// Appends `s` to `out` in JSON string-literal escaping.
pub fn json_escape_append(out: &mut String, s: &str)
    ensures
        final(out)@ == old(out)@ + json_escape_seq(s@),
{
    let n = s.unicode_len();
    let mut i: usize = 0;
    proof {
        assert(s@.subrange(0, 0) =~= Seq::<char>::empty());
        assert(out@ =~= old(out)@ + json_escape_seq(s@.subrange(0, 0)));
    }
    while i < n
        invariant
            i <= n,
            n == s@.len(),
            out@ == old(out)@ + json_escape_seq(s@.subrange(0, i as int)),
        decreases n - i,
    {
        proof {
            assert(s@.subrange(0, i + 1).subrange(0, i as int) =~= s@.subrange(0, i as int));
            assert(s@.subrange(0, i + 1)[i as int] == s@[i as int]);
        }
        let c = s.get_char(i);
        let u = c as u32;
        if c == '"' {
            push_char(out, '\\');
            push_char(out, '"');
        } else if c == '\\' {
            push_char(out, '\\');
            push_char(out, '\\');
        } else if c == '\n' {
            push_char(out, '\\');
            push_char(out, 'n');
        } else if c == '\r' {
            push_char(out, '\\');
            push_char(out, 'r');
        } else if c == '\t' {
            push_char(out, '\\');
            push_char(out, 't');
        } else if u == 8 {
            push_char(out, '\\');
            push_char(out, 'b');
        } else if u == 12 {
            push_char(out, '\\');
            push_char(out, 'f');
        } else if u < 32 {
            push_char(out, '\\');
            push_char(out, 'u');
            push_char(out, '0');
            push_char(out, '0');
            push_char(out, hex_digit(u / 16));
            push_char(out, hex_digit(u % 16));
        } else {
            push_char(out, c);
        }
        proof {
            assert(out@ =~= old(out)@ + json_escape_seq(s@.subrange(0, i + 1)));
        }
        i += 1;
    }
    proof {
        assert(s@.subrange(0, n as int) =~= s@);
    }
}

} // verus!
