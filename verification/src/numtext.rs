use vstd::prelude::*;
use vstd::string::StrSliceExecFns;
use vstd::string::StringExecFns;

verus! {

/// Whether `c` is an ASCII decimal digit.
pub open spec fn is_digit(c: char) -> bool {
    48 <= c as int <= 57
}

/// The numeric value of a decimal digit character.
pub open spec fn digit_val(c: char) -> int {
    c as int - 48
}

/// The digit character for a value below ten.
pub open spec fn digit_char(d: int) -> char {
    if d == 0 { '0' }
    else if d == 1 { '1' }
    else if d == 2 { '2' }
    else if d == 3 { '3' }
    else if d == 4 { '4' }
    else if d == 5 { '5' }
    else if d == 6 { '6' }
    else if d == 7 { '7' }
    else if d == 8 { '8' }
    else { '9' }
}

/// The value of a digit string, most significant digit first.
pub open spec fn digits_val(s: Seq<char>) -> int
    decreases s.len(),
{
    if s.len() == 0 {
        0
    } else {
        digits_val(s.drop_last()) * 10 + digit_val(s.last())
    }
}

/// Whether every character of `s` is a decimal digit.
pub open spec fn all_digits(s: Seq<char>) -> bool {
    forall|i: int| 0 <= i < s.len() ==> is_digit(#[trigger] s[i])
}

/// The digit body of an integer literal: the text after an optional sign.
pub open spec fn int_lit_body(s: Seq<char>) -> Seq<char> {
    if s.len() > 0 && (s[0] == '-' || s[0] == '+') {
        s.drop_first()
    } else {
        s
    }
}

/// Whether `s` is a decimal integer literal: an optional sign followed by
/// one or more digits and nothing else.
pub open spec fn is_int_lit(s: Seq<char>) -> bool {
    int_lit_body(s).len() > 0 && all_digits(int_lit_body(s))
}

/// The value denoted by an integer literal.
pub open spec fn int_lit_value(s: Seq<char>) -> int {
    if s.len() > 0 && s[0] == '-' {
        -digits_val(int_lit_body(s))
    } else {
        digits_val(int_lit_body(s))
    }
}

/// Whether `s` is an integer literal whose value fits in an `i32`.
pub open spec fn parses_as_i32(s: Seq<char>) -> bool {
    is_int_lit(s) && i32::MIN <= int_lit_value(s) <= i32::MAX
}

/// The canonical decimal rendering of a nonnegative value.
pub open spec fn dec_nat(n: int) -> Seq<char>
    decreases n,
{
    if n < 10 {
        seq![digit_char(n)]
    } else {
        dec_nat(n / 10).push(digit_char(n % 10))
    }
}

/// The canonical decimal rendering of an integer, with a leading minus
/// sign when it is negative.
pub open spec fn dec_int(n: int) -> Seq<char> {
    if n < 0 {
        seq!['-'] + dec_nat(-n)
    } else {
        dec_nat(n)
    }
}

proof fn lemma_digits_val_nonneg(s: Seq<char>)
    requires
        all_digits(s),
    ensures
        digits_val(s) >= 0,
    decreases s.len(),
{
    if s.len() > 0 {
        assert(all_digits(s.drop_last())) by {
            assert(forall|i: int| 0 <= i < s.len() - 1 ==> is_digit(#[trigger] s.drop_last()[i]));
        }
        lemma_digits_val_nonneg(s.drop_last());
    }
}

/// Extending a digit string can only keep or grow its value.
proof fn lemma_digits_val_prefix_le(s: Seq<char>, i: int, j: int)
    requires
        all_digits(s),
        0 <= i <= j <= s.len(),
    ensures
        digits_val(s.subrange(0, i)) <= digits_val(s.subrange(0, j)),
    decreases j - i,
{
    if i < j {
        let p = s.subrange(0, j - 1);
        let q = s.subrange(0, j);
        assert(q.drop_last() =~= p);
        assert(all_digits(p));
        lemma_digits_val_nonneg(p);
        assert(digits_val(q) == digits_val(p) * 10 + digit_val(q.last()));
        assert(digits_val(p) * 10 >= digits_val(p)) by (nonlinear_arith)
            requires digits_val(p) >= 0;
        assert(is_digit(q.last()));
        lemma_digits_val_prefix_le(s, i, j - 1);
    }
}

/// The canonical decimal rendering of a nonnegative value is one or more
/// digits that denote that value again.
pub proof fn lemma_dec_nat_digits(m: int)
    requires
        m >= 0,
    ensures
        all_digits(dec_nat(m)),
        dec_nat(m).len() >= 1,
        digits_val(dec_nat(m)) == m,
        is_digit(dec_nat(m)[0]),
    decreases m,
{
    if m < 10 {
        assert(dec_nat(m) =~= seq![digit_char(m)]);
        assert(seq![digit_char(m)].drop_last() =~= Seq::<char>::empty());
        assert(digits_val(Seq::<char>::empty()) == 0);
        assert(seq![digit_char(m)].last() == digit_char(m));
        assert(digits_val(seq![digit_char(m)]) == digit_val(digit_char(m)));
        assert(all_digits(dec_nat(m)));
    } else {
        lemma_dec_nat_digits(m / 10);
        let s = dec_nat(m);
        let p = dec_nat(m / 10);
        assert(s == p.push(digit_char(m % 10)));
        assert(s.drop_last() =~= p);
        assert(s.last() == digit_char(m % 10));
        assert(digits_val(s) == (m / 10) * 10 + m % 10);
        assert((m / 10) * 10 + m % 10 == m) by (nonlinear_arith)
            requires m >= 0;
        assert(all_digits(s)) by {
            assert(forall|i: int| 0 <= i < s.len() ==> #[trigger] s[i] == if i < p.len() {
                p[i]
            } else {
                digit_char(m % 10)
            });
        }
    }
}

fn exec_digit_val(c: char) -> (r: Option<u32>)
    ensures
        r is Some <==> is_digit(c),
        r is Some ==> r->0 as int == digit_val(c),
{
    let u = c as u32;
    if 48 <= u && u <= 57 {
        Some(u - 48)
    } else {
        None
    }
}

/// Parses a decimal integer literal into an `i32`, accepting exactly the
/// strings of an optional sign followed by one or more digits whose value
/// is in range.
pub fn parse_i32(s: &str) -> (r: Option<i32>)
    ensures
        r is Some <==> parses_as_i32(s@),
        r is Some ==> r->0 as int == int_lit_value(s@),
{
    let n = s.unicode_len();
    let mut neg = false;
    let mut start: usize = 0;
    if n > 0 {
        let c0 = s.get_char(0);
        if c0 == '-' {
            neg = true;
            start = 1;
        } else if c0 == '+' {
            start = 1;
        }
    }
    let ghost body = int_lit_body(s@);
    proof {
        assert(body =~= s@.subrange(start as int, n as int));
    }
    if start >= n {
        assert(!is_int_lit(s@));
        return None;
    }
    let mut acc: u64 = 0;
    let mut i = start;
    while i < n
        invariant
            start <= i <= n,
            start < n,
            n == s@.len(),
            body == int_lit_body(s@),
            body == s@.subrange(start as int, n as int),
            forall|j: int| 0 <= j < i - start ==> is_digit(#[trigger] body[j]),
            acc as int == digits_val(body.subrange(0, i - start)),
            acc <= 2147483648u64,
            neg == (s@.len() > 0 && s@[0] == '-'),
        decreases n - i,
    {
        let c = s.get_char(i);
        proof {
            assert(body[i - start] == s@[i as int]);
        }
        match exec_digit_val(c) {
            Some(d) => {
                acc = acc * 10 + d as u64;
                proof {
                    let k = i - start + 1;
                    assert(body.subrange(0, k).drop_last() =~= body.subrange(0, k - 1));
                    assert(body.subrange(0, k).last() == body[k - 1]);
                }
                if acc > 2147483648u64 {
                    proof {
                        let k = i - start + 1;
                        if is_int_lit(s@) {
                            assert(all_digits(body));
                            lemma_digits_val_prefix_le(body, k, body.len() as int);
                            assert(body.subrange(0, body.len() as int) =~= body);
                            assert(digits_val(body) >= acc as int);
                            if s@[0] == '-' {
                                assert(int_lit_value(s@) < i32::MIN);
                            } else {
                                assert(int_lit_value(s@) > i32::MAX);
                            }
                        }
                    }
                    return None;
                }
            },
            None => {
                assert(!all_digits(body));
                return None;
            },
        }
        i = i + 1;
    }
    proof {
        assert(body.subrange(0, (n - start) as int) =~= body);
        assert(is_int_lit(s@));
        assert(digits_val(body) == acc as int);
    }
    if neg {
        let v: i64 = -(acc as i64);
        assert(int_lit_value(s@) == v as int);
        Some(v as i32)
    } else {
        if acc > 2147483647u64 {
            assert(int_lit_value(s@) > i32::MAX);
            None
        } else {
            assert(int_lit_value(s@) == acc as int);
            Some(acc as i32)
        }
    }
}

fn digit_str(d: u64) -> (r: &'static str)
    requires
        d < 10,
    ensures
        r@ =~= seq![digit_char(d as int)],
{
    proof {
        reveal_strlit("0");
        reveal_strlit("1");
        reveal_strlit("2");
        reveal_strlit("3");
        reveal_strlit("4");
        reveal_strlit("5");
        reveal_strlit("6");
        reveal_strlit("7");
        reveal_strlit("8");
        reveal_strlit("9");
    }
    if d == 0 { "0" }
    else if d == 1 { "1" }
    else if d == 2 { "2" }
    else if d == 3 { "3" }
    else if d == 4 { "4" }
    else if d == 5 { "5" }
    else if d == 6 { "6" }
    else if d == 7 { "7" }
    else if d == 8 { "8" }
    else { "9" }
}

fn append_dec_u64(s: &mut String, n: u64)
    ensures
        final(s)@ == old(s)@ + dec_nat(n as int),
    decreases n,
{
    if n >= 10 {
        append_dec_u64(s, n / 10);
    }
    s.append(digit_str(n % 10));
    proof {
        if n < 10 {
            assert(old(s)@ + dec_nat(n as int) =~= old(s)@ + seq![digit_char(n as int)]);
        } else {
            assert(old(s)@ + dec_nat(n as int) =~= (old(s)@ + dec_nat(n as int / 10)) + seq![
                digit_char(n as int % 10),
            ]);
        }
        assert(final(s)@ =~= old(s)@ + dec_nat(n as int));
    }
}

/// Renders an `i32` in its canonical decimal form.
pub fn render_i32(n: i32) -> (r: String)
    ensures
        r@ == dec_int(n as int),
{
    let mut s = String::new();
    let mag: u64;
    if n < 0 {
        s.append("-");
        proof {
            reveal_strlit("-");
            assert(s@ =~= seq!['-']);
        }
        mag = (-(n as i64)) as u64;
    } else {
        mag = n as u64;
    }
    append_dec_u64(&mut s, mag);
    proof {
        if n < 0 {
            assert(s@ =~= seq!['-'] + dec_nat(-(n as int)));
        }
    }
    s
}

} // verus!
