//! Benchmark request identifiers.
//!
//! Every outbound request carries an identifier of the form
//! `"<connection_index>_<counter>"`, where the counter is drawn from a
//! run-global monotonic source, so identifiers are unique across the run.
//! Inbound responses echo the identifier; parsing it back is how a response
//! is correlated with the pending request that caused it.

use vstd::prelude::*;

verus! {

/// Two characters with the same code point are the same character.
proof fn lemma_char_cast_inj(c1: char, c2: char)
    requires
        c1 as u32 == c2 as u32,
    ensures
        c1 == c2,
{
    vstd::utf8::char_u32_cast(c1, c1 as u32);
    vstd::utf8::char_u32_cast(c2, c2 as u32);
}

/// A decimal digit character.
pub open spec fn is_dec_digit(c: char) -> bool {
    48 <= c as u32 && c as u32 <= 57
}

/// Numeric value of a decimal digit character.
pub open spec fn digit_val(c: char) -> nat {
    (c as u32 - 48) as nat
}

/// The character for one decimal digit.
pub open spec fn digit_char(d: nat) -> char {
    if d == 0 {
        '0'
    } else if d == 1 {
        '1'
    } else if d == 2 {
        '2'
    } else if d == 3 {
        '3'
    } else if d == 4 {
        '4'
    } else if d == 5 {
        '5'
    } else if d == 6 {
        '6'
    } else if d == 7 {
        '7'
    } else if d == 8 {
        '8'
    } else {
        '9'
    }
}

/// Canonical decimal rendering of a natural number (no leading zeros).
pub open spec fn dec_str(n: nat) -> Seq<char>
    decreases n,
{
    if n < 10 {
        seq![digit_char(n)]
    } else {
        dec_str(n / 10) + seq![digit_char(n % 10)]
    }
}

/// Value of a digit string, most significant digit first.
pub open spec fn val_of(s: Seq<char>) -> nat
    decreases s.len(),
{
    if s.len() == 0 {
        0
    } else {
        val_of(s.drop_last()) * 10 + digit_val(s.last())
    }
}

pub open spec fn all_digits(s: Seq<char>) -> bool {
    forall|i: int| 0 <= i < s.len() ==> is_dec_digit(#[trigger] s[i])
}

/// The identifier string for connection `c`, counter `k`.
pub open spec fn id_chars(c: u64, k: u64) -> Seq<char> {
    dec_str(c as nat) + seq!['_'] + dec_str(k as nat)
}

pub proof fn lemma_digit_char_val(d: nat)
    requires
        d < 10,
    ensures
        is_dec_digit(digit_char(d)),
        digit_val(digit_char(d)) == d,
{
    if d == 0 {
        assert(digit_char(d) as u32 == 48);
    } else if d == 1 {
        assert(digit_char(d) as u32 == 49);
    } else if d == 2 {
        assert(digit_char(d) as u32 == 50);
    } else if d == 3 {
        assert(digit_char(d) as u32 == 51);
    } else if d == 4 {
        assert(digit_char(d) as u32 == 52);
    } else if d == 5 {
        assert(digit_char(d) as u32 == 53);
    } else if d == 6 {
        assert(digit_char(d) as u32 == 54);
    } else if d == 7 {
        assert(digit_char(d) as u32 == 55);
    } else if d == 8 {
        assert(digit_char(d) as u32 == 56);
    } else {
        assert(digit_char(d) as u32 == 57);
    }
}

pub proof fn lemma_dec_str_shape(n: nat)
    ensures
        dec_str(n).len() >= 1,
        all_digits(dec_str(n)),
        n > 0 ==> dec_str(n)[0] != '0',
        n == 0 ==> dec_str(n) == seq!['0'],
    decreases n,
{
    if n < 10 {
        lemma_digit_char_val(n);
        if n > 0 {
            assert(digit_val(dec_str(n)[0]) != 0);
        }
    } else {
        lemma_dec_str_shape(n / 10);
        lemma_digit_char_val(n % 10);
        assert forall|i: int| 0 <= i < dec_str(n).len() implies is_dec_digit(#[trigger] dec_str(n)[i]) by {
            if i < dec_str(n / 10).len() {
                assert(dec_str(n)[i] == dec_str(n / 10)[i]);
            } else {
                assert(dec_str(n)[i] == digit_char(n % 10));
            }
        }
        assert(dec_str(n)[0] == dec_str(n / 10)[0]);
    }
}

/// The canonical rendering evaluates to the number it renders.
pub proof fn lemma_val_dec_str(n: nat)
    ensures
        val_of(dec_str(n)) == n,
    decreases n,
{
    if n < 10 {
        lemma_digit_char_val(n);
        assert(dec_str(n).last() == digit_char(n));
        assert(dec_str(n).drop_last() =~= Seq::<char>::empty());
        assert(val_of(Seq::<char>::empty()) == 0);
        assert(val_of(dec_str(n)) == 0 * 10 + digit_val(digit_char(n)));
    } else {
        lemma_val_dec_str(n / 10);
        lemma_digit_char_val(n % 10);
        assert(dec_str(n).last() == digit_char(n % 10));
        assert(dec_str(n).drop_last() =~= dec_str(n / 10));
        assert(val_of(dec_str(n)) == (n / 10) * 10 + (n % 10));
    }
}

/// A digit string that does not start with '0' has a positive value.
pub proof fn lemma_val_positive(s: Seq<char>)
    requires
        s.len() >= 1,
        all_digits(s),
        s[0] != '0',
    ensures
        val_of(s) >= 1,
    decreases s.len(),
{
    if s.len() == 1 {
        assert(s.last() == s[0]);
        assert(is_dec_digit(s[0]));
        if s[0] as u32 == 48 {
            lemma_char_cast_inj(s[0], '0');
        }
        assert(digit_val(s.last()) >= 1);
    } else {
        assert(s.drop_last()[0] == s[0]);
        assert forall|i: int| 0 <= i < s.drop_last().len() implies is_dec_digit(
            #[trigger] s.drop_last()[i],
        ) by {
            assert(s.drop_last()[i] == s[i]);
        }
        lemma_val_positive(s.drop_last());
    }
}

/// A canonical digit string (no leading zero) is exactly the rendering of
/// its value: decimal rendering is injective on canonical strings.
pub proof fn lemma_canonical(s: Seq<char>)
    requires
        s.len() >= 1,
        all_digits(s),
        s.len() > 1 ==> s[0] != '0',
    ensures
        s == dec_str(val_of(s)),
    decreases s.len(),
{
    let v = val_of(s);
    let d = digit_val(s.last());
    assert(s.last() == s[s.len() - 1]);
    assert(is_dec_digit(s[s.len() - 1]));
    assert(d < 10);
    if s.len() == 1 {
        assert(s.drop_last() =~= Seq::<char>::empty());
        assert(val_of(Seq::<char>::empty()) == 0);
        assert(v == d);
        lemma_digit_char_val(v);
        assert(digit_char(v) as u32 == 48 + v);
        assert(s[0] as u32 == 48 + d);
        lemma_char_cast_inj(digit_char(v), s[0]);
        assert(s =~= dec_str(v));
    } else {
        let p = s.drop_last();
        assert(p[0] == s[0]);
        assert forall|i: int| 0 <= i < p.len() implies is_dec_digit(#[trigger] p[i]) by {
            assert(p[i] == s[i]);
        }
        lemma_val_positive(p);
        assert(v == val_of(p) * 10 + d);
        assert(v >= 10);
        assert(v / 10 == val_of(p) && v % 10 == d) by (nonlinear_arith)
            requires
                v == val_of(p) * 10 + d,
                d < 10,
        ;
        lemma_canonical(p);
        lemma_digit_char_val(d);
        assert(digit_char(d) as u32 == 48 + d);
        assert(s.last() as u32 == 48 + d);
        lemma_char_cast_inj(digit_char(v % 10), s.last());
        assert(s =~= dec_str(v / 10) + seq![digit_char(v % 10)]);
    }
}

/// The value of a prefix is no larger than the value of the whole string.
pub proof fn lemma_val_prefix(s: Seq<char>, i: int)
    requires
        0 <= i <= s.len(),
    ensures
        val_of(s.subrange(0, i)) <= val_of(s),
    decreases s.len() - i,
{
    if i == s.len() {
        assert(s.subrange(0, i) =~= s);
    } else {
        let t = s.subrange(0, i + 1);
        assert(t.drop_last() =~= s.subrange(0, i));
        assert(val_of(t) == val_of(s.subrange(0, i)) * 10 + digit_val(t.last()));
        assert(val_of(s.subrange(0, i)) <= val_of(t));
        lemma_val_prefix(s, i + 1);
    }
}

fn digit_to_str(d: u64) -> (r: &'static str)
    requires
        d < 10,
    ensures
        r@ =~= seq![digit_char(d as nat)],
{
    proof {
        reveal_strlit("0");
        reveal_strlit("1");
        reveal_strlit("2");
        reveal_strlit("3");
        reveal_strlit("4");
        reveal_strlit("5");
        reveal_strlit("6");
        reveal_strlit("7");
        reveal_strlit("8");
        reveal_strlit("9");
    }
    if d == 0 {
        "0"
    } else if d == 1 {
        "1"
    } else if d == 2 {
        "2"
    } else if d == 3 {
        "3"
    } else if d == 4 {
        "4"
    } else if d == 5 {
        "5"
    } else if d == 6 {
        "6"
    } else if d == 7 {
        "7"
    } else if d == 8 {
        "8"
    } else {
        "9"
    }
}

/// Canonical decimal rendering of `n`.
pub fn u64_to_dec(n: u64) -> (r: String)
    ensures
        r@ == dec_str(n as nat),
    decreases n,
{
    if n < 10 {
        let r = String::from_str(digit_to_str(n));
        proof {
            assert(r@ =~= dec_str(n as nat));
        }
        r
    } else {
        let mut r = u64_to_dec(n / 10);
        r.append(digit_to_str(n % 10));
        proof {
            assert(r@ =~= dec_str(n as nat));
        }
        r
    }
}

/// Build the identifier string `"<c>_<k>"` for connection `c`, counter `k`.
pub fn make_benchmark_id(c: u64, k: u64) -> (r: String)
    ensures
        r@ == id_chars(c, k),
{
    let mut r = u64_to_dec(c);
    proof {
        reveal_strlit("_");
    }
    r.append("_");
    let tail = u64_to_dec(k);
    r.append(tail.as_str());
    proof {
        assert(r@ =~= id_chars(c, k));
    }
    r
}

/// Parse a canonical decimal number out of `s[from..to]`.
fn parse_decimal(s: &str, from: usize, to: usize) -> (r: Option<u64>)
    requires
        from <= to <= s@.len(),
    ensures
        r matches Some(v) ==> s@.subrange(from as int, to as int) == dec_str(v as nat),
        forall|m: u64| s@.subrange(from as int, to as int) == dec_str(m as nat) ==> r == Some(m),
{
    let ghost whole = s@.subrange(from as int, to as int);
    proof {
        assert forall|m: u64| whole == dec_str(m as nat) implies all_digits(whole) && whole.len()
            >= 1 && (whole.len() > 1 ==> whole[0] != '0') && val_of(whole) == m as nat by {
            lemma_dec_str_shape(m as nat);
            lemma_val_dec_str(m as nat);
        }
    }
    if to == from {
        return None;
    }
    let c0 = s.get_char(from);
    if c0 < '0' || c0 > '9' {
        return None;
    }
    if c0 == '0' && to - from > 1 {
        proof {
            assert(whole[0] == '0' && whole.len() > 1);
        }
        return None;
    }
    let mut v: u64 = 0;
    let mut i = from;
    while i < to
        invariant
            from <= i <= to <= s@.len(),
            whole == s@.subrange(from as int, to as int),
            all_digits(s@.subrange(from as int, i as int)),
            v as nat == val_of(s@.subrange(from as int, i as int)),
            forall|m: u64| whole == dec_str(m as nat) ==> all_digits(whole) && val_of(whole)
                == m as nat,
        decreases to - i,
    {
        let ghost prefix = s@.subrange(from as int, i as int);
        let c = s.get_char(i);
        proof {
            assert(c == whole[i - from]);
        }
        if c < '0' || c > '9' {
            return None;
        }
        let d = (c as u32 - 48) as u64;
        proof {
            assert(d as nat == digit_val(c));
            assert(s@.subrange(from as int, i + 1 as int).drop_last() =~= prefix);
            assert(val_of(s@.subrange(from as int, i + 1 as int)) == val_of(prefix) * 10 + d);
        }
        if v > (u64::MAX - d) / 10 {
            proof {
                assert forall|m: u64| whole == dec_str(m as nat) implies false by {
                    lemma_val_prefix(whole, i + 1 - from);
                    assert(whole.subrange(0, i + 1 - from) =~= s@.subrange(
                        from as int,
                        i + 1 as int,
                    ));
                    assert(val_of(s@.subrange(from as int, i + 1 as int)) <= m as nat);
                    assert(v * 10 + d > u64::MAX) by (nonlinear_arith)
                        requires
                            v > (u64::MAX - d) / 10,
                            d < 10,
                    ;
                }
            }
            return None;
        }
        assert(v * 10 + d <= u64::MAX) by (nonlinear_arith)
            requires
                v <= (u64::MAX - d) / 10,
                d < 10,
        ;
        v = v * 10 + d;
        i = i + 1;
        proof {
            assert forall|j: int| 0 <= j < i - from implies is_dec_digit(
                #[trigger] s@.subrange(from as int, i as int)[j],
            ) by {
                if j < i - 1 - from {
                    assert(s@.subrange(from as int, i as int)[j] == prefix[j]);
                } else {
                    assert(s@.subrange(from as int, i as int)[j] == c);
                }
            }
        }
    }
    proof {
        assert(whole =~= s@.subrange(from as int, i as int));
        assert(whole[0] == c0);
        lemma_canonical(whole);
        assert forall|m: u64| whole == dec_str(m as nat) implies Some(v) == Some::<u64>(m) by {
            lemma_val_dec_str(m as nat);
        }
    }
    Some(v)
}

/// Parse an identifier back into its connection index and counter.
///
/// Returns `Some((c, k))` exactly when the input is the identifier that
/// `make_benchmark_id(c, k)` produces; anything else (unknown shape, leading
/// zeros, out-of-range numbers) yields `None`.
pub fn parse_benchmark_id(s: &str) -> (r: Option<(u64, u64)>)
    ensures
        r matches Some(p) ==> s@ == id_chars(p.0, p.1),
        forall|c: u64, k: u64| s@ == id_chars(c, k) ==> r == Some((c, k)),
{
    proof {
        assert forall|c: u64, k: u64| s@ == id_chars(c, k) implies all_digits(dec_str(c as nat))
            && all_digits(dec_str(k as nat)) && dec_str(c as nat).len() >= 1 && dec_str(
            k as nat,
        ).len() >= 1 by {
            lemma_dec_str_shape(c as nat);
            lemma_dec_str_shape(k as nat);
        }
    }
    let n = s.unicode_len();
    let mut p: usize = 0;
    while p < n && s.get_char(p) != '_'
        invariant
            p <= n == s@.len(),
            forall|j: int| 0 <= j < p ==> s@[j] != '_',
        decreases n - p,
    {
        p = p + 1;
    }
    if p == n {
        proof {
            assert forall|c: u64, k: u64| s@ == id_chars(c, k) implies false by {
                let lc = dec_str(c as nat).len();
                assert(s@[lc as int] == '_');
            }
        }
        return None;
    }
    proof {
        assert(s@[p as int] == '_');
        assert forall|c: u64, k: u64| s@ == id_chars(c, k) implies p == dec_str(c as nat).len()
            && s@.subrange(0, p as int) == dec_str(c as nat) && s@.subrange(p + 1, n as int)
            == dec_str(k as nat) by {
            let lc = dec_str(c as nat).len() as int;
            assert(s@[lc] == '_');
            if p < lc {
                assert(s@[p as int] == dec_str(c as nat)[p as int]);
                assert(is_dec_digit(s@[p as int]));
            }
            if p > lc {
                assert(s@[lc] != '_');
            }
            assert(s@.subrange(0, p as int) =~= dec_str(c as nat));
            assert(s@.subrange(p + 1, n as int) =~= dec_str(k as nat));
        }
    }
    let conn = match parse_decimal(s, 0, p) {
        Some(c) => c,
        None => {
            return None;
        },
    };
    let counter = match parse_decimal(s, p + 1, n) {
        Some(k) => k,
        None => {
            return None;
        },
    };
    proof {
        assert(s@ =~= s@.subrange(0, p as int) + seq!['_'] + s@.subrange(p + 1, n as int));
    }
    Some((conn, counter))
}

/// Identifiers are injective: distinct (connection, counter) pairs never
/// collide, so a response resolves at most one pending request.
pub proof fn lemma_id_chars_injective(c1: u64, k1: u64, c2: u64, k2: u64)
    requires
        id_chars(c1, k1) == id_chars(c2, k2),
    ensures
        c1 == c2 && k1 == k2,
{
    lemma_dec_str_shape(c1 as nat);
    lemma_dec_str_shape(c2 as nat);
    lemma_dec_str_shape(k1 as nat);
    lemma_dec_str_shape(k2 as nat);
    let s = id_chars(c1, k1);
    let l1 = dec_str(c1 as nat).len() as int;
    let l2 = dec_str(c2 as nat).len() as int;
    assert(s[l1] == '_');
    assert(s[l2] == '_');
    if l1 < l2 {
        assert(s[l1] == dec_str(c2 as nat)[l1]);
        assert(is_dec_digit(s[l1]));
        assert(false);
    }
    if l2 < l1 {
        assert(s[l2] == dec_str(c1 as nat)[l2]);
        assert(is_dec_digit(s[l2]));
        assert(false);
    }
    assert forall|i: int| 0 <= i < l1 implies dec_str(c1 as nat)[i] == dec_str(c2 as nat)[i] by {
        assert(s[i] == dec_str(c1 as nat)[i]);
        assert(s[i] == dec_str(c2 as nat)[i]);
    }
    assert(dec_str(c1 as nat) =~= dec_str(c2 as nat));
    assert(s.len() == l1 + 1 + dec_str(k1 as nat).len());
    assert(s.len() == l2 + 1 + dec_str(k2 as nat).len());
    assert(dec_str(k1 as nat).len() == dec_str(k2 as nat).len());
    assert forall|i: int| 0 <= i < dec_str(k1 as nat).len() implies dec_str(k1 as nat)[i] == dec_str(
        k2 as nat,
    )[i] by {
        assert(s[l1 + 1 + i] == dec_str(k1 as nat)[i]);
        assert(s[l1 + 1 + i] == dec_str(k2 as nat)[i]);
    }
    assert(dec_str(k1 as nat) =~= dec_str(k2 as nat));
    lemma_val_dec_str(c1 as nat);
    lemma_val_dec_str(c2 as nat);
    lemma_val_dec_str(k1 as nat);
    lemma_val_dec_str(k2 as nat);
}

} // verus!
