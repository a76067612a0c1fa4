use vstd::prelude::*;

verus! {

/// `16` raised to the power `n`.
pub open spec fn pow16(n: nat) -> nat
    decreases n,
{
    if n == 0 {
        1
    } else {
        16 * pow16((n - 1) as nat)
    }
}

/// The text with every dash removed, the other characters kept in order.
pub open spec fn normalized(s: Seq<char>) -> Seq<char>
    decreases s.len(),
{
    if s.len() == 0 {
        Seq::empty()
    } else if s.last() == '-' {
        normalized(s.drop_last())
    } else {
        normalized(s.drop_last()).push(s.last())
    }
}

/// One of `0-9`, `a-f` or `A-F`.
pub open spec fn is_hex_digit(c: char) -> bool {
    (0x30 <= c as u32 && c as u32 <= 0x39) || (0x61 <= c as u32 && c as u32 <= 0x66) || (0x41
        <= c as u32 && c as u32 <= 0x46)
}

/// Every character of `s` is a hexadecimal digit.
pub open spec fn all_hex(s: Seq<char>) -> bool {
    forall|i: int| 0 <= i < s.len() ==> is_hex_digit(#[trigger] s[i])
}

/// The value of a hexadecimal digit, in either case.
pub open spec fn digit_value(c: char) -> nat {
    if c as u32 <= 0x39 {
        (c as u32 - 0x30) as nat
    } else if c as u32 <= 0x46 {
        (c as u32 - 0x41 + 10) as nat
    } else {
        (c as u32 - 0x61 + 10) as nat
    }
}

/// The number that a string of hexadecimal digits denotes, most significant first.
pub open spec fn hex_value(s: Seq<char>) -> nat
    decreases s.len(),
{
    if s.len() == 0 {
        0
    } else {
        hex_value(s.drop_last()) * 16 + digit_value(s.last())
    }
}

/// The lowercase digit for a value below 16.
pub open spec fn lower_digit(d: nat) -> char {
    if d == 0 {
        '0'
    } else if d == 1 {
        '1'
    } else if d == 2 {
        '2'
    } else if d == 3 {
        '3'
    } else if d == 4 {
        '4'
    } else if d == 5 {
        '5'
    } else if d == 6 {
        '6'
    } else if d == 7 {
        '7'
    } else if d == 8 {
        '8'
    } else if d == 9 {
        '9'
    } else if d == 10 {
        'a'
    } else if d == 11 {
        'b'
    } else if d == 12 {
        'c'
    } else if d == 13 {
        'd'
    } else if d == 14 {
        'e'
    } else {
        'f'
    }
}

/// The last `n` hexadecimal digits of `v`, lowercase, zero-padded, most
/// significant first.
pub open spec fn hex_digits(v: nat, n: nat) -> Seq<char>
    decreases n,
{
    if n == 0 {
        Seq::empty()
    } else {
        hex_digits(v / 16, (n - 1) as nat).push(lower_digit(v % 16))
    }
}

pub proof fn lemma_lower_digit(d: nat)
    requires
        d < 16,
    ensures
        is_hex_digit(lower_digit(d)),
        digit_value(lower_digit(d)) == d,
{
}

pub proof fn lemma_pow16_monotone(a: nat, b: nat)
    requires
        a <= b,
    ensures
        pow16(a) <= pow16(b),
    decreases b,
{
    if a < b {
        lemma_pow16_monotone(a, (b - 1) as nat);
    }
}

/// A string of `n` digits denotes a number below `16^n`.
pub proof fn lemma_hex_value_bound(s: Seq<char>)
    requires
        all_hex(s),
    ensures
        hex_value(s) < pow16(s.len()),
    decreases s.len(),
{
    if s.len() > 0 {
        let p = s.drop_last();
        assert(all_hex(p)) by {
            assert forall|i: int| 0 <= i < p.len() implies is_hex_digit(#[trigger] p[i]) by {
                assert(p[i] == s[i]);
            }
        }
        lemma_hex_value_bound(p);
        assert(is_hex_digit(s[s.len() - 1]));
        let a = hex_value(p);
        let q = pow16(p.len());
        let d = digit_value(s.last());
        assert(d < 16);
        assert(a * 16 + d < 16 * q) by (nonlinear_arith)
            requires
                a < q,
                d < 16,
        ;
    }
}

/// Writing `v` in `n` digits and reading them back gives `v` again.
pub proof fn lemma_hex_digits(v: nat, n: nat)
    requires
        v < pow16(n),
    ensures
        hex_digits(v, n).len() == n,
        all_hex(hex_digits(v, n)),
        hex_value(hex_digits(v, n)) == v,
    decreases n,
{
    if n > 0 {
        let p = pow16((n - 1) as nat);
        assert(v / 16 < p) by (nonlinear_arith)
            requires
                v < 16 * p,
        ;
        lemma_hex_digits(v / 16, (n - 1) as nat);
        lemma_lower_digit(v % 16);
        let s = hex_digits(v, n);
        let r = hex_digits(v / 16, (n - 1) as nat);
        assert(s.drop_last() == r);
        assert forall|i: int| 0 <= i < s.len() implies is_hex_digit(#[trigger] s[i]) by {
            if i < r.len() {
                assert(s[i] == r[i]);
            }
        }
        assert(v == (v / 16) * 16 + v % 16) by (nonlinear_arith);
    }
}

/// Dashes at the end of the text do not count.
proof fn lemma_normalized_push(s: Seq<char>, c: char)
    ensures
        normalized(s.push(c)) == if c == '-' {
            normalized(s)
        } else {
            normalized(s).push(c)
        },
{
    assert(s.push(c).drop_last() == s);
}

/// A dash inserted anywhere leaves the normalized text as it was.
pub proof fn lemma_normalized_insert_dash(s: Seq<char>, i: int)
    requires
        0 <= i <= s.len(),
    ensures
        normalized(s.insert(i, '-')) == normalized(s),
    decreases s.len(),
{
    let t = s.insert(i, '-');
    if i == s.len() {
        assert(t == s.push('-'));
        lemma_normalized_push(s, '-');
    } else {
        let p = s.drop_last();
        lemma_normalized_insert_dash(p, i);
        assert(t == p.insert(i, '-').push(s.last()));
        assert(s == p.push(s.last()));
        lemma_normalized_push(p.insert(i, '-'), s.last());
        lemma_normalized_push(p, s.last());
    }
}

/// Relies on `String::push`: appends one character at the end.
#[verifier::external_body]
fn push_char(s: &mut String, c: char)
    ensures
        final(s)@ == old(s)@.push(c),
{
    s.push(c)
}

/// The value of `c` as a hexadecimal digit, or `None` where it is not one.
pub fn digit_of(c: char) -> (r: Option<u8>)
    ensures
        r is Some <==> is_hex_digit(c),
        r matches Some(d) ==> d as nat == digit_value(c) && d < 16,
{
    let x = c as u32;
    if 0x30 <= x && x <= 0x39 {
        Some((x - 0x30) as u8)
    } else if 0x61 <= x && x <= 0x66 {
        Some((x - 0x61 + 10) as u8)
    } else if 0x41 <= x && x <= 0x46 {
        Some((x - 0x41 + 10) as u8)
    } else {
        None
    }
}

/// The lowercase hexadecimal digit for `d`.
pub fn digit_char(d: u8) -> (c: char)
    requires
        d < 16,
    ensures
        c == lower_digit(d as nat),
{
    match d {
        0 => '0',
        1 => '1',
        2 => '2',
        3 => '3',
        4 => '4',
        5 => '5',
        6 => '6',
        7 => '7',
        8 => '8',
        9 => '9',
        10 => 'a',
        11 => 'b',
        12 => 'c',
        13 => 'd',
        14 => 'e',
        _ => 'f',
    }
}

/// The characters of `s` with every dash removed.
pub fn normalize_chars(s: &str) -> (r: Vec<char>)
    ensures
        r@ == normalized(s@),
{
    let n = s.unicode_len();
    let mut r: Vec<char> = Vec::new();
    let mut i: usize = 0;
    while i < n
        invariant
            n == s@.len(),
            i <= n,
            r@ == normalized(s@.subrange(0, i as int)),
        decreases n - i,
    {
        let c = s.get_char(i);
        proof {
            lemma_normalized_push(s@.subrange(0, i as int), c);
            assert(s@.subrange(0, i as int).push(c) == s@.subrange(0, i + 1));
        }
        if c != '-' {
            r.push(c);
        }
        i = i + 1;
    }
    assert(s@.subrange(0, n as int) == s@);
    r
}

/// The text `s` with every dash removed, the other characters kept in order.
pub fn normalize(s: &str) -> (r: String)
    ensures
        r@ == normalized(s@),
{
    let cs = normalize_chars(s);
    let mut r = String::new();
    let mut i: usize = 0;
    while i < cs.len()
        invariant
            i <= cs@.len(),
            r@ == cs@.subrange(0, i as int),
        decreases cs@.len() - i,
    {
        push_char(&mut r, cs[i]);
        assert(cs@.subrange(0, i + 1) == cs@.subrange(0, i as int).push(cs@[i as int]));
        i = i + 1;
    }
    assert(cs@.subrange(0, cs@.len() as int) == cs@);
    r
}

/// Reads a string of at most 32 characters as a hexadecimal number, or
/// `None` where one of them is not a hexadecimal digit.
pub fn decode_digits(d: &Vec<char>) -> (r: Option<u128>)
    requires
        d@.len() <= 32,
    ensures
        r is Some <==> all_hex(d@),
        r matches Some(v) ==> v as nat == hex_value(d@),
{
    let mut acc: u128 = 0;
    let mut i: usize = 0;
    proof {
        reveal_with_fuel(pow16, 33);
        lemma_pow16_monotone(d@.len(), 32);
    }
    assert(pow16(32) == 0x1_0000_0000_0000_0000_0000_0000_0000_0000);
    while i < d.len()
        invariant
            i <= d@.len() <= 32,
            pow16(d@.len()) <= 0x1_0000_0000_0000_0000_0000_0000_0000_0000,
            all_hex(d@.subrange(0, i as int)),
            acc as nat == hex_value(d@.subrange(0, i as int)),
        decreases d@.len() - i,
    {
        let c = d[i];
        let ghost pre = d@.subrange(0, i as int);
        let ghost next = d@.subrange(0, i + 1);
        assert(next.drop_last() == pre);
        match digit_of(c) {
            None => {
                assert(!all_hex(d@) && d@[i as int] == c);
                return None;
            },
            Some(x) => {
                proof {
                    assert forall|j: int| 0 <= j < next.len() implies is_hex_digit(
                        #[trigger] next[j],
                    ) by {
                        if j < i {
                            assert(next[j] == pre[j]);
                        }
                    }
                    lemma_hex_value_bound(next);
                    lemma_pow16_monotone(next.len(), d@.len());
                }
                acc = acc * 16 + x as u128;
                i = i + 1;
            },
        }
    }
    assert(d@.subrange(0, d@.len() as int) == d@);
    Some(acc)
}

/// Appends the last `n` hexadecimal digits of `v`, lowercase and zero-padded.
pub fn push_digits(out: &mut String, v: u128, n: usize)
    ensures
        final(out)@ == old(out)@ + hex_digits(v as nat, n as nat),
    decreases n,
{
    if n == 0 {
        assert(old(out)@ + Seq::<char>::empty() == old(out)@);
    } else {
        push_digits(out, v / 16, n - 1);
        let c = digit_char((v % 16) as u8);
        push_char(out, c);
        assert(old(out)@ + hex_digits(v as nat, n as nat) == old(out)@ + hex_digits(
            (v / 16) as nat,
            (n - 1) as nat,
        ) + seq![c]);
    }
}

/// `v` as exactly `n` lowercase hexadecimal digits, zero-padded.
pub fn encode(v: u128, n: usize) -> (r: String)
    ensures
        r@ == hex_digits(v as nat, n as nat),
{
    let mut r = String::new();
    push_digits(&mut r, v, n);
    assert(Seq::<char>::empty() + hex_digits(v as nat, n as nat) == hex_digits(v as nat, n as nat));
    r
}

/// Text made of hexadecimal digits only has no dash to remove.
pub proof fn lemma_normalized_hex(s: Seq<char>)
    requires
        all_hex(s),
    ensures
        normalized(s) == s,
    decreases s.len(),
{
    if s.len() > 0 {
        let p = s.drop_last();
        assert forall|i: int| 0 <= i < p.len() implies is_hex_digit(#[trigger] p[i]) by {
            assert(p[i] == s[i]);
        }
        lemma_normalized_hex(p);
        assert(is_hex_digit(s[s.len() - 1]));
        assert(s == p.push(s.last()));
    }
}

} // verus!
