use vstd::prelude::*;

verus! {

/// `s` begins with `prefix`.
pub open spec fn has_prefix(s: Seq<char>, prefix: Seq<char>) -> bool {
    prefix.len() <= s.len() && s.subrange(0, prefix.len() as int) == prefix
}

/// Byte strings in lexicographic order, the order of `str` and of byte slices:
/// `a` comes before `b` or equals it.
pub open spec fn bytes_le(a: Seq<u8>, b: Seq<u8>) -> bool
    decreases a.len(),
{
    if a.len() == 0 {
        true
    } else if b.len() == 0 {
        false
    } else if a[0] != b[0] {
        a[0] < b[0]
    } else {
        bytes_le(a.drop_first(), b.drop_first())
    }
}

/// Whether two strings hold the same characters.
pub fn text_eq(a: &str, b: &str) -> (r: bool)
    ensures
        r == (a@ == b@),
{
    let n = a.unicode_len();
    let m = b.unicode_len();
    if n != m {
        return false;
    }
    let mut i: usize = 0;
    while i < n
        invariant
            n == a@.len(),
            m == b@.len(),
            n == m,
            i <= n,
            a@.subrange(0, i as int) == b@.subrange(0, i as int),
        decreases n - i,
    {
        if a.get_char(i) != b.get_char(i) {
            return false;
        }
        assert(a@.subrange(0, i + 1) =~= a@.subrange(0, i as int).push(a@[i as int]));
        assert(b@.subrange(0, i + 1) =~= b@.subrange(0, i as int).push(b@[i as int]));
        i = i + 1;
    }
    assert(a@ =~= a@.subrange(0, n as int));
    assert(b@ =~= b@.subrange(0, n as int));
    true
}

/// Whether `s` begins with `prefix` (character for character).
pub fn text_starts_with(s: &str, prefix: &str) -> (r: bool)
    ensures
        r == has_prefix(s@, prefix@),
{
    let n = s.unicode_len();
    let p = prefix.unicode_len();
    if p > n {
        return false;
    }
    let mut i: usize = 0;
    while i < p
        invariant
            n == s@.len(),
            p == prefix@.len(),
            p <= n,
            i <= p,
            s@.subrange(0, i as int) == prefix@.subrange(0, i as int),
        decreases p - i,
    {
        if s.get_char(i) != prefix.get_char(i) {
            assert(s@.subrange(0, p as int)[i as int] != prefix@[i as int]);
            return false;
        }
        assert(s@.subrange(0, i + 1) =~= s@.subrange(0, i as int).push(s@[i as int]));
        assert(prefix@.subrange(0, i + 1) =~= prefix@.subrange(0, i as int).push(prefix@[i as int]));
        i = i + 1;
    }
    assert(prefix@ =~= prefix@.subrange(0, p as int));
    true
}

/// Whether the first `n` bytes of `a` come before `b` or equal it, in byte order.
pub fn bytes_prefix_le(a: &[u8], n: usize, b: &[u8]) -> (r: bool)
    requires
        n <= a@.len(),
    ensures
        r == bytes_le(a@.subrange(0, n as int), b@),
{
    let ghost x = a@.subrange(0, n as int);
    let ghost y = b@;
    let mut i: usize = 0;
    assert(x.skip(0) =~= x && y.skip(0) =~= y);
    while i < n
        invariant
            n <= a@.len(),
            x == a@.subrange(0, n as int),
            y == b@,
            i <= n,
            i <= y.len(),
            bytes_le(x, y) == bytes_le(x.skip(i as int), y.skip(i as int)),
        decreases n - i,
    {
        if i >= b.len() {
            assert(x.skip(i as int).len() > 0 && y.skip(i as int).len() == 0);
            return false;
        }
        let u = a[i];
        let v = b[i];
        assert(x.skip(i as int)[0] == u && y.skip(i as int)[0] == v);
        if u != v {
            return u < v;
        }
        assert(x.skip(i as int).drop_first() =~= x.skip(i + 1));
        assert(y.skip(i as int).drop_first() =~= y.skip(i + 1));
        i = i + 1;
    }
    assert(x.skip(i as int).len() == 0);
    true
}

/// Whether `a` comes before `b` or equals it, in byte order, where `b` is compared
/// by its first `n` bytes.
pub fn bytes_le_prefix(a: &[u8], b: &[u8], n: usize) -> (r: bool)
    requires
        n <= b@.len(),
    ensures
        r == bytes_le(a@, b@.subrange(0, n as int)),
{
    let ghost x = a@;
    let ghost y = b@.subrange(0, n as int);
    let mut i: usize = 0;
    assert(x.skip(0) =~= x && y.skip(0) =~= y);
    while i < a.len()
        invariant
            n <= b@.len(),
            x == a@,
            y == b@.subrange(0, n as int),
            i <= x.len(),
            i <= n,
            bytes_le(x, y) == bytes_le(x.skip(i as int), y.skip(i as int)),
        decreases a@.len() - i,
    {
        if i >= n {
            assert(x.skip(i as int).len() > 0 && y.skip(i as int).len() == 0);
            return false;
        }
        let u = a[i];
        let v = b[i];
        assert(x.skip(i as int)[0] == u && y.skip(i as int)[0] == v);
        if u != v {
            return u < v;
        }
        assert(x.skip(i as int).drop_first() =~= x.skip(i + 1));
        assert(y.skip(i as int).drop_first() =~= y.skip(i + 1));
        i = i + 1;
    }
    assert(x.skip(i as int).len() == 0);
    true
}

/// The decimal digit character for `d` in `0..=9`.
pub open spec fn digit_char(d: int) -> char {
    (d + 48) as char
}

/// The decimal text of a natural number, without sign and without leading zeros.
pub open spec fn decimal_text(n: nat) -> Seq<char>
    decreases n,
{
    if n < 10 {
        seq![digit_char(n as int)]
    } else {
        decimal_text(n / 10).push(digit_char((n % 10) as int))
    }
}

/// The digit text of a number from 0 to 9.
fn digit_text(d: u64) -> (r: &'static str)
    requires
        d < 10,
    ensures
        r@ == seq![digit_char(d as int)],
{
    proof {
        reveal_strlit("0");
        reveal_strlit("1");
        reveal_strlit("2");
        reveal_strlit("3");
        reveal_strlit("4");
        reveal_strlit("5");
        reveal_strlit("6");
        reveal_strlit("7");
        reveal_strlit("8");
        reveal_strlit("9");
    }
    match d {
        0 => "0",
        1 => "1",
        2 => "2",
        3 => "3",
        4 => "4",
        5 => "5",
        6 => "6",
        7 => "7",
        8 => "8",
        _ => "9",
    }
}

/// The decimal text of a number, as `u64`'s `Display` writes it.
pub(crate) fn decimal(n: u64) -> (r: String)
    ensures
        r@ == decimal_text(n as nat),
    decreases n,
{
    if n < 10 {
        String::from_str(digit_text(n))
    } else {
        let mut s = decimal(n / 10);
        s.append(digit_text(n % 10));
        s
    }
}

} // verus!
