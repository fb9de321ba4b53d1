use vstd::prelude::*;

verus! {

/// Calls `String::push`, which appends one character to the string.
/// Trusted: the contract states that the view gains exactly `c` at its end.
#[verifier::external_body]
pub(crate) fn push_char(s: &mut String, c: char)
    ensures
        final(s)@ == old(s)@.push(c),
{
    s.push(c);
}

/// Whether `s` holds exactly the characters of `lit`.
pub fn str_is(s: &str, lit: &str) -> (r: bool)
    ensures
        r == (s@ == lit@),
{
    let n = s.unicode_len();
    let m = lit.unicode_len();
    if n != m {
        return false;
    }
    let mut i: usize = 0;
    while i < n
        invariant
            n == s@.len(),
            m == lit@.len(),
            n == m,
            i <= n,
            forall|j: int| 0 <= j < i ==> s@[j] == lit@[j],
        decreases n - i,
    {
        if s.get_char(i) != lit.get_char(i) {
            return false;
        }
        i += 1;
    }
    assert(s@ =~= lit@);
    true
}

} // verus!

verus! {

/// `s` with every leading `"0x"` removed (as `trim_start_matches("0x")`).
pub open spec fn strip_0x(s: Seq<char>) -> Seq<char>
    decreases s.len(),
{
    if s.len() >= 2 && s[0] == '0' && s[1] == 'x' {
        strip_0x(s.subrange(2, s.len() as int))
    } else {
        s
    }
}

/// The value of a hexadecimal digit.
pub open spec fn hex_digit(c: char) -> Option<int> {
    let u = c as u32;
    if 0x30 <= u <= 0x39 {
        Some(u - 0x30)
    } else if 0x61 <= u <= 0x66 {
        Some(u - 0x61 + 10)
    } else if 0x41 <= u <= 0x46 {
        Some(u - 0x41 + 10)
    } else {
        None
    }
}

/// The value of a string of hexadecimal digits (0 for the empty string).
pub open spec fn hex_value(s: Seq<char>) -> Option<int>
    decreases s.len(),
{
    if s.len() == 0 {
        Some(0)
    } else {
        match (hex_value(s.drop_last()), hex_digit(s.last())) {
            (Some(v), Some(d)) => Some(v * 16 + d),
            _ => None,
        }
    }
}

/// Parsing a byte in base 16 (as `u8::from_str_radix(s, 16)`): an optional
/// `+`, then at least one digit, with a value below 256.
pub open spec fn parse_hex_u8(s: Seq<char>) -> Option<u8> {
    let t = if s.len() > 0 && s[0] == '+' { s.drop_first() } else { s };
    if t.len() == 0 {
        None
    } else {
        match hex_value(t) {
            Some(v) => if v <= 255 { Some(v as u8) } else { None },
            None => None,
        }
    }
}

/// The opcode that a table key such as `"0x3E"` names.
pub open spec fn opcode_key(s: Seq<char>) -> Option<u8> {
    parse_hex_u8(strip_0x(s))
}

fn hex_digit_exec(c: char) -> (r: Option<u32>)
    ensures
        r matches Some(d) ==> hex_digit(c) == Some(d as int) && d < 16,
        r is None ==> hex_digit(c) is None,
{
    let u = c as u32;
    if 0x30 <= u && u <= 0x39 {
        Some(u - 0x30)
    } else if 0x61 <= u && u <= 0x66 {
        Some(u - 0x61 + 10)
    } else if 0x41 <= u && u <= 0x46 {
        Some(u - 0x41 + 10)
    } else {
        None
    }
}

/// A valid digit string grows with each further digit.
proof fn lemma_hex_value_prefix(s: Seq<char>, i: int)
    requires
        0 <= i <= s.len(),
        hex_value(s) is Some,
    ensures
        hex_value(s.subrange(0, i)) is Some,
        hex_value(s.subrange(0, i))->0 <= hex_value(s)->0,
        hex_value(s.subrange(0, i))->0 >= 0,
    decreases s.len(),
{
    if s.len() == 0 {
        assert(s.subrange(0, i) =~= s);
    } else if i == s.len() {
        assert(s.subrange(0, i) =~= s);
        lemma_hex_value_prefix(s.drop_last(), 0);
        assert(s.drop_last().subrange(0, 0) =~= Seq::<char>::empty());
    } else {
        lemma_hex_value_prefix(s.drop_last(), i);
        assert(s.drop_last().subrange(0, i) =~= s.subrange(0, i));
        lemma_hex_value_prefix(s.drop_last(), s.len() - 1);
        assert(s.drop_last().subrange(0, s.len() - 1) =~= s.drop_last());
    }
}

/// Parses an opcode key of the table file (see `opcode_key`).
pub fn parse_opcode_key(key: &str) -> (r: Option<u8>)
    ensures
        r == opcode_key(key@),
{
    let n = key.unicode_len();
    let mut start: usize = 0;
    assert(key@.subrange(0, n as int) =~= key@);
    while n - start >= 2 && key.get_char(start) == '0' && key.get_char(start + 1) == 'x'
        invariant
            n == key@.len(),
            start <= n,
            strip_0x(key@) == strip_0x(key@.subrange(start as int, n as int)),
        decreases n - start,
    {
        proof {
            let t = key@.subrange(start as int, n as int);
            assert(t.subrange(2, t.len() as int) =~= key@.subrange(start + 2, n as int));
        }
        start += 2;
    }
    let ghost stripped = key@.subrange(start as int, n as int);
    assert(strip_0x(key@) == stripped);
    let mut i = start;
    if i < n && key.get_char(i) == '+' {
        i += 1;
    }
    let ghost t = key@.subrange(i as int, n as int);
    assert(t == (if stripped.len() > 0 && stripped[0] == '+' { stripped.drop_first() } else { stripped }));
    if i == n {
        return None;
    }
    let first = i;
    let mut v: u32 = 0;
    let mut over = false;
    assert(opcode_key(key@) == match hex_value(t) {
        Some(x) => if x <= 255 { Some(x as u8) } else { None },
        None => None,
    });
    while i < n
        invariant
            opcode_key(key@) == match hex_value(t) {
                Some(x) => if x <= 255 { Some(x as u8) } else { None },
                None => None,
            },
            n == key@.len(),
            first <= i <= n,
            t == key@.subrange(first as int, n as int),
            hex_value(key@.subrange(first as int, i as int)) matches Some(x) && (
                if over { x > 255 } else { x == v as int && v <= 255 }),
        decreases n - i,
    {
        let c = key.get_char(i);
        match hex_digit_exec(c) {
            Some(d) => {
                proof {
                    let p = key@.subrange(first as int, i + 1);
                    assert(p.drop_last() =~= key@.subrange(first as int, i as int));
                    assert(p.last() == c);
                }
                if !over {
                    v = v * 16 + d;
                    if v > 255 {
                        over = true;
                    }
                }
            },
            None => {
                proof {
                    let p = key@.subrange(first as int, i + 1);
                    assert(p.drop_last() =~= key@.subrange(first as int, i as int));
                    assert(hex_value(p) is None);
                    if hex_value(t) is Some {
                        lemma_hex_value_prefix(t, i + 1 - first);
                        assert(t.subrange(0, i + 1 - first) =~= p);
                    }
                }
                return None;
            },
        }
        i += 1;
    }
    assert(key@.subrange(first as int, n as int) =~= t);
    if over {
        None
    } else {
        Some(v as u8)
    }
}

} // verus!
