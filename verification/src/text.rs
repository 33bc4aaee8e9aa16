//! Text helpers shared by the fetcher and the interface: decimal numbers,
//! and fields of a string split at a separator character.
use vstd::prelude::*;

verus! {

/// `c` is one of the ASCII digits `0` to `9`.
pub open spec fn is_digit(c: char) -> bool {
    '0' <= c && c <= '9'
}

/// The value of the ASCII digit `c`.
pub open spec fn digit_value(c: char) -> int {
    c as int - '0' as int
}

/// The ASCII digit that stands for `d`, where `0 <= d < 10`.
pub open spec fn digit_char(d: int) -> char {
    if d == 0 {
        '0'
    } else if d == 1 {
        '1'
    } else if d == 2 {
        '2'
    } else if d == 3 {
        '3'
    } else if d == 4 {
        '4'
    } else if d == 5 {
        '5'
    } else if d == 6 {
        '6'
    } else if d == 7 {
        '7'
    } else if d == 8 {
        '8'
    } else {
        '9'
    }
}

/// The decimal notation of `n`, as `{}` prints an unsigned integer:
/// no sign, no leading zeros, and `0` for zero.
pub open spec fn decimal(n: nat) -> Seq<char>
    decreases n,
{
    if n < 10 {
        seq![digit_char(n as int)]
    } else {
        decimal(n / 10).push(digit_char((n % 10) as int))
    }
}

/// The number that the digit string `s` denotes (most significant digit first).
pub open spec fn digits_value(s: Seq<char>) -> nat
    decreases s.len(),
{
    if s.len() == 0 {
        0
    } else {
        (digits_value(s.drop_last()) * 10 + digit_value(s.last())) as nat
    }
}

/// Every character of `s` is an ASCII digit.
pub open spec fn all_digits(s: Seq<char>) -> bool {
    forall|i: int| 0 <= i < s.len() ==> is_digit(#[trigger] s[i])
}

/// What `str::parse::<u64>` gives for `s`: an optional `+` sign, then at least
/// one ASCII digit and nothing else, with a value that fits in a `u64`.
pub open spec fn parsed_u64(s: Seq<char>) -> Option<u64> {
    let body = if s.len() > 0 && s[0] == '+' {
        s.drop_first()
    } else {
        s
    };
    if body.len() > 0 && all_digits(body) && digits_value(body) <= u64::MAX {
        Some(digits_value(body) as u64)
    } else {
        None
    }
}

/// Digit characters stand for their digit.
pub proof fn lemma_digit_char(d: int)
    requires
        0 <= d < 10,
    ensures
        is_digit(digit_char(d)),
        digit_value(digit_char(d)) == d,
{
}

/// The decimal notation of `n` is a non-empty digit string worth `n`.
pub proof fn lemma_decimal_digits(n: nat)
    ensures
        decimal(n).len() > 0,
        all_digits(decimal(n)),
        digits_value(decimal(n)) == n,
    decreases n,
{
    lemma_digit_char((n % 10) as int);
    if n >= 10 {
        lemma_decimal_digits(n / 10);
        assert((n / 10) * 10 + n % 10 == n);
        let d = decimal(n);
        assert(d.drop_last() =~= decimal(n / 10));
        assert(d.last() == digit_char((n % 10) as int));
        assert(digits_value(d) == digits_value(d.drop_last()) * 10 + digit_value(d.last()));
        assert forall|i: int| 0 <= i < d.len() implies is_digit(#[trigger] d[i]) by {
            if i < d.len() - 1 {
                assert(d[i] == decimal(n / 10)[i]);
            }
        }
    } else {
        assert(decimal(n).drop_last() =~= Seq::<char>::empty());
        assert(n % 10 == n);
        assert(digits_value(decimal(n)) == digits_value(decimal(n).drop_last()) * 10 + digit_value(
            decimal(n).last(),
        ));
    }
}

/// Law: reading back the decimal notation of a `u64` gives the number again,
/// so `parse_u64(&decimal_string(n)) == Some(n)`.
pub proof fn lemma_parse_decimal(n: u64)
    ensures
        parsed_u64(decimal(n as nat)) == Some(n),
{
    lemma_decimal_digits(n as nat);
    let d = decimal(n as nat);
    assert(is_digit(d[0]));
}

/// The fields of `s` between occurrences of `sep`, as `str::split` yields them:
/// `k` separators give `k + 1` fields, some of which may be empty.
pub open spec fn split_fields(s: Seq<char>, sep: char) -> Seq<Seq<char>>
    decreases s.len(),
{
    if s.len() == 0 {
        seq![Seq::empty()]
    } else {
        let fields = split_fields(s.drop_last(), sep);
        if s.last() == sep {
            fields.push(Seq::empty())
        } else {
            fields.update(fields.len() - 1, fields.last().push(s.last()))
        }
    }
}

/// The last field of `s` split at `sep`: what follows the last `sep`, or all of
/// `s` when it holds none (`s.split(sep).last()`).
pub open spec fn last_field(s: Seq<char>, sep: char) -> Seq<char> {
    split_fields(s, sep).last()
}

/// The fields joined back together with `sep` between neighbours.
pub open spec fn join_fields(fields: Seq<Seq<char>>, sep: char) -> Seq<char>
    decreases fields.len(),
{
    if fields.len() <= 1 {
        if fields.len() == 0 {
            Seq::empty()
        } else {
            fields[0]
        }
    } else {
        join_fields(fields.drop_last(), sep).push(sep) + fields.last()
    }
}

/// Splitting always gives at least one field.
pub proof fn lemma_split_fields_len(s: Seq<char>, sep: char)
    ensures
        split_fields(s, sep).len() >= 1,
        split_fields(s, sep).len() == 1 + s.filter(|c: char| c == sep).len(),
    decreases s.len(),
{
    reveal(Seq::filter);
    if s.len() > 0 {
        lemma_split_fields_len(s.drop_last(), sep);
    }
}

/// Law: the last field is what follows the last separator. It is a suffix of
/// `s` that holds no separator, and it is either all of `s` or comes right
/// after a separator.
pub proof fn lemma_last_field_after_last_separator(s: Seq<char>, sep: char)
    ensures
        last_field(s, sep).len() <= s.len(),
        s.skip(s.len() - last_field(s, sep).len()) == last_field(s, sep),
        forall|i: int|
            0 <= i < last_field(s, sep).len() ==> #[trigger] last_field(s, sep)[i] != sep,
        last_field(s, sep).len() == s.len() || s[s.len() - last_field(s, sep).len() - 1] == sep,
    decreases s.len(),
{
    if s.len() == 0 {
        assert(s.skip(0) =~= s);
    } else {
        let t = s.drop_last();
        let c = s.last();
        lemma_last_field_after_last_separator(t, sep);
        lemma_split_fields_len(t, sep);
        let f = last_field(s, sep);
        if c == sep {
            assert(f =~= Seq::<char>::empty());
            assert(s.skip(s.len() as int) =~= f);
        } else {
            let g = last_field(t, sep);
            assert(f == g.push(c));
            assert(s.skip(s.len() - f.len()) =~= t.skip(t.len() - g.len()).push(c));
            assert forall|i: int| 0 <= i < f.len() implies #[trigger] f[i] != sep by {
                if i < g.len() {
                    assert(f[i] == g[i]);
                }
            }
            if f.len() < s.len() {
                assert(s[s.len() - f.len() - 1] == t[t.len() - g.len() - 1]);
            }
        }
    }
}

/// Law: joining the fields of a split with the same separator gives back the
/// string, and no field holds the separator.
pub proof fn lemma_split_join(s: Seq<char>, sep: char)
    ensures
        join_fields(split_fields(s, sep), sep) == s,
        forall|i: int, j: int|
            0 <= i < split_fields(s, sep).len() && 0 <= j < split_fields(s, sep)[i].len()
                ==> split_fields(s, sep)[i][j] != sep,
    decreases s.len(),
{
    if s.len() > 0 {
        let t = s.drop_last();
        let c = s.last();
        lemma_split_join(t, sep);
        lemma_split_fields_len(t, sep);
        let f = split_fields(t, sep);
        let g = split_fields(s, sep);
        if c == sep {
            assert(g.drop_last() =~= f);
            assert(join_fields(g, sep) =~= s);
        } else {
            if f.len() == 1 {
                assert(join_fields(g, sep) =~= s);
            } else {
                assert(g.drop_last() =~= f.drop_last());
                assert(g.last() == f.last().push(c));
                let head = join_fields(f.drop_last(), sep).push(sep);
                assert(join_fields(f, sep) == head + f.last());
                assert(join_fields(g, sep) == head + f.last().push(c));
                assert(head + f.last().push(c) =~= (head + f.last()).push(c));
                assert(t.push(c) =~= s);
            }
            assert forall|i: int, j: int| 0 <= i < g.len() && 0 <= j < g[i].len() implies g[i][j]
                != sep by {
                if i < f.len() - 1 {
                    assert(g[i] == f[i]);
                } else if j < f.last().len() {
                    assert(g[i][j] == f[i][j]);
                }
            }
        }
    }
}

/// Adding a character to a string extends the split by one step.
proof fn lemma_split_fields_step(s: Seq<char>, i: int, sep: char)
    requires
        0 <= i < s.len(),
    ensures
        split_fields(s.take(i + 1), sep) == (if s[i] == sep {
            split_fields(s.take(i), sep).push(Seq::empty())
        } else {
            split_fields(s.take(i), sep).update(
                split_fields(s.take(i), sep).len() - 1,
                split_fields(s.take(i), sep).last().push(s[i]),
            )
        }),
{
    assert(s.take(i + 1).drop_last() =~= s.take(i));
    assert(s.take(i + 1).last() == s[i]);
}

/// The last field of `s` at `sep`, as `s.split(sep).last()` gives it.
pub fn last_field_of(s: &str, sep: char) -> (r: String)
    ensures
        r@ == last_field(s@, sep),
{
    let n = s.unicode_len();
    let mut start: usize = 0;
    let mut i: usize = 0;
    assert(s@.take(0) =~= Seq::<char>::empty());
    assert(s@.subrange(0, 0) =~= Seq::<char>::empty());
    while i < n
        invariant
            0 <= start <= i <= n,
            n == s@.len(),
            split_fields(s@.take(i as int), sep).last() == s@.subrange(start as int, i as int),
        decreases n - i,
    {
        proof {
            lemma_split_fields_step(s@, i as int, sep);
            lemma_split_fields_len(s@.take(i as int), sep);
        }
        if s.get_char(i) == sep {
            start = i + 1;
            assert(s@.subrange(start as int, i + 1) =~= Seq::<char>::empty());
        } else {
            assert(s@.subrange(start as int, i + 1) =~= s@.subrange(start as int, i as int).push(
                s@[i as int],
            ));
        }
        i = i + 1;
    }
    assert(s@.take(n as int) =~= s@);
    String::from_str(s.substring_char(start, n))
}

/// The one-character string of the digit `d`.
fn digit_str(d: u64) -> (r: &'static str)
    requires
        d < 10,
    ensures
        r@ == seq![digit_char(d as int)],
{
    if d == 0 {
        proof { reveal_strlit("0"); }
        "0"
    } else if d == 1 {
        proof { reveal_strlit("1"); }
        "1"
    } else if d == 2 {
        proof { reveal_strlit("2"); }
        "2"
    } else if d == 3 {
        proof { reveal_strlit("3"); }
        "3"
    } else if d == 4 {
        proof { reveal_strlit("4"); }
        "4"
    } else if d == 5 {
        proof { reveal_strlit("5"); }
        "5"
    } else if d == 6 {
        proof { reveal_strlit("6"); }
        "6"
    } else if d == 7 {
        proof { reveal_strlit("7"); }
        "7"
    } else if d == 8 {
        proof { reveal_strlit("8"); }
        "8"
    } else {
        proof { reveal_strlit("9"); }
        "9"
    }
}

/// Appends the decimal notation of `n` to `s`.
pub fn push_decimal(s: &mut String, n: u64)
    ensures
        final(s)@ == old(s)@ + decimal(n as nat),
    decreases n,
{
    if n >= 10 {
        push_decimal(s, n / 10);
    }
    s.append(digit_str(n % 10));
    assert(s@ =~= old(s)@ + decimal(n as nat));
}

/// The decimal notation of `n`, as `n.to_string()` gives it.
pub fn decimal_string(n: u64) -> (r: String)
    ensures
        r@ == decimal(n as nat),
{
    let mut s = String::new();
    push_decimal(&mut s, n);
    assert(s@ =~= decimal(n as nat));
    s
}

/// A digit string denotes at least as much as any of its prefixes.
pub proof fn lemma_digits_value_prefix(s: Seq<char>, k: int)
    requires
        0 <= k <= s.len(),
        all_digits(s),
    ensures
        digits_value(s.take(k)) <= digits_value(s),
    decreases s.len(),
{
    if k < s.len() {
        let init = s.drop_last();
        assert(all_digits(init)) by {
            assert forall|i: int| 0 <= i < init.len() implies is_digit(#[trigger] init[i]) by {
                assert(init[i] == s[i]);
            }
        }
        lemma_digits_value_prefix(init, k);
        assert(init.take(k) =~= s.take(k));
        assert(is_digit(s[s.len() - 1]));
    } else {
        assert(s.take(k) =~= s);
    }
}

/// Reads an unsigned decimal number as `str::parse::<u64>` does.
pub fn parse_u64(s: &str) -> (r: Option<u64>)
    ensures
        r == parsed_u64(s@),
{
    let n = s.unicode_len();
    let start: usize = if n > 0 && s.get_char(0) == '+' {
        1
    } else {
        0
    };
    let ghost body = if s@.len() > 0 && s@[0] == '+' {
        s@.drop_first()
    } else {
        s@
    };
    assert(body =~= s@.subrange(start as int, n as int));
    if start == n {
        return None;
    }
    let mut i: usize = start;
    let mut value: u64 = 0;
    assert(s@.subrange(start as int, i as int) =~= Seq::<char>::empty());
    while i < n
        invariant
            start <= i <= n,
            n == s@.len(),
            body == s@.subrange(start as int, n as int),
            body == (if s@.len() > 0 && s@[0] == '+' {
                s@.drop_first()
            } else {
                s@
            }),
            all_digits(s@.subrange(start as int, i as int)),
            value == digits_value(s@.subrange(start as int, i as int)),
        decreases n - i,
    {
        let c = s.get_char(i);
        let ghost done = s@.subrange(start as int, i as int);
        let ghost next = s@.subrange(start as int, i + 1);
        assert(next.drop_last() =~= done);
        assert(next.last() == c);
        assert(body[i - start] == c);
        if !('0' <= c && c <= '9') {
            assert(!all_digits(body));
            return None;
        }
        let d = (c as u32 - '0' as u32) as u64;
        assert(all_digits(next)) by {
            assert forall|j: int| 0 <= j < next.len() implies is_digit(#[trigger] next[j]) by {
                if j < next.len() - 1 {
                    assert(next[j] == done[j]);
                }
            }
        }
        assert(next =~= body.take(i + 1 - start));
        match value.checked_mul(10) {
            None => {
                proof {
                    if all_digits(body) {
                        lemma_digits_value_prefix(body, i + 1 - start);
                    }
                }
                return None;
            },
            Some(v) => match v.checked_add(d) {
                None => {
                    proof {
                        if all_digits(body) {
                            lemma_digits_value_prefix(body, i + 1 - start);
                        }
                    }
                    return None;
                },
                Some(w) => {
                    value = w;
                },
            },
        }
        i = i + 1;
    }
    assert(s@.subrange(start as int, i as int) == body);
    Some(value)
}

} // verus!
