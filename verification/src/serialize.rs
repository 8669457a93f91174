//! Rendering of registered values as the JSON snapshot text, with an exact
//! character-level specification.

use vstd::prelude::*;
use vstd::string::StringExecFns;
use crate::values::Value;

verus! {

/// The character of one decimal digit.
pub open spec fn digit_char(d: nat) -> char {
    if d == 0 {
        '0'
    } else if d == 1 {
        '1'
    } else if d == 2 {
        '2'
    } else if d == 3 {
        '3'
    } else if d == 4 {
        '4'
    } else if d == 5 {
        '5'
    } else if d == 6 {
        '6'
    } else if d == 7 {
        '7'
    } else if d == 8 {
        '8'
    } else {
        '9'
    }
}

/// The decimal digits of a natural number, most significant first.
pub open spec fn dec_digits(n: nat) -> Seq<char>
    decreases n,
{
    if n < 10 {
        seq![digit_char(n)]
    } else {
        dec_digits(n / 10).push(digit_char(n % 10))
    }
}

/// The decimal rendering of an integer, with a sign for negative values.
pub open spec fn int_chars(i: int) -> Seq<char> {
    if i < 0 {
        seq!['-'].add(dec_digits((-i) as nat))
    } else {
        dec_digits(i as nat)
    }
}

/// The JSON text of one value.
pub open spec fn value_chars(v: Value) -> Seq<char> {
    match v {
        Value::Bool(b) => if b {
            seq!['t', 'r', 'u', 'e']
        } else {
            seq!['f', 'a', 'l', 's', 'e']
        },
        Value::I32(x) => int_chars(x as int),
        Value::I64(x) => int_chars(x as int),
        Value::U32(x) => dec_digits(x as nat),
        Value::U64(x) => dec_digits(x as nat),
    }
}

/// The JSON fragment of one registered variable: `"name":value`.
pub open spec fn entry_chars(name: Seq<char>, v: Value) -> Seq<char> {
    seq!['"'].add(name).add(seq!['"', ':']).add(value_chars(v))
}

/// The concatenation of the fragments of a registry, in registration order.
pub open spec fn entries_chars(s: Seq<(Seq<char>, Value)>) -> Seq<char>
    decreases s.len(),
{
    if s.len() == 0 {
        Seq::empty()
    } else {
        entries_chars(s.drop_last()).add(entry_chars(s.last().0, s.last().1))
    }
}

/// Every registry entry's fragment appears verbatim in the rendered
/// registry text.
pub proof fn lemma_entries_chars_contains(s: Seq<(Seq<char>, Value)>, i: int)
    requires
        0 <= i < s.len(),
    ensures
        exists|off: int|
            0 <= off && off + entry_chars(s[i].0, s[i].1).len() <= entries_chars(s).len()
                && #[trigger] entries_chars(s).subrange(
                off,
                off + entry_chars(s[i].0, s[i].1).len() as int,
            ) == entry_chars(s[i].0, s[i].1),
    decreases s.len(),
{
    let fragment = entry_chars(s[i].0, s[i].1);
    if i == s.len() - 1 {
        let off = entries_chars(s.drop_last()).len() as int;
        assert(entries_chars(s).subrange(off, off + fragment.len() as int) =~= fragment);
    } else {
        assert(s.drop_last()[i] == s[i]);
        lemma_entries_chars_contains(s.drop_last(), i);
        let off = choose|off: int|
            0 <= off && off + fragment.len() <= entries_chars(s.drop_last()).len()
                && #[trigger] entries_chars(s.drop_last()).subrange(
                off,
                off + fragment.len() as int,
            ) == fragment;
        assert(entries_chars(s).subrange(off, off + fragment.len() as int) =~= entries_chars(
            s.drop_last(),
        ).subrange(off, off + fragment.len() as int));
    }
}

/// Reversing after one more push puts the pushed element in front.
proof fn lemma_reverse_push<A>(s: Seq<A>, c: A)
    ensures
        s.push(c).reverse() =~= seq![c].add(s.reverse()),
{
    assert forall|i: int| 0 <= i < s.len() + 1 implies s.push(c).reverse()[i] == seq![c].add(
        s.reverse(),
    )[i] by {
        if i == 0 {
            assert(s.push(c).reverse()[0] == s.push(c)[s.len() as int]);
        } else {
            assert(s.push(c).reverse()[i] == s.push(c)[s.len() - i]);
            assert(seq![c].add(s.reverse())[i] == s.reverse()[i - 1]);
            assert(s.reverse()[i - 1] == s[s.len() - i]);
        }
    }
}

/// Relies on String::push: appends one character.
#[verifier::external_body]
pub(crate) fn push_char(s: &mut String, c: char)
    ensures
        final(s)@ == old(s)@.push(c),
{
    s.push(c);
}

/// One decimal digit as a character.
fn digit_char_of(d: u64) -> (c: char)
    requires
        d < 10,
    ensures
        c == digit_char(d as nat),
{
    match d {
        0 => '0',
        1 => '1',
        2 => '2',
        3 => '3',
        4 => '4',
        5 => '5',
        6 => '6',
        7 => '7',
        8 => '8',
        _ => '9',
    }
}

/// The decimal text of an unsigned number.
pub fn u64_string(n: u64) -> (s: String)
    ensures
        s@ == dec_digits(n as nat),
{
    let mut rev: Vec<char> = Vec::new();
    let mut m: u64 = n;
    while m >= 10
        invariant
            dec_digits(n as nat) =~= dec_digits(m as nat).add(rev@.reverse()),
        decreases m,
    {
        let d = m % 10;
        proof {
            lemma_reverse_push(rev@, digit_char(d as nat));
            assert(dec_digits((m / 10) as nat).push(digit_char(d as nat)) =~= dec_digits(
                (m / 10) as nat,
            ).add(seq![digit_char(d as nat)]));
            assert(dec_digits((m / 10) as nat).add(seq![digit_char(d as nat)]).add(rev@.reverse())
                =~= dec_digits((m / 10) as nat).add(seq![digit_char(d as nat)].add(rev@.reverse())));
        }
        rev.push(digit_char_of(d));
        m = m / 10;
    }
    proof {
        lemma_reverse_push(rev@, digit_char(m as nat));
        assert(dec_digits(m as nat).add(rev@.reverse()) =~= seq![digit_char(m as nat)].add(
            rev@.reverse(),
        ));
    }
    rev.push(digit_char_of(m));
    assert(rev@.reverse() =~= dec_digits(n as nat));
    let mut s = String::new();
    loop
        invariant
            s@.add(rev@.reverse()) =~= dec_digits(n as nat),
        decreases rev@.len(),
    {
        match rev.pop() {
            Some(c) => {
                proof {
                    let prev = rev@.push(c);
                    lemma_reverse_push(rev@, c);
                    assert(prev.reverse() =~= seq![c].add(rev@.reverse()));
                    assert(s@.add(seq![c].add(rev@.reverse())) =~= s@.push(c).add(rev@.reverse()));
                }
                push_char(&mut s, c);
            },
            None => {
                assert(s@ =~= dec_digits(n as nat));
                return s;
            },
        }
    }
}

/// The decimal text of a signed number, with a leading minus when negative.
pub fn i64_string(x: i64) -> (s: String)
    ensures
        s@ == int_chars(x as int),
{
    if x >= 0 {
        u64_string(x as u64)
    } else {
        let wide: i128 = x as i128;
        let mag: u64 = (-wide) as u64;
        assert(mag as nat == (-(x as int)) as nat);
        let mut s = String::new();
        push_char(&mut s, '-');
        let digits = u64_string(mag);
        s.append(digits.as_str());
        proof {
            assert(s@ =~= seq!['-'].add(dec_digits(mag as nat)));
        }
        s
    }
}

/// The JSON text of one value.
pub fn value_string(v: &Value) -> (s: String)
    ensures
        s@ == value_chars(*v),
{
    match v {
        Value::Bool(b) => {
            if *b {
                let mut s = String::new();
                push_char(&mut s, 't');
                push_char(&mut s, 'r');
                push_char(&mut s, 'u');
                push_char(&mut s, 'e');
                assert(s@ =~= seq!['t', 'r', 'u', 'e']);
                s
            } else {
                let mut s = String::new();
                push_char(&mut s, 'f');
                push_char(&mut s, 'a');
                push_char(&mut s, 'l');
                push_char(&mut s, 's');
                push_char(&mut s, 'e');
                assert(s@ =~= seq!['f', 'a', 'l', 's', 'e']);
                s
            }
        },
        Value::I32(x) => i64_string(*x as i64),
        Value::I64(x) => i64_string(*x),
        Value::U32(x) => u64_string(*x as u64),
        Value::U64(x) => u64_string(*x),
    }
}

} // verus!
