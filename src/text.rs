//! Rendering numbers and lists of numbers as text.
use vstd::prelude::*;
use vstd::string::StringExecFns;

verus! {

/// The decimal digit `d`.
pub open spec fn digit_char(d: nat) -> char {
    if d == 0 {
        '0'
    } else if d == 1 {
        '1'
    } else if d == 2 {
        '2'
    } else if d == 3 {
        '3'
    } else if d == 4 {
        '4'
    } else if d == 5 {
        '5'
    } else if d == 6 {
        '6'
    } else if d == 7 {
        '7'
    } else if d == 8 {
        '8'
    } else {
        '9'
    }
}

/// `n` in decimal, without leading zeros.
pub open spec fn decimal(n: nat) -> Seq<char>
    decreases n,
{
    if n < 10 {
        seq![digit_char(n)]
    } else {
        decimal(n / 10) + seq![digit_char(n % 10)]
    }
}

/// The numbers of `s` in decimal, separated by `", "`.
pub open spec fn joined(s: Seq<usize>) -> Seq<char>
    decreases s.len(),
{
    if s.len() == 0 {
        Seq::empty()
    } else if s.len() == 1 {
        decimal(s[0] as nat)
    } else {
        joined(s.drop_last()) + seq![',', ' '] + decimal(s.last() as nat)
    }
}

/// `s` as a bracketed list: `[2, 3]`.
pub open spec fn list_text(s: Seq<usize>) -> Seq<char> {
    seq!['['] + joined(s) + seq![']']
}

fn push_digit(out: &mut String, d: usize)
    requires
        d < 10,
    ensures
        final(out)@ == old(out)@ + seq![digit_char(d as nat)],
{
    proof {
        reveal_strlit("0");
        reveal_strlit("1");
        reveal_strlit("2");
        reveal_strlit("3");
        reveal_strlit("4");
        reveal_strlit("5");
        reveal_strlit("6");
        reveal_strlit("7");
        reveal_strlit("8");
        reveal_strlit("9");
    }
    let digit = if d == 0 {
        "0"
    } else if d == 1 {
        "1"
    } else if d == 2 {
        "2"
    } else if d == 3 {
        "3"
    } else if d == 4 {
        "4"
    } else if d == 5 {
        "5"
    } else if d == 6 {
        "6"
    } else if d == 7 {
        "7"
    } else if d == 8 {
        "8"
    } else {
        "9"
    };
    out.append(digit);
}

/// Appends `n` in decimal.
pub fn push_decimal(out: &mut String, n: usize)
    ensures
        final(out)@ == old(out)@ + decimal(n as nat),
    decreases n,
{
    if n >= 10 {
        push_decimal(out, n / 10);
    }
    push_digit(out, n % 10);
    assert(decimal(n as nat) == if n < 10 {
        seq![digit_char(n as nat)]
    } else {
        decimal((n / 10) as nat) + seq![digit_char((n % 10) as nat)]
    });
}

/// Appends `items` as a bracketed list.
pub fn push_list(out: &mut String, items: &Vec<usize>)
    ensures
        final(out)@ == old(out)@ + list_text(items@),
{
    proof {
        reveal_strlit("[");
        reveal_strlit("]");
        reveal_strlit(", ");
    }
    let ghost start = out@;
    out.append("[");
    let mut i: usize = 0;
    while i < items.len()
        invariant
            i <= items@.len(),
            out@ == start + seq!['['] + joined(items@.take(i as int)),
        decreases items@.len() - i,
    {
        let ghost prev = out@;
        proof {
            reveal_strlit(", ");
        }
        if i > 0 {
            out.append(", ");
        }
        let ghost mid = out@;
        push_decimal(out, items[i]);
        proof {
            let t = items@.take(i + 1);
            assert(t.drop_last() =~= items@.take(i as int));
            assert(t.last() == items@[i as int]);
            if i == 0 {
                assert(t.len() == 1);
                assert(joined(t) == decimal(t[0] as nat));
                assert(mid == prev);
                assert(items@.take(0) =~= Seq::<usize>::empty());
                assert(joined(items@.take(0)) == Seq::<char>::empty());
                assert(out@ =~= start + seq!['['] + joined(t));
            } else {
                assert(joined(t) == joined(items@.take(i as int)) + seq![',', ' '] + decimal(items@[i as int] as nat));
                assert(mid =~= prev + seq![',', ' ']);
                assert(out@ =~= start + seq!['['] + joined(t));
            }
        }
        i = i + 1;
        assert(out@ =~= start + seq!['['] + joined(items@.take(i as int)));
    }
    assert(items@.take(items@.len() as int) =~= items@);
    out.append("]");
    assert(out@ =~= start + list_text(items@));
}

} // verus!
