//! Text helpers: decimal numbers, splitting and joining on a separator.

use vstd::prelude::*;

verus! {

/// Trusted: `String::push` appends the given character to the end of the
/// string, as its documentation says.
#[verifier::external_body]
pub(crate) fn push_char(s: &mut String, c: char)
    ensures
        final(s)@ == old(s)@.push(c),
{
    s.push(c);
}

/// The character of a decimal digit.
pub open spec fn digit_char(d: int) -> char {
    if d == 0 {
        '0'
    } else if d == 1 {
        '1'
    } else if d == 2 {
        '2'
    } else if d == 3 {
        '3'
    } else if d == 4 {
        '4'
    } else if d == 5 {
        '5'
    } else if d == 6 {
        '6'
    } else if d == 7 {
        '7'
    } else if d == 8 {
        '8'
    } else {
        '9'
    }
}

/// The decimal representation of `n`, without leading zeros.
pub open spec fn decimal(n: nat) -> Seq<char>
    decreases n,
{
    if n < 10 {
        seq![digit_char(n as int)]
    } else {
        decimal(n / 10).push(digit_char((n % 10) as int))
    }
}

/// A character that occurs in decimal numbers.
pub open spec fn is_digit(c: char) -> bool {
    '0' <= c <= '9'
}

/// The fields of `s` between occurrences of `sep`, as `str::split` gives them:
/// there is always at least one field, and empty fields are kept.
pub open spec fn split_on(s: Seq<char>, sep: char) -> Seq<Seq<char>>
    decreases s.len(),
{
    if s.len() == 0 {
        seq![Seq::empty()]
    } else {
        let fields = split_on(s.drop_last(), sep);
        if s.last() == sep {
            fields.push(Seq::empty())
        } else {
            fields.update(fields.len() - 1, fields.last().push(s.last()))
        }
    }
}

/// The fields joined with `sep` between neighbours, as `[..].join(..)` does.
pub open spec fn join_with(fields: Seq<Seq<char>>, sep: char) -> Seq<char>
    decreases fields.len(),
{
    if fields.len() == 0 {
        Seq::empty()
    } else if fields.len() == 1 {
        fields[0]
    } else {
        join_with(fields.drop_last(), sep).push(sep) + fields.last()
    }
}

/// The character sequences that a vector of strings holds.
pub open spec fn views(v: Seq<String>) -> Seq<Seq<char>> {
    v.map_values(|f: String| f@)
}

fn digit(d: u8) -> (c: char)
    requires
        d < 10,
    ensures
        c == digit_char(d as int),
        is_digit(c),
{
    if d == 0 {
        '0'
    } else if d == 1 {
        '1'
    } else if d == 2 {
        '2'
    } else if d == 3 {
        '3'
    } else if d == 4 {
        '4'
    } else if d == 5 {
        '5'
    } else if d == 6 {
        '6'
    } else if d == 7 {
        '7'
    } else if d == 8 {
        '8'
    } else {
        '9'
    }
}

/// The decimal representation of a byte, as `u8::to_string` writes it.
pub fn decimal_string(n: u8) -> (s: String)
    ensures
        s@ == decimal(n as nat),
{
    let mut s = String::new();
    if n >= 100 {
        push_char(&mut s, digit(n / 100));
        push_char(&mut s, digit((n / 10) % 10));
    } else if n >= 10 {
        push_char(&mut s, digit(n / 10));
    }
    push_char(&mut s, digit(n % 10));
    proof {
        reveal_with_fuel(decimal, 3);
        if n >= 100 {
            assert(decimal((n / 10) as nat) == decimal((n / 100) as nat).push(
                digit_char(((n / 10) % 10) as int),
            ));
        }
    }
    s
}

/// Every character of a decimal representation is a digit.
pub proof fn lemma_decimal_digits(n: nat)
    ensures
        forall|i: int| 0 <= i < decimal(n).len() ==> is_digit(#[trigger] decimal(n)[i]),
        decimal(n).len() >= 1,
    decreases n,
{
    if n >= 10 {
        lemma_decimal_digits(n / 10);
    }
}

/// Splitting always yields at least one field.
pub proof fn lemma_split_nonempty(s: Seq<char>, sep: char)
    ensures
        split_on(s, sep).len() >= 1,
    decreases s.len(),
{
    if s.len() > 0 {
        lemma_split_nonempty(s.drop_last(), sep);
    }
}

/// Appending text free of the separator extends the last field.
pub proof fn lemma_split_append_plain(x: Seq<char>, b: Seq<char>, sep: char)
    requires
        !b.contains(sep),
    ensures
        split_on(x + b, sep) == split_on(x, sep).update(
            split_on(x, sep).len() - 1,
            split_on(x, sep).last() + b,
        ),
    decreases b.len(),
{
    lemma_split_nonempty(x, sep);
    if b.len() == 0 {
        assert(x + b =~= x);
        assert(split_on(x, sep).last() + b =~= split_on(x, sep).last());
        assert(split_on(x, sep).update(split_on(x, sep).len() - 1, split_on(x, sep).last())
            =~= split_on(x, sep));
    } else {
        let b0 = b.drop_last();
        assert(!b0.contains(sep)) by {
            if b0.contains(sep) {
                let k = choose|k: int| 0 <= k < b0.len() && b0[k] == sep;
                assert(b[k] == sep);
            }
        }
        lemma_split_append_plain(x, b0, sep);
        assert((x + b).drop_last() =~= x + b0);
        assert((x + b).last() == b.last());
        assert(b.last() != sep) by {
            assert(b[b.len() - 1] == b.last());
        }
        lemma_split_nonempty(x + b0, sep);
        assert((split_on(x, sep).last() + b0).push(b.last()) =~= split_on(x, sep).last() + b);
        assert(split_on(x + b, sep) =~= split_on(x, sep).update(
            split_on(x, sep).len() - 1,
            split_on(x, sep).last() + b,
        ));
    }
}

/// Splitting undoes joining, when no field holds the separator.
pub proof fn lemma_split_join(fields: Seq<Seq<char>>, sep: char)
    requires
        fields.len() >= 1,
        forall|i: int| 0 <= i < fields.len() ==> !(#[trigger] fields[i]).contains(sep),
    ensures
        split_on(join_with(fields, sep), sep) == fields,
    decreases fields.len(),
{
    if fields.len() == 1 {
        lemma_split_append_plain(Seq::empty(), fields[0], sep);
        assert(Seq::<char>::empty() + fields[0] =~= fields[0]);
        assert(split_on(Seq::<char>::empty(), sep) =~= seq![Seq::<char>::empty()]);
        assert(seq![Seq::<char>::empty()].update(0, Seq::<char>::empty() + fields[0])
            =~= fields);
    } else {
        let front = fields.drop_last();
        assert forall|i: int| 0 <= i < front.len() implies !(#[trigger] front[i]).contains(
            sep,
        ) by {
            assert(front[i] == fields[i]);
        }
        lemma_split_join(front, sep);
        let head = join_with(front, sep).push(sep);
        assert(!fields.last().contains(sep)) by {
            assert(fields[fields.len() - 1] == fields.last());
        }
        lemma_split_append_plain(head, fields.last(), sep);
        assert(head.drop_last() =~= join_with(front, sep));
        assert(split_on(head, sep) == front.push(Seq::empty()));
        assert(Seq::<char>::empty() + fields.last() =~= fields.last());
        assert(front.push(Seq::empty()).update(front.len() as int, fields.last()) =~= fields);
    }
}

/// Splits `s` at every occurrence of `sep`, as `s.split(sep)` does.
pub fn split_fields(s: &str, sep: char) -> (fields: Vec<String>)
    ensures
        views(fields@) == split_on(s@, sep),
{
    let n = s.unicode_len();
    let mut fields: Vec<String> = Vec::new();
    let mut cur = String::new();
    let mut i: usize = 0;
    assert(s@.take(0) =~= Seq::<char>::empty());
    assert(views(fields@).push(cur@) =~= seq![Seq::<char>::empty()]);
    while i < n
        invariant
            n == s@.len(),
            i <= n,
            views(fields@).push(cur@) == split_on(s@.take(i as int), sep),
        decreases n - i,
    {
        let c = s.get_char(i);
        let ghost before = s@.take(i as int);
        assert(s@.take(i + 1).drop_last() =~= before);
        assert(s@.take(i + 1).last() == c);
        proof {
            lemma_split_nonempty(before, sep);
        }
        if c == sep {
            fields.push(cur);
            cur = String::new();
            assert(views(fields@).push(cur@) =~= split_on(before, sep).push(Seq::empty()));
        } else {
            let ghost old_fields = views(fields@);
            push_char(&mut cur, c);
            assert(views(fields@).push(cur@) =~= split_on(before, sep).update(
                split_on(before, sep).len() - 1,
                split_on(before, sep).last().push(c),
            ));
        }
        i = i + 1;
    }
    assert(s@.take(n as int) =~= s@);
    fields.push(cur);
    fields
}

/// Joins the strings with `sep` between neighbours, as `[..].join(..)` does.
pub fn join_fields(fields: &Vec<String>, sep: char) -> (s: String)
    ensures
        s@ == join_with(views(fields@), sep),
{
    let mut s = String::new();
    let mut i: usize = 0;
    while i < fields.len()
        invariant
            i <= fields.len(),
            s@ == join_with(views(fields@).take(i as int), sep),
        decreases fields.len() - i,
    {
        let ghost before = views(fields@).take(i as int);
        assert(views(fields@).take(i + 1).drop_last() =~= before);
        assert(views(fields@).take(i + 1).last() == fields@[i as int]@);
        if i > 0 {
            push_char(&mut s, sep);
        } else {
            assert(before =~= Seq::<Seq<char>>::empty());
        }
        s.append(fields[i].as_str());
        if i == 0 {
            assert(views(fields@).take(1) =~= seq![fields@[0]@]);
            assert(s@ =~= join_with(views(fields@).take(1), sep));
        } else {
            assert(s@ =~= join_with(views(fields@).take(i + 1), sep));
        }
        i = i + 1;
    }
    assert(views(fields@).take(fields.len() as int) =~= views(fields@));
    s
}


/// The number a text of decimal digits stands for.
pub open spec fn digits_value(s: Seq<char>) -> int
    decreases s.len(),
{
    if s.len() == 0 {
        0
    } else {
        digits_value(s.drop_last()) * 10 + ((s.last() as int) - ('0' as int))
    }
}

/// The decimal representation of `n` consists of digits, stands for `n`, and
/// has no leading zero.
pub proof fn lemma_decimal_value(n: nat)
    ensures
        digits_value(decimal(n)) == n,
        decimal(n).len() >= 1,
        forall|i: int| 0 <= i < decimal(n).len() ==> is_digit(#[trigger] decimal(n)[i]),
        decimal(n)[0] == '0' ==> n == 0,
    decreases n,
{
    lemma_decimal_digits(n);
    if n < 10 {
        assert(decimal(n).drop_last() =~= Seq::<char>::empty());
        assert(digit_char(n as int) as int - '0' as int == n);
        assert(decimal(n).last() == digit_char(n as int));
        assert(digits_value(decimal(n)) == digits_value(decimal(n).drop_last()) * 10 + ((
        decimal(n).last() as int) - ('0' as int)));
        assert(digits_value(Seq::<char>::empty()) == 0);
    } else {
        lemma_decimal_value(n / 10);
        let d = (n % 10) as int;
        assert(decimal(n).drop_last() =~= decimal(n / 10));
        assert(digit_char(d) as int - '0' as int == d);
        assert(decimal(n).last() == digit_char(d));
        assert(digits_value(decimal(n)) == digits_value(decimal(n / 10)) * 10 + d);
        assert((n / 10) * 10 + d == n);
        assert(decimal(n)[0] == decimal(n / 10)[0]);
    }
}

/// Joining the fields of a split gives the text back.
proof fn lemma_join_extend_last(fields: Seq<Seq<char>>, t: Seq<char>, sep: char)
    requires
        fields.len() >= 1,
    ensures
        join_with(fields.update(fields.len() - 1, fields.last() + t), sep) == join_with(fields, sep)
            + t,
{
    let upd = fields.update(fields.len() - 1, fields.last() + t);
    if fields.len() == 1 {
        assert(upd[0] == fields[0] + t);
    } else {
        assert(upd.drop_last() =~= fields.drop_last());
        assert(upd.last() == fields.last() + t);
        assert(join_with(upd, sep) == join_with(fields.drop_last(), sep).push(sep) + (fields.last()
            + t));
        assert(join_with(fields.drop_last(), sep).push(sep) + (fields.last() + t) =~= (join_with(
            fields.drop_last(),
            sep,
        ).push(sep) + fields.last()) + t);
    }
}

/// Splitting cuts a text at each separator: the fields hold no separator, and
/// joining them with the separator gives the text back.
pub proof fn lemma_join_split(s: Seq<char>, sep: char)
    ensures
        join_with(split_on(s, sep), sep) == s,
        forall|i: int|
            0 <= i < split_on(s, sep).len() ==> !(#[trigger] split_on(s, sep)[i]).contains(sep),
    decreases s.len(),
{
    lemma_split_nonempty(s, sep);
    if s.len() == 0 {
        let f = split_on(s, sep);
        assert(f =~= seq![Seq::<char>::empty()]);
        assert forall|i: int| 0 <= i < f.len() implies !(#[trigger] f[i]).contains(sep) by {
            assert(f[i] =~= Seq::<char>::empty());
        }
    } else {
        let front = s.drop_last();
        let c = s.last();
        lemma_join_split(front, sep);
        lemma_split_nonempty(front, sep);
        let ff = split_on(front, sep);
        let f = split_on(s, sep);
        if c == sep {
            assert(f == ff.push(Seq::empty()));
            assert(f.drop_last() =~= ff);
            assert(f.len() >= 2);
            assert(join_with(f, sep) =~= join_with(ff, sep).push(sep) + Seq::<char>::empty());
            assert(join_with(f, sep) =~= s);
            assert forall|i: int| 0 <= i < f.len() implies !(#[trigger] f[i]).contains(sep) by {
                if i < ff.len() {
                    assert(f[i] == ff[i]);
                } else {
                    assert(f[i] =~= Seq::<char>::empty());
                }
            }
        } else {
            assert(ff.last().push(c) =~= ff.last() + seq![c]);
            assert(f == ff.update(ff.len() - 1, ff.last() + seq![c]));
            lemma_join_extend_last(ff, seq![c], sep);
            assert(join_with(ff, sep) + seq![c] =~= s);
            assert forall|i: int| 0 <= i < f.len() implies !(#[trigger] f[i]).contains(sep) by {
                if i < ff.len() - 1 {
                    assert(f[i] == ff[i]);
                } else {
                    let g = ff.last() + seq![c];
                    assert(f[i] == g);
                    assert(!ff[ff.len() - 1].contains(sep));
                    if g.contains(sep) {
                        let k = choose|k: int| 0 <= k < g.len() && g[k] == sep;
                        if k < ff.last().len() {
                            assert(ff.last()[k] == sep);
                        }
                    }
                }
            }
        }
    }
}

} // verus!
