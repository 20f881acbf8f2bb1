//! Laws of text and numbers.

use vstd::prelude::*;

use crate::numbers::{
    decimal, decimal_nat, digits_value, parse_u64, without_plus,
};
use crate::text::{
    find_from, find_from_is_first, is_white_space, lines, reads_at,
    replace_all, text_le, trim, trim_end, trim_start,
};

verus! {

// ----------------------------------------------------------------- patterns

/// A pattern is read at a place exactly if the text holds its characters from
/// there on, one by one.
pub proof fn pattern_is_read_character_by_character(s: Seq<char>, at: int, pattern: Seq<char>)
    requires
        0 <= at,
    ensures
        reads_at(s, at, pattern) <==> at + pattern.len() <= s.len() && forall|i: int|
            0 <= i < pattern.len() ==> s[at + i] == #[trigger] pattern[i],
{
    if at + pattern.len() <= s.len() {
        let part = s.subrange(at, at + pattern.len());
        if part == pattern {
            assert forall|i: int| 0 <= i < pattern.len() implies s[at + i] == #[trigger] pattern[i] by {
                assert(part[i] == s[at + i]);
            }
        }
        if forall|i: int| 0 <= i < pattern.len() ==> s[at + i] == #[trigger] pattern[i] {
            assert(part =~= pattern);
        }
    }
}

/// What is searched for is found at the place before which it does not occur.
pub proof fn search_finds_the_first_occurrence(a: Seq<char>, pattern: Seq<char>, b: Seq<char>)
    requires
        forall|at: int| 0 <= at < a.len() ==> !#[trigger] reads_at(a + pattern + b, at, pattern),
    ensures
        find_from(a + pattern + b, 0, pattern) == Some(a.len() as int),
{
    let s = a + pattern + b;
    assert(s.subrange(a.len() as int, a.len() as int + pattern.len()) =~= pattern);
    assert(reads_at(s, a.len() as int, pattern));
    find_from_is_first(s, 0, pattern);
    assert(!(find_from(s, 0, pattern) is None));
}

/// The first occurrence of a pattern is replaced, and the replacing goes on after
/// it.
pub proof fn first_occurrence_is_replaced(
    a: Seq<char>,
    pattern: Seq<char>,
    b: Seq<char>,
    with: Seq<char>,
)
    requires
        pattern.len() > 0,
        forall|at: int| 0 <= at < a.len() ==> !#[trigger] reads_at(a + pattern + b, at, pattern),
    ensures
        replace_all(a + pattern + b, pattern, with) == a + with + replace_all(b, pattern, with),
    decreases a.len(),
{
    let s = a + pattern + b;
    if a.len() == 0 {
        assert(s.subrange(0, pattern.len() as int) =~= pattern);
        assert(s.skip(pattern.len() as int) =~= b);
        assert(a + with + replace_all(b, pattern, with) =~= with + replace_all(b, pattern, with));
    } else {
        let rest = a.skip(1);
        let t = rest + pattern + b;
        assert(s.skip(1) =~= t);
        assert(!reads_at(s, 0, pattern));
        assert forall|at: int| 0 <= at < rest.len() implies !#[trigger] reads_at(t, at, pattern) by {
            assert(!reads_at(s, at + 1, pattern));
            if at + pattern.len() <= t.len() {
                assert(t.subrange(at, at + pattern.len()) =~= s.subrange(
                    at + 1,
                    at + 1 + pattern.len(),
                ));
            }
        }
        first_occurrence_is_replaced(rest, pattern, b, with);
        assert(seq![s[0]] + (rest + with + replace_all(b, pattern, with)) =~= a + with
            + replace_all(b, pattern, with));
    }
}

/// A text in which a pattern does not occur is left as it is by replacing it.
pub proof fn text_without_the_pattern_is_kept(s: Seq<char>, pattern: Seq<char>, with: Seq<char>)
    requires
        forall|at: int| 0 <= at ==> !#[trigger] reads_at(s, at, pattern),
    ensures
        replace_all(s, pattern, with) == s,
    decreases s.len(),
{
    if pattern.len() > 0 && s.len() >= pattern.len() {
        assert(!reads_at(s, 0, pattern));
        let rest = s.skip(1);
        assert forall|at: int| 0 <= at implies !#[trigger] reads_at(rest, at, pattern) by {
            assert(!reads_at(s, at + 1, pattern));
            if at + pattern.len() <= rest.len() {
                assert(rest.subrange(at, at + pattern.len()) =~= s.subrange(
                    at + 1,
                    at + 1 + pattern.len(),
                ));
            }
        }
        text_without_the_pattern_is_kept(rest, pattern, with);
        assert(seq![s[0]] + rest =~= s);
    }
}

// -------------------------------------------------------------------- order

/// Texts are ordered by the first character in which they differ.
pub proof fn texts_are_ordered_by_their_first_difference(
    same: Seq<char>,
    x: char,
    y: char,
    a: Seq<char>,
    b: Seq<char>,
)
    requires
        x < y,
    ensures
        text_le(same + seq![x] + a, same + seq![y] + b),
        !text_le(same + seq![y] + b, same + seq![x] + a),
    decreases same.len(),
{
    let s = same + seq![x] + a;
    let t = same + seq![y] + b;
    if same.len() > 0 {
        let rest = same.skip(1);
        texts_are_ordered_by_their_first_difference(rest, x, y, a, b);
        assert(s.skip(1) =~= rest + seq![x] + a);
        assert(t.skip(1) =~= rest + seq![y] + b);
    } else {
        assert(s[0] == x && t[0] == y);
    }
}

/// A text comes before every longer text that starts with it.
pub proof fn shorter_text_comes_first(same: Seq<char>, more: Seq<char>)
    ensures
        text_le(same, same + more),
        more.len() > 0 ==> !text_le(same + more, same),
    decreases same.len(),
{
    let s = same + more;
    if same.len() > 0 {
        shorter_text_comes_first(same.skip(1), more);
        assert(s.skip(1) =~= same.skip(1) + more);
    }
}

// --------------------------------------------------------------- white space

/// Text between white space is what trimming leaves, character for character.
pub proof fn trimming_leaves_what_lies_between_space(a: Seq<char>, t: Seq<char>, b: Seq<char>)
    requires
        forall|i: int| 0 <= i < a.len() ==> is_white_space(#[trigger] a[i]),
        forall|i: int| 0 <= i < b.len() ==> is_white_space(#[trigger] b[i]),
        t.len() > 0,
        !is_white_space(t[0]),
        !is_white_space(t[t.len() - 1]),
    ensures
        trim(a + t + b) == t,
{
    trim_start_drops_space(a, t + b);
    assert(a + t + b =~= a + (t + b));
    trim_end_drops_space(t, b);
}

/// White space trims to nothing.
pub proof fn white_space_trims_to_nothing(a: Seq<char>)
    requires
        forall|i: int| 0 <= i < a.len() ==> is_white_space(#[trigger] a[i]),
    ensures
        trim(a) == Seq::<char>::empty(),
    decreases a.len(),
{
    if a.len() > 0 {
        assert forall|i: int| 0 <= i < a.skip(1).len() implies is_white_space(
            #[trigger] a.skip(1)[i],
        ) by {
            assert(a.skip(1)[i] == a[i + 1]);
        }
        white_space_trims_to_nothing(a.skip(1));
        assert(is_white_space(a[0]));
    } else {
        assert(trim(a) =~= Seq::empty());
    }
}

proof fn trim_start_drops_space(a: Seq<char>, rest: Seq<char>)
    requires
        forall|i: int| 0 <= i < a.len() ==> is_white_space(#[trigger] a[i]),
        rest.len() > 0,
        !is_white_space(rest[0]),
    ensures
        trim_start(a + rest) == rest,
    decreases a.len(),
{
    if a.len() == 0 {
        assert(a + rest =~= rest);
    } else {
        assert(is_white_space(a[0]));
        assert((a + rest).skip(1) =~= a.skip(1) + rest);
        trim_start_drops_space(a.skip(1), rest);
    }
}

proof fn trim_end_drops_space(t: Seq<char>, b: Seq<char>)
    requires
        forall|i: int| 0 <= i < b.len() ==> is_white_space(#[trigger] b[i]),
        t.len() > 0,
        !is_white_space(t[t.len() - 1]),
    ensures
        trim_end(t + b) == t,
    decreases b.len(),
{
    if b.len() == 0 {
        assert(t + b =~= t);
    } else {
        assert(is_white_space(b[b.len() - 1]));
        assert((t + b).last() == b[b.len() - 1]);
        assert((t + b).drop_last() =~= t + b.drop_last());
        trim_end_drops_space(t, b.drop_last());
    }
}

// -------------------------------------------------------------------- lines

proof fn newline_ends_the_first_line(line: Seq<char>, rest: Seq<char>)
    requires
        !line.contains('\n'),
    ensures
        find_from(line + seq!['\n'] + rest, 0, seq!['\n']) == Some(line.len() as int),
{
    let s = line + seq!['\n'] + rest;
    assert forall|at: int| 0 <= at < line.len() implies !#[trigger] reads_at(s, at, seq!['\n']) by {
        if reads_at(s, at, seq!['\n']) {
            assert(s.subrange(at, at + 1)[0] == '\n');
            assert(line[at] == '\n');
        }
    }
    search_finds_the_first_occurrence(line, seq!['\n'], rest);
}

/// A line ends at the first newline.
pub proof fn line_ends_at_a_newline(line: Seq<char>, rest: Seq<char>)
    requires
        !line.contains('\n'),
        line.len() == 0 || line[line.len() - 1] != '\r',
    ensures
        lines(line + seq!['\n'] + rest) == seq![line] + lines(rest),
{
    let s = line + seq!['\n'] + rest;
    newline_ends_the_first_line(line, rest);
    assert(s.take(line.len() as int) =~= line);
    assert(s.skip(line.len() as int + 1) =~= rest);
}

/// A carriage return before a newline belongs to the end of the line.
pub proof fn line_ends_at_a_carriage_return_and_newline(line: Seq<char>, rest: Seq<char>)
    requires
        !line.contains('\n'),
    ensures
        lines(line + seq!['\r', '\n'] + rest) == seq![line] + lines(rest),
{
    let longer = line.push('\r');
    let s = longer + seq!['\n'] + rest;
    assert(!longer.contains('\n')) by {
        if longer.contains('\n') {
            let i = choose|i: int| 0 <= i < longer.len() && longer[i] == '\n';
            assert(line[i] == '\n');
        }
    }
    newline_ends_the_first_line(longer, rest);
    assert(s =~= line + seq!['\r', '\n'] + rest);
    assert(s.take(longer.len() as int) =~= longer);
    assert(longer.drop_last() =~= line);
    assert(s.skip(longer.len() as int + 1) =~= rest);
}

/// What follows the last newline is a line too, unless it is empty.
pub proof fn last_line_needs_no_newline(line: Seq<char>)
    requires
        !line.contains('\n'),
    ensures
        lines(line) == if line.len() == 0 {
            Seq::<Seq<char>>::empty()
        } else {
            seq![line]
        },
{
    find_from_is_first(line, 0, seq!['\n']);
    match find_from(line, 0, seq!['\n']) {
        Some(i) => {
            assert(line.subrange(i, i + 1)[0] == '\n');
            assert(line[i] == '\n');
        },
        None => {},
    }
}

/// The lines of a text that ends with a newline come before those of what follows
/// it.
pub proof fn lines_of_text_put_together(a: Seq<char>, b: Seq<char>)
    requires
        a.len() == 0 || a[a.len() - 1] == '\n',
    ensures
        lines(a + b) == lines(a) + lines(b),
    decreases a.len(),
{
    if a.len() == 0 {
        assert(a + b =~= b);
        assert(Seq::<Seq<char>>::empty() + lines(b) =~= lines(b));
    } else {
        let n = seq!['\n'];
        find_from_is_first(a, 0, n);
        assert(a.subrange(a.len() - 1, a.len() as int) =~= n);
        assert(reads_at(a, a.len() - 1, n));
        let i = find_from(a, 0, n)->0;
        assert(find_from(a, 0, n) is Some);
        assert(i < a.len()) by {
            assert(reads_at(a, i, n));
        }
        assert(a.subrange(i, i + 1)[0] == '\n');
        let line = a.take(i);
        let rest = a.skip(i + 1);
        assert(!line.contains('\n')) by {
            if line.contains('\n') {
                let j = choose|j: int| 0 <= j < line.len() && line[j] == '\n';
                assert(a.subrange(j, j + 1) =~= n);
                assert(reads_at(a, j, n));
            }
        }
        assert(a =~= line + n + rest);
        assert(a + b =~= line + n + (rest + b));
        assert(rest.len() > 0 ==> rest[rest.len() - 1] == '\n');
        newline_ends_the_first_line(line, rest);
        newline_ends_the_first_line(line, rest + b);
        lines_of_text_put_together(rest, b);
        let first = seq![crate::text::without_carriage_return(line)];
        assert((a + b).take(i) =~= line);
        assert((a + b).skip(i + 1) =~= rest + b);
        assert(first + (lines(rest) + lines(b)) =~= first + lines(rest) + lines(b));
    }
}

// ------------------------------------------------------------------ numbers

/// The last digit of a number is what it leaves modulo ten, and the digits before
/// it write the tenth of it.
pub proof fn numbers_are_written_digit_by_digit(n: nat, d: nat)
    requires
        d < 10,
    ensures
        decimal_nat(d) == seq![('0' as int + d) as char],
        n > 0 ==> decimal_nat(n * 10 + d) == decimal_nat(n).push(('0' as int + d) as char),
        n > 0 ==> decimal(-(n as int)) == seq!['-'] + decimal_nat(n),
        decimal(n as int) == decimal_nat(n),
{
    assert((n * 10 + d) / 10 == n && (n * 10 + d) % 10 == d);
}

proof fn value_of_written_number(n: nat)
    ensures
        digits_value(decimal_nat(n)) == n,
        decimal_nat(n).len() > 0,
        forall|i: int|
            0 <= i < decimal_nat(n).len() ==> '0' <= (#[trigger] decimal_nat(n)[i]) <= '9',
    decreases n,
{
    reveal_with_fuel(digits_value, 2);
    if n >= 10 {
        value_of_written_number(n / 10);
        assert(decimal_nat(n).drop_last() =~= decimal_nat(n / 10));
    } else {
        assert(decimal_nat(n).drop_last() =~= Seq::empty());
    }
}

/// A number that fits is read back as it is written, with or without a plus sign,
/// and one that does not fit is not read.
pub proof fn written_numbers_are_read_back(n: nat)
    ensures
        parse_u64(decimal_nat(n)) == if n <= u64::MAX {
            Some(n as u64)
        } else {
            None
        },
        parse_u64(seq!['+'] + decimal_nat(n)) == parse_u64(decimal_nat(n)),
{
    value_of_written_number(n);
    let s = decimal_nat(n);
    assert('0' <= s[0] <= '9');
    assert(without_plus(s) == s);
    assert((seq!['+'] + s).skip(1) =~= s);
}

proof fn zero_in_front_adds_nothing(s: Seq<char>)
    ensures
        digits_value(seq!['0'] + s) == digits_value(s),
    decreases s.len(),
{
    reveal_with_fuel(digits_value, 2);
    let t = seq!['0'] + s;
    if s.len() == 0 {
        assert(t.drop_last() =~= Seq::empty());
    } else {
        zero_in_front_adds_nothing(s.drop_last());
        assert(t.drop_last() =~= seq!['0'] + s.drop_last());
    }
}

/// A zero in front of digits does not matter.
pub proof fn zero_in_front_does_not_matter(s: Seq<char>)
    requires
        s.len() > 0,
        forall|i: int| 0 <= i < s.len() ==> '0' <= (#[trigger] s[i]) <= '9',
    ensures
        parse_u64(seq!['0'] + s) == parse_u64(s),
{
    let t = seq!['0'] + s;
    zero_in_front_adds_nothing(s);
    assert('0' <= s[0] <= '9');
    assert(without_plus(s) == s && without_plus(t) == t);
    assert forall|i: int| 0 <= i < t.len() implies '0' <= (#[trigger] t[i]) <= '9' by {
        if i > 0 {
            assert(t[i] == s[i - 1]);
        }
    }
}

/// A plus sign in front of digits makes no difference to their value.
pub proof fn plus_sign_does_not_matter(s: Seq<char>)
    requires
        s.len() > 0,
        forall|i: int| 0 <= i < s.len() ==> '0' <= (#[trigger] s[i]) <= '9',
    ensures
        parse_u64(seq!['+'] + s) == parse_u64(s),
{
    let t = seq!['+'] + s;
    assert('0' <= s[0]);
    assert(t.skip(1) =~= s);
    assert(without_plus(t) == s && without_plus(s) == s);
}

/// A text that holds anything but digits after a plus sign that it may start with,
/// or no digit at all, is no number.
pub proof fn other_texts_are_no_numbers(s: Seq<char>, i: int)
    requires
        s.len() == 0 || s == seq!['+'] || (0 <= i < s.len() && !('0' <= s[i] <= '9') && (i > 0
            || s[i] != '+')),
    ensures
        parse_u64(s) is None,
{
    let digits = without_plus(s);
    if s.len() > 0 && s != seq!['+'] {
        if s[0] == '+' {
            assert(i > 0);
            assert(digits[i - 1] == s[i]);
        } else {
            assert(digits[i] == s[i]);
        }
    } else if s == seq!['+'] {
        assert(digits =~= Seq::empty());
    }
}

} // verus!
