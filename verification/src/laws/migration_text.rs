//! Laws of the text of migrations: placeholders, blocks and statements.

use vstd::prelude::*;

use crate::apply::file_calls;
use crate::laws::text;
use crate::sql_text::{
    blocks_of_runs, every_block_is_a_statement, is_delimiter, joined, keys_are_distinct,
    plsql_blocks, runs, substitute, text_without_delimiters_is_one_block, with_entry,
};
use crate::text::{is_white_space, lines, reads_at, replace_all, trim};

verus! {

// ------------------------------------------------------------- placeholders

/// Without placeholders a text is left as it is.
pub proof fn text_is_kept_without_placeholders(sql: Seq<char>)
    ensures
        substitute(sql, Seq::empty()) == sql,
{
}

/// The placeholder of one more entry, a dollar sign and the key in braces, is
/// replaced by its value in what the entries before it made of the text.
pub proof fn one_more_entry_is_substituted(
    sql: Seq<char>,
    entries: Seq<(Seq<char>, Seq<char>)>,
    key: Seq<char>,
    value: Seq<char>,
)
    ensures
        substitute(sql, entries.push((key, value))) == replace_all(
            substitute(sql, entries),
            seq!['$', '{'] + key + seq!['}'],
            value,
        ),
{
    assert(entries.push((key, value)).drop_last() =~= entries);
}

/// The first placeholder of a key in a text gives way to the key's value, and all
/// that is around it stays.
pub proof fn placeholder_gives_way_to_its_value(
    a: Seq<char>,
    key: Seq<char>,
    b: Seq<char>,
    value: Seq<char>,
    pattern: Seq<char>,
)
    requires
        pattern == seq!['$', '{'] + key + seq!['}'],
        forall|at: int| 0 <= at < a.len() ==> !#[trigger] reads_at(a + pattern + b, at, pattern),
    ensures
        substitute(a + pattern + b, seq![(key, value)]) == a + value + substitute(
            b,
            seq![(key, value)],
        ),
{
    let none = Seq::<(Seq<char>, Seq<char>)>::empty();
    assert(none.push((key, value)) =~= seq![(key, value)]);
    one_more_entry_is_substituted(a + pattern + b, none, key, value);
    one_more_entry_is_substituted(b, none, key, value);
    text::first_occurrence_is_replaced(a, pattern, b, value);
}

/// A value is put where its key stands first, and behind all others where its key
/// does not stand.
pub proof fn value_takes_the_place_of_its_key(
    before: Seq<(Seq<char>, Seq<char>)>,
    key: Seq<char>,
    old_value: Seq<char>,
    value: Seq<char>,
    after: Seq<(Seq<char>, Seq<char>)>,
)
    requires
        forall|i: int| 0 <= i < before.len() ==> (#[trigger] before[i]).0 != key,
    ensures
        with_entry(before, key, value) == before + seq![(key, value)],
        with_entry(before + seq![(key, old_value)] + after, key, value) == before + seq![
            (key, value),
        ] + after,
    decreases before.len(),
{
    let all = before + seq![(key, old_value)] + after;
    if before.len() == 0 {
        assert(all[0] == (key, old_value));
        assert(with_entry(before, key, value) =~= before + seq![(key, value)]);
        assert(all.update(0, (key, value)) =~= before + seq![(key, value)] + after);
    } else {
        let rest = before.skip(1);
        assert(before[0].0 != key);
        assert(all[0] == before[0]);
        assert forall|i: int| 0 <= i < rest.len() implies (#[trigger] rest[i]).0 != key by {
            assert(rest[i] == before[i + 1]);
        }
        value_takes_the_place_of_its_key(rest, key, old_value, value, after);
        assert(all.skip(1) =~= rest + seq![(key, old_value)] + after);
        assert(seq![before[0]] + (rest + seq![(key, value)]) =~= before + seq![(key, value)]);
        assert(seq![before[0]] + (rest + seq![(key, value)] + after) =~= before + seq![
            (key, value),
        ] + after);
    }
}

/// A value that is put in is found under its key, in place of the one before, and
/// no other entry changes.
pub proof fn value_is_put_under_its_key(
    entries: Seq<(Seq<char>, Seq<char>)>,
    key: Seq<char>,
    value: Seq<char>,
)
    requires
        keys_are_distinct(entries),
    ensures
        with_entry(entries, key, value).contains((key, value)),
        forall|e: (Seq<char>, Seq<char>)| #[trigger]
            with_entry(entries, key, value).contains(e) ==> (if e.0 == key {
                e.1 == value
            } else {
                entries.contains(e)
            }),
        forall|e: (Seq<char>, Seq<char>)| #[trigger]
            entries.contains(e) && e.0 != key ==> with_entry(entries, key, value).contains(e),
        with_entry(entries, key, value).len() == entries.len() + if exists|i: int|
            0 <= i < entries.len() && (#[trigger] entries[i]).0 == key {
            0int
        } else {
            1
        },
    decreases entries.len(),
{
    let out = with_entry(entries, key, value);
    if entries.len() == 0 {
        assert(out[0] == (key, value));
    } else if entries[0].0 == key {
        assert(out[0] == (key, value));
        assert forall|e: (Seq<char>, Seq<char>)| #[trigger] out.contains(e) implies (if e.0 == key {
            e.1 == value
        } else {
            entries.contains(e)
        }) by {
            let i = choose|i: int| 0 <= i < out.len() && out[i] == e;
            if i > 0 {
                assert(entries[i] == e);
                assert(entries[0].0 != entries[i].0);
            }
        }
        assert forall|e: (Seq<char>, Seq<char>)| #[trigger] entries.contains(e) && e.0
            != key implies out.contains(e) by {
            let i = choose|i: int| 0 <= i < entries.len() && entries[i] == e;
            assert(out[i] == e);
        }
    } else {
        let rest = entries.skip(1);
        let more = with_entry(rest, key, value);
        assert(keys_are_distinct(rest)) by {
            assert forall|i: int, j: int| 0 <= i < j < rest.len() implies (#[trigger] rest[i]).0
                != (#[trigger] rest[j]).0 by {
                assert(entries[i + 1].0 != entries[j + 1].0);
            }
        }
        value_is_put_under_its_key(rest, key, value);
        assert(out =~= seq![entries[0]] + more);
        assert(more.contains((key, value)));
        let at = choose|i: int| 0 <= i < more.len() && more[i] == (key, value);
        assert(out[at + 1] == (key, value));
        assert forall|e: (Seq<char>, Seq<char>)| #[trigger] out.contains(e) implies (if e.0 == key {
            e.1 == value
        } else {
            entries.contains(e)
        }) by {
            let i = choose|i: int| 0 <= i < out.len() && out[i] == e;
            if i > 0 {
                assert(more[i - 1] == e);
                assert(more.contains(e));
                if e.0 != key {
                    let j = choose|j: int| 0 <= j < rest.len() && rest[j] == e;
                    assert(entries[j + 1] == e);
                }
            }
        }
        assert forall|e: (Seq<char>, Seq<char>)| #[trigger] entries.contains(e) && e.0
            != key implies out.contains(e) by {
            let i = choose|i: int| 0 <= i < entries.len() && entries[i] == e;
            if i == 0 {
                assert(out[0] == e);
            } else {
                assert(rest[i - 1] == e);
                assert(rest.contains(e));
                let j = choose|j: int| 0 <= j < more.len() && more[j] == e;
                assert(out[j + 1] == e);
            }
        }
        if exists|i: int| 0 <= i < rest.len() && (#[trigger] rest[i]).0 == key {
            let i = choose|i: int| 0 <= i < rest.len() && (#[trigger] rest[i]).0 == key;
            assert(entries[i + 1].0 == key);
        }
        if exists|i: int| 0 <= i < entries.len() && (#[trigger] entries[i]).0 == key {
            let i = choose|i: int| 0 <= i < entries.len() && (#[trigger] entries[i]).0 == key;
            assert(rest[i - 1].0 == key);
        }
    }
}

// ------------------------------------------------------------------- blocks

/// Lines put together: each is followed by a newline, in their order.
pub proof fn lines_are_joined_by_newlines(a: Seq<Seq<char>>, line: Seq<char>)
    ensures
        joined(Seq::<Seq<char>>::empty()) == Seq::<char>::empty(),
        joined(a.push(line)) == joined(a) + line + seq!['\n'],
{
    assert(a.push(line).drop_last() =~= a);
    assert(joined(a) + line.push('\n') =~= joined(a) + line + seq!['\n']);
}

proof fn joined_in_two_parts(a: Seq<Seq<char>>, b: Seq<Seq<char>>)
    ensures
        joined(a + b) == joined(a) + joined(b),
    decreases b.len(),
{
    if b.len() == 0 {
        assert(a + b =~= a);
        assert(joined(a) + joined(b) =~= joined(a));
    } else {
        joined_in_two_parts(a, b.drop_last());
        assert((a + b).drop_last() =~= a + b.drop_last());
        assert(joined(a) + joined(b.drop_last()) + b.last().push('\n') =~= joined(a) + (joined(
            b.drop_last(),
        ) + b.last().push('\n')));
    }
}

/// The lines of a text without carriage returns, put together again, are the
/// text, and a newline after it where it ends without one.
pub proof fn lines_give_back_the_text(s: Seq<char>)
    requires
        !s.contains('\r'),
    ensures
        joined(lines(s)) == if s.len() == 0 || s[s.len() - 1] == '\n' {
            s
        } else {
            s.push('\n')
        },
    decreases s.len(),
{
    reveal_with_fuel(joined, 2);
    if s.contains('\n') {
        let i = s.index_of_first('\n')->0;
        s.index_of_first_ensures('\n');
        let line = s.take(i);
        let rest = s.skip(i + 1);
        assert(!line.contains('\n')) by {
            if line.contains('\n') {
                let j = choose|j: int| 0 <= j < line.len() && line[j] == '\n';
                assert(s[j] == '\n');
            }
        }
        assert(!rest.contains('\r')) by {
            if rest.contains('\r') {
                let j = choose|j: int| 0 <= j < rest.len() && rest[j] == '\r';
                assert(s[j + i + 1] == '\r');
            }
        }
        if line.len() > 0 {
            assert(s[line.len() - 1] != '\r');
        }
        assert(s =~= line + seq!['\n'] + rest);
        text::line_ends_at_a_newline(line, rest);
        lines_give_back_the_text(rest);
        joined_in_two_parts(seq![line], lines(rest));
        assert(seq![line].drop_last() =~= Seq::empty());
        assert(joined(seq![line]) =~= line + seq!['\n']);
        if rest.len() == 0 || rest[rest.len() - 1] == '\n' {
            assert(line + seq!['\n'] + rest =~= s);
        } else {
            assert(line + seq!['\n'] + rest.push('\n') =~= s.push('\n'));
        }
    } else {
        text::last_line_needs_no_newline(s);
        if s.len() > 0 {
            assert(s[s.len() - 1] != '\n');
            assert(seq![s].drop_last() =~= Seq::empty());
            assert(joined(seq![s]) =~= s.push('\n'));
        } else {
            assert(joined(lines(s)) =~= s);
        }
    }
}

proof fn runs_on_both_sides(a: Seq<Seq<char>>, slash: Seq<char>, b: Seq<Seq<char>>)
    requires
        is_delimiter(slash),
    ensures
        runs(a.push(slash) + b) == runs(a) + runs(b),
        runs(b).len() > 0,
    decreases b.len(),
{
    let all = a.push(slash) + b;
    if b.len() == 0 {
        assert(all =~= a.push(slash));
        assert(all.drop_last() =~= a);
        assert(runs(a).push(Seq::empty()) =~= runs(a) + seq![Seq::empty()]);
    } else {
        let front = b.drop_last();
        runs_on_both_sides(a, slash, front);
        assert(all.drop_last() =~= a.push(slash) + front);
        assert(all.last() == b.last());
        let both = runs(a) + runs(front);
        if is_delimiter(b.last()) {
            assert(both.push(Seq::empty()) =~= runs(a) + runs(front).push(Seq::empty()));
        } else {
            assert(both.last() == runs(front).last());
            let longer = runs(front).last().push(b.last());
            assert(both.drop_last().push(longer) =~= runs(a) + runs(front).drop_last().push(longer));
        }
    }
}

proof fn blocks_of_both(a: Seq<Seq<Seq<char>>>, b: Seq<Seq<Seq<char>>>)
    ensures
        blocks_of_runs(a + b) == blocks_of_runs(a) + blocks_of_runs(b),
{
    let f = |run: Seq<Seq<char>>| joined(run);
    let p = |s: Seq<char>| !crate::text::is_blank(s);
    assert((a + b).map_values(f) =~= a.map_values(f) + b.map_values(f));
    Seq::filter_distributes_over_add(a.map_values(f), b.map_values(f), p);
}

/// A line that holds a slash and otherwise only white space ends a block and
/// starts another one, and belongs to neither: what is before it and what is after
/// it are split on their own.
pub proof fn slash_line_parts_blocks(
    before: Seq<char>,
    x: Seq<char>,
    y: Seq<char>,
    after: Seq<char>,
)
    requires
        before.len() == 0 || before[before.len() - 1] == '\n',
        forall|i: int| 0 <= i < x.len() ==> is_white_space(#[trigger] x[i]) && x[i] != '\n',
        forall|i: int| 0 <= i < y.len() ==> is_white_space(#[trigger] y[i]) && y[i] != '\n',
    ensures
        plsql_blocks(before + (x + seq!['/'] + y + seq!['\n'] + after)) == plsql_blocks(before)
            + plsql_blocks(after),
{
    let slash = x + seq!['/'] + y;
    let rest = slash + seq!['\n'] + after;
    let line = if y.len() > 0 && y[y.len() - 1] == '\r' {
        x + seq!['/'] + y.drop_last()
    } else {
        slash
    };
    assert(!line.contains('\n') && !slash.contains('\n')) by {
        if slash.contains('\n') {
            let i = choose|i: int| 0 <= i < slash.len() && slash[i] == '\n';
            if i < x.len() {
                assert(x[i] == '\n');
            } else if i > x.len() {
                assert(y[i - x.len() - 1] == '\n');
            }
        }
        if line.contains('\n') {
            let i = choose|i: int| 0 <= i < line.len() && line[i] == '\n';
            assert(slash[i] == '\n');
        }
    }
    assert(!is_white_space('/'));
    if y.len() > 0 && y[y.len() - 1] == '\r' {
        let z = y.drop_last();
        assert forall|i: int| 0 <= i < z.len() implies is_white_space(#[trigger] z[i]) by {
            assert(z[i] == y[i]);
        }
        text::trimming_leaves_what_lies_between_space(x, seq!['/'], z);
        assert(rest =~= line + seq!['\r', '\n'] + after);
        text::line_ends_at_a_carriage_return_and_newline(line, after);
    } else {
        text::trimming_leaves_what_lies_between_space(x, seq!['/'], y);
        assert(line.last() != '\r') by {
            if y.len() > 0 {
                assert(line.last() == y[y.len() - 1]);
            } else {
                assert(line.last() == '/');
            }
        }
        text::line_ends_at_a_newline(line, after);
    }
    assert(is_delimiter(line));
    text::lines_of_text_put_together(before, rest);
    assert(lines(before) + (seq![line] + lines(after)) =~= lines(before).push(line) + lines(after));
    runs_on_both_sides(lines(before), line, lines(after));
    blocks_of_both(runs(lines(before)), runs(lines(after)));
}

/// A text that ends with a newline, in which no line holds a slash and otherwise
/// only white space, is one block as it stands, or none where it is all white
/// space.
pub proof fn text_between_slash_lines_is_a_block(s: Seq<char>)
    requires
        !s.contains('\r'),
        s.len() == 0 || s[s.len() - 1] == '\n',
        forall|i: int| 0 <= i < lines(s).len() ==> trim(#[trigger] lines(s)[i]) != seq!['/'],
    ensures
        plsql_blocks(s) == if forall|i: int| 0 <= i < s.len() ==> is_white_space(#[trigger] s[i]) {
            Seq::<Seq<char>>::empty()
        } else {
            seq![s]
        },
{
    assert forall|i: int| 0 <= i < lines(s).len() implies !is_delimiter(#[trigger] lines(s)[i]) by {
        assert(trim(lines(s)[i]) != seq!['/']);
    }
    text_without_delimiters_is_one_block(s);
    lines_give_back_the_text(s);
}

/// How a text goes on after the last newline in it.
proof fn last_newline(s: Seq<char>) -> (cut: int)
    ensures
        0 <= cut <= s.len(),
        cut == 0 || s[cut - 1] == '\n',
        !s.skip(cut).contains('\n'),
    decreases s.len(),
{
    if s.len() == 0 {
        0
    } else if s[s.len() - 1] == '\n' {
        s.len() as int
    } else {
        let cut = last_newline(s.drop_last());
        assert(!s.skip(cut).contains('\n')) by {
            if s.skip(cut).contains('\n') {
                let i = choose|i: int| 0 <= i < s.skip(cut).len() && s.skip(cut)[i] == '\n';
                assert(s.drop_last().skip(cut)[i] == '\n');
            }
        }
        cut
    }
}

/// It makes no difference to the blocks whether a line ends with a newline or with
/// a carriage return and a newline.
pub proof fn carriage_returns_make_no_difference(a: Seq<char>, b: Seq<char>)
    requires
        a.len() == 0 || a[a.len() - 1] != '\r',
    ensures
        plsql_blocks(a + seq!['\r', '\n'] + b) == plsql_blocks(a + seq!['\n'] + b),
{
    let cut = last_newline(a);
    let front = a.take(cut);
    let line = a.skip(cut);
    assert(a + seq!['\r', '\n'] + b =~= front + (line + seq!['\r', '\n'] + b));
    assert(a + seq!['\n'] + b =~= front + (line + seq!['\n'] + b));
    if line.len() > 0 {
        assert(line[line.len() - 1] == a[a.len() - 1]);
    }
    text::lines_of_text_put_together(front, line + seq!['\r', '\n'] + b);
    text::lines_of_text_put_together(front, line + seq!['\n'] + b);
    text::line_ends_at_a_carriage_return_and_newline(line, b);
    text::line_ends_at_a_newline(line, b);
}

/// It makes no difference to the blocks whether a text ends with a newline.
pub proof fn last_newline_makes_no_difference(a: Seq<char>)
    requires
        a.len() > 0,
        a[a.len() - 1] != '\r',
        a[a.len() - 1] != '\n',
    ensures
        plsql_blocks(a + seq!['\n']) == plsql_blocks(a),
{
    let cut = last_newline(a);
    let front = a.take(cut);
    let line = a.skip(cut);
    assert(a =~= front + line);
    assert(a + seq!['\n'] =~= front + (line + seq!['\n'] + Seq::empty()));
    assert(line[line.len() - 1] == a[a.len() - 1]);
    text::lines_of_text_put_together(front, line);
    text::lines_of_text_put_together(front, line + seq!['\n'] + Seq::empty());
    text::line_ends_at_a_newline(line, Seq::empty());
    text::last_line_needs_no_newline(line);
    assert(seq![line] + Seq::<Seq<char>>::empty() =~= seq![line]);
}

// --------------------------------------------------------------- statements

/// What is executed for a file is its blocks after substitution, one statement for
/// each, in their order: the block without the white space around it, character
/// for character, and nothing bound.
pub proof fn each_block_is_executed_as_it_stands(
    content: Seq<char>,
    entries: Seq<(Seq<char>, Seq<char>)>,
)
    ensures
        file_calls(content, None).len() == plsql_blocks(content).len(),
        forall|i: int|
            0 <= i < plsql_blocks(content).len() ==> (#[trigger] file_calls(content, None)[i]).sql
                == trim(plsql_blocks(content)[i]) && file_calls(content, None)[i].binds.len() == 0,
        file_calls(content, Some(entries)).len() == plsql_blocks(
            substitute(content, entries),
        ).len(),
        forall|i: int|
            0 <= i < plsql_blocks(substitute(content, entries)).len() ==> (#[trigger] file_calls(
                content,
                Some(entries),
            )[i]).sql == trim(plsql_blocks(substitute(content, entries))[i]) && file_calls(
                content,
                Some(entries),
            )[i].binds.len() == 0,
{
    every_block_is_a_statement(content);
    every_block_is_a_statement(substitute(content, entries));
}

/// A file that holds one block between white space and the slash line that ends it
/// is executed as that block, character for character.
pub proof fn block_before_a_slash_line_is_executed_as_it_stands(
    space: Seq<char>,
    block: Seq<char>,
    more_space: Seq<char>,
    text: Seq<char>,
)
    requires
        forall|i: int| 0 <= i < space.len() ==> is_white_space(#[trigger] space[i]),
        forall|i: int| 0 <= i < more_space.len() ==> is_white_space(#[trigger] more_space[i]),
        block.len() > 0,
        !is_white_space(block[0]),
        !is_white_space(block[block.len() - 1]),
        text == space + block + more_space + seq!['\n'],
        !text.contains('\r'),
        forall|i: int| 0 <= i < lines(text).len() ==> trim(#[trigger] lines(text)[i]) != seq!['/'],
    ensures
        ({
            let calls = file_calls(text + seq!['/', '\n'], None);
            calls.len() == 1 && calls[0].sql == block && calls[0].binds.len() == 0
        }),
{
    let none = Seq::<char>::empty();
    assert(text + (none + seq!['/'] + none + seq!['\n'] + none) =~= text + seq!['/', '\n']);
    slash_line_parts_blocks(text, none, none, none);
    text_between_slash_lines_is_a_block(text);
    assert(text[space.len() as int] == block[0]);
    assert(!is_white_space(text[space.len() as int]));
    text_between_slash_lines_is_a_block(none);
    text::last_line_needs_no_newline(none);
    assert(seq![text] + Seq::<Seq<char>>::empty() =~= seq![text]);
    each_block_is_executed_as_it_stands(text + seq!['/', '\n'], Seq::empty());
    let end = more_space + seq!['\n'];
    assert(text =~= space + block + end);
    assert forall|i: int| 0 <= i < end.len() implies is_white_space(#[trigger] end[i]) by {
        if i < more_space.len() {
            assert(end[i] == more_space[i]);
        }
    }
    text::trimming_leaves_what_lies_between_space(space, block, end);
}

} // verus!
