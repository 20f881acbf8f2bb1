//! The text of a migration: placeholders, PL/SQL blocks and statements.

use vstd::prelude::*;

use crate::text::{
    append_chars, blank, char_views, chars_of, find_from, find_from_is_first, is_blank, lines, lines_of, reads_at,
    replace_all, replaced,
    string_of, string_views, text_eq, trim,
    trim_is_empty_only_of_blank, trimmed,
};

verus! {

// ------------------------------------------------------------ placeholders

/// The values that stand for `${key}` in a migration, one per key, in the order
/// in which they are put in.
pub struct Placeholders {
    entries: Vec<(String, String)>,
}

/// An entry as a pair of texts.
pub open spec fn entry_view(entry: (String, String)) -> (Seq<char>, Seq<char>) {
    (entry.0@, entry.1@)
}

/// Whether no key occurs twice.
pub open spec fn keys_are_distinct(entries: Seq<(Seq<char>, Seq<char>)>) -> bool {
    forall|i: int, j: int|
        0 <= i < j < entries.len() ==> (#[trigger] entries[i]).0 != (#[trigger] entries[j]).0
}

/// `entries` with `value` under `key`: in the place of the entry that has this
/// key, or else at the end.
pub open spec fn with_entry(
    entries: Seq<(Seq<char>, Seq<char>)>,
    key: Seq<char>,
    value: Seq<char>,
) -> Seq<(Seq<char>, Seq<char>)>
    decreases entries.len(),
{
    if entries.len() == 0 {
        seq![(key, value)]
    } else if entries[0].0 == key {
        entries.update(0, (key, value))
    } else {
        seq![entries[0]] + with_entry(entries.skip(1), key, value)
    }
}

impl View for Placeholders {
    type V = Seq<(Seq<char>, Seq<char>)>;

    closed spec fn view(&self) -> Seq<(Seq<char>, Seq<char>)> {
        self.entries@.map_values(|e: (String, String)| entry_view(e))
    }
}

impl Placeholders {
    #[verifier::type_invariant]
    spec fn one_entry_per_key(self) -> bool {
        keys_are_distinct(self@)
    }

    /// No placeholders.
    pub fn new() -> (p: Placeholders)
        ensures
            p@ == Seq::<(Seq<char>, Seq<char>)>::empty(),
    {
        let p = Placeholders { entries: Vec::new() };
        proof {
            assert(p@ =~= Seq::<(Seq<char>, Seq<char>)>::empty());
        }
        p
    }

    /// Puts `value` under `key`, in place of the value that the key had.
    pub fn insert(&mut self, key: String, value: String)
        ensures
            final(self)@ == with_entry(old(self)@, key@, value@),
            keys_are_distinct(final(self)@),
    {
        let ghost before = self@;
        proof {
            use_type_invariant(&*self);
        }
        let mut entries: Vec<(String, String)> = Vec::new();
        core::mem::swap(&mut entries, &mut self.entries);
        let ghost taken = entries@;
        proof {
            assert(before.skip(0) =~= before);
            assert(before.take(0) + with_entry(before, key@, value@) =~= with_entry(
                before,
                key@,
                value@,
            ));
        }
        let mut at: usize = 0;
        while at < entries.len() && !text_eq(entries[at].0.as_str(), key.as_str())
            invariant
                at <= entries@.len(),
                entries@ == taken,
                before == taken.map_values(|e: (String, String)| entry_view(e)),
                before.take(at as int) + with_entry(before.skip(at as int), key@, value@)
                    == with_entry(before, key@, value@),
                forall|j: int| 0 <= j < at ==> (#[trigger] before[j]).0 != key@,
            decreases entries@.len() - at,
        {
            proof {
                let rest = before.skip(at as int);
                assert(rest.skip(1) =~= before.skip(at + 1));
                assert(before.take(at + 1) + with_entry(before.skip(at + 1), key@, value@)
                    =~= before.take(at as int) + (seq![rest[0]] + with_entry(
                    rest.skip(1),
                    key@,
                    value@,
                )));
            }
            at += 1;
        }
        if at < entries.len() {
            entries.set(at, (key, value));
        } else {
            entries.push((key, value));
        }
        proof {
            let after = entries@.map_values(|e: (String, String)| entry_view(e));
            assert(after =~= before.take(at as int) + with_entry(
                before.skip(at as int),
                key@,
                value@,
            ));
            assert(keys_are_distinct(after)) by {
                assert forall|i: int, j: int| 0 <= i < j < after.len() implies (
                #[trigger] after[i]).0 != (#[trigger] after[j]).0 by {
                    if i < before.len() && j < before.len() {
                        assert(after[i].0 == before[i].0);
                        assert(after[j].0 == before[j].0);
                        assert(before[i].0 != before[j].0);
                    } else {
                        assert(after[i].0 == before[i].0);
                    }
                }
            }
        }
        self.entries = entries;
    }
}

/// `${key}`.
pub open spec fn placeholder(key: Seq<char>) -> Seq<char> {
    seq!['$', '{'] + key + seq!['}']
}

/// `sql` with each entry's placeholder replaced by its value, one entry after
/// the other.
pub open spec fn substitute(sql: Seq<char>, entries: Seq<(Seq<char>, Seq<char>)>) -> Seq<char>
    decreases entries.len(),
{
    if entries.len() == 0 {
        sql
    } else {
        replace_all(
            substitute(sql, entries.drop_last()),
            placeholder(entries.last().0),
            entries.last().1,
        )
    }
}

/// Replaces `${key}` by its value, for every entry of `placeholders` in turn.
pub fn substitute_placeholders(sql: &str, placeholders: &Placeholders) -> (out: String)
    ensures
        out@ == substitute(sql@, placeholders@),
        keys_are_distinct(placeholders@),
{
    proof {
        use_type_invariant(placeholders);
    }
    let mut out: Vec<char> = chars_of(sql);
    let mut i: usize = 0;
    while i < placeholders.entries.len()
        invariant
            i <= placeholders.entries@.len(),
            out@ == substitute(sql@, placeholders@.take(i as int)),
        decreases placeholders.entries@.len() - i,
    {
        let mut pattern: Vec<char> = Vec::new();
        pattern.push('$');
        pattern.push('{');
        let key: Vec<char> = chars_of(placeholders.entries[i].0.as_str());
        append_chars(&mut pattern, &key);
        pattern.push('}');
        let value: Vec<char> = chars_of(placeholders.entries[i].1.as_str());
        proof {
            assert(pattern@ =~= placeholder(key@));
            assert(placeholders@.take(i + 1).drop_last() =~= placeholders@.take(i as int));
            assert(placeholders@.take(i + 1).last() == placeholders@[i as int]);
        }
        out = replaced(&out, &pattern, &value);
        i += 1;
    }
    proof {
        assert(placeholders@.take(i as int) =~= placeholders@);
    }
    string_of(&out)
}

/// A text that holds no placeholder of `entries` is left as it is, whatever
/// happens to be in it.
pub proof fn substitution_leaves_other_text_alone(
    sql: Seq<char>,
    entries: Seq<(Seq<char>, Seq<char>)>,
)
    requires
        forall|i: int, at: int|
            0 <= i < entries.len() && 0 <= at ==> !#[trigger] reads_at(
                sql,
                at,
                placeholder(entries[i].0),
            ),
    ensures
        substitute(sql, entries) == sql,
    decreases entries.len(),
{
    if entries.len() > 0 {
        assert forall|i: int, at: int| 0 <= i < entries.drop_last().len() && 0 <= at implies
            !#[trigger] reads_at(sql, at, placeholder(entries.drop_last()[i].0)) by {
            assert(entries.drop_last()[i] == entries[i]);
            assert(!reads_at(sql, at, placeholder(entries[i].0)));
        }
        substitution_leaves_other_text_alone(sql, entries.drop_last());
        let last = entries[entries.len() - 1];
        assert forall|at: int| 0 <= at implies !#[trigger] reads_at(sql, at, placeholder(last.0)) by {
            assert(!reads_at(sql, at, placeholder(entries[entries.len() - 1].0)));
        }
        replacing_what_does_not_occur(sql, placeholder(last.0), last.1);
    }
}

proof fn replacing_what_does_not_occur(s: Seq<char>, pattern: Seq<char>, with: Seq<char>)
    requires
        forall|at: int| 0 <= at ==> !#[trigger] reads_at(s, at, pattern),
    ensures
        replace_all(s, pattern, with) == s,
    decreases s.len(),
{
    if pattern.len() > 0 && s.len() >= pattern.len() {
        assert(!reads_at(s, 0, pattern));
        let rest = s.skip(1);
        assert forall|at: int| 0 <= at implies !#[trigger] reads_at(rest, at, pattern) by {
            assert(!reads_at(s, at + 1, pattern));
            if at + pattern.len() <= rest.len() {
                assert(rest.subrange(at, at + pattern.len()) =~= s.subrange(
                    at + 1,
                    at + 1 + pattern.len(),
                ));
            }
        }
        replacing_what_does_not_occur(rest, pattern, with);
        assert(seq![s[0]] + rest =~= s);
    }
}

/// Whether a placeholder opens at `at`.
pub open spec fn opens_at(s: Seq<char>, at: int) -> bool {
    0 <= at && at + 1 < s.len() && s[at] == '$' && s[at + 1] == '{'
}

/// Whether placeholders stand apart in `s`: none opens inside another one.
pub open spec fn placeholders_stand_apart(s: Seq<char>) -> bool {
    forall|i: int, k: int|
        #![trigger opens_at(s, i), opens_at(s, k)]
        opens_at(s, i) && opens_at(s, k) && i < k ==> exists|j: int|
            i < j < k && #[trigger] s[j] == '}'
}

/// Whether `value`, wherever it is put, cannot start a placeholder: it opens
/// none and does not end in a dollar sign.
pub open spec fn opens_nothing(value: Seq<char>) -> bool {
    &&& forall|i: int| !#[trigger] opens_at(value, i)
    &&& value.len() > 0 ==> value.last() != '$'
}

/// The entries as a map from keys to values.
pub open spec fn entry_map(entries: Seq<(Seq<char>, Seq<char>)>) -> Map<Seq<char>, Seq<char>>
    decreases entries.len(),
{
    if entries.len() == 0 {
        Map::empty()
    } else {
        entry_map(entries.drop_last()).insert(entries.last().0, entries.last().1)
    }
}

/// `s` with every `${key}` whose key is in `values` replaced by the key's value,
/// all at once. A placeholder ends at the first closing brace.
pub open spec fn expand(s: Seq<char>, values: Map<Seq<char>, Seq<char>>) -> Seq<char>
    decreases s.len(),
{
    if s.len() == 0 {
        s
    } else if !opens_at(s, 0) {
        seq![s[0]] + expand(s.skip(1), values)
    } else {
        match find_from(s, 0, seq!['}']) {
            Some(end) => if 2 <= end < s.len() {
                let key = s.subrange(2, end);
                (if values.contains_key(key) {
                    values[key]
                } else {
                    placeholder(key)
                }) + expand(s.skip(end + 1), values)
            } else {
                s
            },
            None => s,
        }
    }
}

/// Whether `s` starts with an opening brace.
pub open spec fn starts_with_brace(s: Seq<char>) -> bool {
    s.len() > 0 && s[0] == '{'
}

/// Whether no dollar sign that stands directly before a placeholder comes to stand
/// before an opening brace: what the rest of the text expands to starts with
/// something else.
pub open spec fn no_dollar_meets_a_brace(
    s: Seq<char>,
    values: Map<Seq<char>, Seq<char>>,
) -> bool {
    forall|i: int|
        #![trigger opens_at(s, i)]
        opens_at(s, i) && i > 0 && s[i - 1] == '$' ==> !starts_with_brace(
            expand(s.skip(i), values),
        )
}

/// A dollar sign before a placeholder meets no brace where no value is empty or
/// starts with one.
pub proof fn values_without_a_brace_in_front_meet_no_dollar(
    s: Seq<char>,
    values: Map<Seq<char>, Seq<char>>,
)
    requires
        forall|key: Seq<char>|
            #[trigger] values.contains_key(key) ==> values[key].len() > 0 && values[key][0] != '{',
    ensures
        no_dollar_meets_a_brace(s, values),
{
}

/// Substitution replaces each `${key}` by the value that the key has, and
/// nothing else, in whatever order the entries are taken: wherever placeholders
/// stand apart, no key holds a closing brace, no value can start a placeholder
/// and no dollar sign before one meets a brace, the result is the expansion by
/// the entries taken as a map.
pub proof fn substitution_is_expansion(sql: Seq<char>, entries: Seq<(Seq<char>, Seq<char>)>)
    requires
        placeholders_stand_apart(sql),
        no_dollar_meets_a_brace(sql, entry_map(entries)),
        keys_are_distinct(entries),
        forall|i: int| 0 <= i < entries.len() ==> !(#[trigger] entries[i]).0.contains('}'),
        forall|i: int| 0 <= i < entries.len() ==> opens_nothing((#[trigger] entries[i]).1),
    ensures
        substitute(sql, entries) == expand(sql, entry_map(entries)),
    decreases entries.len(),
{
    if entries.len() == 0 {
        expansion_by_nothing(sql);
    } else {
        let front = entries.drop_last();
        let last = entries.last();
        assert forall|i: int, j: int| 0 <= i < j < front.len() implies (#[trigger] front[i]).0 != (
        #[trigger] front[j]).0 by {
            assert(entries[i].0 != entries[j].0);
        }
        assert(!entry_map(front).contains_key(last.0)) by {
            if entry_map(front).contains_key(last.0) {
                let i = entry_of_key(front, last.0);
                assert(entries[i].0 != entries[entries.len() - 1].0);
            }
        }
        assert(no_dollar_meets_a_brace(sql, entry_map(front))) by {
            assert forall|i: int|
                #![trigger opens_at(sql, i)]
                opens_at(sql, i) && i > 0 && sql[i - 1] == '$' implies !starts_with_brace(
                expand(sql.skip(i), entry_map(front)),
            ) by {
                if starts_with_brace(expand(sql.skip(i), entry_map(front))) {
                    braces_stay_in_front(sql.skip(i), entry_map(front), last.0, last.1);
                }
            }
        }
        substitution_is_expansion(sql, front);
        assert forall|key: Seq<char>| #[trigger] entry_map(front).contains_key(key) implies key
            != last.0 && opens_nothing(entry_map(front)[key]) by {
            let i = entry_of_key(front, key);
            assert(entries[i] == front[i]);
            assert(entries[i].0 != entries[entries.len() - 1].0);
        }
        assert(last == entries[entries.len() - 1]);
        expansion_by_one_more(sql, entry_map(front), last.0, last.1);
    }
}

/// The order of the entries does not matter, under the same conditions: entries
/// that say the same as a map substitute the same.
pub proof fn substitution_order_does_not_matter(
    sql: Seq<char>,
    a: Seq<(Seq<char>, Seq<char>)>,
    b: Seq<(Seq<char>, Seq<char>)>,
)
    requires
        placeholders_stand_apart(sql),
        no_dollar_meets_a_brace(sql, entry_map(a)),
        keys_are_distinct(a),
        keys_are_distinct(b),
        forall|i: int| 0 <= i < a.len() ==> !(#[trigger] a[i]).0.contains('}'),
        forall|i: int| 0 <= i < b.len() ==> !(#[trigger] b[i]).0.contains('}'),
        forall|i: int| 0 <= i < a.len() ==> opens_nothing((#[trigger] a[i]).1),
        forall|i: int| 0 <= i < b.len() ==> opens_nothing((#[trigger] b[i]).1),
        entry_map(a) == entry_map(b),
    ensures
        substitute(sql, a) == substitute(sql, b),
{
    substitution_is_expansion(sql, a);
    substitution_is_expansion(sql, b);
}

proof fn entry_of_key(entries: Seq<(Seq<char>, Seq<char>)>, key: Seq<char>) -> (i: int)
    requires
        entry_map(entries).contains_key(key),
    ensures
        0 <= i < entries.len(),
        entries[i].0 == key,
        entry_map(entries)[key] == entries[i].1,
    decreases entries.len(),
{
    if entries.last().0 == key {
        entries.len() - 1
    } else {
        entry_of_key(entries.drop_last(), key)
    }
}

proof fn expansion_by_nothing(s: Seq<char>)
    ensures
        expand(s, Map::empty()) == s,
    decreases s.len(),
{
    if s.len() > 0 {
        if !opens_at(s, 0) {
            expansion_by_nothing(s.skip(1));
            assert(seq![s[0]] + s.skip(1) =~= s);
        } else {
            find_from_is_first(s, 0, seq!['}']);
            match find_from(s, 0, seq!['}']) {
                Some(end) => {
                    if 2 <= end < s.len() {
                        expansion_by_nothing(s.skip(end + 1));
                        assert(s.subrange(end, end + 1)[0] == '}');
                        assert(placeholder(s.subrange(2, end)) + s.skip(end + 1) =~= s);
                    }
                },
                None => {},
            }
        }
    }
}

/// `replace_all` keeps a character at which the pattern does not begin.
proof fn replacing_after_a_character(
    c: char,
    rest: Seq<char>,
    pattern: Seq<char>,
    with: Seq<char>,
)
    requires
        pattern.len() > 0,
        !reads_at(seq![c] + rest, 0, pattern),
    ensures
        replace_all(seq![c] + rest, pattern, with) == seq![c] + replace_all(rest, pattern, with),
{
    assert((seq![c] + rest).skip(1) =~= rest);
}

/// `replace_all` keeps a prefix in which a placeholder cannot begin.
proof fn replacing_after_a_prefix(
    prefix: Seq<char>,
    rest: Seq<char>,
    key: Seq<char>,
    with: Seq<char>,
)
    requires
        opens_nothing(prefix),
    ensures
        replace_all(prefix + rest, placeholder(key), with) == prefix + replace_all(
            rest,
            placeholder(key),
            with,
        ),
    decreases prefix.len(),
{
    let pattern = placeholder(key);
    let whole = prefix + rest;
    if prefix.len() == 0 {
        assert(whole =~= rest);
        assert(prefix + replace_all(rest, pattern, with) =~= replace_all(rest, pattern, with));
    } else {
        let tail = prefix.skip(1);
        assert forall|i: int| !#[trigger] opens_at(tail, i) by {
            assert(!opens_at(prefix, i + 1));
        }
        replacing_after_a_prefix(tail, rest, key, with);
        assert(whole =~= seq![prefix[0]] + (tail + rest));
        assert(!reads_at(whole, 0, pattern)) by {
            if reads_at(whole, 0, pattern) {
                let read = whole.subrange(0, pattern.len() as int);
                assert(read[0] == '$' && read[1] == '{');
                assert(prefix.len() > 1);
                assert(opens_at(prefix, 0));
            }
        }
        replacing_after_a_character(prefix[0], tail + rest, pattern, with);
        assert(seq![prefix[0]] + (tail + replace_all(rest, pattern, with)) =~= prefix
            + replace_all(rest, pattern, with));
    }
}

/// A brace in front of an expansion stays there when more keys get values.
proof fn braces_stay_in_front(
    s: Seq<char>,
    values: Map<Seq<char>, Seq<char>>,
    key: Seq<char>,
    value: Seq<char>,
)
    requires
        !values.contains_key(key),
        starts_with_brace(expand(s, values)),
    ensures
        starts_with_brace(expand(s, values.insert(key, value))),
    decreases s.len(),
{
    if s.len() > 0 && opens_at(s, 0) {
        match find_from(s, 0, seq!['}']) {
            Some(end) => {
                if 2 <= end < s.len() {
                    let inner = s.subrange(2, end);
                    if values.contains_key(inner) {
                        let tail = expand(s.skip(end + 1), values);
                        if values[inner].len() == 0 {
                            assert(values[inner] + tail =~= tail);
                            braces_stay_in_front(s.skip(end + 1), values, key, value);
                            let more = expand(s.skip(end + 1), values.insert(key, value));
                            assert(values[inner] + more =~= more);
                        } else {
                            assert((values[inner] + tail)[0] == values[inner][0]);
                        }
                    } else {
                        assert((placeholder(inner) + expand(s.skip(end + 1), values))[0] == '$');
                    }
                }
            },
            None => {},
        }
    }
}

proof fn placeholders_stand_apart_in_suffix(
    s: Seq<char>,
    n: int,
    values: Map<Seq<char>, Seq<char>>,
)
    requires
        placeholders_stand_apart(s),
        no_dollar_meets_a_brace(s, values),
        0 <= n <= s.len(),
    ensures
        placeholders_stand_apart(s.skip(n)),
        no_dollar_meets_a_brace(s.skip(n), values),
{
    let t = s.skip(n);
    assert forall|i: int, k: int|
        #![trigger opens_at(t, i), opens_at(t, k)]
        opens_at(t, i) && opens_at(t, k) && i < k implies exists|j: int|
        i < j < k && #[trigger] t[j] == '}' by {
        assert(opens_at(s, i + n) && opens_at(s, k + n));
        let j = choose|j: int| i + n < j < k + n && #[trigger] s[j] == '}';
        assert(t[j - n] == '}');
    }
    assert forall|i: int|
        #![trigger opens_at(t, i)]
        opens_at(t, i) && i > 0 && t[i - 1] == '$' implies !starts_with_brace(
        expand(t.skip(i), values),
    ) by {
        assert(opens_at(s, i + n));
        assert(t.skip(i) =~= s.skip(i + n));
    }
}

proof fn expansion_by_one_more(
    s: Seq<char>,
    values: Map<Seq<char>, Seq<char>>,
    key: Seq<char>,
    value: Seq<char>,
)
    requires
        placeholders_stand_apart(s),
        no_dollar_meets_a_brace(s, values),
        !values.contains_key(key),
        !key.contains('}'),
        forall|k: Seq<char>| #[trigger] values.contains_key(k) ==> opens_nothing(values[k]),
    ensures
        replace_all(expand(s, values), placeholder(key), value) == expand(
            s,
            values.insert(key, value),
        ),
    decreases s.len(),
{
    let pattern = placeholder(key);
    let more = values.insert(key, value);
    if s.len() == 0 {
    } else if !opens_at(s, 0) {
        let tail = s.skip(1);
        placeholders_stand_apart_in_suffix(s, 1, values);
        expansion_by_one_more(tail, values, key, value);
        let out = expand(tail, values);
        assert(!reads_at(seq![s[0]] + out, 0, pattern)) by {
            let whole = seq![s[0]] + out;
            if reads_at(whole, 0, pattern) {
                let read = whole.subrange(0, pattern.len() as int);
                assert(read[0] == '$' && read[1] == '{');
                assert(s[0] == '$' && out[0] == '{');
                assert(!opens_at(s, 1));
                assert(!opens_at(tail, 0));
                assert(out[0] == s[1]);
                assert(opens_at(s, 0));
            }
        }
        replacing_after_a_character(s[0], out, pattern, value);
    } else {
        find_from_is_first(s, 0, seq!['}']);
        match find_from(s, 0, seq!['}']) {
            Some(end) => {
                assert(s.subrange(end, end + 1)[0] == '}');
                assert(2 <= end < s.len());
                let inner = s.subrange(2, end);
                let tail = s.skip(end + 1);
                assert forall|j: int| 0 <= j < end implies s[j] != '}' by {
                    assert(!reads_at(s, j, seq!['}']));
                    assert(s.subrange(j, j + 1) =~= seq![s[j]]);
                }
                placeholders_stand_apart_in_suffix(s, end + 1, values);
                expansion_by_one_more(tail, values, key, value);
                let out = expand(tail, values);
                if values.contains_key(inner) {
                    replacing_after_a_prefix(values[inner], out, key, value);
                } else if inner == key {
                    let whole = pattern + out;
                    assert(whole.subrange(0, pattern.len() as int) =~= pattern);
                    assert(whole.skip(pattern.len() as int) =~= out);
                } else {
                    let body = s.subrange(1, end + 1);
                    let whole = placeholder(inner) + out;
                    assert(whole =~= seq!['$'] + (body + out));
                    assert(!reads_at(whole, 0, pattern)) by {
                        if reads_at(whole, 0, pattern) {
                            same_placeholder(inner, out, key);
                        }
                    }
                    replacing_after_a_character('$', body + out, pattern, value);
                    assert(opens_nothing(body)) by {
                        assert forall|i: int| !#[trigger] opens_at(body, i) by {
                            if opens_at(body, i) {
                                assert(opens_at(s, 0) && opens_at(s, i + 1));
                                let j = choose|j: int| 0 < j < i + 1 && #[trigger] s[j] == '}';
                                assert(s[j] != '}');
                            }
                        }
                    }
                    replacing_after_a_prefix(body, out, key, value);
                    assert(seq!['$'] + (body + replace_all(out, pattern, value)) =~= placeholder(
                        inner,
                    ) + replace_all(out, pattern, value));
                }
            },
            None => {
                assert forall|at: int| 0 <= at implies !#[trigger] reads_at(s, at, pattern) by {
                    if reads_at(s, at, pattern) {
                        let last = at + pattern.len() - 1;
                        assert(s.subrange(at, at + pattern.len())[pattern.len() - 1] == '}');
                        assert(s.subrange(last, last + 1) =~= seq!['}']);
                        assert(reads_at(s, last, seq!['}']));
                    }
                }
                replacing_what_does_not_occur(s, pattern, value);
            },
        }
    }
}

/// Two placeholders whose keys hold no closing brace are read at the same place
/// only if they are the same.
proof fn same_placeholder(inner: Seq<char>, rest: Seq<char>, key: Seq<char>)
    requires
        !inner.contains('}'),
        !key.contains('}'),
        reads_at(placeholder(inner) + rest, 0, placeholder(key)),
    ensures
        inner == key,
{
    let whole = placeholder(inner) + rest;
    let read = whole.subrange(0, placeholder(key).len() as int);
    assert(read == placeholder(key));
    if inner.len() < key.len() {
        assert(read[inner.len() as int + 2] == '}');
        assert(placeholder(key)[inner.len() as int + 2] == key[inner.len() as int]);
    } else if key.len() < inner.len() {
        assert(placeholder(key)[key.len() as int + 2] == '}');
        assert(read[key.len() as int + 2] == inner[key.len() as int]);
    } else {
        assert forall|i: int| 0 <= i < key.len() implies inner[i] == key[i] by {
            assert(read[i + 2] == inner[i]);
            assert(placeholder(key)[i + 2] == key[i]);
        }
        assert(inner =~= key);
    }
}

// ------------------------------------------------------------ PL/SQL blocks

/// Whether a line holds only a slash, the client's delimiter of PL/SQL blocks.
pub open spec fn is_delimiter(line: Seq<char>) -> bool {
    trim(line) == seq!['/']
}

/// The runs of lines between delimiters, the delimiters left out.
pub open spec fn runs(all: Seq<Seq<char>>) -> Seq<Seq<Seq<char>>>
    decreases all.len(),
{
    if all.len() == 0 {
        seq![Seq::empty()]
    } else {
        let before = runs(all.drop_last());
        if is_delimiter(all.last()) {
            before.push(Seq::empty())
        } else {
            before.drop_last().push(before.last().push(all.last()))
        }
    }
}

/// The lines put together, each ended by a newline.
pub open spec fn joined(run: Seq<Seq<char>>) -> Seq<char>
    decreases run.len(),
{
    if run.len() == 0 {
        Seq::empty()
    } else {
        joined(run.drop_last()) + run.last().push('\n')
    }
}

/// The blocks that the runs make: those that are not blank.
pub open spec fn blocks_of_runs(all: Seq<Seq<Seq<char>>>) -> Seq<Seq<char>> {
    all.map_values(|run: Seq<Seq<char>>| joined(run)).filter(|b: Seq<char>| !is_blank(b))
}

/// The PL/SQL blocks of `sql`: what stands between lines that hold only a slash,
/// as far as it is not blank.
pub open spec fn plsql_blocks(sql: Seq<char>) -> Seq<Seq<char>> {
    blocks_of_runs(runs(lines(sql)))
}

proof fn runs_are_never_none(all: Seq<Seq<char>>)
    ensures
        runs(all).len() > 0,
    decreases all.len(),
{
    if all.len() > 0 {
        runs_are_never_none(all.drop_last());
    }
}

proof fn blocks_of_runs_push(all: Seq<Seq<Seq<char>>>, run: Seq<Seq<char>>)
    ensures
        blocks_of_runs(all.push(run)) == if is_blank(joined(run)) {
            blocks_of_runs(all)
        } else {
            blocks_of_runs(all).push(joined(run))
        },
{
    let f = |run: Seq<Seq<char>>| joined(run);
    let p = |b: Seq<char>| !is_blank(b);
    assert(all.push(run).map_values(f) =~= all.map_values(f).push(joined(run)));
    all.map_values(f).lemma_filter_push(joined(run), p);
}

/// Splits `sql` at the lines that hold only a slash; blank blocks are dropped.
pub fn split_plsql_blocks(sql: &str) -> (blocks: Vec<String>)
    ensures
        string_views(blocks@) == plsql_blocks(sql@),
{
    let chars: Vec<char> = chars_of(sql);
    let all: Vec<Vec<char>> = lines_of(&chars);
    let mut slash: Vec<char> = Vec::new();
    slash.push('/');
    let mut blocks: Vec<String> = Vec::new();
    let mut cur: Vec<char> = Vec::new();
    let mut i: usize = 0;
    let ghost views = char_views(all@);
    proof {
        assert(slash@ =~= seq!['/']);
        assert(views.take(0) =~= Seq::empty());
        assert(runs(views.take(0)).drop_last() =~= Seq::empty());
        assert(string_views(blocks@) =~= blocks_of_runs(Seq::empty()));
    }
    while i < all.len()
        invariant
            i <= all@.len(),
            slash@ == seq!['/'],
            views == char_views(all@),
            runs(views.take(i as int)).len() > 0,
            cur@ == joined(runs(views.take(i as int)).last()),
            string_views(blocks@) == blocks_of_runs(runs(views.take(i as int)).drop_last()),
        decreases all@.len() - i,
    {
        let ghost before = runs(views.take(i as int));
        let ghost after = runs(views.take(i + 1));
        let ghost old_blocks = blocks@;
        proof {
            assert(views.take(i + 1).drop_last() =~= views.take(i as int));
            assert(views.take(i + 1).last() == all@[i as int]@);
        }
        let stripped: Vec<char> = trimmed(&all[i]);
        if stripped.len() == 1 && stripped[0] == '/' {
            proof {
                assert(stripped@ =~= seq!['/']);
                assert(after.drop_last() =~= before);
                assert(before =~= before.drop_last().push(before.last()));
                blocks_of_runs_push(before.drop_last(), before.last());
            }
            if !blank(&cur) {
                blocks.push(string_of(&cur));
                proof {
                    assert(string_views(blocks@) =~= string_views(old_blocks).push(cur@));
                }
            }
            cur = Vec::new();
        } else {
            let ghost old_cur = cur@;
            append_chars(&mut cur, &all[i]);
            cur.push('\n');
            proof {
                assert(!is_delimiter(all@[i as int]@));
                assert(after.drop_last() =~= before.drop_last());
                let run = after.last();
                assert(run.drop_last() =~= before.last());
                assert(cur@ =~= old_cur + all@[i as int]@.push('\n'));
            }
        }
        i += 1;
    }
    proof {
        assert(views.take(i as int) =~= views);
        assert(views == lines(sql@));
        let last = runs(views);
        assert(last =~= last.drop_last().push(last.last()));
        blocks_of_runs_push(last.drop_last(), last.last());
    }
    if !blank(&cur) {
        let ghost old_blocks = blocks@;
        blocks.push(string_of(&cur));
        proof {
            assert(string_views(blocks@) =~= string_views(old_blocks).push(cur@));
        }
    }
    blocks
}

/// No block is blank.
pub proof fn no_block_is_blank(sql: Seq<char>, i: int)
    requires
        0 <= i < plsql_blocks(sql).len(),
    ensures
        !is_blank(plsql_blocks(sql)[i]),
{
    let p = |b: Seq<char>| !is_blank(b);
    let all = runs(lines(sql)).map_values(|run: Seq<Seq<char>>| joined(run));
    all.lemma_filter_pred(p, i);
    assert(p(plsql_blocks(sql)[i]));
}

/// Splitting loses no line and reorders none: the runs, put one after the other,
/// are the lines that are not delimiters.
pub proof fn runs_keep_every_line(all: Seq<Seq<char>>)
    ensures
        runs(all).flatten() == all.filter(|line: Seq<char>| !is_delimiter(line)),
    decreases all.len(),
{
    let p = |line: Seq<char>| !is_delimiter(line);
    if all.len() == 0 {
        let none = Seq::<Seq<Seq<char>>>::empty();
        none.lemma_flatten_push(Seq::empty());
        assert(runs(all) =~= none.push(Seq::empty()));
        assert(none.flatten() + Seq::empty() =~= all.filter(p));
    } else {
        let front = all.drop_last();
        let before = runs(front);
        runs_keep_every_line(front);
        runs_are_never_none(front);
        assert(all =~= front.push(all.last()));
        front.lemma_filter_push(all.last(), p);
        if is_delimiter(all.last()) {
            before.lemma_flatten_push(Seq::empty());
            assert(before.flatten() + Seq::empty() =~= before.flatten());
        } else {
            assert(before =~= before.drop_last().push(before.last()));
            before.drop_last().lemma_flatten_push(before.last());
            before.drop_last().lemma_flatten_push(before.last().push(all.last()));
            assert(before.drop_last().flatten() + before.last().push(all.last()) =~= (
            before.drop_last().flatten() + before.last()).push(all.last()));
        }
    }
}

/// A text without delimiter lines is one block, made of all its lines, unless it
/// is blank.
pub proof fn text_without_delimiters_is_one_block(sql: Seq<char>)
    requires
        forall|i: int| 0 <= i < lines(sql).len() ==> !is_delimiter(#[trigger] lines(sql)[i]),
    ensures
        plsql_blocks(sql) == if is_blank(joined(lines(sql))) {
            Seq::empty()
        } else {
            seq![joined(lines(sql))]
        },
{
    one_run_without_delimiters(lines(sql));
    let none = Seq::<Seq<Seq<char>>>::empty();
    assert(runs(lines(sql)) =~= none.push(lines(sql)));
    blocks_of_runs_push(none, lines(sql));
    assert(blocks_of_runs(none) =~= Seq::empty());
    assert(Seq::empty().push(joined(lines(sql))) =~= seq![joined(lines(sql))]);
}

proof fn one_run_without_delimiters(all: Seq<Seq<char>>)
    requires
        forall|i: int| 0 <= i < all.len() ==> !is_delimiter(#[trigger] all[i]),
    ensures
        runs(all) == seq![all],
    decreases all.len(),
{
    if all.len() == 0 {
        assert(all =~= Seq::empty());
    } else {
        let front = all.drop_last();
        assert forall|i: int| 0 <= i < front.len() implies !is_delimiter(#[trigger] front[i]) by {
            assert(front[i] == all[i]);
        }
        one_run_without_delimiters(front);
        assert(front.push(all.last()) =~= all);
        assert(seq![front].drop_last().push(all) =~= seq![all]);
    }
}

// --------------------------------------------------------------- statements

/// The statements of a text: its blocks, trimmed, as far as anything is left.
pub open spec fn statements(sql: Seq<char>) -> Seq<Seq<char>> {
    plsql_blocks(sql).map_values(|b: Seq<char>| trim(b)).filter(|s: Seq<char>| s.len() > 0)
}

/// The statements of a migration's text, after substitution where there are
/// placeholders.
pub open spec fn migration_statements(
    text: Seq<char>,
    placeholders: Option<Seq<(Seq<char>, Seq<char>)>>,
) -> Seq<Seq<char>> {
    match placeholders {
        Some(entries) => statements(substitute(text, entries)),
        None => statements(text),
    }
}

/// The view of placeholders that may be missing.
pub open spec fn placeholders_view(
    placeholders: Option<Placeholders>,
) -> Option<Seq<(Seq<char>, Seq<char>)>> {
    match placeholders {
        Some(p) => Some(p@),
        None => None,
    }
}

/// The statements of a migration's text, in the order in which they are
/// executed.
pub fn sql_statements(text: &str, placeholders: &Option<Placeholders>) -> (found: Vec<String>)
    ensures
        string_views(found@) == migration_statements(text@, placeholders_view(*placeholders)),
{
    let blocks: Vec<String> = match placeholders {
        Some(p) => {
            let sql: String = substitute_placeholders(text, p);
            split_plsql_blocks(sql.as_str())
        },
        None => split_plsql_blocks(text),
    };
    let ghost t = |b: Seq<char>| trim(b);
    let ghost p = |s: Seq<char>| s.len() > 0;
    let ghost views = string_views(blocks@);
    let mut found: Vec<String> = Vec::new();
    let mut i: usize = 0;
    proof {
        assert(views.take(0).map_values(t).filter(p) =~= string_views(found@));
    }
    while i < blocks.len()
        invariant
            i <= blocks@.len(),
            views == string_views(blocks@),
            t == (|b: Seq<char>| trim(b)),
            p == (|s: Seq<char>| s.len() > 0),
            string_views(found@) == views.take(i as int).map_values(t).filter(p),
        decreases blocks@.len() - i,
    {
        let ghost before = found@;
        let block: Vec<char> = chars_of(blocks[i].as_str());
        let statement: Vec<char> = trimmed(&block);
        proof {
            assert(views.take(i + 1).map_values(t) =~= views.take(i as int).map_values(t).push(
                statement@,
            ));
            views.take(i as int).map_values(t).lemma_filter_push(statement@, p);
        }
        if statement.len() > 0 {
            found.push(string_of(&statement));
            proof {
                assert(string_views(found@) =~= string_views(before).push(statement@));
            }
        }
        i += 1;
    }
    proof {
        assert(views.take(i as int) =~= views);
    }
    found
}

/// Every block is executed: trimming leaves something of each.
pub proof fn every_block_is_a_statement(sql: Seq<char>)
    ensures
        statements(sql) == plsql_blocks(sql).map_values(|b: Seq<char>| trim(b)),
{
    let t = |b: Seq<char>| trim(b);
    let p = |s: Seq<char>| s.len() > 0;
    let all = plsql_blocks(sql).map_values(t);
    assert forall|i: int| 0 <= i < all.len() implies p(#[trigger] all[i]) by {
        no_block_is_blank(sql, i);
        trim_is_empty_only_of_blank(plsql_blocks(sql)[i]);
    }
    filter_keeps_all(all, p);
}

proof fn filter_keeps_all<A>(s: Seq<A>, p: spec_fn(A) -> bool)
    requires
        forall|i: int| 0 <= i < s.len() ==> p(#[trigger] s[i]),
    ensures
        s.filter(p) == s,
    decreases s.len(),
{
    if s.len() == 0 {
        assert(s.filter(p) =~= s);
    } else {
        let front = s.drop_last();
        assert forall|i: int| 0 <= i < front.len() implies p(#[trigger] front[i]) by {
            assert(front[i] == s[i]);
        }
        filter_keeps_all(front, p);
        assert(s =~= front.push(s[s.len() - 1]));
        front.lemma_filter_push(s[s.len() - 1], p);
    }
}

} // verus!
