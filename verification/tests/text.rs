use data_connector::checksum::hash64;
use data_connector::numbers::{decimal_of, parsed_u64};
use data_connector::sql_text::{
    split_plsql_blocks, sql_statements, substitute_placeholders, Placeholders,
};
use data_connector::text::{
    chars_of, find_text, joined_text, lines_of, part_of, reads_from, replaced, string_of,
    text_at_most, text_eq, trimmed, white_space,
};

fn placeholders(entries: &[(&str, &str)]) -> Placeholders {
    let mut p = Placeholders::new();
    for (key, value) in entries {
        p.insert(key.to_string(), value.to_string());
    }
    p
}

#[test]
fn checksum_of_known_inputs() {
    assert_eq!(hash64(b""), 0xcbf29ce484222325);
    assert_eq!(hash64(b"a"), 0xaf63dc4c8601ec8c);
    assert_eq!(hash64(b"foobar"), 0x85944171f73967e8);
}

#[test]
fn checksum_differs_where_one_byte_differs() {
    assert_ne!(hash64(b"CREATE TABLE T (A NUMBER)"), hash64(b"CREATE TABLE T (B NUMBER)"));
}

#[test]
fn white_space_is_that_of_std() {
    for n in 0..=0x10ffffu32 {
        if let Some(c) = char::from_u32(n) {
            assert_eq!(white_space(c), c.is_whitespace(), "{n:x}");
        }
    }
}

#[test]
fn trimming_is_that_of_std() {
    for s in ["", " ", "a", "  a b\t\n", "\u{a0}x\u{2003}", "\u{200b}x\u{200b}", "\r\n"] {
        assert_eq!(string_of(&trimmed(&chars_of(s))), s.trim());
    }
}

#[test]
fn lines_are_those_of_std() {
    for s in ["", "a", "a\n", "a\n\nb", "a\r\nb\r", "\n", "\r\n\r\n", "a\rb\n\r", "é\nß"] {
        let found: Vec<String> = lines_of(&chars_of(s)).iter().map(string_of).collect();
        let expected: Vec<String> = s.lines().map(str::to_string).collect();
        assert_eq!(found, expected, "{s:?}");
    }
}

#[test]
fn replacing_is_that_of_std() {
    for (s, pattern, with) in [
        ("aaaa", "aa", "b"),
        ("abcabc", "bc", ""),
        ("abc", "x", "y"),
        ("${a}${a}", "${a}", "${b}"),
        ("", "a", "b"),
    ] {
        let out = replaced(&chars_of(s), &chars_of(pattern), &chars_of(with));
        assert_eq!(string_of(&out), s.replace(pattern, with));
    }
}

#[test]
fn text_is_compared_as_by_std() {
    let samples = ["", "a", "b", "ab", "R__a.sql", "R__B.sql", "é", "\u{10000}", "\u{ffff}"];
    for a in samples {
        for b in samples {
            assert_eq!(text_at_most(a, b), a <= b);
            assert_eq!(text_eq(a, b), a == b);
        }
    }
}

#[test]
fn text_is_searched_and_joined() {
    let s = chars_of("V1__a__b");
    let underscores = chars_of("__");
    assert_eq!(find_text(&s, 0, &underscores), Some(2));
    assert_eq!(find_text(&s, 3, &underscores), Some(5));
    assert_eq!(find_text(&s, 6, &underscores), None);
    assert!(reads_from(&s, 0, &chars_of("V1")));
    assert!(!reads_from(&s, 7, &chars_of("bb")));
    assert_eq!(string_of(&part_of(&s, 1, 2)), "1");
    assert_eq!(joined_text("ab", "c"), "abc");
}

#[test]
fn decimal_numbers() {
    assert_eq!(decimal_of(0), "0");
    assert_eq!(decimal_of(-1017), "-1017");
    assert_eq!(decimal_of(i32::MIN), i32::MIN.to_string());
    assert_eq!(decimal_of(i32::MAX), i32::MAX.to_string());
}

#[test]
fn numbers_are_parsed_as_by_std() {
    for s in [
        "", "0", "007", "+7", "+", "-1", "1 ", "18446744073709551615", "18446744073709551616",
        "999999999999999999999999", "1_0", "٣",
    ] {
        assert_eq!(parsed_u64(&chars_of(s)), s.parse::<u64>().ok(), "{s:?}");
    }
}

#[test]
fn placeholders_are_replaced() {
    let p = placeholders(&[("schema", "APP"), ("size", "255")]);
    assert_eq!(
        substitute_placeholders("CREATE TABLE ${schema}.T (A VARCHAR2(${size}), B ${other})", &p),
        "CREATE TABLE APP.T (A VARCHAR2(255), B ${other})"
    );
    assert_eq!(substitute_placeholders("$schema {schema} ${ schema }", &p), "$schema {schema} ${ schema }");
    assert_eq!(substitute_placeholders("${schema}${schema}", &p), "APPAPP");
}

#[test]
fn a_placeholder_has_the_last_value_put_in() {
    let p = placeholders(&[("a", "1"), ("b", "2"), ("a", "3")]);
    assert_eq!(substitute_placeholders("${a}${b}", &p), "32");
}

#[test]
fn order_of_placeholders_does_not_matter_where_values_open_none() {
    let sql = "${a}-${b}-${c}";
    let ab = placeholders(&[("a", "x"), ("b", "y")]);
    let ba = placeholders(&[("b", "y"), ("a", "x")]);
    assert_eq!(substitute_placeholders(sql, &ab), "x-y-${c}");
    assert_eq!(substitute_placeholders(sql, &ba), "x-y-${c}");
}

#[test]
fn text_without_placeholders_is_left_alone() {
    let p = placeholders(&[("a", "x")]);
    assert_eq!(substitute_placeholders("SELECT '$' || '{a}' FROM DUAL", &p), "SELECT '$' || '{a}' FROM DUAL");
    assert_eq!(substitute_placeholders("${a}", &Placeholders::new()), "${a}");
}

#[test]
fn blocks_are_split_at_slashes() {
    assert_eq!(
        split_plsql_blocks("BEGIN\n  NULL;\nEND;\n/\nSELECT 1 / 2 FROM DUAL\n \t/ \r\nlast"),
        vec!["BEGIN\n  NULL;\nEND;\n", "SELECT 1 / 2 FROM DUAL\n", "last\n"]
    );
}

#[test]
fn text_without_slashes_is_one_block() {
    assert_eq!(split_plsql_blocks("SELECT 1\r\nFROM DUAL"), vec!["SELECT 1\nFROM DUAL\n"]);
}

#[test]
fn blank_blocks_are_dropped() {
    assert_eq!(split_plsql_blocks(""), Vec::<String>::new());
    assert_eq!(split_plsql_blocks("\n/\n  \n/\n/\nx\n/\n\n"), vec!["x\n"]);
}

#[test]
fn statements_are_trimmed_after_substitution() {
    let p = placeholders(&[("t", "T")]);
    assert_eq!(
        sql_statements("\n  DROP TABLE ${t}\n\n/\n  \n/\nBEGIN NULL; END;\n/\n", &Some(p)),
        vec!["DROP TABLE T", "BEGIN NULL; END;"]
    );
    assert_eq!(sql_statements("DROP TABLE ${t}", &None), vec!["DROP TABLE ${t}"]);
}

#[test]
fn substitution_may_bring_in_delimiters() {
    let p = placeholders(&[("end", "\n/\n")]);
    assert_eq!(sql_statements("A${end}B", &Some(p)), vec!["A", "B"]);
}

#[test]
fn checksum_goes_on_where_it_stopped() {
    let (a, b): (&[u8], &[u8]) = (b"CREATE TABLE T ", b"(A NUMBER)");
    let mut hash = hash64(a);
    for byte in b {
        hash = (hash ^ *byte as u64).wrapping_mul(0x100000001b3);
    }
    assert_eq!(hash, hash64(&[a, b].concat()));
}

#[test]
fn trimming_twice_is_trimming_once() {
    let once = trimmed(&chars_of(" \t a b \n"));
    assert_eq!(trimmed(&once), once);
    assert_eq!(string_of(&once), "a b");
}

#[test]
fn no_line_but_delimiters_is_lost() {
    let sql = "a\n/\nb\n\nc\n /\nd\n";
    let kept: String = split_plsql_blocks(sql).concat();
    let expected: String =
        sql.lines().filter(|l| l.trim() != "/").map(|l| format!("{l}\n")).collect();
    assert_eq!(kept, expected);
}

#[test]
fn every_changed_byte_changes_the_checksum() {
    let data = b"CREATE OR REPLACE VIEW V AS SELECT 1 FROM DUAL".to_vec();
    let sum = hash64(&data);
    for at in 0..data.len() {
        for byte in 0..=255u8 {
            let mut changed = data.clone();
            changed[at] = byte;
            assert_eq!(hash64(&changed) == sum, byte == data[at]);
        }
    }
}

#[test]
fn dollar_before_a_placeholder_is_kept() {
    let p = placeholders(&[("price", "5"), ("x", "y")]);
    assert_eq!(substitute_placeholders("$${price} $${x}${price}", &p), "$5 $y5");
}

#[test]
fn dollar_may_meet_a_brace_and_open_a_placeholder() {
    let p = placeholders(&[("a", ""), ("b", "y")]);
    assert_eq!(substitute_placeholders("$${a}{b}", &p), "y");
    let p = placeholders(&[("a", "{b}"), ("b", "y")]);
    assert_eq!(substitute_placeholders("$${a}", &p), "y");
}
