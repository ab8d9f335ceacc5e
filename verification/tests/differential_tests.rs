//! The text functions of the library beside the same functions written with
//! the standard library and with `similar`, on many inputs.

use similar::ChangeTag;
use similar::TextDiff;
use tla_connect::diff::line_diff;
use tla_connect::escape_tla_string;
use tla_connect::numeral::parse_i64;
use tla_connect::ItfValue;
use tla_connect::parse_apalache_output;
use tla_connect::rpc::client::rpc_url;
use tla_connect::text::chars_of;
use tla_connect::text::contains_chars;
use tla_connect::text::has_suffix;
use tla_connect::unified_diff;

const TEXTS: [&str; 22] = [
    "",
    "a",
    "a\n",
    "\n",
    "\n\n",
    "a\nb",
    "a\nb\n",
    "a\r\nb\r\n",
    "a\rb",
    "  a  \n\tb\t\n",
    "Counter {\n    value: 1,\n}",
    "Counter {\n    value: 2,\n}",
    "Counter {\n    value: 2,\n    extra: true,\n}",
    "x\ny\nz",
    "x\nz",
    "z\ny\nx\n",
    "é\u{a0}\n\u{2028}",
    "error here\nno Error\nfine",
    "Error",
    "ERROR only\n\n",
    "tab\there \"quoted\" back\\slash",
    "ctl\u{1}\u{1f}\u{7f}\u{9f}\u{a0}\0end",
];

fn unified_with_similar(left: &str, right: &str) -> String {
    let diff = TextDiff::from_lines(left, right);
    let mut output = String::new();
    for change in diff.iter_all_changes() {
        let sign = match change.tag() {
            ChangeTag::Delete => "-",
            ChangeTag::Insert => "+",
            ChangeTag::Equal => " ",
        };
        output.push_str(sign);
        output.push_str(change.value());
        if !change.value().ends_with('\n') {
            output.push('\n');
        }
    }
    output
}

fn line_diff_with_std(left: &str, right: &str) -> String {
    let mut output = String::new();
    let left_lines: Vec<&str> = left.lines().collect();
    let right_lines: Vec<&str> = right.lines().collect();
    for (i, (a, b)) in left_lines.iter().zip(right_lines.iter()).enumerate() {
        if a != b {
            output.push_str(&format!("  line {}: {} -> {}\n", i + 1, a.trim(), b.trim()));
        }
    }
    if left_lines.len() != right_lines.len() {
        output.push_str(&format!(
            "  (line count differs: {} vs {})\n",
            left_lines.len(),
            right_lines.len()
        ));
    }
    if output.is_empty() {
        output = "(states appear equal but PartialEq returned false)".to_string();
    }
    output
}

fn escape_with_std(s: &str) -> String {
    let mut out = String::new();
    for c in s.chars() {
        match c {
            '\\' => out.push_str("\\\\"),
            '"' => out.push_str("\\\""),
            '\n' => out.push_str("\\n"),
            '\r' => out.push_str("\\r"),
            '\t' => out.push_str("\\t"),
            c if c.is_control() => out.push_str(&format!("\\u{:04x}", c as u32)),
            c => out.push(c),
        }
    }
    out
}

fn report_with_std(stdout: &str, stderr: &str) -> String {
    let lines: Vec<&str> = stdout
        .lines()
        .filter(|l| l.contains("Error") || l.contains("error"))
        .chain(stderr.lines().filter(|l| !l.is_empty()))
        .collect();
    lines.join("\n")
}

#[test]
fn unified_diff_agrees_with_similar() {
    for left in TEXTS {
        for right in TEXTS {
            assert_eq!(unified_diff(left, right), unified_with_similar(left, right), "{left:?} / {right:?}");
        }
    }
}

#[test]
fn line_diff_agrees_with_std() {
    for left in TEXTS {
        for right in TEXTS {
            assert_eq!(line_diff(left, right), line_diff_with_std(left, right), "{left:?} / {right:?}");
        }
    }
}

#[test]
fn escaping_agrees_with_std() {
    for text in TEXTS {
        assert_eq!(escape_tla_string(text), escape_with_std(text), "{text:?}");
    }
    let every_low: String = (0u32..0x120).filter_map(char::from_u32).collect();
    assert_eq!(escape_tla_string(&every_low), escape_with_std(&every_low));
}

#[test]
fn failure_report_agrees_with_std() {
    for stdout in TEXTS {
        for stderr in TEXTS {
            let err = parse_apalache_output(stdout, stderr, Some(1)).unwrap_err().to_string();
            let expected = format!(
                "Trace validation error: Apalache failed (exit code: Some(1)): {}",
                report_with_std(stdout, stderr)
            );
            assert_eq!(err, expected, "{stdout:?} / {stderr:?}");
        }
    }
}

#[test]
fn searching_agrees_with_std() {
    for text in TEXTS {
        for part in TEXTS {
            assert_eq!(
                contains_chars(&chars_of(text), &chars_of(part)),
                text.contains(part),
                "{text:?} contains {part:?}"
            );
            assert_eq!(has_suffix(text, part), text.ends_with(part), "{text:?} ends with {part:?}");
        }
    }
}

#[test]
fn endpoint_agrees_with_std() {
    for base in ["", "/", "//", "http://h", "http://h/", "http://h//", "a/b", "a/b/"] {
        assert_eq!(rpc_url(base), format!("{}/rpc", base.trim_end_matches('/')));
    }
}

#[test]
fn numerals_agree_with_std() {
    let samples = [
        "0",
        "7",
        "-7",
        "007",
        "-0",
        "-",
        "",
        "--1",
        "1-",
        "12a",
        "a12",
        " 12",
        "9223372036854775807",
        "9223372036854775808",
        "-9223372036854775808",
        "-9223372036854775809",
        "18446744073709551616",
        "99999999999999999999999999999999999999",
        "-99999999999999999999999999999999999999",
        "1844674407370955161x",
        "٣",
    ];
    for sample in samples {
        assert_eq!(parse_i64(sample), sample.parse::<i64>().ok(), "{sample:?}");
    }
    for n in [0i64, 1, -1, 10, -10, 99, 100, 12345, i64::MAX, i64::MIN, i64::MAX - 1, i64::MIN + 1] {
        assert_eq!(parse_i64(&n.to_string()), Some(n));
    }
    assert_eq!(parse_i64("+5"), None);
}

#[test]
fn integers_are_read_from_numbers_and_big_integers() {
    assert_eq!(ItfValue::Number(-3).as_i64(), Some(-3));
    assert_eq!(ItfValue::BigInt("42".to_string()).as_i64(), Some(42));
    assert_eq!(ItfValue::BigInt("9223372036854775808".to_string()).as_i64(), None);
    assert_eq!(ItfValue::String("42".to_string()).as_i64(), None);
    assert_eq!(ItfValue::Bool(true).as_i64(), None);
}
