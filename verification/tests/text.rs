use sams::path::{extension_of, join, strip_extension};
use sams::text::{chars_of, is_float, parse_signed, write_signed};

fn parse(s: &str) -> Option<i64> {
    parse_signed(&chars_of(s))
}

fn write(v: i64) -> String {
    write_signed(v).into_iter().collect()
}

fn float(s: &str) -> bool {
    is_float(&chars_of(s))
}

#[test]
fn chars_and_back() {
    let chars = chars_of("héllo/wörld");
    assert_eq!(chars.len(), 11);
    assert_eq!(chars, "héllo/wörld".chars().collect::<Vec<char>>());
    assert_eq!(chars_of(""), Vec::<char>::new());
}

#[test]
fn integers_are_read_as_the_standard_library_reads_them() {
    let inputs = [
        "0", "42", "-42", "+42", "007", "-0", "", "-", "+", "--1", "+-1", "1 ", " 1", "1_000",
        "12a", "a12", "9223372036854775807", "9223372036854775808", "-9223372036854775808",
        "-9223372036854775809", "99999999999999999999999999", "１２", "1.0", "0x10",
    ];
    for input in inputs {
        assert_eq!(parse(input), input.parse::<i64>().ok(), "input {:?}", input);
    }
}

#[test]
fn integer_bounds() {
    assert_eq!(parse("9223372036854775807"), Some(i64::MAX));
    assert_eq!(parse("-9223372036854775808"), Some(i64::MIN));
    assert_eq!(parse("9223372036854775808"), None);
    assert_eq!(parse("-9223372036854775809"), None);
}

#[test]
fn integers_are_written_in_decimal() {
    assert_eq!(write(0), "0");
    assert_eq!(write(7), "7");
    assert_eq!(write(-7), "-7");
    assert_eq!(write(1234567890), "1234567890");
    assert_eq!(write(i64::MAX), "9223372036854775807");
    assert_eq!(write(i64::MIN), "-9223372036854775808");
}

#[test]
fn written_integers_read_back() {
    for v in [0, 1, -1, 10, -10, 99, 100, 12345, -98765, i64::MAX, i64::MIN, i64::MAX - 1] {
        assert_eq!(parse(&write(v)), Some(v));
        assert_eq!(write(v), v.to_string());
    }
}

#[test]
fn floats_are_recognised_as_the_standard_library_reads_them() {
    let inputs = [
        "1.23", "1", "-1", "+1", "1.", ".5", ".", "", "+", "-", "1e5", "1E5", "1e+5", "1e-5", "1e",
        "1e+", "e5", "1.e5", ".5e-3", "1.2.3", "inf", "-inf", "+inf", "INF", "Infinity",
        "-infinity", "infinit", "nan", "NaN", "-nan", "nano", "1f", "0x1p3", " 1.0", "1.0 ", "1,5",
        "--1", "1e5.0", "١", "hello",
    ];
    for input in inputs {
        assert_eq!(float(input), input.parse::<f64>().is_ok(), "input {:?}", input);
    }
}

#[test]
fn extensions() {
    assert_eq!(extension_of("a.txt.tpl"), Some("tpl".to_string()));
    assert_eq!(extension_of("dir.d/file"), None);
    assert_eq!(extension_of("dir/.bashrc"), None);
    assert_eq!(extension_of("dir/.bashrc.ln"), Some("ln".to_string()));
    assert_eq!(extension_of("file."), Some("".to_string()));
    assert_eq!(extension_of(".."), None);
    assert_eq!(extension_of("a/.."), None);
    assert_eq!(extension_of(""), None);
    assert_eq!(extension_of("файл.шаблон"), Some("шаблон".to_string()));
}

#[test]
fn extensions_come_off() {
    assert_eq!(strip_extension("a.txt.tpl"), "a.txt");
    assert_eq!(strip_extension("./sub/{{name}}.conf.ln"), "./sub/{{name}}.conf");
    assert_eq!(strip_extension("dir.d/file"), "dir.d/file");
    assert_eq!(strip_extension(".bashrc"), ".bashrc");
    assert_eq!(strip_extension("file."), "file");
    assert_eq!(strip_extension(".."), "..");
    assert_eq!(strip_extension(""), "");
}

#[test]
fn extensions_agree_with_the_standard_library_on_file_paths() {
    for path in ["a.txt.tpl", "x/y.z/w", "x/.hidden", "x/.hidden.ln", "plain", "a.b/c.d.e", "./f.g"] {
        let std_path = std::path::Path::new(path);
        assert_eq!(
            extension_of(path),
            std_path.extension().map(|e| e.to_str().unwrap().to_string()),
            "path {:?}",
            path
        );
        assert_eq!(strip_extension(path), std_path.with_extension("").to_str().unwrap(), "path {:?}", path);
    }
}

#[test]
fn joining() {
    assert_eq!(join(".", "sams.toml"), "./sams.toml");
    assert_eq!(join("root/", "a"), "root/a");
    assert_eq!(join("root", "/abs"), "/abs");
    assert_eq!(join("", "a"), "a");
    assert_eq!(join("root", ""), "root/");
    assert_eq!(join("/", "a"), "/a");
    for (base, rel) in [(".", "a/b"), ("x/y", "z"), ("x/", "z"), ("x", "/z"), ("", "z"), ("x", "")] {
        assert_eq!(join(base, rel), std::path::Path::new(base).join(rel).to_str().unwrap());
    }
}
