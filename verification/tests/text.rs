use fpm::command::{is_whitespace, split_whitespace};
use fpm::store::VariableStore;
use fpm::substitute::{placeholder_of, replace_all, replace_variables, substitute};
use fpm::text::{chars_of, clone_strings, string_of};

fn chars(s: &str) -> Vec<char> {
    s.chars().collect()
}

fn replaced(text: &str, pattern: &str, value: &str) -> String {
    replace_all(&chars(text), &chars(pattern), &chars(value)).into_iter().collect()
}

#[test]
fn strings_and_characters_convert_both_ways() {
    for s in ["", "a", "héllo wörld", "日本語\n", "${x}"] {
        assert_eq!(chars_of(s), chars(s));
        assert_eq!(string_of(&chars(s)), s);
    }
    let list = vec!["a".to_owned(), "".to_owned(), "ß".to_owned()];
    assert_eq!(clone_strings(&list), list);
}

#[test]
fn blank_agrees_with_the_unicode_property() {
    let mut code: u32 = 0;
    while code <= 0x10FFFF {
        if let Some(c) = char::from_u32(code) {
            assert_eq!(is_whitespace(c), c.is_whitespace(), "U+{:04X}", code);
        }
        code += 1;
    }
}

#[test]
fn echo_home_is_not_expanded() {
    assert_eq!(split_whitespace("echo $HOME"), vec!["echo".to_owned(), "$HOME".to_owned()]);
    assert_eq!(split_whitespace("echo hello"), vec!["echo".to_owned(), "hello".to_owned()]);
}

#[test]
fn words_agree_with_split_whitespace() {
    for line in [
        "",
        " ",
        "git init",
        "  cargo   new\t--lib \n name  ",
        "a\u{a0}b\u{3000}c",
        "sh -c 'echo  hi'",
        "x",
        "\t\t",
        "tab\tseparated",
        "quoted \"a b\" | pipe > out; $(sub) `tick` *",
    ] {
        let expected: Vec<String> = line.split_whitespace().map(|w| w.to_owned()).collect();
        assert_eq!(split_whitespace(line), expected, "{:?}", line);
    }
}

#[test]
fn replace_all_agrees_with_replace() {
    let cases = [
        ("", "${a}", "x"),
        ("${a}", "${a}", "x"),
        ("a${a}b${a}", "${a}", ""),
        ("$${a}{a}", "${a}", ""),
        ("aaa", "aa", "b"),
        ("aaaa", "aa", "a"),
        ("abcabc", "bc", "bcbc"),
        ("no match", "${a}", "x"),
        ("${a", "${a}", "x"),
        ("ß${é}日", "${é}", "本"),
        ("short", "much longer pattern", "x"),
    ];
    for (text, pattern, value) in cases {
        assert_eq!(replaced(text, pattern, value), text.replace(pattern, value), "{:?}", text);
    }
    assert_eq!(replaced("abc", "", "x"), "abc");
}

#[test]
fn placeholder_is_dollar_and_braces() {
    assert_eq!(placeholder_of("name"), chars("${name}"));
    assert_eq!(placeholder_of(""), chars("${}"));
}

#[test]
fn unbound_placeholders_stay() {
    let mut variables = VariableStore::new();
    variables.insert("a".to_owned(), "1".to_owned());
    assert_eq!(replace_variables("${a} ${b} $a {a} ${ a}", &variables), Ok("1 ${b} $a {a} ${ a}".to_owned()));
    assert_eq!(replace_variables("${x}", &VariableStore::new()), Ok("${x}".to_owned()));
    assert_eq!(substitute("", &variables), "");
}

#[test]
fn passes_follow_the_order_of_first_binding() {
    let mut variables = VariableStore::new();
    variables.insert("a".to_owned(), "${b}".to_owned());
    variables.insert("b".to_owned(), "x".to_owned());
    assert_eq!(substitute("${a}", &variables), "x");
    let mut other = VariableStore::new();
    other.insert("b".to_owned(), "x".to_owned());
    other.insert("a".to_owned(), "${b}".to_owned());
    assert_eq!(substitute("${a}", &other), "${b}");
}

#[test]
fn package_example() {
    let mut variables = VariableStore::new();
    variables.insert("pkg".to_owned(), "acme".to_owned());
    assert_eq!(replace_variables("Package: ${pkg}", &variables), Ok("Package: acme".to_owned()));
}

#[test]
fn store_binds_and_rebinds() {
    let mut variables = VariableStore::new();
    assert_eq!(variables.len(), 0);
    assert!(!variables.contains_key("a"));
    assert_eq!(variables.get("a"), None);
    variables.insert("a".to_owned(), "1".to_owned());
    variables.insert("b".to_owned(), "".to_owned());
    assert!(variables.contains_key("a"));
    assert!(variables.contains_key("b"));
    assert!(!variables.contains_key("ab"));
    assert!(!variables.contains_key(""));
    assert_eq!(variables.get("b"), Some(&"".to_owned()));
    variables.insert("a".to_owned(), "2".to_owned());
    assert_eq!(variables.len(), 2);
    assert_eq!(variables.get("a"), Some(&"2".to_owned()));
    assert_eq!(variables.name_at(0), Some(&"a".to_owned()));
    assert_eq!(variables.value_at(0), Some(&"2".to_owned()));
    assert_eq!(variables.name_at(1), Some(&"b".to_owned()));
    assert_eq!(variables.value_at(1), Some(&"".to_owned()));
    assert_eq!(variables.name_at(2), None);
    assert_eq!(variables.value_at(2), None);
}
