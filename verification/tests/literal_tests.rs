use yarer::literal::is_decimal;

fn reads(text: &str) -> bool {
    text.parse::<f64>().is_ok()
}

#[test]
fn decimal_literals() {
    for text in [
        "0", "12", "12.", ".5", "1.5", "007.500", "+1.5", "-1.5", "1e5", "1E5", "1e+5", "1e-5",
        "1.e5", ".5e5", "1.5e05", "-.5E-3", "inf", "INF", "Inf", "+inf", "-inf", "infinity",
        "Infinity", "INFINITY", "-infinity", "nan", "NaN", "NAN", "+nan", "-nan", "1e400",
        "1e-400", "123456789012345678901234567890",
    ] {
        assert!(is_decimal(text), "{:?}", text);
        assert!(reads(text), "{:?}", text);
    }
}

#[test]
fn what_is_no_decimal_literal() {
    for text in [
        "", ".", "+", "-", "+.", "e", "e5", ".e5", "1e", "1e+", "1e-", "1e5.0", "1e5e5", "1.2.3",
        "1..2", "..", "1_000", "1 ", " 1", "0x10", "1f", "1.5f64", "infinit", "infinityy", "in",
        "na", "nanx", "++1", "--1", "+-1", "1+", "1-", "x", "pi", "\u{661}", "1,5", "i\u{307}nf",
        "\u{130}nf",
    ] {
        assert!(!is_decimal(text), "{:?}", text);
        assert!(!reads(text), "{:?}", text);
    }
}

/// All texts of at most `len` characters out of `alphabet`, handed to `f`.
fn each_text(alphabet: &[char], len: usize, text: &mut String, f: &mut dyn FnMut(&str)) {
    f(text);
    if len == 0 {
        return;
    }
    for c in alphabet {
        text.push(*c);
        each_text(alphabet, len - 1, text, f);
        text.pop();
    }
}

#[test]
fn the_grammar_is_that_of_the_standard_parser() {
    let alphabet = ['0', '7', '.', 'e', 'E', '+', '-', 'i', 'n', 'f', 'a', '_'];
    let mut count = 0usize;
    each_text(&alphabet, 5, &mut String::new(), &mut |text| {
        assert_eq!(is_decimal(text), reads(text), "{:?}", text);
        count += 1;
    });
    assert_eq!(count, 1 + 12 + 144 + 1728 + 20736 + 248832);
}

#[test]
fn the_grammar_is_that_of_the_standard_parser_for_longer_names() {
    let alphabet = ['i', 'n', 'f', 't', 'y', 'I', 'N', 'a', 'A', '+'];
    each_text(&alphabet, 4, &mut String::new(), &mut |head| {
        for tail in ["", "nity", "NITY", "inity", "an"] {
            let text = format!("{}{}", head, tail);
            assert_eq!(is_decimal(&text), reads(&text), "{:?}", text);
        }
    });
}
