use lazy_monitor::text::{decimal, escape_label, push_decimal, push_escaped, ESCAPE_LEN};

#[test]
fn decimal_of_small_numbers() {
    assert_eq!(decimal(0), "0");
    assert_eq!(decimal(7), "7");
    assert_eq!(decimal(10), "10");
    assert_eq!(decimal(305), "305");
    assert_eq!(decimal(1_000_000), "1000000");
}

#[test]
fn decimal_of_the_largest_number() {
    assert_eq!(decimal(u64::MAX), "18446744073709551615");
}

#[test]
fn decimal_agrees_with_the_standard_library() {
    let mut n: u64 = 1;
    for _ in 0..40 {
        assert_eq!(decimal(n), n.to_string());
        assert_eq!(decimal(n.wrapping_sub(1)), n.wrapping_sub(1).to_string());
        n = n.wrapping_mul(7).wrapping_add(3);
    }
}

#[test]
fn push_decimal_appends() {
    let mut out = String::from("n=");
    push_decimal(&mut out, 42);
    push_decimal(&mut out, 0);
    assert_eq!(out, "n=420");
}

#[test]
fn plain_names_are_unchanged() {
    assert_eq!(escape_label(""), "");
    assert_eq!(escape_label("Firefox"), "Firefox");
    assert_eq!(escape_label("System/Idle"), "System/Idle");
    assert_eq!(escape_label("Visual Studio Code - 1.2 (beta) #3 ~!@$%^*_+=|;:,.?[]{}`"),
        "Visual Studio Code - 1.2 (beta) #3 ~!@$%^*_+=|;:,.?[]{}`");
}

#[test]
fn quotes_and_backslashes_are_escaped() {
    assert_eq!(escape_label("'"), "\\u{000027}");
    assert_eq!(escape_label("\""), "\\u{000022}");
    assert_eq!(escape_label("\\"), "\\u{00005C}");
    assert_eq!(escape_label("it's"), "it\\u{000027}s");
}

#[test]
fn markup_characters_are_escaped() {
    assert_eq!(escape_label("<"), "\\u{00003C}");
    assert_eq!(escape_label(">"), "\\u{00003E}");
    assert_eq!(escape_label("&"), "\\u{000026}");
    assert_eq!(
        escape_label("</script>"),
        "\\u{00003C}/script\\u{00003E}"
    );
}

#[test]
fn control_characters_are_escaped() {
    assert_eq!(escape_label("\n"), "\\u{00000A}");
    assert_eq!(escape_label("\r"), "\\u{00000D}");
    assert_eq!(escape_label("\t"), "\\u{000009}");
    assert_eq!(escape_label("\u{0}"), "\\u{000000}");
    assert_eq!(escape_label("\u{1F}"), "\\u{00001F}");
    assert_eq!(escape_label("\u{7F}"), "\\u{00007F}");
    assert_eq!(escape_label(" "), " ");
    assert_eq!(escape_label("~"), "~");
}

#[test]
fn characters_outside_ascii_are_escaped() {
    assert_eq!(escape_label("\u{E9}"), "\\u{0000E9}");
    assert_eq!(escape_label("\u{2028}"), "\\u{002028}");
    assert_eq!(escape_label("\u{1F4BB}"), "\\u{01F4BB}");
    assert_eq!(escape_label("\u{10FFFF}"), "\\u{10FFFF}");
    assert_eq!(escape_label("caf\u{E9} \u{4E2D}\u{6587}"), "caf\\u{0000E9} \\u{004E2D}\\u{006587}");
}

#[test]
fn every_escape_has_the_same_length() {
    for ch in ['\'', '<', '\n', '\u{E9}', '\u{1F4BB}', '\u{10FFFF}'] {
        let label = escape_label(&ch.to_string());
        assert_eq!(label.chars().count(), ESCAPE_LEN);
    }
}

#[test]
fn escaped_labels_hold_only_safe_characters() {
    let label = escape_label("a'b\"c\\d<e>f&g\nh\u{1F4BB}i");
    for ch in label.chars() {
        assert!(ch == '\\' || (' '..='~').contains(&ch));
        assert!(ch != '\'' && ch != '"' && ch != '<' && ch != '>' && ch != '&');
    }
}

fn read_back(label: &str) -> String {
    let chars: Vec<char> = label.chars().collect();
    let mut out = String::new();
    let mut i = 0;
    while i < chars.len() {
        if chars[i] == '\\' {
            let digits: String = chars[i + 3..i + 9].iter().collect();
            out.push(char::from_u32(u32::from_str_radix(&digits, 16).unwrap()).unwrap());
            i += ESCAPE_LEN;
        } else {
            out.push(chars[i]);
            i += 1;
        }
    }
    out
}

#[test]
fn escaped_labels_read_back_as_the_name() {
    for name in ["", "Firefox", "it's <b>bold</b> & \"quoted\"", "\\u{000041}", "a\nb\tc", "\u{1F4BB} caf\u{E9}"] {
        assert_eq!(read_back(&escape_label(name)), name);
    }
}

#[test]
fn push_escaped_appends() {
    let mut out = String::from("'");
    push_escaped(&mut out, "a'b");
    out.push('\'');
    assert_eq!(out, "'a\\u{000027}b'");
}
