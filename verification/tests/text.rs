use tapestry::paths::{extension, file_stem};
use tapestry::text::{
    decimal, ends_with, ends_with_char, is_whitespace, split_lines, starts_with, str_eq, text_of,
    trim_start,
};

#[test]
fn decimal_writes_numerals_without_leading_zeros() {
    assert_eq!("0", decimal(0));
    assert_eq!("7", decimal(7));
    assert_eq!("10", decimal(10));
    assert_eq!("255", decimal(255));
    assert_eq!("18446744073709551615", decimal(u64::MAX));
}

#[test]
fn split_lines_agrees_with_std() {
    let samples = [
        "",
        "\n",
        "a",
        "a\n",
        "a\nb",
        "a\r\nb\r\n",
        "a\r",
        "\r\n\r\n",
        "a\n\nb\n\n",
        "x\r\r\ny",
        "-- name: q1\nSELECT 1;\n\n-- name: q2\nSELECT 2;\n",
    ];
    for s in samples {
        let expected: Vec<String> = s.lines().map(String::from).collect();
        assert_eq!(expected, split_lines(s), "lines of {s:?}");
    }
}

#[test]
fn trim_start_agrees_with_std() {
    let samples = ["", "  a ", "\n\t x", "x  ", "\u{3000}\u{85}y", " \u{200B}z", "   "];
    for s in samples {
        assert_eq!(s.trim_start(), trim_start(s), "trimmed {s:?}");
    }
}

#[test]
fn white_space_agrees_with_std_on_every_character() {
    let mut code: u32 = 0;
    while code <= 0x10FFFF {
        if let Some(c) = char::from_u32(code) {
            assert_eq!(c.is_whitespace(), is_whitespace(c), "character {code:#x}");
        }
        code += 1;
    }
}

#[test]
fn extension_and_stem_agree_with_std() {
    let samples = [
        "a/b.sql.j2",
        "a/b.j2",
        "a/b.sql",
        "a/b",
        "a/.hidden",
        "a/.hidden.txt",
        "a/b.",
        "a/..",
        "",
        "/",
        "x.tar.gz",
        "hello.sql~",
    ];
    for s in samples {
        let p = std::path::Path::new(s);
        let ext = p.extension().map(|e| e.to_str().unwrap().to_owned());
        let stem = p.file_stem().map(|e| e.to_str().unwrap().to_owned());
        assert_eq!(ext, extension(s), "extension of {s:?}");
        assert_eq!(stem, file_stem(s), "stem of {s:?}");
    }
}

#[test]
fn prefixes_and_suffixes_agree_with_std() {
    let samples = ["", "a", "ab", "-- name", "--", "é", "éa", "aé", "a.sql", ".sql", "sql"];
    for s in samples {
        for t in samples {
            assert_eq!(s == t, str_eq(s, t), "{s:?} == {t:?}");
            assert_eq!(s.starts_with(t), starts_with(s, t), "{s:?} starts with {t:?}");
            assert_eq!(s.ends_with(t), ends_with(s, t), "{s:?} ends with {t:?}");
        }
        for c in ['a', 'é', 'l', '-', '~'] {
            assert_eq!(s.ends_with(c), ends_with_char(s, c), "{s:?} ends with {c:?}");
        }
    }
}

#[test]
fn a_part_of_a_text_is_counted_in_characters() {
    assert_eq!("éa", text_of("aéab", 1, 3));
    assert_eq!("", text_of("aéab", 2, 2));
    assert_eq!("aéab", text_of("aéab", 0, 4));
}
