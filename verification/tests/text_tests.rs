use codex_mgr::text::chars_eq;
use codex_mgr::text::chars_of;
use codex_mgr::text::ends_with;
use codex_mgr::text::find_from;
use codex_mgr::text::index_of_from;
use codex_mgr::text::occurs_at;
use codex_mgr::text::skip_whitespace;
use codex_mgr::text::skip_word;
use codex_mgr::text::starts_with;
use codex_mgr::text::str_eq;
use codex_mgr::text::substring;
use codex_mgr::text::text_le_exec;
use codex_mgr::text::to_ascii_lowercase_vec;
use codex_mgr::text::trim_bounds;
use codex_mgr::text::trim_end_matches;

const SAMPLES: [&str; 14] = [
    "",
    " ",
    "abc",
    "  abc  ",
    "\t\r\n abc def \u{a0}\u{3000}",
    "\u{2003}x\u{2003}",
    "a  b",
    "caf\u{e9} ",
    " \u{1F600} ",
    "////",
    "a/b//",
    "://",
    "redis://u:p@h",
    "text/event-stream, */*",
];

fn chars(s: &str) -> Vec<char> {
    s.chars().collect()
}

#[test]
fn chars_and_substrings() {
    for s in SAMPLES {
        let v = chars_of(s);
        assert_eq!(v, chars(s));
        for from in 0..=v.len() {
            for to in from..=v.len() {
                let expected: String = v[from..to].iter().collect();
                assert_eq!(substring(s, from, to), expected);
            }
        }
    }
}

#[test]
fn trimming_agrees_with_std() {
    for s in SAMPLES {
        let v = chars(s);
        let (a, b) = trim_bounds(&v);
        let trimmed: String = v[a..b].iter().collect();
        assert_eq!(trimmed, s.trim(), "{s:?}");
        let end = trim_end_matches(&v, '/', v.len());
        let without: String = v[..end].iter().collect();
        assert_eq!(without, s.trim_end_matches('/'), "{s:?}");
    }
}

#[test]
fn words_agree_with_split_whitespace() {
    for s in SAMPLES {
        let v = chars(s);
        let mut words = Vec::new();
        let mut i = skip_whitespace(&v, 0);
        while i < v.len() {
            let end = skip_word(&v, i);
            words.push(v[i..end].iter().collect::<String>());
            i = skip_whitespace(&v, end);
        }
        let expected: Vec<String> = s.split_whitespace().map(str::to_string).collect();
        assert_eq!(words, expected, "{s:?}");
    }
}

#[test]
fn searching_agrees_with_std() {
    let patterns = ["", "/", "://", "abc", " ", "text/event-stream", "\u{e9}", "//"];
    for s in SAMPLES {
        let v = chars(s);
        for pat in patterns {
            let p = chars(pat);
            let found = find_from(&v, &p, 0).map(|i| v[..i].iter().collect::<String>().len());
            assert_eq!(found, s.find(pat), "{s:?} {pat:?}");
            assert_eq!(starts_with(&v, &p), s.starts_with(pat), "{s:?} {pat:?}");
            assert_eq!(ends_with(&v, &p), s.ends_with(pat), "{s:?} {pat:?}");
            for i in 0..=v.len() {
                let rest: String = v[i..].iter().collect();
                assert_eq!(occurs_at(&v, &p, i), rest.starts_with(pat));
            }
        }
        for c in ['/', ':', '@', ' ', 'a'] {
            let expected = v.iter().position(|x| *x == c).unwrap_or(v.len());
            assert_eq!(index_of_from(&v, c, 0), expected);
            assert_eq!(index_of_from(&v, c, v.len()), v.len());
        }
    }
}

#[test]
fn comparisons_agree_with_std() {
    for a in SAMPLES {
        for b in SAMPLES {
            assert_eq!(str_eq(a, b), a == b);
            assert_eq!(chars_eq(&chars(a), &chars(b)), a == b);
            assert_eq!(text_le_exec(&chars(a), &chars(b)), a <= b, "{a:?} {b:?}");
        }
        let lower: String = to_ascii_lowercase_vec(&chars(&a.to_uppercase())).iter().collect();
        assert_eq!(lower, a.to_uppercase().to_ascii_lowercase());
    }
}
