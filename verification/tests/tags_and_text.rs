use rocket_blog::blog::{split_tags, Article};
use rocket_blog::text::{decimal_text, parse_u32, text_is, trim_chars};

fn strings(v: &[&str]) -> Vec<String> {
    v.iter().map(|s| s.to_string()).collect()
}

#[test]
fn split_tags_drops_empty_pieces() {
    assert_eq!(split_tags("a,b,,c".to_string()), strings(&["a", "b", "c"]));
    assert_eq!(split_tags("".to_string()), Vec::<String>::new());
    assert_eq!(split_tags(",,".to_string()), Vec::<String>::new());
    assert_eq!(split_tags(",rust,".to_string()), strings(&["rust"]));
}

#[test]
fn split_tags_keeps_whitespace() {
    assert_eq!(split_tags(" a , b".to_string()), strings(&[" a ", " b"]));
    assert_eq!(split_tags(" ".to_string()), strings(&[" "]));
}

#[test]
fn stored_split_tags_trims_pieces() {
    assert_eq!(
        Article::split_tags(" a , b ,, ,c".to_string()),
        strings(&["a", "b", "c"])
    );
    assert_eq!(Article::split_tags("\t x\n".to_string()), strings(&["x"]));
    assert_eq!(Article::split_tags("".to_string()), Vec::<String>::new());
    assert_eq!(Article::split_tags(" ,  ,".to_string()), Vec::<String>::new());
}

#[test]
fn stored_split_tags_trims_unicode_whitespace() {
    assert_eq!(
        Article::split_tags("\u{3000}x\u{00A0},y z".to_string()),
        strings(&["x", "y z"])
    );
}

#[test]
fn stored_split_tags_matches_std() {
    let samples = ["a, b", " , x ,y,,", "\u{2003}q\u{2003},r", "one"];
    for s in samples.iter() {
        let expected: Vec<String> = s
            .split(',')
            .map(|p| p.trim().to_string())
            .filter(|p| p.as_str() != "" && p.as_str() != " ")
            .collect();
        assert_eq!(Article::split_tags(s.to_string()), expected);
        let plain: Vec<String> = s.split(',').filter(|t| t != &"").map(|t| t.to_string()).collect();
        assert_eq!(split_tags(s.to_string()), plain);
    }
}

#[test]
fn joined_tags_read_back_concrete() {
    let tags = strings(&["rust", "verus", "blog posts"]);
    assert_eq!(split_tags(tags.join(",")), tags);
    assert_eq!(Article::split_tags(tags.join(",")), tags);
}

#[test]
fn parse_u32_accepts_what_std_accepts() {
    assert_eq!(parse_u32("42"), Some(42));
    assert_eq!(parse_u32("+7"), Some(7));
    assert_eq!(parse_u32("0012"), Some(12));
    assert_eq!(parse_u32("4294967295"), Some(4294967295));
    assert_eq!(parse_u32("4294967296"), None);
    assert_eq!(parse_u32("99999999999999999999"), None);
    assert_eq!(parse_u32("-1"), None);
    assert_eq!(parse_u32("-0"), None);
    assert_eq!(parse_u32(""), None);
    assert_eq!(parse_u32("+"), None);
    assert_eq!(parse_u32(" 1"), None);
    assert_eq!(parse_u32("1x"), None);
    for s in ["42", "+7", "0012", "4294967296", "-1", "", "+", " 1", "++1", "٣"].iter() {
        assert_eq!(parse_u32(s), s.parse::<u32>().ok());
    }
}

#[test]
fn decimal_text_writes_numbers() {
    assert_eq!(decimal_text(0), "0");
    assert_eq!(decimal_text(7), "7");
    assert_eq!(decimal_text(1234567890), "1234567890");
    assert_eq!(decimal_text(u64::MAX), u64::MAX.to_string());
}

#[test]
fn decimal_reads_back_concrete() {
    for n in [0u32, 1, 9, 10, 99, 100, 65535, 4294967295].iter() {
        assert_eq!(parse_u32(&decimal_text(*n as u64)), Some(*n));
    }
}

#[test]
fn text_is_compares_characters() {
    assert!(text_is("aid", "aid"));
    assert!(!text_is("aid", "aids"));
    assert!(!text_is("Aid", "aid"));
    assert!(text_is("", ""));
}

#[test]
fn trim_chars_strips_both_ends() {
    let v: Vec<char> = "  hi there \n".chars().collect();
    assert_eq!(trim_chars(&v).iter().collect::<String>(), "hi there");
    let w: Vec<char> = "   ".chars().collect();
    assert!(trim_chars(&w).is_empty());
}

#[test]
fn tags_are_nonempty_and_comma_free_concrete() {
    for s in [",a,,b c,", "x", ",,,", " , ,"].iter() {
        for t in split_tags(s.to_string()) {
            assert!(!t.is_empty());
            assert!(!t.contains(','));
        }
        for t in Article::split_tags(s.to_string()) {
            assert!(!t.is_empty() && t != " ");
            assert!(!t.contains(','));
        }
    }
}

#[test]
fn new_and_stored_tags_agree_concrete() {
    for s in ["a,b", "rust,,verus,", "one"].iter() {
        assert_eq!(split_tags(s.to_string()), Article::split_tags(s.to_string()));
    }
    assert_ne!(split_tags(" a".to_string()), Article::split_tags(" a".to_string()));
}

#[test]
fn is_white_space_matches_std_on_every_char() {
    let mut count = 0;
    for code in 0u32..=0x10FFFF {
        if let Some(c) = char::from_u32(code) {
            assert_eq!(rocket_blog::text::is_white_space(c), c.is_whitespace(), "{:?}", c);
            if c.is_whitespace() {
                count += 1;
            }
        }
    }
    assert_eq!(count, 25);
}

#[test]
fn stored_tags_are_trimmed_new_tags_concrete() {
    for s in [" a ,b,, ,\t", "x", "", " , y  "].iter() {
        let expected: Vec<String> = split_tags(s.to_string())
            .into_iter()
            .map(|t| t.trim().to_string())
            .filter(|t| t != "")
            .collect();
        assert_eq!(Article::split_tags(s.to_string()), expected);
    }
}

#[test]
fn stored_tags_read_back_concrete() {
    for s in [" a , b c ,,\u{3000}d", "x,y", " , "].iter() {
        let tags = Article::split_tags(s.to_string());
        assert_eq!(Article::split_tags(tags.join(",")), tags);
    }
}
