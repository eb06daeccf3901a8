use rack_firmware::bmc_state::{BmcState, OemState};
use rack_firmware::idrac::{IdracState, JobState};
use rack_firmware::pattern::{
    find_chars, join_texts, replace_all_chars, replace_first_chars, squeeze_spaces_chars,
    string_of, text_contains, trim_line_ends_chars,
};
use rack_firmware::sorting::{stable_order_of, text_le_chars};
use rack_firmware::text::{blank, char_is_white_space, chars_of, same, substring};

fn c(s: &str) -> Vec<char> {
    chars_of(s)
}

fn s(v: Vec<char>) -> String {
    string_of(&v)
}

#[test]
fn finding_text() {
    assert_eq!(find_chars(&c("abcabc"), &c("bc"), 0), Some(1));
    assert_eq!(find_chars(&c("abcabc"), &c("bc"), 2), Some(4));
    assert_eq!(find_chars(&c("abcabc"), &c("bc"), 5), None);
    assert_eq!(find_chars(&c("abc"), &c(""), 0), Some(0));
    assert_eq!(find_chars(&c("abc"), &c(""), 3), Some(3));
    assert_eq!(find_chars(&c("abc"), &c(""), 4), None);
    assert_eq!(find_chars(&c(""), &c("a"), 0), None);
    assert_eq!(find_chars(&c("héllo wörld"), &c("wö"), 0), Some(6));
    assert!(text_contains("a${b}", "${"));
    assert!(!text_contains("a$b{", "${"));
    assert!(text_contains("", ""));
}

#[test]
fn replacing_text() {
    assert_eq!(s(replace_first_chars(&c("a-b-c"), &c("-"), &c("+="))), "a+=b-c");
    assert_eq!(s(replace_first_chars(&c("abc"), &c("x"), &c("y"))), "abc");
    assert_eq!(s(replace_first_chars(&c("abc"), &c("abc"), &c(""))), "");
    assert_eq!(s(replace_all_chars(&c("a-b-c-"), &c("-"), &c("--"))), "a--b--c--");
    assert_eq!(s(replace_all_chars(&c("aaaa"), &c("aa"), &c("a"))), "aa");
    assert_eq!(s(replace_all_chars(&c("aaa"), &c("aa"), &c("b"))), "ba");
    assert_eq!(s(replace_all_chars(&c(""), &c("a"), &c("b"))), "");
    assert_eq!(s(replace_all_chars(&c("abc"), &c(""), &c("-"))), "abc".replace("", "-"));
    assert_eq!(s(replace_all_chars(&c(""), &c(""), &c("xy"))), "".replace("", "xy"));
}

#[test]
fn squeezing_and_trimming() {
    assert_eq!(s(squeeze_spaces_chars(&c("a  b   c d    "))), "a b c d ");
    assert_eq!(s(squeeze_spaces_chars(&c("  "))), " ");
    assert_eq!(s(squeeze_spaces_chars(&c(" \t  \t "))), " \t \t ");
    assert_eq!(s(trim_line_ends_chars(&c("a \n b\t\r\n\nc"))), "a\n b\n\nc");
    assert_eq!(s(trim_line_ends_chars(&c("a\n"))), "a");
    assert_eq!(s(trim_line_ends_chars(&c("a\n\n"))), "a\n");
    assert_eq!(s(trim_line_ends_chars(&c("\n"))), "");
    assert_eq!(s(trim_line_ends_chars(&c(""))), "");
    assert_eq!(s(trim_line_ends_chars(&c("a\n  "))), "a\n");
    assert_eq!(s(trim_line_ends_chars(&c("\n\na"))), "\n\na");
    for text in ["x  \ny\r\n", "\n", "a", "", " \n \n", "\r\n\r\nz \u{a0}"] {
        let expected = text.lines().map(|l| l.trim_end()).collect::<Vec<_>>().join("\n");
        assert_eq!(s(trim_line_ends_chars(&c(text))), expected);
    }
}

#[test]
fn joining_texts() {
    assert_eq!(join_texts(&vec![], ", "), "");
    assert_eq!(join_texts(&vec!["a".to_string()], ", "), "a");
    assert_eq!(join_texts(&vec!["a".to_string(), "".to_string(), "b".to_string()], ", "), "a, , b");
}

#[test]
fn order_of_strings() {
    assert!(text_le_chars(&c(""), &c("")));
    assert!(text_le_chars(&c(""), &c("a")));
    assert!(!text_le_chars(&c("a"), &c("")));
    assert!(text_le_chars(&c("a"), &c("a")));
    assert!(text_le_chars(&c("a"), &c("ab")));
    assert!(!text_le_chars(&c("ab"), &c("a")));
    assert!(text_le_chars(&c("Z"), &c("a")));
    assert!(text_le_chars(&c("a"), &c("é")));
    assert!(text_le_chars(&c("z"), &c("\u{10000}")));
    for (a, b) in [("abc", "abd"), ("x", "é"), ("\u{ffff}", "\u{10000}"), ("same", "same"), ("b", "a")] {
        assert_eq!(text_le_chars(&c(a), &c(b)), a <= b);
    }
}

#[test]
fn stable_order_of_keys() {
    let keys: Vec<String> = ["b", "a", "c", "a", "b", ""].iter().map(|k| k.to_string()).collect();
    assert_eq!(stable_order_of(&keys), vec![5, 1, 3, 0, 4, 2]);
    assert_eq!(stable_order_of(&vec![]), Vec::<usize>::new());
    let mut expected: Vec<usize> = (0..keys.len()).collect();
    expected.sort_by(|x, y| keys[*x].cmp(&keys[*y]));
    assert_eq!(stable_order_of(&keys), expected);
}

#[test]
fn small_text_helpers() {
    assert!(same("a", "a"));
    assert!(!same("a", "A"));
    assert_eq!(rack_firmware::text::concat("ab", "cd"), "abcd");
    assert_eq!(substring("héllo", 1, 3), "él");
    assert_eq!(substring("abc", 3, 3), "");
    assert!(blank(" \t\n\u{2003}"));
    assert!(blank(""));
    assert!(!blank(" x "));
    for ch in ['\u{0}', ' ', '\t', '\n', '\u{b}', '\u{c}', '\r', '\u{85}', '\u{a0}', '\u{1680}',
        '\u{2000}', '\u{200a}', '\u{200b}', '\u{2028}', '\u{2029}', '\u{202f}', '\u{205f}',
        '\u{3000}', 'a', '\u{feff}', '\u{1c}', '\u{180e}']
    {
        assert_eq!(char_is_white_space(ch), ch.is_whitespace());
    }
    for code in 0u32..0x3100 {
        if let Some(ch) = char::from_u32(code) {
            assert_eq!(char_is_white_space(ch), ch.is_whitespace());
        }
    }
}

#[test]
fn idrac_jobs() {
    let mut idrac = IdracState::new();
    assert_eq!(idrac.job_count(), 0);
    assert_eq!(idrac.add_job(7, 100), Some("JID_7".to_string()));
    assert_eq!(idrac.add_job(7, 101), None);
    assert_eq!(idrac.add_job(18446744073709551615, 102), Some("JID_18446744073709551615".to_string()));
    assert_eq!(idrac.job_count(), 2);
    let job = idrac.get_job("JID_7").unwrap();
    assert_eq!(job.job_id, "JID_7");
    assert_eq!(job.job_state, JobState::Scheduled);
    assert_eq!(job.job_type, "DellConfiguration");
    assert_eq!(job.start_time, 100);
    assert_eq!(job.end_time, None);
    assert_eq!(job.percent_complete(), 0);
    assert!(idrac.get_job("JID_8").is_none());
    idrac.complete_all_bios_jobs(500);
    let job = idrac.get_job("JID_7").unwrap();
    assert_eq!(job.job_state, JobState::Completed);
    assert_eq!(job.end_time, Some(500));
    assert_eq!(job.start_time, 100);
    assert_eq!(job.percent_complete(), 100);
    assert_eq!(idrac.job_count(), 2);

    let mut bmc = BmcState { oem_state: OemState::DellIdrac(idrac) };
    bmc.complete_all_bios_jobs(900);
    match &bmc.oem_state {
        OemState::DellIdrac(state) => {
            assert_eq!(state.get_job("JID_7").unwrap().end_time, Some(900));
        }
        OemState::Other => panic!("the state changed its vendor"),
    }
    let mut other = BmcState { oem_state: OemState::Other };
    other.complete_all_bios_jobs(1);
    assert!(matches!(other.oem_state, OemState::Other));
}
