use scribe::filler::{suppress_fillers, TimedWord};

fn fillers() -> Vec<String> {
    ["um", "uh", "er", "hmm", "like", "so", "oh"].iter().map(|s| s.to_string()).collect()
}

#[test]
fn removes_filler_flanked_by_a_pause() {
    let words = vec![
        TimedWord::new("I", 0, 100),
        TimedWord::new("went", 110, 400),
        TimedWord::new("um", 900, 1050),
        TimedWord::new("to", 1500, 1600),
        TimedWord::new("the", 1610, 1700),
        TimedWord::new("store", 1710, 2000),
    ];
    assert_eq!(suppress_fillers(&words, &fillers(), 300), "I went to the store");
}

#[test]
fn keeps_filler_word_used_fluently() {
    let words = vec![TimedWord::new("oh", 0, 150), TimedWord::new("no", 160, 400)];
    assert_eq!(suppress_fillers(&words, &fillers(), 300), "oh no");
    let fluent = vec![
        TimedWord::new("I", 0, 80),
        TimedWord::new("want", 90, 300),
        TimedWord::new("it", 310, 430),
        TimedWord::new("like", 440, 600),
        TimedWord::new("this", 610, 850),
    ];
    assert_eq!(suppress_fillers(&fluent, &fillers(), 300), "I want it like this");
}

#[test]
fn removes_edge_filler_with_a_gap_but_not_a_tight_one() {
    let words = vec![
        TimedWord::new("um", 0, 200),
        TimedWord::new("okay", 600, 900),
        TimedWord::new("uh", 1400, 1600),
    ];
    assert_eq!(suppress_fillers(&words, &fillers(), 300), "okay");
    let tight = vec![TimedWord::new("um", 0, 200), TimedWord::new("okay", 230, 500)];
    assert_eq!(suppress_fillers(&tight, &fillers(), 300), "um okay");
}

#[test]
fn removes_a_lone_filler_utterance() {
    assert_eq!(suppress_fillers(&vec![TimedWord::new("Um.", 0, 300)], &fillers(), 300), "");
}

#[test]
fn matches_ignoring_case_and_punctuation() {
    let words = vec![
        TimedWord::new("Well", 0, 200),
        TimedWord::new("Um,", 800, 1000),
        TimedWord::new("yes", 1500, 1800),
    ];
    assert_eq!(suppress_fillers(&words, &fillers(), 300), "Well yes");
}

#[test]
fn empty_filler_list_is_a_noop() {
    let words = vec![TimedWord::new("um", 0, 200), TimedWord::new("hello", 900, 1200)];
    assert_eq!(suppress_fillers(&words, &vec![], 300), "um hello");
}

#[test]
fn threshold_controls_aggressiveness() {
    let words = vec![
        TimedWord::new("yes", 0, 200),
        TimedWord::new("um", 450, 650),
        TimedWord::new("no", 900, 1100),
    ];
    assert_eq!(suppress_fillers(&words, &fillers(), 200), "yes no");
    assert_eq!(suppress_fillers(&words, &fillers(), 300), "yes um no");
}

#[test]
fn no_words_give_empty_text() {
    assert_eq!(suppress_fillers(&vec![], &fillers(), 300), "");
}

#[test]
fn extreme_timestamps_do_not_overflow() {
    let words = vec![
        TimedWord::new("a", i64::MIN, i64::MIN),
        TimedWord::new("um", i64::MAX, i64::MAX),
    ];
    assert_eq!(suppress_fillers(&words, &fillers(), 300), "a");
}
