use chatsounds_loader::command::{parse_command, Command};
use chatsounds_loader::render::{sample_cap, SampleBudget, CHANNELS, MAX_SECONDS, SAMPLE_RATE};

#[test]
fn search_word_asks_for_a_search() {
    assert_eq!(
        parse_command("search ah hello gordon freeman its good to see you"),
        Command::Search("ah hello gordon freeman its good to see you")
    );
    assert_eq!(parse_command("search "), Command::Search(""));
    assert_eq!(parse_command("search  x"), Command::Search(" x"));
    assert_eq!(parse_command("search search "), Command::Search("search "));
}

#[test]
fn anything_else_is_played() {
    assert_eq!(parse_command("hello"), Command::Play("hello"));
    assert_eq!(parse_command(""), Command::Play(""));
    assert_eq!(parse_command("search"), Command::Play("search"));
    assert_eq!(parse_command("searching for"), Command::Play("searching for"));
    assert_eq!(parse_command("Search me"), Command::Play("Search me"));
    assert_eq!(parse_command(" search me"), Command::Play(" search me"));
}

#[test]
fn search_text_may_hold_any_characters() {
    assert_eq!(parse_command("search \u{e9}t\u{e9} \u{1f50a}"), Command::Search("\u{e9}t\u{e9} \u{1f50a}"));
    assert_eq!(parse_command("\u{e9}earch x"), Command::Play("\u{e9}earch x"));
    assert_eq!(parse_command("\u{1f50a}\u{1f50a}\u{1f50a}"), Command::Play("\u{1f50a}\u{1f50a}\u{1f50a}"));
}

#[test]
fn render_constants() {
    assert_eq!(SAMPLE_RATE, 44100);
    assert_eq!(CHANNELS, 2);
    assert_eq!(MAX_SECONDS, 60);
}

#[test]
fn sample_cap_is_sixty_seconds_of_samples() {
    assert_eq!(sample_cap(44100, 2), 5_292_000);
    assert_eq!(sample_cap(SAMPLE_RATE, CHANNELS), 60 * 44100 * 2);
    assert_eq!(sample_cap(48000, 1), 2_880_000);
    assert_eq!(sample_cap(0, 2), 0);
    assert_eq!(sample_cap(1, 0), 0);
    assert_eq!(sample_cap(u32::MAX, u16::MAX), 4_294_967_295u64 * 65_535 * 60);
}

#[test]
fn a_short_rendering_is_not_truncated() {
    let mut budget = SampleBudget::new(44100, 2);
    for _ in 0..306_408u32 {
        assert!(budget.allow());
    }
    assert_eq!(budget.written(), 306_408);
    assert!(!budget.was_truncated());
    assert_eq!(budget.byte_len(4), 1_225_632);
}

#[test]
fn a_looping_rendering_is_cut_at_the_cap() {
    let mut budget = SampleBudget::new(44100, 2);
    let mut written: u64 = 0;
    while budget.allow() {
        written += 1;
    }
    assert_eq!(written, 5_292_000);
    assert_eq!(budget.written(), 5_292_000);
    assert!(budget.was_truncated());
    assert!(!budget.allow());
    assert_eq!(budget.written(), 5_292_000);
    assert_eq!(budget.byte_len(4), 60 * 44100 * 2 * 4);
    assert_eq!(budget.byte_len(2), 10_584_000);
}

#[test]
fn a_rendering_that_ends_at_the_cap_is_not_truncated() {
    let mut budget = SampleBudget::new(1, 1);
    for _ in 0..60 {
        assert!(budget.allow());
    }
    assert!(!budget.was_truncated());
    assert_eq!(budget.byte_len(4), 240);
    assert!(!budget.allow());
    assert!(budget.was_truncated());
}

#[test]
fn a_budget_of_nothing_refuses_at_once() {
    let mut budget = SampleBudget::new(0, 2);
    assert!(!budget.allow());
    assert!(budget.was_truncated());
    assert_eq!(budget.byte_len(4), 0);
}
