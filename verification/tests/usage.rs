use agent_runtime::usage::{
    add_opt, add_usage, estimate_tokens, estimated_usage, normalized_total, normalized_usage,
    TokenUsage,
};

#[test]
fn estimates_mixed_ascii_and_cjk() {
    assert!(estimate_tokens("hello world 你好") >= 4);
    assert_eq!(estimate_tokens("hello world 你好"), 6);
}

#[test]
fn estimate_rounds_ascii_runs_up_to_four_characters() {
    assert_eq!(estimate_tokens(""), 0);
    assert_eq!(estimate_tokens("   \n\t"), 0);
    assert_eq!(estimate_tokens("abcd"), 1);
    assert_eq!(estimate_tokens("abcde"), 2);
    assert_eq!(estimate_tokens("ab cd"), 2);
    assert_eq!(estimate_tokens("修复"), 2);
    assert_eq!(estimate_tokens("a修b"), 3);
}

#[test]
fn estimated_usage_marks_estimate_and_totals() {
    let u = estimated_usage(100, "abcdefgh");
    assert_eq!(u.input_tokens, Some(100));
    assert_eq!(u.output_tokens, Some(2));
    assert_eq!(u.total_tokens, Some(102));
    assert!(u.estimated);
    assert_eq!(u.cache_read_input_tokens, None);
}

#[test]
fn normalized_total_prefers_reported_total_then_sums_parts() {
    let mut u = TokenUsage {
        input_tokens: Some(100),
        output_tokens: Some(25),
        cache_read_input_tokens: Some(10),
        ..TokenUsage::default()
    };
    assert_eq!(normalized_total(&u), Some(135));
    u.total_tokens = Some(7);
    assert_eq!(normalized_total(&u), Some(7));
    assert_eq!(normalized_total(&TokenUsage::default()), None);
}

#[test]
fn normalized_usage_fills_missing_total_only() {
    let u = TokenUsage { input_tokens: Some(3), reasoning_tokens: Some(4), ..TokenUsage::default() };
    let n = normalized_usage(u.clone());
    assert_eq!(n.total_tokens, Some(7));
    assert_eq!(normalized_usage(n.clone()), n);
}

#[test]
fn add_usage_accumulates_counts_and_estimate_flag() {
    let mut total = TokenUsage::default();
    add_usage(&mut total, &TokenUsage { input_tokens: Some(10), output_tokens: Some(5), ..TokenUsage::default() });
    add_usage(&mut total, &TokenUsage { input_tokens: Some(1), total_tokens: Some(100), estimated: true, ..TokenUsage::default() });
    assert_eq!(total.input_tokens, Some(11));
    assert_eq!(total.output_tokens, Some(5));
    assert_eq!(total.total_tokens, Some(115));
    assert!(total.estimated);
}

#[test]
fn add_usage_with_empty_increment_keeps_total() {
    let mut total = TokenUsage { input_tokens: Some(2), total_tokens: Some(2), ..TokenUsage::default() };
    let before = total.clone();
    add_usage(&mut total, &TokenUsage::default());
    assert_eq!(total, before);
}

#[test]
fn add_usage_in_either_order_agrees() {
    let a = TokenUsage { input_tokens: Some(4), output_tokens: Some(1), ..TokenUsage::default() };
    let b = TokenUsage { output_tokens: Some(6), reasoning_tokens: Some(2), estimated: true, ..TokenUsage::default() };
    let mut ab = TokenUsage::default();
    add_usage(&mut ab, &a);
    add_usage(&mut ab, &b);
    let mut ba = TokenUsage::default();
    add_usage(&mut ba, &b);
    add_usage(&mut ba, &a);
    assert_eq!(ab, ba);
}

#[test]
fn add_opt_treats_missing_as_absent() {
    assert_eq!(add_opt(None, None), None);
    assert_eq!(add_opt(Some(2), None), Some(2));
    assert_eq!(add_opt(None, Some(3)), Some(3));
    assert_eq!(add_opt(Some(2), Some(3)), Some(5));
}

#[test]
fn estimates_add_across_a_space() {
    for (a, b) in [("hello", "world"), ("abcdefg", "你好"), ("", "xyz"), ("  a", "b  ")] {
        let joined = format!("{a} {b}");
        assert_eq!(estimate_tokens(&joined), estimate_tokens(a) + estimate_tokens(b));
    }
}

#[test]
fn estimates_of_run_together_texts_do_not_exceed_the_sum() {
    assert_eq!(estimate_tokens("ab"), 1);
    assert_eq!(estimate_tokens("ab") + estimate_tokens("cd"), 2);
    assert_eq!(estimate_tokens("abcd"), 1);
    assert!(estimate_tokens("abc你") <= estimate_tokens("abc") + estimate_tokens("你"));
}

#[test]
fn unicode_white_space_counts_no_token() {
    assert_eq!(estimate_tokens("\u{3000}\u{85}\u{a0}\u{2028}"), 0);
    assert_eq!(estimate_tokens("\u{200b}"), 1);
}
