use daemon_console_lite::tab::{CompletionItem, MatchStrategy, TabTree};

#[test]
fn prefix_filtering_under_context() {
    let mut tree = TabTree::new();
    tree.register_completions_advanced(
        "config",
        vec![CompletionItem::new("start"), CompletionItem::new("stop")],
        MatchStrategy::Prefix,
    );

    let both = tree.get_candidates("config st");
    assert_eq!(both.len(), 2);
    assert_eq!(both[0].completion, "start");
    assert_eq!(both[1].completion, "stop");
    assert_eq!(both[0].full_text, "config start");
    assert_eq!(both[1].full_text, "config stop");

    let only_stop = tree.get_candidates("config sto");
    assert_eq!(only_stop.len(), 1);
    assert_eq!(only_stop[0].completion, "stop");
}

#[test]
fn repeated_identical_query_returns_equal_results() {
    let mut tree = TabTree::new();
    tree.register_completions("config", &["start", "stop", "restart"]);
    let first = tree.get_candidates("config s");
    let second = tree.get_candidates("config s");
    assert_eq!(first.len(), second.len());
    for (a, b) in first.iter().zip(second.iter()) {
        assert_eq!(a.full_text, b.full_text);
        assert_eq!(a.completion, b.completion);
        assert_eq!(a.description, b.description);
    }
}

#[test]
fn priority_sorts_higher_first_and_ties_keep_registration_order() {
    let mut tree = TabTree::new();
    tree.register_completions_advanced(
        "",
        vec![
            CompletionItem::new("low").with_priority(1),
            CompletionItem::new("first-tie").with_priority(5),
            CompletionItem::new("high").with_priority(9),
            CompletionItem::new("second-tie").with_priority(5),
        ],
        MatchStrategy::All,
    );
    let cs = tree.get_candidates("anything");
    let texts: Vec<&str> = cs.iter().map(|c| c.completion.as_str()).collect();
    assert_eq!(texts, vec!["high", "first-tie", "second-tie", "low"]);
}

#[test]
fn contains_strategy_matches_last_token_of_full_input() {
    let mut tree = TabTree::new();
    tree.register_completions_advanced(
        "find",
        vec![
            CompletionItem::new("needle-case"),
            CompletionItem::new("haystack"),
            CompletionItem::new("kneedless"),
        ],
        MatchStrategy::Contains,
    );
    let cs = tree.get_candidates("find need");
    let texts: Vec<&str> = cs.iter().map(|c| c.completion.as_str()).collect();
    assert_eq!(texts, vec!["needle-case", "kneedless"]);
}

#[test]
fn all_strategy_never_filters() {
    let mut tree = TabTree::new();
    tree.register_completions_advanced(
        "show",
        vec![CompletionItem::new("alpha"), CompletionItem::new("beta")],
        MatchStrategy::All,
    );
    let cs = tree.get_candidates("show zzz");
    assert_eq!(cs.len(), 2);
}

#[test]
fn longest_trigger_prefix_wins() {
    let mut tree = TabTree::new();
    tree.register_completions("config", &["start", "stop"]);
    tree.register_completions("config set", &["port", "host"]);
    let cs = tree.get_candidates("config set p");
    assert_eq!(cs.len(), 1);
    assert_eq!(cs[0].completion, "port");
    assert_eq!(cs[0].full_text, "config set port");
}

#[test]
fn root_context_serves_unmatched_input() {
    let mut tree = TabTree::new();
    tree.register_completions("", &["version", "exit", "help"]);
    let cs = tree.get_candidates("ver");
    assert_eq!(cs.len(), 1);
    assert_eq!(cs[0].completion, "version");
    // Under the root, the full text is the item text alone.
    assert_eq!(cs[0].full_text, "version");
}

#[test]
fn root_prefix_trims_leading_whitespace() {
    let mut tree = TabTree::new();
    tree.register_completions("", &["version", "exit"]);
    // The root counts as a trigger of length 0: the remainder is the input
    // with its leading whitespace stripped.
    let cs = tree.get_candidates(" ver");
    assert_eq!(cs.len(), 1);
    assert_eq!(cs[0].completion, "version");
    // An all-whitespace input leaves an empty remainder, which keeps all.
    let all = tree.get_candidates("   ");
    assert_eq!(all.len(), 2);
}

#[test]
fn prefix_with_empty_remainder_keeps_all_items() {
    let mut tree = TabTree::new();
    tree.register_completions("config", &["start", "stop"]);
    let cs = tree.get_candidates("config");
    assert_eq!(cs.len(), 2);
}

#[test]
fn reregistration_accumulates_items_in_same_context() {
    let mut tree = TabTree::new();
    tree.register_completions("config", &["start"]);
    tree.register_completions("config", &["stop"]);
    let cs = tree.get_candidates("config ");
    assert_eq!(cs.len(), 2);
    assert_eq!(cs[0].completion, "start");
    assert_eq!(cs[1].completion, "stop");
}

#[test]
fn reregistration_overwrites_strategy() {
    let mut tree = TabTree::new();
    tree.register_completions_advanced(
        "m",
        vec![CompletionItem::new("abc")],
        MatchStrategy::Prefix,
    );
    // Prefix would reject "b" (abc does not start with it)...
    assert_eq!(tree.get_candidates("m b").len(), 0);
    // ...but a re-registration switching to Contains accepts it. The query
    // cache is keyed by the input string alone, so clear it first.
    tree.register_completions_advanced("m", vec![], MatchStrategy::Contains);
    tree.clear_cache();
    assert_eq!(tree.get_candidates("m b").len(), 1);
}

#[test]
fn add_completion_appends_and_creates_contexts() {
    let mut tree = TabTree::new();
    tree.add_completion("net", "ping", Some("send a probe"));
    tree.add_completion("net", "trace", None);
    let cs = tree.get_candidates("net ");
    assert_eq!(cs.len(), 2);
    assert_eq!(cs[0].completion, "ping");
    assert_eq!(cs[0].description.as_deref(), Some("send a probe"));
    assert_eq!(cs[1].completion, "trace");
    assert_eq!(cs[1].description, None);
}

#[test]
fn descriptions_pass_through_registration() {
    let mut tree = TabTree::new();
    tree.register_completions_with_desc("app", &[("set-name ", "Set the application name.")]);
    let cs = tree.get_candidates("app ");
    assert_eq!(cs.len(), 1);
    assert_eq!(cs[0].completion, "set-name ");
    assert_eq!(cs[0].description.as_deref(), Some("Set the application name."));
}

#[test]
fn get_best_match_returns_first_candidate_full_text() {
    let mut tree = TabTree::new();
    tree.register_completions("config", &["start", "stop"]);
    assert_eq!(tree.get_best_match("config st").as_deref(), Some("config start"));
    assert_eq!(tree.get_best_match("config zzz"), None);
}

#[test]
fn clear_cache_forces_recomputation() {
    let mut tree = TabTree::new();
    tree.register_completions("config", &["start"]);
    assert_eq!(tree.get_candidates("config s").len(), 1);
    tree.clear_cache();
    // After the cache clears, the same query is recomputed and still right.
    assert_eq!(tree.get_candidates("config s").len(), 1);
}

#[test]
fn builders_set_fields() {
    let item = CompletionItem::new("text").with_description("desc").with_priority(7);
    assert_eq!(item.text, "text");
    assert_eq!(item.description.as_deref(), Some("desc"));
    assert_eq!(item.priority, 7);
}
