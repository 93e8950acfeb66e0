use adele_gtk::api::ToolUsageView;
use adele_gtk::tool_usage::{
    bar_tooltip, eviction_note, format_bytes, format_group_heading, format_thousands,
    format_totals, group_by_namespace, namespace_key, peak_axis_value, rows_fit, sort_rows,
    status_text, totals, totals_text, window_title, LoadState, NamespaceGroup, NamespaceKey,
    SortAxis, Totals, UsageState, EMPTY_STATE, UNRESOLVED_NAMESPACE_HINT, UNRESOLVED_NAMESPACE_TITLE,
};

fn row(
    tool_name: &str,
    namespace: Option<&str>,
    call_count: u32,
    result_bytes: u64,
    result_tokens: u64,
) -> ToolUsageView {
    ToolUsageView {
        tool_name: tool_name.to_string(),
        namespace: namespace.map(str::to_string),
        call_count,
        result_bytes,
        result_tokens,
        max_result_bytes: result_bytes,
        evicted_results: 0,
    }
}

/// A chatty tool with small results and a rare tool with huge ones: the
/// pair the two axes exist to separate.
fn mixed_call_mix() -> Vec<ToolUsageView> {
    vec![
        row("list_dir", Some("fileio"), 40, 20_480, 5_120),
        row("fetch_page", Some("web"), 2, 81_920, 20_480),
        row("read_file", Some("fileio"), 5, 4_096, 1_024),
    ]
}

fn flat_names(groups: &[NamespaceGroup]) -> Vec<String> {
    groups
        .iter()
        .flat_map(|g| g.rows.iter())
        .map(|r| r.tool_name.clone())
        .collect()
}

#[test]
fn a_known_call_mix_groups_one_row_per_tool_with_correct_counts_and_tokens() {
    let rows = mixed_call_mix();
    let groups = group_by_namespace(&rows, SortAxis::Tokens);

    let mut rendered: Vec<(String, u32, u64)> = groups
        .iter()
        .flat_map(|g| g.rows.iter())
        .map(|r| (r.tool_name.clone(), r.call_count, r.result_tokens))
        .collect();
    rendered.sort();

    assert_eq!(
        rendered,
        vec![
            ("fetch_page".to_string(), 2, 20_480),
            ("list_dir".to_string(), 40, 5_120),
            ("read_file".to_string(), 5, 1_024),
        ],
        "every tool appears exactly once, with the counts and tokens it was given"
    );

    let totals = totals(&rows);
    assert_eq!(totals.distinct_tools, 3);
    assert_eq!(totals.total_calls, 47);
    assert_eq!(totals.total_tokens, 26_624);
}

#[test]
fn sorting_by_token_cost_puts_an_infrequent_but_huge_tool_first() {
    let rows = mixed_call_mix();

    let mut ranked = rows.clone();
    sort_rows(&mut ranked, SortAxis::Tokens);
    assert_eq!(ranked[0].tool_name, "fetch_page");

    // The grouped view is what a person actually reads, so the ranking has
    // to survive grouping. This fixture does not separate the group-order
    // rule from ordering by subtotal; the two `stays_the_first_row` tests
    // below are the ones built to tell those apart.
    let groups = group_by_namespace(&rows, SortAxis::Tokens);
    assert_eq!(
        flat_names(&groups),
        vec!["fetch_page", "list_dir", "read_file"]
    );
}

#[test]
fn sorting_by_call_count_puts_the_chatty_tool_first() {
    let rows = mixed_call_mix();

    let mut ranked = rows.clone();
    sort_rows(&mut ranked, SortAxis::Calls);
    assert_eq!(ranked[0].tool_name, "list_dir");

    let groups = group_by_namespace(&rows, SortAxis::Calls);
    assert_eq!(
        flat_names(&groups),
        vec!["list_dir", "read_file", "fetch_page"]
    );
}

#[test]
fn namespace_grouping_computes_correct_subtotals() {
    let groups = group_by_namespace(&mixed_call_mix(), SortAxis::Tokens);
    assert_eq!(groups.len(), 2);

    let fileio = groups
        .iter()
        .find(|g| g.key == NamespaceKey::Reported("fileio".into()))
        .expect("fileio group");
    assert_eq!(fileio.rows.len(), 2);
    assert_eq!(fileio.subtotal_calls, 45);
    assert_eq!(fileio.subtotal_tokens, 6_144);
    assert_eq!(fileio.subtotal_bytes, 24_576);

    let web = groups
        .iter()
        .find(|g| g.key == NamespaceKey::Reported("web".into()))
        .expect("web group");
    assert_eq!(web.rows.len(), 1);
    assert_eq!(web.subtotal_calls, 2);
    assert_eq!(web.subtotal_tokens, 20_480);
    assert_eq!(web.subtotal_bytes, 81_920);
}

#[test]
fn a_tool_with_evicted_results_gets_a_note_that_claims_neither_direction() {
    let mut evicted = row("fetch_page", Some("web"), 4, 8_192, 2_048);
    evicted.evicted_results = 3;
    let note = eviction_note(&evicted).expect("a row with evictions carries a note");
    assert!(note.contains('3'), "the note names how many: {note}");
    assert!(
        note.contains("pointer"),
        "the note names what the model now reads: {note}"
    );

    // The count covers two shapes that move the figures in OPPOSITE
    // directions - a completed step keeps every byte, an old compaction
    // lost them - and this view cannot tell them apart. Claiming either
    // direction would be a claim the data does not support.
    for direction in ["under-report", "over-report", "higher", "lower", "lost"] {
        assert!(
            !note.contains(direction),
            "the note must not claim a direction it cannot know: {note}"
        );
    }

    // The original size of an overwritten result is not recoverable, so the
    // note must not carry one. Without this, a later edit could append a
    // guessed size and every assertion above would still pass.
    for invented in ["B", "KiB", "MiB", "GiB"] {
        assert!(
            !note.contains(invented),
            "the note must not state a size it cannot know: {note}"
        );
    }

    let intact = row("fetch_page", Some("web"), 4, 8_192, 2_048);
    assert_eq!(eviction_note(&intact), None);
}

#[test]
fn an_empty_conversation_groups_to_nothing_and_totals_to_zero() {
    let none: Vec<ToolUsageView> = Vec::new();
    assert!(group_by_namespace(&none, SortAxis::Tokens).is_empty());
    assert_eq!(totals(&none), Totals::default());
    assert_eq!(peak_axis_value(&none, SortAxis::Tokens), 0);
    assert_eq!(EMPTY_STATE, "No tool calls in this conversation.");
    assert!(
        !EMPTY_STATE.to_lowercase().contains("error"),
        "an empty conversation is a normal outcome"
    );
}

// --- Supporting behaviour --------------------------------------------

/// The trap this fallback exists to avoid. The daemon's own
/// `tool_provenance::classify_tool` splits a namespaced name on the LAST
/// `__`. Splitting on the first files `home__assistant__get_state` under a
/// server called `home` that does not exist, and merges its subtotals with
/// every other `home__*` server.
#[test]
fn a_derived_server_comes_from_the_last_separator_not_the_first() {
    let r = row("home__assistant__get_state", None, 1, 10, 3);
    assert_eq!(
        namespace_key(&r),
        NamespaceKey::Derived("home__assistant".to_string())
    );

    let simple = row("fileio__read_file", None, 1, 10, 3);
    assert_eq!(
        namespace_key(&simple),
        NamespaceKey::Derived("fileio".to_string())
    );
}

#[test]
fn a_reported_namespace_wins_over_the_name_split() {
    let r = row(
        "home__assistant__get_state",
        Some("mcp:homeassistant"),
        1,
        10,
        3,
    );
    assert_eq!(
        namespace_key(&r),
        NamespaceKey::Reported("mcp:homeassistant".to_string()),
        "the registry knows the source qualifier; a name does not"
    );
}

#[test]
fn a_derived_group_says_the_server_was_read_off_the_names() {
    let derived = NamespaceKey::Derived("fileio".to_string());
    let hint = derived.hint().expect("a derived group explains itself");
    assert!(hint.contains("Read from the tool names"), "{hint}");
    assert_eq!(
        NamespaceKey::Reported("mcp:fileio".to_string()).hint(),
        None,
        "a server the daemon reported needs no explanation"
    );
    assert_eq!(
        NamespaceKey::Unresolved.hint(),
        Some(UNRESOLVED_NAMESPACE_HINT)
    );
}

#[test]
fn a_name_that_carries_no_server_prefix_stays_unresolved() {
    for bare in ["get_state", "__leading", "trailing__", "__", ""] {
        let r = row(bare, None, 1, 10, 3);
        assert_eq!(
            namespace_key(&r),
            NamespaceKey::Unresolved,
            "no server can be read off {bare:?}"
        );
    }
}

#[test]
fn an_unreported_namespace_is_not_presented_as_a_server_named_unknown() {
    for missing in [None, Some(""), Some("   ")] {
        let r = row("some_tool", missing, 1, 10, 3);
        assert_eq!(namespace_key(&r), NamespaceKey::Unresolved);
    }
    let title = NamespaceKey::Unresolved.title();
    assert_eq!(title, UNRESOLVED_NAMESPACE_TITLE);
    assert!(
        !title.to_lowercase().contains("unknown"),
        "no server is called this: {title}"
    );
    assert_eq!(NamespaceKey::Reported("web".into()).title(), "web");
}

/// Bare names, no reported namespace, nothing to derive: one group, and it
/// says the server is not recorded. This is what today's daemon produces
/// for a conversation whose tools are not namespaced.
#[test]
fn every_row_groups_under_the_unresolved_key_when_no_server_can_be_established() {
    let rows = vec![
        row("list_dir", None, 40, 20_480, 5_120),
        row("fetch_page", None, 2, 81_920, 20_480),
    ];
    let groups = group_by_namespace(&rows, SortAxis::Tokens);
    assert_eq!(groups.len(), 1);
    assert_eq!(groups[0].key, NamespaceKey::Unresolved);
    assert_eq!(flat_names(&groups), vec!["fetch_page", "list_dir"]);
}

/// The group order is the one decision that separates "what ate my
/// context" from "which server did the most work". A server with three
/// medium tools out-subtotals a server with one huge one, so ordering
/// groups by subtotal would bury the heaviest tool below three lighter
/// ones. This fixture is built so the two rules disagree.
#[test]
fn the_heaviest_tool_stays_the_first_row_even_when_another_server_out_subtotals_it() {
    let rows = vec![
        row("fetch_page", Some("web"), 1, 40_000, 10_000),
        row("read_file", Some("fileio"), 1, 16_000, 4_000),
        row("list_dir", Some("fileio"), 1, 16_000, 4_000),
        row("stat_path", Some("fileio"), 1, 16_000, 4_000),
    ];

    let groups = group_by_namespace(&rows, SortAxis::Tokens);
    assert_eq!(
        groups[0].key,
        NamespaceKey::Reported("web".into()),
        "the group holding the heaviest tool comes first"
    );
    assert_eq!(
        flat_names(&groups)[0],
        "fetch_page",
        "the heaviest tool is the first row on screen"
    );
    assert!(
        groups[1].subtotal_tokens > groups[0].subtotal_tokens,
        "the fixture only proves the rule if the second group out-subtotals the first: \
         {} vs {}",
        groups[1].subtotal_tokens,
        groups[0].subtotal_tokens
    );
}

/// Same shape on the other axis: a chatty server out-subtotals the single
/// chattiest tool, and the chattiest tool still tops the view.
#[test]
fn the_chattiest_tool_stays_the_first_row_even_when_another_server_out_subtotals_it() {
    let rows = vec![
        row("fetch_page", Some("web"), 30, 4_000, 1_000),
        row("read_file", Some("fileio"), 12, 4_000, 1_000),
        row("list_dir", Some("fileio"), 12, 4_000, 1_000),
        row("stat_path", Some("fileio"), 12, 4_000, 1_000),
    ];

    let groups = group_by_namespace(&rows, SortAxis::Calls);
    assert_eq!(flat_names(&groups)[0], "fetch_page");
    assert!(
        groups[1].subtotal_calls > groups[0].subtotal_calls,
        "the fixture only proves the rule if the second group out-subtotals the first: \
         {} vs {}",
        groups[1].subtotal_calls,
        groups[0].subtotal_calls
    );
}

/// An empty conversation shows the empty state, not an error.
/// The branch that decides between them is what this exercises - the
/// earlier test only checks the constant's own wording.
#[test]
fn a_failed_read_never_renders_as_an_empty_conversation() {
    assert_eq!(status_text(&LoadState::Loaded, 0), EMPTY_STATE);

    let failed = LoadState::Failed("no tool-usage store configured".to_string());
    let line = status_text(&failed, 0);
    assert!(line.contains("Error"), "{line}");
    assert!(
        !line.contains(EMPTY_STATE),
        "a read that failed must not read as a conversation that called no tools: {line}"
    );

    // And the header must not answer with zeros nobody measured.
    assert_eq!(totals_text(&failed, &Vec::new()), "");
    assert_eq!(
        totals_text(&LoadState::Loaded, &Vec::new()),
        "0 tools - 0 calls - 0 tokens",
        "a conversation that really called no tools has a measured zero"
    );
}

#[test]
fn a_failed_reload_marks_the_figures_it_leaves_on_screen_as_stale() {
    let rows = mixed_call_mix();
    let failed = LoadState::Failed("connection reset".to_string());
    let line = status_text(&failed, rows.len());
    assert!(line.contains("Error"), "{line}");
    assert!(
        line.contains("last reading"),
        "stale figures must be named as stale: {line}"
    );
    // The stale figures are still summarised, because they were measured.
    assert_eq!(totals_text(&failed, &rows), format_totals(&totals(&rows)));
}

#[test]
fn a_load_in_flight_says_so_and_distinguishes_a_reload() {
    assert_eq!(status_text(&LoadState::Loading, 0), "Loading...");
    assert_eq!(status_text(&LoadState::Loading, 3), "Reloading...");
    assert_eq!(status_text(&LoadState::Loaded, 3), "");
}

#[test]
fn bar_tooltip_never_compares_against_a_peak_that_does_not_exist() {
    let line = bar_tooltip(0, 0, SortAxis::Tokens);
    assert!(
        !line.contains('%'),
        "with no heaviest tool there is no share to state: {line}"
    );
    assert!(line.contains("nothing recorded"), "{line}");
}

#[test]
fn bar_tooltip_does_not_round_a_real_figure_down_to_nothing() {
    let line = bar_tooltip(1, 10_000, SortAxis::Tokens);
    assert!(
        line.contains("under 1%"),
        "a small but real figure must not read as none: {line}"
    );
    assert!(!line.contains("0%"), "{line}");

    assert!(bar_tooltip(0, 10_000, SortAxis::Tokens).contains("0%"));
    assert!(bar_tooltip(5_000, 10_000, SortAxis::Tokens).contains("50%"));
}

#[test]
fn the_window_title_names_the_conversation_it_is_bound_to() {
    assert_eq!(window_title("Trip planning"), "Tool Usage - Trip planning");
    assert_eq!(window_title("  "), "Tool Usage");
    assert_eq!(window_title(""), "Tool Usage");
}

#[test]
fn axis_value_reads_the_axis_it_names() {
    let r = row("t", None, 7, 100, 25);
    assert_eq!(SortAxis::Tokens.value_of(&r), 25);
    assert_eq!(SortAxis::Calls.value_of(&r), 7);
}

#[test]
fn ranking_breaks_ties_deterministically() {
    let mut rows = vec![
        row("zulu", None, 3, 100, 50),
        row("alpha", None, 3, 100, 50),
        row("mike", None, 9, 100, 50),
    ];
    sort_rows(&mut rows, SortAxis::Tokens);
    let names: Vec<&str> = rows.iter().map(|r| r.tool_name.as_str()).collect();
    assert_eq!(
        names,
        vec!["mike", "alpha", "zulu"],
        "equal tokens break on calls, then on name"
    );
}

#[test]
fn peak_axis_value_scales_the_bars_against_the_heaviest_row() {
    let rows = mixed_call_mix();
    assert_eq!(peak_axis_value(&rows, SortAxis::Tokens), 20_480);
    assert_eq!(peak_axis_value(&rows, SortAxis::Calls), 40);
}

#[test]
fn format_bytes_scales_the_unit() {
    assert_eq!(format_bytes(0), "0 B");
    assert_eq!(format_bytes(845), "845 B");
    assert_eq!(format_bytes(1_536), "1.5 KiB");
    assert_eq!(format_bytes(3_670_016), "3.5 MiB");
    assert_eq!(format_bytes(2_147_483_648), "2.0 GiB");
    assert_eq!(format_bytes(1_023), "1023 B");
    assert_eq!(format_bytes(1_024), "1.0 KiB");
}

/// A size just under a unit boundary rounds up to `1024.0` at one decimal.
/// The next unit is the honest reading, and the figure must not be printed
/// in a unit it has already outgrown.
#[test]
fn format_bytes_promotes_the_unit_at_a_rounding_boundary() {
    assert_eq!(format_bytes(1_048_575), "1.0 MiB");
    assert_eq!(format_bytes(1_073_741_823), "1.0 GiB");
    assert_eq!(format_bytes(u64::MAX), "17179869184.0 GiB");
}

#[test]
fn format_thousands_groups_digits() {
    assert_eq!(format_thousands(0), "0");
    assert_eq!(format_thousands(999), "999");
    assert_eq!(format_thousands(1_000), "1,000");
    assert_eq!(format_thousands(26_624), "26,624");
    assert_eq!(format_thousands(1_234_567), "1,234,567");
}

#[test]
fn header_totals_name_both_axes() {
    let line = format_totals(&Totals {
        distinct_tools: 3,
        total_calls: 47,
        total_tokens: 26_624,
    });
    assert!(line.contains("3 tools"), "{line}");
    assert!(line.contains("47 calls"), "{line}");
    assert!(line.contains("26,624 tokens"), "{line}");
}

#[test]
fn header_totals_read_in_the_singular_for_one() {
    let line = format_totals(&Totals {
        distinct_tools: 1,
        total_calls: 1,
        total_tokens: 1,
    });
    assert!(line.contains("1 tool "), "{line}");
    assert!(line.contains("1 call "), "{line}");
    assert!(line.contains("1 token"), "{line}");
}

#[test]
fn group_heading_carries_the_server_and_its_subtotals() {
    let groups = group_by_namespace(&mixed_call_mix(), SortAxis::Tokens);
    let fileio = groups
        .iter()
        .find(|g| g.key == NamespaceKey::Reported("fileio".into()))
        .expect("fileio group");
    let heading = format_group_heading(fileio);
    assert!(heading.contains("fileio"), "{heading}");
    assert!(heading.contains("2 tools"), "{heading}");
    assert!(heading.contains("45 calls"), "{heading}");
    assert!(heading.contains("6,144 tokens"), "{heading}");
}

#[test]
fn the_unresolved_group_explains_itself_without_naming_a_server() {
    assert!(
        UNRESOLVED_NAMESPACE_HINT.contains("did not report"),
        "the hint says the data is missing: {UNRESOLVED_NAMESPACE_HINT}"
    );
    assert!(
        !UNRESOLVED_NAMESPACE_HINT.to_lowercase().contains("unknown"),
        "the hint must not read as a server name: {UNRESOLVED_NAMESPACE_HINT}"
    );
}

#[test]
fn sort_axis_labels_name_the_two_readings() {
    assert_eq!(SortAxis::Tokens.label(), "Token cost");
    assert_eq!(SortAxis::Calls.label(), "Call count");
}

#[test]
fn bytes_are_summed_within_a_server_only() {
    let apart = vec![
        row("a", Some("one"), 1, u64::MAX, 2),
        row("b", Some("two"), 1, u64::MAX, 1),
    ];
    assert!(rows_fit(&apart));
    let groups = group_by_namespace(&apart, SortAxis::Tokens);
    assert_eq!(groups[0].subtotal_bytes, u64::MAX);
    assert_eq!(groups[1].subtotal_bytes, u64::MAX);
    let mut state = UsageState::new();
    state.loaded(apart);
    assert_eq!(state.page().panels.len(), 2);

    assert!(!rows_fit(&vec![
        row("a", Some("one"), 1, u64::MAX, 2),
        row("b", Some("one"), 1, 1, 1),
    ]));
}

#[test]
fn tokens_are_summed_over_all_servers() {
    assert!(!rows_fit(&vec![
        row("a", Some("one"), 1, 1, u64::MAX),
        row("b", Some("two"), 1, 1, 1),
    ]));
    assert!(rows_fit(&vec![
        row("a", Some("one"), 1, 1, u64::MAX - 1),
        row("b", Some("two"), 1, 1, 1),
    ]));
    assert!(rows_fit(&Vec::new()));
}
