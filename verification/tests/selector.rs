use wt_manager::i18n::{Language, Messages};
use wt_manager::matcher::{score_candidate, score_candidates, MATCH_LIMIT};
use wt_manager::selector::HelpItem::{
    Cancel, Complete, Create, CreateBranch, Delete, DeleteIfExact, Edit, Search, Select,
};
use wt_manager::selector::{
    display_rows, filter_candidates, list_view, ListView, filter_scored, find_exact, help_for, help_line, intent,
    strip_annotation, top_index, Intent, Key, KeyPress, Row, Selector, SelectorAction,
    Step,
};

fn labels(items: &[&str]) -> Vec<String> {
    items.iter().map(|s| s.to_string()).collect()
}

fn press(key: Key) -> KeyPress {
    KeyPress { key, ctrl: false, pressed: true }
}

fn ctrl(c: char) -> KeyPress {
    KeyPress { key: Key::Char(c), ctrl: true, pressed: true }
}

fn typed(selector: Selector, text: &str) -> Selector {
    let mut state = selector;
    for c in text.chars() {
        state = match state.handle_key(press(Key::Char(c))) {
            Step::Continue(next) => next,
            Step::Finished(action) => panic!("typing ended the session: {:?}", action),
        };
    }
    state
}

fn worktree_screen() -> Selector {
    Selector::new(labels(&["main (main)", "feature-a", "feature-b"]), true, true)
}

#[test]
fn strip_annotation_cuts_at_first_space_paren() {
    assert_eq!(strip_annotation("main (main)"), "main");
    assert_eq!(strip_annotation("proj (/home/u/proj)"), "proj");
    assert_eq!(strip_annotation("a (b) (c)"), "a");
    assert_eq!(strip_annotation("feature-a"), "feature-a");
    assert_eq!(strip_annotation("x("), "x(");
    assert_eq!(strip_annotation(" ("), "");
    assert_eq!(strip_annotation(" "), " ");
    assert_eq!(strip_annotation(""), "");
}

#[test]
fn find_exact_ignores_case_and_annotation() {
    let items = labels(&["main (main)", "Feature-A", "feature-a"]);
    assert_eq!(find_exact(&items, "MAIN"), Some(0));
    assert_eq!(find_exact(&items, "feature-a"), Some(1));
    assert_eq!(find_exact(&items, "main (main)"), None);
    assert_eq!(find_exact(&items, "feat"), None);
    assert_eq!(find_exact(&items, ""), None);
}

#[test]
fn matcher_scores_as_the_skim_matcher() {
    assert_eq!(score_candidate("", ""), Some(0));
    assert_eq!(score_candidate("abcdefaghi", ""), Some(0));
    assert_eq!(score_candidate("", "a"), None);
    assert_eq!(score_candidate("abc", "abx"), None);
    assert!(score_candidate("axbycz", "abc").is_some());
    assert!(score_candidate("feature-a", "feat").unwrap() > 0);
}

#[test]
fn matcher_is_case_sensitive_only_for_capitals_in_the_query() {
    assert!(score_candidate("Main", "main").is_some());
    assert_eq!(score_candidate("main", "MAIN"), None);
}

#[test]
fn overlong_query_matches_nothing() {
    let long = "a".repeat(MATCH_LIMIT + 1);
    assert_eq!(score_candidate("a", &long), None);
    assert_eq!(score_candidate(&long, &long), None);
    assert_eq!(filter_candidates(&labels(&["a", "b"]), &long), Vec::<usize>::new());
}

#[test]
fn labels_of_any_length_are_matched() {
    let label = "a".repeat(100_000);
    assert!(score_candidate(&label, "aaa").is_some());
    assert!(score_candidate(&label, &label.to_uppercase()).is_none());
    let query = "a".repeat(2_000);
    let same = "A".repeat(2_000);
    assert!(score_candidate(&same, &query).is_some());
}

#[test]
fn query_that_spells_a_label_matches_it() {
    for (label, query) in [
        ("feature-a", "feature-a"),
        ("Feature-A", "feature-a"),
        ("Feature-A", "Feature-A"),
        ("main (main)", "main (main)"),
        ("x", "x"),
        ("", ""),
        ("ÉCOLE", "École"),
    ] {
        if query.chars().any(|c| c.is_ascii_uppercase()) {
            assert_eq!(label, query);
        }
        assert!(score_candidate(label, query).is_some());
        assert!(filter_candidates(&labels(&["other", label]), query).contains(&1));
    }
}

#[test]
fn scores_come_in_candidate_order() {
    let items = labels(&["main (main)", "feature-a", "zzz"]);
    let scores = score_candidates(&items, "feat");
    assert_eq!(scores.len(), 3);
    assert_eq!(scores[0], None);
    assert_eq!(scores[1], score_candidate("feature-a", "feat"));
    assert_eq!(scores[2], None);
}

#[test]
fn empty_query_keeps_candidate_order() {
    let items = labels(&["zeta", "alpha", "main (main)", "alpha"]);
    assert_eq!(filter_candidates(&items, ""), vec![0, 1, 2, 3]);
    assert_eq!(filter_candidates(&Vec::new(), ""), Vec::<usize>::new());
}

#[test]
fn query_feat_keeps_the_feature_branches() {
    let items = labels(&["main (main)", "feature-a", "feature-b"]);
    let shown = filter_candidates(&items, "feat");
    assert!(shown.contains(&1));
    assert!(shown.contains(&2));
    assert!(!shown.contains(&0));
    assert_eq!(shown, vec![1, 2]);
}

#[test]
fn better_matches_come_first() {
    let items = labels(&["a-x-b-x-c", "abc", "zzz", "abc"]);
    let scores = score_candidates(&items, "abc");
    assert!(scores[1].unwrap() > scores[0].unwrap());
    assert_eq!(filter_candidates(&items, "abc"), vec![1, 3, 0]);
}

#[test]
fn filter_scored_ranks_given_scores() {
    let scores = vec![Some(4), None, Some(9), Some(4)];
    assert_eq!(filter_scored(&scores, false), vec![2, 0, 3]);
    assert_eq!(filter_scored(&scores, true), vec![0, 1, 2, 3]);
    assert_eq!(top_index(&scores, false), Some(2));
    assert_eq!(top_index(&scores, true), Some(0));
    assert_eq!(top_index(&vec![None, None], false), None);
    assert_eq!(top_index(&Vec::new(), true), None);
}

#[test]
fn full_label_in_any_case_is_found() {
    let items = labels(&["main (main)", "Feature-A", "feature-b"]);
    let shown = filter_candidates(&items, "feature-a");
    assert!(shown.contains(&1));
    assert_eq!(find_exact(&items, "feature-a"), Some(1));
    assert_eq!(find_exact(&items, "FEATURE-B"), Some(2));
}

#[test]
fn keys_mean_what_the_selector_says() {
    assert_eq!(intent(ctrl('c')), Intent::Cancel);
    assert_eq!(intent(press(Key::Esc)), Intent::Cancel);
    assert_eq!(intent(ctrl('b')), Intent::Create);
    assert_eq!(intent(ctrl('x')), Intent::Delete);
    assert_eq!(intent(ctrl('a')), Intent::Insert('a'));
    assert_eq!(intent(ctrl('C')), Intent::Insert('C'));
    assert_eq!(intent(press(Key::Char('c'))), Intent::Insert('c'));
    assert_eq!(intent(press(Key::Backspace)), Intent::Erase);
    assert_eq!(intent(press(Key::Tab)), Intent::Complete);
    assert_eq!(intent(press(Key::Enter)), Intent::Submit);
    assert_eq!(intent(press(Key::Other)), Intent::Ignore);
    assert_eq!(
        intent(KeyPress { key: Key::Enter, ctrl: false, pressed: false }),
        Intent::Ignore
    );
}

#[test]
fn session_starts_with_empty_query() {
    let state = worktree_screen();
    assert_eq!(state.query, "");
    assert_eq!(state.candidates, labels(&["main (main)", "feature-a", "feature-b"]));
    assert!(state.allow_create);
    assert!(state.allow_delete);
}

#[test]
fn typing_and_erasing_edit_the_query() {
    let state = typed(worktree_screen(), "fe");
    assert_eq!(state.query, "fe");
    let state = match state.handle_key(press(Key::Backspace)) {
        Step::Continue(next) => next,
        Step::Finished(_) => panic!("erasing ended the session"),
    };
    assert_eq!(state.query, "f");
    let state = match state.handle_key(press(Key::Backspace)) {
        Step::Continue(next) => next,
        Step::Finished(_) => panic!("erasing ended the session"),
    };
    assert_eq!(state.query, "");
    match state.handle_key(press(Key::Backspace)) {
        Step::Continue(next) => assert_eq!(next, worktree_screen()),
        Step::Finished(_) => panic!("erasing ended the session"),
    }
}

#[test]
fn enter_selects_top_candidate_without_annotation() {
    assert_eq!(
        worktree_screen().handle_key(press(Key::Enter)),
        Step::Finished(SelectorAction::Select("main".to_string()))
    );
    assert_eq!(
        typed(worktree_screen(), "feat").handle_key(press(Key::Enter)),
        Step::Finished(SelectorAction::Select("feature-a".to_string()))
    );
}

#[test]
fn enter_without_matches_changes_nothing() {
    let state = typed(worktree_screen(), "zzz");
    assert_eq!(
        state.handle_key(press(Key::Enter)),
        Step::Continue(typed(worktree_screen(), "zzz"))
    );
    let empty = Selector::new(Vec::new(), true, true);
    assert_eq!(
        empty.handle_key(press(Key::Enter)),
        Step::Continue(Selector::new(Vec::new(), true, true))
    );
}

#[test]
fn tab_completes_to_top_candidate() {
    match typed(worktree_screen(), "b").handle_key(press(Key::Tab)) {
        Step::Continue(next) => assert_eq!(next.query, "feature-b"),
        Step::Finished(_) => panic!("completion ended the session"),
    }
    match worktree_screen().handle_key(press(Key::Tab)) {
        Step::Continue(next) => assert_eq!(next.query, "main"),
        Step::Finished(_) => panic!("completion ended the session"),
    }
    match typed(worktree_screen(), "zzz").handle_key(press(Key::Tab)) {
        Step::Continue(next) => assert_eq!(next.query, "zzz"),
        Step::Finished(_) => panic!("completion ended the session"),
    }
}

#[test]
fn create_needs_leave_and_a_query() {
    assert_eq!(
        typed(worktree_screen(), "new-branch").handle_key(ctrl('b')),
        Step::Finished(SelectorAction::CreateNew("new-branch".to_string()))
    );
    assert_eq!(
        typed(worktree_screen(), "feature-a").handle_key(ctrl('b')),
        Step::Finished(SelectorAction::CreateNew("feature-a".to_string()))
    );
    assert_eq!(worktree_screen().handle_key(ctrl('b')), Step::Continue(worktree_screen()));
    let closed = Selector::new(labels(&["a"]), false, false);
    assert_eq!(
        typed(closed, "x").handle_key(ctrl('b')),
        Step::Continue(typed(Selector::new(labels(&["a"]), false, false), "x"))
    );
}

#[test]
fn delete_needs_leave_and_an_exact_match() {
    assert_eq!(
        typed(worktree_screen(), "FEATURE-A").handle_key(ctrl('x')),
        Step::Finished(SelectorAction::Delete("feature-a".to_string()))
    );
    assert_eq!(
        typed(worktree_screen(), "main").handle_key(ctrl('x')),
        Step::Finished(SelectorAction::Delete("main".to_string()))
    );
    assert_eq!(
        typed(worktree_screen(), "feat").handle_key(ctrl('x')),
        Step::Continue(typed(worktree_screen(), "feat"))
    );
    assert_eq!(worktree_screen().handle_key(ctrl('x')), Step::Continue(worktree_screen()));
    let no_delete = Selector::new(labels(&["feature-a"]), true, false);
    assert_eq!(
        typed(no_delete, "feature-a").handle_key(ctrl('x')),
        Step::Continue(typed(Selector::new(labels(&["feature-a"]), true, false), "feature-a"))
    );
}

#[test]
fn escape_and_control_c_cancel() {
    assert_eq!(
        worktree_screen().handle_key(press(Key::Esc)),
        Step::Finished(SelectorAction::Cancel)
    );
    assert_eq!(
        typed(worktree_screen(), "fe").handle_key(ctrl('c')),
        Step::Finished(SelectorAction::Cancel)
    );
}

#[test]
fn other_keys_and_releases_are_ignored() {
    assert_eq!(worktree_screen().handle_key(press(Key::Other)), Step::Continue(worktree_screen()));
    assert_eq!(
        worktree_screen().handle_key(KeyPress { key: Key::Enter, ctrl: false, pressed: false }),
        Step::Continue(worktree_screen())
    );
}

#[test]
fn handle_key_scored_uses_the_given_scores() {
    let state = typed(worktree_screen(), "x");
    let scores = vec![Some(1), Some(1), Some(5)];
    assert_eq!(
        state.handle_key_scored(press(Key::Enter), &scores),
        Step::Finished(SelectorAction::Select("feature-b".to_string()))
    );
    let state = typed(worktree_screen(), "x");
    let none = vec![None, None, None];
    assert_eq!(
        state.handle_key_scored(press(Key::Enter), &none),
        Step::Continue(typed(worktree_screen(), "x"))
    );
}

#[test]
fn filtered_and_exact_follow_the_query() {
    let state = typed(worktree_screen(), "feature-b");
    assert_eq!(state.filtered(), vec![2]);
    assert!(state.has_exact_match());
    let state = typed(worktree_screen(), "feat");
    assert!(!state.has_exact_match());
}

#[test]
fn list_shows_at_most_ten_rows() {
    let shown: Vec<usize> = (0..12).rev().collect();
    let rows = display_rows(&shown, false);
    assert_eq!(rows.len(), 10);
    assert_eq!(rows[0], Row::Candidate(11));
    assert_eq!(rows[9], Row::Candidate(2));
    assert_eq!(display_rows(&vec![4, 2], true), vec![Row::Candidate(4), Row::Candidate(2)]);
}

#[test]
fn list_counts_every_match() {
    let shown: Vec<usize> = (0..12).collect();
    let view = list_view(&shown, false);
    assert_eq!(view.total, 12);
    assert_eq!(view.rows.len(), 10);
    assert_eq!(list_view(&Vec::new(), false), ListView { rows: vec![Row::CreateHint], total: 0 });
}

#[test]
fn list_offers_creation_when_nothing_matches() {
    assert_eq!(display_rows(&Vec::new(), false), vec![Row::CreateHint]);
    assert_eq!(display_rows(&Vec::new(), true), Vec::<Row>::new());
}

#[test]
fn help_offers_what_is_enabled() {
    assert_eq!(
        help_for(true, true, true, false, false),
        vec![Search, Complete, Select, Create, DeleteIfExact, Cancel]
    );
    assert_eq!(help_for(true, true, false, true, false), vec![CreateBranch, Edit, Cancel]);
    assert_eq!(
        help_for(true, true, false, false, true),
        vec![Complete, Select, Create, Delete, Edit, Cancel]
    );
    assert_eq!(
        help_for(true, true, false, false, false),
        vec![Complete, Select, Create, Edit, Cancel]
    );
    assert_eq!(
        help_for(true, false, true, false, true),
        vec![Search, Complete, Select, Create, Cancel]
    );
    assert_eq!(help_for(true, false, false, true, false), vec![CreateBranch, Edit, Cancel]);
    assert_eq!(
        help_for(true, false, false, false, true),
        vec![Complete, Select, Create, Edit, Cancel]
    );
    assert_eq!(help_for(false, false, false, true, false),
        vec![Search, Complete, Select, Cancel]);
    assert_eq!(help_for(false, true, false, false, true),
        vec![Search, Complete, Select, Cancel]);
}

#[test]
fn help_line_joins_the_wordings() {
    let english = Messages::with_language(Language::English);
    assert_eq!(
        help_line(&english, &help_for(true, true, true, false, false)),
        "Type to search | Tab: Autocomplete | Enter: Select | Ctrl+B: Create | Ctrl+X: Delete (exact match) | Ctrl+C/Esc: Cancel"
    );
    assert_eq!(
        help_line(&english, &help_for(true, true, false, true, false)),
        "Ctrl+B: Create new branch | Backspace: Edit | Ctrl+C/Esc: Cancel"
    );
    assert_eq!(help_line(&english, &Vec::new()), "");
    let korean = Messages::with_language(Language::Korean);
    assert_eq!(
        help_line(&korean, &help_for(false, false, true, false, false)),
        "검색어 입력 | Tab: 자동완성 | Enter: 선택 | Ctrl+C/Esc: 취소"
    );
}
