use cooking_fetch::catalog::{fill_db, Catalog};
use cooking_fetch::session::{image_caption, state_after, step, text_caption, Action, Intent, State};

const SOUP_CAKE: &str = r#"[{"name":"Soup","start":1,"end":2,"has_picture":false},{"name":"Cake","start":3,"end":5,"has_picture":true}]"#;

fn soup_cake() -> Catalog {
    fill_db(SOUP_CAKE).unwrap()
}

fn history(s: &State) -> Vec<i32> {
    match s {
        State::Start => vec![],
        State::FindRecipe(h) => h.clone(),
    }
}

#[test]
fn help_keeps_state() {
    let c = soup_cake();
    let d = step(&c, &State::FindRecipe(vec![2]), Intent::Help, 0);
    assert!(matches!(d.action, Action::ShowHelp));
    assert_eq!(history(&d.next), vec![2]);
    let d = step(&c, &State::Start, Intent::Help, 0);
    assert!(matches!(d.next, State::Start));
}

#[test]
fn accept_from_start_asks_for_selection() {
    let c = soup_cake();
    let d = step(&c, &State::Start, Intent::Accept, 3);
    assert!(matches!(d.action, Action::NeedSelection));
    assert!(matches!(d.next, State::Start));
}

#[test]
fn accept_targets_most_recent_record() {
    let c = soup_cake();
    let d = step(&c, &State::FindRecipe(vec![2, 1]), Intent::Accept, 0);
    match d.action {
        Action::SendDocument(r) => assert_eq!(r.name, "Soup"),
        other => panic!("unexpected {:?}", other),
    }
    assert!(matches!(d.next, State::Start));
    let d = step(&c, &State::FindRecipe(vec![1, 2]), Intent::Accept, 0);
    match d.action {
        Action::SendDocument(r) => assert_eq!(r.id, Some(2)),
        other => panic!("unexpected {:?}", other),
    }
}

#[test]
fn accept_with_unknown_id_keeps_state() {
    let c = soup_cake();
    let d = step(&c, &State::FindRecipe(vec![1, 9]), Intent::Accept, 0);
    assert!(matches!(d.action, Action::Unresolved(9)));
    assert_eq!(history(&d.next), vec![1, 9]);
}

#[test]
fn new_starts_a_fresh_history() {
    let c = soup_cake();
    let d = step(&c, &State::FindRecipe(vec![1, 2]), Intent::New, 0);
    assert_eq!(history(&d.next), vec![1]);
}

#[test]
fn shown_recipe_follows_picture_flag() {
    let c = soup_cake();
    let d = step(&c, &State::Start, Intent::Next, 0);
    match d.action {
        Action::ShowText(t) => assert_eq!(t, "*Soup*\n\n/accept to get the pdf\n/next for another recipe"),
        other => panic!("unexpected {:?}", other),
    }
    let d = step(&c, &State::Start, Intent::Next, 1);
    match d.action {
        Action::ShowImage(r, caption) => {
            assert_eq!(r.name, "Cake");
            assert_eq!(caption, "*Cake*\n\n/accept to get the pdf\n/next for another recipe");
        }
        other => panic!("unexpected {:?}", other),
    }
}

#[test]
fn captions_escape_only_image_titles() {
    assert_eq!(image_caption("Mac_Cheese"), "*Mac\\_Cheese*\n\n/accept to get the pdf\n/next for another recipe");
    assert_eq!(text_caption("Mac_Cheese"), "*Mac_Cheese*\n\n/accept to get the pdf\n/next for another recipe");
}

#[test]
fn nexts_visit_every_recipe_once() {
    let text = r#"[{"name":"A","start":1,"end":1},{"name":"B","start":2,"end":2},{"name":"C","start":3,"end":3}]"#;
    let c = fill_db(text).unwrap();
    for seed in 0..6u64 {
        let mut s = State::Start;
        for k in 0..3u64 {
            let d = step(&c, &s, Intent::Next, seed * 7 + k);
            s = d.next;
        }
        let mut h = history(&s);
        h.sort();
        assert_eq!(h, vec![1, 2, 3]);
        let d = step(&c, &s, Intent::Next, seed);
        assert!(matches!(d.action, Action::Exhausted));
        assert!(matches!(d.next, State::Start));
    }
}

#[test]
fn soup_and_cake_session() {
    let c = soup_cake();
    let d = step(&c, &State::Start, Intent::New, 4);
    let first = history(&d.next);
    assert_eq!(first.len(), 1);
    match (&d.action, first[0]) {
        (Action::ShowText(t), 1) => assert!(t.starts_with("*Soup*")),
        (Action::ShowImage(r, _), 2) => assert_eq!(r.name, "Cake"),
        (other, id) => panic!("unexpected {:?} for {}", other, id),
    }
    let d = step(&c, &d.next, Intent::Next, 4);
    let both = history(&d.next);
    assert_eq!(both.len(), 2);
    assert_ne!(both[0], both[1]);
    match (&d.action, both[1]) {
        (Action::ShowText(_), 1) | (Action::ShowImage(_, _), 2) => {}
        (other, id) => panic!("unexpected {:?} for {}", other, id),
    }
    let d = step(&c, &d.next, Intent::Next, 4);
    assert!(matches!(d.action, Action::Exhausted));
    assert!(matches!(d.next, State::Start));
    let d = step(&c, &d.next, Intent::Accept, 4);
    assert!(matches!(d.action, Action::NeedSelection));
    assert!(matches!(d.next, State::Start));
}

#[test]
fn failed_action_keeps_current_state() {
    let c = soup_cake();
    let current = State::FindRecipe(vec![1]);
    let d = step(&c, &current, Intent::Next, 0);
    let kept = state_after(current.clone(), d.next.clone(), false);
    assert_eq!(history(&kept), vec![1]);
    let moved = state_after(current, d.next, true);
    assert_eq!(history(&moved), vec![1, 2]);
}
