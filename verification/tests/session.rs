use tuitools::calc::session::{
    filter_pasted, handle_action, handle_char, history_index, history_next, history_prev,
    remember, yank_source, Action, KeyAction, Reaction, Screen, YankSource, MAX_HISTORY,
};

fn screen(tab: usize, focus: usize) -> Screen {
    Screen { tab, focus, show_help: false, history_len: 3, selected: Some(1) }
}

#[test]
fn keys_of_the_calculator() {
    for c in "0123456789.+-*/^()'".chars() {
        assert_eq!(handle_char(c, "1"), KeyAction::Insert(c));
    }
    assert_eq!(handle_char(' ', ""), KeyAction::Ignore);
    assert_eq!(handle_char(' ', "1 "), KeyAction::Ignore);
    assert_eq!(handle_char(' ', "1"), KeyAction::Insert(' '));
    assert_eq!(handle_char(':', ""), KeyAction::Insert('/'));
    assert_eq!(handle_char('x', ""), KeyAction::Insert('*'));
    assert_eq!(handle_char('X', ""), KeyAction::Insert('*'));
    assert_eq!(handle_char('=', "1+1"), KeyAction::Evaluate);
    assert_eq!(handle_char('a', "1+1"), KeyAction::Reject);
    assert_eq!(handle_char('\n', "1+1"), KeyAction::Reject);
}

#[test]
fn pasted_text_is_filtered() {
    assert_eq!(filter_pasted("2 x 3 : (4^2) = 1'000"), "2 * 3 / (4^2)  1000");
    assert_eq!(filter_pasted("abc"), "");
    assert_eq!(filter_pasted(""), "");
    assert_eq!(filter_pasted("1.5X-2"), "1.5*-2");
}

#[test]
fn history_keeps_the_newest() {
    let mut history: Vec<(String, String)> = Vec::new();
    for i in 0..MAX_HISTORY + 5 {
        remember(&mut history, format!("{i}+0"), format!("{i}"));
    }
    assert_eq!(history.len(), MAX_HISTORY);
    assert_eq!(history[0], ("5+0".to_string(), "5".to_string()));
    assert_eq!(history[MAX_HISTORY - 1], ("1004+0".to_string(), "1004".to_string()));
}

#[test]
fn selection_moves_in_a_circle() {
    assert_eq!(history_next(None, 0), None);
    assert_eq!(history_next(Some(3), 0), Some(3));
    assert_eq!(history_next(None, 3), Some(0));
    assert_eq!(history_next(Some(0), 3), Some(1));
    assert_eq!(history_next(Some(2), 3), Some(0));
    assert_eq!(history_next(Some(9), 3), Some(0));
    assert_eq!(history_prev(None, 0), None);
    assert_eq!(history_prev(None, 3), Some(2));
    assert_eq!(history_prev(Some(0), 3), Some(2));
    assert_eq!(history_prev(Some(2), 3), Some(1));
    assert_eq!(history_index(0, 3), Some(2));
    assert_eq!(history_index(2, 3), Some(0));
    assert_eq!(history_index(3, 3), None);
    assert_eq!(history_index(0, 0), None);
}

#[test]
fn help_takes_the_keys_while_it_is_open() {
    let open = Screen { show_help: true, ..screen(0, 0) };
    assert_eq!(handle_action(Action::Help, &open, ""), Reaction::CloseHelp);
    assert_eq!(handle_action(Action::Back, &open, "1"), Reaction::CloseHelp);
    assert_eq!(handle_action(Action::Quit, &open, ""), Reaction::CloseHelp);
    assert_eq!(handle_action(Action::Char('1'), &open, ""), Reaction::Nothing);
    assert_eq!(handle_action(Action::Select, &open, "1+1"), Reaction::Nothing);
    assert_eq!(handle_action(Action::Delete, &open, "1+1"), Reaction::Nothing);
}

#[test]
fn actions_on_the_calculator_tab() {
    let typing = screen(0, 0);
    let result = screen(0, 1);
    assert_eq!(handle_action(Action::Quit, &typing, ""), Reaction::Quit);
    assert_eq!(handle_action(Action::Help, &typing, ""), Reaction::OpenHelp);
    assert_eq!(handle_action(Action::Left, &typing, ""), Reaction::PreviousTab);
    assert_eq!(handle_action(Action::Right, &typing, ""), Reaction::NextTab);
    assert_eq!(handle_action(Action::Select, &typing, "1+1"), Reaction::Evaluate);
    assert_eq!(handle_action(Action::Select, &result, ""), Reaction::Evaluate);
    assert_eq!(handle_action(Action::Back, &typing, "1+"), Reaction::DeleteLast);
    assert_eq!(handle_action(Action::Back, &typing, ""), Reaction::Nothing);
    assert_eq!(handle_action(Action::Up, &typing, ""), Reaction::Nothing);
    assert_eq!(handle_action(Action::Up, &result, ""), Reaction::Focus(0));
    assert_eq!(handle_action(Action::Down, &typing, ""), Reaction::Focus(1));
    assert_eq!(handle_action(Action::Down, &result, ""), Reaction::Nothing);
    assert_eq!(handle_action(Action::Top, &typing, ""), Reaction::Insert('0'));
    assert_eq!(handle_action(Action::Top, &result, ""), Reaction::Nothing);
    assert_eq!(handle_action(Action::Bottom, &typing, ""), Reaction::Nothing);
    assert_eq!(handle_action(Action::VolumeUp, &typing, ""), Reaction::Insert('+'));
    assert_eq!(handle_action(Action::VolumeDown, &typing, ""), Reaction::Insert('-'));
    assert_eq!(handle_action(Action::Search, &typing, ""), Reaction::Insert('/'));
    assert_eq!(handle_action(Action::VolumeUp, &result, ""), Reaction::Nothing);
    assert_eq!(handle_action(Action::Search, &result, ""), Reaction::Nothing);
    assert_eq!(handle_action(Action::Delete, &result, ""), Reaction::Clear);
    assert_eq!(handle_action(Action::Paste, &typing, ""), Reaction::Paste);
    assert_eq!(handle_action(Action::Paste, &result, ""), Reaction::Nothing);
    assert_eq!(handle_action(Action::Yank, &result, ""), Reaction::Yank);
    assert_eq!(handle_action(Action::Other, &typing, ""), Reaction::Nothing);
}

#[test]
fn characters_on_the_screen() {
    let typing = screen(0, 0);
    assert_eq!(handle_action(Action::Char('7'), &typing, ""), Reaction::Insert('7'));
    assert_eq!(handle_action(Action::Char('x'), &typing, "2"), Reaction::Insert('*'));
    assert_eq!(handle_action(Action::Char(':'), &typing, "2"), Reaction::Insert('/'));
    assert_eq!(handle_action(Action::Char(' '), &typing, "2"), Reaction::InsertSpace);
    assert_eq!(handle_action(Action::Char(' '), &typing, "2 "), Reaction::Nothing);
    assert_eq!(handle_action(Action::Char(' '), &typing, ""), Reaction::Nothing);
    assert_eq!(handle_action(Action::Char('='), &typing, "2+2"), Reaction::Evaluate);
    assert_eq!(handle_action(Action::Char('a'), &typing, "2+2"), Reaction::Reject('a'));
    assert_eq!(handle_action(Action::Char('7'), &screen(0, 1), ""), Reaction::Nothing);
    assert_eq!(handle_action(Action::Char('7'), &screen(1, 0), ""), Reaction::Nothing);
}

#[test]
fn actions_on_the_history_tab() {
    let history = screen(1, 0);
    let empty = Screen { history_len: 0, selected: None, ..history };
    assert_eq!(handle_action(Action::Select, &history, "1+1"), Reaction::Nothing);
    assert_eq!(handle_action(Action::Back, &history, "1+1"), Reaction::Nothing);
    assert_eq!(handle_action(Action::Up, &history, ""), Reaction::SelectRow(Some(0)));
    assert_eq!(handle_action(Action::Down, &history, ""), Reaction::SelectRow(Some(2)));
    assert_eq!(handle_action(Action::Top, &history, ""), Reaction::SelectRow(Some(0)));
    assert_eq!(handle_action(Action::Bottom, &history, ""), Reaction::SelectRow(Some(2)));
    assert_eq!(handle_action(Action::Up, &empty, ""), Reaction::SelectRow(None));
    assert_eq!(handle_action(Action::Top, &empty, ""), Reaction::Nothing);
    assert_eq!(handle_action(Action::Bottom, &empty, ""), Reaction::Nothing);
    assert_eq!(handle_action(Action::Up, &screen(2, 0), ""), Reaction::Nothing);
    assert_eq!(handle_action(Action::Down, &screen(2, 0), ""), Reaction::Nothing);
}

#[test]
fn what_is_copied() {
    assert_eq!(yank_source(&screen(0, 0)), YankSource::Input);
    assert_eq!(yank_source(&screen(0, 1)), YankSource::Result);
    assert_eq!(yank_source(&screen(1, 0)), YankSource::History(1));
    let first = Screen { selected: Some(0), ..screen(1, 0) };
    assert_eq!(yank_source(&first), YankSource::History(2));
    let beyond = Screen { selected: Some(3), ..screen(1, 0) };
    assert_eq!(yank_source(&beyond), YankSource::Nothing);
    let none = Screen { selected: None, ..screen(1, 0) };
    assert_eq!(yank_source(&none), YankSource::Nothing);
    assert_eq!(yank_source(&screen(2, 0)), YankSource::Nothing);
}
