use mongobar::ind_keys;
use mongobar::indicator::Indicator;
use mongobar::router::{
    click_action, confirm, job_menu, menu_tabs, parse_count, Action, EventType, Job, Key, Menu,
    Route, RouteType, Router,
};

fn names(tabs: &[Route]) -> Vec<&str> {
    tabs.iter().map(|t| t.name.as_str()).collect()
}

#[test]
fn a_tab_that_opens_nothing_is_a_warning() {
    let open = Route::new(RouteType::Push, "n", "l");
    assert_eq!((open.name.as_str(), open.label.as_str(), open.red), ("n", "l", false));
    assert!(Route::new(RouteType::Pop, "n", "l").red);
    assert!(Route::new(RouteType::Quit, "n", "l").red);
    let warned = Route::new(RouteType::Push, "n", "l").with_red();
    assert!(warned.red);
    assert_eq!(warned.rtype, RouteType::Push);
    assert_eq!(warned.copy(), warned);
}

#[test]
fn menus_stack_and_name_the_path() {
    let mut router = Router::new(menu_tabs(Menu::Main));
    assert_eq!(router.current_path(), "");
    assert_eq!(router.current_tab().unwrap().name, "Stress");
    router.event(Key::Down);
    assert_eq!(router.current_tab().unwrap().name, "Replay");
    router.push(menu_tabs(Menu::Replay), 0);
    assert_eq!(router.current_path(), "/Replay");
    router.event(Key::Down);
    router.push(menu_tabs(Menu::Run), 2);
    assert_eq!(router.current_path(), "/Replay/Start");
    assert_eq!(router.current_tab().unwrap().name, "Stop");
    router.pop();
    assert_eq!(router.current_path(), "/Replay");
    assert_eq!(router.active_tab, 1);
    assert_eq!(names(&router.active_tabs), vec!["Revert", "Start", "Resume", "Back"]);
    router.pop();
    router.pop();
    assert_eq!(router.current_path(), "");
    assert_eq!(router.active_tab, 1);
    assert_eq!(names(&router.active_tabs), vec!["Stress", "Replay", "Quit"]);
}

#[test]
fn arrows_go_round_the_tabs() {
    let mut router = Router::new(menu_tabs(Menu::Main));
    assert_eq!(router.event(Key::Up), EventType::Inner);
    assert_eq!(router.active_tab, 2);
    router.event(Key::Down);
    assert_eq!(router.active_tab, 0);
    router.event(Key::Down);
    router.event(Key::Down);
    assert_eq!(router.active_tab, 2);
    router.event(Key::Up);
    assert_eq!(router.active_tab, 1);
    assert_eq!(router.event(Key::Other), EventType::Inner);
    assert_eq!(router.active_tab, 1);
    let mut empty = Router::new(vec![]);
    assert_eq!(empty.event(Key::Up), EventType::Inner);
    assert_eq!(empty.event(Key::Down), EventType::Inner);
    assert_eq!(empty.event(Key::Enter), EventType::Inner);
    assert_eq!(empty.active_tab, 0);
    assert!(empty.current_tab().is_none());
}

#[test]
fn keys_choose_the_tab_at_its_path() {
    let mut router = Router::new(menu_tabs(Menu::Main));
    assert_eq!(router.event(Key::Quit), EventType::Quit);
    assert_eq!(
        router.event(Key::Enter),
        EventType::Click("/Stress".to_string(), RouteType::Push, Key::Enter)
    );
    router.push(menu_tabs(Menu::Stress), 1);
    assert_eq!(
        router.event(Key::Left),
        EventType::Click("/Stress/Back".to_string(), RouteType::Pop, Key::Left)
    );
    router.event(Key::Up);
    assert_eq!(
        router.event(Key::Right),
        EventType::Click("/Stress/Start".to_string(), RouteType::Push, Key::Right)
    );
    assert_eq!(
        router.event(Key::Esc),
        EventType::Click("/Stress/Start".to_string(), RouteType::Pop, Key::Esc)
    );
    assert_eq!(router.active_tab, 0);
}

#[test]
fn what_each_tab_does() {
    let cases = [
        ("/Stress", Action::Open(Menu::Stress)),
        ("/Replay", Action::Open(Menu::Replay)),
        ("/Stress/OpLog", Action::ShowLog),
        ("/Stress/OpLog/ScrollUP", Action::Scroll { down: -1, right: 0 }),
        ("/Stress/OpLog/ScrollDown", Action::Scroll { down: 1, right: 0 }),
        ("/Stress/OpLog/ScrollLeft", Action::Scroll { down: 0, right: -1 }),
        ("/Stress/OpLog/ScrollRight", Action::Scroll { down: 0, right: 1 }),
        ("/Stress/Start", Action::Start(Job::Stress)),
        ("/Replay/Start", Action::Start(Job::Replay)),
        ("/Replay/Revert", Action::Start(Job::Revert)),
        ("/Replay/Resume", Action::Start(Job::Resume)),
        ("/Stress/Start/Back", Action::Back),
        ("/Replay/Start/Back", Action::Back),
        ("/Stress/Start/Stop", Action::Stop),
        ("/Replay/Start/Stop", Action::Stop),
        ("/Replay/Revert/Stop", Action::StopAndLeave),
        ("/Replay/Resume/Stop", Action::StopAndLeave),
        ("/Stress/Start/Boost+", Action::Ask { boost: true }),
        ("/Replay/Start/Boost+", Action::Ask { boost: true }),
        ("/Stress/Start/CCLimit", Action::Ask { boost: false }),
        ("/Replay/Start/CCLimit", Action::Ask { boost: false }),
        ("/Stress/Start/Boost+/Confirm", Action::Confirm { boost: true }),
        ("/Replay/Start/CCLimit/Confirm", Action::Confirm { boost: false }),
        ("/Stress/Start/Boost+/Cancel", Action::Cancel),
        ("/Replay/Start/CCLimit/Cancel", Action::Cancel),
        ("/Quit", Action::Quit),
        ("/Stress/Back", Action::Nothing),
        ("", Action::Nothing),
        ("/stress", Action::Nothing),
    ];
    for (path, action) in cases {
        assert_eq!(click_action(path, Key::Enter), action, "{}", path);
    }
    assert_eq!(
        click_action("/Stress/OpLog/ScrollLeft", Key::Left),
        Action::Scroll { down: 0, right: -10 }
    );
    assert_eq!(
        click_action("/Stress/OpLog/ScrollRight", Key::Right),
        Action::Scroll { down: 0, right: 10 }
    );
    assert_eq!(
        click_action("/Stress/OpLog/ScrollRight", Key::Left),
        Action::Scroll { down: 0, right: 1 }
    );
}

#[test]
fn the_tabs_of_each_menu() {
    assert_eq!(names(&menu_tabs(Menu::Main)), vec!["Stress", "Replay", "Quit"]);
    assert_eq!(names(&menu_tabs(Menu::Stress)), vec!["Start", "Back"]);
    assert_eq!(
        names(&menu_tabs(Menu::Replay)),
        vec!["Revert", "Start", "Resume", "Back"]
    );
    assert_eq!(
        names(&menu_tabs(Menu::OpLog)),
        vec!["ScrollUP", "ScrollDown", "ScrollLeft", "ScrollRight", "Back"]
    );
    let run = menu_tabs(Menu::Run);
    assert_eq!(names(&run), vec!["Boost+", "CCLimit", "Stop", "Back"]);
    let reds: Vec<bool> = run.iter().map(|t| t.red).collect();
    assert_eq!(reds, vec![false, false, true, true]);
    assert!(run.iter().all(|t| t.rtype == RouteType::Push));
    assert_eq!(names(&menu_tabs(Menu::Stopper)), vec!["Stop"]);
    assert_eq!(names(&menu_tabs(Menu::Popup)), vec!["Confirm", "Cancel"]);
    assert_eq!(menu_tabs(Menu::Stress)[1].rtype, RouteType::Pop);
    assert_eq!(menu_tabs(Menu::Main)[2].rtype, RouteType::Quit);
    assert_eq!(job_menu(Job::Stress), Menu::Run);
    assert_eq!(job_menu(Job::Replay), Menu::Run);
    assert_eq!(job_menu(Job::Revert), Menu::Stopper);
    assert_eq!(job_menu(Job::Resume), Menu::Stopper);
}

#[test]
fn counts_are_read_like_numbers_of_the_machine() {
    for text in ["0", "7", "10", "007", "+5", "18446744073709551615", "123456789"] {
        assert_eq!(parse_count(text), text.parse::<usize>().ok(), "{}", text);
        assert!(parse_count(text).is_some());
    }
    for text in [
        "",
        "+",
        "-1",
        "1.5",
        " 1",
        "1 ",
        "a",
        "1a",
        "++1",
        "1+",
        "18446744073709551616",
        "99999999999999999999999999",
        "١٢",
    ] {
        assert_eq!(parse_count(text), None, "{}", text);
        assert_eq!(text.parse::<usize>().ok(), None, "{}", text);
    }
}

#[test]
fn an_answer_changes_the_workers_or_the_limit() {
    let mut ind = Indicator::new().init(ind_keys(), "t".to_string());
    assert!(confirm(&mut ind, true, "10"));
    assert!(confirm(&mut ind, true, "5"));
    assert_eq!(ind.get("dyn_threads"), 15);
    assert!(confirm(&mut ind, false, "3"));
    assert!(confirm(&mut ind, false, "8"));
    assert_eq!(ind.get("dyn_cc_limit"), 8);
    assert!(!confirm(&mut ind, true, "ten"));
    assert!(!confirm(&mut ind, false, ""));
    assert_eq!(ind.get("dyn_threads"), 15);
    assert_eq!(ind.get("dyn_cc_limit"), 8);
}
